//! Opus frame geometry and the checks around one encode call.
use vstd::prelude::*;

use crate::errors::{Error, Result};
use crate::text::{decimal, push_decimal};

verus! {

/// Size in bytes of the buffer that receives one encoded packet.
pub const MAX_PACKET_SIZE: usize = 4000;

/// Number of interleaved samples in one codec frame: whole samples per
/// millisecond of one channel, times the frame duration, times the channels.
pub open spec fn spec_frame_size(sample_rate: u32, frame_duration: u32, channels: u8) -> int {
    (sample_rate / 1000) as int * frame_duration as int * channels as int
}

/// The frame length is whole samples per millisecond (the rate divided by
/// 1000, rounded down) times the frame duration in milliseconds times the
/// channel count; it grows in proportion to the channel count, so a frame of
/// `c` interleaved channels is `c` times the frame of one channel at the
/// same rate and duration.
pub proof fn lemma_frame_size_formula(sample_rate: u32, frame_duration: u32, channels: u8)
    ensures
        spec_frame_size(sample_rate, frame_duration, channels)
            == (sample_rate as int / 1000) * frame_duration as int * channels as int,
        spec_frame_size(sample_rate, frame_duration, channels)
            == channels as int * spec_frame_size(sample_rate, frame_duration, 1),
        spec_frame_size(sample_rate, frame_duration, 0) == 0,
{
    let per_channel = (sample_rate as int / 1000) * frame_duration as int;
    assert(per_channel * channels as int == channels as int * (per_channel * 1)) by (nonlinear_arith);
}

/// The report of a frame whose length is not the codec's frame length.
pub open spec fn frame_length_message(len: nat, frame_size: nat) -> Seq<char> {
    "Frame length "@ + decimal(len) + " != "@ + decimal(frame_size)
}

/// The report of a codec context that could not be created.
pub open spec fn create_failed_message() -> Seq<char> {
    "opus_encoder_create failed"@
}

/// The codec settings of one output stream and the frame length they imply.
pub struct Encoder {
    bitrate: u32,
    frame_duration: u32,
    sample_rate: u32,
    channels: u8,
    frame_size: usize,
}

impl Encoder {
    /// Every encoder's frame length is the one its settings imply.
    #[verifier::type_invariant]
    spec fn frame_size_matches_settings(&self) -> bool {
        self.frame_size == spec_frame_size(self.sample_rate, self.frame_duration, self.channels)
    }

    /// The number of interleaved samples in one frame.
    pub closed spec fn spec_frame_size_of(&self) -> usize {
        self.frame_size
    }

    /// Bitrate, frame duration, sample rate and channel count, in that order.
    pub closed spec fn spec_settings(&self) -> (u32, u32, u32, u8) {
        (self.bitrate, self.frame_duration, self.sample_rate, self.channels)
    }

    /// The frame length as a 64-bit count; it always fits there.
    fn frame_size_u64(frame_duration: u32, sample_rate: u32, channels: u8) -> (n: u64)
        ensures
            n == spec_frame_size(sample_rate, frame_duration, channels),
    {
        let per_ms: u64 = (sample_rate as u64) / 1000;
        assert(per_ms * (frame_duration as u64) <= 4294967 * 4294967295) by (nonlinear_arith)
            requires
                per_ms <= 4294967,
        ;
        let per_channel: u64 = per_ms * (frame_duration as u64);
        assert(per_channel * (channels as u64) <= 4294967 * 4294967295 * 255) by (nonlinear_arith)
            requires
                per_channel <= 4294967 * 4294967295,
        ;
        per_channel * (channels as u64)
    }

    /// Whether the frame length of these settings can be held in a `usize`
    /// on this machine (always so where `usize` has 64 bits).
    pub fn frame_size_fits(frame_duration: u32, sample_rate: u32, channels: u8) -> (b: bool)
        ensures
            b == (spec_frame_size(sample_rate, frame_duration, channels) <= usize::MAX),
    {
        let n = Self::frame_size_u64(frame_duration, sample_rate, channels);
        n <= usize::MAX as u64
    }

    /// Sets up the encoder of one stream. `created` tells whether the codec
    /// context for these settings was obtained; without it the stream cannot
    /// be encoded and the codec error is returned.
    pub fn new(
        bitrate: u32,
        frame_duration: u32,
        sample_rate: u32,
        channels: u8,
        created: bool,
    ) -> (r: Result<Encoder>)
        requires
            spec_frame_size(sample_rate, frame_duration, channels) <= usize::MAX,
        ensures
            r is Ok <==> created,
            r matches Ok(enc) ==> {
                &&& enc.spec_settings() == (bitrate, frame_duration, sample_rate, channels)
                &&& enc.spec_frame_size_of() == spec_frame_size(sample_rate, frame_duration, channels)
                &&& enc.spec_frame_size_of() == (sample_rate as int / 1000) * frame_duration as int * channels as int
            },
            r matches Err(e) ==> e matches Error::Codec(m) && m@ == create_failed_message(),
    {
        if !created {
            return Err(Error::Codec(String::from_str("opus_encoder_create failed")));
        }
        let n = Self::frame_size_u64(frame_duration, sample_rate, channels);
        proof {
            lemma_frame_size_formula(sample_rate, frame_duration, channels);
        }
        Ok(Encoder { bitrate, frame_duration, sample_rate, channels, frame_size: n as usize })
    }

    /// Target bitrate in bits per second.
    pub fn bitrate(&self) -> (b: u32)
        ensures
            b == self.spec_settings().0,
    {
        self.bitrate
    }

    /// Frame duration in milliseconds.
    pub fn frame_duration(&self) -> (d: u32)
        ensures
            d == self.spec_settings().1,
    {
        self.frame_duration
    }

    /// Sample rate of the incoming PCM, in Hz.
    pub fn sample_rate(&self) -> (r: u32)
        ensures
            r == self.spec_settings().2,
    {
        self.sample_rate
    }

    /// Number of interleaved channels.
    pub fn channels(&self) -> (c: u8)
        ensures
            c == self.spec_settings().3,
    {
        self.channels
    }

    /// Accepts a frame for encoding only when it holds exactly one codec
    /// frame of samples; otherwise reports both lengths.
    pub fn check_frame(&self, pcm: &[i16]) -> (r: Result<()>)
        ensures
            r is Ok <==> pcm@.len() == self.spec_frame_size_of(),
            r matches Err(e) ==> e matches Error::Codec(m)
                && m@ == frame_length_message(pcm@.len(), self.spec_frame_size_of() as nat),
    {
        if pcm.len() != self.frame_size {
            let mut m = String::from_str("Frame length ");
            push_decimal(&mut m, pcm.len() as u64);
            m.append(" != ");
            push_decimal(&mut m, self.frame_size as u64);
            return Err(Error::Codec(m));
        }
        Ok(())
    }

    /// The encoded packet: the first `written` bytes of the codec's output
    /// buffer, `written` being the byte count that the codec returned.
    pub fn finish_encode(&self, buffer: &[u8], written: i32) -> (packet: Vec<u8>)
        requires
            0 <= written <= buffer@.len(),
        ensures
            packet@ == buffer@.subrange(0, written as int),
    {
        let n: usize = written as usize;
        let mut packet: Vec<u8> = Vec::with_capacity(n);
        let mut i: usize = 0;
        while i < n
            invariant
                n == written,
                n <= buffer@.len(),
                i <= n,
                packet@ == buffer@.subrange(0, i as int),
            decreases n - i,
        {
            packet.push(buffer[i]);
            i = i + 1;
        }
        packet
    }

    /// Number of interleaved samples that make up one codec frame, derived from
    /// the sample rate, frame duration and channel count.
    pub fn frame_size(&self) -> (n: usize)
        ensures
            n == self.spec_frame_size_of(),
            n == spec_frame_size(self.spec_settings().2, self.spec_settings().1, self.spec_settings().3),
            n == (self.spec_settings().2 as int / 1000) * self.spec_settings().1 as int
                * self.spec_settings().3 as int,
    {
        proof {
            use_type_invariant(self);
            lemma_frame_size_formula(self.sample_rate, self.frame_duration, self.channels);
        }
        self.frame_size
    }
}

} // verus!
