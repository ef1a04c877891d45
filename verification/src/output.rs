//! Gathering converted samples into whole codec frames on the output side.
use vstd::prelude::*;
use vstd::seq_lib::lemma_flatten_concat;

use crate::codec::Encoder;

verus! {

/// One sample arriving at an assembler that holds `pending`: the frame it
/// completes, if any, and what is held afterwards.  A frame is handed out
/// as soon as the held samples number exactly `frame_size`.
pub open spec fn assemble_step(frame_size: nat, pending: Seq<i16>, sample: i16) -> (Option<Seq<i16>>, Seq<i16>) {
    let held = pending.push(sample);
    if held.len() == frame_size {
        (Some(held), Seq::empty())
    } else {
        (None, held)
    }
}

/// A run of samples arriving one by one: the frames handed out, in order,
/// and what is held at the end.
pub open spec fn assemble(frame_size: nat, pending: Seq<i16>, samples: Seq<i16>) -> (Seq<Seq<i16>>, Seq<i16>)
    decreases samples.len(),
{
    if samples.len() == 0 {
        (Seq::empty(), pending)
    } else {
        let (frame, held) = assemble_step(frame_size, pending, samples[0]);
        let (later, rest) = assemble(frame_size, held, samples.drop_first());
        match frame {
            Some(f) => (seq![f] + later, rest),
            None => (later, rest),
        }
    }
}

/// Collects samples until they make up one codec frame.
pub struct FrameAssembler {
    frame: Vec<i16>,
    frame_size: usize,
}

impl FrameAssembler {
    /// The samples held that do not yet make up a frame.
    pub closed spec fn pending(&self) -> Seq<i16> {
        self.frame@
    }

    /// The number of samples in one frame.
    pub closed spec fn spec_frame_size(&self) -> nat {
        self.frame_size as nat
    }

    /// An assembler for frames of `frame_size` samples, holding nothing.
    pub fn new(frame_size: usize) -> (a: FrameAssembler)
        ensures
            a.pending() == Seq::<i16>::empty(),
            a.spec_frame_size() == frame_size,
    {
        FrameAssembler { frame: Vec::with_capacity(frame_size), frame_size }
    }

    /// The number of samples in one frame.
    pub fn frame_size(&self) -> (n: usize)
        ensures
            n == self.spec_frame_size(),
    {
        self.frame_size
    }

    /// The number of samples held.
    pub fn pending_len(&self) -> (n: usize)
        ensures
            n == self.pending().len(),
    {
        self.frame.len()
    }

    /// Adds one sample; when the held samples then make up a frame, hands
    /// the frame out and starts the next one empty.
    pub fn push(&mut self, sample: i16) -> (frame: Option<Vec<i16>>)
        ensures
            final(self).spec_frame_size() == old(self).spec_frame_size(),
            ({
                let (f, held) = assemble_step(old(self).spec_frame_size(), old(self).pending(), sample);
                &&& final(self).pending() == held
                &&& f is Some <==> frame is Some
                &&& frame matches Some(v) ==> f == Some(v@)
            }),
    {
        self.frame.push(sample);
        if self.frame.len() == self.frame_size {
            let mut full: Vec<i16> = Vec::with_capacity(self.frame_size);
            std::mem::swap(&mut full, &mut self.frame);
            Some(full)
        } else {
            None
        }
    }
}

/// Frame assembly loses, duplicates and reorders nothing: the frames handed
/// out, laid end to end and followed by what is still held, are exactly the
/// samples held before followed by the samples added.  Every frame handed
/// out has exactly `frame_size` samples, and with a positive frame size an
/// assembler holding less than one frame still does so afterwards.
pub proof fn lemma_assembly_preserves_samples(frame_size: nat, pending: Seq<i16>, samples: Seq<i16>)
    ensures
        ({
            let (frames, rest) = assemble(frame_size, pending, samples);
            &&& frames.flatten() + rest == pending + samples
            &&& forall|i: int| 0 <= i < frames.len() ==> (#[trigger] frames[i]).len() == frame_size
            &&& (frame_size > 0 && pending.len() < frame_size) ==> rest.len() < frame_size
        }),
    decreases samples.len(),
{
    if samples.len() > 0 {
        let (frame, held) = assemble_step(frame_size, pending, samples[0]);
        let tail = samples.drop_first();
        lemma_assembly_preserves_samples(frame_size, held, tail);
        let (later, rest) = assemble(frame_size, held, tail);
        assert(pending + samples == pending.push(samples[0]) + tail);
        match frame {
            Some(f) => {
                lemma_flatten_concat(seq![f], later);
                assert(seq![f].flatten() == f) by {
                    assert(seq![f].drop_first().flatten() == Seq::<i16>::empty());
                }
                assert(held == Seq::<i16>::empty());
                assert(Seq::<i16>::empty() + tail == tail);
                assert(forall|i: int| 0 <= i < later.len() ==> (seq![f] + later)[i + 1] == later[i]);
            },
            None => {},
        }
    }
}

/// An assembler built for an encoder's frame size only hands out frames
/// that the encoder accepts: each has exactly the encoder's frame length.
pub proof fn lemma_assembled_frames_fit(enc: Encoder, pending: Seq<i16>, samples: Seq<i16>)
    ensures
        forall|i: int| 0 <= i < assemble(enc.spec_frame_size_of() as nat, pending, samples).0.len()
            ==> (#[trigger] assemble(enc.spec_frame_size_of() as nat, pending, samples).0[i]).len()
                == enc.spec_frame_size_of(),
{
    lemma_assembly_preserves_samples(enc.spec_frame_size_of() as nat, pending, samples);
}

} // verus!
