//! The settings of the audio source and their built-in defaults.
use vstd::prelude::*;

verus! {

/// The settings file read when no other is named.
pub const DEFAULT_CONFIG_FILE: &'static str = "radioware.toml";

/// The prefix of the environment variables that override settings.
pub const ENV_PREFIX: &'static str = "RADIOWARE_";

/// The resolved settings of the audio source.
#[derive(Debug)]
pub struct Configuration {
    /// Address the input UDP socket binds to.
    pub input_bind: String,
    /// Sample rate, in Hz, of the incoming PCM.
    pub input_samplerate: u32,
    /// Number of interleaved channels in the input stream.
    pub channels: u8,
    /// Codec frame duration, in milliseconds.
    pub frame_duration: u32,
    /// Address the output UDP socket binds to locally.
    pub output_bind: String,
    /// Destination of the encoded packets.
    pub output_host: String,
    /// Sample rate, in Hz, of the outgoing stream.
    pub output_samplerate: u32,
    /// Target codec bitrate, in bits per second.
    pub output_bitrate: u32,
}

/// The built-in settings: listen on every interface at port 8888 for mono
/// 48 kHz input in 20 ms frames, and send 16 kb/s at 8 kHz to
/// `localhost:1235` from an ephemeral port.
pub open spec fn is_default_configuration(c: Configuration) -> bool {
    &&& c.input_bind@ == "[::]:8888"@
    &&& c.input_samplerate == 48000
    &&& c.channels == 1
    &&& c.frame_duration == 20
    &&& c.output_bind@ == "[::]:0"@
    &&& c.output_host@ == "localhost:1235"@
    &&& c.output_samplerate == 8000
    &&& c.output_bitrate == 16000
}

impl Default for Configuration {
    fn default() -> (c: Configuration)
        ensures
            is_default_configuration(c),
    {
        Configuration {
            input_bind: String::from_str("[::]:8888"),
            input_samplerate: 48000,
            channels: 1,
            frame_duration: 20,
            output_bind: String::from_str("[::]:0"),
            output_host: String::from_str("localhost:1235"),
            output_samplerate: 8000,
            output_bitrate: 16000,
        }
    }
}

/// The settings file to read: the one named on the command line, or else
/// `radioware.toml` in the working directory.
pub fn config_file(named: Option<String>) -> (path: String)
    ensures
        named matches Some(p) ==> path@ == p@,
        named is None ==> path@ == DEFAULT_CONFIG_FILE@,
{
    match named {
        Some(p) => p,
        None => String::from_str(DEFAULT_CONFIG_FILE),
    }
}

} // verus!
