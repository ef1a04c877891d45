//! The errors of the audio source and the text each one is reported with.
use vstd::prelude::*;

verus! {

/// What went wrong, with the text of its cause where it has one.
#[derive(Debug)]
pub enum Error {
    /// The settings could not be resolved; holds the resolver's message.
    Configuration(String),
    /// A socket or poller operation failed; holds the system's message.
    IO(String),
    /// The sample channel between the threads was closed.
    Channel(String),
    /// The codec refused a call or a frame.
    Codec(String),
    /// A worker thread ended by panicking.
    System,
}

/// The outcome of an operation of the audio source.
pub type Result<T> = core::result::Result<T, Error>;

/// The text that `Display` writes for each error.
pub open spec fn error_message(e: Error) -> Seq<char> {
    match e {
        Error::Configuration(m) => "Configuration error: "@ + m@,
        Error::IO(m) => "IO error: "@ + m@,
        Error::Channel(m) => "Channel error: "@ + m@,
        Error::Codec(m) => "Codec error: "@ + m@,
        Error::System => "System error"@,
    }
}

fn prefixed(prefix: &str, cause: &String) -> (s: String)
    ensures
        s@ == prefix@ + cause@,
{
    let mut s = String::from_str(prefix);
    s.append(cause.as_str());
    s
}

impl Error {
    /// The human-readable report of this error, as the program prints it.
    pub fn message(&self) -> (s: String)
        ensures
            s@ == error_message(*self),
    {
        match self {
            Error::Configuration(e) => prefixed("Configuration error: ", e),
            Error::IO(e) => prefixed("IO error: ", e),
            Error::Channel(e) => prefixed("Channel error: ", e),
            Error::Codec(e) => prefixed("Codec error: ", e),
            Error::System => String::from_str("System error"),
        }
    }
}

} // verus!
