//! Verified core of the Radioware audio source: codec framing, the sample
//! pipeline between the input socket and the encoder, configuration defaults
//! and error reporting.
use vstd::prelude::*;

pub mod codec;
pub mod config;
pub mod errors;
pub mod input;
pub mod listener;
pub mod output;
pub mod text;

