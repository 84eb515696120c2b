//! The transcriber abstraction.

use vstd::prelude::*;

verus! {

/// Turns the audio in `in_file` into a timed transcript in `out_file`.
pub trait Transcriber {
    fn transcribe(&self, in_file: &str, out_file: &str) -> Result<(), String>;
}

/// Why no transcript was made.
#[derive(Debug)]
pub enum TranscribeError {
    /// The remote strategy is chosen and no credential is given.
    MissingCredential,
    /// The strategy failed, with what it reported.
    Failed(String),
    /// What was reported does not answer the work that was asked for.
    Unexpected,
}

} // verus!
