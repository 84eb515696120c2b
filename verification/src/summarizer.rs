//! The summarizer abstraction.

use vstd::prelude::*;

verus! {

/// Turns the text of a timed transcript into the text of a summary.
pub trait Summarizer {
    fn summarize(&self, webvtt: &str) -> Result<String, String>;
}

} // verus!
