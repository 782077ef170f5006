//! The stages of a note (typestate): each stage is a type, and a note
//! carries the payload of its current stage.
use vstd::prelude::*;

use crate::value::{MarkdownContent, RawTranscript};

verus! {

/// Created, audio available, not transcribed. No payload.
#[derive(Debug, Clone, Copy, PartialEq, Eq, Hash, Default)]
pub struct New;

/// Transcribed: carries the transcript.
#[derive(Debug)]
pub struct Transcribed {
    pub(crate) transcript: RawTranscript,
}

/// Formatted: carries the final Markdown.
#[derive(Debug)]
pub struct Formatted {
    pub(crate) markdown: MarkdownContent,
}

/// Terminal failure, kept for tracing.
#[derive(Debug, Clone)]
pub struct Failed {
    pub(crate) error: String,
}

impl Clone for Transcribed {
    fn clone(&self) -> (r: Self)
        ensures
            r == *self,
    {
        Transcribed { transcript: self.transcript.clone() }
    }
}

impl Clone for Formatted {
    fn clone(&self) -> (r: Self)
        ensures
            r == *self,
    {
        Formatted { markdown: self.markdown.clone() }
    }
}

} // verus!
