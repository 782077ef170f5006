//! The values that cross the edges of the application: incoming audio,
//! audio handed to an engine, the result of the pipeline, and where the
//! output was stored.
use vstd::prelude::*;

use crate::note::Note;
use crate::typestate::Formatted;
use crate::value::{AudioFilePath, MarkdownContent};

verus! {

/// Audio that is not on the local disk; the inbound adapter resolves it.
#[derive(Debug)]
pub enum RemoteAudioRef {
    /// A Telegram voice file, with its chat and user.
    Telegram { file_id: String, chat_id: i64, user_id: i64 },
}

impl Clone for RemoteAudioRef {
    fn clone(&self) -> (r: Self)
        ensures
            r == *self,
    {
        match self {
            RemoteAudioRef::Telegram { file_id, chat_id, user_id } => RemoteAudioRef::Telegram {
                file_id: file_id.clone(),
                chat_id: *chat_id,
                user_id: *user_id,
            },
        }
    }
}

/// Where incoming audio comes from.
#[derive(Debug)]
pub enum AudioInput {
    /// A validated local path.
    Local(AudioFilePath),
    /// A remote reference, resolved before transcription.
    Remote(RemoteAudioRef),
}

/// The audio that a transcription engine reads.
#[derive(Debug)]
pub enum AudioData<'a> {
    Bytes(&'a [u8]),
    Path(&'a AudioFilePath),
}

/// The result of the whole pipeline.
#[derive(Debug)]
pub struct ProcessOutcome {
    pub note: Note<Formatted>,
    pub markdown: MarkdownContent,
}

/// Where the output went once persisted.
#[derive(Debug, Clone)]
pub enum StoredReference {
    /// The path of the `.md` file written.
    FsPath(String),
    /// Delivered through an outside channel (a chat), without a file.
    Outbound,
}

} // verus!
