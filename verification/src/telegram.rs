//! The decisions of the Telegram audio repository: the URLs it calls,
//! how the `getFile` reply is read, and which downloads it accepts.
use vstd::prelude::*;

use crate::errors::{opt_view, AudioFetchError};
use crate::text::{push_str, string_of};

verus! {

/// Largest voice file the repository downloads: 25 MiB.
pub open spec fn max_download_bytes() -> u64 {
    26214400
}

/// Resolves Telegram voice files by the bot's token.
#[derive(Debug, Clone)]
pub struct TelegramAudioRepository {
    pub token: String,
}

/// What the application reads out of a `getFile` reply: its `ok` flag and
/// its `result.file_path`, where they are present with the right type.
#[derive(Debug, Clone)]
pub struct GetFileReply {
    pub ok: Option<bool>,
    pub file_path: Option<String>,
}

impl TelegramAudioRepository {
    pub fn new(token: String) -> (r: Self)
        ensures
            r.token == token,
    {
        TelegramAudioRepository { token }
    }

    /// `https://api.telegram.org/bot<token>/getFile`.
    pub fn get_file_url(&self) -> (r: String)
        ensures
            r@ == "https://api.telegram.org/bot"@ + self.token@ + "/getFile"@,
    {
        let mut out: Vec<char> = Vec::new();
        push_str(&mut out, "https://api.telegram.org/bot");
        push_str(&mut out, self.token.as_str());
        push_str(&mut out, "/getFile");
        string_of(&out)
    }

    /// `https://api.telegram.org/file/bot<token>/<file_path>`.
    pub fn download_url(&self, file_path: &str) -> (r: String)
        ensures
            r@ == "https://api.telegram.org/file/bot"@ + self.token@ + "/"@ + file_path@,
    {
        let mut out: Vec<char> = Vec::new();
        push_str(&mut out, "https://api.telegram.org/file/bot");
        push_str(&mut out, self.token.as_str());
        push_str(&mut out, "/");
        push_str(&mut out, file_path);
        string_of(&out)
    }

    /// The file path in a `getFile` reply: only a reply whose `ok` is true
    /// and that carries a path gives one; otherwise the file is not found.
    pub fn file_path_of(reply: GetFileReply) -> (r: Result<String, AudioFetchError>)
        ensures
            match (reply.ok, opt_view(reply.file_path)) {
                (Some(true), Some(p)) => r matches Ok(s) && s@ == p,
                _ => r matches Err(AudioFetchError::NotFound),
            },
    {
        if reply.ok != Some(true) {
            return Err(AudioFetchError::NotFound);
        }
        match reply.file_path {
            Some(p) => Ok(p),
            None => Err(AudioFetchError::NotFound),
        }
    }

    /// Whether a download is accepted: an unsuccessful status means the
    /// file is not found; more than 25 MiB is too large.
    pub fn accept_download(success: bool, len: u64) -> (r: Result<(), AudioFetchError>)
        ensures
            if !success {
                r matches Err(AudioFetchError::NotFound)
            } else if len > max_download_bytes() {
                r matches Err(AudioFetchError::TooLarge(a, b)) && a == len && b
                    == max_download_bytes()
            } else {
                r is Ok
            },
    {
        if !success {
            return Err(AudioFetchError::NotFound);
        }
        if len > 26214400 {
            return Err(AudioFetchError::TooLarge(len, 26214400));
        }
        Ok(())
    }
}

} // verus!
