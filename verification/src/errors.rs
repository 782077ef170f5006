//! Error types of the domain and of the ports.
//!
//! Errors that carried an `std::io::Error` carry its message here.
use vstd::prelude::*;

use crate::text::{decimal, push_str, push_u64, string_of};

verus! {

/// Errors of a transcription engine.
#[derive(Debug, Clone)]
pub enum TranscriptionError {
    Engine(String),
    UnsupportedInput,
    EmptyTranscript,
    Timeout(u64),
    UnsupportedLanguage(String),
}

/// Errors of a storage adapter.
#[derive(Debug, Clone)]
pub enum StorageError {
    /// An I/O failure, by its message.
    Io(String),
    PermissionDenied(String),
}

/// Errors when resolving remote audio.
#[derive(Debug, Clone)]
pub enum AudioFetchError {
    Download(String),
    TooLarge(u64, u64),
    NotFound,
}

/// Root error of the domain and of the application.
#[derive(Debug, Clone)]
pub enum DomainError {
    EmptyTranscript,
    EmptyMarkdown,
    InvalidTitle(String),
    InvalidDuration,
    InvalidLanguage,
    InvalidStyle(String),
    Untitled,
    AudioTooLong(u32, u32),
    AudioTooLarge(u64, u64),
    Transcription(TranscriptionError),
    Storage(StorageError),
    AudioFetch(AudioFetchError),
    Infrastructure(String),
}

/// Errors of submitting work to the worker pool and waiting for it.
#[derive(Debug, Clone)]
pub enum SubmitError {
    Shutdown,
    Timeout,
    Cancelled,
    Processing(DomainError),
}

/// Errors when validating a local audio path.
#[derive(Debug, Clone)]
pub enum AudioFileError {
    NotFound(String),
    UnsupportedExtension(Option<String>),
    /// An I/O failure, by its message.
    Io(String),
    NotAFile(String),
}

/// The characters of an optional string.
pub open spec fn opt_view(o: Option<String>) -> Option<Seq<char>> {
    match o {
        Some(s) => Some(s@),
        None => None,
    }
}


// ---------------------------------------------------------------------------
// Messages
// ---------------------------------------------------------------------------

/// What `{:?}` writes for the string `s` (`<str as Debug>::fmt`).
pub uninterp spec fn spec_debug_str(s: Seq<char>) -> Seq<char>;

/// Calls `<str as Debug>::fmt` through `format!("{:?}", s)`: `s` quoted
/// and escaped. The text is a function of `s` alone.
#[verifier::external_body]
fn debug_str(s: &str) -> (r: String)
    ensures
        r@ == spec_debug_str(s@),
{
    format!("{:?}", s)
}

pub open spec fn transcription_message(e: TranscriptionError) -> Seq<char> {
    match e {
        TranscriptionError::Engine(m) => "whisper engine failed: "@ + m@,
        TranscriptionError::UnsupportedInput => "unsupported audio input for engine"@,
        TranscriptionError::EmptyTranscript => "empty transcript returned by engine"@,
        TranscriptionError::Timeout(n) => "timeout after "@ + decimal(n as int) + "s"@,
        TranscriptionError::UnsupportedLanguage(l) => "language "@ + l@ + " not supported by engine"@,
    }
}

pub open spec fn storage_message(e: StorageError) -> Seq<char> {
    match e {
        StorageError::Io(m) => "io error: "@ + m@,
        StorageError::PermissionDenied(p) => "permission denied writing to "@ + p@,
    }
}

pub open spec fn fetch_message(e: AudioFetchError) -> Seq<char> {
    match e {
        AudioFetchError::Download(m) => "download failed: "@ + m@,
        AudioFetchError::TooLarge(a, b) => "file too large: "@ + decimal(a as int) + " bytes (limit "@
            + decimal(b as int) + " bytes)"@,
        AudioFetchError::NotFound => "file not found"@,
    }
}

pub open spec fn domain_message(e: DomainError) -> Seq<char> {
    match e {
        DomainError::EmptyTranscript => "empty transcript returned by engine"@,
        DomainError::EmptyMarkdown => "empty markdown produced by formatter"@,
        DomainError::InvalidTitle(t) => "invalid title: "@ + spec_debug_str(t@),
        DomainError::InvalidDuration => "invalid duration: must be > 0"@,
        DomainError::InvalidLanguage => "invalid or unsupported language"@,
        DomainError::InvalidStyle(s) => "invalid output style: "@ + s@,
        DomainError::Untitled => "cannot derive a title from an empty transcript"@,
        DomainError::AudioTooLong(a, b) => "audio exceeds maximum duration: "@ + decimal(a as int)
            + "s > "@ + decimal(b as int) + "s"@,
        DomainError::AudioTooLarge(a, b) => "audio exceeds maximum size: "@ + decimal(a as int)
            + " > "@ + decimal(b as int) + " bytes"@,
        DomainError::Transcription(t) => "transcription error: "@ + transcription_message(t),
        DomainError::Storage(t) => "storage error: "@ + storage_message(t),
        DomainError::AudioFetch(t) => "audio fetch error: "@ + fetch_message(t),
        DomainError::Infrastructure(m) => "infrastructure error: "@ + m@,
    }
}

impl TranscriptionError {
    fn push_message(&self, out: &mut Vec<char>)
        ensures
            final(out)@ == old(out)@ + transcription_message(*self),
    {
        let ghost start = out@;
        match self {
            TranscriptionError::Engine(m) => {
                push_str(out, "whisper engine failed: ");
                push_str(out, m.as_str());
            },
            TranscriptionError::UnsupportedInput => push_str(out, "unsupported audio input for engine"),
            TranscriptionError::EmptyTranscript => push_str(out, "empty transcript returned by engine"),
            TranscriptionError::Timeout(n) => {
                push_str(out, "timeout after ");
                push_u64(out, *n);
                push_str(out, "s");
            },
            TranscriptionError::UnsupportedLanguage(l) => {
                push_str(out, "language ");
                push_str(out, l.as_str());
                push_str(out, " not supported by engine");
            },
        }
        assert(out@ =~= start + transcription_message(*self));
    }

    /// The error's message.
    pub fn message(&self) -> (r: String)
        ensures
            r@ == transcription_message(*self),
    {
        let mut out: Vec<char> = Vec::new();
        self.push_message(&mut out);
        assert(out@ =~= transcription_message(*self));
        string_of(&out)
    }
}

impl StorageError {
    fn push_message(&self, out: &mut Vec<char>)
        ensures
            final(out)@ == old(out)@ + storage_message(*self),
    {
        let ghost start = out@;
        match self {
            StorageError::Io(m) => {
                push_str(out, "io error: ");
                push_str(out, m.as_str());
            },
            StorageError::PermissionDenied(p) => {
                push_str(out, "permission denied writing to ");
                push_str(out, p.as_str());
            },
        }
        assert(out@ =~= start + storage_message(*self));
    }

    /// The error's message.
    pub fn message(&self) -> (r: String)
        ensures
            r@ == storage_message(*self),
    {
        let mut out: Vec<char> = Vec::new();
        self.push_message(&mut out);
        assert(out@ =~= storage_message(*self));
        string_of(&out)
    }
}

impl AudioFetchError {
    fn push_message(&self, out: &mut Vec<char>)
        ensures
            final(out)@ == old(out)@ + fetch_message(*self),
    {
        let ghost start = out@;
        match self {
            AudioFetchError::Download(m) => {
                push_str(out, "download failed: ");
                push_str(out, m.as_str());
            },
            AudioFetchError::TooLarge(a, b) => {
                push_str(out, "file too large: ");
                push_u64(out, *a);
                push_str(out, " bytes (limit ");
                push_u64(out, *b);
                push_str(out, " bytes)");
            },
            AudioFetchError::NotFound => push_str(out, "file not found"),
        }
        assert(out@ =~= start + fetch_message(*self));
    }

    /// The error's message.
    pub fn message(&self) -> (r: String)
        ensures
            r@ == fetch_message(*self),
    {
        let mut out: Vec<char> = Vec::new();
        self.push_message(&mut out);
        assert(out@ =~= fetch_message(*self));
        string_of(&out)
    }
}

pub open spec fn submit_message(e: SubmitError) -> Seq<char> {
    match e {
        SubmitError::Shutdown => "worker pool is shut down"@,
        SubmitError::Timeout => "processing timed out"@,
        SubmitError::Cancelled => "processing was cancelled"@,
        SubmitError::Processing(d) => "processing failed: "@ + domain_message(d),
    }
}

impl SubmitError {
    /// The error's message.
    pub fn message(&self) -> (r: String)
        ensures
            r@ == submit_message(*self),
    {
        match self {
            SubmitError::Shutdown => "worker pool is shut down".to_owned(),
            SubmitError::Timeout => "processing timed out".to_owned(),
            SubmitError::Cancelled => "processing was cancelled".to_owned(),
            SubmitError::Processing(d) => {
                let mut out: Vec<char> = Vec::new();
                push_str(&mut out, "processing failed: ");
                let m = d.message();
                push_str(&mut out, m.as_str());
                string_of(&out)
            },
        }
    }
}

impl DomainError {
    /// The error's message.
    pub fn message(&self) -> (r: String)
        ensures
            r@ == domain_message(*self),
    {
        let mut out: Vec<char> = Vec::new();
        match self {
            DomainError::EmptyTranscript => push_str(&mut out, "empty transcript returned by engine"),
            DomainError::EmptyMarkdown => push_str(&mut out, "empty markdown produced by formatter"),
            DomainError::InvalidTitle(t) => {
                push_str(&mut out, "invalid title: ");
                let d = debug_str(t.as_str());
                push_str(&mut out, d.as_str());
            },
            DomainError::InvalidDuration => push_str(&mut out, "invalid duration: must be > 0"),
            DomainError::InvalidLanguage => push_str(&mut out, "invalid or unsupported language"),
            DomainError::InvalidStyle(s) => {
                push_str(&mut out, "invalid output style: ");
                push_str(&mut out, s.as_str());
            },
            DomainError::Untitled => push_str(
                &mut out,
                "cannot derive a title from an empty transcript",
            ),
            DomainError::AudioTooLong(a, b) => {
                push_str(&mut out, "audio exceeds maximum duration: ");
                push_u64(&mut out, *a as u64);
                push_str(&mut out, "s > ");
                push_u64(&mut out, *b as u64);
                push_str(&mut out, "s");
            },
            DomainError::AudioTooLarge(a, b) => {
                push_str(&mut out, "audio exceeds maximum size: ");
                push_u64(&mut out, *a);
                push_str(&mut out, " > ");
                push_u64(&mut out, *b);
                push_str(&mut out, " bytes");
            },
            DomainError::Transcription(t) => {
                push_str(&mut out, "transcription error: ");
                t.push_message(&mut out);
            },
            DomainError::Storage(t) => {
                push_str(&mut out, "storage error: ");
                t.push_message(&mut out);
            },
            DomainError::AudioFetch(t) => {
                push_str(&mut out, "audio fetch error: ");
                t.push_message(&mut out);
            },
            DomainError::Infrastructure(m) => {
                push_str(&mut out, "infrastructure error: ");
                push_str(&mut out, m.as_str());
            },
        }
        assert(out@ =~= domain_message(*self));
        string_of(&out)
    }
}

} // verus!
