//! The decisions of the central use case (ingest, transcribe, format,
//! persist) as a state machine. The application performs each action that
//! the machine asks for (download, transcription, storage) and hands the
//! outcome back as the next event.
use vstd::prelude::*;

use crate::errors::{
    fetch_message, storage_message, transcription_message, AudioFetchError, DomainError,
    StorageError, SubmitError, TranscriptionError,
};
use crate::formatter::{Formatter, NoteMeta};
use crate::note::{derived_title, fallback_title, source_label, Note, NoteSource};
use crate::ports::{AudioData, AudioInput, ProcessOutcome, RemoteAudioRef, StoredReference};
use crate::time::UtcTimestamp;
use crate::typestate::{Formatted, Transcribed};
use crate::value::{
    AudioDurationSecs, AudioFilePath, FormattedOutputStyle, LanguageIso, MarkdownContent, NoteTitle,
    RawTranscript,
};

verus! {

/// Operating limits of the processing.
#[derive(Debug, Clone, Copy)]
pub struct Limits {
    pub max_duration_secs: u32,
    pub max_size_bytes: u64,
}

impl Default for Limits {
    /// Five minutes and 25 MiB.
    fn default() -> (r: Self)
        ensures
            r.max_duration_secs == 300,
            r.max_size_bytes == 25 * 1024 * 1024,
    {
        Limits { max_duration_secs: 300, max_size_bytes: 25 * 1024 * 1024 }
    }
}

/// The error of assembling the orchestrator without a transcription
/// engine or without a storage (checked in that order); the formatter and
/// the audio repository are optional.
pub fn assembly_error(has_engine: bool, has_storage: bool) -> (r: Option<DomainError>)
    ensures
        !has_engine ==> (r matches Some(DomainError::Infrastructure(m)) && m@
            == "missing transcription engine"@),
        has_engine && !has_storage ==> (r matches Some(DomainError::Infrastructure(m)) && m@
            == "missing storage"@),
        has_engine && has_storage ==> r is None,
{
    if !has_engine {
        return Some(DomainError::Infrastructure("missing transcription engine".to_owned()));
    }
    if !has_storage {
        return Some(DomainError::Infrastructure("missing storage".to_owned()));
    }
    None
}

/// Audio resolved and owned, ready for the engine.
#[derive(Debug)]
pub enum ResolvedAudio {
    Bytes(Vec<u8>),
    Path(AudioFilePath),
}

impl ResolvedAudio {
    /// The audio as the engine reads it.
    pub fn as_data(&self) -> (r: AudioData<'_>)
        ensures
            match (self, r) {
                (ResolvedAudio::Bytes(b), AudioData::Bytes(d)) => d@ == b@,
                (ResolvedAudio::Path(p), AudioData::Path(q)) => *q == *p,
                _ => false,
            },
    {
        match self {
            ResolvedAudio::Bytes(b) => AudioData::Bytes(b.as_slice()),
            ResolvedAudio::Path(p) => AudioData::Path(p),
        }
    }
}

/// What the application is asked to do next.
#[derive(Debug, Clone, Copy, PartialEq, Eq)]
pub enum PipelineAction {
    /// Download the remote audio (`Pipeline::remote`) with the audio repository.
    FetchAudio,
    /// Transcribe the resolved audio (`Pipeline::audio`) in the language.
    Transcribe,
    /// Persist the formatted note and its Markdown with the storage.
    Persist,
    /// Nothing: the result is ready.
    Done,
}

/// The state of one run of the pipeline.
#[derive(Debug)]
pub enum Pipeline {
    /// Waiting for the remote audio.
    Fetching {
        remote: RemoteAudioRef,
        language: LanguageIso,
        style: FormattedOutputStyle,
        duration_hint: Option<u32>,
        title: Option<NoteTitle>,
        dry_run: bool,
        limits: Limits,
    },
    /// Waiting for the transcript of the resolved audio.
    Transcribing {
        audio: ResolvedAudio,
        source: NoteSource,
        language: LanguageIso,
        style: FormattedOutputStyle,
        duration_hint: Option<u32>,
        title: Option<NoteTitle>,
        dry_run: bool,
    },
    /// Waiting for the storage to persist the note.
    Persisting { note: Note<Formatted>, markdown: MarkdownContent },
    /// Done, with the result of the use case.
    Finished { result: Result<ProcessOutcome, DomainError> },
}

/// The message of the error given for remote input without an audio
/// repository.
pub open spec fn no_repository_message() -> Seq<char> {
    "audio repository not configured for remote input"@
}

/// The error that a duration hint gives against the limits, if any.
pub open spec fn duration_error(hint: Option<u32>, limits: Limits) -> Option<DomainError> {
    match hint {
        Some(d) => if d > limits.max_duration_secs {
            Some(DomainError::AudioTooLong(d, limits.max_duration_secs))
        } else {
            None
        },
        None => None,
    }
}

/// The source a note gets from a remote reference.
pub open spec fn remote_source(r: RemoteAudioRef) -> NoteSource {
    match r {
        RemoteAudioRef::Telegram { chat_id, user_id, .. } => NoteSource::Telegram {
            chat_id,
            user_id,
        },
    }
}

impl Pipeline {
    /// The invariant of every state: a pending or finished outcome carries
    /// the Markdown of its note.
    pub open spec fn wf(&self) -> bool {
        match self {
            Pipeline::Persisting { note, markdown } => *markdown == note.spec_markdown(),
            Pipeline::Finished { result } => result matches Ok(o) ==> o.markdown
                == o.note.spec_markdown(),
            _ => true,
        }
    }

    /// The action that the state asks for.
    pub fn action(&self) -> (r: PipelineAction)
        ensures
            r == match self {
                Pipeline::Fetching { .. } => PipelineAction::FetchAudio,
                Pipeline::Transcribing { .. } => PipelineAction::Transcribe,
                Pipeline::Persisting { .. } => PipelineAction::Persist,
                Pipeline::Finished { .. } => PipelineAction::Done,
            },
    {
        match self {
            Pipeline::Fetching { .. } => PipelineAction::FetchAudio,
            Pipeline::Transcribing { .. } => PipelineAction::Transcribe,
            Pipeline::Persisting { .. } => PipelineAction::Persist,
            Pipeline::Finished { .. } => PipelineAction::Done,
        }
    }

    /// Starts a run for `input`. Local audio goes to transcription once its
    /// duration hint is within the limit; remote audio needs an audio
    /// repository and is downloaded first. A given `title` names the note in
    /// place of the derived one; with `dry_run` the formatted note is the
    /// result and nothing is persisted.
    pub fn start(
        input: AudioInput,
        language: LanguageIso,
        style: FormattedOutputStyle,
        duration_hint: Option<u32>,
        title: Option<NoteTitle>,
        dry_run: bool,
        has_audio_repository: bool,
        limits: Limits,
    ) -> (r: Self)
        ensures
            r.wf(),
            match input {
                AudioInput::Local(path) => match duration_error(duration_hint, limits) {
                    Some(e) => r == Pipeline::Finished { result: Err(e) },
                    None => r == Pipeline::Transcribing {
                        audio: ResolvedAudio::Path(path),
                        source: NoteSource::Cli { origin_path: path },
                        language,
                        style,
                        duration_hint,
                        title,
                        dry_run,
                    },
                },
                AudioInput::Remote(remote) => if has_audio_repository {
                    r == Pipeline::Fetching {
                        remote,
                        language,
                        style,
                        duration_hint,
                        title,
                        dry_run,
                        limits,
                    }
                } else {
                    r matches Pipeline::Finished { result: Err(DomainError::Infrastructure(m)) }
                        && m@ == no_repository_message()
                },
            },
    {
        match input {
            AudioInput::Local(path) => {
                if let Some(d) = duration_hint {
                    if d > limits.max_duration_secs {
                        return Pipeline::Finished {
                            result: Err(DomainError::AudioTooLong(d, limits.max_duration_secs)),
                        };
                    }
                }
                let source = NoteSource::Cli { origin_path: path.clone() };
                Pipeline::Transcribing {
                    audio: ResolvedAudio::Path(path),
                    source,
                    language,
                    style,
                    duration_hint,
                    title,
                    dry_run,
                }
            },
            AudioInput::Remote(remote) => {
                if !has_audio_repository {
                    return Pipeline::Finished {
                        result: Err(
                            DomainError::Infrastructure(
                                "audio repository not configured for remote input".to_owned(),
                            ),
                        ),
                    };
                }
                Pipeline::Fetching { remote, language, style, duration_hint, title, dry_run, limits }
            },
        }
    }

    /// The remote reference to download, in the `Fetching` state.
    pub fn remote(&self) -> (r: &RemoteAudioRef)
        requires
            self is Fetching,
        ensures
            *r == self->Fetching_remote,
    {
        match self {
            Pipeline::Fetching { remote, .. } => remote,
            _ => {
                vstd::pervasive::unreached()
            },
        }
    }

    /// Takes the download's outcome. A failed download is an
    /// infrastructure error with the download error's message. Audio larger
    /// than the size limit, or with a duration hint over the limit, is
    /// refused; otherwise it goes to transcription with the chat and user of
    /// the reference as source.
    pub fn on_fetched(self, fetched: Result<Vec<u8>, AudioFetchError>) -> (r: Self)
        requires
            self is Fetching,
        ensures
            r.wf(),
            match (self, fetched) {
                (Pipeline::Fetching { .. }, Err(e)) => r matches Pipeline::Finished {
                    result: Err(DomainError::Infrastructure(m)),
                } && m@ == fetch_message(e),
                (
                    Pipeline::Fetching {
                        remote,
                        language,
                        style,
                        duration_hint,
                        title,
                        dry_run,
                        limits,
                    },
                    Ok(bytes),
                ) => {
                    if bytes@.len() > limits.max_size_bytes {
                        r == Pipeline::Finished {
                            result: Err(
                                DomainError::AudioTooLarge(
                                    bytes@.len() as u64,
                                    limits.max_size_bytes,
                                ),
                            ),
                        }
                    } else {
                        match duration_error(duration_hint, limits) {
                            Some(e) => r == Pipeline::Finished { result: Err(e) },
                            None => r == Pipeline::Transcribing {
                                audio: ResolvedAudio::Bytes(bytes),
                                source: remote_source(remote),
                                language,
                                style,
                                duration_hint,
                                title,
                                dry_run,
                            },
                        }
                    }
                },
                _ => false,
            },
    {
        match self {
            Pipeline::Fetching { remote, language, style, duration_hint, title, dry_run, limits } => {
                match fetched {
                    Err(e) => Pipeline::Finished {
                        result: Err(DomainError::Infrastructure(e.message())),
                    },
                    Ok(bytes) => {
                        let len = bytes.len() as u64;
                        if len > limits.max_size_bytes {
                            return Pipeline::Finished {
                                result: Err(DomainError::AudioTooLarge(len, limits.max_size_bytes)),
                            };
                        }
                        if let Some(d) = duration_hint {
                            if d > limits.max_duration_secs {
                                return Pipeline::Finished {
                                    result: Err(
                                        DomainError::AudioTooLong(d, limits.max_duration_secs),
                                    ),
                                };
                            }
                        }
                        let source = match remote {
                            RemoteAudioRef::Telegram { chat_id, user_id, .. } => {
                                NoteSource::Telegram { chat_id, user_id }
                            },
                        };
                        Pipeline::Transcribing {
                            audio: ResolvedAudio::Bytes(bytes),
                            source,
                            language,
                            style,
                            duration_hint,
                            title,
                            dry_run,
                        }
                    },
                }
            },
            _ => {
                vstd::pervasive::unreached()
            },
        }
    }

    /// The audio to transcribe and its language, in the `Transcribing`
    /// state.
    pub fn audio(&self) -> (r: (&ResolvedAudio, &LanguageIso))
        requires
            self is Transcribing,
        ensures
            *r.0 == self->Transcribing_audio,
            *r.1 == self->Transcribing_language,
    {
        match self {
            Pipeline::Transcribing { audio, language, .. } => (audio, language),
            _ => {
                vstd::pervasive::unreached()
            },
        }
    }

    /// Takes the engine's outcome. A failed transcription is an
    /// infrastructure error with the engine error's message. A transcript
    /// becomes a note, titled with the given title or else from its first
    /// words (or with the fallback title), created now; the note is
    /// formatted with `formatter` and then waits to be persisted, or, in a
    /// dry run, is the result.
    pub fn on_transcribed<F: Formatter>(
        self,
        transcribed: Result<RawTranscript, TranscriptionError>,
        formatter: &F,
    ) -> (r: Self)
        requires
            self is Transcribing,
        ensures
            r.wf(),
            match (self, transcribed) {
                (Pipeline::Transcribing { .. }, Err(e)) => r matches Pipeline::Finished {
                    result: Err(DomainError::Infrastructure(m)),
                } && m@ == transcription_message(e),
                (
                    Pipeline::Transcribing {
                        audio,
                        source,
                        language,
                        style,
                        duration_hint,
                        title,
                        dry_run,
                    },
                    Ok(t),
                ) => {
                    transcribed_result(
                        r,
                        t,
                        source,
                        language,
                        style,
                        duration_hint,
                        title,
                        dry_run,
                        *formatter,
                    )
                },
                _ => false,
            },
    {
        match self {
            Pipeline::Transcribing {
                audio,
                source,
                language,
                style,
                duration_hint,
                title,
                dry_run,
            } => {
                match transcribed {
                    Err(e) => Pipeline::Finished {
                        result: Err(DomainError::Infrastructure(e.message())),
                    },
                    Ok(transcript) => {
                        let title = match title {
                            Some(t) => t,
                            None => NoteTitle::derive_or_fallback(&transcript),
                        };
                        let note = Note::new(title, language, source);
                        let note = note.transcribe(transcript);
                        let duration = match duration_hint {
                            Some(d) => match AudioDurationSecs::new(d) {
                                Ok(v) => Some(v),
                                Err(e) => {
                                    return Pipeline::Finished { result: Err(e) };
                                },
                            },
                            None => None,
                        };
                        let meta = NoteMeta {
                            date: note.created_at(),
                            duration,
                            language: note.language().clone(),
                            source: note.source().label().to_owned(),
                        };
                        match note.format(formatter, style, meta) {
                            Err(e) => Pipeline::Finished { result: Err(e) },
                            Ok(formatted) => {
                                let markdown = formatted.markdown().clone();
                                if dry_run {
                                    Pipeline::Finished {
                                        result: Ok(ProcessOutcome { note: formatted, markdown }),
                                    }
                                } else {
                                    Pipeline::Persisting { note: formatted, markdown }
                                }
                            },
                        }
                    },
                }
            },
            _ => {
                vstd::pervasive::unreached()
            },
        }
    }

    /// The note and Markdown to persist, in the `Persisting` state.
    pub fn to_persist(&self) -> (r: (&Note<Formatted>, &MarkdownContent))
        requires
            self is Persisting,
        ensures
            *r.0 == self->Persisting_note,
            *r.1 == self->Persisting_markdown,
    {
        match self {
            Pipeline::Persisting { note, markdown } => (note, markdown),
            _ => {
                vstd::pervasive::unreached()
            },
        }
    }

    /// Takes the storage's outcome: the run finishes with the note and its
    /// Markdown, or with an infrastructure error with the storage error's
    /// message.
    pub fn on_persisted(self, persisted: Result<StoredReference, StorageError>) -> (r: Self)
        requires
            self is Persisting,
            self.wf(),
        ensures
            r.wf(),
            match (self, persisted) {
                (Pipeline::Persisting { note, markdown }, Ok(_)) => r == Pipeline::Finished {
                    result: Ok(ProcessOutcome { note, markdown }),
                },
                (Pipeline::Persisting { .. }, Err(e)) => r matches Pipeline::Finished {
                    result: Err(DomainError::Infrastructure(m)),
                } && m@ == storage_message(e),
                _ => false,
            },
    {
        match self {
            Pipeline::Persisting { note, markdown } => match persisted {
                Ok(_) => Pipeline::Finished { result: Ok(ProcessOutcome { note, markdown }) },
                Err(e) => Pipeline::Finished {
                    result: Err(DomainError::Infrastructure(e.message())),
                },
            },
            _ => {
                vstd::pervasive::unreached()
            },
        }
    }

    /// The result, in the `Finished` state.
    pub fn into_result(self) -> (r: Result<ProcessOutcome, DomainError>)
        requires
            self is Finished,
            self.wf(),
        ensures
            r == self->Finished_result,
            r matches Ok(o) ==> o.markdown == o.note.spec_markdown(),
    {
        match self {
            Pipeline::Finished { result } => result,
            _ => {
                vstd::pervasive::unreached()
            },
        }
    }
}

// ---------------------------------------------------------------------------
// Queued jobs
// ---------------------------------------------------------------------------

/// How long a submitter waits for a queued job's result, in seconds.
pub const SUBMIT_TIMEOUT_SECS: u64 = 120;

/// How waiting for a queued job ended.
#[derive(Debug)]
pub enum JobReply {
    /// The queue was closed: the job could not be sent.
    QueueClosed,
    /// No reply came within `SUBMIT_TIMEOUT_SECS`.
    TimedOut,
    /// The worker went away without replying.
    Dropped,
    /// The worker's result.
    Done(Result<ProcessOutcome, DomainError>),
}

/// What submitting a job gives the submitter: the worker's outcome, or
/// the error of a closed queue, a timeout, a dropped reply or a failed
/// processing.
pub fn submit_result(reply: JobReply) -> (r: Result<ProcessOutcome, SubmitError>)
    ensures
        match reply {
            JobReply::QueueClosed => r matches Err(SubmitError::Shutdown),
            JobReply::TimedOut => r matches Err(SubmitError::Timeout),
            JobReply::Dropped => r matches Err(SubmitError::Cancelled),
            JobReply::Done(Ok(o)) => r == Ok::<ProcessOutcome, SubmitError>(o),
            JobReply::Done(Err(e)) => r == Err::<ProcessOutcome, SubmitError>(
                SubmitError::Processing(e),
            ),
        },
{
    match reply {
        JobReply::QueueClosed => Err(SubmitError::Shutdown),
        JobReply::TimedOut => Err(SubmitError::Timeout),
        JobReply::Dropped => Err(SubmitError::Cancelled),
        JobReply::Done(Ok(o)) => Ok(o),
        JobReply::Done(Err(e)) => Err(SubmitError::Processing(e)),
    }
}

/// What taking the transcript `t` leads to: the error of a zero duration
/// hint or of the formatter, or a formatted note, which waits to be
/// persisted or, in a dry run, is the result. Its title is the given one,
/// else the derived one, else the fallback title of some instant; its
/// language, source and transcript are those given; and its Markdown is
/// what the formatter gives for the metadata of the note.
pub open spec fn transcribed_result<F: Formatter>(
    r: Pipeline,
    t: RawTranscript,
    source: NoteSource,
    language: LanguageIso,
    style: FormattedOutputStyle,
    duration_hint: Option<u32>,
    title: Option<NoteTitle>,
    dry_run: bool,
    formatter: F,
) -> bool {
    if duration_hint == Some(0u32) {
        r == Pipeline::Finished { result: Err(DomainError::InvalidDuration) }
    } else {
        exists|n: Note<Transcribed>, meta: NoteMeta|
            {
                &&& n.language == language
                &&& n.source == source
                &&& n.spec_transcript() == t
                &&& (title matches Some(g) ==> n.title == g)
                &&& (title is None ==> (derived_title(t@) matches Some(x) ==> n.title@ == x))
                &&& (title is None && derived_title(t@) is None ==> exists|now: UtcTimestamp|
                    now.is_clock_reading() && n.title@ == fallback_title(now))
                &&& n.created_at.is_clock_reading()
                &&& meta.date == n.created_at
                &&& meta.language == language
                &&& meta.source@ == source_label(source)
                &&& (match duration_hint {
                    Some(d) => meta.duration matches Some(v) && v@ == d,
                    None => meta.duration is None,
                })
                &&& match #[trigger] formatter.spec_format(t, n.title, style, meta) {
                    Ok(md) => if dry_run {
                        r matches Pipeline::Finished { result: Ok(o) } && o.note.header()
                            == n.header() && o.markdown@ == md && o.markdown
                            == o.note.spec_markdown()
                    } else {
                        r matches Pipeline::Persisting { note, markdown } && note.header()
                            == n.header() && markdown@ == md && markdown == note.spec_markdown()
                    },
                    Err(e) => r == Pipeline::Finished { result: Err(e) },
                }
            }
    }
}

} // verus!
