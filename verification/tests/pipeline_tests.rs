use voice2md::errors::{AudioFetchError, DomainError, StorageError, TranscriptionError};
use voice2md::formatter::DefaultFormatter;
use voice2md::note::NoteSource;
use voice2md::errors::SubmitError;
use voice2md::orchestrator::{submit_result, JobReply, Limits, Pipeline, PipelineAction, ResolvedAudio};
use voice2md::ports::{AudioData, AudioInput, RemoteAudioRef, StoredReference};
use voice2md::value::{
    AudioFilePath, FormattedOutputStyle, LanguageIso, NoteTitle, PathProbe, RawTranscript,
};

fn local() -> AudioInput {
    let p = "/a/clase.wav";
    let probe = PathProbe { exists: true, is_file: true, canonical: Ok(p.to_string()) };
    AudioInput::Local(AudioFilePath::try_from_path(p, probe).unwrap())
}

fn remote() -> AudioInput {
    AudioInput::Remote(RemoteAudioRef::Telegram { file_id: "F".into(), chat_id: 10, user_id: 20 })
}

fn lang() -> LanguageIso {
    LanguageIso::new("es").unwrap()
}

#[test]
fn limits_default() {
    let l = Limits::default();
    assert_eq!(l.max_duration_secs, 300);
    assert_eq!(l.max_size_bytes, 25 * 1024 * 1024);
}

#[test]
fn local_run_to_completion() {
    let p = Pipeline::start(local(), lang(), FormattedOutputStyle::Plain, Some(30), None, false, false, Limits::default());
    assert_eq!(p.action(), PipelineAction::Transcribe);
    match p.audio().0.as_data() {
        AudioData::Path(a) => assert_eq!(a.as_path(), "/a/clase.wav"),
        _ => panic!("expected a path"),
    }
    let p = p.on_transcribed(Ok(RawTranscript::new("hola mundo").unwrap()), &DefaultFormatter);
    assert_eq!(p.action(), PipelineAction::Persist);
    let (note, md) = p.to_persist();
    assert_eq!(note.markdown().as_str(), md.as_str());
    assert_eq!(note.title().as_str(), "hola mundo");
    let p = p.on_persisted(Ok(StoredReference::Outbound));
    assert_eq!(p.action(), PipelineAction::Done);
    let outcome = p.into_result().unwrap();
    assert_eq!(outcome.markdown.as_str(), "# hola mundo\n\nhola mundo\n\n");
    assert!(matches!(&outcome.note.source, NoteSource::Cli { origin_path } if origin_path.as_path() == "/a/clase.wav"));
}

#[test]
fn duration_over_limit_is_refused() {
    let p = Pipeline::start(local(), lang(), FormattedOutputStyle::Plain, Some(301), None, false, false, Limits::default());
    assert!(matches!(p.into_result(), Err(DomainError::AudioTooLong(301, 300))));
}

#[test]
fn remote_without_repository_is_refused() {
    let p = Pipeline::start(remote(), lang(), FormattedOutputStyle::Plain, None, None, false, false, Limits::default());
    match p.into_result() {
        Err(DomainError::Infrastructure(m)) => {
            assert_eq!(m, "audio repository not configured for remote input")
        }
        _ => panic!("expected an infrastructure error"),
    }
}

#[test]
fn remote_run_checks_size_then_duration() {
    let limits = Limits { max_duration_secs: 10, max_size_bytes: 4 };
    let p = Pipeline::start(remote(), lang(), FormattedOutputStyle::Obsidian, Some(11), None, false, true, limits);
    assert_eq!(p.action(), PipelineAction::FetchAudio);
    assert!(matches!(p.remote(), RemoteAudioRef::Telegram { file_id, .. } if file_id == "F"));
    let big = p.on_fetched(Ok(vec![0u8; 5]));
    assert!(matches!(big.into_result(), Err(DomainError::AudioTooLarge(5, 4))));

    let p = Pipeline::start(remote(), lang(), FormattedOutputStyle::Obsidian, Some(11), None, false, true, limits);
    let long = p.on_fetched(Ok(vec![0u8; 4]));
    assert!(matches!(long.into_result(), Err(DomainError::AudioTooLong(11, 10))));

    let p = Pipeline::start(remote(), lang(), FormattedOutputStyle::Obsidian, None, None, false, true, limits);
    let failed = p.on_fetched(Err(AudioFetchError::NotFound));
    match failed.into_result() {
        Err(DomainError::Infrastructure(m)) => assert_eq!(m, "file not found"),
        _ => panic!("expected an infrastructure error"),
    }

    let p = Pipeline::start(remote(), lang(), FormattedOutputStyle::Obsidian, Some(3), None, false, true, limits);
    let p = p.on_fetched(Ok(vec![1, 2, 3]));
    match p.audio().0 {
        ResolvedAudio::Bytes(b) => assert_eq!(b, &vec![1u8, 2, 3]),
        _ => panic!("expected bytes"),
    }
    let p = p.on_transcribed(Ok(RawTranscript::new("voz").unwrap()), &DefaultFormatter);
    let (note, md) = p.to_persist();
    assert!(matches!(note.source, NoteSource::Telegram { chat_id: 10, user_id: 20 }));
    assert!(md.as_str().contains("source: telegram\nduration: 3\n"));
}

#[test]
fn transcription_and_storage_errors_finish_the_run() {
    let p = Pipeline::start(local(), lang(), FormattedOutputStyle::Plain, None, None, false, false, Limits::default());
    let p = p.on_transcribed(Err(TranscriptionError::Timeout(9)), &DefaultFormatter);
    match p.into_result() {
        Err(DomainError::Infrastructure(m)) => assert_eq!(m, TranscriptionError::Timeout(9).message()),
        _ => panic!("expected an infrastructure error"),
    }

    let p = Pipeline::start(local(), lang(), FormattedOutputStyle::Plain, None, None, false, false, Limits::default());
    let p = p.on_transcribed(Ok(RawTranscript::new("x").unwrap()), &DefaultFormatter);
    let p = p.on_persisted(Err(StorageError::PermissionDenied("/out".into())));
    match p.into_result() {
        Err(DomainError::Infrastructure(m)) => {
            assert_eq!(m, StorageError::PermissionDenied("/out".into()).message())
        }
        _ => panic!("expected an infrastructure error"),
    }
}

#[test]
fn zero_duration_hint_fails_after_transcription() {
    let p = Pipeline::start(local(), lang(), FormattedOutputStyle::Plain, Some(0), None, false, false, Limits::default());
    assert_eq!(p.action(), PipelineAction::Transcribe);
    let p = p.on_transcribed(Ok(RawTranscript::new("x").unwrap()), &DefaultFormatter);
    assert!(matches!(p.into_result(), Err(DomainError::InvalidDuration)));
}

#[test]
fn given_title_names_the_note() {
    let title = NoteTitle::new("Clase de álgebra").unwrap();
    let p = Pipeline::start(local(), lang(), FormattedOutputStyle::Plain, None, Some(title), false, false, Limits::default());
    let p = p.on_transcribed(Ok(RawTranscript::new("hola mundo").unwrap()), &DefaultFormatter);
    let (note, md) = p.to_persist();
    assert_eq!(note.title().as_str(), "Clase de álgebra");
    assert_eq!(md.as_str(), "# Clase de álgebra\n\nhola mundo\n\n");
}

#[test]
fn dry_run_skips_persisting() {
    let p = Pipeline::start(local(), lang(), FormattedOutputStyle::Plain, None, None, true, false, Limits::default());
    let p = p.on_transcribed(Ok(RawTranscript::new("hola mundo").unwrap()), &DefaultFormatter);
    assert_eq!(p.action(), PipelineAction::Done);
    let outcome = p.into_result().unwrap();
    assert_eq!(outcome.markdown.as_str(), "# hola mundo\n\nhola mundo\n\n");
    assert_eq!(outcome.note.markdown().as_str(), outcome.markdown.as_str());
}

#[test]
fn submit_results_map_each_reply() {
    assert!(matches!(submit_result(JobReply::QueueClosed), Err(SubmitError::Shutdown)));
    assert!(matches!(submit_result(JobReply::TimedOut), Err(SubmitError::Timeout)));
    assert!(matches!(submit_result(JobReply::Dropped), Err(SubmitError::Cancelled)));
    assert!(matches!(
        submit_result(JobReply::Done(Err(DomainError::InvalidLanguage))),
        Err(SubmitError::Processing(DomainError::InvalidLanguage))
    ));
    let p = Pipeline::start(local(), lang(), FormattedOutputStyle::Plain, None, None, true, false, Limits::default());
    let p = p.on_transcribed(Ok(RawTranscript::new("x").unwrap()), &DefaultFormatter);
    let done = submit_result(JobReply::Done(p.into_result())).unwrap();
    assert_eq!(done.markdown.as_str(), "# x\n\nx\n\n");
}
