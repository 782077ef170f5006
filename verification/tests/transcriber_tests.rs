use voice2md::errors::{AudioFetchError, TranscriptionError};
use voice2md::telegram::{GetFileReply, TelegramAudioRepository};
use voice2md::transcriber::{
    LocalWhisperConfig, LocalWhisperEngine, RemoteWhisperConfig,
};
use voice2md::value::LanguageIso;

#[test]
fn local_engine_command_lines() {
    let cfg = LocalWhisperConfig::default();
    assert_eq!(cfg.binary, "whisper-cli");
    assert_eq!(cfg.ffmpeg, "ffmpeg");
    let mut cfg = cfg;
    cfg.extra_args = vec!["-t".into(), "4".into()];
    let e = LocalWhisperEngine::new(cfg);
    assert_eq!(
        LocalWhisperEngine::ffmpeg_args("in.ogg", "out.wav"),
        vec!["-y", "-i", "in.ogg", "-ar", "16000", "-ac", "1", "-c:a", "pcm_s16le", "-f", "wav", "out.wav"]
    );
    let args = e.whisper_args("a.wav", &LanguageIso::new("Auto").unwrap(), "/tmp/o");
    assert_eq!(
        args,
        vec!["-m", "models/ggml-base.bin", "-f", "a.wav", "--output-txt", "--no-prints", "-of", "/tmp/o", "-l", "auto", "-t", "4"]
    );
    let args = e.whisper_args("a.wav", &LanguageIso::new("es").unwrap(), "/tmp/o");
    assert_eq!(args[9], "es");
    assert!(LocalWhisperEngine::is_wav("/x/A.WAV"));
    assert!(!LocalWhisperEngine::is_wav("/x/a.ogg"));
    assert!(!LocalWhisperEngine::is_wav("/x/wav"));
}

#[test]
fn engine_output_becomes_transcript() {
    assert_eq!(LocalWhisperEngine::transcript_from_output("  hola \n").unwrap().as_str(), "hola");
    assert!(matches!(
        LocalWhisperEngine::transcript_from_output(" \n "),
        Err(TranscriptionError::EmptyTranscript)
    ));
    assert!(matches!(
        RemoteWhisperConfig::transcript_from_response(""),
        Err(TranscriptionError::EmptyTranscript)
    ));
}

#[test]
fn remote_engine_settings() {
    let cfg = RemoteWhisperConfig::default();
    assert_eq!(cfg.endpoint, "https://api.openai.com/v1/audio/transcriptions");
    assert_eq!(cfg.model, "whisper-1");
    assert_eq!(cfg.timeout_secs, 120);
    assert_eq!(cfg.api_key(Some("env-key".into())).unwrap(), "env-key");
    match cfg.api_key(None) {
        Err(TranscriptionError::Engine(m)) => {
            assert_eq!(m, "missing API key: set OPENAI_API_KEY or provide api_key")
        }
        _ => panic!("expected an engine error"),
    }
    let mut with_key = cfg.clone();
    with_key.api_key = Some("k".into());
    assert_eq!(with_key.api_key(Some("env-key".into())).unwrap(), "k");
    assert_eq!(RemoteWhisperConfig::language_field(&LanguageIso::new("auto").unwrap()), None);
    assert_eq!(
        RemoteWhisperConfig::language_field(&LanguageIso::new("De").unwrap()).as_deref(),
        Some("de")
    );
}

#[test]
fn telegram_repository_decisions() {
    let r = TelegramAudioRepository::new("TOKEN".into());
    assert_eq!(r.get_file_url(), "https://api.telegram.org/botTOKEN/getFile");
    assert_eq!(r.download_url("voice/f.oga"), "https://api.telegram.org/file/botTOKEN/voice/f.oga");
    let ok = GetFileReply { ok: Some(true), file_path: Some("voice/f.oga".into()) };
    assert_eq!(TelegramAudioRepository::file_path_of(ok).unwrap(), "voice/f.oga");
    let not_ok = GetFileReply { ok: Some(false), file_path: Some("p".into()) };
    assert!(matches!(TelegramAudioRepository::file_path_of(not_ok), Err(AudioFetchError::NotFound)));
    let no_path = GetFileReply { ok: Some(true), file_path: None };
    assert!(matches!(TelegramAudioRepository::file_path_of(no_path), Err(AudioFetchError::NotFound)));
    assert!(TelegramAudioRepository::accept_download(true, 26_214_400).is_ok());
    assert!(matches!(
        TelegramAudioRepository::accept_download(true, 26_214_401),
        Err(AudioFetchError::TooLarge(26_214_401, 26_214_400))
    ));
    assert!(matches!(TelegramAudioRepository::accept_download(false, 1), Err(AudioFetchError::NotFound)));
}
