use voice2md::access::{AccessControl, AccessMode};
use voice2md::bot::{
    delivery_of, friendly_error, handle_command, plan_voice, processing_notice, user_id_of,
    Command, Delivery,
};
use voice2md::errors::{AudioFetchError, DomainError, StorageError, SubmitError, TranscriptionError};
use voice2md::ports::{AudioInput, RemoteAudioRef};
use voice2md::user_state::InMemUserState;
use voice2md::value::{FormattedOutputStyle, LanguageIso, MarkdownContent};

#[test]
fn help_and_whoami() {
    let mut a = AccessControl::new();
    let mut p = InMemUserState::new();
    let r = handle_command(Command::Help, 1, 2, &mut a, &mut p);
    assert!(r.text.starts_with("🎙 voice2md: envíame una nota de voz"));
    assert!(r.text.ends_with("/help — este mensaje"));
    assert!(!r.persist_access);
    let r = handle_command(Command::Whoami, 1, -77, &mut a, &mut p);
    assert_eq!(r.text, "Tu ID de usuario: -77");
}

#[test]
fn style_and_language_commands() {
    let mut a = AccessControl::new();
    let mut p = InMemUserState::new();
    assert_eq!(p.style(1), FormattedOutputStyle::Obsidian);
    assert_eq!(p.language(1).as_str(), "auto");
    let r = handle_command(Command::Style(" Plain".into()), 1, 2, &mut a, &mut p);
    assert_eq!(r.text, "Estilo actualizado:  Plain");
    assert_eq!(p.style(1), FormattedOutputStyle::Plain);
    assert_eq!(p.style(2), FormattedOutputStyle::Obsidian);
    let r = handle_command(Command::Style("fancy".into()), 1, 2, &mut a, &mut p);
    assert_eq!(r.text, "Estilo inválido. Usa obsidian, logseq o plain.");
    let r = handle_command(Command::Language("EN".into()), 1, 2, &mut a, &mut p);
    assert_eq!(r.text, "Idioma actualizado: EN");
    assert_eq!(p.language(1).as_str(), "en");
    let r = handle_command(Command::Language("  ".into()), 1, 2, &mut a, &mut p);
    assert_eq!(r.text, "Idioma inválido.");
    p.set_language(3, LanguageIso::new("fr").unwrap());
    p.set_style(3, FormattedOutputStyle::Logseq);
    assert_eq!(p.language(3).as_str(), "fr");
    assert_eq!(p.style(3), FormattedOutputStyle::Logseq);
}

#[test]
fn admin_commands_need_whitelist() {
    let mut a = AccessControl::new();
    let mut p = InMemUserState::new();
    for cmd in [Command::Allow("5".into()), Command::Deny("5".into()), Command::Mode("private".into())] {
        let r = handle_command(cmd, 1, 2, &mut a, &mut p);
        assert_eq!(r.text, "No tienes permiso para administrar el bot.");
        assert!(!r.persist_access);
    }
    assert_eq!(a.mode(), AccessMode::Public);
    assert!(a.users().is_empty());
}

#[test]
fn admin_commands_of_a_manager() {
    let mut a = AccessControl::new();
    a.allow(2);
    let mut p = InMemUserState::new();
    let r = handle_command(Command::Allow("5".into()), 1, 2, &mut a, &mut p);
    assert_eq!((r.text.as_str(), r.persist_access), ("Usuario 5 autorizado.", true));
    let r = handle_command(Command::Allow("5".into()), 1, 2, &mut a, &mut p);
    assert_eq!((r.text.as_str(), r.persist_access), ("El usuario 5 ya estaba autorizado.", false));
    let r = handle_command(Command::Allow(" 5".into()), 1, 2, &mut a, &mut p);
    assert_eq!(r.text, "Id inválido. Usa /allow <id numérico>.");
    let r = handle_command(Command::Deny("5".into()), 1, 2, &mut a, &mut p);
    assert_eq!((r.text.as_str(), r.persist_access), ("Usuario 5 revocado.", true));
    let r = handle_command(Command::Deny("5".into()), 1, 2, &mut a, &mut p);
    assert_eq!((r.text.as_str(), r.persist_access), ("El usuario 5 no estaba.", false));
    let r = handle_command(Command::Deny("x".into()), 1, 2, &mut a, &mut p);
    assert_eq!(r.text, "Id inválido. Usa /deny <id numérico>.");
    let r = handle_command(Command::Mode("Private".into()), 1, 2, &mut a, &mut p);
    assert_eq!((r.text.as_str(), r.persist_access), ("Modo actualizado: private", true));
    assert_eq!(a.mode(), AccessMode::Private);
    let r = handle_command(Command::Mode("x".into()), 1, 2, &mut a, &mut p);
    assert_eq!(r.text, "Modo inválido. Usa /mode public o /mode private.");
    assert_eq!(a.users(), vec![2]);
}

#[test]
fn voice_notes_in_private_mode() {
    let mut a = AccessControl::new();
    let mut p = InMemUserState::new();
    p.set_style(10, FormattedOutputStyle::Plain);
    let job = plan_voice(&a, &p, 10, 20, "file".into(), 33).unwrap();
    assert!(matches!(job.input, AudioInput::Remote(RemoteAudioRef::Telegram { ref file_id, chat_id: 10, user_id: 20 }) if file_id == "file"));
    assert_eq!(job.style, FormattedOutputStyle::Plain);
    assert_eq!(job.language.as_str(), "auto");
    assert_eq!(job.duration_hint, Some(33));
    a.set_mode(AccessMode::Private);
    assert!(plan_voice(&a, &p, 10, 20, "file".into(), 33).is_none());
    a.allow(20);
    assert!(plan_voice(&a, &p, 10, 20, "file".into(), 33).is_some());
    assert_eq!(processing_notice(), "Procesando nota de voz…");
}

#[test]
fn delivery_by_length() {
    let short = MarkdownContent::new(&"é".repeat(4096)).unwrap();
    assert!(matches!(delivery_of(&short), Delivery::Message(t) if t.chars().count() == 4096));
    let long = MarkdownContent::new(&"x".repeat(4097)).unwrap();
    match delivery_of(&long) {
        Delivery::Document { file_name, content } => {
            assert_eq!(file_name, "note.md");
            assert_eq!(content.len(), 4097);
        }
        _ => panic!("expected a document"),
    }
}

#[test]
fn friendly_errors() {
    assert_eq!(friendly_error(&DomainError::AudioTooLong(400, 300)), "El audio supera el límite (400s).");
    assert_eq!(friendly_error(&DomainError::AudioTooLarge(1, 2)), "El archivo supera 25 MB.");
    assert_eq!(
        friendly_error(&DomainError::Transcription(TranscriptionError::UnsupportedInput)),
        "No pude transcribir el audio (sin voz detectable)."
    );
    assert_eq!(friendly_error(&DomainError::EmptyTranscript), "No pude transcribir el audio (sin voz detectable).");
    assert_eq!(friendly_error(&DomainError::AudioFetch(AudioFetchError::NotFound)), "No pude descargar el audio.");
    assert_eq!(
        friendly_error(&DomainError::InvalidTitle("a\"b\n".into())),
        "Error al procesar: invalid title: \"a\\\"b\\n\""
    );
    assert_eq!(
        friendly_error(&DomainError::Storage(StorageError::Io("disk full".into()))),
        "Error al procesar: storage error: io error: disk full"
    );
}

#[test]
fn error_messages() {
    assert_eq!(DomainError::AudioTooLarge(30, 25).message(), "audio exceeds maximum size: 30 > 25 bytes");
    assert_eq!(DomainError::AudioTooLong(4, 3).message(), "audio exceeds maximum duration: 4s > 3s");
    assert_eq!(
        DomainError::AudioFetch(AudioFetchError::TooLarge(9, 8)).message(),
        "audio fetch error: file too large: 9 bytes (limit 8 bytes)"
    );
    assert_eq!(
        DomainError::Transcription(TranscriptionError::UnsupportedLanguage("xx".into())).message(),
        "transcription error: language xx not supported by engine"
    );
    assert_eq!(TranscriptionError::Timeout(120).message(), "timeout after 120s");
    assert_eq!(StorageError::PermissionDenied("/o".into()).message(), "permission denied writing to /o");
    assert_eq!(AudioFetchError::Download("x".into()).message(), "download failed: x");
    assert_eq!(DomainError::Infrastructure("y".into()).message(), "infrastructure error: y");
    assert_eq!(SubmitError::Timeout.message(), "processing timed out");
    assert_eq!(
        SubmitError::Processing(DomainError::InvalidDuration).message(),
        "processing failed: invalid duration: must be > 0"
    );
}

#[test]
fn sender_ids() {
    assert_eq!(user_id_of(Some(12345)), 12345);
    assert_eq!(user_id_of(None), 0);
    assert_eq!(user_id_of(Some(u64::MAX)), -1);
}

#[test]
fn ids_are_read_as_i64_from_str_reads_them() {
    let mut a = AccessControl::new();
    a.allow(2);
    let mut p = InMemUserState::new();
    let cases: [(&str, Option<i64>); 12] = [
        ("+7", Some(7)),
        ("-3", Some(-3)),
        ("007", Some(7)),
        ("-0", Some(0)),
        ("9223372036854775807", Some(i64::MAX)),
        ("-9223372036854775808", Some(i64::MIN)),
        ("9223372036854775808", None),
        ("-9223372036854775809", None),
        ("", None),
        ("-", None),
        ("+", None),
        ("1_0", None),
    ];
    for (raw, expected) in cases {
        assert_eq!(raw.parse::<i64>().ok(), expected, "{raw}");
        let r = handle_command(Command::Allow(raw.into()), 1, 2, &mut a, &mut p);
        match expected {
            Some(id) => {
                assert!(r.text.contains(&id.to_string()), "{raw}: {}", r.text);
                assert!(a.is_allowed(id) || a.mode() == AccessMode::Public);
                assert!(a.users().contains(&id), "{raw}");
            }
            None => assert_eq!(r.text, "Id inválido. Usa /allow <id numérico>.", "{raw}"),
        }
    }
}
