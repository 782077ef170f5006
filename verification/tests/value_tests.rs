use voice2md::errors::{AudioFileError, DomainError};
use voice2md::value::{
    AudioDurationSecs, AudioFilePath, AudioFormat, FormattedOutputStyle, LanguageIso,
    MarkdownContent, NoteTitle, PathProbe, RawTranscript,
};

#[test]
fn title_normalizes_invalid_chars_and_trims() {
    let t = NoteTitle::new("  Nota: con / caracteres * inválidos?  ").unwrap();
    assert_eq!(t.as_str(), "Nota- con - caracteres - inválidos");
}

#[test]
fn title_rejects_empty() {
    assert!(NoteTitle::new("  ///  ").is_err());
}

#[test]
fn title_truncates_to_max_len() {
    let long = "a".repeat(500);
    let t = NoteTitle::new(&long).unwrap();
    assert!(t.as_str().chars().count() <= NoteTitle::MAX_LEN);
}

#[test]
fn transcript_rejects_empty() {
    assert!(RawTranscript::new("   \n  ").is_err());
    assert!(RawTranscript::new("hola").is_ok());
}

#[test]
fn markdown_rejects_empty() {
    assert!(MarkdownContent::new("").is_err());
}

#[test]
fn language_normalizes_to_lowercase() {
    let l = LanguageIso::new("EN-US").unwrap();
    assert_eq!(l.as_str(), "en-us");
}

#[test]
fn duration_must_be_positive() {
    assert!(AudioDurationSecs::new(0).is_err());
    assert!(AudioDurationSecs::new(42).is_ok());
}

#[test]
fn style_roundtrips_via_display_and_fromstr() {
    for s in ["obsidian", "logseq", "plain"] {
        let style: FormattedOutputStyle = s.parse().unwrap();
        assert_eq!(style.to_string(), s);
    }
}

fn probe(exists: bool, is_file: bool, canonical: &str) -> PathProbe {
    PathProbe { exists, is_file, canonical: Ok(canonical.to_string()) }
}

#[test]
fn audio_path_rejects_non_audio_extension() {
    let p = "/tmp/voice2md-not-audio.txt";
    let err = AudioFilePath::try_from_path(p, probe(true, true, p)).unwrap_err();
    assert!(matches!(err, AudioFileError::UnsupportedExtension(_)));
}

#[test]
fn audio_path_checks_in_order() {
    match AudioFilePath::try_from_path("/x/a.wav", probe(false, false, "/x/a.wav")) {
        Err(AudioFileError::NotFound(p)) => assert_eq!(p, "/x/a.wav"),
        other => panic!("unexpected {other:?}"),
    }
    match AudioFilePath::try_from_path("/x/dir", probe(true, false, "/x/dir")) {
        Err(AudioFileError::NotAFile(p)) => assert_eq!(p, "/x/dir"),
        other => panic!("unexpected {other:?}"),
    }
    match AudioFilePath::try_from_path("/x/a.TXT", probe(true, true, "/x/a.TXT")) {
        Err(AudioFileError::UnsupportedExtension(e)) => assert_eq!(e.as_deref(), Some("txt")),
        other => panic!("unexpected {other:?}"),
    }
    match AudioFilePath::try_from_path("/x/noext", probe(true, true, "/x/noext")) {
        Err(AudioFileError::UnsupportedExtension(e)) => assert_eq!(e, None),
        other => panic!("unexpected {other:?}"),
    }
    let io = PathProbe { exists: true, is_file: true, canonical: Err("denied".to_string()) };
    match AudioFilePath::try_from_path("/x/a.ogg", io) {
        Err(AudioFileError::Io(m)) => assert_eq!(m, "denied"),
        other => panic!("unexpected {other:?}"),
    }
}

#[test]
fn audio_path_keeps_canonical_form_and_lowercases_extension() {
    let a = AudioFilePath::try_from_path("rel/Voz.OGG", probe(true, true, "/abs/rel/Voz.OGG")).unwrap();
    assert_eq!(a.as_path(), "/abs/rel/Voz.OGG");
    assert_eq!(a.to_path_buf(), "/abs/rel/Voz.OGG");
    assert_eq!(a.extension().as_deref(), Some("ogg"));
    for ext in ["wav", "mp3", "ogg", "m4a", "opus", "flac", "webm"] {
        let p = format!("/n/file.{ext}");
        assert!(AudioFilePath::try_from_path(&p, probe(true, true, &p)).is_ok());
    }
    // A dot file has no extension.
    assert!(AudioFilePath::try_from_path("/n/.wav", probe(true, true, "/n/.wav")).is_err());
}

#[test]
fn transcript_is_trimmed() {
    let t = RawTranscript::new("\t hola mundo \n").unwrap();
    assert_eq!(t.as_str(), "hola mundo");
    // Unicode whitespace is trimmed as `str::trim` does.
    let t = RawTranscript::new("\u{3000}x\u{a0}").unwrap();
    assert_eq!(t.as_str(), "x");
    assert!(matches!(RawTranscript::new(""), Err(DomainError::EmptyTranscript)));
    // Reading a transcript again gives it back.
    let again = RawTranscript::new(t.as_str()).unwrap();
    assert_eq!(again.as_str(), t.as_str());
}

#[test]
fn markdown_keeps_text() {
    let m = MarkdownContent::new("  # t \n").unwrap();
    assert_eq!(m.as_str(), "  # t \n");
    assert_eq!(m.clone().into_inner(), "  # t \n");
    assert!(matches!(MarkdownContent::new(" \n\t"), Err(DomainError::EmptyMarkdown)));
}

#[test]
fn title_edge_cases() {
    // Control characters become spaces, then trimmed.
    let t = NoteTitle::new("\u{1}--a|b--\u{7f}").unwrap();
    assert_eq!(t.as_str(), "a-b");
    match NoteTitle::new(" -- ") {
        Err(DomainError::InvalidTitle(raw)) => assert_eq!(raw, " -- "),
        other => panic!("unexpected {other:?}"),
    }
    // Truncation keeps the first 180 characters, then trims the end.
    let s = format!("{} {}", "b".repeat(179), "c".repeat(10));
    let t = NoteTitle::new(&s).unwrap();
    assert_eq!(t.as_str(), "b".repeat(179));
    let t = NoteTitle::new(&"é".repeat(200)).unwrap();
    assert_eq!(t.as_str().chars().count(), 180);
    // No character that a file name cannot hold survives.
    let t = NoteTitle::new("a/b\\c:d*e?f\"g<h>i|j").unwrap();
    assert_eq!(t.as_str(), "a-b-c-d-e-f-g-h-i-j");
}

#[test]
fn language_edge_cases() {
    assert_eq!(LanguageIso::new("  Es-AR ").unwrap().as_str(), "es-ar");
    assert!(matches!(LanguageIso::new("   "), Err(DomainError::InvalidLanguage)));
    assert!(LanguageIso::new("AUTO").unwrap().is_auto());
    assert!(!LanguageIso::new("es").unwrap().is_auto());
    // Normal codes stay as they are.
    let l = LanguageIso::new("ÉS").unwrap();
    assert_eq!(l.as_str(), "És");
    assert_eq!(LanguageIso::new(l.as_str()).unwrap().as_str(), l.as_str());
}

#[test]
fn duration_value() {
    assert_eq!(AudioDurationSecs::new(42).unwrap().get(), 42);
    assert!(matches!(AudioDurationSecs::new(0), Err(DomainError::InvalidDuration)));
}

#[test]
fn audio_format_from_extension() {
    assert_eq!(AudioFormat::from_extension("WAV"), Some(AudioFormat::Wav));
    assert_eq!(AudioFormat::from_extension("mp3"), Some(AudioFormat::Mp3));
    assert_eq!(AudioFormat::from_extension("Ogg"), Some(AudioFormat::Ogg));
    assert_eq!(AudioFormat::from_extension("m4a"), Some(AudioFormat::M4a));
    assert_eq!(AudioFormat::from_extension("opus"), Some(AudioFormat::Opus));
    assert_eq!(AudioFormat::from_extension("FLAC"), Some(AudioFormat::Flac));
    assert_eq!(AudioFormat::from_extension("webm"), Some(AudioFormat::Webm));
    assert_eq!(AudioFormat::from_extension(" wav"), None);
    assert_eq!(AudioFormat::from_extension("txt"), None);
}

#[test]
fn style_parse_and_names() {
    assert_eq!(FormattedOutputStyle::parse("  LogSeq ").unwrap(), FormattedOutputStyle::Logseq);
    assert_eq!(FormattedOutputStyle::default(), FormattedOutputStyle::Obsidian);
    match FormattedOutputStyle::parse(" Fancy ") {
        Err(DomainError::InvalidStyle(s)) => assert_eq!(s, "fancy"),
        other => panic!("unexpected {other:?}"),
    }
    assert_eq!(FormattedOutputStyle::Plain.name(), "plain");
}

#[test]
fn audio_path_checks_the_file_a_link_resolves_to() {
    match AudioFilePath::try_from_path("/x/voz.wav", probe(true, true, "/data/blob.bin")) {
        Err(AudioFileError::UnsupportedExtension(e)) => assert_eq!(e.as_deref(), Some("bin")),
        other => panic!("unexpected {other:?}"),
    }
    // The given path's extension is checked first.
    match AudioFilePath::try_from_path("/x/notes.txt", probe(true, true, "/data/real.wav")) {
        Err(AudioFileError::UnsupportedExtension(e)) => assert_eq!(e.as_deref(), Some("txt")),
        other => panic!("unexpected {other:?}"),
    }
    let denied = PathProbe { exists: true, is_file: true, canonical: Err("denied".to_string()) };
    match AudioFilePath::try_from_path("/x/a.txt", denied) {
        Err(AudioFileError::UnsupportedExtension(e)) => assert_eq!(e.as_deref(), Some("txt")),
        other => panic!("unexpected {other:?}"),
    }
    let a = AudioFilePath::try_from_path("/x/Voz.WAV", probe(true, true, "/data/voz.ogg")).unwrap();
    assert_eq!(a.as_path(), "/data/voz.ogg");
    assert_eq!(a.extension().as_deref(), Some("ogg"));
}
