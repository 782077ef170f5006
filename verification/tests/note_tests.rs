use voice2md::errors::DomainError;
use voice2md::formatter::{DefaultFormatter, Formatter, NoteMeta};
use voice2md::note::{Note, NoteId, NoteSource};
use voice2md::time::UtcTimestamp;
use voice2md::value::{
    AudioDurationSecs, AudioFilePath, FormattedOutputStyle, LanguageIso, NoteTitle, PathProbe,
    RawTranscript,
};

fn place_holder_path() -> AudioFilePath {
    let p = "/tmp/voice2md-test-note.wav";
    let probe = PathProbe { exists: true, is_file: true, canonical: Ok(p.to_string()) };
    AudioFilePath::try_from_path(p, probe).unwrap()
}

fn meta(style_source: &str, duration: Option<u32>) -> NoteMeta {
    NoteMeta {
        date: UtcTimestamp::from_parts(1_700_000_000, 0).unwrap(),
        duration: duration.map(|d| AudioDurationSecs::new(d).unwrap()),
        language: LanguageIso::new("es").unwrap(),
        source: style_source.to_owned(),
    }
}

#[test]
fn typestate_chain_produces_markdown() {
    let transcript = RawTranscript::new("una nota de voz de prueba").unwrap();
    let title = NoteTitle::derive_from(&transcript).unwrap();

    let note_new = Note::new(
        title,
        LanguageIso::new("es").unwrap(),
        NoteSource::Cli { origin_path: place_holder_path() },
    );

    let note_transcribed = note_new.transcribe(transcript);

    let meta = NoteMeta {
        date: UtcTimestamp::now(),
        duration: None,
        language: LanguageIso::new("es").unwrap(),
        source: "test".to_owned(),
    };

    let note_formatted = note_transcribed
        .format(&DefaultFormatter, FormattedOutputStyle::Plain, meta)
        .unwrap();

    assert!(note_formatted.markdown().as_str().starts_with("# "));
}

#[test]
fn title_from_first_seven_words() {
    let t = RawTranscript::new("uno  dos\ttres\ncuatro cinco seis siete ocho nueve").unwrap();
    let title = NoteTitle::derive_from(&t).unwrap();
    assert_eq!(title.as_str(), "uno dos tres cuatro cinco seis siete");
    let t = RawTranscript::new("hola").unwrap();
    assert_eq!(NoteTitle::derive_from(&t).unwrap().as_str(), "hola");
}

#[test]
fn title_derivation_can_fail_and_falls_back() {
    let t = RawTranscript::new("/// ***").unwrap();
    assert!(matches!(NoteTitle::derive_from(&t), Err(DomainError::InvalidTitle(_))));
    let fb = NoteTitle::derive_or_fallback(&t);
    assert!(fb.as_str().starts_with("nota-"));
    let fixed = NoteTitle::fallback(UtcTimestamp::from_parts(0, 0).unwrap());
    assert_eq!(fixed.as_str(), "nota-1970-01-01T000000");
    let ok = RawTranscript::new("buen día").unwrap();
    assert_eq!(NoteTitle::derive_or_fallback(&ok).as_str(), "buen día");
}

#[test]
fn note_keeps_header_through_stages() {
    let t = RawTranscript::new("texto").unwrap();
    let n = Note::new(
        NoteTitle::new("T").unwrap(),
        LanguageIso::new("en").unwrap(),
        NoteSource::Telegram { chat_id: 5, user_id: 7 },
    );
    let id = n.id();
    let created = n.created_at();
    let n = n.transcribe(t);
    assert_eq!(n.transcript().as_str(), "texto");
    let f = n.format(&DefaultFormatter, FormattedOutputStyle::Plain, meta("telegram", None)).unwrap();
    assert_eq!(f.id(), id);
    assert_eq!(f.created_at().secs(), created.secs());
    assert_eq!(f.title().as_str(), "T");
    assert_eq!(f.language().as_str(), "en");
    assert_eq!(f.source().label(), "telegram");
    assert_eq!(f.clone().into_markdown().as_str(), "# T\n\ntexto\n\n");
}

#[test]
fn note_ids_are_fresh() {
    let a = NoteId::new();
    let b = NoteId::new();
    assert_ne!(a, b);
    assert_eq!(NoteId::from_uuid(a.as_uuid()), a);
    assert_eq!(a.as_uuid().get_version_num(), 4);
    assert_eq!(a.as_uuid().get_variant(), uuid::Variant::RFC4122);
    assert!(!a.as_uuid().is_nil());
}

#[test]
fn source_labels() {
    assert_eq!(NoteSource::Telegram { chat_id: 1, user_id: 2 }.label(), "telegram");
    assert_eq!(NoteSource::Cli { origin_path: place_holder_path() }.label(), "file");
    assert_eq!(NoteSource::File { origin_path: place_holder_path() }.label(), "file");
}

#[test]
fn plain_document() {
    let t = RawTranscript::new("primera línea\n\n  segunda  \n").unwrap();
    let title = NoteTitle::new("Título").unwrap();
    let md = DefaultFormatter
        .format(&t, title, FormattedOutputStyle::Plain, meta("file", None))
        .unwrap();
    assert_eq!(md.as_str(), "# Título\n\nprimera línea\n\nsegunda\n\n");
}

#[test]
fn obsidian_document_with_front_matter() {
    let t = RawTranscript::new("hola").unwrap();
    let title = NoteTitle::new("Nota").unwrap();
    let md = DefaultFormatter
        .format(&t, title, FormattedOutputStyle::Obsidian, meta("telegram", Some(42)))
        .unwrap();
    assert_eq!(
        md.as_str(),
        "---\ntitle: \"Nota\"\ndate: 2023-11-14T22:13:20+00:00\nlanguage: es\nsource: telegram\nduration: 42\ntags: [voice-note]\n---\n\n# Nota\n\nhola\n\n"
    );
}

#[test]
fn logseq_document_with_bullets() {
    let t = RawTranscript::new("a\nb\n \nc").unwrap();
    let title = NoteTitle::new("L").unwrap();
    let mut m = meta("file", None);
    m.date = UtcTimestamp::from_parts(0, 500_000_000).unwrap();
    let md = DefaultFormatter.format(&t, title, FormattedOutputStyle::Logseq, m).unwrap();
    assert_eq!(
        md.as_str(),
        "---\ntitle: \"L\"\ndate: 1970-01-01T00:00:00.500+00:00\nlanguage: es\nsource: file\ntags: [voice-note]\n---\n\n# L\n\n- a\n- b\n- c\n"
    );
}

#[test]
fn timestamps_in_range_only() {
    assert!(UtcTimestamp::from_parts(8_210_266_876_799, 999_999_999).is_some());
    assert!(UtcTimestamp::from_parts(8_210_266_876_800, 0).is_none());
    assert!(UtcTimestamp::from_parts(-8_334_601_315_200, 0).is_some());
    assert!(UtcTimestamp::from_parts(-8_334_601_315_201, 0).is_none());
    assert!(UtcTimestamp::from_parts(0, 1_000_000_000).is_none());
    let t = UtcTimestamp::from_parts(12, 34).unwrap();
    assert_eq!((t.secs(), t.nanos()), (12, 34));
    assert!(UtcTimestamp::now().secs() > 1_600_000_000);
}
