use voice2md::bot_storage::{snake_case, snake_from_lowered, user_dir_of, FileStorage};
use voice2md::cli::{
    rendered_output, run_settings, select_engine, Config, Debouncer, EngineKind,
    FileStorage as CliFileStorage,
};
use voice2md::errors::DomainError;
use voice2md::formatter::DefaultFormatter;
use voice2md::note::{Note, NoteSource};
use voice2md::value::{
    AudioFilePath, FormattedOutputStyle, LanguageIso, MarkdownContent, NoteTitle, PathProbe,
    RawTranscript,
};

fn formatted(title: &str, source: NoteSource) -> Note<voice2md::typestate::Formatted> {
    let n = Note::new(NoteTitle::new(title).unwrap(), LanguageIso::new("es").unwrap(), source);
    let n = n.transcribe(RawTranscript::new("t").unwrap());
    let md = MarkdownContent::new("# t").unwrap();
    n.into_formatted(md)
}

#[test]
fn snake_case_titles() {
    assert_eq!(snake_case("Mi Nota de Clase").as_deref(), Some("mi_nota_de_clase"));
    assert_eq!(snake_case("  ¡Hola,   Ñandú!  ").as_deref(), Some("hola_ñandú"));
    assert_eq!(snake_case("İ").as_deref(), Some("i"));
    assert_eq!(snake_case("__x__y__").as_deref(), Some("x_y"));
    assert_eq!(snake_case("--- ..."), None);
}

#[test]
fn user_folders_and_file_names() {
    assert_eq!(user_dir_of(&NoteSource::Telegram { chat_id: 1, user_id: 987654321 }), "user_987654321");
    let p = AudioFilePath::try_from_path(
        "/a.wav",
        PathProbe { exists: true, is_file: true, canonical: Ok("/a.wav".into()) },
    )
    .unwrap();
    assert_eq!(user_dir_of(&NoteSource::Cli { origin_path: p.clone() }), "local");
    let s = FileStorage::new("notes".into());
    assert_eq!(s.out_dir, "notes");
    let note = formatted("Mi Nota de Clase", NoteSource::Telegram { chat_id: 1, user_id: 5 });
    let loc = s.location(&note).unwrap();
    assert_eq!(loc.dir, "user_5");
    assert!(loc.file_name.starts_with("mi_nota_de_clase_"));
    assert!(loc.file_name.ends_with("Z.md"));
    assert_eq!(loc.file_name.len(), "mi_nota_de_clase_".len() + "20260912T153000Z".len() + 3);
    let note = formatted("¿¡", NoteSource::File { origin_path: p });
    assert!(s.location(&note).is_none());
    let c = CliFileStorage::new(".".into());
    let note = formatted("Clase 1", NoteSource::Telegram { chat_id: 1, user_id: 5 });
    assert_eq!(c.file_name(&note), "Clase 1.md");
    let _ = DefaultFormatter;
}

#[test]
fn config_defaults_and_template() {
    let c = Config::default();
    assert_eq!(c.general.default_style, FormattedOutputStyle::Obsidian);
    assert_eq!(c.general.default_language, "auto");
    assert_eq!(c.whisper.engine, "local");
    assert_eq!(c.whisper.model, "base");
    assert_eq!(c.whisper.model_path, "models/ggml-base.bin");
    assert_eq!(c.whisper.api_key, None);
    assert_eq!(c.output.out_dir, ".");
    assert!(c.output.frontmatter);
    assert!(Config::template().starts_with("# voice2md configuration\n\n[general]\n"));
    assert!(Config::template().ends_with("frontmatter = true\n"));
}

#[test]
fn config_locations() {
    let l = Config::locations(Some("/etc/v.toml".into()), Some("/home/u".into()));
    assert_eq!(l, vec!["/etc/v.toml", "config.toml", "/home/u/.config/voice2md/config.toml"]);
    let l = Config::locations(None, Some("/home/u/".into()));
    assert_eq!(l, vec!["config.toml", "/home/u/.config/voice2md/config.toml"]);
    assert_eq!(Config::locations(None, None), vec!["config.toml"]);
    let locs: Vec<String> = vec!["config.toml".into(), "/home/u/.config/voice2md/config.toml".into()];
    assert_eq!(Config::init_location(&locs, &vec![false, false]), "/home/u/.config/voice2md/config.toml");
    assert_eq!(Config::init_location(&locs, &vec![true, false]), "config.toml");
    assert_eq!(Config::init_location(&vec!["config.toml".into()], &vec![false]), "config.toml");
    assert_eq!(Config::load_location(&locs, &vec![false, false]), None);
    assert_eq!(Config::load_location(&locs, &vec![false, true]).as_deref(), Some("/home/u/.config/voice2md/config.toml"));
    assert_eq!(Config::load_location(&locs, &vec![true, true]).as_deref(), Some("config.toml"));
}

#[test]
fn engines_settings_and_output() {
    assert_eq!(select_engine("local"), Ok(EngineKind::Local));
    assert_eq!(select_engine("remote"), Ok(EngineKind::Remote));
    assert_eq!(
        select_engine("Local").unwrap_err(),
        "unknown whisper engine: Local (expected 'local' or 'remote')"
    );
    let (l, s) = run_settings(None, None).unwrap();
    assert_eq!((l.as_str(), s), ("auto", FormattedOutputStyle::Obsidian));
    let (l, s) = run_settings(Some("ES".into()), Some(FormattedOutputStyle::Plain)).unwrap();
    assert_eq!((l.as_str(), s), ("es", FormattedOutputStyle::Plain));
    assert!(matches!(run_settings(Some(" ".into()), None), Err(DomainError::InvalidLanguage)));
    let md = MarkdownContent::new("# a").unwrap();
    assert_eq!(rendered_output(&md, true), "# a");
    assert_eq!(rendered_output(&md, false), "# a\n");
}

#[test]
fn watcher_debounces_each_path_on_its_own() {
    let mut d = Debouncer::new();
    assert!(d.should_process("/w/a.wav", 5000, 1000));
    // Another file within the window is still processed.
    assert!(d.should_process("/w/b.wav", 5100, 1000));
    // The same file within the window is not.
    assert!(!d.should_process("/w/a.wav", 5999, 1000));
    assert!(d.should_process("/w/a.wav", 6000, 1000));
    assert!(!d.should_process("/w/b.wav", 5000, 1000));
    assert!(d.should_process("/w/b.wav", 6100, 1000));
}

#[test]
fn snake_from_lowered_follows_the_flags() {
    let text: Vec<char> = "--ab, c!d--".chars().collect();
    let flags: Vec<bool> = text.iter().map(|c| c.is_alphanumeric()).collect();
    assert_eq!(snake_from_lowered(&text, &flags).as_deref(), Some("ab_c_d"));
    // Only the flags decide what is kept.
    let flags = vec![false, false, true, false, false, false, false, false, true, false, false];
    assert_eq!(snake_from_lowered(&text, &flags).as_deref(), Some("a_d"));
    assert_eq!(snake_from_lowered(&text, &vec![false; text.len()]), None);
    assert_eq!(snake_from_lowered(&vec![], &vec![]), None);
}
