//! The decisions of the command-line tool: its configuration and where it
//! is looked for, which engine to build, the settings of a run, the
//! per-path debounce of the folder watcher and where a note is written.
use vstd::prelude::*;

use crate::errors::{opt_view, DomainError};
use crate::note::Note;
use crate::text::{push_str, string_of};
use crate::transcriber::string_views;
use crate::typestate::Formatted;
use crate::value::{normalize_language, FormattedOutputStyle, LanguageIso, MarkdownContent};

verus! {

// ---------------------------------------------------------------------------
// Configuration
// ---------------------------------------------------------------------------

/// General settings.
#[derive(Debug, Clone)]
pub struct General {
    pub default_style: FormattedOutputStyle,
    pub default_language: String,
}

/// Engine settings.
#[derive(Debug, Clone)]
pub struct Whisper {
    pub engine: String,
    pub model: String,
    pub model_path: String,
    pub api_url: String,
    pub api_key: Option<String>,
    pub api_key_env: String,
}

/// Output settings.
#[derive(Debug, Clone)]
pub struct Output {
    pub out_dir: String,
    pub frontmatter: bool,
}

/// The configuration of the command-line tool.
#[derive(Debug, Clone)]
pub struct Config {
    pub general: General,
    pub whisper: Whisper,
    pub output: Output,
}

impl Default for General {
    fn default() -> (r: Self)
        ensures
            r.default_style == FormattedOutputStyle::Obsidian,
            r.default_language@ == "auto"@,
    {
        General { default_style: FormattedOutputStyle::Obsidian, default_language: "auto".to_owned() }
    }
}

impl Default for Whisper {
    fn default() -> (r: Self)
        ensures
            r.engine@ == "local"@,
            r.model@ == "base"@,
            r.model_path@ == "models/ggml-base.bin"@,
            r.api_url@ == "https://api.openai.com/v1/audio/transcriptions"@,
            r.api_key is None,
            r.api_key_env@ == "OPENAI_API_KEY"@,
    {
        Whisper {
            engine: "local".to_owned(),
            model: "base".to_owned(),
            model_path: "models/ggml-base.bin".to_owned(),
            api_url: "https://api.openai.com/v1/audio/transcriptions".to_owned(),
            api_key: None,
            api_key_env: "OPENAI_API_KEY".to_owned(),
        }
    }
}

impl Default for Output {
    fn default() -> (r: Self)
        ensures
            r.out_dir@ == "."@,
            r.frontmatter,
    {
        Output { out_dir: ".".to_owned(), frontmatter: true }
    }
}

impl Default for Config {
    fn default() -> (r: Self)
        ensures
            r.general.default_style == FormattedOutputStyle::Obsidian,
            r.general.default_language@ == "auto"@,
            r.whisper.engine@ == "local"@,
            r.whisper.model@ == "base"@,
            r.whisper.model_path@ == "models/ggml-base.bin"@,
            r.whisper.api_url@ == "https://api.openai.com/v1/audio/transcriptions"@,
            r.whisper.api_key is None,
            r.whisper.api_key_env@ == "OPENAI_API_KEY"@,
            r.output.out_dir@ == "."@,
            r.output.frontmatter,
    {
        Config { general: General::default(), whisper: Whisper::default(), output: Output::default() }
    }
}

/// The template that `config init` writes.
pub open spec fn config_template() -> Seq<char> {
    "# voice2md configuration\n\n[general]\ndefault_style = \"obsidian\"    # obsidian | logseq | plain\ndefault_language = \"auto\"     # BCP-47 or \"auto\"\n\n[whisper]\nengine = \"local\"              # local | remote\nmodel = \"base\"                 # tiny | base | small | medium | large\nmodel_path = \"models/ggml-base.bin\"\n\n# remote engine settings\n# api_url = \"https://api.openai.com/v1/audio/transcriptions\"\n# api_key_env = \"OPENAI_API_KEY\"\n\n[output]\nout_dir = \".\"\nfrontmatter = true\n"@
}

/// What `Path::new(base).join(rel)` gives, as text.
pub uninterp spec fn spec_path_join(base: Seq<char>, rel: Seq<char>) -> Seq<char>;

/// Calls `std::path::Path::join` and turns the joined path back into text
/// (lossless here: both parts are text). A function of the two texts.
#[verifier::external_body]
fn path_join(base: &str, rel: &str) -> (r: String)
    ensures
        r@ == spec_path_join(base@, rel@),
{
    std::path::Path::new(base).join(rel).to_string_lossy().into_owned()
}

/// What `Path::is_absolute` says of the path text `p`.
pub uninterp spec fn spec_path_is_absolute(p: Seq<char>) -> bool;

/// Calls `std::path::Path::is_absolute`. A function of the path text.
#[verifier::external_body]
fn path_is_absolute(p: &str) -> (r: bool)
    ensures
        r == spec_path_is_absolute(p@),
{
    std::path::Path::new(p).is_absolute()
}

/// Where the configuration is looked for, first to last: the path in
/// `VOICE2MD_CONFIG`, `config.toml`, and `.config/voice2md/config.toml`
/// below the home folder.
pub open spec fn config_locations(env_config: Option<Seq<char>>, home: Option<Seq<char>>) -> Seq<
    Seq<char>,
> {
    let first = match env_config {
        Some(p) => seq![p],
        None => Seq::empty(),
    };
    let last = match home {
        Some(h) => seq![spec_path_join(h, ".config/voice2md/config.toml"@)],
        None => Seq::empty(),
    };
    first + seq!["config.toml"@] + last
}

impl Config {
    /// The template that `config init` writes.
    pub fn template() -> (r: &'static str)
        ensures
            r@ == config_template(),
    {
        "# voice2md configuration\n\n[general]\ndefault_style = \"obsidian\"    # obsidian | logseq | plain\ndefault_language = \"auto\"     # BCP-47 or \"auto\"\n\n[whisper]\nengine = \"local\"              # local | remote\nmodel = \"base\"                 # tiny | base | small | medium | large\nmodel_path = \"models/ggml-base.bin\"\n\n# remote engine settings\n# api_url = \"https://api.openai.com/v1/audio/transcriptions\"\n# api_key_env = \"OPENAI_API_KEY\"\n\n[output]\nout_dir = \".\"\nfrontmatter = true\n"
    }

    /// Where the configuration is looked for, in order of priority, given
    /// the value of `VOICE2MD_CONFIG` and the home folder.
    pub fn locations(env_config: Option<String>, home: Option<String>) -> (r: Vec<String>)
        ensures
            string_views(r@) == config_locations(opt_view(env_config), opt_view(home)),
    {
        let mut v: Vec<String> = Vec::new();
        match env_config {
            Some(p) => v.push(p),
            None => {},
        }
        v.push("config.toml".to_owned());
        match &home {
            Some(h) => v.push(path_join(h.as_str(), ".config/voice2md/config.toml")),
            None => {},
        }
        assert(string_views(v@) =~= config_locations(opt_view(env_config), opt_view(home)));
        v
    }

    /// The configuration file that is read: the first location that
    /// exists, if any (else the defaults apply). `exists[i]` tells whether
    /// `locations[i]` exists.
    pub fn load_location(locations: &Vec<String>, exists: &Vec<bool>) -> (r: Option<String>)
        requires
            exists@.len() == locations@.len(),
        ensures
            match first_existing(exists@, 0) {
                Some(i) => r matches Some(s) && s@ == locations@[i]@,
                None => r is None,
            },
            (forall|j: int| 0 <= j < exists@.len() ==> !exists@[j]) ==> r is None,
            forall|i: int|
                0 <= i < exists@.len() && #[trigger] exists@[i] && (forall|j: int|
                    0 <= j < i ==> !exists@[j]) ==> (r matches Some(s) && s@ == locations@[i]@),
    {
        proof {
            law_first_existing(exists@, 0);
            assert forall|i: int|
                0 <= i < exists@.len() && #[trigger] exists@[i] && (forall|j: int|
                    0 <= j < i ==> !exists@[j]) implies first_existing(exists@, 0) == Some(i) by {
                if let Some(f) = first_existing(exists@, 0) {
                    if f < i {
                        assert(!exists@[f]);
                    }
                    if f > i {
                        assert(!exists@[i]);
                    }
                }
            }
        }
        let mut i: usize = 0;
        let mut chosen: Option<String> = None;
        while i < locations.len()
            invariant_except_break
                chosen is None,
                first_existing(exists@, 0) == first_existing(exists@, i as int),
            invariant
                i <= locations.len() == exists.len(),
            ensures
                match first_existing(exists@, 0) {
                    Some(f) => chosen matches Some(s) && s@ == locations@[f]@,
                    None => chosen is None,
                },
            decreases locations.len() - i,
        {
            if exists[i] {
                chosen = Some(locations[i].clone());
                break;
            }
            i = i + 1;
        }
        chosen
    }

    /// Where `config init` writes: the first location that exists or is
    /// absolute, else `config.toml`. `exists[i]` tells whether
    /// `locations[i]` exists.
    pub fn init_location(locations: &Vec<String>, exists: &Vec<bool>) -> (r: String)
        requires
            exists@.len() == locations@.len(),
        ensures
            match first_init_candidate(string_views(locations@), exists@, 0) {
                Some(i) => r@ == locations@[i]@,
                None => r@ == "config.toml"@,
            },
            (forall|j: int|
                0 <= j < locations@.len() ==> !exists@[j] && !spec_path_is_absolute(
                    #[trigger] locations@[j]@,
                )) ==> r@ == "config.toml"@,
            forall|i: int|
                0 <= i < locations@.len() && (exists@[i] || spec_path_is_absolute(
                    #[trigger] locations@[i]@,
                )) && (forall|j: int|
                    0 <= j < i ==> !exists@[j] && !spec_path_is_absolute(locations@[j]@))
                    ==> r@ == locations@[i]@,
    {
        proof {
            let names = string_views(locations@);
            law_first_init_candidate(names, exists@, 0);
            assert forall|j: int| 0 <= j < locations@.len() implies #[trigger] names[j]
                == locations@[j]@ by {}
            assert forall|i: int|
                0 <= i < locations@.len() && (exists@[i] || spec_path_is_absolute(
                    #[trigger] locations@[i]@,
                )) && (forall|j: int|
                    0 <= j < i ==> !exists@[j] && !spec_path_is_absolute(locations@[j]@))
                    implies first_init_candidate(names, exists@, 0) == Some(i) by {
                assert(names[i] == locations@[i]@);
                if let Some(f) = first_init_candidate(names, exists@, 0) {
                    assert(names[f] == locations@[f]@);
                    if f < i {
                        assert(!exists@[f] && !spec_path_is_absolute(locations@[f]@));
                    }
                    if f > i {
                        assert(!exists@[i] && !spec_path_is_absolute(names[i]));
                    }
                }
            }
            if forall|j: int|
                0 <= j < locations@.len() ==> !exists@[j] && !spec_path_is_absolute(
                    #[trigger] locations@[j]@,
                ) {
                if let Some(f) = first_init_candidate(names, exists@, 0) {
                    assert(names[f] == locations@[f]@);
                }
            }
        }
        let ghost names = string_views(locations@);
        let mut i: usize = 0;
        let mut chosen: Option<String> = None;
        while i < locations.len()
            invariant_except_break
                chosen is None,
                first_init_candidate(names, exists@, 0) == first_init_candidate(
                    names,
                    exists@,
                    i as int,
                ),
            invariant
                i <= locations.len() == exists.len(),
                names == string_views(locations@),
            ensures
                match first_init_candidate(names, exists@, 0) {
                    Some(f) => chosen matches Some(s) && s@ == locations@[f]@,
                    None => chosen is None,
                },
            decreases locations.len() - i,
        {
            assert(names[i as int] == locations@[i as int]@);
            if exists[i] || path_is_absolute(locations[i].as_str()) {
                chosen = Some(locations[i].clone());
                break;
            }
            i = i + 1;
        }
        match chosen {
            Some(s) => s,
            None => "config.toml".to_owned(),
        }
    }
}

/// The first index from `i` on whose location exists.
pub open spec fn first_existing(exists: Seq<bool>, i: int) -> Option<int>
    decreases exists.len() - i,
{
    if i < 0 || i >= exists.len() {
        None
    } else if exists[i] {
        Some(i)
    } else {
        first_existing(exists, i + 1)
    }
}

/// Law: the configuration read is the first location that exists: the
/// index found from `k` on exists, every location between `k` and it does
/// not, and none is found only when no location from `k` on exists.
pub proof fn law_first_existing(present: Seq<bool>, k: int)
    requires
        0 <= k <= present.len(),
    ensures
        match first_existing(present, k) {
            Some(i) => k <= i < present.len() && present[i] && forall|j: int|
                k <= j < i ==> !present[j],
            None => forall|j: int| k <= j < present.len() ==> !present[j],
        },
    decreases present.len() - k,
{
    if k < present.len() && !present[k] {
        law_first_existing(present, k + 1);
        assert(first_existing(present, k) == first_existing(present, k + 1));
        match first_existing(present, k) {
            Some(i) => {
                assert forall|j: int| k <= j < i implies !present[j] by {
                    if j > k {
                        assert(k + 1 <= j < i);
                    }
                }
            },
            None => {
                assert forall|j: int| k <= j < present.len() implies !present[j] by {
                    if j > k {
                        assert(k + 1 <= j < present.len());
                    }
                }
            },
        }
    }
}

/// Whether no location with index in `[a, b)` exists or is absolute.
pub open spec fn no_init_candidate(locations: Seq<Seq<char>>, present: Seq<bool>, a: int, b: int) -> bool {
    forall|j: int|
        #![trigger present[j]]
        #![trigger locations[j]]
        a <= j < b ==> !present[j] && !spec_path_is_absolute(locations[j])
}

/// Law: `config init` writes to the first location that exists or is
/// absolute: the index found from `k` on is such a location, every
/// location between `k` and it is neither, and none is found only when no
/// location from `k` on is either.
pub proof fn law_first_init_candidate(locations: Seq<Seq<char>>, present: Seq<bool>, k: int)
    requires
        0 <= k <= locations.len(),
        present.len() == locations.len(),
    ensures
        match first_init_candidate(locations, present, k) {
            Some(i) => k <= i < locations.len() && (present[i] || spec_path_is_absolute(
                locations[i],
            )) && no_init_candidate(locations, present, k, i),
            None => no_init_candidate(locations, present, k, locations.len() as int),
        },
    decreases locations.len() - k,
{
    if k < locations.len() && !present[k] && !spec_path_is_absolute(locations[k]) {
        law_first_init_candidate(locations, present, k + 1);
        let end = match first_init_candidate(locations, present, k + 1) {
            Some(i) => i,
            None => locations.len() as int,
        };
        assert(no_init_candidate(locations, present, k + 1, end));
        assert forall|j: int| k <= j < end implies !present[j] && !spec_path_is_absolute(
            #[trigger] locations[j],
        ) by {
            if j > k {
                assert(no_init_candidate(locations, present, k + 1, end));
            }
        }
    }
}

/// The first index from `i` on whose location exists or is absolute.
pub open spec fn first_init_candidate(locations: Seq<Seq<char>>, exists: Seq<bool>, i: int) -> Option<
    int,
>
    decreases locations.len() - i,
{
    if i < 0 || i >= locations.len() {
        None
    } else if exists[i] || spec_path_is_absolute(locations[i]) {
        Some(i)
    } else {
        first_init_candidate(locations, exists, i + 1)
    }
}

// ---------------------------------------------------------------------------
// Runs
// ---------------------------------------------------------------------------

/// The transcription engines.
#[derive(Debug, Clone, Copy, PartialEq, Eq)]
pub enum EngineKind {
    Local,
    Remote,
}

/// The engine that the configured name asks for, or the message of the
/// error for an unknown name.
pub open spec fn engine_of_name(name: Seq<char>) -> Result<EngineKind, Seq<char>> {
    if name == "local"@ {
        Ok(EngineKind::Local)
    } else if name == "remote"@ {
        Ok(EngineKind::Remote)
    } else {
        Err("unknown whisper engine: "@ + name + " (expected 'local' or 'remote')"@)
    }
}

/// Chooses the engine by its configured name.
pub fn select_engine(name: &str) -> (r: Result<EngineKind, String>)
    ensures
        match engine_of_name(name@) {
            Ok(k) => r == Ok::<EngineKind, String>(k),
            Err(m) => r matches Err(s) && s@ == m,
        },
{
    let v = crate::text::chars_of(name);
    if crate::text::chars_eq_str(&v, "local") {
        Ok(EngineKind::Local)
    } else if crate::text::chars_eq_str(&v, "remote") {
        Ok(EngineKind::Remote)
    } else {
        let mut out: Vec<char> = Vec::new();
        push_str(&mut out, "unknown whisper engine: ");
        push_str(&mut out, name);
        push_str(&mut out, " (expected 'local' or 'remote')");
        Err(string_of(&out))
    }
}

/// The language and style of a run: the given language or `auto`, the
/// given style or the default (Obsidian).
pub fn run_settings(language: Option<String>, style: Option<FormattedOutputStyle>) -> (r: Result<
    (LanguageIso, FormattedOutputStyle),
    DomainError,
>)
    ensures
        ({
            let l = match opt_view(language) {
                Some(s) => s,
                None => "auto"@,
            };
            let st = match style {
                Some(s) => s,
                None => FormattedOutputStyle::Obsidian,
            };
            if normalize_language(l).len() > 0 {
                r matches Ok((lang, s)) && lang@ == normalize_language(l) && s == st
            } else {
                r matches Err(DomainError::InvalidLanguage)
            }
        }),
{
    let lang = match &language {
        Some(s) => LanguageIso::new(s.as_str()),
        None => LanguageIso::new("auto"),
    };
    let st = match style {
        Some(s) => s,
        None => FormattedOutputStyle::Obsidian,
    };
    match lang {
        Ok(l) => Ok((l, st)),
        Err(e) => Err(e),
    }
}

/// The instant each path was last processed, from a log of
/// `(path, instant)` entries in which a later entry for a path replaces an
/// earlier one.
pub open spec fn last_seen(log: Seq<(Vec<char>, u64)>) -> Map<Seq<char>, u64>
    decreases log.len(),
{
    if log.len() == 0 {
        Map::empty()
    } else {
        last_seen(log.drop_last()).insert(log.last().0@, log.last().1)
    }
}

/// Entries after `i` that name other paths leave what the log says of
/// `path` as the first `i` entries say it.
proof fn lemma_last_seen_tail(log: Seq<(Vec<char>, u64)>, i: int, path: Seq<char>)
    requires
        0 <= i <= log.len(),
        forall|j: int| i <= j < log.len() ==> (#[trigger] log[j]).0@ != path,
    ensures
        last_seen(log).contains_key(path) == last_seen(log.take(i)).contains_key(path),
        last_seen(log).contains_key(path) ==> last_seen(log)[path] == last_seen(log.take(i))[path],
    decreases log.len(),
{
    if i == log.len() {
        assert(log.take(i) =~= log);
    } else {
        let d = log.drop_last();
        assert(d.take(i) =~= log.take(i));
        assert forall|j: int| i <= j < d.len() implies (#[trigger] d[j]).0@ != path by {
            assert(d[j] == log[j]);
        }
        lemma_last_seen_tail(d, i, path);
    }
}

/// Replacing a path's last entry in the log by a new entry for that path
/// records the new entry's instant for it and changes nothing else.
proof fn lemma_last_seen_update(log: Seq<(Vec<char>, u64)>, i: int, e: (Vec<char>, u64))
    requires
        0 <= i < log.len(),
        e.0@ == log[i].0@,
        forall|j: int| i < j < log.len() ==> (#[trigger] log[j]).0@ != e.0@,
    ensures
        last_seen(log.update(i, e)) == last_seen(log).insert(e.0@, e.1),
    decreases log.len(),
{
    let n = log.update(i, e);
    let d = log.drop_last();
    if i == log.len() - 1 {
        assert(n.drop_last() =~= d);
        assert(n.last() == e);
        assert(last_seen(n) =~= last_seen(log).insert(e.0@, e.1));
    } else {
        assert forall|j: int| i < j < d.len() implies (#[trigger] d[j]).0@ != e.0@ by {
            assert(d[j] == log[j]);
        }
        assert(d[i] == log[i]);
        lemma_last_seen_update(d, i, e);
        assert(n.drop_last() =~= d.update(i, e));
        assert(n.last() == log.last());
        assert(log.last() == log[log.len() - 1]);
        assert(last_seen(n) =~= last_seen(log).insert(e.0@, e.1));
    }
}

/// Whether the watcher processes an event for a path at `now_ms`, given
/// when that path was last processed: always for a path not seen before;
/// otherwise once `debounce_ms` milliseconds have passed since then (an
/// earlier clock reading counts as no time passed).
pub open spec fn debounce_admits(last: Option<u64>, now_ms: u64, debounce_ms: u64) -> bool {
    match last {
        None => true,
        Some(t) => {
            let elapsed = if now_ms >= t {
                now_ms - t
            } else {
                0
            };
            elapsed >= debounce_ms
        },
    }
}

/// The debounce of the folder watcher, kept per path: an event for one
/// file never holds back an event for another. It holds one entry per
/// path seen.
#[derive(Debug)]
pub struct Debouncer {
    log: Vec<(Vec<char>, u64)>,
}

impl View for Debouncer {
    type V = Map<Seq<char>, u64>;

    /// When each path was last processed, in milliseconds.
    closed spec fn view(&self) -> Map<Seq<char>, u64> {
        last_seen(self.log@)
    }
}

impl Debouncer {
    /// No two entries name the same path.
    #[verifier::type_invariant]
    spec fn inv(self) -> bool {
        forall|i: int, j: int|
            0 <= i < j < self.log@.len() ==> (#[trigger] self.log@[i]).0@ != (
            #[trigger] self.log@[j]).0@
    }

    /// A debouncer that has seen no path.
    pub fn new() -> (r: Self)
        ensures
            r@ == Map::<Seq<char>, u64>::empty(),
    {
        Debouncer { log: Vec::new() }
    }

    /// Decides on an event for `path` at `now_ms` (milliseconds on the
    /// watcher's clock): processed when `debounce_admits` says so for the
    /// path's last processing, and then remembered as the path's last.
    pub fn should_process(&mut self, path: &str, now_ms: u64, debounce_ms: u64) -> (r: bool)
        ensures
            r == debounce_admits(
                if old(self)@.contains_key(path@) {
                    Some(old(self)@[path@])
                } else {
                    None
                },
                now_ms,
                debounce_ms,
            ),
            final(self)@ == if r {
                old(self)@.insert(path@, now_ms)
            } else {
                old(self)@
            },
    {
        proof {
            use_type_invariant(&*self);
        }
        let p = crate::text::chars_of(path);
        let ghost log0 = self.log@;
        let mut i: usize = self.log.len();
        let mut found: Option<(usize, u64)> = None;
        while i > 0
            invariant_except_break
                found is None,
                forall|j: int| i <= j < log0.len() ==> (#[trigger] log0[j]).0@ != path@,
            invariant
                self.log@ == log0,
                i <= log0.len(),
                p@ == path@,
            ensures
                self.log@ == log0,
                match found {
                    None => forall|j: int| 0 <= j < log0.len() ==> (#[trigger] log0[j]).0@ != path@,
                    Some((k, t)) => {
                        &&& k < log0.len()
                        &&& log0[k as int].0@ == path@
                        &&& forall|j: int| k < j < log0.len() ==> (#[trigger] log0[j]).0@ != path@
                        &&& last_seen(log0).contains_key(path@)
                        &&& last_seen(log0)[path@] == t
                    },
                },
            decreases i,
        {
            if crate::text::chars_eq(&self.log[i - 1].0, &p) {
                let t = self.log[i - 1].1;
                proof {
                    let k = i as int;
                    lemma_last_seen_tail(log0, k, path@);
                    let pre = log0.take(k);
                    assert(pre.drop_last() =~= log0.take(k - 1));
                    assert(pre.last() == log0[k - 1]);
                }
                found = Some((i - 1, t));
                break;
            }
            i = i - 1;
        }
        proof {
            if found is None {
                lemma_last_seen_tail(log0, 0, path@);
                assert(log0.take(0) =~= Seq::<(Vec<char>, u64)>::empty());
            }
        }
        let admitted = match found {
            None => true,
            Some((_, t)) => {
                let elapsed = if now_ms >= t {
                    now_ms - t
                } else {
                    0
                };
                elapsed >= debounce_ms
            },
        };
        if admitted {
            let mut log: Vec<(Vec<char>, u64)> = Vec::new();
            std::mem::swap(&mut log, &mut self.log);
            match found {
                None => {
                    log.push((p, now_ms));
                    proof {
                        assert(log@.drop_last() =~= log0);
                    }
                },
                Some((k, _)) => {
                    log.set(k, (p, now_ms));
                    proof {
                        lemma_last_seen_update(log0, k as int, (p, now_ms));
                    }
                },
            }
            self.log = log;
        }
        admitted
    }
}

/// What `transcribe` prints: the Markdown as it is with `--dry-run`,
/// followed by a line feed otherwise.
pub fn rendered_output(markdown: &MarkdownContent, dry_run: bool) -> (r: String)
    ensures
        r@ == if dry_run {
            markdown@
        } else {
            markdown@ + "\n"@
        },
{
    let mut out: Vec<char> = Vec::new();
    push_str(&mut out, markdown.as_str());
    if !dry_run {
        push_str(&mut out, "\n");
    }
    string_of(&out)
}

// ---------------------------------------------------------------------------
// Storage
// ---------------------------------------------------------------------------

/// Writes `<out_dir>/<title>.md`.
#[derive(Debug, Clone)]
pub struct FileStorage {
    pub out_dir: String,
}

impl FileStorage {
    pub fn new(out_dir: String) -> (r: Self)
        ensures
            r.out_dir == out_dir,
    {
        FileStorage { out_dir }
    }

    /// The file name of a note: its title followed by `.md`.
    pub fn file_name(&self, note: &Note<Formatted>) -> (r: String)
        ensures
            r@ == note.title@ + ".md"@,
    {
        let mut out: Vec<char> = Vec::new();
        push_str(&mut out, note.title().as_str());
        push_str(&mut out, ".md");
        string_of(&out)
    }
}

} // verus!
