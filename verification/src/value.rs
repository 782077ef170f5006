//! Value objects whose invariants hold by construction.
use vstd::prelude::*;

use crate::errors::{opt_view, AudioFileError, DomainError};
use crate::text::{
    all_in_class, chars_eq_str, chars_of, has_other, is_control, is_control_char, is_ws,
    lemma_strip_end_at, lemma_strip_end_len, lemma_strip_nonempty, lemma_strip_start_at, lower_ascii_seq,
    lower_ascii, lower_ascii_vec, string_of, strip, strip_end, strip_end_vec, strip_pred, strip_start,
    strip_vec, sub_vec, trim, trim_end, Strip,
};

verus! {

// ---------------------------------------------------------------------------
// Audio file paths
// ---------------------------------------------------------------------------

/// The extensions (lower case) accepted as audio.
pub open spec fn is_supported_ext(e: Seq<char>) -> bool {
    ||| e == "wav"@
    ||| e == "mp3"@
    ||| e == "ogg"@
    ||| e == "m4a"@
    ||| e == "opus"@
    ||| e == "flac"@
    ||| e == "webm"@
}

/// The supported audio extensions, in their canonical order.
pub fn supported_audio_extensions() -> (r: Vec<&'static str>)
    ensures
        r@.len() == 7,
        forall|i: int| 0 <= i < 7 ==> is_supported_ext(#[trigger] r@[i]@),
        forall|e: Seq<char>| is_supported_ext(e) ==> exists|i: int| 0 <= i < 7 && #[trigger] r@[i]@ == e,
{
    let v = vec!["wav", "mp3", "ogg", "m4a", "opus", "flac", "webm"];
    assert(v@[0]@ == "wav"@ && v@[1]@ == "mp3"@ && v@[2]@ == "ogg"@ && v@[3]@ == "m4a"@);
    assert(v@[4]@ == "opus"@ && v@[5]@ == "flac"@ && v@[6]@ == "webm"@);
    v
}

/// Whether the lower-cased extension `e` is a supported audio extension.
pub fn is_supported_extension(e: &Vec<char>) -> (r: bool)
    ensures
        r == is_supported_ext(e@),
{
    chars_eq_str(e, "wav") || chars_eq_str(e, "mp3") || chars_eq_str(e, "ogg") || chars_eq_str(
        e,
        "m4a",
    ) || chars_eq_str(e, "opus") || chars_eq_str(e, "flac") || chars_eq_str(e, "webm")
}

/// What `std::path::Path::extension` gives for the path text `p`.
pub uninterp spec fn spec_path_extension(p: Seq<char>) -> Option<Seq<char>>;

/// Calls `std::path::Path::extension` on the path `p` and converts the
/// result back to text. The contract names the result: it is a function of
/// the path text alone. The extension of a path given as UTF-8 text is
/// itself valid UTF-8, so the conversion keeps every result.
#[verifier::external_body]
pub(crate) fn path_extension(p: &str) -> (r: Option<String>)
    ensures
        opt_view(r) == spec_path_extension(p@),
{
    std::path::Path::new(p).extension().and_then(|e| e.to_str()).map(|e| e.to_owned())
}

/// The lower-cased extension of the path text `p`, as `AudioFilePath`
/// reads it.
pub open spec fn lower_extension(p: Seq<char>) -> Option<Seq<char>> {
    match spec_path_extension(p) {
        Some(e) => Some(lower_ascii_seq(e)),
        None => None,
    }
}

fn lower_extension_of(p: &str) -> (r: Option<String>)
    ensures
        opt_view(r) == lower_extension(p@),
{
    match path_extension(p) {
        Some(e) => {
            let v = chars_of(e.as_str());
            let l = lower_ascii_vec(&v);
            Some(string_of(&l))
        },
        None => None,
    }
}

/// What the file system says of a path, gathered before validation:
/// whether it exists, whether it is a file, and its canonical form (or
/// the message of the error that canonicalizing it gave).
pub struct PathProbe {
    pub exists: bool,
    pub is_file: bool,
    pub canonical: Result<String, String>,
}

/// An existing file with a supported audio extension, by its canonical
/// path.
#[derive(Debug)]
pub struct AudioFilePath {
    path: String,
}

impl View for AudioFilePath {
    type V = Seq<char>;

    closed spec fn view(&self) -> Seq<char> {
        self.path@
    }
}

impl Clone for AudioFilePath {
    fn clone(&self) -> (r: Self)
        ensures
            r == *self,
    {
        proof {
            use_type_invariant(self);
        }
        AudioFilePath { path: self.path.clone() }
    }
}

/// The lower-cased extension of the path text `p`, and whether it is a
/// supported audio extension.
fn audio_extension_of(p: &str) -> (r: (bool, Option<String>))
    ensures
        r.0 == has_audio_extension(p@),
        opt_view(r.1) == lower_extension(p@),
{
    let ext = lower_extension_of(p);
    let supported = match &ext {
        Some(e) => {
            let v = chars_of(e.as_str());
            is_supported_extension(&v)
        },
        None => {
            let v: Vec<char> = Vec::new();
            assert(v@ == Seq::<char>::empty());
            is_supported_extension(&v)
        },
    };
    (supported, ext)
}

/// No supported extension is empty.
proof fn lemma_empty_extension_unsupported()
    ensures
        !is_supported_ext(Seq::<char>::empty()),
{
    reveal_strlit("wav");
    reveal_strlit("mp3");
    reveal_strlit("ogg");
    reveal_strlit("m4a");
    reveal_strlit("opus");
    reveal_strlit("flac");
    reveal_strlit("webm");
    assert("wav"@.len() == 3 && "mp3"@.len() == 3 && "ogg"@.len() == 3 && "m4a"@.len() == 3);
    assert("opus"@.len() == 4 && "flac"@.len() == 4 && "webm"@.len() == 4);
}

/// Whether the lower-cased extension of the path text `p` is a supported
/// audio extension (a path without one has none).
pub open spec fn has_audio_extension(p: Seq<char>) -> bool {
    is_supported_ext(
        match lower_extension(p) {
            Some(e) => e,
            None => Seq::empty(),
        },
    )
}

impl AudioFilePath {
    /// The path's extension is a supported audio extension.
    #[verifier::type_invariant]
    spec fn inv(self) -> bool {
        has_audio_extension(self.path@)
    }

    /// Validates a path to an audio file and keeps its canonical form.
    ///
    /// Checks in order: the path exists, it is a file, its lower-cased
    /// extension is supported; then it is canonicalized, and the canonical
    /// path (the file that a link resolves to) must have a supported
    /// extension too.
    pub fn try_from_path(p: &str, probe: PathProbe) -> (r: Result<Self, AudioFileError>)
        ensures
            !probe.exists ==> (r matches Err(AudioFileError::NotFound(m)) && m@ == p@),
            probe.exists && !probe.is_file ==> (r matches Err(AudioFileError::NotAFile(m)) && m@
                == p@),
            probe.exists && probe.is_file && !has_audio_extension(p@) ==> (r matches Err(
                AudioFileError::UnsupportedExtension(e),
            ) && opt_view(e) == lower_extension(p@)),
            probe.exists && probe.is_file && has_audio_extension(p@) ==> match probe.canonical {
                Err(m) => r matches Err(AudioFileError::Io(e)) && e@ == m@,
                Ok(c) => if has_audio_extension(c@) {
                    r matches Ok(a) && a@ == c@
                } else {
                    r matches Err(AudioFileError::UnsupportedExtension(e)) && opt_view(e)
                        == lower_extension(c@)
                },
            },
    {
        if !probe.exists {
            return Err(AudioFileError::NotFound(p.to_owned()));
        }
        if !probe.is_file {
            return Err(AudioFileError::NotAFile(p.to_owned()));
        }
        let (given_ok, given_ext) = audio_extension_of(p);
        if !given_ok {
            return Err(AudioFileError::UnsupportedExtension(given_ext));
        }
        let c = match probe.canonical {
            Ok(c) => c,
            Err(m) => {
                return Err(AudioFileError::Io(m));
            },
        };
        let (resolved_ok, resolved_ext) = audio_extension_of(c.as_str());
        if !resolved_ok {
            return Err(AudioFileError::UnsupportedExtension(resolved_ext));
        }
        Ok(AudioFilePath { path: c })
    }

    /// The canonical path.
    pub fn as_path(&self) -> (r: &str)
        ensures
            r@ == self@,
    {
        self.path.as_str()
    }

    /// A copy of the canonical path.
    pub fn to_path_buf(&self) -> (r: String)
        ensures
            r@ == self@,
    {
        self.path.clone()
    }

    /// The lower-cased extension of the path: always one of the supported
    /// audio extensions.
    pub fn extension(&self) -> (r: Option<String>)
        ensures
            opt_view(r) == lower_extension(self@),
            r matches Some(e) && is_supported_ext(e@),
    {
        proof {
            use_type_invariant(self);
            lemma_empty_extension_unsupported();
        }
        let r = lower_extension_of(self.path.as_str());
        assert(lower_extension(self@) is Some);
        assert(r is Some);
        r
    }
}

// ---------------------------------------------------------------------------
// Transcript
// ---------------------------------------------------------------------------

/// A raw transcript: trimmed and never empty.
#[derive(Debug)]
pub struct RawTranscript {
    text: String,
}

impl View for RawTranscript {
    type V = Seq<char>;

    closed spec fn view(&self) -> Seq<char> {
        self.text@
    }
}

impl RawTranscript {
    #[verifier::type_invariant]
    spec fn inv(self) -> bool {
        self.text@.len() > 0 && trim(self.text@) == self.text@
    }


    /// Trims `s`; refuses text that is only whitespace.
    pub fn new(s: &str) -> (r: Result<Self, DomainError>)
        ensures
            match r {
                Ok(t) => trim(s@).len() > 0 && t@ == trim(s@),
                Err(e) => trim(s@).len() == 0 && e is EmptyTranscript,
            },
    {
        let v = chars_of(s);
        let t = strip_vec(&v, Strip::Whitespace);
        if t.len() == 0 {
            return Err(DomainError::EmptyTranscript);
        }
        proof {
            lemma_trim_idempotent(v@);
        }
        Ok(RawTranscript { text: string_of(&t) })
    }

    /// The text; it is never empty and is its own trim.
    pub fn as_str(&self) -> (r: &str)
        ensures
            r@ == self@,
            r@.len() > 0,
            trim(r@) == r@,
    {
        proof {
            use_type_invariant(self);
        }
        self.text.as_str()
    }
}

impl AsRef<str> for RawTranscript {
    fn as_ref(&self) -> (r: &str)
        ensures
            r@ == self@,
    {
        self.text.as_str()
    }
}

impl Clone for RawTranscript {
    fn clone(&self) -> (r: Self)
        ensures
            r == *self,
    {
        proof {
            use_type_invariant(self);
        }
        RawTranscript { text: self.text.clone() }
    }
}

/// Trimming twice trims nothing more.
pub proof fn lemma_trim_idempotent(s: Seq<char>)
    ensures
        trim(trim(s)) == trim(s),
{
    lemma_strip_idempotent(s, Strip::Whitespace);
}

pub proof fn lemma_strip_idempotent(s: Seq<char>, k: Strip)
    ensures
        strip(strip(s, k), k) == strip(s, k),
{
    let t = strip(s, k);
    lemma_strip_nonempty(s, k);
    if t.len() > 0 {
        lemma_strip_start_at(t, k, 0);
        assert(t.subrange(0, t.len() as int) == t);
        lemma_strip_end_at(t, k, t.len() as int);
    } else {
        assert(strip_start(t, k) == t);
        assert(strip_end(t, k) == t);
    }
}

// ---------------------------------------------------------------------------
// Markdown
// ---------------------------------------------------------------------------

/// A final Markdown document: never blank.
#[derive(Debug)]
pub struct MarkdownContent {
    text: String,
}

impl View for MarkdownContent {
    type V = Seq<char>;

    closed spec fn view(&self) -> Seq<char> {
        self.text@
    }
}

impl MarkdownContent {
    #[verifier::type_invariant]
    spec fn inv(self) -> bool {
        has_other(self.text@, Strip::Whitespace)
    }


    /// Keeps `s` as it is; refuses text that is empty or only whitespace.
    pub fn new(s: &str) -> (r: Result<Self, DomainError>)
        ensures
            match r {
                Ok(m) => has_other(s@, Strip::Whitespace) && m@ == s@,
                Err(e) => !has_other(s@, Strip::Whitespace) && e is EmptyMarkdown,
            },
    {
        let v = chars_of(s);
        if all_in_class(&v, Strip::Whitespace) {
            return Err(DomainError::EmptyMarkdown);
        }
        Ok(MarkdownContent { text: s.to_owned() })
    }

    /// The text; it holds a character that is not whitespace.
    pub fn as_str(&self) -> (r: &str)
        ensures
            r@ == self@,
            has_other(r@, Strip::Whitespace),
    {
        proof {
            use_type_invariant(self);
        }
        self.text.as_str()
    }

    pub fn into_inner(self) -> (r: String)
        ensures
            r@ == self@,
    {
        self.text
    }
}

impl Clone for MarkdownContent {
    fn clone(&self) -> (r: Self)
        ensures
            r == *self,
    {
        proof {
            use_type_invariant(self);
        }
        MarkdownContent { text: self.text.clone() }
    }
}

// ---------------------------------------------------------------------------
// Note title
// ---------------------------------------------------------------------------

/// Characters that cannot stand in a file name become `-`, control
/// characters become a space.
pub open spec fn clean_title_char(c: char) -> char {
    if c == '/' || c == '\\' || c == ':' || c == '*' || c == '?' || c == '"' || c == '<' || c
        == '>' || c == '|' {
        '-'
    } else if is_control(c) {
        ' '
    } else {
        c
    }
}

/// The cleaned text before truncation: mapped, trimmed, stripped of `-`
/// at both ends, trimmed again.
pub open spec fn title_core(raw: Seq<char>) -> Seq<char> {
    trim(strip(trim(raw.map_values(|c: char| clean_title_char(c))), Strip::Dash))
}

pub open spec fn title_max_len() -> nat {
    180
}

/// The normalized title of `raw`, or `None` when nothing is left of it.
pub open spec fn normalize_title(raw: Seq<char>) -> Option<Seq<char>> {
    let core = title_core(raw);
    if core.len() == 0 {
        None
    } else {
        let n = if core.len() <= title_max_len() {
            core.len() as int
        } else {
            title_max_len() as int
        };
        Some(trim_end(core.take(n)))
    }
}

/// A note title: normalized, never empty, at most `MAX_LEN` characters.
#[derive(Debug)]
pub struct NoteTitle {
    text: String,
}

impl View for NoteTitle {
    type V = Seq<char>;

    closed spec fn view(&self) -> Seq<char> {
        self.text@
    }
}

/// A normalized title is never empty and never longer than the limit.
pub proof fn lemma_normalize_title_bounds(raw: Seq<char>)
    ensures
        normalize_title(raw) matches Some(t) ==> 0 < t.len() <= title_max_len(),
{
    let core = title_core(raw);
    if core.len() > 0 {
        let n = if core.len() <= title_max_len() {
            core.len() as int
        } else {
            title_max_len() as int
        };
        let inner = strip(trim(raw.map_values(|c: char| clean_title_char(c))), Strip::Dash);
        lemma_strip_nonempty(inner, Strip::Whitespace);
        lemma_strip_end_len(core.take(n), Strip::Whitespace);
    }
}

impl NoteTitle {
    pub const MAX_LEN: usize = 180;

    #[verifier::type_invariant]
    spec fn inv(self) -> bool {
        0 < self.text@.len() <= title_max_len()
    }


    /// Normalizes `s` into a title; refuses text of which nothing is left.
    pub fn new(s: &str) -> (r: Result<Self, DomainError>)
        ensures
            match normalize_title(s@) {
                Some(t) => r matches Ok(n) && n@ == t,
                None => r matches Err(DomainError::InvalidTitle(m)) && m@ == s@,
            },
            r matches Ok(n) ==> 0 < n@.len() <= title_max_len(),
    {
        let v = chars_of(s);
        let mut cleaned: Vec<char> = Vec::new();
        let mut i: usize = 0;
        while i < v.len()
            invariant
                i <= v.len(),
                cleaned@ == v@.take(i as int).map_values(|c: char| clean_title_char(c)),
            decreases v.len() - i,
        {
            let c = v[i];
            let d = if c == '/' || c == '\\' || c == ':' || c == '*' || c == '?' || c == '"' || c
                == '<' || c == '>' || c == '|' {
                '-'
            } else if is_control_char(c) {
                ' '
            } else {
                c
            };
            cleaned.push(d);
            assert(v@.take(i + 1) == v@.take(i as int).push(v@[i as int]));
            i = i + 1;
        }
        assert(v@.take(v.len() as int) == v@);
        let a = strip_vec(&cleaned, Strip::Whitespace);
        let b = strip_vec(&a, Strip::Dash);
        let core = strip_vec(&b, Strip::Whitespace);
        if core.len() == 0 {
            return Err(DomainError::InvalidTitle(s.to_owned()));
        }
        let n: usize = if core.len() <= Self::MAX_LEN {
            core.len()
        } else {
            Self::MAX_LEN
        };
        let head = sub_vec(&core, 0, n);
        assert(head@ == core@.take(n as int));
        let out = strip_end_vec(&head, Strip::Whitespace);
        proof {
            lemma_normalize_title_bounds(s@);
        }
        Ok(NoteTitle { text: string_of(&out) })
    }

    /// The text; it is never empty and never longer than `MAX_LEN`.
    pub fn as_str(&self) -> (r: &str)
        ensures
            r@ == self@,
            0 < r@.len() <= title_max_len(),
    {
        proof {
            use_type_invariant(self);
        }
        self.text.as_str()
    }
}

impl Clone for NoteTitle {
    fn clone(&self) -> (r: Self)
        ensures
            r == *self,
    {
        proof {
            use_type_invariant(self);
        }
        NoteTitle { text: self.text.clone() }
    }
}

// ---------------------------------------------------------------------------
// Duration
// ---------------------------------------------------------------------------

/// An audio duration in seconds, strictly positive.
#[derive(Debug, Clone, Copy)]
pub struct AudioDurationSecs {
    secs: u32,
}

impl View for AudioDurationSecs {
    type V = u32;

    closed spec fn view(&self) -> u32 {
        self.secs
    }
}

impl AudioDurationSecs {
    #[verifier::type_invariant]
    spec fn inv(self) -> bool {
        self.secs > 0
    }


    pub fn new(secs: u32) -> (r: Result<Self, DomainError>)
        ensures
            match r {
                Ok(d) => secs > 0 && d@ == secs,
                Err(e) => secs == 0 && e is InvalidDuration,
            },
    {
        if secs == 0 {
            return Err(DomainError::InvalidDuration);
        }
        Ok(AudioDurationSecs { secs })
    }

    /// The number of seconds; never zero.
    pub fn get(self) -> (r: u32)
        ensures
            r == self@,
            r > 0,
    {
        proof {
            use_type_invariant(&self);
        }
        self.secs
    }
}

// ---------------------------------------------------------------------------
// Language
// ---------------------------------------------------------------------------

/// The language code that `s` normalizes to: trimmed, ASCII lower case.
pub open spec fn normalize_language(s: Seq<char>) -> Seq<char> {
    lower_ascii_seq(trim(s))
}

/// A BCP-47 language code in lower case, or `auto` for detection.
#[derive(Debug)]
pub struct LanguageIso {
    code: String,
}

impl View for LanguageIso {
    type V = Seq<char>;

    closed spec fn view(&self) -> Seq<char> {
        self.code@
    }
}

impl LanguageIso {
    #[verifier::type_invariant]
    spec fn inv(self) -> bool {
        self.code@.len() > 0
    }


    /// Trims and lower-cases `s`; refuses text that is only whitespace.
    pub fn new(s: &str) -> (r: Result<Self, DomainError>)
        ensures
            match r {
                Ok(l) => normalize_language(s@).len() > 0 && l@ == normalize_language(s@),
                Err(e) => normalize_language(s@).len() == 0 && e is InvalidLanguage,
            },
    {
        let v = chars_of(s);
        let t = strip_vec(&v, Strip::Whitespace);
        let l = lower_ascii_vec(&t);
        if l.len() == 0 {
            return Err(DomainError::InvalidLanguage);
        }
        Ok(LanguageIso { code: string_of(&l) })
    }

    /// The code; never empty.
    pub fn as_str(&self) -> (r: &str)
        ensures
            r@ == self@,
            r@.len() > 0,
    {
        proof {
            use_type_invariant(self);
        }
        self.code.as_str()
    }

    /// Whether the code asks for detection.
    pub fn is_auto(&self) -> (r: bool)
        ensures
            r == (self@ == "auto"@),
    {
        let v = chars_of(self.code.as_str());
        chars_eq_str(&v, "auto")
    }
}

impl Clone for LanguageIso {
    fn clone(&self) -> (r: Self)
        ensures
            r == *self,
    {
        proof {
            use_type_invariant(self);
        }
        LanguageIso { code: self.code.clone() }
    }
}

// ---------------------------------------------------------------------------
// Audio format and output style
// ---------------------------------------------------------------------------

/// A supported audio format.
#[derive(Debug, Clone, Copy, PartialEq, Eq, Hash)]
pub enum AudioFormat {
    Wav,
    Mp3,
    Ogg,
    M4a,
    Opus,
    Flac,
    Webm,
}

/// The format named by the lower-case extension `e`.
pub open spec fn format_of_ext(e: Seq<char>) -> Option<AudioFormat> {
    if e == "wav"@ {
        Some(AudioFormat::Wav)
    } else if e == "mp3"@ {
        Some(AudioFormat::Mp3)
    } else if e == "ogg"@ {
        Some(AudioFormat::Ogg)
    } else if e == "m4a"@ {
        Some(AudioFormat::M4a)
    } else if e == "opus"@ {
        Some(AudioFormat::Opus)
    } else if e == "flac"@ {
        Some(AudioFormat::Flac)
    } else if e == "webm"@ {
        Some(AudioFormat::Webm)
    } else {
        None
    }
}

impl AudioFormat {
    /// The format of an extension, in any ASCII case.
    pub fn from_extension(ext: &str) -> (r: Option<Self>)
        ensures
            r == format_of_ext(lower_ascii_seq(ext@)),
    {
        let v = chars_of(ext);
        let l = lower_ascii_vec(&v);
        if chars_eq_str(&l, "wav") {
            Some(AudioFormat::Wav)
        } else if chars_eq_str(&l, "mp3") {
            Some(AudioFormat::Mp3)
        } else if chars_eq_str(&l, "ogg") {
            Some(AudioFormat::Ogg)
        } else if chars_eq_str(&l, "m4a") {
            Some(AudioFormat::M4a)
        } else if chars_eq_str(&l, "opus") {
            Some(AudioFormat::Opus)
        } else if chars_eq_str(&l, "flac") {
            Some(AudioFormat::Flac)
        } else if chars_eq_str(&l, "webm") {
            Some(AudioFormat::Webm)
        } else {
            None
        }
    }
}

/// The output style of the formatter.
#[derive(Debug, Clone, Copy, PartialEq, Eq, Hash)]
pub enum FormattedOutputStyle {
    Obsidian,
    Logseq,
    Plain,
}

/// The name of a style.
pub open spec fn style_name(s: FormattedOutputStyle) -> Seq<char> {
    match s {
        FormattedOutputStyle::Obsidian => "obsidian"@,
        FormattedOutputStyle::Logseq => "logseq"@,
        FormattedOutputStyle::Plain => "plain"@,
    }
}

/// The style that the text `s` names, read trimmed and in any ASCII case.
pub open spec fn style_of_name(s: Seq<char>) -> Option<FormattedOutputStyle> {
    let n = lower_ascii_seq(trim(s));
    if n == "obsidian"@ {
        Some(FormattedOutputStyle::Obsidian)
    } else if n == "logseq"@ {
        Some(FormattedOutputStyle::Logseq)
    } else if n == "plain"@ {
        Some(FormattedOutputStyle::Plain)
    } else {
        None
    }
}

impl Default for FormattedOutputStyle {
    fn default() -> (r: Self)
        ensures
            r == FormattedOutputStyle::Obsidian,
    {
        FormattedOutputStyle::Obsidian
    }
}

impl FormattedOutputStyle {
    /// Reads a style name, trimmed and in any ASCII case.
    pub fn parse(s: &str) -> (r: Result<Self, DomainError>)
        ensures
            match style_of_name(s@) {
                Some(st) => r == Ok::<Self, DomainError>(st),
                None => r matches Err(DomainError::InvalidStyle(m)) && m@ == lower_ascii_seq(
                    trim(s@),
                ),
            },
    {
        let v = chars_of(s);
        let t = strip_vec(&v, Strip::Whitespace);
        let n = lower_ascii_vec(&t);
        if chars_eq_str(&n, "obsidian") {
            Ok(FormattedOutputStyle::Obsidian)
        } else if chars_eq_str(&n, "logseq") {
            Ok(FormattedOutputStyle::Logseq)
        } else if chars_eq_str(&n, "plain") {
            Ok(FormattedOutputStyle::Plain)
        } else {
            Err(DomainError::InvalidStyle(string_of(&n)))
        }
    }

    /// The name of the style.
    pub fn name(&self) -> (r: &'static str)
        ensures
            r@ == style_name(*self),
    {
        match self {
            FormattedOutputStyle::Obsidian => "obsidian",
            FormattedOutputStyle::Logseq => "logseq",
            FormattedOutputStyle::Plain => "plain",
        }
    }

    /// The name of the style, as an owned string.
    pub fn to_string(&self) -> (r: String)
        ensures
            r@ == style_name(*self),
    {
        self.name().to_owned()
    }
}

impl core::str::FromStr for FormattedOutputStyle {
    type Err = DomainError;

    fn from_str(s: &str) -> (r: Result<Self, DomainError>)
        ensures
            match style_of_name(s@) {
                Some(st) => r == Ok::<Self, DomainError>(st),
                None => r matches Err(DomainError::InvalidStyle(m)) && m@ == lower_ascii_seq(
                    trim(s@),
                ),
            },
    {
        Self::parse(s)
    }
}

/// Law: reading the name of a style gives the style back (what
/// `to_string` writes, `parse` reads).
pub proof fn law_style_roundtrip(st: FormattedOutputStyle)
    ensures
        style_of_name(style_name(st)) == Some(st),
{
    reveal_strlit("obsidian");
    reveal_strlit("logseq");
    reveal_strlit("plain");
    let n = style_name(st);
    assert(n.len() > 0 && !is_ws(n[0]) && !is_ws(n.last()));
    lemma_strip_start_at(n, Strip::Whitespace, 0);
    assert(n.subrange(0, n.len() as int) == n);
    lemma_strip_end_at(n, Strip::Whitespace, n.len() as int);
    assert(trim(n) == n);
    assert(lower_ascii_seq(n) =~= n);
}


// ---------------------------------------------------------------------------
// Laws
// ---------------------------------------------------------------------------

/// Characters that a title never holds: those that file names cannot hold.
pub open spec fn forbidden_in_title(c: char) -> bool {
    c == '/' || c == '\\' || c == ':' || c == '*' || c == '?' || c == '"' || c == '<' || c == '>'
        || c == '|'
}

proof fn lemma_strip_end_prefix(s: Seq<char>, k: Strip)
    ensures
        strip_end(s, k).len() <= s.len(),
        strip_end(s, k) == s.subrange(0, strip_end(s, k).len() as int),
    decreases s.len(),
{
    if s.len() > 0 && strip_pred(k, s.last()) {
        lemma_strip_end_prefix(s.drop_last(), k);
        assert(s.drop_last().subrange(0, strip_end(s, k).len() as int) == s.subrange(
            0,
            strip_end(s, k).len() as int,
        ));
    } else {
        assert(s.subrange(0, s.len() as int) == s);
    }
}

/// Every character of `strip(s, k)` is a character of `s`.
proof fn lemma_strip_from(s: Seq<char>, k: Strip, p: spec_fn(char) -> bool)
    requires
        forall|i: int| 0 <= i < s.len() ==> p(#[trigger] s[i]),
    ensures
        forall|i: int| 0 <= i < strip(s, k).len() ==> p(#[trigger] strip(s, k)[i]),
{
    lemma_strip_nonempty(s, k);
    assert forall|i: int| 0 <= i < strip(s, k).len() implies p(#[trigger] strip(s, k)[i]) by {
        let j = choose|j: int| 0 <= j < s.len() && strip(s, k)[i] == s[j];
        assert(p(s[j]));
    }
}

/// Law: a title never holds a character that a file name cannot hold
/// (`/ \ : * ? " < > |`), nor a control character.
pub proof fn law_title_chars(raw: Seq<char>)
    ensures
        normalize_title(raw) matches Some(t) ==> forall|i: int|
            0 <= i < t.len() ==> !forbidden_in_title(#[trigger] t[i]) && !is_control(t[i]),
{
    let ok = |c: char| !forbidden_in_title(c) && !is_control(c);
    let cleaned = raw.map_values(|c: char| clean_title_char(c));
    assert forall|i: int| 0 <= i < cleaned.len() implies ok(#[trigger] cleaned[i]) by {
        assert(cleaned[i] == clean_title_char(raw[i]));
    }
    lemma_strip_from(cleaned, Strip::Whitespace, ok);
    let a = strip(cleaned, Strip::Whitespace);
    lemma_strip_from(a, Strip::Dash, ok);
    let b = strip(a, Strip::Dash);
    lemma_strip_from(b, Strip::Whitespace, ok);
    let core = strip(b, Strip::Whitespace);
    if core.len() > 0 {
        let n = if core.len() <= title_max_len() {
            core.len() as int
        } else {
            title_max_len() as int
        };
        let head = core.take(n);
        lemma_strip_end_prefix(head, Strip::Whitespace);
        let t = trim_end(head);
        assert forall|i: int| 0 <= i < t.len() implies ok(#[trigger] t[i]) by {
            assert(t[i] == head[i]);
            assert(head[i] == core[i]);
        }
    }
}

/// Law: a language code is already normal: normalizing it again changes
/// nothing.
pub proof fn law_language_idempotent(s: Seq<char>)
    ensures
        normalize_language(normalize_language(s)) == normalize_language(s),
{
    let t = trim(s);
    let l = lower_ascii_seq(t);
    lemma_strip_nonempty(s, Strip::Whitespace);
    if t.len() > 0 {
        assert(l[0] == lower_ascii(t[0]));
        assert(l.last() == lower_ascii(t.last()));
        lemma_strip_start_at(l, Strip::Whitespace, 0);
        assert(l.subrange(0, l.len() as int) == l);
        lemma_strip_end_at(l, Strip::Whitespace, l.len() as int);
        assert(trim(l) == l);
    } else {
        assert(l.len() == 0);
        assert(strip_start(l, Strip::Whitespace) == l);
        assert(strip_end(l, Strip::Whitespace) == l);
    }
    assert(lower_ascii_seq(l) =~= l);
}

/// Law: a transcript is its own trim, so reading it again as a transcript
/// gives it back.
pub proof fn law_transcript_idempotent(s: Seq<char>)
    ensures
        trim(trim(s)) == trim(s),
{
    lemma_trim_idempotent(s);
}

} // verus!
