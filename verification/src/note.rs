//! The root entity `Note`, with its stage marker, and the derivation of a
//! title from a transcript.
use vstd::prelude::*;

use crate::errors::DomainError;
use crate::formatter::{Formatter, NoteMeta};
use crate::text::{
    chars_of, is_whitespace_char, is_ws, lemma_strip_end_len, lemma_strip_start_at, push_str, string_of, strip,
    strip_end, strip_start, trim, Strip,
};
use crate::time::{known_pattern, spec_strftime, strftime, UtcTimestamp};
use crate::typestate::{Formatted, New, Transcribed};
use crate::value::{
    clean_title_char, normalize_title, AudioFilePath, FormattedOutputStyle, LanguageIso,
    MarkdownContent, NoteTitle, RawTranscript,
};

verus! {

// ---------------------------------------------------------------------------
// Identity and provenance
// ---------------------------------------------------------------------------

#[verifier::external_type_specification]
#[verifier::external_body]
pub struct ExUuid(uuid::Uuid);

/// Whether the 128-bit value `v` of a UUID is that of a version 4 UUID of
/// the RFC 4122 variant: its version field (bits 76 to 79) holds 4 and its
/// variant field (bits 62 and 63) holds binary `10`.
pub open spec fn is_v4_value(v: u128) -> bool {
    (v >> 76u128) & 0xfu128 == 4u128 && (v >> 62u128) & 3u128 == 2u128
}

/// Calls `uuid::Uuid::new_v4` and keeps, beside the UUID, its 128-bit value
/// (`Uuid::as_u128`). Which UUID comes back is random; `new_v4` masks the
/// random bits so that the version field holds 4 and the variant field is
/// RFC 4122's, and that is what is stated. `new_v4` panics when the
/// operating system gives no random bytes.
#[verifier::external_body]
fn new_v4_uuid() -> (r: (uuid::Uuid, u128))
    ensures
        is_v4_value(r.1),
{
    let u = uuid::Uuid::new_v4();
    (u, u.as_u128())
}

/// Calls `uuid::Uuid::as_u128`: the UUID's 128-bit (big-endian) value.
/// The UUID is opaque here, so nothing is stated of the value.
#[verifier::external_body]
fn uuid_value(u: &uuid::Uuid) -> (r: u128) {
    u.as_u128()
}

/// Unique identifier of a note (a version 4 UUID), with the UUID's 128-bit
/// value kept beside it.
#[derive(Debug, Clone, Copy, PartialEq, Eq, Hash)]
pub struct NoteId {
    uuid: uuid::Uuid,
    value: u128,
}

impl View for NoteId {
    type V = (uuid::Uuid, u128);

    /// The UUID and its 128-bit value.
    closed spec fn view(&self) -> (uuid::Uuid, u128) {
        (self.uuid, self.value)
    }
}

impl NoteId {
    /// A fresh random identifier: a version 4 UUID of the RFC 4122
    /// variant, hence never the nil UUID.
    pub fn new() -> (r: Self)
        ensures
            is_v4_value(r@.1),
            r@.1 != 0,
    {
        let (uuid, value) = new_v4_uuid();
        assert(is_v4_value(value) ==> value != 0) by (bit_vector);
        NoteId { uuid, value }
    }

    pub fn from_uuid(uuid: uuid::Uuid) -> (r: Self)
        ensures
            r@.0 == uuid,
    {
        let value = uuid_value(&uuid);
        NoteId { uuid, value }
    }

    pub fn as_uuid(self) -> (r: uuid::Uuid)
        ensures
            r == self@.0,
    {
        self.uuid
    }
}

impl Default for NoteId {
    /// A fresh random identifier, as `new`.
    fn default() -> (r: Self)
        ensures
            is_v4_value(r@.1),
            r@.1 != 0,
    {
        NoteId::new()
    }
}

/// Where a note came from.
#[derive(Debug)]
pub enum NoteSource {
    Telegram { chat_id: i64, user_id: i64 },
    Cli { origin_path: AudioFilePath },
    File { origin_path: AudioFilePath },
}

impl Clone for NoteSource {
    fn clone(&self) -> (r: Self)
        ensures
            r == *self,
    {
        match self {
            NoteSource::Telegram { chat_id, user_id } => NoteSource::Telegram {
                chat_id: *chat_id,
                user_id: *user_id,
            },
            NoteSource::Cli { origin_path } => NoteSource::Cli { origin_path: origin_path.clone() },
            NoteSource::File { origin_path } => NoteSource::File {
                origin_path: origin_path.clone(),
            },
        }
    }
}

/// The label of a source: `telegram`, or `file` for local files.
pub open spec fn source_label(s: NoteSource) -> Seq<char> {
    match s {
        NoteSource::Telegram { .. } => "telegram"@,
        _ => "file"@,
    }
}

impl NoteSource {
    pub fn label(&self) -> (r: &'static str)
        ensures
            r@ == source_label(*self),
    {
        match self {
            NoteSource::Telegram { .. } => "telegram",
            _ => "file",
        }
    }
}

// ---------------------------------------------------------------------------
// The note
// ---------------------------------------------------------------------------

/// The root entity; `State` is its stage in the pipeline.
#[derive(Debug)]
pub struct Note<State> {
    pub id: NoteId,
    pub title: NoteTitle,
    pub language: LanguageIso,
    pub created_at: UtcTimestamp,
    pub source: NoteSource,
    /// The payload of the current stage.
    pub state: State,
}

impl<State> Note<State> {
    pub fn id(&self) -> (r: NoteId)
        ensures
            r == self.id,
    {
        self.id
    }

    pub fn title(&self) -> (r: &NoteTitle)
        ensures
            *r == self.title,
    {
        &self.title
    }

    pub fn language(&self) -> (r: &LanguageIso)
        ensures
            *r == self.language,
    {
        &self.language
    }

    pub fn created_at(&self) -> (r: UtcTimestamp)
        ensures
            r == self.created_at,
    {
        self.created_at
    }

    pub fn source(&self) -> (r: &NoteSource)
        ensures
            *r == self.source,
    {
        &self.source
    }

    /// The note's identity, title, language, creation time and source,
    /// without its stage payload.
    pub open spec fn header(&self) -> (NoteId, NoteTitle, LanguageIso, UtcTimestamp, NoteSource) {
        (self.id, self.title, self.language, self.created_at, self.source)
    }
}

impl Note<New> {
    /// A new note with a fresh identifier, created now: its creation
    /// instant is the clock's reading taken during the call.
    pub fn new(title: NoteTitle, language: LanguageIso, source: NoteSource) -> (r: Self)
        ensures
            r.title == title,
            r.language == language,
            r.source == source,
            r.created_at.is_clock_reading(),
    {
        Note {
            id: NoteId::new(),
            title,
            language,
            created_at: UtcTimestamp::now(),
            source,
            state: New,
        }
    }

    /// Takes the transcript and moves to `Transcribed`.
    pub fn transcribe(self, transcript: RawTranscript) -> (r: Note<Transcribed>)
        ensures
            r.header() == self.header(),
            r.spec_transcript() == transcript,
    {
        Note {
            id: self.id,
            title: self.title,
            language: self.language,
            created_at: self.created_at,
            source: self.source,
            state: Transcribed { transcript },
        }
    }
}

impl Note<Transcribed> {
    pub closed spec fn spec_transcript(&self) -> RawTranscript {
        self.state.transcript
    }

    pub fn transcript(&self) -> (r: &RawTranscript)
        ensures
            *r == self.spec_transcript(),
    {
        &self.state.transcript
    }

    /// Takes the Markdown and moves to `Formatted`.
    pub fn into_formatted(self, markdown: MarkdownContent) -> (r: Note<Formatted>)
        ensures
            r.header() == self.header(),
            r.spec_markdown() == markdown,
    {
        Note {
            id: self.id,
            title: self.title,
            language: self.language,
            created_at: self.created_at,
            source: self.source,
            state: Formatted { markdown },
        }
    }

    /// Applies the formatter and moves to `Formatted`.
    pub fn format<F: Formatter>(self, formatter: &F, style: FormattedOutputStyle, meta: NoteMeta) -> (r:
        Result<Note<Formatted>, DomainError>)
        ensures
            match formatter.spec_format(self.spec_transcript(), self.title, style, meta) {
                Ok(md) => r matches Ok(n) && n.header() == self.header() && n.spec_markdown()@
                    == md,
                Err(e) => r == Err::<Note<Formatted>, DomainError>(e),
            },
    {
        let title = self.title.clone();
        match formatter.format(&self.state.transcript, title, style, meta) {
            Ok(markdown) => Ok(self.into_formatted(markdown)),
            Err(e) => Err(e),
        }
    }
}

impl Note<Formatted> {
    pub closed spec fn spec_markdown(&self) -> MarkdownContent {
        self.state.markdown
    }

    pub fn markdown(&self) -> (r: &MarkdownContent)
        ensures
            *r == self.spec_markdown(),
    {
        &self.state.markdown
    }

    pub fn into_markdown(self) -> (r: MarkdownContent)
        ensures
            r == self.spec_markdown(),
    {
        self.state.markdown
    }
}

impl Clone for Note<Formatted> {
    fn clone(&self) -> (r: Self)
        ensures
            r == *self,
    {
        Note {
            id: self.id,
            title: self.title.clone(),
            language: self.language.clone(),
            created_at: self.created_at,
            source: self.source.clone(),
            state: self.state.clone(),
        }
    }
}

// ---------------------------------------------------------------------------
// Titles from transcripts
// ---------------------------------------------------------------------------

/// The words of `s`: its maximal runs of non-whitespace characters, in
/// order (`str::split_whitespace`).
pub open spec fn words(s: Seq<char>) -> Seq<Seq<char>>
    decreases s.len(),
{
    if s.len() == 0 {
        seq![]
    } else {
        let r = words(s.drop_last());
        let c = s.last();
        if is_ws(c) {
            r
        } else if s.len() >= 2 && !is_ws(s[s.len() - 2]) {
            r.update(r.len() - 1, r.last().push(c))
        } else {
            r.push(seq![c])
        }
    }
}

/// The words joined by single spaces.
pub open spec fn join_words(ws: Seq<Seq<char>>) -> Seq<char>
    decreases ws.len(),
{
    if ws.len() == 0 {
        seq![]
    } else if ws.len() == 1 {
        ws[0]
    } else {
        join_words(ws.drop_last()) + seq![' '] + ws.last()
    }
}

/// At most how many words of the transcript make its title.
pub open spec fn title_word_limit() -> nat {
    7
}

/// The first words of `t`, joined by spaces.
pub open spec fn title_source(t: Seq<char>) -> Seq<char> {
    let w = words(t);
    let n = if w.len() <= title_word_limit() {
        w.len() as int
    } else {
        title_word_limit() as int
    };
    join_words(w.take(n))
}

/// The title derived from the transcript text `t`, when one can be
/// derived.
pub open spec fn derived_title(t: Seq<char>) -> Option<Seq<char>> {
    if words(t).len() == 0 {
        None
    } else {
        normalize_title(title_source(t))
    }
}

/// The fallback title for the instant `now`.
pub open spec fn fallback_title(now: UtcTimestamp) -> Seq<char> {
    normalize_title("nota-"@ + spec_strftime(now@.0, now@.1, "%Y-%m-%dT%H%M%S"@)).unwrap()
}

proof fn lemma_words_step(v: Seq<char>, i: int)
    requires
        0 <= i < v.len(),
    ensures
        words(v.take(i + 1)) == if is_ws(v[i]) {
            words(v.take(i))
        } else if i >= 1 && !is_ws(v[i - 1]) {
            words(v.take(i)).update(
                words(v.take(i)).len() - 1,
                words(v.take(i)).last().push(v[i]),
            )
        } else {
            words(v.take(i)).push(seq![v[i]])
        },
{
    let s = v.take(i + 1);
    assert(s.drop_last() == v.take(i));
    assert(s.last() == v[i]);
    if i >= 1 {
        assert(s[s.len() - 2] == v[i - 1]);
    }
}

proof fn lemma_words_nonempty_after_word_char(v: Seq<char>, i: int)
    requires
        1 <= i <= v.len(),
        !is_ws(v[i - 1]),
    ensures
        words(v.take(i)).len() > 0,
{
    let s = v.take(i);
    assert(s.last() == v[i - 1]);
    lemma_words_last_nonws(s);
}

proof fn lemma_words_last_nonws(s: Seq<char>)
    requires
        s.len() > 0,
        !is_ws(s.last()),
    ensures
        words(s).len() > 0,
    decreases s.len(),
{
    if s.len() >= 2 && !is_ws(s[s.len() - 2]) {
        let t = s.drop_last();
        assert(t.last() == s[s.len() - 2]);
        lemma_words_last_nonws(t);
    }
}

proof fn lemma_join_push(ws: Seq<Seq<char>>, w: Seq<char>)
    ensures
        join_words(ws.push(w)) == if ws.len() == 0 {
            w
        } else {
            join_words(ws) + seq![' '] + w
        },
{
    assert(ws.push(w).drop_last() == ws);
}

/// The words of `t` as vectors.
fn split_words(v: &Vec<char>) -> (r: Vec<Vec<char>>)
    ensures
        r@.len() == words(v@).len(),
        forall|j: int| 0 <= j < r@.len() ==> #[trigger] r@[j]@ == words(v@)[j],
{
    let mut ws: Vec<Vec<char>> = Vec::new();
    let mut i: usize = 0;
    while i < v.len()
        invariant
            i <= v.len(),
            ws@.len() == words(v@.take(i as int)).len(),
            forall|j: int| 0 <= j < ws@.len() ==> #[trigger] ws@[j]@ == words(v@.take(i as int))[j],
        decreases v.len() - i,
    {
        let c = v[i];
        proof {
            lemma_words_step(v@, i as int);
        }
        if is_whitespace_char(c) {
        } else if i >= 1 && !is_whitespace_char(v[i - 1]) {
            proof {
                lemma_words_nonempty_after_word_char(v@, i as int);
            }
            let mut last = ws.pop().unwrap();
            last.push(c);
            ws.push(last);
        } else {
            let mut w: Vec<char> = Vec::new();
            w.push(c);
            ws.push(w);
        }
        i = i + 1;
    }
    assert(v@.take(v.len() as int) == v@);
    ws
}

/// The first `n` words joined by single spaces.
fn join_first(ws: &Vec<Vec<char>>, n: usize, Ghost(spec_ws): Ghost<Seq<Seq<char>>>) -> (r: Vec<
    char,
>)
    requires
        n <= ws@.len() == spec_ws.len(),
        forall|j: int| 0 <= j < ws@.len() ==> #[trigger] ws@[j]@ == spec_ws[j],
    ensures
        r@ == join_words(spec_ws.take(n as int)),
{
    let mut out: Vec<char> = Vec::new();
    let mut i: usize = 0;
    assert(spec_ws.take(0) == Seq::<Seq<char>>::empty());
    while i < n
        invariant
            i <= n <= ws@.len() == spec_ws.len(),
            forall|j: int| 0 <= j < ws@.len() ==> #[trigger] ws@[j]@ == spec_ws[j],
            out@ == join_words(spec_ws.take(i as int)),
        decreases n - i,
    {
        proof {
            lemma_join_push(spec_ws.take(i as int), spec_ws[i as int]);
            assert(spec_ws.take(i + 1) == spec_ws.take(i as int).push(spec_ws[i as int]));
        }
        if i > 0 {
            out.push(' ');
        }
        let w = &ws[i];
        crate::text::push_all(&mut out, w);
        i = i + 1;
    }
    out
}

impl NoteTitle {
    /// The title made of the first seven words of the transcript.
    pub fn derive_from(transcript: &RawTranscript) -> (r: Result<Self, DomainError>)
        ensures
            words(transcript@).len() == 0 ==> r matches Err(DomainError::Untitled),
            words(transcript@).len() > 0 ==> match normalize_title(title_source(transcript@)) {
                Some(x) => r matches Ok(t) && t@ == x,
                None => r matches Err(DomainError::InvalidTitle(m)) && m@ == title_source(
                    transcript@,
                ),
            },
            r is Ok <==> derived_title(transcript@) is Some,
            r matches Ok(t) ==> derived_title(transcript@) == Some(t@),
    {
        let v = chars_of(transcript.as_str());
        let ws = split_words(&v);
        if ws.len() == 0 {
            return Err(DomainError::Untitled);
        }
        let n: usize = if ws.len() <= 7 {
            ws.len()
        } else {
            7
        };
        let joined = join_first(&ws, n, Ghost(words(v@)));
        let s = string_of(&joined);
        NoteTitle::new(s.as_str())
    }

    /// The title `nota-<instant>` used when none can be derived.
    pub fn fallback(now: UtcTimestamp) -> (r: Self)
        ensures
            r@ == fallback_title(now),
    {
        let stamp = strftime(&now, "%Y-%m-%dT%H%M%S");
        let mut v: Vec<char> = Vec::new();
        push_str(&mut v, "nota-");
        push_str(&mut v, stamp.as_str());
        proof {
            reveal_strlit("nota-");
            assert(v@.take(5) =~= "nota-"@);
            lemma_fallback_valid(v@);
        }
        let s = string_of(&v);
        let r = NoteTitle::new(s.as_str());
        r.unwrap()
    }

    /// The title derived from the transcript, or the fallback title for
    /// the current instant when none can be derived.
    pub fn derive_or_fallback(transcript: &RawTranscript) -> (r: Self)
        ensures
            derived_title(transcript@) matches Some(x) ==> r@ == x,
            derived_title(transcript@) is None ==> exists|now: UtcTimestamp|
                now.is_clock_reading() && r@ == fallback_title(now),
    {
        match Self::derive_from(transcript) {
            Ok(t) => t,
            Err(_) => {
                let now = UtcTimestamp::now();
                let t = Self::fallback(now);
                assert(t@ == fallback_title(now));
                t
            },
        }
    }
}

/// A text that starts with `nota-` always normalizes to a title.
proof fn lemma_fallback_valid(s: Seq<char>)
    requires
        s.len() >= 5,
        s.take(5) == "nota-"@,
    ensures
        normalize_title(s) is Some,
{
    reveal_strlit("nota-");
    assert(s[0] == s.take(5)[0]);
    let cleaned = s.map_values(|c: char| clean_title_char(c));
    assert(cleaned[0] == 'n');
    lemma_keeps_first(cleaned, Strip::Whitespace);
    let a = strip(cleaned, Strip::Whitespace);
    lemma_keeps_first(a, Strip::Dash);
    let b = strip(a, Strip::Dash);
    lemma_keeps_first(b, Strip::Whitespace);
}

/// Stripping a text whose first character is outside the class keeps that
/// character first.
proof fn lemma_keeps_first(s: Seq<char>, k: Strip)
    requires
        s.len() > 0,
        s[0] == 'n',
    ensures
        strip(s, k).len() > 0,
        strip(s, k)[0] == 'n',
{
    lemma_strip_start_at(s, k, 0);
    assert(s.subrange(0, s.len() as int) == s);
    assert(strip_start(s, k) == s);
    lemma_strip_end_len(s, k);
}

} // verus!
