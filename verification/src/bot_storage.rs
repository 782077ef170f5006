//! Where the bot stores each note on disk:
//! `<out_dir>/<user folder>/<title in snake_case>_<UTC timestamp>.md`.
use vstd::prelude::*;

use crate::note::{Note, NoteSource};
use crate::text::{
    chars_of, decimal, has_other, lemma_strip_bounds, lemma_strip_end_at, lemma_strip_nonempty,
    lemma_strip_start_at, push_i64, push_str, string_of, strip, strip_bounds_spec, strip_pred,
    strip_vec, Strip,
};
use crate::time::{spec_strftime, strftime};
use crate::typestate::Formatted;

verus! {

/// What `char::to_lowercase` yields for `c`.
pub uninterp spec fn spec_char_lowercase(c: char) -> Seq<char>;

/// What `char::is_alphanumeric` says of `c`.
pub uninterp spec fn spec_is_alphanumeric(c: char) -> bool;

/// Calls `char::to_lowercase` and collects what it yields (one to three
/// characters, by Unicode's lower-case mapping). A function of `c` alone.
#[verifier::external_body]
fn char_lowercase(c: char) -> (r: Vec<char>)
    ensures
        r@ == spec_char_lowercase(c),
{
    c.to_lowercase().collect()
}

/// Calls `char::is_alphanumeric` (Unicode `Alphabetic` or `Numeric`). A
/// function of `c` alone.
#[verifier::external_body]
fn is_alphanumeric(c: char) -> (r: bool)
    ensures
        r == spec_is_alphanumeric(c),
{
    c.is_alphanumeric()
}

/// `s` in lower case, character by character (`chars().flat_map(char::to_lowercase)`).
pub open spec fn lowercase_all(s: Seq<char>) -> Seq<char>
    decreases s.len(),
{
    if s.len() == 0 {
        seq![]
    } else {
        lowercase_all(s.drop_last()) + spec_char_lowercase(s.last())
    }
}

/// Keeps the characters flagged in `a` (the alphanumeric ones) and turns
/// each run of unflagged characters into one `_` (none at the start); the
/// flag tells whether the last thing kept was a separator (or nothing was
/// kept). `a` flags the characters of `s` one by one.
pub open spec fn collapse_flagged(s: Seq<char>, a: Seq<bool>) -> (Seq<char>, bool)
    decreases s.len(),
{
    if s.len() == 0 {
        (seq![], true)
    } else {
        let (r, sep) = collapse_flagged(s.drop_last(), a.drop_last());
        if a.last() {
            (r.push(s.last()), false)
        } else if !sep {
            (r.push('_'), true)
        } else {
            (r, sep)
        }
    }
}

/// The snake_case form of lower-cased text whose alphanumeric characters
/// are flagged in `a`, when anything is left of it.
pub open spec fn snake_lowered_spec(s: Seq<char>, a: Seq<bool>) -> Option<Seq<char>> {
    let t = strip(collapse_flagged(s, a).0, Strip::Underscore);
    if t.len() == 0 {
        None
    } else {
        Some(t)
    }
}

/// Whether each character of `s` is alphanumeric, one by one.
pub open spec fn alnum_flags(s: Seq<char>) -> Seq<bool> {
    Seq::new(s.len(), |i: int| spec_is_alphanumeric(s[i]))
}

/// The snake_case form of a title, when anything is left of it.
pub open spec fn snake_case_spec(title: Seq<char>) -> Option<Seq<char>> {
    snake_lowered_spec(lowercase_all(title), alnum_flags(lowercase_all(title)))
}

/// The snake_case form of lower-cased text: the characters flagged in
/// `alnum` are kept, each run of other characters becomes one `_`, and no
/// `_` is left at either end. `None` when nothing is left.
pub fn snake_from_lowered(lowered: &Vec<char>, alnum: &Vec<bool>) -> (r: Option<String>)
    requires
        alnum@.len() == lowered@.len(),
    ensures
        match snake_lowered_spec(lowered@, alnum@) {
            Some(t) => r matches Some(s) && s@ == t,
            None => r is None,
        },
{
    let mut out: Vec<char> = Vec::new();
    let mut prev_sep = true;
    let mut i: usize = 0;
    assert(lowered@.take(0) == Seq::<char>::empty());
    while i < lowered.len()
        invariant
            i <= lowered.len() == alnum.len(),
            (out@, prev_sep) == collapse_flagged(lowered@.take(i as int), alnum@.take(i as int)),
        decreases lowered.len() - i,
    {
        let c = lowered[i];
        proof {
            let t = lowered@.take(i + 1);
            let f = alnum@.take(i + 1);
            assert(t.drop_last() == lowered@.take(i as int));
            assert(f.drop_last() == alnum@.take(i as int));
            assert(t.last() == c);
            assert(f.last() == alnum@[i as int]);
        }
        if alnum[i] {
            out.push(c);
            prev_sep = false;
        } else if !prev_sep {
            out.push('_');
            prev_sep = true;
        }
        i = i + 1;
    }
    assert(lowered@.take(lowered.len() as int) == lowered@);
    assert(alnum@.take(alnum.len() as int) == alnum@);
    let t = strip_vec(&out, Strip::Underscore);
    if t.len() == 0 {
        None
    } else {
        Some(string_of(&t))
    }
}

/// Converts a title to snake_case: lower case, runs of characters that
/// are not alphanumeric become one `_`, no `_` at either end. `None` when
/// nothing is left.
pub fn snake_case(title: &str) -> (r: Option<String>)
    ensures
        match snake_case_spec(title@) {
            Some(t) => r matches Some(s) && s@ == t,
            None => r is None,
        },
{
    let v = chars_of(title);
    let mut lowered: Vec<char> = Vec::new();
    let mut i: usize = 0;
    assert(v@.take(0) == Seq::<char>::empty());
    while i < v.len()
        invariant
            i <= v.len(),
            lowered@ == lowercase_all(v@.take(i as int)),
        decreases v.len() - i,
    {
        let lc = char_lowercase(v[i]);
        let mut j: usize = 0;
        let ghost base = lowered@;
        while j < lc.len()
            invariant
                j <= lc.len(),
                lowered@ == base + lc@.take(j as int),
            decreases lc.len() - j,
        {
            lowered.push(lc[j]);
            j = j + 1;
            assert(lowered@ =~= base + lc@.take(j as int));
        }
        proof {
            assert(lc@.take(lc.len() as int) == lc@);
            let t = v@.take(i + 1);
            assert(t.drop_last() == v@.take(i as int));
            assert(t.last() == v@[i as int]);
        }
        i = i + 1;
    }
    assert(v@.take(v.len() as int) == v@);
    let mut flags: Vec<bool> = Vec::new();
    let mut k: usize = 0;
    while k < lowered.len()
        invariant
            k <= lowered.len(),
            flags@ == alnum_flags(lowered@).take(k as int),
        decreases lowered.len() - k,
    {
        let f = is_alphanumeric(lowered[k]);
        flags.push(f);
        k = k + 1;
        assert(flags@ =~= alnum_flags(lowered@).take(k as int));
    }
    assert(flags@ =~= alnum_flags(lowered@));
    snake_from_lowered(&lowered, &flags)
}

/// The user folder of a note: `user_<id>` for Telegram, `local` for
/// files.
pub open spec fn user_dir_spec(source: NoteSource) -> Seq<char> {
    match source {
        NoteSource::Telegram { user_id, .. } => "user_"@ + decimal(user_id as int),
        _ => "local"@,
    }
}

pub fn user_dir_of(source: &NoteSource) -> (r: String)
    ensures
        r@ == user_dir_spec(*source),
{
    let mut out: Vec<char> = Vec::new();
    match source {
        NoteSource::Telegram { user_id, .. } => {
            push_str(&mut out, "user_");
            push_i64(&mut out, *user_id);
        },
        _ => push_str(&mut out, "local"),
    }
    assert(out@ =~= user_dir_spec(*source));
    string_of(&out)
}

/// Where a note goes below the output folder: its user folder and its
/// file name.
#[derive(Debug)]
pub struct NoteLocation {
    pub dir: String,
    pub file_name: String,
}

/// Writes each note under `<out_dir>/<user folder>/`.
#[derive(Debug, Clone)]
pub struct FileStorage {
    pub out_dir: String,
}

impl FileStorage {
    pub fn new(out_dir: String) -> (r: Self)
        ensures
            r.out_dir == out_dir,
    {
        FileStorage { out_dir }
    }

    /// Where `note` is written: `None` when its title has no snake_case
    /// form (the note is then delivered without a file), otherwise its user
    /// folder and the name `<snake_case title>_<%Y%m%dT%H%M%SZ>.md`.
    pub fn location(&self, note: &Note<Formatted>) -> (r: Option<NoteLocation>)
        ensures
            match snake_case_spec(note.title@) {
                None => r is None,
                Some(slug) => r matches Some(loc) && loc.dir@ == user_dir_spec(note.source)
                    && loc.file_name@ == slug + "_"@ + spec_strftime(
                    note.created_at@.0,
                    note.created_at@.1,
                    "%Y%m%dT%H%M%SZ"@,
                ) + ".md"@,
            },
    {
        let slug = match snake_case(note.title().as_str()) {
            Some(s) => s,
            None => {
                return None;
            },
        };
        let dir = user_dir_of(note.source());
        let created = note.created_at();
        let stamp = strftime(&created, "%Y%m%dT%H%M%SZ");
        let mut name: Vec<char> = Vec::new();
        push_str(&mut name, slug.as_str());
        push_str(&mut name, "_");
        push_str(&mut name, stamp.as_str());
        push_str(&mut name, ".md");
        Some(NoteLocation { dir, file_name: string_of(&name) })
    }
}

} // verus!

verus! {

// ---------------------------------------------------------------------------
// The shape of a snake_case name
// ---------------------------------------------------------------------------

/// Whether some character is flagged.
pub open spec fn any_flagged(a: Seq<bool>) -> bool {
    exists|i: int| 0 <= i < a.len() && #[trigger] a[i]
}

/// Whether `c` is a character of `s` that `a` flags.
pub open spec fn flagged_char(s: Seq<char>, a: Seq<bool>, c: char) -> bool {
    exists|j: int| 0 <= j < s.len() && a[j] && #[trigger] s[j] == c
}

/// The first character is not `_` and no two `_` are adjacent.
pub open spec fn no_loose_underscore(s: Seq<char>) -> bool {
    &&& s.len() > 0 ==> s[0] != '_'
    &&& forall|i: int| 0 <= i < s.len() - 1 ==> !(#[trigger] s[i] == '_' && s[i + 1] == '_')
}

/// The flags of a snake_case name read back as lower-cased text: every
/// character but `_` is flagged.
pub open spec fn underscore_flags(s: Seq<char>) -> Seq<bool> {
    Seq::new(s.len(), |i: int| s[i] != '_')
}

/// Whether `s` holds an alphanumeric character.
pub open spec fn has_alnum(s: Seq<char>) -> bool {
    exists|i: int| 0 <= i < s.len() && spec_is_alphanumeric(#[trigger] s[i])
}

/// A snake_case name: not empty, alphanumeric characters and single `_`
/// between them, with no `_` at either end.
pub open spec fn snake_shaped(s: Seq<char>) -> bool {
    &&& s.len() > 0
    &&& forall|i: int| 0 <= i < s.len() ==> #[trigger] s[i] == '_' || spec_is_alphanumeric(s[i])
    &&& no_loose_underscore(s)
    &&& s.last() != '_'
}

/// What collapsing gives: flagged characters of the input and single `_`
/// between them, the flag telling whether it is empty or ends in `_`, and
/// a character other than `_` exactly when the input has a flagged one.
proof fn lemma_collapse_shape(s: Seq<char>, a: Seq<bool>)
    requires
        a.len() == s.len(),
        forall|i: int| 0 <= i < s.len() && #[trigger] a[i] ==> s[i] != '_',
    ensures
        forall|i: int|
            0 <= i < collapse_flagged(s, a).0.len() ==> #[trigger] collapse_flagged(s, a).0[i]
                == '_' || flagged_char(s, a, collapse_flagged(s, a).0[i]),
        no_loose_underscore(collapse_flagged(s, a).0),
        collapse_flagged(s, a).1 <==> (collapse_flagged(s, a).0.len() == 0 || collapse_flagged(
            s,
            a,
        ).0.last() == '_'),
        has_other(collapse_flagged(s, a).0, Strip::Underscore) <==> any_flagged(a),
    decreases s.len(),
{
    if s.len() > 0 {
        let ds = s.drop_last();
        let da = a.drop_last();
        assert forall|i: int| 0 <= i < ds.len() && #[trigger] da[i] implies ds[i] != '_' by {
            assert(da[i] == a[i] && ds[i] == s[i]);
        }
        lemma_collapse_shape(ds, da);
        let (r0, sep0) = collapse_flagged(ds, da);
        let (r, sep) = collapse_flagged(s, a);
        let n = s.len() - 1;
        assert(a.last() == a[n] && s.last() == s[n]);
        // Flagged characters of the prefix are flagged characters of `s`.
        assert forall|c: char| flagged_char(ds, da, c) implies flagged_char(s, a, c) by {
            let j = choose|j: int| 0 <= j < ds.len() && da[j] && #[trigger] ds[j] == c;
            assert(s[j] == ds[j] && a[j] == da[j]);
        }
        assert forall|i: int| 0 <= i < r.len() implies #[trigger] r[i] == '_' || flagged_char(
            s,
            a,
            r[i],
        ) by {
            if i < r0.len() {
                assert(r[i] == r0[i]);
            } else if a[n] {
                assert(r[i] == s[n]);
            }
        }
        if any_flagged(da) {
            let j = choose|j: int| 0 <= j < da.len() && #[trigger] da[j];
            assert(a[j] == da[j]);
        }
        if any_flagged(a) && !a[n] {
            let j = choose|j: int| 0 <= j < a.len() && #[trigger] a[j];
            assert(j < n);
            assert(da[j] == a[j]);
        }
        if has_other(r0, Strip::Underscore) {
            let i = choose|i: int| 0 <= i < r0.len() && !strip_pred(Strip::Underscore, #[trigger] r0[i]);
            assert(r[i] == r0[i]);
        }
        if a[n] {
            assert(r == r0.push(s[n]));
            assert(r[r.len() - 1] == s[n]);
            assert(!strip_pred(Strip::Underscore, r[r.len() - 1]));
        } else if !sep0 {
            assert(r == r0.push('_'));
            if has_other(r, Strip::Underscore) {
                let i = choose|i: int| 0 <= i < r.len() && !strip_pred(Strip::Underscore, #[trigger] r[i]);
                assert(i < r0.len());
                assert(r0[i] == r[i]);
            }
        }
    }
}

/// Text without a loose `_`, read with its underscore flags, collapses to
/// itself.
proof fn lemma_collapse_fixed(p: Seq<char>)
    requires
        no_loose_underscore(p),
    ensures
        collapse_flagged(p, underscore_flags(p)) == (p, p.len() == 0 || p.last() == '_'),
    decreases p.len(),
{
    if p.len() > 0 {
        let d = p.drop_last();
        assert(no_loose_underscore(d)) by {
            assert forall|i: int| 0 <= i < d.len() - 1 implies !(#[trigger] d[i] == '_' && d[i
                + 1] == '_') by {
                assert(d[i] == p[i] && d[i + 1] == p[i + 1]);
            }
            if d.len() > 0 {
                assert(d[0] == p[0]);
            }
        }
        lemma_collapse_fixed(d);
        assert(underscore_flags(p).drop_last() =~= underscore_flags(d));
        let c = p.last();
        assert(c == p[p.len() - 1]);
        if c == '_' {
            if d.len() > 0 {
                assert(d.last() == p[p.len() - 2]);
                assert(!(p[p.len() - 2] == '_' && p[p.len() - 1] == '_'));
            }
        }
        assert(d.push(c) == p);
    }
}

/// Each character of `s` is its own lower case: lower-casing `s` keeps it.
proof fn lemma_lowercase_fixed(s: Seq<char>)
    requires
        forall|i: int| 0 <= i < s.len() ==> spec_char_lowercase(#[trigger] s[i]) == seq![s[i]],
    ensures
        lowercase_all(s) == s,
    decreases s.len(),
{
    if s.len() > 0 {
        let d = s.drop_last();
        assert forall|i: int| 0 <= i < d.len() implies spec_char_lowercase(#[trigger] d[i])
            == seq![d[i]] by {
            assert(d[i] == s[i]);
        }
        lemma_lowercase_fixed(d);
        assert(spec_char_lowercase(s[s.len() - 1]) == seq![s[s.len() - 1]]);
        assert(d + seq![s.last()] == s);
    }
}

/// Law: what `snake_from_lowered` gives, for flags that never mark `_`.
/// It gives nothing exactly when no character is flagged; otherwise a
/// name made of flagged characters of the text and single `_` between
/// them, with no `_` at either end; and that name, read back with its
/// underscore flags, is its own snake_case form.
pub proof fn law_snake_lowered(s: Seq<char>, a: Seq<bool>)
    requires
        a.len() == s.len(),
        forall|i: int| 0 <= i < s.len() && #[trigger] a[i] ==> s[i] != '_',
    ensures
        snake_lowered_spec(s, a) is None <==> !any_flagged(a),
        snake_lowered_spec(s, a) matches Some(t) ==> {
            &&& t.len() > 0
            &&& t.last() != '_'
            &&& no_loose_underscore(t)
            &&& forall|i: int|
                0 <= i < t.len() ==> #[trigger] t[i] == '_' || flagged_char(s, a, t[i])
        },
        snake_lowered_spec(s, a) matches Some(t) ==> snake_lowered_spec(t, underscore_flags(t))
            == Some(t),
{
    let r = collapse_flagged(s, a).0;
    lemma_collapse_shape(s, a);
    lemma_strip_nonempty(r, Strip::Underscore);
    let t = strip(r, Strip::Underscore);
    if t.len() > 0 {
        lemma_strip_bounds(r, Strip::Underscore);
        let (b, e) = strip_bounds_spec(r, Strip::Underscore);
        assert(t == r.subrange(b, e));
        assert forall|i: int| 0 <= i < t.len() implies #[trigger] t[i] == '_' || flagged_char(
            s,
            a,
            t[i],
        ) by {
            assert(t[i] == r[b + i]);
        }
        assert forall|i: int| 0 <= i < t.len() - 1 implies !(#[trigger] t[i] == '_' && t[i + 1]
            == '_') by {
            assert(t[i] == r[b + i] && t[i + 1] == r[b + i + 1]);
        }
        lemma_collapse_fixed(t);
        lemma_strip_start_at(t, Strip::Underscore, 0);
        assert(t.subrange(0, t.len() as int) == t);
        lemma_strip_end_at(t, Strip::Underscore, t.len() as int);
    }
}

/// Law: what `snake_case` gives. It gives nothing exactly when the
/// lower-cased title holds no alphanumeric character; otherwise a
/// snake_case name (alphanumeric characters with single `_` between them
/// and none at either end); and a name whose characters are their own
/// lower case is its own snake_case. Stated for `char::is_alphanumeric`
/// not counting `_`, as Unicode defines it.
pub proof fn law_snake_case(title: Seq<char>)
    requires
        !spec_is_alphanumeric('_'),
    ensures
        snake_case_spec(title) is None <==> !has_alnum(lowercase_all(title)),
        snake_case_spec(title) matches Some(s) ==> snake_shaped(s),
        snake_case_spec(title) matches Some(s) ==> ((forall|i: int|
            0 <= i < s.len() ==> spec_char_lowercase(#[trigger] s[i]) == seq![s[i]])
            ==> snake_case_spec(s) == Some(s)),
{
    let x = lowercase_all(title);
    let a = alnum_flags(x);
    assert forall|i: int| 0 <= i < x.len() && #[trigger] a[i] implies x[i] != '_' by {}
    law_snake_lowered(x, a);
    if has_alnum(x) {
        let i = choose|i: int| 0 <= i < x.len() && spec_is_alphanumeric(#[trigger] x[i]);
        assert(a[i]);
    }
    if any_flagged(a) {
        let i = choose|i: int| 0 <= i < a.len() && #[trigger] a[i];
        assert(spec_is_alphanumeric(x[i]));
    }
    if let Some(t) = snake_lowered_spec(x, a) {
        assert forall|i: int| 0 <= i < t.len() implies #[trigger] t[i] == '_'
            || spec_is_alphanumeric(t[i]) by {
            if t[i] != '_' {
                assert(flagged_char(x, a, t[i]));
                let j = choose|j: int| 0 <= j < x.len() && a[j] && #[trigger] x[j] == t[i];
            }
        }
        if forall|i: int| 0 <= i < t.len() ==> spec_char_lowercase(#[trigger] t[i]) == seq![t[i]] {
            lemma_lowercase_fixed(t);
            assert(alnum_flags(t) =~= underscore_flags(t)) by {
                assert forall|i: int| 0 <= i < t.len() implies alnum_flags(t)[i]
                    == underscore_flags(t)[i] by {
                    assert(t[i] == '_' || spec_is_alphanumeric(t[i]));
                }
            }
        }
    }
}

} // verus!
