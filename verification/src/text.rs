//! Character classes, trimming and small string builders shared by the
//! value objects, the formatter and the bot replies.
//!
//! Text is handled as `Vec<char>` inside the library; the two conversions
//! with `String`/`&str` are the only trusted steps.
use vstd::prelude::*;

verus! {

// ---------------------------------------------------------------------------
// Character classes
// ---------------------------------------------------------------------------

/// Unicode `White_Space` property, which is what `char::is_whitespace`
/// (and therefore `str::trim` / `str::split_whitespace`) tests.
pub open spec fn is_ws(c: char) -> bool {
    let u = c as u32;
    ||| (0x9 <= u && u <= 0xd)
    ||| u == 0x20
    ||| u == 0x85
    ||| u == 0xa0
    ||| u == 0x1680
    ||| (0x2000 <= u && u <= 0x200a)
    ||| u == 0x2028
    ||| u == 0x2029
    ||| u == 0x202f
    ||| u == 0x205f
    ||| u == 0x3000
}

/// General category `Cc`, which is what `char::is_control` tests.
pub open spec fn is_control(c: char) -> bool {
    let u = c as u32;
    u <= 0x1f || (0x7f <= u && u <= 0x9f)
}

/// `char::to_ascii_lowercase`: only `A..=Z` change.
pub open spec fn lower_ascii(c: char) -> char {
    let u = c as u32;
    if 0x41 <= u && u <= 0x5a {
        (u + 32) as char
    } else {
        c
    }
}

/// `str::to_ascii_lowercase`, character by character.
pub open spec fn lower_ascii_seq(s: Seq<char>) -> Seq<char> {
    s.map_values(|c: char| lower_ascii(c))
}

pub fn is_whitespace_char(c: char) -> (r: bool)
    ensures
        r == is_ws(c),
{
    let u = c as u32;
    (0x9 <= u && u <= 0xd) || u == 0x20 || u == 0x85 || u == 0xa0 || u == 0x1680 || (0x2000 <= u
        && u <= 0x200a) || u == 0x2028 || u == 0x2029 || u == 0x202f || u == 0x205f || u == 0x3000
}

pub fn is_control_char(c: char) -> (r: bool)
    ensures
        r == is_control(c),
{
    let u = c as u32;
    u <= 0x1f || (0x7f <= u && u <= 0x9f)
}

pub fn to_lower_ascii(c: char) -> (r: char)
    ensures
        r == lower_ascii(c),
{
    let u = c as u32;
    if 0x41 <= u && u <= 0x5a {
        let b: u8 = (u + 32) as u8;
        assert(b as u32 == u + 32);
        b as char
    } else {
        c
    }
}

pub fn lower_ascii_vec(v: &Vec<char>) -> (r: Vec<char>)
    ensures
        r@ == lower_ascii_seq(v@),
{
    let mut out: Vec<char> = Vec::new();
    let mut i: usize = 0;
    while i < v.len()
        invariant
            i <= v.len(),
            out@ == lower_ascii_seq(v@.take(i as int)),
        decreases v.len() - i,
    {
        let c = to_lower_ascii(v[i]);
        out.push(c);
        assert(v@.take(i + 1) == v@.take(i as int).push(v@[i as int]));
        i = i + 1;
    }
    assert(v@.take(v.len() as int) == v@);
    out
}

// ---------------------------------------------------------------------------
// Trimming
// ---------------------------------------------------------------------------

/// The character sets that the library trims by.
#[derive(Clone, Copy, PartialEq, Eq, Debug)]
pub enum Strip {
    /// `char::is_whitespace`
    Whitespace,
    /// the single character `-`
    Dash,
    /// the single character `_`
    Underscore,
}

pub open spec fn strip_pred(k: Strip, c: char) -> bool {
    match k {
        Strip::Whitespace => is_ws(c),
        Strip::Dash => c == '-',
        Strip::Underscore => c == '_',
    }
}

/// Drops the leading characters of class `k` (`str::trim_start_matches`).
pub open spec fn strip_start(s: Seq<char>, k: Strip) -> Seq<char>
    decreases s.len(),
{
    if s.len() > 0 && strip_pred(k, s[0]) {
        strip_start(s.drop_first(), k)
    } else {
        s
    }
}

/// Drops the trailing characters of class `k` (`str::trim_end_matches`).
pub open spec fn strip_end(s: Seq<char>, k: Strip) -> Seq<char>
    decreases s.len(),
{
    if s.len() > 0 && strip_pred(k, s.last()) {
        strip_end(s.drop_last(), k)
    } else {
        s
    }
}

/// Drops both ends (`str::trim_matches`).
pub open spec fn strip(s: Seq<char>, k: Strip) -> Seq<char> {
    strip_end(strip_start(s, k), k)
}

/// `str::trim`.
pub open spec fn trim(s: Seq<char>) -> Seq<char> {
    strip(s, Strip::Whitespace)
}

/// `str::trim_end`.
pub open spec fn trim_end(s: Seq<char>) -> Seq<char> {
    strip_end(s, Strip::Whitespace)
}

/// True when `s` holds a character outside class `k`.
pub open spec fn has_other(s: Seq<char>, k: Strip) -> bool {
    exists|i: int| 0 <= i < s.len() && !strip_pred(k, #[trigger] s[i])
}

pub proof fn lemma_strip_start_at(s: Seq<char>, k: Strip, b: int)
    requires
        0 <= b <= s.len(),
        forall|i: int| 0 <= i < b ==> strip_pred(k, #[trigger] s[i]),
        b == s.len() || !strip_pred(k, s[b]),
    ensures
        strip_start(s, k) == s.subrange(b, s.len() as int),
    decreases b,
{
    if b == 0 {
        assert(s.subrange(0, s.len() as int) == s);
    } else {
        let t = s.drop_first();
        assert forall|i: int| 0 <= i < b - 1 implies strip_pred(k, #[trigger] t[i]) by {
            assert(t[i] == s[i + 1]);
        }
        if b - 1 < t.len() {
            assert(t[b - 1] == s[b]);
        }
        lemma_strip_start_at(t, k, b - 1);
        assert(t.subrange(b - 1, t.len() as int) == s.subrange(b, s.len() as int));
    }
}

pub proof fn lemma_strip_end_at(s: Seq<char>, k: Strip, e: int)
    requires
        0 <= e <= s.len(),
        forall|i: int| e <= i < s.len() ==> strip_pred(k, #[trigger] s[i]),
        e == 0 || !strip_pred(k, s[e - 1]),
    ensures
        strip_end(s, k) == s.subrange(0, e),
    decreases s.len() - e,
{
    if e == s.len() {
        assert(s.subrange(0, e) == s);
    } else {
        let t = s.drop_last();
        assert forall|i: int| e <= i < t.len() implies strip_pred(k, #[trigger] t[i]) by {
            assert(t[i] == s[i]);
        }
        if e > 0 {
            assert(t[e - 1] == s[e - 1]);
        }
        lemma_strip_end_at(t, k, e);
        assert(t.subrange(0, e) == s.subrange(0, e));
    }
}

/// `strip` keeps a character outside the class exactly when one exists.
pub proof fn lemma_strip_nonempty(s: Seq<char>, k: Strip)
    ensures
        strip(s, k).len() > 0 <==> has_other(s, k),
        strip(s, k).len() > 0 ==> !strip_pred(k, strip(s, k)[0]) && !strip_pred(
            k,
            strip(s, k).last(),
        ),
        forall|i: int|
            0 <= i < strip(s, k).len() ==> exists|j: int|
                0 <= j < s.len() && #[trigger] strip(s, k)[i] == s[j],
        strip(s, k) == s.subrange(strip_bounds_spec(s, k).0, strip_bounds_spec(s, k).1),
{
    let (b, e) = strip_bounds_spec(s, k);
    lemma_strip_bounds(s, k);
    lemma_strip_start_at(s, k, b);
    let t = s.subrange(b, s.len() as int);
    assert forall|i: int| e - b <= i < t.len() implies strip_pred(k, #[trigger] t[i]) by {
        assert(t[i] == s[b + i]);
    }
    if e - b > 0 {
        assert(t[e - b - 1] == s[e - 1]);
    }
    lemma_strip_end_at(t, k, e - b);
    assert(strip(s, k) == s.subrange(b, e));
    if has_other(s, k) {
        let w = choose|i: int| 0 <= i < s.len() && !strip_pred(k, #[trigger] s[i]);
        assert(b <= w < e);
    }
    assert forall|i: int| 0 <= i < strip(s, k).len() implies exists|j: int|
        0 <= j < s.len() && #[trigger] strip(s, k)[i] == s[j] by {
        assert(strip(s, k)[i] == s[b + i]);
    }
}

/// Stripping the end never lengthens a text, and keeps a first character
/// that is outside the class.
pub proof fn lemma_strip_end_len(s: Seq<char>, k: Strip)
    ensures
        strip_end(s, k).len() <= s.len(),
        s.len() > 0 && !strip_pred(k, s[0]) ==> strip_end(s, k).len() > 0 && strip_end(s, k)[0]
            == s[0],
    decreases s.len(),
{
    if s.len() > 0 && strip_pred(k, s.last()) {
        lemma_strip_end_len(s.drop_last(), k);
    }
}

/// The first kept index and one past the last kept index.
pub open spec fn strip_bounds_spec(s: Seq<char>, k: Strip) -> (int, int) {
    let b = first_other(s, k, 0);
    (b, last_other_end(s, k, s.len() as int, b))
}

pub open spec fn first_other(s: Seq<char>, k: Strip, i: int) -> int
    decreases s.len() - i,
{
    if i >= s.len() || i < 0 {
        s.len() as int
    } else if !strip_pred(k, s[i]) {
        i
    } else {
        first_other(s, k, i + 1)
    }
}

pub open spec fn last_other_end(s: Seq<char>, k: Strip, e: int, b: int) -> int
    decreases e - b,
{
    if e <= b {
        b
    } else if !strip_pred(k, s[e - 1]) {
        e
    } else {
        last_other_end(s, k, e - 1, b)
    }
}

proof fn lemma_first_other(s: Seq<char>, k: Strip, i: int)
    requires
        0 <= i <= s.len(),
    ensures
        i <= first_other(s, k, i) <= s.len(),
        forall|j: int| i <= j < first_other(s, k, i) ==> strip_pred(k, #[trigger] s[j]),
        first_other(s, k, i) == s.len() || !strip_pred(k, s[first_other(s, k, i)]),
    decreases s.len() - i,
{
    if i < s.len() && strip_pred(k, s[i]) {
        lemma_first_other(s, k, i + 1);
    }
}

proof fn lemma_last_other_end(s: Seq<char>, k: Strip, e: int, b: int)
    requires
        0 <= b <= e <= s.len(),
    ensures
        b <= last_other_end(s, k, e, b) <= e,
        forall|j: int| last_other_end(s, k, e, b) <= j < e ==> strip_pred(k, #[trigger] s[j]),
        last_other_end(s, k, e, b) == b || !strip_pred(k, s[last_other_end(s, k, e, b) - 1]),
    decreases e - b,
{
    if e > b && strip_pred(k, s[e - 1]) {
        lemma_last_other_end(s, k, e - 1, b);
    }
}

pub proof fn lemma_strip_bounds(s: Seq<char>, k: Strip)
    ensures
        0 <= strip_bounds_spec(s, k).0 <= strip_bounds_spec(s, k).1 <= s.len(),
        forall|j: int|
            0 <= j < strip_bounds_spec(s, k).0 ==> strip_pred(k, #[trigger] s[j]),
        forall|j: int|
            strip_bounds_spec(s, k).1 <= j < s.len() ==> strip_pred(k, #[trigger] s[j]),
        strip_bounds_spec(s, k).0 == s.len() || !strip_pred(k, s[strip_bounds_spec(s, k).0]),
        strip_bounds_spec(s, k).1 == strip_bounds_spec(s, k).0 || !strip_pred(
            k,
            s[strip_bounds_spec(s, k).1 - 1],
        ),
{
    lemma_first_other(s, k, 0);
    let b = first_other(s, k, 0);
    lemma_last_other_end(s, k, s.len() as int, b);
    let e = last_other_end(s, k, s.len() as int, b);
    assert forall|j: int| e <= j < s.len() implies strip_pred(k, #[trigger] s[j]) by {
        if j < b {
        }
    }
}

pub fn in_strip_class(k: Strip, c: char) -> (r: bool)
    ensures
        r == strip_pred(k, c),
{
    match k {
        Strip::Whitespace => is_whitespace_char(c),
        Strip::Dash => c == '-',
        Strip::Underscore => c == '_',
    }
}

/// Copies `v[a..b]`.
pub fn sub_vec(v: &Vec<char>, a: usize, b: usize) -> (r: Vec<char>)
    requires
        a <= b <= v.len(),
    ensures
        r@ == v@.subrange(a as int, b as int),
{
    let mut out: Vec<char> = Vec::new();
    let mut i: usize = a;
    while i < b
        invariant
            a <= i <= b <= v.len(),
            out@ == v@.subrange(a as int, i as int),
        decreases b - i,
    {
        out.push(v[i]);
        assert(v@.subrange(a as int, i + 1) == v@.subrange(a as int, i as int).push(v@[i as int]));
        i = i + 1;
    }
    out
}

/// `trim_matches` for class `k`.
pub fn strip_vec(v: &Vec<char>, k: Strip) -> (r: Vec<char>)
    ensures
        r@ == strip(v@, k),
{
    let mut b: usize = 0;
    while b < v.len() && in_strip_class(k, v[b])
        invariant
            b <= v.len(),
            forall|j: int| 0 <= j < b ==> strip_pred(k, #[trigger] v@[j]),
        decreases v.len() - b,
    {
        b = b + 1;
    }
    let mut e: usize = v.len();
    while e > b && in_strip_class(k, v[e - 1])
        invariant
            b <= e <= v.len(),
            forall|j: int| e <= j < v.len() ==> strip_pred(k, #[trigger] v@[j]),
        decreases e - b,
    {
        e = e - 1;
    }
    proof {
        let s = v@;
        lemma_strip_start_at(s, k, b as int);
        let t = s.subrange(b as int, s.len() as int);
        assert forall|i: int| e - b <= i < t.len() implies strip_pred(k, #[trigger] t[i]) by {
            assert(t[i] == s[b + i]);
        }
        if e - b > 0 {
            assert(t[e - b - 1] == s[e - 1]);
        }
        lemma_strip_end_at(t, k, e - b);
        assert(t.subrange(0, e - b) == s.subrange(b as int, e as int));
    }
    sub_vec(v, b, e)
}

/// `trim_end_matches` for class `k`.
pub fn strip_end_vec(v: &Vec<char>, k: Strip) -> (r: Vec<char>)
    ensures
        r@ == strip_end(v@, k),
{
    let mut e: usize = v.len();
    while e > 0 && in_strip_class(k, v[e - 1])
        invariant
            e <= v.len(),
            forall|j: int| e <= j < v.len() ==> strip_pred(k, #[trigger] v@[j]),
        decreases e,
    {
        e = e - 1;
    }
    proof {
        lemma_strip_end_at(v@, k, e as int);
    }
    sub_vec(v, 0, e)
}

/// True when every character of `v` belongs to class `k`.
pub fn all_in_class(v: &Vec<char>, k: Strip) -> (r: bool)
    ensures
        r == !has_other(v@, k),
{
    let mut i: usize = 0;
    while i < v.len()
        invariant
            i <= v.len(),
            forall|j: int| 0 <= j < i ==> strip_pred(k, #[trigger] v@[j]),
        decreases v.len() - i,
    {
        if !in_strip_class(k, v[i]) {
            return false;
        }
        i = i + 1;
    }
    true
}

// ---------------------------------------------------------------------------
// Splitting
// ---------------------------------------------------------------------------

/// The pieces of `s` between occurrences of `sep` (`str::split(sep)`).
pub open spec fn split_on(s: Seq<char>, sep: char) -> Seq<Seq<char>>
    decreases s.len(),
{
    if s.len() == 0 {
        seq![seq![]]
    } else {
        let r = split_on(s.drop_last(), sep);
        if s.last() == sep {
            r.push(seq![])
        } else {
            r.drop_last().push(r.last().push(s.last()))
        }
    }
}

/// The characters of each vector.
pub open spec fn views(vs: Seq<Vec<char>>) -> Seq<Seq<char>> {
    vs.map_values(|w: Vec<char>| w@)
}

/// The pieces trimmed, keeping those that are not empty
/// (`.map(str::trim).filter(|s| !s.is_empty())`).
pub open spec fn nonblank_trimmed(ps: Seq<Seq<char>>) -> Seq<Seq<char>>
    decreases ps.len(),
{
    if ps.len() == 0 {
        seq![]
    } else {
        let r = nonblank_trimmed(ps.drop_last());
        let t = trim(ps.last());
        if t.len() > 0 {
            r.push(t)
        } else {
            r
        }
    }
}

/// Splits `v` at every `sep`.
pub fn split_vec(v: &Vec<char>, sep: char) -> (r: Vec<Vec<char>>)
    ensures
        views(r@) == split_on(v@, sep),
{
    let mut pieces: Vec<Vec<char>> = Vec::new();
    let mut cur: Vec<char> = Vec::new();
    let mut i: usize = 0;
    assert(v@.take(0) == Seq::<char>::empty());
    assert(views(pieces@).push(cur@) =~= split_on(v@.take(0), sep));
    while i < v.len()
        invariant
            i <= v.len(),
            split_on(v@.take(i as int), sep) == views(pieces@).push(cur@),
        decreases v.len() - i,
    {
        let c = v[i];
        let ghost s = v@.take(i + 1);
        assert(s.drop_last() == v@.take(i as int));
        assert(s.last() == c);
        if c == sep {
            let ghost old_pieces = pieces@;
            let done = cur;
            pieces.push(done);
            cur = Vec::new();
            assert(views(pieces@) =~= views(old_pieces).push(done@));
            assert(split_on(s, sep) =~= views(pieces@).push(cur@));
        } else {
            cur.push(c);
            assert(split_on(s, sep) =~= views(pieces@).push(cur@));
        }
        i = i + 1;
    }
    assert(v@.take(v.len() as int) == v@);
    let ghost old_pieces = pieces@;
    pieces.push(cur);
    assert(views(pieces@) =~= views(old_pieces).push(cur@));
    pieces
}

/// Trims every piece and keeps those that are not empty.
pub fn trim_nonblank(ps: &Vec<Vec<char>>) -> (r: Vec<Vec<char>>)
    ensures
        views(r@) == nonblank_trimmed(views(ps@)),
{
    let mut out: Vec<Vec<char>> = Vec::new();
    let mut i: usize = 0;
    assert(views(ps@).take(0) == Seq::<Seq<char>>::empty());
    assert(views(out@) =~= nonblank_trimmed(views(ps@).take(0)));
    while i < ps.len()
        invariant
            i <= ps.len(),
            views(out@) == nonblank_trimmed(views(ps@).take(i as int)),
        decreases ps.len() - i,
    {
        let t = strip_vec(&ps[i], Strip::Whitespace);
        let ghost before = out@;
        proof {
            let vs = views(ps@);
            assert(vs.take(i + 1).drop_last() == vs.take(i as int));
            assert(vs.take(i + 1).last() == ps@[i as int]@);
        }
        if t.len() > 0 {
            out.push(t);
            assert(views(out@) =~= views(before).push(t@));
        }
        i = i + 1;
    }
    assert(views(ps@).take(ps.len() as int) == views(ps@));
    out
}

// ---------------------------------------------------------------------------
// Reading integers (the `FromStr` of `i64`)
// ---------------------------------------------------------------------------

pub open spec fn is_ascii_digit(c: char) -> bool {
    48 <= (c as u32) && (c as u32) <= 57
}

/// The value of a string of decimal digits.
pub open spec fn digits_value(s: Seq<char>) -> int
    decreases s.len(),
{
    if s.len() == 0 {
        0
    } else {
        digits_value(s.drop_last()) * 10 + ((s.last() as u32) - 48)
    }
}

/// The text after an optional leading `+` or `-`.
pub open spec fn unsigned_part(s: Seq<char>) -> Seq<char> {
    if s.len() > 0 && (s[0] == '-' || s[0] == '+') {
        s.drop_first()
    } else {
        s
    }
}

/// Whether every character of `s` is an ASCII digit.
pub open spec fn all_digits(s: Seq<char>) -> bool {
    forall|i: int| 0 <= i < s.len() ==> is_ascii_digit(#[trigger] s[i])
}

/// What `i64::from_str` reads: an optional `+` or `-` followed by one or
/// more ASCII digits and nothing else, with a value in range.
pub open spec fn parse_i64_spec(s: Seq<char>) -> Option<i64> {
    let body = unsigned_part(s);
    if body.len() > 0 && all_digits(body) {
        let v = if s.len() > 0 && s[0] == '-' {
            -digits_value(body)
        } else {
            digits_value(body)
        };
        if i64::MIN <= v && v <= i64::MAX {
            Some(v as i64)
        } else {
            None
        }
    } else {
        None
    }
}

/// Reads a decimal `i64` as `i64::from_str` does (its documentation: an
/// optional `+` or `-` sign followed by ASCII digits only; other
/// characters, whitespace included, and values out of range are errors).
pub(crate) fn parse_i64(s: &str) -> (r: Option<i64>)
    ensures
        r == parse_i64_spec(s@),
{
    let v = chars_of(s);
    let n = v.len();
    if n == 0 {
        return None;
    }
    let neg = v[0] == '-';
    let start: usize = if v[0] == '-' || v[0] == '+' {
        1
    } else {
        0
    };
    let ghost body = v@.subrange(start as int, n as int);
    proof {
        assert(body =~= unsigned_part(v@));
    }
    if start == n {
        return None;
    }
    // The magnitude that still fits: 2^63 for a negative value, 2^63 - 1
    // otherwise.
    let limit: u128 = if neg {
        9223372036854775808
    } else {
        9223372036854775807
    };
    let mut acc: u128 = 0;
    let mut over = false;
    let mut i: usize = start;
    assert(v@.subrange(start as int, start as int) =~= Seq::<char>::empty());
    while i < n
        invariant
            start <= i <= n == v@.len(),
            body == v@.subrange(start as int, n as int),
            limit <= 9223372036854775808,
            v@ == s@,
            n > 0,
            (start == 1) == (v@[0] == '-' || v@[0] == '+'),
            start <= 1,
            body == unsigned_part(v@),
            forall|j: int| start <= j < i ==> is_ascii_digit(#[trigger] v@[j]),
            !over ==> acc == digits_value(v@.subrange(start as int, i as int)) && acc <= limit,
            over ==> digits_value(v@.subrange(start as int, i as int)) > limit,
        decreases n - i,
    {
        let c = v[i];
        let code = c as u32;
        if !(48 <= code && code <= 57) {
            proof {
                assert(body[i - start] == c);
                assert(!is_ascii_digit(body[i - start]));
                assert(!all_digits(body));
            }
            return None;
        }
        let d = (code - 48) as u128;
        proof {
            let pre = v@.subrange(start as int, i as int);
            let nxt = v@.subrange(start as int, i + 1);
            assert(nxt.drop_last() =~= pre);
            assert(nxt.last() == c);
            assert(digits_value(nxt) == digits_value(pre) * 10 + d);
        }
        if !over {
            let next = acc * 10 + d;
            if next > limit {
                over = true;
            } else {
                acc = next;
            }
        }
        i = i + 1;
    }
    proof {
        assert(v@.subrange(start as int, n as int) == body);
        assert forall|j: int| 0 <= j < body.len() implies is_ascii_digit(#[trigger] body[j]) by {
            assert(body[j] == v@[start + j]);
        }
    }
    if over {
        None
    } else if neg {
        if acc == 9223372036854775808 {
            Some(i64::MIN)
        } else {
            let m = acc as i64;
            Some(-m)
        }
    } else {
        Some(acc as i64)
    }
}

// ---------------------------------------------------------------------------
// Building text
// ---------------------------------------------------------------------------

/// Appends `s` to `out`.
pub fn push_all(out: &mut Vec<char>, s: &Vec<char>)
    ensures
        final(out)@ == old(out)@ + s@,
{
    let mut i: usize = 0;
    while i < s.len()
        invariant
            i <= s.len(),
            out@ == old(out)@ + s@.take(i as int),
        decreases s.len() - i,
    {
        out.push(s[i]);
        assert(s@.take(i + 1) == s@.take(i as int).push(s@[i as int]));
        i = i + 1;
    }
    assert(s@.take(s.len() as int) == s@);
}

/// Appends the characters of `s` to `out`.
pub fn push_str(out: &mut Vec<char>, s: &str)
    ensures
        final(out)@ == old(out)@ + s@,
{
    let v = chars_of(s);
    push_all(out, &v);
}

/// Element-wise equality of two character vectors.
pub fn chars_eq(a: &Vec<char>, b: &Vec<char>) -> (r: bool)
    ensures
        r == (a@ == b@),
{
    if a.len() != b.len() {
        return false;
    }
    let mut i: usize = 0;
    while i < a.len()
        invariant
            i <= a.len() == b.len(),
            forall|j: int| 0 <= j < i ==> a@[j] == b@[j],
        decreases a.len() - i,
    {
        if a[i] != b[i] {
            return false;
        }
        i = i + 1;
    }
    assert(a@ =~= b@);
    true
}

/// True when `a` holds the same characters as the literal `s`.
pub fn chars_eq_str(a: &Vec<char>, s: &str) -> (r: bool)
    ensures
        r == (a@ == s@),
{
    let b = chars_of(s);
    chars_eq(a, &b)
}

// ---------------------------------------------------------------------------
// Decimal numerals (the `Display` of the integer types)
// ---------------------------------------------------------------------------

pub open spec fn digit_char(d: nat) -> char {
    ((d % 10) + 48) as char
}

/// Decimal digits of `n`, most significant first, without leading zeros.
pub open spec fn digits(n: nat) -> Seq<char>
    decreases n,
{
    if n < 10 {
        seq![digit_char(n)]
    } else {
        digits(n / 10).push(digit_char(n % 10))
    }
}

/// How an integer is displayed: an optional `-` and its digits.
pub open spec fn decimal(x: int) -> Seq<char> {
    if x < 0 {
        seq!['-'] + digits((-x) as nat)
    } else {
        digits(x as nat)
    }
}

fn digit_of(d: u64) -> (c: char)
    requires
        d < 10,
    ensures
        c == digit_char(d as nat),
{
    let b: u8 = (d as u8) + 48;
    b as char
}

/// Appends the decimal digits of `n`.
pub fn push_digits(out: &mut Vec<char>, n: u64)
    ensures
        final(out)@ == old(out)@ + digits(n as nat),
    decreases n,
{
    if n < 10 {
        out.push(digit_of(n));
        assert(digits(n as nat) == seq![digit_char(n as nat)]);
    } else {
        push_digits(out, n / 10);
        out.push(digit_of(n % 10));
        assert(digits(n as nat) == digits((n / 10) as nat).push(digit_char((n % 10) as nat)));
    }
}

/// Appends `x` as `Display` writes it.
pub fn push_i64(out: &mut Vec<char>, x: i64)
    ensures
        final(out)@ == old(out)@ + decimal(x as int),
{
    if x < 0 {
        out.push('-');
        let m: u64 = if x == i64::MIN {
            9223372036854775808u64
        } else {
            (-x) as u64
        };
        push_digits(out, m);
    } else {
        push_digits(out, x as u64);
    }
}

/// Appends `x` as `Display` writes it.
pub fn push_u64(out: &mut Vec<char>, x: u64)
    ensures
        final(out)@ == old(out)@ + decimal(x as int),
{
    push_digits(out, x);
}

// ---------------------------------------------------------------------------
// Conversions with std strings
// ---------------------------------------------------------------------------

/// Calls `str::chars` and collects: the characters of `s`, in order.
#[verifier::external_body]
pub(crate) fn chars_of(s: &str) -> (r: Vec<char>)
    ensures
        r@ == s@,
{
    s.chars().collect()
}

/// Collects the characters into a `String` (`FromIterator<char>`): the
/// string holds exactly those characters, in order.
#[verifier::external_body]
pub(crate) fn string_of(v: &Vec<char>) -> (r: String)
    ensures
        r@ == v@,
{
    v.iter().collect()
}

} // verus!
