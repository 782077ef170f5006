//! Instants in UTC, and the calls into `chrono` that read the clock and
//! render an instant as text.
use vstd::prelude::*;

verus! {

/// The first second that `chrono` represents: -262143-01-01T00:00:00Z.
pub open spec fn min_timestamp() -> int {
    -8334601315200
}

/// The last second that `chrono` represents: +262142-12-31T23:59:59Z.
pub open spec fn max_timestamp() -> int {
    8210266876799
}

/// An instant in UTC: whole seconds since the Unix epoch and the
/// nanoseconds past them, within the range that `chrono` represents, and
/// whether it was read from the system clock (by `now`) rather than given.
#[derive(Debug, Clone, Copy)]
pub struct UtcTimestamp {
    secs: i64,
    nanos: u32,
    from_clock: bool,
}

impl View for UtcTimestamp {
    type V = (i64, u32);

    closed spec fn view(&self) -> (i64, u32) {
        (self.secs, self.nanos)
    }
}

/// Whether `(secs, nanos)` is an instant that `UtcTimestamp` holds.
pub open spec fn valid_timestamp(secs: i64, nanos: u32) -> bool {
    min_timestamp() <= secs <= max_timestamp() && nanos < 1_000_000_000
}

impl UtcTimestamp {
    /// Whether the instant is a reading of the system clock, taken by
    /// `now`, as opposed to one built from given parts.
    pub closed spec fn is_clock_reading(self) -> bool {
        self.from_clock
    }

    #[verifier::type_invariant]
    spec fn inv(self) -> bool {
        valid_timestamp(self.secs, self.nanos)
    }

    /// The instant `secs` seconds and `nanos` nanoseconds after the epoch,
    /// when it is in range.
    pub fn from_parts(secs: i64, nanos: u32) -> (r: Option<Self>)
        ensures
            match r {
                Some(t) => valid_timestamp(secs, nanos) && t@ == (secs, nanos)
                    && !t.is_clock_reading(),
                None => !valid_timestamp(secs, nanos),
            },
    {
        if -8334601315200i64 <= secs && secs <= 8210266876799i64 && nanos < 1_000_000_000u32 {
            Some(UtcTimestamp { secs, nanos, from_clock: false })
        } else {
            None
        }
    }

    /// The current instant, by the system clock (`chrono::Utc::now`): a
    /// clock reading, at or after the Unix epoch.
    pub fn now() -> (r: Self)
        ensures
            r.is_clock_reading(),
            r@.0 >= 0,
            valid_timestamp(r@.0, r@.1),
    {
        let t = utc_now();
        proof {
            use_type_invariant(&t);
        }
        UtcTimestamp { secs: t.secs, nanos: t.nanos, from_clock: true }
    }

    /// Whole seconds since the epoch.
    pub fn secs(&self) -> (r: i64)
        ensures
            r == self@.0,
            valid_timestamp(self@.0, self@.1),
    {
        proof {
            use_type_invariant(self);
        }
        self.secs
    }

    /// Nanoseconds past the whole second.
    pub fn nanos(&self) -> (r: u32)
        ensures
            r == self@.1,
            valid_timestamp(self@.0, self@.1),
    {
        proof {
            use_type_invariant(self);
        }
        self.nanos
    }
}

/// Calls `chrono::Utc::now` and keeps the instant's seconds
/// (`DateTime::timestamp`) and nanoseconds (`DateTime::timestamp_subsec_nanos`).
/// Nothing is stated of which instant comes back: it is the clock's. `Utc::now`
/// builds the instant with `DateTime::from_timestamp(secs, subsec_nanos)` and
/// unwraps it, so what it returns lies in `chrono`'s range with fewer than a
/// billion nanoseconds, as the type requires; it panics when the system clock
/// reads before the epoch or past that range, so the seconds it returns are
/// never negative.
#[verifier::external_body]
pub(crate) fn utc_now() -> (r: UtcTimestamp)
    ensures
        r@.0 >= 0,
        valid_timestamp(r@.0, r@.1),
{
    let now = chrono::Utc::now();
    UtcTimestamp { secs: now.timestamp(), nanos: now.timestamp_subsec_nanos(), from_clock: true }
}

/// What `DateTime::<Utc>::to_rfc3339` writes for the instant `(secs, nanos)`.
pub uninterp spec fn spec_rfc3339(secs: i64, nanos: u32) -> Seq<char>;

/// Calls `DateTime::<Utc>::to_rfc3339` on the instant, rebuilt with
/// `DateTime::from_timestamp` (which gives `Some` for every instant the type
/// holds). The text is a function of the instant alone.
#[verifier::external_body]
pub(crate) fn rfc3339(t: &UtcTimestamp) -> (r: String)
    ensures
        r@ == spec_rfc3339(t@.0, t@.1),
{
    chrono::DateTime::from_timestamp(t.secs, t.nanos).unwrap().to_rfc3339()
}

/// The two `strftime` patterns that the library renders instants with.
pub open spec fn known_pattern(p: Seq<char>) -> bool {
    p == "%Y-%m-%dT%H%M%S"@ || p == "%Y%m%dT%H%M%SZ"@
}

/// What `DateTime::<Utc>::format(pattern).to_string()` writes for the
/// instant `(secs, nanos)`.
pub uninterp spec fn spec_strftime(secs: i64, nanos: u32, pattern: Seq<char>) -> Seq<char>;

/// Calls `DateTime::<Utc>::format` with `pattern` on the instant (rebuilt with
/// `DateTime::from_timestamp`) and renders it. The text is a function of the
/// instant and the pattern. Only the two patterns the library uses are
/// admitted: rendering a pattern that `chrono` rejects panics in `to_string`.
#[verifier::external_body]
pub(crate) fn strftime(t: &UtcTimestamp, pattern: &str) -> (r: String)
    requires
        known_pattern(pattern@),
    ensures
        r@ == spec_strftime(t@.0, t@.1, pattern@),
{
    chrono::DateTime::from_timestamp(t.secs, t.nanos).unwrap().format(pattern).to_string()
}

} // verus!
