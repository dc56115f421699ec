//! UTC instants as plain values, and the calls into chrono that only it can
//! answer: the current time and calendar formatting.
use vstd::prelude::*;

verus! {

/// A UTC instant: whole seconds since the Unix epoch and the nanoseconds
/// past that second.
#[derive(Debug, Clone, Copy, PartialEq, Eq, Structural)]
pub struct Timestamp {
    pub secs: i64,
    pub nanos: u32,
}

/// Nanoseconds since the epoch.
pub open spec fn instant_nanos(t: Timestamp) -> int {
    t.secs as int * 1_000_000_000 + t.nanos as int
}

/// Whole seconds from `a` to `b`, truncated toward zero.
pub open spec fn seconds_between(a: Timestamp, b: Timestamp) -> int {
    let d = instant_nanos(b) - instant_nanos(a);
    if d >= 0 {
        d / 1_000_000_000
    } else {
        -((-d) / 1_000_000_000)
    }
}

impl Timestamp {
    /// Whole seconds from `self` to `later`, truncated toward zero.
    pub fn seconds_until(&self, later: &Timestamp) -> (r: i128)
        ensures
            r == seconds_between(*self, *later),
    {
        let d: i128 = (later.secs as i128 - self.secs as i128) * 1_000_000_000 + (later.nanos as i128
            - self.nanos as i128);
        assert(d == instant_nanos(*later) - instant_nanos(*self)) by (nonlinear_arith)
            requires
                d == (later.secs as int - self.secs as int) * 1_000_000_000 + (later.nanos as int
                    - self.nanos as int),
        ;
        if d >= 0 {
            d / 1_000_000_000
        } else {
            -((-d) / 1_000_000_000)
        }
    }
}

/// Relies on chrono's `Utc::now`: the current instant. Nothing is known of
/// its value.
#[verifier::external_body]
pub(crate) fn utc_now() -> Timestamp {
    let now = chrono::Utc::now();
    Timestamp { secs: now.timestamp(), nanos: now.timestamp_subsec_nanos() }
}

/// The calendar patterns this library formats instants with.
pub open spec fn known_pattern(p: Seq<char>) -> bool {
    ||| p == "%Y-%m-%d %H:%M:%S"@
    ||| p == "%m-%d %H:%M"@
    ||| p == "%H:%M"@
    ||| p == "%Y%m%d_%H%M%S_%3f"@
}

/// Names chrono's rendering of the UTC instant `(secs, nanos)` with a
/// strftime pattern; `None` where chrono has no such instant.
pub uninterp spec fn utc_text(secs: int, nanos: int, pattern: Seq<char>) -> Option<Seq<char>>;

/// Relies on chrono's `DateTime::<Utc>::from_timestamp` and `DateTime::format`:
/// the text depends on the instant and the pattern alone.
#[verifier::external_body]
pub(crate) fn utc_format(t: Timestamp, pattern: &str) -> (r: Option<String>)
    requires
        known_pattern(pattern@),
    ensures
        match r {
            Some(s) => utc_text(t.secs as int, t.nanos as int, pattern@) == Some(s@),
            None => utc_text(t.secs as int, t.nanos as int, pattern@) is None,
        },
{
    match chrono::DateTime::from_timestamp(t.secs, t.nanos) {
        Some(d) => Some(d.format(pattern).to_string()),
        None => None,
    }
}

/// The text of `t` in `pattern`, empty where chrono has no such instant.
pub open spec fn utc_text_or_empty(t: Timestamp, pattern: Seq<char>) -> Seq<char> {
    match utc_text(t.secs as int, t.nanos as int, pattern) {
        Some(s) => s,
        None => Seq::empty(),
    }
}

/// `t` rendered with `pattern`, or the empty string.
pub fn format_instant(t: Timestamp, pattern: &str) -> (r: String)
    requires
        known_pattern(pattern@),
    ensures
        r@ == utc_text_or_empty(t, pattern@),
{
    match utc_format(t, pattern) {
        Some(s) => s,
        None => String::new(),
    }
}

} // verus!
