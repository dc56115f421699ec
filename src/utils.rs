//! Small display helpers: durations, signal bars and truncated text.
use vstd::prelude::*;

use crate::text::{chars_of, dec_text, push_dec, push_str, string_of};

verus! {

/// A number as at least two digits.
pub open spec fn two_digits(n: nat) -> Seq<char> {
    if n < 10 {
        seq!['0'] + dec_text(n)
    } else {
        dec_text(n)
    }
}

/// `MM:SS` of a number of seconds (minutes may run past two digits).
pub open spec fn mm_ss(secs: nat) -> Seq<char> {
    two_digits(secs / 60) + seq![':'] + two_digits(secs % 60)
}

fn push_two_digits(v: &mut Vec<char>, n: u64)
    ensures
        final(v)@ == old(v)@ + two_digits(n as nat),
{
    if n < 10 {
        v.push('0');
    }
    let ghost mid = v@;
    push_dec(v, n);
    assert(final(v)@ =~= old(v)@ + two_digits(n as nat));
}

fn push_mm_ss(v: &mut Vec<char>, secs: u64)
    ensures
        final(v)@ == old(v)@ + mm_ss(secs as nat),
{
    push_two_digits(v, secs / 60);
    v.push(':');
    push_two_digits(v, secs % 60);
    assert(final(v)@ =~= old(v)@ + mm_ss(secs as nat));
}

/// Format a duration in seconds as `MM:SS`.
pub fn format_duration(secs: u64) -> (r: String)
    ensures
        r@ == mm_ss(secs as nat),
{
    let mut v: Vec<char> = Vec::new();
    push_mm_ss(&mut v, secs);
    assert(v@ =~= mm_ss(secs as nat));
    string_of(v.as_slice())
}

/// The timer text: `remaining/target` when a target is set, else the elapsed time.
pub open spec fn timer_text(elapsed: nat, target: Option<u64>) -> Seq<char> {
    match target {
        Some(t) => mm_ss(if t >= elapsed {
            (t - elapsed) as nat
        } else {
            0
        }) + seq!['/'] + mm_ss(t as nat),
        None => mm_ss(elapsed),
    }
}

/// Format the session timer as a countdown `MM:SS/MM:SS`, or as elapsed
/// time when there is no target.
pub fn format_timer(elapsed: u64, target: Option<u64>) -> (r: String)
    ensures
        r@ == timer_text(elapsed as nat, target),
{
    let mut v: Vec<char> = Vec::new();
    match target {
        Some(t) => {
            push_mm_ss(&mut v, t.saturating_sub(elapsed));
            v.push('/');
            push_mm_ss(&mut v, t);
        },
        None => {
            push_mm_ss(&mut v, elapsed);
        },
    }
    assert(v@ =~= timer_text(elapsed as nat, target));
    string_of(v.as_slice())
}

/// dBm clamped to the range drawn, -100 to -30.
pub open spec fn clamp_dbm(dbm: int) -> int {
    if dbm < -100 {
        -100
    } else if dbm > -30 {
        -30
    } else {
        dbm
    }
}

/// Filled length of a bar of `max_width` cells: -100 dBm is empty, -30 dBm
/// is full, linear between, rounded to the nearest cell (halves up).
pub open spec fn bar_width(dbm: int, max_width: int) -> int {
    ((clamp_dbm(dbm) + 100) * max_width * 2 + 70) / 140
}

/// Calculate signal bar width (`max_width` is the full bar width for the best signal).
pub fn signal_bar_width(signal_dbm: i32, max_width: u16) -> (r: u16)
    ensures
        r == bar_width(signal_dbm as int, max_width as int),
        r <= max_width,
{
    let c: i64 = if signal_dbm < -100 {
        -100
    } else if signal_dbm > -30 {
        -30
    } else {
        signal_dbm as i64
    };
    assert(0 <= (c + 100) * (max_width as i64) <= 70 * (max_width as i64)) by (nonlinear_arith)
        requires
            0 <= c + 100 <= 70,
            max_width >= 0,
    ;
    let p: i64 = (c + 100) * (max_width as i64);
    let x: i64 = p * 2 + 70;
    assert(x / 140 <= max_width) by (nonlinear_arith)
        requires
            x <= 140 * max_width + 70,
            x >= 0,
    ;
    (x / 140) as u16
}

/// For any bar width, a bar never gets shorter as the signal gets stronger;
/// -30 dBm fills it and -100 dBm leaves it empty.
pub proof fn lemma_bar_width_monotonic(d1: int, d2: int, max_width: int)
    requires
        d1 <= d2,
        max_width >= 0,
    ensures
        bar_width(d1, max_width) <= bar_width(d2, max_width),
        bar_width(-30, max_width) == max_width,
        bar_width(-100, max_width) == 0,
{
    let a = (clamp_dbm(d1) + 100) * max_width * 2 + 70;
    let b = (clamp_dbm(d2) + 100) * max_width * 2 + 70;
    assert(clamp_dbm(d1) <= clamp_dbm(d2));
    assert(a <= b) by (nonlinear_arith)
        requires
            a == (clamp_dbm(d1) + 100) * max_width * 2 + 70,
            b == (clamp_dbm(d2) + 100) * max_width * 2 + 70,
            clamp_dbm(d1) <= clamp_dbm(d2),
            max_width >= 0,
    ;
    assert(a / 140 <= b / 140) by (nonlinear_arith)
        requires
            a <= b,
    ;
    assert((70 * max_width * 2 + 70) / 140 == max_width) by (nonlinear_arith)
        requires
            max_width >= 0,
    ;
    assert(clamp_dbm(-100) + 100 == 0);
    assert((clamp_dbm(-100) + 100) * max_width * 2 + 70 == 70) by (nonlinear_arith)
        requires
            clamp_dbm(-100) + 100 == 0,
    ;
}

/// Signal strength in percent: -100 dBm is 0 and -30 dBm is 100, rounded down.
pub open spec fn percent_of(dbm: int) -> int {
    (clamp_dbm(dbm) + 100) * 100 / 70
}

/// Signal quality grade, strongest first: at least -50, -60, -70, -80 dBm, or weaker.
#[derive(Debug, Clone, Copy, PartialEq, Eq, Structural)]
pub enum SignalLevel {
    Excellent,
    Good,
    Fair,
    Weak,
    Poor,
}

pub open spec fn level_of(dbm: int) -> SignalLevel {
    if dbm >= -50 {
        SignalLevel::Excellent
    } else if dbm >= -60 {
        SignalLevel::Good
    } else if dbm >= -70 {
        SignalLevel::Fair
    } else if dbm >= -80 {
        SignalLevel::Weak
    } else {
        SignalLevel::Poor
    }
}

/// The quality grade of a signal, which the screens draw in a colour each.
pub fn signal_level(signal_dbm: i32) -> (r: SignalLevel)
    ensures
        r == level_of(signal_dbm as int),
{
    if signal_dbm >= -50 {
        SignalLevel::Excellent
    } else if signal_dbm >= -60 {
        SignalLevel::Good
    } else if signal_dbm >= -70 {
        SignalLevel::Fair
    } else if signal_dbm >= -80 {
        SignalLevel::Weak
    } else {
        SignalLevel::Poor
    }
}

/// Bytes of the UTF-8 encoding of `c`.
pub open spec fn char_bytes(c: char) -> int {
    let u = c as u32;
    if u < 0x80 {
        1
    } else if u < 0x800 {
        2
    } else if u < 0x10000 {
        3
    } else {
        4
    }
}

/// Bytes of the UTF-8 encoding of `s`.
pub open spec fn byte_len(s: Seq<char>) -> int
    decreases s.len(),
{
    if s.len() == 0 {
        0
    } else {
        byte_len(s.drop_last()) + char_bytes(s.last())
    }
}

/// The longest prefix of `s` whose encoding fits in `n` bytes.
pub open spec fn prefix_within(s: Seq<char>, n: int) -> Seq<char>
    decreases s.len(),
{
    if s.len() == 0 || char_bytes(s[0]) > n {
        Seq::empty()
    } else {
        seq![s[0]] + prefix_within(s.drop_first(), n - char_bytes(s[0]))
    }
}

/// `s` if its encoding fits in `max_len` bytes; else its first `max_len`
/// characters when `max_len <= 3`; else as much of it as fits in
/// `max_len - 3` bytes, followed by `...`.
pub open spec fn truncated(s: Seq<char>, max_len: int) -> Seq<char> {
    if byte_len(s) <= max_len {
        s
    } else if max_len <= 3 {
        s.take(if max_len < s.len() {
            max_len
        } else {
            s.len() as int
        })
    } else {
        prefix_within(s, max_len - 3) + "..."@
    }
}

fn char_bytes_of(c: char) -> (r: u8)
    ensures
        r == char_bytes(c),
{
    let u = c as u32;
    if u < 0x80 {
        1
    } else if u < 0x800 {
        2
    } else if u < 0x10000 {
        3
    } else {
        4
    }
}

/// Bytes of the UTF-8 encoding of `cs`.
pub fn byte_len_of(cs: &Vec<char>) -> (r: u128)
    ensures
        r == byte_len(cs@),
        r <= 4 * cs@.len(),
{
    let mut total: u128 = 0;
    let mut i: usize = 0;
    while i < cs.len()
        invariant
            i <= cs.len(),
            total == byte_len(cs@.take(i as int)),
            total <= 4 * i,
        decreases cs.len() - i,
    {
        assert(cs@.take(i + 1).drop_last() =~= cs@.take(i as int));
        total = total + char_bytes_of(cs[i]) as u128;
        i = i + 1;
    }
    assert(cs@.take(cs.len() as int) =~= cs@);
    total
}

/// Truncate a string to `max_len` bytes, marking the cut with `...`.
pub fn truncate(s: &str, max_len: usize) -> (r: String)
    ensures
        r@ == truncated(s@, max_len as int),
{
    let cs = chars_of(s);
    let total = byte_len_of(&cs);
    if total <= max_len as u128 {
        return string_of(cs.as_slice());
    }
    let mut out: Vec<char> = Vec::new();
    if max_len <= 3 {
        let n = if max_len < cs.len() {
            max_len
        } else {
            cs.len()
        };
        let mut j: usize = 0;
        while j < n
            invariant
                j <= n <= cs.len(),
                out@ == cs@.take(j as int),
            decreases n - j,
        {
            out.push(cs[j]);
            assert(out@ =~= cs@.take(j + 1));
            j = j + 1;
        }
        return string_of(out.as_slice());
    }
    let budget: usize = max_len - 3;
    let mut used: usize = 0;
    let mut j: usize = 0;
    assert(cs@.skip(0) =~= cs@);
    while j < cs.len() && (char_bytes_of(cs[j]) as usize) <= budget - used
        invariant
            j <= cs.len(),
            used <= budget,
            prefix_within(cs@, budget as int) == out@ + prefix_within(
                cs@.skip(j as int),
                budget - used,
            ),
            out@ == cs@.take(j as int),
        decreases cs.len() - j,
    {
        let ghost rest = cs@.skip(j as int);
        assert(rest.drop_first() =~= cs@.skip(j + 1));
        assert(rest[0] == cs@[j as int]);
        used = used + char_bytes_of(cs[j]) as usize;
        out.push(cs[j]);
        assert(out@ =~= cs@.take(j + 1));
        j = j + 1;
    }
    proof {
        let rest = cs@.skip(j as int);
        if j < cs.len() {
            assert(rest[0] == cs@[j as int]);
        }
        assert(prefix_within(rest, budget - used) =~= Seq::<char>::empty());
        assert(out@ + Seq::<char>::empty() =~= out@);
    }
    push_str(&mut out, "...");
    string_of(out.as_slice())
}

} // verus!
