//! Character-level helpers over `Seq<char>` used by the parsers and the
//! formatters: whitespace trimming, prefix tests, and number reading.
use vstd::prelude::*;

verus! {

/// Unicode `White_Space` characters (the set `char::is_whitespace` accepts).
pub open spec fn is_space(c: char) -> bool {
    let u = c as u32;
    ||| u == 0x20
    ||| 0x09 <= u <= 0x0D
    ||| u == 0x85
    ||| u == 0xA0
    ||| u == 0x1680
    ||| 0x2000 <= u <= 0x200A
    ||| u == 0x2028
    ||| u == 0x2029
    ||| u == 0x202F
    ||| u == 0x205F
    ||| u == 0x3000
}

pub open spec fn trim_start(s: Seq<char>) -> Seq<char>
    decreases s.len(),
{
    if s.len() > 0 && is_space(s[0]) {
        trim_start(s.drop_first())
    } else {
        s
    }
}

pub open spec fn trim_end(s: Seq<char>) -> Seq<char>
    decreases s.len(),
{
    if s.len() > 0 && is_space(s.last()) {
        trim_end(s.drop_last())
    } else {
        s
    }
}

/// Whitespace removed from both ends.
pub open spec fn trim(s: Seq<char>) -> Seq<char> {
    trim_end(trim_start(s))
}

pub open spec fn starts_with(s: Seq<char>, p: Seq<char>) -> bool {
    p.len() <= s.len() && s.take(p.len() as int) == p
}

/// `s` without the prefix `p` (meaningful when `starts_with(s, p)`).
pub open spec fn after(s: Seq<char>, p: Seq<char>) -> Seq<char> {
    s.skip(p.len() as int)
}

/// `s` with every leading repetition of `p` removed.
pub open spec fn strip_all(s: Seq<char>, p: Seq<char>) -> Seq<char>
    decreases s.len(),
{
    if p.len() > 0 && starts_with(s, p) {
        strip_all(after(s, p), p)
    } else {
        s
    }
}

/// The characters of `s` before the first occurrence of `c` (all of `s` if none).
pub open spec fn before_char(s: Seq<char>, c: char) -> Seq<char>
    decreases s.len(),
{
    if s.len() == 0 {
        s
    } else if s[0] == c {
        Seq::empty()
    } else {
        seq![s[0]] + before_char(s.drop_first(), c)
    }
}

pub open spec fn contains_char(s: Seq<char>, c: char) -> bool {
    exists|i: int| 0 <= i < s.len() && s[i] == c
}

/// The first whitespace-separated word of `s`, if there is one.
pub open spec fn first_word(s: Seq<char>) -> Option<Seq<char>> {
    let t = trim_start(s);
    if t.len() == 0 {
        None
    } else {
        Some(word_prefix(t))
    }
}

pub open spec fn word_prefix(s: Seq<char>) -> Seq<char>
    decreases s.len(),
{
    if s.len() == 0 || is_space(s[0]) {
        Seq::empty()
    } else {
        seq![s[0]] + word_prefix(s.drop_first())
    }
}

pub open spec fn is_digit(c: char) -> bool {
    '0' <= c <= '9'
}

pub open spec fn digit_value(c: char) -> int {
    c as int - '0' as int
}

pub open spec fn all_digits(s: Seq<char>) -> bool {
    forall|i: int| 0 <= i < s.len() ==> is_digit(#[trigger] s[i])
}

/// The value of a string of decimal digits.
pub open spec fn digits_value(s: Seq<char>) -> int
    decreases s.len(),
{
    if s.len() == 0 {
        0
    } else {
        digits_value(s.drop_last()) * 10 + digit_value(s.last())
    }
}

/// An unsigned decimal integer, with an optional `+`, that fits in `u32`.
pub open spec fn parse_u32_spec(s: Seq<char>) -> Option<int> {
    let d = if s.len() > 0 && s[0] == '+' {
        s.drop_first()
    } else {
        s
    };
    if d.len() > 0 && all_digits(d) && digits_value(d) <= u32::MAX {
        Some(digits_value(d))
    } else {
        None
    }
}

/// The number of leading digits of `s`.
pub open spec fn digit_run(s: Seq<char>) -> nat
    decreases s.len(),
{
    if s.len() > 0 && is_digit(s[0]) {
        1 + digit_run(s.drop_first())
    } else {
        0
    }
}

/// A decimal number `[+-]digits[.digits]` (at least one digit in all),
/// rounded to the nearest integer, halves away from zero.
pub open spec fn decimal_rounded(s: Seq<char>) -> Option<int> {
    let neg = s.len() > 0 && s[0] == '-';
    let body = if s.len() > 0 && (s[0] == '-' || s[0] == '+') {
        s.drop_first()
    } else {
        s
    };
    let whole = body.take(digit_run(body) as int);
    let rest = body.skip(digit_run(body) as int);
    let frac = if rest.len() > 0 && rest[0] == '.' {
        rest.drop_first()
    } else {
        rest
    };
    let valid = (rest.len() == 0 || (rest[0] == '.' && all_digits(frac))) && whole.len()
        + frac.len() > 0;
    let up: int = if frac.len() > 0 && frac[0] >= '5' {
        1
    } else {
        0
    };
    let mag = digits_value(whole) + up;
    if !valid {
        None
    } else if neg {
        Some(-mag)
    } else {
        Some(mag)
    }
}

pub open spec fn clamp(v: int, lo: int, hi: int) -> int {
    if v < lo {
        lo
    } else if v > hi {
        hi
    } else {
        v
    }
}

pub fn is_space_char(c: char) -> (r: bool)
    ensures
        r == is_space(c),
{
    let u = c as u32;
    u == 0x20 || (0x09 <= u && u <= 0x0D) || u == 0x85 || u == 0xA0 || u == 0x1680 || (0x2000
        <= u && u <= 0x200A) || u == 0x2028 || u == 0x2029 || u == 0x202F || u == 0x205F || u
        == 0x3000
}

/// Relies on `str::chars`: the characters of `s`, in order.
#[verifier::external_body]
pub(crate) fn chars_of(s: &str) -> (r: Vec<char>)
    ensures
        r@ == s@,
{
    s.chars().collect()
}

/// Relies on collecting characters into a `String`: the same characters.
#[verifier::external_body]
pub(crate) fn string_of(v: &[char]) -> (r: String)
    ensures
        r@ == v@,
{
    v.iter().collect()
}


pub proof fn lemma_sub_drop_first(s: Seq<char>, a: int, b: int)
    requires
        0 <= a < b <= s.len(),
    ensures
        s.subrange(a, b).drop_first() == s.subrange(a + 1, b),
        s.subrange(a, b)[0] == s[a],
{
    assert(s.subrange(a, b).drop_first() =~= s.subrange(a + 1, b));
}

pub proof fn lemma_sub_drop_last(s: Seq<char>, a: int, b: int)
    requires
        0 <= a < b <= s.len(),
    ensures
        s.subrange(a, b).drop_last() == s.subrange(a, b - 1),
        s.subrange(a, b).last() == s[b - 1],
{
    assert(s.subrange(a, b).drop_last() =~= s.subrange(a, b - 1));
}

/// The bounds of `trim(v[lo..hi])` inside `v`.
pub fn trim_range(v: &Vec<char>, lo: usize, hi: usize) -> (r: (usize, usize))
    requires
        lo <= hi <= v.len(),
    ensures
        lo <= r.0 <= r.1 <= hi,
        v@.subrange(r.0 as int, r.1 as int) == trim(v@.subrange(lo as int, hi as int)),
{
    let mut a = lo;
    while a < hi && is_space_char(v[a])
        invariant
            lo <= a <= hi <= v.len(),
            trim_start(v@.subrange(lo as int, hi as int)) == trim_start(
                v@.subrange(a as int, hi as int),
            ),
        decreases hi - a,
    {
        proof {
            lemma_sub_drop_first(v@, a as int, hi as int);
        }
        a = a + 1;
    }
    let mut b = hi;
    while b > a && is_space_char(v[b - 1])
        invariant
            lo <= a <= b <= hi <= v.len(),
            trim_start(v@.subrange(lo as int, hi as int)) == v@.subrange(a as int, hi as int),
            trim_end(v@.subrange(a as int, hi as int)) == trim_end(v@.subrange(a as int, b as int)),
        decreases b - a,
    {
        proof {
            lemma_sub_drop_last(v@, a as int, b as int);
        }
        b = b - 1;
    }
    (a, b)
}

/// Whether `v[lo..hi]` starts with `p`.
pub fn starts_at(v: &Vec<char>, lo: usize, hi: usize, p: &Vec<char>) -> (r: bool)
    requires
        lo <= hi <= v.len(),
    ensures
        r == starts_with(v@.subrange(lo as int, hi as int), p@),
{
    if p.len() > hi - lo {
        return false;
    }
    let mut i: usize = 0;
    while i < p.len()
        invariant
            lo <= hi <= v.len(),
            p.len() <= hi - lo,
            i <= p.len(),
            forall|j: int| 0 <= j < i ==> v@[lo + j] == p@[j],
        decreases p.len() - i,
    {
        if v[lo + i] != p[i] {
            assert(v@.subrange(lo as int, hi as int).take(p.len() as int)[i as int] != p@[i as int]);
            return false;
        }
        i = i + 1;
    }
    assert(v@.subrange(lo as int, hi as int).take(p.len() as int) =~= p@);
    true
}

/// A copy of `v[lo..hi]`.
pub fn sub_vec(v: &Vec<char>, lo: usize, hi: usize) -> (r: Vec<char>)
    requires
        lo <= hi <= v.len(),
    ensures
        r@ == v@.subrange(lo as int, hi as int),
{
    let mut r: Vec<char> = Vec::new();
    let mut i = lo;
    while i < hi
        invariant
            lo <= i <= hi <= v.len(),
            r@ == v@.subrange(lo as int, i as int),
        decreases hi - i,
    {
        r.push(v[i]);
        proof {
            assert(r@ =~= v@.subrange(lo as int, i + 1));
        }
        i = i + 1;
    }
    r
}

/// The start of `strip_all(v[lo..hi], p)` inside `v`.
pub fn strip_all_range(v: &Vec<char>, lo: usize, hi: usize, p: &Vec<char>) -> (r: usize)
    requires
        lo <= hi <= v.len(),
    ensures
        lo <= r <= hi,
        v@.subrange(r as int, hi as int) == strip_all(v@.subrange(lo as int, hi as int), p@),
{
    let mut a = lo;
    while p.len() > 0 && starts_at(v, a, hi, p)
        invariant
            lo <= a <= hi <= v.len(),
            strip_all(v@.subrange(lo as int, hi as int), p@) == strip_all(
                v@.subrange(a as int, hi as int),
                p@,
            ),
        decreases hi - a,
    {
        assert(after(v@.subrange(a as int, hi as int), p@) =~= v@.subrange(a + p.len(), hi as int));
        a = a + p.len();
    }
    a
}

pub proof fn lemma_before_char(s: Seq<char>, c: char, k: int)
    requires
        0 <= k <= s.len(),
        forall|j: int| 0 <= j < k ==> s[j] != c,
        k == s.len() || s[k] == c,
    ensures
        before_char(s, c) == s.take(k),
    decreases s.len(),
{
    if s.len() == 0 {
        assert(s.take(k) =~= s);
    } else if k == 0 {
        assert(s.take(k) =~= Seq::<char>::empty());
    } else {
        lemma_before_char(s.drop_first(), c, k - 1);
        assert(s.take(k) =~= seq![s[0]] + s.drop_first().take(k - 1));
    }
}

/// The end of `before_char(v[lo..hi], c)` inside `v`.
pub fn before_char_end(v: &Vec<char>, lo: usize, hi: usize, c: char) -> (r: usize)
    requires
        lo <= hi <= v.len(),
    ensures
        lo <= r <= hi,
        v@.subrange(lo as int, r as int) == before_char(v@.subrange(lo as int, hi as int), c),
{
    let mut i = lo;
    while i < hi && v[i] != c
        invariant
            lo <= i <= hi <= v.len(),
            forall|j: int| lo <= j < i ==> v@[j] != c,
        decreases hi - i,
    {
        i = i + 1;
    }
    proof {
        let s = v@.subrange(lo as int, hi as int);
        lemma_before_char(s, c, i - lo);
        assert(s.take(i - lo) =~= v@.subrange(lo as int, i as int));
    }
    i
}

pub fn contains_char_vec(v: &Vec<char>, c: char) -> (r: bool)
    ensures
        r == contains_char(v@, c),
{
    let mut i: usize = 0;
    while i < v.len()
        invariant
            i <= v.len(),
            forall|j: int| 0 <= j < i ==> v@[j] != c,
        decreases v.len() - i,
    {
        if v[i] == c {
            return true;
        }
        i = i + 1;
    }
    false
}


/// Bound above which digit values are no longer tracked exactly.
pub const DIGITS_CAP: u64 = 0x100_0000_0000;

proof fn lemma_cap_step(a: int, d: int, c: int)
    requires
        a >= 0,
        0 <= d <= 9,
        c >= 0,
    ensures
        (if a < c { a } else { c }) * 10 + d >= c ==> (if a * 10 + d < c { a * 10 + d } else { c })
            == c,
        a >= c ==> a * 10 + d >= c,
{
    assert(a >= c ==> a * 10 + d >= c) by (nonlinear_arith)
        requires
            a >= 0,
            d >= 0,
            c >= 0,
    ;
}

proof fn lemma_digits_nonneg(s: Seq<char>)
    requires
        all_digits(s),
    ensures
        digits_value(s) >= 0,
    decreases s.len(),
{
    if s.len() > 0 {
        assert(all_digits(s.drop_last())) by {
            assert forall|i: int| 0 <= i < s.drop_last().len() implies is_digit(
                #[trigger] s.drop_last()[i],
            ) by {
                assert(s.drop_last()[i] == s[i]);
            }
        }
        lemma_digits_nonneg(s.drop_last());
        assert(is_digit(s[s.len() - 1]));
    }
}

/// The value of the digits `v[lo..hi]`, or `DIGITS_CAP` if it is at least that.
pub fn digits_capped(v: &Vec<char>, lo: usize, hi: usize) -> (r: u64)
    requires
        lo <= hi <= v.len(),
        all_digits(v@.subrange(lo as int, hi as int)),
    ensures
        r == clamp(digits_value(v@.subrange(lo as int, hi as int)), 0, DIGITS_CAP as int),
{
    let mut m: u64 = 0;
    let mut i = lo;
    while i < hi
        invariant
            lo <= i <= hi <= v.len(),
            all_digits(v@.subrange(lo as int, hi as int)),
            m == clamp(digits_value(v@.subrange(lo as int, i as int)), 0, DIGITS_CAP as int),
        decreases hi - i,
    {
        let ghost prev = v@.subrange(lo as int, i as int);
        let ghost cur = v@.subrange(lo as int, i + 1);
        proof {
            lemma_sub_drop_last(v@, lo as int, i + 1);
            assert(v@.subrange(lo as int, hi as int)[i - lo] == v@[i as int]);
            assert(is_digit(v@.subrange(lo as int, hi as int)[i - lo]));
            assert(all_digits(prev)) by {
                assert forall|j: int| 0 <= j < prev.len() implies is_digit(#[trigger] prev[j]) by {
                    assert(prev[j] == v@.subrange(lo as int, hi as int)[j]);
                }
            }
            lemma_digits_nonneg(prev);
            lemma_cap_step(digits_value(prev), digit_value(v@[i as int]), DIGITS_CAP as int);
        }
        let d = (v[i] as u32 - '0' as u32) as u64;
        let t = m * 10 + d;
        m = if t >= DIGITS_CAP {
            DIGITS_CAP
        } else {
            t
        };
        i = i + 1;
    }
    m
}

/// The end of the run of digits that starts at `lo`.
pub fn digit_run_end(v: &Vec<char>, lo: usize, hi: usize) -> (r: usize)
    requires
        lo <= hi <= v.len(),
    ensures
        lo <= r <= hi,
        r - lo == digit_run(v@.subrange(lo as int, hi as int)),
        all_digits(v@.subrange(lo as int, r as int)),
{
    let mut i = lo;
    while i < hi && '0' <= v[i] && v[i] <= '9'
        invariant
            lo <= i <= hi <= v.len(),
            forall|j: int| lo <= j < i ==> is_digit(#[trigger] v@[j]),
            digit_run(v@.subrange(lo as int, hi as int)) == (i - lo) + digit_run(
                v@.subrange(i as int, hi as int),
            ),
        decreases hi - i,
    {
        proof {
            lemma_sub_drop_first(v@, i as int, hi as int);
        }
        i = i + 1;
    }
    assert(all_digits(v@.subrange(lo as int, i as int))) by {
        assert forall|j: int| 0 <= j < i - lo implies is_digit(
            #[trigger] v@.subrange(lo as int, i as int)[j],
        ) by {
            assert(v@.subrange(lo as int, i as int)[j] == v@[lo + j]);
        }
    }
    i
}

/// Reads `v[lo..hi]` as an unsigned 32-bit decimal integer.
pub fn parse_u32_range(v: &Vec<char>, lo: usize, hi: usize) -> (r: Option<u32>)
    requires
        lo <= hi <= v.len(),
    ensures
        r matches Some(x) ==> parse_u32_spec(v@.subrange(lo as int, hi as int)) == Some(x as int),
        r is None ==> parse_u32_spec(v@.subrange(lo as int, hi as int)) is None,
{
    let ghost s = v@.subrange(lo as int, hi as int);
    let mut a = lo;
    if a < hi && v[a] == '+' {
        a = a + 1;
    }
    proof {
        if lo < hi && v@[lo as int] == '+' {
            lemma_sub_drop_first(v@, lo as int, hi as int);
        }
    }
    let e = digit_run_end(v, a, hi);
    if e != hi || a == hi {
        proof {
            let d = v@.subrange(a as int, hi as int);
            if e != hi {
                assert(!is_digit(d[e - a])) by {
                    if is_digit(d[e - a]) {
                        assert(d.skip(e - a).drop_first() =~= d.skip(e - a + 1));
                        lemma_run_bound(d, e - a);
                    }
                }
            }
        }
        return None;
    }
    assert(v@.subrange(a as int, e as int) == v@.subrange(a as int, hi as int));
    let m = digits_capped(v, a, hi);
    proof {
        lemma_digits_nonneg(v@.subrange(a as int, hi as int));
        if lo < hi && v@[lo as int] == '+' {
            assert(s.drop_first() == v@.subrange(a as int, hi as int));
        } else {
            assert(s == v@.subrange(a as int, hi as int));
        }
    }
    if m > u32::MAX as u64 {
        None
    } else {
        Some(m as u32)
    }
}

/// A run of digits cannot end on a digit.
proof fn lemma_run_bound(s: Seq<char>, k: int)
    requires
        0 <= k < s.len(),
        digit_run(s) == k,
    ensures
        !is_digit(s[k]),
    decreases s.len(),
{
    if k > 0 {
        lemma_run_bound(s.drop_first(), k - 1);
    }
}


/// `x` stands for `y`: equal, or both beyond `DIGITS_CAP` on the same side.
pub open spec fn capped_equal(x: int, y: int) -> bool {
    ||| x == y
    ||| (x >= DIGITS_CAP && y >= DIGITS_CAP)
    ||| (x <= -DIGITS_CAP && y <= -DIGITS_CAP)
}

pub proof fn lemma_capped_clamp(x: int, y: int, lo: int, hi: int)
    requires
        capped_equal(x, y),
        -DIGITS_CAP <= lo <= hi <= DIGITS_CAP,
    ensures
        clamp(x, lo, hi) == clamp(y, lo, hi),
{
}

/// Reads `v[lo..hi]` as a decimal number rounded to the nearest integer.
pub fn decimal_range(v: &Vec<char>, lo: usize, hi: usize) -> (r: Option<i64>)
    requires
        lo <= hi <= v.len(),
    ensures
        r is None <==> decimal_rounded(v@.subrange(lo as int, hi as int)) is None,
        r matches Some(x) ==> capped_equal(
            x as int,
            decimal_rounded(v@.subrange(lo as int, hi as int))->0,
        ),
{
    let ghost s = v@.subrange(lo as int, hi as int);
    let neg = lo < hi && v[lo] == '-';
    let mut a = lo;
    if lo < hi && (v[lo] == '-' || v[lo] == '+') {
        a = lo + 1;
        proof {
            lemma_sub_drop_first(v@, lo as int, hi as int);
        }
    }
    let ghost body = v@.subrange(a as int, hi as int);
    assert(body == if s.len() > 0 && (s[0] == '-' || s[0] == '+') {
        s.drop_first()
    } else {
        s
    });
    let e = digit_run_end(v, a, hi);
    assert(body.take(digit_run(body) as int) =~= v@.subrange(a as int, e as int));
    assert(body.skip(digit_run(body) as int) =~= v@.subrange(e as int, hi as int));
    let mut up = false;
    let mut frac_len: usize = 0;
    if e < hi {
        if v[e] != '.' {
            return None;
        }
        let f = digit_run_end(v, e + 1, hi);
        let ghost frac = v@.subrange(e + 1, hi as int);
        assert(v@.subrange(e as int, hi as int).drop_first() =~= frac);
        if f != hi {
            proof {
                lemma_run_bound(frac, f - (e + 1));
                assert(frac[f - (e + 1)] == v@[f as int]);
            }
            return None;
        }
        assert(frac =~= v@.subrange(e + 1, f as int));
        frac_len = hi - e - 1;
        up = frac_len > 0 && v[e + 1] >= '5';
        assert(frac_len > 0 ==> frac[0] == v@[e + 1]);
    }
    if (e - a) + frac_len == 0 {
        return None;
    }
    let w = digits_capped(v, a, e);
    proof {
        lemma_digits_nonneg(v@.subrange(a as int, e as int));
    }
    let m: u64 = if up {
        w + 1
    } else {
        w
    };
    if neg {
        Some(-(m as i64))
    } else {
        Some(m as i64)
    }
}


/// Lines of `s` so far, and the unfinished last line: splitting at `'\n'`.
pub open spec fn split_acc(s: Seq<char>) -> (Seq<Seq<char>>, Seq<char>)
    decreases s.len(),
{
    if s.len() == 0 {
        (Seq::empty(), Seq::empty())
    } else {
        let (done, cur) = split_acc(s.drop_last());
        if s.last() == '\n' {
            (done.push(cur), Seq::empty())
        } else {
            (done, cur.push(s.last()))
        }
    }
}

/// The lines of `s`, split at `'\n'`; the text after the last newline is the
/// last line (possibly empty).
pub open spec fn lines_of(s: Seq<char>) -> Seq<Seq<char>> {
    split_acc(s).0.push(split_acc(s).1)
}

/// Names what `str::to_uppercase` makes of a string.
pub uninterp spec fn upper_of(s: Seq<char>) -> Seq<char>;

/// Names what `str::to_lowercase` makes of a string.
pub uninterp spec fn lower_of(s: Seq<char>) -> Seq<char>;

/// Relies on `str::to_uppercase`: the result depends on the characters alone.
#[verifier::external_body]
pub(crate) fn to_upper(s: &str) -> (r: String)
    ensures
        r@ == upper_of(s@),
{
    s.to_uppercase()
}

/// Relies on `str::to_lowercase`: the result depends on the characters alone.
#[verifier::external_body]
pub(crate) fn to_lower(s: &str) -> (r: String)
    ensures
        r@ == lower_of(s@),
{
    s.to_lowercase()
}

proof fn lemma_word_prefix(s: Seq<char>, k: int)
    requires
        0 <= k <= s.len(),
        forall|j: int| 0 <= j < k ==> !is_space(#[trigger] s[j]),
        k == s.len() || is_space(s[k]),
    ensures
        word_prefix(s) == s.take(k),
    decreases s.len(),
{
    if s.len() == 0 {
        assert(s.take(k) =~= s);
    } else if k == 0 {
        assert(s.take(k) =~= Seq::<char>::empty());
    } else {
        assert forall|j: int| 0 <= j < k - 1 implies !is_space(#[trigger] s.drop_first()[j]) by {
            assert(s.drop_first()[j] == s[j + 1]);
        }
        lemma_word_prefix(s.drop_first(), k - 1);
        assert(s.take(k) =~= seq![s[0]] + s.drop_first().take(k - 1));
    }
}

/// The bounds of `first_word(v[lo..hi])` inside `v`.
pub fn first_word_range(v: &Vec<char>, lo: usize, hi: usize) -> (r: Option<(usize, usize)>)
    requires
        lo <= hi <= v.len(),
    ensures
        r is None <==> first_word(v@.subrange(lo as int, hi as int)) is None,
        r matches Some(p) ==> lo <= p.0 <= p.1 <= hi && first_word(
            v@.subrange(lo as int, hi as int),
        ) == Some(v@.subrange(p.0 as int, p.1 as int)),
{
    let mut a = lo;
    while a < hi && is_space_char(v[a])
        invariant
            lo <= a <= hi <= v.len(),
            trim_start(v@.subrange(lo as int, hi as int)) == trim_start(
                v@.subrange(a as int, hi as int),
            ),
        decreases hi - a,
    {
        proof {
            lemma_sub_drop_first(v@, a as int, hi as int);
        }
        a = a + 1;
    }
    if a == hi {
        return None;
    }
    let mut b = a;
    while b < hi && !is_space_char(v[b])
        invariant
            lo <= a <= b <= hi <= v.len(),
            forall|j: int| a <= j < b ==> !is_space(#[trigger] v@[j]),
        decreases hi - b,
    {
        b = b + 1;
    }
    proof {
        let t = v@.subrange(a as int, hi as int);
        assert forall|j: int| 0 <= j < b - a implies !is_space(#[trigger] t[j]) by {
            assert(t[j] == v@[a + j]);
        }
        lemma_word_prefix(t, b - a);
        assert(t.take(b - a) =~= v@.subrange(a as int, b as int));
    }
    Some((a, b))
}

/// The characters of `v[lo..hi]` as a `String`.
pub fn string_from_range(v: &Vec<char>, lo: usize, hi: usize) -> (r: String)
    requires
        lo <= hi <= v.len(),
    ensures
        r@ == v@.subrange(lo as int, hi as int),
{
    let sub = sub_vec(v, lo, hi);
    string_of(sub.as_slice())
}


pub open spec fn digit_char(d: int) -> char {
    if d == 0 {
        '0'
    } else if d == 1 {
        '1'
    } else if d == 2 {
        '2'
    } else if d == 3 {
        '3'
    } else if d == 4 {
        '4'
    } else if d == 5 {
        '5'
    } else if d == 6 {
        '6'
    } else if d == 7 {
        '7'
    } else if d == 8 {
        '8'
    } else {
        '9'
    }
}

/// Decimal digits of `n`, without leading zeros.
pub open spec fn dec_text(n: nat) -> Seq<char>
    decreases n,
{
    if n < 10 {
        seq![digit_char(n as int)]
    } else {
        dec_text(n / 10).push(digit_char((n % 10) as int))
    }
}

/// Decimal text of `n`, with a `-` when negative.
pub open spec fn signed_text(n: int) -> Seq<char> {
    if n < 0 {
        seq!['-'] + dec_text((-n) as nat)
    } else {
        dec_text(n as nat)
    }
}

fn digit_of(d: u64) -> (r: char)
    requires
        d < 10,
    ensures
        r == digit_char(d as int),
{
    if d == 0 {
        '0'
    } else if d == 1 {
        '1'
    } else if d == 2 {
        '2'
    } else if d == 3 {
        '3'
    } else if d == 4 {
        '4'
    } else if d == 5 {
        '5'
    } else if d == 6 {
        '6'
    } else if d == 7 {
        '7'
    } else if d == 8 {
        '8'
    } else {
        '9'
    }
}

/// Appends the decimal digits of `n`.
pub fn push_dec(v: &mut Vec<char>, n: u64)
    ensures
        final(v)@ == old(v)@ + dec_text(n as nat),
    decreases n,
{
    if n >= 10 {
        push_dec(v, n / 10);
    }
    let c = digit_of(n % 10);
    v.push(c);
    proof {
        if n >= 10 {
            assert(final(v)@ =~= old(v)@ + dec_text(n as nat));
        } else {
            assert(final(v)@ =~= old(v)@ + dec_text(n as nat));
        }
    }
}

/// Appends the decimal text of `n`.
pub fn push_signed(v: &mut Vec<char>, n: i64)
    ensures
        final(v)@ == old(v)@ + signed_text(n as int),
{
    if n < 0 {
        v.push('-');
        let m: u64 = (-(n as i128)) as u64;
        push_dec(v, m);
        assert(final(v)@ =~= old(v)@ + signed_text(n as int));
    } else {
        push_dec(v, n as u64);
    }
}

/// Appends the characters of `s`.
pub fn push_str(v: &mut Vec<char>, s: &str)
    ensures
        final(v)@ == old(v)@ + s@,
{
    let cs = chars_of(s);
    push_chars(v, &cs);
}

/// Appends the characters of `s`.
pub fn push_chars(v: &mut Vec<char>, s: &Vec<char>)
    ensures
        final(v)@ == old(v)@ + s@,
{
    let ghost v0 = v@;
    let mut i: usize = 0;
    while i < s.len()
        invariant
            i <= s.len(),
            v@ == v0 + s@.take(i as int),
        decreases s.len() - i,
    {
        v.push(s[i]);
        assert(v@ =~= v0 + s@.take(i + 1));
        i = i + 1;
    }
    assert(s@.take(s.len() as int) =~= s@);
}

/// Appends the characters of `s`.
pub fn push_string(v: &mut Vec<char>, s: &String)
    ensures
        final(v)@ == old(v)@ + s@,
{
    push_str(v, s.as_str());
}


/// `l` lies at `r` in `v`.
pub open spec fn line_at(v: Seq<char>, r: (usize, usize), l: Seq<char>) -> bool {
    r.0 <= r.1 <= v.len() && v.subrange(r.0 as int, r.1 as int) == l
}

/// Where each line of `v` lies: `lines_of(v@)[i] == v@[r[i].0..r[i].1]`.
pub fn line_ranges(v: &Vec<char>) -> (r: Vec<(usize, usize)>)
    ensures
        r@.len() == lines_of(v@).len(),
        forall|i: int| 0 <= i < r@.len() ==> line_at(v@, r@[i], #[trigger] lines_of(v@)[i]),
{
    let mut out: Vec<(usize, usize)> = Vec::new();
    let mut start: usize = 0;
    let mut i: usize = 0;
    let ghost mut done: Seq<Seq<char>> = Seq::empty();
    assert(v@.take(0) =~= Seq::<char>::empty());
    assert(v@.subrange(0, 0) =~= Seq::<char>::empty());
    while i < v.len()
        invariant
            start <= i <= v.len(),
            split_acc(v@.take(i as int)) == (done, v@.subrange(start as int, i as int)),
            out@.len() == done.len(),
            forall|k: int| 0 <= k < out@.len() ==> line_at(v@, out@[k], #[trigger] done[k]),
        decreases v.len() - i,
    {
        assert(v@.take(i + 1).drop_last() =~= v@.take(i as int));
        assert(v@.take(i + 1).last() == v@[i as int]);
        if v[i] == '\n' {
            let ghost old_out = out@;
            out.push((start, i));
            proof {
                let line = v@.subrange(start as int, i as int);
                assert forall|k: int| 0 <= k < out@.len() implies line_at(
                    v@,
                    out@[k],
                    #[trigger] done.push(line)[k],
                ) by {
                    if k < old_out.len() {
                        assert(out@[k] == old_out[k]);
                        assert(done.push(line)[k] == done[k]);
                    } else {
                        assert(out@[k] == (start, i));
                        assert(done.push(line)[k] == line);
                    }
                }
                done = done.push(line);
                assert(v@.subrange(i + 1, i + 1) =~= Seq::<char>::empty());
            }
            start = i + 1;
        } else {
            assert(v@.subrange(start as int, i as int).push(v@[i as int]) =~= v@.subrange(
                start as int,
                i + 1,
            ));
        }
        i = i + 1;
    }
    let ghost old_out = out@;
    out.push((start, v.len()));
    assert(v@.take(v.len() as int) =~= v@);
    let ghost last = v@.subrange(start as int, v.len() as int);
    assert(lines_of(v@) == done.push(last));
    assert forall|k: int| 0 <= k < out@.len() implies line_at(
        v@,
        out@[k],
        #[trigger] lines_of(v@)[k],
    ) by {
        if k < old_out.len() {
            assert(out@[k] == old_out[k]);
            assert(done.push(last)[k] == done[k]);
        } else {
            assert(out@[k] == (start, v.len()));
            assert(done.push(last)[k] == last);
        }
    }
    out
}

/// Whether `p` occurs in `s`.
pub open spec fn contains_seq(s: Seq<char>, p: Seq<char>) -> bool {
    exists|i: int| 0 <= i && i + p.len() <= s.len() && #[trigger] s.subrange(i, i + p.len()) == p
}

/// Whether `p` occurs in `v[lo..hi]`.
pub fn contains_at(v: &Vec<char>, lo: usize, hi: usize, p: &Vec<char>) -> (r: bool)
    requires
        lo <= hi <= v.len(),
    ensures
        r == contains_seq(v@.subrange(lo as int, hi as int), p@),
{
    let ghost s = v@.subrange(lo as int, hi as int);
    let mut i = lo;
    while p.len() <= hi - i
        invariant
            lo <= i <= hi <= v.len(),
            s == v@.subrange(lo as int, hi as int),
            forall|k: int|
                0 <= k < i - lo && k + p@.len() <= s.len() ==> #[trigger] s.subrange(
                    k,
                    k + p@.len(),
                ) != p@,
        decreases hi - i,
    {
        let ghost k = i - lo;
        assert(s.len() == hi - lo);
        assert(k + p@.len() <= s.len());
        assert(s.subrange(k, k + p@.len()) =~= v@.subrange(i as int, hi as int).take(
            p@.len() as int,
        ));
        if starts_at(v, i, hi, p) {
            assert(s.subrange(k, k + p@.len()) == p@);
            return true;
        }
        proof {
            if p@.len() == 0 {
                assert(v@.subrange(i as int, hi as int).take(0) =~= p@);
            }
        }
        i = i + 1;
    }
    false
}


/// An unsigned decimal integer, with an optional `+`, that fits in `u64`.
pub open spec fn parse_u64_spec(s: Seq<char>) -> Option<int> {
    let d = if s.len() > 0 && s[0] == '+' {
        s.drop_first()
    } else {
        s
    };
    if d.len() > 0 && all_digits(d) && digits_value(d) <= u64::MAX {
        Some(digits_value(d))
    } else {
        None
    }
}

/// Bound above which wide digit values are no longer tracked exactly.
pub const WIDE_CAP: u128 = 0x1_0000_0000_0000_0000_0000;

fn digits_capped_wide(v: &Vec<char>, lo: usize, hi: usize) -> (r: u128)
    requires
        lo <= hi <= v.len(),
        all_digits(v@.subrange(lo as int, hi as int)),
    ensures
        r == clamp(digits_value(v@.subrange(lo as int, hi as int)), 0, WIDE_CAP as int),
{
    let mut m: u128 = 0;
    let mut i = lo;
    while i < hi
        invariant
            lo <= i <= hi <= v.len(),
            all_digits(v@.subrange(lo as int, hi as int)),
            m == clamp(digits_value(v@.subrange(lo as int, i as int)), 0, WIDE_CAP as int),
        decreases hi - i,
    {
        let ghost prev = v@.subrange(lo as int, i as int);
        proof {
            lemma_sub_drop_last(v@, lo as int, i + 1);
            assert(v@.subrange(lo as int, hi as int)[i - lo] == v@[i as int]);
            assert(is_digit(v@.subrange(lo as int, hi as int)[i - lo]));
            assert(all_digits(prev)) by {
                assert forall|j: int| 0 <= j < prev.len() implies is_digit(#[trigger] prev[j]) by {
                    assert(prev[j] == v@.subrange(lo as int, hi as int)[j]);
                }
            }
            lemma_digits_nonneg(prev);
            lemma_cap_step(digits_value(prev), digit_value(v@[i as int]), WIDE_CAP as int);
        }
        let d = (v[i] as u32 - '0' as u32) as u128;
        let t = m * 10 + d;
        m = if t >= WIDE_CAP {
            WIDE_CAP
        } else {
            t
        };
        i = i + 1;
    }
    m
}

/// Reads `v[lo..hi]` as an unsigned 64-bit decimal integer.
pub fn parse_u64_range(v: &Vec<char>, lo: usize, hi: usize) -> (r: Option<u64>)
    requires
        lo <= hi <= v.len(),
    ensures
        r matches Some(x) ==> parse_u64_spec(v@.subrange(lo as int, hi as int)) == Some(x as int),
        r is None ==> parse_u64_spec(v@.subrange(lo as int, hi as int)) is None,
{
    let ghost s = v@.subrange(lo as int, hi as int);
    let mut a = lo;
    if a < hi && v[a] == '+' {
        a = a + 1;
    }
    proof {
        if lo < hi && v@[lo as int] == '+' {
            lemma_sub_drop_first(v@, lo as int, hi as int);
        }
    }
    let e = digit_run_end(v, a, hi);
    if e != hi || a == hi {
        proof {
            let d = v@.subrange(a as int, hi as int);
            if e != hi {
                assert(!is_digit(d[e - a])) by {
                    if is_digit(d[e - a]) {
                        lemma_run_bound(d, e - a);
                    }
                }
            }
        }
        return None;
    }
    assert(v@.subrange(a as int, e as int) == v@.subrange(a as int, hi as int));
    let m = digits_capped_wide(v, a, hi);
    proof {
        lemma_digits_nonneg(v@.subrange(a as int, hi as int));
        if lo < hi && v@[lo as int] == '+' {
            assert(s.drop_first() == v@.subrange(a as int, hi as int));
        } else {
            assert(s == v@.subrange(a as int, hi as int));
        }
    }
    if m > u64::MAX as u128 {
        None
    } else {
        Some(m as u64)
    }
}

} // verus!
