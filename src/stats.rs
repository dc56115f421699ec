//! Sums, extrema and averages of signal readings.
use vstd::prelude::*;

verus! {

pub open spec fn seq_sum(s: Seq<int>) -> int
    decreases s.len(),
{
    if s.len() == 0 {
        0
    } else {
        seq_sum(s.drop_last()) + s.last()
    }
}

pub open spec fn seq_min(s: Seq<int>) -> int
    decreases s.len(),
{
    if s.len() <= 1 {
        if s.len() == 1 {
            s[0]
        } else {
            0
        }
    } else {
        let m = seq_min(s.drop_last());
        if s.last() < m {
            s.last()
        } else {
            m
        }
    }
}

pub open spec fn seq_max(s: Seq<int>) -> int
    decreases s.len(),
{
    if s.len() <= 1 {
        if s.len() == 1 {
            s[0]
        } else {
            0
        }
    } else {
        let m = seq_max(s.drop_last());
        if s.last() > m {
            s.last()
        } else {
            m
        }
    }
}

/// `a / n` truncated toward zero.
pub open spec fn trunc_div(a: int, n: int) -> int {
    if a >= 0 {
        a / n
    } else {
        -((-a) / n)
    }
}

/// `a / n` rounded to the nearest integer, halves away from zero.
pub open spec fn round_div(a: int, n: int) -> int {
    if a >= 0 {
        (2 * a + n) / (2 * n)
    } else {
        -((-2 * a + n) / (2 * n))
    }
}

pub open spec fn i32_view(s: Seq<i32>) -> Seq<int> {
    s.map_values(|x: i32| x as int)
}

pub proof fn lemma_bounds(s: Seq<int>)
    requires
        s.len() > 0,
    ensures
        seq_min(s) * s.len() <= seq_sum(s) <= seq_max(s) * s.len(),
        forall|i: int| 0 <= i < s.len() ==> seq_min(s) <= #[trigger] s[i] <= seq_max(s),
        exists|i: int| 0 <= i < s.len() && s[i] == seq_min(s),
        exists|i: int| 0 <= i < s.len() && s[i] == seq_max(s),
    decreases s.len(),
{
    if s.len() == 1 {
        assert(s.drop_last().len() == 0);
        assert(seq_sum(s.drop_last()) == 0);
        assert(s.last() == s[0]);
        assert(seq_min(s) == s[0]);
        assert(seq_max(s) == s[0]);
    } else {
        let p = s.drop_last();
        lemma_bounds(p);
        let n = p.len();
        let mn = seq_min(p);
        let mx = seq_max(p);
        assert(seq_min(s) <= mn && seq_min(s) <= s.last());
        assert(seq_max(s) >= mx && seq_max(s) >= s.last());
        assert(seq_min(s) * n <= mn * n) by (nonlinear_arith)
            requires
                seq_min(s) <= mn,
                n >= 0,
        ;
        assert(mx * n <= seq_max(s) * n) by (nonlinear_arith)
            requires
                seq_max(s) >= mx,
                n >= 0,
        ;
        assert(seq_min(s) * (n + 1) == seq_min(s) * n + seq_min(s)) by (nonlinear_arith);
        assert(seq_max(s) * (n + 1) == seq_max(s) * n + seq_max(s)) by (nonlinear_arith);
        assert forall|i: int| 0 <= i < s.len() implies seq_min(s) <= #[trigger] s[i] <= seq_max(
            s,
        ) by {
            if i < n {
                assert(s[i] == p[i]);
            }
        }
        let ghost wmn = choose|i: int| 0 <= i < p.len() && p[i] == mn;
        let ghost wmx = choose|i: int| 0 <= i < p.len() && p[i] == mx;
        if s.last() < mn {
            assert(s[s.len() - 1] == seq_min(s));
        } else {
            assert(s[wmn] == p[wmn]);
        }
        if s.last() > mx {
            assert(s[s.len() - 1] == seq_max(s));
        } else {
            assert(s[wmx] == p[wmx]);
        }
    }
}

/// Sum, minimum and maximum of a non-empty list of readings.
pub fn sum_min_max(v: &Vec<i32>) -> (r: (i128, i32, i32))
    requires
        v.len() > 0,
    ensures
        r.0 == seq_sum(i32_view(v@)),
        r.1 == seq_min(i32_view(v@)),
        r.2 == seq_max(i32_view(v@)),
{
    let mut sum: i128 = v[0] as i128;
    let mut mn = v[0];
    let mut mx = v[0];
    let mut i: usize = 1;
    assert(i32_view(v@).take(1).drop_last() =~= Seq::<int>::empty());
    assert(i32_view(v@).take(1).last() == v@[0] as int);
    assert(seq_sum(Seq::<int>::empty()) == 0);
    while i < v.len()
        invariant
            1 <= i <= v.len(),
            sum == seq_sum(i32_view(v@).take(i as int)),
            mn == seq_min(i32_view(v@).take(i as int)),
            mx == seq_max(i32_view(v@).take(i as int)),
            -0x8000_0000 * i <= sum <= 0x7fff_ffff * i,
        decreases v.len() - i,
    {
        assert(i32_view(v@).take(i + 1).drop_last() =~= i32_view(v@).take(i as int));
        assert(i32_view(v@).take(i + 1).last() == v@[i as int] as int);
        sum = sum + v[i] as i128;
        if v[i] < mn {
            mn = v[i];
        }
        if v[i] > mx {
            mx = v[i];
        }
        i = i + 1;
    }
    assert(i32_view(v@).take(v.len() as int) =~= i32_view(v@));
    (sum, mn, mx)
}

/// `sum / n` truncated toward zero, for a sum of `n` readings between `lo` and `hi`.
pub fn trunc_avg(sum: i128, n: usize, lo: i32, hi: i32) -> (r: i32)
    requires
        n > 0,
        lo as int * n <= sum <= hi as int * n,
    ensures
        r == trunc_div(sum as int, n as int),
{
    proof {
        let ni = n as int;
        assert(-0x8000_0000 * 0x1_0000_0000_0000_0000 <= lo as int * ni) by (nonlinear_arith)
            requires
                lo >= -0x8000_0000,
                0 < ni <= 0x1_0000_0000_0000_0000,
        ;
        assert(hi as int * ni <= 0x8000_0000 * 0x1_0000_0000_0000_0000) by (nonlinear_arith)
            requires
                hi < 0x8000_0000,
                0 < ni <= 0x1_0000_0000_0000_0000,
        ;
    }
    let q: i128 = if sum >= 0 {
        sum / (n as i128)
    } else {
        -((-sum) / (n as i128))
    };
    proof {
        let ni = n as int;
        let s = sum as int;
        if s >= 0 {
            assert(s / ni <= hi) by (nonlinear_arith)
                requires
                    s <= hi * ni,
                    ni > 0,
                    s >= 0,
            ;
            assert(s / ni >= 0) by (nonlinear_arith)
                requires
                    ni > 0,
                    s >= 0,
            ;
        } else {
            assert((-s) / ni <= -lo) by (nonlinear_arith)
                requires
                    lo * ni <= s,
                    ni > 0,
                    s < 0,
            ;
            assert((-s) / ni >= 0) by (nonlinear_arith)
                requires
                    ni > 0,
                    s < 0,
            ;
        }
    }
    q as i32
}

/// `sum / n` rounded to the nearest integer (halves away from zero), for a
/// sum of `n` readings between `lo` and `hi`.
pub fn round_avg(sum: i128, n: usize, lo: i32, hi: i32) -> (r: i32)
    requires
        n > 0,
        lo as int * n <= sum <= hi as int * n,
    ensures
        r == round_div(sum as int, n as int),
{
    proof {
        let ni = n as int;
        assert(-0x8000_0000 * 0x1_0000_0000_0000_0000 <= lo as int * ni) by (nonlinear_arith)
            requires
                lo >= -0x8000_0000,
                0 < ni <= 0x1_0000_0000_0000_0000,
        ;
        assert(hi as int * ni <= 0x8000_0000 * 0x1_0000_0000_0000_0000) by (nonlinear_arith)
            requires
                hi < 0x8000_0000,
                0 < ni <= 0x1_0000_0000_0000_0000,
        ;
    }
    let n2: i128 = 2 * (n as i128);
    let q: i128 = if sum >= 0 {
        (2 * sum + (n as i128)) / n2
    } else {
        assert(sum >= -0x8000_0000 * 0x1_0000_0000_0000_0000);
        let m: i128 = -sum;
        -((2 * m + (n as i128)) / n2)
    };
    proof {
        let ni = n as int;
        let s = sum as int;
        if s >= 0 {
            assert((2 * s + ni) / (2 * ni) <= hi) by (nonlinear_arith)
                requires
                    s <= hi * ni,
                    ni > 0,
                    s >= 0,
            ;
            assert((2 * s + ni) / (2 * ni) >= 0) by (nonlinear_arith)
                requires
                    ni > 0,
                    s >= 0,
            ;
        } else {
            assert((-2 * s + ni) / (2 * ni) <= -lo) by (nonlinear_arith)
                requires
                    lo * ni <= s,
                    ni > 0,
                    s < 0,
            ;
            assert((-2 * s + ni) / (2 * ni) >= 0) by (nonlinear_arith)
                requires
                    ni > 0,
                    s < 0,
            ;
        }
    }
    q as i32
}

} // verus!
