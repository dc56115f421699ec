//! Which readings the live list shows, and in what order.
use vstd::prelude::*;

use crate::models::{band_of, filter_admits, AccessPoint, FrequencyFilter, SortBy};
use crate::text::{chars_of, lower_of, to_lower};
use crate::ui::texts;

verus! {

/// `a` comes before `b` in code-point lexicographic order (the order of
/// `String`'s comparison).
pub open spec fn text_less(a: Seq<char>, b: Seq<char>) -> bool {
    exists|i: int|
        0 <= i <= a.len() && i <= b.len() && a.take(i) == b.take(i) && ((i == a.len() && i
            < b.len()) || (i < a.len() && i < b.len() && (a[i] as u32) < (b[i] as u32)))
}

/// `a` sorts strictly before `b` under `s`: stronger signal first, or
/// case-folded SSID ascending, or channel ascending.
pub open spec fn goes_before(a: AccessPoint, b: AccessPoint, s: SortBy) -> bool {
    match s {
        SortBy::Signal => a.signal_dbm > b.signal_dbm,
        SortBy::Ssid => text_less(lower_of(a.ssid@), lower_of(b.ssid@)),
        SortBy::Channel => a.channel < b.channel,
    }
}

/// Whether the list shows reading `a`.
pub open spec fn is_shown(a: AccessPoint, f: FrequencyFilter, excluded: Seq<Seq<char>>) -> bool {
    filter_admits(f, band_of(a.frequency_mhz as int)) && !excluded.contains(a.bssid@)
}

/// Indices below `k` of the readings shown, ascending.
pub open spec fn shown_upto(items: Seq<AccessPoint>, f: FrequencyFilter, excluded: Seq<Seq<char>>, k: int) -> Seq<usize>
    decreases k,
{
    if k <= 0 {
        Seq::empty()
    } else if is_shown(items[k - 1], f, excluded) {
        shown_upto(items, f, excluded, k - 1).push((k - 1) as usize)
    } else {
        shown_upto(items, f, excluded, k - 1)
    }
}

/// Each index of `r` comes before the next: its reading sorts first, or
/// the two tie and the index is lower (a stable order).
pub open spec fn in_order(items: Seq<AccessPoint>, r: Seq<usize>, s: SortBy) -> bool {
    forall|i: int|
        0 <= i < r.len() - 1 ==> {
            let a = items[#[trigger] r[i] as int];
            let b = items[r[i + 1] as int];
            goes_before(a, b, s) || (!goes_before(b, a, s) && r[i] < r[i + 1])
        }
}

pub(crate) fn text_less_exec(a: &Vec<char>, b: &Vec<char>) -> (r: bool)
    ensures
        r == text_less(a@, b@),
{
    let mut i: usize = 0;
    while i < a.len() && i < b.len() && a[i] == b[i]
        invariant
            i <= a.len(),
            i <= b.len(),
            a@.take(i as int) == b@.take(i as int),
        decreases a.len() - i,
    {
        assert(a@.take(i + 1) =~= a@.take(i as int).push(a@[i as int]));
        assert(b@.take(i + 1) =~= b@.take(i as int).push(b@[i as int]));
        i = i + 1;
    }
    let r = if i == a.len() {
        i < b.len()
    } else if i == b.len() {
        false
    } else {
        (a[i] as u32) < (b[i] as u32)
    };
    proof {
        if r {
            assert(0 <= i <= a@.len() && i <= b@.len() && a@.take(i as int) == b@.take(i as int));
        } else {
            assert forall|j: int|
                0 <= j <= a@.len() && j <= b@.len() && a@.take(j) == b@.take(j) implies !((j
                == a@.len() && j < b@.len()) || (j < a@.len() && j < b@.len() && (a@[j] as u32)
                < (b@[j] as u32))) by {
                if j < i {
                    assert(a@.take(i as int)[j] == a@[j]);
                    assert(b@.take(i as int)[j] == b@[j]);
                } else if j > i {
                    assert(a@.take(j)[i as int] == a@[i as int]);
                    assert(b@.take(j)[i as int] == b@[i as int]);
                }
            }
        }
    }
    r
}

/// Whether item `x` sorts strictly before item `y`.
fn sorts_before(items: &Vec<AccessPoint>, lowers: &Vec<Vec<char>>, x: usize, y: usize, s: SortBy) -> (r: bool)
    requires
        x < items.len(),
        y < items.len(),
        lowers@.len() == items@.len(),
        forall|i: int| 0 <= i < items@.len() ==> #[trigger] lowers@[i]@ == lower_of(items@[i].ssid@),
    ensures
        r == goes_before(items@[x as int], items@[y as int], s),
{
    match s {
        SortBy::Signal => items[x].signal_dbm > items[y].signal_dbm,
        SortBy::Ssid => {
            assert(lowers@[x as int]@ == lower_of(items@[x as int].ssid@));
            assert(lowers@[y as int]@ == lower_of(items@[y as int].ssid@));
            text_less_exec(&lowers[x], &lowers[y])
        },
        SortBy::Channel => items[x].channel < items[y].channel,
    }
}

fn contains_text(v: &Vec<String>, s: &String) -> (r: bool)
    ensures
        r == texts(v@).contains(s@),
{
    let mut i: usize = 0;
    while i < v.len()
        invariant
            i <= v.len(),
            forall|j: int| 0 <= j < i ==> texts(v@)[j] != s@,
        decreases v.len() - i,
    {
        if v[i] == *s {
            assert(texts(v@)[i as int] == s@);
            return true;
        }
        i = i + 1;
    }
    false
}

/// The indices of the readings the live list shows (in the band of
/// `filter`, not `excluded`), ordered by `sort_by`; ties keep their order.
pub fn filtered_sorted(
    items: &Vec<AccessPoint>,
    filter: FrequencyFilter,
    excluded: &Vec<String>,
    sort_by: SortBy,
) -> (r: Vec<usize>)
    ensures
        r@.len() == shown_upto(items@, filter, texts(excluded@), items@.len() as int).len(),
        r@.to_set() == shown_upto(items@, filter, texts(excluded@), items@.len() as int).to_set(),
        r@.no_duplicates(),
        in_order(items@, r@, sort_by),
{
    let ghost ex = texts(excluded@);
    let mut lowers: Vec<Vec<char>> = Vec::new();
    let mut i: usize = 0;
    while i < items.len()
        invariant
            i <= items.len(),
            lowers@.len() == i,
            forall|j: int| 0 <= j < i ==> #[trigger] lowers@[j]@ == lower_of(items@[j].ssid@),
        decreases items.len() - i,
    {
        let l = to_lower(items[i].ssid.as_str());
        lowers.push(chars_of(l.as_str()));
        i = i + 1;
    }
    let mut out: Vec<usize> = Vec::new();
    let mut k: usize = 0;
    assert(out@.to_set() =~= shown_upto(items@, filter, ex, 0).to_set());
    while k < items.len()
        invariant
            k <= items.len(),
            ex == texts(excluded@),
            lowers@.len() == items@.len(),
            forall|j: int| 0 <= j < items@.len() ==> #[trigger] lowers@[j]@ == lower_of(items@[j].ssid@),
            out@.len() == shown_upto(items@, filter, ex, k as int).len(),
            out@.to_set() == shown_upto(items@, filter, ex, k as int).to_set(),
            out@.no_duplicates(),
            forall|j: int| 0 <= j < out@.len() ==> #[trigger] out@[j] < k,
            in_order(items@, out@, sort_by),
        decreases items.len() - k,
    {
        let shown = filter.matches(items[k].band()) && !contains_text(excluded, &items[k].bssid);
        if shown {
            let mut p: usize = 0;
            while p < out.len() && !sorts_before(items, &lowers, k, out[p], sort_by)
                invariant
                    p <= out@.len(),
                    k < items@.len(),
                    lowers@.len() == items@.len(),
                    forall|j: int| 0 <= j < items@.len() ==> #[trigger] lowers@[j]@ == lower_of(items@[j].ssid@),
                    forall|j: int| 0 <= j < out@.len() ==> #[trigger] out@[j] < k,
                    forall|j: int| 0 <= j < p ==> !goes_before(items@[k as int], items@[#[trigger] out@[j] as int], sort_by),
                decreases out@.len() - p,
            {
                p = p + 1;
            }
            let ghost old_out = out@;
            out.insert(p, k);
            proof {
                let n = old_out.insert(p as int, k);
                assert(n == out@);
                assert forall|i: int| 0 <= i < n.len() - 1 implies {
                    let a = items@[#[trigger] n[i] as int];
                    let b = items@[n[i + 1] as int];
                    goes_before(a, b, sort_by) || (!goes_before(b, a, sort_by) && n[i] < n[i + 1])
                } by {
                    if i < p - 1 {
                        assert(n[i] == old_out[i] && n[i + 1] == old_out[i + 1]);
                        assert(items@[old_out[i] as int] == items@[old_out[i] as int]);
                    } else if i == p - 1 {
                        assert(n[i] == old_out[i] && n[i + 1] == k);
                        assert(old_out[i] < k);
                    } else if i == p {
                        assert(n[i] == k && n[i + 1] == old_out[i]);
                    } else {
                        assert(n[i] == old_out[i - 1] && n[i + 1] == old_out[i]);
                        assert(items@[old_out[i - 1] as int] == items@[old_out[i - 1] as int]);
                    }
                }
                assert forall|j: int| 0 <= j < n.len() implies #[trigger] n[j] < k + 1 by {
                    if j < p {
                        assert(n[j] == old_out[j]);
                    } else if j > p {
                        assert(n[j] == old_out[j - 1]);
                    }
                }
                assert(!old_out.contains(k)) by {
                    if old_out.contains(k) {
                        let j = choose|j: int| 0 <= j < old_out.len() && old_out[j] == k;
                        assert(old_out[j] < k);
                    }
                }
                assert(n.no_duplicates()) by {
                    assert forall|a: int, b: int| 0 <= a < n.len() && 0 <= b < n.len() && a != b implies n[a] != n[b] by {
                        let oa = if a < p { a } else { a - 1 };
                        let ob = if b < p { b } else { b - 1 };
                        if a != p && b != p {
                            assert(n[a] == old_out[oa] && n[b] == old_out[ob]);
                        } else if a == p {
                            assert(n[b] == old_out[ob]);
                        } else {
                            assert(n[a] == old_out[oa]);
                        }
                    }
                }
                assert forall|x: usize| n.to_set().contains(x) <==> old_out.to_set().insert(k).contains(x) by {
                    if n.contains(x) {
                        let j = choose|j: int| 0 <= j < n.len() && n[j] == x;
                        if j < p {
                            assert(old_out[j] == x);
                        } else if j > p {
                            assert(old_out[j - 1] == x);
                        }
                    }
                    if old_out.contains(x) {
                        let j = choose|j: int| 0 <= j < old_out.len() && old_out[j] == x;
                        if j < p {
                            assert(n[j] == x);
                        } else {
                            assert(n[j + 1] == x);
                        }
                    }
                    if x == k {
                        assert(n[p as int] == k);
                    }
                }
                assert(n.to_set() =~= old_out.to_set().insert(k));
                let sh = shown_upto(items@, filter, ex, k as int);
                assert(sh.push(k).to_set() =~= sh.to_set().insert(k)) by {
                    assert forall|x: usize| sh.push(k).to_set().contains(x) <==> sh.to_set().insert(k).contains(x) by {
                        if sh.push(k).contains(x) {
                            let j = choose|j: int| 0 <= j < sh.push(k).len() && sh.push(k)[j] == x;
                            if j < sh.len() {
                                assert(sh[j] == x);
                            }
                        }
                        if sh.contains(x) {
                            let j = choose|j: int| 0 <= j < sh.len() && sh[j] == x;
                            assert(sh.push(k)[j] == x);
                        }
                        if x == k {
                            assert(sh.push(k)[sh.len() as int] == k);
                        }
                    }
                }
            }
        } else {
            assert forall|j: int| 0 <= j < out@.len() implies #[trigger] out@[j] < k + 1 by {}
        }
        k = k + 1;
    }
    out
}

} // verus!
