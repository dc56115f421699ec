//! Stable orderings of lists by a key: the positions of a list's entries,
//! arranged so that each entry comes before the next.
use vstd::prelude::*;

use crate::listing::text_less;

verus! {

/// Each entry of `r` comes before the next under `before`, or the two tie
/// and the earlier position comes first (a stable order).
pub open spec fn ordered_by(r: Seq<usize>, before: spec_fn(usize, usize) -> bool) -> bool {
    forall|i: int|
        0 <= i < r.len() - 1 ==> before(#[trigger] r[i], r[i + 1]) || (!before(r[i + 1], r[i])
            && r[i] < r[i + 1])
}

/// `r` lists each of `0..n` once.
pub open spec fn is_arrangement(r: Seq<usize>, n: nat) -> bool {
    &&& r.len() == n
    &&& r.no_duplicates()
    &&& forall|j: int| 0 <= j < r.len() ==> #[trigger] r[j] < n
}

/// Inserting `k`, larger than every entry, before the first entry it
/// comes before keeps the list ordered and free of repeats.
pub proof fn lemma_insert_ordered(
    old_out: Seq<usize>,
    p: int,
    k: usize,
    before: spec_fn(usize, usize) -> bool,
)
    requires
        0 <= p <= old_out.len(),
        forall|j: int| 0 <= j < old_out.len() ==> #[trigger] old_out[j] < k,
        old_out.no_duplicates(),
        ordered_by(old_out, before),
        forall|j: int| 0 <= j < p ==> !before(k, #[trigger] old_out[j]),
        p < old_out.len() ==> before(k, old_out[p]),
    ensures
        ordered_by(old_out.insert(p, k), before),
        old_out.insert(p, k).no_duplicates(),
        forall|j: int| 0 <= j < old_out.insert(p, k).len() ==> #[trigger] old_out.insert(p, k)[j] < k + 1,
{
    let n = old_out.insert(p, k);
    assert forall|i: int| 0 <= i < n.len() - 1 implies before(#[trigger] n[i], n[i + 1]) || (!before(
        n[i + 1],
        n[i],
    ) && n[i] < n[i + 1]) by {
        if i < p - 1 {
            assert(n[i] == old_out[i] && n[i + 1] == old_out[i + 1]);
        } else if i == p - 1 {
            assert(n[i] == old_out[i] && n[i + 1] == k);
        } else if i == p {
            assert(n[i] == k && n[i + 1] == old_out[i]);
        } else {
            assert(n[i] == old_out[i - 1] && n[i + 1] == old_out[i]);
        }
    }
    assert forall|j: int| 0 <= j < n.len() implies #[trigger] n[j] < k + 1 by {
        if j < p {
            assert(n[j] == old_out[j]);
        } else if j > p {
            assert(n[j] == old_out[j - 1]);
        }
    }
    assert forall|a: int, b: int| 0 <= a < n.len() && 0 <= b < n.len() && a != b implies n[a] != n[b] by {
        let oa = if a < p {
            a
        } else {
            a - 1
        };
        let ob = if b < p {
            b
        } else {
            b - 1
        };
        if a != p && b != p {
            assert(n[a] == old_out[oa] && n[b] == old_out[ob]);
        } else if a == p {
            assert(n[b] == old_out[ob]);
        } else {
            assert(n[a] == old_out[oa]);
        }
    }
}

/// Names are ordered by their case-folded text.
pub open spec fn text_before(keys: Seq<Seq<char>>) -> spec_fn(usize, usize) -> bool {
    |a: usize, b: usize| text_less(keys[a as int], keys[b as int])
}

/// The positions of `keys`, in ascending text order; equal keys keep their order.
pub fn order_by_text(keys: &Vec<Vec<char>>) -> (r: Vec<usize>)
    ensures
        is_arrangement(r@, keys@.len()),
        ordered_by(r@, text_before(keys@.map_values(|k: Vec<char>| k@))),
{
    let ghost kv = keys@.map_values(|k: Vec<char>| k@);
    let ghost before = text_before(kv);
    let mut out: Vec<usize> = Vec::new();
    let mut k: usize = 0;
    while k < keys.len()
        invariant
            k <= keys.len(),
            kv == keys@.map_values(|k: Vec<char>| k@),
            before == text_before(kv),
            out@.len() == k,
            out@.no_duplicates(),
            forall|j: int| 0 <= j < out@.len() ==> #[trigger] out@[j] < k,
            ordered_by(out@, before),
        decreases keys.len() - k,
    {
        let mut p: usize = 0;
        while p < out.len() && !crate::listing::text_less_exec(&keys[k], &keys[out[p]])
            invariant
                p <= out@.len(),
                k < keys@.len(),
                kv == keys@.map_values(|k: Vec<char>| k@),
                before == text_before(kv),
                forall|j: int| 0 <= j < out@.len() ==> #[trigger] out@[j] < k,
                forall|j: int| 0 <= j < p ==> !before(k, #[trigger] out@[j]),
            decreases out@.len() - p,
        {
            assert(kv[out@[p as int] as int] == keys@[out@[p as int] as int]@);
            assert(kv[k as int] == keys@[k as int]@);
            p = p + 1;
        }
        proof {
            if p < out@.len() {
                assert(kv[out@[p as int] as int] == keys@[out@[p as int] as int]@);
                assert(kv[k as int] == keys@[k as int]@);
            }
            lemma_insert_ordered(out@, p as int, k, before);
        }
        out.insert(p, k);
        k = k + 1;
    }
    out
}

/// A later modification time comes first; entries without one come last.
pub open spec fn newer_first(keys: Seq<Option<u128>>) -> spec_fn(usize, usize) -> bool {
    |a: usize, b: usize|
        match (keys[a as int], keys[b as int]) {
            (Some(x), Some(y)) => x > y,
            (Some(_), None) => true,
            _ => false,
        }
}

fn is_newer(a: Option<u128>, b: Option<u128>) -> (r: bool)
    ensures
        r == match (a, b) {
            (Some(x), Some(y)) => x > y,
            (Some(_), None) => true,
            _ => false,
        },
{
    match (a, b) {
        (Some(x), Some(y)) => x > y,
        (Some(_), None) => true,
        _ => false,
    }
}

/// The positions of `keys`, newest first, those without a time last; equal
/// keys keep their order.
pub fn order_by_newest(keys: &Vec<Option<u128>>) -> (r: Vec<usize>)
    ensures
        is_arrangement(r@, keys@.len()),
        ordered_by(r@, newer_first(keys@)),
{
    let ghost before = newer_first(keys@);
    let mut out: Vec<usize> = Vec::new();
    let mut k: usize = 0;
    while k < keys.len()
        invariant
            k <= keys.len(),
            before == newer_first(keys@),
            out@.len() == k,
            out@.no_duplicates(),
            forall|j: int| 0 <= j < out@.len() ==> #[trigger] out@[j] < k,
            ordered_by(out@, before),
        decreases keys.len() - k,
    {
        let mut p: usize = 0;
        while p < out.len() && !is_newer(keys[k], keys[out[p]])
            invariant
                p <= out@.len(),
                k < keys@.len(),
                before == newer_first(keys@),
                forall|j: int| 0 <= j < out@.len() ==> #[trigger] out@[j] < k,
                forall|j: int| 0 <= j < p ==> !before(k, #[trigger] out@[j]),
            decreases out@.len() - p,
        {
            p = p + 1;
        }
        proof {
            lemma_insert_ordered(out@, p as int, k, before);
        }
        out.insert(p, k);
        k = k + 1;
    }
    out
}

} // verus!
