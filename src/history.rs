//! The history aggregator: one access point's readings over time, cut to a
//! time window and reduced to one point per display column.
use vstd::prelude::*;

use crate::models::{dedup, pair_of, pairs_view, sightings, ApModel, Session, ScanResult};
use crate::stats::{i32_view, lemma_bounds, seq_sum, sum_min_max, trunc_avg, trunc_div};
use crate::time::{seconds_between, Timestamp};

verus! {

pub open spec fn history_view(v: Seq<(Timestamp, i32)>) -> Seq<(Timestamp, int)> {
    v.map_values(|p: (Timestamp, i32)| (p.0, p.1 as int))
}

/// `(scan time, signal)` of every reading of `bssid`, in scan order.
pub open spec fn ap_history(scans: Seq<ScanResult>, bssid: Seq<char>) -> Seq<(Timestamp, int)>
    decreases scans.len(),
{
    if scans.len() == 0 {
        Seq::empty()
    } else {
        ap_history(scans.drop_last(), bssid) + scan_history(scans.last(), bssid)
    }
}

pub open spec fn scan_history(s: ScanResult, bssid: Seq<char>) -> Seq<(Timestamp, int)> {
    readings_of(s.access_points@.map_values(|a: crate::models::AccessPoint| a@), bssid, s.timestamp)
}

pub open spec fn readings_of(aps: Seq<ApModel>, bssid: Seq<char>, t: Timestamp) -> Seq<(Timestamp, int)>
    decreases aps.len(),
{
    if aps.len() == 0 {
        Seq::empty()
    } else if aps.last().bssid == bssid {
        readings_of(aps.drop_last(), bssid, t).push((t, aps.last().signal_dbm))
    } else {
        readings_of(aps.drop_last(), bssid, t)
    }
}

/// Whether an instant falls in the window of the last `window_mins` minutes
/// before `now`; a window of 0 minutes is unbounded.
pub open spec fn in_window(t: Timestamp, window_mins: u64, now: Timestamp) -> bool {
    let start = now.secs - 60 * window_mins;
    window_mins == 0 || t.secs > start || (t.secs == start && t.nanos >= now.nanos)
}

pub open spec fn window_filter(data: Seq<(Timestamp, int)>, window_mins: u64, now: Timestamp) -> Seq<(Timestamp, int)>
    decreases data.len(),
{
    if data.len() == 0 {
        Seq::empty()
    } else if in_window(data.last().0, window_mins, now) {
        window_filter(data.drop_last(), window_mins, now).push(data.last())
    } else {
        window_filter(data.drop_last(), window_mins, now)
    }
}

/// The display column of an instant, on `n` columns spanning `start` to
/// `now`. A zero or negative span puts everything in the first column.
pub open spec fn column_of(t: Timestamp, start: Timestamp, now: Timestamp, n: int) -> int {
    let span = seconds_between(start, now);
    let last = if n - 1 > 1 {
        n - 1
    } else {
        1
    };
    let e = seconds_between(start, t);
    if span <= 0 || e <= 0 {
        0
    } else if e * last / span > last {
        last
    } else {
        e * last / span
    }
}

/// The signals of the readings that land in column `c`, in order.
pub open spec fn column_values(data: Seq<(Timestamp, int)>, start: Timestamp, now: Timestamp, n: int, c: int) -> Seq<int>
    decreases data.len(),
{
    if data.len() == 0 {
        Seq::empty()
    } else if column_of(data.last().0, start, now, n) == c {
        column_values(data.drop_last(), start, now, n, c).push(data.last().1)
    } else {
        column_values(data.drop_last(), start, now, n, c)
    }
}

/// One column's point: the mean (truncated) or the latest reading.
pub open spec fn reduce_column(vals: Seq<int>, average: bool) -> int {
    if average {
        trunc_div(seq_sum(vals), vals.len() as int)
    } else {
        vals.last()
    }
}

/// `(column, value)` for the non-empty columns among the first `k`.
pub open spec fn buckets_upto(data: Seq<(Timestamp, int)>, now: Timestamp, n: int, average: bool, k: int) -> Seq<(int, int)>
    decreases k,
{
    if k <= 0 || data.len() == 0 {
        Seq::empty()
    } else {
        let vals = column_values(data, data[0].0, now, n, k - 1);
        let pre = buckets_upto(data, now, n, average, k - 1);
        if vals.len() == 0 {
            pre
        } else {
            pre.push((k - 1, reduce_column(vals, average)))
        }
    }
}

/// The points of a graph `n` columns wide over `data`, the span running from
/// the first reading to `now`; empty columns are skipped.
pub open spec fn buckets(data: Seq<(Timestamp, int)>, now: Timestamp, n: int, average: bool) -> Seq<(int, int)> {
    buckets_upto(data, now, n, average, n)
}

/// When all readings share the first reading's instant and `now` is that
/// instant too (a zero span), every reading lands in the first column: one
/// bucket, with no division by the span.
pub proof fn lemma_zero_span_single_column(data: Seq<(Timestamp, int)>, now: Timestamp, n: int)
    requires
        data.len() > 0,
        seconds_between(data[0].0, now) <= 0,
    ensures
        forall|i: int| 0 <= i < data.len() ==> column_of(#[trigger] data[i].0, data[0].0, now, n) == 0,
        column_values(data, data[0].0, now, n, 0).len() == data.len(),
{
    lemma_all_in_column(data, data[0].0, now, n);
}

proof fn lemma_all_in_column(data: Seq<(Timestamp, int)>, start: Timestamp, now: Timestamp, n: int)
    requires
        seconds_between(start, now) <= 0,
    ensures
        column_values(data, start, now, n, 0).len() == data.len(),
    decreases data.len(),
{
    if data.len() > 0 {
        lemma_all_in_column(data.drop_last(), start, now, n);
    }
}

/// The readings of `data` inside the window of the last `window_mins` minutes
/// before `now` (all of them when `window_mins` is 0), in order.
pub fn windowed(data: &Vec<(Timestamp, i32)>, window_mins: u64, now: Timestamp) -> (r: Vec<(Timestamp, i32)>)
    ensures
        history_view(r@) == window_filter(history_view(data@), window_mins, now),
{
    let start: i128 = now.secs as i128 - 60 * (window_mins as i128);
    let mut out: Vec<(Timestamp, i32)> = Vec::new();
    let mut i: usize = 0;
    assert(history_view(data@).take(0) =~= Seq::<(Timestamp, int)>::empty());
    assert(history_view(out@) =~= Seq::<(Timestamp, int)>::empty());
    while i < data.len()
        invariant
            i <= data.len(),
            start == now.secs - 60 * window_mins,
            history_view(out@) == window_filter(history_view(data@).take(i as int), window_mins, now),
        decreases data.len() - i,
    {
        let (t, v) = data[i];
        assert(history_view(data@).take(i + 1).drop_last() =~= history_view(data@).take(i as int));
        assert(history_view(data@).take(i + 1).last() == (t, v as int));
        let keep = window_mins == 0 || (t.secs as i128) > start || ((t.secs as i128) == start
            && t.nanos >= now.nanos);
        if keep {
            let ghost old_out = out@;
            out.push((t, v));
            assert(history_view(out@) =~= history_view(old_out).push((t, v as int)));
        }
        i = i + 1;
    }
    assert(history_view(data@).take(data.len() as int) =~= history_view(data@));
    out
}

fn column_index(t: Timestamp, start: Timestamp, now: Timestamp, n: u16) -> (r: usize)
    requires
        n > 0,
    ensures
        r == column_of(t, start, now, n as int),
{
    let span = start.seconds_until(&now);
    let last: usize = if n - 1 > 1 {
        (n - 1) as usize
    } else {
        1
    };
    let e = start.seconds_until(&t);
    if span <= 0 || e <= 0 {
        return 0;
    }
    assert(span <= 0x4_0000_0000_0000_0000) by {
        lemma_seconds_bound(start, now);
    }
    assert(e <= 0x4_0000_0000_0000_0000) by {
        lemma_seconds_bound(start, t);
    }
    assert(e * (last as i128) <= 0x4_0000_0000_0000_0000 * 0x1_0000) by (nonlinear_arith)
        requires
            0 < e <= 0x4_0000_0000_0000_0000,
            0 < last <= 0x1_0000,
    ;
    let q: i128 = e * (last as i128) / span;
    if q > last as i128 {
        last
    } else {
        assert(q >= 0) by (nonlinear_arith)
            requires
                e > 0,
                last > 0,
                span > 0,
                q == (e as int * last as int) / (span as int),
        ;
        q as usize
    }
}

proof fn lemma_seconds_bound(a: Timestamp, b: Timestamp)
    ensures
        -0x4_0000_0000_0000_0000 <= seconds_between(a, b) <= 0x4_0000_0000_0000_0000,
{
    let d = crate::time::instant_nanos(b) - crate::time::instant_nanos(a);
    assert(-0x4_0000_0000_0000_0000 * 1_000_000_000 <= d <= 0x4_0000_0000_0000_0000 * 1_000_000_000) by (nonlinear_arith)
        requires
            d == (b.secs as int * 1_000_000_000 + b.nanos as int) - (a.secs as int * 1_000_000_000 + a.nanos as int),
            -0x8000_0000_0000_0000 <= a.secs < 0x8000_0000_0000_0000,
            -0x8000_0000_0000_0000 <= b.secs < 0x8000_0000_0000_0000,
            0 <= a.nanos < 0x1_0000_0000,
            0 <= b.nanos < 0x1_0000_0000,
    ;
    if d >= 0 {
        assert(d / 1_000_000_000 <= 0x4_0000_0000_0000_0000) by (nonlinear_arith)
            requires
                0 <= d <= 0x4_0000_0000_0000_0000 * 1_000_000_000,
        ;
    } else {
        assert((-d) / 1_000_000_000 <= 0x4_0000_0000_0000_0000) by (nonlinear_arith)
            requires
                0 < -d <= 0x4_0000_0000_0000_0000 * 1_000_000_000,
        ;
    }
}

/// The signals of the readings of `data` that land in column `c`.
fn column_signals(data: &Vec<(Timestamp, i32)>, start: Timestamp, now: Timestamp, n: u16, c: usize) -> (r: Vec<i32>)
    requires
        n > 0,
    ensures
        i32_view(r@) == column_values(history_view(data@), start, now, n as int, c as int),
{
    let mut out: Vec<i32> = Vec::new();
    let mut i: usize = 0;
    assert(history_view(data@).take(0) =~= Seq::<(Timestamp, int)>::empty());
    assert(i32_view(out@) =~= Seq::<int>::empty());
    while i < data.len()
        invariant
            i <= data.len(),
            n > 0,
            i32_view(out@) == column_values(history_view(data@).take(i as int), start, now, n as int, c as int),
        decreases data.len() - i,
    {
        let (t, v) = data[i];
        assert(history_view(data@).take(i + 1).drop_last() =~= history_view(data@).take(i as int));
        assert(history_view(data@).take(i + 1).last() == (t, v as int));
        if column_index(t, start, now, n) == c {
            let ghost old_out = out@;
            out.push(v);
            assert(i32_view(out@) =~= i32_view(old_out).push(v as int));
        }
        i = i + 1;
    }
    assert(history_view(data@).take(data.len() as int) =~= history_view(data@));
    out
}

pub open spec fn points_view(v: Seq<(usize, i32)>) -> Seq<(int, int)> {
    v.map_values(|p: (usize, i32)| (p.0 as int, p.1 as int))
}

/// Reduces readings to one point per column of a graph `columns` wide, the
/// span running from the first reading to `now`: the mean of each column's
/// readings (`average`), else its latest reading. Empty columns are skipped;
/// a zero span makes a single column.
pub fn bucketize(data: &Vec<(Timestamp, i32)>, now: Timestamp, columns: u16, average: bool) -> (r: Vec<(usize, i32)>)
    ensures
        points_view(r@) == buckets(history_view(data@), now, columns as int, average),
{
    let mut out: Vec<(usize, i32)> = Vec::new();
    if data.len() == 0 || columns == 0 {
        assert(points_view(out@) =~= buckets(history_view(data@), now, columns as int, average));
        return out;
    }
    let start = data[0].0;
    assert(history_view(data@)[0].0 == start);
    let mut c: usize = 0;
    assert(points_view(out@) =~= Seq::<(int, int)>::empty());
    while c < columns as usize
        invariant
            c <= columns,
            data@.len() > 0,
            start == history_view(data@)[0].0,
            points_view(out@) == buckets_upto(history_view(data@), now, columns as int, average, c as int),
        decreases columns as usize - c,
    {
        let vals = column_signals(data, start, now, columns, c);
        if vals.len() > 0 {
            let (sum, mn, mx) = sum_min_max(&vals);
            proof {
                lemma_bounds(i32_view(vals@));
            }
            let point = if average {
                trunc_avg(sum, vals.len(), mn, mx)
            } else {
                vals[vals.len() - 1]
            };
            let ghost old_out = out@;
            out.push((c, point));
            assert(points_view(out@) =~= points_view(old_out).push((c as int, point as int)));
        }
        c = c + 1;
    }
    out
}

/// History screen state: the session shown, the access point chosen, and
/// how its readings are drawn.
#[derive(Debug)]
pub struct HistoryState {
    pub session: Option<Session>,
    pub selected_ap_idx: usize,
    pub time_window_mins: u64,
    pub show_average: bool,
    pub scroll_offset: usize,
}

impl Default for HistoryState {
    fn default() -> (r: HistoryState)
        ensures
            r.session is None,
            r.selected_ap_idx == 0,
            r.time_window_mins == 5,
            !r.show_average,
            r.scroll_offset == 0,
    {
        HistoryState {
            session: None,
            selected_ap_idx: 0,
            time_window_mins: 5,
            show_average: false,
            scroll_offset: 0,
        }
    }
}

/// The window that follows `w` in the cycle 5, 10, 30, all (0) minutes.
pub open spec fn window_after(w: u64) -> u64 {
    if w == 5 {
        10
    } else if w == 10 {
        30
    } else if w == 30 {
        0
    } else {
        5
    }
}

/// The identities of a session for the history screen.
pub open spec fn session_identities(s: Session) -> Seq<(Seq<char>, Seq<char>)> {
    dedup(sightings(s.scans@).map_values(|a: ApModel| pair_of(a)))
}

impl HistoryState {
    pub fn select_next_ap(&mut self)
        ensures
            final(self).selected_ap_idx == match old(self).session {
                Some(s) => if session_identities(s).len() > 0 {
                    if old(self).selected_ap_idx + 1 < session_identities(s).len() {
                        old(self).selected_ap_idx + 1
                    } else {
                        session_identities(s).len() - 1
                    }
                } else {
                    old(self).selected_ap_idx as int
                },
                None => old(self).selected_ap_idx as int,
            },
            final(self).session == old(self).session,
            final(self).time_window_mins == old(self).time_window_mins,
            final(self).show_average == old(self).show_average,
    {
        if let Some(session) = &self.session {
            let n = session.unique_aps().len();
            if n > 0 {
                self.selected_ap_idx = if self.selected_ap_idx < n - 1 {
                    self.selected_ap_idx + 1
                } else {
                    n - 1
                };
            }
        }
    }

    pub fn select_prev_ap(&mut self)
        ensures
            final(self).selected_ap_idx == if old(self).selected_ap_idx > 0 {
                old(self).selected_ap_idx - 1
            } else {
                0
            },
            final(self).session == old(self).session,
            final(self).time_window_mins == old(self).time_window_mins,
            final(self).show_average == old(self).show_average,
    {
        self.selected_ap_idx = self.selected_ap_idx.saturating_sub(1);
    }

    pub fn cycle_time_window(&mut self)
        ensures
            final(self).time_window_mins == window_after(old(self).time_window_mins),
            final(self).session == old(self).session,
            final(self).selected_ap_idx == old(self).selected_ap_idx,
            final(self).show_average == old(self).show_average,
    {
        self.time_window_mins = if self.time_window_mins == 5 {
            10
        } else if self.time_window_mins == 10 {
            30
        } else if self.time_window_mins == 30 {
            0
        } else {
            5
        };
    }

    pub fn toggle_average(&mut self)
        ensures
            final(self).show_average == !old(self).show_average,
            final(self).session == old(self).session,
            final(self).selected_ap_idx == old(self).selected_ap_idx,
            final(self).time_window_mins == old(self).time_window_mins,
    {
        self.show_average = !self.show_average;
    }

    /// The identity under the cursor, if there is a session and the cursor is on one.
    pub fn get_selected_ap(&self) -> (r: Option<(String, String)>)
        ensures
            match self.session {
                Some(s) => match r {
                    Some(p) => self.selected_ap_idx < session_identities(s).len()
                        && session_identities(s)[self.selected_ap_idx as int] == (p.0@, p.1@),
                    None => self.selected_ap_idx >= session_identities(s).len(),
                },
                None => r is None,
            },
    {
        match &self.session {
            Some(s) => {
                let aps = s.unique_aps();
                if self.selected_ap_idx < aps.len() {
                    let p = &aps[self.selected_ap_idx];
                    assert(pairs_view(aps@)[self.selected_ap_idx as int] == (p.0@, p.1@));
                    Some((p.0.clone(), p.1.clone()))
                } else {
                    None
                }
            },
            None => None,
        }
    }

    /// `(scan time, signal)` of every reading of the chosen access point's
    /// BSSID, in scan order; empty without a session or a chosen access point.
    pub fn get_ap_data(&self) -> (r: Vec<(Timestamp, i32)>)
        ensures
            match self.session {
                Some(s) => if self.selected_ap_idx < session_identities(s).len() {
                    history_view(r@) == ap_history(s.scans@, session_identities(s)[self.selected_ap_idx as int].0)
                } else {
                    r@.len() == 0
                },
                None => r@.len() == 0,
            },
    {
        let session = match &self.session {
            Some(s) => s,
            None => return Vec::new(),
        };
        let (bssid, _) = match self.get_selected_ap() {
            Some(p) => p,
            None => return Vec::new(),
        };
        history_of(session, &bssid)
    }
}

/// `(scan time, signal)` of every reading of `bssid` in `session`, in scan order.
pub fn history_of(session: &Session, bssid: &String) -> (r: Vec<(Timestamp, i32)>)
    ensures
        history_view(r@) == ap_history(session.scans@, bssid@),
{
    let mut out: Vec<(Timestamp, i32)> = Vec::new();
    let mut i: usize = 0;
    assert(history_view(out@) =~= Seq::<(Timestamp, int)>::empty());
    assert(ap_history(session.scans@.take(0), bssid@) =~= Seq::<(Timestamp, int)>::empty());
    while i < session.scans.len()
        invariant
            i <= session.scans.len(),
            history_view(out@) == ap_history(session.scans@.take(i as int), bssid@),
        decreases session.scans.len() - i,
    {
        let scan = &session.scans[i];
        let ghost pre = history_view(out@);
        let ghost aps = scan.access_points@.map_values(|a: crate::models::AccessPoint| a@);
        let mut j: usize = 0;
        assert(pre + readings_of(aps.take(0), bssid@, scan.timestamp) =~= pre);
        while j < scan.access_points.len()
            invariant
                j <= scan.access_points.len(),
                aps == scan.access_points@.map_values(|a: crate::models::AccessPoint| a@),
                history_view(out@) == pre + readings_of(aps.take(j as int), bssid@, scan.timestamp),
            decreases scan.access_points.len() - j,
        {
            let ap = &scan.access_points[j];
            assert(aps.take(j + 1).drop_last() =~= aps.take(j as int));
            assert(aps.take(j + 1).last() == ap@);
            if ap.bssid == *bssid {
                let ghost old_out = out@;
                out.push((scan.timestamp, ap.signal_dbm));
                assert(history_view(out@) =~= history_view(old_out).push((scan.timestamp, ap.signal_dbm as int)));
                assert(pre + readings_of(aps.take(j + 1), bssid@, scan.timestamp) =~= (pre + readings_of(aps.take(j as int), bssid@, scan.timestamp)).push((scan.timestamp, ap.signal_dbm as int)));
            }
            j = j + 1;
        }
        assert(aps.take(scan.access_points.len() as int) =~= aps);
        assert(session.scans@.take(i + 1).drop_last() =~= session.scans@.take(i as int));
        i = i + 1;
    }
    assert(session.scans@.take(session.scans.len() as int) =~= session.scans@);
    out
}

} // verus!
