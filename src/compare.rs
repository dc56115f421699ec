//! The comparison engine: the same access point across several sessions,
//! reduced to one number per session, and which adapter saw most best.
use vstd::prelude::*;

use crate::models::{
    dedup, pair_of, pairs_view, sightings, scan_aps, AdapterModel, ApModel, CompareMetric,
    MatchBy, Session,
};
use crate::stats::{i32_view, lemma_bounds, seq_max, seq_min, seq_sum, sum_min_max, trunc_avg, trunc_div};
use crate::text::{dec_text, push_dec, push_str, push_string, string_of};

verus! {

/// Whether reading `ap` is the access point `(bssid, ssid)` under rule `m`.
pub open spec fn is_identity(ap: ApModel, bssid: Seq<char>, ssid: Seq<char>, m: MatchBy) -> bool {
    match m {
        MatchBy::Bssid => ap.bssid == bssid,
        MatchBy::Ssid => ap.ssid == ssid,
        MatchBy::Both => ap.bssid == bssid && ap.ssid == ssid,
    }
}

/// Whether two identities are the same under rule `m`.
pub open spec fn same_identity(
    p: (Seq<char>, Seq<char>),
    q: (Seq<char>, Seq<char>),
    m: MatchBy,
) -> bool {
    match m {
        MatchBy::Bssid => p.0 == q.0,
        MatchBy::Ssid => p.1 == q.1,
        MatchBy::Both => p == q,
    }
}

pub open spec fn has_identity(s: Seq<(Seq<char>, Seq<char>)>, p: (Seq<char>, Seq<char>), m: MatchBy) -> bool {
    exists|i: int| 0 <= i < s.len() && same_identity(#[trigger] s[i], p, m)
}

/// `s` with every identity after its first appearance dropped.
pub open spec fn dedup_by(s: Seq<(Seq<char>, Seq<char>)>, m: MatchBy) -> Seq<(Seq<char>, Seq<char>)>
    decreases s.len(),
{
    if s.len() == 0 {
        Seq::empty()
    } else {
        let d = dedup_by(s.drop_last(), m);
        if has_identity(d, s.last(), m) {
            d
        } else {
            d.push(s.last())
        }
    }
}

/// The distinct (bssid, ssid) pairs of each session, session after session.
pub open spec fn session_pairs(sessions: Seq<Session>) -> Seq<(Seq<char>, Seq<char>)>
    decreases sessions.len(),
{
    if sessions.len() == 0 {
        Seq::empty()
    } else {
        session_pairs(sessions.drop_last()) + dedup(
            sightings(sessions.last().scans@).map_values(|a: ApModel| pair_of(a)),
        )
    }
}

/// The identities of all sessions in first-seen order, one per identity under `m`.
pub open spec fn unique_identities(sessions: Seq<Session>, m: MatchBy) -> Seq<(Seq<char>, Seq<char>)> {
    dedup_by(session_pairs(sessions), m)
}

/// Signals of the readings in `s` of the identity `(bssid, ssid)`.
pub open spec fn identity_signals(s: Seq<ApModel>, bssid: Seq<char>, ssid: Seq<char>, m: MatchBy) -> Seq<int>
    decreases s.len(),
{
    if s.len() == 0 {
        Seq::empty()
    } else if is_identity(s.last(), bssid, ssid, m) {
        identity_signals(s.drop_last(), bssid, ssid, m).push(s.last().signal_dbm)
    } else {
        identity_signals(s.drop_last(), bssid, ssid, m)
    }
}

/// The metric over some readings; nothing when there are none.
pub open spec fn metric_value(sig: Seq<int>, metric: CompareMetric) -> Option<int> {
    if sig.len() == 0 {
        None
    } else {
        Some(
            match metric {
                CompareMetric::Avg => trunc_div(seq_sum(sig), sig.len() as int),
                CompareMetric::Min => seq_min(sig),
                CompareMetric::Max => seq_max(sig),
            },
        )
    }
}

/// The name a session goes by in comparisons: the adapter's label, else its interface.
pub open spec fn session_name(a: AdapterModel) -> Seq<char> {
    match a.label {
        Some(l) => l,
        None => a.interface,
    }
}

/// The value of the identity in one session.
pub open spec fn session_value(
    s: Session,
    bssid: Seq<char>,
    ssid: Seq<char>,
    m: MatchBy,
    metric: CompareMetric,
) -> Option<int> {
    metric_value(identity_signals(sightings(s.scans@), bssid, ssid, m), metric)
}

pub open spec fn rows_view(v: Seq<(String, Option<i32>)>) -> Seq<(Seq<char>, Option<int>)> {
    v.map_values(
        |r: (String, Option<i32>)|
            (
                r.0@,
                match r.1 {
                    Some(x) => Some(x as int),
                    None => None,
                },
            ),
    )
}

/// For an identity that no reading of a session matches, that session's
/// comparison value is absent: "no data", never a number such as zero.
pub proof fn lemma_absent_identity_has_no_value(
    s: Session,
    bssid: Seq<char>,
    ssid: Seq<char>,
    m: MatchBy,
    metric: CompareMetric,
)
    requires
        forall|j: int|
            0 <= j < sightings(s.scans@).len() ==> !is_identity(
                #[trigger] sightings(s.scans@)[j],
                bssid,
                ssid,
                m,
            ),
    ensures
        session_value(s, bssid, ssid, m, metric) is None,
{
    lemma_no_match_no_signals(sightings(s.scans@), bssid, ssid, m);
}

proof fn lemma_no_match_no_signals(s: Seq<ApModel>, bssid: Seq<char>, ssid: Seq<char>, m: MatchBy)
    requires
        forall|j: int| 0 <= j < s.len() ==> !is_identity(#[trigger] s[j], bssid, ssid, m),
    ensures
        identity_signals(s, bssid, ssid, m).len() == 0,
    decreases s.len(),
{
    if s.len() > 0 {
        let p = s.drop_last();
        assert forall|j: int| 0 <= j < p.len() implies !is_identity(#[trigger] p[j], bssid, ssid, m) by {
            assert(p[j] == s[j]);
        }
        lemma_no_match_no_signals(p, bssid, ssid, m);
        assert(!is_identity(s[s.len() - 1], bssid, ssid, m));
    }
}

/// Whether reading `ap` is the identity `(bssid, ssid)` under `m`.
pub fn ap_is_identity(ap: &crate::models::AccessPoint, bssid: &String, ssid: &String, m: MatchBy) -> (r: bool)
    ensures
        r == is_identity(ap@, bssid@, ssid@, m),
{
    match m {
        MatchBy::Bssid => ap.bssid == *bssid,
        MatchBy::Ssid => ap.ssid == *ssid,
        MatchBy::Both => ap.bssid == *bssid && ap.ssid == *ssid,
    }
}

proof fn lemma_sightings_step(scans: Seq<crate::models::ScanResult>, i: int, j: int)
    requires
        0 <= i < scans.len(),
        0 <= j < scans[i].access_points@.len(),
    ensures
        sightings(scans.take(i)) + scan_aps(scans[i]).take(j + 1) == (sightings(scans.take(i))
            + scan_aps(scans[i]).take(j)).push(scans[i].access_points@[j]@),
{
    assert(sightings(scans.take(i)) + scan_aps(scans[i]).take(j + 1) =~= (sightings(scans.take(i))
        + scan_aps(scans[i]).take(j)).push(scans[i].access_points@[j]@));
}

proof fn lemma_sightings_next(scans: Seq<crate::models::ScanResult>, i: int)
    requires
        0 <= i < scans.len(),
    ensures
        sightings(scans.take(i + 1)) == sightings(scans.take(i)) + scan_aps(scans[i]).take(
            scans[i].access_points@.len() as int,
        ),
{
    assert(scans.take(i + 1).drop_last() =~= scans.take(i));
    assert(scan_aps(scans[i]).take(scans[i].access_points@.len() as int) =~= scan_aps(scans[i]));
}

/// Signals of every reading of the identity in `session`, in order.
pub fn identity_signals_of(session: &Session, bssid: &String, ssid: &String, m: MatchBy) -> (r: Vec<i32>)
    ensures
        i32_view(r@) == identity_signals(sightings(session.scans@), bssid@, ssid@, m),
{
    let mut out: Vec<i32> = Vec::new();
    let mut i: usize = 0;
    assert(sightings(session.scans@.take(0)) =~= Seq::<ApModel>::empty());
    assert(i32_view(out@) =~= Seq::<int>::empty());
    while i < session.scans.len()
        invariant
            i <= session.scans.len(),
            i32_view(out@) == identity_signals(sightings(session.scans@.take(i as int)), bssid@, ssid@, m),
        decreases session.scans.len() - i,
    {
        let scan = &session.scans[i];
        let mut j: usize = 0;
        assert(sightings(session.scans@.take(i as int)) + scan_aps(*scan).take(0) =~= sightings(
            session.scans@.take(i as int),
        ));
        while j < scan.access_points.len()
            invariant
                i < session.scans.len(),
                *scan == session.scans@[i as int],
                j <= scan.access_points.len(),
                i32_view(out@) == identity_signals(
                    sightings(session.scans@.take(i as int)) + scan_aps(*scan).take(j as int),
                    bssid@,
                    ssid@,
                    m,
                ),
            decreases scan.access_points.len() - j,
        {
            let ap = &scan.access_points[j];
            proof {
                lemma_sightings_step(session.scans@, i as int, j as int);
                let before = sightings(session.scans@.take(i as int)) + scan_aps(*scan).take(j as int);
                assert(before.push(ap@).drop_last() =~= before);
            }
            if ap_is_identity(ap, bssid, ssid, m) {
                let ghost old_out = out@;
                out.push(ap.signal_dbm);
                assert(i32_view(out@) =~= i32_view(old_out).push(ap.signal_dbm as int));
            }
            j = j + 1;
        }
        proof {
            lemma_sightings_next(session.scans@, i as int);
        }
        i = i + 1;
    }
    assert(session.scans@.take(session.scans.len() as int) =~= session.scans@);
    out
}

/// The value of the identity in `session` under `metric`; `None` when the
/// session has no reading of it.
pub fn session_metric(
    session: &Session,
    bssid: &String,
    ssid: &String,
    m: MatchBy,
    metric: CompareMetric,
) -> (r: Option<i32>)
    ensures
        match r {
            Some(x) => session_value(*session, bssid@, ssid@, m, metric) == Some(x as int),
            None => session_value(*session, bssid@, ssid@, m, metric) is None,
        },
{
    let sig = identity_signals_of(session, bssid, ssid, m);
    if sig.len() == 0 {
        return None;
    }
    let (sum, mn, mx) = sum_min_max(&sig);
    proof {
        lemma_bounds(i32_view(sig@));
    }
    match metric {
        CompareMetric::Avg => Some(trunc_avg(sum, sig.len(), mn, mx)),
        CompareMetric::Min => Some(mn),
        CompareMetric::Max => Some(mx),
    }
}

/// Compare screen state: the sessions loaded for comparison, the cursor, and
/// the chosen match rule and metric.
#[derive(Debug)]
pub struct CompareState {
    pub sessions: Vec<Session>,
    pub selected_session_idx: usize,
    pub session_list_offset: usize,
    pub selected_ap_idx: usize,
    pub match_by: MatchBy,
    pub metric: CompareMetric,
}

impl Default for CompareState {
    fn default() -> (r: CompareState)
        ensures
            r.sessions@.len() == 0,
            r.selected_session_idx == 0,
            r.session_list_offset == 0,
            r.selected_ap_idx == 0,
            r.match_by == MatchBy::Bssid,
            r.metric == CompareMetric::Avg,
    {
        CompareState {
            sessions: Vec::new(),
            selected_session_idx: 0,
            session_list_offset: 0,
            selected_ap_idx: 0,
            match_by: MatchBy::Bssid,
            metric: CompareMetric::Avg,
        }
    }
}

/// Whether `out` already holds an identity equal to `(b, s)` under `m`.
fn has_identity_exec(out: &Vec<(String, String)>, b: &String, s: &String, m: MatchBy) -> (r: bool)
    ensures
        r == has_identity(pairs_view(out@), (b@, s@), m),
{
    let mut i: usize = 0;
    while i < out.len()
        invariant
            i <= out.len(),
            forall|j: int| 0 <= j < i ==> !same_identity(#[trigger] pairs_view(out@)[j], (b@, s@), m),
        decreases out.len() - i,
    {
        let hit = match m {
            MatchBy::Bssid => out[i].0 == *b,
            MatchBy::Ssid => out[i].1 == *s,
            MatchBy::Both => out[i].0 == *b && out[i].1 == *s,
        };
        assert(pairs_view(out@)[i as int] == (out@[i as int].0@, out@[i as int].1@));
        if hit {
            return true;
        }
        i = i + 1;
    }
    false
}

impl CompareState {
    pub fn add_session(&mut self, session: Session)
        ensures
            final(self).sessions@ == old(self).sessions@.push(session),
            final(self).selected_session_idx == old(self).selected_session_idx,
            final(self).session_list_offset == old(self).session_list_offset,
            final(self).selected_ap_idx == old(self).selected_ap_idx,
            final(self).match_by == old(self).match_by,
            final(self).metric == old(self).metric,
    {
        self.sessions.push(session);
    }

    pub fn cycle_match(&mut self)
        ensures
            final(self).match_by == crate::models::match_after(old(self).match_by),
            final(self).sessions@ == old(self).sessions@,
            final(self).metric == old(self).metric,
    {
        self.match_by = self.match_by.next();
    }

    pub fn cycle_metric(&mut self)
        ensures
            final(self).metric == crate::models::metric_after(old(self).metric),
            final(self).sessions@ == old(self).sessions@,
            final(self).match_by == old(self).match_by,
    {
        self.metric = self.metric.next();
    }

    /// Every identity seen across the loaded sessions, first-seen order,
    /// one per identity under the current match rule.
    pub fn all_aps(&self) -> (r: Vec<(String, String)>)
        ensures
            pairs_view(r@) == unique_identities(self.sessions@, self.match_by),
    {
        let mut out: Vec<(String, String)> = Vec::new();
        let mut i: usize = 0;
        assert(session_pairs(self.sessions@.take(0)) =~= Seq::<(Seq<char>, Seq<char>)>::empty());
        assert(pairs_view(out@) =~= Seq::<(Seq<char>, Seq<char>)>::empty());
        while i < self.sessions.len()
            invariant
                i <= self.sessions.len(),
                pairs_view(out@) == dedup_by(session_pairs(self.sessions@.take(i as int)), self.match_by),
            decreases self.sessions.len() - i,
        {
            let pairs = self.sessions[i].unique_aps();
            let ghost pre = session_pairs(self.sessions@.take(i as int));
            let mut j: usize = 0;
            assert(pre + pairs_view(pairs@).take(0) =~= pre);
            while j < pairs.len()
                invariant
                    j <= pairs.len(),
                    pairs_view(out@) == dedup_by(pre + pairs_view(pairs@).take(j as int), self.match_by),
                decreases pairs.len() - j,
            {
                let ghost cur = pre + pairs_view(pairs@).take(j as int);
                assert((pre + pairs_view(pairs@).take(j + 1)).drop_last() =~= cur);
                assert((pre + pairs_view(pairs@).take(j + 1)).last() == pairs_view(pairs@)[j as int]);
                if !has_identity_exec(&out, &pairs[j].0, &pairs[j].1, self.match_by) {
                    let ghost old_out = out@;
                    out.push((pairs[j].0.clone(), pairs[j].1.clone()));
                    assert(pairs_view(out@) =~= pairs_view(old_out).push(pairs_view(pairs@)[j as int]));
                }
                j = j + 1;
            }
            proof {
                assert(self.sessions@.take(i + 1).drop_last() =~= self.sessions@.take(i as int));
                assert(pairs_view(pairs@).take(pairs@.len() as int) =~= pairs_view(pairs@));
            }
            i = i + 1;
        }
        assert(self.sessions@.take(self.sessions.len() as int) =~= self.sessions@);
        out
    }

    /// The identity under the cursor, if the cursor is on one.
    pub fn get_selected_ap(&self) -> (r: Option<(String, String)>)
        ensures
            ({
                let ids = unique_identities(self.sessions@, self.match_by);
                match r {
                    Some(p) => self.selected_ap_idx < ids.len() && ids[self.selected_ap_idx as int]
                        == (p.0@, p.1@),
                    None => self.selected_ap_idx >= ids.len(),
                }
            }),
    {
        let aps = self.all_aps();
        if self.selected_ap_idx < aps.len() {
            let p = &aps[self.selected_ap_idx];
            assert(pairs_view(aps@)[self.selected_ap_idx as int] == (p.0@, p.1@));
            Some((p.0.clone(), p.1.clone()))
        } else {
            None
        }
    }

    /// One row per session for the identity `(bssid, ssid)`: the session's
    /// name and its value under the current rule and metric, absent when the
    /// session never saw it.
    pub fn comparison_row(&self, bssid: &String, ssid: &String) -> (r: Vec<(String, Option<i32>)>)
        ensures
            rows_view(r@) == self.sessions@.map_values(
                |s: Session|
                    (
                        session_name(s.adapter@),
                        session_value(s, bssid@, ssid@, self.match_by, self.metric),
                    ),
            ),
    {
        let mut out: Vec<(String, Option<i32>)> = Vec::new();
        let mut i: usize = 0;
        while i < self.sessions.len()
            invariant
                i <= self.sessions.len(),
                rows_view(out@) == self.sessions@.take(i as int).map_values(
                    |s: Session|
                        (
                            session_name(s.adapter@),
                            session_value(s, bssid@, ssid@, self.match_by, self.metric),
                        ),
                ),
            decreases self.sessions.len() - i,
        {
            let s = &self.sessions[i];
            let name = match &s.adapter.label {
                Some(l) => l.clone(),
                None => s.adapter.interface.clone(),
            };
            let v = session_metric(s, bssid, ssid, self.match_by, self.metric);
            let ghost old_out = out@;
            let ghost f = |s: Session|
                (
                    session_name(s.adapter@),
                    session_value(s, bssid@, ssid@, self.match_by, self.metric),
                );
            let ghost vv: Option<int> = match v {
                Some(x) => Some(x as int),
                None => None,
            };
            assert(name@ == session_name(self.sessions@[i as int].adapter@));
            assert(vv == session_value(self.sessions@[i as int], bssid@, ssid@, self.match_by, self.metric));
            out.push((name, v));
            assert(rows_view(out@) =~= rows_view(old_out).push((name@, vv)));
            assert(self.sessions@.take(i + 1).map_values(f) =~= self.sessions@.take(i as int).map_values(f).push(f(self.sessions@[i as int])));
            assert(rows_view(out@) =~= self.sessions@.take(i + 1).map_values(
                |s: Session|
                    (
                        session_name(s.adapter@),
                        session_value(s, bssid@, ssid@, self.match_by, self.metric),
                    ),
            ));
            i = i + 1;
        }
        assert(self.sessions@.take(self.sessions.len() as int) =~= self.sessions@);
        out
    }

    /// The comparison rows for the identity under the cursor; empty when the
    /// cursor is on none.
    pub fn get_comparison_data(&self) -> (r: Vec<(String, Option<i32>)>)
        ensures
            ({
                let ids = unique_identities(self.sessions@, self.match_by);
                if self.selected_ap_idx < ids.len() {
                    let id = ids[self.selected_ap_idx as int];
                    rows_view(r@) == self.sessions@.map_values(
                        |s: Session|
                            (
                                session_name(s.adapter@),
                                session_value(s, id.0, id.1, self.match_by, self.metric),
                            ),
                    )
                } else {
                    r@.len() == 0
                }
            }),
    {
        match self.get_selected_ap() {
            Some((b, s)) => self.comparison_row(&b, &s),
            None => Vec::new(),
        }
    }
}


/// Among the first sessions, the strongest single reading of the identity
/// and the session it came from; the first session to reach the strongest
/// value keeps it. `None` when none of them saw the identity.
pub open spec fn winner_fold(sessions: Seq<Session>, id: (Seq<char>, Seq<char>), m: MatchBy) -> Option<(int, int)>
    decreases sessions.len(),
{
    if sessions.len() == 0 {
        None
    } else {
        let prev = winner_fold(sessions.drop_last(), id, m);
        match session_value(sessions.last(), id.0, id.1, m, CompareMetric::Max) {
            Some(x) => match prev {
                Some((b, w)) => if x > b {
                    Some((x, sessions.len() - 1))
                } else {
                    prev
                },
                None => Some((x, sessions.len() - 1)),
            },
            None => prev,
        }
    }
}

/// The session that wins the identity, if any session saw it.
pub open spec fn winner(sessions: Seq<Session>, id: (Seq<char>, Seq<char>), m: MatchBy) -> Option<int> {
    match winner_fold(sessions, id, m) {
        Some((_, w)) => Some(w),
        None => None,
    }
}

/// How many of `ids` session `k` wins.
pub open spec fn win_count(sessions: Seq<Session>, ids: Seq<(Seq<char>, Seq<char>)>, m: MatchBy, k: int) -> nat
    decreases ids.len(),
{
    if ids.len() == 0 {
        0
    } else {
        win_count(sessions, ids.drop_last(), m, k) + if winner(sessions, ids.last(), m) == Some(k) {
            1nat
        } else {
            0nat
        }
    }
}

/// The first index holding the largest value.
pub open spec fn first_max(w: Seq<int>) -> int
    decreases w.len(),
{
    if w.len() <= 1 {
        0
    } else {
        let i = first_max(w.drop_last());
        if w.last() > w[i] {
            w.len() - 1
        } else {
            i
        }
    }
}

pub open spec fn tallies(sessions: Seq<Session>, m: MatchBy) -> Seq<int> {
    Seq::new(
        sessions.len(),
        |k: int| win_count(sessions, unique_identities(sessions, m), m, k) as int,
    )
}

proof fn lemma_first_max_bound(w: Seq<int>)
    requires
        w.len() > 0,
    ensures
        0 <= first_max(w) < w.len(),
    decreases w.len(),
{
    if w.len() > 1 {
        lemma_first_max_bound(w.drop_last());
    }
}

proof fn lemma_win_count_bound(sessions: Seq<Session>, ids: Seq<(Seq<char>, Seq<char>)>, m: MatchBy, k: int)
    ensures
        win_count(sessions, ids, m, k) <= ids.len(),
    decreases ids.len(),
{
    if ids.len() > 0 {
        lemma_win_count_bound(sessions, ids.drop_last(), m, k);
    }
}

impl CompareState {
    /// Index of the session with the strongest single reading of `(bssid, ssid)`.
    fn winner_of(&self, bssid: &String, ssid: &String) -> (r: Option<usize>)
        ensures
            match r {
                Some(k) => winner(self.sessions@, (bssid@, ssid@), self.match_by) == Some(k as int),
                None => winner(self.sessions@, (bssid@, ssid@), self.match_by) is None,
            },
    {
        let mut best: Option<(i32, usize)> = None;
        let mut k: usize = 0;
        while k < self.sessions.len()
            invariant
                k <= self.sessions.len(),
                winner_fold(self.sessions@.take(k as int), (bssid@, ssid@), self.match_by) == match best {
                    Some((b, j)) => Some((b as int, j as int)),
                    None => None::<(int, int)>,
                },
            decreases self.sessions.len() - k,
        {
            assert(self.sessions@.take(k + 1).drop_last() =~= self.sessions@.take(k as int));
            assert(self.sessions@.take(k + 1).last() == self.sessions@[k as int]);
            let v = session_metric(&self.sessions[k], bssid, ssid, self.match_by, CompareMetric::Max);
            if let Some(x) = v {
                match best {
                    Some((b, _)) => {
                        if x > b {
                            best = Some((x, k));
                        }
                    },
                    None => {
                        best = Some((x, k));
                    },
                }
            }
            k = k + 1;
        }
        let idx = match best {
            Some((_, j)) => Some(j),
            None => None,
        };
        assert(self.sessions@.take(self.sessions.len() as int) =~= self.sessions@);
        idx
    }

    /// Wins per session: for every identity, the session with the strongest
    /// single reading of it scores one.
    pub fn win_tallies(&self) -> (r: Vec<usize>)
        ensures
            r@.len() == self.sessions@.len(),
            forall|k: int| 0 <= k < r@.len() ==> r@[k] == tallies(self.sessions@, self.match_by)[k],
    {
        let ids = self.all_aps();
        let ghost idv = unique_identities(self.sessions@, self.match_by);
        let mut wins: Vec<usize> = Vec::new();
        let mut z: usize = 0;
        while z < self.sessions.len()
            invariant
                z <= self.sessions.len(),
                wins@.len() == z,
                forall|k: int| 0 <= k < z ==> wins@[k] == 0,
            decreases self.sessions.len() - z,
        {
            wins.push(0);
            z = z + 1;
        }
        let mut i: usize = 0;
        assert(idv.take(0) =~= Seq::<(Seq<char>, Seq<char>)>::empty());
        while i < ids.len()
            invariant
                i <= ids.len(),
                pairs_view(ids@) == idv,
                idv == unique_identities(self.sessions@, self.match_by),
                wins@.len() == self.sessions@.len(),
                forall|k: int| 0 <= k < wins@.len() ==> #[trigger] wins@[k] == win_count(self.sessions@, idv.take(i as int), self.match_by, k),
            decreases ids.len() - i,
        {
            assert(idv.take(i + 1).drop_last() =~= idv.take(i as int));
            assert(idv.take(i + 1).last() == idv[i as int]);
            assert(idv[i as int] == (ids@[i as int].0@, ids@[i as int].1@));
            let w = self.winner_of(&ids[i].0, &ids[i].1);
            if let Some(k) = w {
                proof {
                    let ks = k as int;
                    assert(0 <= ks < self.sessions@.len()) by {
                        lemma_winner_bound(self.sessions@, idv[i as int], self.match_by);
                    }
                    lemma_win_count_bound(self.sessions@, idv.take(i as int), self.match_by, ks);
                }
                let ghost old_w = wins@;
                let c = wins[k];
                wins.set(k, c + 1);
                assert forall|j: int| 0 <= j < wins@.len() implies #[trigger] wins@[j] == win_count(self.sessions@, idv.take(i + 1), self.match_by, j) by {
                    if j != k {
                        assert(wins@[j] == old_w[j]);
                    }
                }
            }
            i = i + 1;
        }
        assert(idv.take(ids@.len() as int) =~= idv);
        wins
    }

    /// The adapter that saw the most identities best: its name, its wins and
    /// the number of identities; ties go to the earlier session. `None` when
    /// no session is loaded.
    pub fn best_adapter_stats(&self) -> (r: Option<(String, usize, usize)>)
        ensures
            self.sessions@.len() == 0 ==> r is None,
            self.sessions@.len() > 0 ==> (r matches Some(x) && ({
                let t = tallies(self.sessions@, self.match_by);
                let b = first_max(t);
                &&& x.0@ == session_name(self.sessions@[b].adapter@)
                &&& x.1 == t[b]
                &&& x.2 == unique_identities(self.sessions@, self.match_by).len()
            })),
    {
        if self.sessions.len() == 0 {
            return None;
        }
        let wins = self.win_tallies();
        let ghost t = tallies(self.sessions@, self.match_by);
        let mut best: usize = 0;
        let mut j: usize = 1;
        assert(wins@.map_values(|x: usize| x as int) =~= t);
        while j < wins.len()
            invariant
                1 <= j <= wins@.len(),
                wins@.len() == t.len(),
                forall|k: int| 0 <= k < wins@.len() ==> wins@[k] == t[k],
                best as int == first_max(t.take(j as int)),
                best < j,
            decreases wins.len() - j,
        {
            assert(t.take(j + 1).drop_last() =~= t.take(j as int));
            assert(t.take(j as int)[best as int] == t[best as int]);
            if wins[j] > wins[best] {
                best = j;
            }
            j = j + 1;
        }
        assert(t.take(wins@.len() as int) =~= t);
        let s = &self.sessions[best];
        let name = match &s.adapter.label {
            Some(l) => l.clone(),
            None => s.adapter.interface.clone(),
        };
        let total = self.all_aps().len();
        Some((name, wins[best], total))
    }

    /// `name (wins/total APs)` for the best adapter, `None` when no session is loaded.
    pub fn best_adapter(&self) -> (r: Option<String>)
        ensures
            self.sessions@.len() == 0 ==> r is None,
            self.sessions@.len() > 0 ==> (r matches Some(x) && ({
                let t = tallies(self.sessions@, self.match_by);
                let b = first_max(t);
                x@ == session_name(self.sessions@[b].adapter@) + " ("@ + dec_text(t[b] as nat)
                    + "/"@ + dec_text(unique_identities(self.sessions@, self.match_by).len())
                    + " APs)"@
            })),
    {
        match self.best_adapter_stats() {
            Some((name, wins, total)) => {
                let mut v: Vec<char> = Vec::new();
                push_string(&mut v, &name);
                push_str(&mut v, " (");
                push_dec(&mut v, wins as u64);
                push_str(&mut v, "/");
                push_dec(&mut v, total as u64);
                push_str(&mut v, " APs)");
                Some(string_of(v.as_slice()))
            },
            None => None,
        }
    }
}

proof fn lemma_winner_bound(sessions: Seq<Session>, id: (Seq<char>, Seq<char>), m: MatchBy)
    ensures
        winner(sessions, id, m) matches Some(k) ==> 0 <= k < sessions.len(),
    decreases sessions.len(),
{
    if sessions.len() > 0 {
        lemma_winner_bound(sessions.drop_last(), id, m);
    }
}


impl CompareState {
    /// Drops the session under the cursor, keeping the cursor and the scroll
    /// position inside the list.
    pub fn remove_selected_session(&mut self)
        requires
            old(self).sessions@.len() > 0 ==> old(self).selected_session_idx < old(self).sessions@.len(),
        ensures
            old(self).sessions@.len() == 0 ==> final(self).sessions@ == old(self).sessions@,
            old(self).sessions@.len() > 0 ==> final(self).sessions@ == old(self).sessions@.remove(
                old(self).selected_session_idx as int,
            ),
            final(self).sessions@.len() > 0 ==> final(self).selected_session_idx < final(self).sessions@.len(),
            final(self).match_by == old(self).match_by,
            final(self).metric == old(self).metric,
    {
        if self.sessions.len() > 0 {
            self.sessions.remove(self.selected_session_idx);
            if self.selected_session_idx >= self.sessions.len() && self.sessions.len() > 0 {
                self.selected_session_idx = self.sessions.len() - 1;
            }
            if self.session_list_offset > 0 && self.session_list_offset >= self.sessions.len() {
                self.session_list_offset = self.sessions.len().saturating_sub(1);
            }
        }
    }

    pub fn select_next_session(&mut self)
        ensures
            final(self).selected_session_idx == if old(self).sessions@.len() > 0 {
                if old(self).selected_session_idx + 1 < old(self).sessions@.len() {
                    old(self).selected_session_idx + 1
                } else {
                    old(self).sessions@.len() - 1
                }
            } else {
                old(self).selected_session_idx as int
            },
            final(self).sessions@ == old(self).sessions@,
            final(self).match_by == old(self).match_by,
            final(self).metric == old(self).metric,
    {
        if self.sessions.len() > 0 {
            self.selected_session_idx = if self.selected_session_idx < self.sessions.len() - 1 {
                self.selected_session_idx + 1
            } else {
                self.sessions.len() - 1
            };
        }
    }

    pub fn select_prev_session(&mut self)
        ensures
            final(self).selected_session_idx == if old(self).selected_session_idx > 0 {
                old(self).selected_session_idx - 1
            } else {
                0
            },
            final(self).sessions@ == old(self).sessions@,
            final(self).match_by == old(self).match_by,
            final(self).metric == old(self).metric,
    {
        self.selected_session_idx = self.selected_session_idx.saturating_sub(1);
    }

    /// Scrolls the session list so that the cursor is among the
    /// `visible_height` rows shown; nothing happens when no row is shown.
    pub fn ensure_session_visible(&mut self, visible_height: usize)
        ensures
            final(self).selected_session_idx == old(self).selected_session_idx,
            final(self).session_list_offset == if visible_height == 0 {
                old(self).session_list_offset as int
            } else if old(self).selected_session_idx < old(self).session_list_offset {
                old(self).selected_session_idx as int
            } else if old(self).selected_session_idx >= old(self).session_list_offset + visible_height {
                old(self).selected_session_idx - visible_height + 1
            } else {
                old(self).session_list_offset as int
            },
            final(self).sessions@ == old(self).sessions@,
    {
        if visible_height == 0 {
            return;
        }
        if self.selected_session_idx < self.session_list_offset {
            self.session_list_offset = self.selected_session_idx;
        } else if self.selected_session_idx - self.session_list_offset >= visible_height {
            self.session_list_offset = self.selected_session_idx - visible_height + 1;
        }
    }

    pub fn select_next_ap(&mut self)
        ensures
            ({
                let n = unique_identities(old(self).sessions@, old(self).match_by).len();
                final(self).selected_ap_idx == if n > 0 {
                    if old(self).selected_ap_idx + 1 < n {
                        old(self).selected_ap_idx + 1
                    } else {
                        n - 1
                    }
                } else {
                    old(self).selected_ap_idx as int
                }
            }),
            final(self).sessions@ == old(self).sessions@,
            final(self).match_by == old(self).match_by,
            final(self).metric == old(self).metric,
    {
        let n = self.all_aps().len();
        if n > 0 {
            self.selected_ap_idx = if self.selected_ap_idx < n - 1 {
                self.selected_ap_idx + 1
            } else {
                n - 1
            };
        }
    }

    pub fn select_prev_ap(&mut self)
        ensures
            final(self).selected_ap_idx == if old(self).selected_ap_idx > 0 {
                old(self).selected_ap_idx - 1
            } else {
                0
            },
            final(self).sessions@ == old(self).sessions@,
            final(self).match_by == old(self).match_by,
            final(self).metric == old(self).metric,
    {
        self.selected_ap_idx = self.selected_ap_idx.saturating_sub(1);
    }
}

} // verus!
