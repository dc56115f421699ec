//! What the session store decides without touching the disk: session
//! validation, file and directory naming, and the listing entries.
use vstd::prelude::*;

use crate::models::{dedup, pair_of, sightings, scan_aps, display_name_of, ApModel, Session};
use crate::order::{is_arrangement, newer_first, order_by_newest, order_by_text, ordered_by, text_before};
use crate::text::{chars_of, lower_of, push_dec, push_str, push_string, string_of, to_lower};
use crate::time::{format_instant, utc_now, utc_text_or_empty, Timestamp};

verus! {

/// Integrity report of a loaded session.
#[derive(Debug)]
pub struct SessionValidation {
    pub is_valid: bool,
    pub has_scans: bool,
    pub scan_count: usize,
    pub ap_count: usize,
    pub warnings: Vec<String>,
}

pub open spec fn texts_view(v: Seq<String>) -> Seq<Seq<char>> {
    v.map_values(|s: String| s@)
}

/// Whether some scan saw at least one access point.
pub open spec fn has_readings(scans: Seq<crate::models::ScanResult>) -> bool {
    exists|i: int| 0 <= i < scans.len() && scans[i].access_points@.len() > 0
}

/// The number of scans that saw nothing.
pub open spec fn empty_scan_count(scans: Seq<crate::models::ScanResult>) -> nat
    decreases scans.len(),
{
    if scans.len() == 0 {
        0
    } else {
        empty_scan_count(scans.drop_last()) + if scans.last().access_points@.len() == 0 {
            1nat
        } else {
            0nat
        }
    }
}

/// The warnings a session earns, in this order: no scans, no adapter
/// interface, every scan empty.
pub open spec fn validation_warnings(s: Session) -> Seq<Seq<char>> {
    let n = s.scans@.len();
    let e = empty_scan_count(s.scans@);
    (if n == 0 {
        seq!["Session has no scan data"@]
    } else {
        Seq::empty()
    }) + (if s.adapter.interface@.len() == 0 {
        seq!["Session has no adapter interface"@]
    } else {
        Seq::empty()
    }) + (if e > 0 && e == n {
        seq!["All scans are empty (no APs detected)"@]
    } else {
        Seq::empty()
    })
}

proof fn lemma_dedup_nonempty<T>(s: Seq<T>)
    ensures
        dedup(s).len() > 0 <==> s.len() > 0,
    decreases s.len(),
{
    if s.len() > 0 {
        lemma_dedup_nonempty(s.drop_last());
        let d = dedup(s.drop_last());
        if d.contains(s.last()) {
            assert(d.len() > 0);
        }
    }
}

proof fn lemma_sightings_nonempty(scans: Seq<crate::models::ScanResult>)
    ensures
        sightings(scans).len() > 0 <==> has_readings(scans),
        empty_scan_count(scans) == scans.len() <==> !has_readings(scans),
        empty_scan_count(scans) <= scans.len(),
    decreases scans.len(),
{
    if scans.len() > 0 {
        let p = scans.drop_last();
        lemma_sightings_nonempty(p);
        assert(scan_aps(scans.last()).len() == scans.last().access_points@.len());
        if has_readings(p) {
            let i = choose|i: int| 0 <= i < p.len() && p[i].access_points@.len() > 0;
            assert(scans[i] == p[i]);
        }
        if has_readings(scans) {
            let i = choose|i: int| 0 <= i < scans.len() && scans[i].access_points@.len() > 0;
            if i < p.len() {
                assert(scans[i] == p[i]);
            }
        }
        if scans.last().access_points@.len() > 0 {
            assert(scans[scans.len() - 1].access_points@.len() > 0);
        }
    }
}

fn count_empty_scans(s: &Session) -> (r: usize)
    ensures
        r == empty_scan_count(s.scans@),
{
    let mut n: usize = 0;
    let mut i: usize = 0;
    while i < s.scans.len()
        invariant
            i <= s.scans.len(),
            n == empty_scan_count(s.scans@.take(i as int)),
            n <= i,
        decreases s.scans.len() - i,
    {
        assert(s.scans@.take(i + 1).drop_last() =~= s.scans@.take(i as int));
        if s.scans[i].access_points.len() == 0 {
            n = n + 1;
        }
        i = i + 1;
    }
    assert(s.scans@.take(s.scans.len() as int) =~= s.scans@);
    n
}

/// Checks a session's integrity. A session is valid when it has at least
/// one scan and some scan saw an access point; problems are reported as
/// warnings and never reject the session.
pub fn validate_session(session: &Session) -> (r: SessionValidation)
    ensures
        r.is_valid == (session.scans@.len() > 0 && has_readings(session.scans@)),
        r.has_scans == (session.scans@.len() > 0),
        r.scan_count == session.scans@.len(),
        r.ap_count == dedup(sightings(session.scans@).map_values(|a: ApModel| pair_of(a))).len(),
        texts_view(r.warnings@) == validation_warnings(*session),
{
    let mut warnings: Vec<String> = Vec::new();
    let has_scans = session.scans.len() > 0;
    let scan_count = session.scans.len();
    let ap_count = session.unique_aps().len();
    if !has_scans {
        warnings.push("Session has no scan data".to_owned());
    }
    if session.adapter.interface.as_str().is_empty() {
        warnings.push("Session has no adapter interface".to_owned());
    }
    let empty_scans = count_empty_scans(session);
    if empty_scans > 0 && empty_scans == scan_count {
        warnings.push("All scans are empty (no APs detected)".to_owned());
    }
    proof {
        let sg = sightings(session.scans@);
        lemma_sightings_nonempty(session.scans@);
        lemma_dedup_nonempty(sg.map_values(|a: ApModel| pair_of(a)));
        assert(texts_view(warnings@) =~= validation_warnings(*session));
    }
    let is_valid = has_scans && ap_count > 0;
    SessionValidation { is_valid, has_scans, scan_count, ap_count, warnings }
}

/// A directory of saved sessions for one adapter.
#[derive(Debug, Clone)]
pub struct AdapterDirInfo {
    pub path: String,
    pub name: String,
    pub session_count: usize,
}

impl AdapterDirInfo {
    pub fn copied(&self) -> (r: AdapterDirInfo)
        ensures
            r == *self,
    {
        AdapterDirInfo { path: self.path.clone(), name: self.name.clone(), session_count: self.session_count }
    }

    pub fn display_string(&self) -> (r: String)
        ensures
            r@ == "\u{1F4C1} "@ + self.name@ + " ("@ + crate::text::dec_text(
                self.session_count as nat,
            ) + " sessions)"@,
    {
        let mut v: Vec<char> = Vec::new();
        push_str(&mut v, "\u{1F4C1} ");
        push_string(&mut v, &self.name);
        push_str(&mut v, " (");
        push_dec(&mut v, self.session_count as u64);
        push_str(&mut v, " sessions)");
        string_of(v.as_slice())
    }
}

/// A saved session as the file picker lists it.
#[derive(Debug, Clone)]
pub struct SessionInfo {
    pub path: String,
    pub adapter_name: String,
    pub interface: String,
    pub chipset: String,
    pub label: Option<String>,
    pub started_at: String,
    pub scan_count: usize,
}

impl SessionInfo {
    /// The listing entry of `session`, stored at `path`.
    pub fn from_session(path: String, session: Session) -> (r: SessionInfo)
        ensures
            r.path == path,
            r.adapter_name@ == display_name_of(session.adapter@),
            r.interface == session.adapter.interface,
            r.chipset == session.adapter.chipset,
            r.label == session.adapter.label,
            r.started_at@ == utc_text_or_empty(session.started_at, "%m-%d %H:%M"@),
            r.scan_count == session.scans@.len(),
    {
        let adapter_name = session.adapter.display_name();
        let started_at = format_instant(session.started_at, "%m-%d %H:%M");
        let scan_count = session.scans.len();
        SessionInfo {
            path,
            adapter_name,
            interface: session.adapter.interface,
            chipset: session.adapter.chipset,
            label: session.adapter.label,
            started_at,
            scan_count,
        }
    }

    /// Short entry, for a list already inside the adapter's directory.
    pub fn display_string(&self) -> (r: String)
        ensures
            r@ == self.started_at@ + " - "@ + crate::text::dec_text(self.scan_count as nat)
                + " scans"@,
    {
        let mut v: Vec<char> = Vec::new();
        push_string(&mut v, &self.started_at);
        push_str(&mut v, " - ");
        push_dec(&mut v, self.scan_count as u64);
        push_str(&mut v, " scans");
        string_of(v.as_slice())
    }

    /// Entry with the adapter's name.
    pub fn display_string_full(&self) -> (r: String)
        ensures
            r@ == self.adapter_name@ + " ("@ + self.started_at@ + ") - "@ + crate::text::dec_text(
                self.scan_count as nat,
            ) + " scans"@,
    {
        let mut v: Vec<char> = Vec::new();
        push_string(&mut v, &self.adapter_name);
        push_str(&mut v, " (");
        push_string(&mut v, &self.started_at);
        push_str(&mut v, ") - ");
        push_dec(&mut v, self.scan_count as u64);
        push_str(&mut v, " scans");
        string_of(v.as_slice())
    }
}

/// File name of a session saved at `t`: its UTC date and time down to the
/// millisecond, so that two saves in one second get different names.
pub fn session_filename_at(t: Timestamp) -> (r: String)
    ensures
        r@ == utc_text_or_empty(t, "%Y%m%d_%H%M%S_%3f"@) + ".json"@,
{
    let stamp = format_instant(t, "%Y%m%d_%H%M%S_%3f");
    let mut v: Vec<char> = Vec::new();
    push_string(&mut v, &stamp);
    push_str(&mut v, ".json");
    string_of(v.as_slice())
}

/// File name for a session saved now.
pub fn session_filename() -> (r: String)
    ensures
        exists|t: Timestamp| r@ == utc_text_or_empty(t, "%Y%m%d_%H%M%S_%3f"@) + ".json"@,
{
    session_filename_at(utc_now())
}


/// The adapter directories that hold at least one session, in order.
pub open spec fn dirs_with_sessions(found: Seq<AdapterDirInfo>) -> Seq<AdapterDirInfo>
    decreases found.len(),
{
    if found.len() == 0 {
        Seq::empty()
    } else if found.last().session_count > 0 {
        dirs_with_sessions(found.drop_last()).push(found.last())
    } else {
        dirs_with_sessions(found.drop_last())
    }
}

/// The case-folded names of directories.
pub open spec fn dir_keys(d: Seq<AdapterDirInfo>) -> Seq<Seq<char>> {
    d.map_values(|a: AdapterDirInfo| lower_of(a.name@))
}

/// `r` holds `kept` in the arrangement `ord`, which sorts them by
/// case-folded name, ties in their first order.
pub open spec fn dirs_arranged(r: Seq<AdapterDirInfo>, kept: Seq<AdapterDirInfo>, ord: Seq<usize>) -> bool {
    &&& is_arrangement(ord, kept.len())
    &&& ordered_by(ord, text_before(dir_keys(kept)))
    &&& r.len() == kept.len()
    &&& forall|i: int| 0 <= i < r.len() ==> #[trigger] r[i] == kept[ord[i] as int]
}

/// The adapter directories to list: those holding sessions, sorted by
/// case-folded name.
pub fn listed_adapter_dirs(found: Vec<AdapterDirInfo>) -> (r: Vec<AdapterDirInfo>)
    ensures
        exists|ord: Seq<usize>| #[trigger] dirs_arranged(r@, dirs_with_sessions(found@), ord),
{
    let mut kept: Vec<AdapterDirInfo> = Vec::new();
    let mut i: usize = 0;
    assert(found@.take(0) =~= Seq::<AdapterDirInfo>::empty());
    while i < found.len()
        invariant
            i <= found.len(),
            kept@ == dirs_with_sessions(found@.take(i as int)),
        decreases found.len() - i,
    {
        assert(found@.take(i + 1).drop_last() =~= found@.take(i as int));
        if found[i].session_count > 0 {
            kept.push(found[i].copied());
        }
        i = i + 1;
    }
    assert(found@.take(found.len() as int) =~= found@);
    let mut keys: Vec<Vec<char>> = Vec::new();
    let mut j: usize = 0;
    while j < kept.len()
        invariant
            j <= kept.len(),
            keys@.len() == j,
            forall|m: int| 0 <= m < j ==> #[trigger] keys@[m]@ == lower_of(kept@[m].name@),
        decreases kept.len() - j,
    {
        let l = to_lower(kept[j].name.as_str());
        keys.push(chars_of(l.as_str()));
        j = j + 1;
    }
    assert(keys@.map_values(|k: Vec<char>| k@) =~= dir_keys(kept@));
    let ord = order_by_text(&keys);
    let mut out: Vec<AdapterDirInfo> = Vec::new();
    let mut k: usize = 0;
    while k < ord.len()
        invariant
            k <= ord.len(),
            is_arrangement(ord@, kept@.len()),
            out@.len() == k,
            forall|m: int| 0 <= m < k ==> #[trigger] out@[m] == kept@[ord@[m] as int],
        decreases ord.len() - k,
    {
        out.push(kept[ord[k]].copied());
        k = k + 1;
    }
    assert(dirs_arranged(out@, kept@, ord@));
    out
}

/// `r` holds the paths of `entries` in the arrangement `ord`: newest
/// modification time first, those without one last, ties in their first order.
pub open spec fn paths_arranged(r: Seq<String>, entries: Seq<(String, Option<u128>)>, ord: Seq<usize>) -> bool {
    &&& is_arrangement(ord, entries.len())
    &&& ordered_by(ord, newer_first(entries.map_values(|e: (String, Option<u128>)| e.1)))
    &&& r.len() == entries.len()
    &&& forall|i: int| 0 <= i < r.len() ==> #[trigger] r[i] == entries[ord[i] as int].0
}

/// Session file paths with their modification times (in nanoseconds), newest first.
pub fn newest_first(entries: &Vec<(String, Option<u128>)>) -> (r: Vec<String>)
    ensures
        exists|ord: Seq<usize>| #[trigger] paths_arranged(r@, entries@, ord),
{
    let mut keys: Vec<Option<u128>> = Vec::new();
    let mut j: usize = 0;
    while j < entries.len()
        invariant
            j <= entries.len(),
            keys@ == entries@.take(j as int).map_values(|e: (String, Option<u128>)| e.1),
        decreases entries.len() - j,
    {
        keys.push(entries[j].1);
        assert(keys@ =~= entries@.take(j + 1).map_values(|e: (String, Option<u128>)| e.1));
        j = j + 1;
    }
    assert(entries@.take(entries.len() as int) =~= entries@);
    let ord = order_by_newest(&keys);
    let mut out: Vec<String> = Vec::new();
    let mut k: usize = 0;
    while k < ord.len()
        invariant
            k <= ord.len(),
            is_arrangement(ord@, entries@.len()),
            out@.len() == k,
            forall|m: int| 0 <= m < k ==> #[trigger] out@[m] == entries@[ord@[m] as int].0,
        decreases ord.len() - k,
    {
        out.push(entries[ord[k]].0.clone());
        k = k + 1;
    }
    assert(paths_arranged(out@, entries@, ord@));
    out
}

/// The sessions that could be read, with their paths, in order.
pub open spec fn readable(loaded: Seq<(String, Option<Session>)>) -> Seq<(String, Session)>
    decreases loaded.len(),
{
    if loaded.len() == 0 {
        Seq::empty()
    } else {
        match loaded.last().1 {
            Some(s) => readable(loaded.drop_last()).push((loaded.last().0, s)),
            None => readable(loaded.drop_last()),
        }
    }
}

/// `i` is the listing entry of session `s` stored at `path`.
pub open spec fn lists(i: SessionInfo, path: String, s: Session) -> bool {
    &&& i.path == path
    &&& i.adapter_name@ == display_name_of(s.adapter@)
    &&& i.interface == s.adapter.interface
    &&& i.chipset == s.adapter.chipset
    &&& i.label == s.adapter.label
    &&& i.started_at@ == utc_text_or_empty(s.started_at, "%m-%d %H:%M"@)
    &&& i.scan_count == s.scans@.len()
}

/// The listing entries of the sessions that could be read; the others are skipped.
pub fn session_listing(loaded: &Vec<(String, Option<Session>)>) -> (r: Vec<SessionInfo>)
    ensures
        r@.len() == readable(loaded@).len(),
        forall|k: int| 0 <= k < r@.len() ==> lists(#[trigger] r@[k], readable(loaded@)[k].0, readable(loaded@)[k].1),
{
    let mut out: Vec<SessionInfo> = Vec::new();
    let mut i: usize = 0;
    assert(loaded@.take(0) =~= Seq::<(String, Option<Session>)>::empty());
    while i < loaded.len()
        invariant
            i <= loaded.len(),
            out@.len() == readable(loaded@.take(i as int)).len(),
            forall|k: int| 0 <= k < out@.len() ==> lists(#[trigger] out@[k], readable(loaded@.take(i as int))[k].0, readable(loaded@.take(i as int))[k].1),
        decreases loaded.len() - i,
    {
        assert(loaded@.take(i + 1).drop_last() =~= loaded@.take(i as int));
        let ghost pre = readable(loaded@.take(i as int));
        match &loaded[i].1 {
            Some(s) => {
                let copy = s.copied();
                let info = SessionInfo::from_session(loaded[i].0.clone(), copy);
                out.push(info);
                proof {
                    let now = readable(loaded@.take(i + 1));
                    assert(now == pre.push((loaded@[i as int].0, *s)));
                    assert forall|k: int| 0 <= k < out@.len() implies lists(#[trigger] out@[k], now[k].0, now[k].1) by {
                        if k < pre.len() {
                            assert(now[k] == pre[k]);
                        }
                    }
                }
            },
            None => {},
        }
        i = i + 1;
    }
    assert(loaded@.take(loaded.len() as int) =~= loaded@);
    out
}

} // verus!
