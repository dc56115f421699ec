//! The data model: adapters, access-point readings, scans, sessions, and the
//! small display/selection enums that the screens cycle through.
use vstd::prelude::*;

use crate::stats::{i32_view, lemma_bounds, round_avg, round_div, seq_max, seq_min, seq_sum, sum_min_max};
use crate::text::{chars_of, push_str, push_string, string_of};
use crate::time::{seconds_between, utc_now, Timestamp};

verus! {

/// WiFi frequency band.
#[derive(Debug, Clone, Copy, PartialEq, Eq, Structural)]
pub enum Band {
    TwoPointFourGHz,
    FiveGHz,
    SixGHz,
}

pub open spec fn band_of(freq_mhz: int) -> Band {
    if freq_mhz < 3000 {
        Band::TwoPointFourGHz
    } else if freq_mhz < 5900 {
        Band::FiveGHz
    } else {
        Band::SixGHz
    }
}

impl Band {
    pub fn from_frequency(freq_mhz: u32) -> (r: Band)
        ensures
            r == band_of(freq_mhz as int),
    {
        if freq_mhz < 3000 {
            Band::TwoPointFourGHz
        } else if freq_mhz < 5900 {
            Band::FiveGHz
        } else {
            Band::SixGHz
        }
    }

    pub fn short_name(&self) -> (r: &'static str)
        ensures
            r@ == match *self {
                Band::TwoPointFourGHz => "2G"@,
                Band::FiveGHz => "5G"@,
                Band::SixGHz => "6G"@,
            },
    {
        match self {
            Band::TwoPointFourGHz => "2G",
            Band::FiveGHz => "5G",
            Band::SixGHz => "6G",
        }
    }
}

/// A wireless network adapter. `interface` identifies it; `label` is a
/// cosmetic name chosen by the operator.
#[derive(Debug, Clone)]
pub struct Adapter {
    pub interface: String,
    pub driver: String,
    pub chipset: String,
    pub label: Option<String>,
}

pub ghost struct AdapterModel {
    pub interface: Seq<char>,
    pub driver: Seq<char>,
    pub chipset: Seq<char>,
    pub label: Option<Seq<char>>,
}

pub open spec fn opt_text(o: Option<String>) -> Option<Seq<char>> {
    match o {
        Some(s) => Some(s@),
        None => None,
    }
}

impl View for Adapter {
    type V = AdapterModel;

    open spec fn view(&self) -> AdapterModel {
        AdapterModel {
            interface: self.interface@,
            driver: self.driver@,
            chipset: self.chipset@,
            label: opt_text(self.label),
        }
    }
}

/// The name shown for an adapter: its label, else its chipset when that is
/// known, else its interface.
pub open spec fn display_name_of(a: AdapterModel) -> Seq<char> {
    match a.label {
        Some(l) => l,
        None => if a.chipset.len() > 0 && a.chipset != "unknown"@ {
            a.chipset
        } else {
            a.interface
        },
    }
}

/// Whether `a` holds the same characters as `b`.
pub fn same_text(a: &String, b: &str) -> (r: bool)
    ensures
        r == (a@ == b@),
{
    let o = b.to_owned();
    *a == o
}

pub fn copy_opt_string(o: &Option<String>) -> (r: Option<String>)
    ensures
        r == *o,
{
    match o {
        Some(s) => Some(s.clone()),
        None => None,
    }
}

/// Names the Unicode `Alphabetic`-or-`Numeric` test of `char::is_alphanumeric`.
pub uninterp spec fn is_alnum(c: char) -> bool;

/// Relies on `char::is_alphanumeric`: the answer depends on the character alone.
#[verifier::external_body]
pub(crate) fn char_is_alphanumeric(c: char) -> (r: bool)
    ensures
        r == is_alnum(c),
{
    c.is_alphanumeric()
}

/// A character kept in file names; others become `_`.
pub open spec fn safe_char(c: char) -> char {
    if is_alnum(c) || c == '-' || c == '_' {
        c
    } else {
        '_'
    }
}

pub open spec fn display_name_full_of(a: AdapterModel) -> Seq<char> {
    match a.label {
        Some(l) => "\""@ + l + "\" ("@ + a.interface + ")"@,
        None => display_name_of(a) + " ("@ + a.interface + ")"@,
    }
}

impl Adapter {
    /// Display name with the interface.
    pub fn display_name_full(&self) -> (r: String)
        ensures
            r@ == display_name_full_of(self@),
    {
        let name = self.display_name();
        let mut v: Vec<char> = Vec::new();
        if let Some(label) = &self.label {
            push_str(&mut v, "\"");
            push_string(&mut v, label);
            push_str(&mut v, "\" (");
        } else {
            push_string(&mut v, &name);
            push_str(&mut v, " (");
        }
        push_string(&mut v, &self.interface);
        push_str(&mut v, ")");
        string_of(v.as_slice())
    }

    /// The display name made safe for a file name: every character that is
    /// not alphanumeric, `-` or `_` becomes `_`.
    pub fn safe_name(&self) -> (r: String)
        ensures
            r@ == display_name_of(self@).map_values(|c: char| safe_char(c)),
    {
        let name = self.display_name();
        let cs = chars_of(name.as_str());
        let mut out: Vec<char> = Vec::new();
        let mut i: usize = 0;
        while i < cs.len()
            invariant
                i <= cs.len(),
                out@ == cs@.take(i as int).map_values(|c: char| safe_char(c)),
            decreases cs.len() - i,
        {
            let c = cs[i];
            let k = if char_is_alphanumeric(c) || c == '-' || c == '_' {
                c
            } else {
                '_'
            };
            out.push(k);
            assert(out@ =~= cs@.take(i + 1).map_values(|c: char| safe_char(c)));
            i = i + 1;
        }
        assert(cs@.take(cs.len() as int) =~= cs@);
        string_of(out.as_slice())
    }

    pub fn copied(&self) -> (r: Adapter)
        ensures
            r == *self,
    {
        Adapter {
            interface: self.interface.clone(),
            driver: self.driver.clone(),
            chipset: self.chipset.clone(),
            label: copy_opt_string(&self.label),
        }
    }

    /// Display name for the screens: the label, then the chipset.
    pub fn display_name(&self) -> (r: String)
        ensures
            r@ == display_name_of(self@),
    {
        if let Some(label) = &self.label {
            label.clone()
        } else if !self.chipset.as_str().is_empty() && !same_text(&self.chipset, "unknown") {
            self.chipset.clone()
        } else {
            self.interface.clone()
        }
    }
}

/// One reading of one access point.
#[derive(Debug, Clone)]
pub struct AccessPoint {
    pub bssid: String,
    pub ssid: String,
    pub signal_dbm: i32,
    pub channel: u32,
    pub frequency_mhz: u32,
}

pub ghost struct ApModel {
    pub bssid: Seq<char>,
    pub ssid: Seq<char>,
    pub signal_dbm: int,
    pub channel: int,
    pub frequency_mhz: int,
}

impl View for AccessPoint {
    type V = ApModel;

    open spec fn view(&self) -> ApModel {
        ApModel {
            bssid: self.bssid@,
            ssid: self.ssid@,
            signal_dbm: self.signal_dbm as int,
            channel: self.channel as int,
            frequency_mhz: self.frequency_mhz as int,
        }
    }
}

pub open spec fn aps_view(s: Seq<AccessPoint>) -> Seq<ApModel> {
    s.map_values(|a: AccessPoint| a@)
}

impl AccessPoint {
    pub fn copied(&self) -> (r: AccessPoint)
        ensures
            r == *self,
    {
        AccessPoint {
            bssid: self.bssid.clone(),
            ssid: self.ssid.clone(),
            signal_dbm: self.signal_dbm,
            channel: self.channel,
            frequency_mhz: self.frequency_mhz,
        }
    }

    pub fn band(&self) -> (r: Band)
        ensures
            r == band_of(self.frequency_mhz as int),
    {
        Band::from_frequency(self.frequency_mhz)
    }
}

/// One complete sweep: when it was taken and what it saw, in order.
#[derive(Debug, Clone)]
pub struct ScanResult {
    pub timestamp: Timestamp,
    pub access_points: Vec<AccessPoint>,
}

/// Sort order of the live access-point list.
#[derive(Debug, Clone, Copy, PartialEq, Eq, Structural, Default)]
pub enum SortBy {
    #[default]
    Signal,
    Ssid,
    Channel,
}

/// The sort order that follows `s` in the cycle.
pub open spec fn sort_after(s: SortBy) -> SortBy {
    match s {
        SortBy::Signal => SortBy::Ssid,
        SortBy::Ssid => SortBy::Channel,
        SortBy::Channel => SortBy::Signal,
    }
}

impl SortBy {
    pub fn next(&self) -> (r: SortBy)
        ensures
            r == sort_after(*self),
    {
        match self {
            SortBy::Signal => SortBy::Ssid,
            SortBy::Ssid => SortBy::Channel,
            SortBy::Channel => SortBy::Signal,
        }
    }

    pub fn name(&self) -> (r: &'static str)
        ensures
            r@ == match *self {
                SortBy::Signal => "signal"@,
                SortBy::Ssid => "ssid"@,
                SortBy::Channel => "channel"@,
            },
    {
        match self {
            SortBy::Signal => "signal",
            SortBy::Ssid => "ssid",
            SortBy::Channel => "channel",
        }
    }
}

/// Band filter of the live access-point list.
#[derive(Debug, Clone, Copy, PartialEq, Eq, Structural, Default)]
pub enum FrequencyFilter {
    #[default]
    All,
    TwoPointFourGHz,
    FiveGHz,
    SixGHz,
}

pub open spec fn filter_admits(f: FrequencyFilter, b: Band) -> bool {
    match f {
        FrequencyFilter::All => true,
        FrequencyFilter::TwoPointFourGHz => b == Band::TwoPointFourGHz,
        FrequencyFilter::FiveGHz => b == Band::FiveGHz,
        FrequencyFilter::SixGHz => b == Band::SixGHz,
    }
}

/// The band filter that follows `f` in the cycle.
pub open spec fn filter_after(f: FrequencyFilter) -> FrequencyFilter {
    match f {
        FrequencyFilter::All => FrequencyFilter::TwoPointFourGHz,
        FrequencyFilter::TwoPointFourGHz => FrequencyFilter::FiveGHz,
        FrequencyFilter::FiveGHz => FrequencyFilter::SixGHz,
        FrequencyFilter::SixGHz => FrequencyFilter::All,
    }
}

impl FrequencyFilter {
    pub fn next(&self) -> (r: FrequencyFilter)
        ensures
            r == filter_after(*self),
    {
        match self {
            FrequencyFilter::All => FrequencyFilter::TwoPointFourGHz,
            FrequencyFilter::TwoPointFourGHz => FrequencyFilter::FiveGHz,
            FrequencyFilter::FiveGHz => FrequencyFilter::SixGHz,
            FrequencyFilter::SixGHz => FrequencyFilter::All,
        }
    }

    pub fn name(&self) -> (r: &'static str)
        ensures
            r@ == match *self {
                FrequencyFilter::All => "All"@,
                FrequencyFilter::TwoPointFourGHz => "2.4G"@,
                FrequencyFilter::FiveGHz => "5G"@,
                FrequencyFilter::SixGHz => "6G"@,
            },
    {
        match self {
            FrequencyFilter::All => "All",
            FrequencyFilter::TwoPointFourGHz => "2.4G",
            FrequencyFilter::FiveGHz => "5G",
            FrequencyFilter::SixGHz => "6G",
        }
    }

    pub fn matches(&self, band: Band) -> (r: bool)
        ensures
            r == filter_admits(*self, band),
    {
        match self {
            FrequencyFilter::All => true,
            FrequencyFilter::TwoPointFourGHz => band == Band::TwoPointFourGHz,
            FrequencyFilter::FiveGHz => band == Band::FiveGHz,
            FrequencyFilter::SixGHz => band == Band::SixGHz,
        }
    }
}

/// How the session timer is shown.
#[derive(Debug, Clone, Copy, PartialEq, Eq, Structural, Default)]
pub enum TimerMode {
    #[default]
    Countdown,
    Elapsed,
}

/// Rule for deciding that readings in different sessions are the same
/// access point.
#[derive(Debug, Clone, Copy, PartialEq, Eq, Structural, Default)]
pub enum MatchBy {
    #[default]
    Bssid,
    Ssid,
    Both,
}

/// The match rule that follows `m` in the cycle.
pub open spec fn match_after(m: MatchBy) -> MatchBy {
    match m {
        MatchBy::Bssid => MatchBy::Ssid,
        MatchBy::Ssid => MatchBy::Both,
        MatchBy::Both => MatchBy::Bssid,
    }
}

impl MatchBy {
    pub fn next(&self) -> (r: MatchBy)
        ensures
            r == match_after(*self),
    {
        match self {
            MatchBy::Bssid => MatchBy::Ssid,
            MatchBy::Ssid => MatchBy::Both,
            MatchBy::Both => MatchBy::Bssid,
        }
    }

    pub fn name(&self) -> (r: &'static str)
        ensures
            r@ == match *self {
                MatchBy::Bssid => "BSSID"@,
                MatchBy::Ssid => "SSID"@,
                MatchBy::Both => "Both"@,
            },
    {
        match self {
            MatchBy::Bssid => "BSSID",
            MatchBy::Ssid => "SSID",
            MatchBy::Both => "Both",
        }
    }
}

/// Which single number stands for repeated readings.
#[derive(Debug, Clone, Copy, PartialEq, Eq, Structural, Default)]
pub enum CompareMetric {
    #[default]
    Avg,
    Min,
    Max,
}

/// The metric that follows `m` in the cycle.
pub open spec fn metric_after(m: CompareMetric) -> CompareMetric {
    match m {
        CompareMetric::Avg => CompareMetric::Min,
        CompareMetric::Min => CompareMetric::Max,
        CompareMetric::Max => CompareMetric::Avg,
    }
}

impl CompareMetric {
    pub fn next(&self) -> (r: CompareMetric)
        ensures
            r == metric_after(*self),
    {
        match self {
            CompareMetric::Avg => CompareMetric::Min,
            CompareMetric::Min => CompareMetric::Max,
            CompareMetric::Max => CompareMetric::Avg,
        }
    }

    pub fn name(&self) -> (r: &'static str)
        ensures
            r@ == match *self {
                CompareMetric::Avg => "Avg"@,
                CompareMetric::Min => "Min"@,
                CompareMetric::Max => "Max"@,
            },
    {
        match self {
            CompareMetric::Avg => "Avg",
            CompareMetric::Min => "Min",
            CompareMetric::Max => "Max",
        }
    }
}

/// Signal statistics of one access point within one session.
#[derive(Debug, Clone)]
pub struct ApStats {
    pub avg: i32,
    pub min: i32,
    pub max: i32,
    pub count: usize,
}

impl ApStats {
    pub fn get(&self, metric: CompareMetric) -> (r: i32)
        ensures
            r == match metric {
                CompareMetric::Avg => self.avg,
                CompareMetric::Min => self.min,
                CompareMetric::Max => self.max,
            },
    {
        match metric {
            CompareMetric::Avg => self.avg,
            CompareMetric::Min => self.min,
            CompareMetric::Max => self.max,
        }
    }
}


pub open spec fn scan_aps(s: ScanResult) -> Seq<ApModel> {
    aps_view(s.access_points@)
}

/// Every reading of every scan, in scan order.
pub open spec fn sightings(scans: Seq<ScanResult>) -> Seq<ApModel>
    decreases scans.len(),
{
    if scans.len() == 0 {
        Seq::empty()
    } else {
        sightings(scans.drop_last()) + scan_aps(scans.last())
    }
}

pub open spec fn pair_of(a: ApModel) -> (Seq<char>, Seq<char>) {
    (a.bssid, a.ssid)
}

/// `s` with later repetitions dropped, first-seen order kept.
pub open spec fn dedup<T>(s: Seq<T>) -> Seq<T>
    decreases s.len(),
{
    if s.len() == 0 {
        Seq::empty()
    } else {
        let d = dedup(s.drop_last());
        if d.contains(s.last()) {
            d
        } else {
            d.push(s.last())
        }
    }
}

pub open spec fn pairs_view(v: Seq<(String, String)>) -> Seq<(Seq<char>, Seq<char>)> {
    v.map_values(|p: (String, String)| (p.0@, p.1@))
}

/// The signals of the readings of `bssid`, in order.
pub open spec fn bssid_signals(s: Seq<ApModel>, bssid: Seq<char>) -> Seq<int>
    decreases s.len(),
{
    if s.len() == 0 {
        Seq::empty()
    } else if s.last().bssid == bssid {
        bssid_signals(s.drop_last(), bssid).push(s.last().signal_dbm)
    } else {
        bssid_signals(s.drop_last(), bssid)
    }
}

/// One scanning engagement with one adapter. Scans are only ever appended.
#[derive(Debug, Clone)]
pub struct Session {
    pub version: String,
    pub adapter: Adapter,
    pub started_at: Timestamp,
    pub duration_target_secs: Option<u64>,
    pub scans: Vec<ScanResult>,
}

/// The version tag of sessions written by this library.
pub fn default_version() -> (r: String)
    ensures
        r@ == "1.0"@,
{
    "1.0".to_owned()
}

/// Whether `pairs` holds the pair `(b, s)`.
pub fn contains_pair(pairs: &Vec<(String, String)>, b: &String, s: &String) -> (r: bool)
    ensures
        r == pairs_view(pairs@).contains((b@, s@)),
{
    let mut i: usize = 0;
    while i < pairs.len()
        invariant
            i <= pairs.len(),
            forall|j: int| 0 <= j < i ==> pairs_view(pairs@)[j] != (b@, s@),
        decreases pairs.len() - i,
    {
        if pairs[i].0 == *b && pairs[i].1 == *s {
            assert(pairs_view(pairs@)[i as int] == (b@, s@));
            return true;
        }
        i = i + 1;
    }
    false
}

pub fn copy_access_points(v: &Vec<AccessPoint>) -> (r: Vec<AccessPoint>)
    ensures
        r@ == v@,
{
    let mut r: Vec<AccessPoint> = Vec::new();
    let mut i: usize = 0;
    while i < v.len()
        invariant
            i <= v.len(),
            r@ == v@.take(i as int),
        decreases v.len() - i,
    {
        r.push(v[i].copied());
        assert(r@ =~= v@.take(i + 1));
        i = i + 1;
    }
    assert(v@.take(v.len() as int) =~= v@);
    r
}

impl ScanResult {
    pub fn copied(&self) -> (r: ScanResult)
        ensures
            r.timestamp == self.timestamp,
            r.access_points@ == self.access_points@,
    {
        let access_points = copy_access_points(&self.access_points);
        assert(access_points@ == self.access_points@);
        let r = ScanResult { timestamp: self.timestamp, access_points };
        assert(r.access_points@ =~= self.access_points@);
        r
    }
}

proof fn lemma_sightings_step(scans: Seq<ScanResult>, i: int, j: int)
    requires
        0 <= i < scans.len(),
        0 <= j < scans[i].access_points@.len(),
    ensures
        sightings(scans.take(i)) + scan_aps(scans[i]).take(j + 1) == (sightings(scans.take(i))
            + scan_aps(scans[i]).take(j)).push(scans[i].access_points@[j]@),
{
    assert(sightings(scans.take(i)) + scan_aps(scans[i]).take(j + 1) =~= (sightings(scans.take(i))
        + scan_aps(scans[i]).take(j)).push(scans[i].access_points@[j]@));
}

proof fn lemma_sightings_next(scans: Seq<ScanResult>, i: int)
    requires
        0 <= i < scans.len(),
    ensures
        sightings(scans.take(i + 1)) == sightings(scans.take(i)) + scan_aps(scans[i]).take(
            scans[i].access_points@.len() as int,
        ),
{
    assert(scans.take(i + 1).drop_last() =~= scans.take(i));
    assert(scan_aps(scans[i]).take(scans[i].access_points@.len() as int) =~= scan_aps(scans[i]));
}

/// Whole seconds from `start` to `now`, held to `0..=u64::MAX`.
pub open spec fn elapsed_since(start: Timestamp, now: Timestamp) -> int {
    let d = seconds_between(start, now);
    if d <= 0 {
        0
    } else if d >= u64::MAX {
        u64::MAX as int
    } else {
        d
    }
}

impl Session {
    pub fn new(adapter: Adapter, duration_target_secs: Option<u64>) -> (r: Session)
        ensures
            r.version@ == "1.0"@,
            r.adapter == adapter,
            r.duration_target_secs == duration_target_secs,
            r.scans@.len() == 0,
    {
        Session {
            version: default_version(),
            adapter,
            started_at: utc_now(),
            duration_target_secs,
            scans: Vec::new(),
        }
    }

    pub fn add_scan(&mut self, scan: ScanResult)
        ensures
            final(self).scans@ == old(self).scans@.push(scan),
            final(self).version == old(self).version,
            final(self).adapter == old(self).adapter,
            final(self).started_at == old(self).started_at,
            final(self).duration_target_secs == old(self).duration_target_secs,
    {
        self.scans.push(scan);
    }

    /// The planned length of the session in seconds, if one was set.
    pub fn duration_target(&self) -> (r: Option<u64>)
        ensures
            r == self.duration_target_secs,
    {
        self.duration_target_secs
    }

    /// Whole seconds from the start of the session to `now`, zero if `now` is earlier.
    pub fn elapsed_at(&self, now: Timestamp) -> (r: u64)
        ensures
            r == elapsed_since(self.started_at, now),
    {
        let d = self.started_at.seconds_until(&now);
        if d <= 0 {
            0
        } else if d >= u64::MAX as i128 {
            u64::MAX
        } else {
            d as u64
        }
    }

    /// Whole seconds since the session started.
    pub fn elapsed(&self) -> (r: u64)
        ensures
            exists|now: Timestamp| r == elapsed_since(self.started_at, now),
    {
        self.elapsed_at(utc_now())
    }

    /// Every distinct (bssid, ssid) pair seen in this session, first-seen order.
    pub fn unique_aps(&self) -> (r: Vec<(String, String)>)
        ensures
            pairs_view(r@) == dedup(sightings(self.scans@).map_values(|a: ApModel| pair_of(a))),
    {
        let mut out: Vec<(String, String)> = Vec::new();
        let mut i: usize = 0;
        assert(sightings(self.scans@.take(0)) =~= Seq::<ApModel>::empty());
        assert(pairs_view(out@) =~= Seq::<(Seq<char>, Seq<char>)>::empty());
        while i < self.scans.len()
            invariant
                i <= self.scans.len(),
                pairs_view(out@) == dedup(
                    sightings(self.scans@.take(i as int)).map_values(|a: ApModel| pair_of(a)),
                ),
            decreases self.scans.len() - i,
        {
            let scan = &self.scans[i];
            let mut j: usize = 0;
            assert(scan_aps(*scan).take(0) =~= Seq::<ApModel>::empty());
            assert(sightings(self.scans@.take(i as int)) + scan_aps(*scan).take(0) =~= sightings(
                self.scans@.take(i as int),
            ));
            while j < scan.access_points.len()
                invariant
                    i < self.scans.len(),
                    *scan == self.scans@[i as int],
                    j <= scan.access_points.len(),
                    pairs_view(out@) == dedup(
                        (sightings(self.scans@.take(i as int)) + scan_aps(*scan).take(
                            j as int,
                        )).map_values(|a: ApModel| pair_of(a)),
                    ),
                decreases scan.access_points.len() - j,
            {
                let ap = &scan.access_points[j];
                let ghost before = sightings(self.scans@.take(i as int)) + scan_aps(*scan).take(
                    j as int,
                );
                proof {
                    lemma_sightings_step(self.scans@, i as int, j as int);
                    assert(before.push(ap@).map_values(|a: ApModel| pair_of(a)).drop_last()
                        =~= before.map_values(|a: ApModel| pair_of(a)));
                }
                if !contains_pair(&out, &ap.bssid, &ap.ssid) {
                    let ghost old_out = out@;
                    out.push((ap.bssid.clone(), ap.ssid.clone()));
                    assert(pairs_view(out@) =~= pairs_view(old_out).push((ap.bssid@, ap.ssid@)));
                }
                j = j + 1;
            }
            proof {
                lemma_sightings_next(self.scans@, i as int);
            }
            i = i + 1;
        }
        assert(self.scans@.take(self.scans.len() as int) =~= self.scans@);
        out
    }

    /// The signals of every reading of `bssid` in this session, in order.
    pub fn bssid_signals(&self, bssid: &str) -> (r: Vec<i32>)
        ensures
            i32_view(r@) == bssid_signals(sightings(self.scans@), bssid@),
    {
        let mut out: Vec<i32> = Vec::new();
        let mut i: usize = 0;
        assert(sightings(self.scans@.take(0)) =~= Seq::<ApModel>::empty());
        assert(i32_view(out@) =~= Seq::<int>::empty());
        while i < self.scans.len()
            invariant
                i <= self.scans.len(),
                i32_view(out@) == bssid_signals(sightings(self.scans@.take(i as int)), bssid@),
            decreases self.scans.len() - i,
        {
            let scan = &self.scans[i];
            let mut j: usize = 0;
            assert(sightings(self.scans@.take(i as int)) + scan_aps(*scan).take(0) =~= sightings(
                self.scans@.take(i as int),
            ));
            while j < scan.access_points.len()
                invariant
                    i < self.scans.len(),
                    *scan == self.scans@[i as int],
                    j <= scan.access_points.len(),
                    i32_view(out@) == bssid_signals(
                        sightings(self.scans@.take(i as int)) + scan_aps(*scan).take(j as int),
                        bssid@,
                    ),
                decreases scan.access_points.len() - j,
            {
                let ap = &scan.access_points[j];
                proof {
                    lemma_sightings_step(self.scans@, i as int, j as int);
                    let before = sightings(self.scans@.take(i as int)) + scan_aps(*scan).take(
                        j as int,
                    );
                    assert(before.push(ap@).drop_last() =~= before);
                }
                if same_text(&ap.bssid, bssid) {
                    let ghost old_out = out@;
                    out.push(ap.signal_dbm);
                    assert(i32_view(out@) =~= i32_view(old_out).push(ap.signal_dbm as int));
                }
                j = j + 1;
            }
            proof {
                lemma_sightings_next(self.scans@, i as int);
            }
            i = i + 1;
        }
        assert(self.scans@.take(self.scans.len() as int) =~= self.scans@);
        out
    }

    /// Signal statistics of `bssid` in this session; `None` if it was never seen.
    pub fn ap_stats(&self, bssid: &str) -> (r: Option<ApStats>)
        ensures
            ({
                let sig = bssid_signals(sightings(self.scans@), bssid@);
                match r {
                    None => sig.len() == 0,
                    Some(st) => sig.len() > 0 && st.count == sig.len() && st.min == seq_min(sig)
                        && st.max == seq_max(sig) && st.avg == round_div(seq_sum(sig), sig.len() as int),
                }
            }),
    {
        let signals = self.bssid_signals(bssid);
        if signals.len() == 0 {
            return None;
        }
        let (sum, min, max) = sum_min_max(&signals);
        proof {
            lemma_bounds(i32_view(signals@));
        }
        let avg = round_avg(sum, signals.len(), min, max);
        Some(ApStats { avg, min, max, count: signals.len() })
    }
}


/// `a` and `b` hold the same readings.
pub open spec fn same_scan(a: ScanResult, b: ScanResult) -> bool {
    a.timestamp == b.timestamp && a.access_points@ == b.access_points@
}

/// `a` and `b` hold the same session.
pub open spec fn same_session(a: Session, b: Session) -> bool {
    &&& a.version == b.version
    &&& a.adapter == b.adapter
    &&& a.started_at == b.started_at
    &&& a.duration_target_secs == b.duration_target_secs
    &&& a.scans@.len() == b.scans@.len()
    &&& forall|i: int| 0 <= i < a.scans@.len() ==> same_scan(#[trigger] a.scans@[i], b.scans@[i])
}

impl Session {
    pub fn copied(&self) -> (r: Session)
        ensures
            same_session(r, *self),
    {
        let mut scans: Vec<ScanResult> = Vec::new();
        let mut i: usize = 0;
        while i < self.scans.len()
            invariant
                i <= self.scans.len(),
                scans@.len() == i,
                forall|k: int| 0 <= k < i ==> same_scan(#[trigger] scans@[k], self.scans@[k]),
            decreases self.scans.len() - i,
        {
            scans.push(self.scans[i].copied());
            i = i + 1;
        }
        Session {
            version: self.version.clone(),
            adapter: self.adapter.copied(),
            started_at: self.started_at,
            duration_target_secs: self.duration_target_secs,
            scans,
        }
    }
}

impl AccessPoint {
    /// Signal strength in percent: -100 dBm is 0, -30 dBm is 100, rounded down.
    pub fn signal_percent(&self) -> (r: u8)
        ensures
            r == crate::utils::percent_of(self.signal_dbm as int),
    {
        let c: i32 = if self.signal_dbm < -100 {
            -100
        } else if self.signal_dbm > -30 {
            -30
        } else {
            self.signal_dbm
        };
        let p: i32 = (c + 100) * 100 / 70;
        assert(0 <= (c + 100) * 100 / 70 <= 100) by (nonlinear_arith)
            requires
                0 <= c + 100 <= 70,
        ;
        p as u8
    }
}

} // verus!
