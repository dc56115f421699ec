//! User preferences and their defaults.
use vstd::prelude::*;

use crate::models::{CompareMetric, FrequencyFilter, MatchBy, SortBy, TimerMode};

verus! {

/// An access point excluded for good.
#[derive(Debug, Clone)]
pub struct ExcludedAp {
    pub bssid: String,
    pub ssid: String,
}

/// User preferences, kept between runs.
#[derive(Debug, Clone)]
pub struct Config {
    pub auto_scan_interval_secs: u64,
    pub default_timer_secs: u64,
    pub timer_mode: TimerMode,
    pub show_channel: bool,
    pub show_band: bool,
    pub highlight_best: bool,
    pub sort_by: SortBy,
    pub frequency_filter: FrequencyFilter,
    pub alert_threshold_dbm: Option<i32>,
    pub history_time_window_mins: u64,
    pub history_show_average: bool,
    pub compare_match_by: MatchBy,
    pub compare_metric: CompareMetric,
    pub excluded_aps: Vec<ExcludedAp>,
}

/// Seconds between automatic scans when none is configured.
pub fn default_auto_scan_interval() -> (r: u64)
    ensures
        r == 5,
{
    5
}

/// Session timer in seconds when none is configured.
pub fn default_timer() -> (r: u64)
    ensures
        r == 300,
{
    300
}

pub fn default_true() -> (r: bool)
    ensures
        r,
{
    true
}

/// History window in minutes when none is configured.
pub fn default_time_window() -> (r: u64)
    ensures
        r == 5,
{
    5
}

impl Default for Config {
    fn default() -> (r: Config)
        ensures
            r.auto_scan_interval_secs == 5,
            r.default_timer_secs == 300,
            r.timer_mode == TimerMode::Countdown,
            r.show_channel,
            r.show_band,
            r.highlight_best,
            r.sort_by == SortBy::Signal,
            r.frequency_filter == FrequencyFilter::All,
            r.alert_threshold_dbm is None,
            r.history_time_window_mins == 5,
            !r.history_show_average,
            r.compare_match_by == MatchBy::Bssid,
            r.compare_metric == CompareMetric::Avg,
            r.excluded_aps@.len() == 0,
    {
        Config {
            auto_scan_interval_secs: default_auto_scan_interval(),
            default_timer_secs: default_timer(),
            timer_mode: TimerMode::Countdown,
            show_channel: default_true(),
            show_band: default_true(),
            highlight_best: default_true(),
            sort_by: SortBy::Signal,
            frequency_filter: FrequencyFilter::All,
            alert_threshold_dbm: None,
            history_time_window_mins: default_time_window(),
            history_show_average: false,
            compare_match_by: MatchBy::Bssid,
            compare_metric: CompareMetric::Avg,
            excluded_aps: Vec::new(),
        }
    }
}

impl Config {
    /// Whether `bssid` is excluded for good.
    pub fn is_excluded(&self, bssid: &String) -> (r: bool)
        ensures
            r == exists|i: int| 0 <= i < self.excluded_aps@.len() && self.excluded_aps@[i].bssid@ == bssid@,
    {
        let mut i: usize = 0;
        while i < self.excluded_aps.len()
            invariant
                i <= self.excluded_aps.len(),
                forall|j: int| 0 <= j < i ==> self.excluded_aps@[j].bssid@ != bssid@,
            decreases self.excluded_aps.len() - i,
        {
            if self.excluded_aps[i].bssid == *bssid {
                return true;
            }
            i = i + 1;
        }
        false
    }
}

} // verus!
