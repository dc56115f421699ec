//! Screen state that the event loop owns and updates: the live list, its
//! cursor, the file picker, and the popups and bars drawn from them.
use vstd::prelude::*;

use crate::models::{
    band_of, filter_admits, Adapter, AccessPoint, FrequencyFilter, SortBy,
};
use crate::store::{AdapterDirInfo, SessionInfo};
use crate::utils::{byte_len, byte_len_of};
use vstd::string::StringSliceAdditionalSpecFns;

verus! {

/// Cursor and scroll position of a list.
#[derive(Debug, Default, Clone, Copy)]
pub struct ApListState {
    pub selected: usize,
    pub offset: usize,
}

impl ApListState {
    pub fn select_next(&mut self, len: usize)
        ensures
            final(self).selected == if len > 0 {
                if old(self).selected + 1 < len {
                    old(self).selected + 1
                } else {
                    len - 1
                }
            } else {
                old(self).selected as int
            },
            final(self).offset == old(self).offset,
    {
        if len > 0 {
            self.selected = if self.selected < len - 1 {
                self.selected + 1
            } else {
                len - 1
            };
        }
    }

    pub fn select_prev(&mut self)
        ensures
            final(self).selected == if old(self).selected > 0 {
                old(self).selected - 1
            } else {
                0
            },
            final(self).offset == old(self).offset,
    {
        self.selected = self.selected.saturating_sub(1);
    }

    /// Scrolls so that the cursor is among the `visible_height` rows shown.
    pub fn ensure_visible(&mut self, visible_height: usize)
        ensures
            final(self).selected == old(self).selected,
            final(self).offset == if old(self).selected < old(self).offset {
                old(self).selected as int
            } else if old(self).selected >= old(self).offset + visible_height {
                if old(self).selected - visible_height + 1 > usize::MAX {
                    usize::MAX as int
                } else {
                    old(self).selected - visible_height + 1
                }
            } else {
                old(self).offset as int
            },
    {
        if self.selected < self.offset {
            self.offset = self.selected;
        } else if self.selected - self.offset >= visible_height {
            self.offset = (self.selected - visible_height).saturating_add(1);
        }
    }
}

/// Live scan screen state.
#[derive(Debug)]
pub struct LiveState {
    pub adapter: Option<Adapter>,
    pub access_points: Vec<AccessPoint>,
    pub ap_list_state: ApListState,
    pub auto_scan: bool,
    pub auto_scan_interval: u64,
    pub timer_target_secs: Option<u64>,
    pub elapsed_secs: u64,
    pub show_channel: bool,
    pub show_band: bool,
    pub highlight_best: bool,
    pub frequency_filter: FrequencyFilter,
    pub sort_by: SortBy,
    pub last_scan_error: Option<String>,
    pub scanning: bool,
    /// BSSIDs hidden for this session, each once.
    pub session_excluded_bssids: Vec<String>,
}

pub open spec fn texts(v: Seq<String>) -> Seq<Seq<char>> {
    v.map_values(|s: String| s@)
}

/// The readings the live list shows: not excluded, and in the chosen band.
pub open spec fn visible_aps(aps: Seq<AccessPoint>, excluded: Seq<Seq<char>>, f: FrequencyFilter) -> Seq<AccessPoint>
    decreases aps.len(),
{
    if aps.len() == 0 {
        Seq::empty()
    } else {
        let pre = visible_aps(aps.drop_last(), excluded, f);
        let a = aps.last();
        if !excluded.contains(a.bssid@) && filter_admits(f, band_of(a.frequency_mhz as int)) {
            pre.push(a)
        } else {
            pre
        }
    }
}

/// The reading under the live list's cursor, if any.
pub open spec fn selected_visible(l: LiveState) -> Option<AccessPoint> {
    let vis = visible_aps(l.access_points@, texts(l.session_excluded_bssids@), l.frequency_filter);
    if l.ap_list_state.selected < vis.len() {
        Some(vis[l.ap_list_state.selected as int])
    } else {
        None
    }
}

impl Default for LiveState {
    fn default() -> (r: LiveState)
        ensures
            r.adapter is None,
            r.access_points@.len() == 0,
            r.ap_list_state.selected == 0 && r.ap_list_state.offset == 0,
            r.auto_scan,
            r.auto_scan_interval == 5,
            r.timer_target_secs == Some(300u64),
            r.elapsed_secs == 0,
            r.show_channel && r.show_band && r.highlight_best,
            r.frequency_filter == FrequencyFilter::All,
            r.sort_by == SortBy::Signal,
            r.last_scan_error is None,
            !r.scanning,
            r.session_excluded_bssids@.len() == 0,
    {
        LiveState {
            adapter: None,
            access_points: Vec::new(),
            ap_list_state: ApListState { selected: 0, offset: 0 },
            auto_scan: true,
            auto_scan_interval: 5,
            timer_target_secs: Some(300),
            elapsed_secs: 0,
            show_channel: true,
            show_band: true,
            highlight_best: true,
            frequency_filter: FrequencyFilter::All,
            sort_by: SortBy::Signal,
            last_scan_error: None,
            scanning: false,
            session_excluded_bssids: Vec::new(),
        }
    }
}

impl LiveState {
    pub fn toggle_auto_scan(&mut self)
        ensures
            *final(self) == (LiveState { auto_scan: !old(self).auto_scan, ..*old(self) }),
    {
        self.auto_scan = !self.auto_scan;
    }

    pub fn toggle_channel(&mut self)
        ensures
            *final(self) == (LiveState { show_channel: !old(self).show_channel, ..*old(self) }),
    {
        self.show_channel = !self.show_channel;
    }

    pub fn toggle_band(&mut self)
        ensures
            *final(self) == (LiveState { show_band: !old(self).show_band, ..*old(self) }),
    {
        self.show_band = !self.show_band;
    }

    pub fn toggle_highlight(&mut self)
        ensures
            *final(self) == (LiveState { highlight_best: !old(self).highlight_best, ..*old(self) }),
    {
        self.highlight_best = !self.highlight_best;
    }

    /// Next band filter; the cursor goes back to the top.
    pub fn cycle_filter(&mut self)
        ensures
            *final(self) == (LiveState {
                frequency_filter: crate::models::filter_after(old(self).frequency_filter),
                ap_list_state: ApListState { selected: 0, offset: 0 },
                ..*old(self)
            }),
    {
        self.frequency_filter = self.frequency_filter.next();
        self.ap_list_state.selected = 0;
        self.ap_list_state.offset = 0;
    }

    pub fn cycle_sort(&mut self)
        ensures
            *final(self) == (LiveState { sort_by: crate::models::sort_after(old(self).sort_by), ..*old(self) }),
    {
        self.sort_by = self.sort_by.next();
    }

    /// Hides `bssid` for the rest of the session; the cursor goes back to the top.
    pub fn exclude_session(&mut self, bssid: &str)
        ensures
            texts(final(self).session_excluded_bssids@).to_set() == texts(
                old(self).session_excluded_bssids@,
            ).to_set().insert(bssid@),
            texts(old(self).session_excluded_bssids@).no_duplicates() ==> texts(
                final(self).session_excluded_bssids@,
            ).no_duplicates(),
            final(self).ap_list_state.selected == 0,
            final(self).ap_list_state.offset == 0,
            final(self).access_points@ == old(self).access_points@,
            final(self).frequency_filter == old(self).frequency_filter,
            final(self).scanning == old(self).scanning,
    {
        let b = bssid.to_owned();
        let ghost old_t = texts(self.session_excluded_bssids@);
        if self.is_excluded(&b) {
            assert(old_t.to_set().insert(bssid@) =~= old_t.to_set());
        } else {
            self.session_excluded_bssids.push(b);
            let ghost x = bssid@;
            assert(texts(self.session_excluded_bssids@) =~= old_t.push(x));
            assert forall|y: Seq<char>| old_t.push(x).contains(y) <==> (old_t.contains(y) || y == x) by {
                if old_t.push(x).contains(y) {
                    let i = choose|i: int| 0 <= i < old_t.push(x).len() && old_t.push(x)[i] == y;
                    if i < old_t.len() {
                        assert(old_t[i] == y);
                    }
                }
                if old_t.contains(y) {
                    let i = choose|i: int| 0 <= i < old_t.len() && old_t[i] == y;
                    assert(old_t.push(x)[i] == y);
                }
                if y == x {
                    assert(old_t.push(x)[old_t.len() as int] == x);
                }
            }
            assert(old_t.push(x).to_set() =~= old_t.to_set().insert(x));
            assert(old_t.no_duplicates() ==> old_t.push(x).no_duplicates()) by {
                if old_t.no_duplicates() {
                    assert forall|i: int, j: int| 0 <= i < old_t.push(x).len() && 0 <= j < old_t.push(x).len() && i != j implies old_t.push(x)[i] != old_t.push(x)[j] by {
                        if i < old_t.len() && j == old_t.len() {
                            assert(old_t[i] == old_t.push(x)[i]);
                        }
                        if j < old_t.len() && i == old_t.len() {
                            assert(old_t[j] == old_t.push(x)[j]);
                        }
                    }
                }
            }
        }
        self.ap_list_state.selected = 0;
        self.ap_list_state.offset = 0;
    }

    fn is_excluded(&self, bssid: &String) -> (r: bool)
        ensures
            r == texts(self.session_excluded_bssids@).contains(bssid@),
    {
        let mut i: usize = 0;
        while i < self.session_excluded_bssids.len()
            invariant
                i <= self.session_excluded_bssids.len(),
                forall|j: int| 0 <= j < i ==> texts(self.session_excluded_bssids@)[j] != bssid@,
            decreases self.session_excluded_bssids.len() - i,
        {
            if self.session_excluded_bssids[i] == *bssid {
                assert(texts(self.session_excluded_bssids@)[i as int] == bssid@);
                return true;
            }
            i = i + 1;
        }
        false
    }

    /// The reading under the cursor among those the list shows.
    pub fn get_selected_ap(&self) -> (r: Option<&AccessPoint>)
        ensures
            ({
                let vis = visible_aps(self.access_points@, texts(self.session_excluded_bssids@), self.frequency_filter);
                match r {
                    Some(a) => self.ap_list_state.selected < vis.len() && *a == vis[self.ap_list_state.selected as int],
                    None => self.ap_list_state.selected >= vis.len(),
                }
            }),
    {
        let ghost ex = texts(self.session_excluded_bssids@);
        let ghost f = self.frequency_filter;
        let target = self.ap_list_state.selected;
        let mut count: usize = 0;
        let mut i: usize = 0;
        assert(self.access_points@.take(0) =~= Seq::<AccessPoint>::empty());
        while i < self.access_points.len()
            invariant
                i <= self.access_points.len(),
                ex == texts(self.session_excluded_bssids@),
                f == self.frequency_filter,
                target == self.ap_list_state.selected,
                count == visible_aps(self.access_points@.take(i as int), ex, f).len(),
                count <= target,
            decreases self.access_points.len() - i,
        {
            let a = &self.access_points[i];
            let ghost pre = self.access_points@.take(i as int);
            assert(self.access_points@.take(i + 1).drop_last() =~= pre);
            assert(self.access_points@.take(i + 1).last() == *a);
            if !self.is_excluded(&a.bssid) && self.frequency_filter.matches(a.band()) {
                if count == target {
                    proof {
                        lemma_visible_prefix(self.access_points@, i + 1, ex, f);
                    }
                    return Some(a);
                }
                count = count + 1;
            }
            i = i + 1;
        }
        assert(self.access_points@.take(self.access_points.len() as int) =~= self.access_points@);
        None
    }

    /// Seconds left on the session timer, if one is set.
    pub fn timer_remaining(&self) -> (r: Option<u64>)
        ensures
            r == match self.timer_target_secs {
                Some(t) => Some(if t >= self.elapsed_secs {
                    (t - self.elapsed_secs) as u64
                } else {
                    0u64
                }),
                None => None,
            },
    {
        match self.timer_target_secs {
            Some(t) => Some(t.saturating_sub(self.elapsed_secs)),
            None => None,
        }
    }

    /// Whether a set timer has run out.
    pub fn timer_expired(&self) -> (r: bool)
        ensures
            r == match self.timer_target_secs {
                Some(t) => self.elapsed_secs >= t,
                None => false,
            },
    {
        match self.timer_target_secs {
            Some(t) => self.elapsed_secs >= t,
            None => false,
        }
    }
}

/// The visible readings of a prefix are a prefix of the visible readings.
proof fn lemma_visible_prefix(aps: Seq<AccessPoint>, k: int, ex: Seq<Seq<char>>, f: FrequencyFilter)
    requires
        0 <= k <= aps.len(),
    ensures
        visible_aps(aps.take(k), ex, f).len() <= visible_aps(aps, ex, f).len(),
        forall|j: int|
            0 <= j < visible_aps(aps.take(k), ex, f).len() ==> #[trigger] visible_aps(aps, ex, f)[j]
                == visible_aps(aps.take(k), ex, f)[j],
    decreases aps.len() - k,
{
    if k < aps.len() {
        lemma_visible_prefix(aps, k + 1, ex, f);
        assert(aps.take(k + 1).drop_last() =~= aps.take(k));
    } else {
        assert(aps.take(k) =~= aps);
    }
}

/// Live scan screen.
pub struct LiveScreen<'a> {
    pub state: &'a LiveState,
}

impl<'a> LiveScreen<'a> {
    pub fn new(state: &'a LiveState) -> (r: LiveScreen<'a>)
        ensures
            r.state == state,
    {
        LiveScreen { state }
    }
}

/// A dialog with a message and a choice of options.
pub struct Dialog<'a> {
    pub title: &'a str,
    pub message: &'a str,
    pub options: &'a [&'a str],
    pub selected: usize,
}

impl<'a> Dialog<'a> {
    pub fn new(title: &'a str, message: &'a str, options: &'a [&'a str]) -> (r: Dialog<'a>)
        ensures
            r.title == title,
            r.message == message,
            r.options == options,
            r.selected == 0,
    {
        Dialog { title, message, options, selected: 0 }
    }

    pub fn selected(self, selected: usize) -> (r: Dialog<'a>)
        ensures
            r.title == self.title,
            r.message == self.message,
            r.options == self.options,
            r.selected == selected,
    {
        Dialog { selected, ..self }
    }
}

/// A text entry popup.
pub struct InputPopup<'a> {
    pub title: &'a str,
    pub prompt: &'a str,
    pub value: &'a str,
    pub cursor_pos: usize,
}

impl<'a> InputPopup<'a> {
    /// The cursor starts after the last byte of `value`.
    pub fn new(title: &'a str, prompt: &'a str, value: &'a str) -> (r: InputPopup<'a>)
        ensures
            r.title == title,
            r.prompt == prompt,
            r.value == value,
            r.cursor_pos == value.spec_bytes().len() as usize,
    {
        InputPopup { title, prompt, value, cursor_pos: value.len() }
    }

    pub fn cursor_pos(self, pos: usize) -> (r: InputPopup<'a>)
        ensures
            r.title == self.title,
            r.prompt == self.prompt,
            r.value == self.value,
            r.cursor_pos == pos,
    {
        InputPopup { cursor_pos: pos, ..self }
    }
}

/// What the file picker is showing.
#[derive(Debug, Clone, PartialEq)]
pub enum BrowseLevel {
    /// Adapter directories.
    Adapters,
    /// Sessions inside one adapter directory.
    Sessions { adapter_path: String, adapter_name: String },
}

impl Default for BrowseLevel {
    fn default() -> (r: BrowseLevel)
        ensures
            r is Adapters,
    {
        BrowseLevel::Adapters
    }
}

/// File picker with two levels: adapter directories, then their sessions.
#[derive(Debug)]
pub struct FilePickerState {
    pub level: BrowseLevel,
    /// Display strings of the current level.
    pub items: Vec<String>,
    pub selected: usize,
    pub adapter_dirs: Vec<AdapterDirInfo>,
    pub session_infos: Vec<SessionInfo>,
}

impl Default for FilePickerState {
    fn default() -> (r: FilePickerState)
        ensures
            r.level is Adapters,
            r.items@.len() == 0,
            r.selected == 0,
            r.adapter_dirs@.len() == 0,
            r.session_infos@.len() == 0,
    {
        FilePickerState {
            level: BrowseLevel::Adapters,
            items: Vec::new(),
            selected: 0,
            adapter_dirs: Vec::new(),
            session_infos: Vec::new(),
        }
    }
}

pub open spec fn session_entry(s: SessionInfo) -> Seq<char> {
    s.started_at@ + " - "@ + crate::text::dec_text(s.scan_count as nat) + " scans"@
}

pub open spec fn adapter_entry(a: AdapterDirInfo) -> Seq<char> {
    "\u{1F4C1} "@ + a.name@ + " ("@ + crate::text::dec_text(a.session_count as nat) + " sessions)"@
}

pub fn adapter_entries(adapters: &Vec<AdapterDirInfo>) -> (r: Vec<String>)
    ensures
        texts(r@) == adapters@.map_values(|a: AdapterDirInfo| adapter_entry(a)),
{
    let mut out: Vec<String> = Vec::new();
    let mut i: usize = 0;
    while i < adapters.len()
        invariant
            i <= adapters.len(),
            texts(out@) == adapters@.take(i as int).map_values(|a: AdapterDirInfo| adapter_entry(a)),
        decreases adapters.len() - i,
    {
        let e = adapters[i].display_string();
        let ghost old_out = out@;
        out.push(e);
        assert(texts(out@) =~= texts(old_out).push(e@));
        assert(adapters@.take(i + 1).map_values(|a: AdapterDirInfo| adapter_entry(a)) =~= adapters@.take(i as int).map_values(|a: AdapterDirInfo| adapter_entry(a)).push(adapter_entry(adapters@[i as int])));
        assert(texts(out@) =~= adapters@.take(i + 1).map_values(|a: AdapterDirInfo| adapter_entry(a)));
        i = i + 1;
    }
    assert(adapters@.take(adapters.len() as int) =~= adapters@);
    out
}

pub fn session_entries(sessions: &Vec<SessionInfo>) -> (r: Vec<String>)
    ensures
        texts(r@) == sessions@.map_values(|s: SessionInfo| session_entry(s)),
{
    let mut out: Vec<String> = Vec::new();
    let mut i: usize = 0;
    while i < sessions.len()
        invariant
            i <= sessions.len(),
            texts(out@) == sessions@.take(i as int).map_values(|s: SessionInfo| session_entry(s)),
        decreases sessions.len() - i,
    {
        let e = sessions[i].display_string();
        let ghost old_out = out@;
        out.push(e);
        assert(texts(out@) =~= texts(old_out).push(e@));
        assert(sessions@.take(i + 1).map_values(|s: SessionInfo| session_entry(s)) =~= sessions@.take(i as int).map_values(|s: SessionInfo| session_entry(s)).push(session_entry(sessions@[i as int])));
        assert(texts(out@) =~= sessions@.take(i + 1).map_values(|s: SessionInfo| session_entry(s)));
        i = i + 1;
    }
    assert(sessions@.take(sessions.len() as int) =~= sessions@);
    out
}

impl FilePickerState {
    pub fn select_next(&mut self)
        ensures
            final(self).selected == if old(self).items@.len() > 0 {
                if old(self).selected + 1 < old(self).items@.len() {
                    old(self).selected + 1
                } else {
                    old(self).items@.len() - 1
                }
            } else {
                old(self).selected as int
            },
            final(self).items@ == old(self).items@,
            final(self).level == old(self).level,
            final(self).adapter_dirs@ == old(self).adapter_dirs@,
            final(self).session_infos@ == old(self).session_infos@,
    {
        if self.items.len() > 0 {
            self.selected = if self.selected < self.items.len() - 1 {
                self.selected + 1
            } else {
                self.items.len() - 1
            };
        }
    }

    pub fn select_prev(&mut self)
        ensures
            final(self).selected == if old(self).selected > 0 {
                old(self).selected - 1
            } else {
                0
            },
            final(self).items@ == old(self).items@,
            final(self).level == old(self).level,
            final(self).adapter_dirs@ == old(self).adapter_dirs@,
            final(self).session_infos@ == old(self).session_infos@,
    {
        self.selected = self.selected.saturating_sub(1);
    }

    pub fn is_at_adapters(&self) -> (r: bool)
        ensures
            r == self.level is Adapters,
    {
        match self.level {
            BrowseLevel::Adapters => true,
            _ => false,
        }
    }

    pub fn is_at_sessions(&self) -> (r: bool)
        ensures
            r == self.level is Sessions,
    {
        match self.level {
            BrowseLevel::Sessions { .. } => true,
            _ => false,
        }
    }

    /// The adapter directory under the cursor, at the adapter level.
    pub fn get_selected_adapter(&self) -> (r: Option<&AdapterDirInfo>)
        ensures
            match r {
                Some(a) => self.level is Adapters && self.selected < self.adapter_dirs@.len()
                    && *a == self.adapter_dirs@[self.selected as int],
                None => !(self.level is Adapters) || self.selected >= self.adapter_dirs@.len(),
            },
    {
        if self.is_at_adapters() && self.selected < self.adapter_dirs.len() {
            Some(&self.adapter_dirs[self.selected])
        } else {
            None
        }
    }

    /// The session under the cursor, at the session level.
    pub fn get_selected_session(&self) -> (r: Option<&SessionInfo>)
        ensures
            match r {
                Some(s) => self.level is Sessions && self.selected < self.session_infos@.len()
                    && *s == self.session_infos@[self.selected as int],
                None => !(self.level is Sessions) || self.selected >= self.session_infos@.len(),
            },
    {
        if self.is_at_sessions() && self.selected < self.session_infos.len() {
            Some(&self.session_infos[self.selected])
        } else {
            None
        }
    }

    /// Opens an adapter directory holding `sessions`.
    pub fn enter_adapter(&mut self, adapter: &AdapterDirInfo, sessions: Vec<SessionInfo>)
        ensures
            final(self).level == (BrowseLevel::Sessions {
                adapter_path: adapter.path,
                adapter_name: adapter.name,
            }),
            texts(final(self).items@) == sessions@.map_values(|s: SessionInfo| session_entry(s)),
            final(self).session_infos@ == sessions@,
            final(self).selected == 0,
            final(self).adapter_dirs@ == old(self).adapter_dirs@,
    {
        self.level = BrowseLevel::Sessions {
            adapter_path: adapter.path.clone(),
            adapter_name: adapter.name.clone(),
        };
        self.items = session_entries(&sessions);
        self.session_infos = sessions;
        self.selected = 0;
    }

    /// Returns to the adapter level, listing `adapters`.
    pub fn go_back(&mut self, adapters: Vec<AdapterDirInfo>)
        ensures
            final(self).level is Adapters,
            texts(final(self).items@) == adapters@.map_values(|a: AdapterDirInfo| adapter_entry(a)),
            final(self).adapter_dirs@ == adapters@,
            final(self).selected == 0,
            final(self).session_infos@ == old(self).session_infos@,
    {
        self.set_adapters(adapters);
    }

    /// Starts at the adapter level, listing `adapters`.
    pub fn set_adapters(&mut self, adapters: Vec<AdapterDirInfo>)
        ensures
            final(self).level is Adapters,
            texts(final(self).items@) == adapters@.map_values(|a: AdapterDirInfo| adapter_entry(a)),
            final(self).adapter_dirs@ == adapters@,
            final(self).selected == 0,
            final(self).session_infos@ == old(self).session_infos@,
    {
        self.level = BrowseLevel::Adapters;
        self.items = adapter_entries(&adapters);
        self.adapter_dirs = adapters;
        self.selected = 0;
    }

    /// The name of the adapter directory being shown, at the session level.
    pub fn current_dir_name(&self) -> (r: Option<&str>)
        ensures
            match self.level {
                BrowseLevel::Adapters => r is None,
                BrowseLevel::Sessions { adapter_name, .. } => r matches Some(n) && n@ == adapter_name@,
            },
    {
        match &self.level {
            BrowseLevel::Adapters => None,
            BrowseLevel::Sessions { adapter_name, .. } => Some(adapter_name.as_str()),
        }
    }

    /// The display strings of the current level.
    pub fn files(&self) -> (r: &Vec<String>)
        ensures
            r@ == self.items@,
    {
        &self.items
    }
}

/// File picker popup.
pub struct FilePicker<'a> {
    pub title: &'a str,
    pub state: &'a FilePickerState,
}

impl<'a> FilePicker<'a> {
    pub fn new(title: &'a str, state: &'a FilePickerState) -> (r: FilePicker<'a>)
        ensures
            r.title == title,
            r.state == state,
    {
        FilePicker { title, state }
    }
}

/// A horizontal signal-strength bar.
pub struct SignalBar {
    pub signal_dbm: i32,
    pub show_value: bool,
    pub highlighted: bool,
}

impl SignalBar {
    pub fn new(signal_dbm: i32) -> (r: SignalBar)
        ensures
            r.signal_dbm == signal_dbm,
            r.show_value,
            !r.highlighted,
    {
        SignalBar { signal_dbm, show_value: true, highlighted: false }
    }

    pub fn show_value(self, show: bool) -> (r: SignalBar)
        ensures
            r.signal_dbm == self.signal_dbm,
            r.show_value == show,
            r.highlighted == self.highlighted,
    {
        SignalBar { show_value: show, ..self }
    }

    pub fn highlighted(self, highlighted: bool) -> (r: SignalBar)
        ensures
            r.signal_dbm == self.signal_dbm,
            r.show_value == self.show_value,
            r.highlighted == highlighted,
    {
        SignalBar { highlighted, ..self }
    }
}

/// Bars comparing one value per adapter.
pub struct ComparisonBar {
    pub values: Vec<(String, Option<i32>)>,
    pub max_name_width: u16,
}

/// The length in bytes (UTF-8) of the longest name.
pub open spec fn widest_name(v: Seq<(String, Option<i32>)>) -> int
    decreases v.len(),
{
    if v.len() == 0 {
        0
    } else {
        let w = widest_name(v.drop_last());
        if byte_len(v.last().0@) > w {
            byte_len(v.last().0@)
        } else {
            w
        }
    }
}

impl ComparisonBar {
    /// The name column is as wide as the longest name in bytes, at most 20;
    /// 10 when there are no values.
    pub fn new(values: Vec<(String, Option<i32>)>) -> (r: ComparisonBar)
        ensures
            r.values@ == values@,
            r.max_name_width == if values@.len() == 0 {
                10
            } else if widest_name(values@) > 20 {
                20
            } else {
                widest_name(values@)
            },
    {
        let mut widest: u128 = 0;
        let mut i: usize = 0;
        while i < values.len()
            invariant
                i <= values.len(),
                widest == widest_name(values@.take(i as int)),
            decreases values.len() - i,
        {
            assert(values@.take(i + 1).drop_last() =~= values@.take(i as int));
            let n = byte_len_of(&crate::text::chars_of(values[i].0.as_str()));
            if n > widest {
                widest = n;
            }
            i = i + 1;
        }
        assert(values@.take(values.len() as int) =~= values@);
        let w: u16 = if values.len() == 0 {
            10
        } else if widest > 20 {
            20
        } else {
            widest as u16
        };
        ComparisonBar { values, max_name_width: w }
    }
}

} // verus!
