//! The application state owned by the event loop, and its transitions. The
//! loop itself (terminal, clock, scan worker, files) drives these from the
//! outside: it passes in what it observed and performs what is asked for.
use vstd::prelude::*;

use crate::compare::CompareState;
use crate::config::{Config, ExcludedAp};
use crate::history::HistoryState;
use crate::models::{
    copy_access_points, opt_text, same_session, Adapter, ScanResult, Session,
};
use crate::store::{validate_session, AdapterDirInfo, SessionInfo};
use crate::text::{chars_of, parse_u64_range, parse_u64_spec, push_dec, push_str, push_string, string_of};
use crate::ui::{session_entries, session_entry, texts, FilePickerState, LiveState};

verus! {

/// The screen on show.
#[derive(Debug, Clone, Copy, PartialEq, Eq, Structural)]
pub enum Screen {
    Live,
    History,
    Compare,
}

/// The popup on show, with the fields its transitions need.
#[derive(Debug, Clone, PartialEq, Eq)]
pub enum Popup {
    /// No popup.
    Closed,
    AdapterCollision { selected: usize },
    RenameAdapter { input: String, cursor: usize },
    TimerSetup { input: String, cursor: usize },
    FilePicker,
    ExportChoice { selected: usize },
    Error { message: String },
    /// Confirm quitting with unsaved data or a scan in flight.
    ConfirmQuit { selected: usize },
    /// Exclude an access point for this session or for good.
    ExcludeAp { bssid: String, ssid: String, selected: usize },
    /// A loaded session has integrity warnings.
    SessionWarning { message: String, path: String },
}

/// What the scan worker's channel held this tick.
#[derive(Debug)]
pub enum ScanPoll {
    /// No scan worker exists.
    NoWorker,
    /// The worker is still running.
    Pending,
    /// The worker finished with a scan.
    Delivered(ScanResult),
    /// The worker's scan failed with this message.
    Failed(String),
    /// The channel closed without a message.
    Crashed,
}

/// The whole application state. Times are whole seconds of a monotonic
/// clock kept by the event loop.
#[derive(Debug)]
pub struct App {
    pub running: bool,
    pub screen: Screen,
    pub popup: Popup,
    pub config: Config,
    pub live: LiveState,
    pub history: HistoryState,
    pub compare: CompareState,
    pub file_picker: FilePickerState,
    pub current_session: Option<Session>,
    pub session_modified: bool,
    pub last_scan: Option<u64>,
    pub session_start: Option<u64>,
}

/// Whether an automatic scan is due at `now`.
pub open spec fn auto_scan_due(a: App, now: u64) -> bool {
    &&& a.live.auto_scan
    &&& a.screen == Screen::Live
    &&& a.popup is Closed
    &&& match a.last_scan {
        Some(l) => now >= l && now - l >= a.live.auto_scan_interval,
        None => true,
    }
}

impl App {
    /// A fresh application with the preferences of `config`.
    pub fn new(config: Config) -> (r: App)
        ensures
            r.running,
            r.screen == Screen::Live,
            r.popup is Closed,
            !r.live.scanning,
            r.live.auto_scan,
            r.live.auto_scan_interval == config.auto_scan_interval_secs,
            r.live.timer_target_secs == Some(config.default_timer_secs),
            r.history.time_window_mins == config.history_time_window_mins,
            r.compare.match_by == config.compare_match_by,
            r.compare.metric == config.compare_metric,
            r.current_session is None,
            !r.session_modified,
    {
        let mut live = LiveState::default();
        live.auto_scan_interval = config.auto_scan_interval_secs;
        live.timer_target_secs = Some(config.default_timer_secs);
        live.show_channel = config.show_channel;
        live.show_band = config.show_band;
        live.highlight_best = config.highlight_best;
        live.frequency_filter = config.frequency_filter;
        live.sort_by = config.sort_by;
        let mut history = HistoryState::default();
        history.time_window_mins = config.history_time_window_mins;
        history.show_average = config.history_show_average;
        let mut compare = CompareState::default();
        compare.match_by = config.compare_match_by;
        compare.metric = config.compare_metric;
        App {
            running: true,
            screen: Screen::Live,
            popup: Popup::Closed,
            config,
            live,
            history,
            compare,
            file_picker: FilePickerState::default(),
            current_session: None,
            session_modified: false,
            last_scan: None,
            session_start: None,
        }
    }

    /// Takes the adapters found at start-up: the first one is used; a
    /// failure is shown.
    pub fn init(&mut self, detected: Result<Vec<Adapter>, String>, now: u64)
        ensures
            match detected {
                Ok(v) => if v@.len() > 0 {
                    final(self).live.adapter == Some(v@[0]) && (final(self).current_session matches Some(s)
                        && s.adapter == v@[0] && s.scans@.len() == 0 && final(self).session_start
                        == Some(now) && !final(self).session_modified)
                } else {
                    final(self).live.adapter == old(self).live.adapter
                },
                Err(e) => final(self).popup matches Popup::Error { message } && message@
                    == "Failed to detect adapters: "@ + e@,
            },
    {
        match detected {
            Ok(adapters) => {
                if adapters.len() > 0 {
                    let a = adapters[0].copied();
                    self.set_adapter(a, now);
                }
            },
            Err(e) => {
                let mut v: Vec<char> = Vec::new();
                push_str(&mut v, "Failed to detect adapters: ");
                push_string(&mut v, &e);
                self.show_error(string_of(v.as_slice()));
            },
        }
    }

    /// Starts a new session on `adapter`.
    pub fn set_adapter(&mut self, adapter: Adapter, now: u64)
        ensures
            final(self).live.adapter == Some(adapter),
            final(self).current_session matches Some(s) && s.adapter == adapter && s.scans@.len() == 0
                && s.duration_target_secs == old(self).live.timer_target_secs,
            final(self).session_start == Some(now),
            !final(self).session_modified,
            final(self).live.scanning == old(self).live.scanning,
            final(self).popup == old(self).popup,
    {
        self.live.adapter = Some(adapter.copied());
        self.current_session = Some(Session::new(adapter, self.live.timer_target_secs));
        self.session_start = Some(now);
        self.session_modified = false;
    }

    /// Shows `screen`, closing any popup; the history screen gets a copy of
    /// the session in progress.
    pub fn switch_screen(&mut self, screen: Screen)
        ensures
            final(self).screen == screen,
            final(self).popup is Closed,
            screen == Screen::History && old(self).current_session is Some ==> (final(self).history.session matches Some(h) && same_session(h, old(self).current_session->0)),
            !(screen == Screen::History && old(self).current_session is Some)
                ==> final(self).history.session == old(self).history.session,
            final(self).live.scanning == old(self).live.scanning,
    {
        self.screen = screen;
        self.popup = Popup::Closed;
        if screen == Screen::History {
            if let Some(session) = &self.current_session {
                self.history.session = Some(session.copied());
            }
        }
    }

    /// Asks for a scan. Nothing happens while one is in flight or without an
    /// adapter; otherwise the scan is marked in flight and the interface to
    /// scan is returned, for the event loop to hand to a worker.
    pub fn perform_scan(&mut self) -> (r: Option<String>)
        ensures
            old(self).live.scanning ==> r is None && *final(self) == *old(self),
            !old(self).live.scanning && old(self).live.adapter is None ==> r is None && *final(self)
                == *old(self),
            !old(self).live.scanning && old(self).live.adapter is Some ==> (r matches Some(i) && i@
                == old(self).live.adapter->0.interface@ && final(self).live.scanning
                && final(self).live.last_scan_error is None),
            final(self).current_session == old(self).current_session,
            final(self).screen == old(self).screen,
            final(self).popup == old(self).popup,
            final(self).last_scan == old(self).last_scan,
            final(self).live.adapter == old(self).live.adapter,
            final(self).live.access_points@ == old(self).live.access_points@,
            final(self).session_modified == old(self).session_modified,
            final(self).live.elapsed_secs == old(self).live.elapsed_secs,
    {
        if self.live.scanning {
            return None;
        }
        let interface = match &self.live.adapter {
            Some(a) => a.interface.clone(),
            None => return None,
        };
        self.live.scanning = true;
        self.live.last_scan_error = None;
        Some(interface)
    }

    /// One tick of the event loop at monotonic time `now`, given what the
    /// scan channel held. Applies a finished scan or its failure, then starts
    /// an automatic scan if one is due and none is in flight; the interface
    /// to scan is returned when a scan should start.
    pub fn tick(&mut self, now: u64, poll: ScanPoll) -> (r: Option<String>)
        ensures
            old(self).live.scanning && poll is Pending ==> r is None && final(self).live.scanning,
            r is Some <==> ({
                &&& old(self).live.auto_scan
                &&& old(self).screen == Screen::Live
                &&& old(self).popup is Closed
                &&& old(self).live.adapter is Some
                &&& !(old(self).live.scanning && (poll is Pending || poll is NoWorker))
                &&& match final(self).last_scan {
                    Some(l) => now >= l && now - l >= old(self).live.auto_scan_interval,
                    None => true,
                }
            }),
            old(self).session_start matches Some(st) ==> final(self).live.elapsed_secs == if now >= st {
                (now - st) as u64
            } else {
                0u64
            },
            r is Some ==> final(self).live.scanning,
            !(old(self).live.auto_scan && old(self).screen == Screen::Live && old(self).popup is Closed)
                ==> r is None,
            match poll {
                ScanPoll::Delivered(s) => {
                    &&& final(self).live.scanning == (r is Some)
                    &&& final(self).live.access_points@ == s.access_points@
                    &&& final(self).live.last_scan_error is None
                    &&& final(self).last_scan == Some(now)
                    &&& match old(self).current_session {
                        Some(c) => final(self).current_session matches Some(n) && n.scans@ == c.scans@.push(s)
                            && n.adapter == c.adapter && n.started_at == c.started_at && n.version
                            == c.version && n.duration_target_secs == c.duration_target_secs
                            && final(self).session_modified,
                        None => final(self).current_session is None && final(self).session_modified
                            == old(self).session_modified,
                    }
                },
                ScanPoll::Failed(e) => {
                    &&& final(self).live.scanning == (r is Some)
                    &&& r is None ==> final(self).live.last_scan_error == Some(e)
                    &&& r is Some ==> final(self).live.last_scan_error is None
                    &&& final(self).current_session == old(self).current_session
                    &&& final(self).session_modified == old(self).session_modified
                    &&& final(self).live.access_points@ == old(self).live.access_points@
                    &&& final(self).last_scan == old(self).last_scan
                },
                ScanPoll::Crashed => {
                    &&& final(self).live.scanning == (r is Some)
                    &&& r is None ==> (final(self).live.last_scan_error matches Some(m) && m@
                        == "Scan thread crashed"@)
                    &&& r is Some ==> final(self).live.last_scan_error is None
                    &&& final(self).current_session == old(self).current_session
                    &&& final(self).session_modified == old(self).session_modified
                    &&& final(self).live.access_points@ == old(self).live.access_points@
                    &&& final(self).last_scan == old(self).last_scan
                },
                _ => {
                    &&& final(self).current_session == old(self).current_session
                    &&& final(self).session_modified == old(self).session_modified
                    &&& final(self).live.access_points@ == old(self).live.access_points@
                    &&& final(self).last_scan == old(self).last_scan
                    &&& r is None ==> final(self).live.scanning == old(self).live.scanning
                        && final(self).live.last_scan_error == old(self).live.last_scan_error
                },
            },
            final(self).screen == old(self).screen,
            final(self).popup == old(self).popup,
    {
        self.apply_poll(now, poll);
        self.start_due_scan(now)
    }

    /// Applies what the scan channel held: a finished scan joins the session,
    /// a failure or crash is recorded, and either way the scan ends.
    fn apply_poll(&mut self, now: u64, poll: ScanPoll)
        ensures
            old(self).session_start matches Some(st) ==> final(self).live.elapsed_secs == if now >= st {
                (now - st) as u64
            } else {
                0u64
            },
            final(self).screen == old(self).screen,
            final(self).popup == old(self).popup,
            final(self).live.adapter == old(self).live.adapter,
            final(self).live.auto_scan == old(self).live.auto_scan,
            final(self).live.auto_scan_interval == old(self).live.auto_scan_interval,
            final(self).live.scanning == (old(self).live.scanning && (poll is Pending || poll is NoWorker)),
            final(self).last_scan == if poll is Delivered {
                Some(now)
            } else {
                old(self).last_scan
            },
            match poll {
                ScanPoll::Delivered(s) => {
                    &&& final(self).live.access_points@ == s.access_points@
                    &&& final(self).live.last_scan_error is None
                    &&& match old(self).current_session {
                        Some(c) => final(self).current_session matches Some(n) && n.scans@ == c.scans@.push(s)
                            && n.adapter == c.adapter && n.started_at == c.started_at && n.version
                            == c.version && n.duration_target_secs == c.duration_target_secs
                            && final(self).session_modified,
                        None => final(self).current_session is None && final(self).session_modified
                            == old(self).session_modified,
                    }
                },
                ScanPoll::Failed(e) => {
                    &&& final(self).live.last_scan_error == Some(e)
                    &&& final(self).current_session == old(self).current_session
                    &&& final(self).session_modified == old(self).session_modified
                    &&& final(self).live.access_points@ == old(self).live.access_points@
                },
                ScanPoll::Crashed => {
                    &&& final(self).live.last_scan_error matches Some(m) && m@ == "Scan thread crashed"@
                    &&& final(self).current_session == old(self).current_session
                    &&& final(self).session_modified == old(self).session_modified
                    &&& final(self).live.access_points@ == old(self).live.access_points@
                },
                _ => {
                    &&& final(self).current_session == old(self).current_session
                    &&& final(self).session_modified == old(self).session_modified
                    &&& final(self).live.access_points@ == old(self).live.access_points@
                    &&& final(self).live.last_scan_error == old(self).live.last_scan_error
                },
            },
    {
        if let Some(start) = self.session_start {
            self.live.elapsed_secs = now.saturating_sub(start);
        }
        match poll {
            ScanPoll::Delivered(result) => {
                self.live.access_points = copy_access_points(&result.access_points);
                self.live.last_scan_error = None;
                match &mut self.current_session {
                    Some(session) => {
                        session.add_scan(result);
                        self.session_modified = true;
                    },
                    None => {},
                }
                self.last_scan = Some(now);
                self.live.scanning = false;
            },
            ScanPoll::Failed(e) => {
                self.live.last_scan_error = Some(e);
                self.live.scanning = false;
            },
            ScanPoll::Crashed => {
                self.live.last_scan_error = Some("Scan thread crashed".to_owned());
                self.live.scanning = false;
            },
            ScanPoll::Pending => {},
            ScanPoll::NoWorker => {},
        }
    }

    /// Starts an automatic scan when one is due at `now` and none is in flight.
    fn start_due_scan(&mut self, now: u64) -> (r: Option<String>)
        ensures
            r is Some <==> (auto_scan_due(*old(self), now) && old(self).live.adapter is Some
                && !old(self).live.scanning),
            r is None ==> *final(self) == *old(self),
            r is Some ==> final(self).live.scanning && final(self).live.last_scan_error is None,
            final(self).current_session == old(self).current_session,
            final(self).session_modified == old(self).session_modified,
            final(self).live.access_points@ == old(self).live.access_points@,
            final(self).last_scan == old(self).last_scan,
            final(self).live.elapsed_secs == old(self).live.elapsed_secs,
            final(self).screen == old(self).screen,
            final(self).popup == old(self).popup,
    {
        let idle_popup = match self.popup {
            Popup::Closed => true,
            _ => false,
        };
        if self.live.auto_scan && self.screen == Screen::Live && idle_popup {
            let due = match self.last_scan {
                Some(last) => now >= last && now - last >= self.live.auto_scan_interval,
                None => true,
            };
            if due && !self.live.scanning {
                return self.perform_scan();
            }
        }
        None
    }

}

/// The warning popup text: a heading, then one line per warning.
pub open spec fn warning_text(ws: Seq<Seq<char>>) -> Seq<char>
    decreases ws.len(),
{
    if ws.len() == 0 {
        "Session loaded with warnings:"@
    } else {
        warning_text(ws.drop_last()) + "\n"@ + ws.last()
    }
}

impl App {
    /// Takes a session read from `path`: warnings are shown, and the session
    /// goes to the history screen or joins the comparison, whichever is shown.
    pub fn load_session(&mut self, path: String, session: Session)
        ensures
            old(self).screen == Screen::History ==> final(self).history.session == Some(session),
            old(self).screen == Screen::Compare ==> final(self).compare.sessions@
                == old(self).compare.sessions@.push(session) && final(self).compare.selected_session_idx
                == old(self).compare.sessions@.len(),
            old(self).screen == Screen::Live ==> final(self).history.session == old(self).history.session
                && final(self).compare.sessions@ == old(self).compare.sessions@,
            crate::store::validation_warnings(session).len() > 0 ==> (final(self).popup matches Popup::SessionWarning { message, path: p }
                && message@ == warning_text(crate::store::validation_warnings(session)) && p == path),
            crate::store::validation_warnings(session).len() == 0 ==> final(self).popup == old(self).popup,
            final(self).screen == old(self).screen,
            final(self).live.scanning == old(self).live.scanning,
            final(self).current_session == old(self).current_session,
    {
        let validation = validate_session(&session);
        if validation.warnings.len() > 0 {
            let mut v: Vec<char> = Vec::new();
            push_str(&mut v, "Session loaded with warnings:");
            let ghost ws = crate::store::texts_view(validation.warnings@);
            let mut i: usize = 0;
            assert(ws.take(0) =~= Seq::<Seq<char>>::empty());
            while i < validation.warnings.len()
                invariant
                    i <= validation.warnings.len(),
                    ws == crate::store::texts_view(validation.warnings@),
                    v@ == warning_text(ws.take(i as int)),
                decreases validation.warnings.len() - i,
            {
                assert(ws.take(i + 1).drop_last() =~= ws.take(i as int));
                assert(ws.take(i + 1).last() == validation.warnings@[i as int]@);
                push_str(&mut v, "\n");
                push_string(&mut v, &validation.warnings[i]);
                i = i + 1;
            }
            assert(ws.take(ws.len() as int) =~= ws);
            self.popup = Popup::SessionWarning { message: string_of(v.as_slice()), path };
        }
        match self.screen {
            Screen::History => {
                self.history.session = Some(session);
            },
            Screen::Compare => {
                self.compare.add_session(session);
                self.compare.selected_session_idx = self.compare.sessions.len() - 1;
            },
            Screen::Live => {},
        }
    }

    /// Takes a fresh listing of the sessions in the adapter directory the
    /// file picker shows; the cursor goes back to the top.
    pub fn refresh_session_list(&mut self, infos: Vec<SessionInfo>)
        ensures
            final(self).file_picker.session_infos@ == infos@,
            texts(final(self).file_picker.items@) == infos@.map_values(|s: SessionInfo| session_entry(s)),
            final(self).file_picker.selected == 0,
            final(self).file_picker.level == old(self).file_picker.level,
            final(self).popup == old(self).popup,
    {
        let items = session_entries(&infos);
        self.file_picker.session_infos = infos;
        self.file_picker.items = items;
        self.file_picker.selected = 0;
    }

    /// The path of the session under the picker's cursor, at the session level.
    pub fn get_selected_session_path(&self) -> (r: Option<String>)
        ensures
            match r {
                Some(p) => self.file_picker.level is Sessions && self.file_picker.selected
                    < self.file_picker.session_infos@.len() && p == self.file_picker.session_infos@[self.file_picker.selected as int].path,
                None => !(self.file_picker.level is Sessions) || self.file_picker.selected
                    >= self.file_picker.session_infos@.len(),
            },
    {
        match self.file_picker.get_selected_session() {
            Some(info) => Some(info.path.clone()),
            None => None,
        }
    }

    /// Opens the file picker on the adapter directories, or shows why there
    /// is no listing.
    pub fn show_file_picker(&mut self, listing: Result<Vec<AdapterDirInfo>, String>)
        ensures
            match listing {
                Ok(v) => final(self).popup is FilePicker && final(self).file_picker.level is Adapters
                    && final(self).file_picker.adapter_dirs@ == v@ && final(self).file_picker.selected == 0,
                Err(e) => final(self).popup matches Popup::Error { message } && message@
                    == "Failed to list sessions: "@ + e@,
            },
    {
        match listing {
            Ok(dirs) => {
                self.file_picker.set_adapters(dirs);
                self.popup = Popup::FilePicker;
            },
            Err(e) => {
                let mut v: Vec<char> = Vec::new();
                push_str(&mut v, "Failed to list sessions: ");
                push_string(&mut v, &e);
                self.show_error(string_of(v.as_slice()));
            },
        }
    }

    pub fn show_error(&mut self, message: String)
        ensures
            final(self).popup == (Popup::Error { message }),
            final(self).live.scanning == old(self).live.scanning,
            final(self).live.adapter == old(self).live.adapter,
            final(self).current_session == old(self).current_session,
            final(self).screen == old(self).screen,
    {
        self.popup = Popup::Error { message };
    }

    /// Opens the rename popup holding the current label.
    pub fn show_rename_popup(&mut self)
        ensures
            final(self).popup matches Popup::RenameAdapter { input, cursor } && input@ == match old(self).live.adapter {
                Some(a) => match a.label {
                    Some(l) => l@,
                    None => Seq::empty(),
                },
                None => Seq::empty(),
            },
    {
        let current = match &self.live.adapter {
            Some(a) => match &a.label {
                Some(l) => l.clone(),
                None => String::new(),
            },
            None => String::new(),
        };
        let cursor = current.as_str().len();
        self.popup = Popup::RenameAdapter { input: current, cursor };
    }

    /// Opens the timer popup holding the current target in minutes.
    pub fn show_timer_popup(&mut self)
        ensures
            final(self).popup matches Popup::TimerSetup { input, cursor } && input@ == match old(self).live.timer_target_secs {
                Some(s) => crate::text::dec_text((s / 60) as nat),
                None => Seq::empty(),
            },
    {
        let current = match self.live.timer_target_secs {
            Some(s) => {
                let mut v: Vec<char> = Vec::new();
                push_dec(&mut v, s / 60);
                string_of(v.as_slice())
            },
            None => String::new(),
        };
        let cursor = current.as_str().len();
        self.popup = Popup::TimerSetup { input: current, cursor };
    }

    /// Renames the adapter, in the live state and in the session in
    /// progress; an empty name clears the label.
    pub fn apply_rename(&mut self, name: String)
        ensures
            final(self).popup is Closed,
            match old(self).live.adapter {
                Some(a) => final(self).live.adapter matches Some(b) && b.interface == a.interface
                    && opt_text(b.label) == if name@.len() == 0 {
                    None
                } else {
                    Some(name@)
                },
                None => final(self).live.adapter is None,
            },
            match old(self).current_session {
                Some(s) => final(self).current_session matches Some(t) && opt_text(t.adapter.label)
                    == if name@.len() == 0 {
                    None
                } else {
                    Some(name@)
                } && t.scans@ == s.scans@ && t.adapter.interface == s.adapter.interface,
                None => final(self).current_session is None,
            },
    {
        let empty = name.as_str().is_empty();
        if let Some(adapter) = &mut self.live.adapter {
            adapter.label = if empty {
                None
            } else {
                Some(name.clone())
            };
        }
        if let Some(session) = &mut self.current_session {
            session.adapter.label = if empty {
                None
            } else {
                Some(name)
            };
        }
        self.popup = Popup::Closed;
    }

    /// Sets the session timer from a number of minutes typed by the
    /// operator; 0 clears it. Text that is not a number of minutes (or whose
    /// seconds do not fit in 64 bits) changes nothing but closes the popup.
    pub fn apply_timer(&mut self, mins_str: String)
        ensures
            final(self).popup is Closed,
            match parse_u64_spec(mins_str@) {
                Some(m) => if m * 60 > u64::MAX {
                    final(self).live.timer_target_secs == old(self).live.timer_target_secs
                } else {
                    final(self).live.timer_target_secs == if m == 0 {
                        None
                    } else {
                        Some((m * 60) as u64)
                    } && match old(self).current_session {
                        Some(s) => final(self).current_session matches Some(t)
                            && t.duration_target_secs == final(self).live.timer_target_secs
                            && t.scans@ == s.scans@,
                        None => final(self).current_session is None,
                    }
                },
                None => final(self).live.timer_target_secs == old(self).live.timer_target_secs,
            },
    {
        let cs = chars_of(mins_str.as_str());
        assert(cs@.subrange(0, cs.len() as int) =~= cs@);
        if let Some(mins) = parse_u64_range(&cs, 0, cs.len()) {
            if mins <= u64::MAX / 60 {
                self.live.timer_target_secs = if mins == 0 {
                    None
                } else {
                    Some(mins * 60)
                };
                if let Some(session) = &mut self.current_session {
                    session.duration_target_secs = self.live.timer_target_secs;
                }
            }
        }
        self.popup = Popup::Closed;
    }

    /// The preferences as they now stand, to be saved.
    pub fn config_snapshot(&self) -> (r: Config)
        ensures
            r.auto_scan_interval_secs == self.live.auto_scan_interval,
            r.default_timer_secs == match self.live.timer_target_secs {
                Some(t) => t,
                None => 300,
            },
            r.show_channel == self.live.show_channel,
            r.show_band == self.live.show_band,
            r.highlight_best == self.live.highlight_best,
            r.frequency_filter == self.live.frequency_filter,
            r.sort_by == self.live.sort_by,
            r.history_time_window_mins == self.history.time_window_mins,
            r.history_show_average == self.history.show_average,
            r.compare_match_by == self.compare.match_by,
            r.compare_metric == self.compare.metric,
            r.timer_mode == self.config.timer_mode,
            r.alert_threshold_dbm == self.config.alert_threshold_dbm,
            r.excluded_aps@.len() == self.config.excluded_aps@.len(),
            forall|i: int| 0 <= i < r.excluded_aps@.len() ==> (#[trigger] r.excluded_aps@[i]).bssid
                == self.config.excluded_aps@[i].bssid && r.excluded_aps@[i].ssid == self.config.excluded_aps@[i].ssid,
    {
        let mut excluded: Vec<ExcludedAp> = Vec::new();
        let mut i: usize = 0;
        while i < self.config.excluded_aps.len()
            invariant
                i <= self.config.excluded_aps.len(),
                excluded@.len() == i,
                forall|j: int| 0 <= j < i ==> (#[trigger] excluded@[j]).bssid == self.config.excluded_aps@[j].bssid
                    && excluded@[j].ssid == self.config.excluded_aps@[j].ssid,
            decreases self.config.excluded_aps.len() - i,
        {
            let e = &self.config.excluded_aps[i];
            excluded.push(ExcludedAp { bssid: e.bssid.clone(), ssid: e.ssid.clone() });
            i = i + 1;
        }
        Config {
            auto_scan_interval_secs: self.live.auto_scan_interval,
            default_timer_secs: match self.live.timer_target_secs {
                Some(t) => t,
                None => 300,
            },
            timer_mode: self.config.timer_mode,
            show_channel: self.live.show_channel,
            show_band: self.live.show_band,
            highlight_best: self.live.highlight_best,
            sort_by: self.live.sort_by,
            frequency_filter: self.live.frequency_filter,
            alert_threshold_dbm: self.config.alert_threshold_dbm,
            history_time_window_mins: self.history.time_window_mins,
            history_show_average: self.history.show_average,
            compare_match_by: self.compare.match_by,
            compare_metric: self.compare.metric,
            excluded_aps: excluded,
        }
    }

    /// Asks to quit: with unsaved data or a scan in flight, the operator
    /// must confirm; otherwise the caller may quit at once (`true`).
    pub fn request_quit(&mut self) -> (r: bool)
        ensures
            r == !(old(self).live.scanning || old(self).session_modified),
            !r ==> final(self).popup == (Popup::ConfirmQuit { selected: 0 }),
            r ==> final(self).popup == old(self).popup,
            final(self).running == old(self).running,
    {
        if self.live.scanning || self.session_modified {
            self.popup = Popup::ConfirmQuit { selected: 0 };
            false
        } else {
            true
        }
    }

    /// Opens the exclusion popup for the access point under the cursor.
    pub fn show_exclude_popup(&mut self)
        ensures
            match crate::ui::selected_visible(old(self).live) {
                Some(a) => final(self).popup matches Popup::ExcludeAp { bssid, ssid, selected }
                    && bssid@ == a.bssid@ && ssid@ == a.ssid@ && selected == 0,
                None => final(self).popup == old(self).popup,
            },
    {
        let chosen = match self.live.get_selected_ap() {
            Some(ap) => Some((ap.bssid.clone(), ap.ssid.clone())),
            None => None,
        };
        if let Some((bssid, ssid)) = chosen {
            self.popup = Popup::ExcludeAp { bssid, ssid, selected: 0 };
        }
    }

    /// Hides an access point for this session.
    pub fn exclude_session(&mut self, bssid: &str)
        ensures
            final(self).popup is Closed,
            crate::ui::texts(final(self).live.session_excluded_bssids@).contains(bssid@),
            final(self).config.excluded_aps@ == old(self).config.excluded_aps@,
            final(self).current_session == old(self).current_session,
    {
        self.live.exclude_session(bssid);
        proof {
            assert(crate::ui::texts(self.live.session_excluded_bssids@).to_set().contains(bssid@));
        }
        self.popup = Popup::Closed;
    }

    /// Hides an access point for good, and for this session.
    pub fn exclude_permanent(&mut self, bssid: &str, ssid: &str)
        ensures
            final(self).popup is Closed,
            final(self).config.excluded_aps@.len() == old(self).config.excluded_aps@.len() + 1,
            final(self).config.excluded_aps@.last().bssid@ == bssid@,
            final(self).config.excluded_aps@.last().ssid@ == ssid@,
            crate::ui::texts(final(self).live.session_excluded_bssids@).contains(bssid@),
    {
        self.config.excluded_aps.push(ExcludedAp { bssid: bssid.to_owned(), ssid: ssid.to_owned() });
        self.exclude_session(bssid);
    }

    /// Whether `bssid` is excluded for good.
    pub fn is_permanently_excluded(&self, bssid: &str) -> (r: bool)
        ensures
            r == exists|i: int| 0 <= i < self.config.excluded_aps@.len() && self.config.excluded_aps@[i].bssid@ == bssid@,
    {
        self.config.is_excluded(&bssid.to_owned())
    }
}

} // verus!
