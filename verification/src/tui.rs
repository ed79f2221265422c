//! The terminal interface's model: panels, the console log, selection and
//! navigation, and what each key does.
use vstd::prelude::*;
use crate::config::{
    AppSettings, ComposeServiceConfig, Project, ProjectConfig, ServiceConfig, ServiceState, ServiceStatus, copy_config,
};
use crate::namemap::{NameMap, lemma_empty_view};
use crate::ports::{PortRegistry, key_of};
use crate::process::ProcessManager;
use crate::scan::{named, 
    attach_compose_services, compose_running_state, holds_state, mark_compose_running, running_state,
    service_names, sort_projects, sorted_by_name,
};
use crate::state::AppState;
use crate::text::{concat2, concat3, decimal, owned, two_digit_text, two_digits, u64_to_decimal, seq_contains, seq_starts_with, str_contains, str_starts_with_char};

verus! {

/// The panels of the terminal interface.
#[derive(Debug, Clone, Copy, PartialEq, Eq, Structural)]
pub enum Panel {
    Projects,
    Services,
    Console,
}

impl Panel {
    /// The panel after this one, cycling: projects, services, console.
    pub fn next(self) -> (r: Self)
        ensures
            r == match self {
                Panel::Projects => Panel::Services,
                Panel::Services => Panel::Console,
                Panel::Console => Panel::Projects,
            },
    {
        match self {
            Panel::Projects => Panel::Services,
            Panel::Services => Panel::Console,
            Panel::Console => Panel::Projects,
        }
    }

    /// The panel before this one, cycling.
    pub fn prev(self) -> (r: Self)
        ensures
            r == match self {
                Panel::Projects => Panel::Console,
                Panel::Services => Panel::Projects,
                Panel::Console => Panel::Services,
            },
    {
        match self {
            Panel::Projects => Panel::Console,
            Panel::Services => Panel::Projects,
            Panel::Console => Panel::Services,
        }
    }
}

/// How a console line is shown.
#[derive(Debug, Clone, Copy, PartialEq, Eq, Structural)]
pub enum LogKind {
    Error,
    Info,
    Normal,
}

/// A console line with how it is shown.
#[derive(Debug)]
pub struct LogEntry {
    pub text: String,
    pub kind: LogKind,
}

/// A byte in ASCII lowercase.
pub open spec fn ascii_lower(b: u8) -> u8 {
    if 65 <= b <= 90 {
        (b + 32) as u8
    } else {
        b
    }
}

/// The bytes of `error`.
pub open spec fn error_bytes() -> Seq<u8> {
    seq![101u8, 114u8, 114u8, 111u8, 114u8]
}

/// The word `error`, in any ASCII case, starts at byte `i`.
pub open spec fn error_at(bs: Seq<u8>, i: int) -> bool {
    0 <= i && i + 5 <= bs.len() && forall|k: int| 0 <= k < 5 ==> ascii_lower(#[trigger] bs[i + k]) == error_bytes()[k]
}

/// The text contains the word `error` in any ASCII case.
pub open spec fn mentions_error(s: Seq<char>) -> bool {
    exists|i: int| #[trigger] error_at(vstd::utf8::encode_utf8(s), i)
}

/// How a console line is shown: lines that contain `ERR`, or `error` in any
/// case, as errors; other lines starting with `[` as information.
pub open spec fn log_kind_of(s: Seq<char>) -> LogKind {
    if seq_contains(s, "ERR"@) || mentions_error(s) {
        LogKind::Error
    } else if s.len() > 0 && s[0] == '[' {
        LogKind::Info
    } else {
        LogKind::Normal
    }
}

fn lower_byte(b: u8) -> (r: u8)
    ensures
        r == ascii_lower(b),
{
    if 65 <= b && b <= 90 {
        b + 32
    } else {
        b
    }
}

/// Whether the text contains the word `error` in any ASCII case.
pub fn contains_error_ci(text: &str) -> (r: bool)
    ensures
        r == mentions_error(text@),
{
    let bytes = text.as_bytes();
    let ghost bs = vstd::utf8::encode_utf8(text@);
    assert(bytes@ == bs);
    let word: [u8; 5] = [101u8, 114u8, 114u8, 111u8, 114u8];
    assert(word@ == error_bytes());
    if bytes.len() < 5 {
        assert forall|i: int| !error_at(bs, i) by {}
        return false;
    }
    let last = bytes.len() - 5;
    let mut i: usize = 0;
    while i <= last
        invariant
            bytes@ == bs,
            bs == vstd::utf8::encode_utf8(text@),
            bytes.len() >= 5,
            last == bytes.len() - 5,
            word@ == error_bytes(),
            i <= last + 1,
            forall|j: int| 0 <= j < i ==> !error_at(bs, j),
        decreases last + 1 - i,
    {
        let mut k: usize = 0;
        let mut ok = true;
        while k < 5
            invariant
                bytes@ == bs,
                i <= last,
                last == bytes.len() - 5,
                word@ == error_bytes(),
                k <= 5,
                ok == forall|m: int| 0 <= m < k ==> ascii_lower(#[trigger] bs[i + m]) == error_bytes()[m],
            decreases 5 - k,
        {
            if lower_byte(bytes[i + k]) != word[k] {
                ok = false;
            }
            k = k + 1;
        }
        if ok {
            assert(error_at(bs, i as int));
            assert(mentions_error(text@));
            return true;
        }
        assert(!error_at(bs, i as int));
        i = i + 1;
    }
    assert forall|j: int| !error_at(bs, j) by {
        if 0 <= j && j + 5 <= bs.len() {
            assert(j < i);
        }
    }
    false
}

/// How a console line is shown.
pub fn classify_log(text: &str) -> (r: LogKind)
    ensures
        r == log_kind_of(text@),
{
    if str_contains(text, "ERR") || contains_error_ci(text) {
        LogKind::Error
    } else if str_starts_with_char(text, '[') {
        LogKind::Info
    } else {
        LogKind::Normal
    }
}

impl LogEntry {
    /// A console line, classified by its text.
    pub fn new(text: String) -> (r: Self)
        ensures
            r.text == text,
            r.kind == log_kind_of(text@),
    {
        let kind = classify_log(text.as_str());
        LogEntry { text, kind }
    }
}


/// The console keeps at most this many lines; past it, the oldest
/// `LOG_TRIM` lines are dropped.
pub const LOG_LIMIT: usize = 10000;

/// How many of the oldest lines are dropped when the console is full.
pub const LOG_TRIM: usize = 1000;

/// The console lines after adding one: when more than `LOG_LIMIT`, without
/// the oldest `LOG_TRIM`.
pub open spec fn logs_after(logs: Seq<LogEntry>, e: LogEntry) -> Seq<LogEntry> {
    let all = logs.push(e);
    if all.len() > LOG_LIMIT {
        all.skip(LOG_TRIM as int)
    } else {
        all
    }
}

/// The state of the terminal interface.
#[derive(Debug)]
pub struct App {
    pub projects: Vec<Project>,
    /// The selected row of the projects panel.
    pub selected_project: Option<usize>,
    /// The selected row of the services panel.
    pub selected_service: Option<usize>,
    pub state: AppState,
    pub port_registry: PortRegistry,
    pub settings: AppSettings,
    pub focused_panel: Panel,
    pub logs: Vec<LogEntry>,
    pub log_scroll: usize,
    pub follow_logs: bool,
    pub show_help: bool,
    pub should_quit: bool,
    pub data_dir: String,
    pub process_manager: ProcessManager,
}

/// The selected project, when the selection names one.
pub open spec fn selected(app: App) -> Option<Project> {
    match app.selected_project {
        Some(i) => if i < app.projects@.len() {
            Some(app.projects@[i as int])
        } else {
            None
        },
        None => None,
    }
}

/// The configuration of the selected project, when it has one.
pub open spec fn selected_config(app: App) -> Option<ProjectConfig> {
    match selected(app) {
        Some(p) => p.config,
        None => None,
    }
}

/// The row after `sel` in a list of `len > 0` rows, wrapping (no selection
/// counts as the first row).
pub open spec fn row_down(sel: Option<usize>, len: nat) -> usize {
    let i = match sel {
        Some(i) => i,
        None => 0,
    };
    ((i + 1) % (len as int)) as usize
}

/// The row before `sel` in a list of `len > 0` rows, wrapping.
pub open spec fn row_up(sel: Option<usize>, len: nat) -> usize {
    let i = match sel {
        Some(i) => i,
        None => 0,
    };
    if i == 0 {
        (len - 1) as usize
    } else {
        (i - 1) as usize
    }
}

fn next_row(sel: Option<usize>, len: usize) -> (r: usize)
    requires
        len > 0,
    ensures
        r == row_down(sel, len as nat),
{
    let i = match sel {
        Some(i) => i,
        None => 0,
    };
    if i == usize::MAX {
        assert(((i + 1) % (len as int)) == (((i % len) + 1) % (len as int))) by (nonlinear_arith)
            requires
                len > 0,
        ;
        ((i % len) + 1) % len
    } else {
        (i + 1) % len
    }
}

fn prev_row(sel: Option<usize>, len: usize) -> (r: usize)
    requires
        len > 0,
    ensures
        r == row_up(sel, len as nat),
{
    let i = match sel {
        Some(i) => i,
        None => 0,
    };
    if i == 0 {
        len - 1
    } else {
        i - 1
    }
}

/// The interface after moving down: the focused panel's selection moves
/// one row down, wrapping (in a panel with rows); the console, when not
/// following, scrolls one line down.
pub open spec fn down_of(a: App) -> App {
    match a.focused_panel {
        Panel::Projects => if a.projects@.len() > 0 {
            App { selected_project: Some(row_down(a.selected_project, a.projects@.len())), ..a }
        } else {
            a
        },
        Panel::Services => match selected_config(a) {
            Some(c) => if c.services.pairs().len() > 0 {
                App { selected_service: Some(row_down(a.selected_service, c.services.pairs().len())), ..a }
            } else {
                a
            },
            None => a,
        },
        Panel::Console => if !a.follow_logs {
            App {
                log_scroll: if a.log_scroll == usize::MAX {
                    usize::MAX
                } else {
                    (a.log_scroll + 1) as usize
                },
                ..a
            }
        } else {
            a
        },
    }
}

/// The interface after moving up: as `down_of`, one row up.
pub open spec fn up_of(a: App) -> App {
    match a.focused_panel {
        Panel::Projects => if a.projects@.len() > 0 {
            App { selected_project: Some(row_up(a.selected_project, a.projects@.len())), ..a }
        } else {
            a
        },
        Panel::Services => match selected_config(a) {
            Some(c) => if c.services.pairs().len() > 0 {
                App { selected_service: Some(row_up(a.selected_service, c.services.pairs().len())), ..a }
            } else {
                a
            },
            None => a,
        },
        Panel::Console => if !a.follow_logs {
            App {
                log_scroll: if a.log_scroll == 0 {
                    0
                } else {
                    (a.log_scroll - 1) as usize
                },
                ..a
            }
        } else {
            a
        },
    }
}

/// The interface after opening the selected project: the services panel
/// focused on its first service, when the project has a configuration.
pub open spec fn opened(a: App) -> App {
    match selected(a) {
        Some(p) => if p.config is Some {
            App { focused_panel: Panel::Services, selected_service: Some(0), ..a }
        } else {
            a
        },
        None => a,
    }
}

impl App {
    /// The interface's state before any project is scanned: the projects
    /// panel focused, the console following, nothing selected.
    pub fn new(data_dir: String, state: AppState, port_registry: PortRegistry, settings: AppSettings) -> (r: Self)
        ensures
            r.projects@.len() == 0,
            r.selected_project is None,
            r.selected_service is None,
            r.state == state,
            r.port_registry == port_registry,
            r.settings == settings,
            r.focused_panel == Panel::Projects,
            r.logs@.len() == 0,
            r.log_scroll == 0,
            r.follow_logs,
            !r.show_help,
            !r.should_quit,
            r.data_dir == data_dir,
            r.process_manager.wf(),
            r.process_manager.pids() == Map::<Seq<char>, u32>::empty(),
    {
        App {
            projects: Vec::new(),
            selected_project: None,
            selected_service: None,
            state,
            port_registry,
            settings,
            focused_panel: Panel::Projects,
            logs: Vec::new(),
            log_scroll: 0,
            follow_logs: true,
            show_help: false,
            should_quit: false,
            data_dir,
            process_manager: ProcessManager::new(),
        }
    }

    /// The selected project.
    pub fn current_project(&self) -> (r: Option<&Project>)
        ensures
            match r {
                Some(p) => selected(*self) == Some(*p),
                None => selected(*self) is None,
            },
    {
        match self.selected_project {
            Some(i) => if i < self.projects.len() {
                Some(&self.projects[i])
            } else {
                None
            },
            None => None,
        }
    }

    /// The position of the selected project, when the selection names one.
    pub fn current_project_index(&self) -> (r: Option<usize>)
        ensures
            match r {
                Some(i) => self.selected_project == Some(i) && i < self.projects@.len(),
                None => selected(*self) is None,
            },
    {
        match self.selected_project {
            Some(i) => if i < self.projects.len() {
                Some(i)
            } else {
                None
            },
            None => None,
        }
    }

    /// The name of the selected service of the selected project.
    pub fn current_service_name(&self) -> (r: Option<String>)
        ensures
            match (selected_config(*self), self.selected_service) {
                (Some(c), Some(j)) if j < c.services.pairs().len() => r matches Some(n) && n@ == c.services.pairs()[j as int].0,
                _ => r is None,
            },
    {
        let p = match self.current_project() {
            Some(p) => p,
            None => {
                return None;
            },
        };
        let c = match &p.config {
            Some(c) => c,
            None => {
                return None;
            },
        };
        match self.selected_service {
            Some(j) => if j < c.services.len() {
                Some(c.services.key_at(j).clone())
            } else {
                None
            },
            None => None,
        }
    }

    /// Moves the focused panel's selection down one row, wrapping; in the
    /// console (when not following) scrolls down one line.
    pub fn navigate_down(&mut self)
        ensures
            *final(self) == down_of(*old(self)),
    {
        match self.focused_panel {
            Panel::Projects => {
                let len = self.projects.len();
                if len > 0 {
                    self.selected_project = Some(next_row(self.selected_project, len));
                }
            },
            Panel::Services => {
                let len = match self.current_project() {
                    Some(p) => match &p.config {
                        Some(c) => c.services.len(),
                        None => 0,
                    },
                    None => 0,
                };
                if len > 0 {
                    self.selected_service = Some(next_row(self.selected_service, len));
                }
            },
            Panel::Console => {
                if !self.follow_logs {
                    self.log_scroll = self.log_scroll.saturating_add(1);
                }
            },
        }
    }

    /// Moves the focused panel's selection up one row, wrapping; in the
    /// console (when not following) scrolls up one line.
    pub fn navigate_up(&mut self)
        ensures
            *final(self) == up_of(*old(self)),
    {
        match self.focused_panel {
            Panel::Projects => {
                let len = self.projects.len();
                if len > 0 {
                    self.selected_project = Some(prev_row(self.selected_project, len));
                }
            },
            Panel::Services => {
                let len = match self.current_project() {
                    Some(p) => match &p.config {
                        Some(c) => c.services.len(),
                        None => 0,
                    },
                    None => 0,
                };
                if len > 0 {
                    self.selected_service = Some(prev_row(self.selected_service, len));
                }
            },
            Panel::Console => {
                if !self.follow_logs {
                    self.log_scroll = self.log_scroll.saturating_sub(1);
                }
            },
        }
    }

    /// Opens the selected project: when it has a configuration, focuses the
    /// services panel on its first service.
    pub fn select_project(&mut self)
        ensures
            *final(self) == opened(*old(self)),
    {
        let has_config = match self.current_project() {
            Some(p) => p.config.is_some(),
            None => false,
        };
        if has_config {
            self.focused_panel = Panel::Services;
            self.selected_service = Some(0);
        }
    }

    /// Adds a line to the console, dropping the oldest lines past the limit.
    pub fn push_log(&mut self, text: String)
        ensures
            final(self).logs@ == logs_after(old(self).logs@, final(self).logs@.last()),
            final(self).logs@.last().text == text,
            final(self).logs@.last().kind == log_kind_of(text@),
            *final(self) == (App { logs: final(self).logs, ..*old(self) }),
    {
        let e = LogEntry::new(text);
        let ghost ev = e;
        self.logs.push(e);
        if self.logs.len() > LOG_LIMIT {
            let rest = self.logs.split_off(LOG_TRIM);
            self.logs = rest;
        }
        assert(self.logs@.last() == ev);
    }

    /// Adds a line to the console, stamped with the time it was logged:
    /// `[HH:MM:SS] message`.
    pub fn log_at(&mut self, timestamp: &str, message: &str)
        ensures
            final(self).logs@ == logs_after(old(self).logs@, final(self).logs@.last()),
            final(self).logs@.last().text@ == "["@ + timestamp@ + "] "@ + message@,
            *final(self) == (App { logs: final(self).logs, ..*old(self) }),
    {
        let head = concat3("[", timestamp, "] ");
        let text = concat2(head.as_str(), message);
        assert(text@ =~= "["@ + timestamp@ + "] "@ + message@);
        self.push_log(text);
    }

    /// Adds a line to the console, stamped with the time of day `now`
    /// (hour, minute, second): `[HH:MM:SS] message`.
    pub fn log(&mut self, now: (u32, u32, u32), message: &str)
        requires
            now.0 < 24 && now.1 < 60 && now.2 < 60,
        ensures
            final(self).logs@ == logs_after(old(self).logs@, final(self).logs@.last()),
            final(self).logs@.last().text@ == "["@ + clock_of(now) + "] "@ + message@,
            *final(self) == (App { logs: final(self).logs, ..*old(self) }),
    {
        let ts = clock_text(now);
        self.log_at(ts.as_str(), message);
    }

    /// Empties the console and scrolls back to the top.
    pub fn clear_logs(&mut self)
        ensures
            *final(self) == (App { logs: final(self).logs, log_scroll: 0, ..*old(self) }),
            final(self).logs@.len() == 0,
    {
        self.logs.clear();
        self.log_scroll = 0;
    }

    /// Switches the console between following new lines and staying put.
    pub fn toggle_follow(&mut self)
        ensures
            *final(self) == (App { follow_logs: !old(self).follow_logs, ..*old(self) }),
    {
        self.follow_logs = !self.follow_logs;
    }

    /// Scrolls the console down a page (20 lines), leaving follow mode.
    pub fn page_down(&mut self)
        ensures
            *final(self) == (App {
                follow_logs: false,
                log_scroll: if old(self).log_scroll + 20 > usize::MAX {
                    usize::MAX
                } else {
                    (old(self).log_scroll + 20) as usize
                },
                ..*old(self)
            }),
    {
        self.follow_logs = false;
        self.log_scroll = self.log_scroll.saturating_add(20);
    }

    /// Scrolls the console up a page (20 lines), leaving follow mode.
    pub fn page_up(&mut self)
        ensures
            *final(self) == (App {
                follow_logs: false,
                log_scroll: if old(self).log_scroll < 20 {
                    0
                } else {
                    (old(self).log_scroll - 20) as usize
                },
                ..*old(self)
            }),
    {
        self.follow_logs = false;
        self.log_scroll = self.log_scroll.saturating_sub(20);
    }

    /// Installs the scanned projects, ordered by name, and selects the first
    /// one when nothing is selected.
    pub fn install_projects(&mut self, projects: Vec<Project>)
        ensures
            sorted_by_name(final(self).projects@),
            final(self).projects@.to_multiset() == projects@.to_multiset(),
            final(self).projects@.len() == projects@.len(),
            forall|x: Seq<char>| #[trigger] final(self).projects@.filter(named(x)) == projects@.filter(named(x)),
            final(self).selected_project == if projects@.len() > 0 && old(self).selected_project is None {
                Some(0usize)
            } else {
                old(self).selected_project
            },
            *final(self) == (App {
                projects: final(self).projects,
                selected_project: final(self).selected_project,
                ..*old(self)
            }),
    {
        self.projects = sort_projects(projects);
        if self.projects.len() > 0 && self.selected_project.is_none() {
            self.selected_project = Some(0);
        }
    }
}

/// A time of day (hour, minute, second) as `HH:MM:SS`.
pub open spec fn clock_of(now: (u32, u32, u32)) -> Seq<char> {
    two_digits(now.0 as nat) + ":"@ + two_digits(now.1 as nat) + ":"@ + two_digits(now.2 as nat)
}

/// Writes a time of day as `HH:MM:SS`.
pub fn clock_text(now: (u32, u32, u32)) -> (r: String)
    requires
        now.0 < 24 && now.1 < 60 && now.2 < 60,
    ensures
        r@ == clock_of(now),
        r@.len() == 8,
{
    let h = two_digit_text(now.0);
    let m = two_digit_text(now.1);
    let s = two_digit_text(now.2);
    let a = concat3(h.as_str(), ":", m.as_str());
    let r = concat3(a.as_str(), ":", s.as_str());
    proof {
        reveal_strlit(":");
    }
    assert(r@ =~= clock_of(now));
    r
}


/// A key press, as the interface tells keys apart.
#[derive(Debug, Clone, Copy, PartialEq, Eq, Structural)]
pub enum Key {
    /// A character key; `ctrl` when Control (and no other modifier) is held.
    Char { c: char, ctrl: bool },
    Up,
    Down,
    Enter,
    Tab,
    BackTab,
    Esc,
    PageUp,
    PageDown,
    Other,
}

/// Service work a key asks for, carried out outside the model.
#[derive(Debug, Clone, Copy, PartialEq, Eq, Structural)]
pub enum Command {
    ToggleService,
    RestartService,
    StartAll,
    StopAll,
}

/// What a key does.
#[derive(Debug, Clone, Copy, PartialEq, Eq, Structural)]
pub enum KeyEffect {
    Quit,
    ToggleHelp,
    CloseHelp,
    FocusNext,
    FocusPrev,
    Down,
    Up,
    Open,
    FocusConsole,
    PageDown,
    PageUp,
    ToggleFollow,
    Clear,
    Run(Command),
    Nothing,
}

/// Whether a key is the down key or `j`.
pub open spec fn is_down(key: Key) -> bool {
    key == Key::Down || key matches Key::Char { c: 'j', .. }
}

/// Whether a key is the up key or `k`.
pub open spec fn is_up(key: Key) -> bool {
    key == Key::Up || key matches Key::Char { c: 'k', .. }
}

/// Whether a key is the character `ch`, with or without modifiers.
pub open spec fn is_char(key: Key, ch: char) -> bool {
    key matches Key::Char { c, .. } && c == ch
}

/// What a key does in the focused panel.
pub open spec fn panel_effect(panel: Panel, key: Key) -> KeyEffect {
    if is_down(key) {
        KeyEffect::Down
    } else if is_up(key) {
        KeyEffect::Up
    } else {
        match panel {
            Panel::Projects => if key == Key::Enter {
                KeyEffect::Open
            } else {
                KeyEffect::Nothing
            },
            Panel::Services => if key == Key::Enter || is_char(key, ' ') {
                KeyEffect::Run(Command::ToggleService)
            } else if is_char(key, 'r') {
                KeyEffect::Run(Command::RestartService)
            } else if is_char(key, 'a') {
                KeyEffect::Run(Command::StartAll)
            } else if is_char(key, 's') {
                KeyEffect::Run(Command::StopAll)
            } else if is_char(key, 'l') {
                KeyEffect::FocusConsole
            } else {
                KeyEffect::Nothing
            },
            Panel::Console => if key == Key::PageDown {
                KeyEffect::PageDown
            } else if key == Key::PageUp {
                KeyEffect::PageUp
            } else if is_char(key, 'f') {
                KeyEffect::ToggleFollow
            } else if is_char(key, 'c') {
                KeyEffect::Clear
            } else {
                KeyEffect::Nothing
            },
        }
    }
}

/// What a key does: `q` or Control-C quits, `?` toggles the help, Escape
/// closes it, Tab and Shift-Tab cycle the panels (not while the help shows);
/// other keys act on the focused panel while the help is hidden.
pub open spec fn key_effect(a: App, key: Key) -> KeyEffect {
    if is_char(key, 'q') || key == (Key::Char { c: 'c', ctrl: true }) {
        KeyEffect::Quit
    } else if is_char(key, '?') {
        KeyEffect::ToggleHelp
    } else if key == Key::Esc {
        if a.show_help {
            KeyEffect::CloseHelp
        } else {
            KeyEffect::Nothing
        }
    } else if key == Key::Tab {
        if a.show_help {
            KeyEffect::Nothing
        } else {
            KeyEffect::FocusNext
        }
    } else if key == Key::BackTab {
        if a.show_help {
            KeyEffect::Nothing
        } else {
            KeyEffect::FocusPrev
        }
    } else if a.show_help {
        KeyEffect::Nothing
    } else {
        panel_effect(a.focused_panel, key)
    }
}

/// The panel after `p`.
pub open spec fn next_panel(p: Panel) -> Panel {
    match p {
        Panel::Projects => Panel::Services,
        Panel::Services => Panel::Console,
        Panel::Console => Panel::Projects,
    }
}

/// The panel before `p`.
pub open spec fn prev_panel(p: Panel) -> Panel {
    match p {
        Panel::Projects => Panel::Console,
        Panel::Services => Panel::Projects,
        Panel::Console => Panel::Services,
    }
}

fn effect_of(a: &App, key: Key) -> (r: KeyEffect)
    ensures
        r == key_effect(*a, key),
{
    let is_down = match key {
        Key::Down => true,
        Key::Char { c, .. } => c == 'j',
        _ => false,
    };
    let is_up = match key {
        Key::Up => true,
        Key::Char { c, .. } => c == 'k',
        _ => false,
    };
    let ch = match key {
        Key::Char { c, .. } => Some(c),
        _ => None,
    };
    let ctrl_c = match key {
        Key::Char { c, ctrl } => c == 'c' && ctrl,
        _ => false,
    };
    if ch == Some('q') || ctrl_c {
        return KeyEffect::Quit;
    }
    if ch == Some('?') {
        return KeyEffect::ToggleHelp;
    }
    match key {
        Key::Esc => {
            return if a.show_help {
                KeyEffect::CloseHelp
            } else {
                KeyEffect::Nothing
            };
        },
        Key::Tab => {
            return if a.show_help {
                KeyEffect::Nothing
            } else {
                KeyEffect::FocusNext
            };
        },
        Key::BackTab => {
            return if a.show_help {
                KeyEffect::Nothing
            } else {
                KeyEffect::FocusPrev
            };
        },
        _ => {},
    }
    if a.show_help {
        return KeyEffect::Nothing;
    }
    if is_down {
        return KeyEffect::Down;
    }
    if is_up {
        return KeyEffect::Up;
    }
    match a.focused_panel {
        Panel::Projects => match key {
            Key::Enter => KeyEffect::Open,
            _ => KeyEffect::Nothing,
        },
        Panel::Services => match key {
            Key::Enter => KeyEffect::Run(Command::ToggleService),
            _ => if ch == Some(' ') {
                KeyEffect::Run(Command::ToggleService)
            } else if ch == Some('r') {
                KeyEffect::Run(Command::RestartService)
            } else if ch == Some('a') {
                KeyEffect::Run(Command::StartAll)
            } else if ch == Some('s') {
                KeyEffect::Run(Command::StopAll)
            } else if ch == Some('l') {
                KeyEffect::FocusConsole
            } else {
                KeyEffect::Nothing
            },
        },
        Panel::Console => match key {
            Key::PageDown => KeyEffect::PageDown,
            Key::PageUp => KeyEffect::PageUp,
            _ => if ch == Some('f') {
                KeyEffect::ToggleFollow
            } else if ch == Some('c') {
                KeyEffect::Clear
            } else {
                KeyEffect::Nothing
            },
        },
    }
}

impl App {
    /// Handles a key press: updates the interface as `key_effect` says, and
    /// returns the service work it asks for, if any.
    pub fn handle_key(&mut self, key: Key) -> (r: Option<Command>)
        ensures
            match key_effect(*old(self), key) {
                KeyEffect::Quit => *final(self) == (App { should_quit: true, ..*old(self) }),
                KeyEffect::ToggleHelp => *final(self) == (App { show_help: !old(self).show_help, ..*old(self) }),
                KeyEffect::CloseHelp => *final(self) == (App { show_help: false, ..*old(self) }),
                KeyEffect::FocusNext => *final(self) == (App { focused_panel: next_panel(old(self).focused_panel), ..*old(self) }),
                KeyEffect::FocusPrev => *final(self) == (App { focused_panel: prev_panel(old(self).focused_panel), ..*old(self) }),
                KeyEffect::Down => *final(self) == down_of(*old(self)),
                KeyEffect::Up => *final(self) == up_of(*old(self)),
                KeyEffect::Open => *final(self) == opened(*old(self)),
                KeyEffect::FocusConsole => *final(self) == (App { focused_panel: Panel::Console, ..*old(self) }),
                KeyEffect::PageDown => *final(self) == (App {
                    follow_logs: false,
                    log_scroll: if old(self).log_scroll + 20 > usize::MAX {
                        usize::MAX
                    } else {
                        (old(self).log_scroll + 20) as usize
                    },
                    ..*old(self)
                }),
                KeyEffect::PageUp => *final(self) == (App {
                    follow_logs: false,
                    log_scroll: if old(self).log_scroll < 20 {
                        0
                    } else {
                        (old(self).log_scroll - 20) as usize
                    },
                    ..*old(self)
                }),
                KeyEffect::ToggleFollow => *final(self) == (App { follow_logs: !old(self).follow_logs, ..*old(self) }),
                KeyEffect::Clear => final(self).logs@.len() == 0 && *final(self) == (App {
                    logs: final(self).logs,
                    log_scroll: 0,
                    ..*old(self)
                }),
                KeyEffect::Run(_) => *final(self) == *old(self),
                KeyEffect::Nothing => *final(self) == *old(self),
            },
            r == match key_effect(*old(self), key) {
                KeyEffect::Run(c) => Some(c),
                _ => None,
            },
    {
        let effect = effect_of(self, key);
        match effect {
            KeyEffect::Quit => {
                self.should_quit = true;
            },
            KeyEffect::ToggleHelp => {
                self.show_help = !self.show_help;
            },
            KeyEffect::CloseHelp => {
                self.show_help = false;
            },
            KeyEffect::FocusNext => {
                self.focused_panel = self.focused_panel.next();
            },
            KeyEffect::FocusPrev => {
                self.focused_panel = self.focused_panel.prev();
            },
            KeyEffect::Down => self.navigate_down(),
            KeyEffect::Up => self.navigate_up(),
            KeyEffect::Open => self.select_project(),
            KeyEffect::FocusConsole => {
                self.focused_panel = Panel::Console;
            },
            KeyEffect::PageDown => self.page_down(),
            KeyEffect::PageUp => self.page_up(),
            KeyEffect::ToggleFollow => self.toggle_follow(),
            KeyEffect::Clear => self.clear_logs(),
            KeyEffect::Run(c) => {
                return Some(c);
            },
            KeyEffect::Nothing => {},
        }
        None
    }
}


/// The name of the selected service of the selected project.
pub open spec fn selected_service_name(a: App) -> Option<Seq<char>> {
    match (selected_config(a), a.selected_service) {
        (Some(c), Some(j)) => if j < c.services.pairs().len() {
            Some(c.services.pairs()[j as int].0)
        } else {
            None
        },
        _ => None,
    }
}

/// What toggling a service does.
#[derive(Debug, Clone, Copy, PartialEq, Eq, Structural)]
pub enum ToggleAction {
    Start,
    Stop,
}

/// What toggling a service in a state does: a running service is stopped, a
/// stopped or failed one (or one without state) is started; one that is
/// starting or stopping is left alone.
pub open spec fn toggle_of(st: Option<ServiceState>) -> Option<ToggleAction> {
    let status = match st {
        Some(s) => s.status,
        None => ServiceStatus::Stopped,
    };
    match status {
        ServiceStatus::Running => Some(ToggleAction::Stop),
        ServiceStatus::Stopped => Some(ToggleAction::Start),
        ServiceStatus::Error => Some(ToggleAction::Start),
        _ => None,
    }
}

/// A service shown in the services panel.
#[derive(Debug)]
pub struct ServiceData {
    pub name: String,
    pub config: ServiceConfig,
    pub state: Option<ServiceState>,
}

/// The services of a configuration that are of one kind (0: compose,
/// 1: docker, 2: process), in order.
pub open spec fn names_of_kind(pairs: Seq<(Seq<char>, ServiceConfig)>, kind: int) -> Seq<Seq<char>>
    decreases pairs.len(),
{
    if pairs.len() == 0 {
        Seq::empty()
    } else {
        let rest = names_of_kind(pairs.drop_last(), kind);
        let matches_kind = match pairs.last().1 {
            ServiceConfig::Compose(_) => kind == 0,
            ServiceConfig::Docker(_) => kind == 1,
            ServiceConfig::Process(_) => kind == 2,
            ServiceConfig::Agent(_) => false,
        };
        if matches_kind {
            rest.push(pairs.last().0)
        } else {
            rest
        }
    }
}

/// The order in which all services of a project are started: compose
/// services (already running, attached to), then docker services, then
/// processes; agents are not started this way.
#[derive(Debug)]
pub struct StartBatches {
    pub compose: Vec<String>,
    pub docker: Vec<String>,
    pub process: Vec<String>,
}

/// The ports of a project's services known when the terminal interface
/// starts one: the registry's port, else a compose service's host port.
pub open spec fn registry_ports(project: Seq<char>, pairs: Seq<(Seq<char>, ServiceConfig)>, registry: PortRegistry) -> Map<
    Seq<char>,
    u16,
>
    decreases pairs.len(),
{
    if pairs.len() == 0 {
        Map::empty()
    } else {
        let m = registry_ports(project, pairs.drop_last(), registry);
        let name = pairs.last().0;
        match registry.assigned().get(key_of(project, name)) {
            Some(p) => m.insert(name, p),
            None => match pairs.last().1 {
                ServiceConfig::Compose(cc) => match cc.host_port {
                    Some(h) => m.insert(name, h),
                    None => m,
                },
                _ => m,
            },
        }
    }
}

/// The service ports used to interpolate the environment of a service the
/// terminal interface starts on `port`.
pub fn registry_start_ports(config: &ProjectConfig, registry: &PortRegistry, project: &str, service: &str, port: u16) -> (r: NameMap<u16>)
    ensures
        r.wf(),
        r@ == registry_ports(project@, config.services.pairs(), *registry).insert(service@, port),
{
    let mut m: NameMap<u16> = NameMap::new();
    proof {
        lemma_empty_view(&m);
    }
    let ghost pairs = config.services.pairs();
    let mut i: usize = 0;
    while i < config.services.len()
        invariant
            i <= pairs.len(),
            pairs == config.services.pairs(),
            m.wf(),
            m@ == registry_ports(project@, pairs.take(i as int), *registry),
        decreases pairs.len() - i,
    {
        proof {
            assert(pairs.take(i + 1).drop_last() =~= pairs.take(i as int));
            assert(pairs.take(i + 1).last() == pairs[i as int]);
        }
        let name = config.services.key_at(i);
        match registry.get_port(project, name.as_str()) {
            Some(p) => {
                m.insert(name.clone(), p);
            },
            None => match config.services.value_at(i) {
                ServiceConfig::Compose(cc) => match cc.host_port {
                    Some(h) => {
                        m.insert(name.clone(), h);
                    },
                    None => {},
                },
                _ => {},
            },
        }
        i = i + 1;
    }
    assert(pairs.take(pairs.len() as int) =~= pairs);
    m.insert(owned(service), port);
    m
}

fn names_kind(config: &ProjectConfig, kind: u8) -> (r: Vec<String>)
    requires
        kind <= 2,
    ensures
        r@.map_values(|n: String| n@) == names_of_kind(config.services.pairs(), kind as int),
{
    let ghost pairs = config.services.pairs();
    let mut r: Vec<String> = Vec::new();
    let mut i: usize = 0;
    while i < config.services.len()
        invariant
            i <= pairs.len(),
            pairs == config.services.pairs(),
            kind <= 2,
            r@.map_values(|n: String| n@) == names_of_kind(pairs.take(i as int), kind as int),
        decreases pairs.len() - i,
    {
        proof {
            assert(pairs.take(i + 1).drop_last() =~= pairs.take(i as int));
            assert(pairs.take(i + 1).last() == pairs[i as int]);
        }
        let k = match config.services.value_at(i) {
            ServiceConfig::Compose(_) => 0u8,
            ServiceConfig::Docker(_) => 1u8,
            ServiceConfig::Process(_) => 2u8,
            ServiceConfig::Agent(_) => 3u8,
        };
        if k == kind {
            let ghost before = r@.map_values(|n: String| n@);
            let name = config.services.key_at(i).clone();
            r.push(name);
            assert(r@.map_values(|n: String| n@) =~= before.push(pairs[i as int].0));
        }
        i = i + 1;
    }
    assert(pairs.take(pairs.len() as int) =~= pairs);
    r
}

/// The order in which all services of a configuration are started.
pub fn start_batches(config: &ProjectConfig) -> (r: StartBatches)
    ensures
        r.compose@.map_values(|n: String| n@) == names_of_kind(config.services.pairs(), 0),
        r.docker@.map_values(|n: String| n@) == names_of_kind(config.services.pairs(), 1),
        r.process@.map_values(|n: String| n@) == names_of_kind(config.services.pairs(), 2),
{
    StartBatches {
        compose: names_kind(config, 0),
        docker: names_kind(config, 1),
        process: names_kind(config, 2),
    }
}

/// What starting all services does next.
#[derive(Debug)]
pub enum StartAllStep {
    /// Start the named service.
    Start(String),
    /// Wait for the containers to come up before the processes.
    Pause,
    /// Stop: every service was started, or a start failed.
    Finish,
}

/// Starting all services of a project: compose services, then docker
/// services, a pause, then process services; the first failure ends it.
#[derive(Debug)]
pub struct StartAllRun {
    names: Vec<String>,
    pause_at: usize,
    pos: usize,
    paused: bool,
    stopped: bool,
}

impl StartAllRun {
    /// The services in the order they are started.
    pub closed spec fn order(&self) -> Seq<Seq<char>> {
        self.names@.map_values(|n: String| n@)
    }

    /// How many services are started before the pause.
    pub closed spec fn pause_at(&self) -> nat {
        self.pause_at as nat
    }

    /// How many services were handed out to be started.
    pub closed spec fn position(&self) -> nat {
        self.pos as nat
    }

    /// Whether the pause is behind.
    pub closed spec fn paused(&self) -> bool {
        self.paused
    }

    /// Whether a start failed.
    pub closed spec fn stopped(&self) -> bool {
        self.stopped
    }

    /// Positions stay within the order.
    pub closed spec fn wf(&self) -> bool {
        &&& self.pos <= self.names@.len()
        &&& self.pause_at <= self.names@.len()
        &&& (self.pos > self.pause_at ==> self.paused)
    }

    /// A run over all services of a configuration, nothing started yet.
    pub fn new(config: &ProjectConfig) -> (r: Self)
        ensures
            r.wf(),
            r.order() == names_of_kind(config.services.pairs(), 0) + names_of_kind(config.services.pairs(), 1)
                + names_of_kind(config.services.pairs(), 2),
            r.pause_at() == names_of_kind(config.services.pairs(), 0).len() + names_of_kind(
                config.services.pairs(),
                1,
            ).len(),
            r.position() == 0,
            !r.paused(),
            !r.stopped(),
    {
        let b = start_batches(config);
        let mut names = b.compose;
        let mut docker = b.docker;
        let mut process = b.process;
        let ghost c = names@.map_values(|n: String| n@);
        let ghost d = docker@.map_values(|n: String| n@);
        let ghost p = process@.map_values(|n: String| n@);
        names.append(&mut docker);
        let pause_at = names.len();
        names.append(&mut process);
        assert(names@.map_values(|n: String| n@) =~= c + d + p);
        StartAllRun { names, pause_at, pos: 0, paused: false, stopped: false }
    }

    /// The next thing to do: nothing more once a start failed; the pause
    /// when the services before it were handed out; else the next service;
    /// else finish.
    pub fn next(&mut self) -> (s: StartAllStep)
        requires
            old(self).wf(),
        ensures
            final(self).wf(),
            final(self).order() == old(self).order(),
            final(self).pause_at() == old(self).pause_at(),
            final(self).stopped() == old(self).stopped(),
            if old(self).stopped() {
                s is Finish && final(self).position() == old(self).position() && final(self).paused()
                    == old(self).paused()
            } else if old(self).position() == old(self).pause_at() && !old(self).paused() {
                s is Pause && final(self).paused() && final(self).position() == old(self).position()
            } else if old(self).position() < old(self).order().len() {
                s matches StartAllStep::Start(n) && n@ == old(self).order()[old(self).position() as int]
                    && final(self).position() == old(self).position() + 1 && final(self).paused()
                    == old(self).paused()
            } else {
                s is Finish && final(self).position() == old(self).position() && final(self).paused()
                    == old(self).paused()
            },
    {
        if self.stopped {
            StartAllStep::Finish
        } else if self.pos == self.pause_at && !self.paused {
            self.paused = true;
            StartAllStep::Pause
        } else if self.pos < self.names.len() {
            let n = self.names[self.pos].clone();
            self.pos = self.pos + 1;
            StartAllStep::Start(n)
        } else {
            StartAllStep::Finish
        }
    }

    /// Records that the last start failed: the run ends.
    pub fn failed(&mut self)
        requires
            old(self).wf(),
        ensures
            final(self).wf(),
            final(self).stopped(),
            final(self).order() == old(self).order(),
            final(self).pause_at() == old(self).pause_at(),
            final(self).position() == old(self).position(),
            final(self).paused() == old(self).paused(),
    {
        self.stopped = true;
    }
}

impl App {
    /// The selected service and what toggling it does, when a service is
    /// selected and toggling it does something.
    pub fn toggle_plan(&self) -> (r: Option<(String, ToggleAction)>)
        ensures
            match selected_service_name(*self) {
                Some(n) => match toggle_of(self.state.state_of(selected(*self)->0.name@, n)) {
                    Some(a) => r matches Some((m, b)) && m@ == n && b == a,
                    None => r is None,
                },
                None => r is None,
            },
    {
        let p = match self.current_project() {
            Some(p) => p,
            None => {
                return None;
            },
        };
        let name = match self.current_service_name() {
            Some(n) => n,
            None => {
                return None;
            },
        };
        let status = match self.state.get_service_state(p.name.as_str(), name.as_str()) {
            Some(st) => st.status,
            None => ServiceStatus::Stopped,
        };
        match status {
            ServiceStatus::Running => Some((name, ToggleAction::Stop)),
            ServiceStatus::Stopped => Some((name, ToggleAction::Start)),
            ServiceStatus::Error => Some((name, ToggleAction::Start)),
            _ => None,
        }
    }

    /// The services of the selected project as the services panel shows
    /// them, in configuration order, with their recorded states.
    pub fn service_data(&self) -> (r: Vec<ServiceData>)
        ensures
            match selected_config(*self) {
                Some(c) => {
                    &&& r@.len() == c.services.pairs().len()
                    &&& forall|i: int| 0 <= i < r@.len() ==> (#[trigger] r@[i]).name@ == c.services.pairs()[i].0
                    &&& forall|i: int| 0 <= i < r@.len() ==> (#[trigger] r@[i]).config@ == c.services.pairs()[i].1@
                    &&& forall|i: int| 0 <= i < r@.len() ==> (#[trigger] r@[i]).state == self.state.state_of(
                        selected(*self)->0.name@,
                        c.services.pairs()[i].0,
                    )
                },
                None => r@.len() == 0,
            },
    {
        let mut r: Vec<ServiceData> = Vec::new();
        let p = match self.current_project() {
            Some(p) => p,
            None => {
                return r;
            },
        };
        let c = match &p.config {
            Some(c) => c,
            None => {
                return r;
            },
        };
        let mut i: usize = 0;
        while i < c.services.len()
            invariant
                i <= c.services.pairs().len(),
                selected(*self) == Some(*p),
                p.config == Some(*c),
                r@.len() == i,
                forall|j: int| 0 <= j < i ==> (#[trigger] r@[j]).name@ == c.services.pairs()[j].0,
                forall|j: int| 0 <= j < i ==> (#[trigger] r@[j]).config@ == c.services.pairs()[j].1@,
                forall|j: int| 0 <= j < i ==> (#[trigger] r@[j]).state == self.state.state_of(p.name@, c.services.pairs()[j].0),
            decreases c.services.pairs().len() - i,
        {
            let name = c.services.key_at(i);
            let state = match self.state.get_service_state(p.name.as_str(), name.as_str()) {
                Some(st) => Some(st.clone()),
                None => None,
            };
            let ghost before = r@;
            let d = ServiceData { name: name.clone(), config: copy_config(c.services.value_at(i)), state };
            let ghost dv = d;
            r.push(d);
            proof {
                assert forall|j: int| 0 <= j < i + 1 implies r@[j] == if j < i { before[j] } else { dv } by {}
            }
            i = i + 1;
        }
        r
    }
}


/// The gathered configuration defines the service.
pub open spec fn gathered_has(r: Option<ProjectConfig>, q: Seq<char>) -> bool {
    match r {
        Some(rc) => rc.services@.contains_key(q),
        None => false,
    }
}

/// The gathered configuration's compose service of that name, if any.
pub open spec fn gathered_compose(r: Option<ProjectConfig>, q: Seq<char>) -> Option<ComposeServiceConfig> {
    match r {
        Some(rc) => match rc.services.lookup(q) {
            Some(ServiceConfig::Compose(cc)) => Some(cc),
            _ => None,
        },
        None => None,
    }
}

/// The configuration the terminal interface gathers for a scanned project:
/// the parsed configuration file, else the one detected from the compose
/// file, with the services of running compose containers added (configured
/// services take precedence). Every gathered service gets a state (a fresh
/// one when it has none), and compose services are recorded as running.
pub fn gather_project(
    state: &mut AppState,
    project: &str,
    parsed: Option<ProjectConfig>,
    detected: Option<ProjectConfig>,
    compose_services: NameMap<ServiceConfig>,
) -> (r: Option<ProjectConfig>)
    requires
        old(state).wf(),
        parsed matches Some(c) ==> c.services.wf(),
        detected matches Some(d) ==> d.services.wf(),
        compose_services.wf(),
    ensures
        final(state).wf(),
        final(state).known_projects == old(state).known_projects,
        ({
            let base = match parsed {
                Some(c) => Some(c),
                None => detected,
            };
            &&& compose_services.pairs().len() == 0 ==> r == base
            &&& compose_services.pairs().len() > 0 ==> match base {
                Some(c) => r matches Some(rc) && rc.name == c.name && rc.env_file == c.env_file
                    && rc.services@ == compose_services@.union_prefer_right(c.services@),
                None => r matches Some(rc) && rc.name@ == project@ && rc.env_file is None
                    && rc.services == compose_services,
            }
        }),
        (r matches Some(rc) ==> rc.services.wf()),
        forall|q: Seq<char>| gathered_has(r, q) ==> (#[trigger] final(state).state_of(project@, q) is Some),
        compose_services.pairs().len() > 0 ==> forall|q: Seq<char>| #![trigger final(state).state_of(project@, q)]
            gathered_compose(r, q) matches Some(cc) ==> (final(state).state_of(project@, q) matches Some(st) && st@
                == running_state(q, cc.host_port, Some(cc.container_id@))),
        forall|p: Seq<char>, q: Seq<char>| p != project@ ==> #[trigger] final(state).state_of(p, q) == old(state).state_of(p, q),
{
    let ghost s0 = *state;
    let base = match parsed {
        Some(c) => Some(c),
        None => detected,
    };
    match &base {
        Some(c) => {
            let names = service_names(c);
            state.init_project_services(project, names);
            proof {
                assert forall|q: Seq<char>| c.services@.contains_key(q) implies #[trigger] state.state_of(project@, q) is Some by {
                    crate::namemap::lemma_key_seq_contains(&c.services, q);
                }
            }
        },
        None => {},
    }
    let ghost s1 = *state;
    if compose_services.is_empty() {
        return base;
    }
    let r = attach_compose_services(base, project, compose_services);
    match &r {
        Some(rc) => {
            let ghost s2a = *state;
            let names = service_names(rc);
            state.init_project_services(project, names);
            let ghost s2 = *state;
            mark_compose_running(state, project, rc);
            proof {
                assert forall|q: Seq<char>| rc.services@.contains_key(q) implies #[trigger] state.state_of(project@, q) is Some by {
                    crate::namemap::lemma_key_seq_contains(&rc.services, q);
                    assert(s2.state_of(project@, q) is Some);
                    assert(holds_state(*state, s2, project@, q, compose_running_state(rc.services, q)));
                }
                assert forall|q: Seq<char>| #![trigger state.state_of(project@, q)]
                    gathered_compose(r, q) is Some implies (state.state_of(project@, q) matches Some(st) && st@
                        == running_state(q, gathered_compose(r, q)->0.host_port, Some(gathered_compose(r, q)->0.container_id@))) by {
                    assert(holds_state(*state, s2, project@, q, compose_running_state(rc.services, q)));
                }
            }
        },
        None => {},
    }
    r
}


/// What the terminal interface tells the user in its console.
#[allow(inconsistent_fields)]
#[derive(Debug)]
pub enum Notice {
    Starting { service: String },
    StartedOnPort { service: String, port: u16 },
    StartedWithPid { service: String, pid: u32 },
    StartFailed { service: String, error: String },
    Stopping { service: String },
    Stopped { service: String },
    ComposeManaged { service: String },
    ComposeAttached { service: String, port: Option<u16> },
    DockerUnavailable,
    EnvFileWarning { service_level: bool, error: String },
    StartingAll { project: String },
    StoppingAll { project: String },
    Restarting { service: String },
    ConfigError { project: String, error: String },
    CommandFailed { error: String },
}

/// The text of a notice.
pub open spec fn notice_text(n: Notice) -> Seq<char> {
    match n {
        Notice::Starting { service } => "Starting "@ + service@ + "..."@,
        Notice::StartedOnPort { service, port } => service@ + " started on port "@ + decimal(port as nat),
        Notice::StartedWithPid { service, pid } => service@ + " started (PID: "@ + decimal(pid as nat) + ")"@,
        Notice::StartFailed { service, error } => "Failed to start "@ + service@ + ": "@ + error@,
        Notice::Stopping { service } => "Stopping "@ + service@ + "..."@,
        Notice::Stopped { service } => service@ + " stopped"@,
        Notice::ComposeManaged { service } => service@
            + " is managed by docker compose - use 'docker compose down' to stop"@,
        Notice::ComposeAttached { service, port } => service@ + " (compose)"@ + match port {
            Some(p) => " on port "@ + decimal(p as nat),
            None => Seq::empty(),
        } + " - streaming logs"@,
        Notice::DockerUnavailable => "Docker is not available"@,
        Notice::EnvFileWarning { service_level, error } => if service_level {
            "Warning: Failed to load service env file: "@ + error@
        } else {
            "Warning: Failed to load project env file: "@ + error@
        },
        Notice::StartingAll { project } => "Starting all services for "@ + project@ + "..."@,
        Notice::StoppingAll { project } => "Stopping all services for "@ + project@ + "..."@,
        Notice::Restarting { service } => "Restarting "@ + service@ + "..."@,
        Notice::ConfigError { project, error } => "Error parsing config for "@ + project@ + ": "@ + error@,
        Notice::CommandFailed { error } => "Error: "@ + error@,
    }
}

/// The text of a notice.
pub fn notice(n: &Notice) -> (r: String)
    ensures
        r@ == notice_text(*n),
{
    let r = match n {
        Notice::Starting { service } => concat3("Starting ", service.as_str(), "..."),
        Notice::StartedOnPort { service, port } => concat3(
            service.as_str(),
            " started on port ",
            u64_to_decimal(*port as u64).as_str(),
        ),
        Notice::StartedWithPid { service, pid } => {
            let a = concat3(service.as_str(), " started (PID: ", u64_to_decimal(*pid as u64).as_str());
            concat2(a.as_str(), ")")
        },
        Notice::StartFailed { service, error } => {
            let a = concat3("Failed to start ", service.as_str(), ": ");
            concat2(a.as_str(), error.as_str())
        },
        Notice::Stopping { service } => concat3("Stopping ", service.as_str(), "..."),
        Notice::Stopped { service } => concat2(service.as_str(), " stopped"),
        Notice::ComposeManaged { service } => concat2(
            service.as_str(),
            " is managed by docker compose - use 'docker compose down' to stop",
        ),
        Notice::ComposeAttached { service, port } => {
            let p = match port {
                Some(p) => concat2(" on port ", u64_to_decimal(*p as u64).as_str()),
                None => String::new(),
            };
            concat3(concat2(service.as_str(), " (compose)").as_str(), p.as_str(), " - streaming logs")
        },
        Notice::DockerUnavailable => owned("Docker is not available"),
        Notice::EnvFileWarning { service_level, error } => if *service_level {
            concat2("Warning: Failed to load service env file: ", error.as_str())
        } else {
            concat2("Warning: Failed to load project env file: ", error.as_str())
        },
        Notice::StartingAll { project } => concat3("Starting all services for ", project.as_str(), "..."),
        Notice::StoppingAll { project } => concat3("Stopping all services for ", project.as_str(), "..."),
        Notice::Restarting { service } => concat3("Restarting ", service.as_str(), "..."),
        Notice::ConfigError { project, error } => {
            let a = concat3("Error parsing config for ", project.as_str(), ": ");
            concat2(a.as_str(), error.as_str())
        },
        Notice::CommandFailed { error } => concat2("Error: ", error.as_str()),
    };
    assert(r@ =~= notice_text(*n));
    r
}

impl App {
    /// Writes a notice to the console, stamped with the time of day `now`.
    pub fn notify(&mut self, now: (u32, u32, u32), n: &Notice)
        requires
            now.0 < 24 && now.1 < 60 && now.2 < 60,
        ensures
            final(self).logs@ == logs_after(old(self).logs@, final(self).logs@.last()),
            final(self).logs@.last().text@ == "["@ + clock_of(now) + "] "@ + notice_text(*n),
            *final(self) == (App { logs: final(self).logs, ..*old(self) }),
    {
        let text = notice(n);
        self.log(now, text.as_str());
    }
}

} // verus!
