//! The monitor's state and its input state machine: what is shown, in which
//! order, how fresh it is, and how keys change it.
use vstd::prelude::*;
use crate::history::{History, HISTORY_CAPACITY, pushed};
use crate::pipeline::{pipeline_view, query_view, run_pipeline};
use crate::record::{ProcessRecord, SortKey, SortOrder, flipped, next_key, views};
use crate::schedule::{
    DEFAULT_INTERVAL_MS, MAX_INTERVAL_MS, MIN_INTERVAL_MS, clamp_interval, cpu_percent,
    faster_interval, memory_percent, refresh_due, slower_interval,
};
use crate::text::{control_char, is_control, trim_chars, trimmed};

verus! {

/// Rows moved by one page key.
pub const PAGE_SIZE: usize = 10;

/// Which key bindings apply.
#[derive(Clone, Copy, Debug, PartialEq, Eq, Structural)]
pub enum Mode {
    Normal,
    FilterEditing,
    DetailsPopup,
}

/// A key press, as the keyboard source reports it.
#[derive(Clone, Copy, Debug, PartialEq, Eq, Structural)]
pub enum Key {
    Char(char),
    Enter,
    Esc,
    Backspace,
    Up,
    Down,
    PageUp,
    PageDown,
    Home,
    End,
    F(u8),
    Other,
}

/// What the loop around the monitor is asked to do after a key.
#[derive(Clone, Copy, Debug, PartialEq, Eq, Structural)]
pub enum Action {
    Nothing,
    Quit,
    Refresh,
    Terminate(u32),
}

/// The last message for the operator.
#[derive(Clone, Copy, Debug, PartialEq, Eq, Structural)]
pub enum Status {
    Empty,
    Terminated(u32),
    TerminateFailed(u32),
    SampleFailed,
}

/// One sample of the system: its processes and the aggregate figures. CPU use is in
/// hundredths of a percent, memory in KiB.
pub struct Snapshot {
    pub records: Vec<ProcessRecord>,
    pub cpu: u32,
    pub mem_used_kb: u64,
    pub mem_total_kb: u64,
}

/// A selection that fits a table of `len` rows: none exactly when it is empty.
pub open spec fn selection_ok(sel: Option<usize>, len: nat) -> bool {
    match sel {
        None => len == 0,
        Some(i) => i < len,
    }
}

/// The selection after the rows were worked out again: kept by position, pulled back
/// to the last row, the first row when there was none, none when the table is empty.
pub open spec fn clamped(prev: Option<usize>, len: nat) -> Option<usize> {
    if len == 0 {
        None
    } else {
        match prev {
            None => Some(0),
            Some(i) => Some(if i < len { i } else { (len - 1) as usize }),
        }
    }
}

/// Working the rows out again always leaves a selection that fits them: none
/// exactly when there are no rows, otherwise a position inside the table.
pub proof fn lemma_clamped_fits(prev: Option<usize>, len: nat)
    requires
        len <= usize::MAX,
    ensures
        selection_ok(clamped(prev, len), len),
{
}

/// The selection `n` rows further down, stopping at the last row.
pub open spec fn moved_down(sel: Option<usize>, len: nat, n: nat) -> Option<usize> {
    match sel {
        None => None,
        Some(i) => Some(if i + n < len { (i + n) as usize } else { (len - 1) as usize }),
    }
}

/// The selection `n` rows further up, stopping at the first row.
pub open spec fn moved_up(sel: Option<usize>, n: nat) -> Option<usize> {
    match sel {
        None => None,
        Some(i) => Some(if i >= n { (i - n) as usize } else { 0 }),
    }
}

/// The selection on the first row.
pub open spec fn at_first(sel: Option<usize>) -> Option<usize> {
    match sel {
        None => None,
        Some(_) => Some(0),
    }
}

/// The selection on the last row.
pub open spec fn at_last(sel: Option<usize>, len: nat) -> Option<usize> {
    match sel {
        None => None,
        Some(_) => Some((len - 1) as usize),
    }
}

/// The filter that committing the edit buffer sets: its text without surrounding
/// white space, or none when nothing is left.
pub open spec fn committed(edit: Seq<char>) -> Option<Seq<char>> {
    if trimmed(edit).len() == 0 {
        None
    } else {
        Some(trimmed(edit))
    }
}

/// The edit buffer that entering filter editing starts from.
pub open spec fn seeded(filter: Option<Vec<char>>) -> Seq<char> {
    match filter {
        Some(f) => f@,
        None => Seq::empty(),
    }
}

/// The complete state of a monitor.
pub struct Monitor {
    pub records: Vec<ProcessRecord>,
    pub rows: Vec<ProcessRecord>,
    pub selected: Option<usize>,
    pub sort_key: SortKey,
    pub sort_order: SortOrder,
    pub filter: Option<Vec<char>>,
    pub edit: Vec<char>,
    pub mode: Mode,
    pub paused: bool,
    pub interval_ms: u64,
    pub cpu_history: History,
    pub mem_history: History,
    pub cpu: u32,
    pub mem_used_kb: u64,
    pub mem_total_kb: u64,
    pub status: Status,
}

impl Monitor {
    /// The rows are the pipeline's output for the current records and settings, the
    /// selection fits them, both series are within capacity, and the interval is
    /// within its bounds.
    pub open spec fn wf(&self) -> bool {
        &&& views(self.rows@) == pipeline_view(
            views(self.records@),
            query_view(self.filter),
            self.sort_key,
            self.sort_order,
        )
        &&& selection_ok(self.selected, self.rows@.len())
        &&& self.cpu_history.wf()
        &&& self.mem_history.wf()
        &&& MIN_INTERVAL_MS <= self.interval_ms <= MAX_INTERVAL_MS
    }

    /// `self` with its rows and selection taken from `after` and everything else
    /// as it is.
    pub open spec fn with_view_of(self, after: Monitor) -> Monitor {
        Monitor { rows: after.rows, selected: after.selected, ..self }
    }

    /// A monitor with no snapshot yet: sorted by CPU, descending, no filter, running,
    /// at the default interval, with empty series of the default capacity.
    pub fn new() -> (m: Monitor)
        ensures
            m.wf(),
            m.records@.len() == 0,
            m.rows@.len() == 0,
            m.selected == None::<usize>,
            m.sort_key == SortKey::Cpu,
            m.sort_order == SortOrder::Descending,
            m.filter == None::<Vec<char>>,
            m.edit@.len() == 0,
            m.mode == Mode::Normal,
            !m.paused,
            m.interval_ms == DEFAULT_INTERVAL_MS,
            m.cpu_history.capacity == HISTORY_CAPACITY,
            m.cpu_history.samples@.len() == 0,
            m.mem_history.capacity == HISTORY_CAPACITY,
            m.mem_history.samples@.len() == 0,
            m.cpu == 0,
            m.mem_used_kb == 0,
            m.mem_total_kb == 0,
            m.status == Status::Empty,
    {
        let m = Monitor {
            records: Vec::new(),
            rows: Vec::new(),
            selected: None,
            sort_key: SortKey::Cpu,
            sort_order: SortOrder::Descending,
            filter: None,
            edit: Vec::new(),
            mode: Mode::Normal,
            paused: false,
            interval_ms: DEFAULT_INTERVAL_MS,
            cpu_history: History::new(HISTORY_CAPACITY),
            mem_history: History::new(HISTORY_CAPACITY),
            cpu: 0,
            mem_used_kb: 0,
            mem_total_kb: 0,
            status: Status::Empty,
        };
        assert(views(m.records@) =~= seq![]);
        m
    }

    /// Works the rows out again from the records and settings, and pulls the selection
    /// back into them.
    pub fn refresh_view(&mut self)
        requires
            old(self).cpu_history.wf(),
            old(self).mem_history.wf(),
            MIN_INTERVAL_MS <= old(self).interval_ms <= MAX_INTERVAL_MS,
        ensures
            final(self).wf(),
            final(self).selected == clamped(old(self).selected, final(self).rows@.len()),
            old(self).with_view_of(*final(self)) == *final(self),
    {
        let rows = run_pipeline(&self.records, &self.filter, self.sort_key, self.sort_order);
        let n = rows.len();
        self.selected = if n == 0 {
            None
        } else {
            match self.selected {
                None => Some(0),
                Some(i) => Some(if i < n { i } else { n - 1 }),
            }
        };
        self.rows = rows;
    }

    /// Takes in a new snapshot: replaces the records and aggregate figures, appends
    /// one sample to each series, and works the rows out again.
    pub fn apply_snapshot(&mut self, snap: Snapshot)
        requires
            old(self).wf(),
        ensures
            final(self).wf(),
            final(self).records == snap.records,
            final(self).cpu == snap.cpu,
            final(self).mem_used_kb == snap.mem_used_kb,
            final(self).mem_total_kb == snap.mem_total_kb,
            final(self).cpu_history.capacity == old(self).cpu_history.capacity,
            final(self).cpu_history.samples@ == pushed(
                old(self).cpu_history.capacity as nat,
                old(self).cpu_history.samples@,
                if snap.cpu / 100 > 100 { 100 } else { (snap.cpu / 100) as u64 },
            ),
            final(self).mem_history.capacity == old(self).mem_history.capacity,
            final(self).mem_history.samples@ == pushed(
                old(self).mem_history.capacity as nat,
                old(self).mem_history.samples@,
                if snap.mem_total_kb == 0 {
                    0
                } else if (snap.mem_used_kb as int) * 100 / (snap.mem_total_kb as int) > 100 {
                    100
                } else {
                    ((snap.mem_used_kb as int) * 100 / (snap.mem_total_kb as int)) as u64
                },
            ),
            final(self).selected == clamped(old(self).selected, final(self).rows@.len()),
            final(self).sort_key == old(self).sort_key,
            final(self).sort_order == old(self).sort_order,
            final(self).filter == old(self).filter,
            final(self).edit == old(self).edit,
            final(self).mode == old(self).mode,
            final(self).paused == old(self).paused,
            final(self).interval_ms == old(self).interval_ms,
            final(self).status == old(self).status,
    {
        let cpu_pct = cpu_percent(snap.cpu);
        let mem_pct = memory_percent(snap.mem_used_kb, snap.mem_total_kb);
        self.cpu_history.push(cpu_pct);
        self.mem_history.push(mem_pct);
        self.cpu = snap.cpu;
        self.mem_used_kb = snap.mem_used_kb;
        self.mem_total_kb = snap.mem_total_kb;
        self.records = snap.records;
        self.refresh_view();
    }

    /// Notes that the snapshot provider failed: the previous snapshot stays.
    pub fn sample_failed(&mut self)
        ensures
            *final(self) == (Monitor { status: Status::SampleFailed, ..*old(self) }),
    {
        self.status = Status::SampleFailed;
    }

    /// Notes how terminating `pid` went. The caller refreshes after a success.
    pub fn report_termination(&mut self, pid: u32, succeeded: bool)
        ensures
            *final(self) == (Monitor {
                status: if succeeded {
                    Status::Terminated(pid)
                } else {
                    Status::TerminateFailed(pid)
                },
                ..*old(self)
            }),
    {
        self.status = if succeeded {
            Status::Terminated(pid)
        } else {
            Status::TerminateFailed(pid)
        };
    }

    /// Tells whether this tick pulls a snapshot, `elapsed_ms` after the last one.
    pub fn on_tick(&self, elapsed_ms: u64) -> (r: bool)
        ensures
            r == (!self.paused && elapsed_ms >= self.interval_ms),
    {
        refresh_due(elapsed_ms, self.interval_ms, self.paused)
    }

    /// The process id of the selected row, if any.
    pub fn selected_pid(&self) -> (r: Option<u32>)
        requires
            self.wf(),
        ensures
            r == match self.selected {
                Some(i) => Some(self.rows@[i as int].pid),
                None => None::<u32>,
            },
    {
        match self.selected {
            Some(i) => Some(self.rows[i].pid),
            None => None,
        }
    }

    /// Moves the selection `n` rows down, stopping at the last row.
    fn move_down(&mut self, n: usize)
        requires
            old(self).wf(),
        ensures
            final(self).wf(),
            *final(self) == (Monitor {
                selected: moved_down(old(self).selected, old(self).rows@.len(), n as nat),
                ..*old(self)
            }),
    {
        let len = self.rows.len();
        match self.selected {
            None => {},
            Some(i) => {
                self.selected = Some(
                    if n < len && i < len - n {
                        i + n
                    } else {
                        len - 1
                    },
                );
            },
        }
    }

    /// Moves the selection `n` rows up, stopping at the first row.
    fn move_up(&mut self, n: usize)
        requires
            old(self).wf(),
        ensures
            final(self).wf(),
            *final(self) == (Monitor { selected: moved_up(old(self).selected, n as nat), ..*old(self) }),
    {
        match self.selected {
            None => {},
            Some(i) => {
                self.selected = Some(
                    if i >= n {
                        i - n
                    } else {
                        0
                    },
                );
            },
        }
    }

    /// Selects the next row.
    pub fn select_next(&mut self)
        requires
            old(self).wf(),
        ensures
            final(self).wf(),
            *final(self) == (Monitor {
                selected: moved_down(old(self).selected, old(self).rows@.len(), 1),
                ..*old(self)
            }),
    {
        self.move_down(1);
    }

    /// Selects the previous row.
    pub fn select_prev(&mut self)
        requires
            old(self).wf(),
        ensures
            final(self).wf(),
            *final(self) == (Monitor { selected: moved_up(old(self).selected, 1), ..*old(self) }),
    {
        self.move_up(1);
    }

    /// Moves the selection one page down.
    pub fn page_down(&mut self)
        requires
            old(self).wf(),
        ensures
            final(self).wf(),
            *final(self) == (Monitor {
                selected: moved_down(old(self).selected, old(self).rows@.len(), PAGE_SIZE as nat),
                ..*old(self)
            }),
    {
        self.move_down(PAGE_SIZE);
    }

    /// Moves the selection one page up.
    pub fn page_up(&mut self)
        requires
            old(self).wf(),
        ensures
            final(self).wf(),
            *final(self) == (Monitor {
                selected: moved_up(old(self).selected, PAGE_SIZE as nat),
                ..*old(self)
            }),
    {
        self.move_up(PAGE_SIZE);
    }

    /// Selects the first row.
    pub fn go_home(&mut self)
        requires
            old(self).wf(),
        ensures
            final(self).wf(),
            *final(self) == (Monitor { selected: at_first(old(self).selected), ..*old(self) }),
    {
        if self.selected.is_some() {
            self.selected = Some(0);
        }
    }

    /// Selects the last row.
    pub fn go_end(&mut self)
        requires
            old(self).wf(),
        ensures
            final(self).wf(),
            *final(self) == (Monitor {
                selected: at_last(old(self).selected, old(self).rows@.len()),
                ..*old(self)
            }),
    {
        if self.selected.is_some() {
            self.selected = Some(self.rows.len() - 1);
        }
    }
    /// Moves to the next sort key and works the rows out again.
    pub fn cycle_sort_key(&mut self)
        requires
            old(self).wf(),
        ensures
            final(self).wf(),
            final(self).selected == clamped(old(self).selected, final(self).rows@.len()),
            *final(self) == (Monitor {
                sort_key: next_key(old(self).sort_key),
                ..old(self).with_view_of(*final(self))
            }),
    {
        self.sort_key = self.sort_key.cycled();
        self.refresh_view();
    }

    /// Reverses the direction and works the rows out again.
    pub fn toggle_sort_order(&mut self)
        requires
            old(self).wf(),
        ensures
            final(self).wf(),
            final(self).selected == clamped(old(self).selected, final(self).rows@.len()),
            *final(self) == (Monitor {
                sort_order: flipped(old(self).sort_order),
                ..old(self).with_view_of(*final(self))
            }),
    {
        self.sort_order = self.sort_order.toggled();
        self.refresh_view();
    }

    /// Shortens the refresh interval by one step, within its bounds.
    pub fn set_interval_faster(&mut self)
        requires
            old(self).wf(),
        ensures
            final(self).wf(),
            *final(self) == (Monitor {
                interval_ms: clamp_interval(old(self).interval_ms - crate::schedule::INTERVAL_STEP_MS),
                ..*old(self)
            }),
    {
        self.interval_ms = faster_interval(self.interval_ms);
    }

    /// Lengthens the refresh interval by one step, within its bounds.
    pub fn set_interval_slower(&mut self)
        requires
            old(self).wf(),
        ensures
            final(self).wf(),
            *final(self) == (Monitor {
                interval_ms: clamp_interval(old(self).interval_ms + crate::schedule::INTERVAL_STEP_MS),
                ..*old(self)
            }),
    {
        self.interval_ms = slower_interval(self.interval_ms);
    }

    /// Pauses or resumes automatic sampling.
    pub fn toggle_pause(&mut self)
        ensures
            *final(self) == (Monitor { paused: !old(self).paused, ..*old(self) }),
    {
        self.paused = !self.paused;
    }

    /// Enters filter editing, with the active filter as the starting text.
    pub fn begin_filter(&mut self)
        ensures
            final(self).edit@ == seeded(old(self).filter),
            *final(self) == (Monitor {
                mode: Mode::FilterEditing,
                edit: final(self).edit,
                ..*old(self)
            }),
    {
        let seed = match &self.filter {
            Some(f) => copy_chars(f),
            None => Vec::new(),
        };
        self.edit = seed;
        self.mode = Mode::FilterEditing;
    }

    /// Appends a character to the edit buffer unless it is a control character.
    pub fn filter_push(&mut self, c: char)
        ensures
            final(self).edit@ == if is_control(c) {
                old(self).edit@
            } else {
                old(self).edit@.push(c)
            },
            *final(self) == (Monitor { edit: final(self).edit, ..*old(self) }),
    {
        if !control_char(c) {
            self.edit.push(c);
        }
    }

    /// Removes the last character of the edit buffer, if any.
    pub fn filter_pop(&mut self)
        ensures
            final(self).edit@ == if old(self).edit@.len() == 0 {
                old(self).edit@
            } else {
                old(self).edit@.drop_last()
            },
            *final(self) == (Monitor { edit: final(self).edit, ..*old(self) }),
    {
        let _ = self.edit.pop();
    }

    /// Makes the trimmed edit buffer the active filter (none when it is blank),
    /// returns to normal mode and works the rows out again.
    pub fn commit_filter(&mut self)
        requires
            old(self).wf(),
        ensures
            final(self).wf(),
            query_view(final(self).filter) == committed(old(self).edit@),
            final(self).selected == clamped(old(self).selected, final(self).rows@.len()),
            *final(self) == (Monitor {
                filter: final(self).filter,
                mode: Mode::Normal,
                ..old(self).with_view_of(*final(self))
            }),
    {
        let t = trim_chars(&self.edit);
        self.filter = if t.len() == 0 {
            None
        } else {
            Some(t)
        };
        self.mode = Mode::Normal;
        self.refresh_view();
    }

    /// Leaves filter editing without touching the active filter.
    pub fn cancel_filter(&mut self)
        ensures
            *final(self) == (Monitor { mode: Mode::Normal, ..*old(self) }),
    {
        self.mode = Mode::Normal;
    }

    /// Opens the details popup when a row is selected.
    pub fn open_details(&mut self)
        ensures
            *final(self) == if old(self).selected is Some {
                Monitor { mode: Mode::DetailsPopup, ..*old(self) }
            } else {
                *old(self)
            },
    {
        if self.selected.is_some() {
            self.mode = Mode::DetailsPopup;
        }
    }

    /// Closes the details popup.
    pub fn close_details(&mut self)
        ensures
            *final(self) == (Monitor { mode: Mode::Normal, ..*old(self) }),
    {
        self.mode = Mode::Normal;
    }

    /// The action that terminates the selected process, if a row is selected.
    pub fn kill_selected(&self) -> (r: Action)
        requires
            self.wf(),
        ensures
            r == match self.selected {
                Some(i) => Action::Terminate(self.rows@[i as int].pid),
                None => Action::Nothing,
            },
    {
        match self.selected_pid() {
            Some(pid) => Action::Terminate(pid),
            None => Action::Nothing,
        }
    }

    /// Interprets one key press in the current mode. The details popup takes only
    /// its closing keys; filter editing takes text, commit and cancel; normal mode
    /// takes navigation, sorting, filtering, pausing, interval, details, termination,
    /// refresh and quit. Any other key changes nothing.
    pub fn handle_key(&mut self, key: Key) -> (r: Action)
        requires
            old(self).wf(),
        ensures
            final(self).wf(),
            old(self).mode == Mode::DetailsPopup ==> r == Action::Nothing && *final(self) == if key
                == Key::Esc || key == Key::Enter || key == Key::Char('i') {
                Monitor { mode: Mode::Normal, ..*old(self) }
            } else {
                *old(self)
            },
            old(self).mode == Mode::FilterEditing ==> r == Action::Nothing && (if key == Key::Esc {
                *final(self) == Monitor { mode: Mode::Normal, ..*old(self) }
            } else if key == Key::Enter {
                &&& query_view(final(self).filter) == committed(old(self).edit@)
                &&& final(self).selected == clamped(old(self).selected, final(self).rows@.len())
                &&& *final(self) == Monitor {
                    filter: final(self).filter,
                    mode: Mode::Normal,
                    ..old(self).with_view_of(*final(self))
                }
            } else if key == Key::Backspace {
                &&& final(self).edit@ == if old(self).edit@.len() == 0 {
                    old(self).edit@
                } else {
                    old(self).edit@.drop_last()
                }
                &&& *final(self) == Monitor { edit: final(self).edit, ..*old(self) }
            } else if let Key::Char(c) = key {
                &&& final(self).edit@ == if is_control(c) {
                    old(self).edit@
                } else {
                    old(self).edit@.push(c)
                }
                &&& *final(self) == Monitor { edit: final(self).edit, ..*old(self) }
            } else {
                *final(self) == *old(self)
            }),
            old(self).mode == Mode::Normal ==> normal_step(*old(self), key, *final(self), r),
    {
        match self.mode {
            Mode::DetailsPopup => {
                match key {
                    Key::Esc | Key::Enter | Key::Char('i') => self.close_details(),
                    _ => {},
                }
                Action::Nothing
            },
            Mode::FilterEditing => {
                match key {
                    Key::Esc => self.cancel_filter(),
                    Key::Enter => self.commit_filter(),
                    Key::Backspace => self.filter_pop(),
                    Key::Char(c) => self.filter_push(c),
                    _ => {},
                }
                Action::Nothing
            },
            Mode::Normal => {
                match key {
                    Key::Char('q') => Action::Quit,
                    Key::Down => {
                        self.select_next();
                        Action::Nothing
                    },
                    Key::Up => {
                        self.select_prev();
                        Action::Nothing
                    },
                    Key::PageDown => {
                        self.page_down();
                        Action::Nothing
                    },
                    Key::PageUp => {
                        self.page_up();
                        Action::Nothing
                    },
                    Key::Home => {
                        self.go_home();
                        Action::Nothing
                    },
                    Key::End => {
                        self.go_end();
                        Action::Nothing
                    },
                    Key::Char('s') => {
                        self.cycle_sort_key();
                        Action::Nothing
                    },
                    Key::Char('r') => {
                        self.toggle_sort_order();
                        Action::Nothing
                    },
                    Key::Char('k') => self.kill_selected(),
                    Key::Char('i') => {
                        self.open_details();
                        Action::Nothing
                    },
                    Key::Char('/') => {
                        self.begin_filter();
                        Action::Nothing
                    },
                    Key::Char('p') => {
                        self.toggle_pause();
                        Action::Nothing
                    },
                    Key::Char('+') | Key::Char('=') => {
                        self.set_interval_faster();
                        Action::Nothing
                    },
                    Key::Char('-') => {
                        self.set_interval_slower();
                        Action::Nothing
                    },
                    Key::F(5) => Action::Refresh,
                    _ => Action::Nothing,
                }
            },
        }
    }
}

/// What a key does in normal mode: `before` and `key` lead to `after` and the
/// action `r`.
pub open spec fn normal_step(before: Monitor, key: Key, after: Monitor, r: Action) -> bool {
    let len = before.rows@.len();
    let rebuilt = after.selected == clamped(before.selected, after.rows@.len());
    if key == Key::Char('q') {
        r == Action::Quit && after == before
    } else if key == Key::Down {
        r == Action::Nothing && after == Monitor {
            selected: moved_down(before.selected, len, 1),
            ..before
        }
    } else if key == Key::Up {
        r == Action::Nothing && after == Monitor { selected: moved_up(before.selected, 1), ..before }
    } else if key == Key::PageDown {
        r == Action::Nothing && after == Monitor {
            selected: moved_down(before.selected, len, PAGE_SIZE as nat),
            ..before
        }
    } else if key == Key::PageUp {
        r == Action::Nothing && after == Monitor {
            selected: moved_up(before.selected, PAGE_SIZE as nat),
            ..before
        }
    } else if key == Key::Home {
        r == Action::Nothing && after == Monitor { selected: at_first(before.selected), ..before }
    } else if key == Key::End {
        r == Action::Nothing && after == Monitor { selected: at_last(before.selected, len), ..before }
    } else if key == Key::Char('s') {
        &&& r == Action::Nothing
        &&& rebuilt
        &&& after == Monitor { sort_key: next_key(before.sort_key), ..before.with_view_of(after) }
    } else if key == Key::Char('r') {
        &&& r == Action::Nothing
        &&& rebuilt
        &&& after == Monitor {
            sort_order: flipped(before.sort_order),
            ..before.with_view_of(after)
        }
    } else if key == Key::Char('k') {
        &&& after == before
        &&& r == match before.selected {
            Some(i) => Action::Terminate(before.rows@[i as int].pid),
            None => Action::Nothing,
        }
    } else if key == Key::Char('i') {
        r == Action::Nothing && after == if before.selected is Some {
            Monitor { mode: Mode::DetailsPopup, ..before }
        } else {
            before
        }
    } else if key == Key::Char('/') {
        &&& r == Action::Nothing
        &&& after.edit@ == seeded(before.filter)
        &&& after == Monitor { mode: Mode::FilterEditing, edit: after.edit, ..before }
    } else if key == Key::Char('p') {
        r == Action::Nothing && after == Monitor { paused: !before.paused, ..before }
    } else if key == Key::Char('+') || key == Key::Char('=') {
        r == Action::Nothing && after == Monitor {
            interval_ms: clamp_interval(before.interval_ms - crate::schedule::INTERVAL_STEP_MS),
            ..before
        }
    } else if key == Key::Char('-') {
        r == Action::Nothing && after == Monitor {
            interval_ms: clamp_interval(before.interval_ms + crate::schedule::INTERVAL_STEP_MS),
            ..before
        }
    } else if key == Key::F(5) {
        r == Action::Refresh && after == before
    } else {
        r == Action::Nothing && after == before
    }
}

/// A copy of a character buffer.
fn copy_chars(v: &Vec<char>) -> (r: Vec<char>)
    ensures
        r@ == v@,
{
    let mut r: Vec<char> = Vec::new();
    let mut i: usize = 0;
    while i < v.len()
        invariant
            i <= v@.len(),
            r@ == v@.take(i as int),
        decreases v@.len() - i,
    {
        r.push(v[i]);
        assert(v@.take(i + 1) =~= v@.take(i as int).push(v@[i as int]));
        i += 1;
    }
    assert(v@.take(i as int) =~= v@);
    r
}

} // verus!
