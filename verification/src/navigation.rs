//! Keyboard navigation of the terminal UI: which screen and pane are shown, which task,
//! run or run task is selected, and what each key press asks the application to do.

use crate::tui::adjust_scroll;
use vstd::prelude::*;

verus! {

/// A screen of the terminal UI.
#[derive(Debug, Clone, Copy, PartialEq, Eq, Structural)]
pub enum Screen {
    /// Task selection and progress of the current run.
    Launcher,
    /// One run's tasks, output, events and summary.
    RunDetail,
    /// The recorded runs of the recipe.
    RunHistory,
}

/// The pane that receives scrolling and selection keys.
#[derive(Debug, Clone, Copy, PartialEq, Eq, Structural)]
pub enum Focus {
    LauncherTasks,
    LauncherDetails,
    LauncherFailureOutput,
    HistoryRuns,
    HistoryDetails,
    DetailTasks,
    DetailOutput,
    DetailEvents,
    DetailSummary,
}

/// A key of a key press.
#[derive(Debug, Clone, Copy, PartialEq, Eq, Structural)]
pub enum Key {
    Char(char),
    Esc,
    Tab,
    BackTab,
    Enter,
    Up,
    Down,
    PageUp,
    PageDown,
    End,
    /// Any key that the UI does not use.
    Other,
}

/// The modifier keys held during a key press.
#[derive(Debug, Clone, Copy, PartialEq, Eq, Structural)]
pub enum Modifiers {
    /// No modifier.
    NoModifier,
    /// Control and nothing else.
    ControlOnly,
    /// Any other combination.
    Other,
}

/// A key press.
#[derive(Debug, Clone, Copy, PartialEq, Eq, Structural)]
pub struct KeyPress {
    pub key: Key,
    pub modifiers: Modifiers,
}

/// What the application does after a key press, beyond the navigation state it changed.
#[derive(Debug, Clone, Copy, PartialEq, Eq, Structural)]
pub enum KeyAction {
    /// Nothing more.
    Nothing,
    /// Leave the UI.
    Quit,
    /// Restart the active or the last run.
    Restart,
    /// Start a run of the launcher's goal tasks.
    StartRun,
    /// Add the selected launcher task to the goal tasks, or remove it.
    ToggleSelectedGoal,
    /// Reload the list of recorded runs.
    ReloadHistory,
    /// Open the recorded run at this index of the history.
    OpenRun(usize),
    /// Reload the log of the selected run task.
    ReloadSelectedTaskLog,
    /// The selected run task changed: force and perform a reload of its log.
    SelectedRunTaskChanged,
    /// Scroll the launcher's failure output by this many lines.
    ScrollLauncherLog(i32),
    /// Scroll the launcher's failure output to its top.
    LauncherLogToTop,
    /// Scroll the launcher's failure output to its bottom.
    LauncherLogToBottom,
    /// Scroll the selected task's log by this many lines.
    ScrollTaskLog(i32),
    /// Scroll the selected task's log to its top.
    TaskLogToTop,
    /// Scroll the selected task's log to its bottom.
    TaskLogToBottom,
}

/// How far the summary pane scrolls.
pub const MAX_SUMMARY_SCROLL: u16 = 32;

/// The navigation state of the terminal UI.
#[derive(Debug, Clone, Copy, PartialEq, Eq, Structural)]
pub struct Navigation {
    pub screen: Screen,
    pub focus: Focus,
    pub help_visible: bool,
    /// Number of tasks in the launcher.
    pub task_count: usize,
    pub selected_task_index: usize,
    /// Number of recorded runs in the history.
    pub run_count: usize,
    pub selected_run_index: usize,
    /// Number of tasks of the open run, when a run is open.
    pub run_task_count: Option<usize>,
    pub selected_run_task_index: usize,
    /// Number of recorded events of the open run, when a run is open.
    pub event_count: Option<usize>,
    pub events_scroll: u16,
    pub summary_scroll: u16,
    /// Whether the task log follows new output.
    pub auto_follow_log: bool,
    /// Whether the launcher shows the output of a failed task.
    pub failure_output_shown: bool,
}

/// Whether a pane belongs to a screen.
pub open spec fn focus_on_screen(screen: Screen, focus: Focus) -> bool {
    match screen {
        Screen::Launcher => focus == Focus::LauncherTasks || focus == Focus::LauncherDetails || focus
            == Focus::LauncherFailureOutput,
        Screen::RunHistory => focus == Focus::HistoryRuns || focus == Focus::HistoryDetails,
        Screen::RunDetail => focus == Focus::DetailTasks || focus == Focus::DetailOutput || focus
            == Focus::DetailEvents || focus == Focus::DetailSummary,
    }
}

/// Whether a selection index is within a list of `count` items, or zero for an empty list.
pub open spec fn selection_in_range(index: usize, count: usize) -> bool {
    index < count || index == 0
}

impl Navigation {
    /// The state the UI starts in: the launcher with its task list focused.
    pub open spec fn initial(task_count: usize, run_count: usize) -> Navigation {
        Navigation {
            screen: Screen::Launcher,
            focus: Focus::LauncherTasks,
            help_visible: false,
            task_count,
            selected_task_index: 0,
            run_count,
            selected_run_index: 0,
            run_task_count: None,
            selected_run_task_index: 0,
            event_count: None,
            events_scroll: 0,
            summary_scroll: 0,
            auto_follow_log: true,
            failure_output_shown: false,
        }
    }

    /// The focused pane belongs to the shown screen and the launcher and history
    /// selections are within their lists.
    pub open spec fn wf(self) -> bool {
        &&& focus_on_screen(self.screen, self.focus)
        &&& selection_in_range(self.selected_task_index, self.task_count)
        &&& selection_in_range(self.selected_run_index, self.run_count)
    }

    /// The state the UI starts in, for `task_count` tasks and `run_count` recorded runs.
    pub fn new(task_count: usize, run_count: usize) -> (nav: Navigation)
        ensures
            nav == Navigation::initial(task_count, run_count),
            nav.wf(),
    {
        Navigation {
            screen: Screen::Launcher,
            focus: Focus::LauncherTasks,
            help_visible: false,
            task_count,
            selected_task_index: 0,
            run_count,
            selected_run_index: 0,
            run_task_count: None,
            selected_run_task_index: 0,
            event_count: None,
            events_scroll: 0,
            summary_scroll: 0,
            auto_follow_log: true,
            failure_output_shown: false,
        }
    }
}

/// The panes of a screen in the order that Tab visits them.
pub open spec fn focus_order(screen: Screen, failure_output_shown: bool) -> Seq<Focus> {
    match screen {
        Screen::Launcher => if failure_output_shown {
            seq![Focus::LauncherTasks, Focus::LauncherDetails, Focus::LauncherFailureOutput]
        } else {
            seq![Focus::LauncherTasks, Focus::LauncherDetails]
        },
        Screen::RunHistory => seq![Focus::HistoryRuns, Focus::HistoryDetails],
        Screen::RunDetail => seq![Focus::DetailTasks, Focus::DetailOutput, Focus::DetailEvents, Focus::DetailSummary],
    }
}

/// The first position of `focus` in `order` from `from` on, or 0 when it is not there.
pub open spec fn focus_position(order: Seq<Focus>, focus: Focus, from: int) -> int
    decreases order.len() - from,
{
    if from < 0 || from >= order.len() {
        0
    } else if order[from] == focus {
        from
    } else {
        focus_position(order, focus, from + 1)
    }
}

/// The pane after (or, in `reverse`, before) the focused one, cyclically.
pub open spec fn cycled_focus(screen: Screen, failure_output_shown: bool, focus: Focus, reverse: bool) -> Focus {
    let order = focus_order(screen, failure_output_shown);
    let p = focus_position(order, focus, 0);
    if reverse {
        if p == 0 {
            order[order.len() - 1]
        } else {
            order[p - 1]
        }
    } else {
        order[(p + 1) % (order.len() as int)]
    }
}

/// `value` kept within `0 ..= max`.
pub open spec fn clamp_int(value: int, max: int) -> int {
    if value < 0 {
        0
    } else if value > max {
        max
    } else {
        value
    }
}

/// The launcher or history selection after moving it by `delta` in a list of `count`.
pub open spec fn moved_selection(index: usize, count: usize, delta: int) -> usize {
    if count == 0 {
        0
    } else {
        clamp_int(index + delta, count - 1) as usize
    }
}

/// How far the events pane scrolls: to the last event, at most `u16::MAX`.
pub open spec fn max_events_scroll_spec(event_count: Option<usize>) -> u16 {
    match event_count {
        Some(n) => if n == 0 {
            0
        } else if n - 1 > u16::MAX {
            u16::MAX
        } else {
            (n - 1) as u16
        },
        None => 0,
    }
}

/// `current + delta` kept within `0 ..= max`.
pub open spec fn scrolled(current: u16, delta: int, max: u16) -> u16 {
    clamp_int(current + delta, max as int) as u16
}

/// Selects run task `index` of the open run; a change of selection reloads its log.
pub open spec fn select_run_task(nav: Navigation, index: usize) -> (Navigation, KeyAction) {
    if nav.selected_run_task_index == index {
        (nav, KeyAction::Nothing)
    } else {
        (Navigation { selected_run_task_index: index, ..nav }, KeyAction::SelectedRunTaskChanged)
    }
}

/// Moves the run-task selection by `delta` within the open run's tasks.
pub open spec fn move_run_task(nav: Navigation, delta: int) -> (Navigation, KeyAction) {
    match nav.run_task_count {
        None => (nav, KeyAction::Nothing),
        Some(n) => if n == 0 {
            (Navigation { selected_run_task_index: 0, ..nav }, KeyAction::Nothing)
        } else {
            select_run_task(nav, clamp_int(nav.selected_run_task_index + delta, n - 1) as usize)
        },
    }
}

/// Scrolls the focused run-detail pane by `delta`.
pub open spec fn scroll_detail_pane(nav: Navigation, delta: i32) -> (Navigation, KeyAction) {
    match nav.focus {
        Focus::DetailTasks => move_run_task(nav, delta as int),
        Focus::DetailOutput => (
            Navigation { auto_follow_log: if delta != 0 { false } else { nav.auto_follow_log }, ..nav },
            KeyAction::ScrollTaskLog(delta),
        ),
        Focus::DetailEvents => (
            Navigation {
                events_scroll: scrolled(nav.events_scroll, delta as int, max_events_scroll_spec(nav.event_count)),
                ..nav
            },
            KeyAction::Nothing,
        ),
        Focus::DetailSummary => (
            Navigation { summary_scroll: scrolled(nav.summary_scroll, delta as int, MAX_SUMMARY_SCROLL), ..nav },
            KeyAction::Nothing,
        ),
        _ => (nav, KeyAction::Nothing),
    }
}

/// Scrolls the focused run-detail pane to its top.
pub open spec fn detail_pane_to_top(nav: Navigation) -> (Navigation, KeyAction) {
    match nav.focus {
        Focus::DetailOutput => (Navigation { auto_follow_log: false, ..nav }, KeyAction::TaskLogToTop),
        Focus::DetailEvents => (Navigation { events_scroll: 0, ..nav }, KeyAction::Nothing),
        Focus::DetailSummary => (Navigation { summary_scroll: 0, ..nav }, KeyAction::Nothing),
        Focus::DetailTasks => select_run_task(nav, 0),
        _ => (nav, KeyAction::Nothing),
    }
}

/// Scrolls the focused run-detail pane to its bottom.
pub open spec fn detail_pane_to_bottom(nav: Navigation) -> (Navigation, KeyAction) {
    match nav.focus {
        Focus::DetailOutput => (Navigation { auto_follow_log: false, ..nav }, KeyAction::TaskLogToBottom),
        Focus::DetailEvents => (
            Navigation { events_scroll: max_events_scroll_spec(nav.event_count), ..nav },
            KeyAction::Nothing,
        ),
        Focus::DetailSummary => (Navigation { summary_scroll: MAX_SUMMARY_SCROLL, ..nav }, KeyAction::Nothing),
        Focus::DetailTasks => match nav.run_task_count {
            Some(n) => if n > 0 {
                select_run_task(nav, (n - 1) as usize)
            } else {
                (nav, KeyAction::Nothing)
            },
            None => (nav, KeyAction::Nothing),
        },
        _ => (nav, KeyAction::Nothing),
    }
}

/// Scrolls the focused launcher pane by `delta`.
pub open spec fn scroll_launcher_pane(nav: Navigation, delta: i32) -> (Navigation, KeyAction) {
    match nav.focus {
        Focus::LauncherTasks => (
            Navigation {
                selected_task_index: moved_selection(nav.selected_task_index, nav.task_count, delta as int),
                ..nav
            },
            KeyAction::Nothing,
        ),
        Focus::LauncherFailureOutput => (nav, KeyAction::ScrollLauncherLog(delta)),
        _ => (nav, KeyAction::Nothing),
    }
}

/// Whether the key is this character.
pub open spec fn is_char(key: Key, c: char) -> bool {
    key == Key::Char(c)
}

/// The effect of a key on the launcher screen.
pub open spec fn launcher_step(nav: Navigation, press: KeyPress) -> (Navigation, KeyAction) {
    let key = press.key;
    if is_char(key, 'o') && nav.failure_output_shown {
        (Navigation { focus: Focus::LauncherFailureOutput, ..nav }, KeyAction::Nothing)
    } else if is_char(key, 'g') && press.modifiers == Modifiers::NoModifier {
        if nav.focus == Focus::LauncherFailureOutput {
            (nav, KeyAction::LauncherLogToTop)
        } else {
            (nav, KeyAction::Nothing)
        }
    } else if is_char(key, 'G') || key == Key::End {
        if nav.focus == Focus::LauncherFailureOutput {
            (nav, KeyAction::LauncherLogToBottom)
        } else {
            (nav, KeyAction::Nothing)
        }
    } else if key == Key::PageDown {
        scroll_launcher_pane(nav, 10i32)
    } else if key == Key::PageUp {
        scroll_launcher_pane(nav, -10i32)
    } else if key == Key::Down || is_char(key, 'j') {
        scroll_launcher_pane(nav, 1i32)
    } else if key == Key::Up || is_char(key, 'k') {
        scroll_launcher_pane(nav, -1i32)
    } else if is_char(key, ' ') {
        if nav.selected_task_index < nav.task_count {
            (nav, KeyAction::ToggleSelectedGoal)
        } else {
            (nav, KeyAction::Nothing)
        }
    } else if key == Key::Enter {
        (nav, KeyAction::StartRun)
    } else if is_char(key, 'r') {
        (Navigation { screen: Screen::RunHistory, focus: Focus::HistoryRuns, ..nav }, KeyAction::ReloadHistory)
    } else {
        (nav, KeyAction::Nothing)
    }
}

/// The effect of a key on the history screen.
pub open spec fn history_step(nav: Navigation, press: KeyPress) -> (Navigation, KeyAction) {
    let key = press.key;
    if key == Key::Down || is_char(key, 'j') {
        (Navigation { selected_run_index: moved_selection(nav.selected_run_index, nav.run_count, 1), ..nav }, KeyAction::Nothing)
    } else if key == Key::Up || is_char(key, 'k') {
        (Navigation { selected_run_index: moved_selection(nav.selected_run_index, nav.run_count, -1), ..nav }, KeyAction::Nothing)
    } else if key == Key::Enter {
        if nav.selected_run_index < nav.run_count {
            (
                Navigation { screen: Screen::RunDetail, focus: Focus::DetailOutput, ..nav },
                KeyAction::OpenRun(nav.selected_run_index),
            )
        } else {
            (nav, KeyAction::Nothing)
        }
    } else if is_char(key, 'R') {
        (nav, KeyAction::ReloadHistory)
    } else if is_char(key, 'l') {
        (Navigation { screen: Screen::Launcher, focus: Focus::LauncherTasks, ..nav }, KeyAction::Nothing)
    } else {
        (nav, KeyAction::Nothing)
    }
}

/// The effect of a key on the run-detail screen.
pub open spec fn detail_step(nav: Navigation, press: KeyPress) -> (Navigation, KeyAction) {
    let key = press.key;
    if is_char(key, 't') {
        (Navigation { focus: Focus::DetailTasks, ..nav }, KeyAction::Nothing)
    } else if is_char(key, 'o') {
        (Navigation { focus: Focus::DetailOutput, ..nav }, KeyAction::Nothing)
    } else if is_char(key, 'e') {
        (Navigation { focus: Focus::DetailEvents, ..nav }, KeyAction::Nothing)
    } else if is_char(key, 's') {
        (Navigation { focus: Focus::DetailSummary, ..nav }, KeyAction::Nothing)
    } else if is_char(key, 'r') {
        (Navigation { screen: Screen::RunHistory, focus: Focus::HistoryRuns, ..nav }, KeyAction::Nothing)
    } else if is_char(key, 'L') {
        (Navigation { auto_follow_log: !nav.auto_follow_log, ..nav }, KeyAction::Nothing)
    } else if is_char(key, 'h') {
        (Navigation { focus: cycled_focus(nav.screen, nav.failure_output_shown, nav.focus, true), ..nav }, KeyAction::Nothing)
    } else if is_char(key, 'l') {
        (Navigation { focus: cycled_focus(nav.screen, nav.failure_output_shown, nav.focus, false), ..nav }, KeyAction::Nothing)
    } else if is_char(key, 'g') && press.modifiers == Modifiers::NoModifier {
        detail_pane_to_top(nav)
    } else if is_char(key, 'G') || key == Key::End {
        detail_pane_to_bottom(nav)
    } else if key == Key::PageDown {
        scroll_detail_pane(nav, 10i32)
    } else if key == Key::PageUp {
        scroll_detail_pane(nav, -10i32)
    } else if key == Key::Down || is_char(key, 'j') {
        scroll_detail_pane(nav, 1i32)
    } else if key == Key::Up || is_char(key, 'k') {
        scroll_detail_pane(nav, -1i32)
    } else if key == Key::Enter {
        (nav, KeyAction::ReloadSelectedTaskLog)
    } else {
        (nav, KeyAction::Nothing)
    }
}

/// The effect of a key press on the navigation state, and what the application does next.
/// While help is shown, `?`, Esc and `q` close it and every key does nothing else.
pub open spec fn key_step(nav: Navigation, press: KeyPress) -> (Navigation, KeyAction) {
    let key = press.key;
    if nav.help_visible {
        if is_char(key, '?') || key == Key::Esc || is_char(key, 'q') {
            (Navigation { help_visible: false, ..nav }, KeyAction::Nothing)
        } else {
            (nav, KeyAction::Nothing)
        }
    } else if is_char(key, 'q') {
        (nav, KeyAction::Quit)
    } else if is_char(key, '?') {
        (Navigation { help_visible: true, ..nav }, KeyAction::Nothing)
    } else if is_char(key, 'r') && press.modifiers == Modifiers::ControlOnly {
        (nav, KeyAction::Restart)
    } else if is_char(key, '1') {
        (Navigation { screen: Screen::Launcher, focus: Focus::LauncherTasks, ..nav }, KeyAction::Nothing)
    } else if is_char(key, '2') {
        (Navigation { screen: Screen::RunDetail, focus: Focus::DetailOutput, ..nav }, KeyAction::Nothing)
    } else if is_char(key, '3') {
        (Navigation { screen: Screen::RunHistory, focus: Focus::HistoryRuns, ..nav }, KeyAction::Nothing)
    } else if key == Key::Tab {
        (Navigation { focus: cycled_focus(nav.screen, nav.failure_output_shown, nav.focus, false), ..nav }, KeyAction::Nothing)
    } else if key == Key::BackTab {
        (Navigation { focus: cycled_focus(nav.screen, nav.failure_output_shown, nav.focus, true), ..nav }, KeyAction::Nothing)
    } else {
        match nav.screen {
            Screen::Launcher => launcher_step(nav, press),
            Screen::RunHistory => history_step(nav, press),
            Screen::RunDetail => detail_step(nav, press),
        }
    }
}

/// How far the events pane scrolls for `event_count` events of the open run.
pub fn max_events_scroll(event_count: Option<usize>) -> (m: u16)
    ensures
        m == max_events_scroll_spec(event_count),
{
    match event_count {
        Some(n) => if n == 0 {
            0
        } else if n - 1 > 65535 {
            65535
        } else {
            (n - 1) as u16
        },
        None => 0,
    }
}

/// The pane that Tab (or, in `reverse`, Shift-Tab) moves to from `focus`.
pub fn cycle_focus(screen: Screen, failure_output_shown: bool, focus: Focus, reverse: bool) -> (next: Focus)
    ensures
        next == cycled_focus(screen, failure_output_shown, focus, reverse),
{
    let order: Vec<Focus> = match screen {
        Screen::Launcher => if failure_output_shown {
            vec![Focus::LauncherTasks, Focus::LauncherDetails, Focus::LauncherFailureOutput]
        } else {
            vec![Focus::LauncherTasks, Focus::LauncherDetails]
        },
        Screen::RunHistory => vec![Focus::HistoryRuns, Focus::HistoryDetails],
        Screen::RunDetail => vec![Focus::DetailTasks, Focus::DetailOutput, Focus::DetailEvents, Focus::DetailSummary],
    };
    let ghost spec_order = focus_order(screen, failure_output_shown);
    assert(order@ =~= spec_order);
    let n = order.len();
    let mut p: usize = 0;
    while p < n && order[p] != focus
        invariant
            n == order@.len(),
            order@ == spec_order,
            p <= n,
            focus_position(spec_order, focus, 0) == focus_position(spec_order, focus, p as int)
                || (p == n && focus_position(spec_order, focus, 0) == 0),
        decreases n - p,
    {
        p = p + 1;
    }
    let position = if p < n {
        p
    } else {
        0
    };
    if reverse {
        if position == 0 {
            order[n - 1]
        } else {
            order[position - 1]
        }
    } else {
        order[(position + 1) % n]
    }
}

/// `index + delta` kept within `0 ..= count - 1`, for a non-empty list of `count`.
fn clamp_index(index: usize, delta: i32, count: usize) -> (r: usize)
    requires
        count > 0,
    ensures
        r == clamp_int(index + delta, count - 1),
{
    if delta < 0 {
        let back: usize = (0 - (delta as i64)) as usize;
        if index < back {
            0
        } else if index - back > count - 1 {
            count - 1
        } else {
            index - back
        }
    } else {
        let forward: usize = delta as usize;
        if index > count - 1 {
            count - 1
        } else if forward > count - 1 - index {
            count - 1
        } else {
            index + forward
        }
    }
}

impl Navigation {
    fn select_run_task(&mut self, index: usize) -> (action: KeyAction)
        ensures
            (*final(self), action) == select_run_task(*old(self), index),
    {
        if self.selected_run_task_index == index {
            KeyAction::Nothing
        } else {
            self.selected_run_task_index = index;
            KeyAction::SelectedRunTaskChanged
        }
    }

    fn scroll_detail_pane(&mut self, delta: i32) -> (action: KeyAction)
        ensures
            (*final(self), action) == scroll_detail_pane(*old(self), delta),
    {
        match self.focus {
            Focus::DetailTasks => match self.run_task_count {
                None => KeyAction::Nothing,
                Some(n) => if n == 0 {
                    self.selected_run_task_index = 0;
                    KeyAction::Nothing
                } else {
                    let next = clamp_index(self.selected_run_task_index, delta, n);
                    self.select_run_task(next)
                },
            },
            Focus::DetailOutput => {
                if delta != 0 {
                    self.auto_follow_log = false;
                }
                KeyAction::ScrollTaskLog(delta)
            },
            Focus::DetailEvents => {
                let max = max_events_scroll(self.event_count);
                self.events_scroll = adjust_scroll(self.events_scroll, delta, max);
                KeyAction::Nothing
            },
            Focus::DetailSummary => {
                self.summary_scroll = adjust_scroll(self.summary_scroll, delta, MAX_SUMMARY_SCROLL);
                KeyAction::Nothing
            },
            _ => KeyAction::Nothing,
        }
    }

    fn detail_pane_to_top(&mut self) -> (action: KeyAction)
        ensures
            (*final(self), action) == detail_pane_to_top(*old(self)),
    {
        match self.focus {
            Focus::DetailOutput => {
                self.auto_follow_log = false;
                KeyAction::TaskLogToTop
            },
            Focus::DetailEvents => {
                self.events_scroll = 0;
                KeyAction::Nothing
            },
            Focus::DetailSummary => {
                self.summary_scroll = 0;
                KeyAction::Nothing
            },
            Focus::DetailTasks => self.select_run_task(0),
            _ => KeyAction::Nothing,
        }
    }

    fn detail_pane_to_bottom(&mut self) -> (action: KeyAction)
        ensures
            (*final(self), action) == detail_pane_to_bottom(*old(self)),
    {
        match self.focus {
            Focus::DetailOutput => {
                self.auto_follow_log = false;
                KeyAction::TaskLogToBottom
            },
            Focus::DetailEvents => {
                self.events_scroll = max_events_scroll(self.event_count);
                KeyAction::Nothing
            },
            Focus::DetailSummary => {
                self.summary_scroll = MAX_SUMMARY_SCROLL;
                KeyAction::Nothing
            },
            Focus::DetailTasks => match self.run_task_count {
                Some(n) => if n > 0 {
                    self.select_run_task(n - 1)
                } else {
                    KeyAction::Nothing
                },
                None => KeyAction::Nothing,
            },
            _ => KeyAction::Nothing,
        }
    }

    fn scroll_launcher_pane(&mut self, delta: i32) -> (action: KeyAction)
        ensures
            (*final(self), action) == scroll_launcher_pane(*old(self), delta),
    {
        match self.focus {
            Focus::LauncherTasks => {
                if self.task_count == 0 {
                    self.selected_task_index = 0;
                } else {
                    self.selected_task_index = clamp_index(self.selected_task_index, delta, self.task_count);
                }
                KeyAction::Nothing
            },
            Focus::LauncherFailureOutput => KeyAction::ScrollLauncherLog(delta),
            _ => KeyAction::Nothing,
        }
    }

    fn launcher_key(&mut self, press: KeyPress) -> (action: KeyAction)
        ensures
            (*final(self), action) == launcher_step(*old(self), press),
    {
        let key = press.key;
        if key == Key::Char('o') && self.failure_output_shown {
            self.focus = Focus::LauncherFailureOutput;
            KeyAction::Nothing
        } else if key == Key::Char('g') && press.modifiers == Modifiers::NoModifier {
            if self.focus == Focus::LauncherFailureOutput {
                KeyAction::LauncherLogToTop
            } else {
                KeyAction::Nothing
            }
        } else if key == Key::Char('G') || key == Key::End {
            if self.focus == Focus::LauncherFailureOutput {
                KeyAction::LauncherLogToBottom
            } else {
                KeyAction::Nothing
            }
        } else if key == Key::PageDown {
            self.scroll_launcher_pane(10)
        } else if key == Key::PageUp {
            self.scroll_launcher_pane(-10)
        } else if key == Key::Down || key == Key::Char('j') {
            self.scroll_launcher_pane(1)
        } else if key == Key::Up || key == Key::Char('k') {
            self.scroll_launcher_pane(-1)
        } else if key == Key::Char(' ') {
            if self.selected_task_index < self.task_count {
                KeyAction::ToggleSelectedGoal
            } else {
                KeyAction::Nothing
            }
        } else if key == Key::Enter {
            KeyAction::StartRun
        } else if key == Key::Char('r') {
            self.screen = Screen::RunHistory;
            self.focus = Focus::HistoryRuns;
            KeyAction::ReloadHistory
        } else {
            KeyAction::Nothing
        }
    }

    fn move_history_selection(&mut self, delta: i32)
        ensures
            *final(self) == (Navigation {
                selected_run_index: moved_selection(old(self).selected_run_index, old(self).run_count, delta as int),
                ..*old(self)
            }),
    {
        if self.run_count == 0 {
            self.selected_run_index = 0;
        } else {
            self.selected_run_index = clamp_index(self.selected_run_index, delta, self.run_count);
        }
    }

    fn history_key(&mut self, press: KeyPress) -> (action: KeyAction)
        ensures
            (*final(self), action) == history_step(*old(self), press),
    {
        let key = press.key;
        if key == Key::Down || key == Key::Char('j') {
            self.move_history_selection(1);
            KeyAction::Nothing
        } else if key == Key::Up || key == Key::Char('k') {
            self.move_history_selection(-1);
            KeyAction::Nothing
        } else if key == Key::Enter {
            if self.selected_run_index < self.run_count {
                self.screen = Screen::RunDetail;
                self.focus = Focus::DetailOutput;
                KeyAction::OpenRun(self.selected_run_index)
            } else {
                KeyAction::Nothing
            }
        } else if key == Key::Char('R') {
            KeyAction::ReloadHistory
        } else if key == Key::Char('l') {
            self.screen = Screen::Launcher;
            self.focus = Focus::LauncherTasks;
            KeyAction::Nothing
        } else {
            KeyAction::Nothing
        }
    }

    fn detail_key(&mut self, press: KeyPress) -> (action: KeyAction)
        ensures
            (*final(self), action) == detail_step(*old(self), press),
    {
        let key = press.key;
        if key == Key::Char('t') {
            self.focus = Focus::DetailTasks;
            KeyAction::Nothing
        } else if key == Key::Char('o') {
            self.focus = Focus::DetailOutput;
            KeyAction::Nothing
        } else if key == Key::Char('e') {
            self.focus = Focus::DetailEvents;
            KeyAction::Nothing
        } else if key == Key::Char('s') {
            self.focus = Focus::DetailSummary;
            KeyAction::Nothing
        } else if key == Key::Char('r') {
            self.screen = Screen::RunHistory;
            self.focus = Focus::HistoryRuns;
            KeyAction::Nothing
        } else if key == Key::Char('L') {
            self.auto_follow_log = !self.auto_follow_log;
            KeyAction::Nothing
        } else if key == Key::Char('h') {
            self.focus = cycle_focus(self.screen, self.failure_output_shown, self.focus, true);
            KeyAction::Nothing
        } else if key == Key::Char('l') {
            self.focus = cycle_focus(self.screen, self.failure_output_shown, self.focus, false);
            KeyAction::Nothing
        } else if key == Key::Char('g') && press.modifiers == Modifiers::NoModifier {
            self.detail_pane_to_top()
        } else if key == Key::Char('G') || key == Key::End {
            self.detail_pane_to_bottom()
        } else if key == Key::PageDown {
            self.scroll_detail_pane(10)
        } else if key == Key::PageUp {
            self.scroll_detail_pane(-10)
        } else if key == Key::Down || key == Key::Char('j') {
            self.scroll_detail_pane(1)
        } else if key == Key::Up || key == Key::Char('k') {
            self.scroll_detail_pane(-1)
        } else if key == Key::Enter {
            KeyAction::ReloadSelectedTaskLog
        } else {
            KeyAction::Nothing
        }
    }

    /// Applies a key press to the navigation state and returns what the application does
    /// next.
    pub fn handle_key(&mut self, press: KeyPress) -> (action: KeyAction)
        ensures
            (*final(self), action) == key_step(*old(self), press),
            old(self).wf() ==> final(self).wf(),
    {
        let key = press.key;
        let action = if self.help_visible {
            if key == Key::Char('?') || key == Key::Esc || key == Key::Char('q') {
                self.help_visible = false;
            }
            KeyAction::Nothing
        } else if key == Key::Char('q') {
            KeyAction::Quit
        } else if key == Key::Char('?') {
            self.help_visible = true;
            KeyAction::Nothing
        } else if key == Key::Char('r') && press.modifiers == Modifiers::ControlOnly {
            KeyAction::Restart
        } else if key == Key::Char('1') {
            self.screen = Screen::Launcher;
            self.focus = Focus::LauncherTasks;
            KeyAction::Nothing
        } else if key == Key::Char('2') {
            self.screen = Screen::RunDetail;
            self.focus = Focus::DetailOutput;
            KeyAction::Nothing
        } else if key == Key::Char('3') {
            self.screen = Screen::RunHistory;
            self.focus = Focus::HistoryRuns;
            KeyAction::Nothing
        } else if key == Key::Tab {
            self.focus = cycle_focus(self.screen, self.failure_output_shown, self.focus, false);
            KeyAction::Nothing
        } else if key == Key::BackTab {
            self.focus = cycle_focus(self.screen, self.failure_output_shown, self.focus, true);
            KeyAction::Nothing
        } else {
            match self.screen {
                Screen::Launcher => self.launcher_key(press),
                Screen::RunHistory => self.history_key(press),
                Screen::RunDetail => self.detail_key(press),
            }
        };
        proof {
            if old(self).wf() {
                lemma_key_step_keeps_wf(*old(self), press);
            }
        }
        action
    }
}

/// The position of a pane in a screen's order is one of its positions.
proof fn lemma_focus_position_in_range(order: Seq<Focus>, focus: Focus, from: int)
    requires
        0 <= from,
        order.len() > 0,
    ensures
        0 <= focus_position(order, focus, from) < order.len(),
    decreases order.len() - from,
{
    if from < order.len() && order[from] != focus {
        lemma_focus_position_in_range(order, focus, from + 1);
    }
}

/// Cycling the focus of a screen stays on that screen.
pub proof fn lemma_cycled_focus_on_screen(screen: Screen, shown: bool, focus: Focus, reverse: bool)
    ensures
        focus_on_screen(screen, cycled_focus(screen, shown, focus, reverse)),
{
    let order = focus_order(screen, shown);
    lemma_focus_position_in_range(order, focus, 0);
}

/// Every key press keeps the focused pane on the shown screen and the launcher and
/// history selections within their lists.
pub proof fn lemma_key_step_keeps_wf(nav: Navigation, press: KeyPress)
    requires
        nav.wf(),
    ensures
        key_step(nav, press).0.wf(),
{
    lemma_cycled_focus_on_screen(nav.screen, nav.failure_output_shown, nav.focus, true);
    lemma_cycled_focus_on_screen(nav.screen, nav.failure_output_shown, nav.focus, false);
}

/// In an order without repeated panes, the position of the pane at `w` is `w`.
proof fn lemma_focus_position_of_distinct(order: Seq<Focus>, w: int, from: int)
    requires
        0 <= from <= w < order.len(),
        forall|i: int, j: int| 0 <= i < j < order.len() ==> order[i] != order[j],
    ensures
        focus_position(order, order[w], from) == w,
    decreases w - from,
{
    if from < w {
        lemma_focus_position_of_distinct(order, w, from + 1);
    }
}

/// Tab followed by Shift-Tab, or Shift-Tab followed by Tab, returns to the pane that was
/// focused, on every screen, whenever the focused pane is one that Tab visits.
pub proof fn lemma_tab_then_back_tab_restores_focus(screen: Screen, shown: bool, focus: Focus)
    requires
        focus_order(screen, shown).contains(focus),
    ensures
        cycled_focus(screen, shown, cycled_focus(screen, shown, focus, false), true) == focus,
        cycled_focus(screen, shown, cycled_focus(screen, shown, focus, true), false) == focus,
{
    let order = focus_order(screen, shown);
    let n = order.len() as int;
    assert(forall|i: int, j: int| 0 <= i < j < n ==> order[i] != order[j]);
    let w = choose|w: int| 0 <= w < n && order[w] == focus;
    lemma_focus_position_of_distinct(order, w, 0);
    let next = (w + 1) % n;
    let prev = if w == 0 { n - 1 } else { w - 1 };
    if w + 1 < n {
        vstd::arithmetic::div_mod::lemma_small_mod((w + 1) as nat, n as nat);
    } else {
        vstd::arithmetic::div_mod::lemma_mod_self_0(n);
    }
    if prev + 1 < n {
        vstd::arithmetic::div_mod::lemma_small_mod((prev + 1) as nat, n as nat);
    } else {
        vstd::arithmetic::div_mod::lemma_mod_self_0(n);
    }
    lemma_focus_position_of_distinct(order, next, 0);
    lemma_focus_position_of_distinct(order, prev, 0);
}

/// While help is shown, a key press requests nothing and changes nothing but whether
/// help is shown: `?`, Esc and `q` close it.
pub proof fn lemma_help_is_modal(nav: Navigation, press: KeyPress)
    requires
        nav.help_visible,
    ensures
        key_step(nav, press).1 == KeyAction::Nothing,
        key_step(nav, press).0 == (Navigation { help_visible: key_step(nav, press).0.help_visible, ..nav }),
        !key_step(nav, press).0.help_visible <==> (press.key == Key::Char('?') || press.key == Key::Esc
            || press.key == Key::Char('q')),
{
}

/// Outside help, `q` quits and Control-R restarts from every screen and pane, and no
/// other key does either.
pub proof fn lemma_quit_and_restart_are_global(nav: Navigation, press: KeyPress)
    requires
        !nav.help_visible,
    ensures
        key_step(nav, press).1 == KeyAction::Quit <==> press.key == Key::Char('q'),
        key_step(nav, press).1 == KeyAction::Restart <==> (press.key == Key::Char('r') && press.modifiers
            == Modifiers::ControlOnly),
{
}

} // verus!
