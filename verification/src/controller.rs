//! The interactive state: the page on show, the row selected in the
//! process table, the retained history, and how keys and frames change
//! them.

use crate::data::{Data, Process};
use crate::history::{appended, History};
use crate::layout::{is_grid, solve, Constraint, Direction, Rect};
use crate::pages::processes::{clamp, clamped};
use crate::pages::{Plan, Widget};
use vstd::prelude::*;
use vstd::string::*;

verus! {

/// The views, in the order in which the right arrow visits them.
#[derive(Clone, Copy, Debug, PartialEq, Eq, Structural)]
pub enum Page {
    Stats1,
    Stats2,
    Monitor,
    Processes,
    History,
}

impl Page {
    /// The page that the right arrow leads to.
    pub open spec fn following(self) -> Page {
        match self {
            Page::Stats1 => Page::Stats2,
            Page::Stats2 => Page::Monitor,
            Page::Monitor => Page::Processes,
            Page::Processes => Page::History,
            Page::History => Page::Stats1,
        }
    }

    /// The page that the left arrow leads to.
    pub open spec fn preceding(self) -> Page {
        match self {
            Page::Stats1 => Page::History,
            Page::Stats2 => Page::Stats1,
            Page::Monitor => Page::Stats2,
            Page::Processes => Page::Monitor,
            Page::History => Page::Processes,
        }
    }

    /// The two arrows undo each other, and five steps either way lead
    /// round to the page they started from and to no page twice.
    pub proof fn lemma_pages_form_a_cycle(self)
        ensures
            self.following().preceding() == self,
            self.preceding().following() == self,
            self.following() != self,
            self.following().following() != self,
            self.following().following().following() != self,
            self.following().following().following().following() != self,
            self.following().following().following().following().following() == self,
            self.preceding().preceding().preceding().preceding().preceding() == self,
    {
    }
}

/// What the user pressed.
#[derive(Clone, Copy, Debug, PartialEq, Eq, Structural)]
pub enum Key {
    /// `q`
    Quit,
    Left,
    Right,
    Up,
    Down,
    /// `k`
    Kill,
    Escape,
    /// Any key that means nothing here.
    Other,
}

impl Key {
    /// The key acts on the process table.
    pub open spec fn is_for_table(self) -> bool {
        self == Key::Up || self == Key::Down || self == Key::Kill || self == Key::Escape
    }

    /// What a letter key means: `q` quits, `k` kills, no other letter means
    /// anything.
    pub open spec fn of_char(c: char) -> Key {
        if c == 'q' {
            Key::Quit
        } else if c == 'k' {
            Key::Kill
        } else {
            Key::Other
        }
    }

    /// The key that the character `c` stands for.
    pub fn from_char(c: char) -> (key: Key)
        ensures
            key == Key::of_char(c),
    {
        if c == 'q' {
            Key::Quit
        } else if c == 'k' {
            Key::Kill
        } else {
            Key::Other
        }
    }
}

/// What the terminal reports.
#[derive(Clone, Copy, Debug, PartialEq, Eq, Structural)]
pub enum Input {
    /// A key went down.
    Press(Key),
    /// A key is held down and repeats.
    Repeat(Key),
    /// A key came up.
    Release(Key),
    /// Anything that is no key: the mouse, a resize, a paste.
    Other,
}

impl Input {
    /// The key that the state answers to: a key that went down, and
    /// nothing else.
    pub open spec fn key(self) -> Option<Key> {
        match self {
            Input::Press(key) => Some(key),
            _ => None,
        }
    }
}

/// The time between two samples, and the longest wait for a key, in
/// milliseconds.
pub const INTERVAL: u64 = 1000;

/// The selection that follows `selected` when `key` is pressed on a table
/// of `rows` rows. With no row selected every table key selects the first
/// row, if there is one. With a row selected, the arrows move the
/// selection by one row and stop at either end, and kill and escape clear
/// it.
pub open spec fn selection_after(selected: Option<usize>, rows: int, key: Key) -> Option<usize> {
    match clamped(selected, rows) {
        None => if rows > 0 && key.is_for_table() {
            Some(0)
        } else {
            None
        },
        Some(i) => match key {
            Key::Up => if i > 0 {
                Some((i - 1) as usize)
            } else {
                Some(i)
            },
            Key::Down => if i + 1 < rows {
                Some((i + 1) as usize)
            } else {
                Some(i)
            },
            Key::Kill | Key::Escape => None,
            _ => Some(i),
        },
    }
}

/// The row whose process `key` kills: the selected row, where the key is
/// kill and the table has such a row. A selection beyond the table names
/// no process, so a kill there kills nothing.
pub open spec fn killed_row(selected: Option<usize>, rows: int, key: Key) -> Option<usize> {
    match selected {
        Some(i) => if key == Key::Kill && i < rows {
            Some(i)
        } else {
            None
        },
        None => None,
    }
}

/// The process ids of those of `live` that bear the name `name`, in their
/// order.
pub open spec fn named(live: Seq<Process>, name: Seq<char>) -> Seq<u32>
    decreases live.len(),
{
    if live.len() == 0 {
        Seq::empty()
    } else {
        let earlier = named(live.drop_last(), name);
        if live.last().name@ == name {
            earlier.push(live.last().pid)
        } else {
            earlier
        }
    }
}

/// The processes to kill by `name`: every live process that bears exactly
/// that name, and no other.
pub fn kill_requests(name: &String, live: &Vec<Process>) -> (pids: Vec<u32>)
    ensures
        pids@ == named(live@, name@),
{
    let mut pids: Vec<u32> = Vec::new();
    let mut i: usize = 0;
    while i < live.len()
        invariant
            i <= live@.len(),
            pids@ == named(live@.take(i as int), name@),
        decreases live@.len() - i,
    {
        proof {
            assert(live@.take(i + 1).drop_last() =~= live@.take(i as int));
        }
        if live[i].name == *name {
            pids.push(live[i].pid);
        }
        i += 1;
    }
    proof {
        assert(live@.take(i as int) =~= live@);
    }
    pids
}

/// Killing by name reaches a live process exactly when it bears the name.
pub proof fn lemma_named_is_every_bearer(live: Seq<Process>, name: Seq<char>, pid: u32)
    ensures
        named(live, name).contains(pid) <==> exists|i: int|
            0 <= i < live.len() && (#[trigger] live[i]).name@ == name && live[i].pid == pid,
    decreases live.len(),
{
    if live.len() > 0 {
        let earlier = live.drop_last();
        lemma_named_is_every_bearer(earlier, name, pid);
        let pids = named(earlier, name);
        let last = live.last();
        if named(live, name).contains(pid) {
            if last.name@ == name && last.pid == pid {
                assert(live[live.len() - 1] == last);
            } else {
                if last.name@ == name {
                    let k = choose|k: int| 0 <= k < pids.push(last.pid).len() && pids.push(last.pid)[k] == pid;
                    assert(pids[k] == pid);
                }
                let i = choose|i: int|
                    0 <= i < earlier.len() && (#[trigger] earlier[i]).name@ == name && earlier[i].pid == pid;
                assert(live[i] == earlier[i]);
            }
        }
        if exists|i: int| 0 <= i < live.len() && (#[trigger] live[i]).name@ == name && live[i].pid == pid {
            let i = choose|i: int| 0 <= i < live.len() && (#[trigger] live[i]).name@ == name && live[i].pid == pid;
            if i == live.len() - 1 {
                assert(named(live, name) == pids.push(pid));
                assert(pids.push(pid)[pids.len() as int] == pid);
            } else {
                assert(earlier[i] == live[i]);
                assert(pids.contains(pid));
                let k = choose|k: int| 0 <= k < pids.len() && pids[k] == pid;
                if last.name@ == name {
                    assert(pids.push(last.pid)[k] == pid);
                }
            }
        }
    }
}

/// With no row selected, any table key selects the first row of a table
/// that has one.
pub proof fn lemma_first_key_selects_first_row(rows: int, key: Key)
    requires
        rows > 0,
        key.is_for_table(),
    ensures
        selection_after(None, rows, key) == Some(0usize),
        killed_row(None, rows, key) is None,
{
}

/// The selection never leaves the table, and the arrows neither wrap nor
/// pass the ends: down on the last row stays there, up on the first row
/// stays there.
pub proof fn lemma_selection_stays_in_table(selected: Option<usize>, rows: int, key: Key)
    requires
        0 <= rows <= usize::MAX,
    ensures
        selection_after(selected, rows, key) matches Some(i) ==> i < rows,
        rows > 0 ==> selection_after(Some((rows - 1) as usize), rows, Key::Down) == Some(
            (rows - 1) as usize,
        ),
        rows > 0 ==> selection_after(Some(0usize), rows, Key::Up) == Some(0usize),
{
}

/// The interactive state.
pub struct App {
    pub exit: bool,
    pub page: Page,
    pub history: History,
    /// The selected row of the process table, if any.
    pub selected: Option<usize>,
}

/// The three parts of the screen.
#[derive(Clone, Copy, Debug, PartialEq, Eq)]
pub struct Frame {
    pub title_bar: Rect,
    pub main_area: Rect,
    pub instruction: Rect,
}

/// What one pass of drawing puts on screen.
#[derive(Clone, Debug, PartialEq, Eq)]
pub struct Screen {
    pub frame: Frame,
    /// The text of the instruction line.
    pub instructions: String,
    /// The widgets of the main area.
    pub plan: Plan,
}

/// `frame` cuts `area` into title bar, main area and instruction line: the
/// three follow one another from the top of the area to its bottom and
/// span its width; the title bar and the instruction line are one line
/// high each where the area has two lines or more, and the main area is
/// what lies between. Where the area has fewer lines, the main area has
/// none.
pub open spec fn is_frame(area: Rect, frame: Frame) -> bool {
    &&& frame.title_bar.x == area.x && frame.title_bar.width == area.width
    &&& frame.main_area.x == area.x && frame.main_area.width == area.width
    &&& frame.instruction.x == area.x && frame.instruction.width == area.width
    &&& frame.title_bar.y == area.y
    &&& frame.main_area.y == frame.title_bar.y + frame.title_bar.height
    &&& frame.instruction.y == frame.main_area.y + frame.main_area.height
    &&& frame.instruction.y + frame.instruction.height == area.y + area.height
    &&& frame.title_bar.height <= 1
    &&& frame.instruction.height <= 1
    &&& area.height >= 2 ==> frame.title_bar.height == 1 && frame.instruction.height == 1
    &&& area.height < 2 ==> frame.main_area.height == 0
}

/// The frame that gives an area of one line to the title bar.
pub open spec fn frame_of(area: Rect) -> Frame {
    let title: u16 = if area.height >= 1 {
        1
    } else {
        0
    };
    let instruction: u16 = if area.height >= 2 {
        1
    } else {
        0
    };
    Frame {
        title_bar: Rect { x: area.x, y: area.y, width: area.width, height: title },
        main_area: Rect {
            x: area.x,
            y: (area.y + title) as u16,
            width: area.width,
            height: (area.height - title - instruction) as u16,
        },
        instruction: Rect {
            x: area.x,
            y: (area.y + area.height - instruction) as u16,
            width: area.width,
            height: instruction,
        },
    }
}

/// A frame is fixed by its area but for an area of a single line, which
/// is either the title bar or the instruction line.
pub proof fn lemma_frame_is_fixed(area: Rect, frame: Frame)
    requires
        area.wf(),
        is_frame(area, frame),
    ensures
        is_frame(area, frame_of(area)),
        area.height != 1 ==> frame == frame_of(area),
        area.height == 1 ==> frame.title_bar.height + frame.instruction.height == 1,
        frame.title_bar.wf() && frame.main_area.wf() && frame.instruction.wf(),
{
}

/// Decides whether `frame` cuts `area` as a frame does.
fn frames(area: Rect, frame: &Frame) -> (ok: bool)
    ensures
        ok == is_frame(area, *frame),
{
    let (title, main, instruction) = (frame.title_bar, frame.main_area, frame.instruction);
    title.x == area.x && title.width == area.width && main.x == area.x && main.width == area.width
        && instruction.x == area.x && instruction.width == area.width && title.y == area.y
        && main.y as u32 == title.y as u32 + title.height as u32 && instruction.y as u32
        == main.y as u32 + main.height as u32 && instruction.y as u32 + instruction.height as u32
        == area.y as u32 + area.height as u32 && title.height <= 1 && instruction.height <= 1 && (
    area.height < 2 || (title.height == 1 && instruction.height == 1)) && (area.height >= 2
        || main.height == 0)
}

/// Cuts `area` into title bar, main area and instruction line. The frame
/// is the toolkit's where it cuts the area so, and otherwise the frame
/// that gives an area of one line to the title bar.
pub fn frame(area: Rect) -> (frame: Frame)
    requires
        area.wf(),
    ensures
        is_frame(area, frame),
        frame.title_bar.wf(),
        frame.main_area.wf(),
        frame.instruction.wf(),
{
    let mut asked: Vec<Constraint> = Vec::new();
    asked.push(Constraint::Length(1));
    asked.push(Constraint::Min(0));
    asked.push(Constraint::Length(1));
    let parts = solve(area, Direction::Vertical, asked);
    if parts.len() == 3 {
        let frame = Frame { title_bar: parts[0], main_area: parts[1], instruction: parts[2] };
        if frames(area, &frame) {
            return frame;
        }
    }
    let title: u16 = if area.height >= 1 {
        1
    } else {
        0
    };
    let instruction: u16 = if area.height >= 2 {
        1
    } else {
        0
    };
    Frame {
        title_bar: Rect { x: area.x, y: area.y, width: area.width, height: title },
        main_area: Rect {
            x: area.x,
            y: area.y + title,
            width: area.width,
            height: area.height - title - instruction,
        },
        instruction: Rect {
            x: area.x,
            y: area.y + area.height - instruction,
            width: area.width,
            height: instruction,
        },
    }
}

/// The keys that every page answers to.
pub open spec fn common_keys() -> Seq<char> {
    " \u{2190} <Left> | \u{2192} <Right> | Quit <q>"@
}

/// The keys that the processes page answers to besides.
pub open spec fn table_keys() -> Seq<char> {
    " | \u{2191} <Up> | \u{2193} <Down> | Kill <k> | DeSelect <Esc>"@
}

/// The text of the instruction line on `page`.
pub open spec fn instructions_on(page: Page) -> Seq<char> {
    if page == Page::Processes {
        common_keys() + table_keys()
    } else {
        common_keys()
    }
}

/// What the host is, so far as the pages depend on it.
#[derive(Clone, Copy, Debug, PartialEq, Eq)]
pub struct Host {
    pub is_linux: bool,
    /// The number of graphics processors found.
    pub gpus: usize,
}

/// `plan` lays out `page` in `area` for the snapshot `data` on `host`.
pub open spec fn is_plan_of(page: Page, area: Rect, data: Data, host: Host, plan: Plan) -> bool {
    match page {
        Page::Stats1 => {
            &&& is_grid(
                area,
                crate::pages::stats::Y as int,
                crate::pages::stats::X_1 as int,
                plan.cells@,
            )
            &&& plan.widgets@ == crate::pages::stats::page_1_widgets(host.is_linux)
        },
        Page::Stats2 => {
            &&& is_grid(
                area,
                crate::pages::stats::Y as int,
                crate::pages::stats::X_2 as int,
                plan.cells@,
            )
            &&& plan.widgets@ == crate::pages::arranged(
                (crate::pages::stats::Y * crate::pages::stats::X_2) as int,
                Seq::empty(),
                crate::pages::stats::page_2_categories(
                    data.disks.len(),
                    if host.is_linux {
                        host.gpus
                    } else {
                        0
                    },
                    data.networks.len(),
                ),
            )
        },
        Page::Monitor => {
            &&& is_grid(
                area,
                crate::pages::monitor::Y as int,
                crate::pages::monitor::X as int,
                plan.cells@,
            )
            &&& plan.widgets@ == crate::pages::arranged(
                (crate::pages::monitor::Y * crate::pages::monitor::X) as int,
                crate::pages::monitor::gauges(),
                crate::pages::monitor::core_gauges(data.cpu.cores.len()),
            )
        },
        Page::History => {
            &&& is_grid(
                area,
                crate::pages::history::Y as int,
                crate::pages::history::X as int,
                plan.cells@,
            )
            &&& plan.widgets@ == seq![Widget::CpuChart, Widget::CoresChart, Widget::MemoryChart]
        },
        Page::Processes => {
            &&& is_grid(area, 1, 1, plan.cells@)
            &&& plan.widgets@ == seq![Widget::ProcessTable]
        },
    }
}

impl App {
    /// The state at start: the first page, nothing selected, no history.
    pub fn new() -> (app: Self)
        ensures
            !app.exit,
            app.page == Page::Stats1,
            app.history@ == Seq::<Data>::empty(),
            app.selected is None,
    {
        App { exit: false, page: Page::Stats1, history: History::new(), selected: None }
    }

    /// The rows of the process table: the processes of the newest
    /// snapshot, or none before the first snapshot.
    pub open spec fn rows(&self) -> int {
        if self.history@.len() == 0 {
            0
        } else {
            self.history@.last().processes@.len() as int
        }
    }

    /// The state that follows `self` when `key` is pressed.
    pub open spec fn after_key(self, key: Key) -> App {
        match key {
            Key::Quit => App { exit: true, ..self },
            Key::Left => App { page: self.page.preceding(), ..self },
            Key::Right => App { page: self.page.following(), ..self },
            Key::Up | Key::Down | Key::Kill | Key::Escape => if self.page == Page::Processes {
                App { selected: selection_after(self.selected, self.rows(), key), ..self }
            } else {
                self
            },
            Key::Other => self,
        }
    }

    /// The row whose process is to be killed when `key` is pressed.
    pub open spec fn kills(self, key: Key) -> Option<usize> {
        if self.page == Page::Processes {
            killed_row(self.selected, self.rows(), key)
        } else {
            None
        }
    }

    /// Takes one key. Returns the name to kill by where the key kills: the
    /// name of the process in the selected row of the newest snapshot.
    /// Every process of that name is meant, not that process alone. Where
    /// the selected row lies beyond the table the kill names nothing; the
    /// selection is cleared all the same.
    pub fn handle_key_event(&mut self, key: Key) -> (kill: Option<String>)
        ensures
            *final(self) == old(self).after_key(key),
            kill is Some <==> old(self).kills(key) is Some,
            kill matches Some(name) ==> name@ == old(self).history@.last().processes@[old(
                self,
            ).kills(key).unwrap() as int].name@,
    {
        match key {
            Key::Quit => {
                self.exit();
                None
            },
            Key::Left => {
                self.previous();
                None
            },
            Key::Right => {
                self.next();
                None
            },
            Key::Up | Key::Down | Key::Kill | Key::Escape => {
                if self.page != Page::Processes {
                    return None;
                }
                let newest = self.history.latest();
                let rows = match newest {
                    Some(data) => data.processes.len(),
                    None => 0,
                };
                match clamp(self.selected, rows) {
                    None => {
                        self.selected = if rows > 0 {
                            Some(0)
                        } else {
                            None
                        };
                        None
                    },
                    Some(i) => match key {
                        Key::Up => {
                            self.selected = Some(if i > 0 {
                                i - 1
                            } else {
                                i
                            });
                            None
                        },
                        Key::Down => {
                            self.selected = Some(if i + 1 < rows {
                                i + 1
                            } else {
                                i
                            });
                            None
                        },
                        Key::Kill => {
                            let name = match (newest, self.selected) {
                                (Some(data), Some(row)) => if row < data.processes.len() {
                                    Some(data.processes[row].name.clone())
                                } else {
                                    None
                                },
                                _ => None,
                            };
                            self.selected = None;
                            name
                        },
                        _ => {
                            self.selected = None;
                            None
                        },
                    },
                }
            },
            Key::Other => None,
        }
    }

    /// Takes what the terminal reports: a key that went down is handled
    /// as `handle_key_event` handles it, and nothing else changes anything.
    pub fn handle_event(&mut self, input: Input) -> (kill: Option<String>)
        ensures
            *final(self) == match input.key() {
                Some(key) => old(self).after_key(key),
                None => *old(self),
            },
            kill is Some <==> input.key() is Some && old(self).kills(input.key().unwrap()) is Some,
            kill matches Some(name) ==> name@ == old(self).history@.last().processes@[old(
                self,
            ).kills(input.key().unwrap()).unwrap() as int].name@,
    {
        match input {
            Input::Press(key) => self.handle_key_event(key),
            _ => None,
        }
    }

    /// Asks the loop to end.
    pub fn exit(&mut self)
        ensures
            *final(self) == (App { exit: true, ..*old(self) }),
    {
        self.exit = true;
    }

    /// Goes to the following page. The selection stays as it is.
    pub fn next(&mut self)
        ensures
            *final(self) == (App { page: old(self).page.following(), ..*old(self) }),
    {
        self.page = match self.page {
            Page::Stats1 => Page::Stats2,
            Page::Stats2 => Page::Monitor,
            Page::Monitor => Page::Processes,
            Page::Processes => Page::History,
            Page::History => Page::Stats1,
        };
    }

    /// Goes to the preceding page. The selection stays as it is.
    pub fn previous(&mut self)
        ensures
            *final(self) == (App { page: old(self).page.preceding(), ..*old(self) }),
    {
        self.page = match self.page {
            Page::Stats1 => Page::History,
            Page::Stats2 => Page::Stats1,
            Page::Monitor => Page::Stats2,
            Page::Processes => Page::Monitor,
            Page::History => Page::Processes,
        };
    }

    /// One pass of drawing. A snapshot that has arrived since the last pass
    /// is first retained; without one, the pass draws from the newest
    /// snapshot retained before. Before the first snapshot the main area
    /// stays empty. Drawing the process table brings the selection back
    /// within the table.
    pub fn draw(&mut self, area: Rect, arrival: Option<Data>, host: Host) -> (screen: Screen)
        requires
            area.wf(),
        ensures
            final(self).exit == old(self).exit,
            final(self).page == old(self).page,
            final(self).history@ == match arrival {
                Some(data) => appended(old(self).history@, data),
                None => old(self).history@,
            },
            final(self).selected == if old(self).page == Page::Processes && final(self).history@.len()
                > 0 {
                clamped(old(self).selected, final(self).rows())
            } else {
                old(self).selected
            },
            is_frame(area, screen.frame),
            screen.instructions@ == instructions_on(old(self).page),
            screen.plan.wf(),
            final(self).history@.len() == 0 ==> screen.plan.cells@.len() == 0
                && screen.plan.widgets@.len() == 0,
            final(self).history@.len() > 0 ==> is_plan_of(
                old(self).page,
                screen.frame.main_area,
                final(self).history@.last(),
                host,
                screen.plan,
            ),
    {
        let frame = frame(area);
        let mut instructions = String::from_str(" \u{2190} <Left> | \u{2192} <Right> | Quit <q>");
        if self.page == Page::Processes {
            instructions.append(" | \u{2191} <Up> | \u{2193} <Down> | Kill <k> | DeSelect <Esc>");
        }
        if let Some(data) = arrival {
            self.history.append(data);
        }
        let page = self.page;
        let mut selected = self.selected;
        let plan = match self.history.latest() {
            None => Plan::empty(),
            Some(data) => match page {
                Page::Stats1 => crate::pages::stats::draw_page_1(frame.main_area, host.is_linux),
                Page::Stats2 => crate::pages::stats::draw_page_2(
                    frame.main_area,
                    data,
                    if host.is_linux {
                        host.gpus
                    } else {
                        0
                    },
                ),
                Page::Monitor => crate::pages::monitor::draw(frame.main_area, data),
                Page::History => crate::pages::history::draw(frame.main_area),
                Page::Processes => crate::pages::processes::draw(
                    frame.main_area,
                    &mut selected,
                    data.processes.len(),
                ),
            },
        };
        self.selected = selected;
        Screen { frame, instructions, plan }
    }
}

} // verus!
