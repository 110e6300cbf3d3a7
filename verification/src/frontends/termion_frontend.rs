//! The terminal frontend: three bordered areas (regions, variables, log)
//! and a cursor that folds regions away.

use vstd::hash_map::StringHashMap;
use vstd::prelude::*;
use vstd::string::StrSliceExecFns;
use vstd::string::StringExecFns;
use crate::counters::Frame;
use crate::counters::FrameReport;
use crate::counters::lemma_reported;
use crate::counters::ReportCounter;
use crate::frontends::ProfilerFrontend;
use crate::name_map::NameMap;
use crate::nesting::Node;
use crate::text::decimal;
use crate::text::decimal_string;
use crate::text::digit;
use crate::text::digit_str;

verus! {

/// How the terminal frontend is laid out.
pub struct TermionBuildParams {
    /// Width of the profiler area; half of the screen if not given.
    pub profiler_width: Option<u16>,
    /// Width of the log area; what the profiler area leaves of the screen's
    /// width if not given.
    pub logger_width: Option<u16>,
    /// Height of the whole output; two thirds of the screen if not given.
    pub height: Option<u16>,
    /// Height of the variables area; a third of the output's height if not
    /// given. The profiler area gets the rest of the height.
    pub variables_height: Option<u16>,
    /// The number of log lines shown.
    pub logs_count: usize,
}

/// Where the areas of the screen lie.
#[derive(Clone, Copy, Debug, PartialEq, Eq, Structural)]
pub struct Layout {
    pub profiler_width: u16,
    pub profiler_height: u16,
    pub variables_height: u16,
    pub terminal_height: u16,
    pub logger_width: u16,
}

impl Default for TermionBuildParams {
    fn default() -> (params: TermionBuildParams)
        ensures
            params.profiler_width is None,
            params.logger_width is None,
            params.height is None,
            params.variables_height is None,
            params.logs_count == 40,
    {
        TermionBuildParams {
            profiler_width: None,
            logger_width: None,
            height: None,
            variables_height: None,
            logs_count: 40,
        }
    }
}

impl TermionBuildParams {
    /// The layout on a screen of `terminal_size` (columns, rows), or `None`
    /// where the areas do not fit: the variables area is higher than the
    /// whole output, or no log width is given and the profiler area is wider
    /// than the screen.
    pub open spec fn areas(self, terminal_size: (u16, u16)) -> Option<Layout> {
        let profiler_width = match self.profiler_width {
            Some(width) => width,
            None => (terminal_size.0 / 2) as u16,
        };
        let height = match self.height {
            Some(height) => height,
            None => (terminal_size.1 * 2 / 3) as u16,
        };
        let variables_height = match self.variables_height {
            Some(height) => height,
            None => (height / 3) as u16,
        };
        if variables_height > height {
            None
        } else if self.logger_width is None && profiler_width > terminal_size.0 {
            None
        } else {
            Some(
                Layout {
                    profiler_width,
                    profiler_height: (height - variables_height) as u16,
                    variables_height,
                    terminal_height: height,
                    logger_width: match self.logger_width {
                        Some(width) => width,
                        None => (terminal_size.0 - profiler_width) as u16,
                    },
                },
            )
        }
    }

    /// Lays the areas out on a screen of `terminal_size` (columns, rows).
    pub fn layout(&self, terminal_size: (u16, u16)) -> (layout: Option<Layout>)
        ensures
            layout == self.areas(terminal_size),
    {
        let profiler_width = match self.profiler_width {
            Some(width) => width,
            None => terminal_size.0 / 2,
        };
        let height = match self.height {
            Some(height) => height,
            None => {
                let rows: u32 = terminal_size.1 as u32;
                (rows * 2 / 3) as u16
            },
        };
        let variables_height = match self.variables_height {
            Some(height) => height,
            None => height / 3,
        };
        if variables_height > height {
            return None;
        }
        let logger_width = match self.logger_width {
            Some(width) => width,
            None => {
                if profiler_width > terminal_size.0 {
                    return None;
                }
                terminal_size.0 - profiler_width
            },
        };
        Some(
            Layout {
                profiler_width,
                profiler_height: height - variables_height,
                variables_height,
                terminal_height: height,
                logger_width,
            },
        )
    }
}

/// `n` spaces.
pub open spec fn spaces(n: nat) -> Seq<char> {
    Seq::new(n, |i: int| ' ')
}

/// `text` cut or padded with spaces to exactly `count` characters.
pub open spec fn fitted(text: Seq<char>, count: nat) -> Seq<char> {
    if text.len() >= count {
        text.take(count as int)
    } else {
        text + spaces((count - text.len()) as nat)
    }
}

/// The text of a line of an area: an indent of one space less than `shift`
/// (none for a shift of 0 or 1), a `+` for a folded line and a space for
/// any other, and the text itself.
pub open spec fn marked(shift: u16, collapsed: bool, text: Seq<char>) -> Seq<char> {
    spaces(
        if shift >= 1 {
            (shift - 1) as nat
        } else {
            0
        },
    ) + seq![
        if collapsed {
            '+'
        } else {
            ' '
        },
    ] + text
}

/// A string of `n` spaces.
pub fn blank(n: usize) -> (text: String)
    ensures
        text@ == spaces(n as nat),
{
    let mut text = String::new();
    let mut i: usize = 0;
    proof {
        reveal_strlit(" ");
    }
    while i < n
        invariant
            i <= n,
            text@ == spaces(i as nat),
            " "@ == seq![' '],
        decreases n - i,
    {
        text.append(" ");
        i += 1;
        assert(text@ =~= spaces(i as nat));
    }
    text
}

/// Cuts `string` to `count` characters, or pads it with spaces to `count`
/// characters.
pub fn append_spaces(string: &str, count: usize) -> (text: String)
    ensures
        text@ == fitted(string@, count as nat),
        text@.len() == count,
{
    let len = string.unicode_len();
    if len >= count {
        string.substring_char(0, count).to_owned()
    } else {
        let mut text = string.to_owned();
        text.append(blank(count - len).as_str());
        text
    }
}

/// The model of a `TerminalHelper`: the area that is being drawn, the line
/// that comes next in it, the cursor, and the ids of the folded lines.
pub struct Screen {
    pub x: u16,
    pub y: u16,
    pub width: u16,
    pub height: u16,
    pub terminal_width: u16,
    pub terminal_height: u16,
    pub current_line: u16,
    pub cursor: u16,
    pub active_window: u16,
    pub current_window: u16,
    pub space_pressed: bool,
    pub collapsed: Set<Seq<char>>,
}

/// How to begin an area: go `up` lines, print `down` empty lines, go `left`
/// columns and `right` again, and draw the top border with `width` bars
/// between its corners.
#[derive(Clone, Copy, Debug, PartialEq, Eq, Structural)]
pub struct AreaStart {
    pub up: u16,
    pub down: u16,
    pub left: u16,
    pub right: u16,
    pub width: usize,
}

/// How to draw one line of an area: go `left` columns and `right` again,
/// and print `text` between the side borders, on the cursor's colour where
/// `highlighted`.
#[derive(Debug)]
pub struct Line {
    pub left: u16,
    pub right: u16,
    pub text: String,
    pub highlighted: bool,
}

/// The model of a `Line`.
pub struct LineModel {
    pub left: u16,
    pub right: u16,
    pub text: Seq<char>,
    pub highlighted: bool,
}

/// How to end an area: `blank_lines` lines of `width` spaces between the
/// side borders, then the bottom border with `width` bars, each after going
/// `left` columns and `right` again.
#[derive(Clone, Copy, Debug, PartialEq, Eq, Structural)]
pub struct AreaEnd {
    pub left: u16,
    pub right: u16,
    pub blank_lines: u16,
    pub width: usize,
}

/// What became of a line that was put into an area.
#[derive(Debug)]
pub struct Put {
    /// The line to draw, or `None` if the area is full.
    pub line: Option<Line>,
    /// True if what lies under the line is to be shown: the line was drawn
    /// and is not folded.
    pub open: bool,
}

impl View for Line {
    type V = LineModel;

    open spec fn view(&self) -> LineModel {
        LineModel {
            left: self.left,
            right: self.right,
            text: self.text@,
            highlighted: self.highlighted,
        }
    }
}

impl Screen {
    /// The area has the room that its borders need, and lies on the screen.
    pub open spec fn wf(self) -> bool {
        &&& self.width >= 3
        &&& self.height >= 2
        &&& self.terminal_height >= 1
        &&& self.current_line <= self.height
        &&& self.y + self.height <= u16::MAX
    }

    /// No line fits into the area any more.
    pub open spec fn full(self) -> bool {
        self.current_line >= self.height - 2
    }

    /// The space key was pressed in this frame while the cursor was on `line`
    /// of the area that is being drawn.
    pub open spec fn pressed(self, line: u16) -> bool {
        self.space_pressed && self.current_window == self.active_window && line == self.cursor
    }

    /// The line that `put_string` draws next for `text` under the id `key`.
    pub open spec fn line(self, shift: u16, text: Seq<char>, key: Seq<char>) -> LineModel {
        LineModel {
            left: self.terminal_width,
            right: self.x,
            text: fitted(
                marked(shift, self.collapsed.contains(key), text),
                (self.width - 3) as nat,
            ),
            highlighted: self.current_window == self.active_window && self.current_line
                == self.cursor,
        }
    }

    /// The screen after `put_string` has drawn a line under the id `key`:
    /// the next line is one further, and the id is folded or unfolded if the
    /// space key was pressed on the line.
    pub open spec fn put(self, key: Seq<char>) -> Screen {
        Screen {
            current_line: (self.current_line + 1) as u16,
            collapsed: if self.pressed(self.current_line) {
                if self.collapsed.contains(key) {
                    self.collapsed.remove(key)
                } else {
                    self.collapsed.insert(key)
                }
            } else {
                self.collapsed
            },
            ..self
        }
    }
}

/// The state of the terminal frontend's drawing: which area is being drawn
/// and how far, where the cursor is, and which lines are folded.
pub struct TerminalHelper {
    x: u16,
    y: u16,
    width: u16,
    height: u16,
    terminal_width: u16,
    terminal_height: u16,
    current_line: u16,
    cursor: u16,
    active_window: u16,
    current_window: u16,
    space_pressed: bool,
    collapsed_lines: StringHashMap<()>,
}

impl View for TerminalHelper {
    type V = Screen;

    closed spec fn view(&self) -> Screen {
        Screen {
            x: self.x,
            y: self.y,
            width: self.width,
            height: self.height,
            terminal_width: self.terminal_width,
            terminal_height: self.terminal_height,
            current_line: self.current_line,
            cursor: self.cursor,
            active_window: self.active_window,
            current_window: self.current_window,
            space_pressed: self.space_pressed,
            collapsed: self.collapsed_lines@.dom(),
        }
    }
}

impl TerminalHelper {
    /// A helper for a terminal of `width` columns and `height` rows, with
    /// the whole terminal as its area and nothing folded.
    pub fn new(width: u16, height: u16) -> (helper: TerminalHelper)
        requires
            width >= 3,
            height >= 2,
        ensures
            helper@ == (Screen {
                x: 0,
                y: 0,
                width,
                height,
                terminal_width: width,
                terminal_height: height,
                current_line: 0,
                cursor: 0,
                active_window: 0,
                current_window: 0,
                space_pressed: false,
                collapsed: Set::empty(),
            }),
            helper@.wf(),
    {
        let helper = TerminalHelper {
            current_line: 0,
            x: 0,
            y: 0,
            width,
            height,
            terminal_width: width,
            terminal_height: height,
            cursor: 0,
            active_window: 0,
            current_window: 0,
            space_pressed: false,
            collapsed_lines: StringHashMap::new(),
        };
        assert(helper@.collapsed =~= Set::empty());
        helper
    }

    /// Moves the cursor one line up, unless it is on the first line.
    pub fn cursor_up(&mut self)
        ensures
            final(self)@ == (Screen {
                cursor: if old(self)@.cursor > 0 {
                    (old(self)@.cursor - 1) as u16
                } else {
                    old(self)@.cursor
                },
                ..old(self)@
            }),
    {
        if self.cursor > 0 {
            self.cursor -= 1;
        }
    }

    /// Moves the cursor one line down, unless it is on the terminal's last
    /// line.
    pub fn cursor_down(&mut self)
        requires
            old(self)@.wf(),
        ensures
            final(self)@ == (Screen {
                cursor: if old(self)@.cursor < old(self)@.terminal_height - 1 {
                    (old(self)@.cursor + 1) as u16
                } else {
                    old(self)@.cursor
                },
                ..old(self)@
            }),
    {
        if self.cursor < self.terminal_height - 1 {
            self.cursor += 1;
        }
    }

    /// Begins the area at column `x` and row `y` that is `width` columns
    /// wide and `height` rows high, borders included. Its first line is the
    /// top border.
    pub fn text_area(&mut self, x: u16, y: u16, width: u16, height: u16) -> (start: AreaStart)
        requires
            old(self)@.wf(),
            width >= 3,
            height >= 2,
            y + height <= u16::MAX,
        ensures
            start == (AreaStart {
                up: (old(self)@.current_line + old(self)@.y) as u16,
                down: y,
                left: old(self)@.terminal_width,
                right: x,
                width: (width - 3) as usize,
            }),
            final(self)@ == (Screen { x, y, width, height, current_line: 1, ..old(self)@ }),
            final(self)@.wf(),
    {
        let up = self.current_line + self.y;
        self.x = x;
        self.y = y;
        self.width = width;
        self.height = height;
        self.current_line = 1;
        AreaStart {
            up,
            down: y,
            left: self.terminal_width,
            right: self.x,
            width: self.width as usize - 3,
        }
    }

    /// Puts `string` on the next line of the area, `shift` columns in. The
    /// line is known by `id`, or by its own text where none is given: a
    /// folded line is marked with `+`, and pressing space on a line folds or
    /// unfolds it. In a full area nothing is drawn and nothing changes.
    pub fn put_string(&mut self, shift: u16, string: &str, id: Option<String>) -> (put: Put)
        requires
            old(self)@.wf(),
        ensures
            final(self)@.wf(),
            ({
                let before = old(self)@;
                let key = match id {
                    Some(id) => id@,
                    None => string@,
                };
                if before.full() {
                    &&& put.line is None
                    &&& !put.open
                    &&& final(self)@ == before
                } else {
                    &&& put.line is Some
                    &&& put.line->0@ == before.line(shift, string@, key)
                    &&& put.open == !before.collapsed.contains(key)
                    &&& final(self)@ == before.put(key)
                }
            }),
    {
        if self.current_line >= self.height - 2 {
            return Put { line: None, open: false };
        }
        let id = match id {
            Some(id) => id,
            None => string.to_owned(),
        };
        let collapsed = self.collapsed_lines.contains_key(id.as_str());
        let indent = if shift >= 1 {
            shift - 1
        } else {
            shift
        };
        proof {
            reveal_strlit("+");
            reveal_strlit(" ");
        }
        let mut text = blank(indent as usize);
        text.append(
            if collapsed {
                "+"
            } else {
                " "
            },
        );
        text.append(string);
        assert(text@ =~= marked(shift, collapsed, string@));
        let text = append_spaces(text.as_str(), self.width as usize - 3);
        let highlighted = self.current_window == self.active_window && self.current_line
            == self.cursor;
        let line = Line { left: self.terminal_width, right: self.x, text, highlighted };
        if self.line_pressed(self.current_line) {
            if collapsed {
                self.collapsed_lines.remove(id.as_str());
            } else {
                self.collapsed_lines.insert(id, ());
            }
        }
        self.current_line += 1;
        assert(self@.collapsed =~= old(self)@.put(id@).collapsed);
        Put { line: Some(line), open: !collapsed }
    }

    /// A new frame begins: the first area is drawn next, and the space key
    /// is up.
    pub fn next_frame(&mut self)
        ensures
            final(self)@ == (Screen { current_window: 0, space_pressed: false, ..old(self)@ }),
    {
        self.current_window = 0;
        self.space_pressed = false;
    }

    /// Ends the area without counting it: empty lines down to the bottom
    /// border, then the border.
    pub fn fill_to_end(&mut self) -> (end: AreaEnd)
        requires
            old(self)@.wf(),
        ensures
            end == (AreaEnd {
                left: old(self)@.terminal_width,
                right: old(self)@.x,
                blank_lines: if old(self)@.current_line < old(self)@.height - 1 {
                    (old(self)@.height - 1 - old(self)@.current_line) as u16
                } else {
                    0
                },
                width: (old(self)@.width - 3) as usize,
            }),
            final(self)@ == (Screen { current_line: old(self)@.height, ..old(self)@ }),
            final(self)@.wf(),
    {
        let blank_lines = if self.current_line < self.height - 1 {
            self.height - 1 - self.current_line
        } else {
            0
        };
        self.current_line = self.height;
        AreaEnd {
            left: self.terminal_width,
            right: self.x,
            blank_lines,
            width: self.width as usize - 3,
        }
    }

    /// Ends the area: empty lines down to the bottom border, then the
    /// border. The next area is the next window.
    pub fn end_text_area(&mut self) -> (end: AreaEnd)
        requires
            old(self)@.wf(),
            old(self)@.current_window < u16::MAX,
        ensures
            end == (AreaEnd {
                left: old(self)@.terminal_width,
                right: old(self)@.x,
                blank_lines: if old(self)@.current_line < old(self)@.height - 1 {
                    (old(self)@.height - 1 - old(self)@.current_line) as u16
                } else {
                    0
                },
                width: (old(self)@.width - 3) as usize,
            }),
            final(self)@ == (Screen {
                current_window: (old(self)@.current_window + 1) as u16,
                current_line: old(self)@.height,
                ..old(self)@
            }),
            final(self)@.wf(),
    {
        self.current_window += 1;
        self.fill_to_end()
    }

    /// The space key was pressed in this frame.
    pub fn set_space_key(&mut self)
        ensures
            final(self)@ == (Screen { space_pressed: true, ..old(self)@ }),
    {
        self.space_pressed = true;
    }

    /// True if the space key was pressed in this frame while the cursor was
    /// on `line` of the area that is being drawn.
    pub fn line_pressed(&self, line: u16) -> (pressed: bool)
        ensures
            pressed == self@.pressed(line),
    {
        self.space_pressed && self.current_window == self.active_window && line == self.cursor
    }
}

/// A screen and the lines that were drawn on the way to it.
pub struct Drawn {
    pub screen: Screen,
    pub lines: Seq<LineModel>,
}

/// The models of a sequence of lines.
pub open spec fn models(lines: Seq<Line>) -> Seq<LineModel> {
    lines.map_values(|line: Line| line@)
}

/// Nanoseconds as milliseconds with three decimals, cut and not rounded.
pub open spec fn millis(nanos: u64) -> Seq<char> {
    let thousandths = (nanos / 1000) % 1000;
    decimal((nanos / 1000000) as nat) + seq![
        '.',
        digit((thousandths / 100) as nat),
        digit((thousandths / 10 % 10) as nat),
        digit((thousandths % 10) as nat),
    ]
}

/// The text of a region's line: its name and its time in milliseconds, a
/// region without a duration counting as 0.
pub open spec fn counter_label(name: Seq<char>, duration: Option<u64>) -> Seq<char> {
    name + seq![':', ' '] + millis(
        match duration {
            Some(nanos) => nanos,
            None => 0,
        },
    ) + seq!['m', 's']
}

/// What drawing a region and the regions inside it does: the region's line
/// is put under the region's id; where it is drawn and not folded, its
/// children follow, four columns further in.
pub open spec fn draw_node(screen: Screen, node: Node<Option<u64>>, shift: u16) -> Drawn
    decreases node, 1nat,
{
    if screen.full() {
        Drawn { screen, lines: Seq::empty() }
    } else {
        let line = screen.line(shift, counter_label(node.name, node.timing), node.id);
        let next = screen.put(node.id);
        if screen.collapsed.contains(node.id) {
            Drawn { screen: next, lines: seq![line] }
        } else {
            let below = draw_forest(
                next,
                node.children,
                if shift + 4 <= u16::MAX {
                    (shift + 4) as u16
                } else {
                    u16::MAX
                },
            );
            Drawn { screen: below.screen, lines: seq![line] + below.lines }
        }
    }
}

/// What drawing a sequence of regions does, one after the other.
pub open spec fn draw_forest(screen: Screen, forest: Seq<Node<Option<u64>>>, shift: u16) -> Drawn
    decreases forest, 0nat,
{
    if forest.len() == 0 {
        Drawn { screen, lines: Seq::empty() }
    } else {
        let before = draw_forest(screen, forest.drop_last(), shift);
        let last = draw_node(before.screen, forest.last(), shift);
        Drawn { screen: last.screen, lines: before.lines + last.lines }
    }
}

/// What drawing a frame report does: the thread's name is put as a line
/// that is known by its own text; where it is drawn and not folded, the
/// report's regions follow, four columns in.
pub open spec fn draw_frame(screen: Screen, frame: Frame) -> Drawn {
    if screen.full() {
        Drawn { screen, lines: Seq::empty() }
    } else {
        let line = screen.line(0, frame.thread_name, frame.thread_name);
        let next = screen.put(frame.thread_name);
        if screen.collapsed.contains(frame.thread_name) {
            Drawn { screen: next, lines: seq![line] }
        } else {
            let below = draw_forest(next, frame.roots, 4);
            Drawn { screen: below.screen, lines: seq![line] + below.lines }
        }
    }
}

/// Nanoseconds as milliseconds with three decimals.
pub fn format_millis(nanos: u64) -> (text: String)
    ensures
        text@ == millis(nanos),
{
    let thousandths = (nanos / 1000) % 1000;
    proof {
        reveal_strlit(".");
    }
    let mut text = decimal_string(nanos / 1000000);
    text.append(".");
    text.append(digit_str(thousandths / 100));
    text.append(digit_str(thousandths / 10 % 10));
    text.append(digit_str(thousandths % 10));
    assert(text@ =~= millis(nanos));
    text
}

/// The text of a region's line.
pub fn format_counter(counter: &ReportCounter) -> (text: String)
    ensures
        text@ == counter_label(counter@.name, counter@.timing),
{
    let nanos = match counter.duration {
        Some(nanos) => nanos,
        None => 0,
    };
    proof {
        reveal_strlit(": ");
        reveal_strlit("ms");
    }
    let mut text = counter.name.clone();
    text.append(": ");
    text.append(format_millis(nanos).as_str());
    text.append("ms");
    assert(text@ =~= counter_label(counter@.name, counter@.timing));
    text
}

/// Puts the line of `counter` and, where it is drawn and not folded, the
/// lines of the regions inside it, and adds the lines to draw to `lines`.
pub fn draw_counter_recursive(
    terminal: &mut TerminalHelper,
    counter: &ReportCounter,
    shift: u16,
    lines: &mut Vec<Line>,
)
    requires
        old(terminal)@.wf(),
    ensures
        final(terminal)@.wf(),
        old(terminal)@.same_area(final(terminal)@),
        final(terminal)@ == draw_node(old(terminal)@, counter@, shift).screen,
        models(final(lines)@) == models(old(lines)@) + draw_node(
            old(terminal)@,
            counter@,
            shift,
        ).lines,
    decreases counter,
{
    let text = format_counter(counter);
    let put = terminal.put_string(shift, text.as_str(), Some(counter.id.to_owned()));
    match put.line {
        Some(line) => {
            lines.push(line);
            assert(models(lines@) =~= models(old(lines)@) + seq![line@]);
        },
        None => {
            assert(models(lines@) =~= models(old(lines)@) + Seq::<LineModel>::empty());
        },
    }
    if put.open {
        let inner = shift.saturating_add(4);
        let ghost start = terminal@;
        let ghost base = models(lines@);
        let mut i: usize = 0;
        proof {
            lemma_reported(counter.counters@);
        }
        while i < counter.counters.len()
            invariant
                i <= counter.counters.len(),
                terminal@.wf(),
                old(terminal)@.same_area(terminal@),
                counter@.children.len() == counter.counters@.len(),
                forall|j: int|
                    0 <= j < counter.counters@.len() ==> (#[trigger] counter@.children[j])
                        == counter.counters@[j]@,
                terminal@ == draw_forest(start, counter@.children.take(i as int), inner).screen,
                models(lines@) == base + draw_forest(
                    start,
                    counter@.children.take(i as int),
                    inner,
                ).lines,
            decreases counter.counters.len() - i,
        {
            let ghost here = terminal@;
            draw_counter_recursive(terminal, &counter.counters[i], inner, lines);
            proof {
                let taken = counter@.children.take(i + 1);
                assert(taken.drop_last() =~= counter@.children.take(i as int));
                assert(taken.last() == counter.counters@[i as int]@);
                let step = draw_node(here, counter.counters@[i as int]@, inner);
                let so_far = draw_forest(start, counter@.children.take(i as int), inner);
                assert(base + so_far.lines + step.lines =~= base + (so_far.lines + step.lines));
            }
            i += 1;
        }
        proof {
            assert(counter@.children.take(i as int) =~= counter@.children);
            let below = draw_forest(start, counter@.children, inner);
            let line = old(terminal)@.line(
                shift,
                counter_label(counter@.name, counter@.timing),
                counter@.id,
            );
            assert(models(old(lines)@) + seq![line] + below.lines =~= models(old(lines)@) + (seq![
                line,
            ] + below.lines));
        }
    }
}

/// Puts the line of the thread of `frame` and, where it is drawn and not
/// folded, the lines of the thread's regions, and adds the lines to draw to
/// `lines`.
pub fn draw_frame_report(terminal: &mut TerminalHelper, frame: &FrameReport, lines: &mut Vec<Line>)
    requires
        old(terminal)@.wf(),
    ensures
        final(terminal)@.wf(),
        old(terminal)@.same_area(final(terminal)@),
        final(terminal)@ == draw_frame(old(terminal)@, frame@).screen,
        models(final(lines)@) == models(old(lines)@) + draw_frame(old(terminal)@, frame@).lines,
{
    let put = terminal.put_string(0, frame.thread_name.as_str(), None);
    match put.line {
        Some(line) => {
            lines.push(line);
            assert(models(lines@) =~= models(old(lines)@) + seq![line@]);
        },
        None => {
            assert(models(lines@) =~= models(old(lines)@) + Seq::<LineModel>::empty());
        },
    }
    if put.open {
        let ghost start = terminal@;
        let ghost base = models(lines@);
        let mut i: usize = 0;
        proof {
            lemma_reported(frame.counters@);
        }
        while i < frame.counters.len()
            invariant
                i <= frame.counters.len(),
                terminal@.wf(),
                old(terminal)@.same_area(terminal@),
                frame@.roots.len() == frame.counters@.len(),
                forall|j: int|
                    0 <= j < frame.counters@.len() ==> (#[trigger] frame@.roots[j])
                        == frame.counters@[j]@,
                terminal@ == draw_forest(start, frame@.roots.take(i as int), 4).screen,
                models(lines@) == base + draw_forest(start, frame@.roots.take(i as int), 4).lines,
            decreases frame.counters.len() - i,
        {
            let ghost here = terminal@;
            draw_counter_recursive(terminal, &frame.counters[i], 4, lines);
            proof {
                let taken = frame@.roots.take(i + 1);
                assert(taken.drop_last() =~= frame@.roots.take(i as int));
                assert(taken.last() == frame.counters@[i as int]@);
                let step = draw_node(here, frame.counters@[i as int]@, 4);
                let so_far = draw_forest(start, frame@.roots.take(i as int), 4);
                assert(base + so_far.lines + step.lines =~= base + (so_far.lines + step.lines));
            }
            i += 1;
        }
        proof {
            assert(frame@.roots.take(i as int) =~= frame@.roots);
            let below = draw_forest(start, frame@.roots, 4);
            let line = old(terminal)@.line(0, frame@.thread_name, frame@.thread_name);
            assert(models(old(lines)@) + seq![line] + below.lines =~= models(old(lines)@) + (seq![
                line,
            ] + below.lines));
        }
    }
}

/// What drawing a sequence of plain rows does: each row is put at the
/// area's left edge and is known by its own text.
pub open spec fn draw_rows(screen: Screen, rows: Seq<Seq<char>>) -> Drawn
    decreases rows.len(),
{
    if rows.len() == 0 {
        Drawn { screen, lines: Seq::empty() }
    } else {
        let before = draw_rows(screen, rows.drop_last());
        let row = rows.last();
        if before.screen.full() {
            before
        } else {
            Drawn {
                screen: before.screen.put(row),
                lines: before.lines.push(before.screen.line(0, row, row)),
            }
        }
    }
}

/// What drawing a sequence of frame reports does, one after the other.
pub open spec fn draw_frames(screen: Screen, frames: Seq<Frame>) -> Drawn
    decreases frames.len(),
{
    if frames.len() == 0 {
        Drawn { screen, lines: Seq::empty() }
    } else {
        let before = draw_frames(screen, frames.drop_last());
        let last = draw_frame(before.screen, frames.last());
        Drawn { screen: last.screen, lines: before.lines + last.lines }
    }
}

/// The views of the reports of a map of threads, in the map's order.
pub open spec fn frames_of(entries: Seq<(String, FrameReport)>) -> Seq<Frame> {
    entries.map_values(|entry: (String, FrameReport)| entry.1@)
}

/// The views of a sequence of strings.
pub open spec fn texts(rows: Seq<String>) -> Seq<Seq<char>> {
    rows.map_values(|row: String| row@)
}

impl Screen {
    /// `other` is this screen but for the next line and the folded lines.
    pub open spec fn same_area(self, other: Screen) -> bool {
        other == (Screen { current_line: other.current_line, collapsed: other.collapsed, ..self })
    }

    /// The screen after an area was begun.
    pub open spec fn begun(self, x: u16, y: u16, width: u16, height: u16) -> Screen {
        Screen { x, y, width, height, current_line: 1, ..self }
    }

    /// How to begin an area from this screen.
    pub open spec fn start(self, x: u16, y: u16, width: u16) -> AreaStart {
        AreaStart {
            up: (self.current_line + self.y) as u16,
            down: y,
            left: self.terminal_width,
            right: x,
            width: (width - 3) as usize,
        }
    }

    /// The screen after its area was ended.
    pub open spec fn ended(self) -> Screen {
        Screen {
            current_window: (self.current_window + 1) as u16,
            current_line: self.height,
            ..self
        }
    }

    /// How to end the area of this screen.
    pub open spec fn end(self) -> AreaEnd {
        AreaEnd {
            left: self.terminal_width,
            right: self.x,
            blank_lines: if self.current_line < self.height - 1 {
                (self.height - 1 - self.current_line) as u16
            } else {
                0
            },
            width: (self.width - 3) as usize,
        }
    }
}

/// The model of an `Area`.
pub struct AreaModel {
    pub start: AreaStart,
    pub lines: Seq<LineModel>,
    pub end: AreaEnd,
}

/// An area and the screen that its drawing leaves.
pub struct Framed {
    pub area: AreaModel,
    pub screen: Screen,
}

/// What drawing an area of plain rows under a title does: the area is
/// begun, the title and the rows are put as far as they fit, and the area
/// is ended.
pub open spec fn rows_area(
    screen: Screen,
    x: u16,
    y: u16,
    width: u16,
    height: u16,
    title: Seq<char>,
    rows: Seq<Seq<char>>,
) -> Framed {
    let body = draw_rows(draw_rows(screen.begun(x, y, width, height), seq![title]).screen, rows);
    Framed {
        area: AreaModel {
            start: screen.start(x, y, width),
            lines: draw_rows(screen.begun(x, y, width, height), seq![title]).lines + body.lines,
            end: body.screen.end(),
        },
        screen: body.screen.ended(),
    }
}

/// What drawing an area of frame reports under a title does.
pub open spec fn frames_area(
    screen: Screen,
    x: u16,
    y: u16,
    width: u16,
    height: u16,
    title: Seq<char>,
    frames: Seq<Frame>,
) -> Framed {
    let body = draw_frames(
        draw_rows(screen.begun(x, y, width, height), seq![title]).screen,
        frames,
    );
    Framed {
        area: AreaModel {
            start: screen.start(x, y, width),
            lines: draw_rows(screen.begun(x, y, width, height), seq![title]).lines + body.lines,
            end: body.screen.end(),
        },
        screen: body.screen.ended(),
    }
}

/// One area as it is to be drawn: its top border, its lines, and its empty
/// lines and bottom border.
#[derive(Debug)]
pub struct Area {
    pub start: AreaStart,
    pub lines: Vec<Line>,
    pub end: AreaEnd,
}

/// The three areas of one frame of the terminal frontend.
#[derive(Debug)]
pub struct Picture {
    pub profiler: Area,
    pub variables: Area,
    pub logs: Area,
}

impl View for Area {
    type V = AreaModel;

    open spec fn view(&self) -> AreaModel {
        AreaModel { start: self.start, lines: models(self.lines@), end: self.end }
    }
}

/// Puts `rows` one after the other and adds the lines to draw to `lines`.
pub fn put_rows(terminal: &mut TerminalHelper, rows: &Vec<String>, lines: &mut Vec<Line>)
    requires
        old(terminal)@.wf(),
    ensures
        final(terminal)@.wf(),
        old(terminal)@.same_area(final(terminal)@),
        final(terminal)@ == draw_rows(old(terminal)@, texts(rows@)).screen,
        models(final(lines)@) == models(old(lines)@) + draw_rows(
            old(terminal)@,
            texts(rows@),
        ).lines,
{
    let ghost start = terminal@;
    let ghost base = models(lines@);
    let mut i: usize = 0;
    assert(base + draw_rows(start, texts(rows@).take(0)).lines =~= base);
    while i < rows.len()
        invariant
            i <= rows.len(),
            terminal@.wf(),
            start.same_area(terminal@),
            terminal@ == draw_rows(start, texts(rows@).take(i as int)).screen,
            models(lines@) == base + draw_rows(start, texts(rows@).take(i as int)).lines,
        decreases rows.len() - i,
    {
        let ghost before = models(lines@);
        let put = terminal.put_string(0, rows[i].as_str(), None);
        proof {
            let taken = texts(rows@).take(i + 1);
            assert(taken.drop_last() =~= texts(rows@).take(i as int));
            assert(taken.last() == rows@[i as int]@);
        }
        match put.line {
            Some(line) => {
                lines.push(line);
                assert(models(lines@) =~= before.push(line@));
                assert(models(lines@) =~= base + draw_rows(
                    start,
                    texts(rows@).take(i + 1),
                ).lines);
            },
            None => {},
        }
        i += 1;
    }
    assert(texts(rows@).take(i as int) =~= texts(rows@));
}

/// Puts the reports of `threads` one after the other and adds the lines to
/// draw to `lines`.
pub fn put_frames(
    terminal: &mut TerminalHelper,
    threads: &NameMap<FrameReport>,
    lines: &mut Vec<Line>,
)
    requires
        old(terminal)@.wf(),
    ensures
        final(terminal)@.wf(),
        old(terminal)@.same_area(final(terminal)@),
        final(terminal)@ == draw_frames(old(terminal)@, frames_of(threads.entries())).screen,
        models(final(lines)@) == models(old(lines)@) + draw_frames(
            old(terminal)@,
            frames_of(threads.entries()),
        ).lines,
{
    let ghost start = terminal@;
    let ghost base = models(lines@);
    let ghost frames = frames_of(threads.entries());
    let count = threads.len();
    let mut i: usize = 0;
    assert(base + draw_frames(start, frames.take(0)).lines =~= base);
    while i < count
        invariant
            i <= count,
            count == threads.entries().len(),
            frames == frames_of(threads.entries()),
            terminal@.wf(),
            start.same_area(terminal@),
            terminal@ == draw_frames(start, frames.take(i as int)).screen,
            models(lines@) == base + draw_frames(start, frames.take(i as int)).lines,
        decreases count - i,
    {
        let ghost here = terminal@;
        draw_frame_report(terminal, threads.value(i), lines);
        proof {
            let taken = frames.take(i + 1);
            assert(taken.drop_last() =~= frames.take(i as int));
            assert(taken.last() == threads.entries()[i as int].1@);
            let so_far = draw_frames(start, frames.take(i as int));
            let step = draw_frame(here, taken.last());
            assert(base + so_far.lines + step.lines =~= base + (so_far.lines + step.lines));
        }
        i += 1;
    }
    assert(frames.take(i as int) =~= frames);
}

/// Draws an area of plain rows under a title.
pub fn draw_rows_area(
    terminal: &mut TerminalHelper,
    x: u16,
    y: u16,
    width: u16,
    height: u16,
    title: &str,
    rows: &Vec<String>,
) -> (area: Area)
    requires
        old(terminal)@.wf(),
        old(terminal)@.current_window < u16::MAX,
        width >= 3,
        height >= 2,
        y + height <= u16::MAX,
    ensures
        final(terminal)@.wf(),
        final(terminal)@.current_window == old(terminal)@.current_window + 1,
        area@ == rows_area(old(terminal)@, x, y, width, height, title@, texts(rows@)).area,
        final(terminal)@ == rows_area(
            old(terminal)@,
            x,
            y,
            width,
            height,
            title@,
            texts(rows@),
        ).screen,
{
    let start = terminal.text_area(x, y, width, height);
    let mut lines: Vec<Line> = Vec::new();
    let ghost begun = terminal@;
    let put = terminal.put_string(0, title, None);
    proof {
        reveal_with_fuel(draw_rows, 3);
        assert(seq![title@].drop_last() =~= Seq::<Seq<char>>::empty());
    }
    match put.line {
        Some(line) => {
            lines.push(line);
            assert(models(lines@) =~= draw_rows(begun, seq![title@]).lines);
        },
        None => {
            assert(models(lines@) =~= draw_rows(begun, seq![title@]).lines);
        },
    }
    put_rows(terminal, rows, &mut lines);
    let end = terminal.end_text_area();
    Area { start, lines, end }
}

/// Draws an area of frame reports under a title.
pub fn draw_frames_area(
    terminal: &mut TerminalHelper,
    x: u16,
    y: u16,
    width: u16,
    height: u16,
    title: &str,
    threads: &NameMap<FrameReport>,
) -> (area: Area)
    requires
        old(terminal)@.wf(),
        old(terminal)@.current_window < u16::MAX,
        width >= 3,
        height >= 2,
        y + height <= u16::MAX,
    ensures
        final(terminal)@.wf(),
        final(terminal)@.current_window == old(terminal)@.current_window + 1,
        area@ == frames_area(
            old(terminal)@,
            x,
            y,
            width,
            height,
            title@,
            frames_of(threads.entries()),
        ).area,
        final(terminal)@ == frames_area(
            old(terminal)@,
            x,
            y,
            width,
            height,
            title@,
            frames_of(threads.entries()),
        ).screen,
{
    let start = terminal.text_area(x, y, width, height);
    let mut lines: Vec<Line> = Vec::new();
    let ghost begun = terminal@;
    let put = terminal.put_string(0, title, None);
    proof {
        reveal_with_fuel(draw_rows, 3);
        assert(seq![title@].drop_last() =~= Seq::<Seq<char>>::empty());
    }
    match put.line {
        Some(line) => {
            lines.push(line);
            assert(models(lines@) =~= draw_rows(begun, seq![title@]).lines);
        },
        None => {
            assert(models(lines@) =~= draw_rows(begun, seq![title@]).lines);
        },
    }
    put_frames(terminal, threads, &mut lines);
    let end = terminal.end_text_area();
    Area { start, lines, end }
}

/// What a key press means to the terminal frontend.
#[derive(Clone, Copy, Debug, PartialEq, Eq, Structural)]
pub enum Key {
    /// A character key.
    Char(char),
    /// The arrow up.
    Up,
    /// The arrow down.
    Down,
    /// Any other key.
    Other,
}

/// The terminal frontend but for the terminal: the layout, the state of the
/// drawing, the log, and the last report of every thread.
pub struct TermionFrontend {
    thread_data: NameMap<FrameReport>,
    params: TermionBuildParams,
    logs: String,
    layout: Layout,
    terminal: TerminalHelper,
}

/// The title of the profiler area.
pub open spec fn profiler_title() -> Seq<char> {
    "PROFILER, Arrows - navigate, space - collapse, Q - exit:"@
}

/// The title of the variables area.
pub open spec fn variables_title() -> Seq<char> {
    "VARIABLES:"@
}

/// The title of the log area.
pub open spec fn logs_title() -> Seq<char> {
    "STDOUT: "@
}

impl Layout {
    /// Every area has the room that its borders need.
    pub open spec fn drawable(self) -> bool {
        &&& self.profiler_width >= 3
        &&& self.logger_width >= 3
        &&& self.profiler_height >= 2
        &&& self.variables_height >= 2
        &&& self.terminal_height >= 2
        &&& self.profiler_height + self.variables_height <= u16::MAX
    }

    /// True if every area has the room that its borders need.
    pub fn is_drawable(&self) -> (drawable: bool)
        ensures
            drawable == self.drawable(),
    {
        self.profiler_width >= 3 && self.logger_width >= 3 && self.profiler_height >= 2
            && self.variables_height >= 2 && self.terminal_height >= 2 && self.profiler_height
            <= u16::MAX - self.variables_height
    }
}

impl TermionFrontend {
    /// The state of the drawing.
    pub closed spec fn screen(&self) -> Screen {
        self.terminal@
    }

    /// The layout that the frontend was made with.
    pub closed spec fn areas(&self) -> Layout {
        self.layout
    }

    /// The last report of every thread that has reported.
    pub closed spec fn latest(&self) -> Map<Seq<char>, FrameReport> {
        self.thread_data@
    }

    /// The reports of `latest`, in the order in which their threads first
    /// reported.
    pub closed spec fn threads(&self) -> Seq<(String, FrameReport)> {
        self.thread_data.entries()
    }

    /// The number of log lines that the frontend was asked to show.
    pub closed spec fn log_lines(&self) -> usize {
        self.params.logs_count
    }

    /// Everything that was logged so far.
    pub closed spec fn log(&self) -> Seq<char> {
        self.logs@
    }

    /// Between two frames the frontend can draw: its areas have room, and
    /// the first area is the next to be drawn.
    pub closed spec fn wf(&self) -> bool {
        &&& self.terminal@.wf()
        &&& self.layout.drawable()
        &&& self.terminal@.current_window == 0
    }

    /// A frontend for a terminal of `terminal_size` (columns, rows), or
    /// `None` where the areas do not fit or have no room for their borders.
    pub fn new(params: TermionBuildParams, terminal_size: (u16, u16)) -> (frontend: Option<
        TermionFrontend,
    >)
        ensures
            frontend is Some <==> terminal_size.0 >= 3 && terminal_size.1 >= 2 && params.areas(
                terminal_size,
            ) is Some && params.areas(terminal_size)->0.drawable(),
            frontend matches Some(f) ==> {
                &&& f.wf()
                &&& f.areas() == params.areas(terminal_size)->0
                &&& f.latest() == Map::<Seq<char>, FrameReport>::empty()
                &&& f.threads().len() == 0
                &&& f.log().len() == 0
                &&& f.log_lines() == params.logs_count
                &&& f.screen() == (Screen {
                    x: 0,
                    y: 0,
                    width: terminal_size.0,
                    height: terminal_size.1,
                    terminal_width: terminal_size.0,
                    terminal_height: terminal_size.1,
                    current_line: 0,
                    cursor: 0,
                    active_window: 0,
                    current_window: 0,
                    space_pressed: false,
                    collapsed: Set::empty(),
                })
            },
    {
        if terminal_size.0 < 3 || terminal_size.1 < 2 {
            return None;
        }
        match params.layout(terminal_size) {
            Some(layout) => {
                if layout.is_drawable() {
                    Some(
                        TermionFrontend {
                            params,
                            thread_data: NameMap::new(),
                            terminal: TerminalHelper::new(terminal_size.0, terminal_size.1),
                            logs: String::new(),
                            layout,
                        },
                    )
                } else {
                    None
                }
            },
            None => None,
        }
    }

    /// The layout that the frontend was made with.
    pub fn layout(&self) -> (layout: Layout)
        ensures
            layout == self.areas(),
    {
        self.layout
    }

    /// The number of log lines to show.
    pub fn logs_count(&self) -> (count: usize)
        ensures
            count == self.log_lines(),
    {
        self.params.logs_count
    }

    /// Everything that was logged so far.
    pub fn logs(&self) -> (logs: &String)
        ensures
            logs@ == self.log(),
    {
        &self.logs
    }

    /// The last report of every thread that has reported.
    pub fn thread_data(&self) -> (reports: &NameMap<FrameReport>)
        ensures
            reports@ == self.latest(),
            reports.entries() == self.threads(),
    {
        &self.thread_data
    }

    /// Adds `new_logs` to the log.
    pub fn push_logs(&mut self, new_logs: &str)
        ensures
            final(self).log() == old(self).log() + new_logs@,
            final(self).screen() == old(self).screen(),
            final(self).areas() == old(self).areas(),
            final(self).log_lines() == old(self).log_lines(),
            final(self).threads() == old(self).threads(),
            final(self).latest() == old(self).latest(),
            final(self).wf() == old(self).wf(),
    {
        self.logs.append(new_logs);
    }

    /// Takes a key press: `q` ends the frontend (the result is false), the
    /// arrows move the cursor, space folds or unfolds the line under the
    /// cursor in the frame drawn next. Any other key does nothing.
    pub fn press(&mut self, key: Key) -> (go_on: bool)
        requires
            old(self).wf(),
        ensures
            final(self).wf(),
            go_on == (key != Key::Char('q')),
            final(self).log() == old(self).log(),
            final(self).areas() == old(self).areas(),
            final(self).log_lines() == old(self).log_lines(),
            final(self).threads() == old(self).threads(),
            final(self).latest() == old(self).latest(),
            final(self).screen() == match key {
                Key::Up => Screen {
                    cursor: if old(self).screen().cursor > 0 {
                        (old(self).screen().cursor - 1) as u16
                    } else {
                        old(self).screen().cursor
                    },
                    ..old(self).screen()
                },
                Key::Down => Screen {
                    cursor: if old(self).screen().cursor < old(self).screen().terminal_height - 1 {
                        (old(self).screen().cursor + 1) as u16
                    } else {
                        old(self).screen().cursor
                    },
                    ..old(self).screen()
                },
                Key::Char(c) => if c == ' ' {
                    Screen { space_pressed: true, ..old(self).screen() }
                } else {
                    old(self).screen()
                },
                Key::Other => old(self).screen(),
            },
    {
        match key {
            Key::Char(c) => {
                if c == 'q' {
                    return false;
                }
                if c == ' ' {
                    self.terminal.set_space_key();
                }
            },
            Key::Up => {
                self.terminal.cursor_up();
            },
            Key::Down => {
                self.terminal.cursor_down();
            },
            Key::Other => {},
        }
        true
    }

    /// This frontend is `before` after it took `report`: the report is the
    /// last report of its thread, and nothing else has changed.
    pub open spec fn received(&self, before: &TermionFrontend, report: FrameReport) -> bool {
        &&& self.latest() == before.latest().insert(report@.thread_name, report)
        &&& self.log() == before.log()
        &&& self.log_lines() == before.log_lines()
        &&& self.areas() == before.areas()
        &&& self.screen() == before.screen()
        &&& self.wf() == before.wf()
    }

    /// Takes a report: it is the last report of its thread from now on.
    /// Threads of one name are one thread here.
    pub fn receive_report(&mut self, report: FrameReport)
        ensures
            final(self).received(old(self), report),
    {
        let name = report.thread_name.clone();
        self.thread_data.insert(name, report);
    }
}

impl TermionFrontend {
    /// Draws one frame: the profiler area with the last report of every
    /// thread, under it the variables area with the rows `variables`, and
    /// beside them the log area with the rows `logs`. The space key is up
    /// again afterwards.
    pub fn draw(&mut self, variables: &Vec<String>, logs: &Vec<String>) -> (picture: Picture)
        requires
            old(self).wf(),
        ensures
            final(self).wf(),
            final(self).log() == old(self).log(),
            final(self).areas() == old(self).areas(),
            final(self).log_lines() == old(self).log_lines(),
            final(self).threads() == old(self).threads(),
            final(self).latest() == old(self).latest(),
            ({
                let layout = old(self).areas();
                let first = frames_area(
                    old(self).screen(),
                    0,
                    0,
                    layout.profiler_width,
                    layout.profiler_height,
                    profiler_title(),
                    frames_of(old(self).threads()),
                );
                let second = rows_area(
                    first.screen,
                    0,
                    layout.profiler_height,
                    layout.profiler_width,
                    layout.variables_height,
                    variables_title(),
                    texts(variables@),
                );
                let third = rows_area(
                    second.screen,
                    layout.profiler_width,
                    0,
                    layout.logger_width,
                    layout.terminal_height,
                    logs_title(),
                    texts(logs@),
                );
                &&& picture.profiler@ == first.area
                &&& picture.variables@ == second.area
                &&& picture.logs@ == third.area
                &&& final(self).screen() == (Screen {
                    current_window: 0,
                    space_pressed: false,
                    ..third.screen
                })
            }),
    {
        let layout = self.layout;
        let profiler = draw_frames_area(
            &mut self.terminal,
            0,
            0,
            layout.profiler_width,
            layout.profiler_height,
            "PROFILER, Arrows - navigate, space - collapse, Q - exit:",
            &self.thread_data,
        );
        let variables = draw_rows_area(
            &mut self.terminal,
            0,
            layout.profiler_height,
            layout.profiler_width,
            layout.variables_height,
            "VARIABLES:",
            variables,
        );
        let logs = draw_rows_area(
            &mut self.terminal,
            layout.profiler_width,
            0,
            layout.logger_width,
            layout.terminal_height,
            "STDOUT: ",
            logs,
        );
        self.terminal.next_frame();
        Picture { profiler, variables, logs }
    }
}

impl ProfilerFrontend for TermionFrontend {
    fn receive_reports(&mut self, report: FrameReport)
        ensures
            final(self).received(old(self), report),
    {
        self.receive_report(report);
    }
}

} // verus!
