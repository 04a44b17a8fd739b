//! Cursor and viewport control, and the key-driven editing state machine.

use crate::document::{with_break, with_char, without, Document};
use crate::highlight::{decimal, decimal_string, painted, reset_code, Token};
use crate::text::push_char;
use crate::terminal::Size;
use crate::text::columns;
use vstd::prelude::*;

verus! {

/// A (column, row) pair: a cursor in the buffer or an offset of the viewport.
#[derive(Clone, Copy, Debug, PartialEq, Eq, Structural)]
pub struct Position {
    pub x: usize,
    pub y: usize,
}

impl Default for Position {
    fn default() -> (r: Position)
        ensures
            r.x == 0 && r.y == 0,
    {
        Position { x: 0, y: 0 }
    }
}

/// Editing mode.
#[derive(Clone, Copy, Debug, PartialEq, Eq, Structural)]
pub enum Mode {
    Insert,
    Normal,
}

impl Mode {
    /// The mode's name as shown in the status bar.
    pub fn label(&self) -> (r: String)
        ensures
            *self == Mode::Insert ==> r@ == "INSERT"@,
            *self == Mode::Normal ==> r@ == "NORMAL"@,
    {
        match self {
            Mode::Insert => String::from_str("INSERT"),
            Mode::Normal => String::from_str("NORMAL"),
        }
    }
}

/// A key event, as the editor classifies it.
#[derive(Clone, Copy, Debug, PartialEq, Eq, Structural)]
pub enum Key {
    Up,
    Down,
    Left,
    Right,
    Char(char),
    Ctrl(char),
    Backspace,
    Esc,
    Other,
}

pub open spec fn sat_add(a: usize, b: usize) -> usize {
    if a + b > usize::MAX { usize::MAX } else { (a + b) as usize }
}

pub open spec fn sat_sub(a: usize, b: usize) -> usize {
    if a >= b { (a - b) as usize } else { 0 }
}

/// The offset along one axis that keeps `pos` within a window of `extent` cells.
pub open spec fn follow(pos: usize, off: usize, extent: usize) -> usize {
    if pos < off {
        pos
    } else if pos >= sat_add(off, extent) {
        sat_add(sat_sub(pos, extent), 1)
    } else {
        off
    }
}

/// The viewport offset after scrolling to `cursor`.
pub open spec fn scrolled(cursor: Position, offset: Position, size: Size) -> Position {
    Position {
        x: follow(cursor.x, offset.x, size.width as usize),
        y: follow(cursor.y, offset.y, size.height as usize),
    }
}

/// Columns of line `y`, 0 past the last line.
pub open spec fn width_at(ls: Seq<Seq<char>>, y: usize) -> usize {
    if y < ls.len() {
        columns(ls[y as int]) as usize
    } else {
        0
    }
}

/// The cursor after one step in the direction of `key`: never negative, down only to one
/// past the last line, right only to the end of the line, and clamped to the length of
/// the line it ends on.
pub open spec fn moved(ls: Seq<Seq<char>>, c: Position, key: Key) -> Position {
    let p = match key {
        Key::Up => Position { x: c.x, y: sat_sub(c.y, 1) },
        Key::Down => Position { x: c.x, y: if c.y < ls.len() { (c.y + 1) as usize } else { c.y } },
        Key::Left => Position { x: sat_sub(c.x, 1), y: c.y },
        Key::Right => Position { x: if c.x < width_at(ls, c.y) { (c.x + 1) as usize } else { c.x }, y: c.y },
        _ => c,
    };
    let w = width_at(ls, p.y);
    Position { x: if p.x > w { w } else { p.x }, y: p.y }
}

/// The cursor is on a line or one past the last, and at most at the end of its line.
pub open spec fn cursor_ok(v: EditorView) -> bool {
    &&& v.cursor.y <= v.lines.len()
    &&& v.cursor.x <= width_at(v.lines, v.cursor.y)
}

pub open spec fn is_arrow(key: Key) -> bool {
    key == Key::Up || key == Key::Down || key == Key::Left || key == Key::Right
}

/// `n` spaces.
pub open spec fn blanks(n: nat) -> Seq<char> {
    Seq::new(n, |_i: int| ' ')
}

/// `s` padded on the right with spaces to `w` characters.
pub open spec fn pad_to(s: Seq<char>, w: nat) -> Seq<char> {
    if s.len() < w { s + blanks((w - s.len()) as nat) } else { s }
}

fn spaces(n: usize) -> (r: String)
    ensures
        r@ == blanks(n as nat),
{
    let mut out = String::new();
    let mut i: usize = 0;
    while i < n
        invariant
            i <= n,
            out@ == blanks(i as nat),
        decreases n - i,
    {
        push_char(&mut out, ' ');
        assert(blanks((i + 1) as nat) == blanks(i as nat).push(' '));
        i = i + 1;
    }
    out
}

/// What one screen line shows.
#[derive(Clone, Copy, Debug, PartialEq, Eq, Structural)]
pub enum ScreenRow {
    /// Buffer line `n`.
    Line(usize),
    /// The welcome banner.
    Welcome,
    /// A filler line past the end of the buffer.
    Tilde,
}

/// Screen line `t` shows the buffer line under it, the banner on the vertical midpoint of
/// an empty buffer, and filler otherwise.
pub open spec fn screen_row_of(v: EditorView, t: usize) -> ScreenRow {
    let n = sat_add(t, v.offset.y);
    if n < v.lines.len() {
        ScreenRow::Line(n)
    } else if v.lines.len() == 0 && t == v.size.height / 2 {
        ScreenRow::Welcome
    } else {
        ScreenRow::Tilde
    }
}

/// The status bar's text: mode, display name, 1-based cursor row over the row count.
pub open spec fn status_text(mode: Mode, name: Seq<char>, y: usize, total: nat) -> Seq<char> {
    let label = if mode == Mode::Insert { "INSERT"@ } else { "NORMAL"@ };
    "["@ + label + "] Editing: "@ + name + " "@ + decimal(sat_add(y, 1) as nat) + "/"@ + decimal(total)
}

/// The welcome banner for a screen `width` wide: a tilde, then the message roughly
/// centred, cut to the width.
pub open spec fn banner(width: nat, version: Seq<char>) -> Seq<char> {
    let msg = "Hecto editor -- version "@ + version;
    let padding = if width >= msg.len() { (width - msg.len()) / 2 } else { 0 };
    let line = "~"@ + blanks(if padding >= 1 { (padding - 1) as nat } else { 0 }) + msg;
    if line.len() > width { line.take(width as int) } else { line }
}

/// What the editor holds, as plain values.
pub struct EditorView {
    pub lines: Seq<Seq<char>>,
    pub cursor: Position,
    pub offset: Position,
    pub mode: Mode,
    pub quit: bool,
    pub size: Size,
}

pub open spec fn with_cursor(v: EditorView, c: Position) -> EditorView {
    EditorView { cursor: c, ..v }
}

/// The effect of `key` in normal mode, before scrolling.
pub open spec fn normal_step(v: EditorView, key: Key) -> EditorView {
    match key {
        Key::Char('i') => EditorView { mode: Mode::Insert, ..v },
        Key::Char('h') => with_cursor(v, moved(v.lines, v.cursor, Key::Left)),
        Key::Char('j') => with_cursor(v, moved(v.lines, v.cursor, Key::Down)),
        Key::Char('k') => with_cursor(v, moved(v.lines, v.cursor, Key::Up)),
        Key::Char('l') => with_cursor(v, moved(v.lines, v.cursor, Key::Right)),
        Key::Ctrl('q') => EditorView { quit: true, ..v },
        _ => v,
    }
}

/// The effect of `key` in insert mode, before scrolling.
pub open spec fn insert_step(v: EditorView, key: Key) -> EditorView {
    match key {
        Key::Up | Key::Down | Key::Left | Key::Right => with_cursor(v, moved(v.lines, v.cursor, key)),
        Key::Char('\n') => EditorView {
            lines: with_break(v.lines, v.cursor),
            cursor: Position { x: 0, y: (v.cursor.y + 1) as usize },
            ..v
        },
        Key::Ctrl('q') => EditorView { quit: true, ..v },
        Key::Char(c) => {
            let ls = with_char(v.lines, v.cursor, c);
            EditorView { lines: ls, cursor: moved(ls, v.cursor, Key::Right), ..v }
        },
        Key::Backspace => {
            let c1 = moved(v.lines, v.cursor, Key::Left);
            let ls = without(v.lines, c1);
            let w = width_at(ls, c1.y);
            EditorView {
                lines: ls,
                cursor: if v.cursor.x == 0 {
                    moved(ls, c1, Key::Up)
                } else {
                    Position { x: if c1.x > w { w } else { c1.x }, y: c1.y }
                },
                ..v
            }
        },
        Key::Esc => EditorView { mode: Mode::Normal, ..v },
        _ => v,
    }
}

/// The editor after `key`: the mode's step, then the viewport follows the cursor.
pub open spec fn step(v: EditorView, key: Key) -> EditorView {
    let w = if v.mode == Mode::Normal { normal_step(v, key) } else { insert_step(v, key) };
    EditorView { offset: scrolled(w.cursor, w.offset, w.size), ..w }
}

/// Scrolling twice to an unchanged cursor, with a viewport at least one cell wide and
/// high, gives the offset that scrolling once gave.
pub proof fn lemma_scroll_idempotent(cursor: Position, offset: Position, size: Size)
    requires
        size.width >= 1,
        size.height >= 1,
    ensures
        scrolled(cursor, scrolled(cursor, offset, size), size) == scrolled(cursor, offset, size),
{
}

/// The editor: a buffer, a cursor in it, the viewport's offset, the mode, and whether a
/// quit was asked for.
pub struct Editor {
    should_quit: bool,
    size: Size,
    cursor_position: Position,
    offset: Position,
    document: Document,
    mode: Mode,
}

impl View for Editor {
    type V = EditorView;

    closed spec fn view(&self) -> EditorView {
        EditorView {
            lines: self.document.lines(),
            cursor: self.cursor_position,
            offset: self.offset,
            mode: self.mode,
            quit: self.should_quit,
            size: self.size,
        }
    }
}

impl Editor {
    /// The buffer is sound and the cursor is on a line or one past the last.
    pub closed spec fn wf(&self) -> bool {
        &&& self.document.wf()
        &&& self.cursor_position.y <= self.document.lines().len()
    }

    /// An editor on `document`, in normal mode, at the top left.
    pub fn new(document: Document, size: Size) -> (r: Editor)
        requires
            document.wf(),
        ensures
            r.wf(),
            cursor_ok(r@),
            r@.lines == document.lines(),
            r@.cursor == (Position { x: 0, y: 0 }),
            r@.offset == (Position { x: 0, y: 0 }),
            r@.mode == Mode::Normal,
            !r@.quit,
            r@.size == size,
    {
        Editor {
            should_quit: false,
            size,
            cursor_position: Position { x: 0, y: 0 },
            offset: Position { x: 0, y: 0 },
            document,
            mode: Mode::Normal,
        }
    }

    /// An editor on the buffer named `fname` holding `contents`.
    pub fn open(fname: &str, contents: &str, size: Size) -> (r: Editor)
        ensures
            r.wf(),
            cursor_ok(r@),
            r@.lines == crate::document::text_lines(contents@),
            r@.cursor == (Position { x: 0, y: 0 }),
            r@.mode == Mode::Normal,
            !r@.quit,
            r@.size == size,
    {
        Editor::new(Document::open(fname, contents), size)
    }

    pub fn should_quit(&self) -> (r: bool)
        ensures
            r == self@.quit,
    {
        self.should_quit
    }

    pub fn mode(&self) -> (r: Mode)
        ensures
            r == self@.mode,
    {
        self.mode
    }

    pub fn cursor_position(&self) -> (r: Position)
        ensures
            r == self@.cursor,
    {
        self.cursor_position
    }

    pub fn offset(&self) -> (r: Position)
        ensures
            r == self@.offset,
    {
        self.offset
    }

    pub fn document(&self) -> (r: &Document)
        requires
            self.wf(),
        ensures
            r.lines() == self@.lines,
            r.wf(),
    {
        &self.document
    }

    /// Handles one key event.
    pub fn process_keypress(&mut self, key: Key)
        requires
            old(self).wf(),
            cursor_ok(old(self)@),
        ensures
            final(self).wf(),
            cursor_ok(final(self)@),
            final(self)@ == step(old(self)@, key),
    {
        if self.mode == Mode::Normal {
            self.process_keypress_normal(key);
        } else {
            self.process_keypress_insert(key);
        }
        self.scroll();
    }

    fn process_keypress_normal(&mut self, key: Key)
        requires
            old(self).wf(),
            cursor_ok(old(self)@),
        ensures
            final(self).wf(),
            final(self)@ == normal_step(old(self)@, key),
    {
        match key {
            Key::Char('i') => self.switch_mode(Mode::Insert),
            Key::Char('h') => self.move_cursor(Key::Left),
            Key::Char('j') => self.move_cursor(Key::Down),
            Key::Char('k') => self.move_cursor(Key::Up),
            Key::Char('l') => self.move_cursor(Key::Right),
            Key::Ctrl('q') => {
                self.should_quit = true;
            },
            _ => {},
        }
    }

    fn switch_mode(&mut self, mode: Mode)
        requires
            old(self).wf(),
        ensures
            final(self).wf(),
            final(self)@ == (EditorView { mode, ..old(self)@ }),
    {
        self.mode = mode;
    }

    fn process_keypress_insert(&mut self, key: Key)
        requires
            old(self).wf(),
            cursor_ok(old(self)@),
        ensures
            final(self).wf(),
            final(self)@ == insert_step(old(self)@, key),
    {
        match key {
            Key::Up | Key::Down | Key::Left | Key::Right => {
                self.move_cursor(key);
            },
            Key::Char('\n') => {
                self.document.insert_nl(&self.cursor_position);
                let n = self.document.len();
                assert(n >= self.cursor_position.y + 1);
                let y = self.cursor_position.y + 1;
                self.cursor_position = Position { x: 0, y };
            },
            Key::Ctrl('q') => {
                self.should_quit = true;
            },
            Key::Char(c) => {
                self.document.insert(&self.cursor_position, c);
                self.move_cursor(Key::Right);
            },
            Key::Backspace => {
                let x = self.cursor_position.x;
                self.move_cursor(Key::Left);
                self.document.delete(&self.cursor_position);
                if x == 0 {
                    self.move_cursor(Key::Up);
                } else {
                    let w = self.document.row_len(self.cursor_position.y);
                    if self.cursor_position.x > w {
                        self.cursor_position = Position { x: w, y: self.cursor_position.y };
                    }
                }
            },
            Key::Esc => {
                self.switch_mode(Mode::Normal);
            },
            _ => {},
        }
    }

    /// Moves the viewport so that the cursor is inside it.
    pub fn scroll(&mut self)
        requires
            old(self).wf(),
        ensures
            final(self).wf(),
            final(self)@ == (EditorView {
                offset: scrolled(old(self)@.cursor, old(self)@.offset, old(self)@.size),
                ..old(self)@
            }),
    {
        let Position { x, y } = self.cursor_position;
        let Size { width, height } = self.size;
        let offset = &mut self.offset;
        if y < offset.y {
            offset.y = y;
        } else if y >= offset.y.saturating_add(height as usize) {
            offset.y = y.saturating_sub(height as usize).saturating_add(1);
        }
        if x < offset.x {
            offset.x = x;
        } else if x >= offset.x.saturating_add(width as usize) {
            offset.x = x.saturating_sub(width as usize).saturating_add(1);
        }
    }

    /// Moves the cursor one step in the direction of an arrow key.
    pub fn move_cursor(&mut self, key: Key)
        requires
            old(self).wf(),
            is_arrow(key),
        ensures
            final(self).wf(),
            cursor_ok(final(self)@),
            final(self)@ == with_cursor(old(self)@, moved(old(self)@.lines, old(self)@.cursor, key)),
    {
        let Position { mut y, mut x } = self.cursor_position;
        let height = self.document.len();
        let mut width = self.document.row_len(y);
        match key {
            Key::Up => y = y.saturating_sub(1),
            Key::Down => {
                if y < height {
                    y = y.saturating_add(1);
                }
            },
            Key::Left => x = x.saturating_sub(1),
            Key::Right => {
                if x < width {
                    x = x.saturating_add(1);
                }
            },
            _ => {},
        }
        width = self.document.row_len(y);
        if x > width {
            x = width;
        }
        self.cursor_position = Position { x, y };
    }

    /// The buffer's overlay.
    pub closed spec fn overlay(&self) -> Seq<Seq<Token>> {
        self.document.overlay()
    }

    /// The buffer's display name.
    pub closed spec fn name(&self) -> Option<String> {
        self.document.name()
    }

    /// What screen line `terminal_row` shows.
    pub fn screen_row(&self, terminal_row: usize) -> (r: ScreenRow)
        requires
            self.wf(),
        ensures
            r == screen_row_of(self@, terminal_row),
    {
        let lineno = terminal_row.saturating_add(self.offset.y);
        if lineno < self.document.len() {
            ScreenRow::Line(lineno)
        } else if self.document.is_empty() && terminal_row == self.size.height as usize / 2 {
            ScreenRow::Welcome
        } else {
            ScreenRow::Tilde
        }
    }

    /// The visible window of buffer line `lineno`: from the offset's column, as wide as the
    /// screen less the five cells of the line-number gutter.
    pub fn draw_row(&self, lineno: usize) -> (r: String)
        requires
            self.wf(),
        ensures
            ({
                let start = self@.offset.x;
                let end = sat_add(start, sat_sub(self@.size.width as usize, 5));
                &&& lineno < self.overlay().len() ==> r@ == painted(
                    self.overlay()[lineno as int],
                    start as int,
                    end as int,
                )
                &&& lineno >= self.overlay().len() ==> r@ == reset_code()
            }),
    {
        let width = (self.size.width as usize).saturating_sub(5);
        let start = self.offset.x;
        let end = start.saturating_add(width);
        self.document.render(lineno, start, end)
    }

    /// The gutter label of buffer line `lineno`: its number, left-aligned in four cells.
    pub fn line_label(lineno: usize) -> (r: String)
        ensures
            r@ == pad_to(decimal(lineno as nat), 4),
    {
        let mut s = decimal_string(lineno);
        let n = s.as_str().unicode_len();
        if n < 4 {
            let pad = spaces(4 - n);
            s.append(pad.as_str());
        }
        s
    }

    /// The status bar, padded with spaces to the screen width.
    pub fn draw_status_bar(&self) -> (r: String)
        requires
            self.wf(),
        ensures
            ({
                let name = match self.name() {
                    Some(f) => f@,
                    None => "[No Name]"@,
                };
                r@ == pad_to(
                    status_text(self@.mode, name, self@.cursor.y, self@.lines.len()),
                    self@.size.width as nat,
                )
            }),
    {
        let mut status = String::from_str("[");
        let label = self.mode.label();
        status.append(label.as_str());
        status.append("] Editing: ");
        match self.document.display_name() {
            Some(f) => status.append(f.as_str()),
            None => status.append("[No Name]"),
        }
        status.append(" ");
        let row = decimal_string(self.cursor_position.y.saturating_add(1));
        status.append(row.as_str());
        status.append("/");
        let total = decimal_string(self.document.len());
        status.append(total.as_str());
        let n = status.as_str().unicode_len();
        let width = self.size.width as usize;
        if n < width {
            let pad = spaces(width - n);
            status.append(pad.as_str());
        }
        status
    }

    /// The welcome banner for this screen.
    pub fn draw_welcome_message(&self, version: &str) -> (r: String)
        ensures
            r@ == banner(self@.size.width as nat, version@),
    {
        let mut msg = String::from_str("Hecto editor -- version ");
        msg.append(version);
        let width = self.size.width as usize;
        let len = msg.as_str().unicode_len();
        let padding = width.saturating_sub(len) / 2;
        let mut line = String::from_str("~");
        let pad = spaces(padding.saturating_sub(1));
        line.append(pad.as_str());
        line.append(msg.as_str());
        let total = line.as_str().unicode_len();
        if total > width {
            let cut = line.as_str().substring_char(0, width);
            String::from_str(cut)
        } else {
            line
        }
    }

    /// Where the cursor stands on screen: its position less the viewport offset.
    pub fn cursor_on_screen(&self) -> (r: Position)
        ensures
            r == (Position {
                x: sat_sub(self@.cursor.x, self@.offset.x),
                y: sat_sub(self@.cursor.y, self@.offset.y),
            }),
    {
        Position {
            x: self.cursor_position.x.saturating_sub(self.offset.x),
            y: self.cursor_position.y.saturating_sub(self.offset.y),
        }
    }
}

} // verus!
