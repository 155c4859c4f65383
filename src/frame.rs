use vstd::prelude::*;
use crate::buffer::{Buffer, Cursor, valid_cursor, tab, tab_chars, TAB_WIDTH};
use crate::layout::{
    split_areas, split_layout, tiles, unsaturated, HALF_PERCENT, MAX_SPLIT_EXTENT,
};

verus! {

/// The top-left visible cell of a leaf, as (column, line).
pub type Offset = (usize, usize);

/// How an internal frame places its two children: side by side
/// (`Horizontal`) or one above the other (`Vertical`).
#[derive(Debug, Clone, Copy, PartialEq, Eq, Structural)]
pub enum Direction {
    Horizontal,
    Vertical,
}

/// The borders drawn around a leaf; only the trailing ones take cells from the text.
#[derive(Debug, Clone, Copy, PartialEq, Eq, Structural)]
pub struct Borders {
    pub right: bool,
    pub bottom: bool,
}

impl Borders {
    pub fn none() -> (r: Borders)
        ensures
            r == (Borders { right: false, bottom: false }),
    {
        Borders { right: false, bottom: false }
    }

    pub open spec fn spec_union(self, o: Borders) -> Borders {
        Borders { right: self.right || o.right, bottom: self.bottom || o.bottom }
    }

    /// The borders of either.
    pub fn union(self, o: Borders) -> (r: Borders)
        ensures
            r == self.spec_union(o),
    {
        Borders { right: self.right || o.right, bottom: self.bottom || o.bottom }
    }
}

/// A rectangle of character cells.
#[derive(Debug, Clone, Copy, PartialEq, Eq, Structural)]
pub struct Rect {
    pub x: u16,
    pub y: u16,
    pub width: u16,
    pub height: u16,
}

/// The cursor motions.
#[derive(Debug, Clone, Copy, PartialEq, Eq, Structural)]
pub enum Motion {
    Left,
    Right,
    Up,
    Down,
    Front,
    End,
    Top,
    Bottom,
}

/// Where a motion takes the cursor `c` on `lines`.
pub open spec fn moved(m: Motion, c: Cursor, lines: Seq<Seq<char>>) -> Cursor {
    let (col, line) = c;
    match m {
        Motion::Left => if col > 0 { ((col - 1) as usize, line) } else { c },
        Motion::Right => if col < lines[line as int].len() {
            ((col + 1) as usize, line)
        } else if line + 1 < lines.len() {
            (0, (line + 1) as usize)
        } else {
            c
        },
        Motion::Up => if line > 0 {
            (clamp_col(col, lines[line - 1]), (line - 1) as usize)
        } else {
            c
        },
        Motion::Down => if line + 1 < lines.len() {
            (clamp_col(col, lines[line + 1]), (line + 1) as usize)
        } else {
            c
        },
        Motion::Front => (0, line),
        Motion::End => (lines[line as int].len() as usize, line),
        Motion::Top => (0, 0),
        Motion::Bottom => (
            lines[lines.len() - 1].len() as usize,
            (lines.len() - 1) as usize,
        ),
    }
}

/// `col`, or the end of `line` where `col` lies beyond it.
pub open spec fn clamp_col(col: usize, line: Seq<char>) -> usize {
    if col > line.len() { line.len() as usize } else { col }
}

/// The cursor after a sequence of motions.
pub open spec fn moved_all(ms: Seq<Motion>, c: Cursor, lines: Seq<Seq<char>>) -> Cursor
    decreases ms.len(),
{
    if ms.len() == 0 {
        c
    } else {
        moved(ms.last(), moved_all(ms.drop_last(), c, lines), lines)
    }
}

/// Text and cursor after inserting `ch` at the cursor.
pub open spec fn after_char(lines: Seq<Seq<char>>, c: Cursor, ch: char) -> (Seq<Seq<char>>, Cursor) {
    (lines.update(c.1 as int, lines[c.1 as int].insert(c.0 as int, ch)), ((c.0 + 1) as usize, c.1))
}

/// Text and cursor after breaking the line at the cursor.
pub open spec fn after_newline(lines: Seq<Seq<char>>, c: Cursor) -> (Seq<Seq<char>>, Cursor) {
    (
        lines.update(c.1 as int, lines[c.1 as int].take(c.0 as int)).insert(
            c.1 + 1,
            lines[c.1 as int].skip(c.0 as int),
        ),
        (0, (c.1 + 1) as usize),
    )
}

/// Text and cursor after indenting the cursor's line.
pub open spec fn after_tab(lines: Seq<Seq<char>>, c: Cursor) -> (Seq<Seq<char>>, Cursor) {
    (lines.update(c.1 as int, tab_chars() + lines[c.1 as int]), ((c.0 + TAB_WIDTH) as usize, c.1))
}

/// `lines` with line `l + 1` appended to line `l` and removed.
pub open spec fn joined_with_next(lines: Seq<Seq<char>>, l: int) -> Seq<Seq<char>> {
    lines.update(l, lines[l] + lines[l + 1]).remove(l + 1)
}

/// Text and cursor after a backspace.
pub open spec fn after_backspace(lines: Seq<Seq<char>>, c: Cursor) -> (Seq<Seq<char>>, Cursor) {
    if c.0 > 0 {
        (
            lines.update(c.1 as int, lines[c.1 as int].remove(c.0 - 1)),
            ((c.0 - 1) as usize, c.1),
        )
    } else if c.1 > 0 {
        (joined_with_next(lines, c.1 - 1), (lines[c.1 - 1].len() as usize, (c.1 - 1) as usize))
    } else {
        (lines, c)
    }
}

/// Text after deleting forward at the cursor (the cursor stays).
pub open spec fn after_delete(lines: Seq<Seq<char>>, c: Cursor) -> Seq<Seq<char>> {
    if c.0 < lines[c.1 as int].len() {
        lines.update(c.1 as int, lines[c.1 as int].remove(c.0 as int))
    } else if c.1 + 1 < lines.len() {
        joined_with_next(lines, c.1 as int)
    } else {
        lines
    }
}

/// Text after a kill at the cursor, and what the kill yields (the cursor stays).
pub open spec fn after_kill(lines: Seq<Seq<char>>, c: Cursor) -> (Seq<Seq<char>>, Option<Seq<char>>) {
    if c.0 < lines[c.1 as int].len() {
        (
            lines.update(c.1 as int, lines[c.1 as int].take(c.0 as int)),
            Some(lines[c.1 as int].skip(c.0 as int)),
        )
    } else if c.1 + 1 < lines.len() {
        (joined_with_next(lines, c.1 as int), Some(seq!['\n']))
    } else {
        (lines, None)
    }
}

/// Text and cursor after pasting `s` at the cursor.
pub open spec fn after_paste(lines: Seq<Seq<char>>, c: Cursor, s: Seq<char>) -> (Seq<Seq<char>>, Cursor) {
    (
        lines.update(
            c.1 as int,
            lines[c.1 as int].take(c.0 as int) + s + lines[c.1 as int].skip(c.0 as int),
        ),
        ((c.0 + s.len()) as usize, c.1),
    )
}

/// The offset along one axis after a render pass: the cursor `cur` is made
/// visible within `extent` cells, of which the last is a border if `border`.
pub open spec fn adjusted(off: usize, cur: usize, extent: u16, border: bool) -> usize {
    let used: int = if border { 2 } else { 1 };
    if off > cur {
        cur
    } else if extent < used {
        cur
    } else if cur > off + extent - used {
        (cur + used - extent) as usize
    } else {
        off
    }
}

/// The offset of a frame after a render pass in `r`.
pub open spec fn adjusted_offset(f: Frame, r: Rect) -> Offset {
    (
        adjusted(f.offset.0, f.cursor.0, r.width, f.border_flag.right),
        adjusted(f.offset.1, f.cursor.1, r.height, f.border_flag.bottom),
    )
}

/// The offset along one axis after a render pass.
fn adjust_axis(off: usize, cur: usize, extent: u16, border: bool) -> (r: usize)
    ensures
        r == adjusted(off, cur, extent, border),
        r <= cur,
        cur - r < extent || r == cur,
{
    let used: usize = if border { 2 } else { 1 };
    if off > cur {
        cur
    } else if (extent as usize) < used {
        cur
    } else if cur - off > extent as usize - used {
        cur - (extent as usize - used)
    } else {
        off
    }
}

/// What a render pass hands the drawing side for one leaf: its rectangle,
/// buffer, borders, offset, and the on-screen cursor if it has focus.
pub type RenderItem = (Rect, usize, Borders, Offset, Option<Cursor>);

/// The on-screen cell of a cursor shown from `offset` in `r`.
pub open spec fn screen_cursor(c: Cursor, offset: Offset, r: Rect) -> Cursor {
    ((c.0 - offset.0 + r.x) as usize, (c.1 - offset.1 + r.y) as usize)
}

/// The characters of an optional text.
pub open spec fn opt_chars(o: Option<Vec<char>>) -> Option<Seq<char>> {
    match o {
        Some(v) => Some(v@),
        None => None,
    }
}

/// A node of the split tree: a leaf that shows a buffer, or an internal
/// node with two children.
pub struct Frame {
    pub inner_frames: Option<(Box<Frame>, Box<Frame>)>,
    pub split_direction: Direction,
    /// The index of the shown buffer in the window's buffer table.
    pub buffer: usize,
    pub cursor: Cursor,
    pub offset: Offset,
    pub border_flag: Borders,
    pub focus: bool,
    pub x_mode: bool,
    pub show: bool,
    pub has_parent: bool,
}

impl Frame {
    pub open spec fn is_leaf(&self) -> bool {
        self.inner_frames is None
    }

    /// A leaf whose cursor is valid on `lines`.
    pub open spec fn leaf_on(&self, lines: Seq<Seq<char>>) -> bool {
        self.is_leaf() && lines.len() > 0 && valid_cursor(self.cursor, lines)
    }

    /// `self` with another cursor.
    pub open spec fn with_cursor(self, c: Cursor) -> Frame {
        Frame { cursor: c, ..self }
    }

    /// A root leaf over buffer `buffer`, without focus.
    pub open spec fn new_spec(buffer: usize) -> Frame {
        Frame {
            inner_frames: None,
            split_direction: Direction::Horizontal,
            buffer,
            cursor: (0, 0),
            offset: (0, 0),
            border_flag: Borders { right: false, bottom: false },
            focus: false,
            x_mode: false,
            show: true,
            has_parent: false,
        }
    }

    /// A root leaf over buffer `buffer`.
    pub fn new(buffer: usize) -> (r: Frame)
        ensures
            r == Frame::new_spec(buffer),
    {
        Frame {
            inner_frames: None,
            split_direction: Direction::Horizontal,
            buffer,
            cursor: (0, 0),
            offset: (0, 0),
            border_flag: Borders::none(),
            focus: false,
            x_mode: false,
            show: true,
            has_parent: false,
        }
    }

    pub fn is_main_frame(&self) -> (r: bool)
        ensures
            r == !self.has_parent,
    {
        !self.has_parent
    }

    fn apply_motion(&mut self, buf: &Buffer, m: Motion)
        requires
            old(self).leaf_on(buf@),
        ensures
            *final(self) == old(self).with_cursor(moved(m, old(self).cursor, buf@)),
            final(self).leaf_on(buf@),
    {
        let (col, line) = self.cursor;
        let len = buf.line_len(self.cursor);
        let n = buf.lines_len();
        let c: Cursor = match m {
            Motion::Left => if col > 0 { (col - 1, line) } else { (col, line) },
            Motion::Right => if len > col {
                (col + 1, line)
            } else if n - 1 > line {
                (0, line + 1)
            } else {
                (col, line)
            },
            Motion::Up => if line > 0 {
                let l = buf.line_len_idx(line - 1);
                (if col > l { l } else { col }, line - 1)
            } else {
                (col, line)
            },
            Motion::Down => if n - 1 > line {
                let l = buf.line_len_idx(line + 1);
                (if col > l { l } else { col }, line + 1)
            } else {
                (col, line)
            },
            Motion::Front => (0, line),
            Motion::End => (len, line),
            Motion::Top => (0, 0),
            Motion::Bottom => (buf.line_len_idx(n - 1), n - 1),
        };
        self.cursor = c;
    }

    pub fn move_left(&mut self, buf: &Buffer)
        requires
            old(self).leaf_on(buf@),
        ensures
            *final(self) == old(self).with_cursor(moved(Motion::Left, old(self).cursor, buf@)),
            final(self).leaf_on(buf@),
    {
        self.apply_motion(buf, Motion::Left);
    }

    pub fn move_right(&mut self, buf: &Buffer)
        requires
            old(self).leaf_on(buf@),
        ensures
            *final(self) == old(self).with_cursor(moved(Motion::Right, old(self).cursor, buf@)),
            final(self).leaf_on(buf@),
    {
        self.apply_motion(buf, Motion::Right);
    }

    pub fn move_up(&mut self, buf: &Buffer)
        requires
            old(self).leaf_on(buf@),
        ensures
            *final(self) == old(self).with_cursor(moved(Motion::Up, old(self).cursor, buf@)),
            final(self).leaf_on(buf@),
    {
        self.apply_motion(buf, Motion::Up);
    }

    pub fn move_down(&mut self, buf: &Buffer)
        requires
            old(self).leaf_on(buf@),
        ensures
            *final(self) == old(self).with_cursor(moved(Motion::Down, old(self).cursor, buf@)),
            final(self).leaf_on(buf@),
    {
        self.apply_motion(buf, Motion::Down);
    }

    pub fn move_front(&mut self, buf: &Buffer)
        requires
            old(self).leaf_on(buf@),
        ensures
            *final(self) == old(self).with_cursor(moved(Motion::Front, old(self).cursor, buf@)),
            final(self).leaf_on(buf@),
    {
        self.apply_motion(buf, Motion::Front);
    }

    pub fn move_end(&mut self, buf: &Buffer)
        requires
            old(self).leaf_on(buf@),
        ensures
            *final(self) == old(self).with_cursor(moved(Motion::End, old(self).cursor, buf@)),
            final(self).leaf_on(buf@),
    {
        self.apply_motion(buf, Motion::End);
    }

    pub fn move_top(&mut self, buf: &Buffer)
        requires
            old(self).leaf_on(buf@),
        ensures
            *final(self) == old(self).with_cursor(moved(Motion::Top, old(self).cursor, buf@)),
            final(self).leaf_on(buf@),
    {
        self.apply_motion(buf, Motion::Top);
    }

    pub fn move_bottom(&mut self, buf: &Buffer)
        requires
            old(self).leaf_on(buf@),
        ensures
            *final(self) == old(self).with_cursor(moved(Motion::Bottom, old(self).cursor, buf@)),
            final(self).leaf_on(buf@),
    {
        self.apply_motion(buf, Motion::Bottom);
    }
}


impl Frame {
    /// Inserts `c` at the cursor and moves past it.
    pub fn new_char(&mut self, buf: &mut Buffer, c: char)
        requires
            old(self).leaf_on(old(buf)@),
        ensures
            (final(buf)@, final(self).cursor) == after_char(old(buf)@, old(self).cursor, c),
            *final(self) == old(self).with_cursor(final(self).cursor),
            final(self).leaf_on(final(buf)@),
    {
        buf.insert_char(self.cursor, c);
        // The line length is a `usize`, so the new column fits.
        let _line_len = buf.line_len(self.cursor);
        self.cursor.0 = self.cursor.0 + 1;
    }

    /// Breaks the line at the cursor; the cursor goes to the start of the new line.
    pub fn new_line(&mut self, buf: &mut Buffer)
        requires
            old(self).leaf_on(old(buf)@),
        ensures
            (final(buf)@, final(self).cursor) == after_newline(old(buf)@, old(self).cursor),
            *final(self) == old(self).with_cursor(final(self).cursor),
            final(self).leaf_on(final(buf)@),
    {
        let right = buf.split_off(self.cursor);
        // The line count is a `usize`, so the next line index fits.
        let _line_count = buf.lines_len();
        self.cursor.0 = 0;
        self.cursor.1 = self.cursor.1 + 1;
        buf.insert_line((0, self.cursor.1), &right);
    }

    /// Indents the cursor's line, whatever the column, and moves the cursor
    /// with the text.
    pub fn tab(&mut self, buf: &mut Buffer)
        requires
            old(self).leaf_on(old(buf)@),
        ensures
            (final(buf)@, final(self).cursor) == after_tab(old(buf)@, old(self).cursor),
            *final(self) == old(self).with_cursor(final(self).cursor),
            final(self).leaf_on(final(buf)@),
    {
        let t = tab();
        buf.insert_str((0, self.cursor.1), &t);
        // The line length is a `usize`, so the new column fits.
        let _line_len = buf.line_len(self.cursor);
        assert(old(buf)@[old(self).cursor.1 as int].take(0) + tab_chars() + old(buf)@[old(self).cursor.1 as int].skip(0)
            =~= tab_chars() + old(buf)@[old(self).cursor.1 as int]);
        self.cursor.0 = self.cursor.0 + TAB_WIDTH;
    }

    pub fn toggle_x_mode(&mut self, mode: bool)
        ensures
            *final(self) == (Frame { x_mode: mode, ..*old(self) }),
    {
        self.x_mode = mode;
    }

    pub fn is_x_mode(&self) -> (r: bool)
        ensures
            r == self.x_mode,
    {
        self.x_mode
    }

    /// Deletes the character left of the cursor, or at the start of a line
    /// joins the line to the one above.
    pub fn backspace(&mut self, buf: &mut Buffer)
        requires
            old(self).leaf_on(old(buf)@),
        ensures
            (final(buf)@, final(self).cursor) == after_backspace(old(buf)@, old(self).cursor),
            *final(self) == old(self).with_cursor(final(self).cursor),
            final(self).leaf_on(final(buf)@),
    {
        if self.cursor.0 > 0 {
            self.cursor.0 = self.cursor.0 - 1;
            buf.remove_char(self.cursor);
        } else if self.cursor.1 > 0 {
            let deleted = buf.delete_line(self.cursor);
            self.cursor.1 = self.cursor.1 - 1;
            self.cursor.0 = buf.line_len(self.cursor);
            buf.push_str(self.cursor, &deleted);
            proof {
                let l = old(self).cursor.1 as int;
                assert(buf@ =~= joined_with_next(old(buf)@, l - 1));
            }
        }
    }

    /// Deletes the character at the cursor, or at the end of a line joins
    /// the next line to it.
    pub fn delete(&mut self, buf: &mut Buffer)
        requires
            old(self).leaf_on(old(buf)@),
        ensures
            final(buf)@ == after_delete(old(buf)@, old(self).cursor),
            *final(self) == *old(self),
            final(self).leaf_on(final(buf)@),
    {
        let len = buf.line_len(self.cursor);
        let n = buf.lines_len();
        if self.cursor.0 < len {
            buf.remove_char(self.cursor);
        } else if n - 1 > self.cursor.1 {
            let deleted = buf.delete_line((self.cursor.0, self.cursor.1 + 1));
            buf.push_str(self.cursor, &deleted);
            proof {
                assert(buf@ =~= joined_with_next(old(buf)@, old(self).cursor.1 as int));
            }
        }
    }

    /// Cuts from the cursor to the end of the line and returns it; at the
    /// end of a line joins the next line and returns a line break; at the end
    /// of the text returns nothing.
    pub fn kill(&mut self, buf: &mut Buffer) -> (r: Option<Vec<char>>)
        requires
            old(self).leaf_on(old(buf)@),
        ensures
            (final(buf)@, opt_chars(r)) == after_kill(old(buf)@, old(self).cursor),
            *final(self) == *old(self),
            final(self).leaf_on(final(buf)@),
    {
        let len = buf.line_len(self.cursor);
        let n = buf.lines_len();
        if self.cursor.0 < len {
            let removed = buf.split_off(self.cursor);
            Some(removed)
        } else if n - 1 > self.cursor.1 {
            let removed = buf.delete_line((self.cursor.0, self.cursor.1 + 1));
            buf.push_str(self.cursor, &removed);
            proof {
                assert(buf@ =~= joined_with_next(old(buf)@, old(self).cursor.1 as int));
            }
            let nl: Vec<char> = vec!['\n'];
            assert(nl@ =~= seq!['\n']);
            Some(nl)
        } else {
            None
        }
    }

    /// Inserts `s` at the cursor and moves past it.
    pub fn paste(&mut self, buf: &mut Buffer, s: &Vec<char>)
        requires
            old(self).leaf_on(old(buf)@),
        ensures
            (final(buf)@, final(self).cursor) == after_paste(old(buf)@, old(self).cursor, s@),
            *final(self) == old(self).with_cursor(final(self).cursor),
            final(self).leaf_on(final(buf)@),
    {
        buf.insert_str(self.cursor, s);
        // The line length is a `usize`, so the new column fits.
        let _line_len = buf.line_len(self.cursor);
        self.cursor.0 = self.cursor.0 + s.len();
    }
}


/// The texts of a buffer table.
pub open spec fn texts(bufs: Seq<Buffer>) -> Seq<Seq<Seq<char>>> {
    bufs.map_values(|b: Buffer| b@)
}

/// Every buffer of the table holds at least one line.
pub open spec fn all_wf(bufs: Seq<Buffer>) -> bool {
    forall|i: int| 0 <= i < bufs.len() ==> (#[trigger] bufs[i]).wf()
}

/// `c` moved into the bounds of `lines`: the last line at most, and the end
/// of its line at most.
pub open spec fn clamped(c: Cursor, lines: Seq<Seq<char>>) -> Cursor {
    let line = if c.1 > lines.len() - 1 { (lines.len() - 1) as usize } else { c.1 };
    (clamp_col(c.0, lines[line as int]), line)
}

impl Frame {
    /// The height of the tree below.
    pub open spec fn depth(&self) -> nat
        decreases self,
    {
        match self.inner_frames {
            Some((f0, f1)) => 1 + if f0.depth() > f1.depth() { f0.depth() } else { f1.depth() },
            None => 0,
        }
    }

    /// The number of leaves that hold focus.
    pub open spec fn focus_count(&self) -> nat
        decreases self,
    {
        match self.inner_frames {
            Some((f0, f1)) => f0.focus_count() + f1.focus_count(),
            None => if self.focus { 1 } else { 0 },
        }
    }

    /// Some leaf below holds focus.
    pub open spec fn spec_has_focus(&self) -> bool
        decreases self,
    {
        match self.inner_frames {
            Some((f0, f1)) => f0.spec_has_focus() || f1.spec_has_focus(),
            None => self.focus,
        }
    }

    /// The leaves, first child first.
    pub open spec fn leaves(&self) -> Seq<Frame>
        decreases self,
    {
        match self.inner_frames {
            Some((f0, f1)) => f0.leaves() + f1.leaves(),
            None => seq![*self],
        }
    }

    /// The leaf that focus leads to: into the first child that has focus,
    /// else into the second.
    pub open spec fn focus_leaf(&self) -> Frame
        decreases self,
    {
        match self.inner_frames {
            Some((f0, f1)) => if f0.spec_has_focus() { f0.focus_leaf() } else { f1.focus_leaf() },
            None => *self,
        }
    }

    /// Every leaf shows a buffer of a table of `n`, and every child knows it
    /// has a parent.
    pub open spec fn tree_wf(&self, n: nat) -> bool
        decreases self,
    {
        match self.inner_frames {
            Some((f0, f1)) => f0.has_parent && f1.has_parent && f0.tree_wf(n) && f1.tree_wf(n),
            None => self.buffer < n,
        }
    }

    /// The frame with no focus anywhere.
    pub open spec fn cleared(self) -> Frame
        decreases self,
    {
        match self.inner_frames {
            Some((f0, f1)) => Frame {
                focus: false,
                inner_frames: Some((Box::new(f0.cleared()), Box::new(f1.cleared()))),
                ..self
            },
            None => Frame { focus: false, ..self },
        }
    }

    /// The frame with focus given to its first leaf, whose cursor is moved
    /// into the bounds of its buffer.
    pub open spec fn focused_first(self, bufs: Seq<Buffer>) -> Frame
        decreases self,
    {
        match self.inner_frames {
            Some((f0, f1)) => Frame {
                inner_frames: Some((Box::new(f0.focused_first(bufs)), f1)),
                ..self
            },
            None => Frame {
                focus: true,
                cursor: clamped(self.cursor, bufs[self.buffer as int]@),
                ..self
            },
        }
    }

    /// A leaf for one side of a split of `frame`: same buffer, cursor and
    /// offset, with `extra` added to its borders.
    pub open spec fn spec_inherit(frame: Frame, extra: Borders) -> Frame {
        Frame {
            inner_frames: None,
            split_direction: Direction::Horizontal,
            buffer: frame.buffer,
            cursor: frame.cursor,
            offset: frame.offset,
            border_flag: frame.border_flag.spec_union(extra),
            focus: false,
            x_mode: false,
            show: true,
            has_parent: true,
        }
    }

    /// The border that the first side of a split gets, next to the second.
    pub open spec fn split_border(direction: Direction) -> Borders {
        match direction {
            Direction::Horizontal => Borders { right: true, bottom: false },
            Direction::Vertical => Borders { right: false, bottom: true },
        }
    }

    /// A leaf split in two along `direction`; the first side takes its focus.
    pub open spec fn spec_split(self, direction: Direction) -> Frame {
        let f0 = Frame { focus: self.focus, ..Frame::spec_inherit(self, Frame::split_border(direction)) };
        let f1 = Frame::spec_inherit(self, Borders { right: false, bottom: false });
        Frame {
            inner_frames: Some((Box::new(f0), Box::new(f1))),
            split_direction: direction,
            focus: false,
            ..self
        }
    }

    pub fn inherit(frame: &Frame, additional_border_flag: Borders) -> (r: Frame)
        ensures
            r == Frame::spec_inherit(*frame, additional_border_flag),
    {
        Frame {
            inner_frames: None,
            split_direction: Direction::Horizontal,
            buffer: frame.buffer,
            cursor: frame.cursor,
            offset: frame.offset,
            border_flag: frame.border_flag.union(additional_border_flag),
            focus: false,
            x_mode: false,
            show: true,
            has_parent: true,
        }
    }

    /// Turns a leaf into an internal frame with two leaves over its buffer.
    pub fn split(&mut self, direction: Direction)
        requires
            old(self).is_leaf(),
        ensures
            *final(self) == old(self).spec_split(direction),
    {
        let extra = match direction {
            Direction::Horizontal => Borders { right: true, bottom: false },
            Direction::Vertical => Borders { right: false, bottom: true },
        };
        let mut f0 = Frame::inherit(self, extra);
        let f1 = Frame::inherit(self, Borders::none());
        if self.focus {
            self.focus = false;
            f0.focus = true;
        }
        self.inner_frames = Some((Box::new(f0), Box::new(f1)));
        self.split_direction = direction;
    }

    pub fn has_focus(&self) -> (r: bool)
        ensures
            r == self.spec_has_focus(),
        decreases self,
    {
        match &self.inner_frames {
            Some((f0, f1)) => f0.has_focus() || f1.has_focus(),
            None => self.focus,
        }
    }

    pub fn has_inner_frames(&self) -> (r: bool)
        ensures
            r == !self.is_leaf(),
    {
        self.inner_frames.is_some()
    }

    /// The index of the shown buffer.
    pub fn clone_buffer(&self) -> (r: usize)
        ensures
            r == self.buffer,
    {
        self.buffer
    }

    /// The two children of an internal frame.
    pub fn clone_inner_frames(&self) -> (r: (&Frame, &Frame))
        requires
            !self.is_leaf(),
        ensures
            self.inner_frames == Some((Box::new(*r.0), Box::new(*r.1))),
    {
        match &self.inner_frames {
            Some((f0, f1)) => (f0, f1),
            None => {
                proof {
                    assert(false);
                }
                (self, self)
            },
        }
    }

    /// Gives focus to the first leaf and moves its cursor into its buffer.
    pub fn set_focus(&mut self, buffers: &Vec<Buffer>)
        requires
            old(self).tree_wf(buffers@.len()),
            all_wf(buffers@),
        ensures
            *final(self) == old(self).focused_first(buffers@),
        decreases old(self).depth(),
    {
        match &mut self.inner_frames {
            Some((f0, _)) => {
                f0.set_focus(buffers);
            },
            None => {
                self.focus = true;
                let buf = &buffers[self.buffer];
                let n = buf.lines_len();
                if self.cursor.1 > n - 1 {
                    self.cursor.1 = n - 1;
                }
                let len = buf.line_len(self.cursor);
                if self.cursor.0 > len {
                    self.cursor.0 = len;
                }
            },
        }
    }

    /// Takes focus from every leaf.
    pub fn clear_focus(&mut self)
        ensures
            *final(self) == old(self).cleared(),
        decreases old(self).depth(),
    {
        self.focus = false;
        match &mut self.inner_frames {
            Some((f0, f1)) => {
                f0.clear_focus();
                f1.clear_focus();
            },
            None => {},
        }
    }

    /// The leaf that holds focus, below an internal frame.
    pub fn focus_child_frame(&self) -> (r: &Frame)
        ensures
            *r == self.focus_leaf(),
        decreases self,
    {
        match &self.inner_frames {
            Some((f0, f1)) => if f0.has_focus() {
                f0.focus_child_frame()
            } else {
                f1.focus_child_frame()
            },
            None => self,
        }
    }
}

/// The items of a render pass that carry a cursor.
pub open spec fn with_cursor_items(items: Seq<RenderItem>) -> Seq<RenderItem> {
    items.filter(|it: RenderItem| it.4 is Some)
}

/// The two halves of `r` along `d`.
pub open spec fn halves(r: Rect, d: Direction) -> Seq<Rect> {
    split_areas(r, d, HALF_PERCENT, HALF_PERCENT)
}

impl Frame {
    /// Focus moved to the next leaf, first child first; `false` where no
    /// leaf follows the focused one below this frame.
    pub open spec fn moved_focus(self, bufs: Seq<Buffer>) -> (Frame, bool)
        decreases self,
    {
        match self.inner_frames {
            Some((f0, f1)) => if f0.spec_has_focus() {
                let (g0, moved) = f0.moved_focus(bufs);
                if moved {
                    (Frame { inner_frames: Some((Box::new(g0), f1)), ..self }, true)
                } else {
                    (
                        Frame {
                            inner_frames: Some(
                                (Box::new(g0.cleared()), Box::new(f1.focused_first(bufs))),
                            ),
                            ..self
                        },
                        true,
                    )
                }
            } else {
                let (g1, moved) = f1.moved_focus(bufs);
                (Frame { inner_frames: Some((f0, Box::new(g1))), ..self }, moved)
            },
            None => (self, false),
        }
    }

    /// No internal frame below has both children hidden, and pruning only
    /// descends where both are shown.
    pub open spec fn prunable(&self) -> bool
        decreases self,
    {
        match self.inner_frames {
            Some((f0, f1)) => (f0.show || f1.show) && (f0.show && f1.show ==> f0.prunable()
                && f1.prunable()),
            None => true,
        }
    }

    /// This frame taking the place of its only shown child: the child's
    /// children and direction if it has any, else the child's buffer.
    pub open spec fn adopt(self, child: Frame) -> Frame {
        match child.inner_frames {
            Some(_) => Frame {
                inner_frames: child.inner_frames,
                split_direction: child.split_direction,
                ..self
            },
            None => Frame { inner_frames: None, buffer: child.buffer, ..self },
        }
    }

    /// The tree with every internal frame that has a hidden child collapsed
    /// into the shown one, focus set again where that happened.
    pub open spec fn pruned(self, bufs: Seq<Buffer>) -> Frame
        decreases self,
    {
        match self.inner_frames {
            Some((f0, f1)) => if f0.show && f1.show {
                Frame {
                    inner_frames: Some((Box::new(f0.pruned(bufs)), Box::new(f1.pruned(bufs)))),
                    ..self
                }
            } else if f0.show {
                self.adopt(*f0).focused_first(bufs)
            } else {
                self.adopt(*f1).focused_first(bufs)
            },
            None => self,
        }
    }

    /// The tree after a render pass in `r`, with what the pass hands out,
    /// first child first.
    pub open spec fn rendered(self, r: Rect) -> (Frame, Seq<RenderItem>)
        decreases self,
    {
        let off = adjusted_offset(self, r);
        match self.inner_frames {
            Some((f0, f1)) => {
                let h = halves(r, self.split_direction);
                let (g0, s0) = f0.rendered(h[0]);
                let (g1, s1) = f1.rendered(h[1]);
                (Frame { offset: off, inner_frames: Some((Box::new(g0), Box::new(g1))), ..self }, s0 + s1)
            },
            None => (
                Frame { offset: off, ..self },
                seq![
                    (
                        r,
                        self.buffer,
                        self.border_flag,
                        off,
                        if self.focus { Some(screen_cursor(self.cursor, off, r)) } else { None },
                    ),
                ],
            ),
        }
    }

    /// Moves focus to the next leaf below, first child first; returns
    /// whether there was one.
    pub fn move_focus(&mut self, buffers: &Vec<Buffer>) -> (r: bool)
        requires
            old(self).tree_wf(buffers@.len()),
            all_wf(buffers@),
        ensures
            (*final(self), r) == old(self).moved_focus(buffers@),
        decreases old(self).depth(),
    {
        match &mut self.inner_frames {
            Some((f0, f1)) => {
                if f0.has_focus() {
                    let moved = f0.move_focus(buffers);
                    if !moved {
                        f0.clear_focus();
                        f1.set_focus(buffers);
                    }
                    true
                } else {
                    f1.move_focus(buffers)
                }
            },
            None => false,
        }
    }

    /// Collapses every internal frame that has a hidden child into the
    /// shown one and gives focus again where that happened.
    pub fn clean_removed_frame(&mut self, buffers: &Vec<Buffer>)
        requires
            old(self).tree_wf(buffers@.len()),
            old(self).prunable(),
            all_wf(buffers@),
        ensures
            *final(self) == old(self).pruned(buffers@),
        decreases old(self).depth(),
    {
        match &mut self.inner_frames {
            Some((f0, f1)) => {
                if f0.show && f1.show {
                    f0.clean_removed_frame(buffers);
                    f1.clean_removed_frame(buffers);
                    return;
                }
            },
            None => {
                return;
            },
        }
        let mut inner: Option<(Box<Frame>, Box<Frame>)> = None;
        std::mem::swap(&mut inner, &mut self.inner_frames);
        match inner {
            Some((f0, f1)) => {
                let survivor = if f0.show { *f0 } else { *f1 };
                proof {
                    assert(survivor.tree_wf(buffers@.len()));
                }
                if survivor.inner_frames.is_some() {
                    self.inner_frames = survivor.inner_frames;
                    self.split_direction = survivor.split_direction;
                } else {
                    self.buffer = survivor.buffer;
                }
                proof {
                    assert(*self == old(self).adopt(survivor));
                    assert(self.tree_wf(buffers@.len()));
                }
            },
            None => {},
        }
        self.set_focus(buffers);
    }

    /// Recomputes the offset so that the cursor lies within `rect`.
    pub fn adjust_offset(&mut self, rect: &Rect)
        ensures
            *final(self) == (Frame { offset: adjusted_offset(*old(self), *rect), ..*old(self) }),
            final(self).offset.0 <= old(self).cursor.0,
            final(self).offset.1 <= old(self).cursor.1,
            old(self).cursor.0 - final(self).offset.0 < rect.width
                || final(self).offset.0 == old(self).cursor.0,
            old(self).cursor.1 - final(self).offset.1 < rect.height
                || final(self).offset.1 == old(self).cursor.1,
    {
        let x = adjust_axis(self.offset.0, self.cursor.0, rect.width, self.border_flag.right);
        let y = adjust_axis(self.offset.1, self.cursor.1, rect.height, self.border_flag.bottom);
        self.offset = (x, y);
    }

    /// Some internal frame below splits along `d`.
    pub open spec fn splits_along(&self, d: Direction) -> bool
        decreases self,
    {
        match self.inner_frames {
            Some((f0, f1)) => self.split_direction == d || f0.splits_along(d) || f1.splits_along(d),
            None => false,
        }
    }

    /// `r` can be split wherever the tree below splits: its edges do not
    /// saturate, and it is narrow enough along each direction that some
    /// internal frame splits along.
    pub open spec fn render_fits(&self, r: Rect) -> bool {
        !self.is_leaf() ==> {
            &&& unsaturated(r)
            &&& self.splits_along(Direction::Horizontal) ==> r.width <= MAX_SPLIT_EXTENT
            &&& self.splits_along(Direction::Vertical) ==> r.height <= MAX_SPLIT_EXTENT
        }
    }

    /// A render pass in `r`: updates the offsets and returns, leaf by leaf,
    /// what is to be drawn where. An internal frame splits its rectangle in
    /// halves along its direction.
    pub fn render(&mut self, r: Rect) -> (items: Vec<RenderItem>)
        requires
            old(self).render_fits(r),
        ensures
            (*final(self), items@) == old(self).rendered(r),
            items@.len() == old(self).leaf_count(),
            with_cursor_items(items@).len() == old(self).focus_count(),
        decreases old(self).depth(),
    {
        proof {
            lemma_rendered_counts(*old(self), r);
        }
        self.adjust_offset(&r);
        let direction = self.split_direction;
        match &mut self.inner_frames {
            Some((f0, f1)) => {
                let chunks = split_layout(r, direction, HALF_PERCENT, HALF_PERCENT);
                let r0 = chunks[0];
                let r1 = chunks[1];
                proof {
                    lemma_splits_along_children(*old(self));
                }
                let mut items = f0.render(r0);
                let mut rest = f1.render(r1);
                items.append(&mut rest);
                items
            },
            None => {
                let cursor = if self.focus {
                    Some(
                        (
                            self.cursor.0 - self.offset.0 + r.x as usize,
                            self.cursor.1 - self.offset.1 + r.y as usize,
                        ),
                    )
                } else {
                    None
                };
                let mut items: Vec<RenderItem> = Vec::new();
                items.push((r, self.buffer, self.border_flag, self.offset, cursor));
                assert(items@ =~= old(self).rendered(r).1);
                items
            },
        }
    }

    /// Shows buffer `new_buffer` from its start; returns the buffer shown before.
    pub fn replace_buffer(&mut self, new_buffer: usize) -> (r: usize)
        ensures
            r == old(self).buffer,
            *final(self) == (Frame { buffer: new_buffer, cursor: (0, 0), ..*old(self) }),
    {
        let old_buffer = self.buffer;
        self.buffer = new_buffer;
        self.cursor = (0, 0);
        old_buffer
    }

    /// Hides the frame and takes its focus; returns its buffer.
    pub fn release_buffer(&mut self) -> (r: usize)
        ensures
            r == old(self).buffer,
            *final(self) == (Frame { show: false, focus: false, ..*old(self) }),
    {
        self.show = false;
        self.focus = false;
        self.buffer
    }

    pub fn is_shown(&self) -> (r: bool)
        ensures
            r == self.show,
    {
        self.show
    }
}

/// An operation on the focused leaf.
pub enum Action {
    Move(Motion),
    NewChar(char),
    NewLine,
    Tab,
    Backspace,
    Delete,
    Kill,
    Paste(Vec<char>),
    Split(Direction),
    ReplaceBuffer(usize),
    ToggleXMode(bool),
    Release,
}

/// The action leaves a leaf in place on the same buffer.
pub open spec fn keeps_leaf(a: Action) -> bool {
    !(a is Split || a is ReplaceBuffer || a is Release)
}

/// The action may change the text.
pub open spec fn edits_text(a: Action) -> bool {
    a is NewChar || a is NewLine || a is Tab || a is Backspace || a is Delete || a is Kill
        || a is Paste
}

/// A leaf after action `a` on text `lines`: the leaf, the text, and what
/// the action yields.
pub open spec fn leaf_acted(f: Frame, lines: Seq<Seq<char>>, a: Action) -> (
    Frame,
    Seq<Seq<char>>,
    Option<Seq<char>>,
) {
    match a {
        Action::Move(m) => (f.with_cursor(moved(m, f.cursor, lines)), lines, None),
        Action::NewChar(ch) => {
            let (l, c) = after_char(lines, f.cursor, ch);
            (f.with_cursor(c), l, None)
        },
        Action::NewLine => {
            let (l, c) = after_newline(lines, f.cursor);
            (f.with_cursor(c), l, None)
        },
        Action::Tab => {
            let (l, c) = after_tab(lines, f.cursor);
            (f.with_cursor(c), l, None)
        },
        Action::Backspace => {
            let (l, c) = after_backspace(lines, f.cursor);
            (f.with_cursor(c), l, None)
        },
        Action::Delete => (f, after_delete(lines, f.cursor), None),
        Action::Kill => {
            let (l, o) = after_kill(lines, f.cursor);
            (f, l, o)
        },
        Action::Paste(s) => {
            let (l, c) = after_paste(lines, f.cursor, s@);
            (f.with_cursor(c), l, None)
        },
        Action::Split(d) => (f.spec_split(d), lines, None),
        Action::ReplaceBuffer(b) => (Frame { buffer: b, cursor: (0, 0), ..f }, lines, None),
        Action::ToggleXMode(x) => (Frame { x_mode: x, ..f }, lines, None),
        Action::Release => (Frame { show: false, focus: false, ..f }, lines, None),
    }
}

impl Frame {
    /// The tree with its focused leaf replaced by `g`.
    pub open spec fn with_focus_leaf(self, g: Frame) -> Frame
        decreases self,
    {
        match self.inner_frames {
            Some((f0, f1)) => if f0.spec_has_focus() {
                Frame { inner_frames: Some((Box::new(f0.with_focus_leaf(g)), f1)), ..self }
            } else {
                Frame { inner_frames: Some((f0, Box::new(f1.with_focus_leaf(g)))), ..self }
            },
            None => g,
        }
    }

    /// Every frame of the tree is shown.
    pub open spec fn all_shown(&self) -> bool
        decreases self,
    {
        self.show && match self.inner_frames {
            Some((f0, f1)) => f0.all_shown() && f1.all_shown(),
            None => true,
        }
    }

    /// Performs `a` on this leaf and its buffer.
    pub fn act(&mut self, buf: &mut Buffer, a: &Action) -> (r: Option<Vec<char>>)
        requires
            old(self).leaf_on(old(buf)@),
        ensures
            (*final(self), final(buf)@, opt_chars(r)) == leaf_acted(*old(self), old(buf)@, *a),
            final(buf).wf(),
            keeps_leaf(*a) ==> final(self).leaf_on(final(buf)@),
            !edits_text(*a) ==> *final(buf) == *old(buf),
    {
        match a {
            Action::Move(m) => {
                self.apply_motion(buf, *m);
                None
            },
            Action::NewChar(c) => {
                self.new_char(buf, *c);
                None
            },
            Action::NewLine => {
                self.new_line(buf);
                None
            },
            Action::Tab => {
                self.tab(buf);
                None
            },
            Action::Backspace => {
                self.backspace(buf);
                None
            },
            Action::Delete => {
                self.delete(buf);
                None
            },
            Action::Kill => self.kill(buf),
            Action::Paste(s) => {
                self.paste(buf, s);
                None
            },
            Action::Split(d) => {
                self.split(*d);
                None
            },
            Action::ReplaceBuffer(b) => {
                self.replace_buffer(*b);
                None
            },
            Action::ToggleXMode(x) => {
                self.toggle_x_mode(*x);
                None
            },
            Action::Release => {
                self.release_buffer();
                None
            },
        }
    }

    /// Performs `a` on the focused leaf and the buffer it shows.
    pub fn act_on_focus(&mut self, buffers: &mut Vec<Buffer>, a: &Action) -> (r: Option<Vec<char>>)
        requires
            old(self).spec_has_focus(),
            old(self).tree_wf(old(buffers)@.len()),
            all_wf(old(buffers)@),
            old(self).focus_leaf().leaf_on(old(buffers)@[old(self).focus_leaf().buffer as int]@),
        ensures
            ({
                let leaf = old(self).focus_leaf();
                let (g, lines, out) = leaf_acted(leaf, old(buffers)@[leaf.buffer as int]@, *a);
                &&& *final(self) == old(self).with_focus_leaf(g)
                &&& texts(final(buffers)@) == texts(old(buffers)@).update(leaf.buffer as int, lines)
                &&& opt_chars(r) == out
                &&& keeps_leaf(*a) ==> g.leaf_on(lines)
            }),
            !edits_text(*a) ==> final(buffers)@ == old(buffers)@,
            final(buffers)@.len() == old(buffers)@.len(),
            all_wf(final(buffers)@),
        decreases old(self).depth(),
    {
        match &mut self.inner_frames {
            Some((f0, f1)) => {
                if f0.has_focus() {
                    f0.act_on_focus(buffers, a)
                } else {
                    f1.act_on_focus(buffers, a)
                }
            },
            None => {
                let b = self.buffer;
                let mut buf = Buffer::new();
                buffers.set_and_swap(b, &mut buf);
                let r = self.act(&mut buf, a);
                buffers.set_and_swap(b, &mut buf);
                proof {
                    let leaf = old(self).focus_leaf();
                    let lines = leaf_acted(leaf, old(buffers)@[leaf.buffer as int]@, *a).1;
                    assert(texts(buffers@) =~= texts(old(buffers)@).update(b as int, lines));
                    if !edits_text(*a) {
                        assert(buffers@ =~= old(buffers)@);
                    }
                    assert forall|i: int| 0 <= i < buffers@.len() implies (#[trigger] buffers@[i]).wf() by {
                        if i != b {
                            assert(old(buffers)@[i].wf());
                        }
                    }
                }
                r
            },
        }
    }
}

impl Frame {
    /// Exactly one leaf holds focus, and its cursor is valid on its buffer.
    pub open spec fn focus_ok(&self, bufs: Seq<Buffer>) -> bool {
        &&& self.focus_count() == 1
        &&& self.focus_leaf().leaf_on(bufs[self.focus_leaf().buffer as int]@)
    }

    /// No leaf but the first holds focus.
    pub open spec fn rest_unfocused(&self) -> bool
        decreases self,
    {
        match self.inner_frames {
            Some((f0, f1)) => f0.rest_unfocused() && f1.focus_count() == 0,
            None => true,
        }
    }
}

pub proof fn lemma_has_focus_count(f: Frame)
    ensures
        f.spec_has_focus() <==> f.focus_count() > 0,
        f.focus_count() > 0 ==> f.focus_leaf().is_leaf() && f.focus_leaf().focus,
        f.focus_count() == 0 ==> f.rest_unfocused(),
    decreases f,
{
    match f.inner_frames {
        Some((f0, f1)) => {
            lemma_has_focus_count(*f0);
            lemma_has_focus_count(*f1);
        },
        None => {},
    }
}

pub proof fn lemma_clamped_valid(c: Cursor, lines: Seq<Seq<char>>)
    requires
        lines.len() > 0,
    ensures
        valid_cursor(clamped(c, lines), lines),
{
}

pub proof fn lemma_focused_first(f: Frame, bufs: Seq<Buffer>)
    requires
        f.tree_wf(bufs.len()),
        all_wf(bufs),
        f.rest_unfocused(),
    ensures
        f.focused_first(bufs).focus_ok(bufs),
        f.focused_first(bufs).tree_wf(bufs.len()),
        f.all_shown() ==> f.focused_first(bufs).all_shown(),
        f.focused_first(bufs).has_parent == f.has_parent,
    decreases f,
{
    match f.inner_frames {
        Some((f0, f1)) => {
            lemma_focused_first(*f0, bufs);
            lemma_has_focus_count(f0.focused_first(bufs));
        },
        None => {
            assert(bufs[f.buffer as int].wf());
            lemma_clamped_valid(f.cursor, bufs[f.buffer as int]@);
        },
    }
}

pub proof fn lemma_cleared(f: Frame, n: nat)
    ensures
        f.cleared().focus_count() == 0,
        f.tree_wf(n) ==> f.cleared().tree_wf(n),
        f.all_shown() ==> f.cleared().all_shown(),
        f.cleared().has_parent == f.has_parent,
    decreases f,
{
    match f.inner_frames {
        Some((f0, f1)) => {
            lemma_cleared(*f0, n);
            lemma_cleared(*f1, n);
        },
        None => {},
    }
}

pub proof fn lemma_moved_focus(f: Frame, bufs: Seq<Buffer>)
    requires
        f.tree_wf(bufs.len()),
        all_wf(bufs),
        f.focus_ok(bufs),
    ensures
        f.moved_focus(bufs).0.tree_wf(bufs.len()),
        f.all_shown() ==> f.moved_focus(bufs).0.all_shown(),
        f.moved_focus(bufs).0.has_parent == f.has_parent,
        f.moved_focus(bufs).1 ==> f.moved_focus(bufs).0.focus_ok(bufs),
        !f.moved_focus(bufs).1 ==> f.moved_focus(bufs).0 == f,
    decreases f,
{
    match f.inner_frames {
        Some((f0, f1)) => {
            lemma_has_focus_count(*f0);
            lemma_has_focus_count(*f1);
            if f0.spec_has_focus() {
                lemma_moved_focus(*f0, bufs);
                let (g0, moved) = f0.moved_focus(bufs);
                if moved {
                    lemma_has_focus_count(g0);
                } else {
                    lemma_cleared(g0, bufs.len());
                    lemma_focused_first(*f1, bufs);
                    lemma_has_focus_count(g0.cleared());
                    lemma_has_focus_count(f1.focused_first(bufs));
                }
            } else {
                lemma_moved_focus(*f1, bufs);
                let (g1, moved) = f1.moved_focus(bufs);
                lemma_has_focus_count(g1);
                if !moved {
                    assert(Box::new(g1) == f1);
                    assert(f.moved_focus(bufs).0 =~= f);
                }
            }
        },
        None => {},
    }
}

pub proof fn lemma_with_focus_leaf(f: Frame, g: Frame, n: nat)
    requires
        f.focus_count() == 1,
    ensures
        g.tree_wf(n) && (f.is_leaf() || g.has_parent) && f.tree_wf(n) ==> f.with_focus_leaf(g).tree_wf(n),
        f.with_focus_leaf(g).focus_count() == g.focus_count(),
        g.focus_count() > 0 ==> f.with_focus_leaf(g).focus_leaf() == g.focus_leaf(),
        f.all_shown() && g.all_shown() ==> f.with_focus_leaf(g).all_shown(),
        f.with_focus_leaf(g).has_parent == if f.is_leaf() { g.has_parent } else { f.has_parent },
        f.with_focus_leaf(g).show == if f.is_leaf() { g.show } else { f.show },
        f.with_focus_leaf(g).is_leaf() == (f.is_leaf() && g.is_leaf()),
        f.tree_wf(n) && !f.is_leaf() ==> f.focus_leaf().has_parent,
        f.tree_wf(n) ==> f.focus_leaf().tree_wf(n),
        f.all_shown() ==> f.focus_leaf().all_shown(),
    decreases f,
{
    match f.inner_frames {
        Some((f0, f1)) => {
            lemma_has_focus_count(*f0);
            lemma_has_focus_count(*f1);
            if f0.spec_has_focus() {
                lemma_with_focus_leaf(*f0, g, n);
                lemma_has_focus_count(f0.with_focus_leaf(g));
            } else {
                lemma_with_focus_leaf(*f1, g, n);
            }
        },
        None => {},
    }
}

pub proof fn lemma_all_shown_pruned(f: Frame, bufs: Seq<Buffer>)
    requires
        f.all_shown(),
    ensures
        f.prunable(),
        f.pruned(bufs) == f,
    decreases f,
{
    match f.inner_frames {
        Some((f0, f1)) => {
            assert(f0.all_shown() && f1.all_shown());
            lemma_all_shown_pruned(*f0, bufs);
            lemma_all_shown_pruned(*f1, bufs);
            assert(f0.show && f1.show);
            assert(Box::new(f0.pruned(bufs)) == f0);
            assert(Box::new(f1.pruned(bufs)) == f1);
            assert(f.pruned(bufs) =~= f);
        },
        None => {},
    }
}

/// The focused leaf hidden, without focus.
pub open spec fn hidden(f: Frame) -> Frame {
    Frame { show: false, focus: false, ..f }
}

pub proof fn lemma_prune_hidden(f: Frame, bufs: Seq<Buffer>)
    requires
        f.tree_wf(bufs.len()),
        all_wf(bufs),
        f.all_shown(),
        f.focus_count() == 1,
        !f.is_leaf(),
    ensures
        f.with_focus_leaf(hidden(f.focus_leaf())).prunable(),
        f.with_focus_leaf(hidden(f.focus_leaf())).tree_wf(bufs.len()),
        f.with_focus_leaf(hidden(f.focus_leaf())).pruned(bufs).focus_ok(bufs),
        f.with_focus_leaf(hidden(f.focus_leaf())).pruned(bufs).tree_wf(bufs.len()),
        f.with_focus_leaf(hidden(f.focus_leaf())).pruned(bufs).all_shown(),
        f.with_focus_leaf(hidden(f.focus_leaf())).pruned(bufs).has_parent == f.has_parent,
    decreases f,
{
    let n = bufs.len();
    let h = hidden(f.focus_leaf());
    let t = f.with_focus_leaf(h);
    lemma_with_focus_leaf(f, f.focus_leaf(), n);
    assert(h.tree_wf(n));
    match f.inner_frames {
        Some((f0, f1)) => {
            lemma_has_focus_count(*f0);
            lemma_has_focus_count(*f1);
            lemma_with_focus_leaf(f, h, n);
            if f0.spec_has_focus() {
                lemma_with_focus_leaf(*f0, h, n);
                lemma_all_shown_pruned(*f1, bufs);
                if f0.is_leaf() {
                    let a = t.adopt(*f1);
                    assert(f1.tree_wf(n));
                    match f1.inner_frames {
                        Some((c0, c1)) => {
                            lemma_has_focus_count(*c0);
                            lemma_has_focus_count(*c1);
                        },
                        None => {},
                    }
                    assert(a.tree_wf(n));
                    assert(f0.all_shown() && f1.all_shown());
                    assert(a.all_shown());
                    lemma_focused_first(a, bufs);
                } else {
                    lemma_prune_hidden(*f0, bufs);
                    let p0 = f0.with_focus_leaf(h).pruned(bufs);
                    lemma_has_focus_count(p0);
                    assert(t.inner_frames == Some((Box::new(f0.with_focus_leaf(h)), f1)));
                    assert(f0.all_shown() && f1.all_shown());
                    assert(f0.show && f1.show);
                    assert(f0.with_focus_leaf(h).show && f1.show);
                    assert(t.pruned(bufs).inner_frames == Some(
                        (Box::new(p0), Box::new(f1.pruned(bufs))),
                    ));
                    assert(p0.spec_has_focus());
                    assert(t.pruned(bufs).focus_leaf() == p0.focus_leaf());
                    assert(f1.all_shown());
                }
            } else {
                lemma_with_focus_leaf(*f1, h, n);
                lemma_all_shown_pruned(*f0, bufs);
                if f1.is_leaf() {
                    let a = t.adopt(*f0);
                    assert(f0.tree_wf(n));
                    match f0.inner_frames {
                        Some((c0, c1)) => {
                            lemma_has_focus_count(*c0);
                            lemma_has_focus_count(*c1);
                        },
                        None => {},
                    }
                    assert(a.tree_wf(n));
                    assert(f0.all_shown() && f1.all_shown());
                    assert(a.all_shown());
                    lemma_focused_first(a, bufs);
                } else {
                    lemma_prune_hidden(*f1, bufs);
                    let p1 = f1.with_focus_leaf(h).pruned(bufs);
                    lemma_has_focus_count(p1);
                    assert(t.inner_frames == Some((f0, Box::new(f1.with_focus_leaf(h)))));
                    assert(f0.all_shown() && f1.all_shown());
                    assert(f0.show && f1.show);
                    assert(f1.with_focus_leaf(h).show && f0.show);
                    assert(t.pruned(bufs).inner_frames == Some(
                        (Box::new(f0.pruned(bufs)), Box::new(p1)),
                    ));
                    assert(t.pruned(bufs).focus_leaf() == p1.focus_leaf());
                    assert(f0.all_shown());
                }
            }
        },
        None => {},
    }
}

impl Frame {
    /// The number of leaves.
    pub open spec fn leaf_count(&self) -> nat
        decreases self,
    {
        match self.inner_frames {
            Some((f0, f1)) => f0.leaf_count() + f1.leaf_count(),
            None => 1,
        }
    }

    /// The position of the focused leaf among the leaves, first child first.
    pub open spec fn focus_pos(&self) -> nat
        decreases self,
    {
        match self.inner_frames {
            Some((f0, f1)) => if f0.spec_has_focus() {
                f0.focus_pos()
            } else {
                f0.leaf_count() + f1.focus_pos()
            },
            None => 0,
        }
    }
}

pub proof fn lemma_leaf_count_pos(f: Frame)
    ensures
        f.leaf_count() >= 1,
        f.focus_pos() < f.leaf_count(),
    decreases f,
{
    match f.inner_frames {
        Some((f0, f1)) => {
            lemma_leaf_count_pos(*f0);
            lemma_leaf_count_pos(*f1);
        },
        None => {},
    }
}

pub proof fn lemma_focused_first_pos(f: Frame, bufs: Seq<Buffer>)
    requires
        f.tree_wf(bufs.len()),
        all_wf(bufs),
        f.rest_unfocused(),
    ensures
        f.focused_first(bufs).focus_pos() == 0,
        f.focused_first(bufs).leaf_count() == f.leaf_count(),
    decreases f,
{
    match f.inner_frames {
        Some((f0, f1)) => {
            lemma_focused_first_pos(*f0, bufs);
            lemma_focused_first(*f0, bufs);
            lemma_has_focus_count(f0.focused_first(bufs));
        },
        None => {},
    }
}

pub proof fn lemma_cleared_count(f: Frame)
    ensures
        f.cleared().leaf_count() == f.leaf_count(),
    decreases f,
{
    match f.inner_frames {
        Some((f0, f1)) => {
            lemma_cleared_count(*f0);
            lemma_cleared_count(*f1);
        },
        None => {},
    }
}

pub proof fn lemma_moved_focus_pos(f: Frame, bufs: Seq<Buffer>)
    requires
        f.tree_wf(bufs.len()),
        all_wf(bufs),
        f.focus_ok(bufs),
    ensures
        f.moved_focus(bufs).0.leaf_count() == f.leaf_count(),
        f.moved_focus(bufs).1 ==> f.moved_focus(bufs).0.focus_pos() == f.focus_pos() + 1,
        !f.moved_focus(bufs).1 ==> f.focus_pos() + 1 == f.leaf_count(),
    decreases f,
{
    match f.inner_frames {
        Some((f0, f1)) => {
            lemma_has_focus_count(*f0);
            lemma_has_focus_count(*f1);
            lemma_leaf_count_pos(*f0);
            lemma_leaf_count_pos(*f1);
            if f0.spec_has_focus() {
                lemma_moved_focus(*f0, bufs);
                lemma_moved_focus_pos(*f0, bufs);
                let (g0, moved) = f0.moved_focus(bufs);
                if moved {
                    lemma_has_focus_count(g0);
                } else {
                    lemma_cleared(g0, bufs.len());
                    lemma_cleared_count(g0);
                    lemma_has_focus_count(g0.cleared());
                    lemma_focused_first(*f1, bufs);
                    lemma_focused_first_pos(*f1, bufs);
                }
            } else {
                lemma_moved_focus(*f1, bufs);
                lemma_moved_focus_pos(*f1, bufs);
            }
        },
        None => {},
    }
}
pub proof fn lemma_tree_wf_grows(f: Frame, n: nat, m: nat)
    requires
        f.tree_wf(n),
        n <= m,
    ensures
        f.tree_wf(m),
    decreases f,
{
    match f.inner_frames {
        Some((f0, f1)) => {
            lemma_tree_wf_grows(*f0, n, m);
            lemma_tree_wf_grows(*f1, n, m);
        },
        None => {},
    }
}

pub proof fn lemma_splits_along_children(f: Frame)
    requires
        !f.is_leaf(),
    ensures
        ({
            let (f0, f1) = f.inner_frames->Some_0;
            &&& f.splits_along(f.split_direction)
            &&& forall|d: Direction| #[trigger] f0.splits_along(d) ==> f.splits_along(d)
            &&& forall|d: Direction| #[trigger] f1.splits_along(d) ==> f.splits_along(d)
        }),
{
}

pub proof fn lemma_rendered_counts(f: Frame, r: Rect)
    ensures
        f.rendered(r).1.len() == f.leaf_count(),
        with_cursor_items(f.rendered(r).1).len() == f.focus_count(),
    decreases f,
{
    match f.inner_frames {
        Some((f0, f1)) => {
            let h = halves(r, f.split_direction);
            lemma_rendered_counts(*f0, h[0]);
            lemma_rendered_counts(*f1, h[1]);
            Seq::filter_distributes_over_add(
                f0.rendered(h[0]).1,
                f1.rendered(h[1]).1,
                |it: RenderItem| it.4 is Some,
            );
        },
        None => {
            let items = f.rendered(r).1;
            reveal_with_fuel(Seq::filter, 2);
            assert(items.drop_last() =~= Seq::<RenderItem>::empty());
        },
    }
}

} // verus!
