use vstd::prelude::*;

verus! {

/// A (column, line) pair, both zero-based.
pub type Cursor = (usize, usize);

/// The indentation that `Frame::tab` puts at the start of a line.
pub const TAB_WIDTH: usize = 4;

/// The characters of the indentation string.
pub open spec fn tab_chars() -> Seq<char> {
    seq![' ', ' ', ' ', ' ']
}

/// The indentation string, as characters.
pub fn tab() -> (r: Vec<char>)
    ensures
        r@ == tab_chars(),
{
    let r: Vec<char> = vec![' ', ' ', ' ', ' '];
    assert(r@ =~= tab_chars());
    r
}

/// A column of a line that is either a fixed index or the line's right edge.
#[derive(Debug, Clone, Copy, PartialEq, Eq, Structural)]
pub enum FlexiblePosition {
    Idx(usize),
    Edge,
}

impl FlexiblePosition {
    /// The sum of two positions: the sum of the indices when both are
    /// indices, else the edge.
    pub open spec fn spec_add(self, other: FlexiblePosition) -> Option<FlexiblePosition> {
        match (self, other) {
            (FlexiblePosition::Idx(a), FlexiblePosition::Idx(b)) => if a + b <= usize::MAX {
                Some(FlexiblePosition::Idx((a + b) as usize))
            } else {
                None
            },
            _ => Some(FlexiblePosition::Edge),
        }
    }

    /// Adds two positions; two indices add up, anything with an edge is the edge.
    pub fn add(self, other: FlexiblePosition) -> (r: FlexiblePosition)
        requires
            self.spec_add(other) is Some,
        ensures
            Some(r) == self.spec_add(other),
    {
        match (self, other) {
            (FlexiblePosition::Idx(a), FlexiblePosition::Idx(b)) => FlexiblePosition::Idx(a + b),
            _ => FlexiblePosition::Edge,
        }
    }
}

#[verifier::external_type_specification]
#[verifier::external_body]
pub struct ExColor(tui::style::Color);

/// A decoration of part of a line, carried along with a buffer and handed to
/// the drawing side as it is.
#[derive(Debug, Clone, Copy)]
pub struct StyleRange {
    pub line: usize,
    pub start: FlexiblePosition,
    pub end: FlexiblePosition,
    pub color: tui::style::Color,
    pub foreground: bool,
}

/// A column at which a cursor may stand on `lines`: on an existing line, at
/// most one past its last character.
pub open spec fn valid_cursor(c: Cursor, lines: Seq<Seq<char>>) -> bool {
    c.1 < lines.len() && c.0 <= lines[c.1 as int].len()
}

/// The lines joined with a line break between each two.
pub open spec fn joined(lines: Seq<Seq<char>>) -> Seq<char>
    decreases lines.len(),
{
    if lines.len() == 0 {
        Seq::empty()
    } else if lines.len() == 1 {
        lines[0]
    } else {
        joined(lines.drop_last()) + seq!['\n'] + lines.last()
    }
}

/// An editable sequence of text lines.
pub struct Buffer {
    lines: Vec<Vec<char>>,
}

impl View for Buffer {
    type V = Seq<Seq<char>>;

    closed spec fn view(&self) -> Seq<Seq<char>> {
        self.lines@.map_values(|l: Vec<char>| l@)
    }
}

impl Buffer {
    /// A buffer holds at least one line.
    pub open spec fn wf(&self) -> bool {
        self@.len() > 0
    }

    /// A buffer of one empty line.
    pub fn new() -> (r: Buffer)
        ensures
            r@ == seq![Seq::<char>::empty()],
            r.wf(),
    {
        let mut lines: Vec<Vec<char>> = Vec::new();
        lines.push(Vec::new());
        let r = Buffer { lines };
        assert(r@ =~= seq![Seq::<char>::empty()]);
        r
    }

    /// The whole text, lines separated by a line break.
    pub fn text_full(&self) -> (r: Vec<char>)
        ensures
            r@ == joined(self@),
    {
        let mut r: Vec<char> = Vec::new();
        let mut i: usize = 0;
        while i < self.lines.len()
            invariant
                i <= self.lines@.len(),
                self@.len() == self.lines@.len(),
                r@ == joined(self@.take(i as int)),
            decreases self.lines@.len() - i,
        {
            proof {
                assert(self@.take(i as int + 1).drop_last() =~= self@.take(i as int));
            }
            if i > 0 {
                r.push('\n');
            }
            let line = &self.lines[i];
            let mut j: usize = 0;
            let ghost start = r@;
            while j < line.len()
                invariant
                    j <= line@.len(),
                    r@ == start + line@.take(j as int),
                decreases line@.len() - j,
            {
                r.push(line[j]);
                j += 1;
                proof {
                    assert(r@ =~= start + line@.take(j as int));
                }
            }
            proof {
                assert(line@.take(j as int) =~= line@);
                assert(self@[i as int] == line@);
                if i == 0 {
                    assert(start =~= Seq::<char>::empty());
                    assert(r@ =~= self@.take(1)[0]);
                }
            }
            i += 1;
        }
        proof {
            assert(self@.take(i as int) =~= self@);
        }
        r
    }

    /// The characters of line `idx`.
    pub fn line(&self, idx: usize) -> (r: &Vec<char>)
        requires
            idx < self@.len(),
        ensures
            r@ == self@[idx as int],
    {
        &self.lines[idx]
    }

    pub fn lines_len(&self) -> (r: usize)
        ensures
            r == self@.len(),
    {
        self.lines.len()
    }

    /// The length of the line that the cursor is on.
    pub fn line_len(&self, cursor: Cursor) -> (r: usize)
        requires
            cursor.1 < self@.len(),
        ensures
            r == self@[cursor.1 as int].len(),
    {
        self.lines[cursor.1].len()
    }

    pub fn line_len_idx(&self, idx: usize) -> (r: usize)
        requires
            idx < self@.len(),
        ensures
            r == self@[idx as int].len(),
    {
        self.lines[idx].len()
    }

    /// Takes line `l` out, leaving an empty line in its place.
    fn take_line(&mut self, l: usize) -> (r: Vec<char>)
        requires
            l < old(self)@.len(),
        ensures
            r@ == old(self)@[l as int],
            final(self)@ == old(self)@.update(l as int, Seq::empty()),
    {
        let mut line: Vec<char> = Vec::new();
        self.lines.set_and_swap(l, &mut line);
        assert(self@ =~= old(self)@.update(l as int, Seq::empty()));
        line
    }

    /// Puts `line` in place of line `l`.
    fn put_line(&mut self, l: usize, line: Vec<char>)
        requires
            l < old(self)@.len(),
        ensures
            final(self)@ == old(self)@.update(l as int, line@),
    {
        self.lines.set(l, line);
        assert(self@ =~= old(self)@.update(l as int, line@));
    }

    /// Inserts `c` at the cursor's column of the cursor's line.
    pub fn insert_char(&mut self, cursor: Cursor, c: char)
        requires
            valid_cursor(cursor, old(self)@),
        ensures
            final(self)@ == old(self)@.update(
                cursor.1 as int,
                old(self)@[cursor.1 as int].insert(cursor.0 as int, c),
            ),
    {
        let mut line = self.take_line(cursor.1);
        line.insert(cursor.0, c);
        self.put_line(cursor.1, line);
    }

    /// Inserts `s` at the cursor without splitting the line.
    pub fn insert_str(&mut self, cursor: Cursor, s: &Vec<char>)
        requires
            valid_cursor(cursor, old(self)@),
        ensures
            final(self)@ == old(self)@.update(
                cursor.1 as int,
                old(self)@[cursor.1 as int].take(cursor.0 as int) + s@ + old(
                    self,
                )@[cursor.1 as int].skip(cursor.0 as int),
            ),
    {
        let mut line = self.take_line(cursor.1);
        let mut rest = line.split_off(cursor.0);
        let mut i: usize = 0;
        let ghost prefix = line@;
        while i < s.len()
            invariant
                i <= s@.len(),
                line@ == prefix + s@.take(i as int),
            decreases s@.len() - i,
        {
            line.push(s[i]);
            i += 1;
            assert(line@ =~= prefix + s@.take(i as int));
        }
        assert(s@.take(i as int) =~= s@);
        line.append(&mut rest);
        self.put_line(cursor.1, line);
    }

    /// Inserts a new line holding `s` at line index `cursor.1`.
    pub fn insert_line(&mut self, cursor: Cursor, s: &Vec<char>)
        requires
            cursor.1 <= old(self)@.len(),
        ensures
            final(self)@ == old(self)@.insert(cursor.1 as int, s@),
    {
        let line = s.clone();
        assert(line@ =~= s@);
        self.lines.insert(cursor.1, line);
        assert(self@ =~= old(self)@.insert(cursor.1 as int, s@));
    }

    /// Appends `s` to the end of the cursor's line.
    pub fn push_str(&mut self, cursor: Cursor, s: &Vec<char>)
        requires
            cursor.1 < old(self)@.len(),
        ensures
            final(self)@ == old(self)@.update(cursor.1 as int, old(self)@[cursor.1 as int] + s@),
    {
        let mut line = self.take_line(cursor.1);
        let mut tail = s.clone();
        assert(tail@ =~= s@);
        line.append(&mut tail);
        self.put_line(cursor.1, line);
    }

    /// Removes the character at the cursor.
    pub fn remove_char(&mut self, cursor: Cursor)
        requires
            cursor.1 < old(self)@.len(),
            cursor.0 < old(self)@[cursor.1 as int].len(),
        ensures
            final(self)@ == old(self)@.update(
                cursor.1 as int,
                old(self)@[cursor.1 as int].remove(cursor.0 as int),
            ),
    {
        let mut line = self.take_line(cursor.1);
        line.remove(cursor.0);
        self.put_line(cursor.1, line);
    }

    /// Removes line `cursor.1` and returns it.
    pub fn delete_line(&mut self, cursor: Cursor) -> (r: Vec<char>)
        requires
            cursor.1 < old(self)@.len(),
        ensures
            r@ == old(self)@[cursor.1 as int],
            final(self)@ == old(self)@.remove(cursor.1 as int),
    {
        let r = self.lines.remove(cursor.1);
        assert(self@ =~= old(self)@.remove(cursor.1 as int));
        r
    }

    /// Cuts the cursor's line at the cursor: keeps the part before it and
    /// returns the rest.
    pub fn split_off(&mut self, cursor: Cursor) -> (r: Vec<char>)
        requires
            valid_cursor(cursor, old(self)@),
        ensures
            r@ == old(self)@[cursor.1 as int].skip(cursor.0 as int),
            final(self)@ == old(self)@.update(
                cursor.1 as int,
                old(self)@[cursor.1 as int].take(cursor.0 as int),
            ),
    {
        let mut line = self.take_line(cursor.1);
        let r = line.split_off(cursor.0);
        assert(line@ =~= old(self)@[cursor.1 as int].take(cursor.0 as int));
        assert(r@ =~= old(self)@[cursor.1 as int].skip(cursor.0 as int));
        self.put_line(cursor.1, line);
        r
    }

    /// Removes and returns the part of the cursor's line before the cursor.
    pub fn remove_front(&mut self, cursor: Cursor) -> (r: Vec<char>)
        requires
            valid_cursor(cursor, old(self)@),
        ensures
            r@ == old(self)@[cursor.1 as int].take(cursor.0 as int),
            final(self)@ == old(self)@.update(
                cursor.1 as int,
                old(self)@[cursor.1 as int].skip(cursor.0 as int),
            ),
    {
        let mut line = self.take_line(cursor.1);
        let rest = line.split_off(cursor.0);
        assert(line@ =~= old(self)@[cursor.1 as int].take(cursor.0 as int));
        assert(rest@ =~= old(self)@[cursor.1 as int].skip(cursor.0 as int));
        self.put_line(cursor.1, rest);
        line
    }
}

} // verus!
