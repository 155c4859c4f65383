use vstd::prelude::*;
use crate::buffer::{Buffer, Cursor, valid_cursor};
use crate::window::{cycled_n, lemma_cycle_step};
use crate::frame::{
    Direction, Frame, Motion, after_backspace, after_char, after_delete, after_newline, all_wf,
    hidden, lemma_all_shown_pruned, lemma_has_focus_count, lemma_leaf_count_pos,
    lemma_with_focus_leaf, moved, moved_all,
};

verus! {

/// A text that a buffer can hold: its line count and each line's length
/// fit in `usize`.
pub open spec fn fits(lines: Seq<Seq<char>>) -> bool {
    &&& lines.len() <= usize::MAX
    &&& forall|i: int| 0 <= i < lines.len() ==> #[trigger] lines[i].len() <= usize::MAX
}

/// Every motion keeps a valid cursor valid.
pub proof fn lemma_motion_keeps_cursor_valid(m: Motion, c: Cursor, lines: Seq<Seq<char>>)
    requires
        lines.len() > 0,
        fits(lines),
        valid_cursor(c, lines),
    ensures
        valid_cursor(moved(m, c, lines), lines),
{
}

/// After any sequence of motions from a valid cursor, the cursor is on an
/// existing line and at most one past its last character.
pub proof fn lemma_motions_keep_cursor_valid(ms: Seq<Motion>, c: Cursor, lines: Seq<Seq<char>>)
    requires
        lines.len() > 0,
        fits(lines),
        valid_cursor(c, lines),
    ensures
        valid_cursor(moved_all(ms, c, lines), lines),
    decreases ms.len(),
{
    if ms.len() > 0 {
        lemma_motions_keep_cursor_valid(ms.drop_last(), c, lines);
        lemma_motion_keeps_cursor_valid(ms.last(), moved_all(ms.drop_last(), c, lines), lines);
    }
}

/// Inserting a character, moving left and deleting forward gives back the
/// text and the cursor.
pub proof fn lemma_insert_left_delete(lines: Seq<Seq<char>>, c: Cursor, ch: char)
    requires
        valid_cursor(c, lines),
        c.0 < usize::MAX,
    ensures
        ({
            let (l1, c1) = after_char(lines, c, ch);
            let c2 = moved(Motion::Left, c1, l1);
            &&& c2 == c
            &&& after_delete(l1, c2) == lines
        }),
{
    let (l1, c1) = after_char(lines, c, ch);
    let line = lines[c.1 as int];
    assert(line.insert(c.0 as int, ch).remove(c.0 as int) =~= line);
    assert(l1.update(c.1 as int, l1[c.1 as int].remove(c.0 as int)) =~= lines);
}

/// Breaking a line and then a backspace from the new cursor gives back the
/// text and the cursor.
pub proof fn lemma_newline_backspace(lines: Seq<Seq<char>>, c: Cursor)
    requires
        valid_cursor(c, lines),
        c.1 + 1 <= usize::MAX,
    ensures
        ({
            let (l1, c1) = after_newline(lines, c);
            after_backspace(l1, c1) == (lines, c)
        }),
{
    let (l1, c1) = after_newline(lines, c);
    let l = c.1 as int;
    let line = lines[l];
    assert(l1[l] == line.take(c.0 as int));
    assert(l1[l + 1] == line.skip(c.0 as int));
    assert(line.take(c.0 as int) + line.skip(c.0 as int) =~= line);
    assert(l1.update(l, l1[l] + l1[l + 1]).remove(l + 1) =~= lines);
}

/// Splitting a focused leaf, closing either side and pruning gives back a
/// focused leaf over the same buffer, with the same cursor, offset and
/// borders.
pub proof fn lemma_split_close_prune(
    f: Frame,
    d: Direction,
    close_first: bool,
    bufs: Seq<Buffer>,
)
    requires
        f.is_leaf(),
        f.focus,
        f.buffer < bufs.len(),
        all_wf(bufs),
        valid_cursor(f.cursor, bufs[f.buffer as int]@),
    ensures
        ({
            let s = f.spec_split(d);
            let (f0, f1) = s.inner_frames->Some_0;
            let closed = if close_first {
                Frame { inner_frames: Some((Box::new(hidden(*f0)), f1)), ..s }
            } else {
                Frame { inner_frames: Some((f0, Box::new(hidden(*f1)))), ..s }
            };
            closed.pruned(bufs) == (Frame { split_direction: d, ..f })
        }),
{
    let s = f.spec_split(d);
    let (f0, f1) = s.inner_frames->Some_0;
    let closed = if close_first {
        Frame { inner_frames: Some((Box::new(hidden(*f0)), f1)), ..s }
    } else {
        Frame { inner_frames: Some((f0, Box::new(hidden(*f1)))), ..s }
    };
    assert(closed.pruned(bufs) =~= (Frame { split_direction: d, ..f }));
}

/// Exactly one leaf holds focus after any number of moves, and moving focus
/// as many times as there are leaves brings it back to the leaf it started on.
pub proof fn lemma_full_cycle(f: Frame, bufs: Seq<Buffer>)
    requires
        f.tree_wf(bufs.len()),
        all_wf(bufs),
        f.focus_ok(bufs),
    ensures
        forall|k: nat| #[trigger] cycled_n(f, bufs, k).focus_ok(bufs),
        cycled_n(f, bufs, f.leaf_count()).focus_pos() == f.focus_pos(),
{
    assert forall|k: nat| #[trigger] cycled_n(f, bufs, k).focus_ok(bufs) by {
        lemma_cycle_n(f, bufs, k);
    }
    lemma_cycle_n(f, bufs, f.leaf_count());
    lemma_leaf_count_pos(f);
    assert((f.focus_pos() + f.leaf_count()) % f.leaf_count() == f.focus_pos()) by (nonlinear_arith)
        requires
            f.focus_pos() < f.leaf_count(),
    {
    }
}

/// After `k` moves the focus is `k` positions further, modulo the number of
/// leaves.
pub proof fn lemma_cycle_n(f: Frame, bufs: Seq<Buffer>, k: nat)
    requires
        f.tree_wf(bufs.len()),
        all_wf(bufs),
        f.focus_ok(bufs),
    ensures
        cycled_n(f, bufs, k).tree_wf(bufs.len()),
        cycled_n(f, bufs, k).focus_ok(bufs),
        cycled_n(f, bufs, k).leaf_count() == f.leaf_count(),
        cycled_n(f, bufs, k).focus_pos() == (f.focus_pos() + k) % f.leaf_count(),
    decreases k,
{
    lemma_leaf_count_pos(f);
    if k == 0 {
        assert(f.focus_pos() % f.leaf_count() == f.focus_pos()) by (nonlinear_arith)
            requires
                f.focus_pos() < f.leaf_count(),
        {
        }
    } else {
        let k1 = (k - 1) as nat;
        lemma_cycle_n(f, bufs, k1);
        let p = cycled_n(f, bufs, k1);
        lemma_cycle_step(p, bufs);
        let n = f.leaf_count();
        let a = f.focus_pos();
        assert(((a + k1) % n + 1) % n == (a + k) % n) by {
            vstd::arithmetic::div_mod::lemma_add_mod_noop((a + k1) as int, 1, n as int);
            vstd::arithmetic::div_mod::lemma_mod_twice(1, n as int);
            vstd::arithmetic::div_mod::lemma_mod_twice((a + k1) as int, n as int);
            vstd::arithmetic::div_mod::lemma_add_mod_noop((a + k1) as int % n as int, 1, n as int);
        }
    }
}

/// Splitting the focused leaf and then closing the side that takes its focus
/// gives back the tree with that leaf as it was: focused, over the same
/// buffer, with the same cursor, offset and borders. The closed side shows
/// that buffer too.
pub proof fn lemma_split_then_close(t: Frame, d: Direction, bufs: Seq<Buffer>)
    requires
        t.tree_wf(bufs.len()),
        all_wf(bufs),
        t.all_shown(),
        t.focus_ok(bufs),
    ensures
        ({
            let leaf = t.focus_leaf();
            let t1 = t.with_focus_leaf(leaf.spec_split(d));
            &&& !t1.is_leaf()
            &&& t1.focus_leaf().buffer == leaf.buffer
            &&& t1.with_focus_leaf(hidden(t1.focus_leaf())).pruned(bufs) == t.with_focus_leaf(
                Frame { split_direction: d, ..leaf },
            )
        }),
    decreases t,
{
    let n = bufs.len();
    let leaf = t.focus_leaf();
    let sp = leaf.spec_split(d);
    let (s0, s1) = sp.inner_frames->Some_0;
    lemma_has_focus_count(t);
    lemma_with_focus_leaf(t, leaf, n);
    assert(s0.focus_count() == 1);
    assert(s1.focus_count() == 0);
    assert(sp.focus_count() == 1);
    assert(s0.is_leaf());
    assert(s0.spec_has_focus());
    assert(s0.focus_leaf() == *s0);
    assert(sp.focus_leaf() == *s0);
    assert(s0.with_focus_leaf(hidden(*s0)) == hidden(*s0));
    match t.inner_frames {
        Some((a, b)) => {
            lemma_has_focus_count(*a);
            lemma_has_focus_count(*b);
            assert(a.all_shown() && b.all_shown());
            lemma_all_shown_pruned(*a, bufs);
            lemma_all_shown_pruned(*b, bufs);
            if a.spec_has_focus() {
                lemma_split_then_close(*a, d, bufs);
                let a1 = a.with_focus_leaf(sp);
                lemma_with_focus_leaf(*a, sp, n);
                lemma_has_focus_count(a1);
                let h = hidden(a1.focus_leaf());
                lemma_with_focus_leaf(a1, h, n);
                assert(a1.with_focus_leaf(h).show);
            } else {
                lemma_split_then_close(*b, d, bufs);
                let b1 = b.with_focus_leaf(sp);
                lemma_with_focus_leaf(*b, sp, n);
                lemma_has_focus_count(b1);
                let h = hidden(b1.focus_leaf());
                lemma_with_focus_leaf(b1, h, n);
                assert(b1.with_focus_leaf(h).show);
            }
        },
        None => {
            lemma_split_close_prune(t, d, true, bufs);
            let t1 = t.with_focus_leaf(sp);
            assert(t1 == sp);
            assert(t1.with_focus_leaf(hidden(t1.focus_leaf())) == (Frame {
                inner_frames: Some((Box::new(hidden(*s0)), s1)),
                ..sp
            }));
        },
    }
}

} // verus!
