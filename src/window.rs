use vstd::prelude::*;
use crate::buffer::Buffer;
use crate::frame::{
    Action, Frame, all_wf, edits_text, hidden, keeps_leaf, leaf_acted, lemma_cleared,
    lemma_focused_first, lemma_has_focus_count, lemma_moved_focus, lemma_prune_hidden,
    lemma_tree_wf_grows, lemma_with_focus_leaf, opt_chars, texts, lemma_moved_focus_pos,
    lemma_leaf_count_pos, lemma_cleared_count, lemma_focused_first_pos,
};

verus! {

/// The tree after the window moves focus once: to the next leaf, or from
/// the last back to the first.
pub open spec fn cycled(f: Frame, bufs: Seq<Buffer>) -> Frame {
    let (g, moved) = f.moved_focus(bufs);
    if moved { g } else { g.cleared().focused_first(bufs) }
}

/// The tree after the window moves focus `k` times.
pub open spec fn cycled_n(f: Frame, bufs: Seq<Buffer>, k: nat) -> Frame
    decreases k,
{
    if k == 0 { f } else { cycled(cycled_n(f, bufs, (k - 1) as nat), bufs) }
}

/// One move of focus keeps exactly one focused leaf and takes focus to the
/// next position, from the last back to the first.
pub proof fn lemma_cycle_step(f: Frame, bufs: Seq<Buffer>)
    requires
        f.tree_wf(bufs.len()),
        all_wf(bufs),
        f.focus_ok(bufs),
    ensures
        cycled(f, bufs).tree_wf(bufs.len()),
        cycled(f, bufs).focus_ok(bufs),
        cycled(f, bufs).leaf_count() == f.leaf_count(),
        cycled(f, bufs).focus_pos() == (f.focus_pos() + 1) % f.leaf_count(),
{
    lemma_moved_focus(f, bufs);
    lemma_moved_focus_pos(f, bufs);
    lemma_leaf_count_pos(f);
    let (g, moved) = f.moved_focus(bufs);
    let n = f.leaf_count();
    let a = f.focus_pos();
    if moved {
        lemma_leaf_count_pos(g);
        assert((a + 1) % n == a + 1) by (nonlinear_arith)
            requires
                a + 1 < n,
        {
        }
    } else {
        assert((a + 1) % n == 0) by (nonlinear_arith)
            requires
                a + 1 == n,
        {
        }
        lemma_cleared(g, bufs.len());
        lemma_cleared_count(g);
        lemma_has_focus_count(g.cleared());
        lemma_focused_first(g.cleared(), bufs);
        lemma_focused_first_pos(g.cleared(), bufs);
    }
}

/// The split tree, the buffers its leaves show, the buffers of closed
/// leaves, and the last killed text.
pub struct Window {
    pub main_frame: Frame,
    /// The buffer table; leaves refer to buffers by index.
    pub buffers: Vec<Buffer>,
    pub detached_buffer: Vec<usize>,
    pub yank: Option<Vec<char>>,
}

impl Window {
    /// The tree refers to buffers of the table only, every frame is shown,
    /// exactly one leaf holds focus with a valid cursor, and the root has no
    /// parent.
    pub open spec fn wf(&self) -> bool {
        &&& self.main_frame.tree_wf(self.buffers@.len())
        &&& all_wf(self.buffers@)
        &&& self.main_frame.all_shown()
        &&& self.main_frame.focus_ok(self.buffers@)
        &&& !self.main_frame.has_parent
        &&& forall|i: int|
            0 <= i < self.detached_buffer@.len() ==> #[trigger] self.detached_buffer@[i]
                < self.buffers@.len()
    }

    /// One focused leaf over one empty buffer.
    pub fn new() -> (r: Window)
        ensures
            r.wf(),
            texts(r.buffers@) == seq![seq![Seq::<char>::empty()]],
            r.main_frame == (Frame { focus: true, ..Frame::new_spec(0) }),
            r.detached_buffer@.len() == 0,
            r.yank is None,
    {
        let mut buffers: Vec<Buffer> = Vec::new();
        buffers.push(Buffer::new());
        let mut main_frame = Frame::new(0);
        proof {
            lemma_focused_first(main_frame, buffers@);
        }
        main_frame.set_focus(&buffers);
        let r = Window { main_frame, buffers, detached_buffer: Vec::new(), yank: None };
        assert(texts(r.buffers@) =~= seq![seq![Seq::<char>::empty()]]);
        r
    }

    pub fn main_frame(&self) -> (r: &Frame)
        ensures
            *r == self.main_frame,
    {
        &self.main_frame
    }

    /// The leaf that holds focus.
    pub fn focus_frame(&self) -> (r: &Frame)
        ensures
            *r == self.main_frame.focus_leaf(),
    {
        if self.main_frame.has_inner_frames() {
            self.main_frame.focus_child_frame()
        } else {
            &self.main_frame
        }
    }

    pub fn detached_buffer(&self) -> (r: Vec<usize>)
        ensures
            r@ == self.detached_buffer@,
    {
        self.detached_buffer.clone()
    }

    /// Moves focus to the next leaf, from the last back to the first.
    pub fn move_focus(&mut self)
        requires
            old(self).wf(),
        ensures
            final(self).wf(),
            final(self).main_frame == cycled(old(self).main_frame, old(self).buffers@),
            final(self).main_frame.leaf_count() == old(self).main_frame.leaf_count(),
            final(self).main_frame.focus_pos() == (old(self).main_frame.focus_pos() + 1)
                % old(self).main_frame.leaf_count(),
            final(self).buffers == old(self).buffers,
            final(self).detached_buffer == old(self).detached_buffer,
            final(self).yank == old(self).yank,
    {
        proof {
            lemma_moved_focus(self.main_frame, self.buffers@);
            lemma_cycle_step(self.main_frame, self.buffers@);
        }
        let moved = self.main_frame.move_focus(&self.buffers);
        if !moved {
            proof {
                lemma_cleared(self.main_frame, self.buffers@.len());
                lemma_has_focus_count(self.main_frame.cleared());
            }
            self.main_frame.clear_focus();
            proof {
                lemma_focused_first(self.main_frame, self.buffers@);
            }
            self.main_frame.set_focus(&self.buffers);
        }
    }

    /// Performs `a` on the focused leaf and its buffer.
    pub fn edit(&mut self, a: Action)
        requires
            old(self).wf(),
            keeps_leaf(a) || a is Split || (a is ReplaceBuffer && a->ReplaceBuffer_0
                < old(self).buffers@.len()),
        ensures
            final(self).wf(),
            ({
                let leaf = old(self).main_frame.focus_leaf();
                let (g, lines, out) = leaf_acted(leaf, old(self).buffers@[leaf.buffer as int]@, a);
                &&& final(self).main_frame == old(self).main_frame.with_focus_leaf(g)
                &&& texts(final(self).buffers@) == texts(old(self).buffers@).update(
                    leaf.buffer as int,
                    lines,
                )
            }),
            !edits_text(a) ==> final(self).buffers@ == old(self).buffers@,
            final(self).detached_buffer == old(self).detached_buffer,
            final(self).yank == old(self).yank,
    {
        let _ = self.act(&a);
    }

    /// `edit`, with what the action yields.
    fn act(&mut self, a: &Action) -> (r: Option<Vec<char>>)
        requires
            old(self).wf(),
            keeps_leaf(*a) || *a is Split || (*a is ReplaceBuffer && a->ReplaceBuffer_0
                < old(self).buffers@.len()),
        ensures
            final(self).wf(),
            ({
                let leaf = old(self).main_frame.focus_leaf();
                let (g, lines, out) = leaf_acted(leaf, old(self).buffers@[leaf.buffer as int]@, *a);
                &&& final(self).main_frame == old(self).main_frame.with_focus_leaf(g)
                &&& texts(final(self).buffers@) == texts(old(self).buffers@).update(
                    leaf.buffer as int,
                    lines,
                )
                &&& opt_chars(r) == out
            }),
            !edits_text(*a) ==> final(self).buffers@ == old(self).buffers@,
            final(self).detached_buffer == old(self).detached_buffer,
            final(self).yank == old(self).yank,
    {
        let ghost n = self.buffers@.len();
        let ghost leaf = self.main_frame.focus_leaf();
        proof {
            lemma_has_focus_count(self.main_frame);
            lemma_with_focus_leaf(self.main_frame, leaf, n);
        }
        let r = self.main_frame.act_on_focus(&mut self.buffers, a);
        proof {
            let (g, lines, out) = leaf_acted(leaf, old(self).buffers@[leaf.buffer as int]@, *a);
            assert(leaf.tree_wf(n));
            assert(leaf.all_shown());
            assert(old(self).main_frame.is_leaf() || leaf.has_parent);
            assert(g.has_parent == leaf.has_parent && g.show == leaf.show);
            assert(a is ReplaceBuffer || g.buffer == leaf.buffer);
            assert(texts(self.buffers@)[leaf.buffer as int] == lines);
            assert(self.buffers@[leaf.buffer as int]@ == lines);
            if a is Split {
                let d = a->Split_0;
                let f0 = Frame {
                    focus: leaf.focus,
                    ..Frame::spec_inherit(leaf, Frame::split_border(d))
                };
                let f1 = Frame::spec_inherit(leaf, crate::frame::Borders { right: false, bottom: false });
                assert(f0.tree_wf(n) && f1.tree_wf(n));
                assert(f0.all_shown() && f1.all_shown());
                assert(f0.focus_count() == 1);
                assert(f1.focus_count() == 0);
                assert(g.focus_count() == 1);
                lemma_has_focus_count(g);
                assert(f0.spec_has_focus());
                assert(f0.focus_leaf() == f0);
                assert(g.focus_leaf() == f0);
                assert(f0.leaf_on(lines));
            } else {
                assert(g.is_leaf());
                assert(g.focus_count() == 1);
                assert(g.focus_leaf() == g);
            }
            if a is ReplaceBuffer {
                assert(self.buffers@[g.buffer as int].wf());
                assert(g.leaf_on(self.buffers@[g.buffer as int]@));
            }
            assert(g.tree_wf(n));
            assert(g.all_shown());
            lemma_with_focus_leaf(old(self).main_frame, g, n);
            assert forall|i: int|
                0 <= i < self.detached_buffer@.len() implies #[trigger] self.detached_buffer@[i]
                < self.buffers@.len() by {
                assert(old(self).detached_buffer@[i] < n);
            }
            assert(self.main_frame.tree_wf(n));
            assert(self.main_frame.all_shown());
            assert(self.main_frame.focus_count() == 1);
            assert(self.main_frame.focus_leaf().leaf_on(self.buffers@[self.main_frame.focus_leaf().buffer as int]@));
            assert(!self.main_frame.has_parent);
        }
        r
    }

    /// Shows a new empty buffer in the focused leaf, from its start; the
    /// buffer shown before stays in the table.
    pub fn new_buffer(&mut self)
        requires
            old(self).wf(),
        ensures
            final(self).wf(),
            texts(final(self).buffers@) == texts(old(self).buffers@).push(
                seq![Seq::<char>::empty()],
            ),
            final(self).main_frame == old(self).main_frame.with_focus_leaf(
                Frame {
                    buffer: old(self).buffers@.len() as usize,
                    cursor: (0, 0),
                    ..old(self).main_frame.focus_leaf()
                },
            ),
            final(self).detached_buffer == old(self).detached_buffer,
            final(self).yank == old(self).yank,
    {
        self.buffers.push(Buffer::new());
        let id = self.buffers.len() - 1;
        proof {
            let n = self.buffers@.len();
            assert(all_wf(self.buffers@));
            assert(self.main_frame.tree_wf(n)) by {
                lemma_tree_wf_grows(self.main_frame, (n - 1) as nat, n);
            }
            assert(self.buffers@[self.main_frame.focus_leaf().buffer as int] == old(
                self,
            ).buffers@[self.main_frame.focus_leaf().buffer as int]) by {
                lemma_has_focus_count(self.main_frame);
                lemma_with_focus_leaf(self.main_frame, self.main_frame.focus_leaf(), (n - 1) as nat);
            }
            assert forall|i: int|
                0 <= i < self.detached_buffer@.len() implies #[trigger] self.detached_buffer@[i]
                < self.buffers@.len() by {
                assert(old(self).detached_buffer@[i] < n - 1);
            }
        }
        let ghost pre = self.buffers@;
        assert(texts(pre) =~= texts(old(self).buffers@).push(seq![Seq::<char>::empty()]));
        let ghost leaf = self.main_frame.focus_leaf();
        proof {
            lemma_has_focus_count(self.main_frame);
            lemma_with_focus_leaf(self.main_frame, leaf, pre.len());
        }
        let a = Action::ReplaceBuffer(id);
        let _ = self.act(&a);
        assert(texts(pre)[leaf.buffer as int] == pre[leaf.buffer as int]@);
        assert(texts(self.buffers@) =~= texts(pre));
        assert(texts(self.buffers@) =~= texts(old(self).buffers@).push(seq![Seq::<char>::empty()]));
    }

    /// Cuts from the cursor of the focused leaf to the end of its line, and
    /// keeps what was cut (or nothing) as the text to paste.
    pub fn kill(&mut self)
        requires
            old(self).wf(),
        ensures
            final(self).wf(),
            ({
                let leaf = old(self).main_frame.focus_leaf();
                let (g, lines, out) = leaf_acted(
                    leaf,
                    old(self).buffers@[leaf.buffer as int]@,
                    Action::Kill,
                );
                &&& final(self).main_frame == old(self).main_frame.with_focus_leaf(g)
                &&& texts(final(self).buffers@) == texts(old(self).buffers@).update(
                    leaf.buffer as int,
                    lines,
                )
                &&& opt_chars(final(self).yank) == out
            }),
            final(self).detached_buffer == old(self).detached_buffer,
    {
        let a = Action::Kill;
        let r = self.act(&a);
        self.yank = r;
    }

    /// Pastes the last killed text at the cursor of the focused leaf; does
    /// nothing when there is none.
    pub fn paste(&mut self)
        requires
            old(self).wf(),
        ensures
            final(self).wf(),
            old(self).yank is None ==> *final(self) == *old(self),
            old(self).yank is Some ==> ({
                let leaf = old(self).main_frame.focus_leaf();
                let s = old(self).yank->Some_0;
                let (g, lines, out) = leaf_acted(
                    leaf,
                    old(self).buffers@[leaf.buffer as int]@,
                    Action::Paste(s),
                );
                &&& final(self).main_frame == old(self).main_frame.with_focus_leaf(g)
                &&& texts(final(self).buffers@) == texts(old(self).buffers@).update(
                    leaf.buffer as int,
                    lines,
                )
            }),
            final(self).detached_buffer == old(self).detached_buffer,
            final(self).yank == old(self).yank,
    {
        match &self.yank {
            Some(s) => {
                let text = s.clone();
                assert(text@ =~= s@);
                let a = Action::Paste(text);
                let _ = self.act(&a);
            },
            None => {},
        }
    }

    /// Closes the focused leaf unless it is the root: hides it, keeps its
    /// buffer among the detached ones, and prunes the tree, which gives focus
    /// again.
    pub fn remove_focus_frame(&mut self)
        requires
            old(self).wf(),
        ensures
            final(self).wf(),
            old(self).main_frame.is_leaf() ==> *final(self) == *old(self),
            !old(self).main_frame.is_leaf() ==> ({
                let leaf = old(self).main_frame.focus_leaf();
                &&& final(self).main_frame == old(self).main_frame.with_focus_leaf(
                    hidden(leaf),
                ).pruned(old(self).buffers@)
                &&& final(self).detached_buffer@ == old(self).detached_buffer@.push(leaf.buffer)
                &&& final(self).buffers@ == old(self).buffers@
            }),
            final(self).yank == old(self).yank,
    {
        let ghost n = self.buffers@.len();
        proof {
            lemma_has_focus_count(self.main_frame);
            lemma_with_focus_leaf(self.main_frame, self.main_frame.focus_leaf(), n);
        }
        let leaf = self.focus_frame();
        if !leaf.is_main_frame() {
            let b = leaf.clone_buffer();
            let a = Action::Release;
            proof {
                lemma_prune_hidden(self.main_frame, self.buffers@);
            }
            let _ = self.main_frame.act_on_focus(&mut self.buffers, &a);
            self.main_frame.clean_removed_frame(&self.buffers);
            self.detached_buffer.push(b);
            proof {
                assert forall|i: int|
                    0 <= i < self.detached_buffer@.len() implies #[trigger] self.detached_buffer@[i]
                    < self.buffers@.len() by {
                    if i < old(self).detached_buffer@.len() {
                        assert(old(self).detached_buffer@[i] < n);
                    }
                }
            }
        }
    }
}

} // verus!
