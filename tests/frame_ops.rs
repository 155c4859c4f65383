use editor::buffer::Buffer;
use editor::frame::{Action, Direction, Frame, Motion, Rect};
use editor::window::Window;

fn chars(s: &str) -> Vec<char> {
    s.chars().collect()
}

fn buffer_of(lines: &[&str]) -> Buffer {
    let mut b = Buffer::new();
    b.insert_str((0, 0), &chars(lines[0]));
    for (i, l) in lines.iter().enumerate().skip(1) {
        b.insert_line((0, i), &chars(l));
    }
    b
}

fn lines_of(b: &Buffer) -> Vec<String> {
    (0..b.lines_len()).map(|i| b.line(i).iter().collect()).collect()
}

fn leaf_at(cursor: (usize, usize)) -> Frame {
    let mut f = Frame::new(0);
    f.cursor = cursor;
    f.focus = true;
    f
}

fn focused_leaves(f: &Frame) -> usize {
    if f.has_inner_frames() {
        let (a, b) = f.clone_inner_frames();
        focused_leaves(a) + focused_leaves(b)
    } else if f.focus {
        1
    } else {
        0
    }
}

#[test]
fn newline_at_end_of_line() {
    let mut b = buffer_of(&["abc"]);
    let mut f = leaf_at((3, 0));
    f.new_line(&mut b);
    assert_eq!(lines_of(&b), vec!["abc", ""]);
    assert_eq!(f.cursor, (0, 1));
}

#[test]
fn backspace_at_line_start_joins_lines() {
    let mut b = buffer_of(&["ab", "cd"]);
    let mut f = leaf_at((0, 1));
    f.backspace(&mut b);
    assert_eq!(lines_of(&b), vec!["abcd"]);
    assert_eq!(f.cursor, (2, 0));
}

#[test]
fn offset_follows_cursor_past_border() {
    let mut f = leaf_at((10, 0));
    f.border_flag.right = true;
    f.adjust_offset(&Rect { x: 0, y: 0, width: 5, height: 3 });
    assert_eq!(f.offset.0, 7);
    assert_eq!(f.offset.1, 0);
}

#[test]
fn offset_snaps_back_and_degenerate_rect() {
    let mut f = leaf_at((2, 4));
    f.offset = (5, 1);
    f.adjust_offset(&Rect { x: 0, y: 0, width: 10, height: 3 });
    assert_eq!(f.offset, (2, 2));
    let mut g = leaf_at((6, 0));
    g.border_flag.right = true;
    g.adjust_offset(&Rect { x: 0, y: 0, width: 1, height: 1 });
    assert_eq!(g.offset, (6, 0));
}

#[test]
fn motions_stay_in_bounds() {
    let b = buffer_of(&["abcd", "x", ""]);
    let mut f = leaf_at((4, 0));
    f.move_right(&b);
    assert_eq!(f.cursor, (0, 1));
    f.move_end(&b);
    f.move_up(&b);
    assert_eq!(f.cursor, (1, 0));
    f.move_end(&b);
    f.move_down(&b);
    assert_eq!(f.cursor, (1, 1));
    f.move_down(&b);
    assert_eq!(f.cursor, (0, 2));
    f.move_right(&b);
    assert_eq!(f.cursor, (0, 2));
    f.move_down(&b);
    assert_eq!(f.cursor, (0, 2));
    f.move_top(&b);
    assert_eq!(f.cursor, (0, 0));
    f.move_left(&b);
    assert_eq!(f.cursor, (0, 0));
    f.move_up(&b);
    assert_eq!(f.cursor, (0, 0));
    f.move_bottom(&b);
    assert_eq!(f.cursor, (0, 2));
    f.move_front(&b);
    assert_eq!(f.cursor, (0, 2));
}

#[test]
fn insert_left_delete_round_trip() {
    let mut b = buffer_of(&["hello"]);
    let mut f = leaf_at((2, 0));
    f.new_char(&mut b, 'X');
    assert_eq!(lines_of(&b), vec!["heXllo"]);
    assert_eq!(f.cursor, (3, 0));
    f.move_left(&b);
    f.delete(&mut b);
    assert_eq!(lines_of(&b), vec!["hello"]);
    assert_eq!(f.cursor, (2, 0));
}

#[test]
fn newline_backspace_round_trip() {
    let mut b = buffer_of(&["hello", "z"]);
    let mut f = leaf_at((2, 0));
    f.new_line(&mut b);
    assert_eq!(lines_of(&b), vec!["he", "llo", "z"]);
    f.backspace(&mut b);
    assert_eq!(lines_of(&b), vec!["hello", "z"]);
    assert_eq!(f.cursor, (2, 0));
}

#[test]
fn tab_indents_line_start() {
    let mut b = buffer_of(&["ab"]);
    let mut f = leaf_at((1, 0));
    f.tab(&mut b);
    assert_eq!(lines_of(&b), vec!["    ab"]);
    assert_eq!(f.cursor, (5, 0));
}

#[test]
fn delete_at_line_end_joins_next() {
    let mut b = buffer_of(&["ab", "cd"]);
    let mut f = leaf_at((2, 0));
    f.delete(&mut b);
    assert_eq!(lines_of(&b), vec!["abcd"]);
    f.move_end(&b);
    f.delete(&mut b);
    assert_eq!(lines_of(&b), vec!["abcd"]);
}

#[test]
fn kill_cases() {
    let mut b = buffer_of(&["abc", "de"]);
    let mut f = leaf_at((1, 0));
    assert_eq!(f.kill(&mut b), Some(chars("bc")));
    assert_eq!(lines_of(&b), vec!["a", "de"]);
    assert_eq!(f.kill(&mut b), Some(chars("\n")));
    assert_eq!(lines_of(&b), vec!["ade"]);
    f.move_end(&b);
    assert_eq!(f.kill(&mut b), None);
    assert_eq!(lines_of(&b), vec!["ade"]);
}

#[test]
fn paste_advances_by_length() {
    let mut b = buffer_of(&["ad"]);
    let mut f = leaf_at((1, 0));
    f.paste(&mut b, &chars("bc"));
    assert_eq!(lines_of(&b), vec!["abcd"]);
    assert_eq!(f.cursor, (3, 0));
}

#[test]
fn split_gives_focus_and_border_to_first() {
    let mut f = leaf_at((1, 0));
    f.split(Direction::Horizontal);
    assert!(f.has_inner_frames());
    assert!(!f.focus);
    let (a, b) = f.clone_inner_frames();
    assert!(a.focus && !b.focus);
    assert!(a.border_flag.right && !a.border_flag.bottom);
    assert!(!b.border_flag.right);
    assert_eq!(a.cursor, (1, 0));
    assert_eq!(b.cursor, (1, 0));
    assert!(!a.is_main_frame() && f.is_main_frame());
    assert!(f.has_focus());
}

#[test]
fn split_then_close_second_restores_first() {
    let bufs = vec![buffer_of(&["abc"])];
    let mut f = leaf_at((2, 0));
    f.split(Direction::Vertical);
    match &mut f.inner_frames {
        Some((_, second)) => {
            assert_eq!(second.release_buffer(), 0);
        }
        None => unreachable!(),
    }
    f.clean_removed_frame(&bufs);
    assert!(!f.has_inner_frames());
    assert!(f.focus);
    assert_eq!(f.cursor, (2, 0));
    assert_eq!(f.buffer, 0);
}

#[test]
fn window_split_close_second() {
    let mut w = Window::new();
    w.edit(Action::NewChar('a'));
    w.edit(Action::NewChar('b'));
    w.edit(Action::Split(Direction::Horizontal));
    assert!(w.main_frame().has_inner_frames());
    w.move_focus();
    assert_eq!(focused_leaves(w.main_frame()), 1);
    w.remove_focus_frame();
    assert!(!w.main_frame().has_inner_frames());
    assert!(w.focus_frame().focus);
    assert_eq!(w.focus_frame().cursor, (2, 0));
    assert_eq!(w.focus_frame().buffer, 0);
    assert_eq!(w.detached_buffer(), vec![0]);
}

#[test]
fn root_is_never_closed() {
    let mut w = Window::new();
    w.remove_focus_frame();
    assert!(w.focus_frame().is_shown());
    assert!(w.detached_buffer().is_empty());
}

#[test]
fn focus_cycles_through_all_leaves() {
    let mut w = Window::new();
    w.edit(Action::Split(Direction::Horizontal));
    w.edit(Action::Split(Direction::Vertical));
    w.edit(Action::Move(Motion::Right));
    let start = w.focus_frame().border_flag;
    let mut seen = Vec::new();
    for _ in 0..3 {
        assert_eq!(focused_leaves(w.main_frame()), 1);
        seen.push(w.focus_frame().border_flag);
        w.move_focus();
    }
    assert_eq!(w.focus_frame().border_flag, start);
    assert_eq!(focused_leaves(w.main_frame()), 1);
    assert!(seen[0] != seen[1] && seen[1] != seen[2] && seen[0] != seen[2]);
}

#[test]
fn kill_and_paste_through_window() {
    let mut w = Window::new();
    for c in "abc".chars() {
        w.edit(Action::NewChar(c));
    }
    w.edit(Action::Move(Motion::Front));
    w.edit(Action::Move(Motion::Right));
    w.kill();
    assert_eq!(w.yank, Some(chars("bc")));
    assert_eq!(lines_of(&w.buffers[0]), vec!["a"]);
    w.edit(Action::Move(Motion::Front));
    w.paste();
    assert_eq!(lines_of(&w.buffers[0]), vec!["bca"]);
    assert_eq!(w.focus_frame().cursor, (2, 0));
    w.edit(Action::Move(Motion::End));
    w.kill();
    assert_eq!(w.yank, None);
    w.paste();
    assert_eq!(lines_of(&w.buffers[0]), vec!["bca"]);
}

#[test]
fn shared_buffer_edits_are_seen_by_both_sides() {
    let mut w = Window::new();
    w.edit(Action::Split(Direction::Vertical));
    w.edit(Action::NewChar('q'));
    let (a, b) = w.main_frame().clone_inner_frames();
    assert_eq!(a.buffer, b.buffer);
    assert_eq!(lines_of(&w.buffers[b.buffer]), vec!["q"]);
}

#[test]
fn render_splits_rectangle_in_halves() {
    let mut w = Window::new();
    w.edit(Action::NewChar('x'));
    w.edit(Action::Split(Direction::Horizontal));
    let items = w.main_frame.render(Rect { x: 0, y: 0, width: 10, height: 4 });
    assert_eq!(items.len(), 2);
    assert_eq!(items[0].0, Rect { x: 0, y: 0, width: 5, height: 4 });
    assert_eq!(items[1].0, Rect { x: 5, y: 0, width: 5, height: 4 });
    assert!(items[0].2.right);
    assert_eq!(items[0].4, Some((1, 0)));
    assert_eq!(items[1].4, None);
}

#[test]
fn render_leaf_translates_cursor() {
    let mut f = leaf_at((3, 1));
    f.offset = (1, 0);
    let items = f.render(Rect { x: 2, y: 5, width: 10, height: 4 });
    assert_eq!(items.len(), 1);
    assert_eq!(items[0].3, (1, 0));
    assert_eq!(items[0].4, Some((4, 6)));
}

#[test]
fn replace_buffer_resets_cursor() {
    let mut f = leaf_at((3, 1));
    assert_eq!(f.replace_buffer(4), 0);
    assert_eq!(f.buffer, 4);
    assert_eq!(f.cursor, (0, 0));
}

#[test]
fn x_mode_toggles() {
    let mut f = leaf_at((0, 0));
    assert!(!f.is_x_mode());
    f.toggle_x_mode(true);
    assert!(f.is_x_mode());
}

#[test]
fn new_buffer_replaces_focused_view() {
    let mut w = Window::new();
    w.edit(Action::NewChar('a'));
    w.new_buffer();
    assert_eq!(w.buffers.len(), 2);
    assert_eq!(w.focus_frame().buffer, 1);
    assert_eq!(w.focus_frame().cursor, (0, 0));
    assert_eq!(lines_of(&w.buffers[0]), vec!["a"]);
    w.edit(Action::NewChar('z'));
    assert_eq!(lines_of(&w.buffers[1]), vec!["z"]);
}

#[test]
fn render_leaf_on_any_rectangle() {
    let mut f = leaf_at((2, 0));
    let r = Rect { x: 65000, y: 65000, width: 2000, height: 2000 };
    let items = f.render(r);
    assert_eq!(items.len(), 1);
    assert_eq!(items[0].0, r);
    assert_eq!(items[0].4, Some((65002, 65000)));
}

#[test]
fn render_vertical_split_tiles_and_one_cursor() {
    let mut w = Window::new();
    w.edit(Action::Split(Direction::Vertical));
    w.edit(Action::Split(Direction::Horizontal));
    let r = Rect { x: 3, y: 2, width: 8, height: 7 };
    let items = w.main_frame.render(r);
    assert_eq!(items.len(), 3);
    let top_left = items[0].0;
    let top_right = items[1].0;
    let bottom = items[2].0;
    assert_eq!((top_left.x, top_left.y), (3, 2));
    assert_eq!(top_right.x, top_left.x + top_left.width);
    assert_eq!(top_right.x + top_right.width, 11);
    assert_eq!(bottom.y, top_left.y + top_left.height);
    assert_eq!(bottom.y + bottom.height, 9);
    assert_eq!((bottom.x, bottom.width), (3, 8));
    assert_eq!(items.iter().filter(|it| it.4.is_some()).count(), 1);
    assert_eq!(items[0].4, Some((3, 2)));
}

#[test]
fn split_then_close_focused_side_restores_leaf() {
    let mut w = Window::new();
    for c in "abc".chars() {
        w.edit(Action::NewChar(c));
    }
    w.edit(Action::Move(Motion::Left));
    w.edit(Action::Split(Direction::Horizontal));
    w.remove_focus_frame();
    assert!(!w.main_frame().has_inner_frames());
    assert!(w.focus_frame().has_focus());
    assert_eq!(w.focus_frame().cursor, (2, 0));
    assert_eq!(w.focus_frame().buffer, 0);
    assert_eq!(lines_of(&w.buffers[0]), vec!["abc"]);
    assert_eq!(w.detached_buffer(), vec![0]);
}
