use editor::buffer::{tab, Buffer, FlexiblePosition, TAB_WIDTH};

fn chars(s: &str) -> Vec<char> {
    s.chars().collect()
}

fn buffer_of(lines: &[&str]) -> Buffer {
    let mut b = Buffer::new();
    b.insert_str((0, 0), &chars(lines[0]));
    for (i, l) in lines.iter().enumerate().skip(1) {
        b.insert_line((0, i), &chars(l));
    }
    b
}

fn lines_of(b: &Buffer) -> Vec<String> {
    (0..b.lines_len()).map(|i| b.line(i).iter().collect()).collect()
}

#[test]
fn new_buffer_has_one_empty_line() {
    let b = Buffer::new();
    assert_eq!(b.lines_len(), 1);
    assert_eq!(b.line_len_idx(0), 0);
    assert_eq!(b.text_full(), Vec::<char>::new());
}

#[test]
fn text_full_joins_lines() {
    let b = buffer_of(&["ab", "", "cd"]);
    assert_eq!(b.text_full().iter().collect::<String>(), "ab\n\ncd");
}

#[test]
fn insert_and_remove_chars() {
    let mut b = buffer_of(&["ac"]);
    b.insert_char((1, 0), 'b');
    assert_eq!(lines_of(&b), vec!["abc"]);
    b.remove_char((0, 0));
    assert_eq!(lines_of(&b), vec!["bc"]);
    assert_eq!(b.line_len((0, 0)), 2);
}

#[test]
fn insert_str_keeps_line_breaks_literal() {
    let mut b = buffer_of(&["ad"]);
    b.insert_str((1, 0), &chars("b\nc"));
    assert_eq!(b.lines_len(), 1);
    assert_eq!(lines_of(&b), vec!["ab\ncd"]);
}

#[test]
fn push_str_appends_whatever_the_column() {
    let mut b = buffer_of(&["ab", "x"]);
    b.push_str((0, 0), &chars("cd"));
    assert_eq!(lines_of(&b), vec!["abcd", "x"]);
}

#[test]
fn delete_line_returns_it() {
    let mut b = buffer_of(&["a", "b", "c"]);
    let l = b.delete_line((0, 1));
    assert_eq!(l, chars("b"));
    assert_eq!(lines_of(&b), vec!["a", "c"]);
}

#[test]
fn split_off_and_remove_front() {
    let mut b = buffer_of(&["hello"]);
    assert_eq!(b.split_off((2, 0)), chars("llo"));
    assert_eq!(lines_of(&b), vec!["he"]);
    let mut b = buffer_of(&["hello"]);
    assert_eq!(b.remove_front((2, 0)), chars("he"));
    assert_eq!(lines_of(&b), vec!["llo"]);
}

#[test]
fn tab_is_four_spaces() {
    assert_eq!(tab(), chars("    "));
    assert_eq!(TAB_WIDTH, 4);
}

#[test]
fn flexible_positions_add() {
    assert_eq!(FlexiblePosition::Idx(2).add(FlexiblePosition::Idx(3)), FlexiblePosition::Idx(5));
    assert_eq!(FlexiblePosition::Idx(2).add(FlexiblePosition::Edge), FlexiblePosition::Edge);
    assert_eq!(FlexiblePosition::Edge.add(FlexiblePosition::Idx(1)), FlexiblePosition::Edge);
}
