use tuiedit::buffer::{Cursor, Selection, TextBuffer};

fn buffer_with(text: &str) -> TextBuffer {
    TextBuffer::with_content("/tmp/notes.txt", Some(String::from("notes.txt")), text)
}

fn all_lines(b: &TextBuffer) -> Vec<String> {
    b.lines().clone()
}

#[test]
fn new_buffer_is_one_empty_untitled_line() {
    let b = TextBuffer::new();
    assert_eq!(all_lines(&b), vec![String::new()]);
    assert_eq!(b.filename(), "Untitled");
    assert!(b.path().is_none());
    assert!(!b.is_dirty());
    assert_eq!(b.cursor(), Cursor::new(0, 0));
    assert_eq!(b.line_count(), 1);
}

#[test]
fn content_is_split_at_newlines_without_carriage_returns() {
    let b = buffer_with("one\r\ntwo\r\nthree");
    assert_eq!(all_lines(&b), vec!["one", "two", "three"]);
    assert_eq!(b.contents(), "one\r\ntwo\r\nthree");
    let c = buffer_with("a\nb\n");
    assert_eq!(all_lines(&c), vec!["a", "b", ""]);
    assert_eq!(c.contents(), "a\nb\n");
    assert_eq!(c.filename(), "notes.txt");
    assert_eq!(c.path().map(|p| p.as_str()), Some("/tmp/notes.txt"));
}

#[test]
fn unnamed_file_is_shown_as_unknown() {
    let b = TextBuffer::with_content("/", None, "x");
    assert_eq!(b.filename(), "Unknown");
}

#[test]
fn save_then_open_gives_back_the_lines() {
    for text in ["alpha\nbeta\ngamma", "x\r\ny\r\nz", "", "only"] {
        let b = buffer_with(text);
        let (path, content) = b.prepare_save().expect("has a path");
        assert_eq!(path, "/tmp/notes.txt");
        let again = TextBuffer::with_content(&path, None, &content);
        assert_eq!(all_lines(&again), all_lines(&b));
    }
}

#[test]
fn saving_without_a_path_is_refused() {
    let b = TextBuffer::new();
    assert_eq!(b.prepare_save(), Err(String::from("No file path set")));
}

#[test]
fn typing_inserts_at_the_cursor_and_marks_the_buffer_modified() {
    let mut b = TextBuffer::new();
    b.insert_char('h');
    b.insert_char('i');
    assert_eq!(all_lines(&b), vec!["hi"]);
    assert_eq!(b.cursor(), Cursor::new(0, 2));
    assert!(b.is_dirty());
    b.insert_char('\n');
    b.insert_str("yo");
    assert_eq!(all_lines(&b), vec!["hi", "yo"]);
    assert_eq!(b.cursor(), Cursor::new(1, 2));
}

#[test]
fn enter_splits_the_line_at_the_cursor() {
    let mut b = buffer_with("abcd");
    b.set_cursor(Cursor::new(0, 2));
    b.insert_char('\n');
    assert_eq!(all_lines(&b), vec!["ab", "cd"]);
    assert_eq!(b.cursor(), Cursor::new(1, 0));
}

#[test]
fn typing_then_backspace_restores_the_text() {
    let mut b = buffer_with("hello\nworld");
    b.set_cursor(Cursor::new(1, 3));
    let before = all_lines(&b);
    b.insert_char('é');
    assert_eq!(all_lines(&b), vec!["hello", "woréld"]);
    // The column advances by one byte, as the editor counts it.
    assert_eq!(b.cursor(), Cursor::new(1, 4));
    b.delete_backward();
    assert_eq!(all_lines(&b), before);
    assert_eq!(b.cursor(), Cursor::new(1, 3));
    b.insert_char('\n');
    b.delete_backward();
    assert_eq!(all_lines(&b), before);
    assert_eq!(b.cursor(), Cursor::new(1, 3));
}

#[test]
fn backspace_at_line_start_joins_lines() {
    let mut b = buffer_with("ab\ncd");
    b.set_cursor(Cursor::new(1, 0));
    b.delete_backward();
    assert_eq!(all_lines(&b), vec!["abcd"]);
    assert_eq!(b.cursor(), Cursor::new(0, 2));
}

#[test]
fn backspace_at_the_very_start_only_marks_modified() {
    let mut b = buffer_with("ab");
    b.delete_backward();
    assert_eq!(all_lines(&b), vec!["ab"]);
    assert!(b.is_dirty());
}

#[test]
fn delete_removes_the_character_at_the_cursor_or_joins() {
    let mut b = buffer_with("abc\nde");
    b.set_cursor(Cursor::new(0, 1));
    b.delete_forward();
    assert_eq!(all_lines(&b), vec!["ac", "de"]);
    b.set_cursor(Cursor::new(0, 2));
    b.delete_forward();
    assert_eq!(all_lines(&b), vec!["acde"]);
    b.set_cursor(Cursor::new(0, 4));
    b.delete_forward();
    assert_eq!(all_lines(&b), vec!["acde"]);
}

#[test]
fn selection_is_replaced_by_typing() {
    let mut b = buffer_with("hello world\nsecond");
    b.set_cursor(Cursor::new(0, 6));
    b.begin_selection();
    b.set_cursor(Cursor::new(1, 3));
    b.update_selection();
    assert_eq!(b.selected_text(), Some(String::from("world\nsec")));
    b.insert_char('X');
    assert_eq!(all_lines(&b), vec!["hello Xond"]);
    assert!(b.selection().is_none());
    assert_eq!(b.cursor(), Cursor::new(0, 7));
}

#[test]
fn backwards_selection_is_ordered() {
    let s = Selection::new(Cursor::new(2, 1), Cursor::new(0, 4));
    assert_eq!(s.sorted(), (Cursor::new(0, 4), Cursor::new(2, 1)));
    let t = Selection::new(Cursor::new(1, 1), Cursor::new(1, 3));
    assert_eq!(t.sorted(), (Cursor::new(1, 1), Cursor::new(1, 3)));
}

#[test]
fn selection_over_several_lines_is_deleted() {
    let mut b = buffer_with("one\ntwo\nthree\nfour");
    b.set_cursor(Cursor::new(3, 2));
    b.begin_selection();
    b.set_cursor(Cursor::new(0, 1));
    b.update_selection();
    assert_eq!(b.selected_text(), Some(String::from("ne\ntwo\nthree\nfo")));
    b.delete_selection();
    assert_eq!(all_lines(&b), vec!["our"]);
    assert_eq!(b.cursor(), Cursor::new(0, 1));
}

#[test]
fn moving_left_and_right_wraps_between_lines() {
    let mut b = buffer_with("ab\ncd");
    b.set_cursor(Cursor::new(1, 0));
    b.move_left();
    assert_eq!(b.cursor(), Cursor::new(0, 2));
    b.move_right();
    assert_eq!(b.cursor(), Cursor::new(1, 0));
    b.move_right();
    b.move_right();
    b.move_right();
    assert_eq!(b.cursor(), Cursor::new(1, 2));
}

#[test]
fn moving_up_and_down_clamps_the_column() {
    let mut b = buffer_with("long line\nab\nlonger line");
    b.set_cursor(Cursor::new(0, 8));
    b.move_down();
    assert_eq!(b.cursor(), Cursor::new(1, 2));
    b.move_down();
    assert_eq!(b.cursor(), Cursor::new(2, 2));
    b.move_down();
    assert_eq!(b.cursor(), Cursor::new(2, 2));
    b.move_up();
    b.move_up();
    b.move_up();
    assert_eq!(b.cursor(), Cursor::new(0, 2));
}

#[test]
fn home_end_and_paging() {
    let text: Vec<String> = (0..50).map(|i| format!("line {i}")).collect();
    let mut b = buffer_with(&text.join("\n"));
    b.set_cursor(Cursor::new(0, 3));
    b.move_end();
    assert_eq!(b.cursor(), Cursor::new(0, 6));
    b.move_home();
    assert_eq!(b.cursor(), Cursor::new(0, 0));
    b.move_page_down(20);
    assert_eq!(b.cursor().line, 19);
    b.move_page_down(20);
    assert_eq!(b.cursor().line, 38);
    b.move_page_down(20);
    assert_eq!(b.cursor().line, 49);
    b.move_page_up(20);
    assert_eq!(b.cursor().line, 30);
}

#[test]
fn extra_cursors_are_added_above_and_below_and_cleared() {
    let mut b = buffer_with("abcdef\nxy\nlast line");
    b.set_cursor(Cursor::new(1, 1));
    b.add_cursor_alt_down();
    b.add_cursor_alt_up();
    assert_eq!(b.cursors(), &[Cursor::new(2, 1), Cursor::new(0, 1)]);
    b.add_extra_cursor(Cursor::new(2, 1));
    b.add_extra_cursor(Cursor::new(1, 1));
    assert_eq!(b.cursors().len(), 2);
    b.clear_extra_cursors();
    assert!(b.cursors().is_empty());
}

#[test]
fn find_all_ignores_case_and_overlaps() {
    let b = buffer_with("Abc abc\nxx ABCabc\nnone");
    let found = b.find_all("abc");
    let spots: Vec<(usize, usize, usize)> = found.iter().map(|m| (m.line, m.start_col, m.end_col)).collect();
    assert_eq!(spots, vec![(0, 0, 3), (0, 4, 7), (1, 3, 6), (1, 6, 9)]);
    let aa = buffer_with("aaa");
    assert_eq!(aa.find_all("aa").len(), 2);
    assert!(b.find_all("").is_empty());
}

#[test]
fn go_to_match_moves_the_cursor() {
    let mut b = buffer_with("foo bar\nbar");
    let m = b.find_all("bar")[1];
    b.go_to_match(&m);
    assert_eq!(b.cursor(), Cursor::new(1, 0));
}

#[test]
fn edit_checks_tell_where_editing_is_defined() {
    let mut b = buffer_with("aé");
    b.set_cursor(Cursor::new(0, 2));
    assert!(!b.can_insert_char('x'));
    assert!(!b.can_insert_tab());
    assert!(b.can_delete_backward());
    assert!(!b.can_delete_forward());
    b.set_cursor(Cursor::new(0, 1));
    assert!(b.can_insert_char('x'));
    assert!(b.can_insert_tab());
    assert!(b.can_delete_forward());
    b.set_cursor(Cursor::new(5, 0));
    assert!(!b.boundary_at(Cursor::new(5, 0)));
}

#[test]
fn marking_saved_clears_the_modified_flag() {
    let mut b = TextBuffer::new();
    b.insert_char('a');
    b.mark_saved_as("/tmp/out.rs", Some(String::from("out.rs")));
    assert!(!b.is_dirty());
    assert_eq!(b.filename(), "out.rs");
    assert_eq!(b.path().map(|p| p.as_str()), Some("/tmp/out.rs"));
    assert_eq!(b.line_len(0), 1);
    assert_eq!(b.line(0), Some("a"));
    assert_eq!(b.line(1), None);
}

#[test]
fn a_path_names_the_file_by_its_last_component() {
    let mut b = TextBuffer::new();
    b.set_path("/home/me/project/notes.md");
    assert_eq!(b.filename(), "notes.md");
    assert_eq!(b.path().map(|p| p.as_str()), Some("/home/me/project/notes.md"));
    let c = TextBuffer::from_content("/srv/data.csv", "a,b\n1,2");
    assert_eq!(c.filename(), "data.csv");
    assert_eq!(c.line_count(), 2);
    b.set_path("/");
    assert_eq!(b.filename(), "Unknown");
}
