use tuiedit::app::{App, Event, KeyCode, KeyEvent, Modifiers};
use tuiedit::buffer::{Cursor, TextBuffer};
use tuiedit::cmd_palette::CmdPalette;
use tuiedit::filetree::FileTree;
use tuiedit::search::SearchState;

#[test]
fn deleting_everything_keeps_one_line() {
    let mut b = TextBuffer::with_content("/t/a", None, "ab\nc");
    b.set_cursor(Cursor::new(1, 1));
    for _ in 0..10 {
        b.delete_backward();
    }
    assert_eq!(b.lines().clone(), vec![String::new()]);
    b.delete_forward();
    assert_eq!(b.line_count(), 1);
}

#[test]
fn right_then_left_and_left_then_right_come_back() {
    let mut b = TextBuffer::with_content("/t/a", None, "ab\ncd");
    for c in [Cursor::new(0, 0), Cursor::new(0, 2), Cursor::new(1, 1)] {
        b.set_cursor(c);
        b.move_right();
        b.move_left();
        assert_eq!(b.cursor(), c);
    }
    for c in [Cursor::new(1, 0), Cursor::new(0, 1), Cursor::new(1, 2)] {
        b.set_cursor(c);
        b.move_left();
        b.move_right();
        assert_eq!(b.cursor(), c);
    }
}

#[test]
fn next_then_previous_match_comes_back() {
    let b = TextBuffer::with_content("/t/a", None, "a a a a");
    let mut s = SearchState::new();
    s.push_char('a');
    s.run_search(&b);
    for start in 0..4 {
        s.current_match = start;
        s.next_match();
        s.prev_match();
        assert_eq!(s.current_match, start);
        s.prev_match();
        s.next_match();
        assert_eq!(s.current_match, start);
    }
}

#[test]
fn next_then_previous_command_comes_back() {
    let mut p = CmdPalette::new();
    p.toggle();
    for start in [0usize, 5, 17] {
        p.selected = start;
        p.select_next();
        p.select_prev();
        assert_eq!(p.selected, start);
    }
}

#[test]
fn three_tabs_in_the_project_form_come_back() {
    let mut app = App::new(FileTree::new("/r", None, &Vec::new()));
    app.start_project_creation();
    let tab = Event::Key(KeyEvent {
        code: KeyCode::Tab,
        modifiers: Modifiers { shift: false, control: false, alt: false, other: false },
    });
    for start in 0..3 {
        app.proj_field = start;
        for _ in 0..3 {
            app.try_handle_event(tab).unwrap();
        }
        assert_eq!(app.proj_field, start);
    }
}

#[test]
fn page_up_is_repeated_up() {
    let text = "first\nsecond line\nx\nfourth\nfifth line here\nsix";
    for h in 0..8usize {
        let mut paged = TextBuffer::with_content("/t/p", None, text);
        paged.set_cursor(Cursor::new(4, 12));
        let mut stepped = paged.clone();
        paged.move_page_up(h);
        for _ in 0..h.saturating_sub(1) {
            stepped.move_up();
        }
        assert_eq!(paged.cursor(), stepped.cursor());
        assert_eq!(paged.cursor().line, 4usize.saturating_sub(h.saturating_sub(1)));
        assert!(paged.cursors().is_empty());
        assert!(!paged.is_dirty());
    }
}

#[test]
fn opening_then_saving_writes_the_same_text() {
    for text in ["a\nb\n", "a\r\nb\r\nc", "", "one", "x\r\n\r\n", "tab\there\n\n"] {
        let b = TextBuffer::with_content("/t/s", None, text);
        assert_eq!(b.contents(), text);
        assert_eq!(b.prepare_save(), Ok((String::from("/t/s"), String::from(text))));
    }
}

#[test]
fn deleting_a_selection_and_typing_it_back_restores_the_lines() {
    let text = "hello\nworld wide\n\nfoo bar\nend";
    let cases = [
        (Cursor::new(0, 2), Cursor::new(3, 4)),
        (Cursor::new(3, 4), Cursor::new(0, 2)),
        (Cursor::new(1, 1), Cursor::new(1, 7)),
        (Cursor::new(2, 0), Cursor::new(4, 3)),
        (Cursor::new(0, 5), Cursor::new(1, 0)),
    ];
    for (anchor, end) in cases {
        let mut b = TextBuffer::with_content("/t/r", None, text);
        let original = b.lines().clone();
        b.set_cursor(anchor);
        b.begin_selection();
        b.set_cursor(end);
        b.update_selection();
        let picked = b.selected_text().unwrap();
        b.delete_selection();
        b.insert_str(&picked);
        assert_eq!(b.lines().clone(), original);
        let far = if (anchor.line, anchor.col) < (end.line, end.col) { end } else { anchor };
        assert_eq!(b.cursor(), far);
        assert!(b.selection().is_none());
    }
}

#[test]
fn search_ignores_the_case_of_ascii_letters() {
    let b = TextBuffer::with_content("/t/q", None, "Hello world\nsay HELLO\nhelLo hello");
    let lower = b.find_all("hello");
    let upper = b.find_all("HELLO");
    let mixed = b.find_all("hElLo");
    assert_eq!(lower, upper);
    assert_eq!(lower, mixed);
    let spots: Vec<(usize, usize, usize)> = lower.iter().map(|m| (m.line, m.start_col, m.end_col)).collect();
    assert_eq!(spots, vec![(0, 0, 5), (1, 4, 9), (2, 0, 5), (2, 6, 11)]);
}

#[test]
fn edits_never_leave_a_newline_inside_a_line() {
    let mut b = TextBuffer::with_content("/t/n", None, "ab\r\ncd\nef");
    b.set_cursor(Cursor::new(0, 1));
    b.insert_str("x\ny\n\nz");
    b.delete_backward();
    b.set_cursor(Cursor::new(1, 0));
    b.delete_forward();
    assert!(b.lines().iter().all(|l| !l.contains('\n')));
    let expected: Vec<String> = ["ax", "", "", "b", "cd", "ef"].iter().map(|s| s.to_string()).collect();
    assert_eq!(b.lines().clone(), expected);
}
