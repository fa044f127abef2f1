use tuiedit::app::{App, Effect, Event, KeyCode, KeyEvent, Mode, Modifiers, parse_command, command_line_text, Command};
use tuiedit::buffer::{Cursor, TextBuffer};
use tuiedit::filetree::{DirEntryInfo, FileTree};

fn none() -> Modifiers {
    Modifiers { shift: false, control: false, alt: false, other: false }
}

fn ctrl() -> Modifiers {
    Modifiers { shift: false, control: true, alt: false, other: false }
}

fn press(app: &mut App, code: KeyCode) -> Effect {
    app.try_handle_event(Event::Key(KeyEvent { code, modifiers: none() })).expect("defined")
}

fn press_ctrl(app: &mut App, c: char) -> Effect {
    app.try_handle_event(Event::Key(KeyEvent { code: KeyCode::Char(c), modifiers: ctrl() })).expect("defined")
}

fn type_text(app: &mut App, text: &str) {
    for c in text.chars() {
        press(app, KeyCode::Char(c));
    }
}

fn new_app() -> App {
    let entries = vec![
        DirEntryInfo { path: String::from("/proj/src"), name: String::from("src"), is_dir: true },
        DirEntryInfo { path: String::from("/proj/main.rs"), name: String::from("main.rs"), is_dir: false },
    ];
    App::new(FileTree::new("/proj", Some(String::from("proj")), &entries))
}

fn active_lines(app: &App) -> Vec<String> {
    app.active_buf_ref().lines().clone()
}

#[test]
fn a_new_editor_has_one_empty_buffer() {
    let app = new_app();
    assert_eq!(app.buffers.len(), 1);
    assert_eq!(app.active_buffer, 0);
    assert_eq!(app.mode, Mode::Normal);
    assert_eq!(app.tree_width, 25);
    assert_eq!(app.terminal_height, 10);
    assert!(!app.quit);
    assert_eq!(app.mode_label(), "INSERT");
}

#[test]
fn typing_enter_and_tab_edit_the_active_buffer() {
    let mut app = new_app();
    type_text(&mut app, "fn x");
    press(&mut app, KeyCode::Enter);
    press(&mut app, KeyCode::Tab);
    type_text(&mut app, "y");
    assert_eq!(active_lines(&app), vec!["fn x", "    y"]);
    press(&mut app, KeyCode::Backspace);
    press(&mut app, KeyCode::Home);
    press(&mut app, KeyCode::Delete);
    assert_eq!(active_lines(&app), vec!["fn x", "   "]);
}

#[test]
fn shift_arrows_select_and_typing_replaces() {
    let mut app = new_app();
    type_text(&mut app, "abcd");
    let shift = Modifiers { shift: true, control: false, alt: false, other: false };
    for _ in 0..2 {
        app.try_handle_event(Event::Key(KeyEvent { code: KeyCode::Left, modifiers: shift })).unwrap();
    }
    assert_eq!(app.active_buf_ref().selected_text(), Some(String::from("cd")));
    // Typing drops the selection and types at the cursor.
    type_text(&mut app, "Z");
    assert_eq!(active_lines(&app), vec!["abZcd"]);
    assert!(app.active_buf_ref().selection().is_none());
}

#[test]
fn command_line_saves_quits_and_opens() {
    let mut app = new_app();
    press(&mut app, KeyCode::Char(':'));
    assert_eq!(app.mode, Mode::Command);
    assert_eq!(app.command_buffer, ":");
    type_text(&mut app, "w  out.txt ");
    let eff = press(&mut app, KeyCode::Enter);
    assert!(matches!(eff, Effect::SaveActiveAs(ref p) if p == "out.txt"));
    assert_eq!(app.mode, Mode::Normal);
    assert_eq!(app.command_buffer, "");

    press(&mut app, KeyCode::Char(':'));
    type_text(&mut app, "wq");
    let eff = press(&mut app, KeyCode::Enter);
    assert!(matches!(eff, Effect::SaveActive));
    assert!(app.quit);

    let mut app = new_app();
    press(&mut app, KeyCode::Char(':'));
    type_text(&mut app, "edit src/lib.rs");
    assert!(matches!(press(&mut app, KeyCode::Enter), Effect::OpenFile(ref p) if p == "src/lib.rs"));
    press(&mut app, KeyCode::Char(':'));
    type_text(&mut app, "cd ..");
    assert!(matches!(press(&mut app, KeyCode::Enter), Effect::ChangeDir(ref p) if p == ".."));
    press(&mut app, KeyCode::Char(':'));
    type_text(&mut app, "qx");
    press(&mut app, KeyCode::Backspace);
    press(&mut app, KeyCode::Enter);
    assert!(app.quit);
}

#[test]
fn escape_leaves_the_command_line() {
    let mut app = new_app();
    press(&mut app, KeyCode::Char(':'));
    type_text(&mut app, "q");
    press(&mut app, KeyCode::Esc);
    assert_eq!(app.mode, Mode::Normal);
    assert_eq!(app.command_buffer, "");
    assert!(!app.quit);
}

#[test]
fn goto_moves_to_a_line_within_the_buffer() {
    let mut app = new_app();
    type_text(&mut app, "a");
    press(&mut app, KeyCode::Enter);
    type_text(&mut app, "b");
    press(&mut app, KeyCode::Enter);
    type_text(&mut app, "c");
    for (cmd, line) in [(":goto 2", 1usize), (":goto 99", 2), (":goto 1", 0)] {
        press(&mut app, KeyCode::Char(':'));
        type_text(&mut app, &cmd[1..]);
        press(&mut app, KeyCode::Enter);
        assert_eq!(app.active_buf_ref().cursor(), Cursor::new(line, 0));
    }
    press(&mut app, KeyCode::Char(':'));
    type_text(&mut app, "goto 0");
    press(&mut app, KeyCode::Enter);
    assert_eq!(app.active_buf_ref().cursor(), Cursor::new(0, 0));
}

#[test]
fn commands_are_parsed_as_the_command_line_reads_them() {
    assert_eq!(command_line_text("  :  write  a b  "), "write  a b");
    assert_eq!(command_line_text("::q"), ":q");
    assert!(matches!(parse_command("w"), Command::Save));
    assert!(matches!(parse_command("write"), Command::Save));
    assert!(matches!(parse_command("write notes.md"), Command::SaveAs(ref p) if p == "notes.md"));
    assert!(matches!(parse_command("quit"), Command::Quit));
    assert!(matches!(parse_command("np"), Command::NewProject));
    assert!(matches!(parse_command("newproject"), Command::NewProject));
    assert!(matches!(parse_command("goto +12"), Command::GoTo(12)));
    assert!(matches!(parse_command("goto 0"), Command::Unknown));
    assert!(matches!(parse_command("goto x"), Command::Unknown));
    assert!(matches!(parse_command("%s/a\\/b/c\\/d/"), Command::Replace(ref a, ref b) if a == "a\\" && b == "b"));
    assert!(matches!(parse_command("s/foo/b\\/r/g"), Command::Replace(ref a, ref b) if a == "foo" && b == "b\\"));
    assert!(matches!(parse_command("s/x/y\\/"), Command::Replace(ref a, ref b) if a == "x" && b == "y\\"));
    assert!(matches!(parse_command("s//x/"), Command::Unknown));
    assert!(matches!(parse_command("s/foo"), Command::Unknown));
    assert!(matches!(parse_command("wat"), Command::Unknown));
}

#[test]
fn palette_runs_the_selected_command() {
    let mut app = new_app();
    press_ctrl(&mut app, '/');
    assert_eq!(app.mode, Mode::CmdPalette);
    assert!(app.cmd_palette.active);
    type_text(&mut app, "SAVE");
    let names: Vec<&str> = app.cmd_palette.filtered().iter().map(|e| e.name).collect();
    assert_eq!(names, vec!["save", "save as"]);
    let eff = press(&mut app, KeyCode::Enter);
    assert!(matches!(eff, Effect::SaveActive));
    assert_eq!(app.mode, Mode::Normal);
    assert!(!app.cmd_palette.active);

    press_ctrl(&mut app, '/');
    type_text(&mut app, "save");
    press(&mut app, KeyCode::Down);
    press(&mut app, KeyCode::Enter);
    assert_eq!(app.mode, Mode::Command);
    assert_eq!(app.command_buffer, ":w ");
}

#[test]
fn palette_wraps_and_closes_all_tabs() {
    let mut app = new_app();
    press_ctrl(&mut app, 'n');
    press_ctrl(&mut app, 'n');
    assert_eq!(app.buffers.len(), 3);
    press_ctrl(&mut app, '/');
    press(&mut app, KeyCode::Up);
    assert_eq!(app.cmd_palette.selected_cmd(), Some("quit"));
    press(&mut app, KeyCode::Down);
    assert_eq!(app.cmd_palette.selected_cmd(), Some("terminal"));
    type_text(&mut app, "close all");
    press(&mut app, KeyCode::Enter);
    assert_eq!(app.buffers.len(), 1);
    assert_eq!(app.active_buffer, 0);
}

#[test]
fn search_steps_through_matches() {
    let mut app = new_app();
    type_text(&mut app, "ab ab");
    press(&mut app, KeyCode::Enter);
    type_text(&mut app, "AB");
    press_ctrl(&mut app, 'f');
    assert_eq!(app.mode, Mode::Search);
    type_text(&mut app, "ab");
    assert_eq!(app.search.matches.len(), 3);
    press(&mut app, KeyCode::Enter);
    assert_eq!(app.active_buf_ref().cursor(), Cursor::new(0, 3));
    press(&mut app, KeyCode::Tab);
    assert_eq!(app.active_buf_ref().cursor(), Cursor::new(1, 0));
    press(&mut app, KeyCode::BackTab);
    assert_eq!(app.active_buf_ref().cursor(), Cursor::new(0, 3));
    assert_eq!(app.search.current_match_info(), "2/3");
    press(&mut app, KeyCode::Backspace);
    assert_eq!(app.search.query, "a");
    press(&mut app, KeyCode::Esc);
    assert_eq!(app.mode, Mode::Normal);
    assert!(!app.search.active);
    assert!(app.search.matches.is_empty());
}

#[test]
fn project_form_collects_and_submits() {
    let mut app = new_app();
    press_ctrl(&mut app, 'p');
    assert_eq!(app.mode, Mode::ProjectInput);
    assert_eq!(app.proj_lang, "rust");
    assert!(matches!(press(&mut app, KeyCode::Enter), Effect::Nothing));
    assert_eq!(app.proj_status, "Error: Project name is required");
    type_text(&mut app, "demo");
    press(&mut app, KeyCode::Tab);
    for _ in 0..4 {
        press(&mut app, KeyCode::Backspace);
    }
    press(&mut app, KeyCode::Tab);
    type_text(&mut app, "toy");
    press(&mut app, KeyCode::BackTab);
    press(&mut app, KeyCode::BackTab);
    assert_eq!(app.proj_field, 0);
    let eff = press(&mut app, KeyCode::Enter);
    match eff {
        Effect::CreateProject(s) => {
            assert_eq!(s.name, "demo");
            assert_eq!(s.language, "rust");
            assert_eq!(s.description, "toy");
        }
        _ => panic!("expected a project to create"),
    }
    assert_eq!(app.proj_status, "Creating project...");
    let eff = app.project_created(Err(String::from("disk full")));
    assert!(matches!(eff, Effect::Nothing));
    assert_eq!(app.proj_status, "Error: disk full");
    let eff = app.project_created(Ok(()));
    assert!(matches!(eff, Effect::ReloadTree));
    assert_eq!(app.proj_status, "Project 'demo' created!");
    assert_eq!(app.mode, Mode::Normal);
}

#[test]
fn terminal_keys_go_to_the_shell() {
    let mut app = new_app();
    let eff = press_ctrl(&mut app, 't');
    assert!(matches!(eff, Effect::StartShell(ref s) if s == "cmd.exe"));
    app.term_panel.mark_started("cmd.exe");
    assert_eq!(app.mode_label(), "TERM");
    assert!(matches!(press(&mut app, KeyCode::Char('é')), Effect::WriteShell(ref b) if b == &vec![0xc3u8, 0xa9]));
    assert!(matches!(press(&mut app, KeyCode::Enter), Effect::WriteShell(ref b) if b == &vec![13u8, 10]));
    assert!(matches!(press(&mut app, KeyCode::Up), Effect::WriteShell(ref b) if b == &vec![27u8, 91, 65]));
    assert!(matches!(press(&mut app, KeyCode::Delete), Effect::WriteShell(ref b) if b == &vec![27u8, 91, 51, 126]));
    assert!(matches!(press_ctrl(&mut app, 'c'), Effect::WriteShell(ref b) if b == &vec![3u8]));
    assert!(matches!(press_ctrl(&mut app, 'x'), Effect::Nothing));
    assert!(matches!(press(&mut app, KeyCode::PageUp), Effect::ScrollTerminalUp));
    press(&mut app, KeyCode::Esc);
    assert!(!app.term_panel.focused);
    assert!(matches!(press_ctrl(&mut app, 't'), Effect::Nothing));
    assert!(app.term_panel.focused);
    // The focused terminal takes Control-T itself.
    assert!(matches!(press_ctrl(&mut app, 't'), Effect::Nothing));
    assert!(app.term_panel.visible && app.term_panel.focused);
    press(&mut app, KeyCode::Esc);
    assert!(matches!(app.run_palette("terminal"), Effect::StopShell));
    assert!(!app.term_panel.visible);
}

#[test]
fn tabs_open_switch_and_close() {
    let mut app = new_app();
    press_ctrl(&mut app, 'n');
    assert_eq!((app.buffers.len(), app.active_buffer), (2, 1));
    app.try_handle_event(Event::Key(KeyEvent { code: KeyCode::BackTab, modifiers: ctrl() })).unwrap();
    assert_eq!(app.active_buffer, 0);
    app.try_handle_event(Event::Key(KeyEvent { code: KeyCode::Tab, modifiers: ctrl() })).unwrap();
    assert_eq!(app.active_buffer, 1);
    press_ctrl(&mut app, 'w');
    assert_eq!((app.buffers.len(), app.active_buffer), (1, 0));
    press_ctrl(&mut app, 'w');
    assert_eq!(app.buffers.len(), 1);
    let tabs = app.tab_segments();
    assert_eq!(tabs.len(), 2);
    assert_eq!(tabs[0].text, " Untitled ");
}

#[test]
fn tree_focus_selects_and_opens_entries() {
    let mut app = new_app();
    press_ctrl(&mut app, 'o');
    assert_eq!(app.mode_label(), "TREE");
    press(&mut app, KeyCode::Char('j'));
    let eff = press(&mut app, KeyCode::Char('h'));
    assert!(matches!(eff, Effect::ListDirectory(ref p) if p == "/proj/src"));
    let inside = vec![DirEntryInfo { path: String::from("/proj/src/lib.rs"), name: String::from("lib.rs"), is_dir: false }];
    assert!(app.filetree.expand(&inside));
    assert_eq!(app.filetree.nodes().len(), 4);
    assert!(matches!(press(&mut app, KeyCode::Char('h')), Effect::Nothing));
    assert_eq!(app.filetree.nodes().len(), 3);
    press(&mut app, KeyCode::Down);
    let eff = press(&mut app, KeyCode::Enter);
    assert!(matches!(eff, Effect::ActivateTreeEntry(ref p) if p == "/proj/main.rs"));
    let eff = app.tree_entry_activated("/proj/main.rs", false);
    assert!(matches!(eff, Effect::OpenFile(ref p) if p == "/proj/main.rs"));
    assert!(!app.filetree_focused);
}

#[test]
fn opening_the_same_file_twice_reuses_its_tab() {
    let mut app = new_app();
    app.open_loaded(TextBuffer::with_content("/proj/a.txt", Some(String::from("a.txt")), "x"));
    assert_eq!((app.buffers.len(), app.active_buffer), (2, 1));
    app.next_tab();
    app.prev_tab();
    assert_eq!(app.active_buffer, 0);
    app.open_loaded(TextBuffer::with_content("/proj/a.txt", Some(String::from("a.txt")), "y"));
    assert_eq!((app.buffers.len(), app.active_buffer), (2, 1));
    assert_eq!(active_lines(&app), vec!["x"]);
}

#[test]
fn saving_needs_a_path() {
    let mut app = new_app();
    assert_eq!(app.save_request(), Err(String::from("No path")));
    app.open_loaded(TextBuffer::with_content("/proj/b.txt", None, "one\ntwo"));
    assert_eq!(app.save_request(), Ok((String::from("/proj/b.txt"), String::from("one\ntwo"))));
    app.mark_active_saved_as("/proj/c.txt", Some(String::from("c.txt")));
    assert_eq!(app.active_buf_ref().filename(), "c.txt");
}

#[test]
fn undefined_events_change_nothing() {
    let mut app = new_app();
    type_text(&mut app, "é");
    app.buffers[0].set_cursor(Cursor::new(0, 1));
    let r = app.try_handle_event(Event::Key(KeyEvent { code: KeyCode::Char('x'), modifiers: none() }));
    assert!(r.is_none());
    assert_eq!(active_lines(&app), vec!["é"]);
    app.active_buffer = 7;
    assert!(app.try_handle_event(Event::Other).is_none());
    app.active_buffer = 0;
    assert!(matches!(app.try_handle_event(Event::Other), Some(Effect::Nothing)));
}

#[test]
fn palette_selected_commands_change_the_buffer() {
    let mut app = new_app();
    app.buffers[0].insert_str("abc");
    app.buffers[0].add_extra_cursor(Cursor::new(0, 1));
    assert_eq!(app.active_buf_ref().cursors().len(), 1);
    let eff = app.run_palette("select all");
    assert!(matches!(eff, Effect::SelectAll));
    assert!(app.active_buf_ref().cursors().is_empty());
    assert!(matches!(app.run_palette("delete line"), Effect::DeleteLine));
    assert!(matches!(app.run_palette("duplicate line"), Effect::DuplicateLine));
    assert!(matches!(app.run_palette("reload"), Effect::ReloadActive));
    assert!(matches!(app.run_palette("wsl"), Effect::StartShell(ref s) if s == "wsl.exe"));
    assert!(matches!(app.run_palette("help"), Effect::Nothing));
    app.run_palette("go to line");
    assert_eq!(app.command_buffer, ":goto ");
    app.run_palette("replace");
    assert_eq!(app.command_buffer, ":%s/");
    app.run_palette("open");
    assert!(app.filetree_focused);
    app.run_palette("quit");
    assert!(app.quit);
}

#[test]
fn opening_different_files_adds_tabs_and_same_paths_switch() {
    let mut app = new_app();
    app.open_loaded(TextBuffer::from_content("/proj/a.txt", "a"));
    app.open_loaded(TextBuffer::from_content("/proj/b.txt", "b"));
    app.open_loaded(TextBuffer::from_content("other/c.rs", "c"));
    assert_eq!((app.buffers.len(), app.active_buffer), (4, 3));
    app.open_loaded(TextBuffer::from_content("/proj/./b.txt", "again"));
    assert_eq!((app.buffers.len(), app.active_buffer), (4, 2));
    assert_eq!(active_lines(&app), vec!["b"]);
    app.open_loaded(TextBuffer::from_content("/proj/a.txt", "again"));
    assert_eq!((app.buffers.len(), app.active_buffer), (4, 1));
    assert_eq!(app.active_buf_ref().filename(), "a.txt");
}

#[test]
fn an_untitled_tab_never_counts_as_the_opened_file() {
    let mut app = new_app();
    assert!(app.buffers[0].path().is_none());
    app.open_loaded(TextBuffer::from_content("/proj/x.txt", "x"));
    assert_eq!((app.buffers.len(), app.active_buffer), (2, 1));
    assert_eq!(active_lines(&app), vec!["x"]);
}
