use tuiedit::ai_project::{answer_from_reply, exists_message, files_from_response, generated_or_generic, generic_template, ollama_prompt, rust_template, template_files, ProjectScaffold};
use tuiedit::buffer::{Cursor, TextBuffer};
use tuiedit::cmd_palette::CmdPalette;
use tuiedit::editor::{gutter_label, EditorRenderer};
use tuiedit::filetree::{node_label, DirEntryInfo, FileTree};
use tuiedit::search::SearchState;
use tuiedit::status::StatusBar;
use tuiedit::theme::{mode_style, line_num_style, tab_style, tree_file_style, Look, Rgb, Shade};

fn scaffold(name: &str, language: &str) -> ProjectScaffold {
    ProjectScaffold { name: String::from(name), language: String::from(language), description: String::from("a toy") }
}

fn pairs(v: &[(&str, &str)]) -> Vec<(String, String)> {
    v.iter().map(|(a, b)| (String::from(*a), String::from(*b))).collect()
}

#[test]
fn rust_template_is_a_cargo_project() {
    let files = rust_template("demo");
    assert_eq!(files[0], (String::from("Cargo.toml"), String::from("[package]\nname = \"demo\"\nversion = \"0.1.0\"\nedition = \"2021\"\n\n[dependencies]\n")));
    assert_eq!(files[1], (String::from("src/main.rs"), String::from("fn main() {\n    println!(\"Hello, demo!\");\n}\n")));
    assert_eq!(files[3], (String::from("README.md"), String::from("# demo\n\nYour project description here.")));
    assert_eq!(files.len(), 4);
}

#[test]
fn templates_are_chosen_by_lowercased_language() {
    assert_eq!(template_files(&scaffold("d", "RUST")), Some(rust_template("d")));
    assert_eq!(template_files(&scaffold("d", "Py")).unwrap()[3].0, "src/main.py");
    assert!(template_files(&scaffold("d", "C++")).is_some());
    assert!(template_files(&scaffold("d", "cobol")).is_none());
}

#[test]
fn unknown_languages_fall_back_to_generated_or_generic_files() {
    let s = scaffold("d", "cobol");
    let generic = generic_template("d", "cobol");
    assert_eq!(generic, pairs(&[("README.md", "# d\n\nLanguage: cobol\n\nYour project description here.\n"), ("src/main.txt", "// d project\n")]));
    assert_eq!(generated_or_generic(&s, Err(String::from("offline"))), generic);
    let made = pairs(&[("a.cob", "x")]);
    assert_eq!(generated_or_generic(&s, Ok(made.clone())), made);
}

#[test]
fn prompt_and_messages() {
    let p = ollama_prompt(&scaffold("demo", "cobol"));
    assert!(p.starts_with("Create a project called \"demo\" using cobol language.\nDescription: a toy\n\nReturn ONLY a JSON object"));
    assert!(p.ends_with("No explanation, no markdown, just raw JSON."));
    assert_eq!(exists_message("demo"), "Directory 'demo' already exists");
}

#[test]
fn model_answers_are_read_as_file_maps() {
    let ok = files_from_response("```json\n{\"src/a.txt\": \"hi\", \"b.md\": 3}\n```");
    assert_eq!(ok, Ok(pairs(&[("b.md", ""), ("src/a.txt", "hi")])));
    assert_eq!(files_from_response("[1, 2]"), Err(String::from("Response is not a JSON object")));
    assert_eq!(files_from_response("{}"), Err(String::from("No files generated")));
    let bad = files_from_response("not json").unwrap_err();
    assert!(bad.starts_with("Cannot parse generated JSON: "));
    assert!(bad.ends_with("\nRaw: not json"));
}

#[test]
fn syntax_is_guessed_from_the_file_name() {
    let r = EditorRenderer::new();
    assert_eq!(r.guess_syntax("main.rs"), "Rust");
    assert_eq!(r.guess_syntax("app.tsx"), "TypeScript");
    assert_eq!(r.guess_syntax("Makefile"), "Makefile");
    assert_eq!(r.guess_syntax("CMakeLists.txt"), "CMake");
    assert_eq!(r.guess_syntax("notes"), "Plain Text");
    assert_eq!(r.guess_syntax("x.r"), "R");
}

#[test]
fn gutter_numbers_are_right_aligned() {
    assert_eq!(gutter_label(0, 5), "  1 ");
    assert_eq!(gutter_label(9, 12), " 10 ");
    assert_eq!(gutter_label(41, 12345), "   42 ");
}

#[test]
fn editor_rows_follow_the_cursor_and_mark_matches() {
    let mut b = TextBuffer::with_content("/t/x.txt", Some(String::from("x.txt")), "abc abc\n\nxyz");
    let mut r = EditorRenderer::new();
    let mut s = SearchState::new();
    s.toggle();
    s.push_char('b');
    s.run_search(&b);
    assert_eq!(s.matches.len(), 2);
    let rows = r.render(&b, 10, &s);
    assert_eq!(rows.len(), 3);
    assert_eq!(rows[0].number, "  1 ");
    assert_eq!(rows[0].number_look, line_num_style(true));
    assert_eq!(rows[1].number_look, line_num_style(false));
    assert_eq!(rows[1].segments.as_ref().map(|v| v.len()), Some(0));
    let first: Vec<String> = rows[0].segments.as_ref().unwrap().iter().map(|g| g.text.clone()).collect();
    assert_eq!(first, vec!["a", "b", "c a", "b", "c"]);
    let looks: Vec<Look> = rows[0].segments.as_ref().unwrap().iter().map(|g| g.look).collect();
    assert_eq!(looks[1].bg, Some(Shade::AccentOrange.rgb()));
    assert_eq!(looks[3].bg, Some(Shade::SearchMatchBg.rgb()));
    let plain_text: String = rows[2].segments.as_ref().unwrap().iter().map(|g| g.text.clone()).collect();
    assert_eq!(plain_text, "xyz");
    b.set_cursor(Cursor::new(2, 0));
    let rows = r.render(&b, 3, &s);
    assert_eq!(r.line_offset(), 2);
    assert_eq!(rows.len(), 1);
    assert_eq!(rows[0].number, "  3 ");
}

#[test]
fn status_bar_shows_mode_name_position_and_percent() {
    let mut b = TextBuffer::with_content("/t/a.rs", Some(String::from("a.rs")), "1\n2\n3\n4");
    b.set_cursor(Cursor::new(1, 0));
    b.insert_char('x');
    let segs = StatusBar::render(&b, "INSERT", 60);
    let texts: Vec<String> = segs.iter().map(|g| g.text.clone()).collect();
    assert_eq!(texts[0], " INSERT ");
    assert_eq!(texts[1], " a.rs ●");
    assert_eq!(texts[3], " Ln 2, Col 2 ");
    assert_eq!(texts[4], " 50% ");
    let used = 6 + 2 + " a.rs ●".len() + "Ln 2, Col 2".len() + 2 + "50%".len() + 2 + 4;
    assert_eq!(texts[2].len(), 60 - used);
    assert_eq!(segs[0].look, mode_style("INSERT"));
    let narrow = StatusBar::render(&b, "CMD", 10);
    assert_eq!(narrow[2].text, "");
}

#[test]
fn theme_looks() {
    assert_eq!(Shade::Bg.rgb(), Rgb { r: 28, g: 30, b: 40 });
    assert_eq!(Shade::AccentRed.rgb(), Rgb { r: 255, g: 100, b: 100 });
    assert_eq!(mode_style("SEARCH").bg, Some(Shade::ModeSearchBg.rgb()));
    assert_eq!(mode_style("COMMAND").bg, Some(Shade::ModeCmdBg.rgb()));
    assert_eq!(mode_style("whatever").bg, Some(Shade::Accent.rgb()));
    assert!(tab_style(true, false).bold);
    assert_eq!(tab_style(false, true).bg, Some(Shade::TabHoverBg.rgb()));
    assert_eq!(tree_file_style(true, false).fg, Some(Shade::TreeDir.rgb()));
}

#[test]
fn file_tree_lists_directories_first_and_hides_dot_files() {
    let entries = vec![
        DirEntryInfo { path: String::from("/r/zeta.txt"), name: String::from("zeta.txt"), is_dir: false },
        DirEntryInfo { path: String::from("/r/.git"), name: String::from(".git"), is_dir: true },
        DirEntryInfo { path: String::from("/r/b"), name: String::from("b"), is_dir: true },
        DirEntryInfo { path: String::from("/r/.gitignore"), name: String::from(".gitignore"), is_dir: false },
        DirEntryInfo { path: String::from("/r/Alpha.md"), name: String::from("Alpha.md"), is_dir: false },
        DirEntryInfo { path: String::from("/r/a"), name: String::from("a"), is_dir: true },
    ];
    let mut t = FileTree::new("/r", Some(String::from("r")), &entries);
    let names: Vec<String> = t.nodes().iter().map(|n| n.name.clone()).collect();
    assert_eq!(names, vec!["r", "a", "b", ".gitignore", "Alpha.md", "zeta.txt"]);
    let labels: Vec<String> = t.nodes().iter().map(|n| node_label(n)).collect();
    assert_eq!(labels[0], "▼ r");
    assert_eq!(labels[1], "  ▶ a");
    assert_eq!(labels[3], "  .gitignore");
    assert_eq!(t.selected_path(), Some(String::from("/r")));
    t.select_prev();
    assert_eq!(t.selected(), Some(0));
    for _ in 0..10 {
        t.select_next();
    }
    assert_eq!(t.selected(), Some(5));
    assert!(!t.toggle_expand());
    t.select_prev();
    t.select_prev();
    t.select_prev();
    t.select_prev();
    assert!(t.toggle_expand());
    assert!(!t.nodes()[1].expanded);
    let inside = vec![
        DirEntryInfo { path: String::from("/r/a/z.rs"), name: String::from("z.rs"), is_dir: false },
        DirEntryInfo { path: String::from("/r/a/.hidden"), name: String::from(".hidden"), is_dir: false },
        DirEntryInfo { path: String::from("/r/a/sub"), name: String::from("sub"), is_dir: true },
    ];
    assert!(t.expand(&inside));
    let names: Vec<String> = t.nodes().iter().map(|n| n.name.clone()).collect();
    assert_eq!(names, vec!["r", "a", "sub", "z.rs", "b", ".gitignore", "Alpha.md", "zeta.txt"]);
    assert_eq!(node_label(&t.nodes()[1]), "  ▼ a");
    assert_eq!(node_label(&t.nodes()[2]), "    ▶ sub");
    assert_eq!(t.selected(), Some(1));
    assert!(!t.expand(&inside));
    assert!(!t.toggle_expand());
    let names: Vec<String> = t.nodes().iter().map(|n| n.name.clone()).collect();
    assert_eq!(names, vec!["r", "a", "b", ".gitignore", "Alpha.md", "zeta.txt"]);
    assert!(!t.nodes()[1].expanded);
    t.select_prev();
    assert!(!t.toggle_expand());
    assert_eq!(t.nodes().len(), 1);
}

#[test]
fn palette_filters_selects_and_places_its_popup() {
    let mut p = CmdPalette::new();
    p.toggle();
    assert_eq!(p.filtered().len(), 18);
    for c in "LINE".chars() {
        p.push_char(c);
    }
    let names: Vec<&str> = p.filtered().iter().map(|e| e.name).collect();
    assert_eq!(names, vec!["go to line", "delete line", "duplicate line"]);
    p.select_prev();
    assert_eq!(p.selected_cmd(), Some("duplicate line"));
    let rows = p.rows();
    assert_eq!(rows[2].label, " > duplicate line");
    assert_eq!(rows[0].label, "   go to line");
    assert_eq!(rows[0].desc, "  — Jump to a specific line number");
    assert_eq!(p.title(), " Commands: LINE ");
    assert_eq!(p.highlighted_row(), Some(2));
    let a = p.popup(100, 40).unwrap();
    assert_eq!((a.x, a.y, a.width, a.height), (25, 2, 50, 6));
    assert!(p.popup(12, 40).is_none());
    p.pop_char();
    assert_eq!(p.selected, 0);
    p.toggle();
    assert!(!p.active);
}

#[test]
fn search_state_wraps_and_reports() {
    let b = TextBuffer::with_content("/t/s", None, "x.x.x");
    let mut s = SearchState::new();
    s.toggle();
    s.push_char('X');
    s.run_search(&b);
    assert_eq!(s.current_match_info(), "1/3");
    assert_eq!(s.prev_match().map(|m| m.start_col), Some(4));
    assert_eq!(s.next_match().map(|m| m.start_col), Some(0));
    assert_eq!(s.next_match().map(|m| m.start_col), Some(2));
    let bar: Vec<String> = s.bar_segments().iter().map(|g| g.text.clone()).collect();
    assert_eq!(bar, vec!["/", "X", " 2/3 "]);
    s.pop_char();
    s.run_search(&b);
    assert!(s.matches.is_empty());
    assert_eq!(s.current_match, 0);
    assert_eq!(s.current_match_info(), "No results");
}

#[test]
fn rust_code_is_syntax_coloured() {
    let b = TextBuffer::with_content("/t/m.rs", Some(String::from("m.rs")), "fn main() { let x = 1; }");
    let r = EditorRenderer::new();
    let s = SearchState::new();
    let segs = r.highlight_line(&b, 0, "fn main() { let x = 1; }", &s).unwrap();
    assert!(segs.len() > 1);
    assert!(segs.iter().all(|g| g.look.fg.is_some()));
    let joined: String = segs.iter().map(|g| g.text.clone()).collect();
    assert_eq!(joined, "fn main() { let x = 1; }");
    let colours: Vec<Option<Rgb>> = segs.iter().map(|g| g.look.fg).collect();
    assert!(colours.iter().any(|c| *c != colours[0]));
}

#[test]
fn model_reply_bodies_give_their_response_text() {
    assert_eq!(answer_from_reply("{\"model\":\"codellama\",\"response\":\"{}\",\"done\":true}"), Ok(String::from("{}")));
    assert_eq!(answer_from_reply("{\"done\":true}"), Err(String::from("No 'response' field in Ollama output")));
    assert_eq!(answer_from_reply("{\"response\":5}"), Err(String::from("No 'response' field in Ollama output")));
    assert_eq!(answer_from_reply("[\"response\"]"), Err(String::from("No 'response' field in Ollama output")));
    let bad = answer_from_reply("{oops").unwrap_err();
    assert!(bad.starts_with("Invalid JSON response: "));
    assert!(bad.len() > "Invalid JSON response: ".len());
}

#[test]
fn file_names_come_from_the_last_path_segment() {
    assert_eq!(TextBuffer::from_content("/proj/src/main.rs", "").filename(), "main.rs");
    assert_eq!(TextBuffer::from_content("notes.md", "").filename(), "notes.md");
    let mut b = TextBuffer::new();
    b.set_path("dir/sub/readme.txt");
    assert_eq!(b.filename(), "readme.txt");
    assert_eq!(TextBuffer::from_content("/proj/..", "").filename(), "Unknown");
}

#[test]
fn colouring_follows_the_file_name() {
    let line = "fn main() { let x = 1; }";
    let r = EditorRenderer::new();
    let s = SearchState::new();
    let rust = TextBuffer::with_content("/t/m.rs", Some(String::from("m.rs")), line);
    let text = TextBuffer::with_content("/t/m.zzz", Some(String::from("m.zzz")), line);
    let coloured = r.highlight_line(&rust, 0, line, &s).unwrap();
    let plain = r.highlight_line(&text, 0, line, &s).unwrap();
    assert!(coloured.len() > 1);
    assert_eq!(plain.len(), 1);
    assert_eq!(plain[0].text, line);
    assert!(plain[0].look.fg.is_some());
}

#[test]
fn paths_without_a_file_name_show_unknown() {
    let mut b = TextBuffer::new();
    b.set_path("/");
    assert_eq!(b.filename(), "Unknown");
    b.set_path("proj/sub/..");
    assert_eq!(b.filename(), "Unknown");
    let crlf = TextBuffer::from_content("/t/w.txt", "x\r\ny");
    assert_eq!(crlf.contents(), "x\r\ny");
}
