use vstd::prelude::*;
use crate::buffer::{TextBuffer, BufferModel, Cursor, SearchMatch, search_result, joined, step_up, step_down, steps_up, steps_down};
use crate::search::{SearchState, SearchModel};
use crate::cmd_palette::{CmdPalette, PaletteModel};
use crate::term_panel::{TerminalPanel, TermModel};
use crate::filetree::{FileTree, TreeModel};
use crate::ai_project::ProjectScaffold;
use crate::theme::{Look, Shade, Area, Segment, shaded, shades, plain, plain_look, sat_sub, min_of};
use crate::text::{different_files, char_vec, utf8, opt_view, push_char, pop_char, concat, same_text, trim_ws, trim, starts_with_seq, starts_with, skip_chars, two_slash_pieces, split_two_slashes, unescape_slashes, unescape, parse_usize_spec, parse_usize};

verus! {

/// What the keyboard is currently talking to.
#[derive(Clone, Copy, Debug, PartialEq, Eq, Structural)]
pub enum Mode {
    Normal,
    Command,
    Search,
    ProjectInput,
    CmdPalette,
}

/// A request to the main loop, cleared before each event.
#[derive(Clone, Copy, Debug, PartialEq, Eq, Structural)]
pub enum Action {
    Idle,
    Quit,
}

/// A key as the terminal reports it.
#[derive(Clone, Copy, Debug, PartialEq, Eq, Structural)]
pub enum KeyCode {
    Char(char),
    Enter,
    Esc,
    Backspace,
    Delete,
    Tab,
    BackTab,
    Up,
    Down,
    Left,
    Right,
    Home,
    End,
    PageUp,
    PageDown,
    F(u8),
    Other,
}

/// The modifier keys held with a key; `other` covers Super, Hyper and Meta.
#[derive(Clone, Copy, Debug, PartialEq, Eq, Structural)]
pub struct Modifiers {
    pub shift: bool,
    pub control: bool,
    pub alt: bool,
    pub other: bool,
}

impl Modifiers {
    /// Control alone.
    pub open spec fn control_only(self) -> bool {
        self.control && !self.shift && !self.alt && !self.other
    }

    /// Alt alone.
    pub open spec fn alt_only(self) -> bool {
        self.alt && !self.shift && !self.control && !self.other
    }

    /// No modifier, or Shift alone.
    pub open spec fn plain_or_shift(self) -> bool {
        !self.control && !self.alt && !self.other
    }

    pub fn is_control_only(&self) -> (r: bool)
        ensures
            r == self.control_only(),
    {
        self.control && !self.shift && !self.alt && !self.other
    }

    pub fn is_alt_only(&self) -> (r: bool)
        ensures
            r == self.alt_only(),
    {
        self.alt && !self.shift && !self.control && !self.other
    }

    pub fn is_plain_or_shift(&self) -> (r: bool)
        ensures
            r == self.plain_or_shift(),
    {
        !self.control && !self.alt && !self.other
    }
}

/// A key press.
#[derive(Clone, Copy, Debug, PartialEq, Eq, Structural)]
pub struct KeyEvent {
    pub code: KeyCode,
    pub modifiers: Modifiers,
}

/// An input event: a key press, or anything else (mouse, resize, focus).
#[derive(Clone, Copy, Debug, PartialEq, Eq, Structural)]
pub enum Event {
    Key(KeyEvent),
    Other,
}

/// Outside work that handling an event asks of the main loop.
pub enum Effect {
    Nothing,
    /// Save the active buffer to its file.
    SaveActive,
    /// Save the active buffer to the given path.
    SaveActiveAs(String),
    /// Open the file at the given path in a tab.
    OpenFile(String),
    /// Read the active buffer's file again.
    ReloadActive,
    /// Select the whole active buffer.
    SelectAll,
    /// Delete the cursor's line in the active buffer.
    DeleteLine,
    /// Duplicate the cursor's line in the active buffer.
    DuplicateLine,
    /// Replace every occurrence of the first text by the second.
    ReplaceAll(String, String),
    /// Start the given shell program in the terminal panel.
    StartShell(String),
    /// Stop the terminal's shell.
    StopShell,
    /// Send bytes to the terminal's shell.
    WriteShell(Vec<u8>),
    /// Scroll the terminal back one line.
    ScrollTerminalUp,
    /// Make the given directory the working directory and show it.
    ChangeDir(String),
    /// Create the described project.
    CreateProject(ProjectScaffold),
    /// Open the selected tree entry, whose path is given: a directory is
    /// expanded or collapsed, a file is opened.
    ActivateTreeEntry(String),
    /// Read the given directory, whose row is selected and closed, and open
    /// it on that listing (`FileTree::expand`).
    ListDirectory(String),
    /// Show the working directory in a new tree.
    ReloadTree,
}

/// The abstract form of an effect.
pub enum EffectModel {
    Nothing,
    SaveActive,
    SaveActiveAs(Seq<char>),
    OpenFile(Seq<char>),
    ReloadActive,
    SelectAll,
    DeleteLine,
    DuplicateLine,
    ReplaceAll(Seq<char>, Seq<char>),
    StartShell(Seq<char>),
    StopShell,
    WriteShell(Seq<u8>),
    ScrollTerminalUp,
    ChangeDir(Seq<char>),
    CreateProject(Seq<char>, Seq<char>, Seq<char>),
    ActivateTreeEntry(Seq<char>),
    ListDirectory(Seq<char>),
    ReloadTree,
}

impl View for Effect {
    type V = EffectModel;

    open spec fn view(&self) -> EffectModel {
        match self {
            Effect::Nothing => EffectModel::Nothing,
            Effect::SaveActive => EffectModel::SaveActive,
            Effect::SaveActiveAs(p) => EffectModel::SaveActiveAs(p@),
            Effect::OpenFile(p) => EffectModel::OpenFile(p@),
            Effect::ReloadActive => EffectModel::ReloadActive,
            Effect::SelectAll => EffectModel::SelectAll,
            Effect::DeleteLine => EffectModel::DeleteLine,
            Effect::DuplicateLine => EffectModel::DuplicateLine,
            Effect::ReplaceAll(a, b) => EffectModel::ReplaceAll(a@, b@),
            Effect::StartShell(s) => EffectModel::StartShell(s@),
            Effect::StopShell => EffectModel::StopShell,
            Effect::WriteShell(b) => EffectModel::WriteShell(b@),
            Effect::ScrollTerminalUp => EffectModel::ScrollTerminalUp,
            Effect::ChangeDir(p) => EffectModel::ChangeDir(p@),
            Effect::CreateProject(s) => EffectModel::CreateProject(
                s.name@,
                s.language@,
                s.description@,
            ),
            Effect::ActivateTreeEntry(p) => EffectModel::ActivateTreeEntry(p@),
            Effect::ListDirectory(p) => EffectModel::ListDirectory(p@),
            Effect::ReloadTree => EffectModel::ReloadTree,
        }
    }
}

/// The abstract state of the editor.
pub struct AppModel {
    pub buffers: Seq<BufferModel>,
    pub active_buffer: usize,
    pub filetree: TreeModel,
    pub search: SearchModel,
    pub term_panel: TermModel,
    pub cmd_palette: PaletteModel,
    pub mode: Mode,
    pub command_buffer: Seq<char>,
    pub quit: bool,
    pub filetree_focused: bool,
    pub tree_width: u16,
    pub action: Action,
    pub terminal_height: u16,
    pub proj_field: usize,
    pub proj_name: Seq<char>,
    pub proj_lang: Seq<char>,
    pub proj_desc: Seq<char>,
    pub proj_status: Seq<char>,
}

/// The editor: open buffers (tabs), the file tree, the search bar, the
/// terminal panel, the command palette, the command line and the project
/// form.
pub struct App {
    pub buffers: Vec<TextBuffer>,
    pub active_buffer: usize,
    pub filetree: FileTree,
    pub search: SearchState,
    pub term_panel: TerminalPanel,
    pub cmd_palette: CmdPalette,
    pub mode: Mode,
    pub command_buffer: String,
    pub quit: bool,
    pub filetree_focused: bool,
    pub tree_width: u16,
    pub action: Action,
    pub terminal_height: u16,
    pub proj_field: usize,
    pub proj_name: String,
    pub proj_lang: String,
    pub proj_desc: String,
    pub proj_status: String,
}

impl View for App {
    type V = AppModel;

    open spec fn view(&self) -> AppModel {
        AppModel {
            buffers: self.buffers@.map_values(|b: TextBuffer| b@),
            active_buffer: self.active_buffer,
            filetree: self.filetree@,
            search: self.search@,
            term_panel: self.term_panel@,
            cmd_palette: self.cmd_palette@,
            mode: self.mode,
            command_buffer: self.command_buffer@,
            quit: self.quit,
            filetree_focused: self.filetree_focused,
            tree_width: self.tree_width,
            action: self.action,
            terminal_height: self.terminal_height,
            proj_field: self.proj_field,
            proj_name: self.proj_name@,
            proj_lang: self.proj_lang@,
            proj_desc: self.proj_desc@,
            proj_status: self.proj_status@,
        }
    }
}

/// The model of a fresh buffer.
pub open spec fn fresh_buffer() -> BufferModel {
    BufferModel {
        lines: seq![Seq::<u8>::empty()],
        path: None,
        filename: "Untitled"@,
        dirty: false,
        cursor: Cursor { line: 0, col: 0 },
        saved_cursor: Cursor { line: 0, col: 0 },
        selection: None,
        cursors: seq![],
        line_ending: "\n"@,
    }
}

/// A new buffer, as its model says.
fn fresh() -> (b: TextBuffer)
    ensures
        b@ == fresh_buffer(),
{
    let b = TextBuffer::new();
    assert(b@.cursors =~= Seq::<Cursor>::empty());
    b
}

impl AppModel {
    /// There is at least one buffer, and the active one exists.
    pub open spec fn wf(self) -> bool {
        self.buffers.len() > 0 && self.active_buffer < self.buffers.len()
    }

    /// The active buffer.
    pub open spec fn buf(self) -> BufferModel {
        self.buffers[self.active_buffer as int]
    }

    /// The active buffer replaced by `b`.
    pub open spec fn with_buf(self, b: BufferModel) -> AppModel {
        AppModel { buffers: self.buffers.update(self.active_buffer as int, b), ..self }
    }

    /// A fresh buffer added and made active.
    pub open spec fn new_tab(self) -> AppModel {
        AppModel {
            buffers: self.buffers.push(fresh_buffer()),
            active_buffer: self.buffers.len() as usize,
            ..self
        }
    }

    /// The active tab closed, unless it is the only one; the tab after it
    /// (or the new last one) becomes active.
    pub open spec fn tab_closed(self) -> AppModel {
        if self.buffers.len() > 1 {
            let rest = self.buffers.remove(self.active_buffer as int);
            AppModel {
                buffers: rest,
                active_buffer: if self.active_buffer >= rest.len() {
                    (rest.len() - 1) as usize
                } else {
                    self.active_buffer
                },
                ..self
            }
        } else {
            self
        }
    }

    /// The next tab made active, if there is one.
    pub open spec fn tab_next(self) -> AppModel {
        if self.active_buffer + 1 < self.buffers.len() {
            AppModel { active_buffer: (self.active_buffer + 1) as usize, ..self }
        } else {
            self
        }
    }

    /// The previous tab made active, if there is one.
    pub open spec fn tab_prev(self) -> AppModel {
        if self.active_buffer > 0 {
            AppModel { active_buffer: (self.active_buffer - 1) as usize, ..self }
        } else {
            self
        }
    }

    /// The project form opened with its fields reset ("rust" as language).
    pub open spec fn project_form(self) -> AppModel {
        AppModel {
            mode: Mode::ProjectInput,
            proj_name: seq![],
            proj_lang: "rust"@,
            proj_desc: seq![],
            proj_field: 0,
            proj_status: seq![],
            ..self
        }
    }
}

/// The direction of an arrow key.
fn motion_from(c: KeyCode) -> (r: Option<Motion>)
    ensures
        r == motion_of(c),
{
    match c {
        KeyCode::Up => Some(Motion::Up),
        KeyCode::Down => Some(Motion::Down),
        KeyCode::Left => Some(Motion::Left),
        KeyCode::Right => Some(Motion::Right),
        _ => None,
    }
}

/// One step of the cursor in direction `m`.
fn apply_motion(b: &mut TextBuffer, m: Motion)
    requires
        motion_ok(old(b)@, m),
    ensures
        final(b)@ == moved(old(b)@, m),
{
    match m {
        Motion::Up => b.move_up(),
        Motion::Down => b.move_down(),
        Motion::Left => b.move_left(),
        Motion::Right => b.move_right(),
    }
}

/// Replacing the active buffer twice keeps only the second.
proof fn lemma_with_buf_twice(m: AppModel, a: BufferModel, b: BufferModel)
    requires
        m.wf(),
    ensures
        m.with_buf(a).with_buf(b) == m.with_buf(b),
{
    assert(m.with_buf(a).with_buf(b).buffers =~= m.with_buf(b).buffers);
}

/// Putting the active buffer back unchanged changes nothing.
proof fn lemma_with_buf_same(m: AppModel)
    requires
        m.wf(),
    ensures
        m.with_buf(m.buf()) == m,
{
    assert(m.with_buf(m.buf()).buffers =~= m.buffers);
}

/// The UTF-8 bytes of one character.
fn char_bytes(c: char) -> (r: Vec<u8>)
    ensures
        r@ == utf8(seq![c]),
{
    let mut s = String::new();
    push_char(&mut s, c);
    assert(s@ =~= seq![c]);
    let b = s.as_str().as_bytes();
    let mut v: Vec<u8> = Vec::new();
    let mut i: usize = 0;
    while i < b.len()
        invariant
            i <= b@.len(),
            v@ == b@.take(i as int),
        decreases b@.len() - i,
    {
        v.push(b[i]);
        i = i + 1;
        assert(v@ =~= b@.take(i as int));
    }
    assert(b@.take(b@.len() as int) =~= b@);
    v
}

/// A prefix with a `true` fixes the first `true`.
proof fn lemma_first_true_prefix(s: Seq<bool>, k: int, j: int)
    requires
        0 < k <= s.len(),
        first_true(s.take(k)) == Some(j),
    ensures
        first_true(s) == Some(j),
    decreases s.len() - k,
{
    if k < s.len() {
        let t = s.take(k + 1);
        assert(t.drop_last() =~= s.take(k));
        assert(first_true(t) == Some(j));
        lemma_first_true_prefix(s, k + 1, j);
    } else {
        assert(s.take(k) =~= s);
        assert(s.take(k) == s);
    }
}

/// The first index at which `s` holds `true`.
pub open spec fn first_true(s: Seq<bool>) -> Option<int>
    decreases s.len(),
{
    if s.len() == 0 {
        None
    } else {
        match first_true(s.drop_last()) {
            Some(i) => Some(i),
            None => if s.last() {
                Some(s.len() - 1)
            } else {
                None
            },
        }
    }
}

/// Whether two paths name the same file as the platform compares them
/// (`Path`'s `==`, which compares components). Identical texts are always
/// the same path. Portable paths whose last segments are different proper
/// file names never are (see `different_files`): their last components
/// differ. Which other texts compare equal depends on the platform's
/// separators and prefixes, and is not stated.
#[verifier::external_body]
fn paths_equal(a: &str, b: &str) -> (r: bool)
    ensures
        a@ == b@ ==> r,
        different_files(a@, b@) ==> !r,
{
    std::path::Path::new(a) == std::path::Path::new(b)
}

/// The bytes a key sends to a shell, if it sends any: with Control alone
/// only c, d, l and z do (as their control codes), otherwise characters,
/// Enter, Backspace, Tab, the arrows, Home, End and Delete.
pub open spec fn shell_bytes(k: KeyEvent) -> Option<Seq<u8>> {
    if k.modifiers.control_only() {
        match k.code {
            KeyCode::Char(c) => if c == 'c' {
                Some(seq![3u8])
            } else if c == 'd' {
                Some(seq![4u8])
            } else if c == 'l' {
                Some(seq![12u8])
            } else if c == 'z' {
                Some(seq![26u8])
            } else {
                None
            },
            _ => None,
        }
    } else {
        match k.code {
            KeyCode::Char(c) => Some(utf8(seq![c])),
            KeyCode::Enter => Some(seq![13u8, 10u8]),
            KeyCode::Backspace => Some(seq![8u8]),
            KeyCode::Tab => Some(seq![9u8]),
            KeyCode::Up => Some(seq![27u8, 91u8, 65u8]),
            KeyCode::Down => Some(seq![27u8, 91u8, 66u8]),
            KeyCode::Right => Some(seq![27u8, 91u8, 67u8]),
            KeyCode::Left => Some(seq![27u8, 91u8, 68u8]),
            KeyCode::Home => Some(seq![27u8, 91u8, 72u8]),
            KeyCode::End => Some(seq![27u8, 91u8, 70u8]),
            KeyCode::Delete => Some(seq![27u8, 91u8, 51u8, 126u8]),
            _ => None,
        }
    }
}

/// A direction of the arrow keys.
#[derive(Clone, Copy, Debug, PartialEq, Eq, Structural)]
pub enum Motion {
    Up,
    Down,
    Left,
    Right,
}

/// The buffer after the cursor moves one step in direction `m`.
pub open spec fn moved(b: BufferModel, m: Motion) -> BufferModel {
    match m {
        Motion::Up => b.moved_to(step_up(b.lines, b.cursor)),
        Motion::Down => b.moved_to(step_down(b.lines, b.cursor)),
        Motion::Left => b.move_left(),
        Motion::Right => b.move_right(),
    }
}

/// Whether the step in direction `m` is defined here.
pub open spec fn motion_ok(b: BufferModel, m: Motion) -> bool {
    match m {
        Motion::Up => b.cursor.line <= b.lines.len(),
        Motion::Down => true,
        Motion::Left => b.cursor.col > 0 || b.cursor.line <= b.lines.len(),
        Motion::Right => b.cursor.line < b.lines.len(),
    }
}

/// An arrow key: with Shift it extends the selection (starting one at the
/// cursor if there is none); without, it drops the selection.
pub open spec fn arrow(b: BufferModel, m: Motion, shift: bool) -> BufferModel {
    if shift {
        let start = if b.selection is None {
            b.began_selection()
        } else {
            b
        };
        moved(start, m).updated_selection()
    } else {
        moved(b.cleared_selection(), m)
    }
}

/// The direction of an arrow key.
pub open spec fn motion_of(c: KeyCode) -> Option<Motion> {
    match c {
        KeyCode::Up => Some(Motion::Up),
        KeyCode::Down => Some(Motion::Down),
        KeyCode::Left => Some(Motion::Left),
        KeyCode::Right => Some(Motion::Right),
        _ => None,
    }
}

/// The lines a Page Up or Page Down moves: a screen of 20 lines, less one.
pub open spec fn page_steps() -> nat {
    19
}

/// Control with one of the keys that the editor binds: c, q, s, o, f, /,
/// t, `, p, n, N, w, Tab and Shift-Tab.
pub open spec fn is_control_command(k: KeyEvent) -> bool {
    k.modifiers.control_only() && (k.code == KeyCode::Tab || k.code == KeyCode::BackTab || (
    k.code matches KeyCode::Char(ch) && (ch == 'c' || ch == 'q' || ch == 's' || ch == 'o' || ch
        == 'f' || ch == '/' || ch == 't' || ch == '`' || ch == 'p' || ch == 'n' || ch == 'N' || ch
        == 'w')))
}

impl AppModel {
    /// Control-T: stops a focused terminal, focuses a shown one, or starts
    /// one.
    pub open spec fn terminal_toggled(self) -> (AppModel, EffectModel) {
        if self.term_panel.visible {
            if self.term_panel.focused {
                (
                    AppModel {
                        term_panel: TermModel { visible: false, focused: false, ..self.term_panel },
                        ..self
                    },
                    EffectModel::StopShell,
                )
            } else {
                (
                    AppModel { term_panel: TermModel { focused: true, ..self.term_panel }, ..self },
                    EffectModel::Nothing,
                )
            }
        } else {
            (self, EffectModel::StartShell("cmd.exe"@))
        }
    }

    /// A Control key binding of the editor (see `is_control_command`).
    pub open spec fn control_key(self, k: KeyEvent) -> (AppModel, EffectModel) {
        let b = self.buf();
        let n = EffectModel::Nothing;
        match k.code {
            KeyCode::Tab => (self.tab_next(), n),
            KeyCode::BackTab => (self.tab_prev(), n),
            KeyCode::Char(ch) => if ch == 'c' {
                (
                    if b.selection is None && b.cursors.len() > 0 {
                        self.with_buf(b.cursors_cleared())
                    } else {
                        self
                    },
                    n,
                )
            } else if ch == 'q' {
                (AppModel { quit: true, ..self }, n)
            } else if ch == 's' {
                (self, EffectModel::SaveActive)
            } else if ch == 'o' {
                (AppModel { filetree_focused: true, ..self }, n)
            } else if ch == 'f' {
                let s = self.search.toggled();
                (
                    AppModel {
                        search: s,
                        mode: if s.active {
                            Mode::Search
                        } else {
                            self.mode
                        },
                        ..self
                    },
                    n,
                )
            } else if ch == '/' {
                let p = self.cmd_palette.toggled();
                (
                    AppModel {
                        cmd_palette: p,
                        mode: if p.active {
                            Mode::CmdPalette
                        } else {
                            Mode::Normal
                        },
                        ..self
                    },
                    n,
                )
            } else if ch == 't' {
                self.terminal_toggled()
            } else if ch == '`' {
                (
                    if self.term_panel.visible {
                        AppModel {
                            term_panel: TermModel {
                                focused: !self.term_panel.focused,
                                ..self.term_panel
                            },
                            ..self
                        }
                    } else {
                        self
                    },
                    n,
                )
            } else if ch == 'p' {
                (self.project_form(), n)
            } else if ch == 'n' {
                (self.new_tab(), n)
            } else if ch == 'N' {
                (self.tab_prev(), n)
            } else {
                (self.tab_closed(), n)
            },
            _ => (self, n),
        }
    }

    /// Any other key in the editor: F1 focuses a shown terminal, ':' opens
    /// the command line, Esc drops the selection, the arrows, Home, End,
    /// Page Up and Page Down move, Backspace, Delete, Enter and Tab edit,
    /// Alt-j and Alt-k add cursors, and a character (alone or with Shift)
    /// is typed over the selection's place.
    pub open spec fn edit_key(self, k: KeyEvent) -> (AppModel, EffectModel) {
        let b = self.buf();
        let n = EffectModel::Nothing;
        let c = k.code;
        if c == KeyCode::F(1) {
            (
                if self.term_panel.visible {
                    AppModel { term_panel: TermModel { focused: true, ..self.term_panel }, ..self }
                } else {
                    self
                },
                n,
            )
        } else if c == KeyCode::Char(':') {
            (AppModel { mode: Mode::Command, command_buffer: ":"@, ..self }, n)
        } else if c == KeyCode::Esc {
            (self.with_buf(b.cleared_selection()), n)
        } else if motion_of(c) is Some {
            (self.with_buf(arrow(b, motion_of(c)->0, k.modifiers.shift)), n)
        } else if c == KeyCode::Home {
            (self.with_buf(b.cleared_selection().moved_to(Cursor { line: b.cursor.line, col: 0 })), n)
        } else if c == KeyCode::End {
            (
                self.with_buf(
                    b.cleared_selection().moved_to(
                        Cursor { line: b.cursor.line, col: b.lines[b.cursor.line as int].len() as usize },
                    ),
                ),
                n,
            )
        } else if c == KeyCode::PageUp {
            (self.with_buf(b.cleared_selection().moved_to(steps_up(b.lines, b.cursor, page_steps()))), n)
        } else if c == KeyCode::PageDown {
            (self.with_buf(b.cleared_selection().moved_to(steps_down(b.lines, b.cursor, page_steps()))), n)
        } else if c == KeyCode::Backspace {
            (self.with_buf(b.delete_backward()), n)
        } else if c == KeyCode::Delete {
            (self.with_buf(b.delete_forward()), n)
        } else if c == KeyCode::Enter {
            (self.with_buf(b.insert_char('\n')), n)
        } else if c == KeyCode::Tab {
            (self.with_buf(b.insert_chars("    "@)), n)
        } else {
            match c {
                KeyCode::Char(ch) => if k.modifiers.alt_only() && ch == 'j' {
                    (self.with_buf(b.with_cursor_below()), n)
                } else if k.modifiers.alt_only() && ch == 'k' {
                    (self.with_buf(b.with_cursor_above()), n)
                } else if k.modifiers.plain_or_shift() {
                    (self.with_buf(b.cleared_selection().insert_char(ch)), n)
                } else {
                    (self, n)
                },
                _ => (self, n),
            }
        }
    }

    /// Whether `edit_key(k)` is defined here: the buffer operation it makes
    /// is defined on the active buffer.
    pub open spec fn edit_key_ok(self, k: KeyEvent) -> bool {
        let b = self.buf();
        let c = k.code;
        if c == KeyCode::F(1) || c == KeyCode::Char(':') || c == KeyCode::Esc {
            true
        } else if motion_of(c) is Some {
            motion_ok(b, motion_of(c)->0)
        } else if c == KeyCode::Home {
            true
        } else if c == KeyCode::End {
            b.cursor.line < b.lines.len()
        } else if c == KeyCode::PageUp {
            b.cursor.line <= b.lines.len()
        } else if c == KeyCode::PageDown {
            true
        } else if c == KeyCode::Backspace {
            b.delete_backward_ok()
        } else if c == KeyCode::Delete {
            b.delete_forward_ok()
        } else if c == KeyCode::Enter {
            b.insert_char_ok('\n')
        } else if c == KeyCode::Tab {
            b.insert_chars_ok("    "@)
        } else {
            match c {
                KeyCode::Char(ch) => if k.modifiers.alt_only() && ch == 'j' {
                    true
                } else if k.modifiers.alt_only() && ch == 'k' {
                    b.cursor.line <= b.lines.len()
                } else if k.modifiers.plain_or_shift() {
                    b.cleared_selection().insert_char_ok(ch)
                } else {
                    true
                },
                _ => true,
            }
        }
    }

    /// The active buffer opened from a file: an open buffer that `same`
    /// marks as that file is made active, else the buffer is added.
    pub open spec fn opened(self, b: BufferModel, same: Seq<bool>) -> AppModel {
        match first_true(same) {
            Some(i) => AppModel { active_buffer: i as usize, ..self },
            None => AppModel {
                buffers: self.buffers.push(b),
                active_buffer: self.buffers.len() as usize,
                ..self
            },
        }
    }

    /// A key while the terminal has focus: Esc leaves it, Page Up and Page
    /// Down scroll, keys that send bytes send them, other keys do nothing.
    pub open spec fn terminal_key(self, k: KeyEvent) -> (AppModel, EffectModel) {
        if !k.modifiers.control_only() && k.code == KeyCode::Esc {
            (AppModel { term_panel: TermModel { focused: false, ..self.term_panel }, ..self }, EffectModel::Nothing)
        } else if !k.modifiers.control_only() && k.code == KeyCode::PageUp {
            (self, EffectModel::ScrollTerminalUp)
        } else if !k.modifiers.control_only() && k.code == KeyCode::PageDown {
            (
                AppModel {
                    term_panel: TermModel {
                        scroll: if self.term_panel.scroll > 0 {
                            (self.term_panel.scroll - 1) as usize
                        } else {
                            0
                        },
                        ..self.term_panel
                    },
                    ..self
                },
                EffectModel::Nothing,
            )
        } else {
            match shell_bytes(k) {
                Some(b) => (self, EffectModel::WriteShell(b)),
                None => (self, EffectModel::Nothing),
            }
        }
    }

    /// A key while the file tree has focus: Up/k and Down/j move, Enter/l
    /// opens the selected entry, h expands or collapses it, Tab leaves.
    pub open spec fn tree_key(self, k: KeyEvent) -> (AppModel, EffectModel) {
        let c = k.code;
        if c == KeyCode::Up || c == KeyCode::Char('k') {
            (AppModel { filetree: self.filetree.prev_selected(), ..self }, EffectModel::Nothing)
        } else if c == KeyCode::Down || c == KeyCode::Char('j') {
            (AppModel { filetree: self.filetree.next_selected(), ..self }, EffectModel::Nothing)
        } else if c == KeyCode::Enter || c == KeyCode::Char('l') {
            match self.filetree.selected_path() {
                Some(p) => (self, EffectModel::ActivateTreeEntry(p)),
                None => (self, EffectModel::Nothing),
            }
        } else if c == KeyCode::Char('h') {
            self.tree_toggled()
        } else if c == KeyCode::Tab {
            (AppModel { filetree_focused: false, ..self }, EffectModel::Nothing)
        } else {
            (self, EffectModel::Nothing)
        }
    }

    /// The selected tree entry opened or closed: an open directory is
    /// closed at once; a closed one asks for its listing, with which it is
    /// then opened.
    pub open spec fn tree_toggled(self) -> (AppModel, EffectModel) {
        if self.filetree.on_open_directory() {
            (AppModel { filetree: self.filetree.collapsed(), ..self }, EffectModel::Nothing)
        } else if self.filetree.on_closed_directory() {
            (self, EffectModel::ListDirectory(self.filetree.selected_path()->0))
        } else {
            (self, EffectModel::Nothing)
        }
    }
}

impl App {
    /// The editor at start: one empty buffer, the given tree, everything
    /// closed, the file tree 25 columns wide and the terminal 10 lines high.
    pub fn new(filetree: FileTree) -> (a: Self)
        ensures
            a@.buffers == seq![fresh_buffer()],
            a@.active_buffer == 0,
            a@.filetree == filetree@,
            a@.search == (SearchModel {
                query: seq![],
                active: false,
                matches: seq![],
                current_match: 0,
            }),
            a@.term_panel == (TermModel {
                visible: false,
                focused: false,
                scroll: 0,
                shell_type: "cmd"@,
            }),
            a@.cmd_palette == (PaletteModel { active: false, query: seq![], selected: 0 }),
            a@.mode == Mode::Normal,
            a@.command_buffer.len() == 0,
            !a@.quit,
            !a@.filetree_focused,
            a@.tree_width == 25,
            a@.action == Action::Idle,
            a@.terminal_height == 10,
            a@.proj_field == 0,
            a@.proj_name.len() == 0,
            a@.proj_lang.len() == 0,
            a@.proj_desc.len() == 0,
            a@.proj_status.len() == 0,
    {
        let mut buffers: Vec<TextBuffer> = Vec::new();
        buffers.push(fresh());
        let a = App {
            buffers,
            active_buffer: 0,
            filetree,
            search: SearchState::new(),
            term_panel: TerminalPanel::new(),
            cmd_palette: CmdPalette::new(),
            mode: Mode::Normal,
            command_buffer: String::new(),
            quit: false,
            filetree_focused: false,
            tree_width: 25,
            action: Action::Idle,
            terminal_height: 10,
            proj_field: 0,
            proj_name: String::new(),
            proj_lang: String::new(),
            proj_desc: String::new(),
            proj_status: String::new(),
        };
        assert(a@.buffers =~= seq![fresh_buffer()]);
        assert(a@.search.query =~= Seq::<char>::empty());
        assert(a@.search.matches =~= Seq::<SearchMatch>::empty());
        assert(a@.cmd_palette.query =~= Seq::<char>::empty());
        a
    }

    pub fn active_buf_ref(&self) -> (r: &TextBuffer)
        requires
            self@.wf(),
        ensures
            r@ == self@.buf(),
    {
        &self.buffers[self.active_buffer]
    }

    /// The active buffer, to change in place.
    pub fn active_buf(&mut self) -> (r: &mut TextBuffer)
        requires
            old(self)@.wf(),
        ensures
            *r == old(self).buffers@[old(self).active_buffer as int],
            final(self).buffers@ == old(self).buffers@.update(old(self).active_buffer as int, *final(r)),
            *final(self) == (App { buffers: final(self).buffers, ..*old(self) }),
    {
        let idx = self.active_buffer;
        &mut self.buffers[idx]
    }

    /// Takes the active buffer out, leaving a fresh one in its place.
    fn take_active(&mut self) -> (b: TextBuffer)
        requires
            old(self)@.wf(),
        ensures
            b@ == old(self)@.buf(),
            final(self)@ == old(self)@.with_buf(fresh_buffer()),
    {
        let mut b = fresh();
        let i = self.active_buffer;
        self.buffers.set_and_swap(i, &mut b);
        assert(self@.buffers =~= old(self)@.with_buf(fresh_buffer()).buffers);
        b
    }

    /// Puts `b` back as the active buffer.
    fn put_active(&mut self, b: TextBuffer)
        requires
            old(self)@.wf(),
        ensures
            final(self)@ == old(self)@.with_buf(b@),
    {
        let i = self.active_buffer;
        self.buffers.set(i, b);
        assert(self@.buffers =~= old(self)@.with_buf(b@).buffers);
    }

    /// Adds a fresh buffer and makes it active.
    pub fn open_new_tab(&mut self)
        requires
            old(self)@.wf(),
        ensures
            final(self)@ == old(self)@.new_tab(),
            final(self)@.wf(),
    {
        self.buffers.push(fresh());
        self.active_buffer = self.buffers.len() - 1;
        assert(self@.buffers =~= old(self)@.new_tab().buffers);
    }

    pub fn close_current_tab(&mut self)
        requires
            old(self)@.wf(),
        ensures
            final(self)@ == old(self)@.tab_closed(),
            final(self)@.wf(),
    {
        if self.buffers.len() > 1 {
            self.buffers.remove(self.active_buffer);
            if self.active_buffer >= self.buffers.len() {
                self.active_buffer = self.buffers.len() - 1;
            }
            assert(self@.buffers =~= old(self)@.tab_closed().buffers);
        }
    }

    pub fn next_tab(&mut self)
        ensures
            final(self)@ == old(self)@.tab_next(),
    {
        if self.active_buffer < self.buffers.len() && self.active_buffer + 1 < self.buffers.len() {
            self.active_buffer = self.active_buffer + 1;
        }
    }

    pub fn prev_tab(&mut self)
        ensures
            final(self)@ == old(self)@.tab_prev(),
    {
        if self.active_buffer > 0 {
            self.active_buffer = self.active_buffer - 1;
        }
    }

    /// Opens `buf`, just read from its file: if a buffer for that file is
    /// open (`same` marks the buffers whose path is that file's), it becomes
    /// active instead.
    pub fn open_loaded_with(&mut self, buf: TextBuffer, same: Vec<bool>)
        requires
            same@.len() == old(self)@.buffers.len(),
        ensures
            final(self)@ == old(self)@.opened(buf@, same@),
            final(self)@.wf(),
    {
        let n = same.len();
        let mut i: usize = 0;
        while i < n
            invariant
                n == same@.len(),
                i <= n,
                first_true(same@.take(i as int)) is None,
                self@ == old(self)@,
                same@.len() == old(self)@.buffers.len(),
            decreases n - i,
        {
            let ghost t = same@.take(i + 1);
            assert(t.drop_last() =~= same@.take(i as int));
            if same[i] {
                assert(first_true(t) == Some(i as int));
                proof {
                    lemma_first_true_prefix(same@, i as int + 1, i as int);
                }
                self.active_buffer = i;
                return ;
            }
            i = i + 1;
        }
        assert(same@.take(n as int) =~= same@);
        assert(same@.take(n as int) == same@);
        let ghost b = buf@;
        self.buffers.push(buf);
        self.active_buffer = self.buffers.len() - 1;
        assert(self@.buffers =~= old(self)@.buffers.push(b));
    }

    /// Opens `buf`, just read from its file; a buffer already open for that
    /// file (as the platform compares paths) becomes active instead. A
    /// buffer without a file never counts as that file.
    pub fn open_loaded(&mut self, buf: TextBuffer)
        requires
            buf@.path is Some,
        ensures
            final(self)@.wf(),
            exists|same: Seq<bool>|
                same.len() == old(self)@.buffers.len() && (forall|i: int|
                    0 <= i < same.len() && old(self)@.buffers[i].path == buf@.path ==> #[trigger] same[i])
                    && (forall|i: int|
                    0 <= i < same.len() && old(self)@.buffers[i].path is Some && different_files(
                        old(self)@.buffers[i].path->0,
                        buf@.path->0,
                    ) ==> !#[trigger] same[i]) && (forall|i: int|
                    0 <= i < same.len() && old(self)@.buffers[i].path is None ==> !#[trigger] same[i])
                    && final(self)@ == old(self)@.opened(buf@, same),
    {
        let mut same: Vec<bool> = Vec::new();
        let n = self.buffers.len();
        let mut i: usize = 0;
        while i < n
            invariant
                n == self@.buffers.len(),
                i <= n,
                buf@.path is Some,
                same@.len() == i,
                forall|j: int|
                    0 <= j < i && self@.buffers[j].path == buf@.path ==> #[trigger] same@[j],
                forall|j: int|
                    0 <= j < i && self@.buffers[j].path is Some && different_files(
                        self@.buffers[j].path->0,
                        buf@.path->0,
                    ) ==> !#[trigger] same@[j],
                forall|j: int| 0 <= j < i && self@.buffers[j].path is None ==> !#[trigger] same@[j],
            decreases n - i,
        {
            let here = match (self.buffers[i].path(), buf.path()) {
                (Some(p), Some(q)) => paths_equal(p.as_str(), q.as_str()),
                _ => false,
            };
            same.push(here);
            i = i + 1;
        }
        let ghost s = same@;
        self.open_loaded_with(buf, same);
        assert(s.len() == old(self)@.buffers.len());
    }

    /// What saving the active buffer writes: its path and content, or an
    /// error when it has no path.
    pub fn save_request(&self) -> (r: Result<(String, String), String>)
        requires
            self@.wf(),
        ensures
            match r {
                Ok((p, c)) => self@.buf().path == Some(p@) && utf8(c@) == joined(
                    self@.buf().lines,
                    utf8(self@.buf().line_ending),
                ),
                Err(e) => self@.buf().path is None && e@ == "No path"@,
            },
    {
        let b = &self.buffers[self.active_buffer];
        match b.prepare_save() {
            Ok(pc) => Ok(pc),
            Err(_) => Err(String::from_str("No path")),
        }
    }

    /// Records that the active buffer was written to its file.
    pub fn mark_active_saved(&mut self)
        requires
            old(self)@.wf(),
        ensures
            final(self)@ == old(self)@.with_buf(BufferModel { dirty: false, ..old(self)@.buf() }),
    {
        let mut b = self.take_active();
        b.mark_saved();
        self.put_active(b);
        assert(self@.buffers =~= old(self)@.with_buf(BufferModel { dirty: false, ..old(self)@.buf() }).buffers);
    }

    /// Records that the active buffer was written to `path` (whose last
    /// component is `file_name`), which becomes its file.
    pub fn mark_active_saved_as(&mut self, path: &str, file_name: Option<String>)
        requires
            old(self)@.wf(),
        ensures
            final(self)@ == old(self)@.with_buf(
                BufferModel {
                    path: Some(path@),
                    filename: crate::buffer::shown_name(opt_view(file_name)),
                    dirty: false,
                    ..old(self)@.buf()
                },
            ),
    {
        let ghost fname = crate::buffer::shown_name(opt_view(file_name));
        let mut b = self.take_active();
        b.mark_saved_as(path, file_name);
        self.put_active(b);
        assert(self@.buffers =~= old(self)@.with_buf(
            BufferModel { path: Some(path@), filename: fname, dirty: false, ..old(self)@.buf() },
        ).buffers);
    }

    /// Control-T (see `terminal_toggled`).
    fn toggle_terminal(&mut self) -> (eff: Effect)
        ensures
            (final(self)@, eff@) == old(self)@.terminal_toggled(),
    {
        if self.term_panel.visible {
            if self.term_panel.focused {
                self.term_panel.focused = false;
                self.term_panel.mark_stopped();
                Effect::StopShell
            } else {
                self.term_panel.focused = true;
                Effect::Nothing
            }
        } else {
            Effect::StartShell(String::from_str("cmd.exe"))
        }
    }

    /// A Control key binding of the editor (see `control_key`).
    fn handle_control_key(&mut self, k: KeyEvent) -> (eff: Effect)
        requires
            old(self)@.wf(),
            is_control_command(k),
        ensures
            (final(self)@, eff@) == old(self)@.control_key(k),
            final(self)@.wf(),
    {
        match k.code {
            KeyCode::Tab => {
                self.next_tab();
                Effect::Nothing
            },
            KeyCode::BackTab => {
                self.prev_tab();
                Effect::Nothing
            },
            KeyCode::Char(ch) => {
                if ch == 'c' {
                    let b = &self.buffers[self.active_buffer];
                    if b.selection().is_none() && b.cursors().len() > 0 {
                        let mut b = self.take_active();
                        b.clear_extra_cursors();
                        self.put_active(b);
                        proof {
                            lemma_with_buf_twice(old(self)@, fresh_buffer(), old(self)@.buf().cursors_cleared());
                        }
                    }
                    Effect::Nothing
                } else if ch == 'q' {
                    self.quit = true;
                    Effect::Nothing
                } else if ch == 's' {
                    Effect::SaveActive
                } else if ch == 'o' {
                    self.filetree_focused = true;
                    Effect::Nothing
                } else if ch == 'f' {
                    self.search.toggle();
                    if self.search.active {
                        self.mode = Mode::Search;
                    }
                    Effect::Nothing
                } else if ch == '/' {
                    self.cmd_palette.toggle();
                    if self.cmd_palette.active {
                        self.mode = Mode::CmdPalette;
                    } else {
                        self.mode = Mode::Normal;
                    }
                    Effect::Nothing
                } else if ch == 't' {
                    self.toggle_terminal()
                } else if ch == '`' {
                    if self.term_panel.visible {
                        self.term_panel.focused = !self.term_panel.focused;
                    }
                    Effect::Nothing
                } else if ch == 'p' {
                    self.start_project_creation();
                    Effect::Nothing
                } else if ch == 'n' {
                    self.open_new_tab();
                    Effect::Nothing
                } else if ch == 'N' {
                    self.prev_tab();
                    Effect::Nothing
                } else {
                    self.close_current_tab();
                    Effect::Nothing
                }
            },
            _ => Effect::Nothing,
        }
    }

    /// Opens the project form with its fields reset.
    pub fn start_project_creation(&mut self)
        ensures
            final(self)@ == old(self)@.project_form(),
    {
        self.mode = Mode::ProjectInput;
        self.proj_name = String::new();
        self.proj_lang = String::from_str("rust");
        self.proj_desc = String::new();
        self.proj_field = 0;
        self.proj_status = String::new();
        assert(self@.proj_name =~= Seq::<char>::empty());
        assert(self@.proj_desc =~= Seq::<char>::empty());
        assert(self@.proj_status =~= Seq::<char>::empty());
    }

    /// Any other key in the editor (see `edit_key`).
    fn handle_edit_key(&mut self, k: KeyEvent) -> (eff: Effect)
        requires
            old(self)@.wf(),
            old(self)@.edit_key_ok(k),
        ensures
            (final(self)@, eff@) == old(self)@.edit_key(k),
            final(self)@.wf(),
    {
        let c = k.code;
        if c == KeyCode::F(1) {
            if self.term_panel.visible {
                self.term_panel.focused = true;
            }
            return Effect::Nothing;
        }
        if c == KeyCode::Char(':') {
            self.mode = Mode::Command;
            self.command_buffer = String::from_str(":");
            return Effect::Nothing;
        }
        let ghost m0 = self@;
        let mut b = self.take_active();
        if c == KeyCode::Esc {
            b.clear_selection();
        } else if let Some(m) = motion_from(c) {
            if k.modifiers.shift {
                if b.selection().is_none() {
                    b.begin_selection();
                }
                apply_motion(&mut b, m);
                b.update_selection();
            } else {
                b.clear_selection();
                apply_motion(&mut b, m);
            }
        } else if c == KeyCode::Home {
            b.clear_selection();
            b.move_home();
        } else if c == KeyCode::End {
            b.clear_selection();
            b.move_end();
        } else if c == KeyCode::PageUp {
            b.clear_selection();
            b.move_page_up(20);
        } else if c == KeyCode::PageDown {
            b.clear_selection();
            b.move_page_down(20);
        } else if c == KeyCode::Backspace {
            b.delete_backward();
        } else if c == KeyCode::Delete {
            b.delete_forward();
        } else if c == KeyCode::Enter {
            b.insert_char('\n');
        } else if c == KeyCode::Tab {
            let spaces = "    ";
            proof {
                assert(spaces@ == "    "@);
            }
            b.insert_str(spaces);
        } else {
            match c {
                KeyCode::Char(ch) => {
                    if k.modifiers.is_alt_only() && ch == 'j' {
                        b.add_cursor_alt_down();
                    } else if k.modifiers.is_alt_only() && ch == 'k' {
                        b.add_cursor_alt_up();
                    } else if k.modifiers.is_plain_or_shift() {
                        b.clear_selection();
                        b.insert_char(ch);
                    }
                },
                _ => {},
            }
        }
        let ghost nb = b@;
        self.put_active(b);
        proof {
            lemma_with_buf_twice(m0, fresh_buffer(), nb);
            lemma_with_buf_same(m0);
        }
        Effect::Nothing
    }

    /// A key while the terminal has focus (see `terminal_key`).
    pub fn handle_terminal_key(&mut self, k: KeyEvent) -> (eff: Effect)
        ensures
            (final(self)@, eff@) == old(self)@.terminal_key(k),
    {
        let ctrl = k.modifiers.is_control_only();
        if !ctrl && k.code == KeyCode::Esc {
            self.term_panel.focused = false;
            return Effect::Nothing;
        }
        if !ctrl && k.code == KeyCode::PageUp {
            return Effect::ScrollTerminalUp;
        }
        if !ctrl && k.code == KeyCode::PageDown {
            self.term_panel.scroll_down();
            return Effect::Nothing;
        }
        let bytes: Option<Vec<u8>> = if ctrl {
            match k.code {
                KeyCode::Char(c) => if c == 'c' {
                    Some(vec![3u8])
                } else if c == 'd' {
                    Some(vec![4u8])
                } else if c == 'l' {
                    Some(vec![12u8])
                } else if c == 'z' {
                    Some(vec![26u8])
                } else {
                    None
                },
                _ => None,
            }
        } else {
            match k.code {
                KeyCode::Char(c) => Some(char_bytes(c)),
                KeyCode::Enter => Some(vec![13u8, 10u8]),
                KeyCode::Backspace => Some(vec![8u8]),
                KeyCode::Tab => Some(vec![9u8]),
                KeyCode::Up => Some(vec![27u8, 91u8, 65u8]),
                KeyCode::Down => Some(vec![27u8, 91u8, 66u8]),
                KeyCode::Right => Some(vec![27u8, 91u8, 67u8]),
                KeyCode::Left => Some(vec![27u8, 91u8, 68u8]),
                KeyCode::Home => Some(vec![27u8, 91u8, 72u8]),
                KeyCode::End => Some(vec![27u8, 91u8, 70u8]),
                KeyCode::Delete => Some(vec![27u8, 91u8, 51u8, 126u8]),
                _ => None,
            }
        };
        match bytes {
            Some(b) => {
                assert(shell_bytes(k) == Some(b@));
                Effect::WriteShell(b)
            },
            None => Effect::Nothing,
        }
    }

    /// A key while the file tree has focus (see `tree_key`).
    pub fn handle_tree_key(&mut self, k: KeyEvent) -> (eff: Effect)
        ensures
            (final(self)@, eff@) == old(self)@.tree_key(k),
    {
        let c = k.code;
        if c == KeyCode::Up || c == KeyCode::Char('k') {
            self.filetree.select_prev();
            Effect::Nothing
        } else if c == KeyCode::Down || c == KeyCode::Char('j') {
            self.filetree.select_next();
            Effect::Nothing
        } else if c == KeyCode::Enter || c == KeyCode::Char('l') {
            match self.filetree.selected_path() {
                Some(p) => Effect::ActivateTreeEntry(p),
                None => Effect::Nothing,
            }
        } else if c == KeyCode::Char('h') {
            self.toggle_tree_entry()
        } else if c == KeyCode::Tab {
            self.filetree_focused = false;
            Effect::Nothing
        } else {
            Effect::Nothing
        }
    }

    /// Expands or collapses the selected tree entry (see `tree_toggled`).
    fn toggle_tree_entry(&mut self) -> (eff: Effect)
        ensures
            (final(self)@, eff@) == old(self)@.tree_toggled(),
    {
        if self.filetree.toggle_expand() {
            match self.filetree.selected_path() {
                Some(p) => Effect::ListDirectory(p),
                None => Effect::Nothing,
            }
        } else {
            Effect::Nothing
        }
    }

    /// The selected tree entry at `path` was activated: a directory is
    /// expanded or collapsed, a file is opened and the tree loses focus.
    pub fn tree_entry_activated(&mut self, path: &str, is_dir: bool) -> (eff: Effect)
        ensures
            is_dir ==> (final(self)@, eff@) == old(self)@.tree_toggled(),
            !is_dir ==> final(self)@ == (AppModel { filetree_focused: false, ..old(self)@ })
                && eff@ == EffectModel::OpenFile(path@),
    {
        if is_dir {
            self.toggle_tree_entry()
        } else {
            self.filetree_focused = false;
            Effect::OpenFile(path.to_owned())
        }
    }
}


/// `s` without its last character, if it has one.
pub open spec fn popped(s: Seq<char>) -> Seq<char> {
    if s.len() > 0 {
        s.drop_last()
    } else {
        s
    }
}

/// The command typed on the command line: trimmed, without one leading
/// ':', and trimmed again.
pub open spec fn command_text(line: Seq<char>) -> Seq<char> {
    let raw = trim_ws(line);
    trim_ws(
        if raw.len() > 0 && raw[0] == ':' {
            raw.drop_first()
        } else {
            raw
        },
    )
}

/// What follows a command word of `n` characters (its space included),
/// trimmed.
pub open spec fn argument(cmd: Seq<char>, n: int) -> Seq<char> {
    trim_ws(cmd.skip(n))
}

/// A command of the command line.
pub enum Command {
    /// `w`, `write`: save the active buffer.
    Save,
    /// `w PATH`, `write PATH`: save the active buffer to PATH.
    SaveAs(String),
    /// `q`, `quit`.
    Quit,
    /// `wq`: save, then quit.
    SaveAndQuit,
    /// `e PATH`, `edit PATH`: open PATH.
    Open(String),
    /// `cd PATH`: change the working directory.
    ChangeDir(String),
    /// `newproject`, `np`: open the project form.
    NewProject,
    /// `goto N` with N at least 1: move to line N.
    GoTo(usize),
    /// `%s/FROM/TO/`, `s/FROM/TO/` with FROM not empty: replace FROM by TO
    /// (in which `\/` stands for `/`) everywhere.
    Replace(String, String),
    /// Anything else.
    Unknown,
}

/// The abstract form of a command.
pub enum CommandModel {
    Save,
    SaveAs(Seq<char>),
    Quit,
    SaveAndQuit,
    Open(Seq<char>),
    ChangeDir(Seq<char>),
    NewProject,
    GoTo(usize),
    Replace(Seq<char>, Seq<char>),
    Unknown,
}

impl View for Command {
    type V = CommandModel;

    open spec fn view(&self) -> CommandModel {
        match self {
            Command::Save => CommandModel::Save,
            Command::SaveAs(p) => CommandModel::SaveAs(p@),
            Command::Quit => CommandModel::Quit,
            Command::SaveAndQuit => CommandModel::SaveAndQuit,
            Command::Open(p) => CommandModel::Open(p@),
            Command::ChangeDir(p) => CommandModel::ChangeDir(p@),
            Command::NewProject => CommandModel::NewProject,
            Command::GoTo(n) => CommandModel::GoTo(*n),
            Command::Replace(a, b) => CommandModel::Replace(a@, b@),
            Command::Unknown => CommandModel::Unknown,
        }
    }
}

/// A replacement `FROM/TO/...`: the pieces before the first two slashes,
/// when there are two and FROM is not empty.
pub open spec fn replace_of(rest: Seq<char>) -> CommandModel {
    match two_slash_pieces(rest) {
        Some((a, b)) => if a.len() > 0 {
            CommandModel::Replace(a, unescape_slashes(b))
        } else {
            CommandModel::Unknown
        },
        None => CommandModel::Unknown,
    }
}

/// A command taking a path, which must not be empty.
pub open spec fn path_of(p: Seq<char>, save: bool, open: bool) -> CommandModel {
    if p.len() == 0 {
        CommandModel::Unknown
    } else if save {
        CommandModel::SaveAs(p)
    } else if open {
        CommandModel::Open(p)
    } else {
        CommandModel::ChangeDir(p)
    }
}

/// The command that the text `cmd` (see `command_text`) names; the forms
/// are tried in the order of `Command`'s variants, `w ` before `write `.
pub open spec fn command_of(cmd: Seq<char>) -> CommandModel {
    if cmd == "w"@ || cmd == "write"@ {
        CommandModel::Save
    } else if starts_with_seq(cmd, "w "@) {
        path_of(argument(cmd, 2), true, false)
    } else if starts_with_seq(cmd, "write "@) {
        path_of(argument(cmd, 6), true, false)
    } else if cmd == "q"@ || cmd == "quit"@ {
        CommandModel::Quit
    } else if cmd == "wq"@ {
        CommandModel::SaveAndQuit
    } else if starts_with_seq(cmd, "e "@) {
        path_of(argument(cmd, 2), false, true)
    } else if starts_with_seq(cmd, "edit "@) {
        path_of(argument(cmd, 5), false, true)
    } else if starts_with_seq(cmd, "cd "@) {
        path_of(argument(cmd, 3), false, false)
    } else if cmd == "newproject"@ || cmd == "np"@ {
        CommandModel::NewProject
    } else if starts_with_seq(cmd, "goto "@) {
        match parse_usize_spec(argument(cmd, 5)) {
            Some(n) => if n >= 1 {
                CommandModel::GoTo(n)
            } else {
                CommandModel::Unknown
            },
            None => CommandModel::Unknown,
        }
    } else if starts_with_seq(cmd, "%s/"@) {
        replace_of(cmd.skip(3))
    } else if starts_with_seq(cmd, "s/"@) {
        replace_of(cmd.skip(2))
    } else {
        CommandModel::Unknown
    }
}

/// The line that `goto n` moves to: line `n` counted from 1, or the last
/// of `count` lines.
pub open spec fn goto_target(n: usize, count: nat) -> usize {
    if n - 1 < count - 1 {
        (n - 1) as usize
    } else {
        (count - 1) as usize
    }
}

impl AppModel {
    /// The search bar set to `s`, and the active buffer's cursor moved to
    /// the start of its current match, if there is one.
    pub open spec fn search_at_match(self, s: SearchModel) -> AppModel {
        match s.current() {
            Some(m) => AppModel {
                search: s,
                ..self.with_buf(
                    BufferModel { cursor: Cursor { line: m.line, col: m.start_col }, ..self.buf() },
                )
            },
            None => AppModel { search: s, ..self },
        }
    }

    /// The search query set to `q` and the active buffer searched for it.
    pub open spec fn requeried(self, q: Seq<char>) -> AppModel {
        AppModel {
            search: SearchModel {
                query: q,
                matches: search_result(self.buf().lines, q)->0,
                ..self.search
            },
            ..self
        }
    }

    /// A key in the search bar: Esc closes it, Enter and Tab go to the next
    /// match, Shift-Tab to the previous one, Backspace and characters edit
    /// the query, which is searched for at once.
    pub open spec fn search_key(self, k: KeyEvent) -> AppModel {
        let c = k.code;
        if c == KeyCode::Esc {
            AppModel { search: self.search.toggled(), mode: Mode::Normal, ..self }
        } else if c == KeyCode::Enter || c == KeyCode::Tab {
            self.search_at_match(self.search.advanced())
        } else if c == KeyCode::BackTab {
            self.search_at_match(self.search.retreated())
        } else if c == KeyCode::Backspace {
            self.requeried(popped(self.search.query))
        } else {
            match c {
                KeyCode::Char(ch) => self.requeried(self.search.query.push(ch)),
                _ => self,
            }
        }
    }

    /// Whether `search_key(k)` is defined here: stepping back needs the
    /// current match within reach, a new query needs a search that does not
    /// break down.
    pub open spec fn search_key_ok(self, k: KeyEvent) -> bool {
        let c = k.code;
        if c == KeyCode::BackTab {
            self.search.matches.len() == 0 || self.search.current_match <= self.search.matches.len()
        } else if c == KeyCode::Backspace {
            search_result(self.buf().lines, popped(self.search.query)) is Some
        } else {
            match c {
                KeyCode::Char(ch) => search_result(self.buf().lines, self.search.query.push(ch)) is Some,
                _ => true,
            }
        }
    }

    /// Running command `c`.
    pub open spec fn executed(self, c: CommandModel) -> (AppModel, EffectModel) {
        let n = EffectModel::Nothing;
        match c {
            CommandModel::Save => (self, EffectModel::SaveActive),
            CommandModel::SaveAs(p) => (self, EffectModel::SaveActiveAs(p)),
            CommandModel::Quit => (AppModel { quit: true, ..self }, n),
            CommandModel::SaveAndQuit => (AppModel { quit: true, ..self }, EffectModel::SaveActive),
            CommandModel::Open(p) => (self, EffectModel::OpenFile(p)),
            CommandModel::ChangeDir(p) => (self, EffectModel::ChangeDir(p)),
            CommandModel::NewProject => (self.project_form(), n),
            CommandModel::GoTo(k) => (
                self.with_buf(
                    BufferModel {
                        cursor: Cursor { line: goto_target(k, self.buf().lines.len()), col: 0 },
                        ..self.buf()
                    },
                ),
                n,
            ),
            CommandModel::Replace(a, b) => (self, EffectModel::ReplaceAll(a, b)),
            CommandModel::Unknown => (self, n),
        }
    }

    /// Whether `executed(c)` is defined here: going to a line needs a line
    /// number from 1 on, and a line to go to.
    pub open spec fn executed_ok(self, c: CommandModel) -> bool {
        c matches CommandModel::GoTo(k) ==> k >= 1 && self.buf().lines.len() > 0
    }

    /// A key on the command line: Esc leaves it, Enter runs the command,
    /// Backspace and characters edit it.
    pub open spec fn command_key(self, k: KeyEvent) -> (AppModel, EffectModel) {
        let closed = AppModel { mode: Mode::Normal, command_buffer: seq![], ..self };
        match k.code {
            KeyCode::Esc => (closed, EffectModel::Nothing),
            KeyCode::Enter => closed.executed(command_of(command_text(self.command_buffer))),
            KeyCode::Backspace => (
                AppModel { command_buffer: popped(self.command_buffer), ..self },
                EffectModel::Nothing,
            ),
            KeyCode::Char(ch) => (
                AppModel { command_buffer: self.command_buffer.push(ch), ..self },
                EffectModel::Nothing,
            ),
            _ => (self, EffectModel::Nothing),
        }
    }

    /// Whether `command_key(k)` is defined here.
    pub open spec fn command_key_ok(self, k: KeyEvent) -> bool {
        k.code == KeyCode::Enter ==> self.executed_ok(command_of(command_text(self.command_buffer)))
    }
}


/// The command text of a command line (see `command_text`).
pub fn command_line_text(line: &str) -> (r: String)
    ensures
        r@ == command_text(line@),
{
    let raw = trim(line);
    let v = char_vec(raw.as_str());
    if v.len() > 0 && v[0] == ':' {
        let rest = skip_chars(raw.as_str(), 1);
        assert(raw@.skip(1) =~= raw@.drop_first());
        trim(rest.as_str())
    } else {
        trim(raw.as_str())
    }
}

/// A command taking the path after its first `n` characters (see
/// `path_of`).
fn path_command(cmd: &str, n: usize, save: bool, open: bool) -> (r: Command)
    requires
        n <= cmd@.len(),
    ensures
        r@ == path_of(argument(cmd@, n as int), save, open),
{
    let rest = skip_chars(cmd, n);
    let p = trim(rest.as_str());
    if p.as_str().is_empty() {
        Command::Unknown
    } else if save {
        Command::SaveAs(p)
    } else if open {
        Command::Open(p)
    } else {
        Command::ChangeDir(p)
    }
}

/// A replacement from the text after its command word (see `replace_of`).
fn replace_command(rest: &str) -> (r: Command)
    ensures
        r@ == replace_of(rest@),
{
    match split_two_slashes(rest) {
        Some((a, b)) => if a.as_str().is_empty() {
            Command::Unknown
        } else {
            Command::Replace(a, unescape(b.as_str()))
        },
        None => Command::Unknown,
    }
}

/// The command that a command text names (see `command_of`).
pub fn parse_command(cmd: &str) -> (r: Command)
    ensures
        r@ == command_of(cmd@),
{
    proof {
        reveal_strlit("w ");
        reveal_strlit("write ");
        reveal_strlit("e ");
        reveal_strlit("edit ");
        reveal_strlit("cd ");
        reveal_strlit("goto ");
        reveal_strlit("%s/");
        reveal_strlit("s/");
    }
    if same_text(cmd, "w") || same_text(cmd, "write") {
        Command::Save
    } else if starts_with(cmd, "w ") {
        path_command(cmd, 2, true, false)
    } else if starts_with(cmd, "write ") {
        path_command(cmd, 6, true, false)
    } else if same_text(cmd, "q") || same_text(cmd, "quit") {
        Command::Quit
    } else if same_text(cmd, "wq") {
        Command::SaveAndQuit
    } else if starts_with(cmd, "e ") {
        path_command(cmd, 2, false, true)
    } else if starts_with(cmd, "edit ") {
        path_command(cmd, 5, false, true)
    } else if starts_with(cmd, "cd ") {
        path_command(cmd, 3, false, false)
    } else if same_text(cmd, "newproject") || same_text(cmd, "np") {
        Command::NewProject
    } else if starts_with(cmd, "goto ") {
        let rest = skip_chars(cmd, 5);
        let arg = trim(rest.as_str());
        match parse_usize(arg.as_str()) {
            Some(n) => if n >= 1 {
                Command::GoTo(n)
            } else {
                Command::Unknown
            },
            None => Command::Unknown,
        }
    } else if starts_with(cmd, "%s/") {
        let rest = skip_chars(cmd, 3);
        replace_command(rest.as_str())
    } else if starts_with(cmd, "s/") {
        let rest = skip_chars(cmd, 2);
        replace_command(rest.as_str())
    } else {
        Command::Unknown
    }
}

impl App {
    /// Moves the active buffer's cursor to the start of match `m`.
    fn go_to_active(&mut self, m: SearchMatch)
        requires
            old(self)@.wf(),
        ensures
            final(self)@ == old(self)@.with_buf(
                BufferModel { cursor: Cursor { line: m.line, col: m.start_col }, ..old(self)@.buf() },
            ),
    {
        let ghost m0 = self@;
        let mut b = self.take_active();
        b.go_to_match(&m);
        let ghost nb = b@;
        self.put_active(b);
        proof {
            lemma_with_buf_twice(m0, fresh_buffer(), nb);
        }
    }

    /// Puts the active buffer's cursor at `c`.
    fn set_active_cursor(&mut self, c: Cursor)
        requires
            old(self)@.wf(),
        ensures
            final(self)@ == old(self)@.with_buf(BufferModel { cursor: c, ..old(self)@.buf() }),
    {
        let ghost m0 = self@;
        let mut b = self.take_active();
        b.set_cursor(c);
        let ghost nb = b@;
        self.put_active(b);
        proof {
            lemma_with_buf_twice(m0, fresh_buffer(), nb);
        }
    }

    /// Searches the active buffer for the current query.
    fn refresh_matches(&mut self)
        requires
            old(self)@.wf(),
            search_result(old(self)@.buf().lines, old(self)@.search.query) is Some,
        ensures
            final(self)@ == old(self)@.requeried(old(self)@.search.query),
    {
        let found = self.buffers[self.active_buffer].find_all(self.search.query.as_str());
        self.search.matches = found;
    }

    /// A key in the search bar (see `search_key`).
    pub fn handle_search_key(&mut self, k: KeyEvent)
        requires
            old(self)@.wf(),
            old(self)@.search_key_ok(k),
        ensures
            final(self)@ == old(self)@.search_key(k),
            final(self)@.wf(),
    {
        let c = k.code;
        if c == KeyCode::Esc {
            self.search.toggle();
            self.mode = Mode::Normal;
        } else if c == KeyCode::Enter || c == KeyCode::Tab {
            let found = match self.search.next_match() {
                Some(m) => Some(*m),
                None => None,
            };
            if let Some(m) = found {
                self.go_to_active(m);
            }
        } else if c == KeyCode::BackTab {
            let found = match self.search.prev_match() {
                Some(m) => Some(*m),
                None => None,
            };
            if let Some(m) = found {
                self.go_to_active(m);
            }
        } else if c == KeyCode::Backspace {
            self.search.pop_char();
            self.refresh_matches();
        } else {
            match c {
                KeyCode::Char(ch) => {
                    self.search.push_char(ch);
                    self.refresh_matches();
                },
                _ => {},
            }
        }
    }

    /// Runs command `c` (see `executed`).
    pub fn run_command(&mut self, c: Command) -> (eff: Effect)
        requires
            old(self)@.wf(),
            old(self)@.executed_ok(c@),
        ensures
            (final(self)@, eff@) == old(self)@.executed(c@),
            final(self)@.wf(),
    {
        match c {
            Command::Save => Effect::SaveActive,
            Command::SaveAs(p) => Effect::SaveActiveAs(p),
            Command::Quit => {
                self.quit = true;
                Effect::Nothing
            },
            Command::SaveAndQuit => {
                self.quit = true;
                Effect::SaveActive
            },
            Command::Open(p) => Effect::OpenFile(p),
            Command::ChangeDir(p) => Effect::ChangeDir(p),
            Command::NewProject => {
                self.start_project_creation();
                Effect::Nothing
            },
            Command::GoTo(n) => {
                let count = self.buffers[self.active_buffer].line_count();
                let line = if n - 1 < count - 1 {
                    n - 1
                } else {
                    count - 1
                };
                self.set_active_cursor(Cursor::new(line, 0));
                Effect::Nothing
            },
            Command::Replace(a, b) => Effect::ReplaceAll(a, b),
            Command::Unknown => Effect::Nothing,
        }
    }

    /// A key on the command line (see `command_key`).
    pub fn handle_command_key(&mut self, k: KeyEvent) -> (eff: Effect)
        requires
            old(self)@.wf(),
            old(self)@.command_key_ok(k),
        ensures
            (final(self)@, eff@) == old(self)@.command_key(k),
            final(self)@.wf(),
    {
        match k.code {
            KeyCode::Esc => {
                self.mode = Mode::Normal;
                self.command_buffer = String::new();
                assert(self@.command_buffer =~= Seq::<char>::empty());
                Effect::Nothing
            },
            KeyCode::Enter => {
                let text = command_line_text(self.command_buffer.as_str());
                self.command_buffer = String::new();
                self.mode = Mode::Normal;
                assert(self@.command_buffer =~= Seq::<char>::empty());
                let c = parse_command(text.as_str());
                self.run_command(c)
            },
            KeyCode::Backspace => {
                pop_char(&mut self.command_buffer);
                Effect::Nothing
            },
            KeyCode::Char(ch) => {
                push_char(&mut self.command_buffer, ch);
                Effect::Nothing
            },
            _ => Effect::Nothing,
        }
    }
}


impl AppModel {
    /// The command line opened holding `text`.
    pub open spec fn command_line(self, text: Seq<char>) -> AppModel {
        AppModel { mode: Mode::Command, command_buffer: text, ..self }
    }

    /// Running the palette command named `name`.
    pub open spec fn palette_run(self, name: Seq<char>) -> (AppModel, EffectModel) {
        let n = EffectModel::Nothing;
        let b = self.buf();
        if name == "terminal"@ {
            if self.term_panel.visible {
                (
                    AppModel {
                        term_panel: TermModel { visible: false, focused: false, ..self.term_panel },
                        ..self
                    },
                    EffectModel::StopShell,
                )
            } else {
                (self, EffectModel::StartShell("cmd.exe"@))
            }
        } else if name == "wsl"@ {
            (self, EffectModel::StartShell("wsl.exe"@))
        } else if name == "save"@ {
            (self, EffectModel::SaveActive)
        } else if name == "save as"@ {
            (self.command_line(":w "@), n)
        } else if name == "reload"@ {
            (self, EffectModel::ReloadActive)
        } else if name == "open"@ {
            (AppModel { filetree_focused: true, ..self }, n)
        } else if name == "new file"@ {
            (self.new_tab(), n)
        } else if name == "close tab"@ {
            (self.tab_closed(), n)
        } else if name == "close all"@ {
            (AppModel { buffers: seq![fresh_buffer()], active_buffer: 0, ..self }, n)
        } else if name == "search"@ {
            let s = self.search.toggled();
            (
                AppModel {
                    search: s,
                    mode: if s.active {
                        Mode::Search
                    } else {
                        self.mode
                    },
                    ..self
                },
                n,
            )
        } else if name == "replace"@ {
            (self.command_line(":%s/"@), n)
        } else if name == "select all"@ {
            (self.with_buf(b.cursors_cleared()), EffectModel::SelectAll)
        } else if name == "go to line"@ {
            (self.command_line(":goto "@), n)
        } else if name == "delete line"@ {
            (self.with_buf(b.cleared_selection()), EffectModel::DeleteLine)
        } else if name == "duplicate line"@ {
            (self.with_buf(b.cleared_selection()), EffectModel::DuplicateLine)
        } else if name == "project"@ {
            (self.project_form(), n)
        } else if name == "quit"@ {
            (AppModel { quit: true, ..self }, n)
        } else {
            (self, n)
        }
    }

    /// A key in the command palette: Esc closes it, Enter closes it and runs
    /// the selected command, Up/Shift-Tab and Down/Tab move the selection,
    /// Backspace and characters edit the query.
    pub open spec fn palette_key(self, k: KeyEvent) -> (AppModel, EffectModel) {
        let c = k.code;
        let p = self.cmd_palette;
        let n = EffectModel::Nothing;
        if c == KeyCode::Esc {
            (AppModel { cmd_palette: p.toggled(), mode: Mode::Normal, ..self }, n)
        } else if c == KeyCode::Enter {
            let name = match p.chosen() {
                Some(x) => x,
                None => seq![],
            };
            AppModel { cmd_palette: p.toggled(), mode: Mode::Normal, ..self }.palette_run(name)
        } else if c == KeyCode::Up || c == KeyCode::BackTab {
            (AppModel { cmd_palette: p.prev(), ..self }, n)
        } else if c == KeyCode::Down || c == KeyCode::Tab {
            (AppModel { cmd_palette: p.next(), ..self }, n)
        } else if c == KeyCode::Backspace {
            (
                AppModel {
                    cmd_palette: PaletteModel { query: popped(p.query), selected: 0, ..p },
                    ..self
                },
                n,
            )
        } else {
            match c {
                KeyCode::Char(ch) => (
                    AppModel {
                        cmd_palette: PaletteModel { query: p.query.push(ch), selected: 0, ..p },
                        ..self
                    },
                    n,
                ),
                _ => (self, n),
            }
        }
    }

    /// The project form submitted: a name is required; the language defaults
    /// to "rust".
    pub open spec fn project_submitted(self) -> (AppModel, EffectModel) {
        if self.proj_name.len() == 0 {
            (
                AppModel { proj_status: "Error: Project name is required"@, ..self },
                EffectModel::Nothing,
            )
        } else {
            (
                AppModel { proj_status: "Creating project..."@, ..self },
                EffectModel::CreateProject(
                    self.proj_name,
                    if self.proj_lang.len() == 0 {
                        "rust"@
                    } else {
                        self.proj_lang
                    },
                    self.proj_desc,
                ),
            )
        }
    }

    /// The project form after its creation ended with `r`: on success the
    /// form closes and the tree shows the working directory again.
    pub open spec fn project_finished(self, r: Result<(), Seq<char>>) -> (AppModel, EffectModel) {
        match r {
            Ok(_) => (
                AppModel {
                    proj_status: "Project '"@ + self.proj_name + "' created!"@,
                    mode: Mode::Normal,
                    ..self
                },
                EffectModel::ReloadTree,
            ),
            Err(e) => (AppModel { proj_status: "Error: "@ + e, ..self }, EffectModel::Nothing),
        }
    }

    /// A key in the project form: Esc closes it, Tab and Shift-Tab cycle
    /// the three fields, Enter submits, Backspace and characters edit the
    /// current field.
    pub open spec fn project_key(self, k: KeyEvent) -> (AppModel, EffectModel) {
        let c = k.code;
        let f = self.proj_field;
        let n = EffectModel::Nothing;
        if c == KeyCode::Esc {
            (AppModel { mode: Mode::Normal, ..self }, n)
        } else if c == KeyCode::Tab {
            (AppModel { proj_field: ((f + 1) % 3) as usize, ..self }, n)
        } else if c == KeyCode::BackTab {
            (
                AppModel {
                    proj_field: if f == 0 {
                        2
                    } else {
                        (f - 1) as usize
                    },
                    ..self
                },
                n,
            )
        } else if c == KeyCode::Enter {
            self.project_submitted()
        } else if c == KeyCode::Backspace {
            (
                if f == 0 {
                    AppModel { proj_name: popped(self.proj_name), ..self }
                } else if f == 1 {
                    AppModel { proj_lang: popped(self.proj_lang), ..self }
                } else {
                    AppModel { proj_desc: popped(self.proj_desc), ..self }
                },
                n,
            )
        } else {
            match c {
                KeyCode::Char(ch) => (
                    if f == 0 {
                        AppModel { proj_name: self.proj_name.push(ch), ..self }
                    } else if f == 1 {
                        AppModel { proj_lang: self.proj_lang.push(ch), ..self }
                    } else {
                        AppModel { proj_desc: self.proj_desc.push(ch), ..self }
                    },
                    n,
                ),
                _ => (self, n),
            }
        }
    }

    /// A key in the editor: the file tree or the terminal take it when they
    /// have focus; otherwise the Control bindings, then the editing keys.
    pub open spec fn normal_key(self, k: KeyEvent) -> (AppModel, EffectModel) {
        if self.filetree_focused {
            self.tree_key(k)
        } else if self.term_panel.visible && self.term_panel.focused {
            self.terminal_key(k)
        } else if is_control_command(k) {
            self.control_key(k)
        } else {
            self.edit_key(k)
        }
    }

    /// Whether `normal_key(k)` is defined here.
    pub open spec fn normal_key_ok(self, k: KeyEvent) -> bool {
        self.filetree_focused || (self.term_panel.visible && self.term_panel.focused)
            || is_control_command(k) || self.edit_key_ok(k)
    }

    /// Handling event `e`: the action is reset, then a key goes to the part
    /// that the mode names; other events change nothing else.
    pub open spec fn event_result(self, e: Event) -> (AppModel, EffectModel) {
        let s = AppModel { action: Action::Idle, ..self };
        match e {
            Event::Key(k) => match s.mode {
                Mode::Search => (s.search_key(k), EffectModel::Nothing),
                Mode::Command => s.command_key(k),
                Mode::ProjectInput => s.project_key(k),
                Mode::CmdPalette => s.palette_key(k),
                Mode::Normal => s.normal_key(k),
            },
            Event::Other => (s, EffectModel::Nothing),
        }
    }

    /// Whether `event_result(e)` is defined here.
    pub open spec fn event_ok(self, e: Event) -> bool {
        match e {
            Event::Key(k) => match self.mode {
                Mode::Search => self.search_key_ok(k),
                Mode::Command => self.command_key_ok(k),
                Mode::Normal => self.normal_key_ok(k),
                _ => true,
            },
            Event::Other => true,
        }
    }
}


/// Whether a key is one of the editor's Control bindings (see
/// `is_control_command`).
pub fn control_command(k: KeyEvent) -> (r: bool)
    ensures
        r == is_control_command(k),
{
    if !k.modifiers.is_control_only() {
        return false;
    }
    match k.code {
        KeyCode::Tab => true,
        KeyCode::BackTab => true,
        KeyCode::Char(ch) => ch == 'c' || ch == 'q' || ch == 's' || ch == 'o' || ch == 'f' || ch
            == '/' || ch == 't' || ch == '`' || ch == 'p' || ch == 'n' || ch == 'N' || ch == 'w',
        _ => false,
    }
}

impl App {
    /// Opens the command line holding `text`.
    fn open_command_line(&mut self, text: &str)
        ensures
            final(self)@ == old(self)@.command_line(text@),
    {
        self.mode = Mode::Command;
        self.command_buffer = text.to_owned();
    }

    /// Replaces the active buffer's model by `f(b)` for the operations that
    /// drop the selection or the extra cursors.
    fn clear_active(&mut self, selection: bool)
        requires
            old(self)@.wf(),
        ensures
            selection ==> final(self)@ == old(self)@.with_buf(old(self)@.buf().cleared_selection()),
            !selection ==> final(self)@ == old(self)@.with_buf(old(self)@.buf().cursors_cleared()),
    {
        let ghost m0 = self@;
        let mut b = self.take_active();
        if selection {
            b.clear_selection();
        } else {
            b.clear_extra_cursors();
        }
        let ghost nb = b@;
        self.put_active(b);
        proof {
            lemma_with_buf_twice(m0, fresh_buffer(), nb);
        }
    }

    /// Runs the palette command named `name` (see `palette_run`).
    pub fn run_palette(&mut self, name: &str) -> (eff: Effect)
        requires
            old(self)@.wf(),
        ensures
            (final(self)@, eff@) == old(self)@.palette_run(name@),
            final(self)@.wf(),
    {
        if same_text(name, "terminal") {
            if self.term_panel.visible {
                self.term_panel.mark_stopped();
                Effect::StopShell
            } else {
                Effect::StartShell(String::from_str("cmd.exe"))
            }
        } else if same_text(name, "wsl") {
            Effect::StartShell(String::from_str("wsl.exe"))
        } else if same_text(name, "save") {
            Effect::SaveActive
        } else if same_text(name, "save as") {
            self.open_command_line(":w ");
            Effect::Nothing
        } else if same_text(name, "reload") {
            Effect::ReloadActive
        } else if same_text(name, "open") {
            self.filetree_focused = true;
            Effect::Nothing
        } else if same_text(name, "new file") {
            self.open_new_tab();
            Effect::Nothing
        } else if same_text(name, "close tab") {
            self.close_current_tab();
            Effect::Nothing
        } else if same_text(name, "close all") {
            let mut buffers: Vec<TextBuffer> = Vec::new();
            buffers.push(fresh());
            self.buffers = buffers;
            self.active_buffer = 0;
            assert(self@.buffers =~= seq![fresh_buffer()]);
            Effect::Nothing
        } else if same_text(name, "search") {
            self.search.toggle();
            if self.search.active {
                self.mode = Mode::Search;
            }
            Effect::Nothing
        } else if same_text(name, "replace") {
            self.open_command_line(":%s/");
            Effect::Nothing
        } else if same_text(name, "select all") {
            self.clear_active(false);
            Effect::SelectAll
        } else if same_text(name, "go to line") {
            self.open_command_line(":goto ");
            Effect::Nothing
        } else if same_text(name, "delete line") {
            self.clear_active(true);
            Effect::DeleteLine
        } else if same_text(name, "duplicate line") {
            self.clear_active(true);
            Effect::DuplicateLine
        } else if same_text(name, "project") {
            self.start_project_creation();
            Effect::Nothing
        } else if same_text(name, "quit") {
            self.quit = true;
            Effect::Nothing
        } else {
            Effect::Nothing
        }
    }

    /// A key in the command palette (see `palette_key`).
    pub fn handle_palette_key(&mut self, k: KeyEvent) -> (eff: Effect)
        requires
            old(self)@.wf(),
        ensures
            (final(self)@, eff@) == old(self)@.palette_key(k),
            final(self)@.wf(),
    {
        let c = k.code;
        if c == KeyCode::Esc {
            self.cmd_palette.toggle();
            self.mode = Mode::Normal;
            Effect::Nothing
        } else if c == KeyCode::Enter {
            let name: &str = match self.cmd_palette.selected_cmd() {
                Some(x) => x,
                None => "",
            };
            proof {
                reveal_strlit("");
            }
            assert(name@ == (match self@.cmd_palette.chosen() {
                Some(x) => x,
                None => seq![],
            }));
            self.cmd_palette.toggle();
            self.mode = Mode::Normal;
            self.run_palette(name)
        } else if c == KeyCode::Up || c == KeyCode::BackTab {
            self.cmd_palette.select_prev();
            Effect::Nothing
        } else if c == KeyCode::Down || c == KeyCode::Tab {
            self.cmd_palette.select_next();
            Effect::Nothing
        } else if c == KeyCode::Backspace {
            self.cmd_palette.pop_char();
            Effect::Nothing
        } else {
            match c {
                KeyCode::Char(ch) => {
                    self.cmd_palette.push_char(ch);
                    Effect::Nothing
                },
                _ => Effect::Nothing,
            }
        }
    }

    /// Submits the project form (see `project_submitted`).
    pub fn submit_project(&mut self) -> (eff: Effect)
        ensures
            (final(self)@, eff@) == old(self)@.project_submitted(),
    {
        if self.proj_name.as_str().is_empty() {
            self.proj_status = String::from_str("Error: Project name is required");
            return Effect::Nothing;
        }
        let language = if self.proj_lang.as_str().is_empty() {
            String::from_str("rust")
        } else {
            self.proj_lang.clone()
        };
        let scaffold = ProjectScaffold {
            name: self.proj_name.clone(),
            language,
            description: self.proj_desc.clone(),
        };
        self.proj_status = String::from_str("Creating project...");
        Effect::CreateProject(scaffold)
    }

    /// Records how the project's creation ended (see `project_finished`).
    pub fn project_created(&mut self, result: Result<(), String>) -> (eff: Effect)
        ensures
            (final(self)@, eff@) == old(self)@.project_finished(
                match result {
                    Ok(_) => Ok(()),
                    Err(e) => Err(e@),
                },
            ),
    {
        match result {
            Ok(()) => {
                let a = concat("Project '", self.proj_name.as_str());
                self.proj_status = concat(a.as_str(), "' created!");
                self.mode = Mode::Normal;
                Effect::ReloadTree
            },
            Err(e) => {
                self.proj_status = concat("Error: ", e.as_str());
                Effect::Nothing
            },
        }
    }

    /// A key in the project form (see `project_key`).
    pub fn handle_project_key(&mut self, k: KeyEvent) -> (eff: Effect)
        ensures
            (final(self)@, eff@) == old(self)@.project_key(k),
    {
        let c = k.code;
        let f = self.proj_field;
        if c == KeyCode::Esc {
            self.mode = Mode::Normal;
            Effect::Nothing
        } else if c == KeyCode::Tab {
            proof {
                vstd::arithmetic::div_mod::lemma_add_mod_noop(f as int, 1, 3);
                vstd::arithmetic::div_mod::lemma_mod_bound(f as int, 3);
                vstd::arithmetic::div_mod::lemma_small_mod(1, 3);
            }
            self.proj_field = (f % 3 + 1) % 3;
            Effect::Nothing
        } else if c == KeyCode::BackTab {
            self.proj_field = if f == 0 {
                2
            } else {
                f - 1
            };
            Effect::Nothing
        } else if c == KeyCode::Enter {
            self.submit_project()
        } else if c == KeyCode::Backspace {
            if f == 0 {
                pop_char(&mut self.proj_name);
            } else if f == 1 {
                pop_char(&mut self.proj_lang);
            } else {
                pop_char(&mut self.proj_desc);
            }
            Effect::Nothing
        } else {
            match c {
                KeyCode::Char(ch) => {
                    if f == 0 {
                        push_char(&mut self.proj_name, ch);
                    } else if f == 1 {
                        push_char(&mut self.proj_lang, ch);
                    } else {
                        push_char(&mut self.proj_desc, ch);
                    }
                    Effect::Nothing
                },
                _ => Effect::Nothing,
            }
        }
    }

    /// A key in the editor (see `normal_key`).
    pub fn handle_normal_key(&mut self, k: KeyEvent) -> (eff: Effect)
        requires
            old(self)@.wf(),
            old(self)@.normal_key_ok(k),
        ensures
            (final(self)@, eff@) == old(self)@.normal_key(k),
            final(self)@.wf(),
    {
        if self.filetree_focused {
            self.handle_tree_key(k)
        } else if self.term_panel.visible && self.term_panel.focused {
            self.handle_terminal_key(k)
        } else if control_command(k) {
            self.handle_control_key(k)
        } else {
            self.handle_edit_key(k)
        }
    }

    /// Handles an input event (see `event_result`) and returns the outside
    /// work it asks for.
    pub fn handle_event(&mut self, e: Event) -> (eff: Effect)
        requires
            old(self)@.wf(),
            old(self)@.event_ok(e),
        ensures
            (final(self)@, eff@) == old(self)@.event_result(e),
            final(self)@.wf(),
    {
        self.action = Action::Idle;
        match e {
            Event::Key(k) => match self.mode {
                Mode::Search => {
                    self.handle_search_key(k);
                    Effect::Nothing
                },
                Mode::Command => self.handle_command_key(k),
                Mode::ProjectInput => self.handle_project_key(k),
                Mode::CmdPalette => self.handle_palette_key(k),
                Mode::Normal => self.handle_normal_key(k),
            },
            Event::Other => Effect::Nothing,
        }
    }
}


impl App {
    /// Whether the search for `query` in the active buffer is defined.
    fn search_defined(&self, query: &str) -> (r: bool)
        requires
            self@.wf(),
        ensures
            r == search_result(self@.buf().lines, query@) is Some,
    {
        self.buffers[self.active_buffer].scan_matches(query).is_some()
    }

    /// Whether `search_key(k)` is defined here.
    pub fn search_key_allowed(&self, k: KeyEvent) -> (r: bool)
        requires
            self@.wf(),
        ensures
            r == self@.search_key_ok(k),
    {
        let c = k.code;
        if c == KeyCode::BackTab {
            self.search.matches.len() == 0 || self.search.current_match <= self.search.matches.len()
        } else if c == KeyCode::Backspace {
            let mut q = self.search.query.clone();
            pop_char(&mut q);
            self.search_defined(q.as_str())
        } else {
            match c {
                KeyCode::Char(ch) => {
                    let mut q = self.search.query.clone();
                    push_char(&mut q, ch);
                    self.search_defined(q.as_str())
                },
                _ => true,
            }
        }
    }

    /// Whether `command_key(k)` is defined here.
    pub fn command_key_allowed(&self, k: KeyEvent) -> (r: bool)
        requires
            self@.wf(),
        ensures
            r == self@.command_key_ok(k),
    {
        if k.code != KeyCode::Enter {
            return true;
        }
        let text = command_line_text(self.command_buffer.as_str());
        match parse_command(text.as_str()) {
            Command::GoTo(n) => n >= 1 && self.buffers[self.active_buffer].line_count() > 0,
            _ => true,
        }
    }

    /// Whether `edit_key(k)` is defined here.
    pub fn edit_key_allowed(&self, k: KeyEvent) -> (r: bool)
        requires
            self@.wf(),
        ensures
            r == self@.edit_key_ok(k),
    {
        let b = &self.buffers[self.active_buffer];
        let cur = b.cursor();
        let count = b.line_count();
        let c = k.code;
        if c == KeyCode::F(1) || c == KeyCode::Char(':') || c == KeyCode::Esc {
            true
        } else if let Some(m) = motion_from(c) {
            match m {
                Motion::Up => cur.line <= count,
                Motion::Down => true,
                Motion::Left => cur.col > 0 || cur.line <= count,
                Motion::Right => cur.line < count,
            }
        } else if c == KeyCode::Home {
            true
        } else if c == KeyCode::End {
            cur.line < count
        } else if c == KeyCode::PageUp {
            cur.line <= count
        } else if c == KeyCode::PageDown {
            true
        } else if c == KeyCode::Backspace {
            b.can_delete_backward()
        } else if c == KeyCode::Delete {
            b.can_delete_forward()
        } else if c == KeyCode::Enter {
            b.can_insert_char('\n')
        } else if c == KeyCode::Tab {
            b.can_insert_tab()
        } else {
            match c {
                KeyCode::Char(ch) => if k.modifiers.is_alt_only() && ch == 'j' {
                    true
                } else if k.modifiers.is_alt_only() && ch == 'k' {
                    cur.line <= count
                } else if k.modifiers.is_plain_or_shift() {
                    b.boundary_at(cur)
                } else {
                    true
                },
                _ => true,
            }
        }
    }

    /// Whether `event_result(e)` is defined here.
    pub fn event_allowed(&self, e: Event) -> (r: bool)
        requires
            self@.wf(),
        ensures
            r == self@.event_ok(e),
    {
        match e {
            Event::Key(k) => match self.mode {
                Mode::Search => self.search_key_allowed(k),
                Mode::Command => self.command_key_allowed(k),
                Mode::Normal => self.filetree_focused || (self.term_panel.visible
                    && self.term_panel.focused) || control_command(k) || self.edit_key_allowed(k),
                _ => true,
            },
            Event::Other => true,
        }
    }

    /// Handles an input event where that is defined (see `event_result`);
    /// `None`, with nothing changed, where the editor's state is broken (no
    /// active buffer) or the event's handling is not defined.
    pub fn try_handle_event(&mut self, e: Event) -> (r: Option<Effect>)
        ensures
            match r {
                Some(eff) => old(self)@.wf() && old(self)@.event_ok(e) && (final(self)@, eff@) == old(
                    self,
                )@.event_result(e) && final(self)@.wf(),
                None => !(old(self)@.wf() && old(self)@.event_ok(e)) && final(self)@ == old(self)@,
            },
    {
        if self.buffers.len() == 0 || self.active_buffer >= self.buffers.len() {
            return None;
        }
        if !self.event_allowed(e) {
            return None;
        }
        Some(self.handle_event(e))
    }
}


/// The name of the mode shown in the status bar: the terminal or the tree
/// when they have focus, else the mode ("INSERT" for normal editing).
pub open spec fn mode_name(m: AppModel) -> Seq<char> {
    if m.term_panel.visible && m.term_panel.focused {
        "TERM"@
    } else if m.filetree_focused {
        "TREE"@
    } else {
        match m.mode {
            Mode::Normal => "INSERT"@,
            Mode::Command => "CMD"@,
            Mode::Search => "SEARCH"@,
            Mode::ProjectInput => "PROJECT"@,
            Mode::CmdPalette => "PALETTE"@,
        }
    }
}

/// A tab's title: the file name between spaces, with a star when modified.
pub open spec fn tab_title(b: BufferModel) -> Seq<char> {
    if b.dirty {
        " "@ + b.filename + " * "@
    } else {
        " "@ + b.filename + " "@
    }
}

/// The look of a tab's title.
pub open spec fn tab_look(active: bool) -> Look {
    if active {
        shaded(Some(Shade::FgBright), Some(Shade::TabActiveBg), false, false)
    } else {
        shaded(Some(Shade::FgDim), Some(Shade::TabInactiveBg), false, false)
    }
}

/// The labels of the project form's fields.
pub open spec fn field_label(i: int) -> Seq<char> {
    if i == 0 {
        "Project Name"@
    } else if i == 1 {
        "Language (rust/python/js/ts/go/c/cpp/html)"@
    } else {
        "Description"@
    }
}

/// The colour of the project form's status: red for an error, orange
/// while creating, green otherwise.
pub open spec fn status_shade(status: Seq<char>) -> Shade {
    if starts_with_seq(status, "Error"@) {
        Shade::AccentRed
    } else if status == "Creating project..."@ {
        Shade::AccentOrange
    } else {
        Shade::AccentGreen
    }
}

/// Where the project form is drawn on a screen `width` by `height`: 55 by
/// 14 cells (less on a small screen), centred; nowhere when that is under
/// 20 columns or 5 lines.
pub open spec fn form_popup(width: u16, height: u16) -> Option<Area> {
    let w = min_of(55, sat_sub(width as int, 4));
    let h = min_of(14, sat_sub(height as int, 4));
    if w < 20 || h < 5 {
        None
    } else {
        Some(Area { x: ((width - w) / 2) as u16, y: ((height - h) / 2) as u16, width: w as u16, height: h as u16 })
    }
}

/// Where the search bar is drawn: the last 40 columns (or the whole
/// width) of the screen's last two lines, 3 lines high; nowhere under 10
/// columns.
pub open spec fn search_popup(width: u16, height: u16) -> Option<Area> {
    let w = min_of(40, width as int);
    if w < 10 {
        None
    } else {
        Some(Area { x: sat_sub(width as int, 40) as u16, y: sat_sub(height as int, 2) as u16, width: w as u16, height: 3 })
    }
}

/// Where the command line is drawn: at the left of the screen's last two
/// lines, up to 60 columns wide, 3 lines high; nowhere under 5 columns.
pub open spec fn command_popup(width: u16, height: u16) -> Option<Area> {
    let w = min_of(width as int, 60);
    if w < 5 {
        None
    } else {
        Some(Area { x: 0, y: sat_sub(height as int, 2) as u16, width: w as u16, height: 3 })
    }
}

/// Where the project form is drawn (see `form_popup`).
pub fn project_form_area(width: u16, height: u16) -> (r: Option<Area>)
    ensures
        r == form_popup(width, height),
{
    let a: u16 = if width > 4 {
        width - 4
    } else {
        0
    };
    let w = if a < 55 {
        a
    } else {
        55
    };
    let b: u16 = if height > 4 {
        height - 4
    } else {
        0
    };
    let h = if b < 14 {
        b
    } else {
        14
    };
    if w < 20 || h < 5 {
        None
    } else {
        Some(Area { x: (width - w) / 2, y: (height - h) / 2, width: w, height: h })
    }
}

/// Where the search bar is drawn (see `search_popup`).
pub fn search_bar_area(width: u16, height: u16) -> (r: Option<Area>)
    ensures
        r == search_popup(width, height),
{
    let w = if width < 40 {
        width
    } else {
        40
    };
    if w < 10 {
        None
    } else {
        let x = if width > 40 {
            width - 40
        } else {
            0
        };
        let y = if height > 2 {
            height - 2
        } else {
            0
        };
        Some(Area { x, y, width: w, height: 3 })
    }
}

/// Where the command line is drawn (see `command_popup`).
pub fn command_bar_area(width: u16, height: u16) -> (r: Option<Area>)
    ensures
        r == command_popup(width, height),
{
    let w = if width < 60 {
        width
    } else {
        60
    };
    if w < 5 {
        None
    } else {
        let y = if height > 2 {
            height - 2
        } else {
            0
        };
        Some(Area { x: 0, y, width: w, height: 3 })
    }
}

impl App {
    /// The mode's name for the status bar (see `mode_name`).
    pub fn mode_label(&self) -> (r: &'static str)
        ensures
            r@ == mode_name(self@),
    {
        if self.term_panel.visible && self.term_panel.focused {
            "TERM"
        } else if self.filetree_focused {
            "TREE"
        } else {
            match self.mode {
                Mode::Normal => "INSERT",
                Mode::Command => "CMD",
                Mode::Search => "SEARCH",
                Mode::ProjectInput => "PROJECT",
                Mode::CmdPalette => "PALETTE",
            }
        }
    }

    /// The tab bar: for each buffer its title (see `tab_title`, `tab_look`)
    /// and a plain space.
    pub fn tab_segments(&self) -> (r: Vec<Segment>)
        ensures
            r@.len() == 2 * self@.buffers.len(),
            forall|i: int|
                #![trigger self@.buffers[i]]
                0 <= i < self@.buffers.len() ==> r@[2 * i]@ == (
                    tab_title(self@.buffers[i]),
                    tab_look(i == self.active_buffer),
                ) && r@[2 * i + 1]@ == (" "@, plain_look()),
    {
        let n = self.buffers.len();
        let mut out: Vec<Segment> = Vec::new();
        let mut i: usize = 0;
        while i < n
            invariant
                n == self@.buffers.len(),
                i <= n,
                out@.len() == 2 * i,
                forall|j: int|
                    #![trigger self@.buffers[j]]
                    0 <= j < i ==> out@[2 * j]@ == (
                        tab_title(self@.buffers[j]),
                        tab_look(j == self.active_buffer),
                    ) && out@[2 * j + 1]@ == (" "@, plain_look()),
            decreases n - i,
        {
            let b = &self.buffers[i];
            let a = concat(" ", b.filename());
            let title = if b.is_dirty() {
                concat(a.as_str(), " * ")
            } else {
                concat(a.as_str(), " ")
            };
            let look = if i == self.active_buffer {
                shades(Some(Shade::FgBright), Some(Shade::TabActiveBg), false, false)
            } else {
                shades(Some(Shade::FgDim), Some(Shade::TabInactiveBg), false, false)
            };
            let ghost before = out@;
            out.push(Segment { text: title, look });
            out.push(Segment { text: String::from_str(" "), look: plain() });
            assert forall|j: int| 0 <= j < 2 * i implies out@[j] == before[j] by {}
            assert forall|j: int|
                #![trigger self@.buffers[j]]
                0 <= j < i + 1 implies out@[2 * j]@ == (
                    tab_title(self@.buffers[j]),
                    tab_look(j == self.active_buffer),
                ) && out@[2 * j + 1]@ == (" "@, plain_look()) by {
                if j < i {
                    assert(out@[2 * j] == before[2 * j]);
                    assert(out@[2 * j + 1] == before[2 * j + 1]);
                    assert(self@.buffers[j] == self@.buffers[j]);
                }
            }
            i = i + 1;
        }
        out
    }

    /// The project form's three fields: "> " before the current one's label
    /// (accent on a lighter background), two spaces before the others'
    /// (dim), then ": "; each value bright, or dim while empty.
    pub fn project_fields(&self) -> (r: Vec<(Segment, Segment)>)
        ensures
            r@.len() == 3,
            forall|i: int|
                #![trigger r@[i]]
                0 <= i < 3 ==> {
                    let active = i == self.proj_field;
                    let value = if i == 0 {
                        self@.proj_name
                    } else if i == 1 {
                        self@.proj_lang
                    } else {
                        self@.proj_desc
                    };
                    &&& r@[i].0@ == (
                        (if active {
                            "> "@
                        } else {
                            "  "@
                        }) + field_label(i) + ": "@,
                        if active {
                            shaded(Some(Shade::Accent), Some(Shade::BgLight), false, false)
                        } else {
                            shaded(Some(Shade::FgDim), None, false, false)
                        },
                    )
                    &&& r@[i].1@ == (
                        value,
                        if value.len() == 0 {
                            shaded(Some(Shade::FgDim), None, false, false)
                        } else {
                            shaded(Some(Shade::FgBright), None, false, false)
                        },
                    )
                },
    {
        let mut out: Vec<(Segment, Segment)> = Vec::new();
        let mut i: usize = 0;
        while i < 3
            invariant
                i <= 3,
                out@.len() == i,
                forall|j: int|
                    #![trigger out@[j]]
                    0 <= j < i ==> {
                        let active = j == self.proj_field;
                        let value = if j == 0 {
                            self@.proj_name
                        } else if j == 1 {
                            self@.proj_lang
                        } else {
                            self@.proj_desc
                        };
                        &&& out@[j].0@ == (
                            (if active {
                                "> "@
                            } else {
                                "  "@
                            }) + field_label(j) + ": "@,
                            if active {
                                shaded(Some(Shade::Accent), Some(Shade::BgLight), false, false)
                            } else {
                                shaded(Some(Shade::FgDim), None, false, false)
                            },
                        )
                        &&& out@[j].1@ == (
                            value,
                            if value.len() == 0 {
                                shaded(Some(Shade::FgDim), None, false, false)
                            } else {
                                shaded(Some(Shade::FgBright), None, false, false)
                            },
                        )
                    },
            decreases 3 - i,
        {
            let label = if i == 0 {
                "Project Name"
            } else if i == 1 {
                "Language (rust/python/js/ts/go/c/cpp/html)"
            } else {
                "Description"
            };
            let value = if i == 0 {
                self.proj_name.clone()
            } else if i == 1 {
                self.proj_lang.clone()
            } else {
                self.proj_desc.clone()
            };
            let active = i == self.proj_field;
            let a = concat(if active { "> " } else { "  " }, label);
            let text = concat(a.as_str(), ": ");
            let label_look = if active {
                shades(Some(Shade::Accent), Some(Shade::BgLight), false, false)
            } else {
                shades(Some(Shade::FgDim), None, false, false)
            };
            let value_look = if value.as_str().is_empty() {
                shades(Some(Shade::FgDim), None, false, false)
            } else {
                shades(Some(Shade::FgBright), None, false, false)
            };
            let ghost before = out@;
            out.push((Segment { text, look: label_look }, Segment { text: value, look: value_look }));
            assert forall|j: int| 0 <= j < before.len() implies out@[j] == before[j] by {}
            i = i + 1;
        }
        out
    }

    /// The project form's status line, coloured by `status_shade`; none
    /// while the status is empty.
    pub fn project_status_line(&self) -> (r: Option<Segment>)
        ensures
            self@.proj_status.len() == 0 ==> r is None,
            self@.proj_status.len() > 0 ==> (r matches Some(s) && s@ == (
                self@.proj_status,
                shaded(Some(status_shade(self@.proj_status)), None, false, false),
            )),
    {
        if self.proj_status.as_str().is_empty() {
            return None;
        }
        let shade = if starts_with(self.proj_status.as_str(), "Error") {
            Shade::AccentRed
        } else if same_text(self.proj_status.as_str(), "Creating project...") {
            Shade::AccentOrange
        } else {
            Shade::AccentGreen
        };
        Some(Segment { text: self.proj_status.clone(), look: shades(Some(shade), None, false, false) })
    }
}

} // verus!
