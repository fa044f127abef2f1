use vstd::prelude::*;
use crate::text::{push_char, char_vec, concat, strip_suffixes, trim_end_matches, same_text};
use crate::theme::{Look, Shade, shaded, shades};

verus! {

/// The most lines the terminal keeps; older lines are dropped.
pub const MAX_LINES: usize = 5000;

/// A character that ends an escape sequence's parameters: an ASCII letter
/// or `~`.
pub open spec fn ends_escape(c: char) -> bool {
    ('a' <= c && c <= 'z') || ('A' <= c && c <= 'Z') || c == '~'
}

/// What follows an escape sequence's parameters: everything after the
/// first character that ends them, or nothing when none does.
pub open spec fn after_escape(s: Seq<char>) -> Seq<char>
    decreases s.len(),
{
    if s.len() == 0 {
        s
    } else if ends_escape(s[0]) {
        s.drop_first()
    } else {
        after_escape(s.drop_first())
    }
}

pub proof fn lemma_after_escape_len(s: Seq<char>)
    ensures
        after_escape(s).len() <= s.len(),
    decreases s.len(),
{
    if s.len() > 0 && !ends_escape(s[0]) {
        lemma_after_escape_len(s.drop_first());
    }
}

/// `s` without its "ESC [" escape sequences. An ESC followed by anything
/// else is kept, but the character after it is dropped.
pub open spec fn without_escapes(s: Seq<char>) -> Seq<char>
    decreases s.len(),
{
    if s.len() == 0 {
        seq![]
    } else if s[0] == '\x1b' {
        if s.len() == 1 {
            seq!['\x1b']
        } else if s[1] == '[' {
            proof {
                lemma_after_escape_len(s.skip(2));
            }
            without_escapes(after_escape(s.skip(2)))
        } else {
            seq!['\x1b'] + without_escapes(s.skip(2))
        }
    } else {
        seq![s[0]] + without_escapes(s.drop_first())
    }
}

/// Removes terminal escape sequences (see `without_escapes`).
pub fn strip_ansi(s: &str) -> (r: String)
    ensures
        r@ == without_escapes(s@),
{
    let chars = char_vec(s);
    let n = chars.len();
    let mut out = String::new();
    let mut i: usize = 0;
    assert(s@.skip(0) =~= s@);
    while i < n
        invariant
            chars@ == s@,
            n == s@.len(),
            i <= n,
            without_escapes(s@) == out@ + without_escapes(s@.skip(i as int)),
        decreases n - i,
    {
        let ghost rest = s@.skip(i as int);
        let ghost before = out@;
        let c = chars[i];
        if c == '\x1b' && i + 1 < n && chars[i + 1] == '[' {
            let mut j = i + 2;
            assert(s@.skip(j as int) =~= rest.skip(2));
            while j < n
                invariant_except_break
                    after_escape(rest.skip(2)) == after_escape(s@.skip(j as int)),
                invariant
                    chars@ == s@,
                    n == s@.len(),
                    i + 2 <= j <= n,
                ensures
                    i + 2 <= j <= n,
                    after_escape(rest.skip(2)) == s@.skip(j as int),
                decreases n - j,
            {
                let d = chars[j];
                assert(s@.skip(j as int)[0] == d);
                assert(s@.skip(j as int).drop_first() =~= s@.skip(j + 1));
                if ('a' <= d && d <= 'z') || ('A' <= d && d <= 'Z') || d == '~' {
                    j = j + 1;
                    assert(after_escape(rest.skip(2)) == s@.skip(j as int));
                    break;
                }
                j = j + 1;
            }
            i = j;
        } else if c == '\x1b' {
            push_char(&mut out, c);
            if i + 1 < n {
                assert(rest.skip(2) =~= s@.skip(i + 2));
                i = i + 2;
            } else {
                assert(s@.skip(i + 1) =~= Seq::<char>::empty());
                i = i + 1;
            }
            assert(out@ =~= before + seq!['\x1b']);
        } else {
            push_char(&mut out, c);
            assert(rest.drop_first() =~= s@.skip(i + 1));
            i = i + 1;
        }
    }
    assert(s@.skip(n as int) =~= Seq::<char>::empty());
    out
}

/// The lines a terminal has printed, newest last, at most `MAX_LINES`.
pub struct TerminalBuffer {
    lines: Vec<String>,
}

impl View for TerminalBuffer {
    type V = Seq<Seq<char>>;

    closed spec fn view(&self) -> Seq<Seq<char>> {
        self.lines@.map_values(|s: String| s@)
    }
}

/// The lines kept after `line` is added to `lines`.
pub open spec fn pushed(lines: Seq<Seq<char>>, line: Seq<char>) -> Seq<Seq<char>> {
    if lines.len() + 1 > MAX_LINES {
        lines.push(line).drop_first()
    } else {
        lines.push(line)
    }
}

/// The window of lines shown when scrolled back `scroll` lines with room
/// for `height` lines: it ends `scroll` lines before the newest.
pub open spec fn window(total: nat, scroll: nat, height: nat) -> (int, int) {
    let end = if total > scroll {
        total - scroll
    } else {
        0
    };
    let start = if end > height {
        end - height
    } else {
        0
    };
    (start, end)
}

impl TerminalBuffer {
    pub fn new() -> (b: Self)
        ensures
            b@.len() == 0,
    {
        Self { lines: Vec::new() }
    }

    pub fn len(&self) -> (n: usize)
        ensures
            n == self@.len(),
    {
        self.lines.len()
    }

    pub fn clear(&mut self)
        ensures
            final(self)@.len() == 0,
    {
        self.lines.clear();
    }

    /// Adds a line, dropping the oldest beyond `MAX_LINES`.
    pub fn push(&mut self, line: String)
        ensures
            final(self)@ == pushed(old(self)@, line@),
    {
        let ghost before = self.lines@;
        self.lines.push(line);
        if self.lines.len() > MAX_LINES {
            self.lines.remove(0);
        }
        assert(self@ =~= pushed(before.map_values(|s: String| s@), line@));
    }

    /// The lines in the window (see `window`), without escape sequences.
    pub fn content(&self, scroll: usize, height: usize) -> (r: Vec<String>)
        ensures
            r@.map_values(|s: String| s@) == self@.subrange(
                window(self@.len(), scroll as nat, height as nat).0,
                window(self@.len(), scroll as nat, height as nat).1,
            ).map_values(|l: Seq<char>| without_escapes(l)),
    {
        let total = self.lines.len();
        let end = total.saturating_sub(scroll);
        let start = end.saturating_sub(height);
        let mut out: Vec<String> = Vec::new();
        let mut i = start;
        while i < end
            invariant
                start <= i <= end,
                end <= total,
                total == self@.len(),
                (start as int, end as int) == window(total as nat, scroll as nat, height as nat),
                out@.map_values(|s: String| s@) == self@.subrange(start as int, i as int).map_values(
                    |l: Seq<char>| without_escapes(l),
                ),
            decreases end - i,
        {
            let ghost prev = out@;
            let line = strip_ansi(self.lines[i].as_str());
            assert(self@[i as int] == self.lines@[i as int]@);
            out.push(line);
            assert(out@.map_values(|s: String| s@) =~= prev.map_values(|s: String| s@).push(
                without_escapes(self@[i as int]),
            ));
            assert(self@.subrange(start as int, i + 1) =~= self@.subrange(start as int, i as int).push(
                self@[i as int],
            ));
            i = i + 1;
            assert(out@.map_values(|s: String| s@) =~= self@.subrange(start as int, i as int).map_values(
                |l: Seq<char>| without_escapes(l),
            ));
        }
        out
    }
}

/// The terminal panel's screen state: shown or hidden, focused or not, how
/// far it is scrolled back, and which shell it runs.
pub struct TerminalPanel {
    pub visible: bool,
    pub focused: bool,
    pub scroll: usize,
    pub shell_type: String,
}

/// The abstract form of the panel's screen state.
pub struct TermModel {
    pub visible: bool,
    pub focused: bool,
    pub scroll: usize,
    pub shell_type: Seq<char>,
}

impl View for TerminalPanel {
    type V = TermModel;

    open spec fn view(&self) -> TermModel {
        TermModel {
            visible: self.visible,
            focused: self.focused,
            scroll: self.scroll,
            shell_type: self.shell_type@,
        }
    }
}

impl TerminalPanel {
    pub fn new() -> (p: Self)
        ensures
            !p.visible,
            !p.focused,
            p.scroll == 0,
            p.shell_type@ == "cmd"@,
    {
        Self { visible: false, focused: false, scroll: 0, shell_type: String::from_str("cmd") }
    }

    /// Scrolls back one line, while older lines remain of `total`.
    pub fn scroll_up(&mut self, total: usize)
        ensures
            final(self).scroll == (if old(self).scroll + 1 < total {
                old(self).scroll + 1
            } else {
                old(self).scroll as int
            }),
            final(self).visible == old(self).visible,
            final(self).focused == old(self).focused,
            final(self).shell_type@ == old(self).shell_type@,
    {
        if total > 0 && self.scroll < total - 1 {
            self.scroll = self.scroll + 1;
        }
    }

    /// Scrolls forward one line, down to the newest.
    pub fn scroll_down(&mut self)
        ensures
            final(self).scroll == (if old(self).scroll > 0 {
                old(self).scroll - 1
            } else {
                0
            }),
            final(self).visible == old(self).visible,
            final(self).focused == old(self).focused,
            final(self).shell_type@ == old(self).shell_type@,
    {
        if self.scroll > 0 {
            self.scroll = self.scroll - 1;
        }
    }

    /// The panel once its shell has been stopped: hidden and unfocused.
    pub fn mark_stopped(&mut self)
        ensures
            !final(self).visible,
            !final(self).focused,
            final(self).scroll == old(self).scroll,
            final(self).shell_type@ == old(self).shell_type@,
    {
        self.visible = false;
        self.focused = false;
    }

    /// The panel after a shell failed to start: shown with the error, not
    /// focused.
    pub fn mark_failed(&mut self)
        ensures
            final(self).visible,
            !final(self).focused,
            final(self).scroll == old(self).scroll,
            final(self).shell_type@ == old(self).shell_type@,
    {
        self.visible = true;
        self.focused = false;
    }

    /// The panel once `shell` runs: shown, focused, at the newest line.
    pub fn mark_started(&mut self, shell: &str)
        ensures
            final(self).visible,
            final(self).focused,
            final(self).scroll == 0,
            final(self).shell_type@ == shell@,
    {
        self.visible = true;
        self.focused = true;
        self.scroll = 0;
        self.shell_type = shell.to_owned();
    }

    /// The panel's title: the shell's name in brackets.
    pub fn title(&self) -> (r: String)
        ensures
            r@ == " Terminal ["@ + self.shell_type@ + "] "@,
    {
        let a = concat(" Terminal [", self.shell_type.as_str());
        concat(a.as_str(), "] ")
    }
}

/// The first line a terminal shows once `shell` has started.
pub fn started_message(shell: &str) -> (r: String)
    ensures
        r@ == "Terminal ["@ + shell@ + "] started"@,
{
    let a = concat("Terminal [", shell);
    concat(a.as_str(), "] started")
}

/// The program a terminal runs: `cmd.exe`, or `wsl.exe` for a Linux shell.
pub fn shell_program(wsl: bool) -> (r: &'static str)
    ensures
        r@ == (if wsl {
            "wsl.exe"@
        } else {
            "cmd.exe"@
        }),
{
    if wsl {
        "wsl.exe"
    } else {
        "cmd.exe"
    }
}


impl TerminalPanel {
    /// The panel's border: the accent colour when focused, dim otherwise.
    pub fn border_look(&self) -> (r: Look)
        ensures
            r == (if self.focused {
                shaded(Some(Shade::Accent), None, false, false)
            } else {
                shaded(Some(Shade::FgDim), None, false, false)
            }),
    {
        if self.focused {
            shades(Some(Shade::Accent), None, false, false)
        } else {
            shades(Some(Shade::FgDim), None, false, false)
        }
    }
}

/// The rows a panel `height` cells high shows of its output: the border
/// takes two, and at least one is shown.
pub open spec fn output_rows(height: u16) -> usize {
    if height > 3 {
        (height - 2) as usize
    } else {
        1
    }
}

/// The rows a panel `height` cells high shows (see `output_rows`).
pub fn panel_rows(height: u16) -> (r: usize)
    ensures
        r == output_rows(height),
{
    if height > 3 {
        (height - 2) as usize
    } else {
        1
    }
}

/// The arguments a shell is started with: a login shell for WSL.
pub fn shell_args(shell: &str) -> (r: Vec<String>)
    ensures
        r@.len() == (if shell@ == "wsl.exe"@ {
            1int
        } else {
            0
        }),
        shell@ == "wsl.exe"@ ==> r@[0]@ == "--login"@,
{
    let mut v: Vec<String> = Vec::new();
    if same_text(shell, "wsl.exe") {
        v.push(String::from_str("--login"));
    }
    v
}

/// A line read from the shell as the terminal keeps it: trailing carriage
/// returns removed, then trailing newlines (so "a\r\n" keeps its "\r").
pub fn shell_line(raw: &str) -> (r: String)
    ensures
        r@ == strip_suffixes(strip_suffixes(raw@, "\r"@), "\n"@),
{
    let a = trim_end_matches(raw, "\r");
    trim_end_matches(a.as_str(), "\n")
}

/// The step at which starting a shell failed.
#[derive(Clone, Copy, Debug, PartialEq, Eq, Structural)]
pub enum ShellFailure {
    /// Opening the pseudo-terminal.
    Pty,
    /// Starting the shell's process.
    Spawn,
    /// Getting the pseudo-terminal's output.
    Reader,
    /// Getting the pseudo-terminal's input.
    Writer,
}

/// The lines shown when starting a shell fails at `step` with the error
/// message `detail`.
pub open spec fn failure_lines(step: ShellFailure, detail: Seq<char>) -> Seq<Seq<char>> {
    match step {
        ShellFailure::Pty => seq!["PTY init error: "@ + detail],
        ShellFailure::Spawn => seq!["Spawn error: "@ + detail, ""@, "Make sure the shell is installed."@],
        ShellFailure::Reader => seq!["PTY reader error: "@ + detail],
        ShellFailure::Writer => seq!["PTY writer error: "@ + detail],
    }
}

/// The lines shown when starting a shell fails (see `failure_lines`).
pub fn shell_failure_lines(step: ShellFailure, detail: &str) -> (r: Vec<String>)
    ensures
        r@.map_values(|l: String| l@) == failure_lines(step, detail@),
{
    let mut r: Vec<String> = Vec::new();
    match step {
        ShellFailure::Pty => r.push(concat("PTY init error: ", detail)),
        ShellFailure::Spawn => {
            r.push(concat("Spawn error: ", detail));
            r.push(String::from_str(""));
            r.push(String::from_str("Make sure the shell is installed."));
        },
        ShellFailure::Reader => r.push(concat("PTY reader error: ", detail)),
        ShellFailure::Writer => r.push(concat("PTY writer error: ", detail)),
    }
    assert(r@.map_values(|l: String| l@) =~= failure_lines(step, detail@));
    r
}

} // verus!
