use vstd::prelude::*;
use vstd::utf8::*;
use crate::text::{ascii_bytes, all_ascii, ascii_lower, lemma_ascii_encoding, push_char, chars_of, utf8, remove_char_at, prefix, suffix, concat, remove_char, byte_len, lemma_utf8_valid, lemma_utf8_concat, lemma_boundary_in_range, lemma_utf8_ascii_char, lowercase, to_lowercase, find_from, find_bytes, lemma_find_from_bounds, file_name_of, lemma_ascii_byte_boundary, lemma_utf8_injective, lemma_boundary_after_ascii, portable_path, proper_name, last_segment};

verus! {

broadcast use vstd::utf8::group_utf8_lib;

/// A position in the buffer: a line index and a byte offset in that line.
#[derive(Clone, Copy, Debug, PartialEq, Eq, Structural)]
pub struct Cursor {
    pub line: usize,
    pub col: usize,
}

impl Cursor {
    pub fn new(line: usize, col: usize) -> (c: Self)
        ensures
            c == (Cursor { line, col }),
    {
        Self { line, col }
    }
}

/// `a` comes strictly before `b` in reading order.
pub open spec fn before(a: Cursor, b: Cursor) -> bool {
    a.line < b.line || (a.line == b.line && a.col < b.col)
}

/// A selection between an anchor (`start`) and the moving end (`end`).
#[derive(Clone, Copy, Debug, PartialEq, Eq, Structural)]
pub struct Selection {
    pub start: Cursor,
    pub end: Cursor,
}

impl Selection {
    /// The two ends in reading order.
    pub open spec fn ordered(self) -> (Cursor, Cursor) {
        if before(self.start, self.end) {
            (self.start, self.end)
        } else {
            (self.end, self.start)
        }
    }

    pub fn new(start: Cursor, end: Cursor) -> (s: Self)
        ensures
            s == (Selection { start, end }),
    {
        Self { start, end }
    }

    pub fn sorted(&self) -> (r: (Cursor, Cursor))
        ensures
            r == self.ordered(),
    {
        if self.start.line < self.end.line || (self.start.line == self.end.line && self.start.col
            < self.end.col) {
            (self.start, self.end)
        } else {
            (self.end, self.start)
        }
    }
}

/// One occurrence of a search query: a line and a byte range in it.
#[derive(Clone, Copy, Debug, PartialEq, Eq, Structural)]
pub struct SearchMatch {
    pub line: usize,
    pub start_col: usize,
    pub end_col: usize,
}

/// The abstract state of a text buffer. Each line is held as its UTF-8
/// bytes, since columns are byte offsets.
pub struct BufferModel {
    pub lines: Seq<Seq<u8>>,
    pub path: Option<Seq<char>>,
    pub filename: Seq<char>,
    pub dirty: bool,
    pub cursor: Cursor,
    pub saved_cursor: Cursor,
    pub selection: Option<Selection>,
    pub cursors: Seq<Cursor>,
    pub line_ending: Seq<char>,
}

/// The byte length of line `i`, or 0 past the end.
pub open spec fn len_of(lines: Seq<Seq<u8>>, i: int) -> int {
    if 0 <= i < lines.len() {
        lines[i].len() as int
    } else {
        0
    }
}

/// `c` names an existing line and a character boundary in it.
pub open spec fn at_boundary(lines: Seq<Seq<u8>>, c: Cursor) -> bool {
    c.line < lines.len() && is_char_boundary(lines[c.line as int], c.col as int)
}

/// `c` with its column pulled back to the length of line `line`.
pub open spec fn clamp_to(lines: Seq<Seq<u8>>, line: int, c: Cursor) -> Cursor {
    let max = len_of(lines, line);
    Cursor { line: line as usize, col: if c.col > max { max as usize } else { c.col } }
}

/// One step up, keeping the column within the new line.
pub open spec fn step_up(lines: Seq<Seq<u8>>, c: Cursor) -> Cursor {
    if c.line > 0 {
        clamp_to(lines, c.line - 1, c)
    } else {
        c
    }
}

/// One step down, keeping the column within the new line.
pub open spec fn step_down(lines: Seq<Seq<u8>>, c: Cursor) -> Cursor {
    if c.line + 1 < lines.len() {
        clamp_to(lines, c.line + 1, c)
    } else {
        c
    }
}

/// `n` steps up, stopping at the first line.
pub open spec fn steps_up(lines: Seq<Seq<u8>>, c: Cursor, n: nat) -> Cursor
    decreases n,
{
    if n == 0 {
        c
    } else {
        steps_up(lines, step_up(lines, c), (n - 1) as nat)
    }
}

/// `n` steps down, stopping at the last line.
pub open spec fn steps_down(lines: Seq<Seq<u8>>, c: Cursor, n: nat) -> Cursor
    decreases n,
{
    if n == 0 {
        c
    } else {
        steps_down(lines, step_down(lines, c), (n - 1) as nat)
    }
}

impl BufferModel {
    /// The buffer after the selected text is removed; unchanged when nothing
    /// is selected.
    pub open spec fn delete_selection(self) -> BufferModel {
        match self.selection {
            None => self,
            Some(sel) => {
                let (s, e) = sel.ordered();
                BufferModel {
                    lines: self.lines.take(s.line as int) + seq![
                        self.lines[s.line as int].take(s.col as int) + self.lines[e.line as int].skip(
                            e.col as int,
                        ),
                    ] + self.lines.skip(e.line + 1),
                    cursor: s,
                    selection: None,
                    dirty: true,
                    ..self
                }
            },
        }
    }

    /// Both ends of the selection, if any, are character boundaries of
    /// existing lines.
    pub open spec fn selection_ok(self) -> bool {
        match self.selection {
            None => true,
            Some(sel) => at_boundary(self.lines, sel.ordered().0) && at_boundary(
                self.lines,
                sel.ordered().1,
            ),
        }
    }

    /// Whether `insert_char(ch)` is defined here: the selection, if any, can
    /// be removed, and the cursor then stands on a character boundary.
    pub open spec fn insert_char_ok(self, ch: char) -> bool {
        &&& self.selection_ok()
        &&& at_boundary(self.delete_selection().lines, self.delete_selection().cursor)
    }

    /// Typing `ch`: the selection is replaced; a newline splits the line at
    /// the cursor, any other character is inserted before it.
    pub open spec fn insert_char(self, ch: char) -> BufferModel {
        let m = self.delete_selection();
        let l = m.cursor.line as int;
        let c = m.cursor.col as int;
        let line = m.lines[l];
        if ch == '\n' {
            BufferModel {
                lines: m.lines.take(l) + seq![line.take(c), line.skip(c)] + m.lines.skip(l + 1),
                cursor: Cursor { line: (l + 1) as usize, col: 0 },
                dirty: true,
                ..m
            }
        } else {
            BufferModel {
                lines: m.lines.update(l, line.take(c) + utf8(seq![ch]) + line.skip(c)),
                cursor: Cursor { line: l as usize, col: (c + 1) as usize },
                dirty: true,
                ..m
            }
        }
    }

    /// Whether typing the characters of `s` one after another is defined.
    pub open spec fn insert_chars_ok(self, s: Seq<char>) -> bool
        decreases s.len(),
    {
        s.len() == 0 || (self.insert_char_ok(s[0]) && self.insert_char(s[0]).insert_chars_ok(
            s.drop_first(),
        ))
    }

    /// Typing the characters of `s` one after another.
    pub open spec fn insert_chars(self, s: Seq<char>) -> BufferModel
        decreases s.len(),
    {
        if s.len() == 0 {
            self
        } else {
            self.insert_char(s[0]).insert_chars(s.drop_first())
        }
    }

    /// Whether Backspace is defined here.
    pub open spec fn delete_backward_ok(self) -> bool {
        let c = self.cursor;
        match self.selection {
            Some(_) => self.selection_ok(),
            None => {
                &&& c.col > 0 ==> c.line < self.lines.len() && is_char_boundary(
                    self.lines[c.line as int],
                    c.col - 1,
                ) && c.col - 1 < self.lines[c.line as int].len()
                &&& c.col == 0 && c.line > 0 ==> c.line < self.lines.len()
            },
        }
    }

    /// Backspace: removes the selection, or the character before the
    /// cursor, or joins the line to the previous one. The buffer is marked
    /// modified in every case.
    pub open spec fn delete_backward(self) -> BufferModel {
        let c = self.cursor;
        let l = c.line as int;
        match self.selection {
            Some(_) => self.delete_selection(),
            None => if c.col > 0 {
                BufferModel {
                    lines: self.lines.update(l, remove_char_at(self.lines[l], c.col - 1)),
                    cursor: Cursor { line: c.line, col: (c.col - 1) as usize },
                    dirty: true,
                    ..self
                }
            } else if c.line > 0 {
                BufferModel {
                    lines: self.lines.take(l - 1) + seq![self.lines[l - 1] + self.lines[l]]
                        + self.lines.skip(l + 1),
                    cursor: Cursor { line: (l - 1) as usize, col: self.lines[l - 1].len() as usize },
                    dirty: true,
                    ..self
                }
            } else {
                BufferModel { dirty: true, ..self }
            },
        }
    }

    /// Whether Delete is defined here.
    pub open spec fn delete_forward_ok(self) -> bool {
        let c = self.cursor;
        match self.selection {
            Some(_) => self.selection_ok(),
            None => c.line < self.lines.len() && (c.col < self.lines[c.line as int].len()
                ==> is_char_boundary(self.lines[c.line as int], c.col as int)),
        }
    }

    /// Delete: removes the selection, or the character at the cursor, or
    /// joins the next line to this one; at the very end nothing changes.
    pub open spec fn delete_forward(self) -> BufferModel {
        let c = self.cursor;
        let l = c.line as int;
        match self.selection {
            Some(_) => self.delete_selection(),
            None => if c.col < self.lines[l].len() {
                BufferModel {
                    lines: self.lines.update(l, remove_char_at(self.lines[l], c.col as int)),
                    dirty: true,
                    ..self
                }
            } else if l + 1 < self.lines.len() {
                BufferModel {
                    lines: self.lines.take(l) + seq![self.lines[l] + self.lines[l + 1]]
                        + self.lines.skip(l + 2),
                    dirty: true,
                    ..self
                }
            } else {
                self
            },
        }
    }

    /// The cursor one step left: to the previous byte, or to the end of the
    /// previous line. Extra cursors are dropped.
    pub open spec fn move_left(self) -> BufferModel {
        let c = self.cursor;
        BufferModel {
            cursors: seq![],
            cursor: if c.col > 0 {
                Cursor { line: c.line, col: (c.col - 1) as usize }
            } else if c.line > 0 {
                Cursor { line: (c.line - 1) as usize, col: len_of(self.lines, c.line - 1) as usize }
            } else {
                c
            },
            ..self
        }
    }

    /// The cursor one step right: to the next byte, or to the start of the
    /// next line. Extra cursors are dropped.
    pub open spec fn move_right(self) -> BufferModel {
        let c = self.cursor;
        BufferModel {
            cursors: seq![],
            cursor: if c.col < len_of(self.lines, c.line as int) {
                Cursor { line: c.line, col: (c.col + 1) as usize }
            } else if c.line + 1 < self.lines.len() {
                Cursor { line: (c.line + 1) as usize, col: 0 }
            } else {
                c
            },
            ..self
        }
    }

    /// No selection.
    pub open spec fn cleared_selection(self) -> BufferModel {
        BufferModel { selection: None, ..self }
    }

    /// A selection started at the cursor.
    pub open spec fn began_selection(self) -> BufferModel {
        BufferModel { selection: Some(Selection { start: self.cursor, end: self.cursor }), ..self }
    }

    /// The selection, if any, extended to the cursor.
    pub open spec fn updated_selection(self) -> BufferModel {
        BufferModel {
            selection: match self.selection {
                Some(sel) => Some(Selection { start: sel.start, end: self.cursor }),
                None => None,
            },
            ..self
        }
    }

    /// No extra cursors.
    pub open spec fn cursors_cleared(self) -> BufferModel {
        BufferModel { cursors: seq![], ..self }
    }

    /// An extra cursor added one line above the main one, if there is a
    /// line above.
    pub open spec fn with_cursor_above(self) -> BufferModel {
        BufferModel {
            cursors: if self.cursor.line > 0 {
                self.cursors.push(clamp_to(self.lines, self.cursor.line - 1, self.cursor))
            } else {
                self.cursors
            },
            ..self
        }
    }

    /// An extra cursor added one line below the main one, if there is a
    /// line below.
    pub open spec fn with_cursor_below(self) -> BufferModel {
        BufferModel {
            cursors: if self.cursor.line + 1 < self.lines.len() {
                self.cursors.push(clamp_to(self.lines, self.cursor.line + 1, self.cursor))
            } else {
                self.cursors
            },
            ..self
        }
    }

    /// Extra cursors dropped and the main cursor moved to `c`.
    pub open spec fn moved_to(self, c: Cursor) -> BufferModel {
        BufferModel { cursors: seq![], cursor: c, ..self }
    }

    /// The selected text, as bytes: from the first end of the selection to
    /// the second, with a newline between consecutive lines.
    pub open spec fn selected_bytes(self) -> Option<Seq<u8>> {
        match self.selection {
            None => None,
            Some(sel) => {
                let (s, e) = sel.ordered();
                Some(
                    if s.line == e.line {
                        self.lines[s.line as int].subrange(s.col as int, e.col as int)
                    } else {
                        self.lines[s.line as int].skip(s.col as int) + seq![10u8] + lines_joined(
                            self.lines,
                            s.line + 1,
                            e.line as int,
                        ) + self.lines[e.line as int].take(e.col as int)
                    },
                )
            },
        }
    }
}

/// The matches of `query` in one line, scanning from byte `start`: the
/// lowercased rest of the line is searched for the lowercased query, a
/// match is recorded with the query's own byte length, and the scan goes on
/// one byte after the match. `None` where the scan breaks down: the rest
/// would start inside a character or past the end, or a match end does not
/// fit in `usize`.
pub open spec fn line_matches(line: Seq<u8>, line_no: usize, query: Seq<char>, start: int) -> Option<
    Seq<SearchMatch>,
>
    decreases line.len() - start,
{
    if !(0 <= start <= line.len()) || !is_char_boundary(line, start) {
        None
    } else {
        let hay = utf8(lowercase(chars_of(line.skip(start))));
        let needle = utf8(lowercase(query));
        match find_from(hay, needle, 0) {
            None => Some(seq![]),
            Some(pos) => {
                proof {
                    lemma_find_from_bounds(hay, needle, 0);
                }
                let at = start + pos;
                let end = at + utf8(query).len();
                if end > usize::MAX || at + 1 > line.len() {
                    None
                } else {
                    match line_matches(line, line_no, query, at + 1) {
                        None => None,
                        Some(rest) => Some(
                            seq![SearchMatch { line: line_no, start_col: at as usize, end_col: end as usize }]
                                + rest,
                        ),
                    }
                }
            },
        }
    }
}

/// The matches in the first `n` lines, in order.
pub open spec fn matches_upto(lines: Seq<Seq<u8>>, query: Seq<char>, n: int) -> Option<
    Seq<SearchMatch>,
>
    decreases n,
{
    if n <= 0 {
        Some(seq![])
    } else {
        match (matches_upto(lines, query, n - 1), line_matches(lines[n - 1], (n - 1) as usize, query, 0)) {
            (Some(a), Some(b)) => Some(a + b),
            _ => None,
        }
    }
}

/// The result of searching all lines for `query`: no matches for an empty
/// query; `None` where the search breaks down (see `line_matches`).
pub open spec fn search_result(lines: Seq<Seq<u8>>, query: Seq<char>) -> Option<Seq<SearchMatch>> {
    if query.len() == 0 {
        Some(seq![])
    } else {
        matches_upto(lines, query, lines.len() as int)
    }
}

/// Characters as the search compares them on ASCII text: A to Z as a to z.
pub open spec fn ascii_folded(s: Seq<char>) -> Seq<char> {
    s.map_values(|c: char| ascii_lower(c))
}

/// Every line is ASCII.
pub open spec fn ascii_text(lines: Seq<Seq<u8>>) -> bool {
    forall|i: int| 0 <= i < lines.len() ==> ascii_bytes(#[trigger] lines[i])
}

/// `line_matches` on ASCII text: the rest of the line and the query are
/// compared with A to Z taken as a to z.
pub open spec fn ascii_line_matches(line: Seq<u8>, line_no: usize, query: Seq<char>, start: int) -> Option<
    Seq<SearchMatch>,
>
    decreases line.len() - start,
{
    if !(0 <= start <= line.len()) || !is_char_boundary(line, start) {
        None
    } else {
        let hay = utf8(ascii_folded(chars_of(line.skip(start))));
        let needle = utf8(ascii_folded(query));
        match find_from(hay, needle, 0) {
            None => Some(seq![]),
            Some(pos) => {
                proof {
                    lemma_find_from_bounds(hay, needle, 0);
                }
                let at = start + pos;
                let end = at + utf8(query).len();
                if end > usize::MAX || at + 1 > line.len() {
                    None
                } else {
                    match ascii_line_matches(line, line_no, query, at + 1) {
                        None => None,
                        Some(rest) => Some(
                            seq![SearchMatch { line: line_no, start_col: at as usize, end_col: end as usize }]
                                + rest,
                        ),
                    }
                }
            },
        }
    }
}

/// `matches_upto` on ASCII text (see `ascii_line_matches`).
pub open spec fn ascii_matches_upto(lines: Seq<Seq<u8>>, query: Seq<char>, n: int) -> Option<
    Seq<SearchMatch>,
>
    decreases n,
{
    if n <= 0 {
        Some(seq![])
    } else {
        match (
            ascii_matches_upto(lines, query, n - 1),
            ascii_line_matches(lines[n - 1], (n - 1) as usize, query, 0),
        ) {
            (Some(a), Some(b)) => Some(a + b),
            _ => None,
        }
    }
}

/// What searching ASCII lines for an ASCII query finds: occurrences that
/// differ at most in the case of letters (see `ascii_line_matches`).
pub open spec fn ascii_search(lines: Seq<Seq<u8>>, query: Seq<char>) -> Option<Seq<SearchMatch>> {
    if query.len() == 0 {
        Some(seq![])
    } else {
        ascii_matches_upto(lines, query, lines.len() as int)
    }
}

/// `acc` followed by the result, if there is one.
pub open spec fn after(acc: Seq<SearchMatch>, r: Option<Seq<SearchMatch>>) -> Option<Seq<SearchMatch>> {
    match r {
        Some(x) => Some(acc + x),
        None => None,
    }
}

/// Appends to `out` the matches of `query` in `line` (see `line_matches`);
/// `false` where that scan breaks down.
#[verifier::spinoff_prover]
#[verifier::rlimit(60)]
fn scan_line(line: &str, line_no: usize, query: &str, lowered_query: &str, out: &mut Vec<SearchMatch>) -> (ok: bool)
    requires
        lowered_query@ == lowercase(query@),
        all_ascii(query@) ==> lowered_query@ == ascii_folded(query@),
    ensures
        match line_matches(utf8(line@), line_no, query@, 0) {
            Some(ms) => ok && final(out)@ == old(out)@ + ms,
            None => !ok,
        },
        ascii_bytes(utf8(line@)) && all_ascii(query@) ==> match ascii_line_matches(
            utf8(line@),
            line_no,
            query@,
            0,
        ) {
            Some(ms) => ok && final(out)@ == old(out)@ + ms,
            None => !ok,
        },
{
    let ghost asc = ascii_bytes(utf8(line@)) && all_ascii(query@);
    let ghost l = utf8(line@);
    let ghost o = out@;
    let ghost mut acc: Seq<SearchMatch> = seq![];
    let qlen = byte_len(query);
    let len = byte_len(line);
    let mut start: usize = 0;
    proof {
        lemma_utf8_valid(line@);
    }
    loop
        invariant
            l == utf8(line@),
            valid_utf8(l),
            qlen == utf8(query@).len(),
            len == l.len(),
            len <= isize::MAX,
            lowered_query@ == lowercase(query@),
            all_ascii(query@) ==> lowered_query@ == ascii_folded(query@),
            asc == (ascii_bytes(l) && all_ascii(query@)),
            start <= len,
            o == old(out)@,
            out@ == o + acc,
            line_matches(l, line_no, query@, 0) == after(acc, line_matches(l, line_no, query@, start as int)),
            asc ==> ascii_line_matches(l, line_no, query@, 0) == after(
                acc,
                ascii_line_matches(l, line_no, query@, start as int),
            ),
        decreases len - start,
    {
        if !line.is_char_boundary(start) {
            return false;
        }
        let rest = suffix(line, start);
        proof {
            lemma_utf8_valid(rest@);
        }
        let lowered = to_lowercase(rest);
        let low_len = byte_len(lowered.as_str());
        let hay = lowered.as_str().as_bytes();
        let needle = lowered_query.as_bytes();
        assert(chars_of(l.skip(start as int)) == rest@);
        assert(hay@ == utf8(lowercase(chars_of(l.skip(start as int)))));
        assert(needle@ == utf8(lowercase(query@)));
        proof {
            if asc {
                assert(ascii_bytes(utf8(rest@))) by {
                    assert forall|k: int| 0 <= k < utf8(rest@).len() implies #[trigger] utf8(rest@)[k]
                        < 128u8 by {
                        assert(utf8(rest@)[k] == l[k + start]);
                    }
                }
                lemma_ascii_encoding(rest@);
                assert(hay@ == utf8(ascii_folded(chars_of(l.skip(start as int)))));
                assert(needle@ == utf8(ascii_folded(query@)));
            }
        }
        let pos = find_bytes(hay, needle);
        match pos {
            None => {
                assert(line_matches(l, line_no, query@, start as int) == Some(
                    Seq::<SearchMatch>::empty(),
                ));
                assert(asc ==> ascii_line_matches(l, line_no, query@, start as int) == Some(
                    Seq::<SearchMatch>::empty(),
                ));
                assert(acc + seq![] =~= acc);
                return true;
            },
            Some(p) => {
                proof {
                    lemma_find_from_bounds(hay@, needle@, 0);
                }
                let at = start + p;
                let end = match at.checked_add(qlen) {
                    Some(e) => e,
                    None => {
                        return false;
                    },
                };
                if at >= len {
                    return false;
                }
                out.push(SearchMatch { line: line_no, start_col: at, end_col: end });
                proof {
                    let m = SearchMatch { line: line_no, start_col: at, end_col: end };
                    assert(acc + (seq![m] + line_matches(l, line_no, query@, at + 1)->0) =~= (acc
                        + seq![m]) + line_matches(l, line_no, query@, at + 1)->0);
                    assert(acc + (seq![m] + ascii_line_matches(l, line_no, query@, at + 1)->0) =~= (acc
                        + seq![m]) + ascii_line_matches(l, line_no, query@, at + 1)->0);
                    acc = acc + seq![m];
                }
                start = at + 1;
            },
        }
    }
}

/// The pieces of `b` between newline bytes, as `str::split('\n')` yields
/// them: always at least one.
pub open spec fn split_lines(b: Seq<u8>) -> Seq<Seq<u8>>
    decreases b.len(),
{
    match find_from(b, seq![10u8], 0) {
        None => seq![b],
        Some(i) => {
            proof {
                lemma_find_from_bounds(b, seq![10u8], 0);
            }
            seq![b.take(i)] + split_lines(b.skip(i + 1))
        },
    }
}

/// A line without its trailing carriage return, if it has one.
pub open spec fn strip_cr(l: Seq<u8>) -> Seq<u8> {
    if l.len() > 0 && l.last() == 13u8 {
        l.drop_last()
    } else {
        l
    }
}

/// The lines held for file content `b`: split at newlines, each without a
/// trailing carriage return.
pub open spec fn content_lines(b: Seq<u8>) -> Seq<Seq<u8>> {
    split_lines(b).map_values(|l: Seq<u8>| strip_cr(l))
}

/// `lines` with `sep` between consecutive lines (`join`).
pub open spec fn joined(lines: Seq<Seq<u8>>, sep: Seq<u8>) -> Seq<u8>
    decreases lines.len(),
{
    if lines.len() == 0 {
        seq![]
    } else if lines.len() == 1 {
        lines[0]
    } else {
        joined(lines.drop_last(), sep) + sep + lines.last()
    }
}

/// The name shown for a file: its last path component, or "Unknown".
pub open spec fn shown_name(name: Option<Seq<char>>) -> Seq<char> {
    match name {
        Some(n) => n,
        None => "Unknown"@,
    }
}

/// Lines `from` up to (not including) `to`, each followed by a newline.
pub open spec fn lines_joined(lines: Seq<Seq<u8>>, from: int, to: int) -> Seq<u8>
    decreases to - from,
{
    if to <= from {
        seq![]
    } else {
        lines_joined(lines, from, to - 1) + lines[to - 1] + seq![10u8]
    }
}

/// A boundary before another boundary is also a boundary of the prefix that
/// ends at the latter.
pub proof fn lemma_boundary_in_prefix(b: Seq<u8>, i: int, j: int)
    requires
        valid_utf8(b),
        is_char_boundary(b, i),
        is_char_boundary(b, j),
        i <= j,
    ensures
        valid_utf8(b.take(j)),
        is_char_boundary(b.take(j), i),
{
    lemma_boundary_in_range(b, j);
    lemma_boundary_in_range(b, i);
    valid_utf8_split(b, j);
    assert(b.take(j) =~= b.subrange(0, j));
    is_char_boundary_start_end_of_seq(b.take(j));
    if i < j {
        is_char_boundary_iff_not_is_continuation_byte(b, i);
        is_char_boundary_iff_not_is_continuation_byte(b.take(j), i);
    }
}

/// An editable text: lines, cursor, selection, extra cursors, and the file
/// the text belongs to.
#[derive(Clone)]
pub struct TextBuffer {
    lines: Vec<String>,
    path: Option<String>,
    filename: String,
    dirty: bool,
    cursor: Cursor,
    saved_cursor: Cursor,
    selection: Option<Selection>,
    cursors: Vec<Cursor>,
    line_ending: String,
}

impl View for TextBuffer {
    type V = BufferModel;

    closed spec fn view(&self) -> BufferModel {
        BufferModel {
            lines: self.lines@.map_values(|s: String| utf8(s@)),
            path: match self.path {
                Some(p) => Some(p@),
                None => None,
            },
            filename: self.filename@,
            dirty: self.dirty,
            cursor: self.cursor,
            saved_cursor: self.saved_cursor,
            selection: self.selection,
            cursors: self.cursors@,
            line_ending: self.line_ending@,
        }
    }
}

/// Removes `count` elements of `v` starting at index `from`.
fn remove_range(v: &mut Vec<String>, from: usize, count: usize)
    requires
        from + count <= old(v)@.len(),
    ensures
        final(v)@ == old(v)@.take(from as int) + old(v)@.skip(from + count),
{
    let ghost orig = v@;
    let mut removed: usize = 0;
    while removed < count
        invariant
            from + count <= orig.len(),
            removed <= count,
            v@ == orig.take(from as int) + orig.skip(from + removed),
        decreases count - removed,
    {
        v.remove(from);
        removed = removed + 1;
        assert(v@ =~= orig.take(from as int) + orig.skip(from + removed));
    }
}

/// `c` is one of the cursors in `v`.
fn contains_cursor(v: &Vec<Cursor>, c: Cursor) -> (r: bool)
    ensures
        r == v@.contains(c),
{
    let mut i: usize = 0;
    while i < v.len()
        invariant
            i <= v@.len(),
            forall|j: int| 0 <= j < i ==> v@[j] != c,
        decreases v@.len() - i,
    {
        if v[i] == c {
            return true;
        }
        i = i + 1;
    }
    false
}

/// Once the search breaks down on some line, it stays broken for more lines.
proof fn lemma_matches_upto_none(lines: Seq<Seq<u8>>, query: Seq<char>, i: int, n: int)
    requires
        1 <= i <= n,
        matches_upto(lines, query, i) is None,
    ensures
        matches_upto(lines, query, n) is None,
    decreases n - i,
{
    if i < n {
        lemma_matches_upto_none(lines, query, i + 1, n);
    }
}

/// Once the ASCII search breaks down on some line, it stays broken for
/// more lines.
proof fn lemma_ascii_matches_upto_none(lines: Seq<Seq<u8>>, query: Seq<char>, i: int, n: int)
    requires
        1 <= i <= n,
        ascii_matches_upto(lines, query, i) is None,
    ensures
        ascii_matches_upto(lines, query, n) is None,
    decreases n - i,
{
    if i < n {
        lemma_ascii_matches_upto_none(lines, query, i + 1, n);
    }
}

/// At the first line, further steps up change nothing.
proof fn lemma_steps_up_at_top(lines: Seq<Seq<u8>>, c: Cursor, n: nat)
    requires
        c.line == 0,
    ensures
        steps_up(lines, c, n) == c,
    decreases n,
{
    if n > 0 {
        lemma_steps_up_at_top(lines, c, (n - 1) as nat);
    }
}

/// At the last line, further steps down change nothing.
proof fn lemma_steps_down_at_bottom(lines: Seq<Seq<u8>>, c: Cursor, n: nat)
    requires
        c.line + 1 >= lines.len(),
    ensures
        steps_down(lines, c, n) == c,
    decreases n,
{
    if n > 0 {
        lemma_steps_down_at_bottom(lines, c, (n - 1) as nat);
    }
}

/// The lines of `content` as strings (see `content_lines`).
fn split_content(content: &str) -> (r: Vec<String>)
    ensures
        r@.map_values(|s: String| utf8(s@)) == content_lines(utf8(content@)),
{
    let mut out: Vec<String> = Vec::new();
    let mut rest = content;
    let nl: [u8; 1] = [10];
    assert(nl@ =~= seq![10u8]);
    let ghost all = utf8(content@);
    proof {
        lemma_utf8_valid(content@);
    }
    loop
        invariant
            nl@ == seq![10u8],
            all == utf8(content@),
            split_lines(all).map_values(|l: Seq<u8>| strip_cr(l)) == out@.map_values(
                |s: String| utf8(s@),
            ) + split_lines(utf8(rest@)).map_values(|l: Seq<u8>| strip_cr(l)),
        decreases utf8(rest@).len(),
    {
        let ghost rb = utf8(rest@);
        proof {
            lemma_utf8_valid(rest@);
        }
        match find_bytes(rest.as_bytes(), nl.as_slice()) {
            None => {
                out.push(strip_cr_str(rest));
                assert(split_lines(rb) == seq![rb]);
                assert(out@.map_values(|s: String| utf8(s@)) =~= split_lines(all).map_values(
                    |l: Seq<u8>| strip_cr(l),
                ));
                return out;
            },
            Some(i) => {
                proof {
                    lemma_find_from_bounds(rb, seq![10u8], 0);
                    assert(rb.subrange(i as int, i + 1)[0] == rb[i as int]);
                    lemma_ascii_byte_boundary(rb, i as int);
                    lemma_ascii_byte_boundary(rb, i as int);
                }
                let piece = prefix(rest, i);
                let after_nl = suffix(rest, i);
                proof {
                    lemma_utf8_valid(after_nl@);
                    assert(utf8(after_nl@)[0] == 10u8);
                    lemma_boundary_after_ascii(utf8(after_nl@));
                }
                let next = suffix(after_nl, 1);
                out.push(strip_cr_str(piece));
                proof {
                    assert(utf8(next@) =~= rb.skip(i + 1));
                    assert(split_lines(rb) == seq![rb.take(i as int)] + split_lines(rb.skip(i + 1)));
                    let f = |l: Seq<u8>| strip_cr(l);
                    assert((seq![rb.take(i as int)] + split_lines(rb.skip(i + 1))).map_values(f)
                        =~= seq![strip_cr(rb.take(i as int))] + split_lines(rb.skip(i + 1)).map_values(f));
                }
                rest = next;
                assert(split_lines(all).map_values(|l: Seq<u8>| strip_cr(l)) =~= out@.map_values(
                    |s: String| utf8(s@),
                ) + split_lines(utf8(rest@)).map_values(|l: Seq<u8>| strip_cr(l)));
            },
        }
    }
}

/// `s` without a trailing carriage return, as a new string.
fn strip_cr_str(s: &str) -> (r: String)
    ensures
        utf8(r@) == strip_cr(utf8(s@)),
{
    let b = s.as_bytes();
    let n = b.len();
    proof {
        lemma_utf8_valid(s@);
    }
    if n > 0 && b[n - 1] == 13 {
        proof {
            lemma_ascii_byte_boundary(utf8(s@), n - 1);
        }
        let r = prefix(s, n - 1).to_owned();
        assert(utf8(r@) =~= utf8(s@).drop_last());
        r
    } else {
        s.to_owned()
    }
}

impl TextBuffer {
    /// An empty, unnamed buffer: one empty line, cursor at the start.
    pub fn new() -> (b: Self)
        ensures
            b@.lines == seq![Seq::<u8>::empty()],
            b@.path is None,
            b@.filename == "Untitled"@,
            !b@.dirty,
            b@.cursor == (Cursor { line: 0, col: 0 }),
            b@.saved_cursor == (Cursor { line: 0, col: 0 }),
            b@.selection is None,
            b@.cursors.len() == 0,
            b@.line_ending == "\n"@,
    {
        let b = Self {
            lines: vec![String::new()],
            path: None,
            filename: String::from_str("Untitled"),
            dirty: false,
            cursor: Cursor::new(0, 0),
            saved_cursor: Cursor::new(0, 0),
            selection: None,
            cursors: Vec::new(),
            line_ending: String::from_str("\n"),
        };
        assert(b@.lines =~= seq![Seq::<u8>::empty()]);
        b
    }

    /// A buffer for file `path` (whose last component is `file_name`)
    /// holding `content`: lines split at newlines without trailing carriage
    /// returns, and "\r\n" as line ending where the content uses it.
    pub fn with_content(path: &str, file_name: Option<String>, content: &str) -> (b: Self)
        ensures
            b@.lines == content_lines(utf8(content@)),
            b@.path == Some(path@),
            b@.filename == shown_name(
                match file_name {
                    Some(n) => Some(n@),
                    None => None,
                },
            ),
            !b@.dirty,
            b@.cursor == (Cursor { line: 0, col: 0 }),
            b@.saved_cursor == (Cursor { line: 0, col: 0 }),
            b@.selection is None,
            b@.cursors.len() == 0,
            b@.line_ending == (if find_from(utf8(content@), seq![13u8, 10u8], 0) is Some {
                "\r\n"@
            } else {
                "\n"@
            }),
    {
        let bytes = content.as_bytes();
        let crlf: [u8; 2] = [13, 10];
        let ending = if find_bytes(bytes, crlf.as_slice()).is_some() {
            String::from_str("\r\n")
        } else {
            String::from_str("\n")
        };
        assert(crlf@ =~= seq![13u8, 10u8]);
        let filename = match file_name {
            Some(n) => n,
            None => String::from_str("Unknown"),
        };
        let b = Self {
            lines: split_content(content),
            path: Some(path.to_owned()),
            filename,
            dirty: false,
            cursor: Cursor::new(0, 0),
            saved_cursor: Cursor::new(0, 0),
            selection: None,
            cursors: Vec::new(),
            line_ending: ending,
        };
        b
    }

    /// A buffer for file `path` holding `content` (see `with_content`).
    pub fn from_content(path: &str, content: &str) -> (b: Self)
        ensures
            b@.lines == content_lines(utf8(content@)),
            b@.path == Some(path@),
            !b@.dirty,
            b@.cursor == (Cursor { line: 0, col: 0 }),
            b@.saved_cursor == (Cursor { line: 0, col: 0 }),
            b@.selection is None,
            b@.cursors.len() == 0,
            b@.line_ending == (if find_from(utf8(content@), seq![13u8, 10u8], 0) is Some {
                "\r\n"@
            } else {
                "\n"@
            }),
            portable_path(path@) && proper_name(last_segment(path@)) ==> b@.filename
                == last_segment(path@),
            (portable_path(path@) && last_segment(path@) == ".."@) || path@ == "/"@ ==> b@.filename
                == "Unknown"@,
    {
        Self::with_content(path, file_name_of(path), content)
    }

    /// The file content to save: the lines joined by the line ending.
    pub fn contents(&self) -> (r: String)
        ensures
            utf8(r@) == joined(self@.lines, utf8(self@.line_ending)),
    {
        let mut out = String::new();
        let n = self.lines.len();
        let mut i: usize = 0;
        assert(utf8(out@) =~= Seq::<u8>::empty());
        while i < n
            invariant
                n == self@.lines.len(),
                i <= n,
                utf8(out@) == joined(self@.lines.take(i as int), utf8(self@.line_ending)),
            decreases n - i,
        {
            let ghost before = self@.lines.take(i as int);
            if i > 0 {
                out = concat(out.as_str(), self.line_ending.as_str());
            }
            out = concat(out.as_str(), self.lines[i].as_str());
            assert(self@.lines.take(i + 1).drop_last() =~= before);
            i = i + 1;
        }
        assert(self@.lines.take(n as int) =~= self@.lines);
        out
    }

    /// Where and what to save: the path and the content, or an error when
    /// the buffer has no path.
    pub fn prepare_save(&self) -> (r: Result<(String, String), String>)
        ensures
            match r {
                Ok((p, c)) => self@.path == Some(p@) && utf8(c@) == joined(
                    self@.lines,
                    utf8(self@.line_ending),
                ),
                Err(e) => self@.path is None && e@ == "No file path set"@,
            },
    {
        match &self.path {
            Some(p) => Ok((p.clone(), self.contents())),
            None => Err(String::from_str("No file path set")),
        }
    }

    /// Records that the content was written to the buffer's file.
    pub fn mark_saved(&mut self)
        ensures
            final(self)@ == (BufferModel { dirty: false, ..old(self)@ }),
    {
        self.dirty = false;
    }

    /// Records that the content was written to `path` (whose last component
    /// is `file_name`), which becomes the buffer's file.
    pub fn mark_saved_as(&mut self, path: &str, file_name: Option<String>)
        ensures
            final(self)@ == (BufferModel {
                path: Some(path@),
                filename: shown_name(
                    match file_name {
                        Some(n) => Some(n@),
                        None => None,
                    },
                ),
                dirty: false,
                ..old(self)@
            }),
    {
        self.set_path_named(path, file_name);
        self.dirty = false;
    }

    /// Makes `path` (whose last component is `file_name`) the buffer's file.
    pub fn set_path_named(&mut self, path: &str, file_name: Option<String>)
        ensures
            final(self)@ == (BufferModel {
                path: Some(path@),
                filename: shown_name(
                    match file_name {
                        Some(n) => Some(n@),
                        None => None,
                    },
                ),
                ..old(self)@
            }),
    {
        self.path = Some(path.to_owned());
        self.filename = match file_name {
            Some(n) => n,
            None => String::from_str("Unknown"),
        };
    }

    /// Makes `path` the buffer's file; its shown name is the path's last
    /// component as the platform reads it: the last segment of a portable
    /// path (see `different_files`).
    pub fn set_path(&mut self, path: &str)
        ensures
            final(self)@ == (BufferModel {
                path: Some(path@),
                filename: final(self)@.filename,
                ..old(self)@
            }),
            portable_path(path@) && proper_name(last_segment(path@)) ==> final(self)@.filename
                == last_segment(path@),
            (portable_path(path@) && last_segment(path@) == ".."@) || path@ == "/"@
                ==> final(self)@.filename == "Unknown"@,
    {
        self.set_path_named(path, file_name_of(path));
    }

    pub fn lines(&self) -> (r: &Vec<String>)
        ensures
            r@.map_values(|s: String| utf8(s@)) == self@.lines,
    {
        &self.lines
    }

    pub fn line(&self, idx: usize) -> (r: Option<&str>)
        ensures
            idx < self@.lines.len() ==> r is Some && utf8(r->0@) == self@.lines[idx as int],
            idx >= self@.lines.len() ==> r is None,
    {
        if idx < self.lines.len() {
            Some(self.lines[idx].as_str())
        } else {
            None
        }
    }

    pub fn line_count(&self) -> (n: usize)
        ensures
            n == self@.lines.len(),
    {
        self.lines.len()
    }

    pub fn path(&self) -> (r: Option<&String>)
        ensures
            r is None <==> self@.path is None,
            r is Some ==> self@.path == Some(r->0@),
    {
        self.path.as_ref()
    }

    pub fn filename(&self) -> (r: &str)
        ensures
            r@ == self@.filename,
    {
        self.filename.as_str()
    }

    pub fn is_dirty(&self) -> (r: bool)
        ensures
            r == self@.dirty,
    {
        self.dirty
    }

    pub fn cursor(&self) -> (r: Cursor)
        ensures
            r == self@.cursor,
    {
        self.cursor
    }

    pub fn selection(&self) -> (r: Option<&Selection>)
        ensures
            r is None <==> self@.selection is None,
            r is Some ==> self@.selection == Some(*r->0),
    {
        self.selection.as_ref()
    }

    pub fn cursors(&self) -> (r: &[Cursor])
        ensures
            r@ == self@.cursors,
    {
        self.cursors.as_slice()
    }

    /// The byte length of line `line`, or 0 when there is no such line.
    pub fn line_len(&self, line: usize) -> (n: usize)
        ensures
            n == len_of(self@.lines, line as int),
    {
        if line < self.lines.len() {
            byte_len(self.lines[line].as_str())
        } else {
            0
        }
    }

    pub fn set_cursor(&mut self, c: Cursor)
        ensures
            final(self)@ == (BufferModel { cursor: c, ..old(self)@ }),
    {
        self.cursor = c;
    }

    pub fn clear_selection(&mut self)
        ensures
            final(self)@ == (BufferModel { selection: None, ..old(self)@ }),
    {
        self.selection = None;
    }

    /// Starts a selection anchored at the cursor.
    pub fn begin_selection(&mut self)
        ensures
            final(self)@ == (BufferModel {
                selection: Some(Selection { start: old(self)@.cursor, end: old(self)@.cursor }),
                ..old(self)@
            }),
    {
        self.selection = Some(Selection::new(self.cursor, self.cursor));
    }

    /// Moves the selection's end to the cursor, if there is a selection.
    pub fn update_selection(&mut self)
        ensures
            final(self)@ == (BufferModel {
                selection: match old(self)@.selection {
                    Some(sel) => Some(Selection { start: sel.start, end: old(self)@.cursor }),
                    None => None,
                },
                ..old(self)@
            }),
    {
        if let Some(sel) = self.selection {
            self.selection = Some(Selection::new(sel.start, self.cursor));
        }
    }

    /// Removes the selected text and leaves the cursor where it began.
    pub fn delete_selection(&mut self)
        requires
            old(self)@.selection_ok(),
        ensures
            final(self)@ == old(self)@.delete_selection(),
    {
        if let Some(sel) = self.selection {
            let (start, end) = sel.sorted();
            let _nlines = self.lines.len();
            let ghost old_lines = self.lines@;
            let ghost m = self@;
            proof {
                lemma_utf8_valid(old_lines[start.line as int]@);
                lemma_utf8_valid(old_lines[end.line as int]@);
            }
            let joined = concat(
                prefix(self.lines[start.line].as_str(), start.col),
                suffix(self.lines[end.line].as_str(), end.col),
            );
            remove_range(&mut self.lines, start.line + 1, end.line - start.line);
            self.lines.set(start.line, joined);
            self.cursor = start;
            self.selection = None;
            self.dirty = true;
            assert(self@.lines =~= m.delete_selection().lines);
        }
    }

    /// Types `ch` at the cursor, replacing the selection if there is one.
    pub fn insert_char(&mut self, ch: char)
        requires
            old(self)@.insert_char_ok(ch),
        ensures
            final(self)@ == old(self)@.insert_char(ch),
    {
        self.delete_selection();
        let ghost m = self@;
        let line = self.cursor.line;
        let col = self.cursor.col;
        let _nlines = self.lines.len();
        proof {
            lemma_utf8_valid(self.lines@[line as int]@);
        }
        if ch == '\n' {
            let cur = self.lines[line].as_str();
            let rest = suffix(cur, col).to_owned();
            let head = prefix(cur, col).to_owned();
            self.lines.set(line, head);
            self.lines.insert(line + 1, rest);
            self.cursor = Cursor::new(line + 1, 0);
            self.dirty = true;
            assert(self@.lines =~= m.insert_char(ch).lines);
        } else {
            let cur = self.lines[line].as_str();
            let n = byte_len(cur);
            proof {
                lemma_boundary_in_range(utf8(cur@), col as int);
            }
            let mut head = prefix(cur, col).to_owned();
            let ghost h0 = head@;
            push_char(&mut head, ch);
            proof {
                assert(head@ =~= h0 + seq![ch]);
                lemma_utf8_concat(h0, seq![ch]);
            }
            let new_line = concat(head.as_str(), suffix(cur, col));
            self.lines.set(line, new_line);
            self.cursor = Cursor::new(line, col + 1);
            self.dirty = true;
            assert(self@.lines =~= m.insert_char(ch).lines);
        }
    }

    /// Types each character of `s` in turn.
    pub fn insert_str(&mut self, s: &str)
        requires
            old(self)@.insert_chars_ok(s@),
        ensures
            final(self)@ == old(self)@.insert_chars(s@),
    {
        let ghost start = self@;
        let n = s.unicode_len();
        let mut i: usize = 0;
        assert(s@.skip(0) =~= s@);
        while i < n
            invariant
                n == s@.len(),
                i <= n,
                self@.insert_chars_ok(s@.skip(i as int)),
                start.insert_chars(s@) == self@.insert_chars(s@.skip(i as int)),
            decreases n - i,
        {
            let ch = s.get_char(i);
            assert(s@.skip(i as int).drop_first() =~= s@.skip(i + 1));
            self.insert_char(ch);
            i = i + 1;
        }
        assert(s@.skip(n as int) =~= Seq::<char>::empty());
    }

    /// Backspace.
    pub fn delete_backward(&mut self)
        requires
            old(self)@.delete_backward_ok(),
        ensures
            final(self)@ == old(self)@.delete_backward(),
    {
        if self.selection.is_some() {
            self.delete_selection();
            return ;
        }
        let ghost m = self@;
        if self.cursor.col > 0 {
            let line = self.cursor.line;
            let new_line = remove_char(self.lines[line].as_str(), self.cursor.col - 1);
            self.lines.set(line, new_line);
            self.cursor.col = self.cursor.col - 1;
        } else if self.cursor.line > 0 {
            let line = self.cursor.line;
            let col = byte_len(self.lines[line - 1].as_str());
            let rest = self.lines.remove(line);
            let joined = concat(self.lines[line - 1].as_str(), rest.as_str());
            self.lines.set(line - 1, joined);
            self.cursor = Cursor::new(line - 1, col);
        }
        self.dirty = true;
        assert(self@.lines =~= m.delete_backward().lines);
    }

    /// Delete.
    pub fn delete_forward(&mut self)
        requires
            old(self)@.delete_forward_ok(),
        ensures
            final(self)@ == old(self)@.delete_forward(),
    {
        if self.selection.is_some() {
            self.delete_selection();
            return ;
        }
        let ghost m = self@;
        let line = self.cursor.line;
        let col = self.cursor.col;
        let n = self.lines.len();
        if col < byte_len(self.lines[line].as_str()) {
            let new_line = remove_char(self.lines[line].as_str(), col);
            self.lines.set(line, new_line);
            self.dirty = true;
            assert(self@.lines =~= m.delete_forward().lines);
        } else if line < n - 1 {
            let next = self.lines.remove(line + 1);
            let joined = concat(self.lines[line].as_str(), next.as_str());
            self.lines.set(line, joined);
            self.dirty = true;
            assert(self@.lines =~= m.delete_forward().lines);
        }
    }

    pub fn move_left(&mut self)
        requires
            old(self)@.cursor.col > 0 || old(self)@.cursor.line <= old(self)@.lines.len(),
        ensures
            final(self)@ == old(self)@.move_left(),
    {
        self.cursors.clear();
        if self.cursor.col > 0 {
            self.cursor.col = self.cursor.col - 1;
        } else if self.cursor.line > 0 {
            let line = self.cursor.line - 1;
            self.cursor = Cursor::new(line, byte_len(self.lines[line].as_str()));
        }
    }

    pub fn move_right(&mut self)
        requires
            old(self)@.cursor.line < old(self)@.lines.len(),
        ensures
            final(self)@ == old(self)@.move_right(),
    {
        self.cursors.clear();
        let line = self.cursor.line;
        let n = self.lines.len();
        if self.cursor.col < byte_len(self.lines[line].as_str()) {
            self.cursor.col = self.cursor.col + 1;
        } else if line < n - 1 {
            self.cursor = Cursor::new(line + 1, 0);
        }
    }

    /// The cursor pulled back to the length of line `line`.
    fn clamped(&self, line: usize, c: Cursor) -> (r: Cursor)
        requires
            line < self@.lines.len(),
        ensures
            r == clamp_to(self@.lines, line as int, c),
    {
        let max = byte_len(self.lines[line].as_str());
        if c.col > max {
            Cursor::new(line, max)
        } else {
            Cursor::new(line, c.col)
        }
    }

    pub fn move_up(&mut self)
        requires
            old(self)@.cursor.line <= old(self)@.lines.len(),
        ensures
            final(self)@ == old(self)@.moved_to(step_up(old(self)@.lines, old(self)@.cursor)),
    {
        self.cursors.clear();
        if self.cursor.line > 0 {
            self.cursor = self.clamped(self.cursor.line - 1, self.cursor);
        }
    }

    pub fn move_down(&mut self)
        ensures
            final(self)@ == old(self)@.moved_to(step_down(old(self)@.lines, old(self)@.cursor)),
    {
        self.cursors.clear();
        let n = self.lines.len();
        if n > 0 && self.cursor.line < n - 1 {
            self.cursor = self.clamped(self.cursor.line + 1, self.cursor);
        }
    }

    pub fn move_home(&mut self)
        ensures
            final(self)@ == old(self)@.moved_to(
                Cursor { line: old(self)@.cursor.line, col: 0 },
            ),
    {
        self.cursors.clear();
        self.cursor.col = 0;
    }

    pub fn move_end(&mut self)
        requires
            old(self)@.cursor.line < old(self)@.lines.len(),
        ensures
            final(self)@ == old(self)@.moved_to(
                Cursor {
                    line: old(self)@.cursor.line,
                    col: old(self)@.lines[old(self)@.cursor.line as int].len() as usize,
                },
            ),
    {
        self.cursors.clear();
        self.cursor.col = byte_len(self.lines[self.cursor.line].as_str());
    }

    /// Moves up `height - 1` lines (a screen of `height` lines), stopping at
    /// the first line.
    pub fn move_page_up(&mut self, height: usize)
        requires
            height <= 1 || old(self)@.cursor.line <= old(self)@.lines.len(),
        ensures
            final(self)@ == old(self)@.moved_to(
                steps_up(old(self)@.lines, old(self)@.cursor, height.saturating_sub(1) as nat),
            ),
    {
        let ghost m = self@;
        self.cursors.clear();
        let steps = height.saturating_sub(1);
        let mut i: usize = 0;
        while i < steps
            invariant
                i <= steps,
                steps == height.saturating_sub(1),
                self@ == m.moved_to(self@.cursor),
                steps_up(m.lines, m.cursor, steps as nat) == steps_up(
                    m.lines,
                    self@.cursor,
                    (steps - i) as nat,
                ),
                i > 0 ==> self@.cursor.line < m.lines.len(),
                steps > 0 ==> self@.cursor.line <= m.lines.len(),
            ensures
                self@ == m.moved_to(steps_up(m.lines, m.cursor, steps as nat)),
            decreases steps - i,
        {
            if self.cursor.line == 0 {
                proof {
                    lemma_steps_up_at_top(m.lines, self@.cursor, (steps - i) as nat);
                }
                break ;
            }
            self.cursor = self.clamped(self.cursor.line - 1, self.cursor);
            i = i + 1;
        }
    }

    /// Moves down `height - 1` lines (a screen of `height` lines), stopping
    /// at the last line.
    pub fn move_page_down(&mut self, height: usize)
        ensures
            final(self)@ == old(self)@.moved_to(
                steps_down(old(self)@.lines, old(self)@.cursor, height.saturating_sub(1) as nat),
            ),
    {
        let ghost m = self@;
        self.cursors.clear();
        let max_line = self.lines.len().saturating_sub(1);
        let steps = height.saturating_sub(1);
        let mut i: usize = 0;
        while i < steps
            invariant
                i <= steps,
                steps == height.saturating_sub(1),
                max_line == (if m.lines.len() > 0 { m.lines.len() - 1 } else { 0 }),
                self@ == m.moved_to(self@.cursor),
                steps_down(m.lines, m.cursor, steps as nat) == steps_down(
                    m.lines,
                    self@.cursor,
                    (steps - i) as nat,
                ),
            ensures
                self@ == m.moved_to(steps_down(m.lines, m.cursor, steps as nat)),
            decreases steps - i,
        {
            if self.cursor.line >= max_line {
                proof {
                    lemma_steps_down_at_bottom(m.lines, self@.cursor, (steps - i) as nat);
                }
                break ;
            }
            self.cursor = self.clamped(self.cursor.line + 1, self.cursor);
            i = i + 1;
        }
    }

    /// Adds an extra cursor one line above the main one.
    pub fn add_cursor_alt_up(&mut self)
        requires
            old(self)@.cursor.line <= old(self)@.lines.len(),
        ensures
            final(self)@ == (BufferModel {
                cursors: if old(self)@.cursor.line > 0 {
                    old(self)@.cursors.push(
                        clamp_to(old(self)@.lines, old(self)@.cursor.line - 1, old(self)@.cursor),
                    )
                } else {
                    old(self)@.cursors
                },
                ..old(self)@
            }),
    {
        if self.cursor.line > 0 {
            let c = self.clamped(self.cursor.line - 1, self.cursor);
            self.cursors.push(c);
        }
    }

    /// Adds an extra cursor one line below the main one.
    pub fn add_cursor_alt_down(&mut self)
        ensures
            final(self)@ == (BufferModel {
                cursors: if old(self)@.cursor.line + 1 < old(self)@.lines.len() {
                    old(self)@.cursors.push(
                        clamp_to(old(self)@.lines, old(self)@.cursor.line + 1, old(self)@.cursor),
                    )
                } else {
                    old(self)@.cursors
                },
                ..old(self)@
            }),
    {
        let n = self.lines.len();
        if n > 0 && self.cursor.line < n - 1 {
            let c = self.clamped(self.cursor.line + 1, self.cursor);
            self.cursors.push(c);
        }
    }

    /// Puts the cursor at the start of a search match.
    pub fn go_to_match(&mut self, m: &SearchMatch)
        ensures
            final(self)@ == (BufferModel {
                cursor: Cursor { line: m.line, col: m.start_col },
                ..old(self)@
            }),
    {
        self.cursor = Cursor::new(m.line, m.start_col);
    }

    /// Adds `c` as an extra cursor unless it is the main cursor or already
    /// an extra one.
    pub fn add_extra_cursor(&mut self, c: Cursor)
        ensures
            final(self)@ == (BufferModel {
                cursors: if c != old(self)@.cursor && !old(self)@.cursors.contains(c) {
                    old(self)@.cursors.push(c)
                } else {
                    old(self)@.cursors
                },
                ..old(self)@
            }),
    {
        if c != self.cursor && !contains_cursor(&self.cursors, c) {
            self.cursors.push(c);
        }
    }

    pub fn clear_extra_cursors(&mut self)
        ensures
            final(self)@ == (BufferModel { cursors: seq![], ..old(self)@ }),
    {
        self.cursors.clear();
    }

    /// Searches every line for `query`, ignoring case; `None` exactly where
    /// `search_result` breaks down.
    pub fn scan_matches(&self, query: &str) -> (r: Option<Vec<SearchMatch>>)
        ensures
            match r {
                Some(v) => search_result(self@.lines, query@) == Some(v@),
                None => search_result(self@.lines, query@) is None,
            },
            ascii_text(self@.lines) && all_ascii(query@) ==> match r {
                Some(v) => ascii_search(self@.lines, query@) == Some(v@),
                None => ascii_search(self@.lines, query@) is None,
            },
    {
        if query.is_empty() {
            return Some(Vec::new());
        }
        let lowered_query = to_lowercase(query);
        let ghost asc = ascii_text(self@.lines) && all_ascii(query@);
        let mut out: Vec<SearchMatch> = Vec::new();
        let n = self.lines.len();
        let mut i: usize = 0;
        while i < n
            invariant
                n == self@.lines.len(),
                i <= n,
                query@.len() > 0,
                lowered_query@ == lowercase(query@),
                all_ascii(query@) ==> lowered_query@ == ascii_folded(query@),
                asc == (ascii_text(self@.lines) && all_ascii(query@)),
                matches_upto(self@.lines, query@, i as int) == Some(out@),
                asc ==> ascii_matches_upto(self@.lines, query@, i as int) == Some(out@),
            decreases n - i,
        {
            proof {
                if asc {
                    assert(ascii_bytes(self@.lines[i as int]));
                }
            }
            if !scan_line(self.lines[i].as_str(), i, query, lowered_query.as_str(), &mut out) {
                proof {
                    lemma_matches_upto_none(self@.lines, query@, i as int + 1, n as int);
                    if asc {
                        lemma_ascii_matches_upto_none(self@.lines, query@, i as int + 1, n as int);
                    }
                }
                return None;
            }
            i = i + 1;
        }
        Some(out)
    }

    /// All case-insensitive occurrences of `query`, line by line, left to
    /// right; none for an empty query.
    pub fn find_all(&self, query: &str) -> (r: Vec<SearchMatch>)
        requires
            search_result(self@.lines, query@) is Some,
        ensures
            search_result(self@.lines, query@) == Some(r@),
            ascii_text(self@.lines) && all_ascii(query@) ==> ascii_search(self@.lines, query@) == Some(
                r@,
            ),
    {
        match self.scan_matches(query) {
            Some(v) => v,
            None => Vec::new(),
        }
    }

    /// The selected text, or `None` when nothing is selected.
    #[verifier::spinoff_prover]
    pub fn selected_text(&self) -> (r: Option<String>)
        requires
            self@.selection_ok(),
        ensures
            match r {
                None => self@.selected_bytes() is None,
                Some(t) => self@.selected_bytes() == Some(utf8(t@)),
            },
    {
        match self.selection {
            None => None,
            Some(sel) => {
                let (start, end) = sel.sorted();
                let first = self.lines[start.line].as_str();
                let last = self.lines[end.line].as_str();
                proof {
                    lemma_utf8_valid(first@);
                    lemma_utf8_valid(last@);
                }
                if start.line == end.line {
                    proof {
                        lemma_boundary_in_prefix(utf8(first@), start.col as int, end.col as int);
                    }
                    let head = prefix(first, end.col);
                    let t = suffix(head, start.col).to_owned();
                    assert(utf8(t@) =~= utf8(first@).subrange(start.col as int, end.col as int));
                    Some(t)
                } else {
                    let mut text = suffix(first, start.col).to_owned();
                    let ghost t0 = utf8(text@);
                    let mut text = concat(text.as_str(), "\n");
                    proof {
                        lemma_utf8_ascii_char('\n');
                        reveal_strlit("\n");
                        assert("\n"@ =~= seq!['\n']);
                    }
                    let mut i = start.line + 1;
                    while i < end.line
                        invariant
                            start.line < i <= end.line,
                            end.line < self@.lines.len(),
                            utf8(text@) == t0 + seq![10u8] + lines_joined(
                                self@.lines,
                                start.line + 1,
                                i as int,
                            ),
                        decreases end.line - i,
                    {
                        let ghost before = utf8(text@);
                        let with_line = concat(text.as_str(), self.lines[i].as_str());
                        text = concat(with_line.as_str(), "\n");
                        proof {
                            lemma_utf8_ascii_char('\n');
                            reveal_strlit("\n");
                            assert("\n"@ =~= seq!['\n']);
                            assert(utf8(text@) =~= t0 + seq![10u8] + lines_joined(
                                self@.lines,
                                start.line + 1,
                                i + 1,
                            ));
                        }
                        i = i + 1;
                    }
                    let result = concat(text.as_str(), prefix(last, end.col));
                    assert(utf8(result@) =~= self@.selected_bytes()->0);
                    Some(result)
                }
            },
        }
    }
}


impl BufferModel {
    /// Every line is well-formed UTF-8.
    pub open spec fn lines_valid(self) -> bool {
        forall|i: int| 0 <= i < self.lines.len() ==> #[trigger] valid_utf8(self.lines[i])
    }
}

/// The lines of a buffer are the encodings of its strings, so they are
/// well-formed.
pub proof fn lemma_buffer_lines_valid(b: &TextBuffer)
    ensures
        b@.lines_valid(),
{
    assert forall|i: int| 0 <= i < b@.lines.len() implies #[trigger] valid_utf8(b@.lines[i]) by {
        lemma_utf8_valid(b.lines@[i]@);
    }
}

/// Two well-formed pieces joined have a boundary where they meet.
pub proof fn lemma_join_boundary(a: Seq<u8>, b: Seq<u8>)
    requires
        valid_utf8(a),
        valid_utf8(b),
    ensures
        valid_utf8(a + b),
        is_char_boundary(a + b, a.len() as int),
{
    valid_utf8_concat(a, b);
    is_char_boundary_start_end_of_seq(a + b);
    if b.len() > 0 {
        assert((a + b)[a.len() as int] == b[0]);
        is_char_boundary_iff_not_is_continuation_byte(b, 0);
        is_char_boundary_iff_not_is_continuation_byte(a + b, a.len() as int);
    } else {
        assert(a + b =~= a);
    }
}

/// Cutting a well-formed line at a boundary leaves two well-formed pieces.
pub proof fn lemma_cut_valid(l: Seq<u8>, i: int)
    requires
        valid_utf8(l),
        is_char_boundary(l, i),
    ensures
        0 <= i <= l.len(),
        valid_utf8(l.take(i)),
        valid_utf8(l.skip(i)),
        l.take(i).len() == i,
{
    lemma_boundary_in_range(l, i);
    valid_utf8_split(l, i);
    assert(l.take(i) =~= l.subrange(0, i));
    assert(l.skip(i) =~= l.subrange(i, l.len() as int));
}

/// Removing a well-formed selection keeps the lines well-formed and leaves
/// the cursor on a boundary.
pub proof fn lemma_delete_selection_valid(b: BufferModel)
    requires
        b.lines_valid(),
        b.selection_ok(),
    ensures
        b.delete_selection().lines_valid(),
        b.selection is Some ==> at_boundary(b.delete_selection().lines, b.delete_selection().cursor),
        b.selection is None ==> b.delete_selection() == b,
{
    if let Some(sel) = b.selection {
        let (s, e) = sel.ordered();
        let ls = b.lines[s.line as int];
        let le = b.lines[e.line as int];
        lemma_cut_valid(ls, s.col as int);
        lemma_cut_valid(le, e.col as int);
        let a = ls.take(s.col as int);
        let z = le.skip(e.col as int);
        lemma_join_boundary(a, z);
        let d = b.delete_selection();
        assert(s.line <= e.line);
        assert(d.lines.len() == b.lines.len() - (e.line - s.line));
        assert(d.lines[s.line as int] == a + z);
        assert forall|i: int| 0 <= i < d.lines.len() implies #[trigger] valid_utf8(d.lines[i]) by {
            if i < s.line {
                assert(d.lines[i] == b.lines[i]);
            } else if i > s.line {
                assert(d.lines[i] == b.lines[i + (e.line - s.line)]);
            }
        }
    }
}

/// Typing a space where typing is defined keeps the lines well-formed and
/// leaves the cursor on a boundary, with no selection.
pub proof fn lemma_space_typed(b: BufferModel)
    requires
        b.lines_valid(),
        b.insert_char_ok(' '),
    ensures
        b.insert_char(' ').lines_valid(),
        b.insert_char(' ').selection is None,
        at_boundary(b.insert_char(' ').lines, b.insert_char(' ').cursor),
{
    lemma_delete_selection_valid(b);
    let d = b.delete_selection();
    let l = d.cursor.line as int;
    let c = d.cursor.col as int;
    let line = d.lines[l];
    assert(valid_utf8(line));
    lemma_cut_valid(line, c);
    lemma_utf8_ascii_char(' ');
    let sp = utf8(seq![' ']);
    lemma_utf8_valid(seq![' ']);
    valid_utf8_concat(line.take(c), sp);
    lemma_join_boundary(line.take(c) + sp, line.skip(c));
    let m = b.insert_char(' ');
    assert(line.take(c) + sp + line.skip(c) == (line.take(c) + sp) + line.skip(c));
    assert(m.lines[l] == line.take(c) + sp + line.skip(c));
    assert(sp.len() == 1);
    assert((line.take(c) + sp).len() == c + 1);
    assert(l < m.lines.len());
    let cu = d.cursor.col;
    if cu == usize::MAX {
        assert((cu + 1) as usize != cu + 1 ==> (cu + 1) as usize == 0) by (bit_vector);
        is_char_boundary_start_end_of_seq(m.lines[l]);
    }
    assert forall|i: int| 0 <= i < m.lines.len() implies #[trigger] valid_utf8(m.lines[i]) by {
        if i != l {
            assert(m.lines[i] == d.lines[i]);
        }
    }
}

/// Where typing one space is defined, so is typing four (the Tab key).
pub proof fn lemma_tab_ok(b: BufferModel)
    requires
        b.lines_valid(),
    ensures
        b.insert_chars_ok("    "@) == b.insert_char_ok(' '),
{
    reveal_strlit("    ");
    let s = "    "@;
    assert(s.drop_first() =~= seq![' ', ' ', ' ']);
    assert(s.drop_first().drop_first() =~= seq![' ', ' ']);
    assert(s.drop_first().drop_first().drop_first() =~= seq![' ']);
    assert(s.drop_first().drop_first().drop_first().drop_first() =~= Seq::<char>::empty());
    if b.insert_char_ok(' ') {
        lemma_space_typed(b);
        let b1 = b.insert_char(' ');
        lemma_space_typed(b1);
        let b2 = b1.insert_char(' ');
        lemma_space_typed(b2);
        let b3 = b2.insert_char(' ');
        lemma_space_typed(b3);
        let b4 = b3.insert_char(' ');
        assert(b4.insert_chars_ok(Seq::<char>::empty()));
        assert(b3.insert_chars_ok(seq![' ']));
        assert(b2.insert_chars_ok(seq![' ', ' ']));
        assert(b1.insert_chars_ok(seq![' ', ' ', ' ']));
    }
}

impl TextBuffer {
    /// Whether `c` names an existing line and a character boundary in it.
    pub fn boundary_at(&self, c: Cursor) -> (r: bool)
        ensures
            r == at_boundary(self@.lines, c),
    {
        c.line < self.lines.len() && self.lines[c.line].is_char_boundary(c.col)
    }

    /// Whether both ends of the selection, if any, are character boundaries
    /// of existing lines.
    pub fn selection_is_ok(&self) -> (r: bool)
        ensures
            r == self@.selection_ok(),
    {
        match self.selection {
            None => true,
            Some(sel) => {
                let (s, e) = sel.sorted();
                self.boundary_at(s) && self.boundary_at(e)
            },
        }
    }

    /// Whether typing a character is defined here (see `insert_char_ok`).
    pub fn can_insert_char(&self, ch: char) -> (r: bool)
        ensures
            r == self@.insert_char_ok(ch),
    {
        proof {
            lemma_buffer_lines_valid(self);
            if self@.selection_ok() {
                lemma_delete_selection_valid(self@);
            }
        }
        match self.selection {
            None => self.boundary_at(self.cursor),
            Some(_) => self.selection_is_ok(),
        }
    }

    /// Whether typing the four spaces of the Tab key is defined here.
    pub fn can_insert_tab(&self) -> (r: bool)
        ensures
            r == self@.insert_chars_ok("    "@),
    {
        proof {
            lemma_buffer_lines_valid(self);
            lemma_tab_ok(self@);
        }
        self.can_insert_char(' ')
    }

    /// Whether Backspace is defined here (see `delete_backward_ok`).
    pub fn can_delete_backward(&self) -> (r: bool)
        ensures
            r == self@.delete_backward_ok(),
    {
        match self.selection {
            Some(_) => self.selection_is_ok(),
            None => {
                let c = self.cursor;
                let n = self.lines.len();
                let first = if c.col > 0 {
                    c.line < n && self.lines[c.line].is_char_boundary(c.col - 1) && c.col - 1
                        < byte_len(self.lines[c.line].as_str())
                } else {
                    true
                };
                let second = if c.col == 0 && c.line > 0 {
                    c.line < n
                } else {
                    true
                };
                first && second
            },
        }
    }

    /// Whether Delete is defined here (see `delete_forward_ok`).
    pub fn can_delete_forward(&self) -> (r: bool)
        ensures
            r == self@.delete_forward_ok(),
    {
        match self.selection {
            Some(_) => self.selection_is_ok(),
            None => {
                let c = self.cursor;
                if c.line < self.lines.len() {
                    let line = self.lines[c.line].as_str();
                    c.col >= byte_len(line) || line.is_char_boundary(c.col)
                } else {
                    false
                }
            },
        }
    }
}

} // verus!
