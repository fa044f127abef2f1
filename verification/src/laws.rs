use vstd::prelude::*;
use crate::search::SearchModel;
use crate::cmd_palette::{PaletteModel, listed};
use crate::app::{AppModel, EffectModel, KeyCode, KeyEvent, Modifiers};
use crate::buffer::{ascii_folded, ascii_line_matches, ascii_matches_upto, ascii_search, lines_joined, step_up, steps_up, SearchMatch, line_matches, matches_upto, search_result, BufferModel, Cursor, at_boundary, lemma_cut_valid, lemma_join_boundary, joined, content_lines, split_lines, strip_cr, lemma_delete_selection_valid};
use crate::text::remove_char_at;
use crate::term_panel::{without_escapes, pushed, MAX_LINES};
use crate::filetree::{subtree_end, TreeModel, child_at, EntryModel, NodeModel, name_before, entry_before, insert_pos, sorted_entries, shown_entries, shown_name, tree_rows};
use crate::text::{all_ascii, ascii_bytes, lemma_boundary_in_range, find_from, occurs_at, lemma_utf8_ascii_char, lemma_utf8_concat};
use crate::text::{utf8, chars_of, lemma_utf8_valid, lemma_utf8_empty};
use vstd::utf8::*;

verus! {

/// Stepping to the next search match and then to the previous one (or the
/// other way round) comes back to the match one started from.
pub proof fn law_search_steps_undo(s: SearchModel)
    requires
        s.matches.len() <= usize::MAX,
        s.current_match < s.matches.len(),
    ensures
        s.advanced().retreated() == s,
        s.retreated().advanced() == s,
{
    let n = s.matches.len() as int;
    let c = s.current_match as int;
    let a = s.advanced();
    if c + 1 < n {
        vstd::arithmetic::div_mod::lemma_small_mod((c + 1) as nat, n as nat);
        assert(a.current_match == c + 1);
    } else {
        vstd::arithmetic::div_mod::lemma_mod_self_0(n);
        assert(a.current_match == 0);
    }
    assert(a.retreated().current_match == s.current_match);
    assert(a.retreated() == s);
    let r = s.retreated();
    if c > 0 {
        vstd::arithmetic::div_mod::lemma_small_mod(c as nat, n as nat);
        assert(r.current_match == c - 1);
    } else {
        vstd::arithmetic::div_mod::lemma_mod_self_0(n);
        assert(r.current_match == n - 1);
    }
    assert(r.advanced().current_match == s.current_match);
    assert(r.advanced() == s);
}

/// Selecting the next command of the palette and then the previous one (or
/// the other way round) comes back to the command one started from.
pub proof fn law_palette_steps_undo(p: PaletteModel)
    requires
        p.selected < listed(p.query).len(),
    ensures
        p.next().prev() == p,
        p.prev().next() == p,
{
    let n = listed(p.query).len() as int;
    let c = p.selected as int;
    crate::cmd_palette::lemma_listed_len(p.query);
    let a = p.next();
    if c + 1 < n {
        vstd::arithmetic::div_mod::lemma_small_mod((c + 1) as nat, n as nat);
        assert(a.selected == c + 1);
    } else {
        vstd::arithmetic::div_mod::lemma_mod_self_0(n);
        assert(a.selected == 0);
    }
    assert(a.prev().selected == p.selected);
    assert(a.prev() == p);
    let r = p.prev();
    if c > 0 {
        vstd::arithmetic::div_mod::lemma_small_mod(c as nat, n as nat);
        assert(r.selected == c - 1);
    } else {
        vstd::arithmetic::div_mod::lemma_mod_self_0(n);
        assert(r.selected == n - 1);
    }
    assert(r.next().selected == p.selected);
    assert(r.next() == p);
}

/// Going to the next tab and back to the previous one returns to the tab
/// one started from, where there is a next tab.
pub proof fn law_tab_steps_undo(m: AppModel)
    requires
        m.buffers.len() <= usize::MAX,
        m.active_buffer + 1 < m.buffers.len(),
    ensures
        m.tab_next().tab_prev() == m,
{
}

/// Closing a tab just opened leaves the buffers as they were.
pub proof fn law_open_then_close_tab(m: AppModel)
    requires
        m.wf(),
        m.buffers.len() < usize::MAX,
    ensures
        m.new_tab().tab_closed().buffers == m.buffers,
        m.new_tab().tab_closed().wf(),
{
    let t = m.new_tab();
    assert(t.active_buffer == m.buffers.len());
    assert(t.buffers.remove(t.active_buffer as int) =~= m.buffers);
}

/// Typing a character where there is no selection, and then pressing
/// Backspace, gives back the lines and the cursor one started from.
pub proof fn law_type_then_backspace(b: BufferModel, ch: char)
    requires
        b.lines_valid(),
        b.selection is None,
        at_boundary(b.lines, b.cursor),
        b.cursor.line + 1 <= usize::MAX,
        b.cursor.col + 1 <= usize::MAX,
    ensures
        b.insert_char(ch).delete_backward_ok(),
        b.insert_char(ch).delete_backward().lines == b.lines,
        b.insert_char(ch).delete_backward().cursor == b.cursor,
{
    let l = b.cursor.line as int;
    let c = b.cursor.col as int;
    let line = b.lines[l];
    assert(b.delete_selection() == b);
    assert(valid_utf8(line));
    lemma_cut_valid(line, c);
    let a = line.take(c);
    let z = line.skip(c);
    let m = b.insert_char(ch);
    if ch == '\n' {
        assert(m.lines == b.lines.take(l) + seq![a, z] + b.lines.skip(l + 1));
        assert(m.cursor == Cursor { line: (l + 1) as usize, col: 0 });
        assert(m.lines[l] == a);
        assert(m.lines[l + 1] == z);
        let r = m.delete_backward();
        assert(r.lines =~= b.lines.take(l) + seq![a + z] + b.lines.skip(l + 1));
        assert(a + z =~= line);
        assert(r.lines =~= b.lines);
    } else {
        let u = utf8(seq![ch]);
        lemma_utf8_valid(seq![ch]);
        lemma_utf8_empty(seq![ch]);
        lemma_join_boundary(u, z);
        lemma_join_boundary(a, u + z);
        let nl = a + u + z;
        assert(nl == a + (u + z));
        assert(m.lines == b.lines.update(l, nl));
        assert(m.cursor == Cursor { line: l as usize, col: (c + 1) as usize });
        assert(is_char_boundary(nl, c));
        assert(nl.take(c) =~= a);
        assert(nl.skip(c) =~= u + z);
        decode_utf8_split(u + z, u.len() as int);
        assert((u + z).subrange(0, u.len() as int) =~= u);
        assert((u + z).subrange(u.len() as int, (u + z).len() as int) =~= z);
        assert(chars_of(u + z) =~= seq![ch] + chars_of(z));
        assert((seq![ch] + chars_of(z)).drop_first() =~= chars_of(z));
        decode_utf8_encode_utf8(z);
        assert(utf8(chars_of(z)) == z);
        let r = m.delete_backward();
        assert(r.lines[l] =~= line);
        assert(r.lines =~= b.lines);
    }
}

/// No line holds a newline byte, and none ends in a carriage return: the
/// lines that a file can give back as they were saved.
pub open spec fn plain_lines(lines: Seq<Seq<u8>>) -> bool {
    &&& forall|i: int, k: int|
        0 <= i < lines.len() && 0 <= k < lines[i].len() ==> #[trigger] lines[i][k] != 10u8
    &&& forall|i: int|
        0 <= i < lines.len() && lines[i].len() > 0 ==> #[trigger] lines[i].last() != 13u8
}

/// The line-ending bytes: "\r\n" or "\n".
pub open spec fn ending_bytes(crlf: bool) -> Seq<u8> {
    if crlf {
        seq![13u8, 10u8]
    } else {
        seq![10u8]
    }
}

/// Joining starts with the first line.
proof fn lemma_joined_first(lines: Seq<Seq<u8>>, sep: Seq<u8>)
    requires
        lines.len() >= 2,
    ensures
        joined(lines, sep) == lines[0] + sep + joined(lines.drop_first(), sep),
    decreases lines.len(),
{
    if lines.len() == 2 {
        assert(lines.drop_last() =~= seq![lines[0]]);
        assert(lines.drop_first() =~= seq![lines[1]]);
        assert(joined(lines.drop_last(), sep) == lines[0]);
        assert(joined(lines.drop_first(), sep) == lines[1]);
        assert(joined(lines, sep) == joined(lines.drop_last(), sep) + sep + lines.last());
    } else {
        let dl = lines.drop_last();
        let df = lines.drop_first();
        lemma_joined_first(dl, sep);
        assert(dl.drop_first() =~= df.drop_last());
        assert(dl[0] == lines[0]);
        assert(df.last() == lines.last());
        assert(joined(lines, sep) == joined(dl, sep) + sep + lines.last());
        assert(joined(df, sep) == joined(df.drop_last(), sep) + sep + df.last());
        assert(joined(lines, sep) =~= lines[0] + sep + (joined(df.drop_last(), sep) + sep + df.last()));
    }
}

/// A sequence without newline bytes has none to find.
proof fn lemma_no_newline(b: Seq<u8>, from: int)
    requires
        0 <= from,
        forall|k: int| 0 <= k < b.len() ==> #[trigger] b[k] != 10u8,
    ensures
        find_from(b, seq![10u8], from) is None,
    decreases b.len() + 1 - from,
{
    if from + 1 <= b.len() {
        if occurs_at(b, seq![10u8], from) {
            assert(b.subrange(from, from + 1)[0] == b[from]);
        }
        lemma_no_newline(b, from + 1);
    }
}

/// The first newline byte at or after `from`.
proof fn lemma_first_newline(b: Seq<u8>, from: int, p: int)
    requires
        0 <= from <= p < b.len(),
        b[p] == 10u8,
        forall|k: int| from <= k < p ==> #[trigger] b[k] != 10u8,
    ensures
        find_from(b, seq![10u8], from) == Some(p),
    decreases p - from,
{
    if from == p {
        assert(b.subrange(p, p + 1) =~= seq![10u8]);
    } else {
        if occurs_at(b, seq![10u8], from) {
            assert(b.subrange(from, from + 1)[0] == b[from]);
        }
        lemma_first_newline(b, from + 1, p);
    }
}

/// Splitting joined plain lines at newlines, and dropping the carriage
/// returns, gives the lines back.
proof fn lemma_split_joined(lines: Seq<Seq<u8>>, crlf: bool)
    requires
        lines.len() > 0,
        plain_lines(lines),
    ensures
        content_lines(joined(lines, ending_bytes(crlf))) == lines,
    decreases lines.len(),
{
    let sep = ending_bytes(crlf);
    let l0 = lines[0];
    assert forall|k: int| 0 <= k < l0.len() implies #[trigger] l0[k] != 10u8 by {
        assert(lines[0][k] != 10u8);
    }
    if lines.len() == 1 {
        lemma_no_newline(l0, 0);
        assert(split_lines(l0) == seq![l0]);
        assert(strip_cr(l0) == l0);
        assert(content_lines(l0) =~= lines);
    } else {
        lemma_joined_first(lines, sep);
        let rest = lines.drop_first();
        assert(plain_lines(rest)) by {
            assert forall|i: int, k: int| 0 <= i < rest.len() && 0 <= k < rest[i].len() implies #[trigger] rest[i][k] != 10u8 by {
                assert(rest[i] == lines[i + 1]);
                assert(lines[i + 1][k] != 10u8);
            }
            assert forall|i: int| 0 <= i < rest.len() && rest[i].len() > 0 implies #[trigger] rest[i].last() != 13u8 by {
                assert(rest[i] == lines[i + 1]);
                assert(lines[i + 1].last() != 13u8);
            }
        }
        lemma_split_joined(rest, crlf);
        let jr = joined(rest, sep);
        let b = l0 + sep + jr;
        let p = l0.len() + sep.len() - 1;
        assert(b[p] == 10u8);
        assert forall|k: int| 0 <= k < p implies #[trigger] b[k] != 10u8 by {
            if k < l0.len() {
                assert(b[k] == l0[k]);
            } else {
                assert(b[k] == 13u8);
            }
        }
        lemma_first_newline(b, 0, p);
        assert(b.skip(p + 1) =~= jr);
        let head = b.take(p);
        if crlf {
            assert(head =~= l0.push(13u8));
            assert(strip_cr(head) =~= l0);
        } else {
            assert(head =~= l0);
            if l0.len() > 0 {
                assert(lines[0].last() != 13u8);
            }
            assert(strip_cr(head) == l0);
        }
        assert(split_lines(b) == seq![head] + split_lines(jr));
        let f = |l: Seq<u8>| strip_cr(l);
        assert((seq![head] + split_lines(jr)).map_values(f) =~= seq![strip_cr(head)]
            + split_lines(jr).map_values(f));
        assert(content_lines(b) =~= seq![l0] + rest);
        assert(seq![l0] + rest =~= lines);
    }
}

/// Saving a buffer's lines with either line ending and reading the file
/// back gives the same lines, when no line holds a newline or ends in a
/// carriage return.
pub proof fn law_save_then_open(lines: Seq<Seq<u8>>, crlf: bool)
    requires
        lines.len() > 0,
        plain_lines(lines),
    ensures
        content_lines(joined(lines, utf8(if crlf { "\r\n"@ } else { "\n"@ }))) == lines,
{
    reveal_strlit("\r\n");
    reveal_strlit("\n");
    lemma_utf8_ascii_char('\r');
    lemma_utf8_ascii_char('\n');
    lemma_utf8_concat(seq!['\r'], seq!['\n']);
    assert("\r\n"@ =~= seq!['\r'] + seq!['\n']);
    assert("\n"@ =~= seq!['\n']);
    assert(utf8(if crlf { "\r\n"@ } else { "\n"@ }) =~= ending_bytes(crlf));
    lemma_split_joined(lines, crlf);
}

/// Removing a character that starts at a boundary of a well-formed line
/// leaves a well-formed line.
proof fn lemma_remove_char_valid(line: Seq<u8>, i: int)
    requires
        valid_utf8(line),
        is_char_boundary(line, i),
    ensures
        valid_utf8(remove_char_at(line, i)),
{
    lemma_cut_valid(line, i);
    let rest = chars_of(line.skip(i)).drop_first();
    lemma_utf8_valid(rest);
    valid_utf8_concat(line.take(i), utf8(rest));
}

/// Lines with one line replaced by a well-formed one stay well-formed.
proof fn lemma_update_valid(b: BufferModel, lines: Seq<Seq<u8>>, l: int, x: Seq<u8>)
    requires
        b.lines_valid(),
        0 <= l < b.lines.len(),
        valid_utf8(x),
        lines == b.lines.update(l, x),
    ensures
        (BufferModel { lines, ..b }).lines_valid(),
{
    assert forall|i: int| 0 <= i < lines.len() implies #[trigger] valid_utf8(lines[i]) by {
        if i != l {
            assert(lines[i] == b.lines[i]);
        }
    }
}

/// Typing, Backspace and Delete, where they are defined, keep at least one
/// line and keep every line well-formed UTF-8.
pub proof fn law_edits_keep_lines(b: BufferModel, ch: char)
    requires
        b.lines.len() > 0,
        b.lines_valid(),
    ensures
        b.insert_char_ok(ch) ==> b.insert_char(ch).lines.len() > 0 && b.insert_char(ch).lines_valid(),
        b.delete_backward_ok() ==> b.delete_backward().lines.len() > 0
            && b.delete_backward().lines_valid(),
        b.delete_forward_ok() ==> b.delete_forward().lines.len() > 0
            && b.delete_forward().lines_valid(),
{
    if b.selection_ok() {
        lemma_delete_selection_valid(b);
        let d = b.delete_selection();
        if let Some(sel) = b.selection {
            let (s0, e0) = sel.ordered();
            assert(s0.line <= e0.line);
            assert(d.lines.len() == b.lines.len() - (e0.line - s0.line));
        }
        assert(d.lines.len() > 0);
    }
    if b.insert_char_ok(ch) {
        let d = b.delete_selection();
        let l = d.cursor.line as int;
        let c = d.cursor.col as int;
        let line = d.lines[l];
        assert(valid_utf8(line));
        lemma_cut_valid(line, c);
        let m = b.insert_char(ch);
        if ch == '\n' {
            assert(m.lines == d.lines.take(l) + seq![line.take(c), line.skip(c)] + d.lines.skip(l + 1));
            assert forall|i: int| 0 <= i < m.lines.len() implies #[trigger] valid_utf8(m.lines[i]) by {
                if i < l {
                    assert(m.lines[i] == d.lines[i]);
                } else if i > l + 1 {
                    assert(m.lines[i] == d.lines[i - 1]);
                }
            }
        } else {
            lemma_utf8_valid(seq![ch]);
            valid_utf8_concat(line.take(c), utf8(seq![ch]));
            valid_utf8_concat(line.take(c) + utf8(seq![ch]), line.skip(c));
            lemma_update_valid(d, m.lines, l, line.take(c) + utf8(seq![ch]) + line.skip(c));
        }
    }
    if b.delete_backward_ok() {
        let c = b.cursor;
        let l = c.line as int;
        let r = b.delete_backward();
        if b.selection is None {
            if c.col > 0 {
                lemma_remove_char_valid(b.lines[l], c.col - 1);
                lemma_update_valid(b, r.lines, l, remove_char_at(b.lines[l], c.col - 1));
            } else if c.line > 0 {
                valid_utf8_concat(b.lines[l - 1], b.lines[l]);
                assert forall|i: int| 0 <= i < r.lines.len() implies #[trigger] valid_utf8(r.lines[i]) by {
                    if i < l - 1 {
                        assert(r.lines[i] == b.lines[i]);
                    } else if i > l - 1 {
                        assert(r.lines[i] == b.lines[i + 1]);
                    }
                }
            }
        }
    }
    if b.delete_forward_ok() {
        let c = b.cursor;
        let l = c.line as int;
        let r = b.delete_forward();
        if b.selection is None {
            if c.col < b.lines[l].len() {
                lemma_remove_char_valid(b.lines[l], c.col as int);
                lemma_update_valid(b, r.lines, l, remove_char_at(b.lines[l], c.col as int));
            } else if l + 1 < b.lines.len() {
                valid_utf8_concat(b.lines[l], b.lines[l + 1]);
                assert forall|i: int| 0 <= i < r.lines.len() implies #[trigger] valid_utf8(r.lines[i]) by {
                    if i < l {
                        assert(r.lines[i] == b.lines[i]);
                    } else if i > l {
                        assert(r.lines[i] == b.lines[i + 1]);
                    }
                }
            }
        }
    }
}

/// Text without escape characters comes out of `strip_ansi` unchanged.
pub proof fn law_plain_text_unchanged(s: Seq<char>)
    requires
        forall|i: int| 0 <= i < s.len() ==> #[trigger] s[i] != '\x1b',
    ensures
        without_escapes(s) == s,
    decreases s.len(),
{
    if s.len() > 0 {
        let t = s.drop_first();
        assert forall|i: int| 0 <= i < t.len() implies #[trigger] t[i] != '\x1b' by {
            assert(t[i] == s[i + 1]);
        }
        law_plain_text_unchanged(t);
        assert(seq![s[0]] + t =~= s);
    }
}

/// The terminal never keeps more than `MAX_LINES` lines, and a pushed line
/// is always the newest one kept.
pub proof fn law_terminal_bounded(lines: Seq<Seq<char>>, line: Seq<char>)
    requires
        lines.len() <= MAX_LINES,
    ensures
        pushed(lines, line).len() <= MAX_LINES,
        pushed(lines, line).last() == line,
        lines.len() < MAX_LINES ==> pushed(lines, line) == lines.push(line),
{
}

/// A name never comes before itself.
proof fn lemma_name_irreflexive(a: Seq<char>)
    ensures
        !name_before(a, a),
    decreases a.len(),
{
    if a.len() > 0 {
        lemma_name_irreflexive(a.drop_first());
    }
}

/// Of two different names, one comes before the other, and never both.
proof fn lemma_name_total(a: Seq<char>, b: Seq<char>)
    ensures
        a != b ==> name_before(a, b) || name_before(b, a),
        !(name_before(a, b) && name_before(b, a)),
    decreases a.len(),
{
    if a.len() > 0 && b.len() > 0 && a[0] == b[0] {
        lemma_name_total(a.drop_first(), b.drop_first());
        if a != b {
            assert(a.drop_first() != b.drop_first()) by {
                if a.drop_first() == b.drop_first() {
                    assert(a =~= seq![a[0]] + a.drop_first());
                    assert(b =~= seq![b[0]] + b.drop_first());
                }
            }
        }
    } else if a.len() == 0 && b.len() == 0 {
        assert(a =~= b);
    }
}

/// Name order is transitive.
proof fn lemma_name_transitive(a: Seq<char>, b: Seq<char>, c: Seq<char>)
    requires
        name_before(a, b),
        name_before(b, c),
    ensures
        name_before(a, c),
    decreases a.len(),
{
    if a.len() > 0 && b.len() > 0 && c.len() > 0 && a[0] == b[0] && b[0] == c[0] {
        lemma_name_transitive(a.drop_first(), b.drop_first(), c.drop_first());
    }
}

/// "Not before" is transitive for entries: if `b` is not before `a` and
/// `c` not before `b`, then `c` is not before `a`.
proof fn lemma_not_before_transitive(a: EntryModel, b: EntryModel, c: EntryModel)
    requires
        !entry_before(b, a),
        !entry_before(c, b),
    ensures
        !entry_before(c, a),
{
    lemma_name_total(a.name, b.name);
    lemma_name_total(b.name, c.name);
    lemma_name_total(a.name, c.name);
    lemma_name_irreflexive(a.name);
    if name_before(a.name, b.name) && name_before(b.name, c.name) {
        lemma_name_transitive(a.name, b.name, c.name);
    }
}

/// No later element comes before an earlier one.
pub open spec fn entries_sorted(s: Seq<EntryModel>) -> bool {
    forall|i: int, j: int| 0 <= i < j < s.len() ==> !entry_before(#[trigger] s[j], #[trigger] s[i])
}

/// Where the insertion puts an entry: every later element comes after it,
/// and the element before it does not.
proof fn lemma_insert_pos(t: Seq<EntryModel>, e: EntryModel)
    ensures
        0 <= insert_pos(t, e) <= t.len(),
        forall|k: int| insert_pos(t, e) <= k < t.len() ==> entry_before(e, #[trigger] t[k]),
        insert_pos(t, e) > 0 ==> !entry_before(e, t[insert_pos(t, e) - 1]),
    decreases t.len(),
{
    if t.len() > 0 && entry_before(e, t.last()) {
        lemma_insert_pos(t.drop_last(), e);
        assert forall|k: int| insert_pos(t, e) <= k < t.len() implies entry_before(e, #[trigger] t[k]) by {
            if k < t.len() - 1 {
                assert(t[k] == t.drop_last()[k]);
            }
        }
        if insert_pos(t, e) > 0 {
            assert(t[insert_pos(t, e) - 1] == t.drop_last()[insert_pos(t, e) - 1]);
        }
    }
}

/// The stable insertion sort sorts, and keeps the number of entries.
proof fn lemma_sorted_entries(s: Seq<EntryModel>)
    ensures
        entries_sorted(sorted_entries(s)),
        sorted_entries(s).len() == s.len(),
        forall|i: int| 0 <= i < sorted_entries(s).len() ==> s.contains(#[trigger] sorted_entries(s)[i]),
    decreases s.len(),
{
    if s.len() > 0 {
        let init = s.drop_last();
        lemma_sorted_entries(init);
        let t = sorted_entries(init);
        let e = s.last();
        let p = insert_pos(t, e);
        lemma_insert_pos(t, e);
        let r = t.insert(p, e);
        assert(r == sorted_entries(s));
        assert forall|i: int, j: int| 0 <= i < j < r.len() implies !entry_before(#[trigger] r[j], #[trigger] r[i]) by {
            if j < p {
                assert(r[i] == t[i] && r[j] == t[j]);
            } else if j == p {
                assert(r[i] == t[i]);
                assert(!entry_before(e, t[p - 1]));
                if i < p - 1 {
                    assert(!entry_before(t[p - 1], t[i]));
                    lemma_not_before_transitive(t[i], t[p - 1], e);
                }
            } else if i < p {
                assert(r[i] == t[i] && r[j] == t[j - 1]);
            } else if i == p {
                assert(r[j] == t[j - 1]);
                assert(entry_before(e, t[j - 1]));
                lemma_name_total(e.name, t[j - 1].name);
            } else {
                assert(r[i] == t[i - 1] && r[j] == t[j - 1]);
            }
        }
        assert forall|i: int| 0 <= i < r.len() implies s.contains(#[trigger] r[i]) by {
            if i == p {
                assert(s[s.len() - 1] == e);
            } else {
                let k = if i < p { i } else { i - 1 };
                assert(r[i] == t[k]);
                assert(init.contains(t[k]));
                let w = choose|w: int| 0 <= w < init.len() && init[w] == t[k];
                assert(s[w] == init[w]);
            }
        }
    }
}

/// Every entry kept is shown.
proof fn lemma_shown_entries(s: Seq<EntryModel>)
    ensures
        forall|i: int| 0 <= i < shown_entries(s).len() ==> shown_name(#[trigger] shown_entries(s)[i].name),
    decreases s.len(),
{
    if s.len() > 0 {
        let init = shown_entries(s.drop_last());
        lemma_shown_entries(s.drop_last());
        let r = shown_entries(s);
        assert forall|i: int| 0 <= i < r.len() implies shown_name(#[trigger] r[i].name) by {
            if i < init.len() {
                assert(r[i] == init[i]);
            }
        }
    }
}

/// The rows of a tree below its root: directories before files, each
/// group in name order, and no hidden name but ".gitignore".
pub proof fn law_tree_order(root: Seq<char>, root_name: Option<Seq<char>>, entries: Seq<EntryModel>)
    ensures
        forall|i: int, j: int|
            1 <= i < j < tree_rows(root, root_name, entries).len() ==> {
                let a = #[trigger] tree_rows(root, root_name, entries)[i];
                let b = #[trigger] tree_rows(root, root_name, entries)[j];
                &&& !(b.is_dir && !a.is_dir)
                &&& a.is_dir == b.is_dir ==> !name_before(b.name, a.name)
            },
        forall|i: int|
            1 <= i < tree_rows(root, root_name, entries).len() ==> shown_name(
                #[trigger] tree_rows(root, root_name, entries)[i].name,
            ),
{
    let sh = shown_entries(entries);
    lemma_shown_entries(entries);
    lemma_sorted_entries(sh);
    let srt = sorted_entries(sh);
    let rows = tree_rows(root, root_name, entries);
    assert forall|i: int| 1 <= i < rows.len() implies rows[i] == crate::filetree::child_row(srt[i - 1]) by {}
    assert forall|i: int| 1 <= i < rows.len() implies shown_name(#[trigger] rows[i].name) by {
        assert(sh.contains(srt[i - 1]));
        let w = choose|w: int| 0 <= w < sh.len() && sh[w] == srt[i - 1];
        assert(shown_name(sh[w].name));
    }
}

/// A step right and then a step left come back to the same place, except
/// at the very end of the text.
pub proof fn law_right_then_left(b: BufferModel)
    requires
        b.cursor.line < b.lines.len(),
        b.cursor.col <= b.lines[b.cursor.line as int].len(),
        !(b.cursor.line + 1 == b.lines.len() && b.cursor.col == b.lines[b.cursor.line as int].len()),
        b.cursor.col + 1 <= usize::MAX,
        b.cursor.line + 1 <= usize::MAX,
    ensures
        b.move_right().move_left().cursor == b.cursor,
{
}

/// A step left and then a step right come back to the same place, except
/// at the very start of the text.
pub proof fn law_left_then_right(b: BufferModel)
    requires
        b.cursor.line < b.lines.len(),
        b.cursor.col <= b.lines[b.cursor.line as int].len(),
        !(b.cursor.line == 0 && b.cursor.col == 0),
        forall|i: int| 0 <= i < b.lines.len() ==> #[trigger] b.lines[i].len() <= usize::MAX,
    ensures
        b.move_left().move_right().cursor == b.cursor,
{
    if b.cursor.col == 0 {
        assert(b.lines[b.cursor.line - 1].len() <= usize::MAX);
    }
}

/// Three presses of Tab in the project form come back to the same field.
pub proof fn law_project_fields_cycle(m: AppModel, k: crate::app::KeyEvent)
    requires
        m.proj_field < 3,
        k.code == crate::app::KeyCode::Tab,
    ensures
        m.project_key(k).0.project_key(k).0.project_key(k).0.proj_field == m.proj_field,
{
}

/// Matches in reading order: by line, then by column.
pub open spec fn match_before(a: SearchMatch, b: SearchMatch) -> bool {
    a.line < b.line || (a.line == b.line && a.start_col < b.start_col)
}

/// The matches of one line lie on it, from `start` on, left to right,
/// each starting inside the line.
proof fn lemma_line_matches_order(line: Seq<u8>, line_no: usize, query: Seq<char>, start: int)
    ensures
        line_matches(line, line_no, query, start) matches Some(ms) ==> {
            &&& forall|i: int| 0 <= i < ms.len() ==> (#[trigger] ms[i]).line == line_no && start <= ms[i].start_col
                < line.len()
            &&& forall|i: int, j: int| 0 <= i < j < ms.len() ==> match_before(#[trigger] ms[i], #[trigger] ms[j])
        },
    decreases line.len() - start,
{
    if 0 <= start <= line.len() && is_char_boundary(line, start) {
        let hay = utf8(crate::text::lowercase(chars_of(line.skip(start))));
        let needle = utf8(crate::text::lowercase(query));
        crate::text::lemma_find_from_bounds(hay, needle, 0);
        if let Some(pos) = find_from(hay, needle, 0) {
            let at = start + pos;
            let end = at + utf8(query).len();
            if !(end > usize::MAX || at + 1 > line.len()) {
                lemma_line_matches_order(line, line_no, query, at + 1);
                if let Some(rest) = line_matches(line, line_no, query, at + 1) {
                    let m = SearchMatch { line: line_no, start_col: at as usize, end_col: end as usize };
                    let ms = seq![m] + rest;
                    assert(line_matches(line, line_no, query, start) == Some(ms));
                    assert forall|i: int| 0 <= i < ms.len() implies (#[trigger] ms[i]).line == line_no && start
                        <= ms[i].start_col < line.len() by {
                        if i > 0 {
                            assert(ms[i] == rest[i - 1]);
                        }
                    }
                    assert forall|i: int, j: int| 0 <= i < j < ms.len() implies match_before(
                        #[trigger] ms[i],
                        #[trigger] ms[j],
                    ) by {
                        assert(ms[j] == rest[j - 1]);
                        if i > 0 {
                            assert(ms[i] == rest[i - 1]);
                        }
                    }
                }
            }
        }
    }
}

/// The matches of the first `n` lines lie on those lines, in reading order.
proof fn lemma_matches_upto_order(lines: Seq<Seq<u8>>, query: Seq<char>, n: int)
    requires
        n <= lines.len(),
        lines.len() <= usize::MAX,
    ensures
        matches_upto(lines, query, n) matches Some(ms) ==> {
            &&& forall|i: int| 0 <= i < ms.len() ==> (#[trigger] ms[i]).line < n && ms[i].start_col
                < lines[ms[i].line as int].len()
            &&& forall|i: int, j: int| 0 <= i < j < ms.len() ==> match_before(#[trigger] ms[i], #[trigger] ms[j])
        },
    decreases n,
{
    if n > 0 {
        lemma_matches_upto_order(lines, query, n - 1);
        lemma_line_matches_order(lines[n - 1], (n - 1) as usize, query, 0);
        if let (Some(a), Some(b)) = (matches_upto(lines, query, n - 1), line_matches(lines[n - 1], (n - 1) as usize, query, 0)) {
            let ms = a + b;
            assert forall|i: int| 0 <= i < ms.len() implies (#[trigger] ms[i]).line < n && ms[i].start_col
                < lines[ms[i].line as int].len() by {
                if i >= a.len() {
                    assert(ms[i] == b[i - a.len()]);
                } else {
                    assert(ms[i] == a[i]);
                }
            }
            assert forall|i: int, j: int| 0 <= i < j < ms.len() implies match_before(
                #[trigger] ms[i],
                #[trigger] ms[j],
            ) by {
                if j < a.len() {
                    assert(ms[i] == a[i] && ms[j] == a[j]);
                } else if i >= a.len() {
                    assert(ms[i] == b[i - a.len()] && ms[j] == b[j - a.len()]);
                } else {
                    assert(ms[i] == a[i] && ms[j] == b[j - a.len()]);
                }
            }
        }
    }
}

/// Every match the search finds starts inside an existing line, and the
/// matches come in reading order, so stepping to the next match moves
/// forward through the text (until it wraps around).
pub proof fn law_matches_in_reading_order(lines: Seq<Seq<u8>>, query: Seq<char>)
    requires
        lines.len() <= usize::MAX,
    ensures
        search_result(lines, query) matches Some(ms) ==> {
            &&& forall|i: int| 0 <= i < ms.len() ==> (#[trigger] ms[i]).line < lines.len() && ms[i].start_col
                < lines[ms[i].line as int].len()
            &&& forall|i: int, j: int| 0 <= i < j < ms.len() ==> match_before(#[trigger] ms[i], #[trigger] ms[j])
        },
{
    lemma_matches_upto_order(lines, query, lines.len() as int);
}

/// Opening a directory shows its entries right below it, one level deeper:
/// directories first, each group in name order, no hidden name but
/// ".gitignore"; the rows before it stay and the selection stays on it.
pub proof fn law_open_directory_order(t: TreeModel, entries: Seq<EntryModel>)
    requires
        t.on_closed_directory(),
    ensures
        ({
            let i = t.selected_row()->0;
            let u = t.expanded_with(entries);
            let k = sorted_entries(shown_entries(entries)).len();
            &&& u.selected == t.selected
            &&& u.nodes[i].expanded
            &&& forall|r: int| 0 <= r < i ==> #[trigger] u.nodes[r] == t.nodes[r]
            &&& forall|r: int|
                i < r <= i + k ==> (#[trigger] u.nodes[r]).depth == t.nodes[i].depth + 1 && shown_name(u.nodes[r].name)
            &&& forall|a: int, b: int|
                i < a < b <= i + k ==> {
                    let x = #[trigger] u.nodes[a];
                    let y = #[trigger] u.nodes[b];
                    &&& !(y.is_dir && !x.is_dir)
                    &&& x.is_dir == y.is_dir ==> !name_before(y.name, x.name)
                }
        }),
{
    let i = t.selected_row()->0;
    let d = t.nodes[i].depth;
    let sh = shown_entries(entries);
    lemma_shown_entries(entries);
    lemma_sorted_entries(sh);
    let srt = sorted_entries(sh);
    let u = t.expanded_with(entries);
    let kids = srt.map_values(|e: EntryModel| child_at(e, (d + 1) as usize));
    assert forall|r: int| i < r <= i + srt.len() implies u.nodes[r] == child_at(srt[r - i - 1], (d + 1) as usize) by {
        assert(u.nodes[r] == kids[r - i - 1]);
    }
    assert forall|r: int| i < r <= i + srt.len() implies shown_name(#[trigger] u.nodes[r].name) by {
        assert(sh.contains(srt[r - i - 1]));
        let w = choose|w: int| 0 <= w < sh.len() && sh[w] == srt[r - i - 1];
        assert(shown_name(sh[w].name));
    }
    assert forall|r: int| 0 <= r < i implies #[trigger] u.nodes[r] == t.nodes[r] by {}
}

/// `n` presses of Up, one after another.
pub open spec fn presses_up(b: BufferModel, n: nat) -> BufferModel
    decreases n,
{
    if n == 0 {
        b
    } else {
        presses_up(b.moved_to(step_up(b.lines, b.cursor)), (n - 1) as nat)
    }
}

/// `n` steps up from a line of the buffer land `n` lines higher, or on the
/// first line.
proof fn lemma_steps_up_line(lines: Seq<Seq<u8>>, c: Cursor, n: nat)
    requires
        c.line < lines.len(),
    ensures
        steps_up(lines, c, n).line == (if c.line >= n { c.line - n } else { 0 }),
        steps_up(lines, c, n).line < lines.len(),
    decreases n,
{
    if n > 0 {
        lemma_steps_up_line(lines, step_up(lines, c), (n - 1) as nat);
    }
}

/// `n` presses of Up, for `n` at least one, end where `n` steps up end.
proof fn lemma_presses_up(b: BufferModel, n: nat)
    requires
        n >= 1,
    ensures
        presses_up(b, n) == b.moved_to(steps_up(b.lines, b.cursor, n)),
    decreases n,
{
    let b1 = b.moved_to(step_up(b.lines, b.cursor));
    if n == 1 {
        assert(steps_up(b.lines, step_up(b.lines, b.cursor), 0) == step_up(b.lines, b.cursor));
        assert(presses_up(b1, 0) == b1);
    } else {
        lemma_presses_up(b1, (n - 1) as nat);
        assert(b1.moved_to(steps_up(b1.lines, b1.cursor, (n - 1) as nat)) == b.moved_to(
            steps_up(b.lines, b.cursor, n),
        ));
    }
}

/// Page Up on a screen of `h` lines is `h - 1` presses of Up: it lands on
/// the same cursor, `h - 1` lines higher or on the first line, and drops the
/// extra cursors; lines, selection and the changed mark stay.
pub proof fn law_page_up_is_repeated_up(b: BufferModel, h: usize)
    requires
        b.cursor.line < b.lines.len(),
    ensures
        ({
            let n = h.saturating_sub(1) as nat;
            let paged = b.moved_to(steps_up(b.lines, b.cursor, n));
            &&& paged.cursor == presses_up(b, n).cursor
            &&& n >= 1 ==> paged == presses_up(b, n)
            &&& paged.cursor.line == (if b.cursor.line >= n { b.cursor.line - n } else { 0 })
            &&& paged.cursors.len() == 0
            &&& paged.lines == b.lines
            &&& paged.selection == b.selection
            &&& paged.dirty == b.dirty
        }),
{
    let n = h.saturating_sub(1) as nat;
    lemma_steps_up_line(b.lines, b.cursor, n);
    if n >= 1 {
        lemma_presses_up(b, n);
    } else {
        assert(steps_up(b.lines, b.cursor, 0) == b.cursor);
        assert(presses_up(b, 0) == b);
    }
}

/// Where `find_from` finds nothing, `needle` occurs nowhere from `from` on.
proof fn lemma_find_from_none(hay: Seq<u8>, needle: Seq<u8>, from: int, p: int)
    requires
        0 <= from <= p,
        find_from(hay, needle, from) is None,
    ensures
        !occurs_at(hay, needle, p),
    decreases p - from,
{
    if from < p && from + needle.len() <= hay.len() {
        lemma_find_from_none(hay, needle, from + 1, p);
    }
}

/// Splitting `s` at newlines, dropping the carriage returns and joining the
/// lines with the ending that every newline of `s` has gives `s` back.
proof fn lemma_rejoin(s: Seq<u8>, crlf: bool)
    requires
        s.len() == 0 || s.last() != 13u8,
        forall|k: int|
            0 <= k < s.len() && #[trigger] s[k] == 10u8 ==> (crlf <==> (k > 0 && s[k - 1] == 13u8)),
    ensures
        joined(content_lines(s), ending_bytes(crlf)) == s,
    decreases s.len(),
{
    let sep = ending_bytes(crlf);
    crate::text::lemma_find_from_bounds(s, seq![10u8], 0);
    match find_from(s, seq![10u8], 0) {
        None => {
            assert(split_lines(s) == seq![s]);
            assert(strip_cr(s) == s);
            assert(content_lines(s) =~= seq![s]);
        },
        Some(i) => {
            assert(s.subrange(i, i + 1)[0] == s[i]);
            assert(s[i] == 10u8);
            let rest = s.skip(i + 1);
            assert forall|k: int|
                0 <= k < rest.len() && #[trigger] rest[k] == 10u8 implies (crlf <==> (k > 0 && rest[k
                - 1] == 13u8)) by {
                assert(rest[k] == s[k + i + 1]);
                if k > 0 {
                    assert(rest[k - 1] == s[k + i]);
                }
            }
            if rest.len() > 0 {
                assert(rest.last() == s.last());
            }
            lemma_rejoin(rest, crlf);
            let head = s.take(i);
            assert(split_lines(s) == seq![head] + split_lines(rest));
            let f = |l: Seq<u8>| strip_cr(l);
            assert((seq![head] + split_lines(rest)).map_values(f) =~= seq![strip_cr(head)]
                + split_lines(rest).map_values(f));
            let cl = content_lines(rest);
            assert(content_lines(s) == seq![strip_cr(head)] + cl);
            assert(split_lines(rest).len() >= 1);
            assert(cl.len() >= 1);
            let all = seq![strip_cr(head)] + cl;
            lemma_joined_first(all, sep);
            assert(all[0] == strip_cr(head));
            assert(all.drop_first() =~= cl);
            if crlf {
                assert(i > 0 && s[i - 1] == 13u8);
                assert(strip_cr(head) =~= s.take(i - 1));
                assert(strip_cr(head) + sep =~= s.take(i + 1));
            } else {
                assert(!(i > 0 && s[i - 1] == 13u8));
                assert(strip_cr(head) == head);
                assert(strip_cr(head) + sep =~= s.take(i + 1));
            }
            assert(s.take(i + 1) + rest =~= s);
        },
    }
}

/// Opening a file and saving it untouched writes the same bytes, when the
/// file does not end in a carriage return and either has no "\r\n" or has a
/// carriage return before every newline.
pub proof fn law_open_then_save(s: Seq<u8>)
    requires
        s.len() == 0 || s.last() != 13u8,
        find_from(s, seq![13u8, 10u8], 0) is None || forall|k: int|
            0 <= k < s.len() && #[trigger] s[k] == 10u8 ==> k > 0 && s[k - 1] == 13u8,
    ensures
        joined(
            content_lines(s),
            utf8(if find_from(s, seq![13u8, 10u8], 0) is Some { "\r\n"@ } else { "\n"@ }),
        ) == s,
{
    reveal_strlit("\r\n");
    reveal_strlit("\n");
    lemma_utf8_ascii_char('\r');
    lemma_utf8_ascii_char('\n');
    lemma_utf8_concat(seq!['\r'], seq!['\n']);
    assert("\r\n"@ =~= seq!['\r'] + seq!['\n']);
    assert("\n"@ =~= seq!['\n']);
    let crlf = find_from(s, seq![13u8, 10u8], 0) is Some;
    assert(utf8(if crlf { "\r\n"@ } else { "\n"@ }) =~= ending_bytes(crlf));
    if !crlf {
        assert forall|k: int| 0 <= k < s.len() && #[trigger] s[k] == 10u8 implies !(k > 0 && s[k
            - 1] == 13u8) by {
            if k > 0 && s[k - 1] == 13u8 {
                lemma_find_from_none(s, seq![13u8, 10u8], 0, k - 1);
                assert(s.subrange(k - 1, k + 1) =~= seq![13u8, 10u8]);
            }
        }
    }
    lemma_rejoin(s, crlf);
}

/// Every byte of every line is ASCII and none is a newline.
pub open spec fn ascii_lines(lines: Seq<Seq<u8>>) -> bool {
    forall|i: int, k: int|
        0 <= i < lines.len() && 0 <= k < lines[i].len() ==> #[trigger] lines[i][k] < 10u8 || (
        10u8 < lines[i][k] && lines[i][k] < 128u8)
}

/// The characters of ASCII bytes.
pub open spec fn ascii_chars(b: Seq<u8>) -> Seq<char> {
    b.map_values(|x: u8| x as char)
}

/// ASCII bytes are the encoding of their characters, are valid UTF-8, and
/// have a character boundary everywhere.
proof fn lemma_ascii_utf8(b: Seq<u8>)
    requires
        ascii_bytes(b),
    ensures
        utf8(ascii_chars(b)) == b,
        valid_utf8(b),
        forall|i: int| 0 <= i <= b.len() ==> is_char_boundary(b, i),
    decreases b.len(),
{
    if b.len() == 0 {
        assert(ascii_chars(b) =~= Seq::<char>::empty());
        lemma_utf8_empty(ascii_chars(b));
    } else {
        let d = b.drop_last();
        lemma_ascii_utf8(d);
        let x = b.last();
        let c = x as char;
        assert(ascii_chars(b) =~= ascii_chars(d) + seq![c]);
        lemma_utf8_concat(ascii_chars(d), seq![c]);
        lemma_utf8_ascii_char(c);
        assert(c as u8 == x);
        assert(utf8(ascii_chars(b)) =~= b);
    }
    lemma_utf8_valid(ascii_chars(b));
    assert forall|i: int| 0 <= i <= b.len() implies is_char_boundary(b, i) by {
        if i < b.len() {
            crate::text::lemma_ascii_byte_boundary(b, i);
        }
    }
}

/// Typing one more character after a text is typing the text and then
/// that character.
proof fn lemma_insert_chars_push(m: BufferModel, t: Seq<char>, ch: char)
    ensures
        m.insert_chars(t.push(ch)) == m.insert_chars(t).insert_char(ch),
        m.insert_chars_ok(t.push(ch)) == (m.insert_chars_ok(t) && m.insert_chars(t).insert_char_ok(
            ch,
        )),
    decreases t.len(),
{
    let e = Seq::<char>::empty();
    if t.len() == 0 {
        assert(t.push(ch).drop_first() =~= e);
        assert(t.push(ch)[0] == ch);
        assert(m.insert_char(ch).insert_chars(e) == m.insert_char(ch));
        assert(m.insert_char(ch).insert_chars_ok(e));
        assert(m.insert_chars(t.push(ch)) == m.insert_char(ch).insert_chars(e));
        assert(m.insert_chars(t) == m);
    } else {
        let m1 = m.insert_char(t[0]);
        lemma_insert_chars_push(m1, t.drop_first(), ch);
        assert(t.push(ch).drop_first() =~= t.drop_first().push(ch));
        assert(t.push(ch)[0] == t[0]);
        assert(m.insert_chars(t.push(ch)) == m1.insert_chars(t.drop_first().push(ch)));
        assert(m.insert_chars(t) == m1.insert_chars(t.drop_first()));
        assert(m.insert_chars_ok(t.push(ch)) == (m.insert_char_ok(t[0]) && m1.insert_chars_ok(
            t.drop_first().push(ch),
        )));
    }
}

/// The rows that typing the bytes `t` makes out of a row `a`: a newline
/// starts a new empty row, any other byte goes to the end of the last row.
pub open spec fn typed_rows(a: Seq<u8>, t: Seq<u8>) -> Seq<Seq<u8>>
    decreases t.len(),
{
    if t.len() == 0 {
        seq![a]
    } else {
        let r = typed_rows(a, t.drop_last());
        if t.last() == 10u8 {
            r.push(Seq::<u8>::empty())
        } else {
            r.update(r.len() - 1, r.last().push(t.last()))
        }
    }
}

/// There is always a last row, and ASCII input gives ASCII rows.
proof fn lemma_rows_shape(a: Seq<u8>, t: Seq<u8>)
    ensures
        typed_rows(a, t).len() >= 1,
        typed_rows(a, t).len() <= t.len() + 1,
        typed_rows(a, t).last().len() <= a.len() + t.len(),
        t.len() > 0 ==> typed_rows(a, t.drop_last()).len() <= typed_rows(a, t).len(),
        ascii_bytes(a) && ascii_bytes(t) ==> forall|i: int|
            0 <= i < typed_rows(a, t).len() ==> ascii_bytes(#[trigger] typed_rows(a, t)[i]),
    decreases t.len(),
{
    if t.len() > 0 {
        lemma_rows_shape(a, t.drop_last());
        if ascii_bytes(a) && ascii_bytes(t) {
            let r = typed_rows(a, t.drop_last());
            assert(ascii_bytes(t.drop_last()));
            assert(ascii_bytes(r.last()));
            assert(ascii_bytes(r.last().push(t.last())));
        }
    }
}

/// Bytes without a newline all go to the one row.
proof fn lemma_rows_flat(a: Seq<u8>, w: Seq<u8>)
    requires
        forall|k: int| 0 <= k < w.len() ==> #[trigger] w[k] != 10u8,
    ensures
        typed_rows(a, w) == seq![a + w],
    decreases w.len(),
{
    if w.len() > 0 {
        lemma_rows_flat(a, w.drop_last());
        assert((a + w.drop_last()).push(w.last()) =~= a + w);
    } else {
        assert(a + w =~= a);
    }
}

/// Typing `u` and then `v` continues from the last row that `u` left.
proof fn lemma_rows_concat(a: Seq<u8>, u: Seq<u8>, v: Seq<u8>)
    ensures
        typed_rows(a, u + v) == typed_rows(a, u).drop_last() + typed_rows(typed_rows(a, u).last(), v),
    decreases v.len(),
{
    lemma_rows_shape(a, u);
    let r = typed_rows(a, u);
    if v.len() == 0 {
        assert(u + v =~= u);
        assert(r.drop_last() + seq![r.last()] =~= r);
    } else {
        lemma_rows_concat(a, u, v.drop_last());
        assert((u + v).drop_last() =~= u + v.drop_last());
        assert((u + v).last() == v.last());
        let q = typed_rows(r.last(), v.drop_last());
        lemma_rows_shape(r.last(), v.drop_last());
        if v.last() == 10u8 {
            assert((r.drop_last() + q).push(Seq::<u8>::empty()) =~= r.drop_last() + q.push(
                Seq::<u8>::empty(),
            ));
        } else {
            let w = r.drop_last() + q;
            assert(w.last() == q.last());
            assert(w.update(w.len() - 1, w.last().push(v.last())) =~= r.drop_last() + q.update(
                q.len() - 1,
                q.last().push(v.last()),
            ));
        }
    }
}

/// Typing whole lines, each followed by a newline, from an empty row gives
/// those lines and a new empty row.
proof fn lemma_rows_joined(lines: Seq<Seq<u8>>, from: int, to: int)
    requires
        0 <= from <= to <= lines.len(),
        ascii_lines(lines),
    ensures
        typed_rows(Seq::<u8>::empty(), lines_joined(lines, from, to)) == lines.subrange(
            from,
            to,
        ).push(Seq::<u8>::empty()),
        ascii_bytes(lines_joined(lines, from, to)),
    decreases to - from,
{
    let e = Seq::<u8>::empty();
    if to <= from {
        assert(lines_joined(lines, from, to) =~= e);
        assert(lines.subrange(from, to).push(e) =~= seq![e]);
    } else {
        lemma_rows_joined(lines, from, to - 1);
        let j = lines_joined(lines, from, to - 1);
        let w = lines[to - 1];
        assert forall|k: int| 0 <= k < w.len() implies #[trigger] w[k] != 10u8 && w[k] < 128u8 by {
            assert(lines[to - 1][k] < 10u8 || (10u8 < lines[to - 1][k] && lines[to - 1][k] < 128u8));
        }
        assert(lines_joined(lines, from, to) == j + w + seq![10u8]);
        assert(j + w + seq![10u8] =~= j + (w + seq![10u8]));
        lemma_rows_concat(e, j, w + seq![10u8]);
        assert((w + seq![10u8]).drop_last() =~= w);
        lemma_rows_flat(e, w);
        assert(e + w =~= w);
        assert(typed_rows(e, w + seq![10u8]) =~= seq![w, e]);
        assert(lines.subrange(from, to - 1).push(e).drop_last() =~= lines.subrange(from, to - 1));
        assert(lines.subrange(from, to - 1) + seq![w, e] =~= lines.subrange(from, to).push(e));
        assert(ascii_bytes(lines_joined(lines, from, to)));
    }
}

/// Typing ASCII bytes `t` where there is no selection: the cursor's line is
/// cut at the cursor, the typed rows come between the two halves, and the
/// cursor ends behind the last typed byte.
proof fn lemma_typing(m: BufferModel, t: Seq<u8>)
    requires
        m.selection is None,
        m.cursor.line < m.lines.len(),
        m.cursor.col <= m.lines[m.cursor.line as int].len(),
        ascii_bytes(m.lines[m.cursor.line as int]),
        ascii_bytes(t),
        m.cursor.col + t.len() <= usize::MAX,
        m.cursor.line + typed_rows(m.lines[m.cursor.line as int].take(m.cursor.col as int), t).len()
            - 1 <= usize::MAX,
    ensures
        ({
            let l = m.cursor.line as int;
            let line = m.lines[l];
            let rows = typed_rows(line.take(m.cursor.col as int), t);
            let z = line.skip(m.cursor.col as int);
            let r = m.insert_chars(ascii_chars(t));
            &&& m.insert_chars_ok(ascii_chars(t))
            &&& r.lines == m.lines.take(l) + rows.update(rows.len() - 1, rows.last() + z)
                + m.lines.skip(l + 1)
            &&& r.cursor == (Cursor {
                line: (l + rows.len() - 1) as usize,
                col: rows.last().len() as usize,
            })
            &&& r.selection is None
        }),
    decreases t.len(),
{
    let l = m.cursor.line as int;
    let line = m.lines[l];
    let a = line.take(m.cursor.col as int);
    let z = line.skip(m.cursor.col as int);
    lemma_rows_shape(a, t);
    assert(ascii_bytes(a));
    assert(ascii_bytes(z));
    if t.len() == 0 {
        assert(ascii_chars(t) =~= Seq::<char>::empty());
        assert(m.insert_chars(ascii_chars(t)) == m);
        assert(typed_rows(a, t) == seq![a]);
        assert(a + z =~= line);
        assert(m.lines.take(l) + seq![line] + m.lines.skip(l + 1) =~= m.lines);
        assert(seq![a].update(0, a + z) =~= seq![line]);
    } else {
        let t1 = t.drop_last();
        let x = t.last();
        assert(ascii_bytes(t1));
        lemma_typing(m, t1);
        lemma_rows_shape(a, t1);
        let r1 = m.insert_chars(ascii_chars(t1));
        let rows1 = typed_rows(a, t1);
        let k = rows1.len() - 1;
        let last1 = rows1.last();
        let ch = x as char;
        assert(ascii_chars(t) =~= ascii_chars(t1).push(ch));
        lemma_insert_chars_push(m, ascii_chars(t1), ch);
        let lines1 = r1.lines;
        let mid1 = rows1.update(k, last1 + z);
        assert(lines1 == m.lines.take(l) + mid1 + m.lines.skip(l + 1));
        assert(lines1[l + k] == last1 + z);
        assert(ascii_bytes(last1));
        assert(ascii_bytes(last1 + z));
        lemma_ascii_utf8(last1 + z);
        assert(r1.delete_selection() == r1);
        assert(r1.insert_char_ok(ch));
        let cur = last1 + z;
        assert(cur.take(last1.len() as int) =~= last1);
        assert(cur.skip(last1.len() as int) =~= z);
        let r = r1.insert_char(ch);
        if x == 10u8 {
            assert(ch == '\n');
            let rows = rows1.push(Seq::<u8>::empty());
            assert(typed_rows(a, t) == rows);
            assert(rows.update(rows.len() - 1, rows.last() + z) =~= rows1.push(z));
            assert(lines1.take(l + k) =~= m.lines.take(l) + rows1.take(k));
            assert(lines1.skip(l + k + 1) =~= m.lines.skip(l + 1));
            assert(r.lines =~= m.lines.take(l) + rows1.push(z) + m.lines.skip(l + 1));
        } else {
            assert(ch != '\n');
            lemma_utf8_ascii_char(ch);
            assert(ch as u8 == x);
            let rows = rows1.update(k, last1.push(x));
            assert(typed_rows(a, t) == rows);
            assert(last1 + utf8(seq![ch]) + z =~= last1.push(x) + z);
            assert(rows.update(k, rows.last() + z) =~= rows1.update(k, last1.push(x) + z));
            assert(r.lines =~= m.lines.take(l) + rows.update(k, rows.last() + z) + m.lines.skip(
                l + 1,
            ));
        }
    }
}

/// The rows that typing a selected text spanning lines `sl` to `el` makes
/// from the part of line `sl` before the selection are those lines, with
/// the last one cut at the selection's end.
proof fn lemma_selected_rows(lines: Seq<Seq<u8>>, sl: int, sc: int, el: int, ec: int)
    requires
        ascii_lines(lines),
        0 <= sl < el < lines.len(),
        0 <= sc <= lines[sl].len(),
        0 <= ec <= lines[el].len(),
    ensures
        ({
            let bytes = lines[sl].skip(sc) + seq![10u8] + lines_joined(lines, sl + 1, el)
                + lines[el].take(ec);
            let rows = typed_rows(lines[sl].take(sc), bytes);
            &&& ascii_bytes(bytes)
            &&& rows.len() == el - sl + 1
            &&& rows.last() == lines[el].take(ec)
            &&& rows.update(rows.len() - 1, rows.last() + lines[el].skip(ec)) == lines.subrange(
                sl,
                el + 1,
            )
        }),
{
    let ls = lines[sl];
    let le = lines[el];
    let a = ls.take(sc);
    let p0 = ls.skip(sc);
    let j = lines_joined(lines, sl + 1, el);
    let pe = le.take(ec);
    let nl = seq![10u8];
    let bytes = p0 + nl + j + pe;
    assert forall|k: int| 0 <= k < p0.len() implies #[trigger] p0[k] != 10u8 && p0[k] < 128u8 by {
        assert(p0[k] == ls[k + sc]);
        assert(lines[sl][k + sc] < 10u8 || (10u8 < lines[sl][k + sc] && lines[sl][k + sc] < 128u8));
    }
    assert forall|k: int| 0 <= k < pe.len() implies #[trigger] pe[k] != 10u8 && pe[k] < 128u8 by {
        assert(pe[k] == le[k]);
        assert(lines[el][k] < 10u8 || (10u8 < lines[el][k] && lines[el][k] < 128u8));
    }
    lemma_rows_joined(lines, sl + 1, el);
    assert(ascii_bytes(bytes)) by {
        assert forall|k: int| 0 <= k < bytes.len() implies #[trigger] bytes[k] < 128u8 by {
            if k < p0.len() {
                assert(bytes[k] == p0[k]);
            } else if k == p0.len() {
                assert(bytes[k] == 10u8);
            } else if k < p0.len() + 1 + j.len() {
                assert(bytes[k] == j[k - p0.len() - 1]);
            } else {
                assert(bytes[k] == pe[k - p0.len() - 1 - j.len()]);
            }
        }
    }
    let e0 = Seq::<u8>::empty();
    let u = p0 + nl;
    let v = j + pe;
    assert(bytes =~= u + v);
    lemma_rows_concat(a, u, v);
    assert(u.drop_last() =~= p0);
    lemma_rows_flat(a, p0);
    assert(typed_rows(a, u) == seq![a + p0].push(e0));
    assert(seq![a + p0].push(e0).drop_last() =~= seq![a + p0]);
    lemma_rows_concat(e0, j, pe);
    let mids = lines.subrange(sl + 1, el);
    assert(mids.push(e0).drop_last() =~= mids);
    lemma_rows_flat(e0, pe);
    assert(e0 + pe =~= pe);
    assert(typed_rows(e0, v) == mids + seq![pe]);
    let rows = seq![a + p0] + (mids + seq![pe]);
    assert(typed_rows(a, bytes) == rows);
    assert(a + p0 =~= ls);
    assert(pe + le.skip(ec) =~= le);
    assert(rows.update(rows.len() - 1, pe + le.skip(ec)) =~= lines.subrange(sl, el + 1));
}

/// Deleting a selection and typing the selected text back gives the lines
/// one started from, with the cursor at the far end of the old selection,
/// for text that is ASCII. A line and a text never hold more than
/// `isize::MAX` bytes.
pub proof fn law_reinsert_selection(b: BufferModel, t: Seq<char>)
    requires
        ascii_lines(b.lines),
        b.selection is Some,
        b.selection_ok(),
        b.selected_bytes() == Some(utf8(t)),
        utf8(t).len() <= isize::MAX,
        b.lines[b.selection->0.ordered().0.line as int].len() <= isize::MAX,
    ensures
        b.delete_selection().insert_chars_ok(t),
        b.delete_selection().insert_chars(t).lines == b.lines,
        b.delete_selection().insert_chars(t).cursor == b.selection->0.ordered().1,
        b.delete_selection().insert_chars(t).selection is None,
{
    let (s, e) = b.selection->0.ordered();
    let lines = b.lines;
    let sl = s.line as int;
    let el = e.line as int;
    let sc = s.col as int;
    let ec = e.col as int;
    let ls = lines[sl];
    let le = lines[el];
    assert(ascii_bytes(ls));
    assert(ascii_bytes(le));
    lemma_ascii_utf8(ls);
    lemma_ascii_utf8(le);
    crate::text::lemma_boundary_in_range(ls, sc);
    crate::text::lemma_boundary_in_range(le, ec);
    assert(sl < el || (sl == el && sc <= ec));
    let bytes = utf8(t);
    let m = b.delete_selection();
    let a = ls.take(sc);
    let z = le.skip(ec);
    assert(m.lines[sl] == a + z);
    assert((a + z).take(sc) =~= a);
    assert((a + z).skip(sc) =~= z);
    assert(ascii_bytes(a + z));
    assert(m.lines.take(sl) =~= lines.take(sl));
    assert(m.lines.skip(sl + 1) =~= lines.skip(el + 1));
    if sl == el {
        let w = ls.subrange(sc, ec);
        assert(bytes == w);
        assert forall|k: int| 0 <= k < w.len() implies #[trigger] w[k] != 10u8 && w[k] < 128u8 by {
            assert(w[k] == ls[k + sc]);
        }
        lemma_ascii_utf8(w);
        crate::text::lemma_utf8_injective(ascii_chars(w), t);
        lemma_rows_flat(a, w);
        lemma_typing(m, w);
        assert(a + w + z =~= ls);
        assert(seq![a + w].update(0, a + w + z) =~= seq![ls]);
        assert(lines.take(sl) + seq![ls] + lines.skip(sl + 1) =~= lines);
    } else {
        lemma_selected_rows(lines, sl, sc, el, ec);
        assert(bytes == ls.skip(sc) + seq![10u8] + lines_joined(lines, sl + 1, el) + le.take(ec));
        lemma_ascii_utf8(bytes);
        crate::text::lemma_utf8_injective(ascii_chars(bytes), t);
        lemma_typing(m, bytes);
        assert(lines.take(sl) + lines.subrange(sl, el + 1) + lines.skip(el + 1) =~= lines);
    }
}

/// No line holds a newline byte.
pub open spec fn flat_lines(lines: Seq<Seq<u8>>) -> bool {
    forall|i: int, k: int| 0 <= i < lines.len() && 0 <= k < lines[i].len() ==> #[trigger] lines[i][k] != 10u8
}

/// No byte of `b` is a newline.
pub open spec fn flat_bytes(b: Seq<u8>) -> bool {
    forall|k: int| 0 <= k < b.len() ==> #[trigger] b[k] != 10u8
}

/// A character other than a newline has no newline byte in its encoding.
proof fn lemma_char_without_newline(c: char)
    requires
        c != '\n',
    ensures
        flat_bytes(utf8(seq![c])),
{
    let s = seq![c];
    let v = c as u32;
    assert(s.drop_first() =~= Seq::<char>::empty());
    assert(utf8(s) =~= encode_scalar(v) + utf8(s.drop_first()));
    assert(utf8(s) =~= encode_scalar(v));
    if has_width_1_encoding(v) {
        assert(v != 10u32);
        assert((v & 0x7F) as u8 != 10u8) by (bit_vector)
            requires
                v <= 0x7F,
                v != 10u32,
        ;
    } else {
        assert(0xC0u8 | ((v >> 6) & 0x1F) as u8 != 10u8) by (bit_vector);
        assert(0xE0u8 | ((v >> 12) & 0x0F) as u8 != 10u8) by (bit_vector);
        assert(0xF0u8 | ((v >> 18) & 0x7) as u8 != 10u8) by (bit_vector);
        assert(0x80u8 | (v & 0x3F) as u8 != 10u8) by (bit_vector);
        assert(0x80u8 | ((v >> 6) & 0x3F) as u8 != 10u8) by (bit_vector);
        assert(0x80u8 | ((v >> 12) & 0x3F) as u8 != 10u8) by (bit_vector);
    }
}

/// Removing a character from a line without newline bytes leaves none.
proof fn lemma_remove_without_newline(line: Seq<u8>, i: int)
    requires
        valid_utf8(line),
        is_char_boundary(line, i),
        0 <= i < line.len(),
        flat_bytes(line),
    ensures
        flat_bytes(remove_char_at(line, i)),
{
    lemma_cut_valid(line, i);
    let x = line.skip(i);
    assert(x.len() > 0);
    assert(valid_utf8(x));
    let p = pop_first_scalar(x);
    assert(chars_of(x) == seq![decode_first_scalar(x) as char] + decode_utf8(p));
    assert(chars_of(x).drop_first() =~= decode_utf8(p));
    decode_utf8_encode_utf8(p);
    assert(utf8(chars_of(x).drop_first()) == p);
    let r = remove_char_at(line, i);
    assert forall|k: int| 0 <= k < r.len() implies #[trigger] r[k] != 10u8 by {
        if k < i {
            assert(r[k] == line[k]);
        } else {
            assert(r[k] == p[k - i]);
            assert(p[k - i] == x[k - i + length_of_first_scalar(x)]);
            assert(x[k - i + length_of_first_scalar(x)] == line[k + length_of_first_scalar(x)]);
        }
    }
}

/// The pieces that splitting at newlines gives hold no newline.
proof fn lemma_split_without_newline(b: Seq<u8>)
    ensures
        flat_lines(split_lines(b)),
    decreases b.len(),
{
    crate::text::lemma_find_from_bounds(b, seq![10u8], 0);
    match find_from(b, seq![10u8], 0) {
        None => {
            assert forall|k: int| 0 <= k < b.len() implies #[trigger] b[k] != 10u8 by {
                if b[k] == 10u8 {
                    lemma_find_from_none(b, seq![10u8], 0, k);
                    assert(b.subrange(k, k + 1) =~= seq![10u8]);
                }
            }
        },
        Some(i) => {
            lemma_split_without_newline(b.skip(i + 1));
            let head = b.take(i);
            assert forall|k: int| 0 <= k < head.len() implies #[trigger] head[k] != 10u8 by {
                if b[k] == 10u8 {
                    lemma_find_before(b, 0, i, k);
                }
            }
            let rest = split_lines(b.skip(i + 1));
            assert(split_lines(b) == seq![head] + rest);
            assert forall|j: int, k: int|
                0 <= j < split_lines(b).len() && 0 <= k < split_lines(b)[j].len() implies #[trigger] split_lines(
                b,
            )[j][k] != 10u8 by {
                if j == 0 {
                    assert(split_lines(b)[j] == head);
                } else {
                    assert(split_lines(b)[j] == rest[j - 1]);
                }
            }
        },
    }
}

/// Nothing before the first occurrence that `find_from` reports is an
/// occurrence.
proof fn lemma_find_before(b: Seq<u8>, from: int, p: int, k: int)
    requires
        0 <= from <= k < p,
        find_from(b, seq![10u8], from) == Some(p),
    ensures
        b[k] != 10u8,
    decreases k - from,
{
    if from + 1 <= b.len() && !occurs_at(b, seq![10u8], from) {
        if k == from {
            assert(b.subrange(from, from + 1) =~= seq![b[from]]);
        } else {
            lemma_find_before(b, from + 1, p, k);
        }
    } else if from + 1 <= b.len() {
        assert(p == from);
    }
}

/// The lines that opened text gives, and those that every edit leaves,
/// hold no newline byte: opening splits at newlines, typing a newline
/// splits the line, and removing text or joining lines adds none.
pub proof fn law_lines_hold_no_newline(b: BufferModel, ch: char, content: Seq<u8>)
    requires
        b.lines_valid(),
        flat_lines(b.lines),
    ensures
        flat_lines(content_lines(content)),
        b.selection_ok() ==> flat_lines(b.delete_selection().lines),
        b.insert_char_ok(ch) ==> flat_lines(b.insert_char(ch).lines),
        b.delete_backward_ok() ==> flat_lines(b.delete_backward().lines),
        b.delete_forward_ok() ==> flat_lines(b.delete_forward().lines),
{
    lemma_split_without_newline(content);
    let sp = split_lines(content);
    let cl = content_lines(content);
    assert forall|i: int, k: int| 0 <= i < cl.len() && 0 <= k < cl[i].len() implies #[trigger] cl[i][k]
        != 10u8 by {
        assert(cl[i] == strip_cr(sp[i]));
        assert(cl[i][k] == sp[i][k]);
    }
    if b.selection_ok() {
        lemma_flat_delete_selection(b);
    }
    if b.insert_char_ok(ch) {
        lemma_flat_delete_selection(b);
        let d = b.delete_selection();
        let l = d.cursor.line as int;
        let c = d.cursor.col as int;
        let line = d.lines[l];
        let m = b.insert_char(ch);
        assert(flat_bytes(line)) by {
            assert forall|k: int| 0 <= k < line.len() implies #[trigger] line[k] != 10u8 by {
                assert(d.lines[l][k] != 10u8);
            }
        }
        if ch == '\n' {
            assert forall|i: int, k: int| 0 <= i < m.lines.len() && 0 <= k < m.lines[i].len() implies #[trigger] m.lines[i][k]
                != 10u8 by {
                if i < l {
                    assert(m.lines[i] == d.lines[i]);
                } else if i == l {
                    assert(m.lines[i][k] == line[k]);
                } else if i == l + 1 {
                    assert(m.lines[i][k] == line[k + c]);
                } else {
                    assert(m.lines[i] == d.lines[i - 1]);
                }
            }
        } else {
            lemma_char_without_newline(ch);
            let u = utf8(seq![ch]);
            let nl = line.take(c) + u + line.skip(c);
            assert(m.lines == d.lines.update(l, nl));
            assert forall|i: int, k: int| 0 <= i < m.lines.len() && 0 <= k < m.lines[i].len() implies #[trigger] m.lines[i][k]
                != 10u8 by {
                if i != l {
                    assert(m.lines[i] == d.lines[i]);
                } else if k < c {
                    assert(nl[k] == line[k]);
                } else if k < c + u.len() {
                    assert(nl[k] == u[k - c]);
                } else {
                    assert(nl[k] == line[k - u.len()]);
                }
            }
        }
    }
    if b.delete_backward_ok() {
        let c = b.cursor;
        let l = c.line as int;
        let r = b.delete_backward();
        if b.selection is Some {
            lemma_flat_delete_selection(b);
        } else if c.col > 0 {
            let line = b.lines[l];
            assert(flat_bytes(line)) by {
                assert forall|k: int| 0 <= k < line.len() implies #[trigger] line[k] != 10u8 by {
                    assert(b.lines[l][k] != 10u8);
                }
            }
            lemma_remove_without_newline(line, c.col - 1);
            let x = remove_char_at(line, c.col - 1);
            assert forall|i: int, k: int| 0 <= i < r.lines.len() && 0 <= k < r.lines[i].len() implies #[trigger] r.lines[i][k]
                != 10u8 by {
                if i != l {
                    assert(r.lines[i] == b.lines[i]);
                } else {
                    assert(r.lines[i] == x);
                }
            }
        } else if c.line > 0 {
            let a = b.lines[l - 1];
            let z = b.lines[l];
            assert forall|i: int, k: int| 0 <= i < r.lines.len() && 0 <= k < r.lines[i].len() implies #[trigger] r.lines[i][k]
                != 10u8 by {
                if i < l - 1 {
                    assert(r.lines[i] == b.lines[i]);
                } else if i == l - 1 {
                    assert(r.lines[i] == a + z);
                    if k < a.len() {
                        assert(b.lines[l - 1][k] != 10u8);
                    } else {
                        assert(b.lines[l][k - a.len()] != 10u8);
                    }
                } else {
                    assert(r.lines[i] == b.lines[i + 1]);
                }
            }
        }
    }
    if b.delete_forward_ok() {
        let c = b.cursor;
        let l = c.line as int;
        let r = b.delete_forward();
        if b.selection is Some {
            lemma_flat_delete_selection(b);
        } else if c.col < b.lines[l].len() {
            let line = b.lines[l];
            assert(flat_bytes(line)) by {
                assert forall|k: int| 0 <= k < line.len() implies #[trigger] line[k] != 10u8 by {
                    assert(b.lines[l][k] != 10u8);
                }
            }
            lemma_remove_without_newline(line, c.col as int);
            let x = remove_char_at(line, c.col as int);
            assert forall|i: int, k: int| 0 <= i < r.lines.len() && 0 <= k < r.lines[i].len() implies #[trigger] r.lines[i][k]
                != 10u8 by {
                if i != l {
                    assert(r.lines[i] == b.lines[i]);
                } else {
                    assert(r.lines[i] == x);
                }
            }
        } else if l + 1 < b.lines.len() {
            let a = b.lines[l];
            let z = b.lines[l + 1];
            assert forall|i: int, k: int| 0 <= i < r.lines.len() && 0 <= k < r.lines[i].len() implies #[trigger] r.lines[i][k]
                != 10u8 by {
                if i < l {
                    assert(r.lines[i] == b.lines[i]);
                } else if i == l {
                    assert(r.lines[i] == a + z);
                    if k < a.len() {
                        assert(b.lines[l][k] != 10u8);
                    } else {
                        assert(b.lines[l + 1][k - a.len()] != 10u8);
                    }
                } else {
                    assert(r.lines[i] == b.lines[i + 1]);
                }
            }
        }
    }
}

/// Removing a selection from lines without newline bytes leaves none.
proof fn lemma_flat_delete_selection(b: BufferModel)
    requires
        b.lines_valid(),
        flat_lines(b.lines),
        b.selection_ok(),
    ensures
        flat_lines(b.delete_selection().lines),
{
    if let Some(sel) = b.selection {
        let (s, e) = sel.ordered();
        let sl = s.line as int;
        let el = e.line as int;
        let a = b.lines[sl].take(s.col as int);
        let z = b.lines[el].skip(e.col as int);
        lemma_boundary_in_range(b.lines[sl], s.col as int);
        lemma_boundary_in_range(b.lines[el], e.col as int);
        let r = b.delete_selection();
        assert(sl <= el);
        assert forall|i: int, k: int| 0 <= i < r.lines.len() && 0 <= k < r.lines[i].len() implies #[trigger] r.lines[i][k]
            != 10u8 by {
            if i < sl {
                assert(r.lines[i] == b.lines[i]);
            } else if i == sl {
                assert(r.lines[i] == a + z);
                if k < a.len() {
                    assert(b.lines[sl][k] != 10u8);
                } else {
                    assert(b.lines[el][k - a.len() + e.col] != 10u8);
                }
            } else {
                assert(r.lines[i] == b.lines[i + el - sl]);
            }
        }
    }
}

/// Typing a whole text, where it is defined, leaves no newline byte inside
/// a line either.
pub proof fn law_typing_keeps_no_newline(b: BufferModel, t: Seq<char>)
    requires
        b.lines.len() > 0,
        b.lines_valid(),
        flat_lines(b.lines),
        b.insert_chars_ok(t),
    ensures
        flat_lines(b.insert_chars(t).lines),
    decreases t.len(),
{
    if t.len() > 0 {
        let next = b.insert_char(t[0]);
        law_edits_keep_lines(b, t[0]);
        law_lines_hold_no_newline(b, t[0], Seq::<u8>::empty());
        law_typing_keeps_no_newline(next, t.drop_first());
    }
}

/// ASCII text takes one byte per character.
proof fn lemma_ascii_utf8_len(q: Seq<char>)
    requires
        all_ascii(q),
    ensures
        utf8(q).len() == q.len(),
    decreases q.len(),
{
    if q.len() > 0 {
        let d = q.drop_last();
        assert(all_ascii(d)) by {
            assert forall|i: int| 0 <= i < d.len() implies (#[trigger] d[i] as u32) < 128 by {
                assert(d[i] == q[i]);
            }
        }
        lemma_ascii_utf8_len(d);
        assert(q =~= d + seq![q.last()]);
        lemma_utf8_concat(d, seq![q.last()]);
        assert((q[q.len() - 1] as u32) < 128);
        lemma_utf8_ascii_char(q.last());
    }
}

/// One line's matches are the same for two queries that differ only in
/// the case of ASCII letters.
proof fn lemma_line_ignores_case(line: Seq<u8>, line_no: usize, q1: Seq<char>, q2: Seq<char>, start: int)
    requires
        ascii_folded(q1) == ascii_folded(q2),
        utf8(q1).len() == utf8(q2).len(),
    ensures
        ascii_line_matches(line, line_no, q1, start) == ascii_line_matches(line, line_no, q2, start),
    decreases line.len() - start,
{
    if 0 <= start <= line.len() && is_char_boundary(line, start) {
        let hay = utf8(ascii_folded(chars_of(line.skip(start))));
        let needle = utf8(ascii_folded(q1));
        crate::text::lemma_find_from_bounds(hay, needle, 0);
        if let Some(pos) = find_from(hay, needle, 0) {
            if start + pos + 1 <= line.len() {
                lemma_line_ignores_case(line, line_no, q1, q2, start + pos + 1);
            }
        }
    }
}

/// Searching ASCII text with two ASCII queries that differ only in the case
/// of letters finds the same matches.
pub proof fn law_search_ignores_case(lines: Seq<Seq<u8>>, q1: Seq<char>, q2: Seq<char>)
    requires
        all_ascii(q1),
        all_ascii(q2),
        ascii_folded(q1) == ascii_folded(q2),
    ensures
        ascii_search(lines, q1) == ascii_search(lines, q2),
{
    lemma_ascii_utf8_len(q1);
    lemma_ascii_utf8_len(q2);
    assert(q1.len() == ascii_folded(q1).len());
    lemma_upto_ignores_case(lines, q1, q2, lines.len() as int);
}

/// The matches in the first `n` lines are the same for two queries that
/// differ only in the case of ASCII letters.
proof fn lemma_upto_ignores_case(lines: Seq<Seq<u8>>, q1: Seq<char>, q2: Seq<char>, n: int)
    requires
        ascii_folded(q1) == ascii_folded(q2),
        utf8(q1).len() == utf8(q2).len(),
    ensures
        ascii_matches_upto(lines, q1, n) == ascii_matches_upto(lines, q2, n),
    decreases n,
{
    if n > 0 {
        lemma_upto_ignores_case(lines, q1, q2, n - 1);
        lemma_line_ignores_case(lines[n - 1], (n - 1) as usize, q1, q2, 0);
    }
}

/// The key `code` held with `mods`.
pub open spec fn key_with(code: KeyCode, mods: Modifiers) -> KeyEvent {
    KeyEvent { code, modifiers: mods }
}

/// The bytes the shell is sent, if any.
pub open spec fn sent(e: EffectModel) -> Option<Seq<u8>> {
    match e {
        EffectModel::WriteShell(b) => Some(b),
        _ => None,
    }
}

/// With the terminal focused, an arrow key that is not a Control chord
/// sends the shell the terminal's cursor sequence for that same direction
/// (ESC [ A up, ESC [ B down, ESC [ C right, ESC [ D left) and changes
/// nothing else; the editor passes it on so while the terminal has focus.
pub proof fn law_terminal_arrows(m: AppModel, mods: Modifiers)
    requires
        !mods.control_only(),
    ensures
        m.terminal_key(key_with(KeyCode::Up, mods)).0 == m,
        m.terminal_key(key_with(KeyCode::Down, mods)).0 == m,
        m.terminal_key(key_with(KeyCode::Right, mods)).0 == m,
        m.terminal_key(key_with(KeyCode::Left, mods)).0 == m,
        sent(m.terminal_key(key_with(KeyCode::Up, mods)).1) == Some(seq![27u8, 91u8, 65u8]),
        sent(m.terminal_key(key_with(KeyCode::Down, mods)).1) == Some(seq![27u8, 91u8, 66u8]),
        sent(m.terminal_key(key_with(KeyCode::Right, mods)).1) == Some(seq![27u8, 91u8, 67u8]),
        sent(m.terminal_key(key_with(KeyCode::Left, mods)).1) == Some(seq![27u8, 91u8, 68u8]),
        !m.filetree_focused && m.term_panel.visible && m.term_panel.focused ==> sent(
            m.normal_key(key_with(KeyCode::Right, mods)).1,
        ) == Some(seq![27u8, 91u8, 67u8]),
        !m.filetree_focused && m.term_panel.visible && m.term_panel.focused ==> sent(
            m.normal_key(key_with(KeyCode::Left, mods)).1,
        ) == Some(seq![27u8, 91u8, 68u8]),
        !m.filetree_focused && m.term_panel.visible && m.term_panel.focused ==> sent(
            m.normal_key(key_with(KeyCode::Up, mods)).1,
        ) == Some(seq![27u8, 91u8, 65u8]),
        !m.filetree_focused && m.term_panel.visible && m.term_panel.focused ==> sent(
            m.normal_key(key_with(KeyCode::Down, mods)).1,
        ) == Some(seq![27u8, 91u8, 66u8]),
{
}

/// An entry is shown exactly when it is among the entries and matches.
proof fn lemma_shown_iff(es: Seq<(Seq<char>, Seq<char>)>, q: Seq<char>, x: (Seq<char>, Seq<char>))
    ensures
        crate::cmd_palette::shown_entries(es, q).contains(x) <==> es.contains(x)
            && crate::cmd_palette::shown_for(x, q),
    decreases es.len(),
{
    if es.len() > 0 {
        let init = es.drop_last();
        lemma_shown_iff(init, q, x);
        assert(es =~= init.push(es.last()));
        if es.contains(x) && x != es.last() {
            let k = choose|k: int| 0 <= k < es.len() && es[k] == x;
            assert(k < es.len() - 1);
            assert(init[k] == x);
        }
        if init.contains(x) {
            let k = choose|k: int| 0 <= k < init.len() && init[k] == x;
            assert(es[k] == x);
        }
        let sh = crate::cmd_palette::shown_entries(init, q);
        if crate::cmd_palette::shown_for(es.last(), q) {
            assert(sh.push(es.last())[sh.len() as int] == es.last());
            if sh.push(es.last()).contains(x) && x != es.last() {
                let k = choose|k: int| 0 <= k < sh.len() + 1 && sh.push(es.last())[k] == x;
                assert(sh[k] == x);
            }
            if sh.contains(x) {
                let k = choose|k: int| 0 <= k < sh.len() && sh[k] == x;
                assert(sh.push(es.last())[k] == x);
            }
        }
    }
}

/// The palette lists every command for an empty query. For any other
/// query it lists a command exactly when the lowercased query occurs in
/// the command's name or in its lowercased description; every listed entry
/// is one of the commands.
pub proof fn law_palette_lists_matching_commands(query: Seq<char>)
    ensures
        query.len() == 0 ==> listed(query) == crate::cmd_palette::command_table(),
        query.len() > 0 ==> forall|x: (Seq<char>, Seq<char>)|
            #![trigger listed(query).contains(x)]
            crate::cmd_palette::command_table().contains(x) && (crate::text::contains_seq(
                x.0,
                crate::text::lowercase(query),
            ) || crate::text::contains_seq(crate::text::lowercase(x.1), crate::text::lowercase(query)))
                ==> listed(query).contains(x),
        query.len() > 0 ==> forall|x: (Seq<char>, Seq<char>)|
            #![trigger listed(query).contains(x)]
            listed(query).contains(x) ==> crate::cmd_palette::command_table().contains(x) && (
            crate::text::contains_seq(x.0, crate::text::lowercase(query)) || crate::text::contains_seq(
                crate::text::lowercase(x.1),
                crate::text::lowercase(query),
            )),
{
    if query.len() > 0 {
        assert forall|x: (Seq<char>, Seq<char>)|
            #![trigger listed(query).contains(x)]
            listed(query).contains(x) <==> crate::cmd_palette::command_table().contains(x) && (
            crate::text::contains_seq(x.0, crate::text::lowercase(query)) || crate::text::contains_seq(
                crate::text::lowercase(x.1),
                crate::text::lowercase(query),
            )) by {
            lemma_shown_iff(crate::cmd_palette::command_table(), crate::text::lowercase(query), x);
        }
    }
}

/// The paths of a list of files.
pub open spec fn paths_of(fs: Seq<(Seq<char>, Seq<char>)>) -> Seq<Seq<char>> {
    fs.map_values(|f: (Seq<char>, Seq<char>)| f.0)
}

/// The paths of an optional list of files.
pub open spec fn opt_paths(t: Option<Seq<(Seq<char>, Seq<char>)>>) -> Option<Seq<Seq<char>>> {
    match t {
        Some(fs) => Some(paths_of(fs)),
        None => None,
    }
}

/// The starter files follow the language, whatever its case: each name of
/// a language gives that language's files, listed here by their paths; any
/// other language gives none.
pub proof fn law_templates_follow_language(name: Seq<char>, lang: Seq<char>)
    ensures
        ({
            let l = crate::text::lowercase(lang);
            let t = crate::ai_project::template_for(name, l);
            &&& (l == "rust"@ || l == "rs"@) ==> opt_paths(t) == Some(seq![
                "Cargo.toml"@,
                "src/main.rs"@,
                ".gitignore"@,
                "README.md"@,
            ])
            &&& (l == "python"@ || l == "py"@) ==> opt_paths(t) == Some(seq![
                "README.md"@,
                "requirements.txt"@,
                "src/__init__.py"@,
                "src/main.py"@,
                ".gitignore"@,
            ])
            &&& (l == "javascript"@ || l == "js"@) ==> opt_paths(t) == Some(seq![
                "package.json"@,
                "src/index.js"@,
                "README.md"@,
                ".gitignore"@,
            ])
            &&& (l == "typescript"@ || l == "ts"@) ==> opt_paths(t) == Some(seq![
                "package.json"@,
                "tsconfig.json"@,
                "src/index.ts"@,
                "README.md"@,
                ".gitignore"@,
            ])
            &&& l == "go"@ ==> opt_paths(t) == Some(seq!["go.mod"@, "main.go"@, "README.md"@])
            &&& l == "c"@ ==> opt_paths(t) == Some(seq!["Makefile"@, "main.c"@, "README.md"@])
            &&& (l == "cpp"@ || l == "c++"@ || l == "cxx"@) ==> opt_paths(t) == Some(seq![
                "Makefile"@,
                "main.cpp"@,
                "README.md"@,
            ])
            &&& l == "html"@ ==> opt_paths(t) == Some(seq![
                "index.html"@,
                "style.css"@,
                "script.js"@,
                "README.md"@,
            ])
            &&& !(l == "rust"@ || l == "rs"@ || l == "python"@ || l == "py"@ || l == "javascript"@
                || l == "js"@ || l == "typescript"@ || l == "ts"@ || l == "go"@ || l == "c"@ || l
                == "cpp"@ || l == "c++"@ || l == "cxx"@ || l == "html"@) ==> t is None
        }),
{
    reveal_strlit("rust");
    reveal_strlit("rs");
    reveal_strlit("python");
    reveal_strlit("py");
    reveal_strlit("javascript");
    reveal_strlit("js");
    reveal_strlit("typescript");
    reveal_strlit("ts");
    reveal_strlit("go");
    reveal_strlit("c");
    reveal_strlit("cpp");
    reveal_strlit("c++");
    reveal_strlit("cxx");
    reveal_strlit("html");
    assert("rust"@.len() == 4);
    assert("rust"@[0] == 'r');
    assert("rust"@[1] == 'u');
    assert("rs"@.len() == 2);
    assert("rs"@[0] == 'r');
    assert("rs"@[1] == 's');
    assert("python"@.len() == 6);
    assert("python"@[0] == 'p');
    assert("python"@[1] == 'y');
    assert("py"@.len() == 2);
    assert("py"@[0] == 'p');
    assert("py"@[1] == 'y');
    assert("javascript"@.len() == 10);
    assert("javascript"@[0] == 'j');
    assert("javascript"@[1] == 'a');
    assert("js"@.len() == 2);
    assert("js"@[0] == 'j');
    assert("js"@[1] == 's');
    assert("typescript"@.len() == 10);
    assert("typescript"@[0] == 't');
    assert("typescript"@[1] == 'y');
    assert("ts"@.len() == 2);
    assert("ts"@[0] == 't');
    assert("ts"@[1] == 's');
    assert("go"@.len() == 2);
    assert("go"@[0] == 'g');
    assert("go"@[1] == 'o');
    assert("c"@.len() == 1);
    assert("c"@[0] == 'c');
    assert("cpp"@.len() == 3);
    assert("cpp"@[0] == 'c');
    assert("cpp"@[1] == 'p');
    assert("c++"@.len() == 3);
    assert("c++"@[0] == 'c');
    assert("c++"@[1] == '+');
    assert("cxx"@.len() == 3);
    assert("cxx"@[0] == 'c');
    assert("cxx"@[1] == 'x');
    assert("html"@.len() == 4);
    assert("html"@[0] == 'h');
    assert("html"@[1] == 't');
    let l = crate::text::lowercase(lang);
    let t = crate::ai_project::template_for(name, l);
    match t {
        Some(fs) => {
            assert(paths_of(fs) =~= fs.map_values(|f: (Seq<char>, Seq<char>)| f.0));
        },
        None => {},
    }
    assert(paths_of(crate::ai_project::rust_files(name)) =~= seq!["Cargo.toml"@, "src/main.rs"@, ".gitignore"@, "README.md"@]);
    assert(paths_of(crate::ai_project::python_files(name)) =~= seq!["README.md"@, "requirements.txt"@, "src/__init__.py"@, "src/main.py"@, ".gitignore"@]);
    assert(paths_of(crate::ai_project::js_files(name)) =~= seq!["package.json"@, "src/index.js"@, "README.md"@, ".gitignore"@]);
    assert(paths_of(crate::ai_project::ts_files(name)) =~= seq!["package.json"@, "tsconfig.json"@, "src/index.ts"@, "README.md"@, ".gitignore"@]);
    assert(paths_of(crate::ai_project::go_files(name)) =~= seq!["go.mod"@, "main.go"@, "README.md"@]);
    assert(paths_of(crate::ai_project::c_files(name)) =~= seq!["Makefile"@, "main.c"@, "README.md"@]);
    assert(paths_of(crate::ai_project::cpp_files(name)) =~= seq!["Makefile"@, "main.cpp"@, "README.md"@]);
    assert(paths_of(crate::ai_project::html_files(name)) =~= seq!["index.html"@, "style.css"@, "script.js"@, "README.md"@]);
}

/// `subtree_end` stops at the first row from `j` on that is no deeper than
/// row `i`, and every row it passes is deeper.
proof fn lemma_subtree_end(nodes: Seq<NodeModel>, i: int, j: int)
    requires
        0 <= i < nodes.len(),
        i < j <= nodes.len(),
    ensures
        j <= subtree_end(nodes, i, j) <= nodes.len(),
        forall|r: int| j <= r < subtree_end(nodes, i, j) ==> #[trigger] nodes[r].depth > nodes[i].depth,
        subtree_end(nodes, i, j) < nodes.len() ==> nodes[subtree_end(nodes, i, j)].depth <= nodes[i].depth,
    decreases nodes.len() - j,
{
    if !(j >= nodes.len() || nodes[j].depth <= nodes[i].depth) {
        lemma_subtree_end(nodes, i, j + 1);
    }
}

/// Closing the selected open directory at row `i` keeps the rows before it
/// and the selection, marks the directory closed, and removes exactly the
/// rows under it: the rows after it are the old rows from the first later
/// row that is no deeper than it, every row removed being deeper. So no row
/// right after it is deeper than it.
pub proof fn law_collapse_removes_subtree(t: TreeModel)
    requires
        t.on_open_directory(),
    ensures
        ({
            let i = t.selected_row()->0;
            let u = t.collapsed();
            &&& u.selected == t.selected
            &&& u.nodes.len() > i
            &&& u.nodes.take(i) == t.nodes.take(i)
            &&& u.nodes[i] == (NodeModel { expanded: false, ..t.nodes[i] })
            &&& i + 1 < u.nodes.len() ==> u.nodes[i + 1].depth <= u.nodes[i].depth
            &&& exists|e: int|
                #![trigger t.nodes.skip(e)]
                i < e <= t.nodes.len() && u.nodes.skip(i + 1) == t.nodes.skip(e) && (forall|r: int|
                    i < r < e ==> #[trigger] t.nodes[r].depth > t.nodes[i].depth) && (e < t.nodes.len()
                    ==> t.nodes[e].depth <= t.nodes[i].depth)
        }),
{
    let i = t.selected_row()->0;
    let u = t.collapsed();
    let e = subtree_end(t.nodes, i, i + 1);
    lemma_subtree_end(t.nodes, i, i + 1);
    assert(u.nodes.take(i) =~= t.nodes.take(i));
    assert(u.nodes.skip(i + 1) =~= t.nodes.skip(e));
    if i + 1 < u.nodes.len() {
        assert(u.nodes[i + 1] == t.nodes[e]);
    }
}

/// Once the view follows the cursor, the cursor's line is among the rows
/// shown: the first line shown is at or before it and less than a view's
/// height above it, for a view at least four lines high, and with the
/// cursor on a line of the text its row is drawn.
pub proof fn law_view_shows_cursor(offset: usize, line: usize, height: usize, count: nat)
    requires
        height >= 4,
        offset + height <= usize::MAX,
        line + 2 <= usize::MAX,
    ensures
        ({
            let o = crate::editor::scrolled(offset, line, height);
            &&& o <= line < o + height
            &&& line < count ==> line - o < crate::editor::shown_count(o, height, count)
        }),
{
}

} // verus!
