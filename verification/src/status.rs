use vstd::prelude::*;
use crate::buffer::{TextBuffer, Cursor};
use crate::text::{utf8, decimal, decimal_string, concat, byte_len, push_char};
use crate::theme::{Look, Shade, shaded, mode_shade, mode_style, shades, Segment, segments_view};

verus! {

/// The file name as the status bar shows it, with a dot when modified.
pub open spec fn name_label(name: Seq<char>, dirty: bool) -> Seq<char> {
    if dirty {
        " "@ + name + " ●"@
    } else {
        " "@ + name + " "@
    }
}

/// The cursor's position, counted from 1: "Ln 3, Col 7".
pub open spec fn position_label(c: Cursor) -> Seq<char> {
    "Ln "@ + decimal((c.line + 1) as nat) + ", Col "@ + decimal((c.col + 1) as nat)
}

/// How far through the buffer the cursor's line is, in percent (100 for
/// a buffer without lines).
pub open spec fn percent(line: usize, count: nat) -> nat {
    if count == 0 {
        100
    } else if (line + 1) * 100 / (count as int) < 100 {
        ((line + 1) * 100 / (count as int)) as nat
    } else {
        100
    }
}

/// The percentage as shown: "42%".
pub open spec fn percent_label(line: usize, count: nat) -> Seq<char> {
    decimal(percent(line, count)) + "%"@
}

/// The bytes that the status bar's texts take, with their margins.
pub open spec fn used_width(mode: Seq<char>, name: Seq<char>, pos: Seq<char>, pct: Seq<char>) -> int {
    (utf8(mode).len() + 2 + utf8(name).len() + utf8(pos).len() + 2 + utf8(pct).len() + 2 + 4) as int
}

/// The blank columns between the name and the position.
pub open spec fn padding(width: int, used: int) -> nat {
    if width > used {
        (width - used) as nat
    } else {
        0
    }
}

/// `n` spaces.
pub open spec fn spaces(n: nat) -> Seq<char> {
    Seq::new(n, |i: int| ' ')
}

/// The status bar of buffer `b` in mode `mode`, `width` columns wide: the
/// mode, the file name, blank space, the position and the percentage.
pub open spec fn status_segments(
    mode: Seq<char>,
    name: Seq<char>,
    dirty: bool,
    c: Cursor,
    count: nat,
    width: int,
) -> Seq<(Seq<char>, Look)> {
    let n = name_label(name, dirty);
    let pos = position_label(c);
    let pct = percent_label(c.line, count);
    let dim = shaded(Some(Shade::FgDim), Some(Shade::StatusBg), false, false);
    seq![
        (" "@ + mode + " "@, shaded(Some(Shade::BgDark), Some(mode_shade(mode)), true, false)),
        (n, shaded(Some(Shade::FgBright), Some(Shade::StatusBg), false, false)),
        (spaces(padding(width, used_width(mode, n, pos, pct))), shaded(None, Some(Shade::StatusBg), false, false)),
        (" "@ + pos + " "@, dim),
        (" "@ + pct + " "@, dim),
    ]
}

/// `n` spaces.
pub fn space_string(n: usize) -> (r: String)
    ensures
        r@ == spaces(n as nat),
{
    let mut s = String::new();
    let mut i: usize = 0;
    while i < n
        invariant
            i <= n,
            s@ == spaces(i as nat),
        decreases n - i,
    {
        push_char(&mut s, ' ');
        i = i + 1;
        assert(s@ =~= spaces(i as nat));
    }
    s
}

/// The editor's status bar.
pub struct StatusBar;

impl StatusBar {
    /// The status bar's segments (see `status_segments`).
    pub fn render(buf: &TextBuffer, mode: &str, width: u16) -> (r: Vec<Segment>)
        requires
            (buf@.cursor.line + 1) * 100 <= usize::MAX,
            buf@.cursor.col + 1 <= usize::MAX,
            used_width(
                mode@,
                name_label(buf@.filename, buf@.dirty),
                position_label(buf@.cursor),
                percent_label(buf@.cursor.line, buf@.lines.len()),
            ) <= usize::MAX,
        ensures
            segments_view(r@) == status_segments(
                mode@,
                buf@.filename,
                buf@.dirty,
                buf@.cursor,
                buf@.lines.len(),
                width as int,
            ),
    {
        let name = if buf.is_dirty() {
            let a = concat(" ", buf.filename());
            concat(a.as_str(), " ●")
        } else {
            let a = concat(" ", buf.filename());
            concat(a.as_str(), " ")
        };
        let c = buf.cursor();
        let p1 = concat("Ln ", decimal_string(c.line + 1).as_str());
        let p2 = concat(p1.as_str(), ", Col ");
        let pos = concat(p2.as_str(), decimal_string(c.col + 1).as_str());
        let count = buf.line_count();
        let pct: usize = if count == 0 {
            100
        } else {
            let q = (c.line + 1) * 100 / count;
            if q < 100 {
                q
            } else {
                100
            }
        };
        let pct_text = concat(decimal_string(pct).as_str(), "%");
        let used = byte_len(mode) + 2 + byte_len(name.as_str()) + byte_len(pos.as_str()) + 2
            + byte_len(pct_text.as_str()) + 2 + 4;
        let w = width as usize;
        let remaining = if w > used {
            w - used
        } else {
            0
        };
        let m1 = concat(" ", mode);
        let mode_text = concat(m1.as_str(), " ");
        let pos1 = concat(" ", pos.as_str());
        let pos_text = concat(pos1.as_str(), " ");
        let pc1 = concat(" ", pct_text.as_str());
        let pct_shown = concat(pc1.as_str(), " ");
        let dim = shades(Some(Shade::FgDim), Some(Shade::StatusBg), false, false);
        let r = vec![
            Segment { text: mode_text, look: mode_style(mode) },
            Segment { text: name, look: shades(Some(Shade::FgBright), Some(Shade::StatusBg), false, false) },
            Segment { text: space_string(remaining), look: shades(None, Some(Shade::StatusBg), false, false) },
            Segment { text: pos_text, look: dim },
            Segment { text: pct_shown, look: dim },
        ];
        assert(segments_view(r@) =~= status_segments(
            mode@,
            buf@.filename,
            buf@.dirty,
            buf@.cursor,
            buf@.lines.len(),
            width as int,
        ));
        r
    }
}

} // verus!
