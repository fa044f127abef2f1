use vstd::prelude::*;
use vstd::utf8::*;
use crate::buffer::{TextBuffer, SearchMatch, lemma_boundary_in_prefix};
use crate::search::SearchState;
use crate::text::{utf8, chars_of, byte_len, prefix, suffix, decimal, decimal_string, same_text, ends_with, ends_with_seq, lemma_utf8_valid, lemma_boundary_in_range};
use crate::theme::{Look, Rgb, Shade, Segment, plain, plain_look, shaded, shades, search_match_style, line_num_style, line_num_look};
use crate::status::{spaces, space_string};
use crate::text::{concat, lemma_utf8_empty, lemma_utf8_concat};

verus! {

broadcast use vstd::utf8::group_utf8_lib;

#[verifier::external_type_specification]
#[verifier::external_body]
pub struct ExSyntaxSet(syntect::parsing::SyntaxSet);

#[verifier::external_type_specification]
#[verifier::external_body]
pub struct ExTheme(syntect::highlighting::Theme);

/// A syntax-coloured piece of a line, as the highlighter reports it: its
/// foreground colour, its font-style bits (1 bold, 2 underline, 4 italic)
/// and its text.
pub struct Highlighted {
    pub fg: Rgb,
    pub font: u8,
    pub text: String,
}

/// `SyntaxSet::load_defaults_newlines`: the syntaxes that come with
/// syntect.
#[verifier::external_body]
fn default_syntaxes() -> syntect::parsing::SyntaxSet {
    syntect::parsing::SyntaxSet::load_defaults_newlines()
}

/// `ThemeSet::load_defaults`, of which the "base16-ocean.dark" theme (one
/// of the themes that come with syntect) is taken.
#[verifier::external_body]
fn default_theme() -> syntect::highlighting::Theme {
    syntect::highlighting::ThemeSet::load_defaults().themes["base16-ocean.dark"].clone()
}

/// The pieces of highlighted text as plain values: red, green, blue, font
/// bits and text.
pub open spec fn pieces_view(v: Seq<Highlighted>) -> Seq<(u8, u8, u8, u8, Seq<char>)> {
    v.map_values(|p: Highlighted| (p.fg.r, p.fg.g, p.fg.b, p.font, p.text@))
}

/// `pieces_view` of the outcome of colouring a line.
pub open spec fn colouring_view(c: Option<Option<Vec<Highlighted>>>) -> Option<
    Option<Seq<(u8, u8, u8, u8, Seq<char>)>>,
> {
    match c {
        None => None,
        Some(None) => Some(None),
        Some(Some(v)) => Some(Some(pieces_view(v@))),
    }
}

/// What syntect, with the syntaxes and the "base16-ocean.dark" theme that
/// come with it, makes of `line` for the syntax that `token` names (by
/// extension, or by name in any case): `None` when no syntax fits the
/// token, `Some(None)` when highlighting fails, else the coloured pieces.
pub uninterp spec fn default_colours(token: Seq<char>, line: Seq<char>) -> Option<
    Option<Seq<(u8, u8, u8, u8, Seq<char>)>>,
>;

/// The colouring of `line` for `token`, falling back on the "Plain Text"
/// syntax when no syntax fits the token.
pub open spec fn line_colouring(token: Seq<char>, line: Seq<char>) -> Option<
    Option<Seq<(u8, u8, u8, u8, Seq<char>)>>,
> {
    match default_colours(token, line) {
        None => default_colours("Plain Text"@, line),
        Some(found) => Some(found),
    }
}

/// The segments of a line before search matches are marked: the coloured
/// pieces (see `piece_look`), or the whole line in the plain look when
/// there is no syntax or highlighting fails.
pub open spec fn base_segments(token: Seq<char>, line: Seq<char>) -> Seq<(Seq<u8>, Look)> {
    match line_colouring(token, line) {
        Some(Some(p)) => p.map_values(
            |x: (u8, u8, u8, u8, Seq<char>)| (utf8(x.4), piece_look(Rgb { r: x.0, g: x.1, b: x.2 }, x.3)),
        ),
        _ => seq![(utf8(line), plain_look())],
    }
}

/// The syntax that a file name suggests, by its extension or its whole
/// name; "Plain Text" when none fits.
pub open spec fn syntax_for(name: Seq<char>) -> Seq<char> {
    if ends_with_seq(name, ".rs"@) {
        "Rust"@
    } else if ends_with_seq(name, ".py"@) {
        "Python"@
    } else if ends_with_seq(name, ".js"@) || ends_with_seq(name, ".jsx"@) {
        "JavaScript"@
    } else if ends_with_seq(name, ".ts"@) || ends_with_seq(name, ".tsx"@) {
        "TypeScript"@
    } else if ends_with_seq(name, ".go"@) {
        "Go"@
    } else if ends_with_seq(name, ".java"@) {
        "Java"@
    } else if ends_with_seq(name, ".c"@) || ends_with_seq(name, ".h"@) {
        "C"@
    } else if ends_with_seq(name, ".cpp"@) || ends_with_seq(name, ".hpp"@) || ends_with_seq(name, ".cc"@) {
        "C++"@
    } else if ends_with_seq(name, ".rs"@) {
        "Rust"@
    } else if ends_with_seq(name, ".rb"@) {
        "Ruby"@
    } else if ends_with_seq(name, ".php"@) {
        "PHP"@
    } else if ends_with_seq(name, ".swift"@) {
        "Swift"@
    } else if ends_with_seq(name, ".kt"@) || ends_with_seq(name, ".kts"@) {
        "Kotlin"@
    } else if ends_with_seq(name, ".scala"@) {
        "Scala"@
    } else if ends_with_seq(name, ".ex"@) || ends_with_seq(name, ".exs"@) {
        "Elixir"@
    } else if ends_with_seq(name, ".hs"@) {
        "Haskell"@
    } else if ends_with_seq(name, ".ml"@) {
        "OCaml"@
    } else if ends_with_seq(name, ".lua"@) {
        "Lua"@
    } else if ends_with_seq(name, ".r"@) {
        "R"@
    } else if ends_with_seq(name, ".sh"@) || ends_with_seq(name, ".bash"@) {
        "Shell script"@
    } else if ends_with_seq(name, ".sql"@) {
        "SQL"@
    } else if ends_with_seq(name, ".html"@) || ends_with_seq(name, ".htm"@) {
        "HTML"@
    } else if ends_with_seq(name, ".css"@) || ends_with_seq(name, ".scss"@) {
        "CSS"@
    } else if ends_with_seq(name, ".json"@) {
        "JSON"@
    } else if ends_with_seq(name, ".xml"@) || ends_with_seq(name, ".svg"@) {
        "XML"@
    } else if ends_with_seq(name, ".yaml"@) || ends_with_seq(name, ".yml"@) {
        "YAML"@
    } else if ends_with_seq(name, ".toml"@) {
        "TOML"@
    } else if ends_with_seq(name, ".md"@) || ends_with_seq(name, ".markdown"@) {
        "Markdown"@
    } else if ends_with_seq(name, ".dockerfile"@) || name == "Dockerfile"@ {
        "Dockerfile"@
    } else if name == "Makefile"@ || ends_with_seq(name, ".mk"@) {
        "Makefile"@
    } else if name == "CMakeLists.txt"@ || ends_with_seq(name, ".cmake"@) {
        "CMake"@
    } else {
        "Plain Text"@
    }
}

/// The pieces' texts, one after another.
pub open spec fn pieces_text(v: Seq<Highlighted>) -> Seq<char>
    decreases v.len(),
{
    if v.len() == 0 {
        seq![]
    } else {
        pieces_text(v.drop_last()) + v.last().text@
    }
}

/// The segments' bytes, one after another.
pub open spec fn seg_text_bytes(segs: Seq<(Seq<u8>, Look)>) -> Seq<u8>
    decreases segs.len(),
{
    if segs.len() == 0 {
        seq![]
    } else {
        seg_text_bytes(segs.drop_last()) + segs.last().0
    }
}

/// The look of a highlighted piece: its colour, bold, underlined and italic
/// as its font-style bits say.
pub open spec fn piece_look(fg: Rgb, font: u8) -> Look {
    Look {
        fg: Some(fg),
        bg: None,
        bold: font & 1 != 0,
        italic: font & 4 != 0,
        underlined: font & 2 != 0,
        reversed: false,
    }
}

/// The texts of segments, as bytes, with their looks.
pub open spec fn seg_bytes(v: Seq<Segment>) -> Seq<(Seq<u8>, Look)> {
    v.map_values(|s: Segment| (utf8(s.text@), s.look))
}

/// `seg_bytes` of an optional list.
pub open spec fn opt_seg_bytes(r: Option<Vec<Segment>>) -> Option<Seq<(Seq<u8>, Look)>> {
    match r {
        Some(v) => Some(seg_bytes(v@)),
        None => None,
    }
}

/// The number of bytes that segments hold together.
pub open spec fn total_len(segs: Seq<(Seq<u8>, Look)>) -> int
    decreases segs.len(),
{
    if segs.len() == 0 {
        0
    } else {
        total_len(segs.drop_last()) + segs.last().0.len()
    }
}

/// The matches on line `line`, in order.
pub open spec fn matches_on(ms: Seq<SearchMatch>, line: int) -> Seq<SearchMatch>
    decreases ms.len(),
{
    if ms.len() == 0 {
        seq![]
    } else {
        let init = matches_on(ms.drop_last(), line);
        if ms.last().line == line {
            init.push(ms.last())
        } else {
            init
        }
    }
}

/// The look of the current match.
pub open spec fn current_match_look() -> Look {
    shaded(Some(Shade::FgBright), Some(Shade::AccentOrange), false, false)
}

/// The look of another match.
pub open spec fn match_look() -> Look {
    shaded(Some(Shade::FgBright), Some(Shade::SearchMatchBg), true, false)
}

/// The line `content` cut at the matches `ms` (of that line), from byte
/// `pos` on: plain text between them and each match in its look, the
/// current one (`cur`) apart. `None` where a cut would not fall on a
/// character boundary or a match ends before it starts.
pub open spec fn marked(content: Seq<u8>, ms: Seq<SearchMatch>, cur: Option<SearchMatch>, pos: int) -> Option<
    Seq<(Seq<u8>, Look)>,
>
    decreases ms.len(),
{
    if ms.len() == 0 {
        if pos < content.len() {
            if is_char_boundary(content, pos) {
                Some(seq![(content.skip(pos), plain_look())])
            } else {
                None
            }
        } else {
            Some(seq![])
        }
    } else {
        let m = ms[0];
        let s = m.start_col as int;
        let e = m.end_col as int;
        let gap_ok = s > pos ==> is_char_boundary(content, pos) && is_char_boundary(content, s);
        let piece_ok = s <= e && is_char_boundary(content, s) && is_char_boundary(content, e);
        if !(gap_ok && piece_ok) {
            None
        } else {
            let gap = if s > pos {
                seq![(content.subrange(pos, s), plain_look())]
            } else {
                seq![]
            };
            let look = if cur == Some(m) {
                current_match_look()
            } else {
                match_look()
            };
            match marked(content, ms.drop_first(), cur, e) {
                Some(rest) => Some(gap + seq![(content.subrange(s, e), look)] + rest),
                None => None,
            }
        }
    }
}

/// `acc` followed by what `r` holds.
pub open spec fn joined_after(acc: Seq<(Seq<u8>, Look)>, r: Option<Seq<(Seq<u8>, Look)>>) -> Option<
    Seq<(Seq<u8>, Look)>,
> {
    match r {
        Some(x) => Some(acc + x),
        None => None,
    }
}

/// The match that is current, if the index names one.
pub open spec fn current_of(ms: Seq<SearchMatch>, current: usize) -> Option<SearchMatch> {
    if current < ms.len() {
        Some(ms[current as int])
    } else {
        None
    }
}

/// The segments of line `line` (whose text is `content`) with its search
/// matches marked: unchanged when the line has no match or the segments do
/// not hold exactly the line's bytes.
pub open spec fn searched(
    segs: Seq<(Seq<u8>, Look)>,
    content: Seq<u8>,
    ms: Seq<SearchMatch>,
    current: usize,
    line: int,
) -> Option<Seq<(Seq<u8>, Look)>> {
    let lm = matches_on(ms, line);
    if lm.len() == 0 || total_len(segs) != content.len() {
        Some(segs)
    } else {
        marked(content, lm, current_of(ms, current), 0)
    }
}

/// The segments of a line as shown: with the search's matches marked when
/// there is a query and something was found.
pub open spec fn decorated(
    segs: Seq<(Seq<u8>, Look)>,
    content: Seq<u8>,
    query: Seq<char>,
    ms: Seq<SearchMatch>,
    current: usize,
    line: int,
) -> Option<Seq<(Seq<u8>, Look)>> {
    if query.len() > 0 && ms.len() > 0 {
        searched(segs, content, ms, current, line)
    } else {
        Some(segs)
    }
}

/// `s` padded on the left with spaces to `w` characters.
pub open spec fn pad_left(s: Seq<char>, w: nat) -> Seq<char> {
    if s.len() < w {
        spaces((w - s.len()) as nat) + s
    } else {
        s
    }
}

/// The width of the line numbers: the digits of the line count, at least 3.
pub open spec fn number_width(count: nat) -> nat {
    if decimal(count).len() > 3 {
        decimal(count).len()
    } else {
        3
    }
}

/// The gutter of line `i` (counted from 0) of `count` lines: its number,
/// right-aligned, and a space.
pub open spec fn gutter(i: nat, count: nat) -> Seq<char> {
    pad_left(decimal(i + 1), number_width(count)) + " "@
}

/// The first line shown once the view follows the cursor on line `line`
/// in a view of `height` lines that started at `offset`.
pub open spec fn scrolled(offset: usize, line: usize, height: usize) -> usize {
    let o = if line < offset {
        line
    } else {
        offset
    };
    let visible = if height >= 2 {
        height - 2
    } else {
        0
    };
    if line >= o + visible {
        let base = if line >= height {
            line - height
        } else {
            0
        };
        if base + 2 <= usize::MAX {
            (base + 2) as usize
        } else {
            usize::MAX
        }
    } else {
        o
    }
}

/// The number of lines shown from `offset` in `height` rows of `count`
/// lines.
pub open spec fn shown_count(offset: usize, height: usize, count: nat) -> nat {
    let end = if offset + height < count {
        offset + height
    } else {
        count as int
    };
    if end > offset {
        (end - offset) as nat
    } else {
        0
    }
}

/// One row of the editor: the line number with its look, and the line's
/// segments (`None` where marking the search matches broke down).
pub struct Row {
    pub number: String,
    pub number_look: Look,
    pub segments: Option<Vec<Segment>>,
}

/// The look of a highlighted piece (see `piece_look`).
fn look_of(fg: Rgb, font: u8) -> (l: Look)
    ensures
        l == piece_look(fg, font),
{
    Look {
        fg: Some(fg),
        bg: None,
        bold: font & 1 != 0,
        italic: font & 4 != 0,
        underlined: font & 2 != 0,
        reversed: false,
    }
}

/// The bytes of `s` from `a` to `b`, as a new string.
fn byte_slice(s: &str, a: usize, b: usize) -> (r: String)
    requires
        a <= b,
        is_char_boundary(utf8(s@), a as int),
        is_char_boundary(utf8(s@), b as int),
    ensures
        utf8(r@) == utf8(s@).subrange(a as int, b as int),
{
    proof {
        lemma_utf8_valid(s@);
        lemma_boundary_in_prefix(utf8(s@), a as int, b as int);
        lemma_boundary_in_range(utf8(s@), b as int);
    }
    let p = prefix(s, b);
    let q = suffix(p, a);
    assert(utf8(q@) =~= utf8(s@).subrange(a as int, b as int));
    q.to_owned()
}

/// The total grows with each segment.
proof fn lemma_total_len_prefix(segs: Seq<(Seq<u8>, Look)>, k: int)
    requires
        0 <= k <= segs.len(),
    ensures
        total_len(segs.take(k)) <= total_len(segs),
        total_len(segs.take(k)) >= 0,
    decreases segs.len() - k,
{
    if k < segs.len() {
        lemma_total_len_prefix(segs, k + 1);
        assert(segs.take(k + 1).drop_last() =~= segs.take(k));
    } else {
        assert(segs.take(k) =~= segs);
    }
    if k > 0 {
        lemma_total_nonneg(segs.take(k));
    }
}

/// A total is never negative.
proof fn lemma_total_nonneg(segs: Seq<(Seq<u8>, Look)>)
    ensures
        total_len(segs) >= 0,
    decreases segs.len(),
{
    if segs.len() > 0 {
        lemma_total_nonneg(segs.drop_last());
    }
}

/// The highlighter's pieces as segments (see `piece_look`).
fn segments_of(pieces: Vec<Highlighted>) -> (r: Vec<Segment>)
    ensures
        r@.len() == pieces@.len(),
        forall|i: int|
            0 <= i < r@.len() ==> #[trigger] r@[i].text@ == pieces@[i].text@ && r@[i].look
                == piece_look(pieces@[i].fg, pieces@[i].font),
{
    let mut out: Vec<Segment> = Vec::new();
    let n = pieces.len();
    let mut i: usize = 0;
    while i < n
        invariant
            n == pieces@.len(),
            i <= n,
            out@.len() == i,
            forall|j: int|
                0 <= j < i ==> #[trigger] out@[j].text@ == pieces@[j].text@ && out@[j].look
                    == piece_look(pieces@[j].fg, pieces@[j].font),
        decreases n - i,
    {
        let p = &pieces[i];
        out.push(Segment { text: p.text.clone(), look: look_of(p.fg, p.font) });
        i = i + 1;
    }
    out
}

/// Segments with the pieces' texts hold the pieces' bytes.
proof fn lemma_segments_text(r: Seq<Segment>, p: Seq<Highlighted>)
    requires
        r.len() == p.len(),
        forall|i: int| 0 <= i < r.len() ==> #[trigger] r[i].text@ == p[i].text@,
    ensures
        seg_text_bytes(seg_bytes(r)) == utf8(pieces_text(p)),
    decreases r.len(),
{
    if r.len() == 0 {
        assert(utf8(pieces_text(p)) =~= Seq::<u8>::empty());
    } else {
        let ri = r.drop_last();
        let pi = p.drop_last();
        assert forall|i: int| 0 <= i < ri.len() implies #[trigger] ri[i].text@ == pi[i].text@ by {
            assert(r[i].text@ == p[i].text@);
        }
        lemma_segments_text(ri, pi);
        assert(seg_bytes(r).drop_last() =~= seg_bytes(ri));
        assert(r[r.len() - 1].text@ == p[p.len() - 1].text@);
        lemma_utf8_concat(pieces_text(pi), p.last().text@);
    }
}

/// The gutter of line `i` of `count` lines (see `gutter`).
pub fn gutter_label(i: usize, count: usize) -> (r: String)
    requires
        i < count,
    ensures
        r@ == gutter(i as nat, count as nat),
{
    let num = decimal_string(i + 1);
    let digits = decimal_string(count);
    let dl = digits.as_str().unicode_len();
    let w = if dl > 3 {
        dl
    } else {
        3
    };
    let nl = num.as_str().unicode_len();
    let pad = if nl < w {
        space_string(w - nl)
    } else {
        String::new()
    };
    let a = concat(pad.as_str(), num.as_str());
    let r = concat(a.as_str(), " ");
    assert(pad@ + num@ =~= pad_left(decimal((i + 1) as nat), number_width(count as nat)));
    r
}

/// The editor view: syntax colouring, the gutter, and the first line shown.
pub struct EditorRenderer {
    syntax_set: syntect::parsing::SyntaxSet,
    theme: syntect::highlighting::Theme,
    line_offset: usize,
    col_offset: usize,
}

impl EditorRenderer {
    /// A view at the top of the text, with syntect's default syntaxes and
    /// its "base16-ocean.dark" theme.
    pub fn new() -> (r: Self)
        ensures
            r.first_line() == 0,
            r.first_column() == 0,
    {
        Self { syntax_set: default_syntaxes(), theme: default_theme(), line_offset: 0, col_offset: 0 }
    }

    /// The first line shown.
    pub closed spec fn first_line(&self) -> usize {
        self.line_offset
    }

    /// The first column shown.
    pub closed spec fn first_column(&self) -> usize {
        self.col_offset
    }

    /// The first line shown.
    pub fn line_offset(&self) -> (r: usize)
        ensures
            r == self.first_line(),
    {
        self.line_offset
    }

    /// `SyntaxSet::find_syntax_by_token`, then `HighlightLines::new` and
    /// `HighlightLines::highlight_line` on `line`, in this view's syntax set
    /// and theme. Those are only ever syntect's own defaults (`new` is the
    /// one place that sets them), so the outcome is what `default_colours`
    /// names for the token and the line. As syntect documents, the pieces'
    /// texts, in order, make up the line.
    #[verifier::external_body]
    fn colour_line(&self, token: &str, line: &str) -> (c: Option<Option<Vec<Highlighted>>>)
        ensures
            colouring_view(c) == default_colours(token@, line@),
            c matches Some(Some(v)) ==> pieces_text(v@) == line@,
    {
        let syntax = self.syntax_set.find_syntax_by_token(token)?;
        let mut h = syntect::easy::HighlightLines::new(syntax, &self.theme);
        Some(h.highlight_line(line, &self.syntax_set).ok().map(|v| {
            v.into_iter().map(|(st, t)| Highlighted {
                fg: Rgb { r: st.foreground.r, g: st.foreground.g, b: st.foreground.b },
                font: st.font_style.bits(),
                text: t.to_string(),
            }).collect()
        }))
    }

    /// The syntax that a file name suggests (see `syntax_for`).
    pub fn guess_syntax(&self, filename: &str) -> (r: &'static str)
        ensures
            r@ == syntax_for(filename@),
    {
        if ends_with(filename, ".rs") {
            "Rust"
        } else if ends_with(filename, ".py") {
            "Python"
        } else if ends_with(filename, ".js") || ends_with(filename, ".jsx") {
            "JavaScript"
        } else if ends_with(filename, ".ts") || ends_with(filename, ".tsx") {
            "TypeScript"
        } else if ends_with(filename, ".go") {
            "Go"
        } else if ends_with(filename, ".java") {
            "Java"
        } else if ends_with(filename, ".c") || ends_with(filename, ".h") {
            "C"
        } else if ends_with(filename, ".cpp") || ends_with(filename, ".hpp") || ends_with(filename, ".cc") {
            "C++"
        } else if ends_with(filename, ".rs") {
            "Rust"
        } else if ends_with(filename, ".rb") {
            "Ruby"
        } else if ends_with(filename, ".php") {
            "PHP"
        } else if ends_with(filename, ".swift") {
            "Swift"
        } else if ends_with(filename, ".kt") || ends_with(filename, ".kts") {
            "Kotlin"
        } else if ends_with(filename, ".scala") {
            "Scala"
        } else if ends_with(filename, ".ex") || ends_with(filename, ".exs") {
            "Elixir"
        } else if ends_with(filename, ".hs") {
            "Haskell"
        } else if ends_with(filename, ".ml") {
            "OCaml"
        } else if ends_with(filename, ".lua") {
            "Lua"
        } else if ends_with(filename, ".r") {
            "R"
        } else if ends_with(filename, ".sh") || ends_with(filename, ".bash") {
            "Shell script"
        } else if ends_with(filename, ".sql") {
            "SQL"
        } else if ends_with(filename, ".html") || ends_with(filename, ".htm") {
            "HTML"
        } else if ends_with(filename, ".css") || ends_with(filename, ".scss") {
            "CSS"
        } else if ends_with(filename, ".json") {
            "JSON"
        } else if ends_with(filename, ".xml") || ends_with(filename, ".svg") {
            "XML"
        } else if ends_with(filename, ".yaml") || ends_with(filename, ".yml") {
            "YAML"
        } else if ends_with(filename, ".toml") {
            "TOML"
        } else if ends_with(filename, ".md") || ends_with(filename, ".markdown") {
            "Markdown"
        } else if ends_with(filename, ".dockerfile") || same_text(filename, "Dockerfile") {
            "Dockerfile"
        } else if same_text(filename, "Makefile") || ends_with(filename, ".mk") {
            "Makefile"
        } else if same_text(filename, "CMakeLists.txt") || ends_with(filename, ".cmake") {
            "CMake"
        } else {
            "Plain Text"
        }
    }

    /// Marks the search matches of line `line_idx`, whose text is
    /// `content`, in its segments (see `searched`).
    pub fn apply_search_highlights(
        &self,
        spans: Vec<Segment>,
        content: &str,
        search: &SearchState,
        line_idx: usize,
    ) -> (r: Option<Vec<Segment>>)
        ensures
            opt_seg_bytes(r) == searched(
                seg_bytes(spans@),
                utf8(content@),
                search.matches@,
                search.current_match,
                line_idx as int,
            ),
    {
        let ghost cb = utf8(content@);
        proof {
            lemma_utf8_valid(content@);
        }
        let n = search.matches.len();
        let mut lm: Vec<SearchMatch> = Vec::new();
        let mut i: usize = 0;
        while i < n
            invariant
                n == search.matches@.len(),
                i <= n,
                lm@ == matches_on(search.matches@.take(i as int), line_idx as int),
            decreases n - i,
        {
            let m = search.matches[i];
            assert(search.matches@.take(i + 1).drop_last() =~= search.matches@.take(i as int));
            if m.line == line_idx {
                lm.push(m);
            }
            i = i + 1;
        }
        assert(search.matches@.take(n as int) =~= search.matches@);
        if lm.len() == 0 {
            return Some(spans);
        }
        let clen = byte_len(content);
        let ns = spans.len();
        let mut total: usize = 0;
        let mut j: usize = 0;
        let mut over = false;
        while j < ns
            invariant
                ns == spans@.len(),
                j <= ns,
                clen == cb.len(),
                clen <= isize::MAX,
                !over ==> total == total_len(seg_bytes(spans@).take(j as int)),
                !over ==> total <= clen,
                over ==> total_len(seg_bytes(spans@)) > clen,
            decreases ns - j,
        {
            if !over {
                let l = byte_len(spans[j].text.as_str());
                let ghost sb = seg_bytes(spans@);
                assert(sb.take(j + 1).drop_last() =~= sb.take(j as int));
                assert(sb[j as int] == (utf8(spans@[j as int].text@), spans@[j as int].look));
                if total + l > clen {
                    proof {
                        lemma_total_len_prefix(sb, j + 1);
                    }
                    over = true;
                } else {
                    total = total + l;
                }
            }
            j = j + 1;
        }
        assert(seg_bytes(spans@).take(ns as int) =~= seg_bytes(spans@));
        if over || total != clen {
            return Some(spans);
        }
        let cur: Option<SearchMatch> = if search.current_match < n {
            Some(search.matches[search.current_match])
        } else {
            None
        };
        let mut out: Vec<Segment> = Vec::new();
        let mut pos: usize = 0;
        let mut k: usize = 0;
        let nl = lm.len();
        assert(lm@.skip(0) =~= lm@);
        assert(seg_bytes(out@) =~= Seq::<(Seq<u8>, Look)>::empty());
        assert(searched(seg_bytes(spans@), cb, search.matches@, search.current_match, line_idx as int) == marked(cb, lm@, cur, 0));
        while k < nl
            invariant
                nl == lm@.len(),
                k <= nl,
                clen == cb.len(),
                cb == utf8(content@),
                valid_utf8(cb),
                cur == current_of(search.matches@, search.current_match),
                lm@ == matches_on(search.matches@, line_idx as int),
                marked(cb, lm@, cur, 0) == joined_after(seg_bytes(out@), marked(cb, lm@.skip(k as int), cur, pos as int)),
                searched(seg_bytes(spans@), cb, search.matches@, search.current_match, line_idx as int) == marked(cb, lm@, cur, 0),
            decreases nl - k,
        {
            let m = lm[k];
            let ghost rest = lm@.skip(k as int);
            assert(rest[0] == m);
            assert(rest.drop_first() =~= lm@.skip(k + 1));
            let s = m.start_col;
            let e = m.end_col;
            let gap_ok = if s > pos {
                content.is_char_boundary(pos) && content.is_char_boundary(s)
            } else {
                true
            };
            let piece_ok = s <= e && content.is_char_boundary(s) && content.is_char_boundary(e);
            if !(gap_ok && piece_ok) {
                assert(marked(cb, rest, cur, pos as int) is None);
                return None;
            }
            let ghost before = seg_bytes(out@);
            if s > pos {
                let t = byte_slice(content, pos, s);
                out.push(Segment { text: t, look: plain() });
            }
            let is_cur = match cur {
                Some(c) => c == m,
                None => false,
            };
            let look = if is_cur {
                shades(Some(Shade::FgBright), Some(Shade::AccentOrange), false, false)
            } else {
                search_match_style()
            };
            let t = byte_slice(content, s, e);
            out.push(Segment { text: t, look });
            let ghost gap = if s > pos {
                seq![(cb.subrange(pos as int, s as int), plain_look())]
            } else {
                seq![]
            };
            assert(seg_bytes(out@) =~= before + gap + seq![(cb.subrange(s as int, e as int), look)]);
            pos = e;
            k = k + 1;
        }
        if pos < clen {
            if !content.is_char_boundary(pos) {
                return None;
            }
            let ghost before = seg_bytes(out@);
            proof {
                lemma_boundary_in_range(cb, pos as int);
            }
            let t = byte_slice(content, pos, clen);
            out.push(Segment { text: t, look: plain() });
            assert(cb.subrange(pos as int, clen as int) =~= cb.skip(pos as int));
            assert(seg_bytes(out@) =~= before + seq![(cb.skip(pos as int), plain_look())]);
        } else {
            assert(seg_bytes(out@) + Seq::<(Seq<u8>, Look)>::empty() =~= seg_bytes(out@));
        }
        Some(out)
    }

    /// The segments of line `line_idx` of `buf`, whose text is `content`:
    /// coloured by the syntax its file name suggests, or by the plain-text
    /// syntax when none fits (see `base_segments`), with the search matches
    /// marked (see `decorated`). The unmarked segments' texts make up the
    /// line.
    pub fn highlight_line(
        &self,
        buf: &TextBuffer,
        line_idx: usize,
        content: &str,
        search: &SearchState,
    ) -> (r: Option<Vec<Segment>>)
        ensures
            content@.len() == 0 ==> (r matches Some(v) && v@.len() == 0),
            content@.len() > 0 ==> seg_text_bytes(base_segments(syntax_for(buf@.filename), content@))
                == utf8(content@),
            content@.len() > 0 ==> decorated(
                base_segments(syntax_for(buf@.filename), content@),
                utf8(content@),
                search.query@,
                search.matches@,
                search.current_match,
                line_idx as int,
            ) == opt_seg_bytes(r),
    {
        if content.is_empty() {
            return Some(Vec::new());
        }
        let name = self.guess_syntax(buf.filename());
        let coloured = match self.colour_line(name, content) {
            None => self.colour_line("Plain Text", content),
            Some(found) => Some(found),
        };
        let ghost want = base_segments(name@, content@);
        let base: Vec<Segment> = match coloured {
            Some(Some(p)) => {
                let ghost pv = p@;
                let v = segments_of(p);
                proof {
                    lemma_segments_text(v@, pv);
                    assert(seg_bytes(v@) =~= want);
                }
                v
            },
            _ => {
                let v = vec![Segment { text: content.to_owned(), look: plain() }];
                proof {
                    let sb = seg_bytes(v@);
                    assert(sb.len() == 1);
                    assert(sb.drop_last() =~= Seq::<(Seq<u8>, Look)>::empty());
                    assert(seg_text_bytes(sb.drop_last()) =~= Seq::<u8>::empty());
                    assert(sb.last().0 == utf8(v@[0].text@));
                    assert(v@[0].text@ == content@);
                    assert(seg_text_bytes(sb) =~= utf8(content@));
                    assert(sb =~= want);
                }
                v
            },
        };
        assert(seg_text_bytes(seg_bytes(base@)) == utf8(content@));
        assert(seg_bytes(base@) == want);
        let ghost b = seg_bytes(base@);
        let r = if !search.query.as_str().is_empty() && search.matches.len() > 0 {
            self.apply_search_highlights(base, content, search, line_idx)
        } else {
            Some(base)
        };
        assert(decorated(
            b,
            utf8(content@),
            search.query@,
            search.matches@,
            search.current_match,
            line_idx as int,
        ) == opt_seg_bytes(r));
        r
    }

    /// The rows shown in a view `height` lines high: the first line shown
    /// follows the cursor (see `scrolled`), and each row holds its line's
    /// number and its segments, coloured by the syntax the file name
    /// suggests and with the search matches marked (see `highlight_line`).
    pub fn render(&mut self, buf: &TextBuffer, height: u16, search: &SearchState) -> (r: Vec<Row>)
        requires
            old(self).first_line() + height <= usize::MAX,
            buf@.cursor.line + 2 <= usize::MAX,
        ensures
            final(self).first_line() == scrolled(old(self).first_line(), buf@.cursor.line, height as usize),
            r@.len() == shown_count(final(self).first_line(), height as usize, buf@.lines.len()),
            forall|k: int|
                #![trigger r@[k]]
                0 <= k < r@.len() ==> {
                    let i = final(self).first_line() + k;
                    &&& r@[k].number@ == gutter(i as nat, buf@.lines.len())
                    &&& r@[k].number_look == line_num_look(i == buf@.cursor.line)
                    &&& buf@.lines[i].len() == 0 ==> (r@[k].segments matches Some(v) && v@.len() == 0)
                    &&& buf@.lines[i].len() > 0 ==> seg_text_bytes(
                        base_segments(syntax_for(buf@.filename), chars_of(buf@.lines[i])),
                    ) == buf@.lines[i]
                    &&& buf@.lines[i].len() > 0 ==> decorated(
                            base_segments(syntax_for(buf@.filename), chars_of(buf@.lines[i])),
                            buf@.lines[i],
                            search.query@,
                            search.matches@,
                            search.current_match,
                            i,
                        ) == opt_seg_bytes(r@[k].segments)
                },
    {
        let line = buf.cursor().line;
        let h = height as usize;
        let mut o = self.line_offset;
        if line < o {
            o = line;
        }
        let visible = if h >= 2 {
            h - 2
        } else {
            0
        };
        if line >= o + visible {
            let base = if line >= h {
                line - h
            } else {
                0
            };
            o = if base <= usize::MAX - 2 {
                base + 2
            } else {
                usize::MAX
            };
        }
        self.line_offset = o;
        let count = buf.line_count();
        let end = if o + h < count {
            o + h
        } else {
            count
        };
        let mut rows: Vec<Row> = Vec::new();
        let mut i = o;
        while i < end
            invariant
                o <= i,
                end <= count,
                count == buf@.lines.len(),
                o == self.first_line(),
                end == (if o + h < count { o + h } else { count as int }),
                rows@.len() == i - o,
                line == buf@.cursor.line,
                o <= end ==> i <= end,
                o > end ==> i == o,
                forall|k: int|
                    #![trigger rows@[k]]
                    0 <= k < rows@.len() ==> {
                        let j = o + k;
                        &&& rows@[k].number@ == gutter(j as nat, buf@.lines.len())
                        &&& rows@[k].number_look == line_num_look(j == buf@.cursor.line)
                        &&& buf@.lines[j].len() == 0 ==> (rows@[k].segments matches Some(v) && v@.len()
                            == 0)
                        &&& buf@.lines[j].len() > 0 ==> seg_text_bytes(
                            base_segments(syntax_for(buf@.filename), chars_of(buf@.lines[j])),
                        ) == buf@.lines[j]
                        &&& buf@.lines[j].len() > 0 ==> decorated(
                                base_segments(syntax_for(buf@.filename), chars_of(buf@.lines[j])),
                                buf@.lines[j],
                                search.query@,
                                search.matches@,
                                search.current_match,
                                j,
                            ) == opt_seg_bytes(rows@[k].segments)
                    },
            decreases end - i,
        {
            let content = match buf.line(i) {
                Some(c) => c,
                None => "",
            };
            proof {
                lemma_utf8_valid(content@);
                lemma_utf8_empty(content@);
            }
            let segments = self.highlight_line(buf, i, content, search);
            let row = Row {
                number: gutter_label(i, count),
                number_look: line_num_style(i == line),
                segments,
            };
            let ghost before = rows@;
            rows.push(row);
            proof {
                let k = i - o;
                assert(rows@[k as int] == row);
                assert(utf8(content@) == buf@.lines[i as int]);
                assert forall|k2: int| 0 <= k2 < before.len() implies rows@[k2] == before[k2] by {}
            }
            i = i + 1;
        }
        rows
    }
}

} // verus!
