use vstd::prelude::*;

verus! {

/// A 24-bit colour.
#[derive(Clone, Copy, Debug, PartialEq, Eq, Structural)]
pub struct Rgb {
    pub r: u8,
    pub g: u8,
    pub b: u8,
}

/// The named colours of the editor's dark theme.
#[derive(Clone, Copy, Debug, PartialEq, Eq, Structural)]
pub enum Shade {
    Bg,
    BgDark,
    BgLight,
    BgActive,
    BgHover,
    Fg,
    FgDim,
    FgBright,
    FgMuted,
    Accent,
    AccentPurple,
    AccentPink,
    AccentGreen,
    AccentCyan,
    AccentOrange,
    AccentRed,
    AccentYellow,
    LineNum,
    LineNumActive,
    SelectionBg,
    SearchMatchBg,
    SearchMatchCurrent,
    CursorColor,
    BorderColor,
    BorderFocus,
    TreeDir,
    TreeFile,
    TreeSelectedBg,
    TreeIconDir,
    TreeIconFile,
    TabActiveBg,
    TabInactiveBg,
    TabHoverBg,
    TabSeparator,
    StatusBg,
    StatusFg,
    ModeNormalBg,
    ModeInsertBg,
    ModeCmdBg,
    ModeSearchBg,
    ModeTreeBg,
    ModeTermBg,
    SyntaxKeyword,
    SyntaxString,
    SyntaxComment,
    SyntaxFunction,
    SyntaxType,
    SyntaxNumber,
    SyntaxVariable,
    SyntaxConstant,
}

/// The colour each shade stands for.
pub open spec fn shade_rgb(s: Shade) -> Rgb {
    match s {
        Shade::Bg => Rgb { r: 28, g: 30, b: 40 },
        Shade::BgDark => Rgb { r: 20, g: 22, b: 30 },
        Shade::BgLight => Rgb { r: 38, g: 40, b: 52 },
        Shade::BgActive => Rgb { r: 50, g: 52, b: 68 },
        Shade::BgHover => Rgb { r: 45, g: 47, b: 60 },
        Shade::Fg => Rgb { r: 200, g: 205, b: 220 },
        Shade::FgDim => Rgb { r: 120, g: 125, b: 140 },
        Shade::FgBright => Rgb { r: 235, g: 240, b: 255 },
        Shade::FgMuted => Rgb { r: 90, g: 95, b: 110 },
        Shade::Accent => Rgb { r: 116, g: 166, b: 255 },
        Shade::AccentPurple => Rgb { r: 180, g: 120, b: 255 },
        Shade::AccentPink => Rgb { r: 255, g: 120, b: 180 },
        Shade::AccentGreen => Rgb { r: 80, g: 220, b: 160 },
        Shade::AccentCyan => Rgb { r: 80, g: 220, b: 220 },
        Shade::AccentOrange => Rgb { r: 255, g: 160, b: 90 },
        Shade::AccentRed => Rgb { r: 255, g: 100, b: 100 },
        Shade::AccentYellow => Rgb { r: 255, g: 200, b: 80 },
        Shade::LineNum => Rgb { r: 80, g: 85, b: 100 },
        Shade::LineNumActive => Rgb { r: 180, g: 185, b: 200 },
        Shade::SelectionBg => Rgb { r: 50, g: 60, b: 90 },
        Shade::SearchMatchBg => Rgb { r: 120, g: 90, b: 40 },
        Shade::SearchMatchCurrent => Rgb { r: 180, g: 120, b: 50 },
        Shade::CursorColor => Rgb { r: 180, g: 190, b: 220 },
        Shade::BorderColor => Rgb { r: 60, g: 65, b: 85 },
        Shade::BorderFocus => Rgb { r: 116, g: 166, b: 255 },
        Shade::TreeDir => Rgb { r: 140, g: 170, b: 220 },
        Shade::TreeFile => Rgb { r: 200, g: 205, b: 220 },
        Shade::TreeSelectedBg => Rgb { r: 50, g: 60, b: 90 },
        Shade::TreeIconDir => Rgb { r: 255, g: 200, b: 80 },
        Shade::TreeIconFile => Rgb { r: 100, g: 180, b: 220 },
        Shade::TabActiveBg => Rgb { r: 38, g: 40, b: 52 },
        Shade::TabInactiveBg => Rgb { r: 28, g: 30, b: 40 },
        Shade::TabHoverBg => Rgb { r: 45, g: 47, b: 60 },
        Shade::TabSeparator => Rgb { r: 50, g: 55, b: 70 },
        Shade::StatusBg => Rgb { r: 20, g: 22, b: 30 },
        Shade::StatusFg => Rgb { r: 180, g: 185, b: 200 },
        Shade::ModeNormalBg => Rgb { r: 80, g: 220, b: 160 },
        Shade::ModeInsertBg => Rgb { r: 116, g: 166, b: 255 },
        Shade::ModeCmdBg => Rgb { r: 255, g: 160, b: 90 },
        Shade::ModeSearchBg => Rgb { r: 255, g: 200, b: 80 },
        Shade::ModeTreeBg => Rgb { r: 180, g: 120, b: 255 },
        Shade::ModeTermBg => Rgb { r: 255, g: 120, b: 180 },
        Shade::SyntaxKeyword => Rgb { r: 255, g: 120, b: 180 },
        Shade::SyntaxString => Rgb { r: 140, g: 200, b: 120 },
        Shade::SyntaxComment => Rgb { r: 90, g: 95, b: 110 },
        Shade::SyntaxFunction => Rgb { r: 116, g: 166, b: 255 },
        Shade::SyntaxType => Rgb { r: 255, g: 200, b: 80 },
        Shade::SyntaxNumber => Rgb { r: 255, g: 160, b: 90 },
        Shade::SyntaxVariable => Rgb { r: 200, g: 205, b: 220 },
        Shade::SyntaxConstant => Rgb { r: 140, g: 180, b: 255 },
    }
}

impl Shade {
    /// The colour this shade stands for.
    pub fn rgb(self) -> (c: Rgb)
        ensures
            c == shade_rgb(self),
    {
        match self {
            Shade::Bg => Rgb { r: 28, g: 30, b: 40 },
            Shade::BgDark => Rgb { r: 20, g: 22, b: 30 },
            Shade::BgLight => Rgb { r: 38, g: 40, b: 52 },
            Shade::BgActive => Rgb { r: 50, g: 52, b: 68 },
            Shade::BgHover => Rgb { r: 45, g: 47, b: 60 },
            Shade::Fg => Rgb { r: 200, g: 205, b: 220 },
            Shade::FgDim => Rgb { r: 120, g: 125, b: 140 },
            Shade::FgBright => Rgb { r: 235, g: 240, b: 255 },
            Shade::FgMuted => Rgb { r: 90, g: 95, b: 110 },
            Shade::Accent => Rgb { r: 116, g: 166, b: 255 },
            Shade::AccentPurple => Rgb { r: 180, g: 120, b: 255 },
            Shade::AccentPink => Rgb { r: 255, g: 120, b: 180 },
            Shade::AccentGreen => Rgb { r: 80, g: 220, b: 160 },
            Shade::AccentCyan => Rgb { r: 80, g: 220, b: 220 },
            Shade::AccentOrange => Rgb { r: 255, g: 160, b: 90 },
            Shade::AccentRed => Rgb { r: 255, g: 100, b: 100 },
            Shade::AccentYellow => Rgb { r: 255, g: 200, b: 80 },
            Shade::LineNum => Rgb { r: 80, g: 85, b: 100 },
            Shade::LineNumActive => Rgb { r: 180, g: 185, b: 200 },
            Shade::SelectionBg => Rgb { r: 50, g: 60, b: 90 },
            Shade::SearchMatchBg => Rgb { r: 120, g: 90, b: 40 },
            Shade::SearchMatchCurrent => Rgb { r: 180, g: 120, b: 50 },
            Shade::CursorColor => Rgb { r: 180, g: 190, b: 220 },
            Shade::BorderColor => Rgb { r: 60, g: 65, b: 85 },
            Shade::BorderFocus => Rgb { r: 116, g: 166, b: 255 },
            Shade::TreeDir => Rgb { r: 140, g: 170, b: 220 },
            Shade::TreeFile => Rgb { r: 200, g: 205, b: 220 },
            Shade::TreeSelectedBg => Rgb { r: 50, g: 60, b: 90 },
            Shade::TreeIconDir => Rgb { r: 255, g: 200, b: 80 },
            Shade::TreeIconFile => Rgb { r: 100, g: 180, b: 220 },
            Shade::TabActiveBg => Rgb { r: 38, g: 40, b: 52 },
            Shade::TabInactiveBg => Rgb { r: 28, g: 30, b: 40 },
            Shade::TabHoverBg => Rgb { r: 45, g: 47, b: 60 },
            Shade::TabSeparator => Rgb { r: 50, g: 55, b: 70 },
            Shade::StatusBg => Rgb { r: 20, g: 22, b: 30 },
            Shade::StatusFg => Rgb { r: 180, g: 185, b: 200 },
            Shade::ModeNormalBg => Rgb { r: 80, g: 220, b: 160 },
            Shade::ModeInsertBg => Rgb { r: 116, g: 166, b: 255 },
            Shade::ModeCmdBg => Rgb { r: 255, g: 160, b: 90 },
            Shade::ModeSearchBg => Rgb { r: 255, g: 200, b: 80 },
            Shade::ModeTreeBg => Rgb { r: 180, g: 120, b: 255 },
            Shade::ModeTermBg => Rgb { r: 255, g: 120, b: 180 },
            Shade::SyntaxKeyword => Rgb { r: 255, g: 120, b: 180 },
            Shade::SyntaxString => Rgb { r: 140, g: 200, b: 120 },
            Shade::SyntaxComment => Rgb { r: 90, g: 95, b: 110 },
            Shade::SyntaxFunction => Rgb { r: 116, g: 166, b: 255 },
            Shade::SyntaxType => Rgb { r: 255, g: 200, b: 80 },
            Shade::SyntaxNumber => Rgb { r: 255, g: 160, b: 90 },
            Shade::SyntaxVariable => Rgb { r: 200, g: 205, b: 220 },
            Shade::SyntaxConstant => Rgb { r: 140, g: 180, b: 255 },
        }
    }
}

/// How a piece of text is drawn: its colours, where set, and emphasis.
#[derive(Clone, Copy, Debug, PartialEq, Eq, Structural)]
pub struct Look {
    pub fg: Option<Rgb>,
    pub bg: Option<Rgb>,
    pub bold: bool,
    pub italic: bool,
    pub underlined: bool,
    pub reversed: bool,
}

/// The colour of an optional shade.
pub open spec fn opt_rgb(s: Option<Shade>) -> Option<Rgb> {
    match s {
        Some(x) => Some(shade_rgb(x)),
        None => None,
    }
}

/// A look made of theme shades.
pub open spec fn shaded(fg: Option<Shade>, bg: Option<Shade>, bold: bool, reversed: bool) -> Look {
    Look { fg: opt_rgb(fg), bg: opt_rgb(bg), bold, italic: false, underlined: false, reversed }
}

/// Text drawn as the terminal draws it by default.
pub open spec fn plain_look() -> Look {
    shaded(None, None, false, false)
}

/// A look made of theme shades.
pub fn shades(fg: Option<Shade>, bg: Option<Shade>, bold: bool, reversed: bool) -> (l: Look)
    ensures
        l == shaded(fg, bg, bold, reversed),
{
    let fg = match fg {
        Some(x) => Some(x.rgb()),
        None => None,
    };
    let bg = match bg {
        Some(x) => Some(x.rgb()),
        None => None,
    };
    Look { fg, bg, bold, italic: false, underlined: false, reversed }
}

/// Text drawn as the terminal draws it by default.
pub fn plain() -> (l: Look)
    ensures
        l == plain_look(),
{
    shades(None, None, false, false)
}

/// The look of a line number; the cursor's line is bright and bold.
pub open spec fn line_num_look(active: bool) -> Look {
    if active {
        shaded(Some(Shade::LineNumActive), Some(Shade::BgDark), true, false)
    } else {
        shaded(Some(Shade::LineNum), Some(Shade::BgDark), false, false)
    }
}

/// A line number in the gutter (see `line_num_look`).
pub fn line_num_style(active: bool) -> (l: Look)
    ensures
        l == line_num_look(active),
{
    if active {
        shades(Some(Shade::LineNumActive), Some(Shade::BgDark), true, false)
    } else {
        shades(Some(Shade::LineNum), Some(Shade::BgDark), false, false)
    }
}

/// The cell under the cursor.
pub fn cursor_style() -> (l: Look)
    ensures
        l == shaded(Some(Shade::Bg), Some(Shade::CursorColor), false, true),
{
    shades(Some(Shade::Bg), Some(Shade::CursorColor), false, true)
}

/// Selected text.
pub fn selection_style() -> (l: Look)
    ensures
        l == shaded(Some(Shade::FgBright), Some(Shade::SelectionBg), false, false),
{
    shades(Some(Shade::FgBright), Some(Shade::SelectionBg), false, false)
}

/// A search match.
pub fn search_match_style() -> (l: Look)
    ensures
        l == shaded(Some(Shade::FgBright), Some(Shade::SearchMatchBg), true, false),
{
    shades(Some(Shade::FgBright), Some(Shade::SearchMatchBg), true, false)
}

/// The current search match.
pub fn search_match_current_style() -> (l: Look)
    ensures
        l == shaded(Some(Shade::BgDark), Some(Shade::SearchMatchCurrent), true, false),
{
    shades(Some(Shade::BgDark), Some(Shade::SearchMatchCurrent), true, false)
}

/// A panel border, brighter when the panel has focus.
pub fn border_style(focused: bool) -> (l: Look)
    ensures
        l == (if focused {
            shaded(Some(Shade::BorderFocus), None, false, false)
        } else {
            shaded(Some(Shade::BorderColor), None, false, false)
        }),
{
    if focused {
        shades(Some(Shade::BorderFocus), None, false, false)
    } else {
        shades(Some(Shade::BorderColor), None, false, false)
    }
}

/// The background that marks a mode name in the status bar.
pub open spec fn mode_shade(mode: Seq<char>) -> Shade {
    if mode == "NORMAL"@ {
        Shade::ModeNormalBg
    } else if mode == "INSERT"@ {
        Shade::ModeInsertBg
    } else if mode == "CMD"@ || mode == "COMMAND"@ {
        Shade::ModeCmdBg
    } else if mode == "SEARCH"@ {
        Shade::ModeSearchBg
    } else if mode == "TREE"@ {
        Shade::ModeTreeBg
    } else if mode == "TERM"@ {
        Shade::ModeTermBg
    } else {
        Shade::Accent
    }
}

/// The mode name in the status bar: dark bold text on the mode's colour.
pub fn mode_style(mode: &str) -> (l: Look)
    ensures
        l == shaded(Some(Shade::BgDark), Some(mode_shade(mode@)), true, false),
{
    let bg = if crate::text::same_text(mode, "NORMAL") {
        Shade::ModeNormalBg
    } else if crate::text::same_text(mode, "INSERT") {
        Shade::ModeInsertBg
    } else if crate::text::same_text(mode, "CMD") || crate::text::same_text(mode, "COMMAND") {
        Shade::ModeCmdBg
    } else if crate::text::same_text(mode, "SEARCH") {
        Shade::ModeSearchBg
    } else if crate::text::same_text(mode, "TREE") {
        Shade::ModeTreeBg
    } else if crate::text::same_text(mode, "TERM") {
        Shade::ModeTermBg
    } else {
        Shade::Accent
    };
    shades(Some(Shade::BgDark), Some(bg), true, false)
}

/// A tab's title: the active one bright and bold, a hovered one lighter.
pub fn tab_style(is_active: bool, is_hovered: bool) -> (l: Look)
    ensures
        l == (if is_active {
            shaded(Some(Shade::FgBright), Some(Shade::TabActiveBg), true, false)
        } else if is_hovered {
            shaded(Some(Shade::Fg), Some(Shade::TabHoverBg), false, false)
        } else {
            shaded(Some(Shade::FgDim), Some(Shade::TabInactiveBg), false, false)
        }),
{
    if is_active {
        shades(Some(Shade::FgBright), Some(Shade::TabActiveBg), true, false)
    } else if is_hovered {
        shades(Some(Shade::Fg), Some(Shade::TabHoverBg), false, false)
    } else {
        shades(Some(Shade::FgDim), Some(Shade::TabInactiveBg), false, false)
    }
}

/// An entry of the file tree: the selected one highlighted, directories
/// in their own colour.
pub fn tree_file_style(is_dir: bool, selected: bool) -> (l: Look)
    ensures
        l == (if selected {
            shaded(Some(Shade::FgBright), Some(Shade::TreeSelectedBg), true, false)
        } else if is_dir {
            shaded(Some(Shade::TreeDir), None, false, false)
        } else {
            shaded(Some(Shade::TreeFile), None, false, false)
        }),
{
    if selected {
        shades(Some(Shade::FgBright), Some(Shade::TreeSelectedBg), true, false)
    } else if is_dir {
        shades(Some(Shade::TreeDir), None, false, false)
    } else {
        shades(Some(Shade::TreeFile), None, false, false)
    }
}

/// A piece of text and how it is drawn.
#[derive(Clone, Debug)]
pub struct Segment {
    pub text: String,
    pub look: Look,
}

impl View for Segment {
    type V = (Seq<char>, Look);

    open spec fn view(&self) -> (Seq<char>, Look) {
        (self.text@, self.look)
    }
}

/// The segments' texts and looks.
pub open spec fn segments_view(v: Seq<Segment>) -> Seq<(Seq<char>, Look)> {
    v.map_values(|s: Segment| s@)
}

/// A rectangle of the screen, in cells.
#[derive(Clone, Copy, Debug, PartialEq, Eq, Structural)]
pub struct Area {
    pub x: u16,
    pub y: u16,
    pub width: u16,
    pub height: u16,
}

/// `a - b`, or 0 when `b` is larger.
pub open spec fn sat_sub(a: int, b: int) -> int {
    if a > b {
        a - b
    } else {
        0
    }
}

/// The smaller of two numbers.
pub open spec fn min_of(a: int, b: int) -> int {
    if a < b {
        a
    } else {
        b
    }
}

} // verus!
