use vstd::prelude::*;
use crate::text::{push_char, pop_char, lowercase, to_lowercase, contains_seq, contains_chars, concat};
use crate::theme::{Look, Shade, Area, shaded, shades, sat_sub, min_of};

verus! {

/// A command that the palette offers: its name and what it does.
#[derive(Clone, Copy, Debug)]
pub struct CmdEntry {
    pub name: &'static str,
    pub desc: &'static str,
}

/// The palette's commands as (name, description), in the order shown.
pub open spec fn command_table() -> Seq<(Seq<char>, Seq<char>)> {
    seq![
        ("terminal"@, "Toggle integrated terminal"@),
        ("wsl"@, "Open WSL (Linux) terminal"@),
        ("save"@, "Save current file"@),
        ("save as"@, "Save current file with a new name"@),
        ("reload"@, "Reload file from disk"@),
        ("open"@, "Focus file tree"@),
        ("new file"@, "Create a new file tab"@),
        ("close tab"@, "Close current tab"@),
        ("close all"@, "Close all tabs"@),
        ("search"@, "Search in current file"@),
        ("replace"@, "Find and replace in file"@),
        ("select all"@, "Select entire file content"@),
        ("go to line"@, "Jump to a specific line number"@),
        ("delete line"@, "Delete the current line"@),
        ("duplicate line"@, "Duplicate the current line"@),
        ("project"@, "Create new project"@),
        ("help"@, "Show keybindings help"@),
        ("quit"@, "Exit the editor"@),
    ]
}

/// An entry as (name, description).
pub open spec fn entry_view(e: CmdEntry) -> (Seq<char>, Seq<char>) {
    (e.name@, e.desc@)
}

/// The palette's commands.
pub fn commands() -> (r: Vec<CmdEntry>)
    ensures
        r@.map_values(|e: CmdEntry| entry_view(e)) == command_table(),
{
    let r = vec![
        CmdEntry { name: "terminal", desc: "Toggle integrated terminal" },
        CmdEntry { name: "wsl", desc: "Open WSL (Linux) terminal" },
        CmdEntry { name: "save", desc: "Save current file" },
        CmdEntry { name: "save as", desc: "Save current file with a new name" },
        CmdEntry { name: "reload", desc: "Reload file from disk" },
        CmdEntry { name: "open", desc: "Focus file tree" },
        CmdEntry { name: "new file", desc: "Create a new file tab" },
        CmdEntry { name: "close tab", desc: "Close current tab" },
        CmdEntry { name: "close all", desc: "Close all tabs" },
        CmdEntry { name: "search", desc: "Search in current file" },
        CmdEntry { name: "replace", desc: "Find and replace in file" },
        CmdEntry { name: "select all", desc: "Select entire file content" },
        CmdEntry { name: "go to line", desc: "Jump to a specific line number" },
        CmdEntry { name: "delete line", desc: "Delete the current line" },
        CmdEntry { name: "duplicate line", desc: "Duplicate the current line" },
        CmdEntry { name: "project", desc: "Create new project" },
        CmdEntry { name: "help", desc: "Show keybindings help" },
        CmdEntry { name: "quit", desc: "Exit the editor" },
    ];
    assert(r@.map_values(|e: CmdEntry| entry_view(e)) =~= command_table());
    r
}

/// A command is shown for lowercased query `q` when `q` occurs in its name
/// or in its lowercased description.
pub open spec fn shown_for(e: (Seq<char>, Seq<char>), q: Seq<char>) -> bool {
    contains_seq(e.0, q) || contains_seq(lowercase(e.1), q)
}

/// The entries of `entries` shown for lowercased query `q`, in order.
pub open spec fn shown_entries(entries: Seq<(Seq<char>, Seq<char>)>, q: Seq<char>) -> Seq<
    (Seq<char>, Seq<char>),
>
    decreases entries.len(),
{
    if entries.len() == 0 {
        seq![]
    } else {
        let init = shown_entries(entries.drop_last(), q);
        if shown_for(entries.last(), q) {
            init.push(entries.last())
        } else {
            init
        }
    }
}

/// The commands listed for `query`: all of them for an empty query.
pub open spec fn listed(query: Seq<char>) -> Seq<(Seq<char>, Seq<char>)> {
    if query.len() == 0 {
        command_table()
    } else {
        shown_entries(command_table(), lowercase(query))
    }
}

/// The command palette: open or closed, the typed query, and which listed
/// command is selected.
pub struct CmdPalette {
    pub active: bool,
    pub query: String,
    pub selected: usize,
}

/// The abstract form of the palette's state.
pub struct PaletteModel {
    pub active: bool,
    pub query: Seq<char>,
    pub selected: usize,
}

impl PaletteModel {
    /// The palette opened or closed; opening starts with an empty query.
    pub open spec fn toggled(self) -> PaletteModel {
        if self.active {
            PaletteModel { active: false, ..self }
        } else {
            PaletteModel { active: true, query: seq![], selected: 0 }
        }
    }

    /// The next listed command selected, wrapping around.
    pub open spec fn next(self) -> PaletteModel {
        let n = listed(self.query).len();
        PaletteModel {
            selected: if n > 0 {
                ((self.selected + 1) % (n as int)) as usize
            } else {
                self.selected
            },
            ..self
        }
    }

    /// The previous listed command selected, wrapping around.
    pub open spec fn prev(self) -> PaletteModel {
        let n = listed(self.query).len();
        PaletteModel {
            selected: if n > 0 {
                if self.selected == 0 {
                    (n - 1) as usize
                } else {
                    (self.selected - 1) as usize
                }
            } else {
                self.selected
            },
            ..self
        }
    }

    /// The name of the selected command (the last listed one when the
    /// selection is past the end), or `None` when nothing is listed.
    pub open spec fn chosen(self) -> Option<Seq<char>> {
        let l = listed(self.query);
        if l.len() == 0 {
            None
        } else {
            Some(l[(if self.selected < l.len() { self.selected as int } else { l.len() - 1 })].0)
        }
    }
}

impl View for CmdPalette {
    type V = PaletteModel;

    open spec fn view(&self) -> PaletteModel {
        PaletteModel { active: self.active, query: self.query@, selected: self.selected }
    }
}

impl CmdPalette {
    pub fn new() -> (p: Self)
        ensures
            !p.active,
            p.query@.len() == 0,
            p.selected == 0,
    {
        Self { active: false, query: String::new(), selected: 0 }
    }

    /// Opens or closes the palette; opening starts with an empty query.
    pub fn toggle(&mut self)
        ensures
            final(self)@ == old(self)@.toggled(),
            final(self).active == !old(self).active,
            final(self).active ==> final(self).query@.len() == 0 && final(self).selected == 0,
            !final(self).active ==> final(self).query@ == old(self).query@ && final(self).selected
                == old(self).selected,
    {
        self.active = !self.active;
        if self.active {
            self.query = String::new();
            self.selected = 0;
        }
    }

    pub fn push_char(&mut self, ch: char)
        ensures
            final(self).query@ == old(self).query@.push(ch),
            final(self).selected == 0,
            final(self).active == old(self).active,
    {
        push_char(&mut self.query, ch);
        self.selected = 0;
    }

    pub fn pop_char(&mut self)
        ensures
            final(self).query@ == (if old(self).query@.len() > 0 {
                old(self).query@.drop_last()
            } else {
                old(self).query@
            }),
            final(self).selected == 0,
            final(self).active == old(self).active,
    {
        pop_char(&mut self.query);
        self.selected = 0;
    }

    /// Selects the next listed command, wrapping around.
    pub fn select_next(&mut self)
        ensures
            final(self)@ == old(self)@.next(),
            final(self).selected == (if listed(old(self).query@).len() > 0 {
                ((old(self).selected + 1) % (listed(old(self).query@).len() as int)) as usize
            } else {
                old(self).selected
            }),
            final(self).query@ == old(self).query@,
            final(self).active == old(self).active,
    {
        let count = self.filtered().len();
        if count > 0 {
            let c = self.selected;
            proof {
                vstd::arithmetic::div_mod::lemma_add_mod_noop(c as int, 1, count as int);
                vstd::arithmetic::div_mod::lemma_mod_bound(c as int, count as int);
                if count > 1 {
                    vstd::arithmetic::div_mod::lemma_small_mod(1, count as nat);
                } else {
                    vstd::arithmetic::div_mod::lemma_mod_bound((c + 1) as int, 1);
                }
            }
            self.selected = if count == 1 {
                0
            } else {
                (c % count + 1) % count
            };
        }
    }

    /// Selects the previous listed command, wrapping around.
    pub fn select_prev(&mut self)
        ensures
            final(self)@ == old(self)@.prev(),
            final(self).selected == (if listed(old(self).query@).len() > 0 {
                if old(self).selected == 0 {
                    (listed(old(self).query@).len() - 1) as usize
                } else {
                    (old(self).selected - 1) as usize
                }
            } else {
                old(self).selected
            }),
            final(self).query@ == old(self).query@,
            final(self).active == old(self).active,
    {
        let count = self.filtered().len();
        if count > 0 {
            self.selected = if self.selected == 0 {
                count - 1
            } else {
                self.selected - 1
            };
        }
    }

    /// The commands listed for the query: those whose name holds the
    /// lowercased query or whose lowercased description does.
    pub fn filtered(&self) -> (r: Vec<CmdEntry>)
        ensures
            r@.map_values(|e: CmdEntry| entry_view(e)) == listed(self.query@),
    {
        let all = commands();
        if self.query.as_str().is_empty() {
            return all;
        }
        let q = to_lowercase(self.query.as_str());
        let mut out: Vec<CmdEntry> = Vec::new();
        let n = all.len();
        let mut i: usize = 0;
        while i < n
            invariant
                n == all@.len(),
                i <= n,
                all@.map_values(|e: CmdEntry| entry_view(e)) == command_table(),
                q@ == lowercase(self.query@),
                out@.map_values(|e: CmdEntry| entry_view(e)) == shown_entries(
                    command_table().take(i as int),
                    q@,
                ),
            decreases n - i,
        {
            let e = all[i];
            let ghost entry = command_table()[i as int];
            assert(entry_view(e) == entry);
            assert(command_table().take(i + 1).drop_last() =~= command_table().take(i as int));
            let low = to_lowercase(e.desc);
            if contains_chars(e.name, q.as_str()) || contains_chars(low.as_str(), q.as_str()) {
                out.push(e);
            }
            assert(out@.map_values(|e: CmdEntry| entry_view(e)) =~= shown_entries(
                command_table().take(i + 1),
                q@,
            ));
            i = i + 1;
        }
        assert(command_table().take(n as int) =~= command_table());
        out
    }

    /// The name of the selected command (the last one listed when the
    /// selection is past the end), or `None` when nothing is listed.
    pub fn selected_cmd(&self) -> (r: Option<&'static str>)
        ensures
            match r {
                Some(n) => self@.chosen() == Some(n@),
                None => self@.chosen() is None,
            },
            listed(self.query@).len() == 0 ==> r is None,
            listed(self.query@).len() > 0 ==> r is Some && r->0@ == listed(self.query@)[(if self.selected
                < listed(self.query@).len() {
                self.selected as int
            } else {
                listed(self.query@).len() - 1
            })].0,
    {
        let filtered = self.filtered();
        if filtered.len() == 0 {
            return None;
        }
        let idx = if self.selected < filtered.len() - 1 {
            self.selected
        } else {
            filtered.len() - 1
        };
        let ghost f = |e: CmdEntry| entry_view(e);
        assert(filtered@.map_values(f)[idx as int] == f(filtered@[idx as int]));
        Some(filtered[idx].name)
    }
}


/// A row of the palette: the command's name, marked when selected, and its
/// description, each with its look.
pub struct PaletteRow {
    pub label: String,
    pub label_look: Look,
    pub desc: String,
    pub desc_look: Look,
}

/// No more commands are listed than there are.
pub proof fn lemma_shown_entries_len(entries: Seq<(Seq<char>, Seq<char>)>, q: Seq<char>)
    ensures
        shown_entries(entries, q).len() <= entries.len(),
    decreases entries.len(),
{
    if entries.len() > 0 {
        lemma_shown_entries_len(entries.drop_last(), q);
    }
}

/// At most all of the commands are listed.
pub proof fn lemma_listed_len(query: Seq<char>)
    ensures
        listed(query).len() <= command_table().len(),
        command_table().len() == 18,
{
    lemma_shown_entries_len(command_table(), lowercase(query));
}

/// Where the palette is drawn on a screen `width` by `height`: 50 columns
/// (less on a narrow screen), a line per listed command and 3 more (at
/// most 14 lines), centred, 2 lines from the top; nowhere when that is
/// under 10 columns or 3 lines.
pub open spec fn palette_popup(count: nat, width: u16, height: u16) -> Option<Area> {
    let w = min_of(50, sat_sub(width as int, 8));
    let h = min_of(min_of(count + 3int, sat_sub(height as int, 4)), 14);
    if w < 10 || h < 3 {
        None
    } else {
        Some(Area { x: ((width - w) / 2) as u16, y: 2, width: w as u16, height: h as u16 })
    }
}

impl CmdPalette {
    /// The rows of the listed commands: " > " before the selected one's
    /// name (bright on a lighter background), three spaces before the
    /// others', and "  — " before each description (dim).
    pub fn rows(&self) -> (r: Vec<PaletteRow>)
        ensures
            r@.len() == listed(self.query@).len(),
            forall|i: int|
                #![trigger r@[i]]
                0 <= i < r@.len() ==> {
                    let e = listed(self.query@)[i];
                    &&& r@[i].label@ == (if i == self.selected {
                        " > "@
                    } else {
                        "   "@
                    }) + e.0
                    &&& r@[i].label_look == (if i == self.selected {
                        shaded(Some(Shade::FgBright), Some(Shade::BgLight), false, false)
                    } else {
                        shaded(Some(Shade::Fg), None, false, false)
                    })
                    &&& r@[i].desc@ == "  — "@ + e.1
                    &&& r@[i].desc_look == shaded(Some(Shade::FgDim), None, false, false)
                },
    {
        let entries = self.filtered();
        let n = entries.len();
        let mut out: Vec<PaletteRow> = Vec::new();
        let mut i: usize = 0;
        while i < n
            invariant
                n == entries@.len(),
                entries@.map_values(|e: CmdEntry| entry_view(e)) == listed(self.query@),
                i <= n,
                out@.len() == i,
                forall|j: int|
                    #![trigger out@[j]]
                    0 <= j < i ==> {
                        let e = listed(self.query@)[j];
                        &&& out@[j].label@ == (if j == self.selected {
                            " > "@
                        } else {
                            "   "@
                        }) + e.0
                        &&& out@[j].label_look == (if j == self.selected {
                            shaded(Some(Shade::FgBright), Some(Shade::BgLight), false, false)
                        } else {
                            shaded(Some(Shade::Fg), None, false, false)
                        })
                        &&& out@[j].desc@ == "  — "@ + e.1
                        &&& out@[j].desc_look == shaded(Some(Shade::FgDim), None, false, false)
                    },
            decreases n - i,
        {
            let e = entries[i];
            assert(entries@.map_values(|e: CmdEntry| entry_view(e))[i as int] == entry_view(
                entries@[i as int],
            ));
            let selected = i == self.selected;
            let row = PaletteRow {
                label: concat(if selected { " > " } else { "   " }, e.name),
                label_look: if selected {
                    shades(Some(Shade::FgBright), Some(Shade::BgLight), false, false)
                } else {
                    shades(Some(Shade::Fg), None, false, false)
                },
                desc: concat("  — ", e.desc),
                desc_look: shades(Some(Shade::FgDim), None, false, false),
            };
            let ghost before = out@;
            assert(listed(self.query@)[i as int] == (e.name@, e.desc@));
            assert(row.label@ == (if selected {
                " > "@
            } else {
                "   "@
            }) + e.name@);
            out.push(row);
            assert(out@[i as int] == row);
            assert forall|j: int| 0 <= j < before.len() implies out@[j] == before[j] by {}
            i = i + 1;
        }
        out
    }

    /// The palette's title, with the query: " Commands: q ".
    pub fn title(&self) -> (r: String)
        ensures
            r@ == " Commands: "@ + self.query@ + " "@,
    {
        let a = concat(" Commands: ", self.query.as_str());
        concat(a.as_str(), " ")
    }

    /// The row shown as selected: the selection, or the last row when it is
    /// past the end; none when nothing is listed.
    pub fn highlighted_row(&self) -> (r: Option<usize>)
        ensures
            r == (if listed(self.query@).len() == 0 {
                None
            } else if self.selected < listed(self.query@).len() {
                Some(self.selected)
            } else {
                Some((listed(self.query@).len() - 1) as usize)
            }),
    {
        let n = self.filtered().len();
        if n == 0 {
            None
        } else if self.selected < n - 1 {
            Some(self.selected)
        } else {
            Some(n - 1)
        }
    }

    /// Where the palette is drawn (see `palette_popup`).
    pub fn popup(&self, width: u16, height: u16) -> (r: Option<Area>)
        ensures
            r == palette_popup(listed(self.query@).len(), width, height),
    {
        let n = self.filtered().len();
        proof {
            lemma_shown_entries_len(command_table(), lowercase(self.query@));
        }
        assert(n <= 18);
        let w: u16 = if width > 8 {
            let a = width - 8;
            if a < 50 {
                a
            } else {
                50
            }
        } else {
            0
        };
        let tall: u16 = if height > 4 {
            height - 4
        } else {
            0
        };
        let want = n as u16 + 3;
        let h1 = if want < tall {
            want
        } else {
            tall
        };
        let h = if h1 < 14 {
            h1
        } else {
            14
        };
        if w < 10 || h < 3 {
            None
        } else {
            Some(Area { x: (width - w) / 2, y: 2, width: w, height: h })
        }
    }
}

} // verus!
