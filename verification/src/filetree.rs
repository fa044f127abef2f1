use vstd::prelude::*;
use crate::text::{concat, char_vec, opt_view};

verus! {

/// One row of the file tree.
#[derive(Clone, Debug)]
pub struct FileNode {
    pub path: String,
    pub name: String,
    pub is_dir: bool,
    pub depth: usize,
    pub expanded: bool,
}

/// A directory entry as read from the file system: its path, its name and
/// whether it is a directory.
#[derive(Clone, Debug)]
pub struct DirEntryInfo {
    pub path: String,
    pub name: String,
    pub is_dir: bool,
}

/// The abstract form of a row.
pub struct NodeModel {
    pub path: Seq<char>,
    pub name: Seq<char>,
    pub is_dir: bool,
    pub depth: usize,
    pub expanded: bool,
}

/// The abstract form of a directory entry.
pub struct EntryModel {
    pub path: Seq<char>,
    pub name: Seq<char>,
    pub is_dir: bool,
}

impl View for FileNode {
    type V = NodeModel;

    open spec fn view(&self) -> NodeModel {
        NodeModel {
            path: self.path@,
            name: self.name@,
            is_dir: self.is_dir,
            depth: self.depth,
            expanded: self.expanded,
        }
    }
}

impl View for DirEntryInfo {
    type V = EntryModel;

    open spec fn view(&self) -> EntryModel {
        EntryModel { path: self.path@, name: self.name@, is_dir: self.is_dir }
    }
}

/// `a` comes before `b` in character order.
pub open spec fn name_before(a: Seq<char>, b: Seq<char>) -> bool
    decreases a.len(),
{
    if a.len() == 0 {
        b.len() > 0
    } else if b.len() == 0 {
        false
    } else if a[0] != b[0] {
        a[0] < b[0]
    } else {
        name_before(a.drop_first(), b.drop_first())
    }
}

/// Directories come before files; within each, names in character order.
pub open spec fn entry_before(a: EntryModel, b: EntryModel) -> bool {
    (a.is_dir && !b.is_dir) || (a.is_dir == b.is_dir && name_before(a.name, b.name))
}

/// Where a stable sort puts `e` among the already sorted `s`: after every
/// element that does not come after it.
pub open spec fn insert_pos(s: Seq<EntryModel>, e: EntryModel) -> int
    decreases s.len(),
{
    if s.len() > 0 && entry_before(e, s.last()) {
        insert_pos(s.drop_last(), e)
    } else {
        s.len() as int
    }
}

/// `s` sorted stably by `entry_before` (insertion order decides ties).
pub open spec fn sorted_entries(s: Seq<EntryModel>) -> Seq<EntryModel>
    decreases s.len(),
{
    if s.len() == 0 {
        seq![]
    } else {
        let t = sorted_entries(s.drop_last());
        t.insert(insert_pos(t, s.last()), s.last())
    }
}

/// A name the tree shows: not hidden (no leading dot), except ".gitignore".
pub open spec fn shown_name(name: Seq<char>) -> bool {
    !(name.len() > 0 && name[0] == '.') || name == ".gitignore"@
}

/// The shown entries of `s`, in order.
pub open spec fn shown_entries(s: Seq<EntryModel>) -> Seq<EntryModel>
    decreases s.len(),
{
    if s.len() == 0 {
        seq![]
    } else if shown_name(s.last().name) {
        shown_entries(s.drop_last()).push(s.last())
    } else {
        shown_entries(s.drop_last())
    }
}

/// The rows of a tree for directory `root` named `root_name`, holding
/// `entries`: the root (expanded, depth 0), then the shown entries sorted,
/// at depth 1 and collapsed.
pub open spec fn tree_rows(root: Seq<char>, root_name: Option<Seq<char>>, entries: Seq<EntryModel>) -> Seq<
    NodeModel,
> {
    seq![
        NodeModel {
            path: root,
            name: match root_name {
                Some(n) => n,
                None => "~"@,
            },
            is_dir: true,
            depth: 0,
            expanded: true,
        },
    ] + sorted_entries(shown_entries(entries)).map_values(|e: EntryModel| child_row(e))
}

/// The row of a root entry: depth 1, collapsed.
pub open spec fn child_row(e: EntryModel) -> NodeModel {
    child_at(e, 1)
}

/// The row of an entry at depth `depth`, collapsed.
pub open spec fn child_at(e: EntryModel, depth: usize) -> NodeModel {
    NodeModel { path: e.path, name: e.name, is_dir: e.is_dir, depth, expanded: false }
}

/// The end of the rows below row `i`, looking from row `j` on: the first
/// row that is no deeper than row `i`, or the end.
pub open spec fn subtree_end(nodes: Seq<NodeModel>, i: int, j: int) -> int
    decreases nodes.len() - j,
{
    if j >= nodes.len() || nodes[j].depth <= nodes[i].depth {
        j
    } else {
        subtree_end(nodes, i, j + 1)
    }
}

/// `a` comes before `b` in character order.
pub fn name_lt(a: &str, b: &str) -> (r: bool)
    ensures
        r == name_before(a@, b@),
{
    let av = char_vec(a);
    let bv = char_vec(b);
    let mut i: usize = 0;
    assert(a@.skip(0) =~= a@);
    assert(b@.skip(0) =~= b@);
    loop
        invariant
            av@ == a@,
            bv@ == b@,
            i <= a@.len(),
            i <= b@.len(),
            name_before(a@, b@) == name_before(a@.skip(i as int), b@.skip(i as int)),
        decreases a@.len() - i,
    {
        if i == av.len() {
            return i < bv.len();
        }
        if i == bv.len() {
            return false;
        }
        if av[i] != bv[i] {
            return av[i] < bv[i];
        }
        assert(a@.skip(i as int).drop_first() =~= a@.skip(i + 1));
        assert(b@.skip(i as int).drop_first() =~= b@.skip(i + 1));
        i = i + 1;
    }
}

fn entry_lt(a: &DirEntryInfo, b: &DirEntryInfo) -> (r: bool)
    ensures
        r == entry_before(a@, b@),
{
    (a.is_dir && !b.is_dir) || (a.is_dir == b.is_dir && name_lt(a.name.as_str(), b.name.as_str()))
}

/// Whether the tree shows an entry with this name.
fn is_shown(name: &str) -> (r: bool)
    ensures
        r == shown_name(name@),
{
    let v = char_vec(name);
    let hidden = v.len() > 0 && v[0] == '.';
    !hidden || name.to_owned() == String::from_str(".gitignore")
}

/// A copy of `e`.
fn copy_entry(e: &DirEntryInfo) -> (r: DirEntryInfo)
    ensures
        r@ == e@,
{
    DirEntryInfo { path: e.path.clone(), name: e.name.clone(), is_dir: e.is_dir }
}

/// The shown entries of `entries`, sorted (see `tree_rows`).
pub fn arrange(entries: &Vec<DirEntryInfo>) -> (r: Vec<DirEntryInfo>)
    ensures
        r@.map_values(|e: DirEntryInfo| e@) == sorted_entries(
            shown_entries(entries@.map_values(|e: DirEntryInfo| e@)),
        ),
{
    let ghost all = entries@.map_values(|e: DirEntryInfo| e@);
    let ghost mut shown: Seq<EntryModel> = seq![];
    let mut sorted: Vec<DirEntryInfo> = Vec::new();
    let n = entries.len();
    let mut i: usize = 0;
    while i < n
        invariant
            n == entries@.len(),
            i <= n,
            all == entries@.map_values(|e: DirEntryInfo| e@),
            shown == shown_entries(all.take(i as int)),
            sorted@.map_values(|e: DirEntryInfo| e@) == sorted_entries(shown),
        decreases n - i,
    {
        let e = copy_entry(&entries[i]);
        assert(all.take(i + 1).drop_last() =~= all.take(i as int));
        assert(all.take(i + 1).last() == e@);
        if is_shown(e.name.as_str()) {
            let ghost t = sorted@.map_values(|x: DirEntryInfo| x@);
            let mut pos = sorted.len();
            assert(t.take(pos as int) =~= t);
            while pos > 0 && entry_lt(&e, &sorted[pos - 1])
                invariant
                    pos <= sorted@.len(),
                    t == sorted@.map_values(|x: DirEntryInfo| x@),
                    insert_pos(t, e@) == insert_pos(t.take(pos as int), e@),
                decreases pos,
            {
                assert(t.take(pos as int).drop_last() =~= t.take(pos - 1));
                pos = pos - 1;
            }
            proof {
                if pos > 0 {
                    assert(t.take(pos as int).last() == t[pos - 1]);
                }
            }
            let ghost e_model = e@;
            sorted.insert(pos, e);
            proof {
                assert(shown_entries(all.take(i + 1)) == shown.push(e_model));
                assert(shown.push(e_model).drop_last() =~= shown);
                assert(sorted@.map_values(|x: DirEntryInfo| x@) =~= t.insert(pos as int, e_model));
                shown = shown.push(e_model);
            }
        }
        i = i + 1;
    }
    assert(all.take(n as int) =~= all);
    sorted
}

/// The abstract form of a file tree: its rows, the selected row, its root.
pub struct TreeModel {
    pub nodes: Seq<NodeModel>,
    pub selected: Option<usize>,
    pub root: Seq<char>,
}

impl TreeModel {
    /// The selected row, when it exists.
    pub open spec fn selected_row(self) -> Option<int> {
        match self.selected {
            Some(i) => if i < self.nodes.len() {
                Some(i as int)
            } else {
                None
            },
            None => None,
        }
    }

    pub open spec fn selected_path(self) -> Option<Seq<char>> {
        match self.selected_row() {
            Some(i) => Some(self.nodes[i].path),
            None => None,
        }
    }

    /// The selected row exists and is a directory.
    pub open spec fn on_directory(self) -> bool {
        self.selected_row() matches Some(i) && self.nodes[i].is_dir
    }

    /// The selected row is an open directory.
    pub open spec fn on_open_directory(self) -> bool {
        self.on_directory() && self.nodes[self.selected_row()->0].expanded
    }

    /// The selected row is a closed directory whose rows can go one level
    /// deeper.
    pub open spec fn on_closed_directory(self) -> bool {
        self.on_directory() && !self.nodes[self.selected_row()->0].expanded
            && self.nodes[self.selected_row()->0].depth < usize::MAX
    }

    /// The selected open directory closed: marked closed, and the rows
    /// below it (all deeper rows up to the next row no deeper than it)
    /// removed. The rows before it and the selection stay.
    pub open spec fn collapsed(self) -> TreeModel {
        let i = self.selected_row()->0;
        TreeModel {
            nodes: self.nodes.take(i) + seq![NodeModel { expanded: false, ..self.nodes[i] }]
                + self.nodes.skip(subtree_end(self.nodes, i, i + 1)),
            ..self
        }
    }

    /// The selected closed directory opened on its listing `entries`:
    /// marked open and directly followed by its shown entries, directories
    /// first, each group by name, one level deeper and closed. The rows
    /// before and after it and the selection stay.
    pub open spec fn expanded_with(self, entries: Seq<EntryModel>) -> TreeModel {
        let i = self.selected_row()->0;
        let d = self.nodes[i].depth;
        TreeModel {
            nodes: self.nodes.take(i) + seq![NodeModel { expanded: true, ..self.nodes[i] }]
                + sorted_entries(shown_entries(entries)).map_values(
                |e: EntryModel| child_at(e, (d + 1) as usize),
            ) + self.nodes.skip(i + 1),
            ..self
        }
    }

    /// The selection moved one row down, staying on the last row.
    pub open spec fn next_selected(self) -> TreeModel {
        if self.nodes.len() == 0 {
            self
        } else {
            let i = match self.selected {
                Some(i) => i as int,
                None => 0,
            };
            TreeModel {
                selected: Some((if i + 1 < self.nodes.len() { i + 1 } else { self.nodes.len() - 1 }) as usize),
                ..self
            }
        }
    }

    /// The selection moved one row up, staying on the first row.
    pub open spec fn prev_selected(self) -> TreeModel {
        if self.nodes.len() == 0 {
            self
        } else {
            let i = match self.selected {
                Some(i) => i as int,
                None => 0,
            };
            TreeModel { selected: Some((if i > 0 { i - 1 } else { 0 }) as usize), ..self }
        }
    }
}

/// The file tree beside the editor: one row per shown entry of the root
/// directory, and the selected row.
pub struct FileTree {
    nodes: Vec<FileNode>,
    selected: Option<usize>,
    root: String,
}

impl View for FileTree {
    type V = TreeModel;

    closed spec fn view(&self) -> TreeModel {
        TreeModel {
            nodes: self.nodes@.map_values(|n: FileNode| n@),
            selected: self.selected,
            root: self.root@,
        }
    }
}

/// The rows for `root` (see `tree_rows`).
fn build_rows(root: &str, root_name: Option<String>, entries: &Vec<DirEntryInfo>) -> (r: Vec<FileNode>)
    ensures
        r@.map_values(|n: FileNode| n@) == tree_rows(
            root@,
            opt_view(root_name),
            entries@.map_values(|e: DirEntryInfo| e@),
        ),
{
    let ghost rn = opt_view(root_name);
    let name = match root_name {
        Some(n) => n,
        None => String::from_str("~"),
    };
    let mut rows: Vec<FileNode> = Vec::new();
    rows.push(FileNode { path: root.to_owned(), name, is_dir: true, depth: 0, expanded: true });
    let sorted = arrange(entries);
    let ghost sm = sorted@.map_values(|e: DirEntryInfo| e@);
    let n = sorted.len();
    let mut i: usize = 0;
    while i < n
        invariant
            n == sorted@.len(),
            i <= n,
            sm == sorted@.map_values(|e: DirEntryInfo| e@),
            rows@.map_values(|x: FileNode| x@) == seq![tree_rows(root@, rn, entries@.map_values(|e: DirEntryInfo| e@))[0]]
                + sm.take(i as int).map_values(|e: EntryModel| child_row(e)),
        decreases n - i,
    {
        let e = copy_entry(&sorted[i]);
        let ghost prev = rows@.map_values(|x: FileNode| x@);
        let ghost em = e@;
        assert(em == sm[i as int]);
        let node = FileNode { path: e.path, name: e.name, is_dir: e.is_dir, depth: 1, expanded: false };
        assert(node@ == child_row(em));
        rows.push(node);
        assert(rows@.map_values(|x: FileNode| x@) =~= prev.push(child_row(em)));
        assert(sm.take(i + 1) =~= sm.take(i as int).push(sm[i as int]));
        assert(sm.take(i + 1).map_values(|e: EntryModel| child_row(e)) =~= sm.take(i as int).map_values(|e: EntryModel| child_row(e)).push(child_row(em)));
        i = i + 1;
    }
    assert(sm.take(n as int) =~= sm);
    assert(rows@.map_values(|x: FileNode| x@) =~= tree_rows(root@, rn, entries@.map_values(|e: DirEntryInfo| e@)));
    rows
}

/// A copy of a row.
fn copy_node(n: &FileNode) -> (r: FileNode)
    ensures
        r@ == n@,
{
    FileNode { path: n.path.clone(), name: n.name.clone(), is_dir: n.is_dir, depth: n.depth, expanded: n.expanded }
}

/// The rows before `i`, then `row`, then `middle`, then the rows from
/// `from` on.
fn splice(nodes: &Vec<FileNode>, i: usize, row: FileNode, middle: Vec<FileNode>, from: usize) -> (r: Vec<
    FileNode,
>)
    requires
        i < from <= nodes@.len(),
    ensures
        r@.map_values(|x: FileNode| x@) == nodes@.map_values(|x: FileNode| x@).take(i as int) + seq![row@]
            + middle@.map_values(|x: FileNode| x@) + nodes@.map_values(|x: FileNode| x@).skip(from as int),
{
    let ghost all = nodes@.map_values(|x: FileNode| x@);
    let ghost mid = middle@.map_values(|x: FileNode| x@);
    let mut out: Vec<FileNode> = Vec::new();
    let mut j: usize = 0;
    while j < i
        invariant
            j <= i,
            i < from <= nodes@.len(),
            all == nodes@.map_values(|x: FileNode| x@),
            out@.map_values(|x: FileNode| x@) == all.take(j as int),
        decreases i - j,
    {
        out.push(copy_node(&nodes[j]));
        assert(all.take(j + 1) =~= all.take(j as int).push(all[j as int]));
        assert(out@.map_values(|x: FileNode| x@) =~= all.take(j + 1));
        j = j + 1;
    }
    let ghost r = row@;
    out.push(row);
    assert(out@.map_values(|x: FileNode| x@) =~= all.take(i as int) + seq![r]);
    let mut m = middle;
    let ghost before_mid = out@.map_values(|x: FileNode| x@);
    out.append(&mut m);
    assert(out@.map_values(|x: FileNode| x@) =~= before_mid + mid);
    let n = nodes.len();
    let ghost head = out@.map_values(|x: FileNode| x@);
    let mut j = from;
    while j < n
        invariant
            from <= j <= n,
            n == nodes@.len(),
            all == nodes@.map_values(|x: FileNode| x@),
            out@.map_values(|x: FileNode| x@) == head + all.subrange(from as int, j as int),
        decreases n - j,
    {
        let ghost prev = out@.map_values(|x: FileNode| x@);
        let c = copy_node(&nodes[j]);
        assert(c@ == all[j as int]);
        out.push(c);
        assert(out@.map_values(|x: FileNode| x@) =~= prev.push(all[j as int]));
        assert(all.subrange(from as int, j + 1) =~= all.subrange(from as int, j as int).push(all[j as int]));
        assert(out@.map_values(|x: FileNode| x@) =~= head + all.subrange(from as int, j + 1));
        j = j + 1;
    }
    assert(all.subrange(from as int, n as int) =~= all.skip(from as int));
    out
}

impl FileTree {
    /// A tree for directory `root` (named `root_name`) holding `entries`,
    /// with the root row selected.
    pub fn new(root: &str, root_name: Option<String>, entries: &Vec<DirEntryInfo>) -> (t: Self)
        ensures
            t@.nodes == tree_rows(
                root@,
                opt_view(root_name),
                entries@.map_values(|e: DirEntryInfo| e@),
            ),
            t@.selected == Some(0usize),
            t@.root == root@,
    {
        let nodes = build_rows(root, root_name, entries);
        FileTree { nodes, selected: Some(0), root: root.to_owned() }
    }

    /// The rows rebuilt from a new reading of the root directory; the
    /// selection is kept.
    pub fn scan(&mut self, root_name: Option<String>, entries: &Vec<DirEntryInfo>)
        ensures
            final(self)@ == (TreeModel {
                nodes: tree_rows(
                    old(self)@.root,
                    opt_view(root_name),
                    entries@.map_values(|e: DirEntryInfo| e@),
                ),
                ..old(self)@
            }),
    {
        self.nodes = build_rows(self.root.as_str(), root_name, entries);
    }

    pub fn root(&self) -> (r: &str)
        ensures
            r@ == self@.root,
    {
        self.root.as_str()
    }

    pub fn nodes(&self) -> (r: &Vec<FileNode>)
        ensures
            r@.map_values(|n: FileNode| n@) == self@.nodes,
    {
        &self.nodes
    }

    pub fn selected(&self) -> (r: Option<usize>)
        ensures
            r == self@.selected,
    {
        self.selected
    }

    /// Closes the selected directory when it is open (see `collapsed`);
    /// returns whether it is a closed one instead, whose listing is then
    /// to be read and handed to `expand`.
    pub fn toggle_expand(&mut self) -> (wants_listing: bool)
        ensures
            wants_listing == old(self)@.on_closed_directory(),
            old(self)@.on_open_directory() ==> final(self)@ == old(self)@.collapsed(),
            !old(self)@.on_open_directory() ==> final(self)@ == old(self)@,
    {
        let idx = match self.selected {
            Some(i) => i,
            None => return false,
        };
        if idx >= self.nodes.len() || !self.nodes[idx].is_dir {
            return false;
        }
        if !self.nodes[idx].expanded {
            return self.nodes[idx].depth < usize::MAX;
        }
        let ghost before = self@;
        let d = self.nodes[idx].depth;
        let n = self.nodes.len();
        let mut end = idx + 1;
        while end < n && self.nodes[end].depth > d
            invariant
                idx < end <= n,
                n == self@.nodes.len(),
                self@ == before,
                d == before.nodes[idx as int].depth,
                subtree_end(before.nodes, idx as int, idx + 1) == subtree_end(before.nodes, idx as int, end as int),
            decreases n - end,
        {
            end = end + 1;
        }
        let mut node = copy_node(&self.nodes[idx]);
        node.expanded = false;
        let rows = splice(&self.nodes, idx, node, Vec::new(), end);
        self.nodes = rows;
        assert(self@.nodes =~= before.collapsed().nodes);
        false
    }

    /// Opens the selected closed directory on its listing `entries` (see
    /// `expanded_with`); returns whether it did. Nothing changes when the
    /// selected row is not a closed directory.
    pub fn expand(&mut self, entries: &Vec<DirEntryInfo>) -> (done: bool)
        ensures
            done == old(self)@.on_closed_directory(),
            done ==> final(self)@ == old(self)@.expanded_with(entries@.map_values(|e: DirEntryInfo| e@)),
            !done ==> final(self)@ == old(self)@,
    {
        let idx = match self.selected {
            Some(i) => i,
            None => return false,
        };
        if idx >= self.nodes.len() || !self.nodes[idx].is_dir || self.nodes[idx].expanded
            || self.nodes[idx].depth == usize::MAX {
            return false;
        }
        let ghost before = self@;
        let d = self.nodes[idx].depth + 1;
        let sorted = arrange(entries);
        let ghost sm = sorted@.map_values(|e: DirEntryInfo| e@);
        let mut kids: Vec<FileNode> = Vec::new();
        let k = sorted.len();
        let mut i: usize = 0;
        while i < k
            invariant
                k == sorted@.len(),
                i <= k,
                sm == sorted@.map_values(|e: DirEntryInfo| e@),
                kids@.map_values(|x: FileNode| x@) == sm.take(i as int).map_values(|e: EntryModel| child_at(e, d)),
            decreases k - i,
        {
            let e = copy_entry(&sorted[i]);
            let ghost em = e@;
            assert(em == sm[i as int]);
            let ghost prev = kids@.map_values(|x: FileNode| x@);
            kids.push(FileNode { path: e.path, name: e.name, is_dir: e.is_dir, depth: d, expanded: false });
            assert(kids@.map_values(|x: FileNode| x@) =~= prev.push(child_at(em, d)));
            assert(sm.take(i + 1) =~= sm.take(i as int).push(sm[i as int]));
            assert(sm.take(i + 1).map_values(|e: EntryModel| child_at(e, d)) =~= sm.take(i as int).map_values(|e: EntryModel| child_at(e, d)).push(child_at(em, d)));
            i = i + 1;
        }
        assert(sm.take(k as int) =~= sm);
        let mut node = copy_node(&self.nodes[idx]);
        node.expanded = true;
        let rows = splice(&self.nodes, idx, node, kids, idx + 1);
        self.nodes = rows;
        assert(self@.nodes =~= before.expanded_with(entries@.map_values(|e: DirEntryInfo| e@)).nodes);
        true
    }

    /// The path of the selected row, if a row is selected.
    pub fn selected_path(&self) -> (r: Option<String>)
        ensures
            opt_view(r) == self@.selected_path(),
    {
        match self.selected {
            Some(idx) => if idx < self.nodes.len() {
                Some(self.nodes[idx].path.clone())
            } else {
                None
            },
            None => None,
        }
    }

    /// Selects the next row, staying on the last.
    pub fn select_next(&mut self)
        ensures
            final(self)@ == old(self)@.next_selected(),
    {
        let len = self.nodes.len();
        if len == 0 {
            return ;
        }
        let i = match self.selected {
            Some(i) => i,
            None => 0,
        };
        self.selected = Some(if i < len - 1 { i + 1 } else { len - 1 });
    }

    /// Selects the previous row, staying on the first.
    pub fn select_prev(&mut self)
        ensures
            final(self)@ == old(self)@.prev_selected(),
    {
        let len = self.nodes.len();
        if len == 0 {
            return ;
        }
        let i = match self.selected {
            Some(i) => i,
            None => 0,
        };
        self.selected = Some(if i > 0 { i - 1 } else { 0 });
    }
}

/// Two spaces per level of depth.
pub open spec fn indent(depth: nat) -> Seq<char>
    decreases depth,
{
    if depth == 0 {
        seq![]
    } else {
        indent((depth - 1) as nat) + "  "@
    }
}

/// The text of a row: indented, a directory marked open or closed.
pub open spec fn row_label(n: NodeModel) -> Seq<char> {
    if n.is_dir {
        indent(n.depth as nat) + (if n.expanded {
            "\u{25bc} "@
        } else {
            "\u{25b6} "@
        }) + n.name
    } else {
        indent(n.depth as nat) + n.name
    }
}

/// The text of a row (see `row_label`).
pub fn node_label(n: &FileNode) -> (r: String)
    ensures
        r@ == row_label(n@),
{
    let mut pad = String::new();
    let mut d: usize = 0;
    assert(pad@ =~= indent(0));
    while d < n.depth
        invariant
            d <= n.depth,
            pad@ == indent(d as nat),
        decreases n.depth - d,
    {
        pad = concat(pad.as_str(), "  ");
        d = d + 1;
    }
    if n.is_dir {
        let marker = if n.expanded {
            "\u{25bc} "
        } else {
            "\u{25b6} "
        };
        let a = concat(pad.as_str(), marker);
        concat(a.as_str(), n.name.as_str())
    } else {
        concat(pad.as_str(), n.name.as_str())
    }
}


/// The look of a tree row: directories in their own colour.
pub fn node_look(n: &FileNode) -> (r: crate::theme::Look)
    ensures
        r == (if n.is_dir {
            crate::theme::shaded(Some(crate::theme::Shade::TreeDir), None, false, false)
        } else {
            crate::theme::shaded(Some(crate::theme::Shade::TreeFile), None, false, false)
        }),
{
    if n.is_dir {
        crate::theme::shades(Some(crate::theme::Shade::TreeDir), None, false, false)
    } else {
        crate::theme::shades(Some(crate::theme::Shade::TreeFile), None, false, false)
    }
}

/// The look of the selected tree row.
pub fn selected_row_look() -> (r: crate::theme::Look)
    ensures
        r == crate::theme::shaded(
            Some(crate::theme::Shade::FgBright),
            Some(crate::theme::Shade::TreeSelectedBg),
            false,
            false,
        ),
{
    crate::theme::shades(
        Some(crate::theme::Shade::FgBright),
        Some(crate::theme::Shade::TreeSelectedBg),
        false,
        false,
    )
}

} // verus!
