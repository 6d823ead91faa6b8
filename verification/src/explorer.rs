//! The explorer: its tree, its columns, its breadcrumbs and its menu.

use vstd::prelude::*;
use vstd::string::*;
use crate::paths::{
    components, components_of, file_name, folder_of, folders_have_all_but_the_last_component, in_folder,
    is_same_path, later_components_are_names, lies_in, lying_in_is_an_order, name_of, names_in_folders_come_last,
    parent_folder, path_in, path_lies_in, paths_lie_in_folders, relative_to, same_path, seen_from,
};
use crate::seqs::{first_index, first_index_holds, first_index_is, first_index_none, maybe_text};
use crate::text::{texts, texts_push};
use crate::workspace::{Chrome, Effect, Surface, Workspace};

verus! {

/// A row of the tree.
pub struct TreeRow {
    pub path: String,
    pub name: String,
    pub depth: usize,
    pub is_dir: bool,
    pub is_expanded: bool,
    /// Git does not look at it.
    pub ignored: bool,
}

#[derive(Clone, Copy, PartialEq, Eq, Structural, Debug)]
pub enum NamingKind {
    NewFile,
    NewDir,
    Rename,
}

/// Something is being named in the tree.
pub struct Naming {
    pub kind: NamingKind,
    /// The folder that something new is to be in.
    pub parent: String,
    /// What is being renamed.
    pub target: Option<String>,
}

/// What stands in the tree: a row, or the input for a name at a depth.
#[derive(Clone, Copy, PartialEq, Eq, Structural, Debug)]
pub enum TreeItem {
    Row(usize),
    Input(usize),
}

/// The row is the one that is being renamed.
pub open spec fn is_renamed(naming: Option<Naming>, row: TreeRow) -> bool {
    naming matches Some(n) && n.kind == NamingKind::Rename && (n.target matches Some(target)
        && same_path(target@, row.path@))
}

/// Something new is being named in the folder of the row.
pub open spec fn is_named_in(naming: Option<Naming>, row: TreeRow) -> bool {
    naming matches Some(n) && n.kind != NamingKind::Rename && row.is_dir && same_path(
        n.parent@,
        row.path@,
    )
}

/// Something new is being named at the root.
pub open spec fn is_named_at_root(naming: Option<Naming>, root: Seq<char>) -> bool {
    naming matches Some(n) && n.kind != NamingKind::Rename && same_path(n.parent@, root)
}

/// What stands in the tree for the first `n` rows.
pub open spec fn items_below(rows: Seq<TreeRow>, naming: Option<Naming>, root: Seq<char>, n: int) -> Seq<TreeItem>
    decreases n,
{
    if n <= 0 {
        if is_named_at_root(naming, root) {
            seq![TreeItem::Input(0)]
        } else {
            Seq::empty()
        }
    } else {
        let before = items_below(rows, naming, root, n - 1);
        let row = rows[n - 1];
        if is_renamed(naming, row) {
            before.push(TreeItem::Input(row.depth))
        } else if is_named_in(naming, row) {
            before.push(TreeItem::Row((n - 1) as usize)).push(TreeItem::Input((row.depth + 1) as usize))
        } else {
            before.push(TreeItem::Row((n - 1) as usize))
        }
    }
}

/// What stands in the tree: its rows, with the input for a name in the place of the row that is
/// renamed, or below the folder that something new is to be in.
pub fn tree_items(rows: &Vec<TreeRow>, naming: &Option<Naming>, root: &String) -> (items: Vec<TreeItem>)
    requires
        forall|i: int| 0 <= i < rows@.len() ==> (#[trigger] rows@[i]).depth < usize::MAX,
    ensures
        items@ == items_below(rows@, *naming, root@, rows@.len() as int),
{
    let mut items: Vec<TreeItem> = Vec::new();
    if let Some(n) = naming {
        if n.kind != NamingKind::Rename && is_same_path(n.parent.as_str(), root.as_str()) {
            items.push(TreeItem::Input(0));
        }
    }
    assert(items@ =~= items_below(rows@, *naming, root@, 0));
    let mut i: usize = 0;
    while i < rows.len()
        invariant
            i <= rows@.len(),
            forall|k: int| 0 <= k < rows@.len() ==> (#[trigger] rows@[k]).depth < usize::MAX,
            items@ == items_below(rows@, *naming, root@, i as int),
        decreases rows@.len() - i,
    {
        let row = &rows[i];
        assert(rows@[i as int].depth < usize::MAX);
        let (renamed, named_in) = match naming {
            Some(n) => {
                let renaming = n.kind == NamingKind::Rename;
                let targeted = match &n.target {
                    Some(target) => is_same_path(target.as_str(), row.path.as_str()),
                    None => false,
                };
                let inside = is_same_path(n.parent.as_str(), row.path.as_str());
                (renaming && targeted, !renaming && row.is_dir && inside)
            },
            None => (false, false),
        };
        if renamed {
            items.push(TreeItem::Input(row.depth));
        } else {
            items.push(TreeItem::Row(i));
            if named_in {
                items.push(TreeItem::Input(row.depth + 1));
            }
        }
        i = i + 1;
    }
    items
}

/// A file that git has something to say about.
pub struct StatusEntry {
    pub path: String,
    /// What it says, by number.
    pub kind: u8,
}

/// The entry is of this path.
pub open spec fn status_of(path: Seq<char>) -> spec_fn(StatusEntry) -> bool {
    |entry: StatusEntry| same_path(entry.path@, path)
}

/// A file that an agent has touched.
pub struct TouchedFile {
    pub path: String,
    /// The color of the thread that touched it.
    pub color: usize,
}

/// The entry is of this path.
pub open spec fn touched_at(path: Seq<char>) -> spec_fn(TouchedFile) -> bool {
    |entry: TouchedFile| same_path(entry.path@, path)
}

/// What opens and closes a folder.
#[derive(Clone, Copy, PartialEq, Eq, Structural, Debug)]
pub enum Chevron {
    Open,
    Closed,
    /// A file has none.
    Nothing,
}

/// How a row of the tree looks.
pub struct TreeRowLook {
    pub selected: bool,
    pub chevron: Chevron,
    /// What git says about a file.
    pub status: Option<u8>,
    /// Something in the folder has changed.
    pub dirty_inside: bool,
    pub faded: bool,
    /// What a file is mentioned as where it is dragged into a message: its path in the project.
    pub mention: Option<String>,
    /// The color of the thread that has touched it.
    pub touched: Option<usize>,
}

/// Something has changed in the folder.
pub open spec fn changed_in(statuses: Seq<StatusEntry>, dir: Seq<char>) -> bool {
    exists|i: int| 0 <= i < statuses.len() && lies_in((#[trigger] statuses[i]).path@, dir)
}

/// How a row of the tree looks, in the project at `root`.
pub fn tree_row_look(
    row: &TreeRow,
    selected: &Option<String>,
    statuses: &Vec<StatusEntry>,
    root: &str,
    touched: &Vec<TouchedFile>,
) -> (look: TreeRowLook)
    ensures
        look.selected == (selected matches Some(path) && same_path(path@, row.path@)),
        look.chevron == if !row.is_dir {
            Chevron::Nothing
        } else if row.is_expanded {
            Chevron::Open
        } else {
            Chevron::Closed
        },
        look.status == if row.is_dir {
            None
        } else {
            match first_index(statuses@, status_of(row.path@)) {
                Some(i) => Some(statuses@[i].kind),
                None => None,
            }
        },
        look.dirty_inside == (row.is_dir && changed_in(statuses@, row.path@)),
        look.faded == row.ignored,
        match look.mention {
            Some(mention) => !row.is_dir && mention@ == seen_from(row.path@, root@),
            None => row.is_dir,
        },
        look.touched == match first_index(touched@, touched_at(row.path@)) {
            Some(i) => Some(touched@[i].color),
            None => None,
        },
{
    let is_selected = match selected {
        Some(path) => is_same_path(path.as_str(), row.path.as_str()),
        None => false,
    };
    let chevron = if !row.is_dir {
        Chevron::Nothing
    } else if row.is_expanded {
        Chevron::Open
    } else {
        Chevron::Closed
    };
    let status = if row.is_dir {
        None
    } else {
        find_status(statuses, &row.path)
    };
    let dirty_inside = row.is_dir && is_changed_in(statuses, row.path.as_str());
    let mention = if row.is_dir {
        None
    } else {
        Some(relative_to(row.path.as_str(), root))
    };
    let touched = find_touched(touched, &row.path);
    TreeRowLook { selected: is_selected, chevron, status, dirty_inside, faded: row.ignored, mention, touched }
}

fn find_touched(touched: &Vec<TouchedFile>, path: &String) -> (r: Option<usize>)
    ensures
        r == match first_index(touched@, touched_at(path@)) {
            Some(i) => Some(touched@[i].color),
            None => None,
        },
{
    let ghost wanted = touched_at(path@);
    let mut i: usize = 0;
    while i < touched.len()
        invariant
            i <= touched@.len(),
            wanted == touched_at(path@),
            forall|j: int| 0 <= j < i ==> !wanted(#[trigger] touched@[j]),
        decreases touched@.len() - i,
    {
        if is_same_path(touched[i].path.as_str(), path.as_str()) {
            proof {
                first_index_is(touched@, wanted, i as int);
            }
            return Some(touched[i].color);
        }
        i = i + 1;
    }
    proof {
        first_index_none(touched@, wanted);
    }
    None
}

fn find_status(statuses: &Vec<StatusEntry>, path: &String) -> (r: Option<u8>)
    ensures
        r == match first_index(statuses@, status_of(path@)) {
            Some(i) => Some(statuses@[i].kind),
            None => None,
        },
{
    let ghost wanted = status_of(path@);
    let mut i: usize = 0;
    while i < statuses.len()
        invariant
            i <= statuses@.len(),
            wanted == status_of(path@),
            forall|j: int| 0 <= j < i ==> !wanted(#[trigger] statuses@[j]),
        decreases statuses@.len() - i,
    {
        if is_same_path(statuses[i].path.as_str(), path.as_str()) {
            proof {
                first_index_is(statuses@, wanted, i as int);
            }
            return Some(statuses[i].kind);
        }
        i = i + 1;
    }
    proof {
        first_index_none(statuses@, wanted);
    }
    None
}

fn is_changed_in(statuses: &Vec<StatusEntry>, dir: &str) -> (b: bool)
    ensures
        b == changed_in(statuses@, dir@),
{
    let mut i: usize = 0;
    while i < statuses.len()
        invariant
            i <= statuses@.len(),
            forall|k: int| 0 <= k < i ==> !lies_in((#[trigger] statuses@[k]).path@, dir@),
        decreases statuses@.len() - i,
    {
        if path_lies_in(statuses[i].path.as_str(), dir) {
            assert(lies_in(statuses@[i as int].path@, dir@));
            return true;
        }
        i = i + 1;
    }
    false
}

/// A path and the folders it lies in, up to `n` of them, from the outermost.
pub open spec fn folders_up(path: Seq<char>, n: int) -> Seq<Seq<char>>
    decreases n,
{
    match folder_of(path) {
        Some(folder) => if n > 0 {
            folders_up(folder, n - 1).push(path)
        } else {
            seq![path]
        },
        None => seq![path],
    }
}

fn folders_above(path: &str, n: usize) -> (r: Vec<String>)
    ensures
        texts(r@) == folders_up(path@, n as int),
    decreases n,
{
    let mut folders: Vec<String> = match parent_folder(path) {
        Some(folder) => if n > 0 {
            folders_above(folder.as_str(), n - 1)
        } else {
            Vec::new()
        },
        None => Vec::new(),
    };
    let own = path.to_owned();
    proof {
        texts_push(folders@, own);
        if folder_of(path@) is None || n == 0 {
            assert(texts(folders@).push(own@) =~= seq![path@]);
        }
    }
    folders.push(own);
    folders
}

/// What lies below a folder under these names, one in the other.
pub open spec fn below(folder: Seq<char>, names: Seq<Seq<char>>) -> Seq<char>
    decreases names.len(),
{
    if names.len() == 0 {
        folder
    } else {
        in_folder(below(folder, names.drop_last()), names.last())
    }
}

/// How the files of a project are shown.
#[derive(Clone, Copy, PartialEq, Eq, Structural, Debug)]
pub enum ExplorerView {
    Tree,
    Columns,
    Icons,
}

/// The explorer in the left dock.
#[derive(Clone, Copy, PartialEq, Eq, Structural, Debug)]
pub struct ExplorerPane {
    pub width: i64,
    /// What it shows; `None` without a project.
    pub shown: Option<ExplorerView>,
}

/// How many columns are shown.
pub const COLUMNS_SHOWN: usize = 3;

/// How many folders lie between the root of the project and the current one; none outside of the
/// project.
pub open spec fn depth(root: Seq<char>, current: Seq<char>) -> int {
    if lies_in(current, root) {
        components(current).len() - components(root).len()
    } else {
        0
    }
}

/// The folders that have a column: from the root of the project to the current one, or the current
/// one alone outside of the project.
pub open spec fn column_chain(root: Seq<char>, current: Seq<char>) -> Seq<Seq<char>> {
    folders_up(current, depth(root, current))
}

fn depth_of(root: &str, current: &str) -> (n: usize)
    ensures
        n == depth(root@, current@),
{
    let parts = components_of(current);
    let above = components_of(root);
    proof {
        assert(texts(parts@).len() == parts@.len());
        assert(texts(above@).len() == above@.len());
    }
    if path_lies_in(current, root) {
        parts.len() - above.len()
    } else {
        0
    }
}

/// The columns of the explorer.
pub struct Columns {
    /// The folder of each column, from the root of the project to the current one.
    pub chain: Vec<String>,
    /// The first column that is shown.
    pub first_shown: usize,
}

/// The columns of the explorer: the last ones are shown.
pub fn columns(root: &str, current: &str) -> (r: Columns)
    ensures
        texts(r.chain@) == column_chain(root@, current@),
        r.first_shown == if r.chain@.len() > COLUMNS_SHOWN { r.chain@.len() - COLUMNS_SHOWN } else { 0 },
{
    let chain = folders_above(current, depth_of(root, current));
    let first_shown: usize = if chain.len() > COLUMNS_SHOWN {
        chain.len() - COLUMNS_SHOWN
    } else {
        0
    };
    Columns { chain, first_shown }
}

impl Columns {
    /// The folder that is selected in a column: that of the next one.
    pub fn selected_child(&self, column: usize) -> (r: Option<&String>)
        ensures
            match r {
                Some(path) => column + 1 < self.chain@.len() && *path == self.chain@[column + 1],
                None => column + 1 >= self.chain@.len(),
            },
    {
        let count: usize = self.chain.len();
        if count > 0 && column < count - 1 {
            Some(&self.chain[column + 1])
        } else {
            None
        }
    }
}

/// A step of the breadcrumbs.
pub struct Crumb {
    pub label: String,
    pub path: String,
    /// It is the current folder.
    pub current: bool,
}

/// The breadcrumbs of the explorer.
pub struct Breadcrumbs {
    /// The folder above, where there is one.
    pub up: Option<String>,
    /// The current folder is in the project.
    pub in_project: bool,
    /// The steps after the project.
    pub crumbs: Vec<Crumb>,
}

/// How many steps are shown outside of the project.
pub const OUTSIDE_CRUMBS: usize = 3;

/// The paths of the steps: in the project what lies below its root, outside of it the last few
/// folders.
pub open spec fn crumb_paths(root: Seq<char>, current: Seq<char>) -> Seq<Seq<char>> {
    if lies_in(current, root) {
        let names = components(current).skip(components(root).len() as int);
        Seq::new(names.len(), |i: int| below(root, names.take(i + 1)))
    } else {
        folders_up(current, OUTSIDE_CRUMBS - 1)
    }
}

/// What a step says: in the project its component; outside of it the name of its folder, or its whole
/// path where it has no name.
pub open spec fn crumb_label(root: Seq<char>, current: Seq<char>, i: int) -> Seq<char> {
    if lies_in(current, root) {
        components(current)[components(root).len() + i]
    } else {
        match name_of(crumb_paths(root, current)[i]) {
            Some(name) => name,
            None => crumb_paths(root, current)[i],
        }
    }
}

/// The breadcrumbs of the explorer: in the project a step for each folder below its root, outside of
/// it the last few folders.
pub fn breadcrumbs(root: &str, current: &str) -> (r: Breadcrumbs)
    ensures
        maybe_text(r.up) == folder_of(current@),
        r.in_project == lies_in(current@, root@),
        r.crumbs@.len() == crumb_paths(root@, current@).len(),
        forall|i: int|
            0 <= i < r.crumbs@.len() ==> {
                let crumb = #[trigger] r.crumbs@[i];
                &&& crumb.path@ == crumb_paths(root@, current@)[i]
                &&& crumb.label@ == crumb_label(root@, current@, i)
                &&& crumb.current == (i == r.crumbs@.len() - 1)
            },
{
    let up = parent_folder(current);
    let in_project = path_lies_in(current, root);
    let crumbs = if in_project {
        crumbs_below(root, current)
    } else {
        crumbs_outside(root, current)
    };
    Breadcrumbs { up, in_project, crumbs }
}

fn crumbs_below(root: &str, current: &str) -> (crumbs: Vec<Crumb>)
    requires
        lies_in(current@, root@),
    ensures
        crumbs@.len() == crumb_paths(root@, current@).len(),
        forall|i: int|
            0 <= i < crumbs@.len() ==> {
                let crumb = #[trigger] crumbs@[i];
                &&& crumb.path@ == crumb_paths(root@, current@)[i]
                &&& crumb.label@ == crumb_label(root@, current@, i)
                &&& crumb.current == (i == crumbs@.len() - 1)
            },
{
    let parts = components_of(current);
    let above = components_of(root);
    proof {
        assert(texts(parts@).len() == parts@.len());
        assert(texts(above@).len() == above@.len());
    }
    let low: usize = above.len();
    let total: usize = parts.len();
    let ghost names = components(current@).skip(low as int);
    let mut so_far = root.to_owned();
    let mut crumbs: Vec<Crumb> = Vec::new();
    let mut n: usize = low;
    assert(names.take(0) =~= Seq::<Seq<char>>::empty());
    while n < total
        invariant
            low <= n <= total,
            total == parts@.len(),
            texts(parts@) == components(current@),
            texts(parts@).len() == parts@.len(),
            low == components(root@).len(),
            lies_in(current@, root@),
            names == components(current@).skip(low as int),
            so_far@ == below(root@, names.take(n - low)),
            crumbs@.len() == n - low,
            forall|i: int|
                0 <= i < crumbs@.len() ==> {
                    let crumb = #[trigger] crumbs@[i];
                    &&& crumb.path@ == crumb_paths(root@, current@)[i]
                    &&& crumb.label@ == crumb_label(root@, current@, i)
                    &&& crumb.current == (i == total - low - 1)
                },
        decreases total - n,
    {
        let label = parts[n].clone();
        proof {
            assert(texts(parts@)[n as int] == label@);
            assert(names.take(n - low + 1).drop_last() =~= names.take(n - low));
            assert(names.take(n - low + 1).last() == label@);
        }
        so_far = path_in(so_far.as_str(), label.as_str());
        crumbs.push(Crumb { label, path: so_far.clone(), current: n == total - 1 });
        n = n + 1;
    }
    crumbs
}

fn crumbs_outside(root: &str, current: &str) -> (crumbs: Vec<Crumb>)
    requires
        !lies_in(current@, root@),
    ensures
        crumbs@.len() == crumb_paths(root@, current@).len(),
        forall|i: int|
            0 <= i < crumbs@.len() ==> {
                let crumb = #[trigger] crumbs@[i];
                &&& crumb.path@ == crumb_paths(root@, current@)[i]
                &&& crumb.label@ == crumb_label(root@, current@, i)
                &&& crumb.current == (i == crumbs@.len() - 1)
            },
{
    let folders = folders_above(current, OUTSIDE_CRUMBS - 1);
    let count: usize = folders.len();
    let mut crumbs: Vec<Crumb> = Vec::new();
    let mut i: usize = 0;
    assert(texts(folders@).len() == folders@.len());
    while i < count
        invariant
            i <= count,
            count == folders@.len(),
            !lies_in(current@, root@),
            texts(folders@) == crumb_paths(root@, current@),
            crumbs@.len() == i,
            forall|k: int|
                0 <= k < i ==> {
                    let crumb = #[trigger] crumbs@[k];
                    &&& crumb.path@ == crumb_paths(root@, current@)[k]
                    &&& crumb.label@ == crumb_label(root@, current@, k)
                    &&& crumb.current == (k == count - 1)
                },
        decreases count - i,
    {
        let path = folders[i].clone();
        assert(texts(folders@)[i as int] == path@);
        let label = match file_name(path.as_str()) {
            Some(name) => name,
            None => path.clone(),
        };
        crumbs.push(Crumb { label, path, current: i == count - 1 });
        i = i + 1;
    }
    crumbs
}

/// An entry of the menu of the explorer.
#[derive(Clone, Copy, PartialEq, Eq, Structural, Debug)]
pub enum MenuEntry {
    /// Open the folder as a project, here.
    OpenHere,
    /// Open the folder in a window of its own.
    OpenWindow,
    /// Open the file.
    Open,
    /// Open it in the application that the system has for it.
    OpenDefault,
    Reveal,
    NewFile,
    NewDir,
    Rename,
    Duplicate,
    Trash,
    CopyPath,
}

/// The entries that open something.
pub open spec fn opening_entries(is_dir: bool) -> Seq<MenuEntry> {
    if is_dir {
        seq![MenuEntry::OpenHere, MenuEntry::OpenWindow]
    } else {
        seq![MenuEntry::Open]
    }
}

/// The entries that need the files to be on this machine.
pub open spec fn local_entries() -> Seq<MenuEntry> {
    seq![
        MenuEntry::OpenDefault,
        MenuEntry::Reveal,
        MenuEntry::NewFile,
        MenuEntry::NewDir,
        MenuEntry::Rename,
        MenuEntry::Duplicate,
        MenuEntry::Trash,
    ]
}

/// The entries of the menu.
pub open spec fn menu(is_dir: bool, is_local: bool) -> Seq<MenuEntry> {
    opening_entries(is_dir) + (if is_local { local_entries() } else { Seq::empty() }) + seq![MenuEntry::CopyPath]
}

impl Workspace {
    /// The entries of the menu of a file or a folder. Files on another machine are not touched.
    pub fn context_menu_entries(&self, is_dir: bool) -> (entries: Vec<MenuEntry>)
        ensures
            entries@ == menu(is_dir, self@.has_slot() && self@.slot().remote_host is None),
    {
        let is_local = self.has_active_slot() && self.projects[self.active].remote_host.is_none();
        let mut entries: Vec<MenuEntry> = Vec::new();
        if is_dir {
            entries.push(MenuEntry::OpenHere);
            entries.push(MenuEntry::OpenWindow);
        } else {
            entries.push(MenuEntry::Open);
        }
        if is_local {
            entries.push(MenuEntry::OpenDefault);
            entries.push(MenuEntry::Reveal);
            entries.push(MenuEntry::NewFile);
            entries.push(MenuEntry::NewDir);
            entries.push(MenuEntry::Rename);
            entries.push(MenuEntry::Duplicate);
            entries.push(MenuEntry::Trash);
        }
        entries.push(MenuEntry::CopyPath);
        assert(entries@ =~= menu(is_dir, is_local));
        entries
    }

    /// An entry of the menu was chosen for a file or a folder.
    pub fn context_menu_chosen(&mut self, entry: MenuEntry, path: String, is_dir: bool)
        ensures
            final(self)@ == match entry {
                MenuEntry::OpenHere => old(self)@.then_do(Effect::OpenDirInRail(path)),
                MenuEntry::OpenWindow => old(self)@.then_do(Effect::OpenFolderAsWindow(path)),
                MenuEntry::Open => old(self)@.then_do(Effect::OpenFile(path)).then_do(Effect::HideContextMenu),
                MenuEntry::OpenDefault => old(self)@.then_do(Effect::OpenWithDefaultApp(path)),
                MenuEntry::Reveal => old(self)@.then_do(Effect::RevealInFinder(path)),
                MenuEntry::NewFile => old(self)@.then_do(
                    Effect::StartNaming { kind: NamingKind::NewFile, base: path, is_dir },
                ),
                MenuEntry::NewDir => old(self)@.then_do(
                    Effect::StartNaming { kind: NamingKind::NewDir, base: path, is_dir },
                ),
                MenuEntry::Rename => old(self)@.then_do(
                    Effect::StartNaming { kind: NamingKind::Rename, base: path, is_dir },
                ),
                MenuEntry::Duplicate => old(self)@.then_do(Effect::DuplicateEntry(path)),
                MenuEntry::Trash => old(self)@.then_do(Effect::TrashEntry(path)),
                MenuEntry::CopyPath => old(self)@.then_do(Effect::CopyText(path)),
            },
    {
        match entry {
            MenuEntry::OpenHere => self.effect(Effect::OpenDirInRail(path)),
            MenuEntry::OpenWindow => self.effect(Effect::OpenFolderAsWindow(path)),
            MenuEntry::Open => {
                self.effect(Effect::OpenFile(path));
                self.effect(Effect::HideContextMenu);
            },
            MenuEntry::OpenDefault => self.effect(Effect::OpenWithDefaultApp(path)),
            MenuEntry::Reveal => self.effect(Effect::RevealInFinder(path)),
            MenuEntry::NewFile => self.effect(
                Effect::StartNaming { kind: NamingKind::NewFile, base: path, is_dir },
            ),
            MenuEntry::NewDir => self.effect(
                Effect::StartNaming { kind: NamingKind::NewDir, base: path, is_dir },
            ),
            MenuEntry::Rename => self.effect(
                Effect::StartNaming { kind: NamingKind::Rename, base: path, is_dir },
            ),
            MenuEntry::Duplicate => self.effect(Effect::DuplicateEntry(path)),
            MenuEntry::Trash => self.effect(Effect::TrashEntry(path)),
            MenuEntry::CopyPath => self.effect(Effect::CopyText(path)),
        }
    }

    /// The explorer: how wide it is and what it shows, in the view that the project has chosen.
    /// Without a project it is empty and has the width of a new window.
    pub fn render_explorer(&self, view: ExplorerView, new_width: i64) -> (pane: ExplorerPane)
        ensures
            pane == if self@.has_slot() {
                ExplorerPane { width: self@.chrome.sizes.explorer_width, shown: Some(view) }
            } else {
                ExplorerPane { width: new_width, shown: None }
            },
    {
        if self.has_active_slot() {
            ExplorerPane { width: self.chrome.sizes.explorer_width, shown: Some(view) }
        } else {
            ExplorerPane { width: new_width, shown: None }
        }
    }

    /// The explorer was touched: shortcuts for tabs go to the editor.
    pub fn explorer_touched(&mut self)
        ensures
            final(self)@ == old(self)@.with_chrome(
                Chrome {
                    surface: Surface { agent_active: false, ..old(self)@.chrome.surface },
                    ..old(self)@.chrome
                },
            ),
    {
        self.chrome.surface.agent_active = false;
    }

    /// A row of the tree was clicked: a folder opens or closes, a file is opened as a preview, or in
    /// the ordinary way by a double click.
    pub fn tree_row_clicked(&mut self, path: String, is_dir: bool, double: bool, setting: Option<bool>)
        ensures
            final(self)@ == if is_dir {
                old(self)@.then_do(Effect::ToggleDir(path))
            } else if double {
                old(self)@.then_do(Effect::OpenFile(path))
            } else {
                old(self)@.then_do(
                    Effect::OpenFileAs {
                        path,
                        preview: match setting {
                            Some(enabled) => enabled,
                            None => true,
                        },
                    },
                )
            },
    {
        if is_dir {
            self.effect(Effect::ToggleDir(path));
        } else if double {
            self.effect(Effect::OpenFile(path));
        } else {
            self.open_file_preview(path, setting);
        }
    }

    /// An entry of the columns or of the icons was clicked: a folder is entered.
    pub fn entry_clicked(&mut self, path: String, is_dir: bool, double: bool, setting: Option<bool>)
        ensures
            final(self)@ == if is_dir {
                old(self)@.then_do(Effect::EnterDir(path))
            } else if double {
                old(self)@.then_do(Effect::OpenFile(path))
            } else {
                old(self)@.then_do(
                    Effect::OpenFileAs {
                        path,
                        preview: match setting {
                            Some(enabled) => enabled,
                            None => true,
                        },
                    },
                )
            },
    {
        if is_dir {
            self.effect(Effect::EnterDir(path));
        } else if double {
            self.effect(Effect::OpenFile(path));
        } else {
            self.open_file_preview(path, setting);
        }
    }
}

/// While nothing is being named the tree is just its rows.
pub proof fn trees_are_their_rows(rows: Seq<TreeRow>, root: Seq<char>, n: int)
    requires
        0 <= n <= rows.len(),
    ensures
        items_below(rows, None, root, n) == Seq::new(n as nat, |i: int| TreeItem::Row(i as usize)),
    decreases n,
{
    let expected = Seq::new(n as nat, |i: int| TreeItem::Row(i as usize));
    if n > 0 {
        trees_are_their_rows(rows, root, n - 1);
    }
    assert(items_below(rows, None, root, n) =~= expected);
}

/// What touches files is never offered for files on another machine.
pub proof fn menus_leave_other_machines_alone(is_dir: bool, entry: MenuEntry)
    requires
        local_entries().contains(entry),
    ensures
        !menu(is_dir, false).contains(entry),
        menu(is_dir, true).contains(entry),
{
    let k = choose|k: int| 0 <= k < local_entries().len() && local_entries()[k] == entry;
    let with = menu(is_dir, true);
    let at = opening_entries(is_dir).len() + k;
    assert(with[at] == entry);
    assert(entry == local_entries()[0] || entry == local_entries()[1] || entry == local_entries()[2] || entry
        == local_entries()[3] || entry == local_entries()[4] || entry == local_entries()[5] || entry
        == local_entries()[6]);
}

/// The last column is the current folder; so is the last step of the breadcrumbs outside of the
/// project.
pub proof fn chains_end_at_the_current_folder(root: Seq<char>, current: Seq<char>)
    ensures
        column_chain(root, current).len() > 0,
        column_chain(root, current).last() == current,
        !lies_in(current, root) ==> crumb_paths(root, current).last() == current,
{
}

proof fn folders_up_lose_their_last_components(path: Seq<char>, n: int)
    requires
        0 <= n <= components(path).len(),
        n < components(path).len() || n == 0 || components(path)[0] != "/"@,
    ensures
        folders_up(path, n).len() == n + 1,
        forall|k: int|
            0 <= k <= n ==> components(#[trigger] folders_up(path, n)[k]) == components(path).take(
                components(path).len() - n + k,
            ),
    decreases n,
{
    let parts = components(path);
    assert(parts.take(parts.len() as int) =~= parts);
    if n > 0 {
        paths_lie_in_folders(path);
        folders_have_all_but_the_last_component(path);
        if parts =~= seq!["/"@] {
            assert(parts[0] == "/"@);
        }
        let folder = folder_of(path)->0;
        folders_up_lose_their_last_components(folder, n - 1);
        assert forall|k: int| 0 <= k <= n implies components(#[trigger] folders_up(path, n)[k]) == parts.take(
            parts.len() - n + k,
        ) by {
            if k < n {
                assert(folders_up(path, n)[k] == folders_up(folder, n - 1)[k]);
                assert(parts.drop_last().take(parts.len() - n + k) =~= parts.take(parts.len() - n + k));
            }
        }
    }
}

/// In the project the columns go from its root to the current folder, one component at a time; no
/// folder is left out.
pub proof fn columns_start_at_the_root(root: Seq<char>, current: Seq<char>)
    requires
        lies_in(current, root),
        components(root).len() > 0 || components(current).len() == 0 || components(current)[0] != "/"@,
    ensures
        column_chain(root, current).len() == depth(root, current) + 1,
        same_path(column_chain(root, current)[0], root),
        forall|k: int|
            0 <= k <= depth(root, current) ==> components(#[trigger] column_chain(root, current)[k])
                == components(current).take(components(root).len() + k),
{
    folders_up_lose_their_last_components(current, depth(root, current));
    assert(components(current).take(components(root).len() as int) =~= components(root));
    assert(components(folders_up(current, depth(root, current))[0]) == components(root));
}

proof fn tree_items_hold(rows: Seq<TreeRow>, naming: Option<Naming>, root: Seq<char>, n: int)
    requires
        0 <= n <= rows.len() <= usize::MAX,
    ensures
        ({
            let items = items_below(rows, naming, root, n);
            &&& forall|i: int|
                0 <= i < items.len() ==> (#[trigger] items[i] matches TreeItem::Row(k) ==> k < n && !is_renamed(
                    naming,
                    rows[k as int],
                ))
            &&& forall|i: int, j: int|
                0 <= i < j < items.len() && (#[trigger] items[i] is Row) && (#[trigger] items[j] is Row)
                    ==> items[i]->Row_0 < items[j]->Row_0
            &&& forall|k: int|
                0 <= k < n && !is_renamed(naming, rows[k]) ==> #[trigger] items.contains(TreeItem::Row(k as usize))
        }),
    decreases n,
{
    if n > 0 {
        tree_items_hold(rows, naming, root, n - 1);
        let before = items_below(rows, naming, root, n - 1);
        let items = items_below(rows, naming, root, n);
        assert forall|k: int| 0 <= k < n && !is_renamed(naming, rows[k]) implies #[trigger] items.contains(
            TreeItem::Row(k as usize),
        ) by {
            let wanted = TreeItem::Row(k as usize);
            if k < n - 1 {
                assert(before.contains(wanted));
                let i = choose|i: int| 0 <= i < before.len() && before[i] == wanted;
                assert(items[i] == wanted);
            } else {
                assert(items[before.len() as int] == wanted);
            }
        }
        assert forall|i: int, j: int|
            0 <= i < j < items.len() && (#[trigger] items[i] is Row) && (#[trigger] items[j] is Row) implies items[i]->Row_0
            < items[j]->Row_0 by {
            if j < before.len() {
                assert(items[i] == before[i] && items[j] == before[j]);
            } else {
                assert(items[i] == before[i]);
                assert(before[i] matches TreeItem::Row(k) && k < n - 1);
            }
        }
        assert forall|i: int| 0 <= i < items.len() implies (#[trigger] items[i] matches TreeItem::Row(k) ==> k < n
            && !is_renamed(naming, rows[k as int])) by {
            if i < before.len() {
                assert(items[i] == before[i]);
            }
        }
    }
}

/// Every row stands in the tree once, in order, but for the one that is being renamed.
pub proof fn rows_stay_in_the_tree(rows: Seq<TreeRow>, naming: Option<Naming>, root: Seq<char>, k: int)
    requires
        rows.len() <= usize::MAX,
        0 <= k < rows.len(),
    ensures
        ({
            let items = items_below(rows, naming, root, rows.len() as int);
            &&& items.contains(TreeItem::Row(k as usize)) <==> !(naming is Some && naming->0.kind == NamingKind::Rename
                && naming->0.target is Some && same_path(naming->0.target->0@, rows[k].path@))
            &&& forall|i: int, j: int|
                0 <= i < j < items.len() && (#[trigger] items[i] is Row) && (#[trigger] items[j] is Row)
                    ==> items[i]->Row_0 < items[j]->Row_0
        }),
{
    tree_items_hold(rows, naming, root, rows.len() as int);
    let items = items_below(rows, naming, root, rows.len() as int);
    let wanted = TreeItem::Row(k as usize);
    if items.contains(wanted) {
        let i = choose|i: int| 0 <= i < items.len() && items[i] == wanted;
        assert(items[i] matches TreeItem::Row(c) && c == k);
    }
}

proof fn inputs_stand_below(rows: Seq<TreeRow>, naming: Option<Naming>, root: Seq<char>, n: int, k: int)
    requires
        0 <= k < n <= rows.len() <= usize::MAX,
        rows[k].depth < usize::MAX,
    ensures
        ({
            let items = items_below(rows, naming, root, n);
            &&& is_named_in(naming, rows[k]) ==> exists|i: int|
                0 <= i && i + 1 < items.len() && items[i] == TreeItem::Row(k as usize) && #[trigger] items[i + 1]
                    == TreeItem::Input((rows[k].depth + 1) as usize)
            &&& is_renamed(naming, rows[k]) ==> items.contains(TreeItem::Input(rows[k].depth))
        }),
    decreases n,
{
    let items = items_below(rows, naming, root, n);
    let before = items_below(rows, naming, root, n - 1);
    if k == n - 1 {
        let at = before.len() as int;
        if is_named_in(naming, rows[k]) {
            assert(items[at] == TreeItem::Row(k as usize));
            assert(items[at + 1] == TreeItem::Input((rows[k].depth + 1) as usize));
        }
        if is_renamed(naming, rows[k]) {
            assert(items[at] == TreeItem::Input(rows[k].depth));
        }
    } else {
        inputs_stand_below(rows, naming, root, n - 1, k);
        if is_named_in(naming, rows[k]) {
            let i = choose|i: int|
                0 <= i && i + 1 < before.len() && before[i] == TreeItem::Row(k as usize) && #[trigger] before[i + 1]
                    == TreeItem::Input((rows[k].depth + 1) as usize);
            assert(items[i] == before[i] && items[i + 1] == before[i + 1]);
        }
        if is_renamed(naming, rows[k]) {
            let i = choose|i: int| 0 <= i < before.len() && before[i] == TreeItem::Input(rows[k].depth);
            assert(items[i] == before[i]);
        }
    }
}

/// The input for a new name stands right below the row of its folder, one step deeper, and on top where
/// the folder is the root; that for another name stands as deep as the row that it takes the place of.
pub proof fn inputs_stand_where_the_name_goes(
    rows: Seq<TreeRow>,
    naming: Option<Naming>,
    root: Seq<char>,
    k: int,
)
    requires
        rows.len() <= usize::MAX,
        0 <= k < rows.len(),
        rows[k].depth < usize::MAX,
        naming is Some,
    ensures
        ({
            let items = items_below(rows, naming, root, rows.len() as int);
            let new = naming->0.kind != NamingKind::Rename;
            &&& new && rows[k].is_dir && same_path(naming->0.parent@, rows[k].path@) ==> exists|i: int|
                0 <= i && i + 1 < items.len() && items[i] == TreeItem::Row(k as usize) && #[trigger] items[i + 1]
                    == TreeItem::Input((rows[k].depth + 1) as usize)
            &&& new && same_path(naming->0.parent@, root) ==> items.first() == TreeItem::Input(0)
            &&& !new && naming->0.target is Some && same_path(naming->0.target->0@, rows[k].path@) ==> items.contains(
                TreeItem::Input(rows[k].depth),
            )
        }),
{
    let n = rows.len() as int;
    inputs_stand_below(rows, naming, root, n, k);
    items_begin_as_without_rows(rows, naming, root, n);
}

proof fn items_begin_as_without_rows(rows: Seq<TreeRow>, naming: Option<Naming>, root: Seq<char>, n: int)
    requires
        0 <= n <= rows.len(),
    ensures
        is_named_at_root(naming, root) ==> items_below(rows, naming, root, n).len() > 0 && items_below(
            rows,
            naming,
            root,
            n,
        ).first() == TreeItem::Input(0),
    decreases n,
{
    if n > 0 {
        items_begin_as_without_rows(rows, naming, root, n - 1);
    }
}

/// The names below a folder, one in the other, are its components and then these.
proof fn what_is_below_has_these_names(folder: Seq<char>, names: Seq<Seq<char>>)
    requires
        forall|i: int|
            0 <= i < names.len() ==> (#[trigger] names[i]).len() > 0 && names[i] != "."@ && !names[i].contains('/'),
    ensures
        components(below(folder, names)) == components(folder) + names,
    decreases names.len(),
{
    if names.len() == 0 {
        assert(components(folder) + names =~= components(folder));
    } else {
        let rest = names.drop_last();
        assert forall|i: int| 0 <= i < rest.len() implies (#[trigger] rest[i]).len() > 0 && rest[i] != "."@
            && !rest[i].contains('/') by {
            assert(rest[i] == names[i]);
        }
        what_is_below_has_these_names(folder, rest);
        assert(names[names.len() - 1] == names.last());
        names_in_folders_come_last(below(folder, rest), names.last());
        assert((components(folder) + rest).push(names.last()) =~= components(folder) + names);
    }
}

/// In the project there is a step for each folder below its root, from the outside in, each named as the
/// folder is; the last one is the current folder.
pub proof fn steps_lead_from_the_root_to_the_current_folder(root: Seq<char>, current: Seq<char>, i: int)
    requires
        lies_in(current, root),
        components(root).len() > 0,
        0 <= i < crumb_paths(root, current).len(),
    ensures
        crumb_paths(root, current).len() == components(current).len() - components(root).len(),
        components(crumb_paths(root, current)[i]) == components(current).take(components(root).len() + i + 1),
        crumb_label(root, current, i) == components(current)[components(root).len() + i],
        same_path(crumb_paths(root, current).last(), current),
{
    let parts = components(current);
    let low = components(root).len() as int;
    let names = parts.skip(low);
    assert forall|k: int| 0 <= k < names.len() implies (#[trigger] names[k]).len() > 0 && names[k] != "."@
        && !names[k].contains('/') by {
        later_components_are_names(current, low + k);
        assert(names[k] == parts[low + k]);
    }
    assert(parts.take(low) =~= components(root));
    let paths = crumb_paths(root, current);
    assert(paths.len() == names.len());
    assert(names.len() == parts.len() - low);
    step_has_the_components(root, current, i, names);
    let last = names.len() - 1;
    assert(paths.last() == paths[last]);
    assert(low + last + 1 == parts.len());
    step_has_the_components(root, current, last, names);
    assert(parts.take(parts.len() as int) =~= parts);
}

proof fn step_has_the_components(root: Seq<char>, current: Seq<char>, i: int, names: Seq<Seq<char>>)
    requires
        lies_in(current, root),
        names == components(current).skip(components(root).len() as int),
        0 <= i < names.len(),
        forall|k: int|
            0 <= k < names.len() ==> (#[trigger] names[k]).len() > 0 && names[k] != "."@ && !names[k].contains('/'),
    ensures
        components(crumb_paths(root, current)[i]) == components(current).take(components(root).len() + i + 1),
{
    let some = names.take(i + 1);
    assert forall|k: int| 0 <= k < some.len() implies (#[trigger] some[k]).len() > 0 && some[k] != "."@
        && !some[k].contains('/') by {
        assert(some[k] == names[k]);
    }
    what_is_below_has_these_names(root, some);
    let parts = components(current);
    let low = components(root).len() as int;
    assert(parts.take(low) =~= components(root));
    assert(components(root) + some =~= parts.take(low + i + 1));
}

/// The menu of a folder opens it here or in a window, that of a file opens the file; the path can always
/// be copied, and comes last.
pub proof fn menus_open_what_they_are_for(is_dir: bool, is_local: bool)
    ensures
        menu(is_dir, is_local).contains(MenuEntry::Open) <==> !is_dir,
        menu(is_dir, is_local).contains(MenuEntry::OpenHere) <==> is_dir,
        menu(is_dir, is_local).contains(MenuEntry::OpenWindow) <==> is_dir,
        menu(is_dir, is_local).last() == MenuEntry::CopyPath,
        menu(is_dir, is_local).contains(MenuEntry::Trash) <==> is_local,
        menu(is_dir, is_local).contains(MenuEntry::Rename) <==> is_local,
        menu(is_dir, is_local).no_duplicates(),
{
    let entries = menu(is_dir, is_local);
    let first = opening_entries(is_dir).len() as int;
    assert(is_dir ==> entries[0] == MenuEntry::OpenHere && entries[1] == MenuEntry::OpenWindow);
    assert(!is_dir ==> entries[0] == MenuEntry::Open);
    if is_local {
        assert(entries[first + 6] == MenuEntry::Trash);
        assert(entries[first + 4] == MenuEntry::Rename);
    }
}

/// A folder has changes inside exactly if a changed file lies in it; a change in a folder is a change in
/// every folder around it.
pub proof fn changes_show_in_every_folder_around(statuses: Seq<StatusEntry>, inner: Seq<char>, outer: Seq<char>)
    requires
        lies_in(inner, outer),
    ensures
        changed_in(statuses, inner) ==> changed_in(statuses, outer),
        changed_in(statuses, inner) <==> exists|i: int|
            0 <= i < statuses.len() && components(inner).is_prefix_of(components((#[trigger] statuses[i]).path@)),
{
    if changed_in(statuses, inner) {
        let i = choose|i: int| 0 <= i < statuses.len() && lies_in((#[trigger] statuses[i]).path@, inner);
        lying_in_is_an_order(statuses[i].path@, inner, outer);
        assert(lies_in(statuses[i].path@, outer));
    }
    if exists|i: int|
        0 <= i < statuses.len() && components(inner).is_prefix_of(components((#[trigger] statuses[i]).path@)) {
        let i = choose|i: int|
            0 <= i < statuses.len() && components(inner).is_prefix_of(components((#[trigger] statuses[i]).path@));
        assert(lies_in(statuses[i].path@, inner));
    }
}

/// What git says about a file is what the first entry for its path says.
pub proof fn the_first_entry_for_a_path_counts(statuses: Seq<StatusEntry>, touched: Seq<TouchedFile>, path: Seq<char>)
    ensures
        match first_index(statuses, status_of(path)) {
            Some(i) => 0 <= i < statuses.len() && same_path(statuses[i].path@, path) && forall|k: int|
                0 <= k < i ==> !same_path((#[trigger] statuses[k]).path@, path),
            None => forall|k: int| 0 <= k < statuses.len() ==> !same_path((#[trigger] statuses[k]).path@, path),
        },
        match first_index(touched, touched_at(path)) {
            Some(i) => 0 <= i < touched.len() && same_path(touched[i].path@, path) && forall|k: int|
                0 <= k < i ==> !same_path((#[trigger] touched[k]).path@, path),
            None => forall|k: int| 0 <= k < touched.len() ==> !same_path((#[trigger] touched[k]).path@, path),
        },
{
    let a = status_of(path);
    let b = touched_at(path);
    first_index_holds(statuses, a);
    first_index_holds(touched, b);
    assert forall|k: int| 0 <= k < statuses.len() implies a(#[trigger] statuses[k]) == same_path(
        statuses[k].path@,
        path,
    ) by {}
    assert forall|k: int| 0 <= k < touched.len() implies b(#[trigger] touched[k]) == same_path(
        touched[k].path@,
        path,
    ) by {}
}

/// Outside of the project the steps are the last few folders, each in the one before it; a step is named
/// as its folder is, or as its whole path where it has no name.
pub proof fn steps_outside_are_the_last_few_folders(root: Seq<char>, current: Seq<char>, i: int)
    requires
        !lies_in(current, root),
        0 <= i < crumb_paths(root, current).len(),
    ensures
        ({
            let paths = crumb_paths(root, current);
            &&& paths.len() <= OUTSIDE_CRUMBS
            &&& paths.last() == current
            &&& i > 0 ==> folder_of(paths[i]) == Some(paths[i - 1])
            &&& paths.len() < OUTSIDE_CRUMBS ==> folder_of(paths[0]) is None
            &&& name_of(paths[i]) matches Some(name) ==> crumb_label(root, current, i) == name
            &&& name_of(paths[i]) is None ==> crumb_label(root, current, i) == paths[i]
        }),
{
    folders_up_are_in_each_other(current, OUTSIDE_CRUMBS - 1);
}

proof fn folders_up_are_in_each_other(path: Seq<char>, n: int)
    requires
        0 <= n,
    ensures
        ({
            let paths = folders_up(path, n);
            &&& 0 < paths.len() <= n + 1
            &&& paths.last() == path
            &&& forall|i: int| 0 < i < paths.len() ==> folder_of(#[trigger] paths[i]) == Some(paths[i - 1])
            &&& paths.len() < n + 1 ==> folder_of(paths[0]) is None
        }),
    decreases n,
{
    if let Some(folder) = folder_of(path) {
        if n > 0 {
            folders_up_are_in_each_other(folder, n - 1);
            let above = folders_up(folder, n - 1);
            let paths = folders_up(path, n);
            assert forall|i: int| 0 < i < paths.len() implies folder_of(#[trigger] paths[i]) == Some(paths[i - 1]) by {
                if i < above.len() {
                    assert(paths[i] == above[i]);
                }
            }
        }
    }
}

/// There is no input in the tree but for a name: on top for something new at the root, right below the row
/// of a folder for something new in it, and as deep as the row of what is renamed.
pub proof fn inputs_stand_nowhere_else(rows: Seq<TreeRow>, naming: Option<Naming>, root: Seq<char>, n: int, i: int)
    requires
        0 <= n <= rows.len() <= usize::MAX,
        0 <= i < items_below(rows, naming, root, n).len(),
        items_below(rows, naming, root, n)[i] is Input,
        forall|k: int| 0 <= k < rows.len() ==> (#[trigger] rows[k]).depth < usize::MAX,
    ensures
        ({
            let items = items_below(rows, naming, root, n);
            let new = naming->0.kind != NamingKind::Rename;
            &&& naming is Some
            &&& {
                ||| new && i == 0 && items[i] == TreeItem::Input(0) && same_path(naming->0.parent@, root)
                ||| new && i > 0 && exists|k: int|
                    0 <= k < n && (#[trigger] rows[k]).is_dir && same_path(naming->0.parent@, rows[k].path@)
                        && items[i - 1] == TreeItem::Row(k as usize) && items[i] == TreeItem::Input(
                        (rows[k].depth + 1) as usize,
                    )
                ||| !new && exists|k: int|
                    0 <= k < n && naming->0.target is Some && same_path(
                        naming->0.target->0@,
                        (#[trigger] rows[k]).path@,
                    ) && items[i] == TreeItem::Input(rows[k].depth)
            }
        }),
    decreases n,
{
    if n > 0 {
        let items = items_below(rows, naming, root, n);
        let before = items_below(rows, naming, root, n - 1);
        let row = rows[n - 1];
        if i < before.len() {
            assert(items[i] == before[i]);
            inputs_stand_nowhere_else(rows, naming, root, n - 1, i);
            if i > 0 {
                assert(items[i - 1] == before[i - 1]);
            }
        } else if is_renamed(naming, row) {
            assert(items[i] == TreeItem::Input(rows[n - 1].depth));
        } else {
            assert(is_named_in(naming, row));
            assert(items[i - 1] == TreeItem::Row((n - 1) as usize));
            assert(items[i] == TreeItem::Input((rows[n - 1].depth + 1) as usize));
        }
    }
}

} // verus!
