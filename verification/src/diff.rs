//! Differences to the last commit: stepping through them, taking them back, and who wrote a line.

use vstd::prelude::*;
use vstd::string::*;
use crate::auto_save::next_generation;
use crate::paths::{
    ancestors, components, file_name, folder_of, folders_have_all_but_the_last_component, in_folder, is_same_path,
    name_of, names_are_last_components, names_in_folders_come_last, parent_folder, path_ancestors, path_in,
    paths_lie_in_folders, relative_to, same_path, seen_from,
};
use crate::seqs::{first_index, first_index_is, first_index_none};
use crate::text::{lines, lines_of, starts_with, text_starts_with, texts};
use crate::workspace::{Effect, Model, NavPosition, Workspace};

verus! {

/// Rows that differ: those of the last commit and those of the buffer.
#[derive(Clone, Copy, PartialEq, Eq, Structural, Debug)]
pub struct DiffHunk {
    pub old_start: u32,
    pub old_end: u32,
    pub new_start: u32,
    pub new_end: u32,
}

/// How long a caret stays in a row before it is asked who wrote it, in milliseconds.
pub const BLAME_DELAY: u64 = 400;

/// Who wrote a row.
pub enum BlameLine {
    /// It is in no commit yet.
    Uncommitted,
    Commit(String),
}

/// The name of the tab that shows how a file differs from the last commit.
pub open spec fn diff_tab_path(path: Seq<char>) -> Seq<char> {
    match name_of(path) {
        Some(name) => in_folder(folder_of(path)->0, name + " ⇄ HEAD"@),
        None => in_folder(path, " ⇄ HEAD"@),
    }
}

/// The name of the tab that shows how a file differs from the last commit.
pub fn diff_title(path: &str) -> (r: String)
    ensures
        r@ == diff_tab_path(path@),
{
    match file_name(path) {
        Some(mut name) => {
            name.append(" ⇄ HEAD");
            match parent_folder(path) {
                Some(folder) => path_in(folder.as_str(), name.as_str()),
                None => name,
            }
        },
        None => path_in(path, " ⇄ HEAD"),
    }
}

/// The row is the header of a hunk.
pub open spec fn is_header(rows: Seq<String>, row: int) -> bool {
    0 <= row < rows.len() && starts_with(rows[row]@, "@@"@)
}

/// `to` is the header to go to from `row`: the next one, or the first one after the last; or the one
/// before, or the last one before the first.
pub open spec fn is_next_header(rows: Seq<String>, row: int, forward: bool, to: int) -> bool {
    &&& is_header(rows, to)
    &&& if forward {
        if exists|r: int| r > row && is_header(rows, r) {
            to > row && forall|r: int| r > row && is_header(rows, r) ==> to <= r
        } else {
            forall|r: int| is_header(rows, r) ==> to <= r
        }
    } else {
        if exists|r: int| r < row && is_header(rows, r) {
            to < row && forall|r: int| r < row && is_header(rows, r) ==> r <= to
        } else {
            forall|r: int| is_header(rows, r) ==> r <= to
        }
    }
}

/// There is only one header to go to.
pub proof fn next_header_is_unique(rows: Seq<String>, row: int, forward: bool, a: int, b: int)
    requires
        is_next_header(rows, row, forward, a),
        is_next_header(rows, row, forward, b),
    ensures
        a == b,
{
    if forward {
        if exists|r: int| r > row && is_header(rows, r) {
            assert(a <= b && b <= a);
        }
    } else {
        if exists|r: int| r < row && is_header(rows, r) {
            assert(a <= b && b <= a);
        }
    }
}

/// The header of a hunk to go to from a row.
pub fn next_header(rows: &Vec<String>, row: usize, forward: bool) -> (to: Option<usize>)
    ensures
        match to {
            Some(t) => is_next_header(rows@, row as int, forward, t as int),
            None => forall|r: int| !is_header(rows@, r),
        },
{
    let mut first: Option<usize> = None;
    let mut last: Option<usize> = None;
    let mut before: Option<usize> = None;
    let mut after: Option<usize> = None;
    let mut i: usize = 0;
    while i < rows.len()
        invariant
            i <= rows@.len(),
            match first {
                Some(f) => f < i && is_header(rows@, f as int) && forall|r: int|
                    r < i && is_header(rows@, r) ==> f <= r,
                None => forall|r: int| r < i ==> !is_header(rows@, r),
            },
            match last {
                Some(l) => l < i && is_header(rows@, l as int) && forall|r: int|
                    r < i && is_header(rows@, r) ==> r <= l,
                None => forall|r: int| r < i ==> !is_header(rows@, r),
            },
            match before {
                Some(b) => b < i && b < row && is_header(rows@, b as int) && forall|r: int|
                    r < i && r < row && is_header(rows@, r) ==> r <= b,
                None => forall|r: int| r < i && r < row ==> !is_header(rows@, r),
            },
            match after {
                Some(a) => a < i && a > row && is_header(rows@, a as int) && forall|r: int|
                    r < i && r > row && is_header(rows@, r) ==> a <= r,
                None => forall|r: int| r < i && r > row ==> !is_header(rows@, r),
            },
        decreases rows@.len() - i,
    {
        if text_starts_with(rows[i].as_str(), "@@") {
            assert(is_header(rows@, i as int));
            if first.is_none() {
                first = Some(i);
            }
            last = Some(i);
            if i < row {
                before = Some(i);
            }
            if i > row && after.is_none() {
                after = Some(i);
            }
        } else {
            assert(!is_header(rows@, i as int));
        }
        i = i + 1;
    }
    if forward {
        if after.is_some() {
            after
        } else {
            first
        }
    } else if before.is_some() {
        before
    } else {
        last
    }
}

/// Lines, each with its line feed.
pub open spec fn with_feeds(lines: Seq<Seq<char>>) -> Seq<char>
    decreases lines.len(),
{
    if lines.len() == 0 {
        Seq::empty()
    } else {
        with_feeds(lines.drop_last()) + lines.last() + "\n"@
    }
}

/// The items from `start` up to `end`, as far as there are any.
pub open spec fn rows_between(lines: Seq<Seq<char>>, start: int, end: int) -> Seq<Seq<char>> {
    let from = if start < lines.len() { start } else { lines.len() as int };
    let to = if end < from {
        from
    } else if end < lines.len() {
        end
    } else {
        lines.len() as int
    };
    lines.subrange(from, to)
}

fn rows_text(rows: &Vec<String>, start: usize, end: usize) -> (r: String)
    ensures
        r@ == with_feeds(rows_between(texts(rows@), start as int, end as int)),
{
    let count: usize = rows.len();
    let ghost all = texts(rows@);
    assert(all.len() == count);
    let from: usize = if start < count {
        start
    } else {
        count
    };
    let to: usize = if end < from {
        from
    } else if end < count {
        end
    } else {
        count
    };
    let mut out = String::new();
    let mut i: usize = from;
    assert(all.subrange(from as int, from as int) =~= Seq::empty());
    while i < to
        invariant
            from <= i <= to <= count,
            count == rows@.len(),
            all == texts(rows@),
            out@ == with_feeds(all.subrange(from as int, i as int)),
        decreases to - i,
    {
        proof {
            assert(all.subrange(from as int, i + 1).drop_last() =~= all.subrange(from as int, i as int));
            assert(all.subrange(from as int, i + 1).last() == rows@[i as int]@);
        }
        out.append(rows[i].as_str());
        out.append("\n");
        i = i + 1;
    }
    out
}

/// What a hunk looked like in the last commit, whose text is `head`.
pub fn hunk_replacement(head: &str, hunk: DiffHunk) -> (r: String)
    ensures
        r@ == with_feeds(rows_between(lines(head@), hunk.old_start as int, hunk.old_end as int)),
{
    let rows = lines_of(head);
    rows_text(&rows, hunk.old_start as usize, hunk.old_end as usize)
}

/// The text of a hunk in a buffer with these rows.
pub fn hunk_text(rows: &Vec<String>, hunk: DiffHunk) -> (r: String)
    ensures
        r@ == with_feeds(rows_between(texts(rows@), hunk.new_start as int, hunk.new_end as int)),
{
    rows_text(rows, hunk.new_start as usize, hunk.new_end as usize)
}

/// The range of a buffer that a hunk covers, where its lines start at `starts` and it has `len`
/// bytes. Of a hunk without rows it is the place where they were.
pub open spec fn hunk_span(starts: Seq<usize>, len: usize, hunk: DiffHunk) -> (usize, usize) {
    let row = if hunk.new_start < starts.len() { hunk.new_start as int } else { starts.len() - 1 };
    let start = starts[row];
    (
        start,
        if hunk.new_start >= hunk.new_end {
            start
        } else if hunk.new_end < starts.len() {
            starts[hunk.new_end as int]
        } else {
            len
        },
    )
}

/// The range of a buffer that a hunk covers.
pub fn hunk_range(starts: &Vec<usize>, len: usize, hunk: DiffHunk) -> (r: (usize, usize))
    requires
        starts@.len() > 0,
    ensures
        r == hunk_span(starts@, len, hunk),
{
    let count: usize = starts.len();
    let row: usize = if (hunk.new_start as usize) < count {
        hunk.new_start as usize
    } else {
        count - 1
    };
    let start: usize = starts[row];
    let end: usize = if hunk.new_start >= hunk.new_end {
        start
    } else if (hunk.new_end as usize) < count {
        starts[hunk.new_end as usize]
    } else {
        len
    };
    (start, end)
}

/// The flag is set.
pub open spec fn is_set() -> spec_fn(bool) -> bool {
    |flag: bool| flag
}

/// The repository of a file: the first of the file and the folders above it that holds one, as the flags
/// tell in this order, or else the root of the project.
pub open spec fn repository_of(path: Seq<char>, root: Seq<char>, has_git: Seq<bool>) -> Seq<char> {
    match first_index(has_git, is_set()) {
        Some(i) => if i < ancestors(path).len() {
            ancestors(path)[i]
        } else {
            root
        },
        None => root,
    }
}

/// The repository that a file is staged in, and the file as seen from there. `has_git` tells of the file
/// and of each folder above it, from the inside out, whether a repository is there.
pub fn staging_target(path: &str, root: &str, has_git: &Vec<bool>) -> (r: (String, String))
    ensures
        r.0@ == repository_of(path@, root@, has_git@),
        r.1@ == seen_from(path@, r.0@),
{
    let list = path_ancestors(path);
    assert(texts(list@).len() == list@.len());
    let mut i: usize = 0;
    while i < has_git.len()
        invariant
            i <= has_git@.len(),
            texts(list@) == ancestors(path@),
            texts(list@).len() == list@.len(),
            forall|j: int| 0 <= j < i ==> !is_set()(#[trigger] has_git@[j]),
        decreases has_git@.len() - i,
    {
        if has_git[i] {
            proof {
                first_index_is(has_git@, is_set(), i as int);
            }
            let repository = if i < list.len() {
                list[i].clone()
            } else {
                root.to_owned()
            };
            let relative = relative_to(path, repository.as_str());
            return (repository, relative);
        }
        i = i + 1;
    }
    proof {
        first_index_none(has_git@, is_set());
    }
    (root.to_owned(), relative_to(path, root))
}

impl Model {
    /// The active tab shows an editor with a file.
    pub open spec fn has_active_file(self) -> bool {
        self.has_active_editor() && self.tab().has_file
    }

    /// The menu of a hunk is closed.
    pub open spec fn hunk_menu_closed(self) -> Model {
        Model { hunk_menu: None, ..self }
    }
}

impl Workspace {
    fn active_file(&self) -> (r: Option<u64>)
        ensures
            r == if self@.has_active_file() { Some(self@.tab().id) } else { None::<u64> },
    {
        if self.active_tab < self.tabs.len() && self.tabs[self.active_tab].has_editor
            && self.tabs[self.active_tab].has_file {
            Some(self.tabs[self.active_tab].id)
        } else {
            None
        }
    }

    /// Shows how the file of the active editor differs from the last commit.
    pub fn open_diff_tab(&mut self)
        ensures
            final(self)@ == if old(self)@.has_active_file() && old(self)@.has_slot() {
                old(self)@.then_do(
                    Effect::OpenDiff { path: old(self)@.tab().path, editor: Some(old(self)@.tab().id) },
                )
            } else {
                old(self)@
            },
    {
        if let Some(tab) = self.active_file() {
            let path = self.tabs[self.active_tab].path.clone();
            self.open_diff_tab_for(path, Some(tab));
        }
    }

    /// Shows how a file differs from the last commit: the text of an editor, or what is on disk.
    pub fn open_diff_tab_for(&mut self, path: String, editor: Option<u64>)
        ensures
            final(self)@ == if old(self)@.has_slot() {
                old(self)@.then_do(Effect::OpenDiff { path, editor })
            } else {
                old(self)@
            },
    {
        if self.has_active_slot() {
            self.effect(Effect::OpenDiff { path, editor });
        }
    }

    /// It was found out how a file differs from the last commit: shows it in a tab of its own. A file that
    /// does not differ is not shown.
    pub fn diff_read(&mut self, path: &str, diff: Option<String>)
        ensures
            match diff {
                Some(text) => exists|title: String|
                    title@ == diff_tab_path(path@) && final(self)@ == #[trigger] old(self)@.then_do(
                        Effect::ShowText { title, text },
                    ),
                None => final(self)@ == old(self)@,
            },
    {
        if let Some(text) = diff {
            let title = diff_title(path);
            self.effect(Effect::ShowText { title, text });
        }
    }

    /// Goes to the next header of a hunk, or to the one before. `rows` are the rows of the active
    /// editor, with the caret in `row`.
    pub fn step_hunk_header(&mut self, delta: isize, rows: &Vec<String>, row: usize)
        ensures
            if old(self)@.has_active_editor() && exists|r: int| is_header(rows@, r) {
                exists|to: usize|
                    is_next_header(rows@, row as int, delta > 0, to as int) && final(self)@
                        == #[trigger] old(self)@.then_do(Effect::RevealLine { tab: old(self)@.tab().id, line: to })
            } else {
                final(self)@ == old(self)@
            },
    {
        let Some(tab) = self.active_editor() else {
            return;
        };
        if let Some(to) = next_header(rows, row, delta > 0) {
            self.effect(Effect::RevealLine { tab, line: to });
        }
    }

    /// A hunk was clicked: opens its menu.
    pub fn on_hunk_clicked(&mut self, hunk: DiffHunk)
        ensures
            final(self)@ == (Model { hunk_menu: Some(hunk), ..old(self)@ }),
    {
        self.hunk_menu = Some(hunk);
    }

    /// Stages a hunk of the active editor.
    pub fn stage_hunk(&mut self, hunk: DiffHunk)
        ensures
            final(self)@ == if old(self)@.has_active_file() && old(self)@.has_slot() {
                old(self)@.hunk_menu_closed().then_do(
                    Effect::StageHunk {
                        tab: old(self)@.tab().id,
                        path: old(self)@.tab().path,
                        root: old(self)@.slot().root,
                        hunk,
                    },
                )
            } else {
                old(self)@.hunk_menu_closed()
            },
    {
        self.hunk_menu = None;
        if let Some(tab) = self.active_file() {
            if self.has_active_slot() {
                let path = self.tabs[self.active_tab].path.clone();
                let root = self.projects[self.active].root.clone();
                self.effect(Effect::StageHunk { tab, path, root, hunk });
            }
        }
    }

    /// Takes a hunk of the active editor back to the last commit.
    pub fn revert_hunk(&mut self, hunk: DiffHunk)
        ensures
            final(self)@ == if old(self)@.has_active_file() && old(self)@.has_slot() {
                old(self)@.hunk_menu_closed().then_do(
                    Effect::RevertHunk { tab: old(self)@.tab().id, path: old(self)@.tab().path, hunk },
                )
            } else {
                old(self)@.hunk_menu_closed()
            },
    {
        self.hunk_menu = None;
        if let Some(tab) = self.active_file() {
            if self.has_active_slot() {
                let path = self.tabs[self.active_tab].path.clone();
                self.effect(Effect::RevertHunk { tab, path, hunk });
            }
        }
    }

    /// The text of the last commit was read, to take a hunk back to it: puts its rows in the place of the
    /// hunk, in the editor of `tab`, whose lines start at `starts` and which has `len` bytes.
    pub fn hunk_reverted(&mut self, tab: u64, hunk: DiffHunk, head: &str, starts: &Vec<usize>, len: usize)
        requires
            starts@.len() > 0,
        ensures
            exists|text: String|
                text@ == with_feeds(rows_between(lines(head@), hunk.old_start as int, hunk.old_end as int))
                    && final(self)@ == #[trigger] old(self)@.then_do(
                    Effect::ApplyEdit {
                        tab,
                        start: hunk_span(starts@, len, hunk).0,
                        end: hunk_span(starts@, len, hunk).1,
                        text,
                    },
                ),
    {
        let text = hunk_replacement(head, hunk);
        let (start, end): (usize, usize) = hunk_range(starts, len, hunk);
        self.effect(Effect::ApplyEdit { tab, start, end, text });
    }

    /// A hunk was staged, or not: either way the state of the repository is read again.
    pub fn hunk_staged(&mut self)
        ensures
            final(self)@ == old(self)@.then_do(Effect::RefreshGitStatus),
    {
        self.effect(Effect::RefreshGitStatus);
    }

    /// Copies the text of a hunk of the active editor, whose rows are `rows`.
    pub fn copy_hunk(&mut self, hunk: DiffHunk, rows: &Vec<String>)
        ensures
            if old(self)@.has_active_editor() {
                exists|text: String|
                    text@ == with_feeds(
                        rows_between(texts(rows@), hunk.new_start as int, hunk.new_end as int),
                    ) && final(self)@ == #[trigger] old(self)@.hunk_menu_closed().then_do(
                        Effect::CopyText(text),
                    )
            } else {
                final(self)@ == old(self)@.hunk_menu_closed()
            },
    {
        self.hunk_menu = None;
        if self.active_editor().is_some() {
            let text = hunk_text(rows, hunk);
            self.effect(Effect::CopyText(text));
        }
    }

    /// The caret of an editor is in a row: asks who wrote it, after a while, unless that was asked
    /// before.
    pub fn schedule_blame(&mut self, editor: u64, row: usize)
        ensures
            ({
                let m = old(self)@;
                let known = m.last_blame matches Some(at) && same_path(at.path@, m.tab().path@) && at.offset == row;
                final(self)@ == if m.has_active_file() && m.tab().id == editor && m.has_slot() && !known {
                    let next = next_generation(m.blame_gen);
                    (Model {
                        last_blame: Some(NavPosition { path: m.tab().path, offset: row }),
                        blame_gen: next,
                        ..m
                    }).then_do(Effect::WaitToBlame { generation: next, tab: editor, path: m.tab().path, row })
                } else {
                    m
                }
            }),
    {
        let Some(tab) = self.active_file() else {
            return;
        };
        if tab != editor || !self.has_active_slot() {
            return;
        }
        let path = self.tabs[self.active_tab].path.clone();
        if let Some(at) = &self.last_blame {
            if is_same_path(at.path.as_str(), path.as_str()) && at.offset == row {
                return;
            }
        }
        self.last_blame = Some(NavPosition { path: path.clone(), offset: row });
        self.blame_gen = self.blame_gen.wrapping_add(1);
        let generation: u64 = self.blame_gen;
        self.effect(Effect::WaitToBlame { generation, tab, path, row });
    }

    /// Whether what was asked as `generation` is still what is asked.
    pub fn blame_is_latest(&self, generation: u64) -> (b: bool)
        ensures
            b == (self@.blame_gen == generation),
    {
        self.blame_gen == generation
    }

    /// It was found out who wrote a row, or not: says so behind the row, unless something else was asked
    /// since.
    pub fn blame_found(&mut self, generation: u64, tab: u64, row: usize, line: Option<BlameLine>)
        ensures
            final(self)@ == if old(self)@.blame_gen == generation {
                old(self)@.then_do(Effect::AnnotateLine { tab, row, line })
            } else {
                old(self)@
            },
    {
        if self.blame_is_latest(generation) {
            self.effect(Effect::AnnotateLine { tab, row, line });
        }
    }
}

/// Of a hunk that only took lines away nothing is replaced: its lines are put back where they were.
pub proof fn removed_lines_are_put_back_in_place(starts: Seq<usize>, len: usize, hunk: DiffHunk)
    requires
        hunk.new_start == hunk.new_end,
    ensures
        hunk_span(starts, len, hunk).0 == hunk_span(starts, len, hunk).1,
{
}

/// The lines start one after another, the last one within the text.
pub open spec fn rising(starts: Seq<usize>, len: usize) -> bool {
    &&& starts.len() > 0
    &&& forall|i: int, j: int| 0 <= i < j < starts.len() ==> starts[i] < starts[j]
    &&& starts[starts.len() - 1] <= len
}

/// The place `at` is in this row.
pub open spec fn in_row(starts: Seq<usize>, row: int, at: int) -> bool {
    &&& 0 <= row < starts.len()
    &&& starts[row] <= at
    &&& row + 1 < starts.len() ==> at < starts[row + 1]
}

/// The range of a hunk starts where its first row does and ends where the row after its last one
/// does, or with the text where there is none: it holds exactly what is in the rows of the hunk.
pub proof fn the_range_of_a_hunk_is_its_rows(starts: Seq<usize>, len: usize, hunk: DiffHunk)
    requires
        rising(starts, len),
        hunk.new_start < hunk.new_end,
        hunk.new_start < starts.len(),
    ensures
        ({
            let (start, end) = hunk_span(starts, len, hunk);
            &&& start <= end <= len
            &&& start == starts[hunk.new_start as int]
            &&& hunk.new_end < starts.len() ==> end == starts[hunk.new_end as int]
            &&& hunk.new_end >= starts.len() ==> end == len
            &&& forall|row: int, at: int|
                0 <= at < len && #[trigger] in_row(starts, row, at) ==> (start <= at < end <==> hunk.new_start <= row
                    < hunk.new_end)
        }),
{
    let (start, end) = hunk_span(starts, len, hunk);
    assert forall|row: int, at: int| 0 <= at < len && #[trigger] in_row(starts, row, at) implies (start <= at < end
        <==> hunk.new_start <= row < hunk.new_end) by {
        if row < hunk.new_start {
            assert(starts[row + 1] <= starts[hunk.new_start as int]);
        } else if row > hunk.new_start {
            assert(starts[hunk.new_start as int] < starts[row]);
        }
        if hunk.new_end < starts.len() {
            if row < hunk.new_end {
                assert(starts[row + 1] <= starts[hunk.new_end as int]);
            } else if row > hunk.new_end {
                assert(starts[hunk.new_end as int] < starts[row]);
            }
        }
    }
}

/// A hunk without rows of its own covers nothing: the place before the row where they were, or the
/// start of the last row where there is no such row.
pub proof fn a_hunk_without_rows_is_a_place(starts: Seq<usize>, len: usize, hunk: DiffHunk)
    requires
        rising(starts, len),
        hunk.new_start >= hunk.new_end,
    ensures
        hunk_span(starts, len, hunk).0 == hunk_span(starts, len, hunk).1,
        hunk.new_start < starts.len() ==> hunk_span(starts, len, hunk).0 == starts[hunk.new_start as int],
        hunk.new_start >= starts.len() ==> forall|i: int|
            0 <= i < starts.len() ==> #[trigger] starts[i] <= hunk_span(starts, len, hunk).0,
        starts.contains(hunk_span(starts, len, hunk).0),
{
}

/// Lines one after another are the texts of the ones before and of the ones behind.
pub proof fn feeds_come_apart(a: Seq<Seq<char>>, b: Seq<Seq<char>>)
    ensures
        with_feeds(a + b) == with_feeds(a) + with_feeds(b),
    decreases b.len(),
{
    if b.len() == 0 {
        assert(a + b =~= a);
        assert(with_feeds(a) + with_feeds(b) =~= with_feeds(a));
    } else {
        assert((a + b).drop_last() =~= a + b.drop_last());
        feeds_come_apart(a, b.drop_last());
        assert(with_feeds(a) + with_feeds(b) =~= with_feeds(a) + with_feeds(b.drop_last()) + b.last() + "\n"@);
    }
}

/// A line has one line feed, behind it.
pub proof fn a_line_has_one_feed(line: Seq<char>)
    ensures
        with_feeds(seq![line]) == line.push('\n'),
        with_feeds(Seq::empty()) == Seq::<char>::empty(),
{
    reveal_strlit("\n");
    reveal_with_fuel(with_feeds, 2);
    assert(seq![line].drop_last() =~= Seq::empty());
    assert(with_feeds(seq![line]) =~= line.push('\n'));
}

/// Taking back a hunk puts the rows of the last commit in the place of its rows, and leaves every
/// other row as it is. The places are counted in the same unit as the texts are.
pub proof fn taking_back_replaces_the_rows(
    rows: Seq<Seq<char>>,
    head: Seq<Seq<char>>,
    starts: Seq<usize>,
    len: usize,
    hunk: DiffHunk,
)
    requires
        starts.len() == rows.len() + 1,
        forall|i: int| 0 <= i < starts.len() ==> (#[trigger] starts[i]) == with_feeds(rows.take(i)).len(),
        len == with_feeds(rows).len(),
        hunk.new_start <= hunk.new_end <= rows.len(),
        hunk.old_start <= hunk.old_end <= head.len(),
    ensures
        ({
            let text = with_feeds(rows);
            let (start, end) = hunk_span(starts, len, hunk);
            let put = with_feeds(rows_between(head, hunk.old_start as int, hunk.old_end as int));
            &&& start <= end <= text.len()
            &&& text.take(start as int) + put + text.skip(end as int) == with_feeds(
                rows.take(hunk.new_start as int) + head.subrange(hunk.old_start as int, hunk.old_end as int)
                    + rows.skip(hunk.new_end as int),
            )
        }),
{
    let text = with_feeds(rows);
    let from = hunk.new_start as int;
    let to = hunk.new_end as int;
    let front = rows.take(from);
    let back = rows.skip(to);
    let put = head.subrange(hunk.old_start as int, hunk.old_end as int);
    assert(rows_between(head, hunk.old_start as int, hunk.old_end as int) == put);
    assert(rows =~= rows.take(to) + back);
    feeds_come_apart(rows.take(to), back);
    assert(rows =~= front + rows.skip(from));
    feeds_come_apart(front, rows.skip(from));
    assert(starts[from] == with_feeds(front).len());
    assert(starts[to] == with_feeds(rows.take(to)).len());
    assert(rows.take(to) =~= front + rows.subrange(from, to));
    feeds_come_apart(front, rows.subrange(from, to));
    let (start, end) = hunk_span(starts, len, hunk);
    assert(text.take(start as int) =~= with_feeds(front));
    assert(text.skip(end as int) =~= with_feeds(back));
    feeds_come_apart(front, put);
    feeds_come_apart(front + put, back);
}

/// The rows between two places are those that stand there, as far as there are any.
pub proof fn rows_between_are_those_there(lines: Seq<Seq<char>>, start: int, end: int)
    requires
        0 <= start,
    ensures
        forall|k: int|
            0 <= k < rows_between(lines, start, end).len() ==> start + k < lines.len() && start + k < end
                && #[trigger] rows_between(lines, start, end)[k] == lines[start + k],
        end <= lines.len() && start <= end ==> rows_between(lines, start, end).len() == end - start,
        start < lines.len() <= end ==> rows_between(lines, start, end).len() == lines.len() - start,
        end <= start || lines.len() <= start ==> rows_between(lines, start, end).len() == 0,
{
}

/// A file is staged in the innermost repository around it, and in that of the project only where
/// there is none around it.
pub proof fn files_are_staged_in_the_innermost_repository(path: Seq<char>, root: Seq<char>, has_git: Seq<bool>, i: int)
    requires
        has_git.len() <= ancestors(path).len(),
    ensures
        0 <= i < has_git.len() && has_git[i] && (forall|j: int| 0 <= j < i ==> !#[trigger] has_git[j])
            ==> repository_of(path, root, has_git) == ancestors(path)[i],
        (forall|j: int| 0 <= j < has_git.len() ==> !#[trigger] has_git[j]) ==> repository_of(path, root, has_git)
            == root,
{
    if 0 <= i < has_git.len() && has_git[i] && (forall|j: int| 0 <= j < i ==> !#[trigger] has_git[j]) {
        assert forall|j: int| 0 <= j < i implies !is_set()(#[trigger] has_git[j]) by {}
        first_index_is(has_git, is_set(), i);
    }
    if forall|j: int| 0 <= j < has_git.len() ==> !#[trigger] has_git[j] {
        assert forall|j: int| 0 <= j < has_git.len() implies !is_set()(#[trigger] has_git[j]) by {}
        first_index_none(has_git, is_set());
    }
}

/// Stepping goes to a header and passes none: none stands between the row and the one that it goes
/// to; where it comes round, none stands on the rest of the way.
pub proof fn stepping_passes_no_header(rows: Seq<String>, row: int, forward: bool, to: int)
    requires
        is_next_header(rows, row, forward, to),
    ensures
        0 <= to < rows.len(),
        starts_with(rows[to]@, "@@"@),
        forward && to > row ==> forall|r: int|
            row < r < to && 0 <= r < rows.len() ==> !starts_with((#[trigger] rows[r])@, "@@"@),
        forward && to <= row ==> forall|r: int|
            (row < r || r < to) && 0 <= r < rows.len() ==> !starts_with((#[trigger] rows[r])@, "@@"@),
        !forward && to < row ==> forall|r: int|
            to < r < row && 0 <= r < rows.len() ==> !starts_with((#[trigger] rows[r])@, "@@"@),
        !forward && to >= row ==> forall|r: int|
            (r < row || to < r) && 0 <= r < rows.len() ==> !starts_with((#[trigger] rows[r])@, "@@"@),
{
    assert forall|r: int| 0 <= r < rows.len() implies is_header(rows, r) == starts_with((#[trigger] rows[r])@, "@@"@) by {}
}

/// The tab of a difference stands in the folder of its file and is named after it.
pub proof fn differences_stand_beside_their_file(path: Seq<char>)
    requires
        name_of(path) is Some,
    ensures
        name_of(diff_tab_path(path)) == Some(name_of(path)->0 + " ⇄ HEAD"@),
        components(diff_tab_path(path)).drop_last() == components(path).drop_last(),
{
    reveal_strlit(" ⇄ HEAD");
    reveal_strlit(".");
    reveal_strlit("..");
    reveal_strlit("/");
    let name = name_of(path)->0;
    let title = name + " ⇄ HEAD"@;
    names_are_last_components(path);
    paths_lie_in_folders(path);
    folders_have_all_but_the_last_component(path);
    assert(title[title.len() - 1] == 'D');
    if title.contains('/') {
        let i = choose|i: int| 0 <= i < title.len() && title[i] == '/';
        assert(i < name.len());
        assert(name.contains('/'));
    }
    if components(path) == seq!["/"@] {
        assert(components(path).last() == "/"@);
        assert(name[0] == '/');
        assert(name.contains('/'));
    }
    names_in_folders_come_last(folder_of(path)->0, title);
    assert(components(diff_tab_path(path)).drop_last() =~= components(path).drop_last());
}

/// The active tab has a file exactly if it shows an editor whose text belongs to one; closing the menu of
/// a hunk closes nothing else.
pub proof fn active_files_are_those_of_editors(m: Model)
    ensures
        m.has_active_file() <==> m.active_tab < m.tabs.len() && m.tabs[m.active_tab as int].has_editor
            && m.tabs[m.active_tab as int].has_file,
        m.hunk_menu_closed().hunk_menu is None,
        (Model { hunk_menu: m.hunk_menu, ..m.hunk_menu_closed() }) == m,
{
}

} // verus!
