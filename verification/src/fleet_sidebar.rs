//! The sidebar of the fleet: the tasks of the repository that is shown, the worktrees that were made
//! elsewhere, and what is done with several tasks at once.

use vstd::prelude::*;
use vstd::string::*;
use crate::paths::{is_same_path, same_path};
use crate::seqs::{
    copy_maybe, filter_comes_from, filter_holds, filter_keeps, filter_none, filter_step, first_index,
    first_index_holds, first_index_is, first_index_none,
};
use crate::text::texts;
use crate::workspace::{
    Chrome, Effect, FleetLook, FleetPane, Model, Notice, ProjectSlot, SpaceKind, TaskSpace,
    Workspace, WorktreeEntry, WorktreeListing,
};

verus! {

/// From how many tasks on the filter is shown.
pub const FLEET_FILTER_MIN_TASKS: usize = 6;

/// How many tasks stand on the stage.
pub const STAGE_LIMIT: usize = 3;

/// The slot belongs to this repository.
pub open spec fn in_repository(slot: ProjectSlot, key: Seq<char>) -> bool {
    slot.task_space.repository_id@ == key
}

/// The slot is one that tasks of this repository are merged into.
pub open spec fn merges_for(key: Seq<char>) -> spec_fn(ProjectSlot) -> bool {
    |slot: ProjectSlot| in_repository(slot, key) && slot.task_space.integration()
}

/// The slot is the main worktree of this repository.
pub open spec fn main_tree_of(key: Seq<char>) -> spec_fn(ProjectSlot) -> bool {
    |slot: ProjectSlot|
        in_repository(slot, key) && slot.task_space.integration() && !slot.task_space.linked
}

/// Where tasks of this repository are merged into: its main worktree, or else the first slot that
/// takes them.
pub open spec fn integration_slot(projects: Seq<ProjectSlot>, key: Seq<char>) -> Option<int> {
    match first_index(projects, main_tree_of(key)) {
        Some(i) => Some(i),
        None => first_index(projects, merges_for(key)),
    }
}

/// The listing is that of this repository.
pub open spec fn listing_of(key: Seq<char>) -> spec_fn(WorktreeListing) -> bool {
    |listing: WorktreeListing| listing.key@ == key
}

/// The listing is still being read.
pub open spec fn being_read() -> spec_fn(WorktreeListing) -> bool {
    |listing: WorktreeListing| listing.listed is None
}

/// The listings with the one of `key` replaced, or added.
pub open spec fn listing_put(listings: Seq<WorktreeListing>, key: String, listed: Option<Vec<WorktreeEntry>>) -> Seq<WorktreeListing> {
    match first_index(listings, listing_of(key@)) {
        Some(i) => listings.update(i, WorktreeListing { key, listed }),
        None => listings.push(WorktreeListing { key, listed }),
    }
}

/// The slot has this space.
pub open spec fn has_space(space: Seq<char>) -> spec_fn(ProjectSlot) -> bool {
    |slot: ProjectSlot| slot.task_space.id@ == space
}

/// The pane belongs to another task.
pub open spec fn of_other_space(space: Seq<char>) -> spec_fn(FleetPane) -> bool {
    |pane: FleetPane| pane.spec_space()@ != space
}

/// The slot is in this repository and at this place.
pub open spec fn stands_at(key: Seq<char>, canonical: Seq<char>) -> spec_fn(ProjectSlot) -> bool {
    |slot: ProjectSlot| in_repository(slot, key) && same_path(slot.canonical_root@, canonical)
}

/// A worktree that is no task.
pub struct ExternalRow {
    pub path: String,
    pub branch: Option<String>,
    /// Where it stands on the rail, if it does.
    pub rail_index: Option<usize>,
}

/// The row of a worktree that git lists, where it is neither a task nor the place that tasks are
/// merged into.
pub open spec fn external_row(projects: Seq<ProjectSlot>, key: Seq<char>, entry: WorktreeEntry) -> Option<ExternalRow> {
    match first_index(projects, stands_at(key, entry.canonical@)) {
        None => Some(ExternalRow { path: entry.path, branch: entry.branch, rail_index: None }),
        Some(i) => if integration_slot(projects, key) != Some(i) && projects[i].task_space.integration() {
            Some(ExternalRow { path: entry.path, branch: entry.branch, rail_index: Some(i as usize) })
        } else {
            None
        },
    }
}

/// The rows of the worktrees that are no tasks, in the order git lists them.
pub open spec fn external_rows(projects: Seq<ProjectSlot>, key: Seq<char>, listed: Seq<WorktreeEntry>) -> Seq<ExternalRow>
    decreases listed.len(),
{
    if listed.len() == 0 {
        Seq::empty()
    } else {
        let before = external_rows(projects, key, listed.drop_last());
        match external_row(projects, key, listed.last()) {
            Some(row) => before.push(row),
            None => before,
        }
    }
}

/// The space is on the rail.
pub open spec fn on_rail(projects: Seq<ProjectSlot>) -> spec_fn(String) -> bool {
    |space: String| first_index(projects, has_space(space@)) is Some
}

/// Where the item with this text stands.
pub open spec fn text_is(text: Seq<char>) -> spec_fn(String) -> bool {
    |s: String| s@ == text
}

impl Model {
    /// The repository that is shown.
    pub open spec fn repository(self) -> Option<Seq<char>> {
        if self.has_slot() {
            Some(self.slot().task_space.repository_id@)
        } else {
            None
        }
    }

    /// Where a space stands on the rail.
    pub open spec fn space_index(self, space: Seq<char>) -> Option<int> {
        first_index(self.projects, has_space(space))
    }

    /// What was read of the worktrees of a repository.
    pub open spec fn worktrees_of(self, key: Seq<char>) -> Option<Seq<WorktreeEntry>> {
        match first_index(self.fleet_worktrees, listing_of(key)) {
            Some(i) => match self.fleet_worktrees[i].listed {
                Some(listed) => Some(listed@),
                None => None,
            },
            None => None,
        }
    }

    /// The worktrees of the repository that is shown are read again, unless they are being read.
    pub open spec fn worktrees_refreshed(self) -> Model {
        match self.repository() {
            None => self,
            Some(key) => {
                let known = first_index(self.fleet_worktrees, listing_of(key));
                if known is Some && self.fleet_worktrees[known->0].listed is None {
                    self
                } else {
                    let from = match integration_slot(self.projects, key) {
                        Some(i) => self.projects[i],
                        None => self.slot(),
                    };
                    let key = self.slot().task_space.repository_id;
                    (Model { fleet_worktrees: listing_put(self.fleet_worktrees, key, None), ..self }).then_do(
                        Effect::ReadWorktrees { key, host_id: from.host_id, root: from.root },
                    )
                }
            },
        }
    }

    /// What was read of worktrees is forgotten.
    pub open spec fn worktrees_forgotten(self) -> Model {
        Model { fleet_worktrees: self.fleet_worktrees.filter(being_read()), ..self }
    }

    /// The worktrees of the repository that is shown which are no tasks.
    pub open spec fn externals(self) -> Seq<ExternalRow> {
        match self.repository() {
            Some(key) => match self.worktrees_of(key) {
                Some(listed) => external_rows(self.projects, key, listed),
                None => Seq::empty(),
            },
            None => Seq::empty(),
        }
    }

    /// The worktree of a slot is gone: git does not list it any more.
    pub open spec fn vanished(self, index: int) -> bool {
        index < self.projects.len() && {
            let slot = self.projects[index];
            match self.worktrees_of(slot.task_space.repository_id@) {
                Some(listed) => slot.remote_host is None && forall|i: int|
                    0 <= i < listed.len() ==> !same_path((#[trigger] listed[i]).canonical@, slot.canonical_root@),
                None => false,
            }
        }
    }

    /// A slot is a task, based on what is its head if it has no base yet.
    pub open spec fn task_made(self, index: int) -> Model {
        if index < self.projects.len() {
            let slot = self.projects[index];
            let space = TaskSpace {
                kind: SpaceKind::Task,
                base_oid: if slot.task_space.base_oid is None {
                    slot.task_space.head_oid
                } else {
                    slot.task_space.base_oid
                },
                ..slot.task_space
            };
            let m = Model {
                projects: self.projects.update(index, ProjectSlot { task_space: space, ..slot }),
                ..self
            };
            if self.has_storage {
                m.then_do(Effect::PersistTaskSpace(index as usize))
            } else {
                m
            }
        } else {
            self
        }
    }

    /// Nothing is selected.
    pub open spec fn selection_cleared(self) -> Model {
        Model { fleet_selection: Seq::empty(), fleet_selection_anchor: None, ..self }
    }

    /// A task is selected, or is not any more.
    pub open spec fn selection_toggled(self, space: String) -> Model {
        Model {
            fleet_selection: match first_index(self.fleet_selection, text_is(space@)) {
                Some(i) => self.fleet_selection.remove(i),
                None => self.fleet_selection.push(space),
            },
            fleet_selection_anchor: Some(space),
            ..self
        }
    }

    /// The tasks from the anchor to a task are selected, as they are listed.
    pub open spec fn range_selected(self, order: Seq<String>, space: String) -> Model {
        let anchor = match self.fleet_selection_anchor {
            Some(anchor) => anchor,
            None => space,
        };
        let selection = match (
            first_index(order, text_is(anchor@)),
            first_index(order, text_is(space@)),
        ) {
            (Some(from), Some(to)) => if from <= to {
                order.subrange(from, to + 1)
            } else {
                order.subrange(to, from + 1)
            },
            _ => seq![space],
        };
        Model { fleet_selection: selection, fleet_selection_anchor: Some(anchor), ..self }
    }

    /// The first tasks of a selection stand on the stage.
    pub open spec fn selection_staged(self, spaces: Seq<String>) -> Model {
        let known = spaces.filter(on_rail(self.projects));
        if known.len() == 0 {
            self
        } else {
            let m = if known.len() > STAGE_LIMIT {
                self.then_do(Effect::Toast(Notice::StageTakesTheFirst(known.len() as usize)))
            } else {
                self
            };
            m.staged(if known.len() > STAGE_LIMIT { known.take(STAGE_LIMIT as int) } else { known }).then_do(
                Effect::SaveState,
            ).selection_cleared()
        }
    }

    /// These tasks stand on the stage, in two columns at least.
    pub open spec fn staged(self, pinned: Seq<String>) -> Model {
        Model {
            stage_pinned: pinned,
            chrome: staged_in_columns(self.chrome, if pinned.len() > 2 { pinned.len() as usize } else { 2 }),
            ..self
        }
    }

    /// A task whose worktree is gone leaves the window.
    pub open spec fn vanished_forgotten(self, index: int) -> Model {
        if index < self.projects.len() {
            let space = self.projects[index].task_space.id@;
            (Model { fleet_cells: self.fleet_cells.filter(of_other_space(space)), ..self }).then_do(
                Effect::RemoveProjectSlot(index as usize),
            ).worktrees_forgotten()
        } else {
            self
        }
    }
}

/// The stage has this many columns.
pub open spec fn staged_in_columns(chrome: Chrome, columns: usize) -> Chrome {
    Chrome { fleet: FleetLook { stage_columns: columns, ..chrome.fleet }, ..chrome }
}

/// Where the item with this text stands.
pub fn position_of(list: &Vec<String>, text: &String) -> (r: Option<usize>)
    ensures
        match r {
            Some(i) => i < list@.len() && first_index(list@, text_is(text@)) == Some(i as int),
            None => first_index(list@, text_is(text@)) == None::<int>,
        },
{
    let ghost wanted = text_is(text@);
    let mut i: usize = 0;
    while i < list.len()
        invariant
            i <= list@.len(),
            wanted == text_is(text@),
            forall|j: int| 0 <= j < i ==> !wanted(#[trigger] list@[j]),
        decreases list@.len() - i,
    {
        if list[i] == *text {
            proof {
                first_index_is(list@, wanted, i as int);
            }
            return Some(i);
        }
        i = i + 1;
    }
    proof {
        first_index_none(list@, wanted);
    }
    None
}

fn copy_range(list: &Vec<String>, from: usize, to: usize) -> (r: Vec<String>)
    requires
        from <= to <= list@.len(),
    ensures
        r@ == list@.subrange(from as int, to as int),
{
    let mut out: Vec<String> = Vec::new();
    let mut i: usize = from;
    while i < to
        invariant
            from <= i <= to <= list@.len(),
            out@ == list@.subrange(from as int, i as int),
        decreases to - i,
    {
        assert(list@.subrange(from as int, i + 1) =~= list@.subrange(from as int, i as int).push(list@[i as int]));
        out.push(list[i].clone());
        i = i + 1;
    }
    out
}

impl Workspace {
    /// The repository that is shown.
    pub fn fleet_repository_key(&self) -> (key: Option<String>)
        ensures
            key == if self@.has_slot() {
                Some(self@.slot().task_space.repository_id)
            } else {
                None::<String>
            },
    {
        if self.has_active_slot() {
            Some(self.projects[self.active].task_space.repository_id.clone())
        } else {
            None
        }
    }

    /// Where tasks of a repository are merged into: its main worktree, or else the first slot that
    /// takes them.
    pub fn integration_slot_for(&self, key: &String) -> (r: Option<usize>)
        ensures
            match r {
                Some(i) => i < self@.projects.len() && integration_slot(self@.projects, key@) == Some(i as int),
                None => integration_slot(self@.projects, key@) == None::<int>,
            },
    {
        let ghost main = main_tree_of(key@);
        let ghost any = merges_for(key@);
        let mut first: Option<usize> = None;
        let mut i: usize = 0;
        while i < self.projects.len()
            invariant
                i <= self.projects@.len(),
                main == main_tree_of(key@),
                any == merges_for(key@),
                forall|j: int| 0 <= j < i ==> !main(#[trigger] self.projects@[j]),
                match first {
                    Some(f) => f < i && any(self.projects@[f as int]) && forall|j: int|
                        0 <= j < f ==> !any(#[trigger] self.projects@[j]),
                    None => forall|j: int| 0 <= j < i ==> !any(#[trigger] self.projects@[j]),
                },
            decreases self.projects@.len() - i,
        {
            if self.projects[i].task_space.repository_id == *key && self.projects[i].task_space.is_integration() {
                if !self.projects[i].task_space.linked {
                    proof {
                        first_index_is(self.projects@, main, i as int);
                    }
                    return Some(i);
                }
                if first.is_none() {
                    first = Some(i);
                }
            }
            i = i + 1;
        }
        proof {
            first_index_none(self.projects@, main);
            match first {
                Some(f) => first_index_is(self.projects@, any, f as int),
                None => first_index_none(self.projects@, any),
            }
        }
        first
    }

    /// Where a space stands on the rail.
    pub fn session_index_for_space(&self, space: &String) -> (r: Option<usize>)
        ensures
            match r {
                Some(i) => i < self@.projects.len() && self@.space_index(space@) == Some(i as int),
                None => self@.space_index(space@) == None::<int>,
            },
    {
        let ghost wanted = has_space(space@);
        let mut i: usize = 0;
        while i < self.projects.len()
            invariant
                i <= self.projects@.len(),
                wanted == has_space(space@),
                forall|j: int| 0 <= j < i ==> !wanted(#[trigger] self.projects@[j]),
            decreases self.projects@.len() - i,
        {
            if self.projects[i].task_space.id == *space {
                proof {
                    first_index_is(self.projects@, wanted, i as int);
                }
                return Some(i);
            }
            i = i + 1;
        }
        proof {
            first_index_none(self.projects@, wanted);
        }
        None
    }

    fn listing_index(&self, key: &String) -> (r: Option<usize>)
        ensures
            match r {
                Some(i) => i < self@.fleet_worktrees.len() && first_index(
                    self@.fleet_worktrees,
                    listing_of(key@),
                ) == Some(i as int),
                None => first_index(self@.fleet_worktrees, listing_of(key@)) == None::<int>,
            },
    {
        let ghost wanted = listing_of(key@);
        let mut i: usize = 0;
        while i < self.fleet_worktrees.len()
            invariant
                i <= self.fleet_worktrees@.len(),
                wanted == listing_of(key@),
                forall|j: int| 0 <= j < i ==> !wanted(#[trigger] self.fleet_worktrees@[j]),
            decreases self.fleet_worktrees@.len() - i,
        {
            if self.fleet_worktrees[i].key == *key {
                proof {
                    first_index_is(self.fleet_worktrees@, wanted, i as int);
                }
                return Some(i);
            }
            i = i + 1;
        }
        proof {
            first_index_none(self.fleet_worktrees@, wanted);
        }
        None
    }

    fn put_listing(&mut self, key: String, listed: Option<Vec<WorktreeEntry>>)
        ensures
            final(self)@ == (Model {
                fleet_worktrees: listing_put(old(self)@.fleet_worktrees, key, listed),
                ..old(self)@
            }),
    {
        match self.listing_index(&key) {
            Some(i) => {
                self.fleet_worktrees[i] = WorktreeListing { key, listed };
            },
            None => {
                self.fleet_worktrees.push(WorktreeListing { key, listed });
            },
        }
    }

    /// Reads the worktrees of the repository that is shown again, from where its tasks are merged
    /// into. While they are being read nothing is done.
    pub fn refresh_fleet_worktrees(&mut self)
        ensures
            final(self)@ == old(self)@.worktrees_refreshed(),
    {
        let Some(key) = self.fleet_repository_key() else {
            return;
        };
        if let Some(i) = self.listing_index(&key) {
            if self.fleet_worktrees[i].listed.is_none() {
                return;
            }
        }
        let from: usize = match self.integration_slot_for(&key) {
            Some(i) => i,
            None => self.active,
        };
        let host_id = self.projects[from].host_id.clone();
        let root = self.projects[from].root.clone();
        self.put_listing(key.clone(), None);
        self.effect(Effect::ReadWorktrees { key, host_id, root });
    }

    /// The worktrees of a repository were read.
    pub fn fleet_worktrees_read(&mut self, key: String, listed: Vec<WorktreeEntry>)
        ensures
            final(self)@ == (Model {
                fleet_worktrees: listing_put(old(self)@.fleet_worktrees, key, Some(listed)),
                ..old(self)@
            }),
    {
        self.put_listing(key, Some(listed));
    }

    /// Reads the worktrees of the repository that is shown, if that was not done yet.
    pub fn ensure_fleet_worktrees(&mut self)
        ensures
            final(self)@ == match old(self)@.repository() {
                Some(key) => if first_index(old(self)@.fleet_worktrees, listing_of(key)) is Some {
                    old(self)@
                } else {
                    old(self)@.worktrees_refreshed()
                },
                None => old(self)@,
            },
    {
        let Some(key) = self.fleet_repository_key() else {
            return;
        };
        if self.listing_index(&key).is_none() {
            self.refresh_fleet_worktrees();
        }
    }

    /// Forgets what was read of worktrees, so that it is read again.
    pub fn forget_fleet_worktrees(&mut self)
        ensures
            final(self)@ == old(self)@.worktrees_forgotten(),
    {
        let ghost all = self@.fleet_worktrees;
        let ghost keep = being_read();
        let mut rest: Vec<WorktreeListing> = Vec::new();
        rest.append(&mut self.fleet_worktrees);
        let ghost mut done: int = 0;
        proof {
            filter_none(all, keep);
            assert(rest@ =~= all);
            assert(all.skip(0) =~= all);
        }
        while rest.len() > 0
            invariant
                0 <= done <= all.len(),
                rest@ == all.skip(done),
                keep == being_read(),
                self@ == (Model { fleet_worktrees: all.take(done).filter(keep), ..old(self)@ }),
            decreases rest@.len(),
        {
            let listing = rest.remove(0);
            proof {
                assert(listing == all[done]);
                filter_step(all, done, keep);
                assert(rest@ =~= all.skip(done + 1));
                done = done + 1;
            }
            if listing.listed.is_none() {
                self.fleet_worktrees.push(listing);
            }
        }
        assert(all.take(all.len() as int) =~= all);
    }

    fn external_row_of(&self, key: &String, entry: &WorktreeEntry) -> (row: Option<ExternalRow>)
        ensures
            row == external_row(self@.projects, key@, *entry),
    {
        let ghost wanted = stands_at(key@, entry.canonical@);
        let mut i: usize = 0;
        while i < self.projects.len()
            invariant
                i <= self.projects@.len(),
                wanted == stands_at(key@, entry.canonical@),
                forall|j: int| 0 <= j < i ==> !wanted(#[trigger] self.projects@[j]),
            decreases self.projects@.len() - i,
        {
            if self.projects[i].task_space.repository_id == *key && is_same_path(
                self.projects[i].canonical_root.as_str(),
                entry.canonical.as_str(),
            ) {
                proof {
                    first_index_is(self.projects@, wanted, i as int);
                }
                let is_target = match self.integration_slot_for(key) {
                    Some(target) => target == i,
                    None => false,
                };
                return if !is_target && self.projects[i].task_space.is_integration() {
                    Some(
                        ExternalRow {
                            path: entry.path.clone(),
                            branch: copy_maybe(&entry.branch),
                            rail_index: Some(i),
                        },
                    )
                } else {
                    None
                };
            }
            i = i + 1;
        }
        proof {
            first_index_none(self.projects@, wanted);
        }
        Some(ExternalRow { path: entry.path.clone(), branch: copy_maybe(&entry.branch), rail_index: None })
    }

    /// The worktrees of the repository that is shown which are no tasks: those that are not on the
    /// rail, and those that are there without being a task.
    pub fn external_worktrees(&self) -> (rows: Vec<ExternalRow>)
        ensures
            rows@ == self@.externals(),
    {
        let mut rows: Vec<ExternalRow> = Vec::new();
        let Some(key) = self.fleet_repository_key() else {
            return rows;
        };
        let Some(at) = self.listing_index(&key) else {
            return rows;
        };
        let Some(listed) = &self.fleet_worktrees[at].listed else {
            return rows;
        };
        let mut i: usize = 0;
        while i < listed.len()
            invariant
                i <= listed@.len(),
                rows@ == external_rows(self@.projects, key@, listed@.take(i as int)),
            decreases listed@.len() - i,
        {
            proof {
                assert(listed@.take(i + 1).drop_last() =~= listed@.take(i as int));
                assert(listed@.take(i + 1).last() == listed@[i as int]);
            }
            if let Some(row) = self.external_row_of(&key, &listed[i]) {
                rows.push(row);
            }
            i = i + 1;
        }
        assert(listed@.take(listed@.len() as int) =~= listed@);
        rows
    }

    /// Whether the worktree of a slot is gone: git does not list it any more.
    pub fn vanished_worktree(&self, index: usize) -> (b: bool)
        ensures
            b == self@.vanished(index as int),
    {
        if index >= self.projects.len() {
            return false;
        }
        let Some(at) = self.listing_index(&self.projects[index].task_space.repository_id) else {
            return false;
        };
        let Some(listed) = &self.fleet_worktrees[at].listed else {
            return false;
        };
        if self.projects[index].remote_host.is_some() {
            return false;
        }
        let mut i: usize = 0;
        while i < listed.len()
            invariant
                i <= listed@.len(),
                index < self.projects@.len(),
                self@.worktrees_of(self@.projects[index as int].task_space.repository_id@) == Some(listed@),
                forall|k: int|
                    0 <= k < i ==> !same_path(
                        (#[trigger] listed@[k]).canonical@,
                        self.projects@[index as int].canonical_root@,
                    ),
            decreases listed@.len() - i,
        {
            if is_same_path(listed[i].canonical.as_str(), self.projects[index].canonical_root.as_str()) {
                assert(same_path(
                    listed@[i as int].canonical@,
                    self@.projects[index as int].canonical_root@,
                ));
                return false;
            }
            i = i + 1;
        }
        true
    }

    /// Takes a worktree in as a task: one that is on the rail already becomes one where it stands,
    /// another is opened on the rail first.
    pub fn adopt_worktree(&mut self, path: String, branch: Option<String>, rail_index: Option<usize>)
        ensures
            final(self)@ == match rail_index {
                Some(index) => old(self)@.task_made(index as int),
                None => {
                    let host = match old(self)@.repository() {
                        Some(key) => match integration_slot(old(self)@.projects, key) {
                            Some(i) => Some(old(self)@.projects[i].host_id),
                            None => None,
                        },
                        None => None,
                    };
                    old(self)@.then_do(Effect::AdoptAsTask(path)).then_do(
                        Effect::OpenFolderInRail { host, path, branch },
                    )
                },
            },
    {
        if let Some(index) = rail_index {
            self.make_task_space(index);
            return;
        }
        let host = match self.fleet_repository_key() {
            Some(key) => match self.integration_slot_for(&key) {
                Some(i) => Some(self.projects[i].host_id.clone()),
                None => None,
            },
            None => None,
        };
        self.effect(Effect::AdoptAsTask(path.clone()));
        self.effect(Effect::OpenFolderInRail { host, path, branch });
    }

    /// Makes a slot of the rail a task.
    pub fn make_task_space(&mut self, index: usize)
        ensures
            final(self)@ == old(self)@.task_made(index as int),
    {
        if index >= self.projects.len() {
            return;
        }
        self.projects[index].task_space.kind = SpaceKind::Task;
        if self.projects[index].task_space.base_oid.is_none() {
            let head = copy_maybe(&self.projects[index].task_space.head_oid);
            self.projects[index].task_space.base_oid = head;
        }
        proof {
            let slot = old(self)@.projects[index as int];
            let space = TaskSpace {
                kind: SpaceKind::Task,
                base_oid: if slot.task_space.base_oid is None {
                    slot.task_space.head_oid
                } else {
                    slot.task_space.base_oid
                },
                ..slot.task_space
            };
            assert(self@.projects =~= old(self)@.projects.update(
                index as int,
                ProjectSlot { task_space: space, ..slot },
            ));
        }
        if self.has_storage {
            self.effect(Effect::PersistTaskSpace(index));
        }
    }

    /// Selects a task, or takes it out of the selection.
    pub fn toggle_fleet_selection(&mut self, space: String)
        ensures
            final(self)@ == old(self)@.selection_toggled(space),
    {
        match position_of(&self.fleet_selection, &space) {
            Some(i) => {
                self.fleet_selection.remove(i);
            },
            None => {
                self.fleet_selection.push(space.clone());
            },
        }
        self.fleet_selection_anchor = Some(space);
    }

    /// Selects the tasks from the one that was clicked last to this one, as they are listed.
    pub fn select_fleet_range(&mut self, order: &Vec<String>, space: String)
        ensures
            final(self)@ == old(self)@.range_selected(order@, space),
    {
        let anchor = match &self.fleet_selection_anchor {
            Some(anchor) => anchor.clone(),
            None => space.clone(),
        };
        let count: usize = order.len();
        let clicked = position_of(order, &space);
        let from = position_of(order, &anchor);
        self.fleet_selection = match (from, clicked) {
            (Some(from), Some(to)) => if from <= to {
                copy_range(order, from, to + 1)
            } else {
                copy_range(order, to, from + 1)
            },
            _ => {
                let mut alone: Vec<String> = Vec::new();
                alone.push(space);
                assert(alone@ =~= seq![space]);
                alone
            },
        };
        self.fleet_selection_anchor = Some(anchor);
    }

    /// Selects nothing.
    pub fn clear_fleet_selection(&mut self)
        ensures
            final(self)@ == old(self)@.selection_cleared(),
    {
        self.fleet_selection.clear();
        self.fleet_selection_anchor = None;
    }

    /// The places on the rail of the spaces that are there.
    fn sessions_of(&self, spaces: &Vec<String>) -> (r: Vec<usize>)
        ensures
            r@ == rail_places(self@, spaces@),
    {
        let mut out: Vec<usize> = Vec::new();
        let mut i: usize = 0;
        while i < spaces.len()
            invariant
                i <= spaces@.len(),
                out@ == rail_places(self@, spaces@.take(i as int)),
            decreases spaces@.len() - i,
        {
            proof {
                assert(spaces@.take(i + 1).drop_last() =~= spaces@.take(i as int));
                assert(spaces@.take(i + 1).last() == spaces@[i as int]);
            }
            if let Some(index) = self.session_index_for_space(&spaces[i]) {
                out.push(index);
            }
            i = i + 1;
        }
        assert(spaces@.take(spaces@.len() as int) =~= spaces@);
        out
    }

    /// Stops the agents of the selected tasks that have nothing to do.
    pub fn rest_selected_tasks(&mut self, spaces: &Vec<String>)
        ensures
            exists|sessions: Vec<usize>|
                sessions@ == rail_places(old(self)@, spaces@) && final(self)@ == #[trigger] old(self)@.then_do(
                    Effect::StopQuietAgents(sessions),
                ).selection_cleared(),
    {
        let sessions = self.sessions_of(spaces);
        self.effect(Effect::StopQuietAgents(sessions));
        self.clear_fleet_selection();
    }

    fn known_spaces(&self, spaces: &Vec<String>) -> (known: Vec<String>)
        ensures
            known@ == spaces@.filter(on_rail(self@.projects)),
    {
        let ghost keep = on_rail(self@.projects);
        let mut known: Vec<String> = Vec::new();
        let mut i: usize = 0;
        proof {
            filter_none(spaces@, keep);
        }
        while i < spaces.len()
            invariant
                i <= spaces@.len(),
                keep == on_rail(self@.projects),
                known@ == spaces@.take(i as int).filter(keep),
            decreases spaces@.len() - i,
        {
            proof {
                filter_step(spaces@, i as int, keep);
            }
            if self.session_index_for_space(&spaces[i]).is_some() {
                known.push(spaces[i].clone());
            }
            i = i + 1;
        }
        assert(spaces@.take(spaces@.len() as int) =~= spaces@);
        known
    }

    /// Puts the selected tasks on the stage, as many as it takes.
    pub fn stage_selected_tasks(&mut self, spaces: &Vec<String>)
        ensures
            final(self)@ == old(self)@.selection_staged(spaces@),
    {
        let mut known = self.known_spaces(spaces);
        if known.len() == 0 {
            return;
        }
        if known.len() > STAGE_LIMIT {
            self.effect(Effect::Toast(Notice::StageTakesTheFirst(known.len())));
            let ghost all = known@;
            known.truncate(STAGE_LIMIT);
            assert(known@ =~= all.take(STAGE_LIMIT as int));
        }
        self.set_stage(known);
        self.effect(Effect::SaveState);
        self.clear_fleet_selection();
    }

    /// Puts tasks on the stage, in two columns at least.
    pub fn set_stage(&mut self, pinned: Vec<String>)
        ensures
            final(self)@ == old(self)@.staged(pinned@),
    {
        let columns: usize = if pinned.len() > 2 {
            pinned.len()
        } else {
            2
        };
        self.stage_pinned = pinned;
        self.chrome.fleet.stage_columns = columns;
    }

    /// Shows what cleaning up the selected tasks would lose.
    pub fn cleanup_selected_tasks(&mut self, spaces: Vec<String>)
        ensures
            final(self)@ == old(self)@.then_do(Effect::ShowCleanup(spaces)).selection_cleared(),
    {
        self.effect(Effect::ShowCleanup(spaces));
        self.clear_fleet_selection();
    }

    /// Takes a task whose worktree is gone out of the window.
    pub fn forget_vanished_task(&mut self, index: usize)
        ensures
            final(self)@ == old(self)@.vanished_forgotten(index as int),
    {
        if index >= self.projects.len() {
            return;
        }
        let space = self.projects[index].task_space.id.clone();
        self.remove_fleet_cells_for(&space);
        self.effect(Effect::RemoveProjectSlot(index));
        self.forget_fleet_worktrees();
    }

    /// Takes the panes of a task out of the grid.
    pub fn remove_fleet_cells_for(&mut self, space: &String)
        ensures
            final(self)@ == (Model {
                fleet_cells: old(self)@.fleet_cells.filter(of_other_space(space@)),
                ..old(self)@
            }),
    {
        let ghost all = self@.fleet_cells;
        let ghost keep = of_other_space(space@);
        let mut rest: Vec<FleetPane> = Vec::new();
        rest.append(&mut self.fleet_cells);
        let ghost mut done: int = 0;
        proof {
            filter_none(all, keep);
            assert(rest@ =~= all);
            assert(all.skip(0) =~= all);
        }
        while rest.len() > 0
            invariant
                0 <= done <= all.len(),
                rest@ == all.skip(done),
                keep == of_other_space(space@),
                self@ == (Model { fleet_cells: all.take(done).filter(keep), ..old(self)@ }),
            decreases rest@.len(),
        {
            let pane = rest.remove(0);
            proof {
                assert(pane == all[done]);
                filter_step(all, done, keep);
                assert(rest@ =~= all.skip(done + 1));
                done = done + 1;
            }
            if *pane.space() != *space {
                self.fleet_cells.push(pane);
            }
        }
        assert(all.take(all.len() as int) =~= all);
    }
}

/// The places on the rail of the spaces that are there.
pub open spec fn rail_places(m: Model, spaces: Seq<String>) -> Seq<usize>
    decreases spaces.len(),
{
    if spaces.len() == 0 {
        Seq::empty()
    } else {
        let before = rail_places(m, spaces.drop_last());
        match m.space_index(spaces.last()@) {
            Some(i) => before.push(i as usize),
            None => before,
        }
    }
}

/// The main worktree of a repository takes its tasks, wherever it stands on the rail.
pub proof fn the_main_worktree_takes_the_tasks(projects: Seq<ProjectSlot>, key: Seq<char>, k: int)
    requires
        0 <= k < projects.len(),
        main_tree_of(key)(projects[k]),
    ensures
        integration_slot(projects, key) matches Some(i) && main_tree_of(key)(projects[i]),
{
    first_index_holds(projects, main_tree_of(key));
}

/// What takes the tasks of a repository belongs to it and is no task.
pub proof fn tasks_are_merged_into_their_repository(projects: Seq<ProjectSlot>, key: Seq<char>)
    ensures
        integration_slot(projects, key) matches Some(i) ==> 0 <= i < projects.len() && in_repository(
            projects[i],
            key,
        ) && projects[i].task_space.integration(),
{
    first_index_holds(projects, main_tree_of(key));
    first_index_holds(projects, merges_for(key));
}

/// A worktree that was taken in as a task is not listed as one from elsewhere any more.
pub proof fn adopted_worktrees_are_no_externals(projects: Seq<ProjectSlot>, key: Seq<char>, entry: WorktreeEntry, i: int)
    requires
        first_index(projects, stands_at(key, entry.canonical@)) == Some(i),
        0 <= i < projects.len(),
        projects[i].task_space.kind == SpaceKind::Task,
    ensures
        external_row(projects, key, entry) is None,
{
}

/// No task is selected twice.
pub open spec fn selected_once(selection: Seq<String>) -> bool {
    forall|i: int, j: int| 0 <= i < j < selection.len() ==> selection[i]@ != selection[j]@
}

/// Toggling a task twice leaves the same tasks selected. One that was not selected leaves the selection
/// as it was; one that was stands at its end.
pub proof fn toggling_twice_selects_the_same(m: Model, space: String)
    requires
        selected_once(m.fleet_selection),
    ensures
        ({
            let twice = m.selection_toggled(space).selection_toggled(space).fleet_selection;
            &&& twice == match first_index(m.fleet_selection, text_is(space@)) {
                None => m.fleet_selection,
                Some(i) => m.fleet_selection.remove(i).push(space),
            }
            &&& forall|other: Seq<char>| texts(twice).contains(other) <==> texts(m.fleet_selection).contains(other)
            &&& selected_once(twice)
        }),
{
    let wanted = text_is(space@);
    let all = m.fleet_selection;
    let once = m.selection_toggled(space).fleet_selection;
    let twice = m.selection_toggled(space).selection_toggled(space).fleet_selection;
    first_index_holds(all, wanted);
    match first_index(all, wanted) {
        None => {
            assert forall|j: int| 0 <= j < all.len() implies !wanted(#[trigger] once[j]) by {
                assert(once[j] == all[j]);
            }
            first_index_is(once, wanted, all.len() as int);
            assert(twice =~= all);
        },
        Some(i) => {
            assert forall|j: int| 0 <= j < once.len() implies !wanted(#[trigger] once[j]) by {
                if j < i {
                    assert(once[j] == all[j]);
                } else {
                    assert(once[j] == all[j + 1]);
                    assert(all[i]@ != all[j + 1]@);
                }
            }
            first_index_none(once, wanted);
            let last = once.len() as int;
            assert forall|other: Seq<char>| texts(twice).contains(other) <==> texts(all).contains(other) by {
                if texts(twice).contains(other) {
                    let k = choose|k: int| 0 <= k < texts(twice).len() && texts(twice)[k] == other;
                    let from = if k == last { i } else if k < i { k } else { k + 1 };
                    assert(texts(all)[from] == other);
                }
                if texts(all).contains(other) {
                    let k = choose|k: int| 0 <= k < texts(all).len() && texts(all)[k] == other;
                    let to = if k == i { last } else if k < i { k } else { k - 1 };
                    assert(texts(twice)[to] == other);
                }
            }
            assert forall|a: int, b: int| 0 <= a < b < twice.len() implies twice[a]@ != twice[b]@ by {
                if b == last {
                    assert(!wanted(once[a]));
                } else {
                    let from_a = if a < i { a } else { a + 1 };
                    let from_b = if b < i { b } else { b + 1 };
                    assert(all[from_a]@ != all[from_b]@);
                }
            }
        },
    }
}

/// A range that was selected is a run of the list that holds the task that was clicked.
pub proof fn ranges_hold_what_was_clicked(m: Model, order: Seq<String>, space: String)
    ensures
        exists|i: int|
            0 <= i < m.range_selected(order, space).fleet_selection.len() && (#[trigger] m.range_selected(
                order,
                space,
            ).fleet_selection[i])@ == space@,
{
    first_index_holds(order, text_is(space@));
    let anchor = match m.fleet_selection_anchor {
        Some(anchor) => anchor,
        None => space,
    };
    first_index_holds(order, text_is(anchor@));
    let selection = m.range_selected(order, space).fleet_selection;
    match (first_index(order, text_is(anchor@)), first_index(order, text_is(space@))) {
        (Some(from), Some(to)) => {
            if from <= to {
                assert(selection[to - from]@ == space@);
            } else {
                assert(selection[0]@ == space@);
            }
        },
        _ => {
            assert(selection[0]@ == space@);
        },
    }
}

/// No more tasks stand on the stage than it takes, and it has a column for each.
pub proof fn the_stage_has_room(m: Model, spaces: Seq<String>)
    requires
        spaces.filter(on_rail(m.projects)).len() > 0,
        spaces.len() <= usize::MAX,
    ensures
        m.selection_staged(spaces).stage_pinned.len() <= STAGE_LIMIT,
        m.selection_staged(spaces).stage_pinned.len() <= m.selection_staged(spaces).chrome.fleet.stage_columns,
        m.selection_staged(spaces).fleet_selection.len() == 0,
{
}

/// A space stands on the rail where the first slot with its id does, and nowhere exactly if no slot has
/// it.
pub proof fn spaces_are_found_by_their_id(m: Model, space: Seq<char>)
    ensures
        match m.space_index(space) {
            Some(i) => 0 <= i < m.projects.len() && m.projects[i].task_space.id@ == space && forall|k: int|
                0 <= k < i ==> (#[trigger] m.projects[k]).task_space.id@ != space,
            None => forall|k: int| 0 <= k < m.projects.len() ==> (#[trigger] m.projects[k]).task_space.id@ != space,
        },
{
    let wanted = has_space(space);
    first_index_holds(m.projects, wanted);
    assert forall|k: int| 0 <= k < m.projects.len() implies wanted(#[trigger] m.projects[k]) == (
    m.projects[k].task_space.id@ == space) by {}
}

/// Where tasks are merged into: a slot of their repository that is no task; one that is a linked
/// worktree only where there is no other, and of several the first.
pub proof fn tasks_are_merged_into_the_main_worktree(projects: Seq<ProjectSlot>, key: Seq<char>)
    ensures
        match integration_slot(projects, key) {
            Some(i) => {
                &&& 0 <= i < projects.len()
                &&& projects[i].task_space.repository_id@ == key
                &&& projects[i].task_space.kind == SpaceKind::Integration
                &&& projects[i].task_space.linked ==> forall|k: int|
                    0 <= k < projects.len() && (#[trigger] projects[k]).task_space.repository_id@ == key
                        && projects[k].task_space.kind == SpaceKind::Integration ==> projects[k].task_space.linked && i
                        <= k
                &&& !projects[i].task_space.linked ==> forall|k: int|
                    0 <= k < i && (#[trigger] projects[k]).task_space.repository_id@ == key
                        && projects[k].task_space.kind == SpaceKind::Integration ==> projects[k].task_space.linked
            },
            None => forall|k: int|
                0 <= k < projects.len() ==> !((#[trigger] projects[k]).task_space.repository_id@ == key
                    && projects[k].task_space.kind == SpaceKind::Integration),
        },
{
    let main = main_tree_of(key);
    let any = merges_for(key);
    first_index_holds(projects, main);
    first_index_holds(projects, any);
    assert forall|k: int| 0 <= k < projects.len() implies main(#[trigger] projects[k]) == (
    projects[k].task_space.repository_id@ == key && projects[k].task_space.kind == SpaceKind::Integration
        && !projects[k].task_space.linked) by {}
    assert forall|k: int| 0 <= k < projects.len() implies any(#[trigger] projects[k]) == (
    projects[k].task_space.repository_id@ == key && projects[k].task_space.kind == SpaceKind::Integration) by {}
}

/// What was read of the worktrees of a repository is what is known of them afterwards; what is known of
/// another repository stays.
pub proof fn what_was_read_is_known(m: Model, key: String, listed: Option<Vec<WorktreeEntry>>, other: Seq<char>)
    ensures
        ({
            let after = Model { fleet_worktrees: listing_put(m.fleet_worktrees, key, listed), ..m };
            &&& listed matches Some(entries) ==> after.worktrees_of(key@) == Some(entries@)
            &&& listed is None ==> after.worktrees_of(key@) is None
            &&& other != key@ ==> after.worktrees_of(other) == m.worktrees_of(other)
        }),
{
    let before = m.fleet_worktrees;
    let after = listing_put(before, key, listed);
    let mine = listing_of(key@);
    let theirs = listing_of(other);
    first_index_holds(before, mine);
    first_index_holds(after, mine);
    first_index_holds(before, theirs);
    first_index_holds(after, theirs);
    assert forall|k: int| 0 <= k < before.len() implies mine(#[trigger] before[k]) == (before[k].key@ == key@) by {}
    assert forall|k: int| 0 <= k < after.len() implies mine(#[trigger] after[k]) == (after[k].key@ == key@) by {}
    let at = match first_index(before, mine) {
        Some(i) => i,
        None => before.len() as int,
    };
    assert(after[at].key == key && after[at].listed == listed);
    assert forall|k: int| 0 <= k < before.len() && k != at implies #[trigger] after[k] == before[k] by {}
    first_index_is(after, mine, at);
    if other != key@ {
        match first_index(before, theirs) {
            Some(i) => {
                assert(before[i].key@ == other);
                assert(i != at) by {
                    if i == at {
                        assert(mine(before[i]));
                    }
                }
                assert forall|j: int| 0 <= j < i implies !theirs(#[trigger] after[j]) by {
                    if j != at {
                        assert(after[j] == before[j]);
                    }
                }
                assert(theirs(after[i]));
                first_index_is(after, theirs, i);
            },
            None => {
                assert forall|j: int| 0 <= j < after.len() implies !theirs(#[trigger] after[j]) by {
                    if j != at {
                        assert(after[j] == before[j]);
                    }
                }
                first_index_none(after, theirs);
            },
        }
    }
}

/// The worktrees of the shown repository are read from where its tasks are merged into, or from the
/// shown project where there is no such place; while they are being read they are not read again.
pub proof fn worktrees_are_read_once(m: Model)
    requires
        m.active < m.projects.len(),
    ensures
        ({
            let after = m.worktrees_refreshed();
            let key = m.projects[m.active as int].task_space.repository_id;
            &&& after.worktrees_refreshed() == after
            &&& after.worktrees_of(key@) is None
            &&& after.effects != m.effects ==> {
                let from = match integration_slot(m.projects, key@) {
                    Some(i) => i,
                    None => m.active as int,
                };
                after.effects == m.effects.push(
                    Effect::ReadWorktrees { key, host_id: m.projects[from].host_id, root: m.projects[from].root },
                )
            }
            &&& m.worktrees_of(key@) is Some ==> after.effects.len() == m.effects.len() + 1
            &&& (forall|k: int| 0 <= k < m.fleet_worktrees.len() ==> (#[trigger] m.fleet_worktrees[k]).key@ != key@)
                ==> after.effects.len() == m.effects.len() + 1
        }),
{
    let key = m.projects[m.active as int].task_space.repository_id;
    what_was_read_is_known(m, key, None, key@);
    let wanted = listing_of(key@);
    first_index_holds(m.fleet_worktrees, wanted);
    let after = m.worktrees_refreshed();
    first_index_holds(after.fleet_worktrees, wanted);
    if after != m {
        let at = match first_index(m.fleet_worktrees, wanted) {
            Some(i) => i,
            None => m.fleet_worktrees.len() as int,
        };
        assert(wanted(after.fleet_worktrees[at]));
        assert forall|j: int| 0 <= j < at implies !wanted(#[trigger] after.fleet_worktrees[j]) by {
            assert(after.fleet_worktrees[j] == m.fleet_worktrees[j]);
        }
        first_index_is(after.fleet_worktrees, wanted, at);
    }
}

/// A worktree has a row as one from elsewhere exactly if no slot of the repository stands at its place,
/// or the first that does is no task and not the place that tasks are merged into either.
pub proof fn worktrees_from_elsewhere_have_rows(projects: Seq<ProjectSlot>, key: Seq<char>, entry: WorktreeEntry)
    requires
        projects.len() <= usize::MAX,
    ensures
        match external_row(projects, key, entry) {
            Some(row) => {
                &&& row.path == entry.path && row.branch == entry.branch
                &&& row.rail_index is None ==> forall|k: int|
                    0 <= k < projects.len() ==> !((#[trigger] projects[k]).task_space.repository_id@ == key && same_path(
                        projects[k].canonical_root@,
                        entry.canonical@,
                    ))
                &&& row.rail_index matches Some(i) ==> i < projects.len() && projects[i as int].task_space.repository_id@
                    == key && same_path(projects[i as int].canonical_root@, entry.canonical@)
                    && projects[i as int].task_space.kind == SpaceKind::Integration && integration_slot(projects, key)
                    != Some(i as int)
            },
            None => exists|k: int|
                0 <= k < projects.len() && (#[trigger] projects[k]).task_space.repository_id@ == key && same_path(
                    projects[k].canonical_root@,
                    entry.canonical@,
                ) && (projects[k].task_space.kind == SpaceKind::Task || integration_slot(projects, key) == Some(k)),
        },
{
    let here = stands_at(key, entry.canonical@);
    first_index_holds(projects, here);
    assert forall|k: int| 0 <= k < projects.len() implies here(#[trigger] projects[k]) == (
    projects[k].task_space.repository_id@ == key && same_path(projects[k].canonical_root@, entry.canonical@)) by {}
    if external_row(projects, key, entry) is None {
        let i = first_index(projects, here)->0;
        assert(here(projects[i]));
    }
}

/// The rows of worktrees are in the order in which git lists them, each of its own entry.
pub proof fn worktrees_are_listed_in_order(
    projects: Seq<ProjectSlot>,
    key: Seq<char>,
    a: Seq<WorktreeEntry>,
    b: Seq<WorktreeEntry>,
    entry: WorktreeEntry,
)
    ensures
        external_rows(projects, key, a + b) == external_rows(projects, key, a) + external_rows(projects, key, b),
        external_rows(projects, key, seq![entry]) == match external_row(projects, key, entry) {
            Some(row) => seq![row],
            None => Seq::empty(),
        },
        external_rows(projects, key, Seq::empty()).len() == 0,
    decreases b.len(),
{
    reveal_with_fuel(external_rows, 2);
    assert(seq![entry].drop_last() =~= Seq::empty());
    assert(external_rows(projects, key, seq![entry]) =~= match external_row(projects, key, entry) {
        Some(row) => seq![row],
        None => Seq::empty(),
    });
    if b.len() == 0 {
        assert(a + b =~= a);
        assert(external_rows(projects, key, a) + external_rows(projects, key, b) =~= external_rows(
            projects,
            key,
            a,
        ));
    } else {
        assert((a + b).drop_last() =~= a + b.drop_last());
        worktrees_are_listed_in_order(projects, key, a, b.drop_last(), entry);
        assert(external_rows(projects, key, a + b) =~= external_rows(projects, key, a) + external_rows(
            projects,
            key,
            b,
        ));
    }
}

/// A worktree is gone only if git listed the worktrees of its repository without it; one on another
/// machine never is, nor one whose repository was not read.
pub proof fn listed_worktrees_are_not_gone(m: Model, index: int, listed: Seq<WorktreeEntry>, k: int)
    requires
        0 <= index < m.projects.len(),
    ensures
        m.projects[index].remote_host is Some ==> !m.vanished(index),
        m.worktrees_of(m.projects[index].task_space.repository_id@) is None ==> !m.vanished(index),
        m.worktrees_of(m.projects[index].task_space.repository_id@) == Some(listed) && 0 <= k < listed.len()
            && same_path(listed[k].canonical@, m.projects[index].canonical_root@) ==> !m.vanished(index),
        m.worktrees_of(m.projects[index].task_space.repository_id@) == Some(listed) && m.projects[index].remote_host
            is None && (forall|i: int|
            0 <= i < listed.len() ==> !same_path((#[trigger] listed[i]).canonical@, m.projects[index].canonical_root@))
            ==> m.vanished(index),
{
}

/// What is made a task keeps what it was based on, or else is based on what is its head; it keeps its
/// place and its name, and no other slot changes.
pub proof fn making_a_task_changes_its_slot_alone(m: Model, index: int)
    requires
        0 <= index < m.projects.len(),
    ensures
        ({
            let after = m.task_made(index);
            let was = m.projects[index];
            let slot = after.projects[index];
            &&& after.projects.len() == m.projects.len()
            &&& slot.task_space.kind == SpaceKind::Task
            &&& was.task_space.base_oid is Some ==> slot.task_space.base_oid == was.task_space.base_oid
            &&& was.task_space.base_oid is None ==> slot.task_space.base_oid == was.task_space.head_oid
            &&& slot.task_space.id == was.task_space.id && slot.root == was.root && slot.task_space.phase
                == was.task_space.phase
            &&& forall|k: int|
                0 <= k < m.projects.len() && k != index ==> #[trigger] after.projects[k] == m.projects[k]
            &&& (after.effects != m.effects ==> m.has_storage)
            &&& m.has_storage ==> after.effects == m.effects.push(Effect::PersistTaskSpace(index as usize))
            &&& after.task_made(index).projects == after.projects
        }),
{
    let after = m.task_made(index);
    assert(after.task_made(index).projects =~= after.projects);
}

/// Toggling a task changes whether it is selected, and nothing of any other task.
pub proof fn a_toggle_is_for_one_task(m: Model, space: String, other: String)
    requires
        selected_once(m.fleet_selection),
    ensures
        ({
            let before = texts(m.fleet_selection);
            let after = texts(m.selection_toggled(space).fleet_selection);
            &&& after.contains(space@) <==> !before.contains(space@)
            &&& other@ != space@ ==> (after.contains(other@) <==> before.contains(other@))
            &&& m.selection_toggled(space).fleet_selection_anchor == Some(space)
            &&& selected_once(m.selection_toggled(space).fleet_selection)
        }),
{
    let wanted = text_is(space@);
    let all = m.fleet_selection;
    let once = m.selection_toggled(space).fleet_selection;
    let before = texts(all);
    let after = texts(once);
    first_index_holds(all, wanted);
    assert forall|k: int| 0 <= k < all.len() implies wanted(#[trigger] all[k]) == (all[k]@ == space@) by {}
    match first_index(all, wanted) {
        None => {
            assert(after =~= before.push(space@));
            assert(after[all.len() as int] == space@);
            if before.contains(other@) {
                let k = choose|k: int| 0 <= k < before.len() && before[k] == other@;
                assert(after[k] == other@);
            }
            if before.contains(space@) {
                let k = choose|k: int| 0 <= k < before.len() && before[k] == space@;
                assert(wanted(all[k]));
            }
            assert forall|a: int, b: int| 0 <= a < b < once.len() implies once[a]@ != once[b]@ by {
                assert(once[a] == all[a]);
            }
        },
        Some(i) => {
            assert(before[i] == space@);
            assert(after =~= before.remove(i));
            if after.contains(space@) {
                let k = choose|k: int| 0 <= k < after.len() && after[k] == space@;
                let from = if k < i { k } else { k + 1 };
                assert(all[from]@ == space@ && all[i]@ == space@);
            }
            if before.contains(other@) && other@ != space@ {
                let k = choose|k: int| 0 <= k < before.len() && before[k] == other@;
                assert(after[if k < i { k } else { k - 1 }] == other@);
            }
            if after.contains(other@) {
                let k = choose|k: int| 0 <= k < after.len() && after[k] == other@;
                assert(before[if k < i { k } else { k + 1 }] == other@);
            }
            assert forall|a: int, b: int| 0 <= a < b < once.len() implies once[a]@ != once[b]@ by {
                let from_a = if a < i { a } else { a + 1 };
                let from_b = if b < i { b } else { b + 1 };
                assert(all[from_a]@ != all[from_b]@);
            }
        },
    }
}

/// The range from one task to another is the run of the list that begins with one of them and ends with
/// the other, whichever stands first; the task that it began at stays where the next range begins.
pub proof fn a_range_goes_from_one_task_to_the_other(m: Model, order: Seq<String>, space: String, i: int, j: int)
    requires
        0 <= i < order.len(),
        0 <= j < order.len(),
        selected_once(order),
        m.fleet_selection_anchor matches Some(anchor) && order[i]@ == anchor@,
        order[j]@ == space@,
    ensures
        ({
            let after = m.range_selected(order, space);
            let low = if i < j { i } else { j };
            let high = if i < j { j } else { i };
            &&& after.fleet_selection.len() == high - low + 1
            &&& forall|k: int| low <= k <= high ==> after.fleet_selection[k - low] == #[trigger] order[k]
            &&& after.fleet_selection_anchor == m.fleet_selection_anchor
        }),
{
    let anchor = m.fleet_selection_anchor->0;
    assert forall|k: int| 0 <= k < i implies !text_is(anchor@)(#[trigger] order[k]) by {
        assert(order[k]@ != order[i]@);
    }
    first_index_is(order, text_is(anchor@), i);
    assert forall|k: int| 0 <= k < j implies !text_is(space@)(#[trigger] order[k]) by {
        assert(order[k]@ != order[j]@);
    }
    first_index_is(order, text_is(space@), j);
}

/// Without a task to begin at, or with one that is not listed, the task that was clicked is selected
/// alone.
pub proof fn a_range_without_a_beginning_is_one_task(m: Model, order: Seq<String>, space: String)
    requires
        m.fleet_selection_anchor matches Some(anchor) ==> forall|k: int|
            0 <= k < order.len() ==> (#[trigger] order[k])@ != anchor@,
    ensures
        m.range_selected(order, space).fleet_selection.len() == 1,
        m.range_selected(order, space).fleet_selection[0]@ == space@,
{
    first_index_holds(order, text_is(space@));
    match m.fleet_selection_anchor {
        Some(anchor) => {
            assert forall|k: int| 0 <= k < order.len() implies !text_is(anchor@)(#[trigger] order[k]) by {}
            first_index_none(order, text_is(anchor@));
        },
        None => {},
    }
}

/// The stage takes the first of the selected tasks that are on the rail, in their order; it says so
/// exactly if it leaves some out.
pub proof fn the_stage_takes_the_first(m: Model, spaces: Seq<String>)
    requires
        spaces.len() <= usize::MAX,
    ensures
        ({
            let known = spaces.filter(on_rail(m.projects));
            let after = m.selection_staged(spaces);
            let taken = after.stage_pinned;
            let n = m.effects.len() as int;
            &&& known.len() == 0 ==> after == m
            &&& known.len() > 0 ==> {
                &&& taken.is_prefix_of(known)
                &&& taken.len() == known.len() || (taken.len() == STAGE_LIMIT && known.len() > STAGE_LIMIT)
                &&& (after.effects[n] is Toast <==> taken.len() < known.len())
                &&& after.effects[n] matches Effect::Toast(notice) ==> notice == Notice::StageTakesTheFirst(
                    known.len() as usize,
                )
                &&& after.effects.last() is SaveState
                &&& taken.len() >= 2 ==> after.chrome.fleet.stage_columns == taken.len()
                &&& taken.len() < 2 ==> after.chrome.fleet.stage_columns == 2
            }
        }),
        forall|s: String| #[trigger]
            spaces.filter(on_rail(m.projects)).contains(s) ==> spaces.contains(s) && exists|p: int|
                0 <= p < m.projects.len() && (#[trigger] m.projects[p]).task_space.id@ == s@,
        forall|k: int, p: int|
            0 <= k < spaces.len() && 0 <= p < m.projects.len() && #[trigger] m.projects[p].task_space.id@
                == (#[trigger] spaces[k])@ ==> spaces.filter(on_rail(m.projects)).contains(spaces[k]),
{
    let keep = on_rail(m.projects);
    let known = spaces.filter(keep);
    filter_holds(spaces, keep);
    assert forall|s: String| #[trigger] known.contains(s) implies spaces.contains(s) && exists|p: int|
        0 <= p < m.projects.len() && (#[trigger] m.projects[p]).task_space.id@ == s@ by {
        let i = choose|i: int| 0 <= i < known.len() && known[i] == s;
        filter_comes_from(spaces, keep, i);
        assert(keep(known[i]));
        spaces_are_found_by_their_id(m, s@);
        let p = m.space_index(s@)->0;
        assert(m.projects[p].task_space.id@ == s@);
    }
    assert forall|k: int, p: int|
        0 <= k < spaces.len() && 0 <= p < m.projects.len() && #[trigger] m.projects[p].task_space.id@
            == (#[trigger] spaces[k])@ implies known.contains(spaces[k]) by {
        spaces_are_found_by_their_id(m, spaces[k]@);
        assert(keep(spaces[k]));
        filter_keeps(spaces, keep, k);
    }
}

/// A task whose worktree is gone leaves no pane in the grid, and every pane of another task stays; its
/// slot is taken off the rail.
pub proof fn a_vanished_task_leaves_the_grid(m: Model, index: int, pane: FleetPane)
    requires
        0 <= index < m.projects.len() <= usize::MAX,
    ensures
        m.vanished_forgotten(index).fleet_cells.contains(pane) <==> m.fleet_cells.contains(pane)
            && pane.spec_space()@ != m.projects[index].task_space.id@,
        m.vanished_forgotten(index).effects == m.effects.push(Effect::RemoveProjectSlot(index as usize)),
{
    let keep = of_other_space(m.projects[index].task_space.id@);
    let kept = m.fleet_cells.filter(keep);
    filter_holds(m.fleet_cells, keep);
    if kept.contains(pane) {
        let i = choose|i: int| 0 <= i < kept.len() && kept[i] == pane;
        filter_comes_from(m.fleet_cells, keep, i);
        assert(keep(kept[i]));
    }
    if m.fleet_cells.contains(pane) && keep(pane) {
        let k = choose|k: int| 0 <= k < m.fleet_cells.len() && m.fleet_cells[k] == pane;
        filter_keeps(m.fleet_cells, keep, k);
    }
}

/// Forgetting what was read of worktrees keeps exactly what is still being read.
pub proof fn forgetting_keeps_what_is_being_read(m: Model, listing: WorktreeListing)
    ensures
        m.worktrees_forgotten().fleet_worktrees.contains(listing) <==> m.fleet_worktrees.contains(listing)
            && listing.listed is None,
{
    let keep = being_read();
    let kept = m.fleet_worktrees.filter(keep);
    filter_holds(m.fleet_worktrees, keep);
    if kept.contains(listing) {
        let i = choose|i: int| 0 <= i < kept.len() && kept[i] == listing;
        filter_comes_from(m.fleet_worktrees, keep, i);
        assert(keep(kept[i]));
    }
    if m.fleet_worktrees.contains(listing) && listing.listed is None {
        let k = choose|k: int| 0 <= k < m.fleet_worktrees.len() && m.fleet_worktrees[k] == listing;
        filter_keeps(m.fleet_worktrees, keep, k);
    }
}

/// The places of spaces on the rail are in the order of the spaces, one for each that is there.
pub proof fn places_are_in_the_order_of_the_spaces(m: Model, a: Seq<String>, b: Seq<String>, space: String)
    ensures
        rail_places(m, a + b) == rail_places(m, a) + rail_places(m, b),
        rail_places(m, seq![space]) == match m.space_index(space@) {
            Some(i) => seq![i as usize],
            None => Seq::empty(),
        },
        rail_places(m, Seq::empty()).len() == 0,
    decreases b.len(),
{
    reveal_with_fuel(rail_places, 2);
    assert(seq![space].drop_last() =~= Seq::empty());
    assert(rail_places(m, seq![space]) =~= match m.space_index(space@) {
        Some(i) => seq![i as usize],
        None => Seq::empty(),
    });
    if b.len() == 0 {
        assert(a + b =~= a);
        assert(rail_places(m, a) + rail_places(m, b) =~= rail_places(m, a));
    } else {
        assert((a + b).drop_last() =~= a + b.drop_last());
        places_are_in_the_order_of_the_spaces(m, a, b.drop_last(), space);
        assert(rail_places(m, a + b) =~= rail_places(m, a) + rail_places(m, b));
    }
}

/// The worktrees from elsewhere are those that git listed for the shown repository, once it did; none
/// before.
pub proof fn externals_are_of_the_shown_repository(m: Model)
    requires
        m.active < m.projects.len(),
    ensures
        ({
            let key = m.projects[m.active as int].task_space.repository_id@;
            &&& m.worktrees_of(key) is None ==> m.externals().len() == 0
            &&& m.worktrees_of(key) matches Some(listed) ==> m.externals() == external_rows(m.projects, key, listed)
        }),
{
}

/// Clearing the selection leaves nothing selected and no place for a range to begin.
pub proof fn a_cleared_selection_is_empty(m: Model)
    ensures
        m.selection_cleared().fleet_selection.len() == 0,
        m.selection_cleared().fleet_selection_anchor is None,
        m.selection_cleared().stage_pinned == m.stage_pinned && m.selection_cleared().effects == m.effects,
{
}

} // verus!
