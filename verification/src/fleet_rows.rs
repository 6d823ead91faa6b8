//! What the sidebar of the fleet shows, and what a click on it does.

use vstd::prelude::*;
use vstd::string::*;
use crate::fleet_sidebar::{
    in_repository, integration_slot, main_tree_of, merges_for, ExternalRow, FLEET_FILTER_MIN_TASKS,
};
use crate::seqs::{
    copy_maybe, filter_comes_from, filter_holds, filter_keeps, filter_none, filter_step, first_index_holds,
};
use crate::task_rows::{
    has_key, ordered, row_shown, same_within_keys, sort_key, sort_task_rows, task_row_matches, TaskRow,
};
use crate::text::{holds_text, texts, trim, trimmed};
use crate::workspace::{
    AgentStatus, Boards, Chrome, Effect, FleetLook, FleetSort, Model, ProjectSlot, RenameSite,
    SpaceKind, TaskPhase, TaskRenaming, ThreadActivity, Workspace,
};

verus! {

/// The thread that calls most for a look; of several, the last one.
pub open spec fn lead(statuses: Seq<AgentStatus>) -> Option<int>
    decreases statuses.len(),
{
    if statuses.len() == 0 {
        None
    } else {
        match lead(statuses.drop_last()) {
            Some(i) => if statuses.last().activity.urgency() >= statuses[i].activity.urgency() {
                Some(statuses.len() - 1)
            } else {
                Some(i)
            },
            None => Some(statuses.len() - 1),
        }
    }
}

/// No thread calls more for a look than the leading one, and none after it as much.
pub proof fn lead_is_most_urgent(statuses: Seq<AgentStatus>)
    ensures
        match lead(statuses) {
            Some(i) => 0 <= i < statuses.len() && (forall|k: int|
                0 <= k < statuses.len() ==> (#[trigger] statuses[k]).activity.urgency()
                    <= statuses[i].activity.urgency()) && (forall|k: int|
                i < k < statuses.len() ==> (#[trigger] statuses[k]).activity.urgency()
                    < statuses[i].activity.urgency()),
            None => statuses.len() == 0,
        },
    decreases statuses.len(),
{
    if statuses.len() > 0 {
        let rest = statuses.drop_last();
        lead_is_most_urgent(rest);
        assert forall|k: int| 0 <= k < rest.len() implies rest[k] == #[trigger] statuses[k] by {}
    }
}

/// How many tokens the threads have used together.
pub open spec fn tokens_used(statuses: Seq<AgentStatus>) -> nat
    decreases statuses.len(),
{
    if statuses.len() == 0 {
        0
    } else {
        tokens_used(statuses.drop_last()) + statuses.last().tokens_used as nat
    }
}

/// How many tokens the threads have room for together.
pub open spec fn tokens_max(statuses: Seq<AgentStatus>) -> nat
    decreases statuses.len(),
{
    if statuses.len() == 0 {
        0
    } else {
        tokens_max(statuses.drop_last()) + statuses.last().tokens_max as nat
    }
}

/// When the user last said something to one of the threads.
pub open spec fn last_input(statuses: Seq<AgentStatus>) -> Option<i64>
    decreases statuses.len(),
{
    if statuses.len() == 0 {
        None
    } else {
        match (last_input(statuses.drop_last()), statuses.last().last_input_at_ms) {
            (Some(a), Some(b)) => Some(if a > b { a } else { b }),
            (Some(a), None) => Some(a),
            (None, b) => b,
        }
    }
}

/// The branch of a slot, or the one that it was opened with.
pub open spec fn shown_branch(slot: ProjectSlot) -> Option<String> {
    if slot.branch is Some {
        slot.branch
    } else {
        slot.worktree_branch
    }
}

/// The branch of a slot, or the one that it was opened with.
pub fn branch_of(slot: &ProjectSlot) -> (r: Option<String>)
    ensures
        r == shown_branch(*slot),
{
    if slot.branch.is_some() {
        copy_maybe(&slot.branch)
    } else {
        copy_maybe(&slot.worktree_branch)
    }
}

/// The place of the thread that calls most for a look.
pub fn lead_of(statuses: &Vec<AgentStatus>) -> (r: Option<usize>)
    ensures
        match r {
            Some(i) => i < statuses@.len() && lead(statuses@) == Some(i as int),
            None => lead(statuses@) == None::<int>,
        },
{
    let mut best: Option<usize> = None;
    let mut i: usize = 0;
    while i < statuses.len()
        invariant
            i <= statuses@.len(),
            match best {
                Some(b) => b < i && lead(statuses@.take(i as int)) == Some(b as int),
                None => lead(statuses@.take(i as int)) == None::<int>,
            },
        decreases statuses@.len() - i,
    {
        proof {
            assert(statuses@.take(i + 1).drop_last() =~= statuses@.take(i as int));
            assert(statuses@.take(i + 1).last() == statuses@[i as int]);
        }
        match best {
            Some(b) => {
                if statuses[i].activity.urgency_of() >= statuses[b].activity.urgency_of() {
                    best = Some(i);
                }
            },
            None => {
                best = Some(i);
            },
        }
        i = i + 1;
    }
    assert(statuses@.take(statuses@.len() as int) =~= statuses@);
    best
}

proof fn sums_grow(statuses: Seq<AgentStatus>, i: int)
    requires
        0 <= i <= statuses.len(),
    ensures
        tokens_used(statuses.take(i)) <= tokens_used(statuses),
        tokens_max(statuses.take(i)) <= tokens_max(statuses),
    decreases statuses.len(),
{
    if i == statuses.len() {
        assert(statuses.take(i) =~= statuses);
    } else {
        assert(statuses.drop_last().take(i) =~= statuses.take(i));
        sums_grow(statuses.drop_last(), i);
    }
}

/// How many tokens the threads have used together.
pub fn used_tokens(statuses: &Vec<AgentStatus>) -> (r: u32)
    requires
        tokens_used(statuses@) <= u32::MAX,
    ensures
        r == tokens_used(statuses@),
{
    let mut used: u32 = 0;
    let mut i: usize = 0;
    while i < statuses.len()
        invariant
            i <= statuses@.len(),
            tokens_used(statuses@) <= u32::MAX,
            used == tokens_used(statuses@.take(i as int)),
        decreases statuses@.len() - i,
    {
        proof {
            assert(statuses@.take(i + 1).drop_last() =~= statuses@.take(i as int));
            assert(statuses@.take(i + 1).last() == statuses@[i as int]);
            sums_grow(statuses@, i + 1);
        }
        used = used + statuses[i].tokens_used;
        i = i + 1;
    }
    assert(statuses@.take(statuses@.len() as int) =~= statuses@);
    used
}

/// How many tokens the threads have room for together.
pub fn room_for_tokens(statuses: &Vec<AgentStatus>) -> (r: u32)
    requires
        tokens_max(statuses@) <= u32::MAX,
    ensures
        r == tokens_max(statuses@),
{
    let mut most: u32 = 0;
    let mut i: usize = 0;
    while i < statuses.len()
        invariant
            i <= statuses@.len(),
            tokens_max(statuses@) <= u32::MAX,
            most == tokens_max(statuses@.take(i as int)),
        decreases statuses@.len() - i,
    {
        proof {
            assert(statuses@.take(i + 1).drop_last() =~= statuses@.take(i as int));
            assert(statuses@.take(i + 1).last() == statuses@[i as int]);
            sums_grow(statuses@, i + 1);
        }
        most = most + statuses[i].tokens_max;
        i = i + 1;
    }
    assert(statuses@.take(statuses@.len() as int) =~= statuses@);
    most
}

fn last_input_of(statuses: &Vec<AgentStatus>) -> (r: Option<i64>)
    ensures
        r == last_input(statuses@),
{
    let mut latest: Option<i64> = None;
    let mut i: usize = 0;
    while i < statuses.len()
        invariant
            i <= statuses@.len(),
            latest == last_input(statuses@.take(i as int)),
        decreases statuses@.len() - i,
    {
        proof {
            assert(statuses@.take(i + 1).drop_last() =~= statuses@.take(i as int));
            assert(statuses@.take(i + 1).last() == statuses@[i as int]);
        }
        latest = match (latest, statuses[i].last_input_at_ms) {
            (Some(a), Some(b)) => if a > b {
                Some(a)
            } else {
                Some(b)
            },
            (Some(a), None) => Some(a),
            (None, b) => b,
        };
        i = i + 1;
    }
    assert(statuses@.take(statuses@.len() as int) =~= statuses@);
    latest
}

/// The row of a task whose threads are these.
pub open spec fn task_row(index: usize, slot: ProjectSlot, statuses: Seq<AgentStatus>) -> TaskRow {
    let lead = lead(statuses);
    TaskRow {
        project_index: index,
        title: slot.task_space.title,
        color: slot.color,
        branch: shown_branch(slot),
        activity: match lead {
            Some(i) => statuses[i].activity,
            None => ThreadActivity::Idle,
        },
        asked: match lead {
            Some(i) => statuses[i].asked,
            None => None,
        },
        digest: if slot.task_space.result_summary is Some {
            slot.task_space.result_summary
        } else {
            match lead {
                Some(i) => statuses[i].digest,
                None => None,
            }
        },
        tokens: tokens_used(statuses) as u32,
        rail_shortcut: if index < 9 { Some((index + 1) as usize) } else { None },
        last_input_at_ms: last_input(statuses),
    }
}

fn row_of(index: usize, slot: &ProjectSlot, statuses: &Vec<AgentStatus>) -> (row: TaskRow)
    requires
        tokens_used(statuses@) <= u32::MAX,
    ensures
        row == task_row(index, *slot, statuses@),
{
    let (activity, asked, live) = match lead_of(statuses) {
        Some(i) => (
            statuses[i].activity,
            copy_maybe(&statuses[i].asked),
            copy_maybe(&statuses[i].digest),
        ),
        None => (ThreadActivity::Idle, None, None),
    };
    let digest = if slot.task_space.result_summary.is_some() {
        copy_maybe(&slot.task_space.result_summary)
    } else {
        live
    };
    let tokens: u32 = used_tokens(statuses);
    let rail_shortcut: Option<usize> = if index < 9 {
        Some(index + 1)
    } else {
        None
    };
    TaskRow {
        project_index: index,
        title: slot.task_space.title.clone(),
        color: slot.color,
        branch: branch_of(slot),
        activity,
        asked,
        digest,
        tokens,
        rail_shortcut,
        last_input_at_ms: last_input_of(statuses),
    }
}

/// The row of the worktree that tasks are merged into.
pub struct IntegrationRow {
    pub index: usize,
    pub name: String,
    pub color: usize,
    pub branch: Option<String>,
}

impl IntegrationRow {
    /// What the row is called: its branch, taken to be `main` where that is not known.
    pub fn label(&self) -> (r: String)
        ensures
            r@ == match self.branch {
                Some(branch) => branch@,
                None => "main"@,
            },
    {
        match &self.branch {
            Some(branch) => branch.clone(),
            None => "main".to_owned(),
        }
    }
}

/// What the sidebar is made of.
pub struct SidebarRows {
    pub integration: Option<IntegrationRow>,
    pub rows: Vec<TaskRow>,
    /// How many tasks were merged.
    pub integrated: usize,
}

impl Model {
    /// The tokens that each task of the shown repository has used can be counted.
    pub open spec fn tokens_fit(self) -> bool {
        self.repository() matches Some(key) ==> forall|i: int|
            0 <= i < self.projects.len() && i < self.sessions.len() && self.live_task(key, i) ==> tokens_used(
                (#[trigger] self.sessions[i]).all_statuses@,
            ) <= u32::MAX
    }

    /// The slot at `i` is a task of this repository that is not put away.
    pub open spec fn live_task(self, key: Seq<char>, i: int) -> bool {
        &&& in_repository(self.projects[i], key)
        &&& !self.projects[i].task_space.integration()
        &&& self.projects[i].task_space.phase != TaskPhase::Archived
    }

    /// The rows of the tasks among the first `n` slots.
    pub open spec fn rows_below(self, key: Seq<char>, n: int) -> Seq<TaskRow>
        decreases n,
    {
        if n <= 0 {
            Seq::empty()
        } else {
            let before = self.rows_below(key, n - 1);
            if self.live_task(key, n - 1) && n - 1 < self.sessions.len() {
                before.push(task_row((n - 1) as usize, self.projects[n - 1], self.sessions[n - 1].all_statuses@))
            } else {
                before
            }
        }
    }

    /// How many of the tasks among the first `n` slots were merged.
    pub open spec fn integrated_below(self, key: Seq<char>, n: int) -> nat
        decreases n,
    {
        if n <= 0 {
            0
        } else {
            let before = self.integrated_below(key, n - 1);
            if self.live_task(key, n - 1) && self.projects[n - 1].task_space.phase == TaskPhase::Integrated {
                before + 1
            } else {
                before
            }
        }
    }

    /// The rows of the tasks of the repository that is shown, in the order of the rail.
    pub open spec fn task_rows(self) -> Seq<TaskRow> {
        match self.repository() {
            Some(key) => self.rows_below(key, self.projects.len() as int),
            None => Seq::empty(),
        }
    }

    /// The row of the worktree that tasks of the repository that is shown are merged into.
    pub open spec fn integration_row(self) -> Option<IntegrationRow> {
        match self.repository() {
            Some(key) => match integration_slot(self.projects, key) {
                Some(i) => Some(
                    IntegrationRow {
                        index: i as usize,
                        name: self.projects[i].name,
                        color: self.projects[i].color,
                        branch: shown_branch(self.projects[i]),
                    },
                ),
                None => None,
            },
            None => None,
        }
    }
}

/// The row is shown while this query filters the rows.
pub open spec fn shown_by(query: Seq<char>) -> spec_fn(TaskRow) -> bool {
    |row: TaskRow| row_shown(row, query)
}

/// The text is in the list.
pub open spec fn is_in(list: Seq<Seq<char>>) -> spec_fn(String) -> bool {
    |s: String| list.contains(s@)
}

/// The rows of the tasks stand for slots of the rail, each for another one.
pub proof fn rows_stand_for_slots(m: Model, key: Seq<char>, n: int)
    requires
        0 <= n <= m.projects.len() <= usize::MAX,
    ensures
        m.rows_below(key, n).len() <= n,
        forall|i: int|
            0 <= i < m.rows_below(key, n).len() ==> (#[trigger] m.rows_below(key, n)[i]).project_index < n
                && m.live_task(key, m.rows_below(key, n)[i].project_index as int),
        forall|i: int, j: int|
            0 <= i < j < m.rows_below(key, n).len() ==> m.rows_below(key, n)[i].project_index < m.rows_below(
                key,
                n,
            )[j].project_index,
    decreases n,
{
    if n > 0 {
        rows_stand_for_slots(m, key, n - 1);
    }
}

/// What the sidebar shows.
pub struct SidebarView {
    pub integration: Option<IntegrationRow>,
    /// How many tasks there are, shown or not.
    pub total: usize,
    pub integrated: usize,
    pub filtering: bool,
    pub show_filter: bool,
    /// The filter shows no task.
    pub found_none: bool,
    pub rows: Vec<TaskRow>,
    /// The spaces of the rows, in their order.
    pub order: Vec<String>,
    /// The selected spaces that are shown.
    pub selected: Vec<String>,
    pub externals: Vec<ExternalRow>,
    pub externals_hidden: bool,
    /// There is nothing to show.
    pub empty: bool,
}

/// How a row of a task looks.
pub struct RowLook {
    pub selected: bool,
    /// Its worktree is gone.
    pub vanished: bool,
    /// Its name is being changed here.
    pub renaming: bool,
    /// No tokens were used yet.
    pub untouched: bool,
}

/// Rows in an order come from the rows that were ordered.
pub proof fn ordered_rows_come_from(sorted: Seq<TaskRow>, rows: Seq<TaskRow>, sort: FleetSort, i: int)
    requires
        same_within_keys(sorted, rows, sort),
        0 <= i < sorted.len(),
    ensures
        rows.contains(sorted[i]),
{
    let key = sort_key(sorted[i], sort);
    let pred = has_key(sort, key);
    filter_keeps(sorted, pred, i);
    assert(sorted.filter(pred) == rows.filter(pred));
    let kept = rows.filter(pred);
    let k = choose|k: int| 0 <= k < kept.len() && kept[k] == sorted[i];
    filter_comes_from(rows, pred, k);
}

impl Workspace {
    /// What the sidebar is made of: the tasks of the repository that is shown, where they are merged
    /// into, and how many of them were.
    pub fn fleet_sidebar_rows(&self) -> (r: SidebarRows)
        requires
            self@.tokens_fit(),
        ensures
            r.integration == self@.integration_row(),
            r.rows@ == self@.task_rows(),
            r.integrated == match self@.repository() {
                Some(key) => self@.integrated_below(key, self@.projects.len() as int),
                None => 0,
            },
    {
        let mut rows: Vec<TaskRow> = Vec::new();
        let Some(key) = self.fleet_repository_key() else {
            return SidebarRows { integration: None, rows, integrated: 0 };
        };
        let integration = match self.integration_slot_for(&key) {
            Some(i) => Some(
                IntegrationRow {
                    index: i,
                    name: self.projects[i].name.clone(),
                    color: self.projects[i].color,
                    branch: branch_of(&self.projects[i]),
                },
            ),
            None => None,
        };
        let mut integrated: usize = 0;
        let mut i: usize = 0;
        while i < self.projects.len()
            invariant
                i <= self.projects@.len(),
                self@.repository() == Some(key@),
                self@.tokens_fit(),
                integrated <= i,
                rows@ == self@.rows_below(key@, i as int),
                integrated == self@.integrated_below(key@, i as int),
            decreases self.projects@.len() - i,
        {
            let slot = &self.projects[i];
            if slot.task_space.repository_id == key && !slot.task_space.is_integration() && slot.task_space.phase
                != TaskPhase::Archived {
                if slot.task_space.phase == TaskPhase::Integrated {
                    integrated = integrated + 1;
                }
                if i < self.sessions.len() {
                    assert(self@.live_task(key@, i as int));
                    assert(tokens_used(self@.sessions[i as int].all_statuses@) <= u32::MAX);
                    rows.push(row_of(i, slot, &self.sessions[i].all_statuses));
                }
            }
            i = i + 1;
        }
        SidebarRows { integration, rows, integrated }
    }

    fn shown_rows(&self, rows: Vec<TaskRow>) -> (r: Vec<TaskRow>)
        ensures
            r@ == rows@.filter(shown_by(self@.fleet_filter_query@)),
    {
        let ghost all = rows@;
        let ghost keep = shown_by(self@.fleet_filter_query@);
        let mut rest = rows;
        let mut shown: Vec<TaskRow> = Vec::new();
        let ghost mut done: int = 0;
        proof {
            filter_none(all, keep);
            assert(all.skip(0) =~= all);
        }
        while rest.len() > 0
            invariant
                0 <= done <= all.len(),
                rest@ == all.skip(done),
                keep == shown_by(self@.fleet_filter_query@),
                shown@ == all.take(done).filter(keep),
            decreases rest@.len(),
        {
            let row = rest.remove(0);
            proof {
                assert(row == all[done]);
                filter_step(all, done, keep);
                assert(rest@ =~= all.skip(done + 1));
                done = done + 1;
            }
            if task_row_matches(&row, self.fleet_filter_query.as_str()) {
                shown.push(row);
            }
        }
        assert(all.take(all.len() as int) =~= all);
        shown
    }

    fn selected_among(&self, order: &Vec<String>) -> (r: Vec<String>)
        ensures
            r@ == self@.fleet_selection.filter(is_in(texts(order@))),
    {
        let ghost keep = is_in(texts(order@));
        let mut out: Vec<String> = Vec::new();
        let mut i: usize = 0;
        proof {
            filter_none(self@.fleet_selection, keep);
        }
        while i < self.fleet_selection.len()
            invariant
                i <= self.fleet_selection@.len(),
                keep == is_in(texts(order@)),
                out@ == self.fleet_selection@.take(i as int).filter(keep),
            decreases self.fleet_selection@.len() - i,
        {
            proof {
                filter_step(self.fleet_selection@, i as int, keep);
            }
            if holds_text(order, self.fleet_selection[i].as_str()) {
                out.push(self.fleet_selection[i].clone());
            }
            i = i + 1;
        }
        assert(self.fleet_selection@.take(self.fleet_selection@.len() as int) =~= self.fleet_selection@);
        out
    }

    /// What the sidebar shows. The number of tasks counts those that the filter hides as well.
    pub fn fleet_sidebar(&self) -> (view: SidebarView)
        requires
            self@.tokens_fit(),
        ensures
            ({
                let m = self@;
                let all = m.task_rows();
                let shown = all.filter(shown_by(m.fleet_filter_query@));
                &&& view.integration == m.integration_row()
                &&& view.total == all.len()
                &&& view.filtering == (trim(m.fleet_filter_query@).len() > 0)
                &&& view.show_filter == (view.filtering || all.len() >= FLEET_FILTER_MIN_TASKS)
                &&& view.found_none == (view.filtering && shown.len() == 0)
                &&& ordered(view.rows@, m.chrome.fleet.sort)
                &&& same_within_keys(view.rows@, shown, m.chrome.fleet.sort)
                &&& view.rows@.to_multiset() == shown.to_multiset()
                &&& view.rows@.len() == shown.len()
                &&& view.order@.len() == view.rows@.len()
                &&& forall|i: int|
                    0 <= i < view.rows@.len() ==> (#[trigger] view.rows@[i]).project_index < m.projects.len()
                        && view.order@[i] == m.projects[view.rows@[i].project_index as int].task_space.id
                &&& view.selected@ == m.fleet_selection.filter(is_in(texts(view.order@)))
                &&& view.externals@ == m.externals()
                &&& view.externals_hidden == m.chrome.boards.hide_external_worktrees
                &&& view.empty == (shown.len() == 0 && view.integration is None)
            }),
            view.integrated == match self@.repository() {
                Some(key) => self@.integrated_below(key, self@.projects.len() as int),
                None => 0,
            },
    {
        let SidebarRows { integration, rows, integrated } = self.fleet_sidebar_rows();
        let total: usize = rows.len();
        let slots: usize = self.projects.len();
        let filtering = !trimmed(self.fleet_filter_query.as_str()).as_str().is_empty();
        let show_filter = filtering || total >= FLEET_FILTER_MIN_TASKS;
        let ghost all = rows@;
        let mut rows = self.shown_rows(rows);
        let ghost shown = rows@;
        sort_task_rows(&mut rows, self.chrome.fleet.sort);
        proof {
            if self@.has_slot() {
                assert(slots == self@.projects.len());
                rows_stand_for_slots(self@, self@.repository()->0, self@.projects.len() as int);
            }
            assert forall|i: int| 0 <= i < rows@.len() implies (#[trigger] rows@[i]).project_index
                < self@.projects.len() by {
                ordered_rows_come_from(rows@, shown, self@.chrome.fleet.sort, i);
                let k = choose|k: int| 0 <= k < shown.len() && shown[k] == rows@[i];
                filter_comes_from(all, shown_by(self@.fleet_filter_query@), k);
            }
        }
        let mut order: Vec<String> = Vec::new();
        let mut i: usize = 0;
        while i < rows.len()
            invariant
                i <= rows@.len(),
                order@.len() == i,
                forall|k: int|
                    0 <= k < rows@.len() ==> (#[trigger] rows@[k]).project_index < self@.projects.len(),
                forall|k: int|
                    0 <= k < i ==> order@[k] == self@.projects[(#[trigger] rows@[k]).project_index as int].task_space.id,
            decreases rows@.len() - i,
        {
            assert(rows@[i as int].project_index < self@.projects.len());
            order.push(self.projects[rows[i].project_index].task_space.id.clone());
            i = i + 1;
        }
        let selected = self.selected_among(&order);
        let found_none = filtering && rows.len() == 0;
        let empty = rows.len() == 0 && integration.is_none();
        SidebarView {
            integration,
            total,
            integrated,
            filtering,
            show_filter,
            found_none,
            rows,
            order,
            selected,
            externals: self.external_worktrees(),
            externals_hidden: self.chrome.boards.hide_external_worktrees,
            empty,
        }
    }

    /// How the row of a task looks, where these are the selected spaces.
    pub fn task_row_look(&self, row: &TaskRow, space: &String, selected: &Vec<String>) -> (look: RowLook)
        ensures
            look.selected == texts(selected@).contains(space@),
            look.vanished == self@.vanished(row.project_index as int),
            look.renaming == (self@.chrome.fleet.renaming == Some(
                TaskRenaming { index: row.project_index, site: RenameSite::Herd },
            )),
            look.untouched == (row.tokens == 0),
    {
        let renaming = match self.chrome.fleet.renaming {
            Some(renaming) => renaming.index == row.project_index && renaming.site == RenameSite::Herd,
            None => false,
        };
        RowLook {
            selected: holds_text(selected, space.as_str()),
            vanished: self.vanished_worktree(row.project_index),
            renaming,
            untouched: row.tokens == 0,
        }
    }

    /// A row of a task was clicked, while the rows are listed in this order.
    pub fn task_row_clicked(&mut self, index: usize, order: &Vec<String>, secondary: bool, shift: bool, double: bool)
        ensures
            final(self)@ == if index >= old(self)@.projects.len() {
                old(self)@
            } else {
                let space = old(self)@.projects[index as int].task_space.id;
                if secondary {
                    old(self)@.selection_toggled(space)
                } else if shift {
                    old(self)@.range_selected(order@, space)
                } else if double {
                    old(self)@.selection_cleared().rename_started(index as int, RenameSite::Herd)
                } else {
                    old(self)@.selection_cleared().then_do(Effect::SwitchProject(index))
                }
            },
    {
        if index >= self.projects.len() {
            return;
        }
        let space = self.projects[index].task_space.id.clone();
        if secondary {
            self.toggle_fleet_selection(space);
        } else if shift {
            self.select_fleet_range(order, space);
        } else {
            self.clear_fleet_selection();
            if double {
                self.start_task_rename(index, RenameSite::Herd);
            } else {
                self.effect(Effect::SwitchProject(index));
            }
        }
    }

    /// The row of the worktree that tasks are merged into was clicked.
    pub fn integration_row_clicked(&mut self, index: usize)
        ensures
            final(self)@ == (Model { captain_space: None, ..old(self)@ }).then_do(Effect::SwitchProject(index)),
    {
        self.captain_space = None;
        self.effect(Effect::SwitchProject(index));
    }

    /// The button for the order of the rows was pressed.
    pub fn cycle_fleet_sort(&mut self)
        ensures
            final(self)@ == old(self)@.with_chrome(
                Chrome {
                    fleet: FleetLook { sort: old(self)@.chrome.fleet.sort.after(), ..old(self)@.chrome.fleet },
                    ..old(self)@.chrome
                },
            ),
    {
        self.chrome.fleet.sort = self.chrome.fleet.sort.next();
    }

    /// Hides the worktrees that are no tasks, or shows them.
    pub fn toggle_external_worktrees(&mut self)
        ensures
            final(self)@ == old(self)@.with_chrome(
                Chrome {
                    boards: Boards {
                        hide_external_worktrees: !old(self)@.chrome.boards.hide_external_worktrees,
                        ..old(self)@.chrome.boards
                    },
                    ..old(self)@.chrome
                },
            ),
    {
        self.chrome.boards.hide_external_worktrees = !self.chrome.boards.hide_external_worktrees;
    }

    /// Shows the captain of the repository that is shown; without one, the settings are opened.
    pub fn focus_captain(&mut self, appointed: bool)
        ensures
            final(self)@ == match old(self)@.repository() {
                Some(key) => match integration_slot(old(self)@.projects, key) {
                    Some(i) => if appointed {
                        old(self)@.then_do(Effect::EnsureCaptain { session: i as usize })
                    } else {
                        old(self)@.then_do(Effect::OpenAgentSettings)
                    },
                    None => old(self)@,
                },
                None => old(self)@,
            },
    {
        let Some(key) = self.fleet_repository_key() else {
            return;
        };
        let Some(index) = self.integration_slot_for(&key) else {
            return;
        };
        if appointed {
            self.effect(Effect::EnsureCaptain { session: index });
        } else {
            self.effect(Effect::OpenAgentSettings);
        }
    }
}

/// A task of another repository never has a row, nor has one that was put away.
pub proof fn rows_are_of_the_shown_repository(m: Model, i: int)
    requires
        m.projects.len() <= usize::MAX,
        0 <= i < m.task_rows().len(),
    ensures
        m.repository() is Some,
        m.task_rows()[i].project_index < m.projects.len(),
        m.live_task(m.repository()->0, m.task_rows()[i].project_index as int),
{
    rows_stand_for_slots(m, m.repository()->0, m.projects.len() as int);
}

/// The shortcut of a row is its place on the rail, and not its place in the list.
pub proof fn shortcuts_follow_the_rail(m: Model, key: Seq<char>, n: int, i: int)
    requires
        0 <= n <= m.projects.len() <= usize::MAX,
        0 <= i < m.rows_below(key, n).len(),
        m.rows_below(key, n)[i].rail_shortcut is Some,
    ensures
        m.rows_below(key, n)[i].rail_shortcut->0 == m.rows_below(key, n)[i].project_index + 1,
    decreases n,
{
    if n > 0 && i < m.rows_below(key, n - 1).len() {
        shortcuts_follow_the_rail(m, key, n - 1, i);
    }
}

/// The last input of a task is the latest of its threads': there is none exactly if no thread has
/// one; otherwise it is that of one of the threads, and no thread has a later one.
pub proof fn the_last_input_is_the_latest(statuses: Seq<AgentStatus>)
    ensures
        match last_input(statuses) {
            None => forall|k: int| 0 <= k < statuses.len() ==> (#[trigger] statuses[k]).last_input_at_ms is None,
            Some(at) => {
                &&& exists|k: int| 0 <= k < statuses.len() && (#[trigger] statuses[k]).last_input_at_ms == Some(at)
                &&& forall|k: int|
                    0 <= k < statuses.len() ==> ((#[trigger] statuses[k]).last_input_at_ms matches Some(other) ==> other
                        <= at)
            },
        },
    decreases statuses.len(),
{
    if statuses.len() > 0 {
        let rest = statuses.drop_last();
        the_last_input_is_the_latest(rest);
        assert forall|k: int| 0 <= k < rest.len() implies rest[k] == #[trigger] statuses[k] by {}
        let last = statuses.len() - 1;
        assert(statuses[last] == statuses.last());
        if let Some(at) = last_input(rest) {
            let k = choose|k: int| 0 <= k < rest.len() && (#[trigger] rest[k]).last_input_at_ms == Some(at);
            assert(statuses[k].last_input_at_ms == Some(at));
        }
    }
}

/// The tokens of several threads are those of each of them together, those used and those there is
/// room for.
pub proof fn tokens_add_up(a: Seq<AgentStatus>, b: Seq<AgentStatus>, status: AgentStatus)
    ensures
        tokens_used(a + b) == tokens_used(a) + tokens_used(b),
        tokens_used(seq![status]) == status.tokens_used,
        tokens_used(Seq::empty()) == 0,
        tokens_max(a + b) == tokens_max(a) + tokens_max(b),
        tokens_max(seq![status]) == status.tokens_max,
        tokens_max(Seq::empty()) == 0,
    decreases b.len(),
{
    reveal_with_fuel(tokens_used, 2);
    reveal_with_fuel(tokens_max, 2);
    assert(seq![status].drop_last() =~= Seq::empty());
    if b.len() == 0 {
        assert(a + b =~= a);
    } else {
        assert((a + b).drop_last() =~= a + b.drop_last());
        tokens_add_up(a, b.drop_last(), status);
    }
}

/// The branch that is shown of a slot is its own, and the one that it was opened with only where that
/// is not known.
pub proof fn the_branch_that_is_known_is_shown(slot: ProjectSlot)
    ensures
        slot.branch is Some ==> shown_branch(slot) == slot.branch,
        slot.branch is None ==> shown_branch(slot) == slot.worktree_branch,
{
}

/// What a row says of its task: the names of the slot, and of its threads the one that calls most for
/// a look, the latest input and all the tokens. A summary of the result goes before what the thread
/// does.
pub proof fn a_row_tells_of_its_task(index: usize, slot: ProjectSlot, statuses: Seq<AgentStatus>)
    requires
        tokens_used(statuses) <= u32::MAX,
    ensures
        ({
            let row = task_row(index, slot, statuses);
            &&& row.project_index == index && row.title == slot.task_space.title && row.color == slot.color
            &&& row.tokens == tokens_used(statuses)
            &&& (row.rail_shortcut is Some <==> index < 9)
            &&& row.rail_shortcut matches Some(n) ==> n == index + 1
            &&& statuses.len() == 0 ==> row.activity == ThreadActivity::Idle && row.asked is None
                && row.last_input_at_ms is None && row.digest == slot.task_space.result_summary
            &&& slot.task_space.result_summary is Some ==> row.digest == slot.task_space.result_summary
            &&& row.branch == if slot.branch is Some { slot.branch } else { slot.worktree_branch }
            &&& statuses.len() > 0 ==> exists|i: int|
                0 <= i < statuses.len() && row.activity == (#[trigger] statuses[i]).activity && row.asked
                    == statuses[i].asked && (slot.task_space.result_summary is None ==> row.digest
                    == statuses[i].digest) && forall|k: int|
                    i < k < statuses.len() ==> (#[trigger] statuses[k]).activity.urgency()
                        < statuses[i].activity.urgency()
            &&& forall|k: int|
                0 <= k < statuses.len() ==> (#[trigger] statuses[k]).activity.urgency() <= row.activity.urgency()
            &&& forall|k: int|
                0 <= k < statuses.len() ==> ((#[trigger] statuses[k]).last_input_at_ms matches Some(at) ==> (
                row.last_input_at_ms matches Some(latest) && at <= latest))
            &&& row.last_input_at_ms is Some ==> exists|k: int|
                0 <= k < statuses.len() && (#[trigger] statuses[k]).last_input_at_ms == row.last_input_at_ms
        }),
{
    lead_is_most_urgent(statuses);
    the_last_input_is_the_latest(statuses);
    let row = task_row(index, slot, statuses);
    if let Some(i) = lead(statuses) {
        assert(row.activity == statuses[i].activity);
    }
}

/// A thread that waits calls most for a look, then one that works, then one that is done, then one
/// that is idle.
pub proof fn waiting_calls_most(a: ThreadActivity, b: ThreadActivity)
    ensures
        a is Blocked && !(b is Blocked) ==> a.urgency() > b.urgency(),
        a is Working && (b is Done || b is Idle) ==> a.urgency() > b.urgency(),
        a is Done && b is Idle ==> a.urgency() > b.urgency(),
        (a is Done && b is Done) || a == b ==> a.urgency() == b.urgency(),
{
}

proof fn rows_below_are_the_live_tasks(m: Model, key: Seq<char>, n: int)
    requires
        0 <= n <= m.projects.len() <= usize::MAX,
    ensures
        forall|i: int|
            0 <= i < m.rows_below(key, n).len() ==> {
                let p = (#[trigger] m.rows_below(key, n)[i]).project_index as int;
                &&& p < n && p < m.sessions.len()
                &&& m.rows_below(key, n)[i] == task_row(p as usize, m.projects[p], m.sessions[p].all_statuses@)
            },
        forall|p: int|
            0 <= p < n && p < m.sessions.len() && m.live_task(key, p) ==> exists|i: int|
                0 <= i < m.rows_below(key, n).len() && (#[trigger] m.rows_below(key, n)[i]).project_index == p,
    decreases n,
{
    if n > 0 {
        rows_below_are_the_live_tasks(m, key, n - 1);
        let before = m.rows_below(key, n - 1);
        let now = m.rows_below(key, n);
        assert forall|p: int| 0 <= p < n && p < m.sessions.len() && m.live_task(key, p) implies exists|i: int|
            0 <= i < now.len() && (#[trigger] now[i]).project_index == p by {
            if p < n - 1 {
                let i = choose|i: int| 0 <= i < before.len() && (#[trigger] before[i]).project_index == p;
                assert(now[i].project_index == p);
            } else {
                assert(now[before.len() as int].project_index == p);
            }
        }
        assert forall|i: int| 0 <= i < now.len() implies ({
            let p = (#[trigger] now[i]).project_index as int;
            &&& p < n && p < m.sessions.len()
            &&& now[i] == task_row(p as usize, m.projects[p], m.sessions[p].all_statuses@)
        }) by {
            if i < before.len() {
                assert(now[i] == before[i]);
            }
        }
    }
}

/// Every task of the repository that is shown has exactly one row, unless it was put away, and
/// nothing else has one; the rows are in the order of the rail, each made of its own slot and its own
/// threads.
pub proof fn every_live_task_has_a_row(m: Model, p: int)
    requires
        m.projects.len() <= usize::MAX,
        m.active < m.projects.len(),
        0 <= p < m.projects.len(),
        p < m.sessions.len(),
    ensures
        (exists|i: int| 0 <= i < m.task_rows().len() && (#[trigger] m.task_rows()[i]).project_index == p) <==> (
        m.projects[p].task_space.repository_id@ == m.projects[m.active as int].task_space.repository_id@
            && m.projects[p].task_space.kind == SpaceKind::Task && m.projects[p].task_space.phase
            != TaskPhase::Archived),
        forall|i: int, j: int|
            0 <= i < j < m.task_rows().len() ==> (#[trigger] m.task_rows()[i]).project_index
                < (#[trigger] m.task_rows()[j]).project_index,
        forall|i: int|
            0 <= i < m.task_rows().len() && (#[trigger] m.task_rows()[i]).project_index == p ==> m.task_rows()[i]
                == task_row(p as usize, m.projects[p], m.sessions[p].all_statuses@),
{
    let key = m.repository()->0;
    let rows = m.task_rows();
    rows_below_are_the_live_tasks(m, key, m.projects.len() as int);
    rows_stand_for_slots(m, key, m.projects.len() as int);
    assert(rows == m.rows_below(key, m.projects.len() as int));
    if exists|i: int| 0 <= i < rows.len() && (#[trigger] rows[i]).project_index == p {
        let i = choose|i: int| 0 <= i < rows.len() && (#[trigger] rows[i]).project_index == p;
        assert(m.live_task(key, rows[i].project_index as int));
    }
    if m.live_task(key, p) {
        let i = choose|i: int|
            0 <= i < m.rows_below(key, m.projects.len() as int).len() && (#[trigger] m.rows_below(
                key,
                m.projects.len() as int,
            )[i]).project_index == p;
        assert(rows[i].project_index == p);
    }
}

/// One more task on the rail counts as merged exactly if it is one of this repository that was.
pub proof fn each_merged_task_counts_once(m: Model, key: Seq<char>, slot: ProjectSlot)
    ensures
        ({
            let more = Model { projects: m.projects.push(slot), ..m };
            let n = m.projects.len() as int;
            let merged = slot.task_space.repository_id@ == key && slot.task_space.kind == SpaceKind::Task
                && slot.task_space.phase == TaskPhase::Integrated;
            more.integrated_below(key, n + 1) == m.integrated_below(key, n) + if merged { 1int } else { 0 }
        }),
        (Model { projects: Seq::empty(), ..m }).integrated_below(key, 0) == 0,
{
    let more = Model { projects: m.projects.push(slot), ..m };
    let n = m.projects.len() as int;
    counting_goes_by_the_slots(m, more, key, n);
}

proof fn counting_goes_by_the_slots(a: Model, b: Model, key: Seq<char>, n: int)
    requires
        n <= a.projects.len(),
        n <= b.projects.len(),
        forall|i: int| 0 <= i < n ==> #[trigger] a.projects[i] == b.projects[i],
    ensures
        a.integrated_below(key, n) == b.integrated_below(key, n),
    decreases n,
{
    if n > 0 {
        counting_goes_by_the_slots(a, b, key, n - 1);
        assert(a.projects[n - 1] == b.projects[n - 1]);
    }
}

/// The place that tasks are merged into has a row exactly if the repository that is shown has one: a
/// main worktree before a linked one, and of several the first.
pub proof fn the_place_to_merge_into_has_a_row(m: Model)
    requires
        m.active < m.projects.len() <= usize::MAX,
    ensures
        ({
            let key = m.projects[m.active as int].task_space.repository_id@;
            match m.integration_row() {
                Some(row) => {
                    let slot = m.projects[row.index as int];
                    &&& row.index < m.projects.len()
                    &&& slot.task_space.repository_id@ == key && slot.task_space.kind == SpaceKind::Integration
                    &&& row.name == slot.name && row.color == slot.color && row.branch == shown_branch(slot)
                    &&& slot.task_space.linked ==> forall|k: int|
                        0 <= k < m.projects.len() && (#[trigger] m.projects[k]).task_space.repository_id@ == key
                            && m.projects[k].task_space.kind == SpaceKind::Integration
                            ==> m.projects[k].task_space.linked && row.index <= k
                    &&& !slot.task_space.linked ==> forall|k: int|
                        0 <= k < row.index && (#[trigger] m.projects[k]).task_space.repository_id@ == key
                            && m.projects[k].task_space.kind == SpaceKind::Integration
                            ==> m.projects[k].task_space.linked
                },
                None => forall|k: int|
                    0 <= k < m.projects.len() ==> !((#[trigger] m.projects[k]).task_space.repository_id@ == key
                        && m.projects[k].task_space.kind == SpaceKind::Integration),
            }
        }),
{
    let key = m.projects[m.active as int].task_space.repository_id@;
    first_index_holds(m.projects, main_tree_of(key));
    first_index_holds(m.projects, merges_for(key));
    assert forall|k: int| 0 <= k < m.projects.len() implies main_tree_of(key)(#[trigger] m.projects[k]) == (
    m.projects[k].task_space.repository_id@ == key && m.projects[k].task_space.kind == SpaceKind::Integration
        && !m.projects[k].task_space.linked) by {}
    assert forall|k: int| 0 <= k < m.projects.len() implies merges_for(key)(#[trigger] m.projects[k]) == (
    m.projects[k].task_space.repository_id@ == key && m.projects[k].task_space.kind == SpaceKind::Integration) by {}
}

/// Ordered by the last input, a task that the user spoke to later never stands behind one that they
/// spoke to earlier, nor behind one that they never spoke to; ordered by attention, one that calls more
/// for a look never behind one that calls less.
pub proof fn the_order_is_by_input_or_attention(rows: Seq<TaskRow>, sort: FleetSort, i: int, j: int)
    requires
        ordered(rows, sort),
        0 <= i < j < rows.len(),
    ensures
        sort == FleetSort::Recent ==> (rows[j].last_input_at_ms matches Some(later) ==> (rows[i].last_input_at_ms
            matches Some(at) && later <= at) || later == i64::MIN),
        sort == FleetSort::Attention ==> rows[j].activity.urgency() <= rows[i].activity.urgency(),
{
    assert(sort_key(rows[i], sort) >= sort_key(rows[j], sort));
}

/// A row is shown exactly if it is that of a task of the shown repository and the filter lets it through;
/// whatever the order, no row is lost or made up.
pub proof fn the_filter_shows_exactly_what_matches(m: Model, rows: Seq<TaskRow>, row: TaskRow)
    requires
        rows.to_multiset() == m.task_rows().filter(shown_by(m.fleet_filter_query@)).to_multiset(),
    ensures
        rows.contains(row) <==> m.task_rows().contains(row) && row_shown(row, m.fleet_filter_query@),
{
    let all = m.task_rows();
    let keep = shown_by(m.fleet_filter_query@);
    let kept = all.filter(keep);
    rows.to_multiset_ensures();
    kept.to_multiset_ensures();
    filter_holds(all, keep);
    assert(rows.contains(row) == kept.contains(row)) by {
        assert(rows.to_multiset().count(row) == kept.to_multiset().count(row));
    }
    if kept.contains(row) {
        let i = choose|i: int| 0 <= i < kept.len() && kept[i] == row;
        filter_comes_from(all, keep, i);
        assert(keep(kept[i]));
    }
    if all.contains(row) && row_shown(row, m.fleet_filter_query@) {
        let k = choose|k: int| 0 <= k < all.len() && all[k] == row;
        filter_keeps(all, keep, k);
    }
}

/// Of the selected tasks those count that are listed, in the order in which they were selected.
pub proof fn only_listed_tasks_count_as_selected(selection: Seq<String>, order: Seq<String>, space: String)
    ensures
        selection.filter(is_in(texts(order))).contains(space) <==> selection.contains(space) && texts(order).contains(
            space@,
        ),
{
    let keep = is_in(texts(order));
    let kept = selection.filter(keep);
    filter_holds(selection, keep);
    if kept.contains(space) {
        let i = choose|i: int| 0 <= i < kept.len() && kept[i] == space;
        filter_comes_from(selection, keep, i);
        assert(keep(kept[i]));
    }
    if selection.contains(space) && texts(order).contains(space@) {
        let k = choose|k: int| 0 <= k < selection.len() && selection[k] == space;
        filter_keeps(selection, keep, k);
    }
}

} // verus!
