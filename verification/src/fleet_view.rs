//! The fleet: the cells of its grid, the tasks that are reviewed and merged, and its lineage graph.

use vstd::prelude::*;
use vstd::arithmetic::div_mod::{lemma_div_is_ordered, lemma_fundamental_div_mod, lemma_mod_bound};
use vstd::relations::injective_on;
use vstd::set_lib::{lemma_int_range, lemma_len_subset, lemma_map_size, set_int_range};
use vstd::string::*;
use crate::fleet_rows::{branch_of, lead, shown_branch};
use crate::fleet_sidebar::{has_space, integration_slot, tasks_are_merged_into_the_main_worktree};
use crate::paths::{
    file_name, folder_of, in_folder, is_same_path, name_of, parent_folder, path_in, same_path,
};
use crate::seqs::{
    filter_comes_from, filter_holds, filter_keeps, filter_none, filter_step, first_index, first_index_holds,
    first_index_is, first_index_none,
};
use crate::text::{decimal, decimal_reads_back, decimal_text, holds_text, texts};
use crate::workspace::{
    Chrome, Effect, FleetLook, FleetPane, GraphLook, GraphView, Model, Notice, ProjectSlot, SpaceKind,
    Surface, TaskDetail, TaskEvent, TaskPhase, TaskSpace, Workspace,
};

verus! {

/// How many cells the grid has.
pub const FLEET_CELLS: usize = 8;

/// How many of five segments a part of a plan fills: the nearest, and the greater of two that are
/// as near.
pub open spec fn filled_segments(done: nat, total: nat) -> nat {
    let nearest = (10 * done + total) / (2 * total);
    if nearest > 5 {
        5
    } else {
        nearest
    }
}

/// A run of one character.
pub open spec fn run(c: char, n: nat) -> Seq<char> {
    Seq::new(n, |i: int| c)
}

/// The meter of a plan: five segments and the numbers; nothing without a plan.
pub open spec fn meter(done: nat, total: nat) -> Seq<char> {
    if total == 0 {
        Seq::empty()
    } else {
        let filled = filled_segments(done, total);
        run('▰', filled) + run('▱', (5 - filled) as nat) + " "@ + decimal(done) + "/"@ + decimal(total)
    }
}

fn push_run(out: &mut String, c: char, n: u64)
    ensures
        final(out)@ == old(out)@ + run(c, n as nat),
{
    let mut i: u64 = 0;
    assert(old(out)@ + run(c, 0) =~= old(out)@);
    while i < n
        invariant
            i <= n,
            out@ == old(out)@ + run(c, i as nat),
        decreases n - i,
    {
        out.push(c);
        i = i + 1;
        assert(out@ =~= old(out)@ + run(c, i as nat));
    }
}

/// The meter of a plan.
pub fn plan_meter(done: u32, total: u32) -> (r: String)
    ensures
        r@ == meter(done as nat, total as nat),
{
    if total == 0 {
        return String::new();
    }
    let nearest: u64 = (10 * done as u64 + total as u64) / (2 * total as u64);
    let filled: u64 = if nearest > 5 {
        5
    } else {
        nearest
    };
    let mut out = String::new();
    push_run(&mut out, '▰', filled);
    assert(out@ =~= run('▰', filled as nat));
    push_run(&mut out, '▱', 5 - filled);
    out.append(" ");
    out.append(decimal_text(done as u64).as_str());
    out.append("/");
    out.append(decimal_text(total as u64).as_str());
    out
}

/// The meter of a plan that is done is full, and that of one that was not begun is empty.
pub proof fn meters_end_full(total: nat)
    requires
        total > 0,
    ensures
        filled_segments(0, total) == 0,
        filled_segments(total, total) == 5,
{
    assert(total / (2 * total) == 0) by (nonlinear_arith)
        requires
            total > 0,
    ;
    assert((10 * total + total) / (2 * total) == 5) by (nonlinear_arith)
        requires
            total > 0,
    ;
}

/// The slot is that of a task.
pub open spec fn is_task() -> spec_fn(ProjectSlot) -> bool {
    |slot: ProjectSlot| !slot.task_space.integration()
}

/// The cell of a task.
pub open spec fn task_cell() -> spec_fn(ProjectSlot) -> FleetPane {
    |slot: ProjectSlot| FleetPane::Task { space: slot.task_space.id }
}

/// The pane is the same as this one.
pub open spec fn same_pane(pane: FleetPane) -> spec_fn(FleetPane) -> bool {
    |current: FleetPane| current.same(pane)
}

/// The pane shows the agents of a task.
pub open spec fn is_task_pane() -> spec_fn(FleetPane) -> bool {
    |pane: FleetPane| pane is Task
}

/// The cells that the grid begins with: the first tasks on the rail.
pub open spec fn seeded(projects: Seq<ProjectSlot>, with_terminal: bool) -> Seq<FleetPane> {
    let tasks = projects.filter(is_task());
    let first = if tasks.len() > FLEET_CELLS { tasks.take(FLEET_CELLS as int) } else { tasks };
    let cells = first.map_values(task_cell());
    if with_terminal && 0 < cells.len() < FLEET_CELLS {
        cells.push(FleetPane::Terminal { space: cells[0].spec_space() })
    } else {
        cells
    }
}

impl Chrome {
    pub open spec fn maximized_set(self, maximized: Option<usize>) -> Chrome {
        Chrome { fleet: FleetLook { maximized, ..self.fleet }, ..self }
    }
}

impl Model {
    /// A pane is in the grid; one that was there already is shown alone.
    pub open spec fn cell_added(self, pane: FleetPane) -> Model {
        match first_index(self.fleet_cells, same_pane(pane)) {
            Some(i) => self.with_chrome(self.chrome.maximized_set(Some(i as usize))),
            None => if self.fleet_cells.len() < FLEET_CELLS {
                Model { fleet_cells: self.fleet_cells.push(pane), ..self }
            } else {
                self
            },
        }
    }

    /// The task that is worked on: that of the cell that is shown alone, or the shown project, or
    /// the first one in the grid.
    pub open spec fn chosen_task(self) -> Option<String> {
        let alone = self.chrome.fleet.maximized;
        if alone matches Some(i) && i < self.fleet_cells.len() {
            Some(self.fleet_cells[alone->0 as int].spec_space())
        } else if self.has_slot() && !self.slot().task_space.integration() {
            Some(self.slot().task_space.id)
        } else {
            match first_index(self.fleet_cells, is_task_pane()) {
                Some(i) => Some(self.fleet_cells[i].spec_space()),
                None => None,
            }
        }
    }

    /// A cell is gone from the grid; the one that is shown alone stays the same, unless it was that
    /// one.
    pub open spec fn cell_closed(self, index: int) -> Model {
        if index < self.fleet_cells.len() {
            let m = Model { fleet_cells: self.fleet_cells.remove(index), ..self };
            match self.chrome.fleet.maximized {
                Some(alone) => if alone == index {
                    m.with_chrome(self.chrome.maximized_set(None))
                } else if alone > index {
                    m.with_chrome(self.chrome.maximized_set(Some((alone - 1) as usize)))
                } else {
                    m
                },
                None => m,
            }
        } else {
            self
        }
    }

    /// A thread is shown in the cell of its task, which is shown alone.
    pub open spec fn agent_revealed(self, space: int, thread: usize) -> Model {
        if space < self.projects.len() {
            let pane = FleetPane::Task { space: self.projects[space].task_space.id };
            let focused = if space < self.sessions.len() {
                self.then_do(Effect::FocusThread { session: space as usize, thread })
            } else {
                self
            };
            focused.then_do(Effect::SwitchProject(space as usize)).pane_alone(pane)
        } else {
            self
        }
    }

    /// A pane is shown alone; it is put in the grid for that, while there is room.
    pub open spec fn pane_alone(self, pane: FleetPane) -> Model {
        match first_index(self.fleet_cells, same_pane(pane)) {
            Some(i) => self.with_chrome(self.chrome.maximized_set(Some(i as usize))),
            None => if self.fleet_cells.len() < FLEET_CELLS {
                Model {
                    fleet_cells: self.fleet_cells.push(pane),
                    chrome: self.chrome.maximized_set(Some(self.fleet_cells.len() as usize)),
                    ..self
                }
            } else {
                self
            },
        }
    }

    /// The fleet fills the window, or does not any more.
    pub open spec fn fleet_toggled(self, with_terminal: bool) -> Model {
        let on = !self.chrome.surface.fleet_mode;
        let m = self.with_chrome(
            Chrome { surface: Surface { fleet_mode: on, ..self.chrome.surface }, ..self.chrome },
        );
        if on {
            (if self.fleet_cells.len() == 0 {
                Model { fleet_cells: seeded(self.projects, with_terminal), ..m }
            } else {
                m
            }).clock_ensured()
        } else {
            m
        }
    }

    /// Merging a task is tried out.
    pub open spec fn review_begun(self, space: Seq<char>) -> Model {
        match self.space_index(space) {
            None => self,
            Some(task) => match shown_branch(self.projects[task]) {
                None => self,
                Some(branch) => match integration_slot(self.projects, self.projects[task].task_space.repository_id@) {
                    None => self.then_do(Effect::Toast(Notice::NoIntegrationSpace)),
                    Some(target) => self.then_do(
                        Effect::PreviewMerge {
                            task: task as usize,
                            host_id: self.projects[target].host_id,
                            root: self.projects[target].root,
                            branch,
                        },
                    ),
                },
            },
        }
    }

    /// A task that may be is merged.
    pub open spec fn integration_begun(self, space: Seq<char>) -> Model {
        match self.space_index(space) {
            None => self,
            Some(task) => if self.projects[task].task_space.phase != TaskPhase::MergeReady {
                self
            } else {
                match shown_branch(self.projects[task]) {
                    None => self,
                    Some(branch) => match integration_slot(self.projects, self.projects[task].task_space.repository_id@) {
                        None => self,
                        Some(target) => self.then_do(
                            Effect::TransitionTask {
                                index: task as usize,
                                phase: TaskPhase::Integrating,
                                reason: TaskEvent::IntegrationStarted,
                                detail: TaskDetail::Nothing,
                            },
                        ).then_do(
                            Effect::IntegrateBranch {
                                task: task as usize,
                                integration: target as usize,
                                host_id: self.projects[target].host_id,
                                root: self.projects[target].root,
                                branch,
                            },
                        ),
                    },
                }
            },
        }
    }

    /// The head of a space is another commit.
    pub open spec fn head_moved(self, index: int, head: String) -> Model {
        if index < self.projects.len() {
            let slot = self.projects[index];
            Model {
                projects: self.projects.update(
                    index,
                    ProjectSlot { task_space: TaskSpace { head_oid: Some(head), ..slot.task_space }, ..slot },
                ),
                ..self
            }
        } else {
            self
        }
    }
}

/// What trying out a merge shows.
pub struct MergePreview {
    pub clean: bool,
    pub detail: String,
}

/// The branch of the `n`-th task.
pub open spec fn task_branch(n: nat) -> Seq<char> {
    "task/"@ + decimal(n)
}

/// The folder of the `n`-th task of a repository.
pub open spec fn task_folder(parent: Seq<char>, repo_name: Seq<char>, n: nat) -> Seq<char> {
    in_folder(parent, repo_name + "-task-"@ + decimal(n))
}

/// The branch of the `n`-th task.
pub fn task_branch_name(n: u64) -> (r: String)
    ensures
        r@ == task_branch(n as nat),
{
    let mut out = "task/".to_owned();
    out.append(decimal_text(n).as_str());
    out
}

/// The folder of the `n`-th task of a repository.
pub fn task_folder_path(parent: &str, repo_name: &str, n: u64) -> (r: String)
    ensures
        r@ == task_folder(parent@, repo_name@, n as nat),
{
    let mut name = repo_name.to_owned();
    name.append("-task-");
    name.append(decimal_text(n).as_str());
    path_in(parent, name.as_str())
}

proof fn task_branches_differ(a: nat, b: nat)
    requires
        task_branch(a) == task_branch(b),
    ensures
        a == b,
{
    decimal_reads_back(a);
    decimal_reads_back(b);
    let lead = "task/"@.len() as int;
    assert(task_branch(a).skip(lead) =~= decimal(a));
    assert(task_branch(b).skip(lead) =~= decimal(b));
}

/// So many tasks cannot all have their branch in a shorter list.
proof fn some_task_branch_is_free(used: Seq<Seq<char>>, from: int, count: int)
    requires
        0 <= from,
        0 <= count,
        forall|k: int| from <= k < from + count ==> used.contains(#[trigger] task_branch(k as nat)),
    ensures
        count <= used.len(),
{
    broadcast use vstd::seq_lib::seq_to_set_is_finite;

    let numbers = set_int_range(from, from + count);
    let name = |k: int| task_branch(k as nat);
    let names = numbers.map(name);
    lemma_int_range(from, from + count);
    assert(injective_on(name, numbers)) by {
        assert forall|a: int, b: int|
            numbers.contains(a) && numbers.contains(b) && #[trigger] name(a) == #[trigger] name(b) implies a == b by {
            task_branches_differ(a as nat, b as nat);
        }
    }
    lemma_map_size(numbers, names, name);
    assert(names.subset_of(used.to_set())) by {
        assert forall|s: Seq<char>| names.contains(s) implies used.to_set().contains(s) by {
            let k = choose|k: int| numbers.contains(k) && name(k) == s;
            assert(used.contains(task_branch(k as nat)));
        }
    }
    lemma_len_subset(names, used.to_set());
    used.lemma_cardinality_of_set();
}

/// The first number from `from` on whose branch is not in use.
pub fn next_task_number(used: &Vec<String>, from: u64) -> (n: u64)
    requires
        from + used@.len() < u64::MAX,
    ensures
        from <= n <= from + used@.len(),
        !texts(used@).contains(task_branch(n as nat)),
        forall|k: int| from <= k < n ==> texts(used@).contains(#[trigger] task_branch(k as nat)),
{
    let count: usize = used.len();
    let mut n: u64 = from;
    while n < from + count as u64
        invariant
            from <= n <= from + count,
            count == used@.len(),
            from + used@.len() < u64::MAX,
            forall|k: int| from <= k < n ==> texts(used@).contains(#[trigger] task_branch(k as nat)),
        decreases from + count - n,
    {
        if !holds_text(used, task_branch_name(n).as_str()) {
            return n;
        }
        n = n + 1;
    }
    proof {
        assert(texts(used@).len() == used@.len());
        if texts(used@).contains(task_branch(n as nat)) {
            some_task_branch_is_free(texts(used@), from as int, count + 1);
        }
    }
    n
}

impl Workspace {
    /// Lets the fleet fill the window, or not.
    pub fn toggle_fleet_mode(&mut self, with_terminal: bool)
        ensures
            final(self)@ == old(self)@.fleet_toggled(with_terminal),
    {
        self.chrome.surface.fleet_mode = !self.chrome.surface.fleet_mode;
        if self.chrome.surface.fleet_mode {
            if self.fleet_cells.len() == 0 {
                self.seed_fleet_cells(with_terminal);
            }
            self.ensure_fleet_clock();
        }
    }

    /// Fills the grid with the first tasks on the rail.
    pub fn seed_fleet_cells(&mut self, with_terminal: bool)
        ensures
            final(self)@ == (Model { fleet_cells: seeded(old(self)@.projects, with_terminal), ..old(self)@ }),
    {
        let ghost all = self@.projects;
        let ghost keep = is_task();
        let mut cells: Vec<FleetPane> = Vec::new();
        let mut i: usize = 0;
        proof {
            filter_none(all, keep);
            assert(cells@ =~= all.take(0).filter(keep).map_values(task_cell()));
        }
        while i < self.projects.len() && cells.len() < FLEET_CELLS
            invariant
                i <= self.projects@.len(),
                *self == *old(self),
                all == self@.projects,
                keep == is_task(),
                cells@.len() <= FLEET_CELLS,
                cells@ == all.take(i as int).filter(keep).map_values(task_cell()),
            decreases self.projects@.len() - i,
        {
            let ghost before = all.take(i as int).filter(keep);
            proof {
                filter_step(all, i as int, keep);
            }
            if !self.projects[i].task_space.is_integration() {
                cells.push(FleetPane::Task { space: self.projects[i].task_space.id.clone() });
                assert(cells@ =~= before.push(all[i as int]).map_values(task_cell()));
            }
            i = i + 1;
        }
        proof {
            filter_begins(all, i as int, keep);
            let tasks = all.filter(keep);
            let so_far = all.take(i as int).filter(keep);
            if i == all.len() {
                assert(all.take(all.len() as int) =~= all);
            } else {
                assert(so_far.len() == FLEET_CELLS);
                assert(tasks.take(FLEET_CELLS as int) =~= so_far);
                if tasks.len() == FLEET_CELLS {
                    assert(tasks =~= so_far);
                }
            }
        }
        if with_terminal && cells.len() > 0 && cells.len() < FLEET_CELLS {
            let space = cells[0].space().clone();
            cells.push(FleetPane::Terminal { space });
        }
        self.fleet_cells = cells;
    }

    fn cell_position(&self, pane: &FleetPane) -> (r: Option<usize>)
        ensures
            match r {
                Some(i) => i < self@.fleet_cells.len() && first_index(self@.fleet_cells, same_pane(*pane))
                    == Some(i as int),
                None => first_index(self@.fleet_cells, same_pane(*pane)) == None::<int>,
            },
    {
        let ghost wanted = same_pane(*pane);
        let mut i: usize = 0;
        while i < self.fleet_cells.len()
            invariant
                i <= self.fleet_cells@.len(),
                wanted == same_pane(*pane),
                forall|j: int| 0 <= j < i ==> !wanted(#[trigger] self.fleet_cells@[j]),
            decreases self.fleet_cells@.len() - i,
        {
            if self.fleet_cells[i].is_same(pane) {
                proof {
                    first_index_is(self.fleet_cells@, wanted, i as int);
                }
                return Some(i);
            }
            i = i + 1;
        }
        proof {
            first_index_none(self.fleet_cells@, wanted);
        }
        None
    }

    /// Puts a pane in the grid, while there is room; one that is there already is shown alone.
    pub fn add_fleet_cell(&mut self, pane: FleetPane)
        ensures
            final(self)@ == old(self)@.cell_added(pane),
    {
        match self.cell_position(&pane) {
            Some(index) => {
                self.chrome.fleet.maximized = Some(index);
            },
            None => {
                if self.fleet_cells.len() < FLEET_CELLS {
                    self.fleet_cells.push(pane);
                }
            },
        }
    }

    /// Shows the terminal of the task that is worked on in the grid.
    pub fn add_terminal_to_selected_task(&mut self)
        ensures
            final(self)@ == match old(self)@.chosen_task() {
                None => old(self)@,
                Some(space) => {
                    let m = match old(self)@.space_index(space@) {
                        Some(i) => old(self)@.then_do(Effect::EnsureTerminal(i as usize)),
                        None => old(self)@,
                    };
                    m.cell_added(FleetPane::Terminal { space })
                },
            },
    {
        let Some(space) = self.selected_task_space() else {
            return;
        };
        if let Some(index) = self.session_index_for_space(&space) {
            self.effect(Effect::EnsureTerminal(index));
        }
        self.add_fleet_cell(FleetPane::Terminal { space });
    }

    /// Shows the editor of the task that is worked on in the grid.
    pub fn add_editor_to_selected_task(&mut self)
        ensures
            final(self)@ == match old(self)@.chosen_task() {
                None => old(self)@,
                Some(space) => old(self)@.cell_added(FleetPane::Editor { space }),
            },
    {
        if let Some(space) = self.selected_task_space() {
            self.add_fleet_cell(FleetPane::Editor { space });
        }
    }

    /// Shows the changes of the task that is worked on in the grid.
    pub fn add_diff_to_selected_task(&mut self)
        ensures
            final(self)@ == match old(self)@.chosen_task() {
                None => old(self)@,
                Some(space) => {
                    let m = match old(self)@.space_index(space@) {
                        Some(i) => old(self)@.then_do(Effect::RefreshGitStatusOf(i as usize)),
                        None => old(self)@,
                    };
                    m.cell_added(FleetPane::Diff { space })
                },
            },
    {
        if let Some(space) = self.selected_task_space() {
            if let Some(index) = self.session_index_for_space(&space) {
                self.effect(Effect::RefreshGitStatusOf(index));
            }
            self.add_fleet_cell(FleetPane::Diff { space });
        }
    }

    /// Shows the tests of the task that is worked on in the grid.
    pub fn add_tests_to_selected_task(&mut self)
        ensures
            final(self)@ == match old(self)@.chosen_task() {
                None => old(self)@,
                Some(space) => {
                    let m = match old(self)@.space_index(space@) {
                        Some(i) => old(self)@.then_do(Effect::EnsureTests(i as usize)),
                        None => old(self)@,
                    };
                    m.cell_added(FleetPane::Tests { space })
                },
            },
    {
        let Some(space) = self.selected_task_space() else {
            return;
        };
        if let Some(index) = self.session_index_for_space(&space) {
            self.effect(Effect::EnsureTests(index));
        }
        self.add_fleet_cell(FleetPane::Tests { space });
    }

    /// Tries out whether a task can be merged.
    pub fn review_task_for_merge(&mut self, space: &String)
        ensures
            final(self)@ == old(self)@.review_begun(space@),
    {
        let Some(task) = self.session_index_for_space(space) else {
            return;
        };
        let Some(branch) = branch_of(&self.projects[task]) else {
            return;
        };
        match self.integration_slot_for(&self.projects[task].task_space.repository_id) {
            None => {
                self.effect(Effect::Toast(Notice::NoIntegrationSpace));
            },
            Some(target) => {
                let host_id = self.projects[target].host_id.clone();
                let root = self.projects[target].root.clone();
                self.effect(Effect::PreviewMerge { task, host_id, root, branch });
            },
        }
    }

    /// What trying out the merge of a task has shown.
    pub fn merge_previewed(&mut self, task: usize, result: Result<MergePreview, String>)
        ensures
            final(self)@ == match result {
                Ok(preview) => if preview.clean {
                    old(self)@.then_do(
                        Effect::TransitionTask {
                            index: task,
                            phase: TaskPhase::MergeReady,
                            reason: TaskEvent::MergePreviewClean,
                            detail: TaskDetail::Clean,
                        },
                    ).then_do(Effect::Toast(Notice::MergePreviewClean))
                } else {
                    old(self)@.then_do(
                        Effect::TransitionTask {
                            index: task,
                            phase: TaskPhase::ChangesRequested,
                            reason: TaskEvent::MergePreviewConflict,
                            detail: TaskDetail::Text(preview.detail),
                        },
                    ).then_do(Effect::MergeConflict(preview.detail))
                },
                Err(error) => old(self)@.then_do(Effect::MergePreviewFailed(error)),
            },
    {
        match result {
            Ok(preview) => if preview.clean {
                self.effect(
                    Effect::TransitionTask {
                        index: task,
                        phase: TaskPhase::MergeReady,
                        reason: TaskEvent::MergePreviewClean,
                        detail: TaskDetail::Clean,
                    },
                );
                self.effect(Effect::Toast(Notice::MergePreviewClean));
            } else {
                let detail = preview.detail.clone();
                self.effect(
                    Effect::TransitionTask {
                        index: task,
                        phase: TaskPhase::ChangesRequested,
                        reason: TaskEvent::MergePreviewConflict,
                        detail: TaskDetail::Text(detail),
                    },
                );
                self.effect(Effect::MergeConflict(preview.detail));
            },
            Err(error) => self.effect(Effect::MergePreviewFailed(error)),
        }
    }

    /// Merges a task, if trying that out went well.
    pub fn integrate_task(&mut self, space: &String)
        ensures
            final(self)@ == old(self)@.integration_begun(space@),
    {
        let Some(task) = self.session_index_for_space(space) else {
            return;
        };
        if self.projects[task].task_space.phase != TaskPhase::MergeReady {
            return;
        }
        let Some(branch) = branch_of(&self.projects[task]) else {
            return;
        };
        let Some(integration) = self.integration_slot_for(&self.projects[task].task_space.repository_id) else {
            return;
        };
        let host_id = self.projects[integration].host_id.clone();
        let root = self.projects[integration].root.clone();
        self.effect(
            Effect::TransitionTask {
                index: task,
                phase: TaskPhase::Integrating,
                reason: TaskEvent::IntegrationStarted,
                detail: TaskDetail::Nothing,
            },
        );
        self.effect(Effect::IntegrateBranch { task, integration, host_id, root, branch });
    }

    /// The task was merged, with this commit as the new head; or it was not.
    pub fn task_integrated(&mut self, task: usize, integration: usize, result: Result<String, String>)
        ensures
            final(self)@ == match result {
                Ok(head) => old(self)@.head_moved(integration as int, head).then_do(
                    Effect::PersistTaskSpace(integration),
                ).then_do(
                    Effect::TransitionTask {
                        index: task,
                        phase: TaskPhase::Integrated,
                        reason: TaskEvent::IntegrationSucceeded,
                        detail: TaskDetail::Nothing,
                    },
                ).then_do(Effect::RefreshGitStatusOf(integration)).then_do(Effect::Toast(Notice::TaskIntegrated)),
                Err(error) => old(self)@.then_do(
                    Effect::TransitionTask {
                        index: task,
                        phase: TaskPhase::MergeReady,
                        reason: TaskEvent::IntegrationFailed,
                        detail: TaskDetail::Text(error),
                    },
                ).then_do(Effect::IntegrationFailed(error)),
            },
    {
        match result {
            Ok(head) => {
                if integration < self.projects.len() {
                    self.projects[integration].task_space.head_oid = Some(head);
                }
                self.effect(Effect::PersistTaskSpace(integration));
                self.effect(
                    Effect::TransitionTask {
                        index: task,
                        phase: TaskPhase::Integrated,
                        reason: TaskEvent::IntegrationSucceeded,
                        detail: TaskDetail::Nothing,
                    },
                );
                self.effect(Effect::RefreshGitStatusOf(integration));
                self.effect(Effect::Toast(Notice::TaskIntegrated));
            },
            Err(error) => {
                let detail = TaskDetail::Text(error.clone());
                self.effect(
                    Effect::TransitionTask {
                        index: task,
                        phase: TaskPhase::MergeReady,
                        reason: TaskEvent::IntegrationFailed,
                        detail,
                    },
                );
                self.effect(Effect::IntegrationFailed(error));
            },
        }
    }

    /// The task that is worked on.
    pub fn selected_task_space(&self) -> (r: Option<String>)
        ensures
            r == self@.chosen_task(),
    {
        if let Some(index) = self.chrome.fleet.maximized {
            if index < self.fleet_cells.len() {
                return Some(self.fleet_cells[index].space().clone());
            }
        }
        if self.has_active_slot() && !self.projects[self.active].task_space.is_integration() {
            return Some(self.projects[self.active].task_space.id.clone());
        }
        let ghost wanted = is_task_pane();
        let mut i: usize = 0;
        while i < self.fleet_cells.len()
            invariant
                i <= self.fleet_cells@.len(),
                wanted == is_task_pane(),
                !(self@.chrome.fleet.maximized matches Some(k) && k < self@.fleet_cells.len()),
                !(self@.has_slot() && !self@.slot().task_space.integration()),
                forall|j: int| 0 <= j < i ==> !wanted(#[trigger] self.fleet_cells@[j]),
            decreases self.fleet_cells@.len() - i,
        {
            if let FleetPane::Task { space } = &self.fleet_cells[i] {
                proof {
                    first_index_is(self.fleet_cells@, wanted, i as int);
                }
                return Some(space.clone());
            }
            i = i + 1;
        }
        proof {
            first_index_none(self.fleet_cells@, wanted);
        }
        None
    }

    /// Starts another thread in the task that is worked on.
    pub fn add_fleet_agent(&mut self)
        ensures
            final(self)@ == match old(self)@.chosen_task() {
                None => old(self)@.then_do(Effect::Toast(Notice::NoTaskToExtend)),
                Some(space) => match old(self)@.space_index(space@) {
                    Some(i) => old(self)@.then_do(Effect::NewThreadIn(i as usize)),
                    None => old(self)@,
                },
            },
    {
        let Some(space) = self.selected_task_space() else {
            self.effect(Effect::Toast(Notice::NoTaskToExtend));
            return;
        };
        if let Some(index) = self.session_index_for_space(&space) {
            self.effect(Effect::NewThreadIn(index));
        }
    }

    /// Starts a task of its own, which is what the button of the fleet does.
    pub fn add_fleet_agent_default(&mut self)
        ensures
            worktree_agent_asked(old(self)@, final(self)@),
    {
        self.add_worktree_agent();
    }

    /// The branches that the projects on the rail have.
    fn open_branches(&self) -> (r: Vec<String>)
        ensures
            r@ == branches_below(self@.projects, self@.projects.len() as int),
    {
        let mut out: Vec<String> = Vec::new();
        let mut i: usize = 0;
        while i < self.projects.len()
            invariant
                i <= self.projects@.len(),
                out@ == branches_below(self@.projects, i as int),
            decreases self.projects@.len() - i,
        {
            if let Some(branch) = branch_of(&self.projects[i]) {
                out.push(branch);
            }
            i = i + 1;
        }
        out
    }

    /// Asks for a task of its own: a branch and a worktree beside the repository.
    pub fn add_worktree_agent(&mut self)
        ensures
            worktree_agent_asked(old(self)@, final(self)@),
    {
        if self.fleet_cells.len() >= FLEET_CELLS || !self.has_active_slot() {
            return;
        }
        let from: usize = match self.integration_slot_for(&self.projects[self.active].task_space.repository_id) {
            Some(i) => i,
            None => self.active,
        };
        let repo_name = match file_name(self.projects[from].root.as_str()) {
            Some(name) => name,
            None => "repo".to_owned(),
        };
        if let Some(parent) = parent_folder(self.projects[from].root.as_str()) {
            let host_id = self.projects[from].host_id.clone();
            let root = self.projects[from].root.clone();
            let used = self.open_branches();
            self.effect(Effect::CreateTaskWorktree { host_id, root, parent, repo_name, used });
        }
    }

    /// The worktree of the new task was made and is on the rail: it gets a cell.
    pub fn task_space_opened(&mut self, root: &String)
        ensures
            final(self)@ == match first_index(old(self)@.projects, has_root(root@)) {
                None => old(self)@,
                Some(i) => {
                    let pane = FleetPane::Task { space: old(self)@.projects[i].task_space.id };
                    let m = if old(self)@.fleet_cells.len() < FLEET_CELLS {
                        Model { fleet_cells: old(self)@.fleet_cells.push(pane), ..old(self)@ }
                    } else {
                        old(self)@
                    };
                    m.then_do(Effect::PersistTaskSpace(i as usize)).then_do(
                        Effect::TransitionTask {
                            index: i as usize,
                            phase: TaskPhase::Planned,
                            reason: TaskEvent::TaskCreated,
                            detail: TaskDetail::Nothing,
                        },
                    )
                },
            },
    {
        let ghost wanted = has_root(root@);
        let mut i: usize = 0;
        while i < self.projects.len()
            invariant
                i <= self.projects@.len(),
                *self == *old(self),
                wanted == has_root(root@),
                forall|j: int| 0 <= j < i ==> !wanted(#[trigger] self.projects@[j]),
            decreases self.projects@.len() - i,
        {
            if is_same_path(self.projects[i].root.as_str(), root.as_str()) {
                proof {
                    first_index_is(self.projects@, wanted, i as int);
                }
                if self.fleet_cells.len() < FLEET_CELLS {
                    let space = self.projects[i].task_space.id.clone();
                    self.fleet_cells.push(FleetPane::Task { space });
                }
                self.effect(Effect::PersistTaskSpace(i));
                self.effect(
                    Effect::TransitionTask {
                        index: i,
                        phase: TaskPhase::Planned,
                        reason: TaskEvent::TaskCreated,
                        detail: TaskDetail::Nothing,
                    },
                );
                return;
            }
            i = i + 1;
        }
        proof {
            first_index_none(self.projects@, wanted);
        }
    }

    /// Takes a cell out of the grid.
    pub fn close_fleet_cell(&mut self, index: usize)
        ensures
            final(self)@ == old(self)@.cell_closed(index as int),
    {
        if index < self.fleet_cells.len() {
            self.fleet_cells.remove(index);
            if let Some(alone) = self.chrome.fleet.maximized {
                if alone == index {
                    self.chrome.fleet.maximized = None;
                } else if alone > index {
                    self.chrome.fleet.maximized = Some(alone - 1);
                }
            }
        }
    }

    /// Closes a thread; the cell of its task stays.
    pub fn close_agent(&mut self, space: usize, thread: usize)
        ensures
            final(self)@ == if space < old(self)@.sessions.len() {
                old(self)@.then_do(Effect::CloseThread { session: space, thread })
            } else {
                old(self)@
            },
    {
        if space < self.sessions.len() {
            self.effect(Effect::CloseThread { session: space, thread });
        }
    }

    /// Shows a cell alone.
    pub fn maximize_fleet_cell(&mut self, index: usize)
        ensures
            final(self)@ == old(self)@.with_chrome(old(self)@.chrome.maximized_set(Some(index))),
    {
        self.chrome.fleet.maximized = Some(index);
    }

    /// Shows the whole grid again.
    pub fn restore_fleet_layout(&mut self)
        ensures
            final(self)@ == old(self)@.with_chrome(old(self)@.chrome.maximized_set(None)),
    {
        self.chrome.fleet.maximized = None;
    }

    /// Shows a thread in the cell of its task, which is put in the grid while there is room.
    pub fn reveal_agent_in_fleet(&mut self, space: usize, thread: usize)
        ensures
            final(self)@ == old(self)@.agent_revealed(space as int, thread),
    {
        if space >= self.projects.len() {
            return;
        }
        let pane = FleetPane::Task { space: self.projects[space].task_space.id.clone() };
        if space < self.sessions.len() {
            self.effect(Effect::FocusThread { session: space, thread });
        }
        self.effect(Effect::SwitchProject(space));
        self.show_pane_alone(pane);
    }

    fn show_pane_alone(&mut self, pane: FleetPane)
        ensures
            final(self)@ == old(self)@.pane_alone(pane),
    {
        match self.cell_position(&pane) {
            Some(index) => {
                self.chrome.fleet.maximized = Some(index);
            },
            None => {
                let count: usize = self.fleet_cells.len();
                if count < FLEET_CELLS {
                    self.fleet_cells.push(pane);
                    self.chrome.fleet.maximized = Some(count);
                }
            },
        }
    }

    /// The thread of the captain is there: the fleet shows it on a stage of its own.
    pub fn captain_ready(&mut self, index: usize, thread: usize)
        ensures
            final(self)@ == if index < old(self)@.projects.len() {
                let chrome = old(self)@.chrome;
                (Model {
                    captain_space: Some(old(self)@.projects[index as int].task_space.id),
                    chrome: Chrome {
                        surface: Surface { fleet_mode: true, ..chrome.surface },
                        fleet: FleetLook { stage_columns: 1, captain_tab: 0, ..chrome.fleet },
                        ..chrome
                    },
                    ..old(self)@
                }).agent_revealed(index as int, thread)
            } else {
                old(self)@
            },
    {
        if index < self.projects.len() {
            self.chrome.surface.fleet_mode = true;
            self.chrome.fleet.stage_columns = 1;
            self.chrome.fleet.captain_tab = 0;
            self.captain_space = Some(self.projects[index].task_space.id.clone());
            self.reveal_agent_in_fleet(index, thread);
        }
    }

    /// Draws the lineage graph in another way.
    pub fn set_graph_view(&mut self, view: GraphView)
        ensures
            final(self)@ == old(self)@.with_chrome(
                Chrome { graph: GraphLook { view, collapsed: false }, ..old(self)@.chrome },
            ),
    {
        self.chrome.graph.view = view;
        self.chrome.graph.collapsed = false;
    }

    /// Folds the lineage graph, or unfolds it.
    pub fn toggle_graph_collapse(&mut self)
        ensures
            final(self)@ == old(self)@.with_chrome(
                Chrome {
                    graph: GraphLook { collapsed: !old(self)@.chrome.graph.collapsed, ..old(self)@.chrome.graph },
                    ..old(self)@.chrome
                },
            ),
    {
        self.chrome.graph.collapsed = !self.chrome.graph.collapsed;
    }

    /// A thread of the lineage graph was clicked: its project is shown, with the thread.
    pub fn focus_fleet_agent(&mut self, space: usize, thread: usize)
        ensures
            final(self)@ == if space < old(self)@.sessions.len() {
                old(self)@.then_do(Effect::SwitchProject(space)).then_do(
                    Effect::FocusThread { session: space, thread },
                )
            } else {
                old(self)@.then_do(Effect::SwitchProject(space))
            },
    {
        self.effect(Effect::SwitchProject(space));
        if space < self.sessions.len() {
            self.effect(Effect::FocusThread { session: space, thread });
        }
    }
}

/// The slot is at this place.
pub open spec fn has_root(root: Seq<char>) -> spec_fn(ProjectSlot) -> bool {
    |slot: ProjectSlot| same_path(slot.root@, root)
}

/// The branches of the first `n` slots.
pub open spec fn branches_below(projects: Seq<ProjectSlot>, n: int) -> Seq<String>
    decreases n,
{
    if n <= 0 {
        Seq::empty()
    } else {
        match shown_branch(projects[n - 1]) {
            Some(branch) => branches_below(projects, n - 1).push(branch),
            None => branches_below(projects, n - 1),
        }
    }
}

/// What asking for a task of its own does: nothing while the grid is full, without a project, or at
/// the root of the disk.
pub open spec fn worktree_agent_asked(before: Model, after: Model) -> bool {
    if before.fleet_cells.len() >= FLEET_CELLS || !before.has_slot() {
        after == before
    } else {
        let from = match integration_slot(before.projects, before.slot().task_space.repository_id@) {
            Some(i) => before.projects[i],
            None => before.slot(),
        };
        worktree_asked_from(before, after, from)
    }
}

/// A worktree beside the one of this slot is asked for.
pub open spec fn worktree_asked_from(before: Model, after: Model, from: ProjectSlot) -> bool {
    match folder_of(from.root@) {
        None => after == before,
        Some(folder) => exists|parent: String, repo_name: String, used: Vec<String>|
            parent@ == folder && repo_name@ == (match name_of(from.root@) {
                Some(name) => name,
                None => "repo"@,
            }) && used@ == branches_below(before.projects, before.projects.len() as int) && after
                == #[trigger] before.then_do(
                Effect::CreateTaskWorktree {
                    host_id: from.host_id,
                    root: from.root,
                    parent,
                    repo_name,
                    used,
                },
            ),
    }
}

proof fn filter_begins<A>(s: Seq<A>, i: int, pred: spec_fn(A) -> bool)
    requires
        0 <= i <= s.len(),
    ensures
        s.take(i).filter(pred).len() <= s.filter(pred).len(),
        s.filter(pred).take(s.take(i).filter(pred).len() as int) == s.take(i).filter(pred),
    decreases s.len(),
{
    reveal(Seq::filter);
    let part = s.take(i).filter(pred);
    if i == s.len() {
        assert(s.take(i) =~= s);
        assert(s.filter(pred).take(part.len() as int) =~= part);
    } else {
        let rest = s.drop_last();
        assert(rest.take(i) =~= s.take(i));
        filter_begins(rest, i, pred);
        assert(s.filter(pred).take(part.len() as int) =~= rest.filter(pred).take(part.len() as int));
    }
}

/// The grid never holds more cells than it has.
pub proof fn the_grid_is_never_overfull(m: Model, pane: FleetPane)
    requires
        m.fleet_cells.len() <= FLEET_CELLS,
    ensures
        m.cell_added(pane).fleet_cells.len() <= FLEET_CELLS,
        seeded(m.projects, true).len() <= FLEET_CELLS,
{
}

/// A pane is in the grid at most once.
pub proof fn panes_are_added_once(m: Model, pane: FleetPane)
    ensures
        m.cell_added(pane).cell_added(pane).fleet_cells == m.cell_added(pane).fleet_cells,
{
    let once = m.cell_added(pane);
    crate::seqs::first_index_holds(m.fleet_cells, same_pane(pane));
    crate::seqs::first_index_holds(once.fleet_cells, same_pane(pane));
    if first_index(m.fleet_cells, same_pane(pane)) is None && m.fleet_cells.len() < FLEET_CELLS {
        let last = once.fleet_cells[m.fleet_cells.len() as int];
        assert(last == pane);
        assert(same_pane(pane)(last));
    }
}

/// After a cell was closed, the one that is shown alone is still the same one.
pub proof fn closing_cells_keeps_the_one_alone(m: Model, index: int)
    requires
        0 <= index < m.fleet_cells.len() <= usize::MAX,
        m.chrome.fleet.maximized matches Some(alone) && alone < m.fleet_cells.len() && alone != index,
    ensures
        m.cell_closed(index).chrome.fleet.maximized is Some,
        ({
            let after = m.cell_closed(index);
            after.chrome.fleet.maximized->0 < after.fleet_cells.len()
                && after.fleet_cells[after.chrome.fleet.maximized->0 as int]
                == m.fleet_cells[m.chrome.fleet.maximized->0 as int]
        }),
{
}

/// A task is only merged after trying that out went well.
pub proof fn only_ready_tasks_are_merged(m: Model, space: Seq<char>)
    requires
        m.space_index(space) matches Some(task) ==> m.projects[task].task_space.phase != TaskPhase::MergeReady,
    ensures
        m.integration_begun(space) == m,
{
}

/// As many of the five segments are filled as come nearest to the part that is done, and never more than
/// five; a plan that is further on never fills fewer.
pub proof fn meters_fill_the_nearest_segment(done: nat, total: nat, more: nat)
    requires
        total > 0,
        done <= more,
    ensures
        ({
            let filled = filled_segments(done, total);
            &&& filled <= 5
            &&& filled * 2 * total <= 10 * done + total
            &&& filled < 5 ==> 10 * done < filled * 2 * total + total
            &&& filled <= filled_segments(more, total)
        }),
{
    let width = (2 * total) as int;
    let a = (10 * done + total) as int;
    let b = (10 * more + total) as int;
    lemma_fundamental_div_mod(a, width);
    lemma_mod_bound(a, width);
    lemma_div_is_ordered(a, b, width);
    let nearest = a / width;
    assert(nearest * width == nearest * 2 * total) by (nonlinear_arith)
        requires
            width == 2 * total,
    ;
    assert(width * nearest == nearest * width) by (nonlinear_arith);
    let filled = filled_segments(done, total) as int;
    if nearest > 5 {
        assert(5 * width <= nearest * width) by (nonlinear_arith)
            requires
                nearest > 5,
                width > 0,
        ;
        assert(filled * 2 * total == 5 * width) by (nonlinear_arith)
            requires
                filled == 5,
                width == 2 * total,
        ;
    }
}

/// A meter is five segments, the filled ones first, and after them both numbers as they are.
pub proof fn meters_show_five_segments_and_the_numbers(done: nat, total: nat)
    requires
        total > 0,
    ensures
        ({
            let text = meter(done, total);
            let filled = filled_segments(done, total);
            &&& text.len() == 7 + decimal(done).len() + decimal(total).len()
            &&& forall|k: int| 0 <= k < filled && k < 5 ==> #[trigger] text[k] == '▰'
            &&& forall|k: int| filled <= k < 5 ==> #[trigger] text[k] == '▱'
            &&& text[5] == ' '
            &&& text.skip(6) == decimal(done).push('/') + decimal(total)
        }),
        meter(done, 0).len() == 0,
{
    reveal_strlit(" ");
    reveal_strlit("/");
    let text = meter(done, total);
    assert(text.skip(6) =~= decimal(done).push('/') + decimal(total));
}

/// The grid begins with the first tasks on the rail, in its order, as many as it has cells; a terminal
/// is that of the first of them, and stands behind them all.
pub proof fn the_grid_begins_with_the_first_tasks(projects: Seq<ProjectSlot>, with_terminal: bool)
    ensures
        ({
            let tasks = projects.filter(is_task());
            let cells = seeded(projects, with_terminal);
            let n = if tasks.len() < FLEET_CELLS { tasks.len() as int } else { FLEET_CELLS as int };
            &&& cells.len() <= FLEET_CELLS
            &&& cells.len() == n + (if with_terminal && 0 < n < FLEET_CELLS { 1int } else { 0 })
            &&& forall|k: int|
                0 <= k < n ==> #[trigger] cells[k] == (FleetPane::Task { space: tasks[k].task_space.id })
            &&& cells.len() > n ==> cells[n] == (FleetPane::Terminal { space: tasks[0].task_space.id })
        }),
        forall|slot: ProjectSlot| #[trigger]
            projects.filter(is_task()).contains(slot) <==> projects.contains(slot) && slot.task_space.kind
                == SpaceKind::Task,
{
    let keep = is_task();
    let tasks = projects.filter(keep);
    filter_holds(projects, keep);
    assert forall|slot: ProjectSlot| #[trigger] tasks.contains(slot) <==> projects.contains(slot)
        && slot.task_space.kind == SpaceKind::Task by {
        if tasks.contains(slot) {
            let i = choose|i: int| 0 <= i < tasks.len() && tasks[i] == slot;
            filter_comes_from(projects, keep, i);
            assert(keep(tasks[i]));
        }
        if projects.contains(slot) && slot.task_space.kind == SpaceKind::Task {
            let k = choose|k: int| 0 <= k < projects.len() && projects[k] == slot;
            filter_keeps(projects, keep, k);
        }
    }
}

/// A pane that is put in the grid is there afterwards, where there is room, behind the others, which stay
/// where they are; one that was there already is shown alone.
pub proof fn added_panes_are_in_the_grid(m: Model, pane: FleetPane)
    requires
        m.fleet_cells.len() <= usize::MAX,
    ensures
        ({
            let after = m.cell_added(pane);
            let was = exists|k: int| 0 <= k < m.fleet_cells.len() && (#[trigger] m.fleet_cells[k]).same(pane);
            &&& was ==> {
                &&& after.fleet_cells == m.fleet_cells
                &&& after.chrome.fleet.maximized matches Some(i) && i < m.fleet_cells.len()
                    && m.fleet_cells[i as int].same(pane)
            }
            &&& !was && m.fleet_cells.len() < FLEET_CELLS ==> after.fleet_cells == m.fleet_cells.push(pane)
                && after.chrome == m.chrome
            &&& !was && m.fleet_cells.len() >= FLEET_CELLS ==> after == m
        }),
{
    let wanted = same_pane(pane);
    first_index_holds(m.fleet_cells, wanted);
    assert forall|k: int| 0 <= k < m.fleet_cells.len() implies wanted(#[trigger] m.fleet_cells[k])
        == m.fleet_cells[k].same(pane) by {}
    if let Some(i) = first_index(m.fleet_cells, wanted) {
        assert(wanted(m.fleet_cells[i]));
    }
}

/// The task that is worked on is that of the cell that is shown alone; without one, that of the shown
/// project, if it is a task; and else the first in the grid.
pub proof fn the_cell_that_is_alone_is_worked_on(m: Model)
    ensures
        ({
            let alone = m.chrome.fleet.maximized is Some && m.chrome.fleet.maximized->0 < m.fleet_cells.len();
            let task = m.active < m.projects.len() && m.projects[m.active as int].task_space.kind == SpaceKind::Task;
            &&& alone ==> m.chosen_task() == Some(
                m.fleet_cells[m.chrome.fleet.maximized->0 as int].spec_space(),
            )
            &&& !alone && task ==> m.chosen_task() == Some(m.projects[m.active as int].task_space.id)
            &&& !alone && !task ==> match m.chosen_task() {
                Some(space) => exists|k: int|
                    0 <= k < m.fleet_cells.len() && #[trigger] m.fleet_cells[k] == (FleetPane::Task { space })
                        && forall|j: int| 0 <= j < k ==> !(#[trigger] m.fleet_cells[j] is Task),
                None => forall|k: int| 0 <= k < m.fleet_cells.len() ==> !(#[trigger] m.fleet_cells[k] is Task),
            }
        }),
{
    let wanted = is_task_pane();
    first_index_holds(m.fleet_cells, wanted);
    assert forall|k: int| 0 <= k < m.fleet_cells.len() implies wanted(#[trigger] m.fleet_cells[k]) == (
    m.fleet_cells[k] is Task) by {}
    if let Some(i) = first_index(m.fleet_cells, wanted) {
        assert(wanted(m.fleet_cells[i]));
        assert(m.fleet_cells[i] == (FleetPane::Task { space: m.fleet_cells[i].spec_space() }));
    }
}

/// A cell that is closed is gone, and the others stay in their order; where it was shown alone, the whole
/// grid is shown.
pub proof fn closing_a_cell_takes_it_alone(m: Model, index: int)
    requires
        0 <= index < m.fleet_cells.len() <= usize::MAX,
    ensures
        ({
            let after = m.cell_closed(index);
            &&& after.fleet_cells.len() == m.fleet_cells.len() - 1
            &&& forall|k: int| 0 <= k < index ==> #[trigger] after.fleet_cells[k] == m.fleet_cells[k]
            &&& forall|k: int|
                index <= k < after.fleet_cells.len() ==> #[trigger] after.fleet_cells[k] == m.fleet_cells[k + 1]
            &&& m.chrome.fleet.maximized == Some(index as usize) ==> after.chrome.fleet.maximized is None
            &&& m.chrome.fleet.maximized is None ==> after.chrome.fleet.maximized is None
            &&& m.chrome.fleet.maximized matches Some(alone) ==> (alone != index ==> after.chrome.fleet.maximized
                == Some((if alone > index { alone - 1 } else { alone as int }) as usize))
            &&& after.effects == m.effects
        }),
{
}

/// A thread that is shown in the fleet is focused in its project, and the cell of its task is shown
/// alone: the one that is there, or a new one behind the others while there is room.
pub proof fn revealed_threads_are_shown_alone(m: Model, space: int, thread: usize)
    requires
        0 <= space < m.projects.len() <= usize::MAX,
        space < m.sessions.len(),
        m.fleet_cells.len() <= usize::MAX,
    ensures
        ({
            let after = m.agent_revealed(space, thread);
            let pane = FleetPane::Task { space: m.projects[space].task_space.id };
            let n = m.effects.len() as int;
            let was = exists|k: int| 0 <= k < m.fleet_cells.len() && (#[trigger] m.fleet_cells[k]).same(pane);
            &&& after.effects.len() == n + 2
            &&& after.effects[n] == (Effect::FocusThread { session: space as usize, thread })
            &&& after.effects[n + 1] == Effect::SwitchProject(space as usize)
            &&& m.fleet_cells.is_prefix_of(after.fleet_cells)
            &&& was || m.fleet_cells.len() < FLEET_CELLS ==> (after.chrome.fleet.maximized matches Some(i) && i
                < after.fleet_cells.len() && after.fleet_cells[i as int].same(pane))
            &&& was || m.fleet_cells.len() >= FLEET_CELLS ==> after.fleet_cells == m.fleet_cells
            &&& !was && m.fleet_cells.len() >= FLEET_CELLS ==> after.chrome == m.chrome
        }),
{
    let pane = FleetPane::Task { space: m.projects[space].task_space.id };
    let wanted = same_pane(pane);
    first_index_holds(m.fleet_cells, wanted);
    assert forall|k: int| 0 <= k < m.fleet_cells.len() implies wanted(#[trigger] m.fleet_cells[k])
        == m.fleet_cells[k].same(pane) by {}
    if let Some(i) = first_index(m.fleet_cells, wanted) {
        assert(wanted(m.fleet_cells[i]));
    }
    assert(m.agent_revealed(space, thread).fleet_cells.take(m.fleet_cells.len() as int) =~= m.fleet_cells);
}

/// The fleet comes and goes; when it comes, its clock runs, and an empty grid is filled.
pub proof fn the_fleet_comes_and_goes(m: Model, with_terminal: bool)
    ensures
        ({
            let after = m.fleet_toggled(with_terminal);
            &&& after.chrome.surface.fleet_mode != m.chrome.surface.fleet_mode
            &&& m.chrome.surface.fleet_mode ==> after.fleet_cells == m.fleet_cells && after.effects == m.effects
            &&& !m.chrome.surface.fleet_mode ==> after.chrome.boards.fleet_clock
            &&& m.fleet_cells.len() > 0 ==> after.fleet_cells == m.fleet_cells
            &&& !m.chrome.surface.fleet_mode && m.fleet_cells.len() == 0 ==> after.fleet_cells == seeded(
                m.projects,
                with_terminal,
            )
            &&& after.chrome.docks == m.chrome.docks
        }),
{
}

/// Merging is tried out where the tasks of the same repository are merged into, with the branch of the
/// task; a task without a branch is left alone, and without such a place a notice says so.
pub proof fn reviews_are_of_the_branch_of_the_task(m: Model, space: Seq<char>, task: int)
    requires
        0 <= task < m.projects.len() <= usize::MAX,
        m.projects[task].task_space.id@ == space,
        forall|k: int| 0 <= k < task ==> (#[trigger] m.projects[k]).task_space.id@ != space,
    ensures
        ({
            let after = m.review_begun(space);
            let slot = m.projects[task];
            let last = after.effects.last();
            let branch = if slot.branch is Some { slot.branch } else { slot.worktree_branch };
            let placed = exists|k: int|
                0 <= k < m.projects.len() && (#[trigger] m.projects[k]).task_space.repository_id@
                    == slot.task_space.repository_id@ && m.projects[k].task_space.kind == SpaceKind::Integration;
            &&& branch is None ==> after == m
            &&& branch is Some && !placed ==> after.effects == m.effects.push(
                Effect::Toast(Notice::NoIntegrationSpace),
            )
            &&& branch is Some && placed ==> {
                &&& after.effects.drop_last() == m.effects && last is PreviewMerge
                &&& last->PreviewMerge_task == task && last->PreviewMerge_branch == branch->0
                &&& exists|k: int|
                    0 <= k < m.projects.len() && (#[trigger] m.projects[k]).task_space.repository_id@
                        == slot.task_space.repository_id@ && m.projects[k].task_space.kind == SpaceKind::Integration
                        && last->PreviewMerge_root == m.projects[k].root && last->PreviewMerge_host_id
                        == m.projects[k].host_id
            }
        }),
{
    let slot = m.projects[task];
    let wanted = has_space(space);
    assert forall|j: int| 0 <= j < task implies !wanted(#[trigger] m.projects[j]) by {}
    first_index_is(m.projects, wanted, task);
    tasks_are_merged_into_the_main_worktree(m.projects, slot.task_space.repository_id@);
    let after = m.review_begun(space);
    if let Some(k) = integration_slot(m.projects, slot.task_space.repository_id@) {
        assert(m.projects[k].task_space.kind == SpaceKind::Integration);
        assert(m.projects[k].task_space.repository_id@ == slot.task_space.repository_id@);
        if after != m {
            assert(after.effects.drop_last() =~= m.effects);
        }
    }
}

/// A task that is ready is merged with its own branch, where the tasks of its repository are merged into,
/// and its phase says so first.
pub proof fn merges_are_of_the_branch_of_the_task(m: Model, space: Seq<char>, task: int)
    requires
        0 <= task < m.projects.len() <= usize::MAX,
        m.projects[task].task_space.id@ == space,
        forall|k: int| 0 <= k < task ==> (#[trigger] m.projects[k]).task_space.id@ != space,
        m.projects[task].task_space.phase == TaskPhase::MergeReady,
    ensures
        ({
            let after = m.integration_begun(space);
            let slot = m.projects[task];
            let last = after.effects.last();
            let n = m.effects.len() as int;
            let branch = if slot.branch is Some { slot.branch } else { slot.worktree_branch };
            let placed = exists|k: int|
                0 <= k < m.projects.len() && (#[trigger] m.projects[k]).task_space.repository_id@
                    == slot.task_space.repository_id@ && m.projects[k].task_space.kind == SpaceKind::Integration;
            &&& branch is None || !placed ==> after == m
            &&& branch is Some && placed ==> {
                &&& after.effects.len() == n + 2
                &&& after.effects[n] == (Effect::TransitionTask {
                    index: task as usize,
                    phase: TaskPhase::Integrating,
                    reason: TaskEvent::IntegrationStarted,
                    detail: TaskDetail::Nothing,
                })
                &&& last is IntegrateBranch && last->IntegrateBranch_task == task && last->IntegrateBranch_branch
                    == branch->0
                &&& ({
                    let k = last->IntegrateBranch_integration as int;
                    &&& k < m.projects.len()
                    &&& m.projects[k].task_space.repository_id@ == slot.task_space.repository_id@
                    &&& m.projects[k].task_space.kind == SpaceKind::Integration
                    &&& last->IntegrateBranch_root == m.projects[k].root
                    &&& last->IntegrateBranch_host_id == m.projects[k].host_id
                })
            }
        }),
{
    let slot = m.projects[task];
    let wanted = has_space(space);
    assert forall|j: int| 0 <= j < task implies !wanted(#[trigger] m.projects[j]) by {}
    first_index_is(m.projects, wanted, task);
    tasks_are_merged_into_the_main_worktree(m.projects, slot.task_space.repository_id@);
    if let Some(k) = integration_slot(m.projects, slot.task_space.repository_id@) {
        assert(m.projects[k].task_space.kind == SpaceKind::Integration);
    }
}

/// Moving the head of a space changes its head alone.
pub proof fn a_head_moves_alone(m: Model, index: int, head: String)
    requires
        0 <= index < m.projects.len(),
    ensures
        ({
            let after = m.head_moved(index, head);
            &&& after.projects.len() == m.projects.len()
            &&& after.projects[index].task_space.head_oid == Some(head)
            &&& after.projects[index].task_space.base_oid == m.projects[index].task_space.base_oid
            &&& after.projects[index].root == m.projects[index].root
            &&& forall|k: int|
                0 <= k < m.projects.len() && k != index ==> #[trigger] after.projects[k] == m.projects[k]
        }),
{
}

/// Two tasks have different branches and different folders, and both end in the number of the task.
pub proof fn tasks_have_their_own_branch_and_folder(parent: Seq<char>, repo_name: Seq<char>, a: nat, b: nat)
    ensures
        task_branch(a) == task_branch(b) ==> a == b,
        task_folder(parent, repo_name, a) == task_folder(parent, repo_name, b) ==> a == b,
        decimal(a).is_suffix_of(task_branch(a)),
        decimal(a).is_suffix_of(task_folder(parent, repo_name, a)),
{
    if task_branch(a) == task_branch(b) {
        task_branches_differ(a, b);
    }
    numbers_end_the_text("task/"@, a);
    let lead = in_folder(parent, Seq::empty()) + repo_name + "-task-"@;
    task_folders_end_in_their_number(parent, repo_name, a);
    task_folders_end_in_their_number(parent, repo_name, b);
    numbers_end_the_text(lead, a);
    if task_folder(parent, repo_name, a) == task_folder(parent, repo_name, b) {
        numbers_end_the_text(lead, b);
        assert((lead + decimal(a)).skip(lead.len() as int) == decimal(a));
        assert((lead + decimal(b)).skip(lead.len() as int) == decimal(b));
        decimal_reads_back(a);
        decimal_reads_back(b);
    }
}

proof fn numbers_end_the_text(lead: Seq<char>, n: nat)
    ensures
        decimal(n).is_suffix_of(lead + decimal(n)),
        (lead + decimal(n)).skip(lead.len() as int) == decimal(n),
{
    let text = lead + decimal(n);
    assert(text.skip(lead.len() as int) =~= decimal(n));
    assert(text.skip(text.len() - decimal(n).len()) =~= decimal(n));
}

proof fn task_folders_end_in_their_number(parent: Seq<char>, repo_name: Seq<char>, n: nat)
    ensures
        task_folder(parent, repo_name, n) == in_folder(parent, Seq::empty()) + repo_name + "-task-"@ + decimal(n),
{
    let name = repo_name + "-task-"@ + decimal(n);
    assert(task_folder(parent, repo_name, n) == in_folder(parent, name));
    assert(in_folder(parent, name) =~= in_folder(parent, Seq::empty()) + name);
    assert(in_folder(parent, Seq::empty()) + name =~= in_folder(parent, Seq::empty()) + repo_name + "-task-"@ + decimal(
        n,
    ));
}

proof fn branches_hold(projects: Seq<ProjectSlot>, n: int, branch: String)
    requires
        0 <= n <= projects.len(),
    ensures
        branches_below(projects, n).contains(branch) <==> exists|k: int|
            0 <= k < n && shown_branch(#[trigger] projects[k]) == Some(branch),
    decreases n,
{
    if n > 0 {
        branches_hold(projects, n - 1, branch);
        let before = branches_below(projects, n - 1);
        let now = branches_below(projects, n);
        if before.contains(branch) {
            let i = choose|i: int| 0 <= i < before.len() && before[i] == branch;
            assert(now[i] == branch);
        }
        if shown_branch(projects[n - 1]) == Some(branch) {
            assert(now[before.len() as int] == branch);
        }
        if now.contains(branch) {
            let i = choose|i: int| 0 <= i < now.len() && now[i] == branch;
            if i < before.len() {
                assert(before[i] == branch);
            } else {
                assert(shown_branch(projects[n - 1]) == Some(branch));
            }
        }
    }
}

/// A worktree for a task of its own is asked for beside the place that tasks are merged into, or beside
/// the shown project where there is none, on its host; every branch that is on the rail counts as used.
pub proof fn worktrees_are_asked_for_beside_the_repository(before: Model, after: Model)
    requires
        worktree_agent_asked(before, after),
        before.active < before.projects.len(),
        before.fleet_cells.len() < FLEET_CELLS,
    ensures
        ({
            let shown = before.projects[before.active as int];
            let last = after.effects.last();
            let from = match integration_slot(before.projects, shown.task_space.repository_id@) {
                Some(i) => before.projects[i],
                None => shown,
            };
            &&& folder_of(from.root@) is None ==> after == before
            &&& folder_of(from.root@) is Some ==> {
                &&& after.effects.drop_last() == before.effects && last is CreateTaskWorktree
                &&& last->CreateTaskWorktree_root == from.root && last->CreateTaskWorktree_host_id == from.host_id
                &&& Some(last->CreateTaskWorktree_parent@) == folder_of(from.root@)
                &&& name_of(from.root@) matches Some(name) ==> last->CreateTaskWorktree_repo_name@ == name
                &&& forall|k: int|
                    0 <= k < before.projects.len() && shown_branch(#[trigger] before.projects[k]) is Some
                        ==> last->CreateTaskWorktree_used@.contains(shown_branch(before.projects[k])->0)
            }
        }),
{
    let shown = before.projects[before.active as int];
    let from = match integration_slot(before.projects, shown.task_space.repository_id@) {
        Some(i) => before.projects[i],
        None => shown,
    };
    if folder_of(from.root@) is Some {
        assert(after.effects.drop_last() =~= before.effects);
        let n = before.projects.len() as int;
        assert forall|k: int|
            0 <= k < before.projects.len() && shown_branch(#[trigger] before.projects[k]) is Some implies after.effects.last()->CreateTaskWorktree_used@.contains(
        shown_branch(before.projects[k])->0) by {
            branches_hold(before.projects, n, shown_branch(before.projects[k])->0);
        }
    }
}

} // verus!
