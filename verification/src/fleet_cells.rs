//! The grid of the fleet: what each cell shows, and how the grid is laid out.

use vstd::prelude::*;
use vstd::string::*;
use crate::fleet_rows::{branch_of, lead, lead_of, shown_branch};
use crate::fleet_view::FLEET_CELLS;
use crate::text::{decimal, decimal_text};
use crate::workspace::{
    AgentStatus, Chrome, Effect, FleetCenterView, FleetPane, Surface, TaskPhase, ThreadActivity,
    Workspace,
};

verus! {

/// How many columns so many cells stand in.
pub open spec fn columns_for(total: int) -> int {
    if total <= 1 {
        1
    } else if total <= 4 {
        2
    } else if total <= 6 {
        3
    } else {
        4
    }
}

/// How the grid is laid out.
#[derive(Clone, Copy, PartialEq, Eq, Structural, Debug)]
pub struct GridLayout {
    pub columns: usize,
    /// The button for another task takes the place of a cell.
    pub add_as_cell: bool,
    /// The button for another task stands below the cells.
    pub add_bar: bool,
    /// How many cells there is room for.
    pub free: usize,
}

/// How the grid is laid out for so many cells: the button for another task takes the place of a
/// cell only in an empty grid, and is gone from a full one.
pub fn grid_layout(cells: usize) -> (r: GridLayout)
    ensures
        r.add_as_cell == (cells == 0),
        r.add_bar == (0 < cells < FLEET_CELLS),
        r.free == if cells < FLEET_CELLS { FLEET_CELLS - cells } else { 0 },
        r.columns == columns_for(if cells == 0 { 1 } else { cells as int }),
{
    let add_as_cell = cells == 0;
    let total: usize = if cells == 0 {
        1
    } else {
        cells
    };
    let columns: usize = if total <= 1 {
        1
    } else if total <= 4 {
        2
    } else if total <= 6 {
        3
    } else {
        4
    };
    let free: usize = if cells < FLEET_CELLS {
        FLEET_CELLS - cells
    } else {
        0
    };
    GridLayout { columns, add_as_cell, add_bar: 0 < cells && cells < FLEET_CELLS, free }
}

/// What the bar for another task says of the room that is left.
pub fn free_label(free: usize) -> (r: String)
    ensures
        r@ == decimal(free as nat) + "/8"@,
{
    let mut out = decimal_text(free as u64);
    out.append("/8");
    out
}

impl FleetPane {
    pub open spec fn surface_name(self) -> Seq<char> {
        match self {
            FleetPane::Task { .. } => "Agent"@,
            FleetPane::Terminal { .. } => "Terminal"@,
            FleetPane::Editor { .. } => "Editor"@,
            FleetPane::Diff { .. } => "Diff"@,
            FleetPane::Tests { .. } => "Tests"@,
        }
    }

    /// What the pane shows of its task.
    pub fn surface(&self) -> (r: &'static str)
        ensures
            r@ == self.surface_name(),
    {
        match self {
            FleetPane::Task { .. } => "Agent",
            FleetPane::Terminal { .. } => "Terminal",
            FleetPane::Editor { .. } => "Editor",
            FleetPane::Diff { .. } => "Diff",
            FleetPane::Tests { .. } => "Tests",
        }
    }
}

/// What the button of a cell does.
#[derive(Clone, Copy, PartialEq, Eq, Structural, Debug)]
pub enum CellAction {
    Nothing,
    /// Try out whether the task can be merged.
    Review,
    /// Merge it.
    Integrate,
}

/// What a task does at the moment.
pub struct Snapshot {
    pub digest: String,
    pub plan_done: u32,
    pub plan_total: u32,
}

/// What a cell shows.
pub struct CellView {
    /// Where its task stands on the rail; `None` where it was closed.
    pub session: Option<usize>,
    /// The name of the task and of the surface.
    pub title: String,
    pub branch: Option<String>,
    /// `None` where the task was closed.
    pub phase: Option<TaskPhase>,
    pub action: CellAction,
    pub snapshot: Option<Snapshot>,
}

/// The button that a pane has in this phase of its task.
pub open spec fn action_of(pane: FleetPane, phase: Option<TaskPhase>) -> CellAction {
    if !(pane is Task) {
        CellAction::Nothing
    } else if phase == Some(TaskPhase::ReviewReady) || phase == Some(TaskPhase::ChangesRequested) {
        CellAction::Review
    } else if phase == Some(TaskPhase::MergeReady) {
        CellAction::Integrate
    } else {
        CellAction::Nothing
    }
}

/// What the thread that calls most for a look says of itself.
pub open spec fn snapshot_of(statuses: Seq<AgentStatus>) -> Option<Snapshot> {
    match lead(statuses) {
        Some(i) => match statuses[i].digest {
            Some(digest) => Some(
                Snapshot {
                    digest,
                    plan_done: statuses[i].plan_done,
                    plan_total: statuses[i].plan_total,
                },
            ),
            None => None,
        },
        None => None,
    }
}

/// The title of a cell.
pub open spec fn cell_title(name: Seq<char>, surface: Seq<char>) -> Seq<char> {
    name + " · "@ + surface
}

fn snapshot_from(statuses: &Vec<AgentStatus>) -> (r: Option<Snapshot>)
    ensures
        r == snapshot_of(statuses@),
{
    match lead_of(statuses) {
        Some(i) => match &statuses[i].digest {
            Some(digest) => Some(
                Snapshot {
                    digest: digest.clone(),
                    plan_done: statuses[i].plan_done,
                    plan_total: statuses[i].plan_total,
                },
            ),
            None => None,
        },
        None => None,
    }
}

fn titled(name: &str, surface: &str) -> (r: String)
    ensures
        r@ == cell_title(name@, surface@),
{
    let mut out = name.to_owned();
    out.append(" · ");
    out.append(surface);
    out
}

/// What the center of the fleet shows.
#[derive(Clone, Copy, PartialEq, Eq, Structural, Debug)]
pub enum FleetCenter {
    /// One cell alone, with the others small above it.
    Alone(usize),
    Control,
    /// The lineage graph above the grid.
    Graph,
}

/// A cell in the row of small ones.
pub struct Thumbnail {
    pub name: String,
    pub sub: String,
    /// What the task does; `None` without a thread.
    pub activity: Option<ThreadActivity>,
    pub active: bool,
}

impl Workspace {
    /// What the center of the fleet shows.
    pub fn fleet_center(&self) -> (r: FleetCenter)
        ensures
            r == match self@.chrome.fleet.maximized {
                Some(i) => if i < self@.fleet_cells.len() {
                    FleetCenter::Alone(i)
                } else if self@.chrome.fleet.center_view == FleetCenterView::Control {
                    FleetCenter::Control
                } else {
                    FleetCenter::Graph
                },
                None => if self@.chrome.fleet.center_view == FleetCenterView::Control {
                    FleetCenter::Control
                } else {
                    FleetCenter::Graph
                },
            },
    {
        if let Some(i) = self.chrome.fleet.maximized {
            if i < self.fleet_cells.len() {
                return FleetCenter::Alone(i);
            }
        }
        match self.chrome.fleet.center_view {
            FleetCenterView::Control => FleetCenter::Control,
            FleetCenterView::Graph => FleetCenter::Graph,
        }
    }

    /// What a cell shows. The agents of a task tell what they do, where there is something to tell.
    pub fn fleet_cell(&self, index: usize) -> (view: CellView)
        requires
            index < self@.fleet_cells.len(),
        ensures
            ({
                let m = self@;
                let pane = m.fleet_cells[index as int];
                let at = m.space_index(pane.spec_space()@);
                &&& (view.session is Some == at is Some)
                &&& view.action == action_of(pane, view.phase)
                &&& match at {
                    Some(i) => {
                        &&& view.session == Some(i as usize)
                        &&& view.title@ == cell_title(m.projects[i].task_space.title@, pane.surface_name())
                        &&& view.branch == shown_branch(m.projects[i])
                        &&& view.phase == Some(m.projects[i].task_space.phase)
                        &&& view.snapshot == if pane is Task && i < m.sessions.len() {
                            snapshot_of(m.sessions[i].statuses@)
                        } else {
                            None
                        }
                    },
                    None => {
                        &&& view.title@ == cell_title("Closed Task"@, pane.surface_name())
                        &&& view.branch is None
                        &&& view.phase is None
                        &&& view.snapshot is None
                    },
                }
            }),
    {
        let pane = &self.fleet_cells[index];
        let surface = pane.surface();
        let is_task = match pane {
            FleetPane::Task { .. } => true,
            _ => false,
        };
        match self.session_index_for_space(pane.space()) {
            Some(i) => {
                let phase = self.projects[i].task_space.phase;
                let action = if !is_task {
                    CellAction::Nothing
                } else if phase == TaskPhase::ReviewReady || phase == TaskPhase::ChangesRequested {
                    CellAction::Review
                } else if phase == TaskPhase::MergeReady {
                    CellAction::Integrate
                } else {
                    CellAction::Nothing
                };
                let snapshot = if is_task && i < self.sessions.len() {
                    snapshot_from(&self.sessions[i].statuses)
                } else {
                    None
                };
                CellView {
                    session: Some(i),
                    title: titled(self.projects[i].task_space.title.as_str(), surface),
                    branch: branch_of(&self.projects[i]),
                    phase: Some(phase),
                    action,
                    snapshot,
                }
            },
            None => CellView {
                session: None,
                title: titled("Closed Task", surface),
                branch: None,
                phase: None,
                action: CellAction::Nothing,
                snapshot: None,
            },
        }
    }

    /// What a cell shows in the row of small ones, while `alone` is shown alone.
    pub fn fleet_thumbnail(&self, index: usize, alone: usize) -> (view: Thumbnail)
        requires
            index < self@.fleet_cells.len(),
        ensures
            ({
                let m = self@;
                let pane = m.fleet_cells[index as int];
                &&& view.active == (index == alone)
                &&& match m.space_index(pane.spec_space()@) {
                    Some(i) => {
                        &&& view.name@ == cell_title(m.projects[i].task_space.title@, pane.surface_name())
                        &&& view.sub@ == match shown_branch(m.projects[i]) {
                            Some(branch) => "⎇ "@ + branch@,
                            None => pane.surface_name(),
                        }
                        &&& view.activity == if i < m.sessions.len() {
                            match lead(m.sessions[i].statuses@) {
                                Some(k) => Some(m.sessions[i].statuses@[k].activity),
                                None => None,
                            }
                        } else {
                            None
                        }
                    },
                    None => {
                        &&& view.name@ == pane.surface_name()
                        &&& view.sub@ == pane.surface_name()
                        &&& view.activity is None
                    },
                }
            }),
    {
        let pane = &self.fleet_cells[index];
        let surface = pane.surface();
        match self.session_index_for_space(pane.space()) {
            Some(i) => {
                let sub = match branch_of(&self.projects[i]) {
                    Some(branch) => {
                        let mut out = "⎇ ".to_owned();
                        out.append(branch.as_str());
                        out
                    },
                    None => surface.to_owned(),
                };
                let activity = if i < self.sessions.len() {
                    match lead_of(&self.sessions[i].statuses) {
                        Some(k) => Some(self.sessions[i].statuses[k].activity),
                        None => None,
                    }
                } else {
                    None
                };
                Thumbnail {
                    name: titled(self.projects[i].task_space.title.as_str(), surface),
                    sub,
                    activity,
                    active: index == alone,
                }
            },
            None => Thumbnail {
                name: surface.to_owned(),
                sub: surface.to_owned(),
                activity: None,
                active: index == alone,
            },
        }
    }

    /// A cell was clicked: its project is shown, and shortcuts go to its threads if it shows them.
    pub fn fleet_cell_clicked(&mut self, index: usize)
        ensures
            final(self)@ == if index < old(self)@.fleet_cells.len() {
                let pane = old(self)@.fleet_cells[index as int];
                match old(self)@.space_index(pane.spec_space()@) {
                    Some(i) => old(self)@.then_do(Effect::SwitchProject(i as usize)).with_chrome(
                        Chrome {
                            surface: Surface { agent_active: pane is Task, ..old(self)@.chrome.surface },
                            ..old(self)@.chrome
                        },
                    ),
                    None => old(self)@,
                }
            } else {
                old(self)@
            },
    {
        if index >= self.fleet_cells.len() {
            return;
        }
        let is_task = match &self.fleet_cells[index] {
            FleetPane::Task { .. } => true,
            _ => false,
        };
        if let Some(i) = self.session_index_for_space(self.fleet_cells[index].space()) {
            self.effect(Effect::SwitchProject(i));
            self.chrome.surface.agent_active = is_task;
        }
    }

    /// The button of a cell was pressed.
    pub fn fleet_cell_action(&mut self, index: usize, action: CellAction)
        ensures
            final(self)@ == if index < old(self)@.fleet_cells.len() {
                let space = old(self)@.fleet_cells[index as int].spec_space()@;
                match action {
                    CellAction::Nothing => old(self)@,
                    CellAction::Review => old(self)@.review_begun(space),
                    CellAction::Integrate => old(self)@.integration_begun(space),
                }
            } else {
                old(self)@
            },
    {
        if index >= self.fleet_cells.len() {
            return;
        }
        let space = self.fleet_cells[index].space().clone();
        match action {
            CellAction::Nothing => {},
            CellAction::Review => self.review_task_for_merge(&space),
            CellAction::Integrate => self.integrate_task(&space),
        }
    }

    /// A cell is shown alone, or the whole grid again.
    pub fn toggle_fleet_cell(&mut self, index: usize, alone: bool)
        ensures
            final(self)@ == old(self)@.with_chrome(
                old(self)@.chrome.maximized_set(if alone { None } else { Some(index) }),
            ),
    {
        if alone {
            self.restore_fleet_layout();
        } else {
            self.maximize_fleet_cell(index);
        }
    }
}

/// How many of the news are listed.
pub const NEWS_LISTED: usize = 30;

/// How many of so many news are listed.
pub fn news_listed(count: usize) -> (n: usize)
    ensures
        n == if count < NEWS_LISTED { count } else { NEWS_LISTED },
{
    if count < NEWS_LISTED {
        count
    } else {
        NEWS_LISTED
    }
}

/// There is room for every cell: the columns of so many rows hold them all, and no row is empty.
pub proof fn the_grid_holds_every_cell(cells: int)
    requires
        0 < cells <= FLEET_CELLS,
    ensures
        columns_for(cells) >= 1,
        2 * columns_for(cells) >= cells,
{
}

/// More cells never stand in fewer columns; two rows take them all, and of three cells or more a column
/// less would not.
pub proof fn the_grid_is_two_rows_high(cells: int, more: int)
    requires
        0 <= cells <= more <= FLEET_CELLS,
    ensures
        columns_for(cells) <= columns_for(more),
        cells <= 1 ==> columns_for(cells) == 1,
        cells == 2 ==> columns_for(cells) == 2,
        cells >= 3 ==> 2 * columns_for(cells) >= cells && 2 * (columns_for(cells) - 1) < cells,
{
}

/// Only the pane of a task has a button: for trying out a merge where the task is ready for a look or
/// was sent back, for merging where trying it out went well.
pub proof fn buttons_go_by_the_phase(pane: FleetPane, phase: Option<TaskPhase>)
    ensures
        action_of(pane, phase) != CellAction::Nothing ==> pane is Task && phase is Some,
        action_of(pane, phase) == CellAction::Integrate <==> pane is Task && phase == Some(TaskPhase::MergeReady),
        action_of(pane, phase) == CellAction::Review <==> pane is Task && (phase == Some(TaskPhase::ReviewReady)
            || phase == Some(TaskPhase::ChangesRequested)),
{
}

/// What a cell tells is what one of the threads of its task says, one that calls most for a look; nothing
/// without a thread.
pub proof fn a_cell_tells_of_the_most_urgent_thread(statuses: Seq<AgentStatus>)
    ensures
        statuses.len() == 0 ==> snapshot_of(statuses) is None,
        snapshot_of(statuses) matches Some(told) ==> exists|i: int|
            0 <= i < statuses.len() && (#[trigger] statuses[i]).digest == Some(told.digest) && told.plan_done
                == statuses[i].plan_done && told.plan_total == statuses[i].plan_total && forall|k: int|
                0 <= k < statuses.len() ==> (#[trigger] statuses[k]).activity.urgency()
                    <= statuses[i].activity.urgency(),
        statuses.len() > 0 && (forall|k: int| 0 <= k < statuses.len() ==> (#[trigger] statuses[k]).digest is Some)
            ==> snapshot_of(statuses) is Some,
{
    crate::fleet_rows::lead_is_most_urgent(statuses);
    if let Some(i) = lead(statuses) {
        assert(0 <= i < statuses.len());
        if snapshot_of(statuses) is Some {
            assert(statuses[i].digest == Some(snapshot_of(statuses)->0.digest));
        }
    }
}

/// Panes of different surfaces have different names, whatever their tasks.
pub proof fn surfaces_have_their_own_names(a: FleetPane, b: FleetPane)
    ensures
        a.surface_name() == b.surface_name() <==> {
            ||| a is Task && b is Task
            ||| a is Terminal && b is Terminal
            ||| a is Editor && b is Editor
            ||| a is Diff && b is Diff
            ||| a is Tests && b is Tests
        },
{
    reveal_strlit("Agent");
    reveal_strlit("Terminal");
    reveal_strlit("Editor");
    reveal_strlit("Diff");
    reveal_strlit("Tests");
    let names = seq!["Agent"@, "Terminal"@, "Editor"@, "Diff"@, "Tests"@];
    assert(names[0][0] == 'A' && names[1].len() == 8 && names[2].len() == 6 && names[3].len() == 4);
    assert(names[0].len() == 5 && names[4].len() == 5 && names[4][0] == 'T');
}

/// The title of a cell begins with the name of the task and ends with that of the surface.
pub proof fn titles_name_task_and_surface(name: Seq<char>, surface: Seq<char>)
    ensures
        name.is_prefix_of(cell_title(name, surface)),
        surface.is_suffix_of(cell_title(name, surface)),
        cell_title(name, surface).len() == name.len() + surface.len() + 3,
{
    reveal_strlit(" · ");
    let title = cell_title(name, surface);
    assert(title.take(name.len() as int) =~= name);
    assert(title.skip(title.len() - surface.len()) =~= surface);
}

} // verus!
