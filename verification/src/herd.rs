//! The herd: the threads of every project, in groups.

use vstd::prelude::*;
use vstd::string::*;
use crate::fleet_rows::{branch_of, shown_branch};
use crate::text::{trim, trimmed};
use crate::workspace::{
    AgentStatus, Boards, Chrome, Docks, Effect, FleetLook, FocusTarget, Model, ProjectSlot, RenameSite,
    SpaceKind, Surface, TaskPhase, TaskRenaming, TaskSpace, ThreadActivity, Workspace,
};
use crate::git_controller::GitPanel;

verus! {

impl Chrome {
    pub open spec fn renaming_set(self, renaming: Option<TaskRenaming>) -> Chrome {
        Chrome { fleet: FleetLook { renaming, ..self.fleet }, ..self }
    }

    pub open spec fn herd_shown(self, shown: bool) -> Chrome {
        Chrome { docks: Docks { herd: shown, ..self.docks }, ..self }
    }
}

impl Model {
    /// The clock that keeps the times fresh is running.
    pub open spec fn clock_ensured(self) -> Model {
        if self.chrome.boards.fleet_clock {
            self
        } else {
            self.with_chrome(
                Chrome { boards: Boards { fleet_clock: true, ..self.chrome.boards }, ..self.chrome },
            ).then_do(Effect::StartFleetClock)
        }
    }

    /// The herd is shown in the place of the other boards of the left dock, or is not any more.
    pub open spec fn herd_toggled(self) -> Model {
        if self.chrome.docks.herd {
            self.with_chrome(self.chrome.herd_shown(false)).focus_editor()
        } else {
            (Model {
                chrome: Chrome {
                    docks: Docks { herd: true, left: true, ..self.chrome.docks },
                    boards: Boards { todo_open: false, ..self.chrome.boards },
                    ..self.chrome
                },
                git: GitPanel { open: false, ..self.git },
                ..self
            }).clock_ensured()
        }
    }

    /// The name of a task is being changed.
    pub open spec fn rename_started(self, index: int, site: RenameSite) -> Model {
        if index < self.projects.len() {
            self.then_do(Effect::EditTitle(self.projects[index].task_space.title)).with_chrome(
                self.chrome.renaming_set(Some(TaskRenaming { index: index as usize, site })),
            )
        } else {
            self
        }
    }
}

/// The slot with another name.
pub open spec fn renamed(before: ProjectSlot, after: ProjectSlot, name: Seq<char>) -> bool {
    &&& after == (ProjectSlot {
        name: after.name,
        task_space: TaskSpace { title: after.task_space.title, ..before.task_space },
        ..before
    })
    &&& after.name@ == name
    &&& after.task_space.title@ == name
}

/// What a group of the herd shows.
pub struct HerdGroup {
    pub project_index: usize,
    pub name: String,
    pub color: usize,
    pub branch: Option<String>,
    pub is_integration: bool,
    pub count: usize,
    /// Only its head is shown.
    pub collapsed: bool,
    /// A click on its head folds it.
    pub foldable: bool,
    /// Its name is being changed here.
    pub renaming: bool,
}

impl Model {
    /// The slot has a group: it has threads, and is no task that was put away.
    pub open spec fn herd_has(self, i: int) -> bool {
        &&& i < self.sessions.len()
        &&& self.sessions[i].statuses@.len() > 0
        &&& self.projects[i].task_space.integration() || self.projects[i].task_space.phase
            != TaskPhase::Archived
    }

    pub open spec fn herd_group(self, i: int) -> HerdGroup {
        let slot = self.projects[i];
        let solo = slot.task_space.integration();
        HerdGroup {
            project_index: i as usize,
            name: slot.name,
            color: slot.color,
            branch: shown_branch(slot),
            is_integration: solo,
            count: self.sessions[i].statuses@.len() as usize,
            collapsed: self.chrome.surface.fleet_mode && !self.chrome.boards.herd_solo_expanded && solo,
            foldable: self.chrome.surface.fleet_mode && solo,
            renaming: self.chrome.fleet.renaming == Some(
                TaskRenaming { index: i as usize, site: RenameSite::Herd },
            ),
        }
    }

    /// The groups of the first `n` slots.
    pub open spec fn herd_below(self, n: int) -> Seq<HerdGroup>
        decreases n,
    {
        if n <= 0 {
            Seq::empty()
        } else if self.herd_has(n - 1) {
            self.herd_below(n - 1).push(self.herd_group(n - 1))
        } else {
            self.herd_below(n - 1)
        }
    }
}

impl Workspace {
    /// Starts the clock that keeps the times fresh, unless it is running.
    pub fn ensure_fleet_clock(&mut self)
        ensures
            final(self)@ == old(self)@.clock_ensured(),
    {
        if self.chrome.boards.fleet_clock {
            return;
        }
        self.chrome.boards.fleet_clock = true;
        self.effect(Effect::StartFleetClock);
    }

    /// The clock ticked: tells whether it goes on. It stops by itself once neither the fleet nor the
    /// herd is shown.
    pub fn fleet_clock_ticked(&mut self) -> (goes_on: bool)
        ensures
            goes_on == (old(self)@.chrome.surface.fleet_mode || old(self)@.chrome.docks.herd),
            final(self)@ == if goes_on {
                old(self)@
            } else {
                old(self)@.with_chrome(
                    Chrome {
                        boards: Boards { fleet_clock: false, ..old(self)@.chrome.boards },
                        ..old(self)@.chrome
                    },
                )
            },
    {
        if self.chrome.surface.fleet_mode || self.chrome.docks.herd {
            true
        } else {
            self.chrome.boards.fleet_clock = false;
            false
        }
    }

    /// Shows the herd in the left dock, or hides it.
    pub fn toggle_herd_sidebar(&mut self)
        ensures
            final(self)@ == old(self)@.herd_toggled(),
    {
        if self.chrome.docks.herd {
            self.chrome.docks.herd = false;
            self.focus_active_editor();
        } else {
            self.chrome.docks.herd = true;
            self.chrome.docks.left = true;
            self.chrome.boards.todo_open = false;
            self.git.open = false;
            self.ensure_fleet_clock();
        }
    }

    /// Begins changing the name of a task.
    pub fn start_task_rename(&mut self, project_index: usize, site: RenameSite)
        ensures
            final(self)@ == old(self)@.rename_started(project_index as int, site),
    {
        if project_index >= self.projects.len() {
            return;
        }
        let title = self.projects[project_index].task_space.title.clone();
        self.effect(Effect::EditTitle(title));
        self.chrome.fleet.renaming = Some(TaskRenaming { index: project_index, site });
    }

    /// The name of the task was typed; one of white space changes nothing.
    pub fn confirm_task_rename(&mut self, text: &str)
        ensures
            ({
                let m = old(self)@;
                let after = final(self)@;
                match m.chrome.fleet.renaming {
                    None => after == m,
                    Some(renaming) => {
                        let ended = m.with_chrome(m.chrome.renaming_set(None));
                        if trim(text@).len() == 0 {
                            after == ended
                        } else {
                            &&& after == (Model { projects: after.projects, ..ended }).then_do(
                                Effect::PersistTaskSpace(renaming.index),
                            )
                            &&& if renaming.index < m.projects.len() {
                                renamed(
                                    m.projects[renaming.index as int],
                                    after.projects[renaming.index as int],
                                    trim(text@),
                                ) && after.projects == m.projects.update(
                                    renaming.index as int,
                                    after.projects[renaming.index as int],
                                )
                            } else {
                                after.projects == m.projects
                            }
                        }
                    },
                }
            }),
    {
        let Some(renaming) = self.chrome.fleet.renaming else {
            return;
        };
        self.chrome.fleet.renaming = None;
        let name = trimmed(text);
        if name.as_str().is_empty() {
            return;
        }
        let index: usize = renaming.index;
        if index < self.projects.len() {
            self.projects[index].task_space.title = name.clone();
            self.projects[index].name = name;
            assert(self@.projects =~= old(self)@.projects.update(index as int, self@.projects[index as int]));
        }
        self.effect(Effect::PersistTaskSpace(index));
    }

    /// The groups of the herd, in the order of the rail.
    pub fn herd_groups(&self) -> (groups: Vec<HerdGroup>)
        ensures
            groups@ == self@.herd_below(self@.projects.len() as int),
    {
        let mut groups: Vec<HerdGroup> = Vec::new();
        let mut i: usize = 0;
        while i < self.projects.len()
            invariant
                i <= self.projects@.len(),
                groups@ == self@.herd_below(i as int),
            decreases self.projects@.len() - i,
        {
            if i < self.sessions.len() && self.sessions[i].statuses.len() > 0 && (
            self.projects[i].task_space.is_integration() || self.projects[i].task_space.phase
                != TaskPhase::Archived) {
                let solo = self.projects[i].task_space.is_integration();
                let renaming = match self.chrome.fleet.renaming {
                    Some(renaming) => renaming.index == i && renaming.site == RenameSite::Herd,
                    None => false,
                };
                groups.push(
                    HerdGroup {
                        project_index: i,
                        name: self.projects[i].name.clone(),
                        color: self.projects[i].color,
                        branch: branch_of(&self.projects[i]),
                        is_integration: solo,
                        count: self.sessions[i].statuses.len(),
                        collapsed: self.chrome.surface.fleet_mode && !self.chrome.boards.herd_solo_expanded && solo,
                        foldable: self.chrome.surface.fleet_mode && solo,
                        renaming,
                    },
                );
            }
            i = i + 1;
        }
        groups
    }

    /// Folds the threads of the integration spaces, or unfolds them.
    pub fn toggle_herd_solo(&mut self)
        ensures
            final(self)@ == old(self)@.with_chrome(
                Chrome {
                    boards: Boards {
                        herd_solo_expanded: !old(self)@.chrome.boards.herd_solo_expanded,
                        ..old(self)@.chrome.boards
                    },
                    ..old(self)@.chrome
                },
            ),
    {
        self.chrome.boards.herd_solo_expanded = !self.chrome.boards.herd_solo_expanded;
    }

    /// A thread of the herd was clicked: the fleet shows it in a cell, otherwise its project is shown
    /// with the thread in the agent dock.
    pub fn herd_row_clicked(&mut self, project_index: usize, thread: usize)
        ensures
            final(self)@ == if old(self)@.chrome.surface.fleet_mode {
                old(self)@.agent_revealed(project_index as int, thread)
            } else {
                old(self)@.then_do(Effect::SwitchProject(project_index)).then_do(
                    Effect::FocusThread { session: project_index, thread },
                ).with_chrome(
                    Chrome {
                        docks: Docks { right: true, ..old(self)@.chrome.docks },
                        surface: Surface { agent_active: true, ..old(self)@.chrome.surface },
                        ..old(self)@.chrome
                    },
                )
            },
    {
        if self.chrome.surface.fleet_mode {
            self.reveal_agent_in_fleet(project_index, thread);
        } else {
            self.effect(Effect::SwitchProject(project_index));
            self.effect(Effect::FocusThread { session: project_index, thread });
            self.chrome.docks.right = true;
            self.chrome.surface.agent_active = true;
        }
    }
}

/// A thread as the herd lists it.
pub struct HerdThread {
    pub project_index: usize,
    pub thread_index: usize,
    pub name: String,
    pub agent: String,
    pub activity: ThreadActivity,
    pub color: usize,
    pub line: ThreadLine,
    /// `None` where none were used yet.
    pub tokens: Option<u32>,
    pub muted: bool,
}

pub open spec fn line_of(status: AgentStatus) -> ThreadLine {
    match (status.digest, status.last_input_at_ms) {
        (Some(text), _) => ThreadLine::Digest(text),
        (None, Some(at)) => ThreadLine::LastInput(at),
        (None, None) => ThreadLine::Started(status.created_at_ms),
    }
}

pub open spec fn herd_thread(project_index: usize, thread_index: usize, status: AgentStatus) -> HerdThread {
    HerdThread {
        project_index,
        thread_index,
        name: status.name,
        agent: status.agent,
        activity: status.activity,
        color: status.color,
        line: line_of(status),
        tokens: if status.tokens_used == 0 { None } else { Some(status.tokens_used) },
        muted: status.muted,
    }
}

/// The first `n` threads of a project.
pub open spec fn herd_threads_of(project_index: usize, statuses: Seq<AgentStatus>, n: int) -> Seq<HerdThread> {
    Seq::new(n as nat, |i: int| herd_thread(project_index, i as usize, statuses[i]))
}

impl Workspace {
    /// The threads of a group of the herd.
    pub fn herd_threads(&self, group: &HerdGroup) -> (threads: Vec<HerdThread>)
        requires
            group.project_index < self@.sessions.len(),
        ensures
            threads@ == if group.collapsed {
                Seq::empty()
            } else {
                let statuses = self@.sessions[group.project_index as int].statuses@;
                herd_threads_of(group.project_index, statuses, statuses.len() as int)
            },
    {
        let mut threads: Vec<HerdThread> = Vec::new();
        if group.collapsed {
            return threads;
        }
        let at: usize = group.project_index;
        let statuses = &self.sessions[at].statuses;
        let mut i: usize = 0;
        assert(threads@ =~= herd_threads_of(at, statuses@, 0));
        while i < statuses.len()
            invariant
                i <= statuses@.len(),
                threads@ == herd_threads_of(at, statuses@, i as int),
            decreases statuses@.len() - i,
        {
            let status = &statuses[i];
            let tokens: Option<u32> = if status.tokens_used == 0 {
                None
            } else {
                Some(status.tokens_used)
            };
            threads.push(
                HerdThread {
                    project_index: at,
                    thread_index: i,
                    name: status.name.clone(),
                    agent: status.agent.clone(),
                    activity: status.activity,
                    color: status.color,
                    line: thread_line(&status.digest, status.last_input_at_ms, status.created_at_ms),
                    tokens,
                    muted: status.muted,
                },
            );
            i = i + 1;
            assert(threads@ =~= herd_threads_of(at, statuses@, i as int));
        }
        threads
    }
}

/// What the second line of a thread says: what it does, or else when something happened to it.
pub enum ThreadLine {
    Digest(String),
    /// When the user last said something.
    LastInput(i64),
    /// When it was started.
    Started(i64),
}

/// What the second line of a thread says.
pub fn thread_line(digest: &Option<String>, last_input_at_ms: Option<i64>, created_at_ms: i64) -> (r: ThreadLine)
    ensures
        r == match (*digest, last_input_at_ms) {
            (Some(text), _) => ThreadLine::Digest(text),
            (None, Some(at)) => ThreadLine::LastInput(at),
            (None, None) => ThreadLine::Started(created_at_ms),
        },
{
    match (digest, last_input_at_ms) {
        (Some(text), _) => ThreadLine::Digest(text.clone()),
        (None, Some(at)) => ThreadLine::LastInput(at),
        (None, None) => ThreadLine::Started(created_at_ms),
    }
}

/// The herd and the panel of git are never open at the same time after the herd was shown.
pub proof fn the_herd_takes_the_place_of_git(m: Model)
    requires
        !m.chrome.docks.herd,
    ensures
        m.herd_toggled().chrome.docks.herd,
        m.herd_toggled().chrome.docks.left,
        !m.herd_toggled().git.open,
        !m.herd_toggled().chrome.boards.todo_open,
{
}

/// The clock is never started twice.
pub proof fn one_clock_is_enough(m: Model)
    ensures
        m.clock_ensured().clock_ensured() == m.clock_ensured(),
        m.clock_ensured().chrome.boards.fleet_clock,
{
}

proof fn herd_holds(m: Model, n: int)
    requires
        0 <= n <= m.projects.len() <= usize::MAX,
    ensures
        ({
            let groups = m.herd_below(n);
            &&& forall|i: int|
                0 <= i < groups.len() ==> (#[trigger] groups[i]).project_index < n && m.herd_has(
                    groups[i].project_index as int,
                ) && groups[i] == m.herd_group(groups[i].project_index as int)
            &&& forall|i: int, j: int|
                0 <= i < j < groups.len() ==> (#[trigger] groups[i]).project_index
                    < (#[trigger] groups[j]).project_index
        }),
        forall|p: int| 0 <= p < n && m.herd_has(p) ==> #[trigger] has_group(m.herd_below(n), p),
    decreases n,
{
    if n > 0 {
        herd_holds(m, n - 1);
        let before = m.herd_below(n - 1);
        let groups = m.herd_below(n);
        assert forall|p: int| 0 <= p < n && m.herd_has(p) implies #[trigger] has_group(groups, p) by {
            if p < n - 1 {
                assert(has_group(before, p));
                let i = choose|i: int| 0 <= i < before.len() && (#[trigger] before[i]).project_index == p;
                assert(groups[i].project_index == p);
            } else {
                assert(groups[before.len() as int].project_index == p);
            }
        }
    }
}

/// The herd has a group for the slot at `p`.
pub open spec fn has_group(groups: Seq<HerdGroup>, p: int) -> bool {
    exists|i: int| 0 <= i < groups.len() && (#[trigger] groups[i]).project_index == p
}

/// Every slot with threads has its group in the herd, in the order of the rail, unless it is a task that
/// was put away; no other slot has one.
pub proof fn every_slot_with_threads_has_a_group(m: Model, p: int)
    requires
        m.projects.len() <= usize::MAX,
        0 <= p < m.projects.len(),
        p < m.sessions.len(),
    ensures
        ({
            let groups = m.herd_below(m.projects.len() as int);
            let space = m.projects[p].task_space;
            &&& has_group(groups, p) <==> m.sessions[p].statuses@.len() > 0 && (space.kind == SpaceKind::Integration
                || space.phase != TaskPhase::Archived)
            &&& forall|i: int, j: int|
                0 <= i < j < groups.len() ==> (#[trigger] groups[i]).project_index
                    < (#[trigger] groups[j]).project_index
            &&& forall|i: int|
                0 <= i < groups.len() && (#[trigger] groups[i]).project_index == p ==> groups[i] == m.herd_group(p)
        }),
{
    let n = m.projects.len() as int;
    herd_holds(m, n);
    let groups = m.herd_below(n);
    if m.herd_has(p) {
        assert(has_group(groups, p));
    }
    if has_group(groups, p) {
        let i = choose|i: int| 0 <= i < groups.len() && (#[trigger] groups[i]).project_index == p;
        assert(m.herd_has(groups[i].project_index as int));
    }
}

/// A group tells of its own slot; only that of a place that tasks are merged into can be folded, only in
/// the fleet, and it is while it was not unfolded.
pub proof fn a_group_tells_of_its_slot(m: Model, p: int)
    requires
        0 <= p < m.projects.len() <= usize::MAX,
        p < m.sessions.len(),
        m.sessions[p].statuses@.len() <= usize::MAX,
    ensures
        ({
            let group = m.herd_group(p);
            let slot = m.projects[p];
            &&& group.project_index == p && group.name == slot.name && group.color == slot.color
            &&& group.branch == shown_branch(slot)
            &&& group.count == m.sessions[p].statuses@.len()
            &&& (group.is_integration <==> slot.task_space.kind == SpaceKind::Integration)
            &&& group.collapsed ==> group.foldable
            &&& (group.foldable <==> group.is_integration && m.chrome.surface.fleet_mode)
            &&& group.foldable ==> group.collapsed == !m.chrome.boards.herd_solo_expanded
            &&& group.renaming ==> m.chrome.fleet.renaming is Some && m.chrome.fleet.renaming->0.index == p
                && m.chrome.fleet.renaming->0.site == RenameSite::Herd
        }),
{
}

/// What a thread does goes before when the user last said something, and that before when it started.
pub proof fn what_a_thread_does_goes_first(status: AgentStatus)
    ensures
        status.digest matches Some(text) ==> line_of(status) == ThreadLine::Digest(text),
        status.digest is None && status.last_input_at_ms is Some ==> line_of(status) == ThreadLine::LastInput(
            status.last_input_at_ms->0,
        ),
        status.digest is None && status.last_input_at_ms is None ==> line_of(status) == ThreadLine::Started(
            status.created_at_ms,
        ),
{
}

/// The threads of a project are listed in their order, each with what it says of itself.
pub proof fn threads_are_listed_in_order(project_index: usize, statuses: Seq<AgentStatus>, k: int)
    requires
        0 <= k < statuses.len() <= usize::MAX,
    ensures
        ({
            let threads = herd_threads_of(project_index, statuses, statuses.len() as int);
            let thread = threads[k];
            &&& threads.len() == statuses.len()
            &&& thread.project_index == project_index && thread.thread_index == k
            &&& thread.name == statuses[k].name && thread.agent == statuses[k].agent
            &&& thread.activity == statuses[k].activity && thread.color == statuses[k].color
            &&& thread.muted == statuses[k].muted && thread.line == line_of(statuses[k])
            &&& (thread.tokens is None <==> statuses[k].tokens_used == 0)
            &&& thread.tokens matches Some(tokens) ==> tokens == statuses[k].tokens_used
        }),
{
}

/// A task that gets another name keeps everything else; the name is that of its slot and its title.
pub proof fn renaming_changes_names_alone(before: ProjectSlot, after: ProjectSlot, name: Seq<char>)
    requires
        renamed(before, after, name),
    ensures
        after.name@ == name,
        after.task_space.title@ == name,
        after.root == before.root,
        after.host_id == before.host_id,
        after.task_space.id == before.task_space.id,
        after.task_space.repository_id == before.task_space.repository_id,
        after.task_space.phase == before.task_space.phase,
        after.branch == before.branch,
{
}

/// Changing the name of a task begins with the title that it has, at the place that was asked for.
pub proof fn renaming_begins_with_the_title(m: Model, index: int, site: RenameSite)
    requires
        0 <= index < m.projects.len() <= usize::MAX,
    ensures
        ({
            let after = m.rename_started(index, site);
            &&& after.effects == m.effects.push(Effect::EditTitle(m.projects[index].task_space.title))
            &&& after.chrome.fleet.renaming == Some(TaskRenaming { index: index as usize, site })
            &&& after.projects == m.projects
            &&& after.chrome.docks == m.chrome.docks && after.chrome.surface == m.chrome.surface
        }),
{
}

/// Hiding the herd gives the focus to the active editor and leaves the dock where it is; shown and hidden
/// again, it is hidden.
pub proof fn the_herd_comes_and_goes(m: Model)
    ensures
        m.herd_toggled().chrome.docks.herd == !m.chrome.docks.herd,
        m.chrome.docks.herd ==> m.herd_toggled().chrome.docks.left == m.chrome.docks.left && m.herd_toggled().git
            == m.git,
        m.chrome.docks.herd && m.active_tab < m.tabs.len() && m.tabs[m.active_tab as int].has_editor
            ==> m.herd_toggled().effects == m.effects.push(
            Effect::Focus(FocusTarget::Tab(m.tabs[m.active_tab as int].id)),
        ),
        !m.chrome.docks.herd ==> m.herd_toggled().chrome.boards.fleet_clock,
        !m.chrome.docks.herd && !m.chrome.boards.fleet_clock ==> m.herd_toggled().effects == m.effects.push(
            Effect::StartFleetClock,
        ),
        !m.chrome.docks.herd && m.chrome.boards.fleet_clock ==> m.herd_toggled().effects == m.effects,
{
}

} // verus!
