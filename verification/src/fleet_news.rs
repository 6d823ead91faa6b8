//! The news of the fleet, the bar of its captain, and the tabs of a task on the stage.

use vstd::prelude::*;
use vstd::string::*;
use crate::fleet_sidebar::ExternalRow;
use crate::paths::{file_name, name_of};
use crate::seqs::{copy_maybe, first_index, first_index_holds, first_index_is, first_index_none};
use crate::workspace::{
    AgentStatus, Chrome, Effect, FleetPane, Model, ProjectSession, Surface, Workspace,
};

verus! {

#[derive(Clone, Copy, PartialEq, Eq, Structural, Debug)]
pub enum NewsKind {
    Agent,
    Task,
    Coordinator,
    Captain,
}

/// Something that happened in the fleet.
pub struct NewsItem {
    pub kind: NewsKind,
    pub title: String,
    pub text: String,
    pub at_ms: i64,
    pub color: usize,
}

/// Whether the mark of an item is round: that of the coordinator is, others have corners.
pub fn round_mark(kind: NewsKind) -> (b: bool)
    ensures
        b == (kind == NewsKind::Coordinator),
{
    kind == NewsKind::Coordinator
}

/// The item is about the captain.
pub open spec fn of_captain() -> spec_fn(NewsItem) -> bool {
    |item: NewsItem| item.kind == NewsKind::Captain
}

/// What the bar of the captain shows.
pub struct CaptainBar {
    /// The agent that is the captain; `None` where nobody was appointed.
    pub agent: Option<String>,
    /// What the captain last decided.
    pub last: Option<String>,
}

/// What the bar of the captain shows: without a captain nothing that one has decided.
pub fn captain_bar(agent: &Option<String>, news: &Vec<NewsItem>) -> (bar: CaptainBar)
    ensures
        bar.agent == *agent,
        bar.last == if agent is None {
            None::<String>
        } else {
            match first_index(news@, of_captain()) {
                Some(i) => Some(news@[i].text),
                None => None,
            }
        },
{
    let last = if agent.is_none() {
        None
    } else {
        captain_news(news)
    };
    CaptainBar { agent: copy_maybe(agent), last }
}

fn captain_news(news: &Vec<NewsItem>) -> (r: Option<String>)
    ensures
        r == match first_index(news@, of_captain()) {
            Some(i) => Some(news@[i].text),
            None => None,
        },
{
    let ghost wanted = of_captain();
    let mut i: usize = 0;
    while i < news.len()
        invariant
            i <= news@.len(),
            wanted == of_captain(),
            forall|j: int| 0 <= j < i ==> !wanted(#[trigger] news@[j]),
        decreases news@.len() - i,
    {
        if news[i].kind == NewsKind::Captain {
            proof {
                first_index_is(news@, wanted, i as int);
            }
            return Some(news[i].text.clone());
        }
        i = i + 1;
    }
    proof {
        first_index_none(news@, wanted);
    }
    None
}

/// The name of a worktree that is no task: that of its folder, or its whole path without one.
pub fn external_name(row: &ExternalRow) -> (r: String)
    ensures
        r@ == match name_of(row.path@) {
            Some(name) => name,
            None => row.path@,
        },
{
    match file_name(row.path.as_str()) {
        Some(name) => name,
        None => row.path.clone(),
    }
}

/// What is said of a worktree that is no task: its branch.
pub fn external_detail(row: &ExternalRow) -> (r: String)
    ensures
        r@ == match row.branch {
            Some(branch) => "⎇ "@ + branch@,
            None => "(detached)"@,
        },
{
    match &row.branch {
        Some(branch) => {
            let mut out = "⎇ ".to_owned();
            out.append(branch.as_str());
            out
        },
        None => "(detached)".to_owned(),
    }
}

/// A tab of a task on the stage.
#[derive(Clone, Copy, PartialEq, Eq, Structural, Debug)]
pub enum TaskTab {
    /// A thread of a panel.
    Thread { panel: u64, thread: usize },
    Diff,
    /// The terminal in this cell.
    Terminal(usize),
    Files,
}

/// The tabs of the terminals of a task among the first `n` cells.
pub open spec fn terminal_tabs(cells: Seq<FleetPane>, space: Seq<char>, n: int) -> Seq<TaskTab>
    decreases n,
{
    if n <= 0 {
        Seq::empty()
    } else if cells[n - 1] is Terminal && cells[n - 1].spec_space()@ == space {
        terminal_tabs(cells, space, n - 1).push(TaskTab::Terminal((n - 1) as usize))
    } else {
        terminal_tabs(cells, space, n - 1)
    }
}

/// The tabs of threads.
pub open spec fn thread_tabs(statuses: Seq<AgentStatus>) -> Seq<TaskTab> {
    statuses.map_values(|status: AgentStatus| TaskTab::Thread { panel: status.panel, thread: status.thread })
}

/// The tab that is shown of a task.
pub struct StageTab {
    pub space: String,
    pub tab: TaskTab,
}

pub open spec fn tab_of(space: Seq<char>) -> spec_fn(StageTab) -> bool {
    |shown: StageTab| shown.space@ == space
}

impl TaskTab {
    /// The tabs show the same surface of a task: the threads of a panel are one surface, and each of its
    /// terminals is one.
    pub open spec fn same_surface(self, other: TaskTab) -> bool {
        match self {
            TaskTab::Thread { panel, .. } => other matches TaskTab::Thread { panel: shown, .. } && shown == panel,
            TaskTab::Diff => other is Diff,
            TaskTab::Terminal(cell) => other == TaskTab::Terminal(cell),
            TaskTab::Files => other is Files,
        }
    }
}

impl Model {
    /// The tab that is shown of a task; `None` where none was chosen.
    pub open spec fn stage_tab(self, space: Seq<char>) -> Option<TaskTab> {
        match first_index(self.stage_tabs, tab_of(space)) {
            Some(i) => Some(self.stage_tabs[i].tab),
            None => None,
        }
    }

    /// Another panel of a project is in front.
    pub open spec fn panel_in_front(self, session: int, panel: u64) -> Model {
        Model {
            sessions: self.sessions.update(session, ProjectSession { panel, ..self.sessions[session] }),
            ..self
        }
    }

    /// Another tab of a task is shown.
    pub open spec fn stage_tab_chosen(self, space: String, tab: TaskTab) -> Model {
        let stage_tabs = match first_index(self.stage_tabs, tab_of(space@)) {
            Some(i) => self.stage_tabs.update(i, StageTab { space, tab }),
            None => self.stage_tabs.push(StageTab { space, tab }),
        };
        Model { stage_tabs, ..self }
    }
}

impl Workspace {
    /// The tabs of a task on the stage: its threads, its changes, its terminals and its files.
    pub fn task_tabs(&self, session: usize) -> (tabs: Vec<TaskTab>)
        requires
            session < self@.sessions.len(),
            session < self@.projects.len(),
        ensures
            tabs@ == thread_tabs(self@.sessions[session as int].all_statuses@).push(TaskTab::Diff)
                + terminal_tabs(
                self@.fleet_cells,
                self@.projects[session as int].task_space.id@,
                self@.fleet_cells.len() as int,
            ).push(TaskTab::Files),
    {
        let mut tabs: Vec<TaskTab> = Vec::new();
        let statuses = &self.sessions[session].all_statuses;
        let mut i: usize = 0;
        assert(tabs@ =~= thread_tabs(statuses@.take(0)));
        while i < statuses.len()
            invariant
                i <= statuses@.len(),
                tabs@ == thread_tabs(statuses@.take(i as int)),
            decreases statuses@.len() - i,
        {
            tabs.push(TaskTab::Thread { panel: statuses[i].panel, thread: statuses[i].thread });
            assert(statuses@.take(i + 1) =~= statuses@.take(i as int).push(statuses@[i as int]));
            i = i + 1;
            assert(tabs@ =~= thread_tabs(statuses@.take(i as int)));
        }
        assert(statuses@.take(statuses@.len() as int) =~= statuses@);
        tabs.push(TaskTab::Diff);
        let ghost first = tabs@;
        let ghost space = self@.projects[session as int].task_space.id@;
        let mut k: usize = 0;
        assert(tabs@ =~= first + terminal_tabs(self@.fleet_cells, space, 0));
        while k < self.fleet_cells.len()
            invariant
                k <= self.fleet_cells@.len(),
                session < self.projects@.len(),
                space == self@.projects[session as int].task_space.id@,
                tabs@ == first + terminal_tabs(self@.fleet_cells, space, k as int),
            decreases self.fleet_cells@.len() - k,
        {
            if let FleetPane::Terminal { space: owner } = &self.fleet_cells[k] {
                if *owner == self.projects[session].task_space.id {
                    tabs.push(TaskTab::Terminal(k));
                }
            }
            k = k + 1;
            assert(tabs@ =~= first + terminal_tabs(self@.fleet_cells, space, k as int));
        }
        tabs.push(TaskTab::Files);
        assert(tabs@ =~= first + terminal_tabs(self@.fleet_cells, space, self@.fleet_cells.len() as int).push(
            TaskTab::Files,
        ));
        tabs
    }

    fn stage_tab_index(&self, space: &String) -> (r: Option<usize>)
        ensures
            match r {
                Some(i) => i < self@.stage_tabs.len() && first_index(self@.stage_tabs, tab_of(space@)) == Some(
                    i as int,
                ),
                None => first_index(self@.stage_tabs, tab_of(space@)) == None::<int>,
            },
    {
        let ghost wanted = tab_of(space@);
        let mut i: usize = 0;
        while i < self.stage_tabs.len()
            invariant
                i <= self.stage_tabs@.len(),
                wanted == tab_of(space@),
                forall|j: int| 0 <= j < i ==> !wanted(#[trigger] self.stage_tabs@[j]),
            decreases self.stage_tabs@.len() - i,
        {
            if self.stage_tabs[i].space == *space {
                proof {
                    first_index_is(self.stage_tabs@, wanted, i as int);
                }
                return Some(i);
            }
            i = i + 1;
        }
        proof {
            first_index_none(self.stage_tabs@, wanted);
        }
        None
    }

    /// Whether a tab is the one that is shown of its task; `in_front` is the thread that is in front in
    /// the panel of the tab.
    pub fn task_tab_selected(&self, space: &String, tab: TaskTab, in_front: usize) -> (b: bool)
        ensures
            b == match self@.stage_tab(space@) {
                Some(current) => tab.same_surface(current) && (tab matches TaskTab::Thread {
                    thread,
                    ..
                } ==> thread == in_front),
                None => false,
            },
    {
        let Some(i) = self.stage_tab_index(space) else {
            return false;
        };
        match (tab, self.stage_tabs[i].tab) {
            (TaskTab::Thread { panel: wanted, thread }, TaskTab::Thread { panel, .. }) => wanted == panel && thread
                == in_front,
            (TaskTab::Diff, TaskTab::Diff) => true,
            (TaskTab::Terminal(wanted), TaskTab::Terminal(cell)) => wanted == cell,
            (TaskTab::Files, TaskTab::Files) => true,
            _ => false,
        }
    }

    /// A tab of a task was clicked: its project is shown, with what the tab stands for. The panel of a
    /// thread comes to the front.
    pub fn task_tab_clicked(&mut self, session: usize, tab: TaskTab)
        requires
            session < old(self)@.projects.len(),
            session < old(self)@.sessions.len(),
        ensures
            ({
                let m = old(self)@.then_do(Effect::SwitchProject(session));
                let shown = match tab {
                    TaskTab::Thread { panel, thread } => m.panel_in_front(session as int, panel).then_do(
                        Effect::FocusThreadOf { panel, thread },
                    ),
                    TaskTab::Diff => m.then_do(Effect::RefreshGitStatusOf(session)),
                    _ => m,
                };
                final(self)@ == shown.stage_tab_chosen(old(self)@.projects[session as int].task_space.id, tab)
            }),
    {
        self.effect(Effect::SwitchProject(session));
        match tab {
            TaskTab::Thread { panel, thread } => {
                let ghost before = self@;
                self.sessions[session].panel = panel;
                assert(self@.sessions =~= before.panel_in_front(session as int, panel).sessions);
                self.effect(Effect::FocusThreadOf { panel, thread });
            },
            TaskTab::Diff => self.effect(Effect::RefreshGitStatusOf(session)),
            _ => {},
        }
        let space = self.projects[session].task_space.id.clone();
        let ghost before = self@;
        match self.stage_tab_index(&space) {
            Some(i) => {
                self.stage_tabs.remove(i);
                self.stage_tabs.insert(i, StageTab { space, tab });
                assert(self@.stage_tabs =~= before.stage_tabs.update(i as int, StageTab { space, tab }));
            },
            None => self.stage_tabs.push(StageTab { space, tab }),
        }
    }

    /// A file or a folder of a task was clicked on the stage: a file leaves the fleet for the editor.
    pub fn stage_file_clicked(&mut self, session: usize, path: String, directory: bool)
        ensures
            ({
                let m = old(self)@.then_do(Effect::SwitchProject(session));
                final(self)@ == if directory {
                    m.then_do(Effect::ToggleDir(path))
                } else {
                    m.with_chrome(
                        Chrome { surface: Surface { fleet_mode: false, ..m.chrome.surface }, ..m.chrome },
                    ).then_do(Effect::OpenFile(path))
                }
            }),
    {
        self.effect(Effect::SwitchProject(session));
        if directory {
            self.effect(Effect::ToggleDir(path));
        } else {
            self.chrome.surface.fleet_mode = false;
            self.effect(Effect::OpenFile(path));
        }
    }
}

proof fn terminal_tabs_hold(cells: Seq<FleetPane>, space: Seq<char>, n: int)
    requires
        0 <= n <= cells.len() <= usize::MAX,
    ensures
        ({
            let tabs = terminal_tabs(cells, space, n);
            &&& forall|i: int|
                0 <= i < tabs.len() ==> (#[trigger] tabs[i] matches TaskTab::Terminal(k) && k < n
                    && cells[k as int] is Terminal && cells[k as int].spec_space()@ == space)
            &&& forall|i: int, j: int|
                0 <= i < j < tabs.len() ==> #[trigger] tabs[i]->Terminal_0 < #[trigger] tabs[j]->Terminal_0
            &&& forall|k: int|
                0 <= k < n && cells[k] is Terminal && cells[k].spec_space()@ == space ==> #[trigger] tabs.contains(
                    TaskTab::Terminal(k as usize),
                )
        }),
    decreases n,
{
    if n > 0 {
        terminal_tabs_hold(cells, space, n - 1);
        let before = terminal_tabs(cells, space, n - 1);
        let tabs = terminal_tabs(cells, space, n);
        assert forall|k: int|
            0 <= k < n && cells[k] is Terminal && cells[k].spec_space()@ == space implies #[trigger] tabs.contains(
            TaskTab::Terminal(k as usize),
        ) by {
            let wanted = TaskTab::Terminal(k as usize);
            if k < n - 1 {
                assert(before.contains(wanted));
                let i = choose|i: int| 0 <= i < before.len() && before[i] == wanted;
                assert(tabs[i] == wanted);
            } else {
                assert(tabs[before.len() as int] == wanted);
            }
        }
    }
}

/// A task has a tab for each of its terminals in the grid and for no other cell, in the order of the
/// grid.
pub proof fn each_terminal_of_a_task_has_a_tab(cells: Seq<FleetPane>, space: Seq<char>, k: int)
    requires
        0 <= k < cells.len() <= usize::MAX,
    ensures
        terminal_tabs(cells, space, cells.len() as int).contains(TaskTab::Terminal(k as usize)) <==> (cells[k]
            matches FleetPane::Terminal { space: owner } && owner@ == space),
        forall|i: int, j: int|
            0 <= i < j < terminal_tabs(cells, space, cells.len() as int).len() ==> (#[trigger] terminal_tabs(
                cells,
                space,
                cells.len() as int,
            )[i])->Terminal_0 < (#[trigger] terminal_tabs(cells, space, cells.len() as int)[j])->Terminal_0,
{
    terminal_tabs_hold(cells, space, cells.len() as int);
    let tabs = terminal_tabs(cells, space, cells.len() as int);
    let wanted = TaskTab::Terminal(k as usize);
    if tabs.contains(wanted) {
        let i = choose|i: int| 0 <= i < tabs.len() && tabs[i] == wanted;
        assert(tabs[i] matches TaskTab::Terminal(c) && c == k);
    }
}

/// A task has a tab for each of its threads, in their order.
pub proof fn each_thread_of_a_task_has_a_tab(statuses: Seq<AgentStatus>, k: int)
    requires
        0 <= k < statuses.len(),
    ensures
        thread_tabs(statuses).len() == statuses.len(),
        thread_tabs(statuses)[k] == (TaskTab::Thread { panel: statuses[k].panel, thread: statuses[k].thread }),
{
}

/// The tab that was chosen of a task is the one that is shown of it; what is shown of other tasks stays.
pub proof fn a_chosen_tab_is_shown(m: Model, space: String, tab: TaskTab, other: Seq<char>)
    ensures
        m.stage_tab_chosen(space, tab).stage_tab(space@) == Some(tab),
        other != space@ ==> m.stage_tab_chosen(space, tab).stage_tab(other) == m.stage_tab(other),
{
    let before = m.stage_tabs;
    let after = m.stage_tab_chosen(space, tab).stage_tabs;
    let mine = tab_of(space@);
    let theirs = tab_of(other);
    first_index_holds(before, mine);
    first_index_holds(before, theirs);
    let at = match first_index(before, mine) {
        Some(i) => i,
        None => before.len() as int,
    };
    assert(after[at] == (StageTab { space, tab }));
    assert forall|j: int| 0 <= j < before.len() && j != at implies #[trigger] after[j] == before[j] by {}
    assert forall|j: int| 0 <= j < at implies !mine(#[trigger] after[j]) by {
        assert(after[j] == before[j]);
    }
    first_index_is(after, mine, at);
    if other != space@ {
        match first_index(before, theirs) {
            Some(i) => {
                assert(i != at) by {
                    if i == at {
                        assert(mine(before[i]) && theirs(before[i]));
                    }
                }
                assert forall|j: int| 0 <= j < i implies !theirs(#[trigger] after[j]) by {
                    if j != at {
                        assert(after[j] == before[j]);
                    }
                }
                assert(after[i] == before[i]);
                first_index_is(after, theirs, i);
            },
            None => {
                assert forall|j: int| 0 <= j < after.len() implies !theirs(#[trigger] after[j]) by {
                    if j != at {
                        assert(after[j] == before[j]);
                    }
                }
                first_index_none(after, theirs);
            },
        }
    }
}

/// Two tabs show the same surface exactly if both are threads of one panel, both the changes, both the
/// same terminal or both the files.
pub proof fn surfaces_are_told_apart(a: TaskTab, b: TaskTab, c: TaskTab)
    ensures
        a.same_surface(a),
        a.same_surface(b) == b.same_surface(a),
        a.same_surface(b) && b.same_surface(c) ==> a.same_surface(c),
        a is Thread && b is Thread ==> (a.same_surface(b) <==> a->panel == b->panel),
        a is Terminal && b is Terminal ==> (a.same_surface(b) <==> a == b),
        a is Diff != b is Diff || a is Files != b is Files || a is Thread != b is Thread ==> !a.same_surface(b),
{
}

/// Bringing a panel to the front changes which panel of that project is in front, and nothing else.
pub proof fn one_panel_comes_to_the_front(m: Model, session: int, panel: u64)
    requires
        0 <= session < m.sessions.len(),
    ensures
        ({
            let after = m.panel_in_front(session, panel);
            &&& after.sessions.len() == m.sessions.len()
            &&& after.sessions[session].panel == panel
            &&& after.sessions[session].tabs == m.sessions[session].tabs && after.sessions[session].all_statuses
                == m.sessions[session].all_statuses
            &&& forall|k: int|
                0 <= k < m.sessions.len() && k != session ==> #[trigger] after.sessions[k] == m.sessions[k]
        }),
{
}

/// The bar tells the news of the captain that stands first in the list, and nothing where there is none.
pub proof fn the_first_news_of_the_captain_is_told(news: Seq<NewsItem>)
    ensures
        match first_index(news, of_captain()) {
            Some(i) => 0 <= i < news.len() && news[i].kind == NewsKind::Captain && forall|k: int|
                0 <= k < i ==> (#[trigger] news[k]).kind != NewsKind::Captain,
            None => forall|k: int| 0 <= k < news.len() ==> (#[trigger] news[k]).kind != NewsKind::Captain,
        },
{
    first_index_holds(news, of_captain());
    assert forall|k: int| 0 <= k < news.len() implies of_captain()(#[trigger] news[k]) == (news[k].kind
        == NewsKind::Captain) by {}
}

} // verus!
