//! The lineage graph of the fleet: one lane for each task, and how it is drawn.

use vstd::prelude::*;
use vstd::string::*;
use crate::fleet_rows::{
    branch_of, lead, lead_of, room_for_tokens, shown_branch, tokens_max, tokens_used, used_tokens,
};
use crate::workspace::{
    AgentStatus, GraphView, Model, ProjectSlot, SpaceKind, TaskPhase, TaskSpace, ThreadActivity, Workspace,
};

verus! {

/// How many lanes are drawn.
pub const FLEET_LANES: usize = 8;

/// A task in the graph.
pub struct FleetLane {
    pub space_index: usize,
    /// The thread that calls most for a look.
    pub thread_index: usize,
    pub branch: Option<String>,
    pub color: usize,
    pub activity: ThreadActivity,
    pub name: String,
    /// The agent of that thread; `None` without one.
    pub agent: Option<String>,
    pub tokens_used: u32,
    pub tokens_max: u32,
    /// The task was merged.
    pub integrated: bool,
    /// There are commits that its base does not have.
    pub has_commits: bool,
}

/// What a task does, by its phase; by its threads in the other phases.
pub open spec fn phase_activity(phase: TaskPhase, running: ThreadActivity) -> ThreadActivity {
    match phase {
        TaskPhase::Working => ThreadActivity::Working,
        TaskPhase::Blocked => ThreadActivity::Blocked,
        TaskPhase::ReviewReady => ThreadActivity::Done { interrupted: false },
        TaskPhase::MergeReady => ThreadActivity::Done { interrupted: false },
        TaskPhase::Integrated => ThreadActivity::Done { interrupted: false },
        TaskPhase::ChangesRequested => ThreadActivity::Done { interrupted: true },
        TaskPhase::Failed => ThreadActivity::Done { interrupted: true },
        _ => running,
    }
}

/// The head of a task is another commit than its base.
pub open spec fn moved_on(space: TaskSpace) -> bool {
    space.base_oid matches Some(base) && space.head_oid matches Some(head) && base@ != head@
}

/// The lane of a task whose threads are these.
pub open spec fn lane(index: usize, slot: ProjectSlot, statuses: Seq<AgentStatus>) -> FleetLane {
    let lead = lead(statuses);
    FleetLane {
        space_index: index,
        thread_index: match lead {
            Some(i) => i as usize,
            None => 0,
        },
        branch: shown_branch(slot),
        color: slot.color,
        activity: phase_activity(
            slot.task_space.phase,
            match lead {
                Some(i) => statuses[i].activity,
                None => ThreadActivity::Idle,
            },
        ),
        name: slot.task_space.title,
        agent: match lead {
            Some(i) => Some(statuses[i].agent),
            None => None,
        },
        tokens_used: tokens_used(statuses) as u32,
        tokens_max: tokens_max(statuses) as u32,
        integrated: slot.task_space.phase == TaskPhase::Integrated,
        has_commits: moved_on(slot.task_space),
    }
}

impl Model {
    /// The slot at `i` has a lane: it is a task that was not put away.
    pub open spec fn has_lane(self, i: int) -> bool {
        &&& i < self.sessions.len()
        &&& !self.projects[i].task_space.integration()
        &&& self.projects[i].task_space.phase != TaskPhase::Archived
    }

    /// The tokens of each task that is drawn can be counted.
    pub open spec fn lane_tokens_fit(self) -> bool {
        forall|i: int|
            0 <= i < self.projects.len() && self.has_lane(i) && self.lanes_below(i).len() < FLEET_LANES
                ==> tokens_used((#[trigger] self.sessions[i]).statuses@) <= u32::MAX && tokens_max(
                self.sessions[i].statuses@,
            ) <= u32::MAX
    }

    /// The lanes of the first `n` slots, as many as are drawn.
    pub open spec fn lanes_below(self, n: int) -> Seq<FleetLane>
        decreases n,
    {
        if n <= 0 {
            Seq::empty()
        } else {
            let before = self.lanes_below(n - 1);
            if before.len() < FLEET_LANES && self.has_lane(n - 1) {
                before.push(lane((n - 1) as usize, self.projects[n - 1], self.sessions[n - 1].statuses@))
            } else {
                before
            }
        }
    }
}

fn activity_of(phase: TaskPhase, running: ThreadActivity) -> (r: ThreadActivity)
    ensures
        r == phase_activity(phase, running),
{
    match phase {
        TaskPhase::Working => ThreadActivity::Working,
        TaskPhase::Blocked => ThreadActivity::Blocked,
        TaskPhase::ReviewReady | TaskPhase::MergeReady | TaskPhase::Integrated => ThreadActivity::Done {
            interrupted: false,
        },
        TaskPhase::ChangesRequested | TaskPhase::Failed => ThreadActivity::Done { interrupted: true },
        _ => running,
    }
}

fn lane_of(index: usize, slot: &ProjectSlot, statuses: &Vec<AgentStatus>) -> (r: FleetLane)
    requires
        tokens_used(statuses@) <= u32::MAX,
        tokens_max(statuses@) <= u32::MAX,
    ensures
        r == lane(index, *slot, statuses@),
{
    let (thread_index, running, agent) = match lead_of(statuses) {
        Some(i) => (i, statuses[i].activity, Some(statuses[i].agent.clone())),
        None => (0, ThreadActivity::Idle, None),
    };
    let used: u32 = used_tokens(statuses);
    let most: u32 = room_for_tokens(statuses);
    let has_commits = match (&slot.task_space.base_oid, &slot.task_space.head_oid) {
        (Some(base), Some(head)) => *base != *head,
        _ => false,
    };
    FleetLane {
        space_index: index,
        thread_index,
        branch: branch_of(slot),
        color: slot.color,
        activity: activity_of(slot.task_space.phase, running),
        name: slot.task_space.title.clone(),
        agent,
        tokens_used: used,
        tokens_max: most,
        integrated: slot.task_space.phase == TaskPhase::Integrated,
        has_commits,
    }
}

impl Workspace {
    /// The lanes of the graph: one for each task, in the order of the rail, as many as are drawn.
    pub fn fleet_lanes(&self) -> (lanes: Vec<FleetLane>)
        requires
            self@.lane_tokens_fit(),
        ensures
            lanes@ == self@.lanes_below(self@.projects.len() as int),
    {
        let mut lanes: Vec<FleetLane> = Vec::new();
        let mut i: usize = 0;
        while i < self.projects.len()
            invariant
                i <= self.projects@.len(),
                self@.lane_tokens_fit(),
                lanes@ == self@.lanes_below(i as int),
            decreases self.projects@.len() - i,
        {
            if lanes.len() < FLEET_LANES && i < self.sessions.len()
                && !self.projects[i].task_space.is_integration() && self.projects[i].task_space.phase
                != TaskPhase::Archived {
                assert(tokens_used(self@.sessions[i as int].statuses@) <= u32::MAX);
                lanes.push(lane_of(i, &self.projects[i], &self.sessions[i].statuses));
            }
            i = i + 1;
        }
        lanes
    }
}

/// What the agent of a lane is called: a lane without a thread has no agent of its own.
pub fn lane_agent(lane: &FleetLane) -> (r: String)
    ensures
        r@ == match lane.agent {
            Some(agent) => agent@,
            None => "Agent"@,
        },
{
    match &lane.agent {
        Some(agent) => agent.clone(),
        None => "Agent".to_owned(),
    }
}

/// How many agents the caption of the graph speaks of, which is also how many places are laid out: at
/// least one.
pub fn graph_count(lanes: &Vec<FleetLane>) -> (n: usize)
    ensures
        n == if lanes@.len() == 0 { 1 } else { lanes@.len() },
{
    if lanes.len() == 0 {
        1
    } else {
        lanes.len()
    }
}

/// How a lane is drawn.
#[derive(Clone, Copy, PartialEq, Eq, Structural, Debug)]
pub struct LaneLook {
    /// Its line is dashed: nothing happens there.
    pub dashed: bool,
    /// A bead stands for its commits.
    pub bead: bool,
    /// It runs back into the trunk.
    pub merges: bool,
}

pub open spec fn look(lane: FleetLane, view: GraphView) -> LaneLook {
    let idle = lane.activity == ThreadActivity::Idle;
    LaneLook {
        dashed: idle,
        bead: (view == GraphView::Fan || view == GraphView::Tree) && !idle && lane.has_commits,
        merges: (view == GraphView::Fan || view == GraphView::Card) && lane.integrated,
    }
}

/// How a lane is drawn: dashed while nothing happens there, with a bead where it has commits, and
/// running back into the trunk once it was merged. Not every way of drawing shows all of it.
pub fn lane_look(lane: &FleetLane, view: GraphView) -> (r: LaneLook)
    ensures
        r == look(*lane, view),
{
    let idle = lane.activity == ThreadActivity::Idle;
    LaneLook {
        dashed: idle,
        bead: (view == GraphView::Fan || view == GraphView::Tree) && !idle && lane.has_commits,
        merges: (view == GraphView::Fan || view == GraphView::Card) && lane.integrated,
    }
}

/// Some task was merged.
pub open spec fn any_integrated(lanes: Seq<FleetLane>) -> bool {
    exists|i: int| 0 <= i < lanes.len() && (#[trigger] lanes[i]).integrated
}

/// Whether some task was merged, so that the head of the trunk is drawn.
pub fn shows_head(lanes: &Vec<FleetLane>) -> (b: bool)
    ensures
        b == any_integrated(lanes@),
{
    let mut i: usize = 0;
    while i < lanes.len()
        invariant
            i <= lanes@.len(),
            forall|k: int| 0 <= k < i ==> !(#[trigger] lanes@[k]).integrated,
        decreases lanes@.len() - i,
    {
        if lanes[i].integrated {
            assert(lanes@[i as int].integrated);
            return true;
        }
        i = i + 1;
    }
    false
}

/// The second line of a lane: its branch and what it does.
pub open spec fn lane_line(branch: Option<String>, activity: Seq<char>) -> Seq<char> {
    match branch {
        Some(name) => "⎇ "@ + name@ + "  ·  "@ + activity,
        None => activity,
    }
}

/// The second line of a lane, where `activity` says what it does.
pub fn lane_label(branch: &Option<String>, activity: &str) -> (r: String)
    ensures
        r@ == lane_line(*branch, activity@),
{
    match branch {
        Some(name) => {
            let mut out = "⎇ ".to_owned();
            out.append(name.as_str());
            out.append("  ·  ");
            out.append(activity);
            out
        },
        None => activity.to_owned(),
    }
}

/// Whether the label of a lane stands to the right of its node where the lanes stand in a circle,
/// clockwise from the top: those of the right half, the top and the bottom do.
pub fn hub_label_right(index: usize, count: usize) -> (b: bool)
    requires
        index < count,
    ensures
        b == (2 * index <= count),
{
    index <= count - index
}

/// No more lanes are drawn than there is room for, none of them for a task that was put away or for
/// a space that tasks are merged into.
pub proof fn lanes_are_tasks(m: Model, n: int)
    requires
        0 <= n <= m.projects.len() <= usize::MAX,
    ensures
        m.lanes_below(n).len() <= FLEET_LANES,
        forall|i: int|
            0 <= i < m.lanes_below(n).len() ==> (#[trigger] m.lanes_below(n)[i]).space_index < n && m.has_lane(
                m.lanes_below(n)[i].space_index as int,
            ),
    decreases n,
{
    if n > 0 {
        lanes_are_tasks(m, n - 1);
    }
}

/// A bead stands only where there are commits, and a lane runs back only once it was merged.
pub proof fn the_graph_invents_nothing(lane: FleetLane, view: GraphView)
    ensures
        look(lane, view).bead ==> lane.has_commits,
        look(lane, view).merges ==> lane.integrated,
{
}

/// What a task does in the graph goes by its phase; only where the phase says nothing it goes by its
/// threads.
pub proof fn lanes_go_by_the_phase(phase: TaskPhase, running: ThreadActivity)
    ensures
        phase == TaskPhase::Working ==> phase_activity(phase, running) == ThreadActivity::Working,
        phase == TaskPhase::Blocked ==> phase_activity(phase, running) == ThreadActivity::Blocked,
        phase == TaskPhase::ReviewReady || phase == TaskPhase::MergeReady || phase == TaskPhase::Integrated
            ==> phase_activity(phase, running) == (ThreadActivity::Done { interrupted: false }),
        phase == TaskPhase::ChangesRequested || phase == TaskPhase::Failed ==> phase_activity(phase, running)
            == (ThreadActivity::Done { interrupted: true }),
        phase == TaskPhase::Planned || phase == TaskPhase::Integrating || phase == TaskPhase::Archived
            ==> phase_activity(phase, running) == running,
{
}

/// A lane tells of its task: the names of the slot, and of its threads the one that calls most for a look
/// and the tokens of all. It has commits exactly if head and base are known and differ.
pub proof fn a_lane_tells_of_its_task(index: usize, slot: ProjectSlot, statuses: Seq<AgentStatus>)
    requires
        tokens_used(statuses) <= u32::MAX,
        tokens_max(statuses) <= u32::MAX,
        statuses.len() <= usize::MAX,
    ensures
        ({
            let l = lane(index, slot, statuses);
            &&& l.space_index == index && l.name == slot.task_space.title && l.color == slot.color
            &&& l.branch == shown_branch(slot)
            &&& l.tokens_used == tokens_used(statuses) && l.tokens_max == tokens_max(statuses)
            &&& (l.integrated <==> slot.task_space.phase == TaskPhase::Integrated)
            &&& (l.has_commits <==> slot.task_space.base_oid is Some && slot.task_space.head_oid is Some
                && slot.task_space.base_oid->0@ != slot.task_space.head_oid->0@)
            &&& statuses.len() == 0 ==> l.agent is None && l.thread_index == 0
            &&& statuses.len() > 0 ==> {
                &&& l.thread_index < statuses.len()
                &&& l.agent == Some(statuses[l.thread_index as int].agent)
                &&& forall|k: int|
                    0 <= k < statuses.len() ==> (#[trigger] statuses[k]).activity.urgency()
                        <= statuses[l.thread_index as int].activity.urgency()
                &&& l.activity == phase_activity(
                    slot.task_space.phase,
                    statuses[l.thread_index as int].activity,
                )
                &&& forall|k: int|
                    l.thread_index < k < statuses.len() ==> (#[trigger] statuses[k]).activity.urgency()
                        < statuses[l.thread_index as int].activity.urgency()
            }
        }),
{
    crate::fleet_rows::lead_is_most_urgent(statuses);
}

proof fn lanes_hold(m: Model, n: int)
    requires
        0 <= n <= m.projects.len() <= usize::MAX,
    ensures
        ({
            let lanes = m.lanes_below(n);
            &&& forall|i: int|
                0 <= i < lanes.len() ==> (#[trigger] lanes[i]).space_index < n && lanes[i] == lane(
                    lanes[i].space_index,
                    m.projects[lanes[i].space_index as int],
                    m.sessions[lanes[i].space_index as int].statuses@,
                )
            &&& forall|i: int, j: int|
                0 <= i < j < lanes.len() ==> (#[trigger] lanes[i]).space_index < (#[trigger] lanes[j]).space_index
            &&& forall|p: int|
                0 <= p < n && #[trigger] m.has_lane(p) ==> (exists|i: int|
                    0 <= i < lanes.len() && (#[trigger] lanes[i]).space_index == p) || (lanes.len() == FLEET_LANES
                    && forall|i: int| 0 <= i < lanes.len() ==> (#[trigger] lanes[i]).space_index < p)
        }),
    decreases n,
{
    if n > 0 {
        lanes_hold(m, n - 1);
        lanes_are_tasks(m, n - 1);
        let before = m.lanes_below(n - 1);
        let lanes = m.lanes_below(n);
        assert forall|p: int| 0 <= p < n && #[trigger] m.has_lane(p) implies (exists|i: int|
            0 <= i < lanes.len() && (#[trigger] lanes[i]).space_index == p) || (lanes.len() == FLEET_LANES && forall|
            i: int,
        |
            0 <= i < lanes.len() ==> (#[trigger] lanes[i]).space_index < p) by {
            if p < n - 1 {
                if exists|i: int| 0 <= i < before.len() && (#[trigger] before[i]).space_index == p {
                    let i = choose|i: int| 0 <= i < before.len() && (#[trigger] before[i]).space_index == p;
                    assert(lanes[i].space_index == p);
                } else {
                    assert(lanes == before);
                }
            } else if before.len() < FLEET_LANES {
                assert(lanes[before.len() as int].space_index == p);
            } else {
                assert(lanes == before);
            }
        }
        assert forall|i: int| 0 <= i < lanes.len() implies (#[trigger] lanes[i]).space_index < n && lanes[i] == lane(
            lanes[i].space_index,
            m.projects[lanes[i].space_index as int],
            m.sessions[lanes[i].space_index as int].statuses@,
        ) by {
            if i < before.len() {
                assert(lanes[i] == before[i]);
            }
        }
    }
}

/// The graph draws the first tasks on the rail, in its order, as many as there is room for: one that was
/// not put away has its lane, unless there are enough before it.
pub proof fn the_first_tasks_have_lanes(m: Model, p: int)
    requires
        m.projects.len() <= usize::MAX,
        0 <= p < m.projects.len(),
        p < m.sessions.len(),
    ensures
        ({
            let lanes = m.lanes_below(m.projects.len() as int);
            let drawn = exists|i: int| 0 <= i < lanes.len() && (#[trigger] lanes[i]).space_index == p;
            let space = m.projects[p].task_space;
            &&& drawn ==> space.kind == SpaceKind::Task && space.phase != TaskPhase::Archived
            &&& space.kind == SpaceKind::Task && space.phase != TaskPhase::Archived && !drawn ==> lanes.len()
                == FLEET_LANES && forall|i: int| 0 <= i < lanes.len() ==> (#[trigger] lanes[i]).space_index < p
            &&& lanes.len() <= FLEET_LANES
            &&& forall|i: int, j: int|
                0 <= i < j < lanes.len() ==> (#[trigger] lanes[i]).space_index < (#[trigger] lanes[j]).space_index
            &&& forall|i: int|
                0 <= i < lanes.len() && (#[trigger] lanes[i]).space_index == p ==> lanes[i] == lane(
                    p as usize,
                    m.projects[p],
                    m.sessions[p].statuses@,
                )
        }),
{
    lanes_hold(m, m.projects.len() as int);
    lanes_are_tasks(m, m.projects.len() as int);
    let lanes = m.lanes_below(m.projects.len() as int);
    if exists|i: int| 0 <= i < lanes.len() && (#[trigger] lanes[i]).space_index == p {
        let i = choose|i: int| 0 <= i < lanes.len() && (#[trigger] lanes[i]).space_index == p;
        assert(m.has_lane(lanes[i].space_index as int));
    }
    assert(m.has_lane(p) == (m.projects[p].task_space.kind == SpaceKind::Task && m.projects[p].task_space.phase
        != TaskPhase::Archived));
}

/// A line is dashed exactly while nothing happens, wherever it is drawn; in the fan both the commits and
/// the way back into the trunk are drawn where there are any.
pub proof fn the_fan_shows_everything(lane: FleetLane, view: GraphView)
    ensures
        look(lane, view).dashed <==> lane.activity is Idle,
        look(lane, GraphView::Fan).merges <==> lane.integrated,
        look(lane, GraphView::Card).merges <==> lane.integrated,
        look(lane, GraphView::Fan).bead <==> lane.has_commits && !(lane.activity is Idle),
        look(lane, GraphView::Tree).bead == look(lane, GraphView::Fan).bead,
        view == GraphView::Hub ==> !look(lane, view).bead && !look(lane, view).merges,
        !look(lane, GraphView::Card).bead && !look(lane, GraphView::Tree).merges,
{
}

/// The second line of a lane ends with what it does, and names its branch before that, where it has one.
pub proof fn lanes_say_what_they_do(branch: Option<String>, activity: Seq<char>)
    ensures
        activity.is_suffix_of(lane_line(branch, activity)),
        branch is None ==> lane_line(branch, activity) == activity,
        branch matches Some(name) ==> lane_line(branch, activity).len() == name@.len() + activity.len() + 7
            && lane_line(branch, activity).subrange(2, (name@.len() + 2) as int) == name@,
{
    reveal_strlit("⎇ ");
    reveal_strlit("  ·  ");
    let line = lane_line(branch, activity);
    assert(line.skip(line.len() - activity.len()) =~= activity);
    if let Some(name) = branch {
        assert(line.subrange(2, (name@.len() + 2) as int) =~= name@);
    }
}

} // verus!
