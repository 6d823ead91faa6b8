//! The stage: the tasks that stand side by side, and what comes next for each.

use vstd::prelude::*;
use vstd::string::*;
use crate::fleet_sidebar::{position_of, staged_in_columns, text_is, STAGE_LIMIT};
use crate::seqs::{copy_maybe, first_index, first_index_is, first_index_none};
use crate::text::{holds_text, texts, texts_clone};
use crate::workspace::{
    Effect, FleetPane, Model, RenameSite, SpaceKind, TaskDetail, TaskEvent, TaskPhase, TaskRenaming,
    TaskSpace, Workspace,
};

verus! {

/// How wide a card of the stage is, in thousandths of a pixel.
pub const CARD_WIDTH: u64 = 428_000;

/// The pane belongs to the task with this id.
pub open spec fn of_space(space: Seq<char>) -> spec_fn(FleetPane) -> bool {
    |pane: FleetPane| pane.spec_space()@ == space
}

/// A card of the stage: a task, and the cell that it has in the grid.
pub struct StageCard {
    pub cell: usize,
    pub space: String,
}

impl Model {
    /// The tasks that want to stand on the stage, in order: the pinned ones where there is more than
    /// one column, then the one that is shown.
    pub open spec fn stage_wishes(self) -> Seq<String> {
        let pinned = if self.chrome.fleet.stage_columns > 1 {
            self.stage_pinned
        } else {
            Seq::empty()
        };
        if self.has_slot() && !texts(pinned).contains(self.slot().task_space.id@) {
            pinned.push(self.slot().task_space.id)
        } else {
            pinned
        }
    }

    /// How many cards there is room for in this width.
    pub open spec fn stage_room(self, width: u64) -> int {
        let fit = width as int / CARD_WIDTH as int;
        let room = if fit > 1 { fit } else { 1 };
        if self.chrome.fleet.stage_columns < room {
            self.chrome.fleet.stage_columns as int
        } else {
            room
        }
    }

    /// The card of a task: it belongs to the repository that is shown, was not put away, and has a
    /// cell in the grid.
    pub open spec fn card_of(self, space: String) -> Option<StageCard> {
        match self.space_index(space@) {
            Some(i) => if self.repository() == Some(self.projects[i].task_space.repository_id@)
                && self.projects[i].task_space.phase != TaskPhase::Archived {
                match first_index(self.fleet_cells, of_space(space@)) {
                    Some(cell) => Some(StageCard { cell: cell as usize, space }),
                    None => None,
                }
            } else {
                None
            },
            None => None,
        }
    }

    /// The cards of tasks, in order, as many as there is room for.
    pub open spec fn cards_of(self, spaces: Seq<String>, room: int) -> Seq<StageCard>
        decreases spaces.len(),
    {
        if spaces.len() == 0 {
            Seq::empty()
        } else {
            let before = self.cards_of(spaces.drop_last(), room);
            match self.card_of(spaces.last()) {
                Some(card) => if before.len() < room {
                    before.push(card)
                } else {
                    before
                },
                None => before,
            }
        }
    }

    /// A task is pinned to the stage, or is not any more. The oldest pin gives way to a new one.
    pub open spec fn stage_pin_toggled(self, space: String) -> Model {
        match first_index(self.stage_pinned, text_is(space@)) {
            Some(i) => Model { stage_pinned: self.stage_pinned.remove(i), ..self },
            None => {
                let kept = if self.stage_pinned.len() == STAGE_LIMIT {
                    self.stage_pinned.remove(0)
                } else {
                    self.stage_pinned
                };
                self.staged(kept.push(space))
            },
        }
    }
}

/// What the header of a task calls its phase.
#[derive(Clone, Copy, PartialEq, Eq, Structural, Debug)]
pub enum PhaseWord {
    Blocked,
    Failed,
    Review,
    Integrated,
    Working,
}

/// What comes next for a task.
#[derive(Clone, Copy, PartialEq, Eq, Structural, Debug)]
pub enum NextStep {
    /// Allow what its agent asks for.
    Allow,
    /// Tell its agent what to change.
    Fix,
    /// Try out whether it can be merged.
    Review,
    Integrate,
    /// Clean it up.
    CleanUp,
}

pub open spec fn phase_word(phase: TaskPhase) -> PhaseWord {
    match phase {
        TaskPhase::Blocked => PhaseWord::Blocked,
        TaskPhase::Failed => PhaseWord::Failed,
        TaskPhase::ChangesRequested => PhaseWord::Failed,
        TaskPhase::ReviewReady => PhaseWord::Review,
        TaskPhase::MergeReady => PhaseWord::Review,
        TaskPhase::Integrating => PhaseWord::Integrated,
        TaskPhase::Integrated => PhaseWord::Integrated,
        _ => PhaseWord::Working,
    }
}

pub open spec fn next_step(phase: TaskPhase) -> NextStep {
    match phase {
        TaskPhase::Blocked => NextStep::Allow,
        TaskPhase::Failed => NextStep::Fix,
        TaskPhase::ChangesRequested => NextStep::Fix,
        TaskPhase::MergeReady => NextStep::Integrate,
        TaskPhase::Integrating => NextStep::CleanUp,
        TaskPhase::Integrated => NextStep::CleanUp,
        _ => NextStep::Review,
    }
}

/// An answer that an agent offers to its question.
#[derive(Clone, Copy, PartialEq, Eq, Structural, Debug)]
pub struct PermissionOption {
    pub id: usize,
    /// It allows what was asked for.
    pub allows: bool,
}

/// What a thread asks for.
pub struct PermissionCard {
    pub panel: u64,
    pub thread: usize,
    pub options: Vec<PermissionOption>,
}

/// The answer to a question.
#[derive(Clone, Copy, PartialEq, Eq, Structural, Debug)]
pub struct PermissionAnswer {
    pub panel: u64,
    pub thread: usize,
    pub option: usize,
}

pub open spec fn allowing() -> spec_fn(PermissionOption) -> bool {
    |option: PermissionOption| option.allows
}

/// The question has an answer that allows it.
pub open spec fn allowable() -> spec_fn(PermissionCard) -> bool {
    |card: PermissionCard| first_index(card.options@, allowing()) is Some
}

/// The first answer that allows the first question that can be allowed.
pub open spec fn pending(cards: Seq<PermissionCard>) -> Option<PermissionAnswer> {
    match first_index(cards, allowable()) {
        Some(i) => Some(
            PermissionAnswer {
                panel: cards[i].panel,
                thread: cards[i].thread,
                option: cards[i].options@[first_index(cards[i].options@, allowing())->0].id,
            },
        ),
        None => None,
    }
}

fn first_allowing(options: &Vec<PermissionOption>) -> (r: Option<usize>)
    ensures
        match r {
            Some(i) => i < options@.len() && first_index(options@, allowing()) == Some(i as int),
            None => first_index(options@, allowing()) == None::<int>,
        },
{
    let ghost wanted = allowing();
    let mut i: usize = 0;
    while i < options.len()
        invariant
            i <= options@.len(),
            wanted == allowing(),
            forall|j: int| 0 <= j < i ==> !wanted(#[trigger] options@[j]),
        decreases options@.len() - i,
    {
        if options[i].allows {
            proof {
                first_index_is(options@, wanted, i as int);
            }
            return Some(i);
        }
        i = i + 1;
    }
    proof {
        first_index_none(options@, wanted);
    }
    None
}

/// The first answer that allows the first question that can be allowed.
pub fn pending_permission(cards: &Vec<PermissionCard>) -> (r: Option<PermissionAnswer>)
    ensures
        r == pending(cards@),
{
    let ghost wanted = allowable();
    let mut i: usize = 0;
    while i < cards.len()
        invariant
            i <= cards@.len(),
            wanted == allowable(),
            forall|j: int| 0 <= j < i ==> !wanted(#[trigger] cards@[j]),
        decreases cards@.len() - i,
    {
        if let Some(k) = first_allowing(&cards[i].options) {
            proof {
                first_index_is(cards@, wanted, i as int);
            }
            return Some(
                PermissionAnswer {
                    panel: cards[i].panel,
                    thread: cards[i].thread,
                    option: cards[i].options[k].id,
                },
            );
        }
        i = i + 1;
    }
    proof {
        first_index_none(cards@, wanted);
    }
    None
}

impl Model {
    /// A question is answered, so that its task goes on; nothing happens without an answer.
    pub open spec fn permission_given(self, index: usize, answer: Option<PermissionAnswer>) -> Model {
        match answer {
            Some(answer) => self.then_do(
                Effect::RespondPermission {
                    panel: answer.panel,
                    thread: answer.thread,
                    option: answer.option,
                },
            ).then_do(
                Effect::TransitionTask {
                    index,
                    phase: TaskPhase::Working,
                    reason: TaskEvent::PermissionResolved,
                    detail: TaskDetail::Nothing,
                },
            ),
            None => self,
        }
    }
}

/// What the header of a task shows.
pub struct TaskHeader {
    pub session: usize,
    pub title: String,
    pub branch: Option<String>,
    pub word: PhaseWord,
    pub step: NextStep,
    /// What comes next is offered: the task is the one that is shown.
    pub offers_step: bool,
    /// Its name is being changed here.
    pub renaming: bool,
}

/// How a slot is marked in the strip of lineages.
#[derive(Clone, Copy, PartialEq, Eq, Structural, Debug)]
pub enum LineageMark {
    /// The trunk.
    Trunk,
    /// A branch that was merged.
    Merged,
    Branch,
}

pub open spec fn lineage_mark(space: TaskSpace) -> LineageMark {
    if space.integration() {
        LineageMark::Trunk
    } else if space.phase == TaskPhase::Integrated {
        LineageMark::Merged
    } else {
        LineageMark::Branch
    }
}

/// A slot in the strip of lineages.
pub struct LineageItem {
    pub index: usize,
    pub mark: LineageMark,
    pub title: String,
}

impl Model {
    /// The strip of lineages of the first `n` slots: those of the repository that is shown which
    /// were not put away.
    pub open spec fn lineage_below(self, n: int) -> Seq<LineageItem>
        decreases n,
    {
        if n <= 0 {
            Seq::empty()
        } else {
            let before = self.lineage_below(n - 1);
            let slot = self.projects[n - 1];
            if self.repository() == Some(slot.task_space.repository_id@) && slot.task_space.phase
                != TaskPhase::Archived {
                before.push(
                    LineageItem {
                        index: (n - 1) as usize,
                        mark: lineage_mark(slot.task_space),
                        title: slot.task_space.title,
                    },
                )
            } else {
                before
            }
        }
    }
}

impl Workspace {
    fn first_cell_of(&self, space: &String) -> (r: Option<usize>)
        ensures
            match r {
                Some(i) => i < self@.fleet_cells.len() && first_index(self@.fleet_cells, of_space(space@))
                    == Some(i as int),
                None => first_index(self@.fleet_cells, of_space(space@)) == None::<int>,
            },
    {
        let ghost wanted = of_space(space@);
        let mut i: usize = 0;
        while i < self.fleet_cells.len()
            invariant
                i <= self.fleet_cells@.len(),
                wanted == of_space(space@),
                forall|j: int| 0 <= j < i ==> !wanted(#[trigger] self.fleet_cells@[j]),
            decreases self.fleet_cells@.len() - i,
        {
            if *self.fleet_cells[i].space() == *space {
                proof {
                    first_index_is(self.fleet_cells@, wanted, i as int);
                }
                return Some(i);
            }
            i = i + 1;
        }
        proof {
            first_index_none(self.fleet_cells@, wanted);
        }
        None
    }

    fn in_shown_repository(&self, index: usize) -> (b: bool)
        requires
            index < self@.projects.len(),
        ensures
            b == (self@.repository() == Some(self@.projects[index as int].task_space.repository_id@)),
    {
        self.has_active_slot() && self.projects[self.active].task_space.repository_id
            == self.projects[index].task_space.repository_id
    }

    fn stage_card(&self, space: &String) -> (r: Option<StageCard>)
        ensures
            r == self@.card_of(*space),
    {
        let Some(i) = self.session_index_for_space(space) else {
            return None;
        };
        if !self.in_shown_repository(i) || self.projects[i].task_space.phase == TaskPhase::Archived {
            return None;
        }
        match self.first_cell_of(space) {
            Some(cell) => Some(StageCard { cell, space: space.clone() }),
            None => None,
        }
    }

    /// The cards of the stage, as many as there is room for in this width.
    pub fn stage_cards(&self, width: u64) -> (cards: Vec<StageCard>)
        ensures
            cards@ == self@.cards_of(self@.stage_wishes(), self@.stage_room(width)),
    {
        let mut spaces = if self.chrome.fleet.stage_columns > 1 {
            texts_clone(&self.stage_pinned)
        } else {
            Vec::new()
        };
        if self.has_active_slot() {
            if !holds_text(&spaces, self.projects[self.active].task_space.id.as_str()) {
                spaces.push(self.projects[self.active].task_space.id.clone());
            }
        }
        assert(spaces@ =~= self@.stage_wishes());
        let fit: u64 = width / CARD_WIDTH;
        let room: u64 = if fit > 1 {
            fit
        } else {
            1
        };
        let limit: u64 = if (self.chrome.fleet.stage_columns as u64) < room {
            self.chrome.fleet.stage_columns as u64
        } else {
            room
        };
        let mut cards: Vec<StageCard> = Vec::new();
        let mut i: usize = 0;
        while i < spaces.len()
            invariant
                i <= spaces@.len(),
                limit == self@.stage_room(width),
                cards@ == self@.cards_of(spaces@.take(i as int), limit as int),
            decreases spaces@.len() - i,
        {
            proof {
                assert(spaces@.take(i + 1).drop_last() =~= spaces@.take(i as int));
                assert(spaces@.take(i + 1).last() == spaces@[i as int]);
            }
            if let Some(card) = self.stage_card(&spaces[i]) {
                if (cards.len() as u64) < limit {
                    cards.push(card);
                }
            }
            i = i + 1;
        }
        assert(spaces@.take(spaces@.len() as int) =~= spaces@);
        cards
    }

    /// Gives the stage so many columns.
    pub fn set_stage_columns(&mut self, columns: usize)
        ensures
            final(self)@ == old(self)@.with_chrome(staged_in_columns(old(self)@.chrome, columns)),
    {
        self.chrome.fleet.stage_columns = columns;
    }

    /// Pins a task to the stage, or takes its pin off.
    pub fn toggle_stage_pin(&mut self, space: String)
        ensures
            final(self)@ == old(self)@.stage_pin_toggled(space),
    {
        match position_of(&self.stage_pinned, &space) {
            Some(i) => {
                self.stage_pinned.remove(i);
            },
            None => {
                let mut pinned = texts_clone(&self.stage_pinned);
                if pinned.len() == STAGE_LIMIT {
                    pinned.remove(0);
                }
                pinned.push(space);
                self.set_stage(pinned);
            },
        }
    }

    /// What the header of a task shows.
    pub fn task_header(&self, space: &String) -> (r: Option<TaskHeader>)
        ensures
            match self@.space_index(space@) {
                None => r is None,
                Some(i) => r == Some(
                    TaskHeader {
                        session: i as usize,
                        title: self@.projects[i].task_space.title,
                        branch: self@.projects[i].branch,
                        word: phase_word(self@.projects[i].task_space.phase),
                        step: next_step(self@.projects[i].task_space.phase),
                        offers_step: i == self@.active && !self@.projects[i].task_space.integration(),
                        renaming: self@.chrome.fleet.renaming == Some(
                            TaskRenaming { index: i as usize, site: RenameSite::Cell },
                        ),
                    },
                ),
            },
    {
        let Some(i) = self.session_index_for_space(space) else {
            return None;
        };
        let phase = self.projects[i].task_space.phase;
        let word = match phase {
            TaskPhase::Blocked => PhaseWord::Blocked,
            TaskPhase::Failed | TaskPhase::ChangesRequested => PhaseWord::Failed,
            TaskPhase::ReviewReady | TaskPhase::MergeReady => PhaseWord::Review,
            TaskPhase::Integrating | TaskPhase::Integrated => PhaseWord::Integrated,
            _ => PhaseWord::Working,
        };
        let step = match phase {
            TaskPhase::Blocked => NextStep::Allow,
            TaskPhase::Failed | TaskPhase::ChangesRequested => NextStep::Fix,
            TaskPhase::MergeReady => NextStep::Integrate,
            TaskPhase::Integrating | TaskPhase::Integrated => NextStep::CleanUp,
            _ => NextStep::Review,
        };
        let renaming = match self.chrome.fleet.renaming {
            Some(renaming) => renaming.index == i && renaming.site == RenameSite::Cell,
            None => false,
        };
        Some(
            TaskHeader {
                session: i,
                title: self.projects[i].task_space.title.clone(),
                branch: copy_maybe(&self.projects[i].branch),
                word,
                step,
                offers_step: i == self.active && !self.projects[i].task_space.is_integration(),
                renaming,
            },
        )
    }

    /// What comes next for a task was chosen, in the header of its cell. `cards` are the questions
    /// that its threads wait with.
    pub fn task_step_chosen(&mut self, index: usize, cell: usize, cards: &Vec<PermissionCard>)
        ensures
            final(self)@ == if index < old(self)@.projects.len() {
                let space = old(self)@.projects[index as int].task_space.id@;
                match next_step(old(self)@.projects[index as int].task_space.phase) {
                    NextStep::Allow => old(self)@.permission_given(index, pending(cards@)),
                    NextStep::Fix => old(self)@.then_do(Effect::FocusComposerIn(index)),
                    NextStep::Review => old(self)@.review_begun(space),
                    NextStep::Integrate => old(self)@.integration_begun(space),
                    NextStep::CleanUp => old(self)@.then_do(Effect::OpenCellMenu(cell)),
                }
            } else {
                old(self)@
            },
    {
        if index >= self.projects.len() {
            return;
        }
        let space = self.projects[index].task_space.id.clone();
        match self.projects[index].task_space.phase {
            TaskPhase::Blocked => {
                if let Some(answer) = pending_permission(cards) {
                    self.effect(
                        Effect::RespondPermission {
                            panel: answer.panel,
                            thread: answer.thread,
                            option: answer.option,
                        },
                    );
                    self.effect(
                        Effect::TransitionTask {
                            index,
                            phase: TaskPhase::Working,
                            reason: TaskEvent::PermissionResolved,
                            detail: TaskDetail::Nothing,
                        },
                    );
                }
            },
            TaskPhase::Failed | TaskPhase::ChangesRequested => self.effect(Effect::FocusComposerIn(index)),
            TaskPhase::MergeReady => self.integrate_task(&space),
            TaskPhase::Integrating | TaskPhase::Integrated => self.effect(Effect::OpenCellMenu(cell)),
            _ => self.review_task_for_merge(&space),
        }
    }

    /// A task is shown alone on the stage.
    pub fn expand_task(&mut self, index: usize)
        ensures
            final(self)@ == old(self)@.with_chrome(staged_in_columns(old(self)@.chrome, 1)).then_do(
                Effect::SwitchProject(index),
            ),
    {
        self.chrome.fleet.stage_columns = 1;
        self.effect(Effect::SwitchProject(index));
    }

    /// The strip of lineages of the repository that is shown.
    pub fn lineage_strip(&self) -> (items: Vec<LineageItem>)
        ensures
            items@ == self@.lineage_below(self@.projects.len() as int),
    {
        let mut items: Vec<LineageItem> = Vec::new();
        let mut i: usize = 0;
        while i < self.projects.len()
            invariant
                i <= self.projects@.len(),
                items@ == self@.lineage_below(i as int),
            decreases self.projects@.len() - i,
        {
            if self.in_shown_repository(i) && self.projects[i].task_space.phase != TaskPhase::Archived {
                let mark = if self.projects[i].task_space.is_integration() {
                    LineageMark::Trunk
                } else if self.projects[i].task_space.phase == TaskPhase::Integrated {
                    LineageMark::Merged
                } else {
                    LineageMark::Branch
                };
                items.push(
                    LineageItem { index: i, mark, title: self.projects[i].task_space.title.clone() },
                );
            }
            i = i + 1;
        }
        items
    }
}

/// No more tasks are pinned than the stage takes, and the one that was pinned last is pinned.
pub proof fn pins_fit_the_stage(m: Model, space: String)
    requires
        m.stage_pinned.len() <= STAGE_LIMIT,
    ensures
        m.stage_pin_toggled(space).stage_pinned.len() <= STAGE_LIMIT,
        first_index(m.stage_pinned, text_is(space@)) is None ==> m.stage_pin_toggled(space).stage_pinned.last()
            == space,
{
    crate::seqs::first_index_holds(m.stage_pinned, text_is(space@));
}

/// No more cards stand on the stage than it has columns.
pub proof fn cards_fit_the_stage(m: Model, spaces: Seq<String>, width: u64)
    ensures
        m.cards_of(spaces, m.stage_room(width)).len() <= m.chrome.fleet.stage_columns,
    decreases spaces.len(),
{
    if spaces.len() > 0 {
        cards_fit_the_stage(m, spaces.drop_last(), width);
    }
}

/// The task that is shown wants to stand on the stage, once; before it the pinned ones do, where there is
/// more than one column.
pub proof fn the_shown_task_wants_to_stand_on_the_stage(m: Model)
    requires
        m.active < m.projects.len(),
    ensures
        ({
            let wishes = m.stage_wishes();
            let shown = m.projects[m.active as int].task_space.id;
            &&& texts(wishes).contains(shown@)
            &&& m.chrome.fleet.stage_columns <= 1 ==> wishes.len() == 1
            &&& m.chrome.fleet.stage_columns > 1 ==> m.stage_pinned.is_prefix_of(wishes)
            &&& m.chrome.fleet.stage_columns > 1 && texts(m.stage_pinned).contains(shown@) ==> wishes
                == m.stage_pinned
            &&& m.chrome.fleet.stage_columns > 1 && !texts(m.stage_pinned).contains(shown@) ==> wishes.len()
                == m.stage_pinned.len() + 1 && wishes.last() == shown
        }),
{
    let shown = m.projects[m.active as int].task_space.id;
    let wishes = m.stage_wishes();
    let pinned = if m.chrome.fleet.stage_columns > 1 { m.stage_pinned } else { Seq::empty() };
    if !texts(pinned).contains(shown@) {
        assert(texts(wishes)[pinned.len() as int] == shown@);
        assert(wishes =~= pinned.push(shown));
    }
    if m.chrome.fleet.stage_columns <= 1 {
        assert(texts(pinned).len() == 0);
    }
}

/// As many cards stand on the stage as the width takes, at least one, and no more than there are columns:
/// one more would be too wide.
pub proof fn cards_fill_the_width(m: Model, width: u64)
    ensures
        ({
            let room = m.stage_room(width);
            &&& room <= m.chrome.fleet.stage_columns
            &&& room > 1 ==> room * CARD_WIDTH <= width
            &&& room < m.chrome.fleet.stage_columns ==> (room + 1) * CARD_WIDTH > width
            &&& m.chrome.fleet.stage_columns > 0 ==> room > 0
        }),
{
    let fit = width as int / CARD_WIDTH as int;
    vstd::arithmetic::div_mod::lemma_fundamental_div_mod(width as int, CARD_WIDTH as int);
    vstd::arithmetic::div_mod::lemma_mod_bound(width as int, CARD_WIDTH as int);
}

/// A task has a card exactly if it is on the rail, in the repository that is shown, not put away, and has
/// a cell in the grid; the card is for the first cell that it has.
pub proof fn tasks_with_a_cell_have_a_card(m: Model, space: String)
    requires
        m.active < m.projects.len(),
        m.fleet_cells.len() <= usize::MAX,
    ensures
        match m.card_of(space) {
            Some(card) => {
                &&& card.space == space
                &&& card.cell < m.fleet_cells.len() && m.fleet_cells[card.cell as int].spec_space()@ == space@
                &&& forall|c: int| 0 <= c < card.cell ==> (#[trigger] m.fleet_cells[c]).spec_space()@ != space@
                &&& exists|i: int|
                    0 <= i < m.projects.len() && (#[trigger] m.projects[i]).task_space.id@ == space@
                        && m.projects[i].task_space.repository_id@
                        == m.projects[m.active as int].task_space.repository_id@ && m.projects[i].task_space.phase
                        != TaskPhase::Archived
            },
            None => {
                ||| forall|c: int| 0 <= c < m.fleet_cells.len() ==> (#[trigger] m.fleet_cells[c]).spec_space()@ != space@
                ||| forall|i: int| 0 <= i < m.projects.len() ==> (#[trigger] m.projects[i]).task_space.id@ != space@
                ||| exists|i: int|
                    0 <= i < m.projects.len() && (#[trigger] m.projects[i]).task_space.id@ == space@ && (
                    m.projects[i].task_space.repository_id@ != m.projects[m.active as int].task_space.repository_id@
                        || m.projects[i].task_space.phase == TaskPhase::Archived)
            },
        },
{
    crate::fleet_sidebar::spaces_are_found_by_their_id(m, space@);
    let wanted = of_space(space@);
    crate::seqs::first_index_holds(m.fleet_cells, wanted);
    assert forall|c: int| 0 <= c < m.fleet_cells.len() implies wanted(#[trigger] m.fleet_cells[c]) == (
    m.fleet_cells[c].spec_space()@ == space@) by {}
    if let Some(i) = m.space_index(space@) {
        assert(m.projects[i].task_space.id@ == space@);
    }
}

/// The cards are those of the first tasks that have one, in their order, as many as there is room for.
pub proof fn cards_are_those_of_the_first_tasks(m: Model, spaces: Seq<String>, room: int)
    requires
        0 <= room,
    ensures
        ({
            let all = m.cards_of(spaces, spaces.len() as int);
            &&& m.cards_of(spaces, room).is_prefix_of(all)
            &&& m.cards_of(spaces, room).len() == (if all.len() < room { all.len() as int } else { room })
            &&& all.len() <= spaces.len()
        }),
    decreases spaces.len(),
{
    if spaces.len() > 0 {
        let rest = spaces.drop_last();
        cards_are_those_of_the_first_tasks(m, rest, room);
        cards_are_those_of_the_first_tasks(m, rest, spaces.len() as int);
        let before = m.cards_of(rest, rest.len() as int);
        assert(m.cards_of(rest, spaces.len() as int) =~= before);
        let all = m.cards_of(spaces, spaces.len() as int);
        let some = m.cards_of(spaces, room);
        assert(some =~= all.take(some.len() as int));
    } else {
        assert(m.cards_of(spaces, room) =~= Seq::empty());
    }
}

/// With room for all, every task that has a card has it on the stage, and in the order of the tasks.
pub proof fn with_room_every_card_is_there(m: Model, spaces: Seq<String>, space: String, room: int)
    requires
        spaces.len() < room,
    ensures
        m.cards_of(spaces.push(space), room) == match m.card_of(space) {
            Some(card) => m.cards_of(spaces, room).push(card),
            None => m.cards_of(spaces, room),
        },
        m.cards_of(Seq::empty(), room).len() == 0,
{
    cards_are_those_of_the_first_tasks(m, spaces, room);
    assert(spaces.push(space).drop_last() =~= spaces);
}

/// Toggling the pin of a task changes whether it is pinned; the others keep their pins and their order,
/// but for the oldest, which gives way where there are too many.
pub proof fn a_stage_pin_is_for_one_task(m: Model, space: String, k: int)
    requires
        0 <= k < m.stage_pinned.len() <= STAGE_LIMIT,
        forall|i: int, j: int|
            0 <= i < j < m.stage_pinned.len() ==> m.stage_pinned[i]@ != m.stage_pinned[j]@,
    ensures
        ({
            let after = m.stage_pin_toggled(space);
            let was = exists|i: int| 0 <= i < m.stage_pinned.len() && (#[trigger] m.stage_pinned[i])@ == space@;
            &&& was ==> !texts(after.stage_pinned).contains(space@) && after.stage_pinned.len()
                == m.stage_pinned.len() - 1 && after.chrome == m.chrome
            &&& !was ==> after.stage_pinned.last() == space
            &&& m.stage_pinned[k]@ != space@ && (was || k > 0 || m.stage_pinned.len() < STAGE_LIMIT)
                ==> after.stage_pinned.contains(m.stage_pinned[k])
            &&& !was ==> after.chrome.fleet.stage_columns == (if after.stage_pinned.len() > 2 {
                after.stage_pinned.len() as usize
            } else {
                2
            })
        }),
{
    let wanted = text_is(space@);
    let all = m.stage_pinned;
    crate::seqs::first_index_holds(all, wanted);
    assert forall|i: int| 0 <= i < all.len() implies wanted(#[trigger] all[i]) == (all[i]@ == space@) by {}
    let after = m.stage_pin_toggled(space).stage_pinned;
    match first_index(all, wanted) {
        Some(i) => {
            assert(all[i]@ == space@);
            if texts(after).contains(space@) {
                let at = choose|j: int| 0 <= j < texts(after).len() && texts(after)[j] == space@;
                let from = if at < i { at } else { at + 1 };
                assert(all[from]@ == space@);
            }
            if k != i {
                assert(after[if k < i { k } else { k - 1 }] == all[k]);
            }
        },
        None => {
            if all.len() == STAGE_LIMIT {
                if k > 0 {
                    assert(after[k - 1] == all[k]);
                }
            } else {
                assert(after[k] == all[k]);
            }
        },
    }
}

/// What comes next for a task goes by its phase: merging only where trying it out went well, cleaning up
/// only where it was merged, allowing only where it waits, mending only where it failed.
pub proof fn next_steps_go_by_the_phase(phase: TaskPhase)
    ensures
        next_step(phase) == NextStep::Integrate <==> phase == TaskPhase::MergeReady,
        next_step(phase) == NextStep::Allow <==> phase == TaskPhase::Blocked,
        next_step(phase) == NextStep::CleanUp <==> phase == TaskPhase::Integrating || phase == TaskPhase::Integrated,
        next_step(phase) == NextStep::Fix <==> phase == TaskPhase::Failed || phase == TaskPhase::ChangesRequested,
        phase_word(phase) == PhaseWord::Blocked <==> phase == TaskPhase::Blocked,
        phase_word(phase) == PhaseWord::Failed <==> next_step(phase) == NextStep::Fix,
        phase_word(phase) == PhaseWord::Review <==> phase == TaskPhase::ReviewReady || phase == TaskPhase::MergeReady,
        phase_word(phase) == PhaseWord::Integrated <==> next_step(phase) == NextStep::CleanUp,
{
}

/// The answer that is given allows what was asked for: it is the first that does, of the first question
/// that has one; there is none exactly if no question can be allowed.
pub proof fn answers_allow_what_was_asked(cards: Seq<PermissionCard>)
    ensures
        match pending(cards) {
            Some(answer) => exists|i: int, k: int|
                0 <= i < cards.len() && 0 <= k < cards[i].options@.len() && answer.panel == cards[i].panel
                    && answer.thread == cards[i].thread && answer.option == (#[trigger] cards[i].options@[k]).id
                    && cards[i].options@[k].allows && (forall|j: int|
                    0 <= j < k ==> !(#[trigger] cards[i].options@[j]).allows) && (forall|c: int, j: int|
                    0 <= c < i && 0 <= j < cards[c].options@.len() ==> !(#[trigger] cards[c].options@[j]).allows),
            None => forall|c: int, j: int|
                0 <= c < cards.len() && 0 <= j < cards[c].options@.len() ==> !(
                #[trigger] cards[c].options@[j]).allows,
        },
{
    let wanted = allowable();
    crate::seqs::first_index_holds(cards, wanted);
    assert forall|c: int, j: int|
        0 <= c < cards.len() && 0 <= j < cards[c].options@.len() && !wanted(cards[c]) implies !(
    #[trigger] cards[c].options@[j]).allows by {
        crate::seqs::first_index_holds(cards[c].options@, allowing());
        assert(!allowing()(cards[c].options@[j]));
    }
    if let Some(i) = first_index(cards, wanted) {
        assert(wanted(cards[i]));
        let options = cards[i].options@;
        crate::seqs::first_index_holds(options, allowing());
        let k = first_index(options, allowing())->0;
        assert(allowing()(options[k]));
        assert forall|j: int| 0 <= j < k implies !(#[trigger] options[j]).allows by {
            assert(!allowing()(options[j]));
        }
        assert(cards[i].options@[k].allows);
    }
}

/// An answer goes to the thread that asked, and its task goes on; without an answer nothing happens.
pub proof fn answers_go_to_the_thread_that_asked(m: Model, index: usize, answer: Option<PermissionAnswer>)
    ensures
        answer is None ==> m.permission_given(index, answer) == m,
        answer matches Some(a) ==> {
            let effects = m.permission_given(index, answer).effects;
            let n = m.effects.len() as int;
            &&& effects.len() == n + 2
            &&& effects[n] == (Effect::RespondPermission { panel: a.panel, thread: a.thread, option: a.option })
            &&& effects[n + 1] == (Effect::TransitionTask {
                index,
                phase: TaskPhase::Working,
                reason: TaskEvent::PermissionResolved,
                detail: TaskDetail::Nothing,
            })
        },
{
}

/// The slot at `p` has its place in the strip: it is in the repository that is shown and was not put
/// away.
pub open spec fn in_strip(m: Model, p: int) -> bool {
    &&& m.projects[p].task_space.repository_id@ == m.projects[m.active as int].task_space.repository_id@
    &&& m.projects[p].task_space.phase != TaskPhase::Archived
}

/// What an item of the strip says of its slot.
pub open spec fn tells_of(item: LineageItem, space: TaskSpace) -> bool {
    &&& item.title == space.title
    &&& item.mark == lineage_mark(space)
}

proof fn lineage_holds(m: Model, n: int)
    requires
        0 <= n <= m.projects.len() <= usize::MAX,
        m.active < m.projects.len(),
    ensures
        ({
            let items = m.lineage_below(n);
            &&& forall|i: int|
                0 <= i < items.len() ==> (#[trigger] items[i]).index < n && in_strip(m, items[i].index as int)
                    && tells_of(items[i], m.projects[items[i].index as int].task_space)
            &&& forall|i: int, j: int|
                0 <= i < j < items.len() ==> (#[trigger] items[i]).index < (#[trigger] items[j]).index
        }),
        forall|p: int| 0 <= p < n && in_strip(m, p) ==> #[trigger] has_item(m.lineage_below(n), p),
    decreases n,
{
    if n > 0 {
        lineage_holds(m, n - 1);
        let before = m.lineage_below(n - 1);
        let items = m.lineage_below(n);
        assert(in_strip(m, n - 1) == (items.len() == before.len() + 1));
        assert forall|p: int| 0 <= p < n && in_strip(m, p) implies #[trigger] has_item(items, p) by {
            if p < n - 1 {
                assert(has_item(before, p));
                let i = choose|i: int| 0 <= i < before.len() && (#[trigger] before[i]).index == p;
                assert(items[i].index == p);
            } else {
                assert(items[before.len() as int].index == p);
            }
        }
    }
}

/// The strip has an item for the slot at `p`.
pub open spec fn has_item(items: Seq<LineageItem>, p: int) -> bool {
    exists|i: int| 0 <= i < items.len() && (#[trigger] items[i]).index == p
}

/// The strip of lineages has every slot of the repository that is shown, in the order of the rail, but
/// for those that were put away, and no other; the place that tasks are merged into is its trunk.
pub proof fn the_strip_has_every_slot_of_the_repository(m: Model, p: int)
    requires
        m.projects.len() <= usize::MAX,
        m.active < m.projects.len(),
        0 <= p < m.projects.len(),
    ensures
        ({
            let items = m.lineage_below(m.projects.len() as int);
            let space = m.projects[p].task_space;
            &&& (exists|i: int| 0 <= i < items.len() && (#[trigger] items[i]).index == p) <==> space.repository_id@
                == m.projects[m.active as int].task_space.repository_id@ && space.phase != TaskPhase::Archived
            &&& forall|i: int, j: int|
                0 <= i < j < items.len() ==> (#[trigger] items[i]).index < (#[trigger] items[j]).index
            &&& forall|i: int|
                0 <= i < items.len() && (#[trigger] items[i]).index == p ==> {
                    &&& items[i].title == space.title
                    &&& (items[i].mark == LineageMark::Trunk <==> space.kind == SpaceKind::Integration)
                    &&& (items[i].mark == LineageMark::Merged <==> space.kind == SpaceKind::Task && space.phase
                        == TaskPhase::Integrated)
                }
        }),
{
    lineage_holds(m, m.projects.len() as int);
    let items = m.lineage_below(m.projects.len() as int);
    if in_strip(m, p) {
        assert(has_item(items, p));
    }
    if has_item(items, p) {
        let i = choose|i: int| 0 <= i < items.len() && (#[trigger] items[i]).index == p;
        assert(in_strip(m, items[i].index as int));
    }
}

} // verus!
