//! Editing in place: an instruction, the proposal it brings, and accepting it.

use vstd::prelude::*;
use vstd::string::*;
use crate::text::{
    chars_of, has_control, holds_control, same_text, text_of, texts_clone, trim, trimmed,
};
use crate::workspace::{Effect, FocusTarget, Keystroke, Model, Notice, Workspace};

verus! {

/// What the instruction is about.
pub enum InlineEditTarget {
    /// A range of the buffer, with its text and the version of the buffer.
    Editor { start: usize, end: usize, old_text: String, buffer_version: u64 },
    Terminal,
}

/// The instruction box while it is open.
pub struct InlineEditState {
    pub instruction: String,
    pub target: InlineEditTarget,
    pub busy: bool,
    pub proposal: Option<String>,
    /// Counts the times that the instruction was run.
    pub generation: u64,
    pub error: Option<String>,
}

/// A range of a buffer and its text.
pub struct TextSpan {
    pub start: usize,
    pub end: usize,
    pub text: String,
}

/// What an editor tells when editing in place begins.
pub struct EditorFacts {
    /// The first selection.
    pub selection: TextSpan,
    /// The line of the caret, with its line feed.
    pub line: TextSpan,
}

impl EditorFacts {
    /// What is edited: the selection, or the whole line where nothing is selected.
    pub open spec fn span(self) -> TextSpan {
        if self.selection.start == self.selection.end {
            self.line
        } else {
            self.selection
        }
    }
}

/// From where to where a line reaches, its line feed with it, in a buffer of `len` bytes whose lines
/// start at `starts`.
pub fn line_range(row: usize, starts: &Vec<usize>, len: usize) -> (r: (usize, usize))
    requires
        row < starts@.len(),
    ensures
        r.0 == starts@[row as int],
        r.1 == if row + 1 < starts@.len() { starts@[row + 1] } else { len },
{
    let count: usize = starts.len();
    let end: usize = if row + 1 < count {
        starts[row + 1]
    } else {
        len
    };
    (starts[row], end)
}

/// The same box with another instruction, and without a proposal.
pub open spec fn reworded(before: InlineEditState, after: InlineEditState, instruction: Seq<char>) -> bool {
    &&& after == (InlineEditState { instruction: after.instruction, proposal: None, ..before })
    &&& after.instruction@ == instruction
}

/// The box while its instruction is carried out.
pub open spec fn running(state: InlineEditState) -> InlineEditState {
    InlineEditState {
        busy: true,
        error: None,
        proposal: None,
        generation: (state.generation + 1) as u64,
        ..state
    }
}

/// The box with what its instruction brought.
pub open spec fn answered(state: InlineEditState, result: Result<String, String>) -> InlineEditState {
    match result {
        Ok(text) => InlineEditState { busy: false, proposal: Some(text), ..state },
        Err(error) => InlineEditState { busy: false, error: Some(error), ..state },
    }
}

/// The effect that carries out an instruction.
pub open spec fn carries_out(effect: Effect, root: String, instruction: Seq<char>, state: InlineEditState) -> bool {
    match (effect, state.target) {
        (
            Effect::RunInlineRewrite { root: r, instruction: i, old_text, generation },
            InlineEditTarget::Editor { old_text: text, .. },
        ) => r == root && i@ == instruction && old_text == text && generation == state.generation,
        (
            Effect::RunInlineCommand { root: r, instruction: i, generation },
            InlineEditTarget::Terminal,
        ) => r == root && i@ == instruction && generation == state.generation,
        _ => false,
    }
}

impl Model {
    /// The instruction can be carried out.
    pub open spec fn can_run_inline(self) -> bool {
        &&& self.has_slot()
        &&& self.inline_edit matches Some(state) && !state.busy && trim(state.instruction@).len() > 0
    }

    /// The box is closed, and the focus is where it was.
    pub open spec fn inline_closed(self) -> Model {
        match self.inline_edit {
            None => self,
            Some(state) => {
                let m = Model { inline_edit: None, ..self };
                match state.target {
                    InlineEditTarget::Editor { .. } => m.focus_editor(),
                    InlineEditTarget::Terminal => m.then_do(Effect::Focus(FocusTarget::TerminalIfPresent)),
                }
            },
        }
    }

    /// The proposal is applied, unless the buffer has changed since; the box is closed.
    pub open spec fn inline_accepted(self) -> Model {
        match self.inline_edit {
            Some(state) => match state.proposal {
                Some(proposal) => {
                    let m = Model { inline_edit: None, ..self };
                    match state.target {
                        InlineEditTarget::Editor { start, end, buffer_version, .. } => if !self.has_active_editor() {
                            m
                        } else if self.tab().version == buffer_version {
                            m.then_do(
                                Effect::ApplyEdit { tab: self.tab().id, start, end, text: proposal },
                            ).focus_editor()
                        } else {
                            m.then_do(Effect::Toast(Notice::InlineBufferChanged)).focus_editor()
                        },
                        InlineEditTarget::Terminal => m.then_do(Effect::InsertInTerminal(proposal)),
                    }
                },
                None => self,
            },
            None => self,
        }
    }
}

/// What carrying out the instruction does.
pub open spec fn executed(before: Model, after: Model) -> bool {
    if before.can_run_inline() {
        let state = running(before.inline_edit->0);
        &&& after.effects.len() == before.effects.len() + 1
        &&& carries_out(
            after.effects.last(),
            before.slot().root,
            trim(state.instruction@),
            state,
        )
        &&& after == (Model { inline_edit: Some(state), ..before }).then_do(after.effects.last())
    } else {
        after == before
    }
}

/// A key that types something into the box.
pub open spec fn types(keystroke: Keystroke) -> bool {
    &&& !keystroke.platform && !keystroke.control && !keystroke.function
    &&& keystroke.key_char matches Some(text) && text@.len() > 0 && !has_control(text@)
}

impl Workspace {
    /// Opens the box for the terminal, where that has the focus, or for the active editor.
    pub fn open_inline_edit(&mut self, terminal_focused: bool, facts: Option<EditorFacts>)
        ensures
            ({
                let m = old(self)@;
                let opened = Model { inline_edit: final(self)@.inline_edit, ..m }.then_do(
                    Effect::Focus(FocusTarget::InlineEdit),
                );
                let fresh = |target: InlineEditTarget|
                    final(self)@.inline_edit matches Some(state) && state == (InlineEditState {
                        instruction: state.instruction,
                        target,
                        busy: false,
                        proposal: None,
                        generation: 0,
                        error: None,
                    }) && state.instruction@ == Seq::<char>::empty();
                if terminal_focused {
                    final(self)@ == opened && fresh(InlineEditTarget::Terminal)
                } else if !m.has_active_editor() || m.tab().read_only || facts is None {
                    final(self)@ == m
                } else if trim(facts->0.span().text@).len() == 0 {
                    final(self)@ == m.then_do(Effect::Toast(Notice::InlineTargetEmpty))
                } else {
                    final(self)@ == opened && fresh(
                        InlineEditTarget::Editor {
                            start: facts->0.span().start,
                            end: facts->0.span().end,
                            old_text: facts->0.span().text,
                            buffer_version: m.tab().version,
                        },
                    )
                }
            }),
    {
        let target = if terminal_focused {
            InlineEditTarget::Terminal
        } else {
            if self.active_editor().is_none() || self.tabs[self.active_tab].read_only {
                return;
            }
            let Some(facts) = facts else {
                return;
            };
            let span = if facts.selection.start == facts.selection.end {
                facts.line
            } else {
                facts.selection
            };
            if trimmed(span.text.as_str()).as_str().is_empty() {
                self.effect(Effect::Toast(Notice::InlineTargetEmpty));
                return;
            }
            InlineEditTarget::Editor {
                start: span.start,
                end: span.end,
                old_text: span.text,
                buffer_version: self.tabs[self.active_tab].version,
            }
        };
        self.effect(Effect::Focus(FocusTarget::InlineEdit));
        self.inline_edit = Some(
            InlineEditState {
                instruction: String::new(),
                target,
                busy: false,
                proposal: None,
                generation: 0,
                error: None,
            },
        );
    }

    /// Closes the box; the focus goes back to the editor or the terminal.
    pub fn close_inline_edit(&mut self)
        ensures
            final(self)@ == old(self)@.inline_closed(),
    {
        let Some(state) = self.inline_edit.take() else {
            return;
        };
        match state.target {
            InlineEditTarget::Editor { .. } => self.focus_active_editor(),
            InlineEditTarget::Terminal => self.effect(Effect::Focus(FocusTarget::TerminalIfPresent)),
        }
    }

    /// Carries out the instruction, unless it is being carried out already or is empty.
    pub fn execute_inline_edit(&mut self)
        requires
            old(self)@.inline_edit matches Some(state) ==> state.generation < u64::MAX,
        ensures
            executed(old(self)@, final(self)@),
    {
        if !self.has_active_slot() {
            return;
        }
        let Some(mut state) = self.inline_edit.take() else {
            return;
        };
        let instruction = trimmed(state.instruction.as_str());
        if state.busy || instruction.as_str().is_empty() {
            self.inline_edit = Some(state);
            return;
        }
        state.busy = true;
        state.error = None;
        state.proposal = None;
        state.generation = state.generation + 1;
        let generation: u64 = state.generation;
        let root = self.projects[self.active].root.clone();
        match &state.target {
            InlineEditTarget::Editor { old_text, .. } => {
                let old_text = old_text.clone();
                self.effect(Effect::RunInlineRewrite { root, instruction, old_text, generation });
            },
            InlineEditTarget::Terminal => {
                self.effect(Effect::RunInlineCommand { root, instruction, generation });
            },
        }
        self.inline_edit = Some(state);
    }

    /// What the instruction brought, unless the box was closed or the instruction carried out again
    /// since.
    pub fn inline_edit_done(&mut self, generation: u64, result: Result<String, String>)
        ensures
            final(self)@ == match old(self)@.inline_edit {
                Some(state) => if state.generation == generation {
                    Model { inline_edit: Some(answered(state, result)), ..old(self)@ }
                } else {
                    old(self)@
                },
                None => old(self)@,
            },
    {
        let Some(mut state) = self.inline_edit.take() else {
            return;
        };
        if state.generation == generation {
            state.busy = false;
            match result {
                Ok(text) => {
                    state.proposal = Some(text);
                },
                Err(error) => {
                    state.error = Some(error);
                },
            }
        }
        self.inline_edit = Some(state);
    }

    /// Applies the proposal. In a buffer that has changed since, it is dropped with a notice.
    pub fn accept_inline_edit(&mut self)
        ensures
            final(self)@ == old(self)@.inline_accepted(),
    {
        let Some(state) = self.inline_edit.take() else {
            return;
        };
        let InlineEditState { instruction, target, busy, proposal, generation, error } = state;
        let Some(proposal) = proposal else {
            self.inline_edit = Some(
                InlineEditState { instruction, target, busy, proposal: None, generation, error },
            );
            return;
        };
        match target {
            InlineEditTarget::Editor { start, end, buffer_version, .. } => {
                let Some(tab) = self.active_editor() else {
                    return;
                };
                if self.tabs[self.active_tab].version == buffer_version {
                    self.effect(Effect::ApplyEdit { tab, start, end, text: proposal });
                } else {
                    self.effect(Effect::Toast(Notice::InlineBufferChanged));
                }
                self.focus_active_editor();
            },
            InlineEditTarget::Terminal => {
                self.effect(Effect::InsertInTerminal(proposal));
            },
        }
    }

    /// A key was pressed in the box: escape closes it, enter accepts a proposal or carries out the
    /// instruction, and anything that changes the instruction drops the proposal.
    pub fn on_inline_edit_key_down(&mut self, keystroke: &Keystroke)
        requires
            old(self)@.inline_edit matches Some(state) ==> state.generation < u64::MAX,
        ensures
            ({
                let m = old(self)@;
                let after = final(self)@;
                if keystroke.key@ == "escape"@ {
                    after == m.inline_closed()
                } else if keystroke.key@ == "enter"@ {
                    if m.inline_edit matches Some(state) && state.proposal is Some {
                        after == m.inline_accepted()
                    } else {
                        executed(m, after)
                    }
                } else if keystroke.key@ == "backspace"@ {
                    match m.inline_edit {
                        None => after == m,
                        Some(state) => after == (Model { inline_edit: after.inline_edit, ..m })
                            && after.inline_edit is Some && reworded(
                            state,
                            after.inline_edit->0,
                            if state.instruction@.len() > 0 {
                                state.instruction@.drop_last()
                            } else {
                                state.instruction@
                            },
                        ),
                    }
                } else if m.inline_edit is Some && types(*keystroke) {
                    after == (Model { inline_edit: after.inline_edit, ..m }) && after.inline_edit is Some
                        && reworded(
                        m.inline_edit->0,
                        after.inline_edit->0,
                        m.inline_edit->0.instruction@ + keystroke.key_char->0@,
                    )
                } else {
                    after == m
                }
            }),
    {
        if same_text(keystroke.key.as_str(), "escape") {
            self.close_inline_edit();
        } else if same_text(keystroke.key.as_str(), "enter") {
            let has_proposal = match &self.inline_edit {
                Some(state) => state.proposal.is_some(),
                None => false,
            };
            if has_proposal {
                self.accept_inline_edit();
            } else {
                self.execute_inline_edit();
            }
        } else if same_text(keystroke.key.as_str(), "backspace") {
            if let Some(mut state) = self.inline_edit.take() {
                let chars = chars_of(state.instruction.as_str());
                let keep: usize = if chars.len() > 0 {
                    chars.len() - 1
                } else {
                    0
                };
                let shorter = text_of(&chars, 0, keep);
                proof {
                    if state.instruction@.len() > 0 {
                        assert(shorter@ =~= state.instruction@.drop_last());
                    } else {
                        assert(shorter@ =~= state.instruction@);
                    }
                }
                state.proposal = None;
                state.instruction = shorter;
                self.inline_edit = Some(state);
            }
        } else {
            if keystroke.platform || keystroke.control || keystroke.function {
                return;
            }
            let Some(text) = &keystroke.key_char else {
                return;
            };
            if text.as_str().is_empty() || holds_control(text.as_str()) {
                return;
            }
            if let Some(mut state) = self.inline_edit.take() {
                state.proposal = None;
                state.instruction.append(text.as_str());
                self.inline_edit = Some(state);
            }
        }
    }
}

/// Which colour a line of a preview has.
#[derive(Clone, Copy, PartialEq, Eq, Structural, Debug)]
pub enum LineTone {
    Added,
    Removed,
    Command,
    Plain,
}

/// The tone of a line, by its first character.
pub open spec fn tone(line: Seq<char>) -> LineTone {
    if line.len() == 0 {
        LineTone::Plain
    } else if line[0] == '+' {
        LineTone::Added
    } else if line[0] == '-' {
        LineTone::Removed
    } else if line[0] == '$' {
        LineTone::Command
    } else {
        LineTone::Plain
    }
}

/// The tone of a line of a preview.
pub fn line_tone(line: &str) -> (r: LineTone)
    ensures
        r == tone(line@),
{
    if line.is_empty() {
        return LineTone::Plain;
    }
    let first: char = line.get_char(0);
    if first == '+' {
        LineTone::Added
    } else if first == '-' {
        LineTone::Removed
    } else if first == '$' {
        LineTone::Command
    } else {
        LineTone::Plain
    }
}

/// What the box shows.
pub struct InlineCard {
    pub for_terminal: bool,
    /// The instruction is empty, so its place holder is shown.
    pub placeholder: bool,
    pub busy: bool,
    pub error: Option<String>,
    /// The lines of the preview; `None` without a proposal.
    pub preview: Option<Vec<String>>,
}

impl InlineEditState {
    /// What the box shows. `diff` is the difference that the proposal makes to the text of an
    /// editor; a command for the terminal is shown as it would be typed.
    pub fn card(&self, diff: &Vec<String>) -> (card: InlineCard)
        ensures
            card.for_terminal == (self.target is Terminal),
            card.placeholder == (self.instruction@.len() == 0),
            card.busy == self.busy,
            card.error == self.error,
            card.preview is Some == self.proposal is Some,
            card.preview matches Some(lines) ==> if self.target is Terminal {
                lines@.len() == 1 && lines@[0]@ == "$ "@ + self.proposal->0@
            } else {
                lines@ == diff@
            },
    {
        let for_terminal = match &self.target {
            InlineEditTarget::Editor { .. } => false,
            InlineEditTarget::Terminal => true,
        };
        let preview = match &self.proposal {
            Some(proposal) => if for_terminal {
                let mut line = "$ ".to_owned();
                line.append(proposal.as_str());
                let mut lines: Vec<String> = Vec::new();
                lines.push(line);
                Some(lines)
            } else {
                Some(texts_clone(diff))
            },
            None => None,
        };
        InlineCard {
            for_terminal,
            placeholder: self.instruction.as_str().is_empty(),
            busy: self.busy,
            error: crate::seqs::copy_maybe(&self.error),
            preview,
        }
    }
}

/// A proposal is only ever applied to the version of the buffer that it was made for.
pub proof fn stale_proposals_change_nothing(m: Model)
    requires
        m.inline_edit is Some,
        m.inline_edit->0.proposal is Some,
        m.inline_edit->0.target is Editor,
        m.has_active_editor(),
        m.tab().version != m.inline_edit->0.target->buffer_version,
    ensures
        m.inline_accepted() == (Model { inline_edit: None, ..m }).then_do(
            Effect::Toast(Notice::InlineBufferChanged),
        ).focus_editor(),
{
}

/// What is edited is the selection wherever something is selected, and the line of the caret elsewhere.
pub proof fn the_selection_goes_before_the_line(facts: EditorFacts)
    ensures
        facts.selection.start != facts.selection.end ==> facts.span() == facts.selection,
        facts.selection.start == facts.selection.end ==> facts.span() == facts.line,
{
}

/// Carrying out an instruction runs it, without white space at its ends, at the root of the shown
/// project; for an editor, on the text that it is about. While it runs the box is busy and holds no
/// proposal, and what it brings is told from what an earlier run brought.
pub proof fn instructions_run_in_the_shown_project(before: Model, after: Model)
    requires
        executed(before, after),
        before.active < before.projects.len(),
        before.inline_edit is Some,
        !before.inline_edit->0.busy,
        before.inline_edit->0.generation < u64::MAX,
        trim(before.inline_edit->0.instruction@).len() > 0,
    ensures
        ({
            let was = before.inline_edit->0;
            let state = after.inline_edit->0;
            let root = before.projects[before.active as int].root;
            let last = after.effects.last();
            &&& after.inline_edit is Some && state.busy && state.proposal is None && state.error is None
            &&& state.instruction == was.instruction && state.target == was.target
            &&& state.generation == was.generation + 1
            &&& after.effects.drop_last() == before.effects
            &&& was.target matches InlineEditTarget::Editor { old_text, .. } ==> (last
                matches Effect::RunInlineRewrite { root: r, instruction, old_text: text, generation } && r == root
                && instruction@ == trim(was.instruction@) && text == old_text && generation == state.generation)
            &&& was.target is Terminal ==> (last matches Effect::RunInlineCommand { root: r, instruction, generation }
                && r == root && instruction@ == trim(was.instruction@) && generation == state.generation)
        }),
{
    assert(after.effects.drop_last() =~= before.effects);
}

/// An instruction that is empty, or that is being carried out, is not carried out, nor one without a
/// project.
pub proof fn empty_and_busy_instructions_do_not_run(before: Model, after: Model)
    requires
        executed(before, after),
        before.active >= before.projects.len() || before.inline_edit is None || before.inline_edit->0.busy || trim(
            before.inline_edit->0.instruction@,
        ).len() == 0,
    ensures
        after == before,
{
}

/// An answer ends the run: a text is the proposal, a failure is told, and the instruction stays.
pub proof fn answers_end_the_run(state: InlineEditState, result: Result<String, String>)
    ensures
        ({
            let after = answered(state, result);
            &&& !after.busy && after.instruction == state.instruction && after.target == state.target
            &&& after.generation == state.generation
            &&& result matches Ok(text) ==> after.proposal == Some(text) && after.error == state.error
            &&& result matches Err(error) ==> after.error == Some(error) && after.proposal == state.proposal
        }),
{
}

/// A proposal that is accepted replaces exactly the text that it was made for, in the active editor;
/// one for the terminal is typed there. The box is closed either way.
pub proof fn accepted_proposals_replace_their_text(m: Model)
    requires
        m.inline_edit is Some,
        m.inline_edit->0.proposal is Some,
    ensures
        ({
            let state = m.inline_edit->0;
            let after = m.inline_accepted();
            let n = m.effects.len() as int;
            let tab = m.tabs[m.active_tab as int];
            let editing = m.active_tab < m.tabs.len() && tab.has_editor;
            &&& after.inline_edit is None
            &&& state.target is Terminal ==> after.effects == m.effects.push(
                Effect::InsertInTerminal(state.proposal->0),
            )
            &&& state.target is Editor && !editing ==> after.effects == m.effects
            &&& state.target matches InlineEditTarget::Editor { start, end, buffer_version, .. } ==> (editing ==> {
                &&& after.effects.len() == n + 2
                &&& after.effects[n + 1] == Effect::Focus(FocusTarget::Tab(tab.id))
                &&& tab.version == buffer_version ==> after.effects[n] == (Effect::ApplyEdit {
                    tab: tab.id,
                    start,
                    end,
                    text: state.proposal->0,
                })
                &&& tab.version != buffer_version ==> after.effects[n] == Effect::Toast(Notice::InlineBufferChanged)
            })
        }),
{
}

/// Without a proposal there is nothing to accept.
pub proof fn there_is_nothing_to_accept_without_a_proposal(m: Model)
    requires
        m.inline_edit is None || m.inline_edit->0.proposal is None,
    ensures
        m.inline_accepted() == m,
{
}

/// Closing the box gives the focus back to what it was opened for.
pub proof fn closing_the_box_gives_the_focus_back(m: Model)
    requires
        m.inline_edit is Some,
    ensures
        m.inline_closed().inline_edit is None,
        m.inline_edit->0.target is Terminal ==> m.inline_closed().effects == m.effects.push(
            Effect::Focus(FocusTarget::TerminalIfPresent),
        ),
        m.inline_edit->0.target is Editor && m.active_tab < m.tabs.len() && m.tabs[m.active_tab as int].has_editor
            ==> m.inline_closed().effects == m.effects.push(
            Effect::Focus(FocusTarget::Tab(m.tabs[m.active_tab as int].id)),
        ),
{
}

/// The tone of a line goes by its first character alone.
pub proof fn tones_go_by_the_first_character(line: Seq<char>, rest: Seq<char>)
    ensures
        tone(seq!['+'] + rest) == LineTone::Added,
        tone(seq!['-'] + rest) == LineTone::Removed,
        tone(seq!['$'] + rest) == LineTone::Command,
        line.len() == 0 || (line[0] != '+' && line[0] != '-' && line[0] != '$') ==> tone(line) == LineTone::Plain,
        line.len() > 0 ==> tone(line) == tone(line + rest),
{
}

/// Changing the instruction drops the proposal, which was for another one, and nothing else.
pub proof fn another_instruction_drops_the_proposal(
    before: InlineEditState,
    after: InlineEditState,
    instruction: Seq<char>,
)
    requires
        reworded(before, after, instruction),
    ensures
        after.instruction@ == instruction,
        after.proposal is None,
        after.target == before.target,
        after.generation == before.generation,
        after.busy == before.busy,
        after.error == before.error,
{
}

/// A key types something exactly if it stands for a text without control characters, and none of the
/// modifiers is held that make shortcuts.
pub proof fn shortcuts_type_nothing(keystroke: Keystroke)
    ensures
        keystroke.platform || keystroke.control || keystroke.function ==> !types(keystroke),
        keystroke.key_char is None ==> !types(keystroke),
        keystroke.key_char matches Some(text) ==> (text@.len() == 0 || has_control(text@) ==> !types(keystroke)),
        keystroke.key_char matches Some(text) ==> (text@.len() > 0 && !has_control(text@) && !keystroke.platform
            && !keystroke.control && !keystroke.function ==> types(keystroke)),
{
}

} // verus!
