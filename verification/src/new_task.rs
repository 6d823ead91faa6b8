//! The dialog that starts a task.

use vstd::prelude::*;
use vstd::string::*;
use crate::fleet_sidebar::integration_slot;
use crate::paths::{replace_each, replaced};
use crate::seqs::maybe_text;
use crate::text::{trim, trimmed};
use crate::workspace::{Chrome, Effect, FocusTarget, Model, SpaceKind, Surface, Workspace};

verus! {

/// The dialog while it is open.
pub struct NewTaskDialog {
    pub prompt: String,
    pub details_open: bool,
    /// The branch to work on; empty for one of its own.
    pub branch: String,
    /// Where a new branch starts; empty for the head of the integration space.
    pub base: String,
    /// The root of the integration space.
    pub root: Option<String>,
    pub setup_script_present: bool,
    pub skip_setup: bool,
    /// What had the focus before.
    pub previous_focus: Option<u64>,
    pub input_focused: bool,
}

/// What was typed into a field; `None` where that is nothing but white space.
pub open spec fn field(text: Seq<char>) -> Option<Seq<char>> {
    if trim(text).len() == 0 {
        None
    } else {
        Some(trim(text))
    }
}

fn field_text(text: &String) -> (r: Option<String>)
    ensures
        maybe_text(r) == field(text@),
{
    let bare = trimmed(text.as_str());
    if bare.as_str().is_empty() {
        None
    } else {
        Some(bare)
    }
}

impl Model {
    /// Where tasks of the repository that is shown are merged into.
    pub open spec fn integration_of_shown(self) -> Option<int> {
        match self.repository() {
            Some(key) => integration_slot(self.projects, key),
            None => None,
        }
    }
}

/// The effect starts the task of the dialog.
pub open spec fn starts(effect: Effect, dialog: NewTaskDialog) -> bool {
    match effect {
        Effect::CreateTask { root, prompt, branch, base, skip_setup } => {
            &&& dialog.root == Some(root)
            &&& prompt == dialog.prompt
            &&& maybe_text(branch) == field(dialog.branch@)
            &&& maybe_text(base) == field(dialog.base@)
            &&& skip_setup == dialog.skip_setup
        },
        _ => false,
    }
}

/// What submitting the dialog does: nothing without a repository or a prompt.
pub open spec fn submitted(before: Model, after: Model) -> bool {
    match before.new_task {
        None => after == before,
        Some(dialog) => if dialog.root is None || trim(dialog.prompt@).len() == 0 {
            after == before
        } else {
            &&& after.effects.len() == before.effects.len() + 1
            &&& starts(after.effects.last(), dialog)
            &&& after == (Model { new_task: None, ..before }).then_do(after.effects.last())
        },
    }
}

/// The name of the folder of a task: that of its branch, without slashes, or its own.
pub open spec fn folder_name(slug: Seq<char>, branch: Seq<char>) -> Seq<char> {
    if trim(branch).len() == 0 {
        slug
    } else {
        replaced(trim(branch), '/', "-"@)
    }
}

/// The name of the branch of a task.
pub open spec fn branch_label(slug: Seq<char>, branch: Seq<char>) -> Seq<char> {
    if trim(branch).len() == 0 {
        "task/"@ + slug
    } else {
        trim(branch)
    }
}

impl NewTaskDialog {
    /// The name of the folder that the task will have; `slug` is the short form of its prompt.
    pub fn folder(&self, slug: &str) -> (r: String)
        ensures
            r@ == folder_name(slug@, self.branch@),
    {
        let branch = trimmed(self.branch.as_str());
        if branch.as_str().is_empty() {
            slug.to_owned()
        } else {
            replace_each(branch.as_str(), '/', "-")
        }
    }

    /// The name of the branch that the task will have.
    pub fn branch_name(&self, slug: &str) -> (r: String)
        ensures
            r@ == branch_label(slug@, self.branch@),
    {
        let branch = trimmed(self.branch.as_str());
        if branch.as_str().is_empty() {
            let mut out = "task/".to_owned();
            out.append(slug);
            out
        } else {
            branch
        }
    }

    /// Where a new branch starts, where that was chosen.
    pub fn chosen_base(&self) -> (r: Option<String>)
        ensures
            maybe_text(r) == field(self.base@),
    {
        field_text(&self.base)
    }
}

impl Workspace {
    /// Where tasks of the repository that is shown are merged into.
    pub fn integration_index_for_active_repository(&self) -> (r: Option<usize>)
        ensures
            match r {
                Some(i) => i < self@.projects.len() && self@.integration_of_shown() == Some(i as int),
                None => self@.integration_of_shown() == None::<int>,
            },
    {
        match self.fleet_repository_key() {
            Some(key) => self.integration_slot_for(&key),
            None => None,
        }
    }

    /// Opens the dialog. `setup_present` says whether the place that tasks are merged into has a
    /// setup script, `focused` is what has the focus.
    pub fn open_new_task(&mut self, setup_present: bool, focused: Option<u64>)
        ensures
            if old(self)@.new_task is Some {
                final(self)@ == old(self)@
            } else {
                &&& final(self)@ == (Model { new_task: final(self)@.new_task, ..old(self)@ }).then_do(
                    Effect::Focus(FocusTarget::NewTask),
                )
                &&& final(self)@.new_task matches Some(dialog) && {
                    &&& dialog.prompt@ == Seq::<char>::empty()
                    &&& !dialog.details_open
                    &&& dialog.branch@ == Seq::<char>::empty()
                    &&& dialog.base@ == Seq::<char>::empty()
                    &&& dialog.root == match old(self)@.integration_of_shown() {
                        Some(i) => Some(old(self)@.projects[i].root),
                        None => None,
                    }
                    &&& dialog.setup_script_present == (setup_present && dialog.root is Some)
                    &&& !dialog.skip_setup
                    &&& dialog.previous_focus == focused
                    &&& dialog.input_focused
                }
            },
    {
        if self.new_task.is_some() {
            return;
        }
        self.effect(Effect::Focus(FocusTarget::NewTask));
        let root = match self.integration_index_for_active_repository() {
            Some(i) => Some(self.projects[i].root.clone()),
            None => None,
        };
        let setup_script_present = setup_present && root.is_some();
        self.new_task = Some(
            NewTaskDialog {
                prompt: String::new(),
                details_open: false,
                branch: String::new(),
                base: String::new(),
                root,
                setup_script_present,
                skip_setup: false,
                previous_focus: focused,
                input_focused: true,
            },
        );
    }

    /// Whether the prompt of the dialog has the focus.
    pub fn new_task_input_focused(&self) -> (b: bool)
        ensures
            b == (self@.new_task matches Some(dialog) && dialog.input_focused),
    {
        match &self.new_task {
            Some(dialog) => dialog.input_focused,
            None => false,
        }
    }

    /// What was typed as the prompt; `None` without the dialog.
    pub fn new_task_input_text(&self) -> (r: Option<String>)
        ensures
            r == match self@.new_task {
                Some(dialog) => Some(dialog.prompt),
                None => None::<String>,
            },
    {
        match &self.new_task {
            Some(dialog) => Some(dialog.prompt.clone()),
            None => None,
        }
    }

    /// Closes the dialog; the focus goes back to where it was.
    pub fn cancel_new_task(&mut self)
        ensures
            final(self)@ == match old(self)@.new_task {
                None => old(self)@,
                Some(dialog) => {
                    let m = Model { new_task: None, ..old(self)@ };
                    match dialog.previous_focus {
                        Some(focus) => m.then_do(Effect::Focus(FocusTarget::Previous(focus))),
                        None => m,
                    }
                },
            },
    {
        let Some(dialog) = self.new_task.take() else {
            return;
        };
        if let Some(focus) = dialog.previous_focus {
            self.effect(Effect::Focus(FocusTarget::Previous(focus)));
        }
    }

    /// Starts the task, if there is a repository for it and something to do.
    pub fn submit_new_task(&mut self)
        ensures
            submitted(old(self)@, final(self)@),
    {
        let Some(dialog) = self.new_task.take() else {
            return;
        };
        let empty = trimmed(dialog.prompt.as_str()).as_str().is_empty();
        if dialog.root.is_none() || empty {
            self.new_task = Some(dialog);
            return;
        }
        let branch = field_text(&dialog.branch);
        let base = field_text(&dialog.base);
        let NewTaskDialog { prompt, root, skip_setup, .. } = dialog;
        if let Some(root) = root {
            self.effect(Effect::CreateTask { root, prompt, branch, base, skip_setup });
        }
    }

    /// Shows more of the dialog, or less.
    pub fn toggle_new_task_details(&mut self)
        ensures
            final(self)@ == match old(self)@.new_task {
                None => old(self)@,
                Some(dialog) => Model {
                    new_task: Some(NewTaskDialog { details_open: !dialog.details_open, ..dialog }),
                    ..old(self)@
                },
            },
    {
        if let Some(mut dialog) = self.new_task.take() {
            dialog.details_open = !dialog.details_open;
            self.new_task = Some(dialog);
        }
    }

    /// Leaves the setup script out, or not.
    pub fn toggle_new_task_setup(&mut self)
        ensures
            final(self)@ == match old(self)@.new_task {
                None => old(self)@,
                Some(dialog) => Model {
                    new_task: Some(NewTaskDialog { skip_setup: !dialog.skip_setup, ..dialog }),
                    ..old(self)@
                },
            },
    {
        if let Some(mut dialog) = self.new_task.take() {
            dialog.skip_setup = !dialog.skip_setup;
            self.new_task = Some(dialog);
        }
    }

    /// Asks for a setup script where tasks are merged into.
    pub fn create_setup_script(&mut self)
        ensures
            final(self)@ == match old(self)@.integration_of_shown() {
                None => old(self)@,
                Some(i) => old(self)@.then_do(
                    Effect::WriteSetupScript {
                        index: i as usize,
                        host_id: old(self)@.projects[i].host_id,
                        root: old(self)@.projects[i].root,
                    },
                ),
            },
    {
        if let Some(index) = self.integration_index_for_active_repository() {
            let host_id = self.projects[index].host_id.clone();
            let root = self.projects[index].root.clone();
            self.effect(Effect::WriteSetupScript { index, host_id, root });
        }
    }

    /// The setup script is there, at this path: opens it in the editor. Or it could not be written;
    /// one that was there before is as good.
    pub fn setup_script_written(&mut self, index: usize, path: String, result: Result<(), String>, exists: bool)
        ensures
            final(self)@ == match result {
                Err(error) => if exists {
                    old(self)@.setup_script_opened(index, path)
                } else {
                    old(self)@.then_do(Effect::ToastText(error))
                },
                Ok(_) => old(self)@.setup_script_opened(index, path),
            },
    {
        if let Err(error) = result {
            if !exists {
                self.effect(Effect::ToastText(error));
                return;
            }
        }
        self.new_task = None;
        self.chrome.surface.fleet_mode = false;
        self.effect(Effect::SwitchProject(index));
        self.effect(Effect::OpenFile(path));
    }
}

impl Model {
    /// The setup script is shown in the editor of its project.
    pub open spec fn setup_script_opened(self, index: usize, path: String) -> Model {
        (Model {
            new_task: None,
            chrome: Chrome { surface: Surface { fleet_mode: false, ..self.chrome.surface }, ..self.chrome },
            ..self
        }).then_do(Effect::SwitchProject(index)).then_do(Effect::OpenFile(path))
    }
}

/// The folder of a task is always a single folder.
pub proof fn task_folders_are_single(slug: Seq<char>, branch: Seq<char>)
    requires
        trim(branch).len() > 0,
    ensures
        !folder_name(slug, branch).contains('/'),
{
    reveal_strlit("-");
    crate::paths::replaced_is_rid_of(trim(branch), '/', "-"@, '/');
}

/// A field holds something exactly if something but white space was typed, and then that, without the
/// white space around it.
pub proof fn fields_hold_what_was_typed(text: Seq<char>)
    ensures
        field(text) is Some <==> trim(text).len() > 0,
        field(text) matches Some(typed) ==> typed == trim(text),
{
}

/// A task is started where tasks are merged into, with exactly the prompt that was typed; a branch and
/// a base only where one was typed. The dialog closes. Without a repository or a prompt it stays open,
/// and nothing is started.
pub proof fn tasks_are_started_as_asked(before: Model, after: Model)
    requires
        submitted(before, after),
        before.new_task is Some,
    ensures
        ({
            let dialog = before.new_task->0;
            let last = after.effects.last();
            &&& dialog.root is None || trim(dialog.prompt@).len() == 0 ==> after == before
            &&& dialog.root is Some && trim(dialog.prompt@).len() > 0 ==> {
                &&& after.new_task is None
                &&& after.effects.drop_last() == before.effects
                &&& last is CreateTask
                &&& last->CreateTask_root == dialog.root->0
                &&& last->CreateTask_prompt == dialog.prompt
                &&& last->CreateTask_skip_setup == dialog.skip_setup
                &&& (last->CreateTask_branch is Some <==> trim(dialog.branch@).len() > 0)
                &&& last->CreateTask_branch matches Some(branch) ==> branch@ == trim(dialog.branch@)
                &&& (last->CreateTask_base is Some <==> trim(dialog.base@).len() > 0)
                &&& last->CreateTask_base matches Some(base) ==> base@ == trim(dialog.base@)
            }
        }),
{
    if before.new_task->0.root is Some && trim(before.new_task->0.prompt@).len() > 0 {
        assert(after.effects.drop_last() =~= before.effects);
    }
}

proof fn slashes_turn_into_dashes(s: Seq<char>)
    ensures
        replaced(s, '/', "-"@).len() == s.len(),
        forall|k: int|
            0 <= k < s.len() ==> #[trigger] replaced(s, '/', "-"@)[k] == if s[k] == '/' { '-' } else { s[k] },
    decreases s.len(),
{
    reveal_strlit("-");
    if s.len() > 0 {
        slashes_turn_into_dashes(s.drop_last());
    }
}

/// The folder of a task is named as its branch is, with a dash for each slash; a task without a branch
/// of its own has the short form of its prompt as its folder, and a branch named after that.
pub proof fn folders_are_named_after_branches(slug: Seq<char>, branch: Seq<char>)
    ensures
        trim(branch).len() == 0 ==> folder_name(slug, branch) == slug,
        trim(branch).len() == 0 ==> branch_label(slug, branch) == seq!['t', 'a', 's', 'k', '/'] + slug,
        trim(branch).len() > 0 ==> {
            let folder = folder_name(slug, branch);
            let label = branch_label(slug, branch);
            &&& label == trim(branch)
            &&& folder.len() == label.len()
            &&& forall|k: int|
                0 <= k < label.len() ==> #[trigger] folder[k] == if label[k] == '/' { '-' } else { label[k] }
        },
{
    reveal_strlit("task/");
    assert("task/"@ =~= seq!['t', 'a', 's', 'k', '/']);
    slashes_turn_into_dashes(trim(branch));
}

/// Tasks go into the repository of the shown project, at a slot that takes them; there is none exactly
/// if no slot of it does.
pub proof fn tasks_go_into_the_shown_repository(m: Model)
    requires
        m.active < m.projects.len(),
    ensures
        ({
            let key = m.projects[m.active as int].task_space.repository_id@;
            match m.integration_of_shown() {
                Some(i) => 0 <= i < m.projects.len() && m.projects[i].task_space.repository_id@ == key
                    && m.projects[i].task_space.kind == SpaceKind::Integration,
                None => forall|k: int|
                    0 <= k < m.projects.len() ==> !((#[trigger] m.projects[k]).task_space.repository_id@ == key
                        && m.projects[k].task_space.kind == SpaceKind::Integration),
            }
        }),
{
    crate::fleet_sidebar::tasks_are_merged_into_the_main_worktree(
        m.projects,
        m.projects[m.active as int].task_space.repository_id@,
    );
}

/// A setup script is opened in the editor of its project, outside of the fleet, and the dialog closes.
pub proof fn setup_scripts_are_opened_in_their_project(m: Model, index: usize, path: String)
    ensures
        ({
            let after = m.setup_script_opened(index, path);
            let n = m.effects.len() as int;
            &&& after.new_task is None && !after.chrome.surface.fleet_mode
            &&& after.chrome.docks == m.chrome.docks
            &&& after.effects.len() == n + 2
            &&& after.effects[n] == Effect::SwitchProject(index)
            &&& after.effects[n + 1] == Effect::OpenFile(path)
        }),
{
}

} // verus!
