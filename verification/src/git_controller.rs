//! Source control: the panel, the branch menu, and the jobs that run git and gh.

use vstd::prelude::*;
use vstd::string::*;
use crate::failure::{failure_gist, gist, gist_leaves_out};
use crate::paths::{
    components, file_name, folder_of, in_folder, is_same_path, name_of, names_in_folders_come_last, parent_folder,
    path_in, replace_each, replaced, replaced_is_rid_of, same_path,
};
use crate::seqs::{first_index, first_index_holds, first_index_is, first_index_none, maybe_text};
use crate::text::{same_text, starts_with, trim, trimmed};
use crate::workspace::{
    Boards, Chrome, Docks, Effect, FocusTarget, Keystroke, Model, Workspace, WorktreeEntry,
};

verus! {

/// What the branch menu shows.
pub struct BranchMenu {
    pub current: Option<String>,
    pub branches: Vec<String>,
    pub worktrees: Vec<WorktreeEntry>,
}

/// The source control panel of a project.
pub struct GitPanel {
    pub id: u64,
    pub open: bool,
    /// A job is running.
    pub busy: bool,
    pub message: String,
    /// What was typed as the name of a new branch, while one is being named.
    pub branch_name: Option<String>,
    pub branch_menu: Option<BranchMenu>,
}

/// A job for git or gh.
pub enum GitJob {
    LoadBranchMenu,
    Switch { branch: String },
    OpenWorktree { branch: String, parent: String, repo_name: String },
    Commit { message: String },
    Stage { path: String },
    Unstage { path: String },
    StageAll,
    Push,
    Pull,
    CreatePr,
    OpenPr,
    WriteMessage,
    CreateBranch { name: String },
    DeleteBranch { branch: String },
}

/// What a failure notice is about.
#[derive(Clone, Copy, PartialEq, Eq, Structural, Debug)]
pub enum Headline {
    StageFailed,
    UnstageFailed,
    CommitFailed,
    PushFailed,
    PullFailed,
    PrCreateFailed,
    PrOpenFailed,
    AiMessageFailed,
    BranchCreateFailed,
}

/// The whole output of a command that failed.
pub struct FailureOutput {
    pub command: String,
    pub output: String,
}

impl GitJob {
    /// What is told of the job where it fails.
    pub open spec fn spec_headline(self) -> Headline {
        match self {
            GitJob::Stage { .. } => Headline::StageFailed,
            GitJob::StageAll => Headline::StageFailed,
            GitJob::Unstage { .. } => Headline::UnstageFailed,
            GitJob::Push => Headline::PushFailed,
            GitJob::Pull => Headline::PullFailed,
            GitJob::CreatePr => Headline::PrCreateFailed,
            GitJob::OpenPr => Headline::PrOpenFailed,
            GitJob::WriteMessage => Headline::AiMessageFailed,
            GitJob::CreateBranch { .. } => Headline::BranchCreateFailed,
            _ => Headline::CommitFailed,
        }
    }

    /// The command that the job runs, as it is told; empty where nothing fixed is run.
    pub open spec fn spec_command(self) -> Seq<char> {
        match self {
            GitJob::Stage { .. } => "git add"@,
            GitJob::StageAll => "git add -A"@,
            GitJob::Unstage { .. } => "git restore --staged"@,
            GitJob::Push => "git push"@,
            GitJob::Pull => "git pull"@,
            GitJob::CreatePr => "gh pr create"@,
            GitJob::OpenPr => "gh pr view"@,
            GitJob::CreateBranch { .. } => "git switch -c"@,
            GitJob::Commit { .. } => "git commit"@,
            _ => ""@,
        }
    }

    /// What is told of the job where it fails.
    pub fn headline(&self) -> (r: Headline)
        ensures
            r == self.spec_headline(),
    {
        match self {
            GitJob::Stage { .. } => Headline::StageFailed,
            GitJob::StageAll => Headline::StageFailed,
            GitJob::Unstage { .. } => Headline::UnstageFailed,
            GitJob::Push => Headline::PushFailed,
            GitJob::Pull => Headline::PullFailed,
            GitJob::CreatePr => Headline::PrCreateFailed,
            GitJob::OpenPr => Headline::PrOpenFailed,
            GitJob::WriteMessage => Headline::AiMessageFailed,
            GitJob::CreateBranch { .. } => Headline::BranchCreateFailed,
            _ => Headline::CommitFailed,
        }
    }

    /// The command that the job runs, as it is told; empty where nothing fixed is run.
    pub fn command(&self) -> (r: &'static str)
        ensures
            r@ == self.spec_command(),
    {
        match self {
            GitJob::Stage { .. } => "git add",
            GitJob::StageAll => "git add -A",
            GitJob::Unstage { .. } => "git restore --staged",
            GitJob::Push => "git push",
            GitJob::Pull => "git pull",
            GitJob::CreatePr => "gh pr create",
            GitJob::OpenPr => "gh pr view",
            GitJob::CreateBranch { .. } => "git switch -c",
            GitJob::Commit { .. } => "git commit",
            _ => "",
        }
    }
}

/// The worktree has this branch checked out.
pub open spec fn checked_out(branch: Seq<char>) -> spec_fn(WorktreeEntry) -> bool {
    |entry: WorktreeEntry| maybe_text(entry.branch) == Some(branch)
}

/// Where the first worktree with this branch stands in the list.
pub open spec fn worktree_of(worktrees: Seq<WorktreeEntry>, branch: Seq<char>) -> Option<int> {
    first_index(worktrees, checked_out(branch))
}

fn find_worktree(worktrees: &Vec<WorktreeEntry>, branch: &str) -> (r: Option<usize>)
    ensures
        match r {
            Some(i) => i < worktrees@.len() && worktree_of(worktrees@, branch@) == Some(i as int),
            None => worktree_of(worktrees@, branch@) == None::<int>,
        },
{
    let ghost wanted = checked_out(branch@);
    let mut i: usize = 0;
    while i < worktrees.len()
        invariant
            i <= worktrees@.len(),
            wanted == checked_out(branch@),
            forall|j: int| 0 <= j < i ==> !wanted(#[trigger] worktrees@[j]),
        decreases worktrees@.len() - i,
    {
        if let Some(name) = &worktrees[i].branch {
            if same_text(name.as_str(), branch) {
                proof {
                    first_index_is(worktrees@, wanted, i as int);
                }
                return Some(i);
            }
        }
        i = i + 1;
    }
    proof {
        first_index_none(worktrees@, wanted);
    }
    None
}

/// How to get to a branch.
pub enum SwitchRoute {
    /// It is checked out here.
    Stay,
    /// It is checked out in this worktree.
    Open(String),
    /// It is to be checked out here.
    Switch,
}

/// How to get to a branch: git refuses to check out a branch twice, so the worktree that has it is
/// opened.
pub fn switch_route(worktrees: &Vec<WorktreeEntry>, root: &str, branch: &str) -> (r: SwitchRoute)
    ensures
        match worktree_of(worktrees@, branch@) {
            Some(i) => if same_path(worktrees@[i].path@, root@) {
                r is Stay
            } else {
                r == SwitchRoute::Open(worktrees@[i].path)
            },
            None => r is Switch,
        },
{
    match find_worktree(worktrees, branch) {
        Some(i) => if is_same_path(worktrees[i].path.as_str(), root) {
            SwitchRoute::Stay
        } else {
            SwitchRoute::Open(worktrees[i].path.clone())
        },
        None => SwitchRoute::Switch,
    }
}

/// The worktree of a branch: one that is there, or one to make.
pub enum WorktreeTarget {
    Existing(String),
    Create(String),
}

/// Where the worktree of a branch is made: beside the repository, named after both.
pub open spec fn new_worktree_path(parent: Seq<char>, repo_name: Seq<char>, branch: Seq<char>) -> Seq<char> {
    in_folder(parent, repo_name + "-"@ + replaced(branch, '/', "-"@))
}

/// The worktree of a branch.
pub fn worktree_target(worktrees: &Vec<WorktreeEntry>, parent: &str, repo_name: &str, branch: &str) -> (r: WorktreeTarget)
    ensures
        match worktree_of(worktrees@, branch@) {
            Some(i) => r == WorktreeTarget::Existing(worktrees@[i].path),
            None => r matches WorktreeTarget::Create(path) && path@ == new_worktree_path(
                parent@,
                repo_name@,
                branch@,
            ),
        },
{
    match find_worktree(worktrees, branch) {
        Some(i) => WorktreeTarget::Existing(worktrees[i].path.clone()),
        None => {
            let mut name = repo_name.to_owned();
            name.append("-");
            name.append(replace_each(branch, '/', "-").as_str());
            WorktreeTarget::Create(path_in(parent, name.as_str()))
        },
    }
}

/// Whether a branch is checked out in a worktree, so that it cannot be deleted.
pub fn branch_in_use(worktrees: &Vec<WorktreeEntry>, branch: &str) -> (b: bool)
    ensures
        b == (worktree_of(worktrees@, branch@) is Some),
{
    find_worktree(worktrees, branch).is_some()
}

/// What a commit takes.
#[derive(Clone, Copy, PartialEq, Eq, Structural, Debug)]
pub enum CommitPlan {
    NothingToCommit,
    StageAllFirst,
    Commit,
}

/// What a commit takes, where `staged` tells of each change whether it is staged: what is staged,
/// or everything where nothing is.
pub fn commit_plan(staged: &Vec<bool>) -> (r: CommitPlan)
    ensures
        r == if staged@.len() == 0 {
            CommitPlan::NothingToCommit
        } else if staged@.contains(true) {
            CommitPlan::Commit
        } else {
            CommitPlan::StageAllFirst
        },
{
    if staged.len() == 0 {
        return CommitPlan::NothingToCommit;
    }
    let mut i: usize = 0;
    while i < staged.len()
        invariant
            i <= staged@.len(),
            forall|k: int| 0 <= k < i ==> !(#[trigger] staged@[k]),
        decreases staged@.len() - i,
    {
        if staged[i] {
            assert(staged@[i as int]);
            return CommitPlan::Commit;
        }
        i = i + 1;
    }
    CommitPlan::StageAllFirst
}

/// The effect tells of a failure: the gist of the output, and the whole of it where the gist leaves
/// something out.
pub open spec fn tells_failure(effect: Effect, headline: Headline, command: Seq<char>, output: Seq<char>) -> bool {
    match effect {
        Effect::FailureToast { headline: h, gist: g, details } => {
            &&& h == headline
            &&& g@ == gist(output)
            &&& match details {
                Some(whole) => gist_leaves_out(output) && whole.command@ == command && whole.output@ == output,
                None => !gist_leaves_out(output),
            }
        },
        _ => false,
    }
}

/// The state after a failure was told.
pub open spec fn failure_told(before: Model, after: Model, headline: Headline, command: Seq<char>, output: Seq<char>) -> bool {
    &&& after.effects.len() == before.effects.len() + 1
    &&& tells_failure(after.effects.last(), headline, command, output)
    &&& after == before.then_do(after.effects.last())
}

pub open spec fn is_panel(id: u64) -> spec_fn(GitPanel) -> bool {
    |panel: GitPanel| panel.id == id
}

pub open spec fn set_busy(busy: bool) -> spec_fn(GitPanel) -> GitPanel {
    |panel: GitPanel| GitPanel { busy, ..panel }
}

pub open spec fn set_message(message: String) -> spec_fn(GitPanel) -> GitPanel {
    |panel: GitPanel| GitPanel { message, ..panel }
}

pub open spec fn set_menu(menu: BranchMenu) -> spec_fn(GitPanel) -> GitPanel {
    |panel: GitPanel| GitPanel { branch_menu: Some(menu), ..panel }
}

/// A panel that nothing was done with yet.
pub open spec fn fresh_panel(panel: GitPanel) -> bool {
    &&& !panel.open && !panel.busy && panel.message@.len() == 0
    &&& panel.branch_name is None && panel.branch_menu is None
}

impl Model {
    pub open spec fn with_git(self, git: GitPanel) -> Model {
        Model { git, ..self }
    }

    /// A panel is changed, whether its project is shown or not. One that is gone is not.
    pub open spec fn with_panel(self, panel: u64, change: spec_fn(GitPanel) -> GitPanel) -> Model {
        if self.git.id == panel {
            self.with_git(change(self.git))
        } else {
            match first_index(self.resting_git, is_panel(panel)) {
                Some(i) => Model {
                    resting_git: self.resting_git.update(i, change(self.resting_git[i])),
                    ..self
                },
                None => self,
            }
        }
    }

    /// A job of the shown panel is running, or not.
    pub open spec fn git_busy(self, busy: bool) -> Model {
        self.with_git(GitPanel { busy, ..self.git })
    }

    /// The job of a panel is over.
    pub open spec fn job_over(self, panel: u64) -> Model {
        self.with_panel(panel, set_busy(false))
    }

    /// Another panel is shown: the one that rests, or else a fresh one.
    pub open spec fn panel_shown(self, panel: u64, fresh: GitPanel) -> Model {
        if self.git.id == panel {
            self
        } else {
            match first_index(self.resting_git, is_panel(panel)) {
                Some(i) => Model {
                    git: self.resting_git[i],
                    resting_git: self.resting_git.remove(i).push(self.git),
                    ..self
                },
                None => Model { git: fresh, resting_git: self.resting_git.push(self.git), ..self },
            }
        }
    }

    pub open spec fn branch_menu_closed(self) -> Model {
        self.with_git(GitPanel { branch_menu: None, ..self.git })
    }

    /// No branch is being named.
    pub open spec fn naming_ended(self) -> Model {
        self.with_git(GitPanel { branch_name: None, ..self.git })
    }

    /// A job of the shown project is run.
    pub open spec fn job_run(self, job: GitJob) -> Model {
        self.then_do(
            Effect::RunGit { panel: self.git.id, root: self.slot().root, host_id: self.slot().host_id, job },
        )
    }

    /// A job that nothing may run beside is run, where that is possible.
    pub open spec fn busy_job_run(self, job: GitJob) -> Model {
        if self.git.busy || !self.has_slot() {
            self
        } else {
            self.git_busy(true).job_run(job)
        }
    }

    /// The input of the panel has the focus: the name of the branch while one is being named, the
    /// message otherwise.
    pub open spec fn git_input_focused(self) -> Model {
        self.then_do(
            Effect::Focus(
                if self.git.branch_name is Some {
                    FocusTarget::GitBranchName
                } else {
                    FocusTarget::GitMessage
                },
            ),
        )
    }

    /// The panel is shown, or is not any more.
    pub open spec fn git_panel_toggled(self) -> Model {
        let m = self.with_git(GitPanel { open: !self.git.open, ..self.git });
        if self.git.open {
            m.focus_editor()
        } else {
            m.with_chrome(
                Chrome {
                    docks: Docks { left: true, herd: false, ..self.chrome.docks },
                    boards: Boards { todo_open: false, ..self.chrome.boards },
                    ..self.chrome
                },
            ).git_input_focused().then_do(Effect::RefreshGitStatus)
        }
    }

    /// The shown project is read again.
    pub open spec fn project_reloaded(self) -> Model {
        (Model { split: None, ..self.then_do(Effect::RefreshExplorer) }).then_do(
            Effect::ReopenSlotFiles,
        ).then_do(Effect::RefreshGitStatus).then_do(Effect::UpdateAgentDestination)
    }

    /// Naming a branch ends, or else the panel is closed.
    pub open spec fn git_input_cancelled(self) -> Model {
        if self.git.branch_name is Some {
            self.naming_ended().git_input_focused()
        } else {
            self.git_panel_toggled()
        }
    }

    /// A commit is made, where there is something to say about it.
    pub open spec fn committed(self) -> Model {
        if trim(self.git.message@).len() > 0 {
            self.busy_job_run(GitJob::Commit { message: self.git.message })
        } else {
            self
        }
    }
}

/// What naming a branch leads to.
pub open spec fn branch_named(before: Model, after: Model) -> bool {
    let name = match before.git.branch_name {
        Some(text) => trim(text@),
        None => Seq::empty(),
    };
    if name.len() == 0 {
        after == before.naming_ended().git_input_focused()
    } else if before.has_slot() {
        exists|text: String|
            text@ == name && after == #[trigger] before.job_run(GitJob::CreateBranch { name: text })
    } else {
        after == before
    }
}

impl Workspace {
    pub fn git_panel_open(&self) -> (b: bool)
        ensures
            b == self@.git.open,
    {
        self.git.open
    }

    pub fn git_is_busy(&self) -> (b: bool)
        ensures
            b == self@.git.busy,
    {
        self.git.busy
    }

    /// Closes the branch menu; tells whether it was open.
    pub fn close_branch_menu(&mut self) -> (was_open: bool)
        ensures
            was_open == (old(self)@.git.branch_menu is Some),
            final(self)@ == old(self)@.branch_menu_closed(),
    {
        let was_open = self.git.branch_menu.is_some();
        self.git.branch_menu = None;
        was_open
    }

    fn resting_index(&self, panel: u64) -> (r: Option<usize>)
        ensures
            match r {
                Some(i) => i < self@.resting_git.len() && first_index(self@.resting_git, is_panel(panel)) == Some(
                    i as int,
                ),
                None => first_index(self@.resting_git, is_panel(panel)) == None::<int>,
            },
    {
        let ghost wanted = is_panel(panel);
        let mut i: usize = 0;
        while i < self.resting_git.len()
            invariant
                i <= self.resting_git@.len(),
                wanted == is_panel(panel),
                forall|j: int| 0 <= j < i ==> !wanted(#[trigger] self.resting_git@[j]),
            decreases self.resting_git@.len() - i,
        {
            if self.resting_git[i].id == panel {
                proof {
                    first_index_is(self.resting_git@, wanted, i as int);
                }
                return Some(i);
            }
            i = i + 1;
        }
        proof {
            first_index_none(self.resting_git@, wanted);
        }
        None
    }

    fn end_job(&mut self, panel: u64)
        ensures
            final(self)@ == old(self)@.job_over(panel),
    {
        if self.git.id == panel {
            self.git.busy = false;
        } else if let Some(i) = self.resting_index(panel) {
            self.resting_git[i].busy = false;
            assert(self@.resting_git =~= old(self)@.job_over(panel).resting_git);
        }
    }

    fn put_message(&mut self, panel: u64, message: String)
        ensures
            final(self)@ == old(self)@.with_panel(panel, set_message(message)),
    {
        if self.git.id == panel {
            self.git.message = message;
        } else if let Some(i) = self.resting_index(panel) {
            self.resting_git[i].message = message;
            assert(self@.resting_git =~= old(self)@.with_panel(panel, set_message(message)).resting_git);
        }
    }

    /// Another project is shown, with this source control panel. What was typed in the one before is
    /// there again when it is shown again.
    pub fn show_git_panel(&mut self, panel: u64)
        ensures
            exists|fresh: GitPanel|
                fresh.id == panel && fresh_panel(fresh) && final(self)@ == #[trigger] old(self)@.panel_shown(
                    panel,
                    fresh,
                ),
    {
        let mut next = Workspace::new_git_panel(panel);
        let ghost fresh = next;
        if self.git.id == panel {
            assert(self@ == old(self)@.panel_shown(panel, fresh));
            return;
        }
        if let Some(i) = self.resting_index(panel) {
            next = self.resting_git.remove(i);
        }
        std::mem::swap(&mut self.git, &mut next);
        self.resting_git.push(next);
        assert(self@.resting_git =~= old(self)@.panel_shown(panel, fresh).resting_git);
        assert(self@ == old(self)@.panel_shown(panel, fresh));
    }

    fn run_job(&mut self, job: GitJob)
        requires
            old(self)@.has_slot(),
        ensures
            final(self)@ == old(self)@.job_run(job),
            final(self).effects@ == old(self).effects@.push(
                Effect::RunGit {
                    panel: old(self).git.id,
                    root: old(self).projects@[old(self).active as int].root,
                    host_id: old(self).projects@[old(self).active as int].host_id,
                    job,
                },
            ),
    {
        let root = self.projects[self.active].root.clone();
        let host_id = self.projects[self.active].host_id.clone();
        let panel: u64 = self.git.id;
        self.effect(Effect::RunGit { panel, root, host_id, job });
    }

    fn run_busy_job(&mut self, job: GitJob)
        ensures
            final(self)@ == old(self)@.busy_job_run(job),
            !old(self).git.busy && old(self).active < old(self).projects@.len() ==> final(self).effects@
                == old(self).effects@.push(
                Effect::RunGit {
                    panel: old(self).git.id,
                    root: old(self).projects@[old(self).active as int].root,
                    host_id: old(self).projects@[old(self).active as int].host_id,
                    job,
                },
            ),
    {
        if self.git_is_busy() || !self.has_active_slot() {
            return;
        }
        self.git.busy = true;
        self.run_job(job);
    }

    /// Closes the branch menu, or asks for what it shows.
    pub fn toggle_branch_menu(&mut self)
        ensures
            final(self)@ == if old(self)@.git.branch_menu is Some {
                old(self)@.branch_menu_closed()
            } else if old(self)@.has_slot() {
                old(self)@.job_run(GitJob::LoadBranchMenu)
            } else {
                old(self)@
            },
            old(self).git.branch_menu is None && old(self).active < old(self).projects@.len() ==> final(self).effects@
                == old(self).effects@.push(
                Effect::RunGit {
                    panel: old(self).git.id,
                    root: old(self).projects@[old(self).active as int].root,
                    host_id: old(self).projects@[old(self).active as int].host_id,
                    job: GitJob::LoadBranchMenu,
                },
            ),
    {
        if self.close_branch_menu() {
            return;
        }
        if self.has_active_slot() {
            self.run_job(GitJob::LoadBranchMenu);
        }
    }

    /// Shows the branch menu, in the panel that asked for it.
    pub fn branch_menu_loaded(&mut self, panel: u64, menu: BranchMenu)
        ensures
            final(self)@ == old(self)@.with_panel(panel, set_menu(menu)),
    {
        if self.git.id == panel {
            self.git.branch_menu = Some(menu);
        } else if let Some(i) = self.resting_index(panel) {
            self.resting_git[i].branch_menu = Some(menu);
            assert(self@.resting_git =~= old(self)@.with_panel(panel, set_menu(menu)).resting_git);
        }
    }

    pub fn hide_branch_menu(&mut self)
        ensures
            final(self)@ == old(self)@.branch_menu_closed(),
    {
        self.close_branch_menu();
    }

    /// Goes to a branch.
    pub fn switch_branch_to(&mut self, branch: String)
        ensures
            final(self)@ == if old(self)@.has_slot() {
                old(self)@.branch_menu_closed().git_busy(true).job_run(GitJob::Switch { branch })
            } else {
                old(self)@.branch_menu_closed()
            },
            old(self).active < old(self).projects@.len() ==> final(self).effects@ == old(self).effects@.push(
                Effect::RunGit {
                    panel: old(self).git.id,
                    root: old(self).projects@[old(self).active as int].root,
                    host_id: old(self).projects@[old(self).active as int].host_id,
                    job: GitJob::Switch { branch },
                },
            ),
    {
        self.close_branch_menu();
        if !self.has_active_slot() {
            return;
        }
        self.git.busy = true;
        self.run_job(GitJob::Switch { branch });
    }

    /// The branch was checked out here (`None`) or is in a worktree to open; or that failed. `panel` is the
    /// one that the job was started in, here and below.
    pub fn branch_switched(&mut self, panel: u64, branch: String, result: Result<Option<String>, String>)
        ensures
            final(self)@ == match result {
                Ok(Some(path)) => old(self)@.job_over(panel).then_do(
                    Effect::OpenWorktree { path, branch: Some(branch) },
                ),
                Ok(None) => old(self)@.job_over(panel).project_reloaded(),
                Err(error) => old(self)@.job_over(panel).then_do(Effect::ToastText(error)),
            },
    {
        self.end_job(panel);
        match result {
            Ok(Some(path)) => self.effect(Effect::OpenWorktree { path, branch: Some(branch) }),
            Ok(None) => self.reload_active_project(),
            Err(error) => self.effect(Effect::ToastText(error)),
        }
    }

    /// Opens a branch in a worktree of its own, on the rail.
    pub fn open_branch_worktree(&mut self, branch: String)
        ensures
            ({
                let m = old(self)@.branch_menu_closed();
                if !m.has_slot() {
                    final(self)@ == m
                } else {
                    let root = m.slot().root@;
                    match folder_of(root) {
                        None => final(self)@ == m.then_do(Effect::WorktreeHasNoParent),
                        Some(folder) => exists|parent: String, repo_name: String|
                            parent@ == folder && repo_name@ == (match name_of(root) {
                                Some(name) => name,
                                None => "repo"@,
                            }) && final(self)@ == #[trigger] m.git_busy(true).job_run(
                                GitJob::OpenWorktree { branch, parent, repo_name },
                            ),
                    }
                }
            }),
    {
        self.close_branch_menu();
        if !self.has_active_slot() {
            return;
        }
        let repo_name = match file_name(self.projects[self.active].root.as_str()) {
            Some(name) => name,
            None => "repo".to_owned(),
        };
        match parent_folder(self.projects[self.active].root.as_str()) {
            None => {
                self.effect(Effect::WorktreeHasNoParent);
            },
            Some(parent) => {
                self.git.busy = true;
                self.run_job(GitJob::OpenWorktree { branch, parent, repo_name });
            },
        }
    }

    /// The worktree of a branch is there, or could not be made. `root` and `host_id` are those of
    /// the project that was shown when it was asked for.
    pub fn branch_worktree_ready(&mut self, panel: u64, root: &String, host_id: String, branch: String, result: Result<String, String>)
        ensures
            final(self)@ == match result {
                Ok(target) => if same_path(target@, root@) {
                    old(self)@.job_over(panel).then_do(Effect::WorktreeIsCurrent(branch))
                } else {
                    old(self)@.job_over(panel).then_do(
                        Effect::OpenFolderInRail { host: Some(host_id), path: target, branch: Some(branch) },
                    )
                },
                Err(error) => old(self)@.job_over(panel).then_do(Effect::ToastText(error)),
            },
    {
        self.end_job(panel);
        match result {
            Ok(target) => if is_same_path(target.as_str(), root.as_str()) {
                self.effect(Effect::WorktreeIsCurrent(branch));
            } else {
                self.effect(
                    Effect::OpenFolderInRail { host: Some(host_id), path: target, branch: Some(branch) },
                );
            },
            Err(error) => self.effect(Effect::ToastText(error)),
        }
    }

    /// Opens a worktree on the rail, on the host of the shown project.
    pub fn open_worktree_window(&mut self, path: String, branch: Option<String>)
        ensures
            final(self)@ == old(self)@.branch_menu_closed().then_do(
                Effect::OpenFolderInRail { host: old(self)@.hot_exit_host(), path, branch },
            ),
    {
        self.close_branch_menu();
        let host = self.active_host();
        self.effect(Effect::OpenFolderInRail { host, path, branch });
    }

    /// Reads the shown project again: its files, its tabs, its state in git. A split is closed.
    pub fn reload_active_project(&mut self)
        ensures
            final(self)@ == old(self)@.project_reloaded(),
    {
        self.effect(Effect::RefreshExplorer);
        self.split = None;
        self.effect(Effect::ReopenSlotFiles);
        self.effect(Effect::RefreshGitStatus);
        self.effect(Effect::UpdateAgentDestination);
    }

    /// Shows the panel in the left dock, with the focus, or hides it.
    pub fn toggle_git_panel(&mut self)
        ensures
            final(self)@ == old(self)@.git_panel_toggled(),
    {
        let was_open = self.git_panel_open();
        self.git.open = !was_open;
        if was_open {
            self.focus_active_editor();
        } else {
            self.chrome.docks.left = true;
            self.chrome.docks.herd = false;
            self.chrome.boards.todo_open = false;
            self.focus_git_input();
            self.effect(Effect::RefreshGitStatus);
        }
    }

    /// A panel that nothing was done with yet.
    pub fn new_git_panel(id: u64) -> (panel: GitPanel)
        ensures
            panel == (GitPanel {
                id,
                open: false,
                busy: false,
                message: panel.message,
                branch_name: None,
                branch_menu: None,
            }),
            panel.message@ == Seq::<char>::empty(),
    {
        GitPanel {
            id,
            open: false,
            busy: false,
            message: String::new(),
            branch_name: None,
            branch_menu: None,
        }
    }

    /// Gives the focus to the input of the panel.
    pub fn focus_git_input(&mut self)
        ensures
            final(self)@ == old(self)@.git_input_focused(),
    {
        let target = if self.git.branch_name.is_some() {
            FocusTarget::GitBranchName
        } else {
            FocusTarget::GitMessage
        };
        self.effect(Effect::Focus(target));
    }

    /// Escape: ends naming a branch, or else closes the panel.
    pub fn cancel_git_input(&mut self)
        ensures
            final(self)@ == old(self)@.git_input_cancelled(),
    {
        if self.git.branch_name.is_some() {
            self.git.branch_name = None;
            self.focus_git_input();
            return;
        }
        self.toggle_git_panel();
    }

    /// Makes the branch that is being named, or else a commit.
    pub fn submit_git_input(&mut self)
        ensures
            if old(self)@.git.branch_name is Some {
                branch_named(old(self)@, final(self)@)
            } else {
                final(self)@ == old(self)@.committed()
            },
    {
        if self.git.branch_name.is_some() {
            self.confirm_new_branch();
        } else {
            self.git_commit();
        }
    }

    /// A key was pressed in the panel, outside of its input.
    pub fn on_git_key_down(&mut self, keystroke: &Keystroke)
        ensures
            final(self)@ == if keystroke.key@ == "escape"@ {
                old(self)@.git_input_cancelled()
            } else {
                old(self)@
            },
    {
        if same_text(keystroke.key.as_str(), "escape") {
            self.cancel_git_input();
        }
    }

    /// Makes a commit.
    pub fn git_commit(&mut self)
        ensures
            final(self)@ == old(self)@.committed(),
            trim(old(self).git.message@).len() > 0 && !old(self).git.busy && old(self).active < old(self).projects@.len()
                ==> final(self).effects@ == old(self).effects@.push(
                Effect::RunGit {
                    panel: old(self).git.id,
                    root: old(self).projects@[old(self).active as int].root,
                    host_id: old(self).projects@[old(self).active as int].host_id,
                    job: GitJob::Commit { message: old(self).git.message },
                },
            ),
    {
        if trimmed(self.git.message.as_str()).as_str().is_empty() {
            return;
        }
        let message = self.git.message.clone();
        self.run_busy_job(GitJob::Commit { message });
    }

    /// The commit was made, or not: only one that was made takes the message away.
    pub fn git_commit_done(&mut self, panel: u64, result: Result<(), String>)
        ensures
            ({
                let m = old(self)@.job_over(panel);
                match result {
                    Ok(_) => exists|none: String|
                        none@ == Seq::<char>::empty() && final(self)@ == (#[trigger] m.with_panel(
                            panel,
                            set_message(none),
                        )).then_do(Effect::ClearGitMessage(panel)).then_do(Effect::RefreshGitStatus),
                    Err(output) => exists|told: Model|
                        failure_told(m, told, Headline::CommitFailed, "git commit"@, output@) && final(self)@
                            == #[trigger] told.then_do(Effect::RefreshGitStatus),
                }
            }),
    {
        self.end_job(panel);
        match result {
            Ok(_) => {
                self.put_message(panel, String::new());
                self.effect(Effect::ClearGitMessage(panel));
            },
            Err(output) => {
                self.toast_git_failure(Headline::CommitFailed, "git commit", output.as_str());
            },
        }
        self.effect(Effect::RefreshGitStatus);
    }

    /// Tells that a command failed: the gist of its output, with the whole of it at hand where the
    /// gist leaves something out.
    pub fn toast_git_failure(&mut self, headline: Headline, command: &str, output: &str)
        ensures
            failure_told(old(self)@, final(self)@, headline, command@, output@),
    {
        let (told, left_out) = failure_gist(output);
        let details = if left_out {
            Some(FailureOutput { command: command.to_owned(), output: output.to_owned() })
        } else {
            None
        };
        self.effect(Effect::FailureToast { headline, gist: told, details });
    }

    /// Runs a job that changes what is staged.
    pub fn run_git_index_op(&mut self, job: GitJob)
        ensures
            final(self)@ == if old(self)@.has_slot() { old(self)@.job_run(job) } else { old(self)@ },
            old(self).active < old(self).projects@.len() ==> final(self).effects@ == old(self).effects@.push(
                Effect::RunGit {
                    panel: old(self).git.id,
                    root: old(self).projects@[old(self).active as int].root,
                    host_id: old(self).projects@[old(self).active as int].host_id,
                    job,
                },
            ),
    {
        if self.has_active_slot() {
            self.run_job(job);
        }
    }

    /// The job that changes what is staged is over.
    pub fn git_index_op_done(&mut self, job: &GitJob, result: Result<(), String>)
        ensures
            match result {
                Ok(_) => final(self)@ == old(self)@.then_do(Effect::RefreshGitStatus),
                Err(output) => exists|told: Model|
                    failure_told(old(self)@, told, job.spec_headline(), job.spec_command(), output@)
                        && final(self)@ == #[trigger] told.then_do(Effect::RefreshGitStatus),
            },
    {
        if let Err(output) = result {
            self.toast_git_failure(job.headline(), job.command(), output.as_str());
        }
        self.effect(Effect::RefreshGitStatus);
    }

    pub fn git_stage(&mut self, path: String)
        ensures
            final(self)@ == if old(self)@.has_slot() {
                old(self)@.job_run(GitJob::Stage { path })
            } else {
                old(self)@
            },
            old(self).active < old(self).projects@.len() ==> final(self).effects@ == old(self).effects@.push(
                Effect::RunGit {
                    panel: old(self).git.id,
                    root: old(self).projects@[old(self).active as int].root,
                    host_id: old(self).projects@[old(self).active as int].host_id,
                    job: GitJob::Stage { path },
                },
            ),
    {
        self.run_git_index_op(GitJob::Stage { path });
    }

    pub fn git_unstage(&mut self, path: String)
        ensures
            final(self)@ == if old(self)@.has_slot() {
                old(self)@.job_run(GitJob::Unstage { path })
            } else {
                old(self)@
            },
            old(self).active < old(self).projects@.len() ==> final(self).effects@ == old(self).effects@.push(
                Effect::RunGit {
                    panel: old(self).git.id,
                    root: old(self).projects@[old(self).active as int].root,
                    host_id: old(self).projects@[old(self).active as int].host_id,
                    job: GitJob::Unstage { path },
                },
            ),
    {
        self.run_git_index_op(GitJob::Unstage { path });
    }

    pub fn git_stage_all(&mut self)
        ensures
            final(self)@ == if old(self)@.has_slot() {
                old(self)@.job_run(GitJob::StageAll)
            } else {
                old(self)@
            },
            old(self).active < old(self).projects@.len() ==> final(self).effects@ == old(self).effects@.push(
                Effect::RunGit {
                    panel: old(self).git.id,
                    root: old(self).projects@[old(self).active as int].root,
                    host_id: old(self).projects@[old(self).active as int].host_id,
                    job: GitJob::StageAll,
                },
            ),
    {
        self.run_git_index_op(GitJob::StageAll);
    }

    pub fn git_push(&mut self)
        ensures
            final(self)@ == old(self)@.busy_job_run(GitJob::Push),
            !old(self).git.busy && old(self).active < old(self).projects@.len() ==> final(self).effects@
                == old(self).effects@.push(
                Effect::RunGit {
                    panel: old(self).git.id,
                    root: old(self).projects@[old(self).active as int].root,
                    host_id: old(self).projects@[old(self).active as int].host_id,
                    job: GitJob::Push,
                },
            ),
    {
        self.run_git_remote(true);
    }

    pub fn git_pull(&mut self)
        ensures
            final(self)@ == old(self)@.busy_job_run(GitJob::Pull),
            !old(self).git.busy && old(self).active < old(self).projects@.len() ==> final(self).effects@
                == old(self).effects@.push(
                Effect::RunGit {
                    panel: old(self).git.id,
                    root: old(self).projects@[old(self).active as int].root,
                    host_id: old(self).projects@[old(self).active as int].host_id,
                    job: GitJob::Pull,
                },
            ),
    {
        self.run_git_remote(false);
    }

    /// Pushes, or pulls.
    pub fn run_git_remote(&mut self, is_push: bool)
        ensures
            final(self)@ == old(self)@.busy_job_run(if is_push { GitJob::Push } else { GitJob::Pull }),
            !old(self).git.busy && old(self).active < old(self).projects@.len() ==> final(self).effects@
                == old(self).effects@.push(
                Effect::RunGit {
                    panel: old(self).git.id,
                    root: old(self).projects@[old(self).active as int].root,
                    host_id: old(self).projects@[old(self).active as int].host_id,
                    job: if is_push { GitJob::Push } else { GitJob::Pull },
                },
            ),
    {
        if is_push {
            self.run_busy_job(GitJob::Push);
        } else {
            self.run_busy_job(GitJob::Pull);
        }
    }

    /// The push or the pull is over: a pull may have changed every file.
    pub fn git_remote_done(&mut self, panel: u64, is_push: bool, result: Result<(), String>)
        ensures
            ({
                let m = old(self)@.job_over(panel);
                let job = if is_push { GitJob::Push } else { GitJob::Pull };
                match result {
                    Ok(_) => final(self)@ == if is_push {
                        m.then_do(Effect::RefreshGitStatus)
                    } else {
                        m.project_reloaded()
                    },
                    Err(output) => exists|told: Model|
                        failure_told(m, told, job.spec_headline(), job.spec_command(), output@)
                            && final(self)@ == #[trigger] told.then_do(Effect::RefreshGitStatus),
                }
            }),
    {
        self.end_job(panel);
        match result {
            Ok(_) => if is_push {
                self.effect(Effect::RefreshGitStatus);
            } else {
                self.reload_active_project();
            },
            Err(output) => {
                let job = if is_push {
                    GitJob::Push
                } else {
                    GitJob::Pull
                };
                self.toast_git_failure(job.headline(), job.command(), output.as_str());
                self.effect(Effect::RefreshGitStatus);
            },
        }
    }

    /// Starts a pull request, or shows the one that there is.
    pub fn github_action(&mut self, create: bool)
        ensures
            final(self)@ == old(self)@.busy_job_run(if create { GitJob::CreatePr } else { GitJob::OpenPr }),
            !old(self).git.busy && old(self).active < old(self).projects@.len() ==> final(self).effects@
                == old(self).effects@.push(
                Effect::RunGit {
                    panel: old(self).git.id,
                    root: old(self).projects@[old(self).active as int].root,
                    host_id: old(self).projects@[old(self).active as int].host_id,
                    job: if create { GitJob::CreatePr } else { GitJob::OpenPr },
                },
            ),
    {
        if create {
            self.run_busy_job(GitJob::CreatePr);
        } else {
            self.run_busy_job(GitJob::OpenPr);
        }
    }

    /// The pull request was started or shown, or not.
    pub fn github_action_done(&mut self, panel: u64, create: bool, result: Result<(), String>)
        ensures
            ({
                let m = old(self)@.job_over(panel);
                let job = if create { GitJob::CreatePr } else { GitJob::OpenPr };
                match result {
                    Ok(_) => final(self)@ == m,
                    Err(output) => failure_told(m, final(self)@, job.spec_headline(), job.spec_command(), output@),
                }
            }),
    {
        self.end_job(panel);
        if let Err(output) = result {
            let job = if create {
                GitJob::CreatePr
            } else {
                GitJob::OpenPr
            };
            self.toast_git_failure(job.headline(), job.command(), output.as_str());
        }
    }

    /// Lets an agent write the message.
    pub fn generate_commit_message(&mut self)
        ensures
            final(self)@ == old(self)@.busy_job_run(GitJob::WriteMessage),
            !old(self).git.busy && old(self).active < old(self).projects@.len() ==> final(self).effects@
                == old(self).effects@.push(
                Effect::RunGit {
                    panel: old(self).git.id,
                    root: old(self).projects@[old(self).active as int].root,
                    host_id: old(self).projects@[old(self).active as int].host_id,
                    job: GitJob::WriteMessage,
                },
            ),
    {
        self.run_busy_job(GitJob::WriteMessage);
    }

    /// The message was written, or not; `writer` is the command that was to write it.
    pub fn commit_message_ready(&mut self, panel: u64, writer: &str, result: Result<String, String>)
        ensures
            ({
                let m = old(self)@.job_over(panel);
                match result {
                    Ok(message) => final(self)@ == m.with_panel(panel, set_message(message)).then_do(
                        Effect::SetGitMessage { panel, message },
                    ),
                    Err(output) => failure_told(
                        m,
                        final(self)@,
                        Headline::AiMessageFailed,
                        writer@,
                        output@,
                    ),
                }
            }),
    {
        self.end_job(panel);
        match result {
            Ok(message) => {
                self.put_message(panel, message.clone());
                self.effect(Effect::SetGitMessage { panel, message });
            },
            Err(output) => {
                self.toast_git_failure(Headline::AiMessageFailed, writer, output.as_str());
            },
        }
    }

    /// Begins naming a branch.
    pub fn start_new_branch(&mut self)
        ensures
            final(self)@ == old(self)@.with_git(
                GitPanel { branch_name: final(self)@.git.branch_name, ..old(self)@.git },
            ).git_input_focused(),
            final(self)@.git.branch_name matches Some(name) && name@ == Seq::<char>::empty(),
    {
        self.git.branch_name = Some(String::new());
        self.focus_git_input();
    }

    /// Makes the branch that was named; without a name, naming ends.
    pub fn confirm_new_branch(&mut self)
        ensures
            branch_named(old(self)@, final(self)@),
    {
        let name = match &self.git.branch_name {
            Some(text) => trimmed(text.as_str()),
            None => String::new(),
        };
        if name.as_str().is_empty() {
            self.git.branch_name = None;
            self.focus_git_input();
            return;
        }
        if self.has_active_slot() {
            self.run_job(GitJob::CreateBranch { name });
        }
    }

    /// The branch was made, or not: only one that was made ends naming it.
    pub fn new_branch_done(&mut self, result: Result<(), String>)
        ensures
            match result {
                Ok(_) => final(self)@ == old(self)@.naming_ended().project_reloaded().git_input_focused(),
                Err(output) => failure_told(
                    old(self)@,
                    final(self)@,
                    Headline::BranchCreateFailed,
                    "git switch -c"@,
                    output@,
                ),
            },
    {
        match result {
            Ok(_) => {
                self.git.branch_name = None;
                self.reload_active_project();
                self.focus_git_input();
            },
            Err(output) => {
                self.toast_git_failure(Headline::BranchCreateFailed, "git switch -c", output.as_str());
            },
        }
    }

    /// Deletes a branch.
    pub fn delete_git_branch(&mut self, branch: String)
        ensures
            final(self)@ == if old(self)@.has_slot() {
                old(self)@.branch_menu_closed().git_busy(true).job_run(GitJob::DeleteBranch { branch })
            } else {
                old(self)@.branch_menu_closed()
            },
            old(self).active < old(self).projects@.len() ==> final(self).effects@ == old(self).effects@.push(
                Effect::RunGit {
                    panel: old(self).git.id,
                    root: old(self).projects@[old(self).active as int].root,
                    host_id: old(self).projects@[old(self).active as int].host_id,
                    job: GitJob::DeleteBranch { branch },
                },
            ),
    {
        self.close_branch_menu();
        if !self.has_active_slot() {
            return;
        }
        self.git.busy = true;
        self.run_job(GitJob::DeleteBranch { branch });
    }

    /// The branch was deleted, or not.
    pub fn branch_deleted(&mut self, panel: u64, branch: String, result: Result<(), String>)
        ensures
            final(self)@ == match result {
                Ok(_) => old(self)@.job_over(panel).then_do(Effect::BranchDeleted(branch)).then_do(
                    Effect::RefreshGitStatus,
                ),
                Err(error) => old(self)@.job_over(panel).then_do(Effect::ToastText(error)),
            },
    {
        self.end_job(panel);
        match result {
            Ok(_) => {
                self.effect(Effect::BranchDeleted(branch));
                self.effect(Effect::RefreshGitStatus);
            },
            Err(error) => self.effect(Effect::ToastText(error)),
        }
    }
}

/// While a job runs, no other one that it must not meet is started.
pub proof fn busy_jobs_do_not_meet(m: Model, job: GitJob)
    requires
        m.git.busy,
    ensures
        m.busy_job_run(job) == m,
{
}

/// A job that was started keeps the others out.
pub proof fn started_jobs_keep_others_out(m: Model, job: GitJob, other: GitJob)
    requires
        m.has_slot(),
        !m.git.busy,
    ensures
        m.busy_job_run(job).git.busy,
        m.busy_job_run(job).busy_job_run(other) == m.busy_job_run(job),
{
}

/// What comes of a job reaches the panel that it was started in, though another project is shown by then,
/// and leaves that one alone.
pub proof fn jobs_end_in_their_own_panel(m: Model, other: u64, fresh: GitPanel, unused: GitPanel, change: spec_fn(GitPanel) -> GitPanel)
    requires
        other != m.git.id,
        fresh.id == other,
        first_index(m.resting_git, is_panel(m.git.id)) is None,
        change(m.git).id == m.git.id,
    ensures
        ({
            let away = m.panel_shown(other, fresh);
            let done = away.with_panel(m.git.id, change);
            &&& done.git == away.git
            &&& done.panel_shown(m.git.id, unused).git == change(m.git)
        }),
{
    let mine = is_panel(m.git.id);
    let away = m.panel_shown(other, fresh);
    let done = away.with_panel(m.git.id, change);
    first_index_holds(m.resting_git, mine);
    first_index_holds(m.resting_git, is_panel(other));
    let last = away.resting_git.len() - 1;
    assert forall|j: int| 0 <= j < last implies !mine(#[trigger] away.resting_git[j]) by {
        match first_index(m.resting_git, is_panel(other)) {
            Some(i) => {
                if j < i {
                    assert(away.resting_git[j] == m.resting_git[j]);
                } else {
                    assert(away.resting_git[j] == m.resting_git[j + 1]);
                }
            },
            None => {
                assert(away.resting_git[j] == m.resting_git[j]);
            },
        }
    }
    first_index_is(away.resting_git, mine, last);
    assert forall|j: int| 0 <= j < last implies !mine(#[trigger] done.resting_git[j]) by {
        assert(done.resting_git[j] == away.resting_git[j]);
    }
    first_index_is(done.resting_git, mine, last);
}

/// A branch that a worktree has checked out is never checked out a second time, nor made a worktree
/// of its own.
pub proof fn checked_out_branches_are_reused(worktrees: Seq<WorktreeEntry>, branch: Seq<char>, k: int)
    requires
        0 <= k < worktrees.len(),
        maybe_text(worktrees[k].branch) == Some(branch),
    ensures
        worktree_of(worktrees, branch) is Some,
{
    first_index_holds(worktrees, checked_out(branch));
    assert(checked_out(branch)(worktrees[k]));
}

/// A job that is started runs at the root of the project that is shown, on its host, for the panel
/// that is shown; nothing else happens but that the panel may be busy with it.
pub proof fn jobs_run_in_the_shown_project(m: Model, job: GitJob)
    requires
        m.active < m.projects.len(),
    ensures
        ({
            let shown = m.projects[m.active as int];
            let run = Effect::RunGit { panel: m.git.id, root: shown.root, host_id: shown.host_id, job };
            &&& m.job_run(job).effects.last() == run
            &&& m.job_run(job).effects.drop_last() == m.effects
            &&& m.job_run(job).git == m.git
            &&& m.job_run(job).projects == m.projects && m.job_run(job).active == m.active
            &&& !m.git.busy ==> {
                &&& m.busy_job_run(job).effects.last() == run
                &&& m.busy_job_run(job).effects.drop_last() == m.effects
                &&& m.busy_job_run(job).git.busy
                &&& m.busy_job_run(job).git.id == m.git.id
                &&& m.busy_job_run(job).git.message == m.git.message
            }
        }),
{
    assert(m.job_run(job).effects.drop_last() =~= m.effects);
    if !m.git.busy {
        assert(m.busy_job_run(job).effects.drop_last() =~= m.effects);
    }
}

/// Showing another project sends the next job there: to its root and its host.
pub proof fn jobs_follow_the_shown_project(m: Model, other: usize, job: GitJob)
    requires
        m.active < m.projects.len(),
        other < m.projects.len(),
    ensures
        ({
            let away = Model { active: other, ..m };
            &&& m.job_run(job).effects.last()->RunGit_root == m.projects[m.active as int].root
            &&& away.job_run(job).effects.last()->RunGit_root == m.projects[other as int].root
            &&& m.job_run(job).effects.last()->RunGit_host_id == m.projects[m.active as int].host_id
            &&& away.job_run(job).effects.last()->RunGit_host_id == m.projects[other as int].host_id
            &&& away.job_run(job).effects.last() is RunGit
        }),
{
}

/// A commit is made of exactly what was typed, in the shown project; and none where nothing was.
pub proof fn commits_say_what_was_typed(m: Model)
    requires
        m.active < m.projects.len(),
        !m.git.busy,
    ensures
        trim(m.git.message@).len() == 0 ==> m.committed() == m,
        trim(m.git.message@).len() > 0 ==> (m.committed().effects.last() == Effect::RunGit {
            panel: m.git.id,
            root: m.projects[m.active as int].root,
            host_id: m.projects[m.active as int].host_id,
            job: GitJob::Commit { message: m.git.message },
        }),
{
}

/// A branch is made with the name that was typed, without white space at its ends, in the shown
/// project; naming it goes on until it was made. Without a name nothing is run, and naming ends.
pub proof fn branches_are_made_as_named(before: Model, after: Model)
    requires
        branch_named(before, after),
        before.active < before.projects.len(),
        before.git.branch_name is Some,
    ensures
        ({
            let typed = trim(before.git.branch_name->0@);
            let last = after.effects.last();
            &&& after.effects.drop_last() == before.effects
            &&& typed.len() == 0 ==> after.git.branch_name is None && last == Effect::Focus(FocusTarget::GitMessage)
            &&& typed.len() > 0 ==> after.git == before.git && last is RunGit && last->RunGit_panel == before.git.id
                && last->RunGit_root == before.projects[before.active as int].root && last->RunGit_host_id
                == before.projects[before.active as int].host_id && (last->RunGit_job
                matches GitJob::CreateBranch { name } && name@ == typed)
        }),
{
    assert(after.effects.drop_last() =~= before.effects);
}

/// What comes of a job changes the panel with this id and no other: the shown one, or else the first
/// of the resting ones; where there is none with this id, nothing.
pub proof fn only_the_panel_with_the_id_changes(m: Model, panel: u64, change: spec_fn(GitPanel) -> GitPanel)
    ensures
        ({
            let after = m.with_panel(panel, change);
            &&& after.resting_git.len() == m.resting_git.len()
            &&& m.git.id == panel ==> after.git == change(m.git) && after.resting_git == m.resting_git
            &&& m.git.id != panel ==> after.git == m.git
            &&& forall|k: int|
                0 <= k < m.resting_git.len() && (#[trigger] m.resting_git[k]).id != panel ==> after.resting_git[k]
                    == m.resting_git[k]
            &&& m.git.id != panel ==> forall|k: int|
                0 <= k < m.resting_git.len() && (#[trigger] m.resting_git[k]).id == panel && (forall|l: int|
                    0 <= l < k ==> (#[trigger] m.resting_git[l]).id != panel) ==> after.resting_git[k] == change(
                    m.resting_git[k],
                )
            &&& after == (Model { git: after.git, resting_git: after.resting_git, ..m })
        }),
{
    let p = is_panel(panel);
    first_index_holds(m.resting_git, p);
    assert forall|k: int| 0 <= k < m.resting_git.len() implies p(#[trigger] m.resting_git[k]) == (m.resting_git[k].id
        == panel) by {}
}

/// Once a job is over, its panel is not busy, and keeps what was typed in it; no other panel is
/// touched.
pub proof fn a_job_that_is_over_frees_its_panel(m: Model, panel: u64)
    ensures
        m.git.id == panel ==> m.job_over(panel).git == (GitPanel { busy: false, ..m.git }),
        m.git.id != panel ==> m.job_over(panel).git == m.git,
        forall|k: int|
            0 <= k < m.resting_git.len() && (#[trigger] m.resting_git[k]).id != panel ==> m.job_over(
                panel,
            ).resting_git[k] == m.resting_git[k],
        m.git.id != panel ==> forall|k: int|
            0 <= k < m.resting_git.len() && (#[trigger] m.resting_git[k]).id == panel && (forall|l: int|
                0 <= l < k ==> (#[trigger] m.resting_git[l]).id != panel) ==> !m.job_over(panel).resting_git[k].busy
                && m.job_over(panel).resting_git[k].message == m.resting_git[k].message,
        m.job_over(panel).effects == m.effects,
{
    only_the_panel_with_the_id_changes(m, panel, set_busy(false));
}

/// Showing another panel loses none: the one that was shown rests, the one that is shown was resting
/// or is fresh, and the others rest as before.
pub proof fn showing_a_panel_loses_none(m: Model, panel: u64, fresh: GitPanel)
    requires
        fresh.id == panel,
        m.git.id != panel,
    ensures
        ({
            let after = m.panel_shown(panel, fresh);
            &&& after.git.id == panel
            &&& after.git == fresh || m.resting_git.contains(after.git)
            &&& after.resting_git.last() == m.git
            &&& forall|k: int|
                0 <= k < m.resting_git.len() ==> after.resting_git.contains(#[trigger] m.resting_git[k]) || after.git
                    == m.resting_git[k]
            &&& (forall|k: int| 0 <= k < m.resting_git.len() ==> (#[trigger] m.resting_git[k]).id != panel)
                ==> after.git == fresh
            &&& (exists|k: int| 0 <= k < m.resting_git.len() && (#[trigger] m.resting_git[k]).id == panel)
                ==> after.resting_git.len() == m.resting_git.len() && m.resting_git.contains(after.git)
        }),
{
    let p = is_panel(panel);
    first_index_holds(m.resting_git, p);
    assert forall|k: int| 0 <= k < m.resting_git.len() implies p(#[trigger] m.resting_git[k]) == (m.resting_git[k].id
        == panel) by {}
    let after = m.panel_shown(panel, fresh);
    assert forall|k: int| 0 <= k < m.resting_git.len() implies after.resting_git.contains(#[trigger] m.resting_git[k])
        || after.git == m.resting_git[k] by {
        match first_index(m.resting_git, p) {
            Some(i) => {
                if k < i {
                    assert(after.resting_git[k] == m.resting_git[k]);
                } else if k > i {
                    assert(after.resting_git[k - 1] == m.resting_git[k]);
                }
            },
            None => {
                assert(after.resting_git[k] == m.resting_git[k]);
            },
        }
    }
}

/// Opening the panel shows the left dock with nothing else in it, and its input has the focus;
/// closing it gives the focus to the active editor and leaves the docks alone.
pub proof fn the_panel_comes_and_goes(m: Model)
    ensures
        ({
            let after = m.git_panel_toggled();
            let n = m.effects.len() as int;
            &&& after.git.open != m.git.open
            &&& after.git == (GitPanel { open: after.git.open, ..m.git })
            &&& after.git.open ==> {
                &&& after.chrome.docks.left && !after.chrome.docks.herd && !after.chrome.boards.todo_open
                &&& after.chrome.docks.right == m.chrome.docks.right
                &&& after.effects.len() == n + 2
                &&& after.effects[n] == Effect::Focus(
                    if m.git.branch_name is Some { FocusTarget::GitBranchName } else { FocusTarget::GitMessage },
                )
                &&& after.effects[n + 1] is RefreshGitStatus
            }
            &&& !after.git.open ==> after.chrome == m.chrome
            &&& !after.git.open && m.active_tab < m.tabs.len() && m.tabs[m.active_tab as int].has_editor
                ==> after.effects == m.effects.push(
                Effect::Focus(FocusTarget::Tab(m.tabs[m.active_tab as int].id)),
            )
            &&& !after.git.open && !(m.active_tab < m.tabs.len() && m.tabs[m.active_tab as int].has_editor)
                ==> after.effects == m.effects
        }),
{
}

/// Escape first ends naming a branch and leaves the panel open; only then it closes the panel.
pub proof fn escape_ends_naming_first(m: Model)
    requires
        m.git.open,
    ensures
        m.git.branch_name is Some ==> m.git_input_cancelled().git.open && m.git_input_cancelled().git.branch_name
            is None && m.git_input_cancelled().effects.last() == Effect::Focus(FocusTarget::GitMessage),
        m.git.branch_name is None ==> !m.git_input_cancelled().git.open,
        m.git_input_cancelled().git.message == m.git.message,
{
}

/// A branch is found in the first worktree that has it checked out, and in none exactly if none has.
pub proof fn branches_are_found_where_they_are(worktrees: Seq<WorktreeEntry>, branch: Seq<char>)
    ensures
        match worktree_of(worktrees, branch) {
            Some(i) => 0 <= i < worktrees.len() && (worktrees[i].branch matches Some(name) && name@ == branch)
                && forall|k: int|
                0 <= k < i ==> !((#[trigger] worktrees[k]).branch matches Some(name) && name@ == branch),
            None => forall|k: int|
                0 <= k < worktrees.len() ==> !((#[trigger] worktrees[k]).branch matches Some(name) && name@ == branch),
        },
{
    let p = checked_out(branch);
    first_index_holds(worktrees, p);
    assert forall|k: int| 0 <= k < worktrees.len() implies p(#[trigger] worktrees[k]) == (worktrees[k].branch
        matches Some(name) && name@ == branch) by {}
}

/// Reading the project again closes the split, and asks for its files, its tabs, its state in git and
/// the place of its agent, in this order.
pub proof fn reloading_reads_everything(m: Model)
    ensures
        ({
            let after = m.project_reloaded();
            let n = m.effects.len() as int;
            &&& after == (Model { split: None, effects: after.effects, ..m })
            &&& after.effects.len() == n + 4 && after.effects.take(n) == m.effects
            &&& after.effects[n] is RefreshExplorer && after.effects[n + 1] is ReopenSlotFiles
            &&& after.effects[n + 2] is RefreshGitStatus && after.effects[n + 3] is UpdateAgentDestination
        }),
{
    assert(m.project_reloaded().effects.take(m.effects.len() as int) =~= m.effects);
}

/// What is told of a job that failed names the job: two jobs are told alike only where both are for
/// the same thing.
pub proof fn failures_name_the_job(a: GitJob, b: GitJob)
    requires
        a.spec_headline() == b.spec_headline(),
    ensures
        a is Push <==> b is Push,
        a is Pull <==> b is Pull,
        a is Unstage <==> b is Unstage,
        (a is Stage || a is StageAll) <==> (b is Stage || b is StageAll),
        a is CreatePr <==> b is CreatePr,
        a is OpenPr <==> b is OpenPr,
        a is WriteMessage <==> b is WriteMessage,
        a is CreateBranch <==> b is CreateBranch,
        a is Push ==> a.spec_headline() == Headline::PushFailed,
        a is Pull ==> a.spec_headline() == Headline::PullFailed,
        a is Unstage ==> a.spec_headline() == Headline::UnstageFailed,
        a is Commit ==> a.spec_headline() == Headline::CommitFailed,
{
}

/// What a job puts into a panel is put there, and the rest of the panel stays: it says whether the panel
/// is busy, its message, or its menu.
pub proof fn changes_of_a_panel_change_one_thing(panel: GitPanel, busy: bool, message: String, menu: BranchMenu)
    ensures
        set_busy(busy)(panel) == (GitPanel { busy, ..panel }),
        set_message(message)(panel) == (GitPanel { message, ..panel }),
        set_menu(menu)(panel) == (GitPanel { branch_menu: Some(menu), ..panel }),
        set_message(message)(panel).id == panel.id && set_message(message)(panel).busy == panel.busy,
{
}

/// Closing the branch menu, ending the naming of a branch and being busy change nothing else.
pub proof fn small_changes_stay_small(m: Model, busy: bool)
    ensures
        m.branch_menu_closed().git.branch_menu is None,
        m.branch_menu_closed().git.message == m.git.message && m.branch_menu_closed().git.busy == m.git.busy,
        m.branch_menu_closed().git.branch_name == m.git.branch_name && m.branch_menu_closed().effects == m.effects,
        m.naming_ended().git.branch_name is None,
        m.naming_ended().git.message == m.git.message && m.naming_ended().git.branch_menu == m.git.branch_menu,
        m.git_busy(busy).git.busy == busy && m.git_busy(busy).git.message == m.git.message,
        m.git_busy(busy).git.branch_menu == m.git.branch_menu && m.git_busy(busy).git.id == m.git.id,
        m.git_input_focused().effects.last() == Effect::Focus(
            if m.git.branch_name is Some { FocusTarget::GitBranchName } else { FocusTarget::GitMessage },
        ),
        m.git_input_focused().git == m.git,
{
}

/// A failure is told with its headline, and the whole of its output is at hand exactly where the notice
/// leaves something out; nothing else happens.
pub proof fn failures_are_told_with_their_output(
    before: Model,
    after: Model,
    headline: Headline,
    command: Seq<char>,
    output: Seq<char>,
)
    requires
        failure_told(before, after, headline, command, output),
    ensures
        ({
            let last = after.effects.last();
            &&& after.effects.drop_last() == before.effects
            &&& after.git == before.git && after.tabs == before.tabs
            &&& last is FailureToast && last->FailureToast_headline == headline && last->FailureToast_gist@ == gist(
                output,
            )
            &&& (last->FailureToast_details is Some <==> gist_leaves_out(output))
            &&& last->FailureToast_details matches Some(whole) ==> whole.command@ == command && whole.output@ == output
        }),
{
    assert(after.effects.drop_last() =~= before.effects);
}

/// The worktree of a branch is made beside the repository, in a single folder that is named after both.
pub proof fn new_worktrees_stand_beside_the_repository(parent: Seq<char>, repo_name: Seq<char>, branch: Seq<char>)
    requires
        !repo_name.contains('/'),
        repo_name.len() > 0,
    ensures
        components(new_worktree_path(parent, repo_name, branch)).drop_last() == components(parent),
        repo_name.is_prefix_of(components(new_worktree_path(parent, repo_name, branch)).last()),
        replaced(branch, '/', "-"@).is_suffix_of(components(new_worktree_path(parent, repo_name, branch)).last()),
{
    reveal_strlit("-");
    reveal_strlit(".");
    let rest = replaced(branch, '/', "-"@);
    let name = repo_name + "-"@ + rest;
    replaced_is_rid_of(branch, '/', "-"@, '/');
    if name.contains('/') {
        let i = choose|i: int| 0 <= i < name.len() && name[i] == '/';
        if i < repo_name.len() {
            assert(repo_name[i] == '/');
        } else if i > repo_name.len() {
            assert(rest[i - repo_name.len() - 1] == '/');
        }
    }
    names_in_folders_come_last(parent, name);
    let parts = components(new_worktree_path(parent, repo_name, branch));
    assert(parts.drop_last() =~= components(parent));
    assert(name.take(repo_name.len() as int) =~= repo_name);
    assert(name.skip(name.len() - rest.len()) =~= rest);
}

/// What is told of the command of a job is the program that runs it: `gh` for pull requests, `git` for
/// the rest, and nothing where no fixed command is run.
pub proof fn commands_name_their_program(job: GitJob)
    ensures
        job is CreatePr || job is OpenPr ==> starts_with(job.spec_command(), seq!['g', 'h', ' ']),
        job is Stage || job is StageAll || job is Unstage || job is Push || job is Pull || job is CreateBranch || job
            is Commit ==> starts_with(job.spec_command(), seq!['g', 'i', 't', ' ']),
        job is LoadBranchMenu || job is Switch || job is OpenWorktree || job is WriteMessage || job is DeleteBranch
            ==> job.spec_command().len() == 0,
{
    reveal_strlit("git add");
    reveal_strlit("git add -A");
    reveal_strlit("git restore --staged");
    reveal_strlit("git push");
    reveal_strlit("git pull");
    reveal_strlit("gh pr create");
    reveal_strlit("gh pr view");
    reveal_strlit("git switch -c");
    reveal_strlit("git commit");
    reveal_strlit("");
    let text = job.spec_command();
    if job is CreatePr || job is OpenPr {
        assert(text.subrange(0, 3) =~= seq!['g', 'h', ' ']);
    } else if text.len() > 0 {
        assert(text.subrange(0, 4) =~= seq!['g', 'i', 't', ' ']);
    }
}

} // verus!
