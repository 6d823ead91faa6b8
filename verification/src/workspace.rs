//! The state of one window and what it asks the outside to do.
//!
//! Every operation of the window is a method of [`Workspace`] that changes this state and appends
//! to `effects` what has to happen outside of it: moving the focus, saving a file, running git.

use vstd::prelude::*;
use crate::diff::{BlameLine, DiffHunk};
use crate::editor_manners::{ExternalApp, ExternalCommand};
use crate::explorer::NamingKind;
use crate::fleet_news::StageTab;
use crate::git_controller::{FailureOutput, GitJob, GitPanel, Headline};
use crate::history::{AgentSessionSummary, HistoryMatch, HistoryThread, ThreadHistoryState};
use crate::inbox::InboxItem;
use crate::inline_edit::InlineEditState;
use crate::keymap_editing::{KeymapEdit, KeymapEditing};
use crate::new_task::NewTaskDialog;

verus! {

/// A tab of the editor area.
pub struct EditorTab {
    /// Which editor or image view the tab shows.
    pub id: u64,
    pub path: String,
    /// False for an image tab.
    pub has_editor: bool,
    /// The editor shows a rendered page in place of its text.
    pub renders_html: bool,
    /// A diff or another tab that is not kept with the window.
    pub transient: bool,
    pub pinned: bool,
    pub preview: bool,
    pub dirty: bool,
    pub read_only: bool,
    /// The buffer belongs to a file.
    pub has_file: bool,
    /// The file has changed on disk since it was read.
    pub externally_changed: bool,
    /// The version of the buffer.
    pub version: u64,
    /// The head of the first selection, in bytes.
    pub caret: usize,
}

/// A place in a file to come back to.
pub struct NavPosition {
    pub path: String,
    pub offset: usize,
}

#[derive(Clone, Copy, PartialEq, Eq, Structural, Debug)]
pub enum SpaceKind {
    Integration,
    Task,
}

#[derive(Clone, Copy, PartialEq, Eq, Structural, Debug)]
pub enum TaskPhase {
    Planned,
    Working,
    Blocked,
    ReviewReady,
    ChangesRequested,
    MergeReady,
    Integrating,
    Integrated,
    Failed,
    Archived,
}

/// The worktree of a task, or the one that tasks are merged into.
pub struct TaskSpace {
    pub id: String,
    pub kind: SpaceKind,
    pub repository_id: String,
    pub title: String,
    pub phase: TaskPhase,
    /// A linked worktree, not the main one of its repository.
    pub linked: bool,
    pub base_oid: Option<String>,
    pub head_oid: Option<String>,
    pub result_summary: Option<String>,
}

/// A project on the rail.
pub struct ProjectSlot {
    pub name: String,
    pub root: String,
    /// The spelling of `root` with its links resolved.
    pub canonical_root: String,
    /// The name of the host, where the project is on another machine.
    pub remote_host: Option<String>,
    /// What tells hosts apart: `local`, or the address of the other machine.
    pub host_id: String,
    pub branch: Option<String>,
    pub worktree_branch: Option<String>,
    pub color: usize,
    pub task_space: TaskSpace,
}

#[derive(Clone, Copy, PartialEq, Eq, Structural, Debug)]
pub enum ThreadActivity {
    Idle,
    Working,
    Blocked,
    Done { interrupted: bool },
}

/// What a panel tells of one of its threads.
pub struct AgentStatus {
    pub panel: u64,
    /// Which of the threads of the panel it is.
    pub thread: usize,
    pub name: String,
    pub agent: String,
    pub activity: ThreadActivity,
    pub color: usize,
    pub tokens_used: u32,
    pub tokens_max: u32,
    pub digest: Option<String>,
    pub asked: Option<String>,
    pub plan_done: u32,
    pub plan_total: u32,
    pub created_at_ms: i64,
    pub last_input_at_ms: Option<i64>,
    pub muted: bool,
}

/// What belongs to a project on the rail besides its slot.
pub struct ProjectSession {
    /// The panel of the project that is in front.
    pub panel: u64,
    /// The source control panel of the project.
    pub git_panel: u64,
    pub tabs: Vec<EditorTab>,
    /// The threads of that panel.
    pub statuses: Vec<AgentStatus>,
    /// The threads of all panels of the project, panel by panel.
    pub all_statuses: Vec<AgentStatus>,
}

/// A surface of the fleet grid, each of one task.
pub enum FleetPane {
    Task { space: String },
    Terminal { space: String },
    Editor { space: String },
    Diff { space: String },
    Tests { space: String },
}

#[derive(Clone, Copy, PartialEq, Eq, Structural, Debug)]
pub enum FleetBottomView {
    News,
    Terminal,
}

#[derive(Clone, Copy, PartialEq, Eq, Structural, Debug)]
pub enum FleetCenterView {
    Control,
    Graph,
}

#[derive(Clone, Copy, PartialEq, Eq, Structural, Debug)]
pub enum GraphView {
    Fan,
    Tree,
    Card,
    Hub,
}

#[derive(Clone, Copy, PartialEq, Eq, Structural, Debug)]
pub enum FleetSort {
    Rail,
    /// The task that was asked last comes first.
    Recent,
    /// What waits for an answer comes first, then what works, then what is done, then the rest.
    Attention,
}

#[derive(Clone, Copy, PartialEq, Eq, Structural, Debug)]
pub enum Dock {
    Left,
    Right,
    Bottom,
}

/// Where a task is being renamed.
#[derive(Clone, Copy, PartialEq, Eq, Structural, Debug)]
pub enum RenameSite {
    Herd,
    Cell,
}

#[derive(Clone, Copy, PartialEq, Eq, Structural, Debug)]
pub struct TaskRenaming {
    pub index: usize,
    pub site: RenameSite,
}

/// Which docks are shown.
#[derive(Clone, Copy, PartialEq, Eq, Structural, Debug)]
pub struct Docks {
    pub left: bool,
    pub right: bool,
    pub bottom: bool,
    /// The left dock shows the herd.
    pub herd: bool,
}

/// Which surface fills the window, and which one was touched last.
#[derive(Clone, Copy, PartialEq, Eq, Structural, Debug)]
pub struct Surface {
    pub fleet_mode: bool,
    pub agent_full_screen: bool,
    pub chat_mode: bool,
    pub rail_active: bool,
    pub agent_active: bool,
}

/// Which dock is being resized, and from where.
#[derive(Clone, Copy, PartialEq, Eq, Structural, Debug)]
pub struct Resizing {
    pub agent: bool,
    pub explorer: bool,
    pub bottom: bool,
    pub start_x: i64,
    pub start_y: i64,
    pub start_width: i64,
    pub start_height: i64,
}

/// How wide and how high the docks are.
#[derive(Clone, Copy, PartialEq, Eq, Structural, Debug)]
pub struct DockSizes {
    pub agent_width: i64,
    pub explorer_width: i64,
    pub bottom_height: i64,
}

/// How the lineage graph is drawn.
#[derive(Clone, Copy, PartialEq, Eq, Structural, Debug)]
pub struct GraphLook {
    pub view: GraphView,
    pub collapsed: bool,
}

/// How the fleet is laid out.
#[derive(Clone, Copy, PartialEq, Eq, Structural, Debug)]
pub struct FleetLook {
    pub bottom_view: FleetBottomView,
    pub center_view: FleetCenterView,
    pub sort: FleetSort,
    /// The cell that is shown alone.
    pub maximized: Option<usize>,
    pub stage_columns: usize,
    pub captain_tab: usize,
    pub renaming: Option<TaskRenaming>,
}

/// What is open besides the docks.
#[derive(Clone, Copy, PartialEq, Eq, Structural, Debug)]
pub struct Boards {
    pub todo_open: bool,
    pub picker_open: bool,
    /// The clock that keeps the times in the fleet fresh is running.
    pub fleet_clock: bool,
    pub herd_solo_expanded: bool,
    pub hide_external_worktrees: bool,
}

/// The parts of the window that are shown. Lengths are in thousandths of a pixel.
#[derive(Clone, Copy, PartialEq, Eq, Structural, Debug)]
pub struct Chrome {
    pub docks: Docks,
    pub surface: Surface,
    pub resizing: Resizing,
    pub sizes: DockSizes,
    pub graph: GraphLook,
    pub fleet: FleetLook,
    pub boards: Boards,
}

/// A worktree that git lists.
pub struct WorktreeEntry {
    pub path: String,
    /// The spelling of `path` with its links resolved.
    pub canonical: String,
    pub branch: Option<String>,
}

/// The worktrees of a repository: `None` while they are being read.
pub struct WorktreeListing {
    pub key: String,
    pub listed: Option<Vec<WorktreeEntry>>,
}

/// An unsaved text that was kept when the window went away.
pub struct HotExitRow {
    pub scope: String,
    pub path: String,
    pub content: String,
}

/// A short notice whose words the outside chooses.
#[derive(Clone, Copy, PartialEq, Eq, Structural, Debug)]
pub enum Notice {
    PinnedTabStays,
    /// This many tabs stayed open because they hold unsaved edits.
    UnsavedTabsStay(usize),
    NoTaskToExtend,
    StageTakesTheFirst(usize),
    NoIntegrationSpace,
    MergePreviewClean,
    TaskIntegrated,
    InlineTargetEmpty,
    InlineBufferChanged,
    HandoffUnavailable,
    RemoteDropRefused,
    RemoteOpenRefused,
}

#[derive(Clone, Copy, PartialEq, Eq, Structural, Debug)]
pub enum FocusTarget {
    /// The view of the tab with this id.
    Tab(u64),
    Terminal,
    /// The terminal, if there is one.
    TerminalIfPresent,
    GitMessage,
    GitBranchName,
    Composer,
    GotoLine,
    InlineEdit,
    Inbox,
    NewTask,
    History,
    Split(u64),
    /// What had the focus before.
    Previous(u64),
}

/// What has to happen outside of the window's state.
#[allow(inconsistent_fields)]
pub enum Effect {
    Focus(FocusTarget),
    /// Make the rendered page of this editor the active surface.
    ShowRendered(u64),
    DismissBufferSearch,
    CloseHover,
    LspDidClose(String),
    RemoveHotExit { host: Option<String>, path: String },
    SaveHotExit { host: Option<String>, path: String, tab: u64 },
    ClearHotExit,
    LoadHotExit,
    ReplaceText { path: String, content: String },
    PushDiagnostics,
    RefreshGitStatus,
    RefreshGitStatusOf(usize),
    SaveState,
    SaveTab(u64),
    ReloadFromDisk(u64),
    DismissExternalChange(u64),
    WaitToAutoSave(u64),
    WatchBlur(u64),
    WaitToSnapshot(u64),
    WaitToBlame { generation: u64, tab: u64, path: String, row: usize },
    /// Say behind a row who wrote it, or nothing.
    AnnotateLine { tab: u64, row: usize, line: Option<BlameLine> },
    OpenFile(String),
    OpenFileSync(String),
    /// Open a file at once, unless a tab shows it by then.
    OpenFileIfClosed(String),
    OpenFileAs { path: String, preview: bool },
    OpenFileAndSelect { path: String, offset: usize },
    OpenFolderAsWindow(String),
    OpenFolderInRail { host: Option<String>, path: String, branch: Option<String> },
    OpenWorktree { path: String, branch: Option<String> },
    SwitchProject(usize),
    SwitchAdjacentProject(bool),
    CloseActiveThread,
    RestoreClosedThread,
    NewThread,
    NewThreadIn(usize),
    SelectNextThread,
    SelectPrevThread,
    CloseThread { session: usize, thread: usize },
    FocusThread { session: usize, thread: usize },
    FocusThreadOf { panel: u64, thread: usize },
    ContinueInNewSession { chat: bool },
    AgentWidthChanged,
    SelectText { tab: u64, offset: usize },
    RevealLine { tab: u64, line: usize },
    OpenSplit(String),
    /// Put in the completion that is selected.
    ConfirmCompletion,
    PlaceImages { tab: u64, document: String, images: Vec<String>, root: String },
    InsertDroppedText { tab: u64, text: String },
    OpenDiff { path: String, editor: Option<u64> },
    /// Show a text that cannot be changed in a tab that is not kept.
    ShowText { title: String, text: String },
    StageHunk { tab: u64, path: String, root: String, hunk: DiffHunk },
    RevertHunk { tab: u64, path: String, hunk: DiffHunk },
    Toast(Notice),
    ToastText(String),
    FailureToast { headline: Headline, gist: String, details: Option<FailureOutput> },
    RunGit { panel: u64, root: String, host_id: String, job: GitJob },
    RefreshExplorer,
    ReopenSlotFiles,
    UpdateAgentDestination,
    /// Empty the message of a source control panel.
    ClearGitMessage(u64),
    SetGitMessage { panel: u64, message: String },
    WorktreeHasNoParent,
    WorktreeIsCurrent(String),
    BranchDeleted(String),
    StartFleetClock,
    ReadWorktrees { key: String, host_id: String, root: String },
    PersistTaskSpace(usize),
    TransitionTask { index: usize, phase: TaskPhase, reason: TaskEvent, detail: TaskDetail },
    MergeConflict(String),
    MergePreviewFailed(String),
    IntegrationFailed(String),
    PreviewMerge { task: usize, host_id: String, root: String, branch: String },
    IntegrateBranch { task: usize, integration: usize, host_id: String, root: String, branch: String },
    CreateTaskWorktree { host_id: String, root: String, parent: String, repo_name: String, used: Vec<String> },
    StopQuietAgents(Vec<usize>),
    ShowCleanup(Vec<String>),
    RemoveProjectSlot(usize),
    EnsureTerminal(usize),
    EnsureTests(usize),
    ListAgentSessions,
    WaitToSearch { generation: u64, query: String },
    ScrollHistoryTo(usize),
    ClosePicker,
    OpenHistoryThread { panel: u64, thread: HistoryThread },
    OpenAgentSession { panel: u64, agent: String, session: AgentSessionSummary },
    OpenThreadAtTurn { session: usize, found: HistoryMatch, query: String },
    OpenClosedProject { found: HistoryMatch, query: String },
    SetHistoryInput(String),
    RevealMatch { panel: u64, query: String },
    FocusComposerOf(u64),
    OpenChat { thread_id: String, query: String },
    ProjectOfMatchClosed(String),
    JumpToThread { panel: u64, thread_id: String },
    InterceptKeys,
    ReleaseKeys,
    WriteKeymap { path: String, edit: KeymapEdit },
    KeymapWriteFailed { path: String, error: String },
    EnsureKeymapFile { path: String },
    CloseShortcutSheet,
    OpenAgentSettings,
    RespondPermission { panel: u64, thread: usize, option: usize },
    FocusComposerIn(usize),
    OpenCellMenu(usize),
    EditTitle(String),
    EnsureCaptain { session: usize },
    WriteSetupScript { index: usize, host_id: String, root: String },
    ToggleDir(String),
    OpenDirInRail(String),
    HideContextMenu,
    OpenWithDefaultApp(String),
    RevealInFinder(String),
    StartNaming { kind: NamingKind, base: String, is_dir: bool },
    DuplicateEntry(String),
    TrashEntry(String),
    EnterDir(String),
    CreateTask { root: String, prompt: String, branch: Option<String>, base: Option<String>, skip_setup: bool },
    RunInlineRewrite { root: String, instruction: String, old_text: String, generation: u64 },
    RunInlineCommand { root: String, instruction: String, generation: u64 },
    ApplyEdit { tab: u64, start: usize, end: usize, text: String },
    InsertInTerminal(String),
    AdoptAsTask(String),
    CopyText(String),
    PathCopied(String),
    Launch { app: ExternalApp, command: ExternalCommand },
    ExternalMissing(ExternalApp),
}

/// Why a task changed its phase.
#[derive(Clone, Copy, PartialEq, Eq, Structural, Debug)]
pub enum TaskEvent {
    MergePreviewClean,
    MergePreviewConflict,
    IntegrationStarted,
    IntegrationSucceeded,
    IntegrationFailed,
    TaskCreated,
    PermissionResolved,
}

/// What is kept of a change of phase.
pub enum TaskDetail {
    Nothing,
    /// Merging was tried out without a conflict.
    Clean,
    Text(String),
}

/// A key that was pressed.
pub struct Keystroke {
    pub key: String,
    /// The text that the key types.
    pub key_char: Option<String>,
    pub shift: bool,
    pub alt: bool,
    pub control: bool,
    pub platform: bool,
    pub function: bool,
}

/// One window.
pub struct Workspace {
    /// The tabs of the shown project.
    pub tabs: Vec<EditorTab>,
    pub active_tab: usize,
    /// The editor of the right half, where the area is split.
    pub split: Option<u64>,
    pub recently_closed: Vec<String>,
    /// What the explorer of the shown project has selected.
    pub explorer_selected: Option<String>,
    /// The pinned files of the shown project, as they are kept with the window.
    pub pinned_files: Vec<String>,
    pub active_file: usize,
    /// There is a database to keep things in.
    pub has_storage: bool,
    pub nav_back: Vec<NavPosition>,
    pub nav_forward: Vec<NavPosition>,
    /// What was typed in the line box, while it is open.
    pub goto_line: Option<String>,
    pub inline_edit: Option<InlineEditState>,
    /// The selected row of the list of completions, while it is open.
    pub completion: Option<usize>,
    pub auto_save_generation: u64,
    pub hot_exit_gen: u64,
    pub hot_exit_pending: Option<Vec<HotExitRow>>,
    pub blame_gen: u64,
    pub last_blame: Option<NavPosition>,
    /// The hunk whose menu is open.
    pub hunk_menu: Option<DiffHunk>,
    pub projects: Vec<ProjectSlot>,
    pub sessions: Vec<ProjectSession>,
    pub chat_tabs: Vec<EditorTab>,
    pub active: usize,
    pub chrome: Chrome,
    pub fleet_cells: Vec<FleetPane>,
    pub fleet_selection: Vec<String>,
    pub fleet_selection_anchor: Option<String>,
    pub stage_pinned: Vec<String>,
    /// Which tab of each task is shown on the stage.
    pub stage_tabs: Vec<StageTab>,
    pub captain_space: Option<String>,
    pub fleet_worktrees: Vec<WorktreeListing>,
    pub fleet_filter_query: String,
    /// The source control panel of the shown project.
    pub git: GitPanel,
    /// The source control panels of other projects that were shown.
    pub resting_git: Vec<GitPanel>,
    pub inbox: Vec<InboxItem>,
    /// What had the focus before the inbox was opened, while it is open.
    pub inbox_open: Option<Option<u64>>,
    pub thread_history: Option<ThreadHistoryState>,
    pub keymap_editing: Option<KeymapEditing>,
    pub new_task: Option<NewTaskDialog>,
    pub effects: Vec<Effect>,
}

/// The state of one window, as contracts speak of it.
pub struct Model {
    pub tabs: Seq<EditorTab>,
    pub active_tab: usize,
    pub split: Option<u64>,
    pub recently_closed: Seq<String>,
    pub explorer_selected: Option<String>,
    pub pinned_files: Seq<String>,
    pub active_file: usize,
    pub has_storage: bool,
    pub nav_back: Seq<NavPosition>,
    pub nav_forward: Seq<NavPosition>,
    pub goto_line: Option<String>,
    pub inline_edit: Option<InlineEditState>,
    pub completion: Option<usize>,
    pub auto_save_generation: u64,
    pub hot_exit_gen: u64,
    pub hot_exit_pending: Option<Vec<HotExitRow>>,
    pub blame_gen: u64,
    pub last_blame: Option<NavPosition>,
    pub hunk_menu: Option<DiffHunk>,
    pub projects: Seq<ProjectSlot>,
    pub sessions: Seq<ProjectSession>,
    pub chat_tabs: Seq<EditorTab>,
    pub active: usize,
    pub chrome: Chrome,
    pub fleet_cells: Seq<FleetPane>,
    pub fleet_selection: Seq<String>,
    pub fleet_selection_anchor: Option<String>,
    pub stage_pinned: Seq<String>,
    pub stage_tabs: Seq<StageTab>,
    pub captain_space: Option<String>,
    pub fleet_worktrees: Seq<WorktreeListing>,
    pub fleet_filter_query: String,
    pub git: GitPanel,
    pub resting_git: Seq<GitPanel>,
    pub inbox: Seq<InboxItem>,
    pub inbox_open: Option<Option<u64>>,
    pub thread_history: Option<ThreadHistoryState>,
    pub keymap_editing: Option<KeymapEditing>,
    pub new_task: Option<NewTaskDialog>,
    pub effects: Seq<Effect>,
}

impl View for Workspace {
    type V = Model;

    open spec fn view(&self) -> Model {
        Model {
            tabs: self.tabs@,
            active_tab: self.active_tab,
            split: self.split,
            recently_closed: self.recently_closed@,
            explorer_selected: self.explorer_selected,
            pinned_files: self.pinned_files@,
            active_file: self.active_file,
            has_storage: self.has_storage,
            nav_back: self.nav_back@,
            nav_forward: self.nav_forward@,
            goto_line: self.goto_line,
            inline_edit: self.inline_edit,
            completion: self.completion,
            auto_save_generation: self.auto_save_generation,
            hot_exit_gen: self.hot_exit_gen,
            hot_exit_pending: self.hot_exit_pending,
            blame_gen: self.blame_gen,
            last_blame: self.last_blame,
            hunk_menu: self.hunk_menu,
            projects: self.projects@,
            sessions: self.sessions@,
            chat_tabs: self.chat_tabs@,
            active: self.active,
            chrome: self.chrome,
            fleet_cells: self.fleet_cells@,
            fleet_selection: self.fleet_selection@,
            fleet_selection_anchor: self.fleet_selection_anchor,
            stage_pinned: self.stage_pinned@,
            stage_tabs: self.stage_tabs@,
            captain_space: self.captain_space,
            fleet_worktrees: self.fleet_worktrees@,
            fleet_filter_query: self.fleet_filter_query,
            git: self.git,
            resting_git: self.resting_git@,
            inbox: self.inbox@,
            inbox_open: self.inbox_open,
            thread_history: self.thread_history,
            keymap_editing: self.keymap_editing,
            new_task: self.new_task,
            effects: self.effects@,
        }
    }
}

impl Model {
    /// The state with one more effect.
    pub open spec fn then_do(self, effect: Effect) -> Model {
        Model { effects: self.effects.push(effect), ..self }
    }

    /// The state with other parts of the window shown.
    pub open spec fn with_chrome(self, chrome: Chrome) -> Model {
        Model { chrome, ..self }
    }

    /// The shown project is on the rail.
    pub open spec fn has_slot(self) -> bool {
        self.active < self.projects.len()
    }

    /// The slot of the shown project.
    pub open spec fn slot(self) -> ProjectSlot {
        self.projects[self.active as int]
    }

    /// The active tab is there and shows an editor.
    pub open spec fn has_active_editor(self) -> bool {
        self.active_tab < self.tabs.len() && self.tabs[self.active_tab as int].has_editor
    }

    /// The active tab.
    pub open spec fn tab(self) -> EditorTab {
        self.tabs[self.active_tab as int]
    }

    /// The active tab is one of the tabs, where there are any.
    pub open spec fn tabs_wf(self) -> bool {
        self.tabs.len() == 0 || self.active_tab < self.tabs.len()
    }

    /// The focus goes to the editor of the active tab, if it shows one.
    pub open spec fn focus_editor(self) -> Model {
        if self.has_active_editor() {
            self.then_do(Effect::Focus(FocusTarget::Tab(self.tab().id)))
        } else {
            self
        }
    }
}

impl Chrome {
    /// What a new window shows: its left dock.
    pub open spec fn fresh() -> Chrome {
        Chrome {
            docks: Docks { left: true, right: false, bottom: false, herd: false },
            surface: Surface {
                fleet_mode: false,
                agent_full_screen: false,
                chat_mode: false,
                rail_active: false,
                agent_active: false,
            },
            resizing: Resizing {
                agent: false,
                explorer: false,
                bottom: false,
                start_x: 0,
                start_y: 0,
                start_width: 0,
                start_height: 0,
            },
            sizes: DockSizes { agent_width: 0, explorer_width: 0, bottom_height: 0 },
            graph: GraphLook { view: GraphView::Fan, collapsed: false },
            fleet: FleetLook {
                bottom_view: FleetBottomView::News,
                center_view: FleetCenterView::Control,
                sort: FleetSort::Rail,
                maximized: None,
                stage_columns: 1,
                captain_tab: 0,
                renaming: None,
            },
            boards: Boards {
                todo_open: false,
                picker_open: false,
                fleet_clock: false,
                herd_solo_expanded: false,
                hide_external_worktrees: false,
            },
        }
    }

    /// What a new window shows: its left dock.
    pub fn new() -> (chrome: Chrome)
        ensures
            chrome == Chrome::fresh(),
    {
        Chrome {
            docks: Docks { left: true, right: false, bottom: false, herd: false },
            surface: Surface {
                fleet_mode: false,
                agent_full_screen: false,
                chat_mode: false,
                rail_active: false,
                agent_active: false,
            },
            resizing: Resizing {
                agent: false,
                explorer: false,
                bottom: false,
                start_x: 0,
                start_y: 0,
                start_width: 0,
                start_height: 0,
            },
            sizes: DockSizes { agent_width: 0, explorer_width: 0, bottom_height: 0 },
            graph: GraphLook { view: GraphView::Fan, collapsed: false },
            fleet: FleetLook {
                bottom_view: FleetBottomView::News,
                center_view: FleetCenterView::Control,
                sort: FleetSort::Rail,
                maximized: None,
                stage_columns: 1,
                captain_tab: 0,
                renaming: None,
            },
            boards: Boards {
                todo_open: false,
                picker_open: false,
                fleet_clock: false,
                herd_solo_expanded: false,
                hide_external_worktrees: false,
            },
        }
    }
}

impl Model {
    /// A window that nothing was done with yet, but for the projects on its rail.
    pub open spec fn untouched(self) -> bool {
        &&& self.tabs.len() == 0 && self.active_tab == 0 && self.split is None
        &&& self.recently_closed.len() == 0 && self.explorer_selected is None
        &&& self.pinned_files.len() == 0 && self.active_file == 0
        &&& self.nav_back.len() == 0 && self.nav_forward.len() == 0
        &&& self.goto_line is None && self.inline_edit is None && self.completion is None
        &&& self.auto_save_generation == 0 && self.hot_exit_gen == 0 && self.blame_gen == 0
        &&& self.hot_exit_pending is None && self.last_blame is None && self.hunk_menu is None
        &&& self.chat_tabs.len() == 0 && self.active == 0
        &&& self.chrome == Chrome::fresh()
        &&& self.fleet_cells.len() == 0 && self.fleet_selection.len() == 0
        &&& self.fleet_selection_anchor is None && self.stage_pinned.len() == 0
        &&& self.stage_tabs.len() == 0
        &&& self.captain_space is None && self.fleet_worktrees.len() == 0
        &&& self.fleet_filter_query@.len() == 0
        &&& !self.git.open && !self.git.busy && self.git.message@.len() == 0
        &&& self.git.branch_name is None && self.git.branch_menu is None && self.resting_git.len() == 0
        &&& self.inbox.len() == 0 && self.inbox_open is None
        &&& self.thread_history is None && self.keymap_editing is None && self.new_task is None
        &&& self.effects.len() == 0
    }
}

impl Workspace {
    /// A window with these projects on its rail, the first of which is shown.
    pub fn new(projects: Vec<ProjectSlot>, sessions: Vec<ProjectSession>, has_storage: bool) -> (workspace: Workspace)
        ensures
            workspace@.untouched(),
            workspace@.tabs_wf(),
            workspace@.projects == projects@,
            workspace@.sessions == sessions@,
            workspace@.has_storage == has_storage,
            workspace@.git.id == if sessions@.len() > 0 { sessions@[0].git_panel } else { 0 },
    {
        let git_panel: u64 = if sessions.len() > 0 {
            sessions[0].git_panel
        } else {
            0
        };
        Workspace {
            tabs: Vec::new(),
            active_tab: 0,
            split: None,
            recently_closed: Vec::new(),
            explorer_selected: None,
            pinned_files: Vec::new(),
            active_file: 0,
            has_storage,
            nav_back: Vec::new(),
            nav_forward: Vec::new(),
            goto_line: None,
            inline_edit: None,
            completion: None,
            auto_save_generation: 0,
            hot_exit_gen: 0,
            hot_exit_pending: None,
            blame_gen: 0,
            last_blame: None,
            hunk_menu: None,
            projects,
            sessions,
            chat_tabs: Vec::new(),
            active: 0,
            chrome: Chrome::new(),
            fleet_cells: Vec::new(),
            fleet_selection: Vec::new(),
            fleet_selection_anchor: None,
            stage_pinned: Vec::new(),
            stage_tabs: Vec::new(),
            captain_space: None,
            fleet_worktrees: Vec::new(),
            fleet_filter_query: String::new(),
            git: Workspace::new_git_panel(git_panel),
            resting_git: Vec::new(),
            inbox: Vec::new(),
            inbox_open: None,
            thread_history: None,
            keymap_editing: None,
            new_task: None,
            effects: Vec::new(),
        }
    }

    /// Appends one effect.
    pub fn effect(&mut self, effect: Effect)
        ensures
            final(self)@ == old(self)@.then_do(effect),
    {
        self.effects.push(effect);
    }

    /// Hands over what has to happen outside, oldest first.
    pub fn take_effects(&mut self) -> (effects: Vec<Effect>)
        ensures
            effects@ == old(self)@.effects,
            final(self)@ == (Model { effects: Seq::empty(), ..old(self)@ }),
    {
        let mut taken: Vec<Effect> = Vec::new();
        taken.append(&mut self.effects);
        assert(taken@ =~= old(self)@.effects);
        taken
    }

    /// Whether the shown project is on the rail.
    pub fn has_active_slot(&self) -> (b: bool)
        ensures
            b == self@.has_slot(),
    {
        self.active < self.projects.len()
    }

    /// The id of the editor in the active tab.
    pub fn active_editor(&self) -> (r: Option<u64>)
        ensures
            r == if self@.has_active_editor() { Some(self@.tab().id) } else { None::<u64> },
    {
        if self.active_tab < self.tabs.len() && self.tabs[self.active_tab].has_editor {
            Some(self.tabs[self.active_tab].id)
        } else {
            None
        }
    }

    /// The path of the active tab.
    pub fn active_tab_path(&self) -> (r: Option<String>)
        ensures
            r == if self@.active_tab < self@.tabs.len() { Some(self@.tab().path) } else { None::<String> },
    {
        if self.active_tab < self.tabs.len() {
            Some(self.tabs[self.active_tab].path.clone())
        } else {
            None
        }
    }

    /// Gives the focus to the editor of the active tab.
    pub fn focus_active_editor(&mut self)
        ensures
            final(self)@ == old(self)@.focus_editor(),
    {
        if let Some(id) = self.active_editor() {
            self.effect(Effect::Focus(FocusTarget::Tab(id)));
        }
    }
}

impl FleetPane {
    pub open spec fn spec_space(self) -> String {
        match self {
            FleetPane::Task { space } => space,
            FleetPane::Terminal { space } => space,
            FleetPane::Editor { space } => space,
            FleetPane::Diff { space } => space,
            FleetPane::Tests { space } => space,
        }
    }

    /// Two panes are the same surface of the same task.
    pub open spec fn same(self, other: FleetPane) -> bool {
        &&& self.spec_space()@ == other.spec_space()@
        &&& match (self, other) {
            (FleetPane::Task { .. }, FleetPane::Task { .. }) => true,
            (FleetPane::Terminal { .. }, FleetPane::Terminal { .. }) => true,
            (FleetPane::Editor { .. }, FleetPane::Editor { .. }) => true,
            (FleetPane::Diff { .. }, FleetPane::Diff { .. }) => true,
            (FleetPane::Tests { .. }, FleetPane::Tests { .. }) => true,
            _ => false,
        }
    }

    /// The task that the pane belongs to.
    pub fn space(&self) -> (r: &String)
        ensures
            *r == self.spec_space(),
    {
        match self {
            FleetPane::Task { space } => space,
            FleetPane::Terminal { space } => space,
            FleetPane::Editor { space } => space,
            FleetPane::Diff { space } => space,
            FleetPane::Tests { space } => space,
        }
    }

    /// Whether two panes are the same surface of the same task.
    pub fn is_same(&self, other: &FleetPane) -> (b: bool)
        ensures
            b == self.same(*other),
    {
        match (self, other) {
            (FleetPane::Task { space: a }, FleetPane::Task { space: b }) => *a == *b,
            (FleetPane::Terminal { space: a }, FleetPane::Terminal { space: b }) => *a == *b,
            (FleetPane::Editor { space: a }, FleetPane::Editor { space: b }) => *a == *b,
            (FleetPane::Diff { space: a }, FleetPane::Diff { space: b }) => *a == *b,
            (FleetPane::Tests { space: a }, FleetPane::Tests { space: b }) => *a == *b,
            _ => false,
        }
    }
}

impl TaskSpace {
    pub open spec fn integration(self) -> bool {
        self.kind == SpaceKind::Integration
    }

    /// Whether tasks are merged into this space.
    pub fn is_integration(&self) -> (b: bool)
        ensures
            b == self.integration(),
    {
        self.kind == SpaceKind::Integration
    }
}

/// An effect is appended behind those before it, and nothing else changes.
pub proof fn effects_are_appended(m: Model, effect: Effect)
    ensures
        m.then_do(effect).effects.len() == m.effects.len() + 1,
        m.then_do(effect).effects.last() == effect,
        m.then_do(effect).effects.drop_last() == m.effects,
        (Model { effects: m.effects, ..m.then_do(effect) }) == m,
{
    assert(m.then_do(effect).effects.drop_last() =~= m.effects);
}

/// The focus goes to the editor of the active tab exactly if there is such a tab and it shows one.
pub proof fn the_focus_goes_to_the_active_editor(m: Model)
    ensures
        m.active_tab < m.tabs.len() && m.tabs[m.active_tab as int].has_editor ==> m.focus_editor().effects
            == m.effects.push(Effect::Focus(FocusTarget::Tab(m.tabs[m.active_tab as int].id))),
        m.active_tab >= m.tabs.len() || !m.tabs[m.active_tab as int].has_editor ==> m.focus_editor() == m,
        m.focus_editor().tabs == m.tabs && m.focus_editor().chrome == m.chrome,
{
}

/// Two panes are the same exactly if they show the same surface of the same task.
pub proof fn panes_are_told_apart(a: FleetPane, b: FleetPane, c: FleetPane)
    ensures
        a.same(a),
        a.same(b) == b.same(a),
        a.same(b) && b.same(c) ==> a.same(c),
        a.same(b) ==> a.spec_space()@ == b.spec_space()@,
        a.same(b) ==> a is Task == b is Task && a is Terminal == b is Terminal && a is Editor == b is Editor && a is Diff
            == b is Diff && a is Tests == b is Tests,
        a is Task && b is Task && a.spec_space()@ == b.spec_space()@ ==> a.same(b),
        a is Terminal && b is Terminal && a.spec_space()@ == b.spec_space()@ ==> a.same(b),
        a is Editor && b is Editor && a.spec_space()@ == b.spec_space()@ ==> a.same(b),
        a is Diff && b is Diff && a.spec_space()@ == b.spec_space()@ ==> a.same(b),
        a is Tests && b is Tests && a.spec_space()@ == b.spec_space()@ ==> a.same(b),
        a matches FleetPane::Task { space } ==> a.spec_space() == space,
        a matches FleetPane::Terminal { space } ==> a.spec_space() == space,
        a matches FleetPane::Editor { space } ==> a.spec_space() == space,
        a matches FleetPane::Diff { space } ==> a.spec_space() == space,
        a matches FleetPane::Tests { space } ==> a.spec_space() == space,
{
}

/// A new window shows its left dock and nothing else: nothing fills it, nothing is being resized, and no
/// board is open.
pub proof fn new_windows_show_their_left_dock()
    ensures
        ({
            let chrome = Chrome::fresh();
            &&& chrome.docks.left && !chrome.docks.right && !chrome.docks.bottom && !chrome.docks.herd
            &&& !chrome.surface.fleet_mode && !chrome.surface.agent_full_screen && !chrome.surface.chat_mode
            &&& !chrome.surface.rail_active && !chrome.surface.agent_active
            &&& !chrome.resizing.agent && !chrome.resizing.explorer && !chrome.resizing.bottom
            &&& chrome.fleet.sort == FleetSort::Rail && chrome.fleet.stage_columns == 1
            &&& chrome.fleet.maximized is None && chrome.fleet.renaming is None
            &&& !chrome.boards.todo_open && !chrome.boards.picker_open && !chrome.boards.fleet_clock
        }),
{
}

/// The shown project is the one at its place on the rail.
pub proof fn the_shown_project_is_at_its_place(m: Model)
    ensures
        m.has_slot() <==> m.active < m.projects.len(),
        m.has_slot() ==> m.slot() == m.projects[m.active as int],
        m.active_tab < m.tabs.len() ==> m.tab() == m.tabs[m.active_tab as int],
        m.has_active_editor() <==> m.active_tab < m.tabs.len() && m.tabs[m.active_tab as int].has_editor,
{
}

} // verus!
