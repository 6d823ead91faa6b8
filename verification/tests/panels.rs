use workspace::editor_manners::Platform;
use workspace::explorer::{
    breadcrumbs, columns, tree_items, tree_row_look, Chevron, ExplorerView, MenuEntry, Naming, NamingKind,
    StatusEntry, TouchedFile, TreeItem, TreeRow,
};
use workspace::git_controller::{
    branch_in_use, commit_plan, switch_route, worktree_target, BranchMenu, CommitPlan, GitJob, Headline,
    SwitchRoute, WorktreeTarget,
};
use workspace::history::{
    agent_session_title, color_of, selectable_positions, AgentSessionSummary, AgentSessions,
    ClosedProject, HistoryDetail, HistoryHeader, HistoryMatch, HistoryMatches, HistoryMessage,
    HistoryOpening, HistoryPlace, HistoryRow, HistoryThread, SessionListing, SpaceTitle, StoredThread,
    ThreadHistoryState,
};
use workspace::inbox::{push_inbox_item, InboxItem, INBOX_LIMIT};
use workspace::keep_awake::{
    acquire_wake_lock, keep_awake_supported, wants_wake_lock, working_threads, KeepAwake, KeepAwakeState,
    WakeRequest,
};
use workspace::keymap_editing::{
    keystroke_text, ActionBinding, BindingSite, KeymapEdit, KeymapEditing, KeymapFile,
};
use workspace::workspace::{
    Effect, FocusTarget, Keystroke, Notice, ProjectSession, ProjectSlot, SpaceKind, TaskPhase,
    TaskSpace, ThreadActivity, Workspace, WorktreeEntry,
};

fn slot(name: &str, root: &str) -> ProjectSlot {
    ProjectSlot {
        name: name.to_string(),
        root: root.to_string(),
        canonical_root: root.to_string(),
        remote_host: None,
        host_id: "local".to_string(),
        branch: None,
        worktree_branch: None,
        color: 0,
        task_space: TaskSpace {
            id: format!("space-{name}"),
            kind: SpaceKind::Integration,
            repository_id: "repo".to_string(),
            title: name.to_string(),
            phase: TaskPhase::Planned,
            linked: false,
            base_oid: None,
            head_oid: None,
            result_summary: None,
        },
    }
}

fn window() -> Workspace {
    let session = || ProjectSession {
        panel: 1,
        git_panel: 7,
        tabs: Vec::new(),
        statuses: Vec::new(),
        all_statuses: Vec::new(),
    };
    Workspace::new(vec![slot("p", "/work/repo")], vec![session()], true)
}

fn key(name: &str) -> Keystroke {
    Keystroke {
        key: name.to_string(),
        key_char: None,
        shift: false,
        alt: false,
        control: false,
        platform: false,
        function: false,
    }
}

fn item(title: &str, at_ms: i64) -> InboxItem {
    InboxItem {
        title: title.to_string(),
        body: String::new(),
        color: 0,
        at_ms,
        unread: true,
        panel: 0,
        thread_id: String::new(),
    }
}

#[test]
fn the_inbox_keeps_only_the_newest_items() {
    let mut items = Vec::new();
    for number in 0..(INBOX_LIMIT + 5) {
        push_inbox_item(&mut items, item(&format!("完了: {number}"), number as i64));
    }
    assert_eq!(items.len(), INBOX_LIMIT);
    assert_eq!(items[0].title, "完了: 5", "the oldest are dropped");
}

#[test]
fn agent_alerts_stay_in_the_inbox_until_read() {
    let mut workspace = window();
    workspace.record_inbox(
        "完了: parser".to_string(),
        "necoder — 直した".to_string(),
        2,
        10,
        7,
        "thread".to_string(),
    );
    assert_eq!(workspace.inbox.len(), 1);
    assert_eq!(workspace.inbox_unread_count(), 1);
    assert_eq!(workspace.inbox_bell().badge.as_deref(), Some("1"));
    workspace.toggle_inbox(Some(5));
    assert!(workspace.inbox_open.is_some());
    let view = workspace.inbox_view().unwrap();
    assert!(view.can_mark_all && view.rows[0].shows_body);
    workspace.take_effects();
    workspace.open_inbox_item(0);
    assert_eq!(workspace.inbox_unread_count(), 0);
    assert!(workspace.inbox_open.is_none());
    let effects = workspace.take_effects();
    assert!(matches!(effects[0], Effect::Focus(FocusTarget::Previous(5))));
    assert!(matches!(&effects[1], Effect::JumpToThread { panel: 7, thread_id } if thread_id == "thread"));
    workspace.toggle_inbox_item_read(0);
    assert_eq!(workspace.inbox_unread_count(), 1);
    workspace.mark_inbox_read();
    assert_eq!(workspace.inbox_unread_count(), 0);
    assert!(workspace.inbox_bell().badge.is_none());
}

#[test]
fn the_bell_counts_to_ninety_nine() {
    let mut workspace = window();
    for n in 0..100 {
        workspace.record_inbox(format!("{n}"), String::new(), 0, n, 0, String::new());
    }
    assert_eq!(workspace.inbox_bell().badge.as_deref(), Some("99+"));
    workspace.toggle_inbox_item_read(0);
    assert_eq!(workspace.inbox_bell().badge.as_deref(), Some("99"));
    workspace.toggle_inbox(None);
    let rows = workspace.inbox_view().unwrap().rows;
    assert_eq!((rows[0].index, rows[99].index), (99, 0), "the newest first");
    workspace.on_inbox_key_down(&key("a"));
    assert!(workspace.inbox_open.is_some());
    workspace.on_inbox_key_down(&key("escape"));
    assert!(workspace.inbox_view().is_none());
}

#[test]
fn only_working_threads_keep_the_computer_awake() {
    assert!(wants_wake_lock(KeepAwake::WhileWorking, 1));
    assert!(!wants_wake_lock(KeepAwake::WhileWorking, 0));
    assert!(!wants_wake_lock(KeepAwake::Off, 3), "never where it is off");
    let activities = vec![
        ThreadActivity::Working,
        ThreadActivity::Blocked,
        ThreadActivity::Idle,
        ThreadActivity::Done { interrupted: true },
        ThreadActivity::Working,
    ];
    assert_eq!(working_threads(&activities), 2);
}

/// Counts how often something was held and let go.
#[derive(Default)]
struct Counts {
    acquired: usize,
    released: usize,
    alive: bool,
}

fn apply(state: &mut KeepAwakeState, wanted: bool, counts: &mut Counts, works: bool) {
    let lost = state.held && !counts.alive;
    let step = state.apply(wanted, lost);
    if step.release {
        counts.released += 1;
        counts.alive = false;
    }
    if step.acquire {
        counts.acquired += 1;
        counts.alive = works;
        state.acquired(works);
    }
}

#[test]
fn the_lock_is_taken_once_and_released_when_work_stops() {
    let mut counts = Counts::default();
    let mut state = KeepAwakeState::default();
    apply(&mut state, true, &mut counts, true);
    apply(&mut state, true, &mut counts, true);
    apply(&mut state, true, &mut counts, true);
    assert_eq!(counts.acquired, 1, "once while work goes on");
    assert_eq!(counts.released, 0);

    apply(&mut state, false, &mut counts, true);
    assert_eq!(counts.released, 1, "let go when nothing works");
    apply(&mut state, false, &mut counts, true);
    assert_eq!(counts.released, 1, "only once");

    apply(&mut state, true, &mut counts, true);
    assert_eq!(counts.acquired, 2, "taken again for the next work");
}

#[test]
fn a_lock_killed_from_outside_is_taken_again() {
    let mut counts = Counts::default();
    let mut state = KeepAwakeState::default();
    apply(&mut state, true, &mut counts, true);
    counts.alive = false;
    apply(&mut state, true, &mut counts, true);
    assert_eq!(counts.acquired, 2, "taken again");
    assert_eq!(counts.released, 1, "the dead one is let go");
}

#[test]
fn a_failure_is_not_retried_until_the_next_piece_of_work() {
    let mut counts = Counts::default();
    let mut state = KeepAwakeState::default();
    apply(&mut state, true, &mut counts, false);
    apply(&mut state, true, &mut counts, false);
    assert_eq!(counts.acquired, 1, "the same failure is not repeated");
    apply(&mut state, false, &mut counts, true);
    assert_eq!(counts.acquired, 1, "nothing is taken while letting go");
    apply(&mut state, true, &mut counts, true);
    assert_eq!(counts.acquired, 2, "tried again after the work has stopped");
}

#[test]
fn each_platform_stays_awake_in_its_own_way() {
    assert!(keep_awake_supported(Platform::MacOs) && !keep_awake_supported(Platform::Other));
    assert!(matches!(
        acquire_wake_lock(Platform::MacOs, 4321),
        WakeRequest::Run(command)
            if command.program == "/usr/bin/caffeinate" && command.args == ["-i", "-w", "4321"]
    ));
    assert!(matches!(acquire_wake_lock(Platform::Windows, 1), WakeRequest::SetExecutionState));
    assert!(matches!(acquire_wake_lock(Platform::Other, 1), WakeRequest::Unsupported));
}

fn binding(action: &str, keys: &[&str]) -> ActionBinding {
    ActionBinding {
        context: "Editor".to_string(),
        action: action.to_string(),
        keys: keys.iter().map(|k| k.to_string()).collect(),
        customized: false,
    }
}

#[test]
fn keys_are_rebound_from_the_sheet() {
    let mut workspace = window();
    workspace.keymap_editing = Some(KeymapEditing::load(
        Some("/c/keymap.json".to_string()),
        KeymapFile::Missing { rows: vec![binding("editor::Undo", &["cmd-z"])] },
    ));
    let start = |workspace: &mut Workspace, action: &str| {
        workspace.start_key_capture("Editor".to_string(), action.to_string());
        workspace.take_effects();
    };
    start(&mut workspace, "editor::DuplicateLineDown");
    let shift = Keystroke { shift: true, ..key("shift") };
    workspace.capture_keystroke(&shift, "shift".to_string(), Vec::new());
    assert!(workspace.keymap_editing.as_ref().unwrap().capturing.is_some(), "it goes on waiting");
    let f9 = Keystroke { control: true, alt: true, shift: true, ..key("f9") };
    workspace.capture_keystroke(&f9, "ctrl-alt-shift-f9".to_string(), Vec::new());
    let effects = workspace.take_effects();
    assert!(matches!(effects[0], Effect::ReleaseKeys));
    assert!(matches!(
        &effects[1],
        Effect::WriteKeymap { path, edit: KeymapEdit::Rebind { action, keystroke, .. } }
            if path == "/c/keymap.json" && action == "editor::DuplicateLineDown" && keystroke == "ctrl-alt-shift-f9"
    ));
    workspace.user_keymap_written(
        "/c/keymap.json".to_string(),
        Ok(vec![binding("editor::DuplicateLineDown", &["ctrl-alt-shift-f9"])]),
    );
    let none = Vec::new();
    assert_eq!(workspace.keymap_rows(&none)[0].keys, ["ctrl-alt-shift-f9"]);

    start(&mut workspace, "editor::DuplicateLineDown");
    let taken = || vec![BindingSite {
        context: "Editor".to_string(),
        action: "editor::DuplicateLineUp".to_string(),
    }];
    workspace.capture_keystroke(&key("f8"), "f8".to_string(), taken());
    assert!(workspace.keymap_editing.as_ref().unwrap().pending.is_some());
    workspace.take_effects();
    workspace.answer_pending_rebind(false);
    assert!(workspace.take_effects().is_empty(), "nothing is changed");
    start(&mut workspace, "editor::DuplicateLineDown");
    workspace.capture_keystroke(&key("f8"), "f8".to_string(), taken());
    workspace.take_effects();
    workspace.answer_pending_rebind(true);
    assert!(matches!(workspace.take_effects()[0], Effect::WriteKeymap { .. }));

    start(&mut workspace, "editor::DuplicateLineDown");
    workspace.capture_keystroke(&key("escape"), "escape".to_string(), Vec::new());
    assert!(workspace.keymap_editing.as_ref().unwrap().capturing.is_none());
    workspace.take_effects();
    workspace.reset_key_binding("Editor".to_string(), "editor::DuplicateLineDown".to_string());
    assert!(matches!(
        &workspace.take_effects()[0],
        Effect::WriteKeymap { edit: KeymapEdit::Reset { .. }, .. }
    ));
    workspace.user_keymap_written("/c/keymap.json".to_string(), Err("full".to_string()));
    assert!(matches!(&workspace.take_effects()[0], Effect::KeymapWriteFailed { error, .. } if error == "full"));
    assert_eq!(workspace.keymap_rows(&none).len(), 1, "the rows stay as they were");

    workspace.keymap_editing = Some(KeymapEditing::load(
        Some("/c/keymap.json".to_string()),
        KeymapFile::Broken { error: "broken".to_string(), rows: Vec::new() },
    ));
    workspace.reset_key_binding("Editor".to_string(), "editor::Undo".to_string());
    workspace.start_key_capture("Editor".to_string(), "editor::Undo".to_string());
    assert!(workspace.take_effects().is_empty(), "a broken keymap is not written");
    workspace.open_user_keymap();
    assert!(matches!(workspace.take_effects()[0], Effect::EnsureKeymapFile { .. }));
    workspace.user_keymap_ready("/c/keymap.json".to_string(), Ok(()));
    assert!(workspace.keymap_editing.is_none());
    let effects = workspace.take_effects();
    assert!(matches!(effects[0], Effect::CloseShortcutSheet));
    assert!(matches!(&effects[1], Effect::OpenFile(path) if path == "/c/keymap.json"));
    assert_eq!(keystroke_text(&key("cmd"), "cmd".to_string()), None);
    assert_eq!(keystroke_text(&key(""), String::new()), None);
    assert_eq!(keystroke_text(&key("p"), "cmd-p".to_string()).as_deref(), Some("cmd-p"));
}

fn entry(path: &str, branch: Option<&str>) -> WorktreeEntry {
    WorktreeEntry {
        path: path.to_string(),
        canonical: path.to_string(),
        branch: branch.map(str::to_string),
    }
}

#[test]
fn branches_that_are_checked_out_are_opened() {
    let trees = vec![entry("/work/repo", Some("main")), entry("/work/repo-x", Some("feature/x"))];
    assert!(matches!(switch_route(&trees, "/work/repo", "main"), SwitchRoute::Stay));
    assert!(matches!(
        switch_route(&trees, "/work/repo", "feature/x"),
        SwitchRoute::Open(path) if path == "/work/repo-x"
    ));
    assert!(matches!(switch_route(&trees, "/work/repo", "other"), SwitchRoute::Switch));
    assert!(matches!(
        worktree_target(&trees, "/work", "repo", "a/b"),
        WorktreeTarget::Create(path) if path == "/work/repo-a-b"
    ));
    assert!(matches!(
        worktree_target(&trees, "/work", "repo", "main"),
        WorktreeTarget::Existing(path) if path == "/work/repo"
    ));
    assert!(matches!(switch_route(&trees, "/work/repo/", "main"), SwitchRoute::Stay));
    assert!(branch_in_use(&trees, "main") && !branch_in_use(&trees, "other"));
    assert_eq!(commit_plan(&Vec::new()), CommitPlan::NothingToCommit);
    assert_eq!(commit_plan(&vec![false, false]), CommitPlan::StageAllFirst);
    assert_eq!(commit_plan(&vec![false, true]), CommitPlan::Commit);
}

#[test]
fn the_branch_menu_opens_and_closes() {
    let mut workspace = window();
    workspace.toggle_branch_menu();
    assert!(matches!(
        workspace.take_effects()[0],
        Effect::RunGit { job: GitJob::LoadBranchMenu, .. }
    ));
    let menu = || BranchMenu {
        current: Some("main".to_string()),
        branches: vec!["main".to_string()],
        worktrees: Vec::new(),
    };
    workspace.branch_menu_loaded(7, menu());
    assert!(workspace.git.branch_menu.is_some());
    workspace.toggle_branch_menu();
    assert!(workspace.git.branch_menu.is_none() && !workspace.close_branch_menu());
    workspace.hide_branch_menu();
    workspace.switch_branch_to("x".to_string());
    assert!(workspace.git_is_busy());
    workspace.branch_switched(7, "x".to_string(), Ok(Some("/work/repo-x".to_string())));
    assert!(!workspace.git_is_busy());
    let effects = workspace.take_effects();
    assert!(matches!(
        &effects[1],
        Effect::OpenWorktree { path, branch: Some(branch) } if path == "/work/repo-x" && branch == "x"
    ));
    workspace.branch_switched(7, "x".to_string(), Err("dirty".to_string()));
    assert!(matches!(&workspace.take_effects()[0], Effect::ToastText(text) if text == "dirty"));
    workspace.branch_switched(7, "x".to_string(), Ok(None));
    assert!(matches!(workspace.take_effects()[0], Effect::RefreshExplorer));
}

#[test]
fn worktrees_of_branches_are_made_beside_the_repository() {
    let mut workspace = window();
    workspace.open_branch_worktree("a/b".to_string());
    assert!(matches!(
        &workspace.take_effects()[0],
        Effect::RunGit { job: GitJob::OpenWorktree { branch, parent, repo_name }, .. }
            if branch == "a/b" && parent == "/work" && repo_name == "repo"
    ));
    let root = "/work/repo".to_string();
    workspace.branch_worktree_ready(7, &root, "local".to_string(), "a/b".to_string(), Ok(root.clone()));
    assert!(matches!(&workspace.take_effects()[0], Effect::WorktreeIsCurrent(branch) if branch == "a/b"));
    workspace.branch_worktree_ready(7, &root, "local".to_string(), "a/b".to_string(), Ok("/w".to_string()));
    assert!(matches!(&workspace.take_effects()[0], Effect::OpenFolderInRail { path, .. } if path == "/w"));
    workspace.branch_worktree_ready(7, &root, "local".to_string(), "a".to_string(), Err("no".to_string()));
    assert!(matches!(&workspace.take_effects()[0], Effect::ToastText(_)));
    workspace.projects[0].root = "/".to_string();
    workspace.open_branch_worktree("x".to_string());
    assert!(matches!(workspace.take_effects()[0], Effect::WorktreeHasNoParent));
    workspace.open_worktree_window("/w2".to_string(), None);
    assert!(matches!(
        &workspace.take_effects()[0],
        Effect::OpenFolderInRail { host: Some(host), .. } if host == "local"
    ));
    workspace.delete_git_branch("old".to_string());
    workspace.branch_deleted(7, "old".to_string(), Ok(()));
    let effects = workspace.take_effects();
    assert!(matches!(&effects[1], Effect::BranchDeleted(branch) if branch == "old"));
}

#[test]
fn commits_keep_their_message_when_a_hook_stops_them() {
    let mut workspace = window();
    workspace.toggle_git_panel();
    assert!(workspace.git_panel_open());
    workspace.take_effects();
    workspace.submit_git_input();
    assert!(workspace.take_effects().is_empty(), "there is no message");
    workspace.git.message = "fix: 貼り付け".to_string();
    workspace.submit_git_input();
    assert!(matches!(
        &workspace.take_effects()[0],
        Effect::RunGit { job: GitJob::Commit { message }, .. } if message == "fix: 貼り付け"
    ));
    workspace.git_push();
    assert!(workspace.take_effects().is_empty(), "a job is running");
    let output: String = (1..=5).map(|n| format!("pre-commit: lint error {n}\n")).collect();
    workspace.git_commit_done(7, Err(output.clone()));
    assert_eq!(workspace.git.message, "fix: 貼り付け");
    assert!(matches!(
        &workspace.take_effects()[0],
        Effect::FailureToast { headline: Headline::CommitFailed, gist, details: Some(details) }
            if gist.contains("pre-commit: lint error 1") && details.output == output
                && details.command == "git commit"
    ));
    workspace.git_commit();
    workspace.git_commit_done(7, Ok(()));
    assert_eq!(workspace.git.message, "");
}

#[test]
fn jobs_end_in_the_panel_that_they_were_started_in() {
    let mut workspace = window();
    workspace.git.message = "one".to_string();
    workspace.git_commit();
    assert!(matches!(workspace.take_effects()[0], Effect::RunGit { panel: 7, .. }));
    workspace.show_git_panel(8);
    assert!(!workspace.git_is_busy() && workspace.git.id == 8 && workspace.git.message.is_empty());
    workspace.git.message = "two".to_string();
    workspace.git_commit_done(7, Ok(()));
    assert_eq!(workspace.git.message, "two");
    assert!(matches!(workspace.take_effects()[0], Effect::ClearGitMessage(7)));
    workspace.commit_message_ready(7, "writer", Ok("three".to_string()));
    assert!(matches!(
        &workspace.take_effects()[0],
        Effect::SetGitMessage { panel: 7, message } if message == "three"
    ));
    workspace.branch_menu_loaded(
        7,
        BranchMenu { current: None, branches: Vec::new(), worktrees: Vec::new() },
    );
    workspace.git_commit();
    workspace.github_action_done(7, true, Ok(()));
    assert!(workspace.git_is_busy() && workspace.git.branch_menu.is_none());
    workspace.github_action_done(9, true, Ok(()));
    assert!(workspace.git_is_busy(), "a panel that is gone");
    workspace.show_git_panel(7);
    assert!(!workspace.git_is_busy() && workspace.git.branch_menu.is_some());
    assert_eq!(workspace.git.message, "three");
    assert_eq!(workspace.resting_git.len(), 1);
    workspace.show_git_panel(7);
    assert_eq!(workspace.resting_git.len(), 1);
    workspace.show_git_panel(8);
    assert!(workspace.git_is_busy() && workspace.git.message == "two");
}

#[test]
fn git_jobs_tell_their_own_failures() {
    let mut workspace = window();
    workspace.git_stage("/work/repo/a".to_string());
    workspace.git_unstage("/work/repo/a".to_string());
    workspace.git_stage_all();
    assert_eq!(workspace.take_effects().len(), 3);
    workspace.git_index_op_done(&GitJob::StageAll, Err("fatal".to_string()));
    assert!(matches!(
        &workspace.take_effects()[0],
        Effect::FailureToast { headline: Headline::StageFailed, details: None, .. }
    ));
    workspace.git_index_op_done(&GitJob::StageAll, Ok(()));
    workspace.take_effects();
    workspace.git_pull();
    workspace.git_remote_done(7, false, Ok(()));
    assert!(workspace.take_effects().iter().any(|e| matches!(e, Effect::ReopenSlotFiles)));
    workspace.git_push();
    workspace.git_remote_done(7, true, Err("rejected".to_string()));
    assert!(workspace.take_effects().iter().any(|e| matches!(
        e,
        Effect::FailureToast { headline: Headline::PushFailed, .. }
    )));
    workspace.github_action(true);
    workspace.github_action_done(7, true, Err("x".to_string()));
    workspace.github_action_done(7, false, Ok(()));
    workspace.generate_commit_message();
    workspace.commit_message_ready(7, "writer", Ok("feat: x".to_string()));
    assert_eq!(workspace.git.message, "feat: x");
    workspace.commit_message_ready(7, "writer", Err("x".to_string()));
    assert!(workspace.take_effects().iter().any(|e| matches!(
        e,
        Effect::FailureToast { headline: Headline::AiMessageFailed, .. }
    )));
}

#[test]
fn branches_are_named_in_the_panel() {
    let mut workspace = window();
    workspace.toggle_git_panel();
    workspace.start_new_branch();
    assert!(matches!(
        workspace.take_effects().last(),
        Some(Effect::Focus(FocusTarget::GitBranchName))
    ));
    workspace.git.branch_name = Some("  topic ".to_string());
    workspace.submit_git_input();
    assert!(matches!(
        &workspace.take_effects()[0],
        Effect::RunGit { job: GitJob::CreateBranch { name }, .. } if name == "topic"
    ));
    workspace.new_branch_done(Err("exists".to_string()));
    assert!(workspace.git.branch_name.is_some());
    workspace.on_git_key_down(&key("escape"));
    assert!(workspace.git.branch_name.is_none() && workspace.git_panel_open());
    workspace.on_git_key_down(&key("escape"));
    assert!(!workspace.git_panel_open());
    workspace.start_new_branch();
    workspace.confirm_new_branch();
    assert!(workspace.git.branch_name.is_none(), "without a name, naming ends");
    workspace.start_new_branch();
    workspace.new_branch_done(Ok(()));
    assert!(workspace.git.branch_name.is_none());
}

fn thread(id: &str, name: &str) -> HistoryThread {
    HistoryThread {
        id: id.to_string(),
        name: name.to_string(),
        color_index: 0,
        branch: None,
        tokens_used: 0,
        archived: false,
        created_at: 1,
        last_input_at: None,
    }
}

fn summary(id: &str, title: Option<&str>) -> AgentSessionSummary {
    AgentSessionSummary {
        session_id: id.to_string(),
        cwd: "/repo".to_string(),
        title: title.map(str::to_string),
        updated_at_ms: Some(1),
    }
}

#[test]
fn rows_follow_the_query_and_the_loading_state() {
    let mut state = ThreadHistoryState {
        query: String::new(),
        previous_focus: None,
        threads: vec![thread("a", "rope の修正"), thread("b", "README")],
        thread_hits: Vec::new(),
        agent: "Codex".to_string(),
        host: Some("dev-box".to_string()),
        panel: 1,
        root: "/repo".to_string(),
        agent_sessions: AgentSessions::Loading,
        session_hits: Vec::new(),
        matches: HistoryMatches::Idle,
        search_generation: 0,
        selected: 0,
    };
    let rows = state.rows();
    assert!(matches!(rows[0], HistoryRow::Header(HistoryHeader::Threads)));
    assert!(matches!(rows[1], HistoryRow::Thread(0)));
    assert!(matches!(rows[2], HistoryRow::Thread(1)));
    assert!(matches!(
        &rows[3],
        HistoryRow::Header(HistoryHeader::Agent { host: Some(host), .. }) if host == "dev-box"
    ));
    assert!(matches!(rows[4], HistoryRow::Message(HistoryMessage::AgentLoading)));
    assert_eq!(selectable_positions(&rows), vec![1, 2]);

    state.agent_sessions =
        AgentSessions::Loaded(vec![summary("s1", Some("rope の索引を足す")), summary("s2", None)]);
    state.query = "rope".to_string();
    state.thread_hits = vec![true, false];
    state.session_hits = vec![true, false];
    state.matches = HistoryMatches::Searching;
    let rows = state.rows();
    let kinds: Vec<&HistoryRow> = rows.iter().filter(|row| row.selectable()).collect();
    assert_eq!(kinds.len(), 2);
    assert!(matches!(kinds[0], HistoryRow::Thread(0)));
    assert!(matches!(kinds[1], HistoryRow::AgentSession(0)));
    assert!(matches!(
        rows.last(),
        Some(HistoryRow::Message(HistoryMessage::MatchesSearching))
    ));

    state.query = "zzz".to_string();
    state.thread_hits = vec![false, false];
    state.session_hits = vec![false, false];
    state.matches = HistoryMatches::Loaded(Vec::new());
    let rows = state.rows();
    assert_eq!(
        rows.iter().filter(|row| matches!(row, HistoryRow::Header(_))).count(),
        1,
        "a section without rows has no head"
    );
    assert_eq!(agent_session_title(&summary("x", Some("  a\n b "))).as_deref(), Some("a b"));
    assert_eq!(agent_session_title(&summary("x", Some("  "))), None);
    assert_eq!(color_of(-3), 0);
}

fn found(project: &str) -> HistoryMatch {
    HistoryMatch {
        project: project.to_string(),
        thread_id: "found".to_string(),
        thread_name: "境界のバグ".to_string(),
        color_index: 3,
        turn_id: 1,
        from_user: true,
        place: "p".to_string(),
        snippet: "境界値で落ちる".to_string(),
        created_at: 1,
    }
}

fn opening() -> HistoryOpening {
    let stored = |project: &str, id: &str| StoredThread {
        project: project.to_string(),
        thread: thread(id, id),
    };
    HistoryOpening {
        focused: Some(9),
        stored: vec![stored("space-p", "new"), stored("p", "old"), stored("other", "no")],
        panel: 1,
        agent: "Codex".to_string(),
        host: None,
        can_list: true,
    }
}

#[test]
fn a_full_text_match_opens_its_thread() {
    let mut workspace = window();
    workspace.chrome.docks.right = false;
    workspace.open_thread_history(opening());
    assert_eq!(workspace.thread_history.as_ref().unwrap().threads.len(), 2);
    workspace.agent_sessions_listed(1, SessionListing::Failed("no agent".to_string()), &Vec::new());
    workspace.take_effects();
    workspace.debug_history_query("境界値".to_string());
    assert!(matches!(workspace.take_effects()[0], Effect::SetHistoryInput(_)));
    workspace.on_history_query_changed(" 境界値 ".to_string(), vec![false, false], Vec::new());
    let effects = workspace.take_effects();
    assert!(matches!(effects[0], Effect::ScrollHistoryTo(0)));
    assert!(matches!(&effects[1], Effect::WaitToSearch { generation: 1, query } if query == "境界値"));
    assert!(workspace.history_search_is_current(1) && !workspace.history_search_is_current(0));
    workspace.history_searched(0, Ok(vec![]));
    workspace.history_searched(1, Ok(vec![found("space-p"), found("__chat__")]));
    let state = workspace.thread_history.as_ref().unwrap();
    assert!(matches!(state.agent_sessions, AgentSessions::Failed(_)));
    let rows = state.rows();
    let selectable = selectable_positions(&rows).len();
    assert_eq!(selectable, 2);
    assert!(matches!(
        state.row_detail(&HistoryRow::Match(0)),
        HistoryDetail::Match { from_user: true, .. }
    ));
    workspace.move_history_selection(-1, false);
    assert_eq!(workspace.thread_history.as_ref().unwrap().selected, selectable - 1);
    workspace.move_history_selection(1, false);
    assert_eq!(workspace.thread_history.as_ref().unwrap().selected, 0);
    workspace.move_history_selection(-5, false);
    assert_eq!(workspace.thread_history.as_ref().unwrap().selected, 1);
    workspace.move_history_selection(7, false);
    assert_eq!(workspace.thread_history.as_ref().unwrap().selected, 0);
    workspace.move_history_selection(1, true);
    assert_eq!(workspace.thread_history.as_ref().unwrap().selected, 0, "a character is composed");
    workspace.debug_history_select(0);
    workspace.take_effects();
    workspace.debug_history_confirm("__chat__");
    assert!(workspace.thread_history.is_none(), "opening closes it");
    assert!(matches!(
        &workspace.take_effects()[0],
        Effect::OpenThreadAtTurn { session: 0, found, query }
            if found.thread_name == "境界のバグ" && query == "境界値"
    ));
    workspace.reveal_history_thread(1, Some(0), Some("境界値".to_string()));
    assert!(workspace.chrome.docks.right, "the agent dock is shown");
    assert!(matches!(&workspace.take_effects()[0], Effect::RevealMatch { panel: 1, .. }));
    workspace.open_thread_history(opening());
    workspace.take_effects();
    workspace.close_thread_history();
    assert!(workspace.thread_history.is_none());
    assert!(matches!(
        workspace.take_effects()[0],
        Effect::Focus(FocusTarget::Previous(9))
    ));
}

#[test]
fn conversations_that_come_late_are_matched_with_the_query() {
    let mut workspace = window();
    workspace.open_thread_history(opening());
    workspace.on_history_query_changed("rope".to_string(), vec![false, false], Vec::new());
    workspace.agent_sessions_listed(
        1,
        SessionListing::Listed(vec![summary("s1", Some("other")), summary("s2", Some("rope"))]),
        &Vec::new(),
    );
    workspace.session_hits_found(2, vec![true, true]);
    assert!(workspace.thread_history.as_ref().unwrap().session_hits.is_empty(), "another panel");
    workspace.session_hits_found(1, vec![false, true]);
    let state = workspace.thread_history.as_ref().unwrap();
    let rows = state.rows();
    let listed: Vec<&HistoryRow> = rows.iter().filter(|row| row.selectable()).collect();
    assert_eq!(listed.len(), 1);
    assert!(matches!(listed[0], HistoryRow::AgentSession(1)));
    workspace.thread_history.as_mut().unwrap().selected = 8;
    workspace.session_hits_found(1, vec![true, true]);
    assert_eq!(workspace.thread_history.as_ref().unwrap().selected, 1, "the last row");
    workspace.thread_history = None;
    workspace.session_hits_found(1, vec![true]);
    assert!(workspace.thread_history.is_none());
}

#[test]
fn the_selection_of_the_history_goes_round() {
    let mut workspace = window();
    workspace.open_thread_history(opening());
    workspace.agent_sessions_listed(
        1,
        SessionListing::Listed(vec![summary("s1", Some("a"))]),
        &Vec::new(),
    );
    let rows = workspace.thread_history.as_ref().unwrap().rows();
    let positions = selectable_positions(&rows);
    assert_eq!(positions.len(), 3);
    let selected = |workspace: &Workspace| workspace.thread_history.as_ref().unwrap().selected;
    for delta in [1, -1, 5, -5, isize::MAX, isize::MIN + 1] {
        let before = selected(&workspace);
        workspace.take_effects();
        workspace.move_history_selection(delta, false);
        let to = (before as i128 + delta as i128).rem_euclid(3) as usize;
        assert_eq!(selected(&workspace), to);
        assert!(matches!(
            workspace.take_effects()[..],
            [Effect::ScrollHistoryTo(row)] if row == positions[to]
        ));
        workspace.move_history_selection(-delta, false);
        assert_eq!(selected(&workspace), before);
        workspace.move_history_selection(1, false);
    }
    workspace.thread_history.as_mut().unwrap().selected = 0;
    workspace.move_history_selection(isize::MIN, false);
    assert_eq!(selected(&workspace) as i128, (isize::MIN as i128).rem_euclid(3));
}

#[test]
fn rows_of_the_history_open_what_they_stand_for() {
    let mut workspace = window();
    workspace.open_thread_history(opening());
    workspace.agent_sessions_listed(2, SessionListing::Unsupported, &Vec::new());
    assert!(matches!(
        workspace.thread_history.as_ref().unwrap().agent_sessions,
        AgentSessions::Loading
    ));
    workspace.agent_sessions_listed(
        1,
        SessionListing::Listed(vec![summary("s1", Some("a")), summary("s2", None)]),
        &vec!["s1".to_string()],
    );
    assert!(matches!(
        &workspace.thread_history.as_ref().unwrap().agent_sessions,
        AgentSessions::Loaded(sessions) if sessions.len() == 1 && sessions[0].session_id == "s2"
    ));
    workspace.take_effects();
    workspace.confirm_history_row(HistoryRow::Header(HistoryHeader::Threads), "chat");
    workspace.history_row_clicked(0, "chat");
    workspace.history_row_clicked(99, "chat");
    assert!(workspace.thread_history.is_some());
    workspace.confirm_history_row(HistoryRow::AgentSession(0), "chat");
    assert!(matches!(
        &workspace.take_effects()[0],
        Effect::OpenAgentSession { panel: 1, session, .. } if session.session_id == "s2"
    ));
    workspace.open_thread_history(opening());
    workspace.take_effects();
    workspace.confirm_history_selection("chat");
    assert!(matches!(
        &workspace.take_effects()[0],
        Effect::OpenHistoryThread { thread, .. } if thread.id == "new"
    ));
    workspace.open_thread_history(opening());
    workspace.take_effects();
    workspace.history_row_clicked(2, "chat");
    assert!(matches!(
        &workspace.take_effects()[0],
        Effect::OpenHistoryThread { thread, .. } if thread.id == "old"
    ));
    workspace.open_history_match(found("chat"), "q".to_string(), "chat");
    assert!(matches!(&workspace.take_effects()[0], Effect::OpenChat { .. }));
    workspace.open_history_match(found("gone"), "q".to_string(), "chat");
    assert!(matches!(&workspace.take_effects()[0], Effect::OpenClosedProject { .. }));
    let closed = |local_id: &str| {
        Some(ClosedProject { root: "/old".to_string(), local_id: local_id.to_string(), is_dir: true })
    };
    assert!(!workspace.open_history_project(&"gone".to_string(), closed("elsewhere")));
    assert!(workspace.open_history_project(&"gone".to_string(), closed("gone")));
    workspace.history_project_missing("gone".to_string());
    assert_eq!(workspace.take_effects().len(), 2);
    workspace.continue_in_new_session();
    workspace.new_session_continued(false);
    let effects = workspace.take_effects();
    assert!(matches!(effects[0], Effect::ContinueInNewSession { chat: false }));
    assert!(matches!(effects[1], Effect::Toast(Notice::HandoffUnavailable)));
}

#[test]
fn matches_say_where_they_are() {
    let mut workspace = window();
    workspace.projects.push(slot("far", "/far"));
    workspace.projects[1].remote_host = Some("dev-box".to_string());
    let titles = vec![SpaceTitle { id: "x".to_string(), title: "閉じた題".to_string() }];
    let place = |project: &str| match workspace.history_place(project, &titles, "chat") {
        HistoryPlace::Chat => "chat!".to_string(),
        HistoryPlace::Named(name) => name,
    };
    assert_eq!(place("chat"), "chat!");
    assert_eq!(place("space-p"), "p");
    assert_eq!(place("far"), "far（dev-box）");
    assert_eq!(place("x"), "閉じた題");
    assert_eq!(place("unknown"), "unknown");
    assert_eq!(workspace.history_slot_for(&"far".to_string()), Some(1));
    assert_eq!(workspace.history_slot_for(&"x".to_string()), None);
}

#[test]
fn tasks_are_started_from_the_dialog() {
    let mut workspace = window();
    assert_eq!(workspace.integration_index_for_active_repository(), Some(0));
    workspace.open_new_task(true, Some(3));
    assert!(workspace.new_task_input_focused());
    assert_eq!(workspace.new_task_input_text().as_deref(), Some(""));
    workspace.submit_new_task();
    assert!(workspace.new_task.is_some(), "there is nothing to do");
    {
        let dialog = workspace.new_task.as_mut().unwrap();
        dialog.prompt = "fix login\nplease".to_string();
        dialog.branch = " feat/login ".to_string();
        assert_eq!(dialog.folder("fix-login"), "feat-login");
        assert_eq!(dialog.branch_name("fix-login"), "feat/login");
        dialog.branch = String::new();
        assert_eq!(dialog.folder("fix-login"), "fix-login");
        assert_eq!(dialog.branch_name("fix-login"), "task/fix-login");
        dialog.base = " main ".to_string();
        assert_eq!(dialog.chosen_base().as_deref(), Some("main"));
    }
    workspace.toggle_new_task_details();
    workspace.toggle_new_task_setup();
    workspace.take_effects();
    workspace.submit_new_task();
    assert!(matches!(
        &workspace.take_effects()[0],
        Effect::CreateTask { root, branch: None, base: Some(base), skip_setup: true, .. }
            if root == "/work/repo" && base == "main"
    ));
    workspace.open_new_task(false, Some(3));
    workspace.cancel_new_task();
    assert!(workspace.new_task.is_none());
    workspace.create_setup_script();
    workspace.setup_script_written(0, "/s.sh".to_string(), Err("denied".to_string()), false);
    workspace.setup_script_written(0, "/s.sh".to_string(), Err("there".to_string()), true);
    let effects = workspace.take_effects();
    assert!(matches!(
        effects.last(),
        Some(Effect::OpenFile(path)) if path == "/s.sh"
    ));
}

fn row(path: &str, depth: usize, is_dir: bool) -> TreeRow {
    TreeRow {
        path: path.to_string(),
        name: path.to_string(),
        depth,
        is_dir,
        is_expanded: is_dir,
        ignored: false,
    }
}

#[test]
fn names_are_typed_in_the_tree() {
    let rows = vec![row("/p/src", 0, true), row("/p/src/a.rs", 1, false)];
    let root = "/p".to_string();
    assert_eq!(tree_items(&rows, &None, &root), [TreeItem::Row(0), TreeItem::Row(1)]);
    let naming = |kind: NamingKind, parent: &str, target: Option<&str>| {
        Some(Naming { kind, parent: parent.to_string(), target: target.map(str::to_string) })
    };
    assert_eq!(
        tree_items(&rows, &naming(NamingKind::NewFile, "/p", None), &root),
        [TreeItem::Input(0), TreeItem::Row(0), TreeItem::Row(1)]
    );
    assert_eq!(
        tree_items(&rows, &naming(NamingKind::NewDir, "/p/src", None), &root),
        [TreeItem::Row(0), TreeItem::Input(1), TreeItem::Row(1)]
    );
    assert_eq!(
        tree_items(&rows, &naming(NamingKind::Rename, "/p", Some("/p/src/a.rs")), &root),
        [TreeItem::Row(0), TreeItem::Input(1)]
    );
    let statuses = vec![StatusEntry { path: "/p/src/a.rs".to_string(), kind: 4 }];
    let touched = vec![TouchedFile { path: "/p/./src/a.rs".to_string(), color: 2 }];
    let dir = tree_row_look(&rows[0], &None, &statuses, &root, &touched);
    assert!(dir.mention.is_none() && dir.touched.is_none());
    assert!(dir.dirty_inside && dir.status.is_none() && dir.chevron == Chevron::Open);
    let file = tree_row_look(&rows[1], &Some("/p/src/a.rs".to_string()), &statuses, &root, &touched);
    assert_eq!((file.mention.as_deref(), file.touched), (Some("src/a.rs"), Some(2)));
    assert!(file.selected && file.status == Some(4) && file.chevron == Chevron::Nothing);
}

#[test]
fn folders_are_shown_in_columns_and_crumbs() {
    let shown = columns("/w/p", "/w/p/a/b/c");
    assert_eq!(shown.chain, ["/w/p", "/w/p/a", "/w/p/a/b", "/w/p/a/b/c"]);
    assert_eq!(shown.first_shown, 1);
    assert_eq!(shown.selected_child(2).map(String::as_str), Some("/w/p/a/b/c"));
    assert_eq!(shown.selected_child(3), None);
    assert_eq!(columns("/w/p", "/x").chain, ["/x"]);
    let inside = breadcrumbs("/w/p", "/w/p/a/b");
    assert!(inside.in_project && inside.up.as_deref() == Some("/w/p/a"));
    let crumbs: Vec<(&str, &str, bool)> = inside
        .crumbs
        .iter()
        .map(|c| (c.label.as_str(), c.path.as_str(), c.current))
        .collect();
    assert_eq!(crumbs, [("a", "/w/p/a", false), ("b", "/w/p/a/b", true)]);
    assert!(breadcrumbs("/w/p", "/w/p").crumbs.is_empty());
    let up_again = breadcrumbs("/w/p", "/w/p/..");
    let labels: Vec<&str> = up_again.crumbs.iter().map(|c| c.label.as_str()).collect();
    assert_eq!(labels, [".."]);
    let outside = breadcrumbs("/w/p", "/w");
    let labels: Vec<&str> = outside.crumbs.iter().map(|c| c.label.as_str()).collect();
    assert_eq!(labels, ["/", "w"]);
    let deep = breadcrumbs("/w/p", "/a/b/c/d");
    let labels: Vec<&str> = deep.crumbs.iter().map(|c| c.label.as_str()).collect();
    assert_eq!(labels, ["b", "c", "d"]);
}

#[test]
fn columns_and_crumbs_keep_the_text_of_their_folders() {
    let shown = columns("/w//p", "/w//p/./a/b");
    assert_eq!(shown.chain, ["/w//p", "/w//p/./a", "/w//p/./a/b"]);
    let inside = breadcrumbs("/w//p", "/w//p/./a/b");
    let paths: Vec<&str> = inside.crumbs.iter().map(|c| c.path.as_str()).collect();
    assert_eq!(paths, ["/w//p/a", "/w//p/a/b"]);
    let outside = breadcrumbs("/w//p", "/x//y");
    let paths: Vec<&str> = outside.crumbs.iter().map(|c| c.path.as_str()).collect();
    assert_eq!(paths, ["/", "/x", "/x//y"]);
}

#[test]
fn the_explorer_is_as_wide_as_its_dock() {
    let mut workspace = window();
    workspace.chrome.sizes.explorer_width = 260_000;
    let pane = workspace.render_explorer(ExplorerView::Columns, 200_000);
    assert_eq!((pane.width, pane.shown), (260_000, Some(ExplorerView::Columns)));
    workspace.agent_touched();
    assert!(workspace.chrome.surface.agent_active);
    workspace.explorer_touched();
    assert!(!workspace.chrome.surface.agent_active);
    workspace.active = 9;
    let pane = workspace.render_explorer(ExplorerView::Tree, 200_000);
    assert_eq!((pane.width, pane.shown), (200_000, None));
}

#[test]
fn menus_of_other_machines_only_open_and_copy() {
    let mut workspace = window();
    assert_eq!(workspace.context_menu_entries(true).len(), 10);
    assert_eq!(workspace.context_menu_entries(false)[0], MenuEntry::Open);
    workspace.projects[0].remote_host = Some("dev-box".to_string());
    assert_eq!(
        workspace.context_menu_entries(true),
        [MenuEntry::OpenHere, MenuEntry::OpenWindow, MenuEntry::CopyPath]
    );
    workspace.context_menu_chosen(MenuEntry::Rename, "/p/a".to_string(), false);
    assert!(matches!(
        workspace.take_effects()[0],
        Effect::StartNaming { kind: NamingKind::Rename, .. }
    ));
    workspace.context_menu_chosen(MenuEntry::Open, "/p/a".to_string(), false);
    assert_eq!(workspace.take_effects().len(), 2);
    workspace.entry_clicked("/p/d".to_string(), true, false, None);
    assert!(matches!(workspace.take_effects()[0], Effect::EnterDir(_)));
}
