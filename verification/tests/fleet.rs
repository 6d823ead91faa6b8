use workspace::fleet_cells::{free_label, grid_layout, news_listed, CellAction, FleetCenter};
use workspace::fleet_graph::{
    graph_count, hub_label_right, lane_agent, lane_label, lane_look, shows_head,
};
use workspace::fleet_news::{
    captain_bar, external_detail, external_name, round_mark, NewsItem, NewsKind, TaskTab,
};
use workspace::fleet_rows::lead_of;
use workspace::fleet_sidebar::ExternalRow;
use workspace::fleet_stage::{
    LineageMark, NextStep, PermissionCard, PermissionOption, PhaseWord,
};
use workspace::fleet_view::{
    next_task_number, plan_meter, task_branch_name, task_folder_path, MergePreview,
};
use workspace::herd::{thread_line, ThreadLine};
use workspace::task_rows::{sort_task_rows, task_row_matches, TaskRow};
use workspace::workspace::{
    AgentStatus, Effect, FleetPane, FleetSort, GraphView, Notice, ProjectSession, ProjectSlot,
    RenameSite, SpaceKind, TaskDetail, TaskEvent, TaskPhase, TaskSpace, ThreadActivity, Workspace,
    WorktreeEntry,
};

fn slot(name: &str, repository: &str, kind: SpaceKind) -> ProjectSlot {
    ProjectSlot {
        name: name.to_string(),
        root: format!("/work/{name}"),
        canonical_root: format!("/work/{name}"),
        remote_host: None,
        host_id: "local".to_string(),
        branch: None,
        worktree_branch: None,
        color: 0,
        task_space: TaskSpace {
            id: format!("space-{name}"),
            kind,
            repository_id: repository.to_string(),
            title: name.to_string(),
            phase: TaskPhase::Planned,
            linked: kind == SpaceKind::Task,
            base_oid: None,
            head_oid: None,
            result_summary: None,
        },
    }
}

fn status(name: &str, activity: ThreadActivity) -> AgentStatus {
    AgentStatus {
        panel: 1,
        thread: 0,
        name: name.to_string(),
        agent: "Codex".to_string(),
        activity,
        color: 0,
        tokens_used: 100,
        tokens_max: 1000,
        digest: Some(format!("{name} now")),
        asked: None,
        plan_done: 3,
        plan_total: 5,
        created_at_ms: 1,
        last_input_at_ms: Some(2),
        muted: false,
    }
}

fn session(panel: u64) -> ProjectSession {
    ProjectSession {
        panel,
        git_panel: panel,
        tabs: Vec::new(),
        statuses: Vec::new(),
        all_statuses: Vec::new(),
    }
}

fn window(projects: Vec<ProjectSlot>) -> Workspace {
    let sessions = (0..projects.len())
        .map(|panel| session(panel as u64))
        .collect();
    Workspace::new(projects, sessions, true)
}

/// A repository with its main folder and four tasks.
fn fleet() -> Workspace {
    window(vec![
        slot("main", "repo", SpaceKind::Integration),
        slot("a", "repo", SpaceKind::Task),
        slot("b", "repo", SpaceKind::Task),
        slot("c", "repo", SpaceKind::Task),
        slot("d", "repo", SpaceKind::Task),
    ])
}

fn ids(workspace: &Workspace) -> Vec<String> {
    workspace.projects.iter().map(|slot| slot.task_space.id.clone()).collect()
}

fn entry(path: &str, branch: Option<&str>) -> WorktreeEntry {
    WorktreeEntry {
        path: path.to_string(),
        canonical: path.to_string(),
        branch: branch.map(str::to_string),
    }
}

fn task_row(title: &str, branch: &str, asked: Option<&str>, digest: Option<&str>) -> TaskRow {
    TaskRow {
        project_index: 0,
        title: title.to_string(),
        color: 0,
        branch: Some(branch.to_string()),
        activity: ThreadActivity::Idle,
        asked: asked.map(str::to_string),
        digest: digest.map(str::to_string),
        tokens: 0,
        rail_shortcut: None,
        last_input_at_ms: None,
    }
}

#[test]
fn task_rows_sort_by_recent_or_attention() {
    let row = |title: &str, at: Option<i64>, activity: ThreadActivity| {
        let mut row = task_row(title, "b", None, None);
        row.last_input_at_ms = at;
        row.activity = activity;
        row
    };
    let rows = || {
        vec![
            row("a", Some(10), ThreadActivity::Idle),
            row("b", None, ThreadActivity::Blocked),
            row("c", Some(30), ThreadActivity::Working),
            row("d", Some(20), ThreadActivity::Blocked),
        ]
    };
    let titles =
        |rows: &[TaskRow]| rows.iter().map(|row| row.title.to_string()).collect::<Vec<_>>();
    let mut sorted = rows();
    sort_task_rows(&mut sorted, FleetSort::Rail);
    assert_eq!(titles(&sorted), ["a", "b", "c", "d"]);
    sort_task_rows(&mut sorted, FleetSort::Recent);
    assert_eq!(titles(&sorted), ["c", "d", "a", "b"]);
    let mut sorted = rows();
    sort_task_rows(&mut sorted, FleetSort::Attention);
    assert_eq!(titles(&sorted), ["b", "d", "c", "a"]);
    assert_eq!(FleetSort::Attention.next(), FleetSort::Rail);
}

#[test]
fn task_rows_are_filtered_by_every_word() {
    let row = task_row(
        "ログイン修正",
        "task/login-fix",
        Some("OAuth の期限切れを直して"),
        Some("テストを流しています"),
    );
    assert!(task_row_matches(&row, ""), "without words every row is shown");
    assert!(task_row_matches(&row, "   "));
    assert!(task_row_matches(&row, "ログイン"));
    assert!(task_row_matches(&row, "LOGIN-FIX"), "case does not matter");
    assert!(task_row_matches(&row, "oauth テスト"), "the words may stand in different places");
    assert!(!task_row_matches(&row, "oauth 決済"), "every word is wanted");
}

#[test]
fn external_worktrees_show_up_and_can_be_adopted() {
    let mut workspace = window(vec![slot("repo", "repo", SpaceKind::Integration)]);
    workspace.refresh_fleet_worktrees();
    workspace.refresh_fleet_worktrees();
    let effects = workspace.take_effects();
    assert_eq!(effects.len(), 1, "they are being read");
    assert!(matches!(
        &effects[0],
        Effect::ReadWorktrees { key, host_id, root }
            if key == "repo" && host_id == "local" && root == "/work/repo"
    ));
    let listing = || vec![
        entry("/work/repo", Some("main")),
        entry("/work/orca-made", Some("feature/orca")),
    ];
    workspace.fleet_worktrees_read("repo".to_string(), listing());
    let listed = workspace.external_worktrees();
    assert_eq!(listed.len(), 1);
    assert_eq!(listed[0].path, "/work/orca-made");
    assert_eq!(listed[0].branch.as_deref(), Some("feature/orca"));
    assert_eq!(listed[0].rail_index, None, "not on the rail yet");
    assert_eq!(external_name(&listed[0]), "orca-made");
    assert_eq!(external_detail(&listed[0]), "⎇ feature/orca");

    let found = listed.into_iter().next().unwrap();
    workspace.adopt_worktree(found.path, found.branch, found.rail_index);
    let effects = workspace.take_effects();
    assert!(matches!(&effects[0], Effect::AdoptAsTask(path) if path == "/work/orca-made"));
    assert!(matches!(
        &effects[1],
        Effect::OpenFolderInRail { host: Some(host), path, branch: Some(branch) }
            if host == "local" && path == "/work/orca-made" && branch == "feature/orca"
    ));
    // The window opens the folder and makes it a task.
    let mut opened = slot("orca-made", "repo", SpaceKind::Integration);
    opened.task_space.linked = true;
    workspace.projects.push(opened);
    workspace.sessions.push(session(1));
    assert_eq!(workspace.external_worktrees()[0].rail_index, Some(1));
    workspace.make_task_space(1);
    assert_eq!(workspace.projects[1].task_space.kind, SpaceKind::Task);
    assert!(workspace.projects[1].task_space.linked);
    let key = workspace.fleet_repository_key().expect("a repository");
    assert_eq!(workspace.integration_slot_for(&key), Some(0), "tasks are merged into the main folder");
    let rows = workspace.fleet_sidebar_rows();
    assert_eq!(rows.integration.map(|row| row.index), Some(0));
    assert!(rows.rows.iter().any(|row| row.project_index == 1));
    assert!(workspace.external_worktrees().is_empty(), "an adopted worktree is a task");

    workspace.forget_fleet_worktrees();
    workspace.refresh_fleet_worktrees();
    workspace.fleet_worktrees_read("repo".to_string(), vec![entry("/work/repo", Some("main"))]);
    assert!(workspace.vanished_worktree(1), "it was deleted outside");
    assert!(!workspace.vanished_worktree(0), "the main folder is there");
    workspace.take_effects();
    workspace.forget_vanished_task(1);
    assert!(matches!(workspace.take_effects()[0], Effect::RemoveProjectSlot(1)));
}

#[test]
fn several_tasks_can_be_selected_and_handled_together() {
    let mut workspace = fleet();
    let ids = ids(&workspace);
    let order = ids[1..].to_vec();
    workspace.toggle_fleet_selection(ids[1].clone());
    workspace.toggle_fleet_selection(ids[3].clone());
    assert_eq!(workspace.fleet_selection, [ids[1].clone(), ids[3].clone()]);
    workspace.toggle_fleet_selection(ids[1].clone());
    assert_eq!(workspace.fleet_selection, [ids[3].clone()], "again takes it out");
    workspace.select_fleet_range(&order, ids[4].clone());
    assert_eq!(workspace.fleet_selection, ids[1..=4].to_vec());
    workspace.fleet_sidebar();

    workspace.stage_selected_tasks(&ids[1..=4].to_vec());
    assert_eq!(workspace.stage_pinned, ids[1..=3].to_vec(), "three fit on the stage");
    assert_eq!(workspace.chrome.fleet.stage_columns, 3);
    assert!(workspace.fleet_selection.is_empty());
    assert!(workspace
        .take_effects()
        .iter()
        .any(|e| matches!(e, Effect::Toast(Notice::StageTakesTheFirst(4)))));

    workspace.cleanup_selected_tasks(vec![ids[2].clone(), ids[4].clone()]);
    assert!(matches!(
        &workspace.take_effects()[0],
        Effect::ShowCleanup(marked) if *marked == [ids[2].clone(), ids[4].clone()]
    ));
    workspace.rest_selected_tasks(&vec![ids[2].clone(), "gone".to_string()]);
    assert!(matches!(
        &workspace.take_effects()[0],
        Effect::StopQuietAgents(sessions) if *sessions == [2]
    ));

    workspace.toggle_fleet_selection(ids[2].clone());
    workspace.clear_fleet_selection();
    assert!(workspace.fleet_selection.is_empty());
    assert!(workspace.fleet_selection_anchor.is_none());
}

#[test]
fn toggling_a_task_twice_selects_the_same_tasks() {
    let mut workspace = fleet();
    let ids = ids(&workspace);
    workspace.toggle_fleet_selection(ids[1].clone());
    workspace.toggle_fleet_selection(ids[2].clone());
    workspace.toggle_fleet_selection(ids[1].clone());
    workspace.toggle_fleet_selection(ids[1].clone());
    assert_eq!(workspace.fleet_selection, [ids[2].clone(), ids[1].clone()], "a selected one comes last");
    workspace.toggle_fleet_selection(ids[3].clone());
    workspace.toggle_fleet_selection(ids[3].clone());
    assert_eq!(workspace.fleet_selection, [ids[2].clone(), ids[1].clone()]);
}

#[test]
fn task_rows_are_scoped_to_the_selected_repository() {
    let mut workspace = window(vec![
        slot("a", "repo-a", SpaceKind::Integration),
        slot("a1", "repo-a", SpaceKind::Task),
        slot("a2", "repo-a", SpaceKind::Task),
        slot("a3", "repo-a", SpaceKind::Task),
        slot("b", "repo-b", SpaceKind::Integration),
    ]);
    for index in 1..=3 {
        let slot = &mut workspace.projects[index];
        slot.task_space.title = format!("task{index}");
        slot.branch = Some(format!("task/{index}"));
        slot.task_space.result_summary = Some(format!("いま何を {index}"));
    }
    let rows = workspace.fleet_sidebar_rows();
    assert_eq!(rows.integration.as_ref().map(|row| row.label()).as_deref(), Some("main"));
    assert_eq!(rows.integration.map(|row| row.index), Some(0), "it is no task");
    assert_eq!(rows.rows.len(), 3, "the tasks of this repository");
    for (offset, row) in rows.rows.iter().enumerate() {
        let index = offset + 1;
        assert_eq!(row.title, format!("task{index}"));
        assert_eq!(row.digest.as_deref(), Some(format!("いま何を {index}").as_str()));
        assert_eq!(row.rail_shortcut, Some(index + 1), "the order of the rail");
    }
    workspace.projects[3].task_space.phase = TaskPhase::Archived;
    assert_eq!(workspace.fleet_sidebar_rows().rows.len(), 2);

    workspace.active = 4;
    let rows = workspace.fleet_sidebar_rows();
    assert_eq!(rows.integration.map(|row| row.index), Some(4));
    assert!(rows.rows.is_empty());

    workspace.active = 0;
    workspace.fleet_filter_query = "task/2".to_string();
    let shown: Vec<String> = workspace
        .fleet_sidebar_rows()
        .rows
        .iter()
        .filter(|row| task_row_matches(row, &workspace.fleet_filter_query))
        .map(|row| row.title.to_string())
        .collect();
    assert_eq!(shown, ["task2"]);
    let view = workspace.fleet_sidebar();
    assert_eq!(view.rows.len(), 1);
    assert!(view.filtering && view.show_filter && !view.found_none);
    assert_eq!((view.total, view.order), (2, vec!["space-a2".to_string()]));
}

#[test]
fn clicks_on_rows_select_or_show_tasks() {
    let mut workspace = fleet();
    let order = ids(&workspace)[1..].to_vec();
    workspace.task_row_clicked(2, &order, true, false, false);
    assert_eq!(workspace.fleet_selection, ["space-b"]);
    workspace.task_row_clicked(4, &order, false, true, false);
    assert_eq!(workspace.fleet_selection, ["space-b", "space-c", "space-d"]);
    workspace.take_effects();
    workspace.task_row_clicked(1, &order, false, false, false);
    assert!(workspace.fleet_selection.is_empty());
    assert!(workspace.take_effects().iter().any(|e| matches!(e, Effect::SwitchProject(1))));
    workspace.cycle_fleet_sort();
    assert_eq!(workspace.chrome.fleet.sort, FleetSort::Recent);
    workspace.toggle_external_worktrees();
    assert!(workspace.chrome.boards.hide_external_worktrees);
}

#[test]
fn the_most_urgent_thread_leads() {
    let statuses = vec![
        status("x", ThreadActivity::Idle),
        status("y", ThreadActivity::Working),
        status("z", ThreadActivity::Blocked),
        status("w", ThreadActivity::Blocked),
    ];
    let lead = lead_of(&statuses).expect("a thread");
    assert_eq!(statuses[lead].activity, ThreadActivity::Blocked);
    assert_eq!(lead_of(&Vec::new()), None);
    let mut workspace = fleet();
    workspace.sessions[1].all_statuses = statuses;
    let rows = workspace.fleet_sidebar_rows().rows;
    assert_eq!(rows[0].activity, ThreadActivity::Blocked);
    assert_eq!(rows[0].tokens, 400);
    assert_eq!(ThreadActivity::Blocked.urgency_of() > ThreadActivity::Working.urgency_of(), true);
}

#[test]
fn only_the_tokens_of_shown_tasks_are_counted() {
    let mut projects = fleet().projects;
    projects.push(slot("e", "elsewhere", SpaceKind::Task));
    let mut workspace = window(projects);
    let mut many = status("x", ThreadActivity::Idle);
    many.tokens_used = u32::MAX;
    let mut more = status("y", ThreadActivity::Idle);
    more.tokens_used = 1;
    workspace.sessions[5].all_statuses = vec![many, more];
    let mut roomy = status("z", ThreadActivity::Idle);
    roomy.tokens_max = u32::MAX;
    workspace.sessions[1].all_statuses = vec![roomy, status("w", ThreadActivity::Idle)];
    workspace.sessions[1].statuses = vec![status("w", ThreadActivity::Idle)];
    let rows = workspace.fleet_sidebar_rows().rows;
    assert_eq!(rows.len(), 4);
    assert_eq!(rows[0].tokens, 200);
    assert_eq!(workspace.fleet_sidebar().total, 4);
    let lanes = workspace.fleet_lanes();
    assert_eq!(lanes.len(), 5);
    assert_eq!((lanes[0].tokens_used, lanes[0].tokens_max), (100, 1000));
}

#[test]
fn meters_of_plans_round_to_five_segments() {
    assert_eq!(plan_meter(0, 0), "");
    assert_eq!(plan_meter(3, 5), "▰▰▰▱▱ 3/5");
    assert_eq!(plan_meter(0, 7), "▱▱▱▱▱ 0/7");
    assert_eq!(plan_meter(1, 10), "▰▱▱▱▱ 1/10");
    assert_eq!(plan_meter(9, 3), "▰▰▰▰▰ 9/3");
    for total in 1..60u32 {
        for done in 0..=total {
            let filled = ((done as f32 / total as f32) * 5.).round() as usize;
            let expected =
                format!("{}{} {done}/{total}", "▰".repeat(filled), "▱".repeat(5 - filled));
            assert_eq!(plan_meter(done, total), expected);
        }
    }
}

#[test]
fn tasks_are_numbered_past_the_branches_in_use() {
    let used: Vec<String> = ["task/1", "main", "task/2", "task/4"].iter().map(|s| s.to_string()).collect();
    assert_eq!(next_task_number(&used, 1), 3);
    assert_eq!(next_task_number(&used, 4), 5);
    assert_eq!(next_task_number(&Vec::new(), 7), 7);
    assert_eq!(task_branch_name(12), "task/12");
    assert_eq!(task_folder_path("/work", "repo", 12), "/work/repo-task-12");
}

#[test]
fn the_grid_begins_with_the_tasks_and_is_never_overfull() {
    let mut workspace = fleet();
    workspace.toggle_fleet_mode(true);
    assert!(workspace.chrome.surface.fleet_mode);
    assert_eq!(workspace.fleet_cells.len(), 5);
    assert!(matches!(&workspace.fleet_cells[4], FleetPane::Terminal { space } if space == "space-a"));
    assert!(matches!(workspace.take_effects()[0], Effect::StartFleetClock));
    workspace.add_fleet_cell(FleetPane::Task { space: "space-b".to_string() });
    assert_eq!(workspace.fleet_cells.len(), 5);
    assert_eq!(workspace.chrome.fleet.maximized, Some(1), "a pane that is there is shown alone");
    workspace.add_editor_to_selected_task();
    workspace.add_diff_to_selected_task();
    workspace.add_tests_to_selected_task();
    workspace.add_terminal_to_selected_task();
    assert_eq!(workspace.fleet_cells.len(), 8);
    workspace.take_effects();
    let layout = grid_layout(8);
    assert_eq!((layout.columns, layout.free, layout.add_bar), (4, 0, false));
    assert_eq!(workspace.fleet_center(), FleetCenter::Alone(1));
    workspace.close_fleet_cell(0);
    assert_eq!(workspace.chrome.fleet.maximized, Some(0));
    workspace.close_fleet_cell(0);
    assert_eq!(workspace.chrome.fleet.maximized, None);
    workspace.maximize_fleet_cell(1);
    assert_eq!(workspace.fleet_center(), FleetCenter::Alone(1));
    workspace.restore_fleet_layout();
    assert_eq!(workspace.chrome.fleet.maximized, None);
    workspace.toggle_fleet_mode(true);
    assert!(!workspace.chrome.surface.fleet_mode);
    assert!(!workspace.fleet_clock_ticked(), "the clock stops by itself");
}

#[test]
fn grids_stand_in_as_many_columns_as_they_need() {
    let columns: Vec<usize> = (0..=8).map(|n| grid_layout(n).columns).collect();
    assert_eq!(columns, [1, 1, 2, 2, 2, 3, 3, 4, 4]);
    assert!(grid_layout(0).add_as_cell && !grid_layout(0).add_bar);
    assert_eq!(free_label(3), "3/8");
    assert_eq!((news_listed(5), news_listed(99)), (5, 30));
}

#[test]
fn cells_offer_what_their_task_needs() {
    let mut workspace = fleet();
    workspace.toggle_fleet_mode(true);
    workspace.sessions[1].statuses.push(status("x", ThreadActivity::Working));
    workspace.projects[1].task_space.phase = TaskPhase::MergeReady;
    workspace.projects[1].branch = Some("task/1".to_string());
    let cell = workspace.fleet_cell(0);
    assert_eq!(cell.title, "a · Agent");
    assert_eq!(cell.branch.as_deref(), Some("task/1"));
    assert_eq!(cell.action, CellAction::Integrate);
    let snapshot = cell.snapshot.expect("it says what it does");
    assert_eq!((snapshot.plan_done, snapshot.plan_total), (3, 5));
    assert_eq!(workspace.fleet_cell(4).action, CellAction::Nothing);
    workspace.fleet_cells.push(FleetPane::Task { space: "gone".to_string() });
    assert_eq!(workspace.fleet_cell(5).phase, None);
    assert!(workspace.fleet_thumbnail(0, 0).active);
    workspace.take_effects();
    workspace.fleet_cell_action(0, CellAction::Integrate);
    let effects = workspace.take_effects();
    assert!(matches!(
        effects[0],
        Effect::TransitionTask { index: 1, phase: TaskPhase::Integrating, .. }
    ));
    assert!(matches!(
        &effects[1],
        Effect::IntegrateBranch { task: 1, integration: 0, root, branch, .. }
            if root == "/work/main" && branch == "task/1"
    ));
}

#[test]
fn tasks_are_tried_out_before_they_are_merged() {
    let mut workspace = fleet();
    workspace.projects[1].branch = Some("task/1".to_string());
    let space = "space-a".to_string();
    workspace.integrate_task(&space);
    assert!(workspace.take_effects().is_empty(), "it was not tried out yet");
    workspace.review_task_for_merge(&space);
    assert!(matches!(
        &workspace.take_effects()[0],
        Effect::PreviewMerge { task: 1, branch, .. } if branch == "task/1"
    ));
    workspace.merge_previewed(1, Ok(MergePreview { clean: true, detail: String::new() }));
    let effects = workspace.take_effects();
    assert!(effects.iter().any(|e| matches!(
        e,
        Effect::TransitionTask {
            index: 1,
            phase: TaskPhase::MergeReady,
            reason: TaskEvent::MergePreviewClean,
            ..
        }
    )));
    workspace.merge_previewed(1, Ok(MergePreview { clean: false, detail: "a.txt".to_string() }));
    let effects = workspace.take_effects();
    assert!(effects.iter().any(|e| matches!(
        e,
        Effect::TransitionTask {
            phase: TaskPhase::ChangesRequested,
            reason: TaskEvent::MergePreviewConflict,
            detail: TaskDetail::Text(text),
            ..
        } if text == "a.txt"
    )));
    workspace.merge_previewed(1, Err("no git".to_string()));
    assert!(workspace
        .take_effects()
        .iter()
        .any(|e| matches!(e, Effect::MergePreviewFailed(error) if error == "no git")));
    workspace.task_integrated(1, 0, Ok("abc".to_string()));
    assert_eq!(workspace.projects[0].task_space.head_oid.as_deref(), Some("abc"));
    workspace.take_effects();
    workspace.task_integrated(1, 0, Err("conflict".to_string()));
    assert!(workspace
        .take_effects()
        .iter()
        .any(|e| matches!(e, Effect::IntegrationFailed(error) if error == "conflict")));
    workspace.projects[0].task_space.repository_id = "other".to_string();
    workspace.review_task_for_merge(&space);
    assert!(matches!(
        workspace.take_effects()[0],
        Effect::Toast(Notice::NoIntegrationSpace)
    ));
}

#[test]
fn tasks_are_merged_into_the_main_worktree() {
    let mut workspace = fleet();
    workspace.projects[0].task_space.linked = true;
    workspace.projects[1].branch = Some("task/1".to_string());
    let mut main = slot("main", "repo", SpaceKind::Integration);
    main.root = "/work/main".to_string();
    workspace.projects.push(main);
    workspace.sessions.push(session(9));
    let space = "space-a".to_string();
    workspace.review_task_for_merge(&space);
    assert!(matches!(
        &workspace.take_effects()[0],
        Effect::PreviewMerge { root, .. } if root == "/work/main"
    ));
    workspace.projects[1].task_space.phase = TaskPhase::MergeReady;
    workspace.integrate_task(&space);
    assert!(matches!(
        &workspace.take_effects()[1],
        Effect::IntegrateBranch { integration: 5, root, .. } if root == "/work/main"
    ));
}

#[test]
fn lanes_are_drawn_for_tasks() {
    let mut workspace = fleet();
    workspace.sessions[1].statuses.push(status("x", ThreadActivity::Working));
    workspace.projects[1].task_space.base_oid = Some("1".to_string());
    workspace.projects[1].task_space.head_oid = Some("2".to_string());
    workspace.projects[2].task_space.phase = TaskPhase::Integrated;
    let lanes = workspace.fleet_lanes();
    assert_eq!(lanes.len(), 4, "the main folder is no lane");
    assert_eq!(lanes[0].activity, ThreadActivity::Working);
    assert!(lanes[0].has_commits && lane_look(&lanes[0], GraphView::Fan).bead);
    assert!(!lane_look(&lanes[0], GraphView::Hub).bead);
    assert!(lanes[1].integrated && lane_look(&lanes[1], GraphView::Fan).merges);
    assert!(!lane_look(&lanes[1], GraphView::Tree).merges, "a tree shows no merges");
    assert!(lane_look(&lanes[2], GraphView::Fan).dashed);
    assert!(shows_head(&lanes));
    assert!(!shows_head(&Vec::new()));
    assert_eq!(lane_label(&Some("task/1".to_string()), "working"), "⎇ task/1  ·  working");
    assert!(hub_label_right(0, 4));
    assert_eq!((lane_agent(&lanes[0]).as_str(), lane_agent(&lanes[1]).as_str()), ("Codex", "Agent"));
    assert_eq!((graph_count(&lanes), graph_count(&Vec::new())), (4, 1));
}

#[test]
fn the_stage_holds_the_pinned_tasks_and_the_shown_one() {
    let mut workspace = fleet();
    workspace.toggle_fleet_mode(false);
    workspace.active = 4;
    for space in ["space-a", "space-b", "space-c"] {
        workspace.toggle_stage_pin(space.to_string());
    }
    assert_eq!(workspace.chrome.fleet.stage_columns, 3);
    workspace.toggle_stage_pin("space-d".to_string());
    assert_eq!(workspace.stage_pinned, ["space-b", "space-c", "space-d"], "the oldest gives way");
    workspace.toggle_stage_pin("space-d".to_string());
    let spaces = |width: u64| -> Vec<String> {
        workspace.stage_cards(width).into_iter().map(|card| card.space).collect()
    };
    assert_eq!(spaces(1_300_000), ["space-b", "space-c", "space-d"]);
    assert_eq!(spaces(900_000), ["space-b", "space-c"]);
    assert_eq!(spaces(10), ["space-b"]);
    workspace.set_stage_columns(1);
    assert_eq!(
        workspace.stage_cards(2_000_000).into_iter().map(|card| card.space).collect::<Vec<_>>(),
        ["space-d"]
    );
}

#[test]
fn headers_say_what_comes_next() {
    let mut workspace = fleet();
    workspace.active = 1;
    let space = "space-a".to_string();
    for (phase, word, step) in [
        (TaskPhase::Working, PhaseWord::Working, NextStep::Review),
        (TaskPhase::Blocked, PhaseWord::Blocked, NextStep::Allow),
        (TaskPhase::Failed, PhaseWord::Failed, NextStep::Fix),
        (TaskPhase::MergeReady, PhaseWord::Review, NextStep::Integrate),
        (TaskPhase::Integrated, PhaseWord::Integrated, NextStep::CleanUp),
    ] {
        workspace.projects[1].task_space.phase = phase;
        let header = workspace.task_header(&space).expect("a header");
        assert_eq!((header.word, header.step), (word, step));
        assert!(header.offers_step && !header.renaming);
    }
    let card = |thread: usize, answers: &[bool]| PermissionCard {
        panel: 7,
        thread,
        options: answers
            .iter()
            .enumerate()
            .map(|(id, allows)| PermissionOption { id, allows: *allows })
            .collect(),
    };
    workspace.task_step_chosen(1, 5, &Vec::new());
    assert!(matches!(workspace.take_effects()[0], Effect::OpenCellMenu(5)));
    workspace.projects[1].task_space.phase = TaskPhase::Blocked;
    workspace.task_step_chosen(1, 5, &vec![card(0, &[false]), card(1, &[false, true, true])]);
    let effects = workspace.take_effects();
    assert!(matches!(
        effects[0],
        Effect::RespondPermission { panel: 7, thread: 1, option: 1 }
    ));
    assert!(matches!(
        effects[1],
        Effect::TransitionTask {
            index: 1,
            phase: TaskPhase::Working,
            reason: TaskEvent::PermissionResolved,
            ..
        }
    ));
    workspace.task_step_chosen(1, 5, &vec![card(0, &[false])]);
    assert!(workspace.take_effects().is_empty());
    workspace.projects[1].task_space.phase = TaskPhase::Integrated;
    assert!(workspace.task_header(&"gone".to_string()).is_none());
    let marks: Vec<LineageMark> = workspace.lineage_strip().iter().map(|item| item.mark).collect();
    assert_eq!(
        marks,
        [
            LineageMark::Trunk,
            LineageMark::Merged,
            LineageMark::Branch,
            LineageMark::Branch,
            LineageMark::Branch
        ]
    );
}

#[test]
fn tabs_of_a_task_are_its_threads_changes_terminals_and_files() {
    let mut workspace = fleet();
    workspace.toggle_fleet_mode(true);
    let thread = |panel: u64, thread: usize| TaskTab::Thread { panel, thread };
    for (panel, thread) in [(1, 0), (1, 1), (9, 0)] {
        let status = AgentStatus { panel, thread, ..status("x", ThreadActivity::Working) };
        workspace.sessions[1].all_statuses.push(status);
    }
    assert_eq!(
        workspace.task_tabs(1),
        [
            thread(1, 0),
            thread(1, 1),
            thread(9, 0),
            TaskTab::Diff,
            TaskTab::Terminal(4),
            TaskTab::Files,
        ]
    );
    assert_eq!(workspace.task_tabs(2), [TaskTab::Diff, TaskTab::Files]);
    let space = "space-a".to_string();
    assert!(!workspace.task_tab_selected(&space, TaskTab::Diff, 0));
    workspace.take_effects();
    workspace.task_tab_clicked(1, TaskTab::Diff);
    let effects = workspace.take_effects();
    assert!(matches!(effects[0], Effect::SwitchProject(1)));
    assert!(matches!(effects[1], Effect::RefreshGitStatusOf(1)));
    assert!(workspace.task_tab_selected(&space, TaskTab::Diff, 0));
    workspace.task_tab_clicked(1, thread(9, 0));
    assert_eq!(workspace.sessions[1].panel, 9, "its panel comes to the front");
    assert!(matches!(workspace.take_effects()[1], Effect::FocusThreadOf { panel: 9, thread: 0 }));
    assert!(!workspace.task_tab_selected(&space, TaskTab::Diff, 0));
    assert!(workspace.task_tab_selected(&space, thread(9, 0), 0));
    assert!(!workspace.task_tab_selected(&space, thread(9, 1), 0));
    assert!(!workspace.task_tab_selected(&space, thread(1, 0), 0));
    workspace.task_tab_clicked(1, TaskTab::Terminal(4));
    assert!(workspace.task_tab_selected(&space, TaskTab::Terminal(4), 0));
    assert!(!workspace.task_tab_selected(&space, TaskTab::Terminal(5), 0), "another terminal");
    assert_eq!(workspace.stage_tabs.len(), 1);
}

#[test]
fn the_captain_is_told_of() {
    let item = |kind: NewsKind, text: &str| NewsItem {
        kind,
        title: String::new(),
        text: text.to_string(),
        at_ms: 0,
        color: 0,
    };
    let news = vec![item(NewsKind::Task, "t"), item(NewsKind::Captain, "new"), item(NewsKind::Captain, "old")];
    let bar = captain_bar(&Some("Codex".to_string()), &news);
    assert_eq!((bar.agent.as_deref(), bar.last.as_deref()), (Some("Codex"), Some("new")));
    assert!(captain_bar(&None, &news).last.is_none());
    assert!(round_mark(NewsKind::Coordinator) && !round_mark(NewsKind::Captain));
    let detached = ExternalRow { path: "/".to_string(), branch: None, rail_index: None };
    assert_eq!(external_name(&detached), "/");
    assert_eq!(external_detail(&detached), "(detached)");
}

#[test]
fn the_herd_groups_the_threads_of_every_project() {
    let mut workspace = fleet();
    workspace.sessions[0].statuses.push(status("m", ThreadActivity::Idle));
    workspace.sessions[2].statuses.push(status("x", ThreadActivity::Working));
    let groups = workspace.herd_groups();
    let shown: Vec<(usize, usize)> = groups.iter().map(|g| (g.project_index, g.count)).collect();
    assert_eq!(shown, [(0, 1), (2, 1)]);
    let threads = workspace.herd_threads(&groups[1]);
    assert_eq!(threads[0].name, "x");
    assert!(matches!(&threads[0].line, ThreadLine::Digest(text) if text == "x now"));
    assert!(matches!(thread_line(&None, Some(5), 1), ThreadLine::LastInput(5)));
    assert!(matches!(thread_line(&None, None, 1), ThreadLine::Started(1)));
    workspace.git.open = true;
    workspace.toggle_herd_sidebar();
    assert!(workspace.chrome.docks.herd && !workspace.git.open);
    assert!(workspace.fleet_clock_ticked());
    workspace.ensure_fleet_clock();
    assert_eq!(
        workspace.take_effects().iter().filter(|e| matches!(e, Effect::StartFleetClock)).count(),
        1,
        "one clock is enough"
    );
    workspace.herd_row_clicked(2, 0);
    assert!(!workspace.take_effects().is_empty());
    workspace.start_task_rename(2, RenameSite::Herd);
    workspace.confirm_task_rename("  login  ");
    assert_eq!(workspace.projects[2].task_space.title, "login");
    assert_eq!(workspace.projects[2].name, "login");
    workspace.start_task_rename(2, RenameSite::Cell);
    workspace.confirm_task_rename("   ");
    assert_eq!(workspace.projects[2].task_space.title, "login", "an empty name changes nothing");
}

#[test]
fn tasks_are_made_in_worktrees_of_their_own() {
    let mut workspace = fleet();
    workspace.projects[1].worktree_branch = Some("task/1".to_string());
    workspace.add_worktree_agent();
    assert!(matches!(
        workspace.take_effects().last(),
        Some(Effect::CreateTaskWorktree { parent, repo_name, .. })
            if parent == "/work" && repo_name == "main"
    ));
    let mut alone = window(vec![slot("main", "repo", SpaceKind::Integration)]);
    alone.add_terminal_to_selected_task();
    assert!(alone.take_effects().is_empty());
    alone.add_fleet_agent();
    assert!(matches!(alone.take_effects()[0], Effect::Toast(Notice::NoTaskToExtend)));
    assert_eq!(alone.selected_task_space(), None);
}

#[test]
fn cells_are_shown_alone_and_together() {
    let mut workspace = fleet();
    workspace.toggle_fleet_mode(true);
    workspace.take_effects();
    workspace.fleet_cell_clicked(1);
    assert!(workspace.chrome.surface.agent_active);
    assert!(matches!(workspace.take_effects()[0], Effect::SwitchProject(2)));
    workspace.fleet_cell_clicked(4);
    assert!(!workspace.chrome.surface.agent_active, "a terminal is no agent");
    workspace.take_effects();
    workspace.fleet_cell_clicked(99);
    assert!(workspace.take_effects().is_empty());
    workspace.toggle_fleet_cell(2, false);
    assert_eq!(workspace.chrome.fleet.maximized, Some(2));
    workspace.toggle_fleet_cell(2, true);
    assert_eq!(workspace.chrome.fleet.maximized, None);
}

#[test]
fn agents_are_focused_revealed_and_closed() {
    let mut workspace = fleet();
    workspace.focus_fleet_agent(1, 3);
    let effects = workspace.take_effects();
    assert!(matches!(effects[0], Effect::SwitchProject(1)));
    assert!(matches!(effects[1], Effect::FocusThread { session: 1, thread: 3 }));
    workspace.close_agent(1, 3);
    workspace.close_agent(99, 0);
    assert_eq!(workspace.take_effects().len(), 1);
    workspace.reveal_agent_in_fleet(2, 0);
    assert_eq!(workspace.fleet_cells.len(), 1);
    assert_eq!(workspace.chrome.fleet.maximized, Some(0));
    workspace.expand_task(3);
    assert_eq!(workspace.chrome.fleet.stage_columns, 1);
    workspace.take_effects();
    workspace.focus_captain(false);
    workspace.focus_captain(true);
    let effects = workspace.take_effects();
    assert!(matches!(effects[0], Effect::OpenAgentSettings));
    assert!(matches!(effects[1], Effect::EnsureCaptain { session: 0 }));
    workspace.captain_ready(0, 2);
    assert_eq!(workspace.captain_space.as_deref(), Some("space-main"));
    assert!(workspace.chrome.surface.fleet_mode);
    workspace.integration_row_clicked(0);
    assert_eq!(workspace.captain_space, None);
}

#[test]
fn opened_tasks_get_a_cell() {
    let mut workspace = fleet();
    workspace.task_space_opened(&"/work/c".to_string());
    assert!(matches!(&workspace.fleet_cells[0], FleetPane::Task { space } if space == "space-c"));
    let effects = workspace.take_effects();
    assert!(matches!(effects[0], Effect::PersistTaskSpace(3)));
    assert!(matches!(
        effects[1],
        Effect::TransitionTask { index: 3, reason: TaskEvent::TaskCreated, .. }
    ));
    workspace.task_space_opened(&"/elsewhere".to_string());
    assert!(workspace.take_effects().is_empty());
    workspace.add_fleet_agent_default();
    assert!(matches!(workspace.take_effects()[0], Effect::CreateTaskWorktree { .. }));
}

#[test]
fn rows_look_as_their_task_does() {
    let mut workspace = fleet();
    let mut row = task_row("a", "task/1", None, None);
    row.project_index = 1;
    let space = "space-a".to_string();
    let selected = vec!["space-a".to_string()];
    let look = workspace.task_row_look(&row, &space, &selected);
    assert!(look.selected && look.untouched && !look.renaming && !look.vanished);
    row.tokens = 5;
    workspace.start_task_rename(1, RenameSite::Herd);
    workspace.fleet_worktrees_read("repo".to_string(), vec![entry("/work/main", None)]);
    let look = workspace.task_row_look(&row, &space, &Vec::new());
    assert!(!look.selected && !look.untouched && look.renaming && look.vanished);
    workspace.take_effects();
    workspace.ensure_fleet_worktrees();
    assert!(workspace.take_effects().is_empty(), "they were read");
    workspace.forget_fleet_worktrees();
    workspace.ensure_fleet_worktrees();
    assert_eq!(workspace.take_effects().len(), 1);
}

#[test]
fn the_graph_and_the_files_are_switched() {
    let mut workspace = fleet();
    workspace.set_graph_view(GraphView::Tree);
    assert_eq!(workspace.chrome.graph.view, GraphView::Tree);
    workspace.toggle_graph_collapse();
    assert!(workspace.chrome.graph.collapsed);
    workspace.set_graph_view(GraphView::Hub);
    assert!(!workspace.chrome.graph.collapsed, "choosing a view unfolds the graph");
    workspace.toggle_fleet_mode(false);
    workspace.take_effects();
    workspace.stage_file_clicked(1, "/work/a/src".to_string(), true);
    assert!(workspace.chrome.surface.fleet_mode);
    workspace.stage_file_clicked(1, "/work/a/x.rs".to_string(), false);
    assert!(!workspace.chrome.surface.fleet_mode);
    let effects = workspace.take_effects();
    assert!(matches!(&effects[1], Effect::ToggleDir(path) if path == "/work/a/src"));
    assert!(matches!(&effects[3], Effect::OpenFile(path) if path == "/work/a/x.rs"));
    workspace.toggle_herd_solo();
    assert!(workspace.chrome.boards.herd_solo_expanded);
}
