use workspace::auto_save::{auto_save_applies, AutoSave, AutoSaveTrigger};
use workspace::diff::{BlameLine, DiffHunk};
use workspace::editor_manners::{ExternalApp, Platform};
use workspace::file_drop::{destination_name, place_image, DropTarget, ImagePlace, PlacedImage};
use workspace::hot_exit::hot_exit_scope_of;
use workspace::inline_edit::{line_range, line_tone, EditorFacts, LineTone, TextSpan};
use workspace::overlays::{completion_rows, hover_line, HostLaunch, TerminalPlace};
use workspace::tabs::DockLimits;
use workspace::workspace::{
    Dock, Effect, EditorTab, FocusTarget, HotExitRow, Keystroke, NavPosition, Notice, ProjectSession,
    ProjectSlot, SpaceKind, TaskPhase, TaskSpace, Workspace,
};

fn slot(name: &str) -> ProjectSlot {
    ProjectSlot {
        name: name.to_string(),
        root: "/p".to_string(),
        canonical_root: "/p".to_string(),
        remote_host: None,
        host_id: "local".to_string(),
        branch: None,
        worktree_branch: None,
        color: 0,
        task_space: TaskSpace {
            id: format!("space-{name}"),
            kind: SpaceKind::Integration,
            repository_id: "repo".to_string(),
            title: name.to_string(),
            phase: TaskPhase::Planned,
            linked: false,
            base_oid: None,
            head_oid: None,
            result_summary: None,
        },
    }
}

fn tab(id: u64, name: &str) -> EditorTab {
    EditorTab {
        id,
        path: format!("/p/{name}"),
        has_editor: true,
        renders_html: false,
        transient: false,
        pinned: false,
        preview: false,
        dirty: false,
        read_only: false,
        has_file: true,
        externally_changed: false,
        version: 1,
        caret: 0,
    }
}

fn with_tabs(names: &[&str]) -> Workspace {
    let session = ProjectSession {
        panel: 1,
        git_panel: 1,
        tabs: Vec::new(),
        statuses: Vec::new(),
        all_statuses: Vec::new(),
    };
    let mut workspace = Workspace::new(vec![slot("p")], vec![session], true);
    for (i, name) in names.iter().enumerate() {
        workspace.tabs.push(tab(i as u64 + 1, name));
    }
    workspace
}

fn names(workspace: &Workspace) -> Vec<String> {
    workspace
        .tabs
        .iter()
        .map(|tab| {
            let name = tab.path.trim_start_matches("/p/").to_string();
            if tab.pinned {
                format!("📌{name}")
            } else if tab.preview {
                format!("~{name}")
            } else {
                name
            }
        })
        .collect()
}

fn index_of(workspace: &Workspace, name: &str) -> usize {
    workspace.tabs.iter().position(|tab| tab.path.ends_with(name)).expect("the tab")
}

fn key(name: &str) -> Keystroke {
    Keystroke {
        key: name.to_string(),
        key_char: None,
        shift: false,
        alt: false,
        control: false,
        platform: false,
        function: false,
    }
}

fn typed(text: &str) -> Keystroke {
    Keystroke { key_char: Some(text.to_string()), ..key("x") }
}

fn saved(workspace: &mut Workspace) -> Vec<u64> {
    workspace
        .take_effects()
        .into_iter()
        .filter_map(|effect| match effect {
            Effect::SaveTab(id) => Some(id),
            _ => None,
        })
        .collect()
}

fn saved_now(workspace: &Workspace) -> Vec<u64> {
    workspace
        .effects
        .iter()
        .filter_map(|effect| match effect {
            Effect::SaveTab(id) => Some(*id),
            _ => None,
        })
        .collect()
}

#[test]
fn each_mode_saves_on_its_own_triggers() {
    assert!(!auto_save_applies(AutoSave::Off, AutoSaveTrigger::FocusChange));
    assert!(!auto_save_applies(AutoSave::Off, AutoSaveTrigger::Pause));
    assert!(auto_save_applies(AutoSave::OnFocusChange, AutoSaveTrigger::FocusChange));
    assert!(!auto_save_applies(AutoSave::OnFocusChange, AutoSaveTrigger::Pause));
    assert!(auto_save_applies(AutoSave::AfterDelay, AutoSaveTrigger::FocusChange));
    assert!(auto_save_applies(AutoSave::AfterDelay, AutoSaveTrigger::Pause));
}

#[test]
fn a_pause_in_typing_saves_the_file() {
    let mut workspace = with_tabs(&["a.txt"]);
    workspace.tabs[0].dirty = true;
    workspace.schedule_auto_save(AutoSave::AfterDelay);
    assert!(saved_now(&workspace).is_empty(), "nothing is written right after typing");
    workspace.schedule_auto_save(AutoSave::AfterDelay);
    let waits: Vec<u64> = workspace
        .take_effects()
        .into_iter()
        .filter_map(|effect| match effect {
            Effect::WaitToAutoSave(generation) => Some(generation),
            _ => None,
        })
        .collect();
    assert_eq!(waits, [1, 2]);
    workspace.auto_save_due(1, AutoSave::AfterDelay, &None);
    assert!(saved(&mut workspace).is_empty(), "there was an edit since");
    workspace.auto_save_due(2, AutoSave::AfterDelay, &None);
    assert_eq!(saved(&mut workspace), [1]);
}

#[test]
fn leaving_a_tab_or_the_window_saves_what_was_left() {
    let mut workspace = with_tabs(&["a.txt", "b.txt", "c.txt"]);
    let mode = AutoSave::OnFocusChange;
    workspace.tabs[2].dirty = true;
    workspace.schedule_auto_save(mode);
    assert!(workspace.take_effects().is_empty(), "a pause saves nothing in this mode");
    workspace.auto_save_blurred(3, mode, &None);
    assert_eq!(saved(&mut workspace), [3], "the tab that was left is saved");
    workspace.tabs[2].dirty = false;
    workspace.tabs[1].dirty = true;
    workspace.tabs[0].dirty = true;
    workspace.auto_save_window_left(mode, &None);
    assert_eq!(saved(&mut workspace), [1, 2], "also the tab that was not in front");
}

#[test]
fn leaving_the_window_saves_every_session() {
    let mut workspace = with_tabs(&["a.txt"]);
    workspace.tabs[0].dirty = true;
    let mut other = tab(9, "other.txt");
    other.dirty = true;
    workspace.sessions.push(ProjectSession {
        panel: 2,
        git_panel: 2,
        tabs: vec![other],
        statuses: Vec::new(),
        all_statuses: Vec::new(),
    });
    let mut chat = tab(11, "chat.txt");
    chat.dirty = true;
    workspace.chat_tabs.push(chat);
    assert_eq!(workspace.all_editor_tabs().len(), 3);
    workspace.auto_save_window_left(AutoSave::OnFocusChange, &None);
    let mut all = saved(&mut workspace);
    all.sort();
    assert_eq!(all, [1, 9, 11]);
    workspace.auto_save_on_blur(1);
    assert!(matches!(workspace.take_effects()[0], Effect::WatchBlur(1)));
}

#[test]
fn files_changed_outside_are_not_overwritten() {
    let mut workspace = with_tabs(&["a.txt"]);
    workspace.tabs[0].dirty = true;
    workspace.schedule_auto_save(AutoSave::AfterDelay);
    workspace.tabs[0].externally_changed = true;
    workspace.auto_save_due(1, AutoSave::AfterDelay, &None);
    workspace.auto_save_window_left(AutoSave::AfterDelay, &None);
    workspace.auto_save_blurred(1, AutoSave::AfterDelay, &None);
    assert!(saved(&mut workspace).is_empty());
}

#[test]
fn off_never_writes() {
    let mut workspace = with_tabs(&["a.txt", "b.txt"]);
    workspace.tabs[1].dirty = true;
    workspace.schedule_auto_save(AutoSave::Off);
    workspace.auto_save_due(1, AutoSave::Off, &None);
    workspace.auto_save_blurred(2, AutoSave::Off, &None);
    workspace.auto_save_window_left(AutoSave::Off, &None);
    assert!(saved(&mut workspace).is_empty());
    assert!(workspace.tabs[1].dirty);
}

#[test]
fn pinned_tabs_stay_left_and_survive_bulk_closes() {
    let mut workspace = with_tabs(&["a.txt", "b.txt", "c.txt", "d.txt"]);
    let c = index_of(&workspace, "c.txt");
    workspace.toggle_tab_pin(c);
    let a = index_of(&workspace, "a.txt");
    workspace.toggle_tab_pin(a);
    assert_eq!(names(&workspace), ["📌c.txt", "📌a.txt", "b.txt", "d.txt"]);
    assert_eq!(workspace.pinned_files, ["/p/c.txt", "/p/a.txt"]);
    assert_eq!(workspace.pinned_tab_count(), 2);

    let d = index_of(&workspace, "d.txt");
    let to = workspace.clamp_tab_move(d, 0);
    workspace.move_tab(d, to);
    assert_eq!(names(&workspace), ["📌c.txt", "📌a.txt", "d.txt", "b.txt"]);
    let to = workspace.clamp_tab_move(0, 3);
    workspace.move_tab(0, to);
    assert_eq!(names(&workspace), ["📌a.txt", "📌c.txt", "d.txt", "b.txt"]);

    let d = index_of(&workspace, "d.txt");
    workspace.close_other_tabs(d);
    assert_eq!(names(&workspace), ["📌a.txt", "📌c.txt", "d.txt"]);
    workspace.close_tabs_to_right(0);
    assert_eq!(names(&workspace), ["📌a.txt", "📌c.txt"]);
    workspace.close_saved_tabs();
    assert_eq!(names(&workspace), ["📌a.txt", "📌c.txt"]);

    workspace.select_tab(0);
    workspace.take_effects();
    workspace.close_active_editor();
    assert_eq!(names(&workspace), ["📌a.txt", "📌c.txt"]);
    assert!(matches!(
        workspace.take_effects().last(),
        Some(Effect::Toast(Notice::PinnedTabStays))
    ));
    workspace.toggle_tab_pin(0);
    assert_eq!(names(&workspace), ["📌c.txt", "a.txt"]);
    let a = index_of(&workspace, "a.txt");
    workspace.select_tab(a);
    workspace.close_active_editor();
    assert_eq!(names(&workspace), ["📌c.txt"]);
}

#[test]
fn pins_come_back_with_the_restored_tabs() {
    let mut workspace = with_tabs(&["a.txt", "b.txt"]);
    let b = index_of(&workspace, "b.txt");
    workspace.toggle_tab_pin(b);
    assert_eq!(workspace.pinned_files, ["/p/b.txt"]);
    let pinned = workspace.pinned_files.clone();
    // The window opens the tabs anew, without their pins.
    workspace.tabs = vec![tab(1, "a.txt"), tab(2, "b.txt")];
    workspace.active_tab = 0;
    workspace.restore_tab_pins(&pinned);
    assert_eq!(names(&workspace), ["📌b.txt", "a.txt"]);
    assert!(workspace.tabs[workspace.active_tab].path.ends_with("a.txt"));
    assert_eq!(workspace.pinned_files, ["/p/b.txt"]);
    let before = names(&workspace);
    workspace.restore_tab_pins(&Vec::new());
    assert_eq!(names(&workspace), before);
}

#[test]
fn transient_tabs_are_never_pinned() {
    let mut workspace = with_tabs(&["a.txt"]);
    workspace.tabs[0].transient = true;
    workspace.toggle_pin_active_tab();
    assert!(!workspace.tabs[0].pinned);
    workspace.restore_tab_pins(&vec!["/p/a.txt".to_string()]);
    assert!(!workspace.tabs[0].pinned);
}

/// Opens a file the way the window would: in the tab that it has, or in a new one.
fn open(workspace: &mut Workspace, name: &str, preview: bool, next: &mut u64) {
    let path = format!("/p/{name}");
    if workspace.show_open_file(&path, preview) {
        return;
    }
    *next += 1;
    workspace.tabs.push(tab(*next, name));
    let at = workspace.tabs.len() - 1;
    workspace.select_tab(at);
    if preview {
        workspace.settle_preview_tab(&path);
    }
}

#[test]
fn single_clicks_reuse_one_preview_tab() {
    let mut workspace = with_tabs(&[]);
    let mut next = 0;
    open(&mut workspace, "a.txt", false, &mut next);
    open(&mut workspace, "b.txt", true, &mut next);
    assert_eq!(names(&workspace), ["a.txt", "~b.txt"]);
    open(&mut workspace, "c.txt", true, &mut next);
    assert_eq!(names(&workspace), ["a.txt", "~c.txt"]);

    workspace.tabs[1].dirty = true;
    let editor = workspace.tabs[1].id;
    workspace.keep_edited_preview(editor);
    open(&mut workspace, "d.txt", true, &mut next);
    assert_eq!(names(&workspace), ["a.txt", "c.txt", "~d.txt"]);

    open(&mut workspace, "d.txt", false, &mut next);
    assert_eq!(names(&workspace), ["a.txt", "c.txt", "d.txt"]);

    open(&mut workspace, "b.txt", true, &mut next);
    open(&mut workspace, "b.txt", true, &mut next);
    assert_eq!(names(&workspace), ["a.txt", "c.txt", "d.txt", "~b.txt"]);

    let b = index_of(&workspace, "b.txt");
    workspace.toggle_tab_pin(b);
    assert!(!workspace.tabs[0].preview, "a pinned tab is no preview");
    assert_eq!(names(&workspace), ["📌b.txt", "a.txt", "c.txt", "d.txt"]);
}

#[test]
fn a_double_click_while_loading_opens_a_normal_tab() {
    let mut workspace = with_tabs(&[]);
    let path = "/p/a.txt".to_string();
    workspace.open_file_preview(path.clone(), None);
    workspace.tree_row_clicked(path.clone(), false, true, None);
    // Both requests are served once the file is loaded, in order.
    let mut next = 0;
    for effect in workspace.take_effects() {
        match effect {
            Effect::OpenFileAs { preview, .. } => open(&mut workspace, "a.txt", preview, &mut next),
            Effect::OpenFile(_) => open(&mut workspace, "a.txt", false, &mut next),
            _ => {}
        }
    }
    assert_eq!(names(&workspace), ["a.txt"]);
}

#[test]
fn turning_preview_tabs_off_opens_normal_tabs() {
    let mut workspace = with_tabs(&[]);
    workspace.open_file_preview("/p/a.txt".to_string(), Some(false));
    workspace.open_file_preview("/p/b.txt".to_string(), None);
    workspace.tree_row_clicked("/p/c.txt".to_string(), false, true, None);
    workspace.tree_row_clicked("/p/d".to_string(), true, false, None);
    let effects = workspace.take_effects();
    assert!(matches!(&effects[0], Effect::OpenFileAs { path, preview: false } if path == "/p/a.txt"));
    assert!(matches!(&effects[1], Effect::OpenFileAs { preview: true, .. }));
    assert!(matches!(&effects[2], Effect::OpenFile(_)));
    assert!(matches!(&effects[3], Effect::ToggleDir(_)));
}

#[test]
fn an_unsaved_preview_is_not_replaced() {
    let mut workspace = with_tabs(&["a.txt", "b.txt"]);
    workspace.tabs[0].preview = true;
    workspace.tabs[0].dirty = true;
    workspace.settle_preview_tab(&"/p/b.txt".to_string());
    assert_eq!(names(&workspace), ["a.txt", "~b.txt"]);
}

#[test]
fn closing_all_tabs_keeps_unsaved_ones() {
    let mut workspace = with_tabs(&["a.txt", "b.txt", "c.txt"]);
    workspace.tabs[1].dirty = true;
    workspace.close_saved_tabs();
    assert_eq!(names(&workspace), ["b.txt"], "only the unsaved tab is left");
    assert!(matches!(
        workspace.take_effects().last(),
        Some(Effect::Toast(Notice::UnsavedTabsStay(1)))
    ));
    assert_eq!(workspace.recently_closed, ["/p/c.txt", "/p/a.txt"]);
    workspace.restore_closed_tab();
    assert!(matches!(workspace.take_effects().last(), Some(Effect::OpenFile(path)) if path == "/p/a.txt"));
}

#[test]
fn the_command_for_all_tabs_closes_them() {
    let mut workspace = with_tabs(&["a.txt", "b.txt"]);
    workspace.tabs[0].pinned = true;
    workspace.close_all_tabs();
    assert_eq!(names(&workspace), ["📌a.txt"]);
    assert_eq!(workspace.active_tab, 0);
}

#[test]
fn closing_the_last_tab_closes_the_split() {
    let mut workspace = with_tabs(&["a.txt"]);
    workspace.toggle_split();
    assert!(matches!(workspace.take_effects().last(), Some(Effect::OpenSplit(_))));
    workspace.split_opened(77);
    assert_eq!(workspace.split, Some(77));
    workspace.close_tab_at(0);
    assert_eq!(workspace.split, None);
    assert_eq!(workspace.explorer_selected, None);
    let effects = workspace.take_effects();
    assert!(effects.iter().any(|e| matches!(e, Effect::LspDidClose(path) if path == "/p/a.txt")));
    assert!(effects.iter().any(|e| matches!(
        e,
        Effect::RemoveHotExit { host: Some(host), .. } if host == "local"
    )));
    workspace.close_tab_at(5);
    workspace.close_split();
    assert!(workspace.take_effects().is_empty());
}

#[test]
fn tabs_go_round_and_follow_the_surface_that_was_touched() {
    let mut workspace = with_tabs(&["a.txt", "b.txt", "c.txt"]);
    workspace.select_prev_tab();
    assert_eq!(workspace.active_tab, 2);
    workspace.select_next_tab();
    assert_eq!(workspace.active_tab, 0);
    workspace.chrome.surface.rail_active = true;
    workspace.take_effects();
    workspace.select_next_tab();
    workspace.select_prev_thread();
    let effects = workspace.take_effects();
    assert!(matches!(effects[0], Effect::SwitchAdjacentProject(true)));
    assert!(matches!(effects[1], Effect::SwitchAdjacentProject(false)));
    workspace.toggle_agent_full_screen();
    assert!(workspace.agent_surface_active());
    workspace.take_effects();
    workspace.close_tab();
    workspace.select_next_thread();
    workspace.select_prev_thread();
    workspace.restore_closed_tab();
    let effects = workspace.take_effects();
    assert!(matches!(effects[0], Effect::CloseActiveThread));
    assert!(matches!(effects[1], Effect::SelectNextThread));
    assert!(matches!(effects[2], Effect::SelectPrevThread));
    assert!(matches!(effects[3], Effect::RestoreClosedThread));
    workspace.toggle_agent_full_screen_state();
    assert!(!workspace.chrome.surface.agent_full_screen && workspace.chrome.docks.right);
    workspace.explorer_touched();
    assert!(!workspace.agent_surface_active());
}

#[test]
fn tabs_are_gone_through_from_any_index() {
    let mut workspace = with_tabs(&[]);
    workspace.active_tab = usize::MAX;
    workspace.select_next_tab();
    workspace.select_prev_tab();
    assert_eq!(workspace.active_tab, usize::MAX, "there is nothing to go to");
    let mut workspace = with_tabs(&["a.txt", "b.txt", "c.txt"]);
    workspace.active_tab = 4;
    workspace.select_next_tab();
    assert_eq!(workspace.active_tab, 2);
    workspace.active_tab = usize::MAX;
    workspace.select_prev_tab();
    assert_eq!(workspace.active_tab as u128, (usize::MAX as u128 + 2) % 3);
}

#[test]
fn docks_stay_within_their_limits_wherever_the_pointer_is() {
    let limits = DockLimits {
        agent_min: 300,
        agent_max: 900,
        reserved: 500,
        explorer_min: 100,
        explorer_max: 400,
        bottom_min: 50,
        bottom_max: 600,
    };
    let mut workspace = with_tabs(&[]);
    workspace.chrome.sizes.agent_width = 400;
    workspace.chrome.sizes.bottom_height = 100;
    workspace.begin_agent_resize(i64::MAX);
    workspace.on_resize_move(true, i64::MIN, 0, 2000, &limits);
    assert_eq!(workspace.chrome.sizes.agent_width, 1500);
    workspace.on_resize_move(true, i64::MIN, 0, i64::MAX, &limits);
    assert_eq!(workspace.chrome.sizes.agent_width, i64::MAX - 500);
    workspace.on_resize_move(true, i64::MAX, 0, i64::MIN, &limits);
    assert_eq!(workspace.chrome.sizes.agent_width, 400);
    workspace.on_resize_end();
    workspace.begin_bottom_resize(i64::MIN);
    workspace.on_resize_move(true, 0, i64::MAX, 2000, &limits);
    assert_eq!(workspace.chrome.sizes.bottom_height, 50);
}

#[test]
fn docks_follow_the_pointer_within_their_limits() {
    let limits = DockLimits {
        agent_min: 300,
        agent_max: 900,
        reserved: 500,
        explorer_min: 100,
        explorer_max: 400,
        bottom_min: 50,
        bottom_max: 600,
    };
    let mut workspace = with_tabs(&[]);
    workspace.chrome.sizes.agent_width = 400;
    workspace.chrome.sizes.explorer_width = 200;
    workspace.chrome.sizes.bottom_height = 100;
    workspace.begin_agent_resize(1000);
    workspace.on_resize_move(true, 900, 0, 2000, &limits);
    assert_eq!(workspace.chrome.sizes.agent_width, 500);
    workspace.on_resize_move(true, -5000, 0, 2000, &limits);
    assert_eq!(workspace.chrome.sizes.agent_width, 1500, "the window leaves room for the center");
    workspace.on_resize_move(true, -5000, 0, 0, &limits);
    assert_eq!(workspace.chrome.sizes.agent_width, 900);
    workspace.on_resize_move(false, 0, 0, 2000, &limits);
    assert!(!workspace.chrome.resizing.agent, "the button was let go outside");
    workspace.begin_explorer_resize(0);
    workspace.on_resize_move(true, 150, 0, 2000, &limits);
    assert_eq!(workspace.chrome.sizes.explorer_width, 350);
    workspace.on_resize_end();
    workspace.begin_bottom_resize(500);
    workspace.on_resize_move(true, 0, 520, 2000, &limits);
    assert_eq!(workspace.chrome.sizes.bottom_height, 80);
    workspace.on_resize_end();
    workspace.on_resize_move(true, 0, 0, 2000, &limits);
    assert_eq!(workspace.chrome.sizes.bottom_height, 80);
}

#[test]
fn docks_and_the_terminal_are_toggled() {
    let mut workspace = with_tabs(&[]);
    workspace.toggle_dock(Dock::Left);
    assert!(!workspace.chrome.docks.left);
    workspace.toggle_dock(Dock::Left);
    assert!(workspace.chrome.docks.left);
    workspace.toggle_terminal();
    assert!(workspace.chrome.docks.bottom);
    assert!(matches!(
        workspace.take_effects().last(),
        Some(Effect::Focus(FocusTarget::Terminal))
    ));
    workspace.toggle_terminal();
    assert!(!workspace.chrome.docks.bottom && workspace.take_effects().is_empty());
    workspace.chrome.surface.fleet_mode = true;
    workspace.toggle_terminal();
    assert!(!workspace.chrome.docks.bottom);
    workspace.new_agent_thread();
    assert!(workspace.chrome.docks.right);
    workspace.new_window();
    assert!(matches!(
        workspace.take_effects().last(),
        Some(Effect::OpenFolderAsWindow(root)) if root == "/p"
    ));
}

#[test]
fn the_line_box_takes_digits_and_goes_to_the_line() {
    let mut workspace = with_tabs(&["a.txt"]);
    workspace.tabs[0].caret = 42;
    workspace.open_goto_line();
    for digit in ["1", "2", "x", "", "3"] {
        workspace.on_goto_line_key_down(&typed(digit));
    }
    assert_eq!(workspace.goto_line.as_deref(), Some("123"));
    workspace.on_goto_line_key_down(&key("backspace"));
    assert_eq!(workspace.goto_line.as_deref(), Some("12"));
    workspace.on_goto_line_key_down(&key("enter"));
    assert_eq!(workspace.goto_line, None);
    assert!(matches!(
        workspace.take_effects().last(),
        Some(Effect::RevealLine { tab: 1, line: 11 })
    ));
    assert_eq!(workspace.nav_back.len(), 1);
    assert_eq!(workspace.nav_back[0].offset, 42);
    workspace.open_goto_line();
    workspace.on_goto_line_key_down(&typed("12345678"));
    workspace.on_goto_line_key_down(&typed("99999"));
    workspace.on_goto_line_key_down(&typed("1"));
    assert_eq!(workspace.goto_line.as_deref(), Some("1234567899999"));
    workspace.on_goto_line_key_down(&key("escape"));
    assert_eq!(workspace.goto_line, None);
}

#[test]
fn places_are_gone_back_and_forth_between() {
    let mut workspace = with_tabs(&["a.txt", "b.txt"]);
    workspace.tabs[0].caret = 5;
    workspace.record_nav_position();
    workspace.record_nav_position();
    assert_eq!(workspace.nav_back.len(), 1, "the same place is remembered once");
    workspace.select_tab(1);
    workspace.tabs[1].caret = 9;
    workspace.take_effects();
    workspace.navigate_back();
    assert_eq!(workspace.active_tab, 0);
    assert!(matches!(
        workspace.take_effects().last(),
        Some(Effect::SelectText { tab: 1, offset: 5 })
    ));
    workspace.navigate_forward();
    assert_eq!(workspace.active_tab, 1);
    assert_eq!((workspace.nav_back.len(), workspace.nav_forward.len()), (1, 0));
    workspace.close_tab_at(0);
    workspace.take_effects();
    workspace.navigate_back();
    assert!(matches!(
        workspace.take_effects().last(),
        Some(Effect::OpenFileAndSelect { path, offset: 5 }) if path == "/p/a.txt"
    ));
}

#[test]
fn going_back_and_forth_ends_where_it_began() {
    let mut workspace = with_tabs(&["a.txt", "b.txt"]);
    workspace.caret_moved(1, 5);
    workspace.record_nav_position();
    workspace.select_tab(1);
    workspace.caret_moved(2, 9);
    workspace.caret_moved(7, 3);
    assert_eq!((workspace.tabs[0].caret, workspace.tabs[1].caret), (5, 9));
    workspace.caret_moved(1, 0);
    workspace.navigate_back();
    workspace.caret_moved(1, 5);
    let there = workspace.current_nav_position().expect("a place");
    assert_eq!((there.path.as_str(), there.offset), ("/p/a.txt", 5));
    workspace.navigate_forward();
    workspace.caret_moved(2, 9);
    let here = workspace.current_nav_position().expect("a place");
    assert_eq!((here.path.as_str(), here.offset), ("/p/b.txt", 9));
    assert_eq!(workspace.active_tab, 1);
    assert_eq!((workspace.nav_back.len(), workspace.nav_forward.len()), (1, 0));
    assert_eq!((workspace.nav_back[0].path.as_str(), workspace.nav_back[0].offset), ("/p/a.txt", 5));
}

#[test]
fn going_back_and_forth_ends_in_the_same_file_where_it_has_two_tabs() {
    let mut workspace = with_tabs(&["a.txt", "b.txt", "./b.txt"]);
    workspace.caret_moved(1, 5);
    workspace.record_nav_position();
    workspace.select_tab(2);
    workspace.caret_moved(3, 9);
    workspace.navigate_back();
    workspace.caret_moved(1, 5);
    workspace.navigate_forward();
    assert_eq!(workspace.active_tab, 1, "the first tab of the file");
    workspace.caret_moved(2, 9);
    let here = workspace.current_nav_position().expect("a place");
    assert_eq!((here.path.as_str(), here.offset), ("/p/b.txt", 9));
    assert_eq!((workspace.nav_back.len(), workspace.nav_forward.len()), (1, 0));
    workspace.tabs[2].id = 2;
    workspace.caret_moved(2, 4);
    let carets: Vec<usize> = workspace.tabs.iter().map(|tab| tab.caret).collect();
    assert_eq!(carets, [5, 4, 4], "an editor has one caret in all of its tabs");
}

#[test]
fn hunks_are_put_back_and_rows_annotated() {
    let mut workspace = with_tabs(&["a.txt"]);
    let hunk = DiffHunk { old_start: 1, old_end: 2, new_start: 0, new_end: 1 };
    workspace.revert_hunk(hunk);
    assert!(matches!(workspace.take_effects()[0], Effect::RevertHunk { tab: 1, .. }));
    workspace.hunk_reverted(1, hunk, "x\ny\nz\n", &vec![0, 4], 9);
    assert!(matches!(
        &workspace.take_effects()[0],
        Effect::ApplyEdit { tab: 1, start: 0, end: 4, text } if text == "y\n"
    ));
    workspace.hunk_staged();
    assert!(matches!(workspace.take_effects()[0], Effect::RefreshGitStatus));
    workspace.schedule_blame(1, 3);
    assert!(matches!(
        &workspace.take_effects()[0],
        Effect::WaitToBlame { generation: 1, tab: 1, path, row: 3 } if path == "/p/a.txt"
    ));
    workspace.blame_found(0, 1, 3, None);
    assert!(workspace.take_effects().is_empty());
    workspace.blame_found(1, 1, 3, Some(BlameLine::Uncommitted));
    assert!(matches!(
        workspace.take_effects()[0],
        Effect::AnnotateLine { tab: 1, row: 3, line: Some(BlameLine::Uncommitted) }
    ));
    workspace.diff_read("/p/a.txt", None);
    workspace.diff_read("/p/a.txt", Some("@@".to_string()));
    assert!(matches!(
        &workspace.take_effects()[0],
        Effect::ShowText { title, text } if title == "/p/a.txt ⇄ HEAD" && text == "@@"
    ));
}

#[test]
fn clicked_completions_are_put_in() {
    let mut workspace = with_tabs(&["a.txt"]);
    workspace.completion = Some(0);
    assert!(workspace.completion_row_selected(0) && !workspace.completion_row_selected(3));
    workspace.completion_clicked(3);
    assert!(workspace.completion_row_selected(3));
    assert!(matches!(workspace.take_effects()[0], Effect::ConfirmCompletion));
    workspace.completion = None;
    workspace.completion_clicked(3);
    assert_eq!(workspace.completion, None);
}

#[test]
fn texts_are_kept_under_the_host_that_they_are_looked_for() {
    let mut workspace = with_tabs(&["a.txt"]);
    workspace.tabs[0].dirty = true;
    for (projects, scope) in [(1, "ssh://x"), (0, "local")] {
        workspace.projects.truncate(projects);
        if let Some(project) = workspace.projects.first_mut() {
            project.host_id = scope.to_string();
        }
        workspace.hot_exit_snapshot_due(workspace.hot_exit_gen);
        let effects = workspace.take_effects();
        let Effect::SaveHotExit { host, .. } = &effects[0] else {
            panic!("the text is kept");
        };
        assert_eq!(hot_exit_scope_of(host), scope);
        assert_eq!(workspace.active_hot_exit_scope(), scope);
    }
}

#[test]
fn paths_are_compared_by_their_components() {
    let mut workspace = with_tabs(&["a.txt", "b.txt"]);
    assert_eq!(workspace.tab_with_path(&"/p/./b.txt".to_string()), Some(1));
    assert_eq!(workspace.tab_with_path(&"/p//b.txt/".to_string()), Some(1));
    assert_eq!(workspace.tab_with_path(&"/p/c.txt".to_string()), None);
    workspace.take_effects();
    workspace.navigate_to(NavPosition { path: "/p//b.txt".to_string(), offset: 4 });
    assert_eq!(workspace.active_tab, 1);
    assert!(matches!(
        workspace.take_effects().last(),
        Some(Effect::SelectText { tab: 2, offset: 4 })
    ));
}

#[test]
fn no_more_places_are_remembered_than_the_limit() {
    let mut workspace = with_tabs(&["a.txt"]);
    for caret in 0..150 {
        workspace.tabs[0].caret = caret;
        workspace.record_nav_position();
    }
    assert_eq!(workspace.nav_back.len(), 100);
    assert_eq!(workspace.nav_back[0].offset, 50);
}

#[test]
fn unsaved_texts_are_kept_and_brought_back() {
    let mut workspace = with_tabs(&["a.txt", "b.txt"]);
    assert_eq!(workspace.active_hot_exit_scope(), "local");
    workspace.tabs[0].dirty = true;
    workspace.schedule_hot_exit_snapshot();
    workspace.take_effects();
    workspace.hot_exit_snapshot_due(0);
    assert!(workspace.take_effects().is_empty());
    workspace.hot_exit_snapshot_due(1);
    let effects = workspace.take_effects();
    assert!(matches!(&effects[0], Effect::SaveHotExit { path, tab: 1, .. } if path == "/p/a.txt"));
    assert!(matches!(&effects[1], Effect::RemoveHotExit { path, .. } if path == "/p/b.txt"));
    workspace.check_hot_exit_restore();
    assert!(matches!(workspace.take_effects()[0], Effect::LoadHotExit));
    let row = |scope: &str, name: &str| HotExitRow {
        scope: scope.to_string(),
        path: format!("/p/{name}"),
        content: "text".to_string(),
    };
    workspace.hot_exit_loaded(vec![row("ssh://x", "z.txt")]);
    assert_eq!(workspace.hot_exit_bar(), None);
    workspace.hot_exit_loaded(vec![row("local", "a.txt"), row("ssh://x", "z.txt"), row("local", "n.txt")]);
    assert_eq!(workspace.hot_exit_bar(), Some(2));
    workspace.hot_exit_snapshot_due(1);
    assert!(workspace.take_effects().is_empty(), "nothing is written before the answer");
    workspace.restore_hot_exit();
    let effects = workspace.take_effects();
    assert!(matches!(&effects[0], Effect::ReplaceText { path, .. } if path == "/p/a.txt"));
    assert!(matches!(&effects[1], Effect::OpenFileSync(path) if path == "/p/n.txt"));
    assert!(matches!(&effects[2], Effect::ReplaceText { path, .. } if path == "/p/n.txt"));
    workspace.discard_hot_exit();
    workspace.prepare_quit();
    assert!(matches!(workspace.take_effects()[1], Effect::ClearHotExit));
}

#[test]
fn a_file_is_opened_once_for_all_of_its_kept_texts() {
    let mut workspace = with_tabs(&["a.txt"]);
    let row = |path: &str, content: &str| HotExitRow {
        scope: "local".to_string(),
        path: path.to_string(),
        content: content.to_string(),
    };
    workspace.hot_exit_loaded(vec![row("/p/n.txt", "1"), row("/p/./n.txt", "2"), row("/p/m.txt", "3")]);
    workspace.take_effects();
    workspace.restore_hot_exit();
    let effects = workspace.take_effects();
    let opened: Vec<&str> = effects
        .iter()
        .filter_map(|effect| match effect {
            Effect::OpenFileSync(path) => Some(path.as_str()),
            _ => None,
        })
        .collect();
    assert_eq!(opened, ["/p/n.txt", "/p/m.txt"]);
    assert!(matches!(&effects[1], Effect::ReplaceText { content, .. } if content == "1"));
    assert!(
        matches!(&effects[2], Effect::OpenFileIfClosed(path) if path == "/p/./n.txt"),
        "it is tried again where it could not be opened"
    );
    assert!(matches!(&effects[3], Effect::ReplaceText { content, .. } if content == "2"));
    assert_eq!(effects.len(), 6);
}

fn facts(selected: &str, line: &str) -> Option<EditorFacts> {
    Some(EditorFacts {
        selection: TextSpan { start: 3, end: 3 + selected.len(), text: selected.to_string() },
        line: TextSpan { start: 0, end: line.len(), text: line.to_string() },
    })
}

#[test]
fn an_instruction_brings_a_proposal_that_is_accepted() {
    let mut workspace = with_tabs(&["a.txt"]);
    workspace.open_inline_edit(false, facts("", "let x = 1;\n"));
    for text in ["f", "i", "x"] {
        workspace.on_inline_edit_key_down(&typed(text));
    }
    workspace.on_inline_edit_key_down(&typed("\u{7f}"));
    workspace.take_effects();
    workspace.on_inline_edit_key_down(&key("enter"));
    assert!(matches!(
        workspace.take_effects().last(),
        Some(Effect::RunInlineRewrite { instruction, old_text, generation: 1, .. })
            if instruction == "fix" && old_text == "let x = 1;\n"
    ));
    workspace.execute_inline_edit();
    assert!(workspace.take_effects().is_empty(), "it is being carried out");
    workspace.inline_edit_done(0, Ok("late".to_string()));
    assert!(workspace.inline_edit.as_ref().unwrap().busy);
    workspace.inline_edit_done(1, Ok("let x = 2;\n".to_string()));
    let card = workspace.inline_edit.as_ref().unwrap().card(&vec!["- old".to_string(), "+ new".to_string()]);
    assert_eq!(card.preview.unwrap().len(), 2);
    assert!(!card.placeholder && !card.for_terminal);
    workspace.on_inline_edit_key_down(&key("enter"));
    let effects = workspace.take_effects();
    assert!(matches!(&effects[0], Effect::ApplyEdit { tab: 1, start: 0, end: 11, .. }));
    assert!(workspace.inline_edit.is_none());
}

#[test]
fn a_proposal_for_an_older_text_is_dropped() {
    let mut workspace = with_tabs(&["a.txt"]);
    workspace.open_inline_edit(false, facts("x = 1", "line\n"));
    workspace.on_inline_edit_key_down(&typed("go"));
    workspace.on_inline_edit_key_down(&key("enter"));
    workspace.inline_edit_done(1, Ok("new".to_string()));
    workspace.tabs[0].version = 2;
    workspace.take_effects();
    workspace.accept_inline_edit();
    assert!(matches!(workspace.take_effects()[0], Effect::Toast(Notice::InlineBufferChanged)));
    workspace.open_inline_edit(false, facts("  ", "x\n"));
    assert!(matches!(
        workspace.take_effects().last(),
        Some(Effect::Toast(Notice::InlineTargetEmpty))
    ));
    assert!(workspace.inline_edit.is_none());
}

#[test]
fn an_instruction_for_the_terminal_is_inserted_there() {
    let mut workspace = with_tabs(&[]);
    workspace.open_inline_edit(true, None);
    workspace.on_inline_edit_key_down(&typed("list"));
    workspace.on_inline_edit_key_down(&key("enter"));
    assert!(matches!(
        workspace.take_effects().last(),
        Some(Effect::RunInlineCommand { instruction, .. }) if instruction == "list"
    ));
    workspace.inline_edit_done(1, Err("no".to_string()));
    assert_eq!(workspace.inline_edit.as_ref().unwrap().error.as_deref(), Some("no"));
    workspace.execute_inline_edit();
    workspace.inline_edit_done(2, Ok("ls".to_string()));
    let card = workspace.inline_edit.as_ref().unwrap().card(&Vec::new());
    assert_eq!(card.preview.unwrap(), ["$ ls"]);
    workspace.on_inline_edit_key_down(&key("backspace"));
    assert!(workspace.inline_edit.as_ref().unwrap().proposal.is_none());
    assert_eq!(workspace.inline_edit.as_ref().unwrap().instruction, "lis");
    workspace.execute_inline_edit();
    workspace.inline_edit_done(3, Ok("ls".to_string()));
    workspace.take_effects();
    workspace.accept_inline_edit();
    assert!(matches!(&workspace.take_effects()[0], Effect::InsertInTerminal(text) if text == "ls"));
    workspace.open_inline_edit(true, None);
    workspace.close_inline_edit();
    assert!(matches!(
        workspace.take_effects().last(),
        Some(Effect::Focus(FocusTarget::TerminalIfPresent))
    ));
}

#[test]
fn previews_have_tones_and_lines_have_ranges() {
    assert_eq!(line_tone("+a"), LineTone::Added);
    assert_eq!(line_tone("-a"), LineTone::Removed);
    assert_eq!(line_tone("$ a"), LineTone::Command);
    assert_eq!(line_tone(""), LineTone::Plain);
    assert_eq!(line_range(0, &vec![0, 4], 9), (0, 4));
    assert_eq!(line_range(1, &vec![0, 4], 9), (4, 9));
}

#[test]
fn dropped_files_are_opened_and_dropped_images_linked() {
    let mut workspace = with_tabs(&["a.md"]);
    let markdown = |markdown: bool| {
        Some(DropTarget { tab: 1, document: Some("/p/a.md".to_string()), markdown })
    };
    let png = || vec!["/x/a.png".to_string()];
    workspace.drop_paths_on_editor(png(), markdown(true), false);
    assert!(matches!(&workspace.take_effects()[0], Effect::PlaceImages { tab: 1, .. }));
    workspace.drop_paths_on_editor(png(), markdown(false), true);
    assert!(matches!(&workspace.take_effects()[0], Effect::OpenFile(_)));
    workspace.drop_paths_on_editor(vec!["/x/a.png".to_string(), "/x/b.rs".to_string()], markdown(true), true);
    assert_eq!(workspace.take_effects().len(), 2);
    workspace.insert_dropped_images(
        1,
        "/p",
        &vec![
            PlacedImage::Placed { path: "/p/a.png".to_string(), copied: true },
            PlacedImage::Failed("no".to_string()),
            PlacedImage::Placed { path: "/p/i/b.png".to_string(), copied: false },
        ],
    );
    let effects = workspace.take_effects();
    assert!(matches!(
        &effects[0],
        Effect::InsertDroppedText { text, .. } if text == "![a](a.png)\n![b](i/b.png)"
    ));
    assert!(matches!(&effects[1], Effect::RefreshExplorer));
    assert!(matches!(&effects[2], Effect::RefreshGitStatus));
    assert!(matches!(&effects[3], Effect::ToastText(text) if text == "no"));
    workspace.projects[0].remote_host = Some("box".to_string());
    workspace.drop_paths_on_editor(png(), None, true);
    assert!(matches!(workspace.take_effects()[0], Effect::Toast(Notice::RemoteDropRefused)));
    workspace.projects[0].remote_host = None;
    workspace.drop_paths_on_editor(png(), None, false);
    assert!(matches!(&workspace.take_effects()[0], Effect::OpenFile(_)), "the active text is no Markdown");
    workspace.drop_paths_on_editor(png(), None, true);
    assert!(matches!(
        &workspace.take_effects()[0],
        Effect::PlaceImages { tab: 1, document, .. } if document == "/p/a.md"
    ));
    workspace.tabs[0].has_file = false;
    workspace.drop_paths_on_editor(png(), None, true);
    assert!(matches!(&workspace.take_effects()[0], Effect::OpenFile(_)), "it has no file to link from");
}

#[test]
fn images_dropped_on_markdown_are_copied_and_linked() {
    let mut workspace = with_tabs(&["docs/readme.md"]);
    let mut folder: Vec<String> = vec!["/p/docs/readme.md".to_string()];
    let mut text = String::from("# Title\n");
    for image in ["/outside/shot.png", "/outside/shot.png", "/p/assets/logo.png"] {
        workspace.drop_paths_on_editor(vec![image.to_string()], None, true);
        for effect in workspace.take_effects() {
            let Effect::PlaceImages { tab, images, root, .. } = effect else {
                panic!("an image is placed");
            };
            let placed: Vec<PlacedImage> = images
                .iter()
                .map(|source| {
                    let name = source.rsplit('/').next().unwrap();
                    let taken = (0..10)
                        .map(|n| folder.contains(&format!("/p/docs/{}", destination_name(name, n))))
                        .collect();
                    match place_image(source, "/p/docs", &root, &taken) {
                        ImagePlace::Here => {
                            PlacedImage::Placed { path: source.clone(), copied: false }
                        }
                        ImagePlace::Copied(path) => {
                            folder.push(path.clone());
                            PlacedImage::Placed { path, copied: true }
                        }
                        _ => PlacedImage::Failed("no place".to_string()),
                    }
                })
                .collect();
            workspace.insert_dropped_images(tab, "/p/docs", &placed);
        }
        for effect in workspace.take_effects() {
            if let Effect::InsertDroppedText { text: inserted, .. } = effect {
                text.push_str(&inserted);
            }
        }
    }
    assert!(folder.contains(&"/p/docs/shot.png".to_string()));
    assert!(folder.contains(&"/p/docs/shot-1.png".to_string()), "nothing is copied over");
    assert!(!folder.contains(&"/p/docs/logo.png".to_string()), "it is in the project already");
    assert!(text.contains("![shot](shot.png)"), "{text}");
    assert!(text.contains("![shot-1](shot-1.png)"), "{text}");
    assert!(text.contains("![logo](../assets/logo.png)"), "{text}");
    workspace.drop_paths_on_editor(vec!["/p/notes.txt".to_string()], None, true);
    assert!(matches!(
        &workspace.take_effects()[0],
        Effect::OpenFile(path) if path == "/p/notes.txt"
    ));
}

#[test]
fn files_are_opened_in_other_applications() {
    let mut workspace = with_tabs(&["a.txt"]);
    workspace.open_in_vs_code(Platform::Other, &Some("/usr/bin/code".to_string()), 3);
    assert!(matches!(
        workspace.take_effects().last(),
        Some(Effect::Launch { app: ExternalApp::VsCode, command })
            if command.program == "/usr/bin/code" && command.args == ["/p", "--goto", "/p/a.txt:3"]
    ));
    workspace.open_in_zed(Platform::Other, &None, 3);
    workspace.open_in_cursor(Platform::Other, &None, 3);
    workspace.open_in_terminal(Platform::Other, &None, 3);
    workspace.external_app_failed(ExternalApp::Zed);
    assert_eq!(
        workspace
            .take_effects()
            .iter()
            .filter(|e| matches!(e, Effect::ExternalMissing(_)))
            .count(),
        4
    );
    assert_eq!(ExternalApp::VsCode.label(), "VS Code");
    assert_eq!(ExternalApp::Terminal.cli(), None);
    workspace.copy_path_with_line(10, 14);
    assert!(matches!(
        workspace.take_effects().last(),
        Some(Effect::PathCopied(text)) if text == "a.txt:10-14"
    ));
    workspace.projects[0].remote_host = Some("box".to_string());
    workspace.open_in_zed(Platform::Other, &None, 3);
    assert!(matches!(workspace.take_effects()[0], Effect::Toast(Notice::RemoteOpenRefused)));
}

#[test]
fn differences_are_asked_for_once() {
    let mut workspace = with_tabs(&["a.txt"]);
    workspace.open_diff_tab();
    assert!(matches!(
        workspace.take_effects().last(),
        Some(Effect::OpenDiff { path, editor: Some(1) }) if path == "/p/a.txt"
    ));
    workspace.schedule_blame(1, 4);
    workspace.schedule_blame(1, 4);
    workspace.schedule_blame(2, 5);
    assert_eq!(workspace.take_effects().len(), 1);
    assert!(workspace.blame_is_latest(1) && !workspace.blame_is_latest(2));
    let rows = vec!["@@ x".to_string(), "a".to_string(), "@@ y".to_string()];
    workspace.step_hunk_header(-1, &rows, 0);
    assert!(matches!(workspace.take_effects()[0], Effect::RevealLine { tab: 1, line: 2 }));
    let hunk = workspace::diff::DiffHunk { old_start: 0, old_end: 1, new_start: 1, new_end: 2 };
    workspace.on_hunk_clicked(hunk);
    workspace.copy_hunk(hunk, &rows);
    assert!(matches!(&workspace.take_effects()[0], Effect::CopyText(text) if text == "a\n"));
    assert_eq!(workspace.hunk_menu, None);
    workspace.stage_hunk(hunk);
    workspace.revert_hunk(hunk);
    let effects = workspace.take_effects();
    assert!(matches!(&effects[0], Effect::StageHunk { .. }));
    assert!(matches!(&effects[1], Effect::RevertHunk { .. }));
}

#[test]
fn bars_and_lists_show_what_they_should() {
    let mut workspace = with_tabs(&["a.txt"]);
    assert!(!workspace.external_change_bar());
    workspace.tabs[0].externally_changed = true;
    assert!(workspace.external_change_bar());
    workspace.answer_external_change(true);
    workspace.answer_external_change(false);
    let effects = workspace.take_effects();
    assert!(matches!(effects[0], Effect::ReloadFromDisk(1)));
    assert!(matches!(effects[1], Effect::DismissExternalChange(1)));
    assert_eq!(completion_rows(&(0..20).collect()), (0..12).collect::<Vec<_>>());
    assert_eq!(completion_rows(&vec![4]), [4]);
    assert_eq!(hover_line(""), " ");
    assert_eq!(hover_line("x"), "x");
}

#[test]
fn terminals_start_where_the_project_is() {
    let place = |remote: bool, host: HostLaunch| {
        Some(TerminalPlace { root: "/p".to_string(), remote, host })
    };
    let shell = || HostLaunch::Shell { program: "ssh".to_string(), args: vec!["-tt".to_string()] };
    let remote = Workspace::terminal_launch_for(place(true, shell()), &None);
    assert_eq!(remote.cwd, None);
    assert_eq!(remote.shell.unwrap().program, "ssh");
    let local = Workspace::terminal_launch_for(place(false, shell()), &Some("hi".to_string()));
    assert_eq!(local.cwd.as_deref(), Some("/p"));
    assert_eq!(local.shell.unwrap().program, "ssh", "the host names its own");
    let plain = Workspace::terminal_launch_for(place(false, HostLaunch::Plain), &Some("hi".to_string()));
    let shell = plain.shell.unwrap();
    assert_eq!(shell.program, "/bin/sh");
    assert_eq!(shell.args, ["-c", "echo 'hi'; exec zsh -f"]);
    let none = Workspace::terminal_launch_for(None, &None);
    assert!(none.cwd.is_none() && none.shell.is_none());
    let failed = Workspace::terminal_launch_for(place(false, HostLaunch::Failed), &None);
    assert_eq!(failed.cwd, None);
}
