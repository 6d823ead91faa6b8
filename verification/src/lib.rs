//! The decisions behind an editor workspace: tabs, docks, fleets of tasks, git, history and inbox.

pub mod auto_save;
pub mod diff;
pub mod editor_manners;
pub mod explorer;
pub mod failure;
pub mod file_drop;
pub mod fleet_cells;
pub mod fleet_graph;
pub mod fleet_news;
pub mod fleet_rows;
pub mod fleet_sidebar;
pub mod fleet_stage;
pub mod fleet_view;
pub mod font_settings;
pub mod git_controller;
pub mod herd;
pub mod history;
pub mod hot_exit;
pub mod image_view;
pub mod inbox;
pub mod inline_edit;
pub mod jpeg;
pub mod keep_awake;
pub mod keymap_editing;
pub mod navigation;
pub mod new_task;
pub mod overlays;
pub mod paths;
pub mod pins;
pub mod preview_tabs;
pub mod seqs;
pub mod tabs;
pub mod task_rows;
pub mod text;
pub mod tiff;
pub mod workspace;
