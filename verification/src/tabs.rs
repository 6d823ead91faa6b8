//! Tabs, docks and the surfaces that shortcuts go to.

use vstd::prelude::*;
use crate::pins::pins_lead;
use crate::workspace::{
    Chrome, Dock, DockSizes, Docks, Effect, EditorTab, FleetBottomView, FleetLook, FocusTarget,
    Model, Notice, Resizing, Surface, Workspace,
};

verus! {

/// How narrow and how wide the docks may be, in thousandths of a pixel.
pub struct DockLimits {
    pub agent_min: i64,
    /// How wide the agent dock may be where the width of the window is not known.
    pub agent_max: i64,
    /// What the rail and the smallest center take of the width of the window.
    pub reserved: i64,
    pub explorer_min: i64,
    pub explorer_max: i64,
    pub bottom_min: i64,
    pub bottom_max: i64,
}

/// `x` brought into the range from `low` to `high`.
pub open spec fn clamped(x: int, low: int, high: int) -> int {
    if x < low {
        low
    } else if x > high {
        high
    } else {
        x
    }
}

fn clamp_to(x: i128, low: i64, high: i64) -> (r: i64)
    requires
        low <= high,
    ensures
        r == clamped(x as int, low as int, high as int),
{
    if x < low as i128 {
        low
    } else if x > high as i128 {
        high
    } else {
        x as i64
    }
}

impl DockLimits {
    /// How wide the agent dock may be in a window of this width.
    pub open spec fn agent_limit(self, viewport_width: int) -> int {
        if viewport_width <= 0 {
            self.agent_max as int
        } else if viewport_width - self.reserved < self.agent_min {
            self.agent_min as int
        } else {
            viewport_width - self.reserved
        }
    }

    /// Every range holds something.
    pub open spec fn valid(self) -> bool {
        &&& self.agent_min <= self.agent_max
        &&& 0 <= self.reserved
        &&& self.explorer_min <= self.explorer_max
        &&& self.bottom_min <= self.bottom_max
    }
}

impl Resizing {
    pub open spec fn any(self) -> bool {
        self.agent || self.explorer || self.bottom
    }

    /// No dock is being resized.
    pub open spec fn ended(self) -> Resizing {
        Resizing { agent: false, explorer: false, bottom: false, ..self }
    }

    /// The sizes of the docks once the pointer is at `x` and `y`.
    pub open spec fn sizes_at(self, sizes: DockSizes, x: int, y: int, viewport_width: int, limits: DockLimits) -> DockSizes {
        if self.agent {
            DockSizes {
                agent_width: clamped(
                    self.start_width - (x - self.start_x),
                    limits.agent_min as int,
                    limits.agent_limit(viewport_width),
                ) as i64,
                ..sizes
            }
        } else if self.explorer {
            DockSizes {
                explorer_width: clamped(
                    self.start_width + (x - self.start_x),
                    limits.explorer_min as int,
                    limits.explorer_max as int,
                ) as i64,
                ..sizes
            }
        } else if self.bottom {
            DockSizes {
                bottom_height: clamped(
                    self.start_height - (y - self.start_y),
                    limits.bottom_min as int,
                    limits.bottom_max as int,
                ) as i64,
                ..sizes
            }
        } else {
            sizes
        }
    }
}

impl Chrome {
    /// The pointer moved while a dock may be being resized.
    pub open spec fn resized(self, left_pressed: bool, x: int, y: int, viewport_width: int, limits: DockLimits) -> Chrome {
        if self.resizing.any() && !left_pressed {
            Chrome { resizing: self.resizing.ended(), ..self }
        } else {
            Chrome { sizes: self.resizing.sizes_at(self.sizes, x, y, viewport_width, limits), ..self }
        }
    }

    /// Shortcuts for tabs go to the threads of the agent panel.
    pub open spec fn agent_surface(self) -> bool {
        (self.surface.agent_full_screen && !self.surface.fleet_mode) || (self.docks.right
            && self.surface.agent_active)
    }

    pub open spec fn dock_toggled(self, dock: Dock) -> Chrome {
        Chrome {
            docks: match dock {
                Dock::Left => Docks { left: !self.docks.left, ..self.docks },
                Dock::Right => Docks { right: !self.docks.right, ..self.docks },
                Dock::Bottom => Docks { bottom: !self.docks.bottom, ..self.docks },
            },
            ..self
        }
    }

    pub open spec fn full_screen_toggled(self) -> Chrome {
        Chrome {
            surface: Surface {
                agent_full_screen: !self.surface.agent_full_screen,
                fleet_mode: self.surface.fleet_mode && self.surface.agent_full_screen,
                agent_active: true,
                ..self.surface
            },
            docks: Docks { right: true, ..self.docks },
            ..self
        }
    }

    /// The state of the agent dock being shown.
    pub open spec fn agent_dock_shown(self) -> Chrome {
        Chrome { docks: Docks { right: true, ..self.docks }, ..self }
    }
}

/// Which tab is active after the one at `index` was closed: the same one, or the next, or the
/// last.
pub open spec fn active_after_close(active: int, index: int, left: int) -> int {
    if left == 0 {
        0
    } else if index < active {
        active - 1
    } else if index == active && active > left - 1 {
        left - 1
    } else {
        active
    }
}

impl Model {
    /// The view of the active tab gets the focus, or its rendered page becomes the surface.
    pub open spec fn tab_shown(self) -> Model {
        if self.active_tab < self.tabs.len() {
            if self.tab().has_editor && self.tab().renders_html {
                self.then_do(Effect::ShowRendered(self.tab().id))
            } else {
                self.then_do(Effect::Focus(FocusTarget::Tab(self.tab().id)))
            }
        } else {
            self
        }
    }

    /// What belongs to the text of the active tab goes away.
    pub open spec fn search_dismissed(self) -> Model {
        self.then_do(Effect::DismissBufferSearch).then_do(Effect::CloseHover)
    }

    /// The host of the shown project; `None` for this machine where no project is shown.
    pub open spec fn hot_exit_host(self) -> Option<String> {
        if self.has_slot() {
            Some(self.slot().host_id)
        } else {
            None
        }
    }

    /// What the window remembers of a tab that goes away.
    pub open spec fn tab_forgotten(self, tab: EditorTab) -> Model {
        let listed = if tab.transient {
            self
        } else {
            let m = Model { recently_closed: self.recently_closed.push(tab.path), ..self };
            if tab.has_editor {
                m.then_do(Effect::LspDidClose(tab.path))
            } else {
                m
            }
        };
        if self.has_storage {
            listed.then_do(Effect::RemoveHotExit { host: self.hot_exit_host(), path: tab.path })
        } else {
            listed
        }
    }

    /// The tabs without the one at `index`.
    pub open spec fn tab_removed(self, index: int) -> Model {
        let tabs = self.tabs.remove(index);
        Model {
            tabs,
            active_tab: active_after_close(self.active_tab as int, index, tabs.len() as int) as usize,
            split: if tabs.len() == 0 { None } else { self.split },
            ..self
        }
    }

    /// The explorer of the shown project selects the file of the active tab.
    pub open spec fn file_selected(self) -> Model {
        if self.has_slot() {
            Model {
                explorer_selected: if self.active_tab < self.tabs.len() {
                    Some(self.tab().path)
                } else {
                    None
                },
                ..self
            }
        } else {
            self
        }
    }

    /// The tab at `index` is closed.
    #[verifier::opaque]
    pub open spec fn tab_closed(self, index: int) -> Model {
        if index < self.tabs.len() {
            let dismissed = if index == self.active_tab { self.search_dismissed() } else { self };
            let gone = dismissed.tab_forgotten(self.tabs[index]).tab_removed(index);
            gone.tab_shown().file_selected().slot_synced().then_do(Effect::PushDiagnostics).then_do(
                Effect::RefreshGitStatus,
            ).then_do(Effect::SaveState)
        } else {
            self
        }
    }

    /// The tab at `index` is active.
    #[verifier::opaque]
    pub open spec fn tab_selected(self, index: int) -> Model {
        if index < self.tabs.len() {
            let dismissed = if index != self.active_tab { self.search_dismissed() } else { self };
            let shown = Model { active_tab: index as usize, ..dismissed }.tab_shown();
            let kept = if self.has_slot() {
                Model {
                    explorer_selected: Some(self.tabs[index].path),
                    active_file: index as usize,
                    ..shown
                }
            } else {
                shown
            };
            kept.then_do(Effect::PushDiagnostics).then_do(Effect::SaveState)
        } else {
            self
        }
    }

    /// The active tab is closed, unless it is pinned.
    pub open spec fn active_editor_closed(self) -> Model {
        if self.active_tab < self.tabs.len() && self.tab().pinned {
            self.then_do(Effect::Toast(Notice::PinnedTabStays))
        } else {
            self.tab_closed(self.active_tab as int)
        }
    }

    /// The next tab is active, the first one after the last; or the next project, where the rail
    /// was touched last.
    pub open spec fn next_tab_selected(self) -> Model {
        if self.chrome.surface.rail_active {
            self.then_do(Effect::SwitchAdjacentProject(true))
        } else if self.tabs.len() > 1 {
            self.tab_selected((self.active_tab + 1) % self.tabs.len() as int)
        } else {
            self
        }
    }

    /// The tab before is active, the last one before the first; or the project before.
    pub open spec fn prev_tab_selected(self) -> Model {
        if self.chrome.surface.rail_active {
            self.then_do(Effect::SwitchAdjacentProject(false))
        } else if self.tabs.len() > 1 {
            self.tab_selected((self.active_tab + self.tabs.len() - 1) % self.tabs.len() as int)
        } else {
            self
        }
    }

    /// The tab at `from` was dragged to `to`.
    pub open spec fn tab_dragged(self, from: int, to: int) -> Model {
        if from < self.tabs.len() && to < self.tabs.len() && from != to {
            self.tab_moved(from, to).slot_synced().then_do(Effect::SaveState)
        } else {
            self
        }
    }

    pub open spec fn terminal_toggled(self) -> Model {
        if self.chrome.surface.fleet_mode {
            if self.chrome.fleet.bottom_view == FleetBottomView::Terminal {
                self.with_chrome(
                    Chrome { fleet: FleetLook { bottom_view: FleetBottomView::News, ..self.chrome.fleet }, ..self.chrome },
                )
            } else {
                self.with_chrome(
                    Chrome { fleet: FleetLook { bottom_view: FleetBottomView::Terminal, ..self.chrome.fleet }, ..self.chrome },
                ).then_do(Effect::Focus(FocusTarget::Terminal))
            }
        } else if self.chrome.docks.bottom {
            self.with_chrome(self.chrome.dock_toggled(Dock::Bottom))
        } else {
            self.with_chrome(self.chrome.dock_toggled(Dock::Bottom)).then_do(
                Effect::Focus(FocusTarget::Terminal),
            )
        }
    }
}

impl Workspace {
    /// Whether shortcuts for tabs go to the threads of the agent panel: while it fills the window,
    /// or while its dock is shown and was touched last.
    pub fn agent_surface_active(&self) -> (b: bool)
        ensures
            b == self@.chrome.agent_surface(),
    {
        (self.chrome.surface.agent_full_screen && !self.chrome.surface.fleet_mode) || (self.chrome.docks.right
            && self.chrome.surface.agent_active)
    }

    /// Closes the thread or the tab that was touched last.
    pub fn close_tab(&mut self)
        ensures
            final(self)@ == if old(self)@.chrome.agent_surface() {
                old(self)@.then_do(Effect::CloseActiveThread)
            } else {
                old(self)@.active_editor_closed()
            },
    {
        if self.agent_surface_active() {
            self.effect(Effect::CloseActiveThread);
            return;
        }
        self.close_active_editor();
    }

    /// Goes to the next tab.
    pub fn select_next_tab(&mut self)
        ensures
            final(self)@ == old(self)@.next_tab_selected(),
    {
        if self.chrome.surface.rail_active {
            self.effect(Effect::SwitchAdjacentProject(true));
            return;
        }
        if self.tabs.len() > 1 {
            let next: u128 = (self.active_tab as u128 + 1) % self.tabs.len() as u128;
            self.select_tab(next as usize);
        }
    }

    /// Goes to the tab before.
    pub fn select_prev_tab(&mut self)
        ensures
            final(self)@ == old(self)@.prev_tab_selected(),
    {
        if self.chrome.surface.rail_active {
            self.effect(Effect::SwitchAdjacentProject(false));
            return;
        }
        let count = self.tabs.len();
        if count > 1 {
            let prev: u128 = (self.active_tab as u128 + count as u128 - 1) % count as u128;
            self.select_tab(prev as usize);
        }
    }

    /// Brings back the thread or the file that was closed last.
    pub fn restore_closed_tab(&mut self)
        ensures
            final(self)@ == if old(self)@.chrome.agent_surface() {
                old(self)@.then_do(Effect::RestoreClosedThread)
            } else if old(self)@.recently_closed.len() > 0 {
                (Model { recently_closed: old(self)@.recently_closed.drop_last(), ..old(self)@ }).then_do(
                    Effect::OpenFile(old(self)@.recently_closed.last()),
                )
            } else {
                old(self)@
            },
    {
        if self.agent_surface_active() {
            self.effect(Effect::RestoreClosedThread);
            return;
        }
        if let Some(path) = self.recently_closed.pop() {
            assert(self.recently_closed@ =~= old(self)@.recently_closed.drop_last());
            self.effect(Effect::OpenFile(path));
        }
    }

    /// Starts a thread in the agent dock, which is shown for it.
    pub fn new_agent_thread(&mut self)
        ensures
            final(self)@ == old(self)@.with_chrome(old(self)@.chrome.agent_dock_shown()).then_do(
                Effect::NewThread,
            ),
    {
        if !self.chrome.docks.right {
            self.chrome.docks.right = true;
        }
        self.effect(Effect::NewThread);
    }

    /// Goes to the next thread, or to the next tab where the threads were not touched last.
    pub fn select_next_thread(&mut self)
        ensures
            final(self)@ == if old(self)@.chrome.agent_surface() {
                old(self)@.then_do(Effect::SelectNextThread)
            } else {
                old(self)@.next_tab_selected()
            },
    {
        if !self.agent_surface_active() {
            self.select_next_tab();
            return;
        }
        self.effect(Effect::SelectNextThread);
    }

    /// Goes to the thread before, or to the tab before where the threads were not touched last.
    pub fn select_prev_thread(&mut self)
        ensures
            final(self)@ == if old(self)@.chrome.agent_surface() {
                old(self)@.then_do(Effect::SelectPrevThread)
            } else {
                old(self)@.prev_tab_selected()
            },
    {
        if !self.agent_surface_active() {
            self.select_prev_tab();
            return;
        }
        self.effect(Effect::SelectPrevThread);
    }

    /// Lets the agent panel fill the window, or not.
    pub fn toggle_agent_full_screen(&mut self)
        ensures
            final(self)@ == old(self)@.with_chrome(old(self)@.chrome.full_screen_toggled()).then_do(
                Effect::AgentWidthChanged,
            ).then_do(Effect::Focus(FocusTarget::Composer)),
    {
        self.toggle_agent_full_screen_state();
    }

    /// Lets the agent panel fill the window, or not: the fleet gives way to it, its dock is shown
    /// after it, and its composer has the focus.
    pub fn toggle_agent_full_screen_state(&mut self)
        ensures
            final(self)@ == old(self)@.with_chrome(old(self)@.chrome.full_screen_toggled()).then_do(
                Effect::AgentWidthChanged,
            ).then_do(Effect::Focus(FocusTarget::Composer)),
    {
        self.chrome.surface.agent_full_screen = !self.chrome.surface.agent_full_screen;
        if self.chrome.surface.agent_full_screen {
            self.chrome.surface.fleet_mode = false;
        }
        self.chrome.docks.right = true;
        self.chrome.surface.agent_active = true;
        self.effect(Effect::AgentWidthChanged);
        self.effect(Effect::Focus(FocusTarget::Composer));
    }

    /// Opens the shown project in a window of its own.
    pub fn new_window(&mut self)
        ensures
            final(self)@ == if old(self)@.has_slot() {
                old(self)@.then_do(Effect::OpenFolderAsWindow(old(self)@.slot().root))
            } else {
                old(self)@
            },
    {
        if self.has_active_slot() {
            let root = self.projects[self.active].root.clone();
            self.effect(Effect::OpenFolderAsWindow(root));
        }
    }

    /// The pointer moved. A dock that is being resized follows it, within its limits; where the
    /// button was let go outside of the window, resizing ends.
    pub fn on_resize_move(&mut self, left_pressed: bool, x: i64, y: i64, viewport_width: i64, limits: &DockLimits)
        requires
            limits.valid(),
        ensures
            ({
                let m = old(self)@.with_chrome(
                    old(self)@.chrome.resized(left_pressed, x as int, y as int, viewport_width as int, *limits),
                );
                final(self)@ == if old(self)@.chrome.resizing.agent && left_pressed {
                    m.then_do(Effect::AgentWidthChanged)
                } else {
                    m
                }
            }),
    {
        if (self.chrome.resizing.agent || self.chrome.resizing.explorer || self.chrome.resizing.bottom)
            && !left_pressed {
            self.chrome.resizing.agent = false;
            self.chrome.resizing.explorer = false;
            self.chrome.resizing.bottom = false;
            return;
        }
        let dx: i128 = x as i128 - self.chrome.resizing.start_x as i128;
        if self.chrome.resizing.agent {
            let agent_limit: i64 = if viewport_width > 0 {
                let room: i64 = viewport_width - limits.reserved;
                if room < limits.agent_min {
                    limits.agent_min
                } else {
                    room
                }
            } else {
                limits.agent_max
            };
            self.chrome.sizes.agent_width =
                clamp_to(self.chrome.resizing.start_width as i128 - dx, limits.agent_min, agent_limit);
            self.effect(Effect::AgentWidthChanged);
        } else if self.chrome.resizing.explorer {
            self.chrome.sizes.explorer_width = clamp_to(
                self.chrome.resizing.start_width as i128 + dx,
                limits.explorer_min,
                limits.explorer_max,
            );
        } else if self.chrome.resizing.bottom {
            let dy: i128 = y as i128 - self.chrome.resizing.start_y as i128;
            self.chrome.sizes.bottom_height = clamp_to(
                self.chrome.resizing.start_height as i128 - dy,
                limits.bottom_min,
                limits.bottom_max,
            );
        }
    }

    /// The button was let go.
    pub fn on_resize_end(&mut self)
        ensures
            final(self)@ == old(self)@.with_chrome(
                Chrome { resizing: old(self)@.chrome.resizing.ended(), ..old(self)@.chrome },
            ),
    {
        if self.chrome.resizing.agent || self.chrome.resizing.explorer || self.chrome.resizing.bottom {
            self.chrome.resizing.agent = false;
            self.chrome.resizing.explorer = false;
            self.chrome.resizing.bottom = false;
        }
    }

    /// The edge of the bottom dock was grabbed.
    pub fn begin_bottom_resize(&mut self, y: i64)
        ensures
            final(self)@ == old(self)@.with_chrome(
                Chrome {
                    resizing: Resizing {
                        bottom: true,
                        start_y: y,
                        start_height: old(self)@.chrome.sizes.bottom_height,
                        ..old(self)@.chrome.resizing
                    },
                    ..old(self)@.chrome
                },
            ),
    {
        self.chrome.resizing.bottom = true;
        self.chrome.resizing.start_y = y;
        self.chrome.resizing.start_height = self.chrome.sizes.bottom_height;
    }

    /// The agent dock was touched: shortcuts for tabs go to its threads.
    pub fn agent_touched(&mut self)
        ensures
            final(self)@ == old(self)@.with_chrome(
                Chrome {
                    surface: Surface { agent_active: true, ..old(self)@.chrome.surface },
                    ..old(self)@.chrome
                },
            ),
    {
        self.chrome.surface.agent_active = true;
    }

    /// The edge of the agent dock was grabbed.
    pub fn begin_agent_resize(&mut self, x: i64)
        ensures
            final(self)@ == old(self)@.with_chrome(
                Chrome {
                    resizing: Resizing {
                        agent: true,
                        start_x: x,
                        start_width: old(self)@.chrome.sizes.agent_width,
                        ..old(self)@.chrome.resizing
                    },
                    surface: Surface { agent_active: true, ..old(self)@.chrome.surface },
                    ..old(self)@.chrome
                },
            ).then_do(Effect::Focus(FocusTarget::Composer)),
    {
        self.chrome.resizing.agent = true;
        self.chrome.resizing.start_x = x;
        self.chrome.resizing.start_width = self.chrome.sizes.agent_width;
        self.chrome.surface.agent_active = true;
        self.effect(Effect::Focus(FocusTarget::Composer));
    }

    /// The edge of the left dock was grabbed.
    pub fn begin_explorer_resize(&mut self, x: i64)
        ensures
            final(self)@ == old(self)@.with_chrome(
                Chrome {
                    resizing: Resizing {
                        explorer: true,
                        start_x: x,
                        start_width: old(self)@.chrome.sizes.explorer_width,
                        ..old(self)@.chrome.resizing
                    },
                    ..old(self)@.chrome
                },
            ),
    {
        self.chrome.resizing.explorer = true;
        self.chrome.resizing.start_x = x;
        self.chrome.resizing.start_width = self.chrome.sizes.explorer_width;
    }

    /// Shows a dock, or hides it.
    pub fn toggle_dock(&mut self, dock: Dock)
        ensures
            final(self)@ == old(self)@.with_chrome(old(self)@.chrome.dock_toggled(dock)),
    {
        match dock {
            Dock::Left => self.chrome.docks.left = !self.chrome.docks.left,
            Dock::Right => self.chrome.docks.right = !self.chrome.docks.right,
            Dock::Bottom => self.chrome.docks.bottom = !self.chrome.docks.bottom,
        }
    }

    /// Gives the focus to the active terminal.
    pub fn focus_active_terminal(&mut self)
        ensures
            final(self)@ == old(self)@.then_do(Effect::Focus(FocusTarget::Terminal)),
    {
        self.effect(Effect::Focus(FocusTarget::Terminal));
    }

    /// Shows the terminal, with the focus, or hides it. In the fleet it shares its place with the
    /// news.
    pub fn toggle_terminal(&mut self)
        ensures
            final(self)@ == old(self)@.terminal_toggled(),
    {
        if self.chrome.surface.fleet_mode {
            if self.chrome.fleet.bottom_view == FleetBottomView::Terminal {
                self.chrome.fleet.bottom_view = FleetBottomView::News;
            } else {
                self.chrome.fleet.bottom_view = FleetBottomView::Terminal;
                self.focus_active_terminal();
            }
            return;
        }
        self.chrome.docks.bottom = !self.chrome.docks.bottom;
        if self.chrome.docks.bottom {
            self.focus_active_terminal();
        }
    }

    /// Closes the active tab. A pinned one stays, and a notice says so.
    pub fn close_active_editor(&mut self)
        ensures
            final(self)@ == old(self)@.active_editor_closed(),
    {
        if self.active_tab < self.tabs.len() && self.tabs[self.active_tab].pinned {
            self.effect(Effect::Toast(Notice::PinnedTabStays));
            return;
        }
        self.close_tab_at(self.active_tab);
    }

    fn dismiss_search(&mut self)
        ensures
            final(self)@ == old(self)@.search_dismissed(),
    {
        self.effect(Effect::DismissBufferSearch);
        self.effect(Effect::CloseHover);
    }

    fn show_active_tab(&mut self)
        ensures
            final(self)@ == old(self)@.tab_shown(),
    {
        if self.active_tab < self.tabs.len() {
            let id: u64 = self.tabs[self.active_tab].id;
            if self.tabs[self.active_tab].has_editor && self.tabs[self.active_tab].renders_html {
                self.effect(Effect::ShowRendered(id));
            } else {
                self.effect(Effect::Focus(FocusTarget::Tab(id)));
            }
        }
    }

    fn forget_tab(&mut self, tab: &EditorTab)
        ensures
            final(self)@ == old(self)@.tab_forgotten(*tab),
    {
        if !tab.transient {
            self.recently_closed.push(tab.path.clone());
            if tab.has_editor {
                self.effect(Effect::LspDidClose(tab.path.clone()));
            }
        }
        if self.has_storage {
            let host = if self.has_active_slot() {
                Some(self.projects[self.active].host_id.clone())
            } else {
                None
            };
            self.effect(Effect::RemoveHotExit { host, path: tab.path.clone() });
        }
    }

    /// Closes the tab at `index`. Its neighbour becomes active where it was active itself; the last
    /// one takes the split with it.
    pub fn close_tab_at(&mut self, index: usize)
        ensures
            final(self)@ == old(self)@.tab_closed(index as int),
    {
        proof {
            reveal(Model::tab_closed);
        }
        if index >= self.tabs.len() {
            return;
        }
        if index == self.active_tab {
            self.dismiss_search();
        }
        let ghost dismissed = self@;
        let tab = self.tabs.remove(index);
        self.forget_tab(&tab);
        if self.tabs.len() == 0 {
            self.active_tab = 0;
            self.split = None;
        } else if index < self.active_tab {
            self.active_tab = self.active_tab - 1;
        } else if index == self.active_tab && self.active_tab > self.tabs.len() - 1 {
            self.active_tab = self.tabs.len() - 1;
        }
        let ghost gone = self@;
        assert(gone == dismissed.tab_forgotten(tab).tab_removed(index as int));
        self.show_active_tab();
        self.select_active_file();
        self.sync_active_slot();
        self.effect(Effect::PushDiagnostics);
        self.effect(Effect::RefreshGitStatus);
        self.effect(Effect::SaveState);
    }

    fn select_active_file(&mut self)
        ensures
            final(self)@ == old(self)@.file_selected(),
    {
        if self.has_active_slot() {
            self.explorer_selected = self.active_tab_path();
        }
    }

    /// Makes the tab at `index` active.
    pub fn select_tab(&mut self, index: usize)
        ensures
            final(self)@ == old(self)@.tab_selected(index as int),
    {
        proof {
            reveal(Model::tab_selected);
        }
        if index >= self.tabs.len() {
            return;
        }
        if index != self.active_tab {
            self.dismiss_search();
        }
        self.active_tab = index;
        self.show_active_tab();
        if self.has_active_slot() {
            self.explorer_selected = Some(self.tabs[index].path.clone());
            self.active_file = index;
        }
        self.effect(Effect::PushDiagnostics);
        self.effect(Effect::SaveState);
    }

    /// The tab at `from` was dragged to `to`.
    pub fn move_tab(&mut self, from: usize, to: usize)
        ensures
            final(self)@ == old(self)@.tab_dragged(from as int, to as int),
    {
        let count = self.tabs.len();
        if from >= count || to >= count || from == to {
            return;
        }
        self.reorder_tab(from, to);
        self.sync_active_slot();
        self.effect(Effect::SaveState);
    }

    /// Splits the area, with the file of the active tab on the right, or closes the split.
    pub fn toggle_split(&mut self)
        ensures
            final(self)@ == if old(self)@.split is Some {
                (Model { split: None, ..old(self)@ }).focus_editor()
            } else if old(self)@.has_active_editor() && old(self)@.has_slot() {
                old(self)@.then_do(Effect::OpenSplit(old(self)@.tab().path))
            } else {
                old(self)@
            },
    {
        if self.split.is_some() {
            self.close_split();
            return;
        }
        if self.active_editor().is_none() {
            return;
        }
        if let Some(path) = self.active_tab_path() {
            if self.has_active_slot() {
                self.effect(Effect::OpenSplit(path));
            }
        }
    }

    /// The file for the right half was read and has an editor.
    pub fn split_opened(&mut self, editor: u64)
        ensures
            final(self)@ == (Model { split: Some(editor), ..old(self)@ }).then_do(
                Effect::Focus(FocusTarget::Split(editor)),
            ),
    {
        self.effect(Effect::Focus(FocusTarget::Split(editor)));
        self.split = Some(editor);
    }

    /// Closes the split; the focus goes back to the active editor.
    pub fn close_split(&mut self)
        ensures
            final(self)@ == if old(self)@.split is Some {
                (Model { split: None, ..old(self)@ }).focus_editor()
            } else {
                old(self)@
            },
    {
        if self.split.is_none() {
            return;
        }
        self.split = None;
        self.focus_active_editor();
    }
}

/// Closing a tab keeps every other tab, in order.
pub proof fn closing_keeps_the_others(m: Model, index: int)
    requires
        0 <= index < m.tabs.len(),
    ensures
        m.tab_closed(index).tabs == m.tabs.remove(index),
{
    reveal(Model::tab_closed);
    reveal(Model::slot_synced);
}

/// After a tab was closed the active tab is still one of the tabs; it is the same tab as before,
/// unless that was the one that was closed.
pub proof fn closing_keeps_the_active_tab(m: Model, index: int)
    requires
        0 <= index < m.tabs.len() <= usize::MAX,
        m.tabs_wf(),
    ensures
        m.tab_closed(index).tabs_wf(),
        index != m.active_tab ==> m.tab_closed(index).tab() == m.tab(),
{
    reveal(Model::tab_closed);
    reveal(Model::slot_synced);
}

/// Closing any tab leaves the pinned tabs at the left end.
pub proof fn closing_keeps_pins_left(m: Model, index: int)
    requires
        0 <= index,
        pins_lead(m.tabs),
    ensures
        pins_lead(m.tab_closed(index).tabs),
{
    reveal(Model::tab_closed);
    reveal(Model::slot_synced);
}

/// The shortcut that closes the active tab never closes a pinned one.
pub proof fn the_shortcut_keeps_pinned_tabs(m: Model)
    requires
        m.tabs_wf(),
        m.tabs.len() > 0,
        m.tab().pinned,
    ensures
        m.active_editor_closed().tabs == m.tabs,
{
}

/// Going to the next tab and back comes back to the same tab.
pub proof fn next_and_back_is_the_same_tab(m: Model)
    requires
        m.tabs_wf(),
        m.tabs.len() <= usize::MAX,
        !m.chrome.surface.rail_active,
    ensures
        m.next_tab_selected().prev_tab_selected().active_tab == m.active_tab,
        m.next_tab_selected().prev_tab_selected().tabs == m.tabs,
{
    reveal(Model::tab_selected);
    let n = m.tabs.len() as int;
    if n > 1 {
        let a = m.active_tab as int;
        if a + 1 < n {
            assert((a + 1) % n == a + 1) by (nonlinear_arith)
                requires
                    0 <= a + 1 < n,
            ;
            assert((a + 1 + n - 1) % n == a) by (nonlinear_arith)
                requires
                    0 <= a < n,
            ;
        } else {
            assert((a + 1) % n == 0) by (nonlinear_arith)
                requires
                    a + 1 == n,
                    n > 1,
            ;
            assert((0 + n - 1) % n == n - 1) by (nonlinear_arith)
                requires
                    n > 1,
            ;
        }
    }
}

/// Toggling a dock twice leaves everything as it was.
pub proof fn toggling_a_dock_twice_changes_nothing(chrome: Chrome, dock: Dock)
    ensures
        chrome.dock_toggled(dock).dock_toggled(dock) == chrome,
{
}

/// A full screen agent panel and the fleet are never shown together after a toggle.
pub proof fn full_screen_and_fleet_exclude_each_other(chrome: Chrome)
    requires
        !(chrome.surface.agent_full_screen && chrome.surface.fleet_mode),
    ensures
        !(chrome.full_screen_toggled().surface.agent_full_screen && chrome.full_screen_toggled().surface.fleet_mode),
{
}

/// While the agent panel fills the window, shortcuts for tabs always go to its threads.
pub proof fn full_screen_takes_the_shortcuts(chrome: Chrome)
    requires
        chrome.surface.agent_full_screen,
        !chrome.surface.fleet_mode,
    ensures
        chrome.agent_surface(),
{
}

/// Once the button is up, no move of the pointer resizes anything.
pub proof fn resizing_ends_with_the_button(chrome: Chrome, x: int, y: int, w: int, limits: DockLimits)
    ensures
        chrome.resized(false, x, y, w, limits) == (Chrome { resizing: chrome.resizing.ended(), ..chrome }),
        !chrome.resizing.ended().any(),
{
}

/// Making any tab active leaves one of the tabs active, that one if there is such a tab.
pub proof fn selecting_makes_a_tab_active(m: Model, index: int)
    requires
        m.tabs_wf(),
        0 <= index,
        m.tabs.len() <= usize::MAX,
    ensures
        m.tab_selected(index).tabs_wf(),
        m.tab_selected(index).tabs == m.tabs,
        index < m.tabs.len() ==> m.tab_selected(index).active_tab == index,
{
    reveal(Model::tab_selected);
}

/// After the active tab was closed, the tab that stood right of it is active, or the last one where
/// it was the last itself; and no tab where none is left.
pub proof fn closing_the_active_tab_shows_its_neighbour(m: Model)
    requires
        m.active_tab < m.tabs.len() <= usize::MAX,
    ensures
        ({
            let i = m.active_tab as int;
            let left = m.tabs.len() - 1;
            let after = m.tab_closed(i);
            &&& after.tabs.len() == left
            &&& left > 0 ==> after.active_tab == (if i < left - 1 { i } else { left - 1 })
            &&& i < left ==> after.tab() == m.tabs[i + 1]
            &&& i == left && left > 0 ==> after.tab() == m.tabs[i - 1]
            &&& left == 0 ==> after.active_tab == 0 && after.split is None
            &&& left > 0 ==> after.split == m.split
            &&& !m.tabs[i].pinned ==> m.active_editor_closed() == after
        }),
{
    reveal(Model::tab_closed);
    reveal(Model::slot_synced);
}

/// A tab that is closed while another one is active leaves that one active: at the same place, or
/// one further left where the closed tab stood before it.
pub proof fn closing_another_tab_leaves_the_active_one(m: Model, index: int)
    requires
        0 <= index < m.tabs.len() <= usize::MAX,
        m.active_tab < m.tabs.len(),
        index != m.active_tab,
    ensures
        m.tab_closed(index).tabs[m.tab_closed(index).active_tab as int] == m.tabs[m.active_tab as int],
        index > m.active_tab ==> m.tab_closed(index).active_tab == m.active_tab,
        index < m.active_tab ==> m.tab_closed(index).active_tab == m.active_tab - 1,
        m.tab_closed(index).split == m.split,
{
    reveal(Model::tab_closed);
    reveal(Model::slot_synced);
}

/// A file whose tab is closed is the first that can be brought back; a tab that is not kept cannot.
pub proof fn a_closed_file_can_be_brought_back(m: Model, index: int)
    requires
        0 <= index < m.tabs.len(),
    ensures
        m.tabs[index].transient ==> m.tab_closed(index).recently_closed == m.recently_closed,
        !m.tabs[index].transient ==> {
            &&& m.tab_closed(index).recently_closed.len() == m.recently_closed.len() + 1
            &&& m.tab_closed(index).recently_closed.last() == m.tabs[index].path
            &&& m.tab_closed(index).recently_closed.drop_last() == m.recently_closed
        },
{
    reveal(Model::tab_closed);
    reveal(Model::slot_synced);
    if !m.tabs[index].transient {
        assert(m.recently_closed.push(m.tabs[index].path).drop_last() =~= m.recently_closed);
    }
}

/// A tab that is closed takes along the unsaved text that was kept of it, on the machine of the shown
/// project, and the server for its language hears of it, where it has a text that is kept.
pub proof fn closing_a_tab_forgets_its_text(m: Model, index: int)
    requires
        0 <= index < m.tabs.len(),
        m.active < m.projects.len(),
    ensures
        ({
            let tab = m.tabs[index];
            let effects = m.tab_closed(index).effects;
            &&& effects.len() >= m.effects.len()
            &&& m.effects == effects.take(m.effects.len() as int)
            &&& m.has_storage ==> effects.skip(m.effects.len() as int).contains(
                Effect::RemoveHotExit { host: Some(m.projects[m.active as int].host_id), path: tab.path },
            )
            &&& tab.has_editor && !tab.transient ==> effects.skip(m.effects.len() as int).contains(
                Effect::LspDidClose(tab.path),
            )
            &&& forall|k: int|
                m.effects.len() <= k < effects.len() && (#[trigger] effects[k] is RemoveHotExit) ==> effects[k]
                    == (Effect::RemoveHotExit { host: Some(m.projects[m.active as int].host_id), path: tab.path })
            &&& forall|k: int|
                m.effects.len() <= k < effects.len() && (#[trigger] effects[k] is LspDidClose) ==> effects[k]
                    == Effect::LspDidClose(tab.path) && tab.has_editor && !tab.transient
            &&& effects.last() is SaveState
        }),
{
    reveal(Model::tab_closed);
    reveal(Model::slot_synced);
    let n = m.effects.len() as int;
    let tab = m.tabs[index];
    let after = m.tab_closed(index).effects;
    let dismissed = if index == m.active_tab { m.search_dismissed() } else { m };
    let gone = dismissed.tab_forgotten(tab);
    assert(m.effects =~= after.take(n));
    if m.has_storage {
        let at = gone.effects.len() - 1;
        assert(after[at] == (Effect::RemoveHotExit { host: Some(m.projects[m.active as int].host_id), path: tab.path }));
        assert(after.skip(n)[at - n] == after[at]);
    }
    if tab.has_editor && !tab.transient {
        let at = dismissed.effects.len() as int;
        assert(after[at] == Effect::LspDidClose(tab.path));
        assert(after.skip(n)[at - n] == after[at]);
    }
}

/// Once a tab was closed, the explorer selects the file that is then active, and its view gets the
/// focus, or its rendered page is shown.
pub proof fn closing_follows_to_the_file_that_is_shown(m: Model, index: int)
    requires
        0 <= index < m.tabs.len() <= usize::MAX,
        m.active_tab < m.tabs.len(),
        m.active < m.projects.len(),
    ensures
        ({
            let after = m.tab_closed(index);
            let shown = after.tabs[after.active_tab as int];
            &&& after.tabs.len() == 0 ==> after.explorer_selected is None
            &&& after.tabs.len() > 0 ==> after.explorer_selected == Some(shown.path)
            &&& after.tabs.len() > 0 ==> after.effects.contains(
                if shown.has_editor && shown.renders_html {
                    Effect::ShowRendered(shown.id)
                } else {
                    Effect::Focus(FocusTarget::Tab(shown.id))
                },
            )
        }),
{
    reveal(Model::tab_closed);
    reveal(Model::slot_synced);
    let dismissed = if index == m.active_tab { m.search_dismissed() } else { m };
    let gone = dismissed.tab_forgotten(m.tabs[index]).tab_removed(index);
    let after = m.tab_closed(index);
    if after.tabs.len() > 0 {
        assert(after.effects[gone.effects.len() as int] == gone.tab_shown().effects.last());
    }
}

/// Making a tab active selects its file in the explorer and gives its view the focus, or shows its
/// rendered page; what was searched in the other tab goes away.
pub proof fn selecting_follows_to_the_file(m: Model, index: int)
    requires
        0 <= index < m.tabs.len() <= usize::MAX,
        m.active < m.projects.len(),
    ensures
        ({
            let after = m.tab_selected(index);
            let tab = m.tabs[index];
            let n = m.effects.len() as int;
            &&& after.explorer_selected == Some(tab.path)
            &&& after.active_file == index
            &&& after.effects.contains(
                if tab.has_editor && tab.renders_html {
                    Effect::ShowRendered(tab.id)
                } else {
                    Effect::Focus(FocusTarget::Tab(tab.id))
                },
            )
            &&& (after.effects[n] is DismissBufferSearch <==> index != m.active_tab)
            &&& after.effects.last() is SaveState
        }),
{
    reveal(Model::tab_selected);
    let after = m.tab_selected(index);
    let at = after.effects.len() - 3;
    let tab = m.tabs[index];
    let wanted = if tab.has_editor && tab.renders_html {
        Effect::ShowRendered(tab.id)
    } else {
        Effect::Focus(FocusTarget::Tab(tab.id))
    };
    assert(after.effects[at] == wanted);
}

/// The next tab is the one to the right, and the first after the last; the one before is the one to
/// the left, and the last before the first.
pub proof fn the_next_tab_is_to_the_right(m: Model)
    requires
        m.active_tab < m.tabs.len() <= usize::MAX,
        !m.chrome.surface.rail_active,
    ensures
        ({
            let i = m.active_tab as int;
            let n = m.tabs.len() as int;
            &&& m.next_tab_selected().tabs == m.tabs && m.prev_tab_selected().tabs == m.tabs
            &&& i + 1 < n ==> m.next_tab_selected().active_tab == i + 1
            &&& i + 1 == n ==> m.next_tab_selected().active_tab == 0
            &&& i > 0 ==> m.prev_tab_selected().active_tab == i - 1
            &&& i == 0 ==> m.prev_tab_selected().active_tab == n - 1
        }),
{
    reveal(Model::tab_selected);
    let n = m.tabs.len() as int;
    let i = m.active_tab as int;
    if n > 1 {
        if i + 1 < n {
            assert((i + 1) % n == i + 1) by (nonlinear_arith)
                requires
                    0 <= i + 1 < n,
            ;
        } else {
            assert((i + 1) % n == 0) by (nonlinear_arith)
                requires
                    i + 1 == n,
                    n > 1,
            ;
        }
        if i > 0 {
            assert((i + n - 1) % n == i - 1) by (nonlinear_arith)
                requires
                    0 < i < n,
            ;
        } else {
            assert((0 + n - 1) % n == n - 1) by (nonlinear_arith)
                requires
                    n > 1,
            ;
        }
    }
}

/// A tab that is dragged stands where it was dropped, the others keep their order, and the tab that
/// was active still is.
pub proof fn dragging_moves_one_tab(m: Model, from: int, to: int)
    requires
        0 <= from < m.tabs.len() <= usize::MAX,
        0 <= to < m.tabs.len(),
        m.active_tab < m.tabs.len(),
    ensures
        ({
            let after = m.tab_dragged(from, to);
            &&& after.tabs.len() == m.tabs.len()
            &&& after.tabs[to] == m.tabs[from]
            &&& after.tabs.remove(to) == m.tabs.remove(from)
            &&& after.active_tab < after.tabs.len()
            &&& after.tabs[after.active_tab as int] == m.tabs[m.active_tab as int]
            &&& from == m.active_tab ==> after.active_tab == to
        }),
{
    reveal(Model::slot_synced);
    let after = m.tab_dragged(from, to);
    assert(after.tabs.remove(to) =~= m.tabs.remove(from));
}

/// A dock stays within its limits while it is resized; within them its edge goes as far as the
/// pointer: the left edge of the agent dock, the right edge of the left dock, the upper edge of the
/// bottom dock.
pub proof fn the_edge_follows_the_pointer(
    chrome: Chrome,
    x: int,
    y: int,
    w: int,
    limits: DockLimits,
)
    requires
        limits.valid(),
        w <= i64::MAX,
    ensures
        ({
            let r = chrome.resizing;
            let after = chrome.resized(true, x, y, w, limits).sizes;
            let room = if w > 0 { w - limits.reserved } else { limits.agent_max as int };
            let most = if room < limits.agent_min { limits.agent_min as int } else { room };
            &&& r.agent ==> {
                &&& limits.agent_min <= after.agent_width <= most
                &&& after.agent_width > limits.agent_min ==> after.agent_width <= r.start_width + r.start_x - x
                &&& after.agent_width < most ==> after.agent_width >= r.start_width + r.start_x - x
                &&& after.explorer_width == chrome.sizes.explorer_width
                &&& after.bottom_height == chrome.sizes.bottom_height
            }
            &&& !r.agent && r.explorer ==> {
                &&& limits.explorer_min <= after.explorer_width <= limits.explorer_max
                &&& after.explorer_width > limits.explorer_min ==> after.explorer_width <= r.start_width + x - r.start_x
                &&& after.explorer_width < limits.explorer_max ==> after.explorer_width >= r.start_width + x - r.start_x
                &&& after.agent_width == chrome.sizes.agent_width
                &&& after.bottom_height == chrome.sizes.bottom_height
            }
            &&& !r.agent && !r.explorer && r.bottom ==> {
                &&& limits.bottom_min <= after.bottom_height <= limits.bottom_max
                &&& after.bottom_height > limits.bottom_min ==> after.bottom_height <= r.start_height + r.start_y - y
                &&& after.bottom_height < limits.bottom_max ==> after.bottom_height >= r.start_height + r.start_y - y
                &&& after.agent_width == chrome.sizes.agent_width
                &&& after.explorer_width == chrome.sizes.explorer_width
            }
            &&& !r.agent && !r.explorer && !r.bottom ==> after == chrome.sizes
            &&& chrome.resized(true, x, y, w, limits).resizing == r
        }),
{
}

/// Letting the agent panel fill the window shows its dock, gives its threads the shortcuts and takes
/// the fleet away; letting it go again shows what was there, but for the fleet.
pub proof fn full_screen_comes_and_goes(chrome: Chrome)
    ensures
        ({
            let once = chrome.full_screen_toggled();
            let twice = once.full_screen_toggled();
            &&& once.surface.agent_full_screen != chrome.surface.agent_full_screen
            &&& twice.surface.agent_full_screen == chrome.surface.agent_full_screen
            &&& once.surface.agent_full_screen ==> !once.surface.fleet_mode
            &&& !once.surface.agent_full_screen ==> once.surface.fleet_mode == chrome.surface.fleet_mode
            &&& once.docks.right && once.agent_surface()
            &&& once.docks.left == chrome.docks.left && once.docks.bottom == chrome.docks.bottom
            &&& once.sizes == chrome.sizes
        }),
{
}

/// Toggling the terminal shows it with the focus, or hides it, in the place where it is: the bottom
/// dock, or beside the news of the fleet; twice, what is shown is as it was.
pub proof fn the_terminal_comes_and_goes(m: Model)
    ensures
        ({
            let once = m.terminal_toggled();
            let twice = once.terminal_toggled();
            let shown = if m.chrome.surface.fleet_mode {
                once.chrome.fleet.bottom_view == FleetBottomView::Terminal
            } else {
                once.chrome.docks.bottom
            };
            &&& twice.chrome == m.chrome
            &&& once.chrome != m.chrome
            &&& !m.chrome.surface.fleet_mode ==> once.chrome.fleet == m.chrome.fleet
            &&& m.chrome.surface.fleet_mode ==> once.chrome.docks == m.chrome.docks
            &&& shown ==> once.effects == m.effects.push(Effect::Focus(FocusTarget::Terminal))
            &&& !shown ==> once.effects == m.effects
        }),
{
}

/// A dock that is toggled is shown where it was hidden and hidden where it was shown, and no other is
/// touched.
pub proof fn a_toggle_is_for_one_dock(chrome: Chrome, dock: Dock)
    ensures
        ({
            let after = chrome.dock_toggled(dock).docks;
            &&& (after.left != chrome.docks.left <==> dock == Dock::Left)
            &&& (after.right != chrome.docks.right <==> dock == Dock::Right)
            &&& (after.bottom != chrome.docks.bottom <==> dock == Dock::Bottom)
            &&& after.herd == chrome.docks.herd
        }),
{
}

/// Shortcuts for tabs go to the threads while their panel fills the window or was touched last, and
/// only while it is in sight.
pub proof fn shortcuts_go_to_threads_in_sight(chrome: Chrome)
    ensures
        chrome.agent_surface() ==> chrome.docks.right || chrome.surface.agent_full_screen,
        chrome.docks.right && chrome.surface.agent_active ==> chrome.agent_surface(),
        !chrome.surface.agent_active && (chrome.surface.fleet_mode || !chrome.surface.agent_full_screen)
            ==> !chrome.agent_surface(),
{
}

/// Showing the agent dock shows it, and changes nothing else of the window.
pub proof fn showing_the_agent_dock_shows_it_alone(chrome: Chrome)
    ensures
        chrome.agent_dock_shown().docks.right,
        chrome.agent_dock_shown().docks.left == chrome.docks.left && chrome.agent_dock_shown().docks.bottom
            == chrome.docks.bottom,
        chrome.agent_dock_shown().surface == chrome.surface && chrome.agent_dock_shown().sizes == chrome.sizes,
{
}

} // verus!
