//! Saving by itself: when the focus leaves a text, and when typing pauses.
//!
//! Never saved this way: texts without a file, read-only ones, transient tabs, and files that have
//! changed on disk. A pause does not save the settings files either, which are read again as soon
//! as they are written.

use vstd::prelude::*;
use crate::paths::{components, components_of, lies_in, path_lies_in};
use crate::seqs::{
    filter_comes_from, filter_holds, filter_none, filter_step, first_index, first_index_is,
    first_index_none,
};
use crate::text::holds_text;
use crate::workspace::{Effect, EditorTab, Model, Workspace};

verus! {

/// How long typing has to pause before it counts as a pause, in milliseconds.
pub const AUTO_SAVE_DELAY: u64 = 1000;

/// The setting.
#[derive(Clone, Copy, PartialEq, Eq, Structural, Debug)]
pub enum AutoSave {
    Off,
    OnFocusChange,
    AfterDelay,
}

/// What happened.
#[derive(Clone, Copy, PartialEq, Eq, Structural, Debug)]
pub enum AutoSaveTrigger {
    /// The focus left the text, or the window.
    FocusChange,
    /// Typing paused.
    Pause,
}

pub open spec fn applies(mode: AutoSave, trigger: AutoSaveTrigger) -> bool {
    match mode {
        AutoSave::Off => false,
        AutoSave::OnFocusChange => trigger == AutoSaveTrigger::FocusChange,
        AutoSave::AfterDelay => true,
    }
}

/// Whether texts are saved with this setting when this happens.
pub fn auto_save_applies(mode: AutoSave, trigger: AutoSaveTrigger) -> (b: bool)
    ensures
        b == applies(mode, trigger),
{
    match mode {
        AutoSave::Off => false,
        AutoSave::OnFocusChange => trigger == AutoSaveTrigger::FocusChange,
        AutoSave::AfterDelay => true,
    }
}

/// A pause may save the file: it is neither in the folder of the settings nor in a project's own.
pub open spec fn pause_saves(path: Seq<char>, config_dir: Option<String>) -> bool {
    &&& !(config_dir matches Some(dir) && lies_in(path, dir@))
    &&& !components(path).contains(".necoder"@)
}

/// Whether a pause may save a file.
pub fn saves_on_pause(path: &str, config_dir: &Option<String>) -> (b: bool)
    ensures
        b == pause_saves(path@, *config_dir),
{
    let in_config_dir = match config_dir {
        Some(dir) => path_lies_in(path, dir.as_str()),
        None => false,
    };
    let in_project_config = holds_text(&components_of(path), ".necoder");
    !in_config_dir && !in_project_config
}

impl EditorTab {
    pub open spec fn auto_saved(self, trigger: AutoSaveTrigger, config_dir: Option<String>) -> bool {
        &&& !self.transient
        &&& self.has_editor
        &&& self.has_file
        &&& self.dirty
        &&& !self.read_only
        &&& !self.externally_changed
        &&& trigger == AutoSaveTrigger::FocusChange || pause_saves(self.path@, config_dir)
    }

    /// Whether the tab is one to save when this happens.
    pub fn wants_auto_save(&self, trigger: AutoSaveTrigger, config_dir: &Option<String>) -> (b: bool)
        ensures
            b == self.auto_saved(trigger, *config_dir),
    {
        if self.transient || !self.has_editor || !self.has_file {
            return false;
        }
        self.dirty && !self.read_only && !self.externally_changed && (trigger
            == AutoSaveTrigger::FocusChange || saves_on_pause(self.path.as_str(), config_dir))
    }
}

/// The tab is one to save.
pub open spec fn to_save(trigger: AutoSaveTrigger, config_dir: Option<String>) -> spec_fn(EditorTab) -> bool {
    |tab: EditorTab| tab.auto_saved(trigger, config_dir)
}

/// The effect that saves a tab.
pub open spec fn saving() -> spec_fn(EditorTab) -> Effect {
    |tab: EditorTab| Effect::SaveTab(tab.id)
}

/// The tab shows this editor.
pub open spec fn with_editor(editor: u64) -> spec_fn(EditorTab) -> bool {
    |tab: EditorTab| tab.has_editor && tab.id == editor
}

impl Model {
    /// The tabs of the project at `index` on the rail.
    pub open spec fn tabs_of(self, index: int) -> Seq<EditorTab> {
        if index == self.active && !self.chrome.surface.chat_mode {
            self.tabs
        } else {
            self.sessions[index].tabs@
        }
    }

    /// The tabs of the first `n` projects on the rail.
    pub open spec fn tabs_before(self, n: int) -> Seq<EditorTab>
        decreases n,
    {
        if n <= 0 {
            Seq::empty()
        } else {
            self.tabs_before(n - 1) + self.tabs_of(n - 1)
        }
    }

    /// The tabs of every project on the rail, then those of the chat.
    pub open spec fn all_tabs(self) -> Seq<EditorTab> {
        self.tabs_before(self.sessions.len() as int) + if self.chrome.surface.chat_mode {
            self.tabs
        } else {
            self.chat_tabs
        }
    }

    /// Every tab that is one to save is saved, where the setting says so.
    pub open spec fn all_saved(self, mode: AutoSave, trigger: AutoSaveTrigger, config_dir: Option<String>) -> Model {
        if applies(mode, trigger) {
            Model {
                effects: self.effects + self.all_tabs().filter(to_save(trigger, config_dir)).map_values(saving()),
                ..self
            }
        } else {
            self
        }
    }

    /// The tab with this editor is saved, where the setting says so and it is one to save.
    pub open spec fn blurred_saved(self, editor: u64, mode: AutoSave, config_dir: Option<String>) -> Model {
        let found = first_index(self.all_tabs(), with_editor(editor));
        if applies(mode, AutoSaveTrigger::FocusChange) && (found matches Some(i)
            && self.all_tabs()[i].auto_saved(AutoSaveTrigger::FocusChange, config_dir)) {
            self.then_do(Effect::SaveTab(editor))
        } else {
            self
        }
    }
}

fn extend_refs<'a>(out: &mut Vec<&'a EditorTab>, tabs: &'a Vec<EditorTab>)
    ensures
        final(out)@.len() == old(out)@.len() + tabs@.len(),
        forall|i: int| 0 <= i < old(out)@.len() ==> #[trigger] final(out)@[i] == old(out)@[i],
        forall|i: int|
            old(out)@.len() <= i < final(out)@.len() ==> *(#[trigger] final(out)@[i]) == tabs@[i - old(out)@.len()],
{
    let mut i: usize = 0;
    while i < tabs.len()
        invariant
            i <= tabs@.len(),
            out@.len() == old(out)@.len() + i,
            forall|k: int| 0 <= k < old(out)@.len() ==> #[trigger] out@[k] == old(out)@[k],
            forall|k: int|
                old(out)@.len() <= k < out@.len() ==> *(#[trigger] out@[k]) == tabs@[k - old(out)@.len()],
        decreases tabs@.len() - i,
    {
        out.push(&tabs[i]);
        i = i + 1;
    }
}

impl Workspace {
    /// The tabs of every project on the rail, then those of the chat.
    pub fn all_editor_tabs(&self) -> (tabs: Vec<&EditorTab>)
        ensures
            tabs@.len() == self@.all_tabs().len(),
            forall|i: int| 0 <= i < tabs@.len() ==> *(#[trigger] tabs@[i]) == self@.all_tabs()[i],
    {
        let mut out: Vec<&EditorTab> = Vec::new();
        let mut i: usize = 0;
        while i < self.sessions.len()
            invariant
                i <= self.sessions@.len(),
                out@.len() == self@.tabs_before(i as int).len(),
                forall|k: int| 0 <= k < out@.len() ==> *(#[trigger] out@[k]) == self@.tabs_before(i as int)[k],
            decreases self.sessions@.len() - i,
        {
            if i == self.active && !self.chrome.surface.chat_mode {
                extend_refs(&mut out, &self.tabs);
            } else {
                extend_refs(&mut out, &self.sessions[i].tabs);
            }
            assert(self@.tabs_before(i + 1) == self@.tabs_before(i as int) + self@.tabs_of(i as int));
            i = i + 1;
        }
        if self.chrome.surface.chat_mode {
            extend_refs(&mut out, &self.tabs);
        } else {
            extend_refs(&mut out, &self.chat_tabs);
        }
        out
    }

    /// A text was edited: asks to be called again after a pause.
    pub fn schedule_auto_save(&mut self, mode: AutoSave)
        ensures
            final(self)@ == if applies(mode, AutoSaveTrigger::Pause) {
                let next = next_generation(old(self)@.auto_save_generation);
                (Model { auto_save_generation: next, ..old(self)@ }).then_do(Effect::WaitToAutoSave(next))
            } else {
                old(self)@
            },
    {
        if !auto_save_applies(mode, AutoSaveTrigger::Pause) {
            return;
        }
        self.auto_save_generation = self.auto_save_generation.wrapping_add(1);
        let generation: u64 = self.auto_save_generation;
        self.effect(Effect::WaitToAutoSave(generation));
    }

    /// The pause that was asked for as `generation` is over: saves, unless there was an edit since.
    pub fn auto_save_due(&mut self, generation: u64, mode: AutoSave, config_dir: &Option<String>)
        ensures
            final(self)@ == if old(self)@.auto_save_generation == generation {
                old(self)@.all_saved(mode, AutoSaveTrigger::Pause, *config_dir)
            } else {
                old(self)@
            },
    {
        if self.auto_save_generation == generation {
            self.auto_save_all(AutoSaveTrigger::Pause, mode, config_dir);
        }
    }

    /// Asks to be told when the focus leaves an editor.
    pub fn auto_save_on_blur(&mut self, editor: u64)
        ensures
            final(self)@ == old(self)@.then_do(Effect::WatchBlur(editor)),
    {
        self.effect(Effect::WatchBlur(editor));
    }

    /// Whether the first tab with this editor is one to save when the focus leaves it.
    fn editor_wants_save(&self, editor: u64, config_dir: &Option<String>) -> (wants: bool)
        ensures
            wants == (first_index(self@.all_tabs(), with_editor(editor)) matches Some(i)
                && self@.all_tabs()[i].auto_saved(AutoSaveTrigger::FocusChange, *config_dir)),
    {
        let ghost all = self@.all_tabs();
        let ghost wanted = with_editor(editor);
        let tabs = self.all_editor_tabs();
        let mut i: usize = 0;
        while i < tabs.len()
            invariant
                i <= tabs@.len(),
                all == self@.all_tabs(),
                tabs@.len() == all.len(),
                forall|k: int| 0 <= k < tabs@.len() ==> *(#[trigger] tabs@[k]) == all[k],
                wanted == with_editor(editor),
                forall|j: int| 0 <= j < i ==> !wanted(#[trigger] all[j]),
            decreases tabs@.len() - i,
        {
            let tab: &EditorTab = tabs[i];
            assert(*tab == all[i as int]);
            if tab.has_editor && tab.id == editor {
                proof {
                    first_index_is(all, wanted, i as int);
                }
                return tab.wants_auto_save(AutoSaveTrigger::FocusChange, config_dir);
            }
            i = i + 1;
        }
        proof {
            first_index_none(all, wanted);
        }
        false
    }

    /// The focus left an editor.
    pub fn auto_save_blurred(&mut self, editor: u64, mode: AutoSave, config_dir: &Option<String>)
        ensures
            final(self)@ == old(self)@.blurred_saved(editor, mode, *config_dir),
    {
        if !auto_save_applies(mode, AutoSaveTrigger::FocusChange) {
            return;
        }
        if self.editor_wants_save(editor, config_dir) {
            self.effect(Effect::SaveTab(editor));
        }
    }

    /// The window lost the focus.
    pub fn auto_save_window_left(&mut self, mode: AutoSave, config_dir: &Option<String>)
        ensures
            final(self)@ == old(self)@.all_saved(mode, AutoSaveTrigger::FocusChange, *config_dir),
    {
        self.auto_save_all(AutoSaveTrigger::FocusChange, mode, config_dir);
    }

    /// Saves every tab of the window that is one to save.
    pub fn auto_save_all(&mut self, trigger: AutoSaveTrigger, mode: AutoSave, config_dir: &Option<String>)
        ensures
            final(self)@ == old(self)@.all_saved(mode, trigger, *config_dir),
    {
        if !auto_save_applies(mode, trigger) {
            return;
        }
        let ghost all = self@.all_tabs();
        let ghost keep = to_save(trigger, *config_dir);
        let mut saves: Vec<Effect> = Vec::new();
        {
            let tabs = self.all_editor_tabs();
            let mut i: usize = 0;
            proof {
                filter_none(all, keep);
                assert(saves@ =~= all.take(0).filter(keep).map_values(saving()));
            }
            while i < tabs.len()
                invariant
                    i <= tabs@.len(),
                    tabs@.len() == all.len(),
                    forall|k: int| 0 <= k < tabs@.len() ==> *(#[trigger] tabs@[k]) == all[k],
                    keep == to_save(trigger, *config_dir),
                    saves@ == all.take(i as int).filter(keep).map_values(saving()),
                decreases tabs@.len() - i,
            {
                let ghost before = all.take(i as int).filter(keep);
                proof {
                    filter_step(all, i as int, keep);
                }
                let tab: &EditorTab = tabs[i];
                assert(*tab == all[i as int]);
                if tab.wants_auto_save(trigger, config_dir) {
                    saves.push(Effect::SaveTab(tab.id));
                    assert(saves@ =~= before.push(all[i as int]).map_values(saving()));
                }
                i = i + 1;
            }
            assert(all.take(all.len() as int) =~= all);
        }
        self.effects.append(&mut saves);
    }
}

/// The generation after this one.
pub open spec fn next_generation(generation: u64) -> u64 {
    if generation == u64::MAX {
        0
    } else {
        (generation + 1) as u64
    }
}

/// With the setting off nothing is ever saved.
pub proof fn off_never_saves(m: Model, trigger: AutoSaveTrigger, config_dir: Option<String>, editor: u64)
    ensures
        m.all_saved(AutoSave::Off, trigger, config_dir) == m,
        m.blurred_saved(editor, AutoSave::Off, config_dir) == m,
{
}

/// Whatever happens, a tab is only saved if it has unsaved edits in a file that may be written and
/// has not changed on disk.
pub proof fn only_safe_tabs_are_saved(m: Model, mode: AutoSave, trigger: AutoSaveTrigger, config_dir: Option<String>, i: int)
    requires
        m.effects.len() <= i < m.all_saved(mode, trigger, config_dir).effects.len(),
    ensures
        exists|k: int|
            0 <= k < m.all_tabs().len() && m.all_saved(mode, trigger, config_dir).effects[i] == Effect::SaveTab(
                (#[trigger] m.all_tabs()[k]).id,
            ) && m.all_tabs()[k].dirty && !m.all_tabs()[k].read_only && !m.all_tabs()[k].externally_changed
                && !m.all_tabs()[k].transient,
{
    let all = m.all_tabs();
    let keep = to_save(trigger, config_dir);
    filter_holds(all, keep);
    let at = i - m.effects.len();
    filter_comes_from(all, keep, at);
    let k = choose|k: int| 0 <= k < all.len() && #[trigger] all[k] == all.filter(keep)[at];
    assert(keep(all.filter(keep)[at]));
    assert(all[k].auto_saved(trigger, config_dir));
}

/// Of several edits in a row only the last one's pause saves.
pub proof fn only_the_last_pause_saves(generation: u64)
    ensures
        next_generation(generation) != generation,
{
}

/// A setting that saves after a pause saves when the focus leaves too; one that saves when the focus
/// leaves need not save after a pause; and only the setting `Off` never saves.
pub proof fn pausing_saves_less_than_leaving(mode: AutoSave)
    ensures
        applies(mode, AutoSaveTrigger::Pause) ==> applies(mode, AutoSaveTrigger::FocusChange),
        applies(mode, AutoSaveTrigger::FocusChange) <==> mode != AutoSave::Off,
        applies(mode, AutoSaveTrigger::Pause) <==> mode == AutoSave::AfterDelay,
{
}

/// A tab is saved by itself exactly if it is an editor's, of a file that can be written, with unsaved
/// edits, and the file has not changed on disk; after a pause, not if it is one of the settings.
pub proof fn settings_wait_for_the_focus_to_leave(tab: EditorTab, config_dir: Option<String>)
    ensures
        ({
            let safe = tab.has_editor && tab.has_file && tab.dirty && !tab.read_only && !tab.transient
                && !tab.externally_changed;
            let settings = (config_dir is Some && lies_in(tab.path@, config_dir->0@)) || components(
                tab.path@,
            ).contains(".necoder"@);
            &&& tab.auto_saved(AutoSaveTrigger::FocusChange, config_dir) <==> safe
            &&& tab.auto_saved(AutoSaveTrigger::Pause, config_dir) <==> safe && !settings
        }),
{
}

proof fn tabs_before_hold(m: Model, n: int, p: int, k: int)
    requires
        0 <= p < n,
        0 <= k < m.tabs_of(p).len(),
    ensures
        m.tabs_before(n).contains(m.tabs_of(p)[k]),
    decreases n,
{
    let before = m.tabs_before(n - 1);
    let now = m.tabs_before(n);
    if p == n - 1 {
        assert(now[before.len() + k] == m.tabs_of(p)[k]);
    } else {
        tabs_before_hold(m, n - 1, p, k);
        let i = choose|i: int| 0 <= i < before.len() && before[i] == m.tabs_of(p)[k];
        assert(now[i] == m.tabs_of(p)[k]);
    }
}

/// Every tab that the window has is among all tabs: those that are shown, those of each project that is
/// not shown, and those of the chat.
pub proof fn all_tabs_are_there(m: Model, p: int, k: int)
    requires
        m.active < m.sessions.len(),
    ensures
        0 <= k < m.tabs.len() ==> m.all_tabs().contains(m.tabs[k]),
        0 <= p < m.sessions.len() && (p != m.active || m.chrome.surface.chat_mode) && 0 <= k
            < m.sessions[p].tabs@.len() ==> m.all_tabs().contains(m.sessions[p].tabs@[k]),
        !m.chrome.surface.chat_mode && 0 <= k < m.chat_tabs.len() ==> m.all_tabs().contains(m.chat_tabs[k]),
{
    let n = m.sessions.len() as int;
    let front = m.tabs_before(n);
    let all = m.all_tabs();
    let chat = m.chrome.surface.chat_mode;
    if 0 <= k < m.tabs.len() {
        if chat {
            assert(all[front.len() + k] == m.tabs[k]);
        } else {
            tabs_before_hold(m, n, m.active as int, k);
            let i = choose|i: int| 0 <= i < front.len() && front[i] == m.tabs[k];
            assert(all[i] == m.tabs[k]);
        }
    }
    if 0 <= p < n && (p != m.active || chat) && 0 <= k < m.sessions[p].tabs@.len() {
        tabs_before_hold(m, n, p, k);
        let i = choose|i: int| 0 <= i < front.len() && front[i] == m.sessions[p].tabs@[k];
        assert(all[i] == m.sessions[p].tabs@[k]);
    }
    if !chat && 0 <= k < m.chat_tabs.len() {
        assert(all[front.len() + k] == m.chat_tabs[k]);
    }
}

/// Every tab of the window that is one to save is saved, where the setting says so, and every effect that
/// is added saves such a tab.
pub proof fn every_tab_to_save_is_saved(
    m: Model,
    mode: AutoSave,
    trigger: AutoSaveTrigger,
    config_dir: Option<String>,
    tab: EditorTab,
)
    requires
        m.all_tabs().contains(tab),
        tab.auto_saved(trigger, config_dir),
        mode == AutoSave::AfterDelay || (mode == AutoSave::OnFocusChange && trigger == AutoSaveTrigger::FocusChange),
    ensures
        m.all_saved(mode, trigger, config_dir).effects.skip(m.effects.len() as int).contains(
            Effect::SaveTab(tab.id),
        ),
        m.all_saved(mode, trigger, config_dir).effects.take(m.effects.len() as int) == m.effects,
        m.all_saved(mode, trigger, config_dir).tabs == m.tabs,
{
    let all = m.all_tabs();
    let keep = to_save(trigger, config_dir);
    let kept = all.filter(keep);
    let k = choose|k: int| 0 <= k < all.len() && all[k] == tab;
    crate::seqs::filter_keeps(all, keep, k);
    let i = choose|i: int| 0 <= i < kept.len() && kept[i] == tab;
    let after = m.all_saved(mode, trigger, config_dir).effects;
    let saves = kept.map_values(saving());
    assert(after == m.effects + saves);
    assert(after.skip(m.effects.len() as int) =~= saves);
    assert(after.take(m.effects.len() as int) =~= m.effects);
    assert(saves[i] == Effect::SaveTab(tab.id));
}

/// When the focus leaves an editor, that one is saved and no other; not with the setting off, and not
/// where its tab is none to save.
pub proof fn leaving_an_editor_saves_it_alone(m: Model, editor: u64, mode: AutoSave, config_dir: Option<String>, k: int)
    requires
        0 <= k < m.all_tabs().len(),
        m.all_tabs()[k].has_editor && m.all_tabs()[k].id == editor,
        forall|j: int|
            0 <= j < m.all_tabs().len() && j != k && (#[trigger] m.all_tabs()[j]).has_editor ==> m.all_tabs()[j].id
                != editor,
    ensures
        mode != AutoSave::Off && m.all_tabs()[k].auto_saved(AutoSaveTrigger::FocusChange, config_dir)
            ==> m.blurred_saved(editor, mode, config_dir).effects == m.effects.push(Effect::SaveTab(editor)),
        mode == AutoSave::Off || !m.all_tabs()[k].auto_saved(AutoSaveTrigger::FocusChange, config_dir)
            ==> m.blurred_saved(editor, mode, config_dir) == m,
{
    assert forall|j: int| 0 <= j < k implies !with_editor(editor)(#[trigger] m.all_tabs()[j]) by {}
    first_index_is(m.all_tabs(), with_editor(editor), k);
}

/// Generations count up by one, and begin anew after the last: no two have the same successor.
pub proof fn generations_count_up(a: u64, b: u64)
    ensures
        a < u64::MAX ==> next_generation(a) == a + 1,
        next_generation(u64::MAX) == 0,
        next_generation(a) == next_generation(b) ==> a == b,
{
}

proof fn tabs_before_are_of_projects(m: Model, n: int, i: int)
    requires
        0 <= n <= m.sessions.len(),
        0 <= i < m.tabs_before(n).len(),
    ensures
        exists|p: int| 0 <= p < n && #[trigger] m.tabs_of(p).contains(m.tabs_before(n)[i]),
    decreases n,
{
    let before = m.tabs_before(n - 1);
    if i < before.len() {
        tabs_before_are_of_projects(m, n - 1, i);
        let p = choose|p: int| 0 <= p < n - 1 && #[trigger] m.tabs_of(p).contains(before[i]);
        assert(m.tabs_before(n)[i] == before[i]);
        assert(m.tabs_of(p).contains(m.tabs_before(n)[i]));
    } else {
        assert(m.tabs_of(n - 1)[i - before.len()] == m.tabs_before(n)[i]);
        assert(m.tabs_of(n - 1).contains(m.tabs_before(n)[i]));
    }
}

/// No other tab is among all tabs: neither those that the shown project had before it was shown, nor those
/// that the chat had before it was.
pub proof fn all_tabs_are_of_the_window(m: Model, tab: EditorTab)
    requires
        m.all_tabs().contains(tab),
    ensures
        m.tabs.contains(tab) || (!m.chrome.surface.chat_mode && m.chat_tabs.contains(tab)) || exists|p: int|
            0 <= p < m.sessions.len() && (p != m.active || m.chrome.surface.chat_mode)
                && #[trigger] m.sessions[p].tabs@.contains(tab),
{
    let all = m.all_tabs();
    let n = m.sessions.len() as int;
    let front = m.tabs_before(n);
    let i = choose|i: int| 0 <= i < all.len() && all[i] == tab;
    if i < front.len() {
        tabs_before_are_of_projects(m, n, i);
        let p = choose|p: int| 0 <= p < n && #[trigger] m.tabs_of(p).contains(front[i]);
        if p != m.active || m.chrome.surface.chat_mode {
            assert(m.sessions[p].tabs@.contains(tab));
        }
    } else if m.chrome.surface.chat_mode {
        assert(m.tabs[i - front.len()] == tab);
    } else {
        assert(m.chat_tabs[i - front.len()] == tab);
    }
}

} // verus!
