//! Pinned tabs stand together at the left end of the tabs.
//!
//! A pinned tab outlives every way of closing tabs in bulk, and the shortcut that closes the
//! active tab. The window keeps which files are pinned. Transient tabs are never pinned.

use vstd::prelude::*;
use crate::paths::{is_same_path, list_names_path, names_path, same_path};
use crate::preview_tabs::shows;
use crate::seqs::{
    filter_holds, filter_none, filter_step, first_index, first_index_holds, first_index_is, first_index_none, moved, moved_index,
    moving_keeps_items,
};
use crate::text::texts;
use crate::workspace::{Effect, EditorTab, Model, Workspace};

verus! {

/// How many tabs from the left are pinned without a gap.
pub open spec fn leading_pins(tabs: Seq<EditorTab>) -> int
    decreases tabs.len(),
{
    if tabs.len() == 0 || !tabs[0].pinned {
        0
    } else {
        1 + leading_pins(tabs.drop_first())
    }
}

/// No pinned tab stands to the right of one that is not pinned.
pub open spec fn pins_lead(tabs: Seq<EditorTab>) -> bool {
    forall|i: int, j: int| 0 <= i < j < tabs.len() && tabs[j].pinned ==> tabs[i].pinned
}

/// The paths of the pinned tabs, from the left.
pub open spec fn pinned_paths(tabs: Seq<EditorTab>) -> Seq<String> {
    tabs.filter(|tab: EditorTab| tab.pinned).map_values(|tab: EditorTab| tab.path)
}

pub proof fn leading_pins_bounds(tabs: Seq<EditorTab>)
    ensures
        0 <= leading_pins(tabs) <= tabs.len(),
        forall|i: int| 0 <= i < leading_pins(tabs) ==> (#[trigger] tabs[i]).pinned,
        leading_pins(tabs) < tabs.len() ==> !tabs[leading_pins(tabs)].pinned,
    decreases tabs.len(),
{
    if tabs.len() > 0 && tabs[0].pinned {
        let rest = tabs.drop_first();
        leading_pins_bounds(rest);
        assert forall|i: int| 0 <= i < leading_pins(tabs) implies (#[trigger] tabs[i]).pinned by {
            if i > 0 {
                assert(rest[i - 1].pinned);
            }
        }
    }
}

proof fn leading_pins_is(tabs: Seq<EditorTab>, n: int)
    requires
        0 <= n <= tabs.len(),
        forall|i: int| 0 <= i < n ==> (#[trigger] tabs[i]).pinned,
        n < tabs.len() ==> !tabs[n].pinned,
    ensures
        leading_pins(tabs) == n,
{
    leading_pins_bounds(tabs);
    if leading_pins(tabs) < n {
        assert(tabs[leading_pins(tabs)].pinned);
    }
    if n < leading_pins(tabs) {
        assert(tabs[n].pinned);
    }
}

/// Where pinned tabs lead, the pinned ones are exactly the first `leading_pins`.
pub proof fn pins_lead_means_prefix(tabs: Seq<EditorTab>)
    ensures
        pins_lead(tabs) <==> forall|i: int|
            0 <= i < tabs.len() ==> ((#[trigger] tabs[i]).pinned <==> i < leading_pins(tabs)),
{
    leading_pins_bounds(tabs);
    let n = leading_pins(tabs);
    if pins_lead(tabs) {
        assert forall|i: int| 0 <= i < tabs.len() implies ((#[trigger] tabs[i]).pinned <==> i < n) by {
            if i >= n && tabs[i].pinned {
                assert(!tabs[n].pinned);
                assert(tabs[n].pinned);
            }
        }
    }
}

/// A tab with its pin put on or taken off; a pinned tab is no preview.
pub open spec fn with_pin(tab: EditorTab, pin: bool) -> EditorTab {
    EditorTab { pinned: pin, preview: tab.preview && !pin, ..tab }
}

/// A tab as it is restored: pinned if its path is in the list.
pub open spec fn restored(tab: EditorTab, pinned: Seq<Seq<char>>) -> EditorTab {
    EditorTab { pinned: !tab.transient && names_path(pinned, tab.path@), ..tab }
}

/// The tabs with the pinned ones in front, each group in its own order.
pub open spec fn parted(tabs: Seq<EditorTab>) -> Seq<EditorTab> {
    tabs.filter(|tab: EditorTab| tab.pinned) + tabs.filter(|tab: EditorTab| !tab.pinned)
}

impl Model {
    /// The tab at `from` stands at `to`, and the active tab is still the same one.
    pub open spec fn tab_moved(self, from: int, to: int) -> Model {
        if from < self.tabs.len() && to < self.tabs.len() && from != to {
            Model {
                tabs: moved(self.tabs, from, to),
                active_tab: moved_index(self.active_tab as int, from, to) as usize,
                ..self
            }
        } else {
            self
        }
    }

    /// The window keeps which files of the shown project are pinned and which one is active.
    #[verifier::opaque]
    pub open spec fn slot_synced(self) -> Model {
        if self.has_slot() {
            Model { pinned_files: pinned_paths(self.tabs), active_file: self.active_tab, ..self }
        } else {
            self
        }
    }

    /// The pin of the tab at `index` is put on or taken off.
    pub open spec fn pin_toggled(self, index: int) -> Model {
        if index < self.tabs.len() && !self.tabs[index].transient {
            let pin = !self.tabs[index].pinned;
            let pins = leading_pins(self.tabs);
            let target = if pin {
                pins
            } else if pins > 0 {
                pins - 1
            } else {
                0
            };
            let marked = Model {
                tabs: self.tabs.update(index, with_pin(self.tabs[index], pin)),
                ..self
            };
            marked.tab_moved(index, target).slot_synced().then_do(Effect::SaveState)
        } else {
            self
        }
    }

    /// Where the tab at `from` may be dragged to, nearest to `to`.
    pub open spec fn move_clamped(self, from: int, to: int) -> int {
        let pins = leading_pins(self.tabs);
        if from >= self.tabs.len() {
            to
        } else if self.tabs[from].pinned {
            if to < pins {
                to
            } else if pins > 0 {
                pins - 1
            } else {
                0
            }
        } else if to > pins {
            to
        } else {
            pins
        }
    }

    /// The files in `pinned` have their pins back.
    pub open spec fn pins_restored(self, pinned: Seq<Seq<char>>) -> Model {
        if pinned.len() == 0 {
            self
        } else {
            let tabs = parted(self.tabs.map_values(|tab: EditorTab| restored(tab, pinned)));
            let active = if self.active_tab < self.tabs.len() {
                first_index(tabs, shows(self.tab().path@))
            } else {
                None
            };
            Model {
                tabs,
                active_tab: match active {
                    Some(i) => i as usize,
                    None => self.active_tab,
                },
                ..self
            }.slot_synced()
        }
    }
}

impl Workspace {
    /// How many tabs from the left are pinned.
    pub fn pinned_tab_count(&self) -> (n: usize)
        ensures
            n == leading_pins(self@.tabs),
    {
        let mut n: usize = 0;
        while n < self.tabs.len() && self.tabs[n].pinned
            invariant
                n <= self.tabs@.len(),
                forall|i: int| 0 <= i < n ==> (#[trigger] self.tabs@[i]).pinned,
            decreases self.tabs@.len() - n,
        {
            n = n + 1;
        }
        proof {
            leading_pins_is(self.tabs@, n as int);
        }
        n
    }

    /// Where the first tab with this path stands.
    pub fn tab_with_path(&self, path: &String) -> (r: Option<usize>)
        ensures
            match r {
                Some(i) => self@.tab_of(path@) == Some(i as int),
                None => self@.tab_of(path@) == None::<int>,
            },
            r matches Some(i) ==> i < self@.tabs.len(),
    {
        let ghost wanted = shows(path@);
        let mut i: usize = 0;
        while i < self.tabs.len()
            invariant
                i <= self.tabs@.len(),
                wanted == shows(path@),
                forall|j: int| 0 <= j < i ==> !wanted(#[trigger] self.tabs@[j]),
            decreases self.tabs@.len() - i,
        {
            if is_same_path(self.tabs[i].path.as_str(), path.as_str()) {
                proof {
                    first_index_is(self.tabs@, wanted, i as int);
                }
                return Some(i);
            }
            i = i + 1;
        }
        proof {
            first_index_none(self.tabs@, wanted);
        }
        None
    }

    /// Keeps with the window which files of the shown project are pinned and which one is active.
    pub fn sync_active_slot(&mut self)
        ensures
            final(self)@ == old(self)@.slot_synced(),
    {
        proof {
            reveal(Model::slot_synced);
        }
        if !self.has_active_slot() {
            return;
        }
        let ghost tabs = self.tabs@;
        let ghost keep = |tab: EditorTab| tab.pinned;
        let ghost path_of = |tab: EditorTab| tab.path;
        let mut paths: Vec<String> = Vec::new();
        let mut i: usize = 0;
        proof {
            filter_none(tabs, keep);
            assert(paths@ =~= tabs.take(0).filter(keep).map_values(path_of));
        }
        while i < self.tabs.len()
            invariant
                *self == *old(self),
                i <= self.tabs@.len(),
                tabs == self.tabs@,
                keep == (|tab: EditorTab| tab.pinned),
                path_of == (|tab: EditorTab| tab.path),
                paths@ == tabs.take(i as int).filter(keep).map_values(path_of),
            decreases self.tabs@.len() - i,
        {
            let ghost before = tabs.take(i as int).filter(keep);
            proof {
                filter_step(tabs, i as int, keep);
            }
            if self.tabs[i].pinned {
                paths.push(self.tabs[i].path.clone());
                assert(paths@ =~= before.push(tabs[i as int]).map_values(path_of));
            }
            i = i + 1;
        }
        assert(tabs.take(tabs.len() as int) =~= tabs);
        self.pinned_files = paths;
        self.active_file = self.active_tab;
    }

    /// Puts the pin of the active tab on or takes it off.
    pub fn toggle_pin_active_tab(&mut self)
        ensures
            final(self)@ == old(self)@.pin_toggled(old(self)@.active_tab as int),
    {
        self.toggle_tab_pin(self.active_tab);
    }

    /// Puts the pin of a tab on or takes it off. A tab that gets its pin goes behind the pinned
    /// ones, one that loses it goes in front of the others.
    pub fn toggle_tab_pin(&mut self, index: usize)
        ensures
            final(self)@ == old(self)@.pin_toggled(index as int),
    {
        if index >= self.tabs.len() || self.tabs[index].transient {
            return;
        }
        let pins = self.pinned_tab_count();
        let pin = !self.tabs[index].pinned;
        self.tabs[index].pinned = pin;
        if pin {
            self.tabs[index].preview = false;
        }
        proof {
            leading_pins_bounds(old(self)@.tabs);
            assert(self.tabs@ =~= old(self)@.tabs.update(index as int, with_pin(old(self)@.tabs[index as int], pin)));
        }
        let target: usize = if pin {
            pins
        } else if pins > 0 {
            pins - 1
        } else {
            0
        };
        self.reorder_tab(index, target);
        self.sync_active_slot();
        self.effect(Effect::SaveState);
    }

    /// Takes the tab at `from` out and puts it in at `to`; the active tab stays the same one.
    pub fn reorder_tab(&mut self, from: usize, to: usize)
        ensures
            final(self)@ == old(self)@.tab_moved(from as int, to as int),
    {
        let count = self.tabs.len();
        if from >= count || to >= count || from == to {
            return;
        }
        let tab = self.tabs.remove(from);
        self.tabs.insert(to, tab);
        self.active_tab = if self.active_tab == from {
            to
        } else {
            let mut active: usize = self.active_tab;
            if from < active {
                active = active - 1;
            }
            if to <= active {
                active = active + 1;
            }
            active
        };
    }

    /// Where a tab may be dragged to: a pinned tab stays among the pinned ones, any other outside.
    pub fn clamp_tab_move(&self, from: usize, to: usize) -> (r: usize)
        ensures
            r == self@.move_clamped(from as int, to as int),
    {
        let pins = self.pinned_tab_count();
        if from >= self.tabs.len() {
            to
        } else if self.tabs[from].pinned {
            if to < pins {
                to
            } else if pins > 0 {
                pins - 1
            } else {
                0
            }
        } else if to > pins {
            to
        } else {
            pins
        }
    }

    /// Gives the restored tabs their pins back and brings the pinned ones to the left; the active
    /// tab stays the same file.
    pub fn restore_tab_pins(&mut self, pinned: &Vec<String>)
        ensures
            final(self)@ == old(self)@.pins_restored(texts(pinned@)),
    {
        assert(texts(pinned@).len() == pinned@.len());
        if pinned.len() == 0 {
            return;
        }
        let active_path = self.active_tab_path();
        let ghost tabs = self.tabs@;
        let ghost list = texts(pinned@);
        let ghost mark = |tab: EditorTab| restored(tab, list);
        let ghost marked = tabs.map_values(mark);
        let ghost is_pinned = |tab: EditorTab| tab.pinned;
        let ghost is_free = |tab: EditorTab| !tab.pinned;
        let mut front: Vec<EditorTab> = Vec::new();
        let mut back: Vec<EditorTab> = Vec::new();
        let ghost mut done: int = 0;
        proof {
            filter_none(marked, is_pinned);
            filter_none(marked, is_free);
            assert(tabs.skip(0) =~= tabs);
        }
        while self.tabs.len() > 0
            invariant
                0 <= done <= tabs.len(),
                self.tabs@ == tabs.skip(done),
                *self == (Workspace { tabs: self.tabs, ..*old(self) }),
                tabs == old(self)@.tabs,
                list == texts(pinned@),
                mark == (|tab: EditorTab| restored(tab, list)),
                marked == tabs.map_values(mark),
                is_pinned == (|tab: EditorTab| tab.pinned),
                is_free == (|tab: EditorTab| !tab.pinned),
                front@ == marked.take(done).filter(is_pinned),
                back@ == marked.take(done).filter(is_free),
            decreases self.tabs@.len(),
        {
            let mut tab = self.tabs.remove(0);
            proof {
                assert(tab == tabs[done]);
                filter_step(marked, done, is_pinned);
                filter_step(marked, done, is_free);
                assert(self.tabs@ =~= tabs.skip(done + 1));
            }
            tab.pinned = !tab.transient && list_names_path(pinned, tab.path.as_str());
            assert(tab == marked[done]);
            if tab.pinned {
                front.push(tab);
            } else {
                back.push(tab);
            }
            proof {
                done = done + 1;
            }
        }
        assert(marked.take(marked.len() as int) =~= marked);
        front.append(&mut back);
        self.tabs = front;
        if let Some(path) = active_path {
            if let Some(index) = self.tab_with_path(&path) {
                self.active_tab = index;
            }
        }
        self.sync_active_slot();
    }
}

/// Moving a tab keeps the active tab the same one.
pub proof fn moving_keeps_the_active_tab(m: Model, from: int, to: int)
    requires
        m.tabs_wf(),
        0 < m.tabs.len() <= usize::MAX,
        0 <= from,
        0 <= to,
    ensures
        m.tab_moved(from, to).tabs_wf(),
        m.tab_moved(from, to).tab() == m.tab(),
{
    if from < m.tabs.len() && to < m.tabs.len() && from != to {
        moving_keeps_items(m.tabs, from, to);
        assert(0 <= moved_index(m.active_tab as int, from, to) < m.tabs.len());
    }
}

/// Putting a pin on or taking one off leaves the pinned tabs at the left end.
pub proof fn toggling_a_pin_keeps_pins_left(m: Model, index: int)
    requires
        0 <= index,
        pins_lead(m.tabs),
    ensures
        pins_lead(m.pin_toggled(index).tabs),
{
    reveal(Model::slot_synced);
    if index < m.tabs.len() && !m.tabs[index].transient {
        let tabs = m.tabs;
        let pins = leading_pins(tabs);
        leading_pins_bounds(tabs);
        pins_lead_means_prefix(tabs);
        let pin = !tabs[index].pinned;
        let marked = tabs.update(index, with_pin(tabs[index], pin));
        let target = if pin {
            pins
        } else if pins > 0 {
            pins - 1
        } else {
            0
        };
        let after = m.pin_toggled(index).tabs;
        if index != target {
            assert(after == moved(marked, index, target));
        }
    }
}

/// A tab that is dragged no further than it may be leaves the pinned tabs at the left end.
pub proof fn clamped_moves_keep_pins_left(m: Model, from: int, to: int)
    requires
        0 <= from,
        0 <= to,
        pins_lead(m.tabs),
    ensures
        pins_lead(m.tab_moved(from, m.move_clamped(from, to)).tabs),
{
    leading_pins_bounds(m.tabs);
    pins_lead_means_prefix(m.tabs);
}

/// Restoring pins leaves the pinned tabs at the left end.
pub proof fn restoring_pins_puts_them_left(m: Model, pinned: Seq<Seq<char>>)
    requires
        pinned.len() > 0,
    ensures
        pins_lead(m.pins_restored(pinned).tabs),
{
    reveal(Model::slot_synced);
    let marked = m.tabs.map_values(|tab: EditorTab| restored(tab, pinned));
    filter_holds(marked, |tab: EditorTab| tab.pinned);
    filter_holds(marked, |tab: EditorTab| !tab.pinned);
    let front = marked.filter(|tab: EditorTab| tab.pinned);
    let back = marked.filter(|tab: EditorTab| !tab.pinned);
    let is_pinned = |tab: EditorTab| tab.pinned;
    let is_free = |tab: EditorTab| !tab.pinned;
    assert forall|i: int, j: int| 0 <= i < j < (front + back).len() && (front + back)[j].pinned implies (front
        + back)[i].pinned by {
        if j >= front.len() {
            assert(is_free(back[j - front.len()]));
        }
        assert(is_pinned(front[i]));
    }
}

/// Putting a pin on or taking one off keeps the active tab the same one, but for its pin.
pub proof fn toggling_a_pin_keeps_the_active_tab(m: Model, index: int)
    requires
        m.tabs_wf(),
        0 <= index,
        m.tabs.len() <= usize::MAX,
    ensures
        m.pin_toggled(index).tabs_wf(),
        m.tabs.len() > 0 ==> m.pin_toggled(index).tab().id == m.tab().id,
{
    reveal(Model::slot_synced);
    leading_pins_bounds(m.tabs);
    if index < m.tabs.len() && !m.tabs[index].transient {
        let pin = !m.tabs[index].pinned;
        let pins = leading_pins(m.tabs);
        let target = if pin {
            pins
        } else if pins > 0 {
            pins - 1
        } else {
            0
        };
        let marked = Model { tabs: m.tabs.update(index, with_pin(m.tabs[index], pin)), ..m };
        moving_keeps_the_active_tab(marked, index, target);
    }
}

/// Restoring pins closes no tab and leaves one of the tabs active.
pub proof fn restoring_pins_keeps_a_tab_active(m: Model, pinned: Seq<Seq<char>>)
    requires
        m.tabs_wf(),
        m.tabs.len() <= usize::MAX,
    ensures
        m.pins_restored(pinned).tabs_wf(),
        m.pins_restored(pinned).tabs.len() == m.tabs.len(),
{
    reveal(Model::slot_synced);
    if pinned.len() > 0 {
        let marked = m.tabs.map_values(|tab: EditorTab| restored(tab, pinned));
        parted_keeps_count(marked);
        first_index_holds(parted(marked), shows(m.tab().path@));
    }
}

proof fn parted_keeps_count(tabs: Seq<EditorTab>)
    ensures
        parted(tabs).len() == tabs.len(),
    decreases tabs.len(),
{
    let is_pinned = |tab: EditorTab| tab.pinned;
    let is_free = |tab: EditorTab| !tab.pinned;
    if tabs.len() == 0 {
        filter_none(tabs, is_pinned);
        filter_none(tabs, is_free);
        assert(tabs.take(0) =~= tabs);
    } else {
        let n = tabs.len() as int;
        assert(tabs.take(n) =~= tabs);
        filter_step(tabs, n - 1, is_pinned);
        filter_step(tabs, n - 1, is_free);
        parted_keeps_count(tabs.take(n - 1));
    }
}

/// A tab that gets its pin stands behind the pinned ones, and is no preview; one that loses it stands
/// in front of the others. The rest keeps its order.
pub proof fn a_pin_moves_its_tab_to_the_border(m: Model, index: int, pins: int)
    requires
        0 <= index < m.tabs.len(),
        !m.tabs[index].transient,
        0 <= pins <= m.tabs.len(),
        forall|i: int| 0 <= i < m.tabs.len() ==> ((#[trigger] m.tabs[i]).pinned <==> i < pins),
    ensures
        ({
            let after = m.pin_toggled(index).tabs;
            let was = m.tabs[index];
            &&& after.len() == m.tabs.len()
            &&& !was.pinned ==> {
                &&& after[pins] == (EditorTab { pinned: true, preview: false, ..was })
                &&& after.remove(pins) == m.tabs.remove(index)
            }
            &&& was.pinned ==> {
                &&& after[pins - 1] == (EditorTab { pinned: false, ..was })
                &&& after.remove(pins - 1) == m.tabs.remove(index)
            }
        }),
{
    reveal(Model::slot_synced);
    leading_pins_is(m.tabs, pins);
    let after = m.pin_toggled(index).tabs;
    let pin = !m.tabs[index].pinned;
    let to = if pin { pins } else { pins - 1 };
    let marked = m.tabs.update(index, with_pin(m.tabs[index], pin));
    if index != to {
        assert(after == moved(marked, index, to));
    } else {
        assert(after == marked);
    }
    assert(after.remove(to) =~= m.tabs.remove(index));
}

/// A tab that is not kept cannot be pinned.
pub proof fn transient_tabs_are_never_pinned(m: Model, index: int, pinned: Seq<Seq<char>>, k: int)
    requires
        0 <= index < m.tabs.len(),
        m.tabs[index].transient,
    ensures
        m.pin_toggled(index) == m,
        pinned.len() > 0 && 0 <= k < m.pins_restored(pinned).tabs.len() && m.pins_restored(pinned).tabs[k].transient
            ==> !m.pins_restored(pinned).tabs[k].pinned,
{
    reveal(Model::slot_synced);
    let mark = |tab: EditorTab| restored(tab, pinned);
    let marked = m.tabs.map_values(mark);
    let is_pinned = |tab: EditorTab| tab.pinned;
    let is_free = |tab: EditorTab| !tab.pinned;
    let front = marked.filter(is_pinned);
    let back = marked.filter(is_free);
    if pinned.len() > 0 && 0 <= k < (front + back).len() {
        if k < front.len() {
            crate::seqs::filter_comes_from(marked, is_pinned, k);
        } else {
            crate::seqs::filter_comes_from(marked, is_free, k - front.len());
        }
    }
}

/// The files that are kept as pinned are those of the pinned tabs, from the left, and the file that is
/// kept as active is that of the active tab.
pub proof fn pinned_files_are_those_of_the_pinned_tabs(m: Model, pins: int)
    requires
        m.active < m.projects.len(),
        0 <= pins <= m.tabs.len(),
        forall|i: int| 0 <= i < m.tabs.len() ==> ((#[trigger] m.tabs[i]).pinned <==> i < pins),
    ensures
        m.slot_synced().pinned_files.len() == pins,
        forall|i: int| 0 <= i < pins ==> #[trigger] m.slot_synced().pinned_files[i] == m.tabs[i].path,
        m.slot_synced().active_file == m.active_tab,
        m.slot_synced().tabs == m.tabs,
{
    reveal(Model::slot_synced);
    let keep = |tab: EditorTab| tab.pinned;
    filtered_prefix(m.tabs, keep, pins);
    let front = m.tabs.take(pins);
    assert(m.slot_synced().pinned_files =~= front.map_values(|tab: EditorTab| tab.path));
}

proof fn filtered_prefix(tabs: Seq<EditorTab>, keep: spec_fn(EditorTab) -> bool, n: int)
    requires
        0 <= n <= tabs.len(),
        forall|i: int| 0 <= i < tabs.len() ==> (keep(#[trigger] tabs[i]) <==> i < n),
    ensures
        tabs.filter(keep) == tabs.take(n),
    decreases tabs.len(),
{
    reveal(Seq::filter);
    if tabs.len() > 0 {
        let rest = tabs.drop_last();
        let last = tabs.len() - 1;
        assert(keep(tabs[last]) <==> last < n);
        if n == tabs.len() {
            assert forall|i: int| 0 <= i < rest.len() implies (keep(#[trigger] rest[i]) <==> i < last) by {
                assert(rest[i] == tabs[i]);
            }
            filtered_prefix(rest, keep, last);
            assert(rest.take(last) =~= rest);
            assert(tabs.filter(keep) =~= tabs.take(n));
        } else {
            assert forall|i: int| 0 <= i < rest.len() implies (keep(#[trigger] rest[i]) <==> i < n) by {
                assert(rest[i] == tabs[i]);
            }
            filtered_prefix(rest, keep, n);
            assert(rest.take(n) =~= tabs.take(n));
        }
    } else {
        assert(tabs.take(n) =~= tabs.filter(keep));
    }
}

/// A tab is dragged to the place that is nearest to where it was dropped among those that it may have:
/// a pinned one among the pinned, another one behind them.
pub proof fn dragging_goes_as_near_as_it_may(m: Model, from: int, to: int, pins: int, other: int)
    requires
        0 <= from < m.tabs.len(),
        0 <= to < m.tabs.len(),
        0 <= pins <= m.tabs.len(),
        forall|i: int| 0 <= i < m.tabs.len() ==> ((#[trigger] m.tabs[i]).pinned <==> i < pins),
        0 <= other < m.tabs.len(),
        m.tabs[other].pinned == m.tabs[from].pinned,
    ensures
        ({
            let at = m.move_clamped(from, to);
            &&& 0 <= at < m.tabs.len()
            &&& m.tabs[at].pinned == m.tabs[from].pinned
            &&& (if at < to { to - at } else { at - to }) <= (if other < to { to - other } else { other - to })
            &&& m.tabs[to].pinned == m.tabs[from].pinned ==> at == to
        }),
{
    leading_pins_is(m.tabs, pins);
}

/// A tab whose pin is restored is one whose file is listed; every tab is still there, and the tab of the
/// active file is still active.
pub proof fn restored_pins_are_the_listed_ones(m: Model, pinned: Seq<Seq<char>>, k: int)
    requires
        m.active_tab < m.tabs.len() <= usize::MAX,
        0 <= k < m.tabs.len(),
        pinned.len() > 0,
    ensures
        ({
            let after = m.pins_restored(pinned);
            let listed = !m.tabs[k].transient && exists|i: int|
                0 <= i < pinned.len() && same_path(#[trigger] pinned[i], m.tabs[k].path@);
            &&& after.tabs.contains(EditorTab { pinned: listed, ..m.tabs[k] })
            &&& after.active_tab < after.tabs.len()
            &&& same_path(after.tabs[after.active_tab as int].path@, m.tabs[m.active_tab as int].path@)
        }),
{
    reveal(Model::slot_synced);
    let mark = |tab: EditorTab| restored(tab, pinned);
    let marked = m.tabs.map_values(mark);
    restored_tab_is_there(marked, k);
    let active = m.active_tab as int;
    restored_tab_is_there(marked, active);
    let after = m.pins_restored(pinned);
    assert(after.tabs == parted(marked));
    let wanted = shows(m.tabs[active].path@);
    first_index_holds(after.tabs, wanted);
    let at = choose|i: int| 0 <= i < after.tabs.len() && after.tabs[i] == marked[active];
    assert(wanted(after.tabs[at]));
    parted_keeps_count(marked);
}

proof fn restored_tab_is_there(marked: Seq<EditorTab>, k: int)
    requires
        0 <= k < marked.len(),
    ensures
        parted(marked).contains(marked[k]),
{
    let is_pinned = |tab: EditorTab| tab.pinned;
    let is_free = |tab: EditorTab| !tab.pinned;
    let front = marked.filter(is_pinned);
    let back = marked.filter(is_free);
    if marked[k].pinned {
        crate::seqs::filter_keeps(marked, is_pinned, k);
        let i = choose|i: int| 0 <= i < front.len() && front[i] == marked[k];
        assert((front + back)[i] == marked[k]);
    } else {
        crate::seqs::filter_keeps(marked, is_free, k);
        let i = choose|i: int| 0 <= i < back.len() && back[i] == marked[k];
        assert((front + back)[front.len() + i] == marked[k]);
    }
}

/// The pinned tabs are counted from the left up to the first that is not pinned.
pub proof fn pins_are_counted_up_to_the_first_gap(tabs: Seq<EditorTab>, n: int)
    requires
        0 <= n <= tabs.len(),
        forall|i: int| 0 <= i < n ==> (#[trigger] tabs[i]).pinned,
        n < tabs.len() ==> !tabs[n].pinned,
    ensures
        leading_pins(tabs) == n,
{
    leading_pins_is(tabs, n);
}

/// The restored tabs keep their order, the pinned ones among themselves and so the others.
pub proof fn restored_tabs_keep_their_order(m: Model, pinned: Seq<Seq<char>>)
    requires
        pinned.len() > 0,
    ensures
        ({
            let marked = m.tabs.map_values(
                |tab: EditorTab|
                    EditorTab {
                        pinned: !tab.transient && exists|i: int|
                            0 <= i < pinned.len() && same_path(#[trigger] pinned[i], tab.path@),
                        ..tab
                    },
            );
            let after = m.pins_restored(pinned).tabs;
            &&& after.filter(|tab: EditorTab| tab.pinned) == marked.filter(|tab: EditorTab| tab.pinned)
            &&& after.filter(|tab: EditorTab| !tab.pinned) == marked.filter(|tab: EditorTab| !tab.pinned)
        }),
{
    reveal(Model::slot_synced);
    let marked = m.tabs.map_values(|tab: EditorTab| restored(tab, pinned));
    let told = m.tabs.map_values(
        |tab: EditorTab|
            EditorTab {
                pinned: !tab.transient && exists|i: int|
                    0 <= i < pinned.len() && same_path(#[trigger] pinned[i], tab.path@),
                ..tab
            },
    );
    assert(marked =~= told);
    let is_pinned = |tab: EditorTab| tab.pinned;
    let is_free = |tab: EditorTab| !tab.pinned;
    let front = marked.filter(is_pinned);
    let back = marked.filter(is_free);
    assert(m.pins_restored(pinned).tabs == front + back);
    Seq::filter_distributes_over_add(front, back, is_pinned);
    Seq::filter_distributes_over_add(front, back, is_free);
    filter_holds(marked, is_pinned);
    filter_holds(marked, is_free);
    all_are_kept(front, is_pinned);
    all_are_kept(back, is_free);
    assert forall|i: int| 0 <= i < back.len() implies !is_pinned(#[trigger] back[i]) by {
        assert(is_free(back[i]));
    }
    none_are_kept(back, is_pinned);
    assert forall|i: int| 0 <= i < front.len() implies !is_free(#[trigger] front[i]) by {
        assert(is_pinned(front[i]));
    }
    none_are_kept(front, is_free);
    assert(front + Seq::<EditorTab>::empty() =~= front);
    assert(Seq::<EditorTab>::empty() + back =~= back);
}

proof fn all_are_kept(tabs: Seq<EditorTab>, keep: spec_fn(EditorTab) -> bool)
    requires
        forall|i: int| 0 <= i < tabs.len() ==> keep(#[trigger] tabs[i]),
    ensures
        tabs.filter(keep) == tabs,
{
    filtered_prefix(tabs, keep, tabs.len() as int);
    assert(tabs.take(tabs.len() as int) =~= tabs);
}

proof fn none_are_kept(tabs: Seq<EditorTab>, keep: spec_fn(EditorTab) -> bool)
    requires
        forall|i: int| 0 <= i < tabs.len() ==> !keep(#[trigger] tabs[i]),
    ensures
        tabs.filter(keep) == Seq::<EditorTab>::empty(),
{
    filtered_prefix(tabs, keep, 0);
    assert(tabs.take(0) =~= Seq::<EditorTab>::empty());
}

} // verus!
