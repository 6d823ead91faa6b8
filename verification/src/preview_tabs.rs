//! A preview tab: the file that was clicked once, replaced by the next one.
//!
//! A tab stops being a preview when it is edited, pinned, or opened again in the ordinary way.

use vstd::prelude::*;
use crate::paths::{is_same_path, same_path};
use crate::pins::{moving_keeps_the_active_tab, pins_lead};
use crate::seqs::{first_index, first_index_holds, first_index_is, first_index_none, moved, moved_index, moving_keeps_items};
use crate::tabs::closing_keeps_the_active_tab;
use crate::workspace::{Effect, EditorTab, Model, Workspace};

verus! {

/// At most one tab is a preview.
pub open spec fn one_preview(tabs: Seq<EditorTab>) -> bool {
    forall|i: int, j: int| 0 <= i < j < tabs.len() ==> !(tabs[i].preview && tabs[j].preview)
}

/// No two tabs show the same file.
pub open spec fn paths_differ(tabs: Seq<EditorTab>) -> bool {
    forall|i: int, j: int| 0 <= i < j < tabs.len() ==> !same_path(tabs[i].path@, tabs[j].path@)
}

/// The tab shows this file.
pub open spec fn shows(path: Seq<char>) -> spec_fn(EditorTab) -> bool {
    |tab: EditorTab| same_path(tab.path@, path)
}

/// The tab is a preview of another file.
pub open spec fn previews_other(path: Seq<char>) -> spec_fn(EditorTab) -> bool {
    |tab: EditorTab| tab.preview && !same_path(tab.path@, path)
}

/// The tab is a preview with this editor.
pub open spec fn previews_in(editor: u64) -> spec_fn(EditorTab) -> bool {
    |tab: EditorTab| tab.preview && tab.has_editor && tab.id == editor
}

impl Model {
    /// Where the first tab with this path stands.
    pub open spec fn tab_of(self, path: Seq<char>) -> Option<int> {
        first_index(self.tabs, shows(path))
    }

    /// Where the first preview of another file stands.
    pub open spec fn other_preview(self, path: Seq<char>) -> Option<int> {
        first_index(self.tabs, previews_other(path))
    }

    /// The tab at `index` is a preview, or is not.
    pub open spec fn preview_set(self, index: int, preview: bool) -> Model {
        Model { tabs: self.tabs.update(index, EditorTab { preview, ..self.tabs[index] }), ..self }
    }

    /// The preview at `previous` gives way to the one at `new_index`.
    #[verifier::opaque]
    pub open spec fn preview_replaced(self, new_index: int, previous: int) -> Model {
        if self.tabs[previous].dirty {
            self.preview_set(previous, false)
        } else if previous < new_index {
            self.tab_moved(new_index, previous).tab_closed(previous + 1)
        } else {
            self.tab_closed(previous)
        }
    }

    /// The tab that was just opened for `path` is the preview, in the place of the one before.
    #[verifier::opaque]
    pub open spec fn preview_settled(self, path: Seq<char>) -> Model {
        match self.tab_of(path) {
            None => self,
            Some(new_index) => {
                let marked = self.preview_set(new_index, true);
                let replaced = match marked.other_preview(path) {
                    None => marked,
                    Some(previous) => marked.preview_replaced(new_index, previous),
                };
                replaced.slot_synced().then_do(Effect::SaveState)
            },
        }
    }

    /// The tab at `index` is no preview any more.
    pub open spec fn preview_kept(self, index: int) -> Model {
        if index < self.tabs.len() && self.tabs[index].preview {
            self.preview_set(index, false)
        } else {
            self
        }
    }

    /// The preview that shows this editor is an ordinary tab once it has unsaved edits.
    pub open spec fn edited_preview_kept(self, editor: u64) -> Model {
        match first_index(self.tabs, previews_in(editor)) {
            Some(index) => if self.tabs[index].dirty {
                self.preview_kept(index)
            } else {
                self
            },
            None => self,
        }
    }

    /// A file that has a tab already is shown in it; opened in the ordinary way, it is no preview
    /// any more.
    pub open spec fn file_shown(self, path: Seq<char>, preview: bool) -> Model {
        match self.tab_of(path) {
            Some(index) => if preview {
                self.tab_selected(index)
            } else {
                self.preview_kept(index).tab_selected(index)
            },
            None => self,
        }
    }
}

impl Workspace {
    /// A file was clicked once: opens it as a preview, unless the settings say otherwise.
    pub fn open_file_preview(&mut self, path: String, setting: Option<bool>)
        ensures
            final(self)@ == old(self)@.then_do(
                Effect::OpenFileAs {
                    path,
                    preview: match setting {
                        Some(enabled) => enabled,
                        None => true,
                    },
                },
            ),
    {
        let preview = match setting {
            Some(enabled) => enabled,
            None => true,
        };
        self.effect(Effect::OpenFileAs { path, preview });
    }

    /// Shows a file in the tab that it has already; `false` where it has none.
    pub fn show_open_file(&mut self, path: &String, preview: bool) -> (shown: bool)
        ensures
            shown == (old(self)@.tab_of(path@) is Some),
            final(self)@ == old(self)@.file_shown(path@, preview),
    {
        match self.tab_with_path(path) {
            Some(index) => {
                if !preview {
                    self.keep_preview_tab(index);
                }
                self.select_tab(index);
                true
            },
            None => false,
        }
    }

    /// Where the first preview of another file stands.
    fn other_preview_tab(&self, path: &String) -> (r: Option<usize>)
        ensures
            match r {
                Some(i) => i < self@.tabs.len() && self@.other_preview(path@) == Some(i as int),
                None => self@.other_preview(path@) == None::<int>,
            },
    {
        let ghost wanted = previews_other(path@);
        let mut i: usize = 0;
        while i < self.tabs.len()
            invariant
                i <= self.tabs@.len(),
                wanted == previews_other(path@),
                forall|j: int| 0 <= j < i ==> !wanted(#[trigger] self.tabs@[j]),
            decreases self.tabs@.len() - i,
        {
            if self.tabs[i].preview && !is_same_path(self.tabs[i].path.as_str(), path.as_str()) {
                proof {
                    first_index_is(self.tabs@, wanted, i as int);
                }
                return Some(i);
            }
            i = i + 1;
        }
        proof {
            first_index_none(self.tabs@, wanted);
        }
        None
    }

    fn set_preview(&mut self, index: usize, preview: bool)
        requires
            index < old(self)@.tabs.len(),
        ensures
            final(self)@ == old(self)@.preview_set(index as int, preview),
    {
        self.tabs[index].preview = preview;
    }

    fn replace_preview(&mut self, new_index: usize, previous: usize)
        requires
            new_index < old(self)@.tabs.len(),
            previous < old(self)@.tabs.len(),
        ensures
            final(self)@ == old(self)@.preview_replaced(new_index as int, previous as int),
    {
        proof {
            reveal(Model::preview_replaced);
        }
        if self.tabs[previous].dirty {
            self.set_preview(previous, false);
        } else if previous < new_index {
            self.reorder_tab(new_index, previous);
            self.close_tab_at(previous + 1);
        } else {
            self.close_tab_at(previous);
        }
    }

    /// The file was read and has its tab: makes that the preview, in the place of the one before.
    /// A preview with unsaved edits stays, as an ordinary tab.
    pub fn settle_preview_tab(&mut self, path: &String)
        ensures
            final(self)@ == old(self)@.preview_settled(path@),
    {
        proof {
            reveal(Model::preview_settled);
        }
        if let Some(new_index) = self.tab_with_path(path) {
            self.set_preview(new_index, true);
            if let Some(previous) = self.other_preview_tab(path) {
                self.replace_preview(new_index, previous);
            }
            self.sync_active_slot();
            self.effect(Effect::SaveState);
        }
    }

    /// Makes a preview an ordinary tab.
    pub fn keep_preview_tab(&mut self, index: usize)
        ensures
            final(self)@ == old(self)@.preview_kept(index as int),
    {
        if index < self.tabs.len() && self.tabs[index].preview {
            self.set_preview(index, false);
        }
    }

    /// An editor changed: the preview that shows it becomes an ordinary tab, once it has unsaved
    /// edits.
    pub fn keep_edited_preview(&mut self, editor: u64)
        ensures
            final(self)@ == old(self)@.edited_preview_kept(editor),
    {
        let ghost wanted = previews_in(editor);
        let mut i: usize = 0;
        while i < self.tabs.len()
            invariant
                *self == *old(self),
                i <= self.tabs@.len(),
                wanted == previews_in(editor),
                forall|j: int| 0 <= j < i ==> !wanted(#[trigger] self.tabs@[j]),
            decreases self.tabs@.len() - i,
        {
            if self.tabs[i].preview && self.tabs[i].has_editor && self.tabs[i].id == editor {
                proof {
                    first_index_is(self.tabs@, wanted, i as int);
                }
                if self.tabs[i].dirty {
                    self.keep_preview_tab(i);
                }
                return;
            }
            i = i + 1;
        }
        proof {
            first_index_none(self.tabs@, wanted);
        }
    }
}

/// The tabs once the tab for `path` is the preview.
pub open spec fn settled_tabs(tabs: Seq<EditorTab>, path: Seq<char>) -> Seq<EditorTab> {
    match first_index(tabs, shows(path)) {
        None => tabs,
        Some(n) => {
            let marked = tabs.update(n, EditorTab { preview: true, ..tabs[n] });
            match first_index(marked, previews_other(path)) {
                None => marked,
                Some(p) => if marked[p].dirty {
                    marked.update(p, EditorTab { preview: false, ..marked[p] })
                } else if p < n {
                    moved(marked, n, p).remove(p + 1)
                } else {
                    marked.remove(p)
                },
            }
        },
    }
}

/// What settling a preview does to the tabs.
pub proof fn settled_tabs_are(m: Model, path: Seq<char>)
    ensures
        m.preview_settled(path).tabs == settled_tabs(m.tabs, path),
{
    reveal(Model::preview_settled);
    reveal(Model::preview_replaced);
    reveal(Model::tab_closed);
    reveal(Model::slot_synced);
    first_index_holds(m.tabs, shows(path));
    if let Some(n) = m.tab_of(path) {
        let marked = m.preview_set(n, true);
        first_index_holds(marked.tabs, previews_other(path));
        if let Some(p) = marked.other_preview(path) {
            assert(p != n);
        }
    }
}

/// However many files are clicked, at most one tab is a preview.
pub proof fn settling_leaves_one_preview(m: Model, path: Seq<char>)
    requires
        m.tabs.len() <= usize::MAX,
        one_preview(m.tabs),
        paths_differ(m.tabs),
    ensures
        one_preview(m.preview_settled(path).tabs),
{
    settled_tabs_are(m, path);
    first_index_holds(m.tabs, shows(path));
    if let Some(n) = m.tab_of(path) {
        let marked = m.preview_set(n, true);
        let others = previews_other(path);
        first_index_holds(marked.tabs, others);
        match marked.other_preview(path) {
            None => {
                assert forall|i: int, j: int| 0 <= i < j < marked.tabs.len() implies !(marked.tabs[i].preview
                    && marked.tabs[j].preview) by {
                    assert(!others(marked.tabs[i]));
                    assert(!others(marked.tabs[j]));
                    assert(!same_path(m.tabs[i].path@, m.tabs[j].path@));
                }
            },
            Some(p) => {
                assert(p != n);
                // No third tab is a preview.
                assert forall|k: int| 0 <= k < marked.tabs.len() && k != n && k != p implies !(
                #[trigger] marked.tabs[k]).preview by {
                    assert(m.tabs[p].preview);
                    if k < p {
                        assert(!(m.tabs[k].preview && m.tabs[p].preview));
                    } else {
                        assert(!(m.tabs[p].preview && m.tabs[k].preview));
                    }
                }
                let after = m.preview_settled(path).tabs;
                if !marked.tabs[p].dirty {
                    if p < n {
                        moving_keeps_items(marked.tabs, n, p);
                        let shifted = moved(marked.tabs, n, p);
                        assert(after == shifted.remove(p + 1));
                    } else {
                        assert(after == marked.tabs.remove(p));
                    }
                }
            },
        }
    }
}

/// A tab with unsaved edits is never closed to make room for a preview.
pub proof fn settling_keeps_unsaved_tabs(m: Model, path: Seq<char>, k: int)
    requires
        m.tabs.len() <= usize::MAX,
        0 <= k < m.tabs.len(),
        m.tabs[k].dirty,
    ensures
        exists|i: int|
            0 <= i < m.preview_settled(path).tabs.len() && (#[trigger] m.preview_settled(path).tabs[i]).id
                == m.tabs[k].id && m.preview_settled(path).tabs[i].dirty,
{
    settled_tabs_are(m, path);
    let after = m.preview_settled(path).tabs;
    first_index_holds(m.tabs, shows(path));
    match m.tab_of(path) {
        None => {
            assert(after[k].id == m.tabs[k].id);
        },
        Some(n) => {
            let marked = m.preview_set(n, true);
            let others = previews_other(path);
            first_index_holds(marked.tabs, others);
            assert(marked.tabs[k].dirty && marked.tabs[k].id == m.tabs[k].id);
            match marked.other_preview(path) {
                None => {
                    assert(after[k].id == m.tabs[k].id);
                },
                Some(p) => {
                    if marked.tabs[p].dirty {
                        assert(after[k].id == m.tabs[k].id);
                    } else if p < n {
                        assert(k != p);
                        moving_keeps_items(marked.tabs, n, p);
                        let shifted = moved(marked.tabs, n, p);
                        let at = moved_index(k, n, p);
                        assert(shifted[at] == marked.tabs[k]);
                        assert(after == shifted.remove(p + 1));
                        assert(at != p + 1);
                        if at < p + 1 {
                            assert(after[at] == shifted[at]);
                        } else {
                            assert(after[at - 1] == shifted[at]);
                        }
                    } else {
                        assert(after == marked.tabs.remove(p));
                        if k < p {
                            assert(after[k] == marked.tabs[k]);
                        } else {
                            assert(after[k - 1] == marked.tabs[k]);
                        }
                    }
                },
            }
        },
    }
}

/// A new preview stands where the one before stood.
pub proof fn a_preview_takes_the_place_of_the_last(m: Model, path: Seq<char>)
    requires
        m.tabs.len() <= usize::MAX,
        m.tab_of(path) is Some,
        m.preview_set(m.tab_of(path)->0, true).other_preview(path) is Some,
        !m.tabs[m.preview_set(m.tab_of(path)->0, true).other_preview(path)->0].dirty,
    ensures
        ({
            let n = m.tab_of(path)->0;
            let p = m.preview_set(n, true).other_preview(path)->0;
            let after = m.preview_settled(path).tabs;
            let at = if p < n { p } else { n };
            after.len() == m.tabs.len() - 1 && after[at] == (EditorTab { preview: true, ..m.tabs[n] })
        }),
{
    settled_tabs_are(m, path);
    first_index_holds(m.tabs, shows(path));
    let n = m.tab_of(path)->0;
    let marked = m.preview_set(n, true);
    first_index_holds(marked.tabs, previews_other(path));
    let p = marked.other_preview(path)->0;
    assert(p != n);
}

/// Opening a preview leaves one of the tabs active.
pub proof fn settling_keeps_a_tab_active(m: Model, path: Seq<char>)
    requires
        m.tabs_wf(),
        m.tabs.len() <= usize::MAX,
    ensures
        m.preview_settled(path).tabs_wf(),
{
    reveal(Model::preview_settled);
    reveal(Model::preview_replaced);
    reveal(Model::slot_synced);
    first_index_holds(m.tabs, shows(path));
    if let Some(n) = m.tab_of(path) {
        let marked = m.preview_set(n, true);
        first_index_holds(marked.tabs, previews_other(path));
        if let Some(p) = marked.other_preview(path) {
            assert(p != n);
            if !marked.tabs[p].dirty {
                if p < n {
                    moving_keeps_the_active_tab(marked, n, p);
                    closing_keeps_the_active_tab(marked.tab_moved(n, p), p + 1);
                } else {
                    closing_keeps_the_active_tab(marked, p);
                }
            }
        }
    }
}

/// Opening a preview leaves the pinned tabs at the left end, as long as no preview is pinned.
pub proof fn settling_keeps_pins_left(m: Model, path: Seq<char>)
    requires
        m.tabs.len() <= usize::MAX,
        pins_lead(m.tabs),
        forall|i: int| 0 <= i < m.tabs.len() && (#[trigger] m.tabs[i]).preview ==> !m.tabs[i].pinned,
        m.tab_of(path) matches Some(i) ==> !m.tabs[i].pinned,
    ensures
        pins_lead(m.preview_settled(path).tabs),
{
    settled_tabs_are(m, path);
    first_index_holds(m.tabs, shows(path));
    if let Some(n) = m.tab_of(path) {
        let marked = m.preview_set(n, true).tabs;
        first_index_holds(marked, previews_other(path));
        assert(pins_lead(marked));
        if let Some(p) = first_index(marked, previews_other(path)) {
            assert(p != n);
            assert(!marked[p].pinned);
            if !marked[p].dirty && p < n {
                let shifted = moved(marked, n, p);
                moving_keeps_items(marked, n, p);
                assert forall|i: int, j: int| 0 <= i < j < shifted.len() && shifted[j].pinned implies shifted[i].pinned by {
                    if j > p {
                        let from = if j <= n { j - 1 } else { j };
                        assert(shifted[j] == marked[from]);
                        assert(marked[p].pinned);
                    }
                }
                assert(pins_lead(shifted.remove(p + 1)));
            }
        }
    }
}

/// Keeping a preview makes its tab an ordinary one, and changes nothing else.
pub proof fn keeping_a_preview_changes_its_tab_alone(m: Model, index: int)
    requires
        0 <= index < m.tabs.len(),
    ensures
        ({
            let after = m.preview_kept(index);
            &&& after.tabs.len() == m.tabs.len()
            &&& after.tabs[index] == (EditorTab { preview: false, ..m.tabs[index] })
            &&& forall|k: int| 0 <= k < m.tabs.len() && k != index ==> #[trigger] after.tabs[k] == m.tabs[k]
            &&& after.active_tab == m.active_tab && after.effects == m.effects
        }),
{
}

/// Once a preview has unsaved edits it is an ordinary tab, and no other tab changes; a preview without
/// edits stays one.
pub proof fn edits_make_a_preview_an_ordinary_tab(m: Model, editor: u64, k: int)
    requires
        one_preview(m.tabs),
        0 <= k < m.tabs.len(),
    ensures
        ({
            let after = m.edited_preview_kept(editor).tabs;
            &&& after.len() == m.tabs.len()
            &&& m.tabs[k].has_editor && m.tabs[k].id == editor && m.tabs[k].dirty ==> after[k] == (EditorTab {
                preview: false,
                ..m.tabs[k]
            })
            &&& !(m.tabs[k].has_editor && m.tabs[k].id == editor && m.tabs[k].dirty) ==> after[k] == m.tabs[k]
        }),
{
    let wanted = previews_in(editor);
    first_index_holds(m.tabs, wanted);
    let after = m.edited_preview_kept(editor).tabs;
    match first_index(m.tabs, wanted) {
        Some(i) => {
            if k != i {
                assert(m.tabs[i].preview);
                assert(!m.tabs[k].preview) by {
                    if k < i {
                        assert(!(m.tabs[k].preview && m.tabs[i].preview));
                    } else {
                        assert(!(m.tabs[i].preview && m.tabs[k].preview));
                    }
                }
                assert((EditorTab { preview: false, ..m.tabs[k] }) == m.tabs[k]);
            }
        },
        None => {
            if m.tabs[k].has_editor && m.tabs[k].id == editor {
                assert(!wanted(m.tabs[k]));
                assert((EditorTab { preview: false, ..m.tabs[k] }) == m.tabs[k]);
            }
        },
    }
}

/// A file with a tab is shown in the first tab that it has; opened in the ordinary way, that tab is no
/// preview. A file without a tab changes nothing.
pub proof fn open_files_are_shown_in_their_tab(m: Model, path: Seq<char>, preview: bool)
    requires
        m.tabs.len() <= usize::MAX,
    ensures
        ({
            let after = m.file_shown(path, preview);
            let there = exists|k: int| 0 <= k < m.tabs.len() && same_path((#[trigger] m.tabs[k]).path@, path);
            &&& !there ==> after == m
            &&& there ==> {
                let at = after.active_tab as int;
                &&& at < after.tabs.len() == m.tabs.len()
                &&& same_path(after.tabs[at].path@, path)
                &&& forall|k: int| 0 <= k < at ==> !same_path((#[trigger] m.tabs[k]).path@, path)
                &&& !preview ==> !after.tabs[at].preview
                &&& preview ==> after.tabs[at].preview == m.tabs[at].preview
                &&& forall|k: int| 0 <= k < m.tabs.len() && k != at ==> #[trigger] after.tabs[k] == m.tabs[k]
            }
        }),
{
    reveal(Model::tab_selected);
    let wanted = shows(path);
    first_index_holds(m.tabs, wanted);
    assert forall|k: int| 0 <= k < m.tabs.len() implies wanted(#[trigger] m.tabs[k]) == same_path(
        m.tabs[k].path@,
        path,
    ) by {}
    if let Some(i) = m.tab_of(path) {
        assert(wanted(m.tabs[i]));
    }
}

/// A file that is opened as a preview is one afterwards, in the tab that it has; of the other tabs only
/// the preview before it is touched: it goes away, or becomes an ordinary tab where it has unsaved edits.
pub proof fn a_new_preview_touches_only_the_last(m: Model, path: Seq<char>, k: int)
    requires
        m.tabs.len() <= usize::MAX,
        one_preview(m.tabs),
        paths_differ(m.tabs),
        0 <= k < m.tabs.len(),
        exists|i: int| 0 <= i < m.tabs.len() && same_path((#[trigger] m.tabs[i]).path@, path),
    ensures
        ({
            let after = m.preview_settled(path).tabs;
            &&& same_path(m.tabs[k].path@, path) ==> after.contains(EditorTab { preview: true, ..m.tabs[k] })
            &&& !same_path(m.tabs[k].path@, path) && !m.tabs[k].preview ==> after.contains(m.tabs[k])
            &&& !same_path(m.tabs[k].path@, path) && m.tabs[k].preview && m.tabs[k].dirty ==> after.contains(
                EditorTab { preview: false, ..m.tabs[k] },
            ) && after.len() == m.tabs.len()
            &&& !same_path(m.tabs[k].path@, path) && m.tabs[k].preview && !m.tabs[k].dirty ==> after.len()
                == m.tabs.len() - 1
        }),
{
    settled_tabs_are(m, path);
    settled_tabs_hold(m.tabs, path, k);
}

#[verifier::spinoff_prover]
proof fn settled_tabs_hold(tabs: Seq<EditorTab>, path: Seq<char>, k: int)
    requires
        one_preview(tabs),
        paths_differ(tabs),
        0 <= k < tabs.len(),
        exists|i: int| 0 <= i < tabs.len() && same_path((#[trigger] tabs[i]).path@, path),
    ensures
        ({
            let after = settled_tabs(tabs, path);
            &&& same_path(tabs[k].path@, path) ==> after.contains(EditorTab { preview: true, ..tabs[k] })
            &&& !same_path(tabs[k].path@, path) && !tabs[k].preview ==> after.contains(tabs[k])
            &&& !same_path(tabs[k].path@, path) && tabs[k].preview && tabs[k].dirty ==> after.contains(
                EditorTab { preview: false, ..tabs[k] },
            ) && after.len() == tabs.len()
            &&& !same_path(tabs[k].path@, path) && tabs[k].preview && !tabs[k].dirty ==> after.len() == tabs.len() - 1
        }),
{
    let wanted = shows(path);
    let others = previews_other(path);
    first_index_holds(tabs, wanted);
    let i = choose|i: int| 0 <= i < tabs.len() && same_path((#[trigger] tabs[i]).path@, path);
    assert(wanted(tabs[i]));
    let n = first_index(tabs, wanted)->0;
    assert(same_path(tabs[n].path@, path));
    if same_path(tabs[k].path@, path) && k != n {
        if k < n {
            assert(!same_path(tabs[k].path@, tabs[n].path@));
        } else {
            assert(!same_path(tabs[n].path@, tabs[k].path@));
        }
    }
    let marked = tabs.update(n, EditorTab { preview: true, ..tabs[n] });
    let after = settled_tabs(tabs, path);
    first_index_holds(marked, others);
    match first_index(marked, others) {
        None => {
            assert(after == marked);
            assert(!others(marked[k]));
            assert(after[k] == marked[k]);
        },
        Some(p) => {
            assert(others(marked[p]));
            assert(p != n);
            if k != p && k != n {
                assert(tabs[p].preview);
                if k < p {
                    assert(!(tabs[k].preview && tabs[p].preview));
                } else {
                    assert(!(tabs[p].preview && tabs[k].preview));
                }
            }
            if marked[p].dirty {
                assert(after[k] == if k == p { EditorTab { preview: false, ..marked[p] } } else { marked[k] });
            } else if k != p {
                tabs_stay_when_a_preview_goes(marked, n, p, k);
                assert(after.contains(marked[k]));
            }
        },
    }
}

proof fn tabs_stay_when_a_preview_goes(tabs: Seq<EditorTab>, n: int, p: int, k: int)
    requires
        0 <= n < tabs.len(),
        0 <= p < tabs.len(),
        0 <= k < tabs.len(),
        p != n,
        k != p,
    ensures
        p < n ==> moved(tabs, n, p).remove(p + 1).contains(tabs[k]),
        p > n ==> tabs.remove(p).contains(tabs[k]),
{
    if p < n {
        moving_keeps_items(tabs, n, p);
        let shifted = moved(tabs, n, p);
        let at = moved_index(k, n, p);
        assert(shifted[at] == tabs[k]);
        assert(at != p + 1);
        let after = shifted.remove(p + 1);
        assert(after[if at < p + 1 { at } else { at - 1 }] == shifted[at]);
    } else {
        let after = tabs.remove(p);
        assert(after[if k < p { k } else { k - 1 }] == tabs[k]);
    }
}

/// A file that is active when it is opened as a preview is active afterwards.
pub proof fn an_active_preview_stays_active(m: Model, path: Seq<char>)
    requires
        m.active_tab < m.tabs.len() <= usize::MAX,
        m.tab_of(path) == Some(m.active_tab as int),
    ensures
        m.preview_settled(path).active_tab < m.preview_settled(path).tabs.len(),
        m.preview_settled(path).tab() == (EditorTab { preview: true, ..m.tabs[m.active_tab as int] }),
{
    reveal(Model::preview_settled);
    reveal(Model::preview_replaced);
    reveal(Model::slot_synced);
    let n = m.active_tab as int;
    let marked = m.preview_set(n, true);
    let others = previews_other(path);
    first_index_holds(m.tabs, shows(path));
    first_index_holds(marked.tabs, others);
    if let Some(p) = marked.other_preview(path) {
        assert(p != n);
        if !marked.tabs[p].dirty {
            if p < n {
                moving_keeps_the_active_tab(marked, n, p);
                let shifted = marked.tab_moved(n, p);
                assert(shifted.active_tab == p);
                closing_keeps_the_active_tab(shifted, p + 1);
                reveal(Model::tab_closed);
            } else {
                closing_keeps_the_active_tab(marked, p);
                reveal(Model::tab_closed);
            }
        }
    }
}

} // verus!
