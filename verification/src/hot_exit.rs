//! Unsaved texts that outlive the window.

use vstd::prelude::*;
use vstd::string::*;
use crate::auto_save::next_generation;
use crate::paths::{is_same_path, names_path, same_path};
use crate::preview_tabs::shows;
use crate::seqs::{filter_comes_from, filter_holds, filter_keeps, filter_none, filter_step, first_index};
use crate::workspace::{Effect, EditorTab, HotExitRow, Model, Workspace};

verus! {

/// How long after the last edit unsaved texts are kept, in milliseconds.
pub const HOT_EXIT_DELAY: u64 = 2000;

/// The row belongs to this host.
pub open spec fn of_scope(scope: Seq<char>) -> spec_fn(HotExitRow) -> bool {
    |row: HotExitRow| row.scope@ == scope
}

/// What is done with the text of a tab: an unsaved one is kept, a saved one needs no keeping.
pub open spec fn snapshot_of(host: Option<String>) -> spec_fn(EditorTab) -> Effect {
    |tab: EditorTab|
        if tab.dirty {
            Effect::SaveHotExit { host, path: tab.path, tab: tab.id }
        } else {
            Effect::RemoveHotExit { host, path: tab.path }
        }
}

/// The paths of these rows.
pub open spec fn row_paths(rows: Seq<HotExitRow>) -> Seq<Seq<char>> {
    rows.map_values(|row: HotExitRow| row.path@)
}

/// What brings kept texts back: each file is opened if it has no tab, and gets its text. A file that was
/// to be opened for an earlier row is opened only if that failed.
pub open spec fn restoring(tabs: Seq<EditorTab>, rows: Seq<HotExitRow>) -> Seq<Effect>
    decreases rows.len(),
{
    if rows.len() == 0 {
        Seq::empty()
    } else {
        let row = rows.last();
        let before = restoring(tabs, rows.drop_last());
        let opened = if first_index(tabs, shows(row.path@)) is Some {
            before
        } else if names_path(row_paths(rows.drop_last()), row.path@) {
            before.push(Effect::OpenFileIfClosed(row.path))
        } else {
            before.push(Effect::OpenFileSync(row.path))
        };
        opened.push(Effect::ReplaceText { path: row.path, content: row.content })
    }
}

/// What the texts of a host are kept under; without a host they are those of this machine.
pub open spec fn scope_of(host: Option<String>) -> Seq<char> {
    match host {
        Some(id) => id@,
        None => "local"@,
    }
}

/// What the texts of a host are kept under.
pub fn hot_exit_scope_of(host: &Option<String>) -> (scope: String)
    ensures
        scope@ == scope_of(*host),
{
    match host {
        Some(id) => id.clone(),
        None => "local".to_owned(),
    }
}

impl Model {
    /// What the texts of the host of the shown project are kept under.
    pub open spec fn hot_exit_scope(self) -> Seq<char> {
        scope_of(self.hot_exit_host())
    }

    /// Every text of the shown project is kept, or forgotten.
    pub open spec fn snapshot_taken(self, generation: u64) -> Model {
        if self.hot_exit_gen == generation && self.hot_exit_pending is None {
            Model {
                effects: self.effects + self.tabs.map_values(snapshot_of(self.hot_exit_host())),
                ..self
            }
        } else {
            self
        }
    }
}

/// Whether one of the first `n` rows names a path.
fn rows_name_path(rows: &Vec<HotExitRow>, n: usize, path: &str) -> (r: bool)
    requires
        n <= rows@.len(),
    ensures
        r == names_path(row_paths(rows@.take(n as int)), path@),
{
    let ghost paths = row_paths(rows@.take(n as int));
    let mut i: usize = 0;
    while i < n
        invariant
            i <= n <= rows@.len(),
            paths == row_paths(rows@.take(n as int)),
            forall|k: int| 0 <= k < i ==> !same_path(#[trigger] paths[k], path@),
        decreases n - i,
    {
        assert(paths[i as int] == rows@[i as int].path@);
        if is_same_path(rows[i].path.as_str(), path) {
            return true;
        }
        i = i + 1;
    }
    false
}

impl Workspace {
    /// What tells the host of the shown project from others, so that the same path on two machines
    /// is not mixed up.
    pub fn active_hot_exit_scope(&self) -> (scope: String)
        ensures
            scope@ == self@.hot_exit_scope(),
    {
        hot_exit_scope_of(&self.active_host())
    }

    /// The host of the shown project, where there is one.
    pub fn active_host(&self) -> (host: Option<String>)
        ensures
            host == self@.hot_exit_host(),
    {
        if self.has_active_slot() {
            Some(self.projects[self.active].host_id.clone())
        } else {
            None
        }
    }

    /// A text was edited: asks to be called again in a while.
    pub fn schedule_hot_exit_snapshot(&mut self)
        ensures
            final(self)@ == if old(self)@.has_storage {
                let next = next_generation(old(self)@.hot_exit_gen);
                (Model { hot_exit_gen: next, ..old(self)@ }).then_do(Effect::WaitToSnapshot(next))
            } else {
                old(self)@
            },
    {
        if !self.has_storage {
            return;
        }
        self.hot_exit_gen = self.hot_exit_gen.wrapping_add(1);
        let generation: u64 = self.hot_exit_gen;
        self.effect(Effect::WaitToSnapshot(generation));
    }

    /// The time that was asked for as `generation` is over: keeps every unsaved text, unless there
    /// was an edit since, or texts that were kept before still wait to be brought back.
    pub fn hot_exit_snapshot_due(&mut self, generation: u64)
        ensures
            final(self)@ == old(self)@.snapshot_taken(generation),
    {
        if self.hot_exit_gen != generation || self.hot_exit_pending.is_some() {
            return;
        }
        let host = self.active_host();
        let ghost tabs = self.tabs@;
        let ghost what = snapshot_of(host);
        let mut i: usize = 0;
        assert(self@.effects =~= old(self)@.effects + tabs.take(0).map_values(what));
        while i < self.tabs.len()
            invariant
                i <= tabs.len(),
                tabs == old(self)@.tabs,
                what == snapshot_of(host),
                self@ == (Model { effects: old(self)@.effects + tabs.take(i as int).map_values(what), ..old(self)@ }),
            decreases tabs.len() - i,
        {
            let path = self.tabs[i].path.clone();
            let host = crate::seqs::copy_maybe(&host);
            if self.tabs[i].dirty {
                let tab: u64 = self.tabs[i].id;
                self.effect(Effect::SaveHotExit { host, path, tab });
            } else {
                self.effect(Effect::RemoveHotExit { host, path });
            }
            assert(tabs.take(i + 1) =~= tabs.take(i as int).push(tabs[i as int]));
            assert(self@.effects =~= old(self)@.effects + tabs.take(i + 1).map_values(what));
            i = i + 1;
        }
        assert(tabs.take(tabs.len() as int) =~= tabs);
    }

    /// Asks for the texts that were kept before.
    pub fn check_hot_exit_restore(&mut self)
        ensures
            final(self)@ == if old(self)@.has_storage {
                old(self)@.then_do(Effect::LoadHotExit)
            } else {
                old(self)@
            },
    {
        if self.has_storage {
            self.effect(Effect::LoadHotExit);
        }
    }

    /// The texts that were kept before: those of the host of the shown project wait for the user to
    /// bring them back or to drop them.
    pub fn hot_exit_loaded(&mut self, rows: Vec<HotExitRow>)
        ensures
            ({
                let mine = rows@.filter(of_scope(old(self)@.hot_exit_scope()));
                if mine.len() == 0 {
                    final(self)@ == old(self)@
                } else {
                    &&& final(self)@ == (Model {
                        hot_exit_pending: final(self)@.hot_exit_pending,
                        ..old(self)@
                    })
                    &&& final(self)@.hot_exit_pending matches Some(pending) && pending@ == mine
                }
            }),
    {
        let scope = self.active_hot_exit_scope();
        let ghost all = rows@;
        let ghost keep = of_scope(scope@);
        let mut rest = rows;
        let mut mine: Vec<HotExitRow> = Vec::new();
        let ghost mut done: int = 0;
        proof {
            filter_none(all, keep);
            assert(all.skip(0) =~= all);
        }
        while rest.len() > 0
            invariant
                0 <= done <= all.len(),
                rest@ == all.skip(done),
                keep == of_scope(scope@),
                mine@ == all.take(done).filter(keep),
            decreases rest@.len(),
        {
            let row = rest.remove(0);
            proof {
                assert(row == all[done]);
                filter_step(all, done, keep);
                assert(rest@ =~= all.skip(done + 1));
                done = done + 1;
            }
            if row.scope == scope {
                mine.push(row);
            }
        }
        assert(all.take(all.len() as int) =~= all);
        if mine.len() > 0 {
            self.hot_exit_pending = Some(mine);
        }
    }

    /// Brings the texts back that wait for it.
    pub fn restore_hot_exit(&mut self)
        ensures
            final(self)@ == match old(self)@.hot_exit_pending {
                None => old(self)@,
                Some(rows) => Model {
                    hot_exit_pending: None,
                    effects: old(self)@.effects + restoring(old(self)@.tabs, rows@),
                    ..old(self)@
                },
            },
    {
        let Some(rows) = self.hot_exit_pending.take() else {
            return;
        };
        let ghost tabs = old(self)@.tabs;
        let mut i: usize = 0;
        assert(self@.effects =~= old(self)@.effects + restoring(tabs, rows@.take(0)));
        while i < rows.len()
            invariant
                i <= rows@.len(),
                tabs == old(self)@.tabs,
                self@ == (Model {
                    hot_exit_pending: None,
                    effects: old(self)@.effects + restoring(tabs, rows@.take(i as int)),
                    ..old(self)@
                }),
            decreases rows@.len() - i,
        {
            proof {
                assert(rows@.take(i + 1).drop_last() =~= rows@.take(i as int));
                assert(rows@.take(i + 1).last() == rows@[i as int]);
            }
            let path = rows[i].path.clone();
            if self.tab_with_path(&path).is_none() {
                if rows_name_path(&rows, i, path.as_str()) {
                    self.effect(Effect::OpenFileIfClosed(path.clone()));
                } else {
                    self.effect(Effect::OpenFileSync(path.clone()));
                }
            }
            self.effect(Effect::ReplaceText { path, content: rows[i].content.clone() });
            i = i + 1;
            assert(self@.effects =~= old(self)@.effects + restoring(tabs, rows@.take(i as int)));
        }
        assert(rows@.take(rows@.len() as int) =~= rows@);
    }

    /// Drops the texts that wait to be brought back.
    pub fn discard_hot_exit(&mut self)
        ensures
            ({
                let m = Model { hot_exit_pending: None, ..old(self)@ };
                final(self)@ == if m.has_storage { m.then_do(Effect::ClearHotExit) } else { m }
            }),
    {
        self.hot_exit_pending = None;
        if self.has_storage {
            self.effect(Effect::ClearHotExit);
        }
    }

    /// The application ends in good order: nothing needs to be kept.
    pub fn prepare_quit(&mut self)
        ensures
            final(self)@ == if old(self)@.has_storage {
                old(self)@.then_do(Effect::ClearHotExit)
            } else {
                old(self)@
            },
    {
        if self.has_storage {
            self.effect(Effect::ClearHotExit);
        }
    }
}

/// While kept texts wait for an answer, no snapshot writes or removes anything.
pub proof fn waiting_texts_are_left_alone(m: Model, generation: u64)
    requires
        m.hot_exit_pending is Some,
    ensures
        m.snapshot_taken(generation) == m,
{
}

/// A snapshot keeps every unsaved text, and only those: what was kept of a saved one is removed.
pub proof fn unsaved_texts_are_kept(m: Model, generation: u64, k: int)
    requires
        m.hot_exit_gen == generation,
        m.hot_exit_pending is None,
        0 <= k < m.tabs.len(),
    ensures
        m.snapshot_taken(generation).effects[m.effects.len() + k] == if m.tabs[k].dirty {
            Effect::SaveHotExit { host: m.hot_exit_host(), path: m.tabs[k].path, tab: m.tabs[k].id }
        } else {
            Effect::RemoveHotExit { host: m.hot_exit_host(), path: m.tabs[k].path }
        },
{
}

/// The effect keeps or removes a text under this scope.
pub open spec fn kept_under(effect: Effect, scope: Seq<char>) -> bool {
    match effect {
        Effect::SaveHotExit { host, .. } => scope_of(host) == scope,
        Effect::RemoveHotExit { host, .. } => scope_of(host) == scope,
        _ => false,
    }
}

/// What a snapshot keeps is looked for where it was kept, as long as the same project is shown.
pub proof fn texts_are_looked_for_where_they_are_kept(m: Model, generation: u64, k: int)
    requires
        m.hot_exit_gen == generation,
        m.hot_exit_pending is None,
        0 <= k < m.tabs.len(),
    ensures
        kept_under(m.snapshot_taken(generation).effects[m.effects.len() + k], m.hot_exit_scope()),
{
}

/// Every text that waits comes back into its file.
pub proof fn kept_texts_come_back(tabs: Seq<EditorTab>, rows: Seq<HotExitRow>, k: int)
    requires
        0 <= k < rows.len(),
    ensures
        restoring(tabs, rows).contains(Effect::ReplaceText { path: rows[k].path, content: rows[k].content }),
    decreases rows.len(),
{
    let all = restoring(tabs, rows);
    let wanted = Effect::ReplaceText { path: rows[k].path, content: rows[k].content };
    if k == rows.len() - 1 {
        assert(all.last() == wanted);
    } else {
        let before = restoring(tabs, rows.drop_last());
        kept_texts_come_back(tabs, rows.drop_last(), k);
        let at = choose|i: int| 0 <= i < before.len() && before[i] == wanted;
        assert(all[at] == wanted);
    }
}

/// The texts of a machine are not mixed up with those of another: a text waits exactly if it was kept
/// for the host of the shown project.
pub proof fn machines_are_not_mixed_up(rows: Seq<HotExitRow>, scope: Seq<char>, row: HotExitRow)
    ensures
        rows.filter(of_scope(scope)).contains(row) <==> rows.contains(row) && row.scope@ == scope,
{
    let mine = of_scope(scope);
    filter_holds(rows, mine);
    if rows.filter(mine).contains(row) {
        let i = choose|i: int| 0 <= i < rows.filter(mine).len() && rows.filter(mine)[i] == row;
        assert(mine(rows.filter(mine)[i]));
        filter_comes_from(rows, mine, i);
    }
    if rows.contains(row) && row.scope@ == scope {
        let k = choose|k: int| 0 <= k < rows.len() && rows[k] == row;
        filter_keeps(rows, mine, k);
    }
}

/// Every text that waits comes back right after its file was opened, where no tab shows the file; one
/// that a tab shows is not opened. Only the first row of a file opens it in any case.
pub proof fn files_are_opened_before_their_text(tabs: Seq<EditorTab>, rows: Seq<HotExitRow>, k: int)
    requires
        0 <= k < rows.len(),
    ensures
        ({
            let all = restoring(tabs, rows);
            let has_tab = exists|i: int| 0 <= i < tabs.len() && same_path((#[trigger] tabs[i]).path@, rows[k].path@);
            let earlier = exists|j: int| 0 <= j < k && same_path((#[trigger] rows[j]).path@, rows[k].path@);
            exists|at: int|
                0 <= at < all.len() && #[trigger] all[at] == (Effect::ReplaceText {
                    path: rows[k].path,
                    content: rows[k].content,
                }) && (!has_tab ==> at > 0 && all[at - 1] == if earlier {
                    Effect::OpenFileIfClosed(rows[k].path)
                } else {
                    Effect::OpenFileSync(rows[k].path)
                })
        }),
    decreases rows.len(),
{
    let all = restoring(tabs, rows);
    let rest = rows.drop_last();
    let before = restoring(tabs, rest);
    let has_tab = exists|i: int| 0 <= i < tabs.len() && same_path((#[trigger] tabs[i]).path@, rows[k].path@);
    let earlier = exists|j: int| 0 <= j < k && same_path((#[trigger] rows[j]).path@, rows[k].path@);
    if k == rows.len() - 1 {
        let at = all.len() - 1;
        let wanted = shows(rows[k].path@);
        crate::seqs::first_index_holds(tabs, wanted);
        assert forall|i: int| 0 <= i < tabs.len() implies wanted(#[trigger] tabs[i]) == same_path(
            tabs[i].path@,
            rows[k].path@,
        ) by {}
        let paths = row_paths(rest);
        assert(names_path(paths, rows[k].path@) == earlier) by {
            if earlier {
                let j = choose|j: int| 0 <= j < k && same_path((#[trigger] rows[j]).path@, rows[k].path@);
                assert(paths[j] == rows[j].path@);
            }
            if names_path(paths, rows[k].path@) {
                let j = choose|j: int| 0 <= j < paths.len() && same_path(#[trigger] paths[j], rows[k].path@);
                assert(paths[j] == rows[j].path@);
            }
        }
        assert(all[at] == (Effect::ReplaceText { path: rows[k].path, content: rows[k].content }));
    } else {
        files_are_opened_before_their_text(tabs, rest, k);
        assert(rest[k] == rows[k]);
        assert forall|j: int| 0 <= j < k implies rest[j] == #[trigger] rows[j] by {}
        let opens = if earlier {
            Effect::OpenFileIfClosed(rows[k].path)
        } else {
            Effect::OpenFileSync(rows[k].path)
        };
        assert((exists|j: int| 0 <= j < k && same_path((#[trigger] rest[j]).path@, rest[k].path@)) == earlier) by {
            if earlier {
                let j = choose|j: int| 0 <= j < k && same_path((#[trigger] rows[j]).path@, rows[k].path@);
                assert(same_path(rest[j].path@, rest[k].path@));
            }
        }
        let at = choose|at: int|
            0 <= at < before.len() && #[trigger] before[at] == (Effect::ReplaceText {
                path: rows[k].path,
                content: rows[k].content,
            }) && (!has_tab ==> at > 0 && before[at - 1] == opens);
        assert(all[at] == before[at]);
        if at > 0 {
            assert(all[at - 1] == before[at - 1]);
        }
    }
}

/// Texts come back in the order in which they wait: the last one of a file is the one that it has in
/// the end.
pub proof fn the_last_text_of_a_file_stays(tabs: Seq<EditorTab>, rows: Seq<HotExitRow>)
    requires
        rows.len() > 0,
    ensures
        restoring(tabs, rows).last() == (Effect::ReplaceText { path: rows.last().path, content: rows.last().content }),
        restoring(tabs, rows.drop_last()).is_prefix_of(restoring(tabs, rows)),
        restoring(tabs, Seq::empty()).len() == 0,
{
}

/// What brings texts back opens only files that wait and that no tab shows, and puts only their texts.
pub proof fn nothing_else_is_brought_back(tabs: Seq<EditorTab>, rows: Seq<HotExitRow>, i: int)
    requires
        0 <= i < restoring(tabs, rows).len(),
    ensures
        exists|k: int|
            0 <= k < rows.len() && {
                let row = #[trigger] rows[k];
                let effect = restoring(tabs, rows)[i];
                ||| effect == (Effect::ReplaceText { path: row.path, content: row.content })
                ||| (effect == Effect::OpenFileSync(row.path) || effect == Effect::OpenFileIfClosed(row.path))
                    && forall|t: int| 0 <= t < tabs.len() ==> !same_path((#[trigger] tabs[t]).path@, row.path@)
            },
    decreases rows.len(),
{
    let last = rows.len() - 1;
    let rest = rows.drop_last();
    let before = restoring(tabs, rest);
    if i < before.len() {
        nothing_else_is_brought_back(tabs, rest, i);
        assert(restoring(tabs, rows)[i] == before[i]);
        let k = choose|k: int|
            0 <= k < rest.len() && {
                let row = #[trigger] rest[k];
                let effect = before[i];
                ||| effect == (Effect::ReplaceText { path: row.path, content: row.content })
                ||| (effect == Effect::OpenFileSync(row.path) || effect == Effect::OpenFileIfClosed(row.path))
                    && forall|t: int| 0 <= t < tabs.len() ==> !same_path((#[trigger] tabs[t]).path@, row.path@)
            };
        assert(rows[k] == rest[k]);
    } else {
        let wanted = shows(rows[last].path@);
        crate::seqs::first_index_holds(tabs, wanted);
        assert forall|t: int| 0 <= t < tabs.len() implies wanted(#[trigger] tabs[t]) == same_path(
            tabs[t].path@,
            rows[last].path@,
        ) by {}
        assert(rows[last] == rows.last());
    }
}

/// A snapshot is of every tab of the shown project, for the host of that project: one effect for each
/// tab, which keeps its text exactly if it has unsaved edits.
pub proof fn a_snapshot_is_of_every_tab(m: Model, generation: u64)
    requires
        m.active < m.projects.len(),
    ensures
        ({
            let after = m.snapshot_taken(generation);
            let n = m.effects.len() as int;
            let host = Some(m.projects[m.active as int].host_id);
            &&& m.hot_exit_gen != generation || m.hot_exit_pending is Some ==> after == m
            &&& m.hot_exit_gen == generation && m.hot_exit_pending is None ==> {
                &&& after.effects.len() == n + m.tabs.len()
                &&& after.effects.take(n) == m.effects
                &&& forall|k: int|
                    0 <= k < m.tabs.len() && (#[trigger] m.tabs[k]).dirty ==> after.effects[n + k]
                        == (Effect::SaveHotExit { host, path: m.tabs[k].path, tab: m.tabs[k].id })
                &&& forall|k: int|
                    0 <= k < m.tabs.len() && !(#[trigger] m.tabs[k]).dirty ==> after.effects[n + k]
                        == (Effect::RemoveHotExit { host, path: m.tabs[k].path })
            }
        }),
{
    let after = m.snapshot_taken(generation);
    assert(after.effects.take(m.effects.len() as int) =~= m.effects);
}

/// What is kept for two hosts is kept apart, and what is kept without one is kept for this machine.
pub proof fn hosts_are_kept_apart(a: Option<String>, b: Option<String>)
    ensures
        scope_of(a) == scope_of(b) && a is Some && b is Some ==> a->0@ == b->0@,
        a is None ==> scope_of(a) == seq!['l', 'o', 'c', 'a', 'l'],
{
    reveal_strlit("local");
    assert("local"@ =~= seq!['l', 'o', 'c', 'a', 'l']);
}

} // verus!
