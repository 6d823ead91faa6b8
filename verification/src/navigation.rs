//! Going to a line, and back and forth between places.

use vstd::prelude::*;
use vstd::string::*;
use crate::paths::{is_same_path, same_path};
use crate::preview_tabs::{paths_differ, shows};
use crate::seqs::{first_index, first_index_holds, first_index_is, first_index_none};
use crate::text::{
    all_digits, chars_of, digits_value, holds_only_digits, parse_number, same_text, text_of, trim,
    trimmed,
};
use crate::workspace::{EditorTab, Effect, FocusTarget, Keystroke, Model, NavPosition, Workspace};

verus! {

/// How many places are remembered.
pub const NAV_LIMIT: usize = 100;

/// How long the number of a line may get before more digits are refused.
pub const LINE_DIGITS: usize = 9;

/// The same place in the same file.
pub open spec fn same_place(a: NavPosition, b: NavPosition) -> bool {
    same_path(a.path@, b.path@) && a.offset == b.offset
}

/// The line that a text of digits asks for, where the number fits.
pub open spec fn asked_line(value: Seq<char>) -> Option<usize> {
    let s = trim(value);
    if s.len() > 0 && all_digits(s) && digits_value(s) <= usize::MAX {
        Some(digits_value(s) as usize)
    } else {
        None
    }
}

impl Model {
    /// The line box holds nothing but digits.
    pub open spec fn goto_wf(self) -> bool {
        self.goto_line matches Some(value) ==> all_digits(value@)
    }

    /// The place of the caret.
    pub open spec fn place(self) -> Option<NavPosition> {
        if self.has_active_editor() {
            Some(NavPosition { path: self.tab().path, offset: self.tab().caret })
        } else {
            None
        }
    }

    /// The line box is closed.
    pub open spec fn goto_closed(self) -> Model {
        if self.goto_line is Some {
            (Model { goto_line: None, ..self }).focus_editor()
        } else {
            self
        }
    }

    /// The place of the caret is remembered, and there is nothing to go forth to.
    pub open spec fn place_recorded(self) -> Model {
        match self.place() {
            None => self,
            Some(place) => if self.nav_back.len() > 0 && same_place(self.nav_back.last(), place) {
                self
            } else {
                let back = self.nav_back.push(place);
                Model {
                    nav_back: if back.len() > NAV_LIMIT { back.remove(0) } else { back },
                    nav_forward: Seq::empty(),
                    ..self
                }
            },
        }
    }

    /// The caret is put at a place; a file without a tab is opened first.
    pub open spec fn gone_to(self, path: String, offset: usize) -> Model {
        if self.active_tab < self.tabs.len() && same_path(self.tab().path@, path@) {
            self.caret_put(offset)
        } else {
            match self.tab_of(path@) {
                Some(index) => self.tab_selected(index).caret_put(offset),
                None => if self.has_slot() {
                    self.then_do(Effect::OpenFileAndSelect { path, offset })
                } else {
                    self
                },
            }
        }
    }

    /// The caret of the active editor is put at an offset.
    pub open spec fn caret_put(self, offset: usize) -> Model {
        if self.has_active_editor() {
            self.then_do(Effect::SelectText { tab: self.tab().id, offset })
        } else {
            self
        }
    }

    /// The last place is left for the one before it.
    pub open spec fn left_back(self) -> Model {
        Model {
            nav_back: self.nav_back.drop_last(),
            nav_forward: match self.place() {
                Some(place) => self.nav_forward.push(place),
                None => self.nav_forward,
            },
            ..self
        }
    }

    /// The last place is left for the one after it.
    pub open spec fn left_forward(self) -> Model {
        Model {
            nav_forward: self.nav_forward.drop_last(),
            nav_back: match self.place() {
                Some(place) => self.nav_back.push(place),
                None => self.nav_back,
            },
            ..self
        }
    }

    pub open spec fn gone_back(self) -> Model {
        if self.nav_back.len() == 0 {
            self
        } else {
            self.left_back().gone_to(self.nav_back.last().path, self.nav_back.last().offset)
        }
    }

    pub open spec fn gone_forward(self) -> Model {
        if self.nav_forward.len() == 0 {
            self
        } else {
            self.left_forward().gone_to(self.nav_forward.last().path, self.nav_forward.last().offset)
        }
    }

    /// The line that was typed is shown, and the place before it is remembered.
    pub open spec fn line_revealed(self, line: Option<usize>) -> Model {
        if line is Some && self.has_active_editor() {
            self.place_recorded().then_do(
                Effect::RevealLine {
                    tab: self.tab().id,
                    line: if line->0 > 0 { (line->0 - 1) as usize } else { 0 },
                },
            )
        } else {
            self
        }
    }
}

/// A tab with the caret of the editor at an offset, where it shows that editor.
pub open spec fn caret_set(editor: u64, offset: usize) -> spec_fn(EditorTab) -> EditorTab {
    |tab: EditorTab|
        if tab.id == editor {
            EditorTab { caret: offset, ..tab }
        } else {
            tab
        }
}

impl Model {
    /// The caret of an editor is at an offset, in every tab that shows it.
    pub open spec fn caret_at(self, editor: u64, offset: usize) -> Model {
        Model { tabs: self.tabs.map_values(caret_set(editor, offset)), ..self }
    }
}

impl Workspace {
    /// The caret of an editor was moved.
    pub fn caret_moved(&mut self, editor: u64, offset: usize)
        ensures
            final(self)@ == old(self)@.caret_at(editor, offset),
    {
        let ghost tabs = self.tabs@;
        let ghost set = caret_set(editor, offset);
        let mut i: usize = 0;
        while i < self.tabs.len()
            invariant
                i <= self.tabs@.len() == tabs.len(),
                set == caret_set(editor, offset),
                self@ == (Model { tabs: self.tabs@, ..old(self)@ }),
                forall|j: int| 0 <= j < i ==> #[trigger] self.tabs@[j] == set(tabs[j]),
                forall|j: int| i <= j < tabs.len() ==> #[trigger] self.tabs@[j] == tabs[j],
            decreases tabs.len() - i,
        {
            if self.tabs[i].id == editor {
                self.tabs[i].caret = offset;
            }
            i = i + 1;
        }
        assert(self.tabs@ =~= tabs.map_values(set));
    }

    /// Opens the line box, over an editor.
    pub fn open_goto_line(&mut self)
        ensures
            if old(self)@.has_active_editor() {
                &&& final(self)@ == (Model { goto_line: final(self)@.goto_line, ..old(self)@ }).then_do(
                    Effect::Focus(FocusTarget::GotoLine),
                )
                &&& final(self)@.goto_line matches Some(value) && value@ == Seq::<char>::empty()
            } else {
                final(self)@ == old(self)@
            },
    {
        if self.active_editor().is_none() {
            return;
        }
        self.effect(Effect::Focus(FocusTarget::GotoLine));
        self.goto_line = Some(String::new());
    }

    /// Closes the line box; the focus goes back to the editor.
    pub fn close_goto_line(&mut self)
        ensures
            final(self)@ == old(self)@.goto_closed(),
    {
        if self.goto_line.is_some() {
            self.goto_line = None;
            self.focus_active_editor();
        }
    }

    /// The line that was typed.
    fn typed_line(&self) -> (line: Option<usize>)
        ensures
            line == match self@.goto_line {
                Some(value) => asked_line(value@),
                None => None::<usize>,
            },
    {
        match &self.goto_line {
            Some(value) => {
                let digits = trimmed(value.as_str());
                match parse_number(digits.as_str()) {
                    Some(n) => if n <= usize::MAX as u64 {
                        Some(n as usize)
                    } else {
                        None
                    },
                    None => None,
                }
            },
            None => None,
        }
    }

    fn reveal_line(&mut self, line: Option<usize>)
        ensures
            final(self)@ == old(self)@.line_revealed(line),
    {
        if let Some(line) = line {
            if let Some(tab) = self.active_editor() {
                self.record_nav_position();
                let row: usize = if line > 0 {
                    line - 1
                } else {
                    0
                };
                self.effect(Effect::RevealLine { tab, line: row });
            }
        }
    }

    /// A key was pressed in the line box: escape closes it, enter goes to the line, backspace takes
    /// a digit away, and digits are added while the number is short.
    pub fn on_goto_line_key_down(&mut self, keystroke: &Keystroke)
        requires
            old(self)@.goto_wf(),
        ensures
            final(self)@.goto_wf(),
            if keystroke.key@ == "escape"@ {
                final(self)@ == old(self)@.goto_closed()
            } else if keystroke.key@ == "enter"@ {
                final(self)@ == old(self)@.goto_closed().line_revealed(
                    match old(self)@.goto_line {
                        Some(value) => asked_line(value@),
                        None => None::<usize>,
                    },
                )
            } else {
                &&& final(self)@ == (Model { goto_line: final(self)@.goto_line, ..old(self)@ })
                &&& match old(self)@.goto_line {
                    None => final(self)@.goto_line is None,
                    Some(value) => final(self)@.goto_line matches Some(now) && now@ == if keystroke.key@
                        == "backspace"@ {
                        if value@.len() > 0 { value@.drop_last() } else { value@ }
                    } else if keystroke.key_char matches Some(typed) && typed@.len() > 0 && all_digits(typed@)
                        && value@.len() < LINE_DIGITS {
                        value@ + keystroke.key_char->0@
                    } else {
                        value@
                    },
                }
            },
    {
        if same_text(keystroke.key.as_str(), "escape") {
            self.close_goto_line();
        } else if same_text(keystroke.key.as_str(), "enter") {
            let line = self.typed_line();
            self.close_goto_line();
            self.reveal_line(line);
        } else if same_text(keystroke.key.as_str(), "backspace") {
            if let Some(value) = self.goto_line.take() {
                let chars = chars_of(value.as_str());
                let keep: usize = if chars.len() > 0 {
                    chars.len() - 1
                } else {
                    0
                };
                let shorter = text_of(&chars, 0, keep);
                proof {
                    if value@.len() > 0 {
                        assert(shorter@ =~= value@.drop_last());
                    } else {
                        assert(shorter@ =~= value@);
                    }
                }
                self.goto_line = Some(shorter);
            }
        } else {
            let Some(typed) = &keystroke.key_char else {
                return;
            };
            if !typed.as_str().is_empty() && holds_only_digits(typed.as_str()) {
                if let Some(mut value) = self.goto_line.take() {
                    if value.as_str().unicode_len() < LINE_DIGITS {
                        value.append(typed.as_str());
                    }
                    self.goto_line = Some(value);
                }
            }
        }
    }

    /// The place of the caret.
    pub fn current_nav_position(&self) -> (place: Option<NavPosition>)
        ensures
            place == self@.place(),
    {
        if self.active_editor().is_some() {
            Some(
                NavPosition {
                    path: self.tabs[self.active_tab].path.clone(),
                    offset: self.tabs[self.active_tab].caret,
                },
            )
        } else {
            None
        }
    }

    /// Remembers the place of the caret, before it goes far away.
    pub fn record_nav_position(&mut self)
        ensures
            final(self)@ == old(self)@.place_recorded(),
    {
        let Some(place) = self.current_nav_position() else {
            return;
        };
        let count: usize = self.nav_back.len();
        if count > 0 && is_same_path(self.nav_back[count - 1].path.as_str(), place.path.as_str())
            && self.nav_back[count - 1].offset == place.offset {
            return;
        }
        self.nav_back.push(place);
        if self.nav_back.len() > NAV_LIMIT {
            self.nav_back.remove(0);
        }
        self.nav_forward.clear();
    }

    /// Goes back to the place before.
    pub fn navigate_back(&mut self)
        ensures
            final(self)@ == old(self)@.gone_back(),
    {
        let Some(target) = self.nav_back.pop() else {
            return;
        };
        if let Some(current) = self.current_nav_position() {
            self.nav_forward.push(current);
        }
        assert(self@ == old(self)@.left_back()) by {
            assert(self@.nav_back =~= old(self)@.nav_back.drop_last());
        }
        self.navigate_to(target);
    }

    /// Goes forth to the place after.
    pub fn navigate_forward(&mut self)
        ensures
            final(self)@ == old(self)@.gone_forward(),
    {
        let Some(target) = self.nav_forward.pop() else {
            return;
        };
        if let Some(current) = self.current_nav_position() {
            self.nav_back.push(current);
        }
        assert(self@ == old(self)@.left_forward()) by {
            assert(self@.nav_forward =~= old(self)@.nav_forward.drop_last());
        }
        self.navigate_to(target);
    }

    fn put_caret(&mut self, offset: usize)
        ensures
            final(self)@ == old(self)@.caret_put(offset),
    {
        if let Some(tab) = self.active_editor() {
            self.effect(Effect::SelectText { tab, offset });
        }
    }

    /// Puts the caret at a place; a file without a tab is opened first.
    pub fn navigate_to(&mut self, target: NavPosition)
        ensures
            final(self)@ == old(self)@.gone_to(target.path, target.offset),
    {
        let NavPosition { path, offset } = target;
        if self.active_tab < self.tabs.len() && is_same_path(
            self.tabs[self.active_tab].path.as_str(),
            path.as_str(),
        ) {
            self.put_caret(offset);
            return;
        }
        if let Some(index) = self.tab_with_path(&path) {
            self.select_tab(index);
            self.put_caret(offset);
            return;
        }
        if self.has_active_slot() {
            self.effect(Effect::OpenFileAndSelect { path, offset });
        }
    }
}

/// A place that was remembered is the first one to go back to, there is nothing to go forth to, and
/// no more places are remembered than the limit.
pub proof fn recorded_places_come_back_first(m: Model)
    requires
        m.has_active_editor(),
        m.nav_back.len() <= NAV_LIMIT,
    ensures
        m.place_recorded().nav_back.len() > 0,
        m.place_recorded().nav_back.len() <= NAV_LIMIT,
        same_place(m.place_recorded().nav_back.last(), m.place()->0),
        m.place_recorded() != m ==> m.place_recorded().nav_forward.len() == 0,
{
}

/// Remembering the same place twice in a row changes nothing.
pub proof fn recording_twice_is_recording_once(m: Model)
    ensures
        m.place_recorded().place_recorded() == m.place_recorded(),
{
}

proof fn selecting_keeps_the_tabs(m: Model, index: int)
    requires
        0 <= index < m.tabs.len() <= usize::MAX,
    ensures
        m.tab_selected(index).tabs == m.tabs,
        m.tab_selected(index).active_tab == index,
        m.tab_selected(index).nav_back == m.nav_back,
        m.tab_selected(index).nav_forward == m.nav_forward,
{
    reveal(Model::tab_selected);
}

/// The tab that going to a file leads to, from the tab at `from`: that one where it shows the file, or else
/// the first that does.
pub open spec fn leads_to(tabs: Seq<EditorTab>, from: int, path: Seq<char>) -> int {
    if from < tabs.len() && same_path(tabs[from].path@, path) {
        from
    } else {
        first_index(tabs, shows(path))->0
    }
}

/// Going to a place of a file that has a tab asks for the caret there in such a tab; once the caret was
/// moved, it is at that place. What is left to go back and forth to stays, and so do the files of the
/// tabs.
pub proof fn going_arrives(m: Model, path: String, offset: usize)
    requires
        m.tabs.len() <= usize::MAX,
        m.tab_of(path@) is Some,
        m.tabs[leads_to(m.tabs, m.active_tab as int, path@)].has_editor,
    ensures
        ({
            let asked = m.gone_to(path, offset);
            let there = asked.caret_at(asked.tab().id, offset);
            &&& asked.effects.last() == (Effect::SelectText { tab: asked.tab().id, offset })
            &&& asked.tabs == m.tabs
            &&& asked.active_tab == leads_to(m.tabs, m.active_tab as int, path@)
            &&& asked.active_tab < m.tabs.len()
            &&& there.active_tab == asked.active_tab
            &&& there.place() is Some
            &&& same_place(there.place()->0, NavPosition { path, offset })
            &&& there.nav_back == m.nav_back
            &&& there.nav_forward == m.nav_forward
            &&& there.tabs.len() == m.tabs.len()
            &&& forall|i: int|
                0 <= i < m.tabs.len() ==> (#[trigger] there.tabs[i]).path == m.tabs[i].path
                    && there.tabs[i].has_editor == m.tabs[i].has_editor
        }),
{
    first_index_holds(m.tabs, shows(path@));
    selecting_keeps_the_tabs(m, m.tab_of(path@)->0);
}

proof fn same_paths_same_tab(a: Seq<EditorTab>, b: Seq<EditorTab>, path: Seq<char>)
    requires
        a.len() == b.len(),
        forall|i: int| 0 <= i < a.len() ==> (#[trigger] a[i]).path == b[i].path,
    ensures
        first_index(a, shows(path)) == first_index(b, shows(path)),
{
    let wanted = shows(path);
    first_index_holds(a, wanted);
    match first_index(a, wanted) {
        Some(i) => {
            assert(a[i].path == b[i].path);
            assert forall|j: int| 0 <= j < i implies !wanted(#[trigger] b[j]) by {
                assert(a[j].path == b[j].path);
            }
            first_index_is(b, wanted, i);
        },
        None => {
            assert forall|j: int| 0 <= j < b.len() implies !wanted(#[trigger] b[j]) by {
                assert(a[j].path == b[j].path);
            }
            first_index_none(b, wanted);
        },
    }
}

/// Going back and then forth, with the caret moved each time to where it is asked to be, comes back to
/// the same place, with the same places left to go back and forth to; where no two tabs are of one
/// file, also to the same tab.
pub proof fn back_and_forth_is_nowhere(m: Model)
    requires
        m.tabs.len() <= usize::MAX,
        m.place() is Some,
        m.nav_back.len() > 0,
        m.tab_of(m.nav_back.last().path@) is Some,
        ({
            let back = leads_to(m.tabs, m.active_tab as int, m.nav_back.last().path@);
            m.tabs[back].has_editor && m.tabs[leads_to(m.tabs, back, m.tab().path@)].has_editor
        }),
    ensures
        ({
            let back = m.gone_back();
            let there = back.caret_at(back.tab().id, m.nav_back.last().offset);
            let forth = there.gone_forward();
            let here = forth.caret_at(forth.tab().id, m.place()->0.offset);
            &&& same_place(there.place()->0, m.nav_back.last())
            &&& here.place() is Some
            &&& same_place(here.place()->0, m.place()->0)
            &&& here.nav_forward == m.nav_forward
            &&& here.nav_back.len() == m.nav_back.len()
            &&& here.nav_back.drop_last() == m.nav_back.drop_last()
            &&& same_place(here.nav_back.last(), m.nav_back.last())
            &&& paths_differ(m.tabs) ==> here.active_tab == m.active_tab && here.place() == m.place()
        }),
{
    let target = m.nav_back.last();
    let current = m.place()->0;
    let at = m.active_tab as int;
    going_arrives(m.left_back(), target.path, target.offset);
    let back = m.gone_back();
    let there = back.caret_at(back.tab().id, target.offset);
    assert(there.nav_forward.last() == current);
    assert(there.nav_forward.drop_last() =~= m.nav_forward);
    let left = there.left_forward();
    assert(there.tabs[at].path == m.tabs[at].path);
    assert(shows(current.path@)(left.tabs[at]));
    first_index_holds(left.tabs, shows(current.path@));
    first_index_holds(m.tabs, shows(current.path@));
    same_paths_same_tab(left.tabs, m.tabs, current.path@);
    let to = leads_to(left.tabs, left.active_tab as int, current.path@);
    assert(left.tabs[left.active_tab as int].path == m.tabs[left.active_tab as int].path);
    assert(to == leads_to(m.tabs, left.active_tab as int, current.path@));
    assert(left.tabs[to].has_editor == m.tabs[to].has_editor);
    going_arrives(left, current.path, current.offset);
    let forth = there.gone_forward();
    let here = forth.caret_at(forth.tab().id, current.offset);
    assert(here.nav_back =~= m.nav_back.drop_last().push(there.place()->0));
    assert(here.nav_back.drop_last() =~= m.nav_back.drop_last());
    if paths_differ(m.tabs) {
        let now = here.active_tab as int;
        assert(there.tabs[now].path == m.tabs[now].path);
        assert(here.tabs[now].path == there.tabs[now].path);
        if now < at {
            assert(!same_path(m.tabs[now].path@, m.tabs[at].path@));
        } else if at < now {
            assert(!same_path(m.tabs[at].path@, m.tabs[now].path@));
        }
    }
}

/// Where no two tabs are of one file, going back to an editor and then forth restores the place, the tab
/// and what is left to go back and forth to.
pub proof fn back_and_forth_restores_the_place(m: Model)
    requires
        m.tabs.len() <= usize::MAX,
        paths_differ(m.tabs),
        m.place() is Some,
        m.nav_back.len() > 0,
        m.tab_of(m.nav_back.last().path@) matches Some(i) && m.tabs[i].has_editor,
    ensures
        ({
            let back = m.gone_back();
            let there = back.caret_at(back.tab().id, m.nav_back.last().offset);
            let forth = there.gone_forward();
            let here = forth.caret_at(forth.tab().id, m.place()->0.offset);
            &&& here.place() == m.place()
            &&& here.active_tab == m.active_tab
            &&& here.nav_forward == m.nav_forward
            &&& here.nav_back.len() == m.nav_back.len()
            &&& here.nav_back.drop_last() == m.nav_back.drop_last()
            &&& same_place(here.nav_back.last(), m.nav_back.last())
        }),
{
    let at = m.active_tab as int;
    let target = m.nav_back.last();
    first_index_holds(m.tabs, shows(target.path@));
    first_index_holds(m.tabs, shows(m.tab().path@));
    assert(shows(m.tab().path@)(m.tabs[at]));
    let first = first_index(m.tabs, shows(m.tab().path@))->0;
    if first < at {
        assert(!same_path(m.tabs[first].path@, m.tabs[at].path@));
    } else if at < first {
        assert(!same_path(m.tabs[at].path@, m.tabs[first].path@));
    }
    back_and_forth_is_nowhere(m);
}

/// The place that is remembered is that of the caret in the active tab; of the places before it all stay
/// but perhaps the oldest, which goes once there are too many.
pub proof fn the_place_of_the_caret_is_remembered(m: Model)
    requires
        m.active_tab < m.tabs.len(),
        m.tabs[m.active_tab as int].has_editor,
        m.nav_back.len() <= NAV_LIMIT,
    ensures
        ({
            let after = m.place_recorded();
            let tab = m.tabs[m.active_tab as int];
            let back = after.nav_back;
            &&& back.len() > 0 && same_path(back.last().path@, tab.path@) && back.last().offset == tab.caret
            &&& after.nav_back != m.nav_back ==> {
                &&& back.last().path == tab.path
                &&& after.nav_forward.len() == 0
                &&& m.nav_back.len() < NAV_LIMIT ==> back.drop_last() == m.nav_back
                &&& m.nav_back.len() == NAV_LIMIT ==> back.drop_last() == m.nav_back.skip(1)
            }
            &&& after.nav_back == m.nav_back ==> after == m || m.nav_back.len() == NAV_LIMIT
            &&& m.nav_back.len() == 0 || !same_path(m.nav_back.last().path@, tab.path@) || m.nav_back.last().offset
                != tab.caret ==> back.last() == (NavPosition { path: tab.path, offset: tab.caret })
            &&& after.tabs == m.tabs && after.effects == m.effects
        }),
{
    let after = m.place_recorded();
    let place = m.place()->0;
    let back = m.nav_back.push(place);
    if back.len() > NAV_LIMIT {
        assert(back.remove(0).drop_last() =~= m.nav_back.skip(1));
    } else {
        assert(back.drop_last() =~= m.nav_back);
    }
}

/// Without an editor there is no place to remember.
pub proof fn there_is_no_place_without_an_editor(m: Model)
    requires
        m.active_tab >= m.tabs.len() || !m.tabs[m.active_tab as int].has_editor,
    ensures
        m.place() is None,
        m.place_recorded() == m,
        forall|line: Option<usize>| #[trigger] m.line_revealed(line) == m,
{
}

/// A file without a tab is opened at the place where it is gone to, in the shown project; and nothing
/// happens where none is shown.
pub proof fn files_without_a_tab_are_opened_there(m: Model, path: String, offset: usize)
    requires
        forall|k: int| 0 <= k < m.tabs.len() ==> !same_path((#[trigger] m.tabs[k]).path@, path@),
    ensures
        m.active < m.projects.len() ==> m.gone_to(path, offset) == (Model {
            effects: m.effects.push(Effect::OpenFileAndSelect { path, offset }),
            ..m
        }),
        m.active >= m.projects.len() ==> m.gone_to(path, offset) == m,
{
    assert forall|j: int| 0 <= j < m.tabs.len() implies !shows(path@)(#[trigger] m.tabs[j]) by {}
    first_index_none(m.tabs, shows(path@));
}

/// Going back leaves one place less to go back to, and the place that is left is the next to go forth
/// to; going forth the other way round.
pub proof fn leaving_a_place_turns_it_round(m: Model)
    requires
        m.active_tab < m.tabs.len() <= usize::MAX,
        m.tabs[m.active_tab as int].has_editor,
    ensures
        ({
            let here = NavPosition { path: m.tabs[m.active_tab as int].path, offset: m.tabs[m.active_tab as int].caret };
            &&& m.nav_back.len() > 0 ==> m.gone_back().nav_forward == m.nav_forward.push(here)
                && m.gone_back().nav_back == m.nav_back.take(m.nav_back.len() - 1)
            &&& m.nav_forward.len() > 0 ==> m.gone_forward().nav_back == m.nav_back.push(here)
                && m.gone_forward().nav_forward == m.nav_forward.take(m.nav_forward.len() - 1)
            &&& m.nav_back.len() == 0 ==> m.gone_back() == m
            &&& m.nav_forward.len() == 0 ==> m.gone_forward() == m
        }),
{
    reveal(Model::tab_selected);
    if m.nav_back.len() > 0 {
        assert(m.nav_back.drop_last() =~= m.nav_back.take(m.nav_back.len() - 1));
        first_index_holds(m.tabs, shows(m.nav_back.last().path@));
    }
    if m.nav_forward.len() > 0 {
        assert(m.nav_forward.drop_last() =~= m.nav_forward.take(m.nav_forward.len() - 1));
        first_index_holds(m.tabs, shows(m.nav_forward.last().path@));
    }
}

/// Lines are counted from one where they are typed: the row before is shown, in the active editor, and
/// the place before that is remembered. Nothing is shown where no number was typed.
pub proof fn lines_are_counted_from_one(m: Model, line: usize)
    requires
        m.active_tab < m.tabs.len(),
        m.tabs[m.active_tab as int].has_editor,
    ensures
        ({
            let after = m.line_revealed(Some(line));
            let id = m.tabs[m.active_tab as int].id;
            &&& after.effects.len() == m.effects.len() + 1
            &&& after.effects.last() is RevealLine && after.effects.last()->RevealLine_tab == id
            &&& line > 0 ==> after.effects.last()->RevealLine_line + 1 == line
            &&& line == 0 ==> after.effects.last()->RevealLine_line == 0
            &&& after.nav_back == m.place_recorded().nav_back
            &&& m.line_revealed(None) == m
        }),
{
}

/// A number that is typed in decimal is the line that is asked for.
pub proof fn typed_numbers_are_asked_for(n: usize, value: Seq<char>)
    ensures
        asked_line(crate::text::decimal(n as nat)) == Some(n),
        asked_line(value) is Some ==> trim(value).len() > 0 && all_digits(trim(value)),
{
    let s = crate::text::decimal(n as nat);
    crate::text::decimal_reads_back(n as nat);
    crate::text::trimming_takes_the_white_space_at_the_ends(s);
    let (a, b) = choose|a: Seq<char>, b: Seq<char>| #[trigger]
        (a + trim(s) + b) == s && (forall|k: int| 0 <= k < a.len() ==> crate::text::whitespace(#[trigger] a[k])) && (
        forall|k: int| 0 <= k < b.len() ==> crate::text::whitespace(#[trigger] b[k]));
    if a.len() > 0 {
        assert(s[0] == a[0]);
        assert(crate::text::whitespace(a[0]));
    }
    if b.len() > 0 {
        assert(s[s.len() - 1] == b[b.len() - 1]);
        assert(crate::text::whitespace(b[b.len() - 1]));
    }
    assert(trim(s) =~= s);
}

/// Moving the caret of an editor moves it in every tab that shows this editor, and in no other.
pub proof fn a_caret_moves_in_its_own_tabs(m: Model, editor: u64, offset: usize, k: int)
    requires
        0 <= k < m.tabs.len(),
    ensures
        m.tabs[k].id == editor ==> m.caret_at(editor, offset).tabs[k] == (EditorTab { caret: offset, ..m.tabs[k] }),
        m.tabs[k].id != editor ==> m.caret_at(editor, offset).tabs[k] == m.tabs[k],
        m.caret_at(editor, offset).tabs.len() == m.tabs.len(),
{
}

/// Closing the line box gives the focus back to the active editor; a closed one stays closed.
pub proof fn closing_the_line_box_gives_the_focus_back(m: Model)
    ensures
        m.goto_line is None ==> m.goto_closed() == m,
        m.goto_closed().goto_line is None,
        m.goto_line is Some && m.active_tab < m.tabs.len() && m.tabs[m.active_tab as int].has_editor
            ==> m.goto_closed().effects == m.effects.push(
            Effect::Focus(FocusTarget::Tab(m.tabs[m.active_tab as int].id)),
        ),
{
}

} // verus!
