//! The history of threads: what it lists, what is selected, and what opening a row does.

use vstd::prelude::*;
use vstd::arithmetic::div_mod::{
    lemma_fundamental_div_mod, lemma_fundamental_div_mod_converse, lemma_mod_bound, lemma_mod_self_0,
    lemma_mod_twice, lemma_small_mod, lemma_sub_mod_noop,
};
use vstd::string::*;
use crate::auto_save::next_generation;
use crate::fleet_sidebar::has_space;
use crate::paths::{file_name, is_same_path, name_of, same_path};
use crate::seqs::{
    copy_maybe, filter_none, filter_step, first_index, first_index_is, first_index_none, maybe_text,
};
use crate::text::{holds_text, join, joined, same_text, texts, trim, trimmed, words, words_of};
use crate::workspace::{
    Boards, Chrome, Effect, FocusTarget, Model, Notice, ProjectSession, ProjectSlot, Workspace,
};

verus! {

/// How many turns a search brings at most.
pub const HISTORY_MATCH_LIMIT: usize = 50;

/// How long after the last change of the query the search begins, in milliseconds.
pub const HISTORY_SEARCH_DEBOUNCE: u64 = 150;

/// A thread of the shown project.
pub struct HistoryThread {
    pub id: String,
    pub name: String,
    pub color_index: i64,
    pub branch: Option<String>,
    pub tokens_used: i64,
    pub archived: bool,
    pub created_at: i64,
    pub last_input_at: Option<i64>,
}

/// A conversation that the agent itself has kept.
pub struct AgentSessionSummary {
    pub session_id: String,
    pub cwd: String,
    pub title: Option<String>,
    pub updated_at_ms: Option<i64>,
}

/// What is known of the conversations that the agent has kept.
pub enum AgentSessions {
    /// There is nobody to ask.
    Unavailable,
    Loading,
    Loaded(Vec<AgentSessionSummary>),
    /// The agent does not list conversations.
    Unsupported,
    Failed(String),
}

/// A turn whose text matches the query.
pub struct HistoryMatch {
    pub project: String,
    pub thread_id: String,
    pub thread_name: String,
    pub color_index: i64,
    pub turn_id: i64,
    pub from_user: bool,
    pub place: String,
    pub snippet: String,
    pub created_at: i64,
}

/// What is known of the turns that match the query.
pub enum HistoryMatches {
    /// There is no query.
    Idle,
    Searching,
    Loaded(Vec<HistoryMatch>),
    Failed(String),
}

/// The history while it is open.
pub struct ThreadHistoryState {
    pub query: String,
    /// What had the focus before.
    pub previous_focus: Option<u64>,
    pub threads: Vec<HistoryThread>,
    /// Of each thread, whether the query matches its name.
    pub thread_hits: Vec<bool>,
    /// The agent that was asked for its conversations.
    pub agent: String,
    /// The machine it runs on, where that is another one.
    pub host: Option<String>,
    /// The panel that conversations are opened in.
    pub panel: u64,
    pub root: String,
    pub agent_sessions: AgentSessions,
    /// Of each conversation of the agent, whether the query matches its title.
    pub session_hits: Vec<bool>,
    pub matches: HistoryMatches,
    /// Counts the changes of the query.
    pub search_generation: u64,
    /// Which of the rows that can be selected is selected.
    pub selected: usize,
}

/// A thread as it is stored, with the project that it belongs to.
pub struct StoredThread {
    pub project: String,
    pub thread: HistoryThread,
}

/// What asking the agent for its conversations has brought.
pub enum SessionListing {
    Listed(Vec<AgentSessionSummary>),
    Unsupported,
    Failed(String),
}

/// The head of a section.
pub enum HistoryHeader {
    Threads,
    Agent { agent: String, host: Option<String> },
    Matches,
}

/// What a section says in place of rows.
pub enum HistoryMessage {
    ThreadsEmpty,
    AgentLoading,
    AgentUnsupported { agent: String },
    AgentFailed { error: String },
    AgentEmpty,
    MatchesSearching,
    MatchesFailed { error: String },
    MatchesEmpty,
}

/// A row of the history.
pub enum HistoryRow {
    Header(HistoryHeader),
    Message(HistoryMessage),
    Thread(usize),
    AgentSession(usize),
    Match(usize),
}

impl HistoryRow {
    pub open spec fn can_select(self) -> bool {
        self is Thread || self is AgentSession || self is Match
    }

    /// Whether the row can be selected.
    pub fn selectable(&self) -> (b: bool)
        ensures
            b == self.can_select(),
    {
        match self {
            HistoryRow::Thread(_) | HistoryRow::AgentSession(_) | HistoryRow::Match(_) => true,
            _ => false,
        }
    }
}

/// The query matches the item at `i`; an empty one matches everything.
pub open spec fn hit(all: bool, hits: Seq<bool>, i: int) -> bool {
    all || (i < hits.len() && hits[i])
}

/// The rows of the first `n` threads that the query matches.
pub open spec fn thread_rows(all: bool, hits: Seq<bool>, n: int) -> Seq<HistoryRow>
    decreases n,
{
    if n <= 0 {
        Seq::empty()
    } else if hit(all, hits, n - 1) {
        thread_rows(all, hits, n - 1).push(HistoryRow::Thread((n - 1) as usize))
    } else {
        thread_rows(all, hits, n - 1)
    }
}

/// The rows of the first `n` conversations that the query matches.
pub open spec fn session_rows(all: bool, hits: Seq<bool>, n: int) -> Seq<HistoryRow>
    decreases n,
{
    if n <= 0 {
        Seq::empty()
    } else if hit(all, hits, n - 1) {
        session_rows(all, hits, n - 1).push(HistoryRow::AgentSession((n - 1) as usize))
    } else {
        session_rows(all, hits, n - 1)
    }
}

/// The rows of the first `n` turns that match.
pub open spec fn match_rows(n: int) -> Seq<HistoryRow> {
    Seq::new(n as nat, |i: int| HistoryRow::Match(i as usize))
}

/// A section: its head, where there is something below it.
pub open spec fn section(header: HistoryHeader, rows: Seq<HistoryRow>) -> Seq<HistoryRow> {
    if rows.len() == 0 {
        Seq::empty()
    } else {
        seq![HistoryRow::Header(header)] + rows
    }
}

impl ThreadHistoryState {
    /// There is no query.
    pub open spec fn shows_all(self) -> bool {
        trim(self.query@).len() == 0
    }

    pub open spec fn thread_section(self) -> Seq<HistoryRow> {
        let rows = thread_rows(self.shows_all(), self.thread_hits@, self.threads@.len() as int);
        section(
            HistoryHeader::Threads,
            if self.shows_all() && rows.len() == 0 {
                seq![HistoryRow::Message(HistoryMessage::ThreadsEmpty)]
            } else {
                rows
            },
        )
    }

    pub open spec fn agent_section(self) -> Seq<HistoryRow> {
        section(
            HistoryHeader::Agent { agent: self.agent, host: self.host },
            match self.agent_sessions {
                AgentSessions::Unavailable => Seq::empty(),
                AgentSessions::Loading => seq![HistoryRow::Message(HistoryMessage::AgentLoading)],
                AgentSessions::Unsupported => seq![
                    HistoryRow::Message(HistoryMessage::AgentUnsupported { agent: self.agent }),
                ],
                AgentSessions::Failed(error) => seq![
                    HistoryRow::Message(HistoryMessage::AgentFailed { error }),
                ],
                AgentSessions::Loaded(sessions) => if sessions@.len() == 0 {
                    seq![HistoryRow::Message(HistoryMessage::AgentEmpty)]
                } else {
                    session_rows(self.shows_all(), self.session_hits@, sessions@.len() as int)
                },
            },
        )
    }

    pub open spec fn match_section(self) -> Seq<HistoryRow> {
        section(
            HistoryHeader::Matches,
            if self.shows_all() {
                Seq::empty()
            } else {
                match self.matches {
                    HistoryMatches::Idle => Seq::empty(),
                    HistoryMatches::Searching => seq![HistoryRow::Message(HistoryMessage::MatchesSearching)],
                    HistoryMatches::Failed(error) => seq![
                        HistoryRow::Message(HistoryMessage::MatchesFailed { error }),
                    ],
                    HistoryMatches::Loaded(found) => if found@.len() == 0 {
                        seq![HistoryRow::Message(HistoryMessage::MatchesEmpty)]
                    } else {
                        match_rows(found@.len() as int)
                    },
                }
            },
        )
    }

    /// The rows that the history lists: the threads of the project, the conversations of the agent,
    /// and the turns that match.
    pub open spec fn listed(self) -> Seq<HistoryRow> {
        self.thread_section() + self.agent_section() + self.match_section()
    }
}

fn is_hit(all: bool, hits: &Vec<bool>, i: usize) -> (b: bool)
    ensures
        b == hit(all, hits@, i as int),
{
    all || (i < hits.len() && hits[i])
}

fn with_header(header: HistoryHeader, rows: Vec<HistoryRow>) -> (r: Vec<HistoryRow>)
    ensures
        r@ == section(header, rows@),
{
    if rows.len() == 0 {
        return rows;
    }
    let ghost below = rows@;
    let mut rest = rows;
    let mut out: Vec<HistoryRow> = Vec::new();
    out.push(HistoryRow::Header(header));
    out.append(&mut rest);
    assert(out@ =~= seq![HistoryRow::Header(header)] + below);
    out
}

fn only(message: HistoryMessage) -> (r: Vec<HistoryRow>)
    ensures
        r@ == seq![HistoryRow::Message(message)],
{
    let mut out: Vec<HistoryRow> = Vec::new();
    out.push(HistoryRow::Message(message));
    assert(out@ =~= seq![HistoryRow::Message(message)]);
    out
}

impl ThreadHistoryState {
    fn thread_rows_now(&self, all: bool) -> (r: Vec<HistoryRow>)
        requires
            all == self.shows_all(),
        ensures
            r@ == self.thread_section(),
    {
        let mut rows: Vec<HistoryRow> = Vec::new();
        let mut i: usize = 0;
        while i < self.threads.len()
            invariant
                i <= self.threads@.len(),
                rows@ == thread_rows(all, self.thread_hits@, i as int),
            decreases self.threads@.len() - i,
        {
            if is_hit(all, &self.thread_hits, i) {
                rows.push(HistoryRow::Thread(i));
            }
            i = i + 1;
        }
        if all && rows.len() == 0 {
            rows = only(HistoryMessage::ThreadsEmpty);
        }
        with_header(HistoryHeader::Threads, rows)
    }

    fn agent_rows_now(&self, all: bool) -> (r: Vec<HistoryRow>)
        requires
            all == self.shows_all(),
        ensures
            r@ == self.agent_section(),
    {
        let rows = match &self.agent_sessions {
            AgentSessions::Unavailable => Vec::new(),
            AgentSessions::Loading => only(HistoryMessage::AgentLoading),
            AgentSessions::Unsupported => only(
                HistoryMessage::AgentUnsupported { agent: self.agent.clone() },
            ),
            AgentSessions::Failed(error) => only(HistoryMessage::AgentFailed { error: error.clone() }),
            AgentSessions::Loaded(sessions) => if sessions.len() == 0 {
                only(HistoryMessage::AgentEmpty)
            } else {
                let mut rows: Vec<HistoryRow> = Vec::new();
                let mut i: usize = 0;
                while i < sessions.len()
                    invariant
                        i <= sessions@.len(),
                        rows@ == session_rows(all, self.session_hits@, i as int),
                    decreases sessions@.len() - i,
                {
                    if is_hit(all, &self.session_hits, i) {
                        rows.push(HistoryRow::AgentSession(i));
                    }
                    i = i + 1;
                }
                rows
            },
        };
        with_header(HistoryHeader::Agent { agent: self.agent.clone(), host: copy_maybe(&self.host) }, rows)
    }

    fn match_rows_now(&self, all: bool) -> (r: Vec<HistoryRow>)
        requires
            all == self.shows_all(),
        ensures
            r@ == self.match_section(),
    {
        if all {
            return Vec::new();
        }
        let rows = match &self.matches {
            HistoryMatches::Idle => Vec::new(),
            HistoryMatches::Searching => only(HistoryMessage::MatchesSearching),
            HistoryMatches::Failed(error) => only(HistoryMessage::MatchesFailed { error: error.clone() }),
            HistoryMatches::Loaded(found) => if found.len() == 0 {
                only(HistoryMessage::MatchesEmpty)
            } else {
                let mut rows: Vec<HistoryRow> = Vec::new();
                let mut i: usize = 0;
                assert(rows@ =~= match_rows(0));
                while i < found.len()
                    invariant
                        i <= found@.len(),
                        rows@ == match_rows(i as int),
                    decreases found@.len() - i,
                {
                    rows.push(HistoryRow::Match(i));
                    i = i + 1;
                    assert(rows@ =~= match_rows(i as int));
                }
                rows
            },
        };
        with_header(HistoryHeader::Matches, rows)
    }

    /// The rows that the history lists. A section without rows has no head either.
    pub fn rows(&self) -> (rows: Vec<HistoryRow>)
        ensures
            rows@ == self.listed(),
    {
        let all = trimmed(self.query.as_str()).as_str().is_empty();
        let mut rows = self.thread_rows_now(all);
        let mut agent = self.agent_rows_now(all);
        let mut found = self.match_rows_now(all);
        rows.append(&mut agent);
        rows.append(&mut found);
        rows
    }
}

/// The title of a conversation on one line; `None` where it has none.
pub open spec fn session_title(session: AgentSessionSummary) -> Option<Seq<char>> {
    match session.title {
        Some(title) => if words(title@).len() == 0 {
            None
        } else {
            Some(join(words(title@), " "@))
        },
        None => None,
    }
}

/// The title of a conversation on one line; `None` where it has none.
pub fn agent_session_title(session: &AgentSessionSummary) -> (r: Option<String>)
    ensures
        maybe_text(r) == session_title(*session),
{
    match &session.title {
        Some(title) => {
            let parts = words_of(title.as_str());
            assert(texts(parts@).len() == parts@.len());
            if parts.len() == 0 {
                None
            } else {
                Some(joined(&parts, " "))
            }
        },
        None => None,
    }
}

/// The positions of the rows that can be selected.
pub open spec fn positions(rows: Seq<HistoryRow>) -> Seq<usize>
    decreases rows.len(),
{
    if rows.len() == 0 {
        Seq::empty()
    } else if rows.last().can_select() {
        positions(rows.drop_last()).push((rows.len() - 1) as usize)
    } else {
        positions(rows.drop_last())
    }
}

/// The positions of the rows that can be selected.
pub fn selectable_positions(rows: &Vec<HistoryRow>) -> (r: Vec<usize>)
    ensures
        r@ == positions(rows@),
        r@.len() <= rows@.len(),
        forall|i: int| 0 <= i < r@.len() ==> (#[trigger] r@[i]) < rows@.len() && rows@[r@[i] as int].can_select(),
{
    let mut out: Vec<usize> = Vec::new();
    let mut i: usize = 0;
    while i < rows.len()
        invariant
            i <= rows@.len(),
            out@ == positions(rows@.take(i as int)),
            out@.len() <= i,
            forall|k: int|
                0 <= k < out@.len() ==> (#[trigger] out@[k]) < i && rows@[out@[k] as int].can_select(),
        decreases rows@.len() - i,
    {
        proof {
            assert(rows@.take(i + 1).drop_last() =~= rows@.take(i as int));
            assert(rows@.take(i + 1).last() == rows@[i as int]);
        }
        if rows[i].selectable() {
            out.push(i);
        }
        i = i + 1;
    }
    assert(rows@.take(rows@.len() as int) =~= rows@);
    out
}

/// `selected` brought into the rows that can be selected.
pub open spec fn within(selected: usize, count: int) -> usize {
    if count == 0 {
        0
    } else if selected >= count {
        (count - 1) as usize
    } else {
        selected
    }
}

impl ThreadHistoryState {
    /// How many rows can be selected.
    pub open spec fn choices(self) -> int {
        positions(self.listed()).len() as int
    }

    /// The same with its selection among the rows that can be selected.
    pub open spec fn clamped(self) -> ThreadHistoryState {
        ThreadHistoryState { selected: within(self.selected, self.choices()), ..self }
    }
}

/// The thread belongs to the space, or to the name that spaces had before they had ids.
pub open spec fn belongs(space: Seq<char>, name: Seq<char>) -> spec_fn(StoredThread) -> bool {
    |stored: StoredThread| stored.project@ == space || stored.project@ == name
}

/// The thread without the project that it belongs to.
pub open spec fn bare_thread() -> spec_fn(StoredThread) -> HistoryThread {
    |stored: StoredThread| stored.thread
}

/// The conversation is not one of these.
pub open spec fn not_among(known: Seq<Seq<char>>) -> spec_fn(AgentSessionSummary) -> bool {
    |session: AgentSessionSummary| !known.contains(session.session_id@)
}

/// The session has this panel.
pub open spec fn has_panel(panel: u64) -> spec_fn(ProjectSession) -> bool {
    |session: ProjectSession| session.panel == panel
}

/// The slot has this name.
pub open spec fn has_name(name: Seq<char>) -> spec_fn(ProjectSlot) -> bool {
    |slot: ProjectSlot| slot.name@ == name
}

/// The slot has this name, or its space has this id.
pub open spec fn goes_by(project: Seq<char>) -> spec_fn(ProjectSlot) -> bool {
    |slot: ProjectSlot| slot.task_space.id@ == project || slot.name@ == project
}

impl Model {
    /// The history is closed.
    pub open spec fn history_closed(self) -> Model {
        Model { thread_history: None, ..self }
    }

    pub open spec fn with_history(self, state: ThreadHistoryState) -> Model {
        Model { thread_history: Some(state), ..self }
    }

    /// The selection is among the rows that can be selected.
    pub open spec fn history_clamped(self) -> Model {
        match self.thread_history {
            Some(state) => self.with_history(state.clamped()),
            None => self,
        }
    }

    /// The selection is so many rows further, from the last one to the first and back; not while the
    /// input composes a character.
    pub open spec fn selection_moved(self, delta: int, composing: bool) -> Model {
        match self.thread_history {
            None => self,
            Some(state) => if composing || state.choices() == 0 {
                self
            } else {
                let to = (state.selected + delta) % state.choices();
                self.with_history(ThreadHistoryState { selected: to as usize, ..state }).then_do(
                    Effect::ScrollHistoryTo(positions(state.listed())[to]),
                )
            },
        }
    }

    /// These conversations of the agent are listed, and the selection is in place.
    pub open spec fn sessions_loaded(self, state: ThreadHistoryState, sessions: Vec<AgentSessionSummary>) -> Model {
        self.with_history(
            ThreadHistoryState { agent_sessions: AgentSessions::Loaded(sessions), ..state },
        ).history_clamped()
    }

    /// Where the project of a thread stands on the rail: the one whose space has this id, or else
    /// the one that has this name.
    pub open spec fn history_slot(self, project: Seq<char>) -> Option<int> {
        match first_index(self.projects, has_space(project)) {
            Some(i) => Some(i),
            None => first_index(self.projects, has_name(project)),
        }
    }

    /// A thread that was opened is shown: the fleet shows it in a cell, otherwise the agent dock is.
    pub open spec fn thread_revealed(self, panel: u64, thread: Option<usize>, query: Option<String>) -> Model {
        let shown = if self.chrome.surface.fleet_mode {
            match (thread, first_index(self.sessions, has_panel(panel))) {
                (Some(thread), Some(space)) => self.agent_revealed(space, thread),
                _ => self,
            }
        } else if !self.chrome.docks.right && !self.chrome.surface.chat_mode {
            self.with_chrome(self.chrome.agent_dock_shown())
        } else {
            self
        };
        match query {
            Some(query) => shown.then_do(Effect::RevealMatch { panel, query }),
            None => shown.then_do(Effect::FocusComposerOf(panel)),
        }
    }

    /// A turn that matches is opened, in the chat or in its project.
    pub open spec fn match_opened(self, found: HistoryMatch, query: String, chat_scope: Seq<char>) -> Model {
        if found.project@ == chat_scope {
            self.then_do(Effect::OpenChat { thread_id: found.thread_id, query })
        } else {
            match self.history_slot(found.project@) {
                None => self.then_do(Effect::OpenClosedProject { found, query }),
                Some(index) => {
                    let m = if self.chrome.surface.chat_mode || index != self.active {
                        self.then_do(Effect::SwitchProject(index as usize))
                    } else {
                        self
                    };
                    if index < self.sessions.len() {
                        m.then_do(Effect::OpenThreadAtTurn { session: index as usize, found, query })
                    } else {
                        m
                    }
                },
            }
        }
    }
}

/// What opening a row does, where the history was in this state.
pub open spec fn row_opened(before: Model, after: Model, row: HistoryRow, chat_scope: Seq<char>) -> bool {
    if !row.can_select() || before.thread_history is None {
        after == before
    } else {
        let state = before.thread_history->0;
        let m = before.history_closed();
        match row {
            HistoryRow::Thread(i) => after == if i < state.threads@.len() {
                m.then_do(Effect::OpenHistoryThread { panel: state.panel, thread: state.threads@[i as int] })
            } else {
                m
            },
            HistoryRow::AgentSession(i) => after == (match state.agent_sessions {
                AgentSessions::Loaded(sessions) => if i < sessions@.len() {
                    m.then_do(
                        Effect::OpenAgentSession {
                            panel: state.panel,
                            agent: state.agent,
                            session: sessions@[i as int],
                        },
                    )
                } else {
                    m
                },
                _ => m,
            }),
            HistoryRow::Match(i) => match state.matches {
                HistoryMatches::Loaded(found) => if i < found@.len() {
                    exists|query: String|
                        query@ == trim(state.query@) && after == #[trigger] m.match_opened(
                            found@[i as int],
                            query,
                            chat_scope,
                        )
                } else {
                    after == m
                },
                _ => after == m,
            },
            _ => after == m,
        }
    }
}

/// What the new query leads to.
pub open spec fn requeried(before: Model, after: Model, query: String, thread_hits: Vec<bool>, session_hits: Vec<bool>) -> bool {
    match before.thread_history {
        None => after == before,
        Some(state) => if !before.has_storage || state.query@ == query@ {
            after == before
        } else {
            let next = next_generation(state.search_generation);
            let empty = trim(query@).len() == 0;
            let m = before.with_history(
                ThreadHistoryState {
                    query,
                    selected: 0,
                    thread_hits,
                    session_hits,
                    search_generation: next,
                    matches: if empty { HistoryMatches::Idle } else { HistoryMatches::Searching },
                    ..state
                },
            ).then_do(Effect::ScrollHistoryTo(0));
            if empty {
                after == m
            } else {
                search_follows(m, after, next, trim(query@))
            }
        },
    }
}

/// The texts of all threads are searched after a while.
pub open spec fn search_follows(before: Model, after: Model, generation: u64, query: Seq<char>) -> bool {
    exists|wanted: String|
        wanted@ == query && after == #[trigger] before.then_do(
            Effect::WaitToSearch { generation, query: wanted },
        )
}

/// These conversations of the agent are listed.
pub open spec fn sessions_shown(before: Model, after: Model, state: ThreadHistoryState, fresh: Seq<AgentSessionSummary>) -> bool {
    exists|sessions: Vec<AgentSessionSummary>|
        sessions@ == fresh && after == #[trigger] before.sessions_loaded(state, sessions)
}

/// What opening the history needs to know.
pub struct HistoryOpening {
    /// What has the focus.
    pub focused: Option<u64>,
    /// The threads that are stored.
    pub stored: Vec<StoredThread>,
    pub panel: u64,
    /// The agent to ask for its conversations.
    pub agent: String,
    pub host: Option<String>,
    /// The agent can be asked.
    pub can_list: bool,
}

/// A project that is not on the rail.
pub struct ClosedProject {
    pub root: String,
    /// The id that a space at this place on this machine would have.
    pub local_id: String,
    pub is_dir: bool,
}

/// The name that a project goes by in the list of matches.
pub enum HistoryPlace {
    Chat,
    Named(String),
}

/// A space and its title.
pub struct SpaceTitle {
    pub id: String,
    pub title: String,
}

/// The title is that of this space.
pub open spec fn title_of(id: Seq<char>) -> spec_fn(SpaceTitle) -> bool {
    |known: SpaceTitle| known.id@ == id
}

/// The name that a project goes by: its name on the rail, with its machine where that is another
/// one; or the title of its space; or whatever it was stored as.
pub open spec fn place_text(projects: Seq<ProjectSlot>, titles: Seq<SpaceTitle>, project: Seq<char>) -> Seq<char> {
    match first_index(projects, goes_by(project)) {
        Some(i) => match projects[i].remote_host {
            Some(host) => projects[i].name@ + "（"@ + host@ + "）"@,
            None => projects[i].name@,
        },
        None => match first_index(titles, title_of(project)) {
            Some(i) => titles[i].title@,
            None => project,
        },
    }
}

impl Workspace {
    /// Opens the history of the shown project: its threads, and the conversations that its agent
    /// has kept, which the agent is asked for once.
    pub fn open_thread_history(&mut self, opening: HistoryOpening)
        ensures
            ({
                let m = old(self)@;
                let after = final(self)@;
                if !m.has_storage || !m.has_slot() {
                    after == m
                } else {
                    let unpicked = if m.chrome.boards.picker_open {
                        m.with_chrome(
                            Chrome {
                                boards: Boards { picker_open: false, ..m.chrome.boards },
                                ..m.chrome
                            },
                        ).then_do(Effect::ClosePicker)
                    } else {
                        m
                    };
                    let focused = (Model { thread_history: after.thread_history, ..unpicked }).then_do(
                        Effect::Focus(FocusTarget::History),
                    );
                    &&& after == if opening.can_list {
                        focused.then_do(Effect::ListAgentSessions)
                    } else {
                        focused
                    }
                    &&& after.thread_history matches Some(state) && {
                        &&& state.query@ == Seq::<char>::empty()
                        &&& state.previous_focus == match m.thread_history {
                            Some(previous) => previous.previous_focus,
                            None => opening.focused,
                        }
                        &&& state.threads@ == opening.stored@.filter(
                            belongs(m.slot().task_space.id@, m.slot().name@),
                        ).map_values(bare_thread())
                        &&& state.thread_hits@ == Seq::<bool>::empty()
                        &&& state.agent == opening.agent
                        &&& state.host == opening.host
                        &&& state.panel == opening.panel
                        &&& state.root == m.slot().root
                        &&& state.agent_sessions == if opening.can_list {
                            AgentSessions::Loading
                        } else {
                            AgentSessions::Unavailable
                        }
                        &&& state.session_hits@ == Seq::<bool>::empty()
                        &&& state.matches == HistoryMatches::Idle
                        &&& state.search_generation == 0
                        &&& state.selected == 0
                    }
                }
            }),
    {
        if !self.has_storage || !self.has_active_slot() {
            return;
        }
        if self.chrome.boards.picker_open {
            self.chrome.boards.picker_open = false;
            self.effect(Effect::ClosePicker);
        }
        let HistoryOpening { focused, stored, panel, agent, host, can_list } = opening;
        let previous_focus = match &self.thread_history {
            Some(previous) => previous.previous_focus,
            None => focused,
        };
        let threads = self.threads_of_shown(stored);
        let root = self.projects[self.active].root.clone();
        let agent_sessions = if can_list {
            AgentSessions::Loading
        } else {
            AgentSessions::Unavailable
        };
        self.effect(Effect::Focus(FocusTarget::History));
        self.thread_history = Some(
            ThreadHistoryState {
                query: String::new(),
                previous_focus,
                threads,
                thread_hits: Vec::new(),
                agent,
                host,
                panel,
                root,
                agent_sessions,
                session_hits: Vec::new(),
                matches: HistoryMatches::Idle,
                search_generation: 0,
                selected: 0,
            },
        );
        if can_list {
            self.effect(Effect::ListAgentSessions);
        }
    }

    fn threads_of_shown(&self, stored: Vec<StoredThread>) -> (threads: Vec<HistoryThread>)
        requires
            self@.has_slot(),
        ensures
            threads@ == stored@.filter(belongs(self@.slot().task_space.id@, self@.slot().name@)).map_values(
                bare_thread(),
            ),
    {
        let ghost all = stored@;
        let ghost keep = belongs(self@.slot().task_space.id@, self@.slot().name@);
        let mut rest = stored;
        let mut threads: Vec<HistoryThread> = Vec::new();
        let ghost mut done: int = 0;
        proof {
            filter_none(all, keep);
            assert(all.skip(0) =~= all);
            assert(threads@ =~= all.take(0).filter(keep).map_values(bare_thread()));
        }
        while rest.len() > 0
            invariant
                0 <= done <= all.len(),
                self@.has_slot(),
                rest@ == all.skip(done),
                keep == belongs(self@.slot().task_space.id@, self@.slot().name@),
                threads@ == all.take(done).filter(keep).map_values(bare_thread()),
            decreases rest@.len(),
        {
            let item = rest.remove(0);
            let ghost before = all.take(done).filter(keep);
            proof {
                assert(item == all[done]);
                filter_step(all, done, keep);
                assert(rest@ =~= all.skip(done + 1));
                done = done + 1;
            }
            let StoredThread { project, thread } = item;
            if project == self.projects[self.active].task_space.id || project == self.projects[self.active].name {
                threads.push(thread);
                assert(threads@ =~= before.push(item).map_values(bare_thread()));
            }
        }
        assert(all.take(all.len() as int) =~= all);
        threads
    }

    /// The agent of a panel was asked for its conversations: those that are known already are left
    /// out. An answer for another panel than the one that is shown comes too late. Which of them the
    /// query matches is handed over with `session_hits_found`.
    pub fn agent_sessions_listed(&mut self, panel: u64, listing: SessionListing, known: &Vec<String>)
        ensures
            match old(self)@.thread_history {
                None => final(self)@ == old(self)@,
                Some(state) => if state.panel != panel {
                    final(self)@ == old(self)@
                } else {
                    match listing {
                        SessionListing::Unsupported => final(self)@ == old(self)@.with_history(
                            ThreadHistoryState { agent_sessions: AgentSessions::Unsupported, ..state },
                        ).history_clamped(),
                        SessionListing::Failed(error) => final(self)@ == old(self)@.with_history(
                            ThreadHistoryState { agent_sessions: AgentSessions::Failed(error), ..state },
                        ).history_clamped(),
                        SessionListing::Listed(sessions) => sessions_shown(
                            old(self)@,
                            final(self)@,
                            state,
                            sessions@.filter(not_among(texts(known@))),
                        ),
                    }
                },
            },
    {
        let Some(mut state) = self.thread_history.take() else {
            return;
        };
        if state.panel != panel {
            self.thread_history = Some(state);
            return;
        }
        let ghost before = state;
        match listing {
            SessionListing::Unsupported => {
                state.agent_sessions = AgentSessions::Unsupported;
                self.thread_history = Some(state);
                self.clamp_history_selection();
            },
            SessionListing::Failed(error) => {
                state.agent_sessions = AgentSessions::Failed(error);
                self.thread_history = Some(state);
                self.clamp_history_selection();
            },
            SessionListing::Listed(sessions) => {
                let fresh = fresh_agent_sessions(sessions, known);
                let ghost loaded = fresh;
                state.agent_sessions = AgentSessions::Loaded(fresh);
                self.thread_history = Some(state);
                self.clamp_history_selection();
                assert(self@ == old(self)@.sessions_loaded(before, loaded));
            },
        }
    }

    /// The conversations that were listed last have been matched with the query: `hits` says of each
    /// whether its title matches. An answer for another panel than the one that is shown comes too
    /// late.
    pub fn session_hits_found(&mut self, panel: u64, hits: Vec<bool>)
        ensures
            final(self)@ == match old(self)@.thread_history {
                None => old(self)@,
                Some(state) => if state.panel != panel {
                    old(self)@
                } else {
                    old(self)@.with_history(
                        ThreadHistoryState { session_hits: hits, ..state },
                    ).history_clamped()
                },
            },
    {
        let Some(mut state) = self.thread_history.take() else {
            return;
        };
        if state.panel != panel {
            self.thread_history = Some(state);
            return;
        }
        state.session_hits = hits;
        self.thread_history = Some(state);
        self.clamp_history_selection();
    }

    /// Continues the thread that is shown in a new session, with what matters of it.
    pub fn continue_in_new_session(&mut self)
        ensures
            final(self)@ == old(self)@.then_do(
                Effect::ContinueInNewSession { chat: old(self)@.chrome.surface.chat_mode },
            ),
    {
        let chat = self.chrome.surface.chat_mode;
        self.effect(Effect::ContinueInNewSession { chat });
    }

    /// Whether the thread could be continued.
    pub fn new_session_continued(&mut self, continued: bool)
        ensures
            final(self)@ == if continued {
                old(self)@
            } else {
                old(self)@.then_do(Effect::Toast(Notice::HandoffUnavailable))
            },
    {
        if !continued {
            self.effect(Effect::Toast(Notice::HandoffUnavailable));
        }
    }

    /// Closes the history without opening anything; the focus goes back to where it was.
    pub fn close_thread_history(&mut self)
        ensures
            final(self)@ == match old(self)@.thread_history {
                None => old(self)@,
                Some(state) => match state.previous_focus {
                    Some(focus) => old(self)@.history_closed().then_do(
                        Effect::Focus(FocusTarget::Previous(focus)),
                    ),
                    None => old(self)@.history_closed(),
                },
            },
    {
        let Some(state) = self.thread_history.take() else {
            return;
        };
        if let Some(focus) = state.previous_focus {
            self.effect(Effect::Focus(FocusTarget::Previous(focus)));
        }
    }

    /// The query was changed: the first row is selected, and the texts of all threads are searched
    /// after a while. The hits say which threads and conversations it matches by name.
    pub fn on_history_query_changed(&mut self, query: String, thread_hits: Vec<bool>, session_hits: Vec<bool>)
        ensures
            requeried(old(self)@, final(self)@, query, thread_hits, session_hits),
    {
        if !self.has_storage {
            return;
        }
        let Some(mut state) = self.thread_history.take() else {
            return;
        };
        if state.query == query {
            self.thread_history = Some(state);
            return;
        }
        let wanted = trimmed(query.as_str());
        state.query = query;
        state.selected = 0;
        state.thread_hits = thread_hits;
        state.session_hits = session_hits;
        state.search_generation = state.search_generation.wrapping_add(1);
        let generation: u64 = state.search_generation;
        let empty = wanted.as_str().is_empty();
        state.matches = if empty {
            HistoryMatches::Idle
        } else {
            HistoryMatches::Searching
        };
        self.thread_history = Some(state);
        self.effect(Effect::ScrollHistoryTo(0));
        let ghost m = self@;
        if !empty {
            self.effect(Effect::WaitToSearch { generation, query: wanted });
            assert(self@ == m.then_do(Effect::WaitToSearch { generation, query: wanted }));
            assert(search_follows(m, self@, generation, trim(query@)));
        }
    }

    /// Whether the search that was asked for as `generation` is still the one that is wanted.
    pub fn history_search_is_current(&self, generation: u64) -> (b: bool)
        ensures
            b == (self@.thread_history matches Some(state) && state.search_generation == generation),
    {
        match &self.thread_history {
            Some(state) => state.search_generation == generation,
            None => false,
        }
    }

    /// What the search that was asked for as `generation` has found, unless another one was asked
    /// for since.
    pub fn history_searched(&mut self, generation: u64, result: Result<Vec<HistoryMatch>, String>)
        ensures
            final(self)@ == match old(self)@.thread_history {
                None => old(self)@,
                Some(state) => if state.search_generation != generation {
                    old(self)@
                } else {
                    old(self)@.with_history(
                        ThreadHistoryState {
                            matches: match result {
                                Ok(found) => HistoryMatches::Loaded(found),
                                Err(error) => HistoryMatches::Failed(error),
                            },
                            ..state
                        },
                    ).history_clamped()
                },
            },
    {
        let Some(mut state) = self.thread_history.take() else {
            return;
        };
        if state.search_generation != generation {
            self.thread_history = Some(state);
            return;
        }
        state.matches = match result {
            Ok(found) => HistoryMatches::Loaded(found),
            Err(error) => HistoryMatches::Failed(error),
        };
        self.thread_history = Some(state);
        self.clamp_history_selection();
    }

    /// The name that the project of a match goes by. `chat_scope` is what threads of the chat are
    /// stored as.
    pub fn history_place(&self, project: &str, titles: &Vec<SpaceTitle>, chat_scope: &str) -> (place: HistoryPlace)
        ensures
            if project@ == chat_scope@ {
                place is Chat
            } else {
                place matches HistoryPlace::Named(name) && name@ == place_text(self@.projects, titles@, project@)
            },
    {
        if same_text(project, chat_scope) {
            return HistoryPlace::Chat;
        }
        let ghost wanted = goes_by(project@);
        let mut i: usize = 0;
        while i < self.projects.len()
            invariant
                i <= self.projects@.len(),
                wanted == goes_by(project@),
                project@ != chat_scope@,
                forall|j: int| 0 <= j < i ==> !wanted(#[trigger] self.projects@[j]),
            decreases self.projects@.len() - i,
        {
            if same_text(self.projects[i].task_space.id.as_str(), project) || same_text(
                self.projects[i].name.as_str(),
                project,
            ) {
                proof {
                    first_index_is(self.projects@, wanted, i as int);
                }
                let mut name = self.projects[i].name.clone();
                if let Some(host) = &self.projects[i].remote_host {
                    name.append("（");
                    name.append(host.as_str());
                    name.append("）");
                }
                return HistoryPlace::Named(name);
            }
            i = i + 1;
        }
        proof {
            first_index_none(self.projects@, wanted);
        }
        HistoryPlace::Named(stored_title(titles, project))
    }

    /// Brings the selection into the rows that can be selected.
    pub fn clamp_history_selection(&mut self)
        ensures
            final(self)@ == old(self)@.history_clamped(),
    {
        let Some(mut state) = self.thread_history.take() else {
            return;
        };
        let count: usize = selectable_positions(&state.rows()).len();
        if count == 0 {
            state.selected = 0;
        } else if state.selected >= count {
            state.selected = count - 1;
        }
        self.thread_history = Some(state);
    }

    /// Moves the selection by so many rows, from the last one to the first and back; not while the
    /// input composes a character.
    pub fn move_history_selection(&mut self, delta: isize, composing: bool)
        ensures
            final(self)@ == old(self)@.selection_moved(delta as int, composing),
    {
        let Some(mut state) = self.thread_history.take() else {
            return;
        };
        if composing {
            self.thread_history = Some(state);
            return;
        }
        let places = selectable_positions(&state.rows());
        let count: usize = places.len();
        if count == 0 {
            self.thread_history = Some(state);
            return;
        }
        let to: usize = if delta >= 0 {
            let sum: u128 = state.selected as u128 + delta as u128;
            (sum % count as u128) as usize
        } else {
            let back: usize = (-(delta + 1)) as usize + 1;
            if back <= state.selected {
                (state.selected - back) % count
            } else {
                let missing: usize = (back - state.selected) % count;
                proof {
                    negated_remainder(back - state.selected, count as int);
                }
                if missing == 0 {
                    0
                } else {
                    count - missing
                }
            }
        };
        state.selected = to;
        self.thread_history = Some(state);
        self.effect(Effect::ScrollHistoryTo(places[to]));
    }

    /// Opens the row that is selected.
    pub fn confirm_history_selection(&mut self, chat_scope: &str)
        ensures
            match old(self)@.thread_history {
                None => final(self)@ == old(self)@,
                Some(state) => if state.selected < state.choices() {
                    row_opened(
                        old(self)@,
                        final(self)@,
                        state.listed()[positions(state.listed())[state.selected as int] as int],
                        chat_scope@,
                    )
                } else {
                    final(self)@ == old(self)@
                },
            },
    {
        let (mut rows, selected) = match &self.thread_history {
            Some(state) => (state.rows(), state.selected),
            None => {
                return;
            },
        };
        let places = selectable_positions(&rows);
        if selected >= places.len() {
            return;
        }
        let row = rows.swap_remove(places[selected]);
        self.confirm_history_row(row, chat_scope);
    }

    /// A row was clicked.
    pub fn history_row_clicked(&mut self, position: usize, chat_scope: &str)
        ensures
            match old(self)@.thread_history {
                None => final(self)@ == old(self)@,
                Some(state) => if position < state.listed().len() {
                    row_opened(old(self)@, final(self)@, state.listed()[position as int], chat_scope@)
                } else {
                    final(self)@ == old(self)@
                },
            },
    {
        let mut rows = match &self.thread_history {
            Some(state) => state.rows(),
            None => {
                return;
            },
        };
        if position < rows.len() {
            let row = rows.swap_remove(position);
            self.confirm_history_row(row, chat_scope);
        }
    }

    /// Opens a row: the history closes, and what the row stands for is opened.
    pub fn confirm_history_row(&mut self, row: HistoryRow, chat_scope: &str)
        ensures
            row_opened(old(self)@, final(self)@, row, chat_scope@),
    {
        if !row.selectable() {
            return;
        }
        let Some(state) = self.thread_history.take() else {
            return;
        };
        let ghost m = self@;
        match row {
            HistoryRow::Thread(i) => {
                let mut threads = state.threads;
                if i < threads.len() {
                    let thread = threads.swap_remove(i);
                    self.effect(Effect::OpenHistoryThread { panel: state.panel, thread });
                }
            },
            HistoryRow::AgentSession(i) => {
                if let AgentSessions::Loaded(sessions) = state.agent_sessions {
                    let mut sessions = sessions;
                    if i < sessions.len() {
                        let session = sessions.swap_remove(i);
                        self.effect(
                            Effect::OpenAgentSession { panel: state.panel, agent: state.agent, session },
                        );
                    }
                }
            },
            HistoryRow::Match(i) => {
                if let HistoryMatches::Loaded(found) = state.matches {
                    let mut found = found;
                    if i < found.len() {
                        let query = trimmed(state.query.as_str());
                        let hit = found.swap_remove(i);
                        self.open_history_match(hit, query, chat_scope);
                    }
                }
            },
            _ => {},
        }
    }

    /// A thread was opened in a panel: shows it, and what it was searched for.
    pub fn reveal_history_thread(&mut self, panel: u64, thread: Option<usize>, query: Option<String>)
        ensures
            final(self)@ == old(self)@.thread_revealed(panel, thread, query),
    {
        if self.chrome.surface.fleet_mode {
            if let Some(thread) = thread {
                if let Some(space) = self.session_with_panel(panel) {
                    self.reveal_agent_in_fleet(space, thread);
                }
            }
        } else if !self.chrome.docks.right && !self.chrome.surface.chat_mode {
            self.chrome.docks.right = true;
        }
        match query {
            Some(query) => self.effect(Effect::RevealMatch { panel, query }),
            None => self.effect(Effect::FocusComposerOf(panel)),
        }
    }

    fn session_with_panel(&self, panel: u64) -> (r: Option<usize>)
        ensures
            match r {
                Some(i) => i < self@.sessions.len() && first_index(self@.sessions, has_panel(panel)) == Some(
                    i as int,
                ),
                None => first_index(self@.sessions, has_panel(panel)) == None::<int>,
            },
    {
        let ghost wanted = has_panel(panel);
        let mut i: usize = 0;
        while i < self.sessions.len()
            invariant
                i <= self.sessions@.len(),
                wanted == has_panel(panel),
                forall|j: int| 0 <= j < i ==> !wanted(#[trigger] self.sessions@[j]),
            decreases self.sessions@.len() - i,
        {
            if self.sessions[i].panel == panel {
                proof {
                    first_index_is(self.sessions@, wanted, i as int);
                }
                return Some(i);
            }
            i = i + 1;
        }
        proof {
            first_index_none(self.sessions@, wanted);
        }
        None
    }

    /// Opens a turn that matches: in the chat, or in its project, which is shown for it. A project
    /// that is not on the rail has to be opened first.
    pub fn open_history_match(&mut self, found: HistoryMatch, query: String, chat_scope: &str)
        ensures
            final(self)@ == old(self)@.match_opened(found, query, chat_scope@),
    {
        if same_text(found.project.as_str(), chat_scope) {
            self.effect(Effect::OpenChat { thread_id: found.thread_id, query });
            return;
        }
        match self.history_slot_for(&found.project) {
            None => {
                self.effect(Effect::OpenClosedProject { found, query });
            },
            Some(index) => {
                if self.chrome.surface.chat_mode || index != self.active {
                    self.effect(Effect::SwitchProject(index));
                }
                if index < self.sessions.len() {
                    self.effect(Effect::OpenThreadAtTurn { session: index, found, query });
                }
            },
        }
    }

    /// Where the project of a thread stands on the rail.
    pub fn history_slot_for(&self, project: &String) -> (r: Option<usize>)
        ensures
            match r {
                Some(i) => i < self@.projects.len() && self@.history_slot(project@) == Some(i as int),
                None => self@.history_slot(project@) == None::<int>,
            },
    {
        if let Some(i) = self.session_index_for_space(project) {
            return Some(i);
        }
        let ghost wanted = has_name(project@);
        let mut i: usize = 0;
        while i < self.projects.len()
            invariant
                i <= self.projects@.len(),
                wanted == has_name(project@),
                first_index(self@.projects, has_space(project@)) is None,
                forall|j: int| 0 <= j < i ==> !wanted(#[trigger] self.projects@[j]),
            decreases self.projects@.len() - i,
        {
            if self.projects[i].name == *project {
                proof {
                    first_index_is(self.projects@, wanted, i as int);
                }
                return Some(i);
            }
            i = i + 1;
        }
        proof {
            first_index_none(self.projects@, wanted);
        }
        None
    }

    /// Opens the project of a thread on the rail, if it is a folder on this machine; tells whether it
    /// is. `record` is what is stored of it.
    pub fn open_history_project(&mut self, project: &String, record: Option<ClosedProject>) -> (opened: bool)
        ensures
            opened == (record matches Some(closed) && closed.local_id@ == project@ && closed.is_dir),
            final(self)@ == if opened {
                old(self)@.then_do(
                    Effect::OpenFolderInRail { host: None, path: record->0.root, branch: None },
                )
            } else {
                old(self)@
            },
    {
        match record {
            Some(closed) => if closed.local_id == *project && closed.is_dir {
                self.effect(Effect::OpenFolderInRail { host: None, path: closed.root, branch: None });
                true
            } else {
                false
            },
            None => false,
        }
    }

    /// The project of a match could not be opened.
    pub fn history_project_missing(&mut self, place: String)
        ensures
            final(self)@ == old(self)@.then_do(Effect::ProjectOfMatchClosed(place)),
    {
        self.effect(Effect::ProjectOfMatchClosed(place));
    }

    /// Types a query into the history, while it is open.
    pub fn debug_history_query(&mut self, query: String)
        ensures
            final(self)@ == if old(self)@.thread_history is Some {
                old(self)@.then_do(Effect::SetHistoryInput(query))
            } else {
                old(self)@
            },
    {
        if self.thread_history.is_some() {
            self.effect(Effect::SetHistoryInput(query));
        }
    }

    /// Selects a row, counted among those that can be selected.
    pub fn debug_history_select(&mut self, target: usize)
        ensures
            final(self)@ == match old(self)@.thread_history {
                None => old(self)@,
                Some(state) => if target < state.choices() {
                    old(self)@.with_history(ThreadHistoryState { selected: target, ..state }).then_do(
                        Effect::ScrollHistoryTo(positions(state.listed())[target as int]),
                    )
                } else {
                    old(self)@
                },
            },
    {
        let Some(mut state) = self.thread_history.take() else {
            return;
        };
        let places = selectable_positions(&state.rows());
        if target < places.len() {
            state.selected = target;
            self.thread_history = Some(state);
            self.effect(Effect::ScrollHistoryTo(places[target]));
        } else {
            self.thread_history = Some(state);
        }
    }

    /// Opens the row that is selected.
    pub fn debug_history_confirm(&mut self, chat_scope: &str)
        ensures
            match old(self)@.thread_history {
                None => final(self)@ == old(self)@,
                Some(state) => if state.selected < state.choices() {
                    row_opened(
                        old(self)@,
                        final(self)@,
                        state.listed()[positions(state.listed())[state.selected as int] as int],
                        chat_scope@,
                    )
                } else {
                    final(self)@ == old(self)@
                },
            },
    {
        self.confirm_history_selection(chat_scope);
    }
}

fn stored_title(titles: &Vec<SpaceTitle>, project: &str) -> (r: String)
    ensures
        r@ == match first_index(titles@, title_of(project@)) {
            Some(i) => titles@[i].title@,
            None => project@,
        },
{
    let ghost wanted = title_of(project@);
    let mut i: usize = 0;
    while i < titles.len()
        invariant
            i <= titles@.len(),
            wanted == title_of(project@),
            forall|j: int| 0 <= j < i ==> !wanted(#[trigger] titles@[j]),
        decreases titles@.len() - i,
    {
        if same_text(titles[i].id.as_str(), project) {
            proof {
                first_index_is(titles@, wanted, i as int);
            }
            return titles[i].title.clone();
        }
        i = i + 1;
    }
    proof {
        first_index_none(titles@, wanted);
    }
    project.to_owned()
}

/// The conversations that are not known already.
pub fn fresh_agent_sessions(sessions: Vec<AgentSessionSummary>, known: &Vec<String>) -> (fresh: Vec<AgentSessionSummary>)
    ensures
        fresh@ == sessions@.filter(not_among(texts(known@))),
{
    let ghost all = sessions@;
    let ghost keep = not_among(texts(known@));
    let mut rest = sessions;
    let mut fresh: Vec<AgentSessionSummary> = Vec::new();
    let ghost mut done: int = 0;
    proof {
        filter_none(all, keep);
        assert(all.skip(0) =~= all);
    }
    while rest.len() > 0
        invariant
            0 <= done <= all.len(),
            rest@ == all.skip(done),
            keep == not_among(texts(known@)),
            fresh@ == all.take(done).filter(keep),
        decreases rest@.len(),
    {
        let session = rest.remove(0);
        proof {
            assert(session == all[done]);
            filter_step(all, done, keep);
            assert(rest@ =~= all.skip(done + 1));
            done = done + 1;
        }
        if !holds_text(known, session.session_id.as_str()) {
            fresh.push(session);
        }
    }
    assert(all.take(all.len() as int) =~= all);
    fresh
}

/// What the line of a row says besides its name.
pub enum HistoryDetail {
    /// The branch, whether tokens were used, when it began, when the user last said something, and
    /// whether it was put away.
    Thread {
        branch: Option<String>,
        tokens: Option<i64>,
        created_at: i64,
        last_input_at: Option<i64>,
        archived: bool,
    },
    /// The folder, where that is another worktree, and when it was last changed.
    AgentSession { folder: Option<String>, updated_at_ms: Option<i64> },
    Match { place: String, created_at: i64, from_user: bool },
    Nothing,
}

/// The folder of a conversation, where that is another one than the project's.
pub open spec fn other_folder(cwd: Seq<char>, root: Seq<char>) -> Option<Seq<char>> {
    if same_path(cwd, root) {
        None
    } else {
        name_of(cwd)
    }
}

impl ThreadHistoryState {
    /// What the line of a row says besides its name; nothing for a row that stands for nothing.
    pub fn row_detail(&self, row: &HistoryRow) -> (detail: HistoryDetail)
        ensures
            match *row {
                HistoryRow::Thread(i) => detail == if i < self.threads@.len() {
                    let thread = self.threads@[i as int];
                    HistoryDetail::Thread {
                        branch: thread.branch,
                        tokens: if thread.tokens_used > 0 { Some(thread.tokens_used) } else { None },
                        created_at: thread.created_at,
                        last_input_at: thread.last_input_at,
                        archived: thread.archived,
                    }
                } else {
                    HistoryDetail::Nothing
                },
                HistoryRow::AgentSession(i) => match self.agent_sessions {
                    AgentSessions::Loaded(sessions) => if i < sessions@.len() {
                        detail matches HistoryDetail::AgentSession { folder, updated_at_ms } && updated_at_ms
                            == sessions@[i as int].updated_at_ms && maybe_text(folder) == other_folder(
                            sessions@[i as int].cwd@,
                            self.root@,
                        )
                    } else {
                        detail == HistoryDetail::Nothing
                    },
                    _ => detail == HistoryDetail::Nothing,
                },
                HistoryRow::Match(i) => detail == match self.matches {
                    HistoryMatches::Loaded(found) => if i < found@.len() {
                        HistoryDetail::Match {
                            place: found@[i as int].place,
                            created_at: found@[i as int].created_at,
                            from_user: found@[i as int].from_user,
                        }
                    } else {
                        HistoryDetail::Nothing
                    },
                    _ => HistoryDetail::Nothing,
                },
                _ => detail == HistoryDetail::Nothing,
            },
    {
        match row {
            HistoryRow::Thread(i) => {
                let i: usize = *i;
                if i < self.threads.len() {
                    let thread = &self.threads[i];
                    let tokens: Option<i64> = if thread.tokens_used > 0 {
                        Some(thread.tokens_used)
                    } else {
                        None
                    };
                    HistoryDetail::Thread {
                        branch: copy_maybe(&thread.branch),
                        tokens,
                        created_at: thread.created_at,
                        last_input_at: thread.last_input_at,
                        archived: thread.archived,
                    }
                } else {
                    HistoryDetail::Nothing
                }
            },
            HistoryRow::AgentSession(i) => {
                let i: usize = *i;
                match &self.agent_sessions {
                    AgentSessions::Loaded(sessions) => if i < sessions.len() {
                        let folder = if is_same_path(sessions[i].cwd.as_str(), self.root.as_str()) {
                            None
                        } else {
                            file_name(sessions[i].cwd.as_str())
                        };
                        HistoryDetail::AgentSession { folder, updated_at_ms: sessions[i].updated_at_ms }
                    } else {
                        HistoryDetail::Nothing
                    },
                    _ => HistoryDetail::Nothing,
                }
            },
            HistoryRow::Match(i) => {
                let i: usize = *i;
                match &self.matches {
                    HistoryMatches::Loaded(found) => if i < found.len() {
                        HistoryDetail::Match {
                            place: found[i].place.clone(),
                            created_at: found[i].created_at,
                            from_user: found[i].from_user,
                        }
                    } else {
                        HistoryDetail::Nothing
                    },
                    _ => HistoryDetail::Nothing,
                }
            },
            _ => HistoryDetail::Nothing,
        }
    }
}

/// The color that a thread has, by its number; one below zero counts as the first.
pub fn color_of(color_index: i64) -> (r: u64)
    ensures
        r == if color_index < 0 { 0 } else { color_index as int },
{
    if color_index < 0 {
        0
    } else {
        color_index as u64
    }
}

proof fn thread_rows_are_threads(all: bool, hits: Seq<bool>, n: int)
    ensures
        forall|i: int| 0 <= i < thread_rows(all, hits, n).len() ==> #[trigger] thread_rows(all, hits, n)[i] is Thread,
    decreases n,
{
    if n > 0 {
        thread_rows_are_threads(all, hits, n - 1);
    }
}

proof fn session_rows_are_sessions(all: bool, hits: Seq<bool>, n: int)
    ensures
        forall|i: int|
            0 <= i < session_rows(all, hits, n).len() ==> #[trigger] session_rows(all, hits, n)[i] is AgentSession,
    decreases n,
{
    if n > 0 {
        session_rows_are_sessions(all, hits, n - 1);
    }
}

/// A section is empty, or a head with something below it that is no head.
pub open spec fn headed(rows: Seq<HistoryRow>) -> bool {
    rows.len() == 0 || (rows.len() > 1 && rows[0] is Header && forall|i: int|
        1 <= i < rows.len() ==> !(#[trigger] rows[i] is Header))
}

/// A head never stands alone: something that is no head is below it.
pub proof fn heads_never_stand_alone(state: ThreadHistoryState, i: int)
    requires
        0 <= i < state.listed().len(),
        state.listed()[i] is Header,
    ensures
        i + 1 < state.listed().len(),
        !(state.listed()[i + 1] is Header),
{
    let all = state.shows_all();
    thread_rows_are_threads(all, state.thread_hits@, state.threads@.len() as int);
    if let AgentSessions::Loaded(sessions) = state.agent_sessions {
        session_rows_are_sessions(all, state.session_hits@, sessions@.len() as int);
    }
    let a = state.thread_section();
    let b = state.agent_section();
    let c = state.match_section();
    assert(headed(a));
    assert(headed(b));
    assert(headed(c));
    let rows = state.listed();
    assert(rows.len() == a.len() + b.len() + c.len());
    if i < a.len() {
        assert(rows[i] == a[i]);
        assert(rows[i + 1] == a[i + 1]);
    } else if i < a.len() + b.len() {
        assert(rows[i] == b[i - a.len()]);
        assert(rows[i + 1] == b[i + 1 - a.len()]);
    } else {
        assert(rows[i] == c[i - a.len() - b.len()]);
        assert(rows[i + 1] == c[i + 1 - a.len() - b.len()]);
    }
}

/// Once brought in place, the selection is one of the rows that can be selected, where there are any.
pub proof fn the_selection_is_in_place(state: ThreadHistoryState)
    ensures
        state.choices() > 0 ==> state.clamped().selected < state.clamped().choices(),
        state.choices() == 0 ==> state.clamped().selected == 0,
        state.clamped().clamped() == state.clamped(),
{
    let after = state.clamped();
    assert(after.listed() == state.listed());
}

proof fn session_rows_hold(all: bool, hits: Seq<bool>, n: int, k: int)
    requires
        0 <= k < n,
    ensures
        hit(all, hits, k) ==> session_rows(all, hits, n).contains(HistoryRow::AgentSession(k as usize)),
    decreases n,
{
    let rows = session_rows(all, hits, n);
    let before = session_rows(all, hits, n - 1);
    if k == n - 1 {
        if hit(all, hits, k) {
            assert(rows.last() == HistoryRow::AgentSession(k as usize));
        }
    } else {
        session_rows_hold(all, hits, n - 1, k);
        if hit(all, hits, k) {
            let wanted = HistoryRow::AgentSession(k as usize);
            let at = choose|i: int| 0 <= i < before.len() && before[i] == wanted;
            assert(rows[at] == wanted);
        }
    }
}

/// Every conversation of the agent that the query matches is listed.
pub proof fn matching_conversations_are_listed(state: ThreadHistoryState, sessions: Vec<AgentSessionSummary>, k: int)
    requires
        state.agent_sessions == AgentSessions::Loaded(sessions),
        0 <= k < sessions@.len(),
        hit(state.shows_all(), state.session_hits@, k),
    ensures
        state.listed().contains(HistoryRow::AgentSession(k as usize)),
{
    let n = sessions@.len() as int;
    let rows = session_rows(state.shows_all(), state.session_hits@, n);
    session_rows_hold(state.shows_all(), state.session_hits@, n, k);
    let wanted = HistoryRow::AgentSession(k as usize);
    let at = choose|i: int| 0 <= i < rows.len() && rows[i] == wanted;
    assert(state.agent_section()[at + 1] == wanted);
    assert(state.listed()[state.thread_section().len() + at + 1] == wanted);
}

/// The remainder of a negative number.
proof fn negated_remainder(x: int, n: int)
    requires
        n > 0,
    ensures
        (-x) % n == if x % n == 0 {
            0
        } else {
            n - x % n
        },
{
    let q = x / n;
    let r = x % n;
    lemma_fundamental_div_mod(x, n);
    if r == 0 {
        assert(-x == -q * n + 0) by (nonlinear_arith)
            requires
                x == n * q + r,
                r == 0,
        ;
        lemma_fundamental_div_mod_converse(-x, n, -q, 0);
    } else {
        assert(-x == (-q - 1) * n + (n - r)) by (nonlinear_arith)
            requires
                x == n * q + r,
        ;
        lemma_fundamental_div_mod_converse(-x, n, -q - 1, n - r);
    }
}

/// Going some rows down or up and as many back comes back to the same row, past the ends too.
pub proof fn down_and_up_is_the_same_row(selected: int, delta: int, count: int)
    requires
        0 <= selected < count,
    ensures
        ((selected + delta) % count - delta) % count == selected,
{
    let there = (selected + delta) % count;
    lemma_mod_twice(selected + delta, count);
    lemma_sub_mod_noop(there, delta, count);
    lemma_sub_mod_noop(selected + delta, delta, count);
    lemma_small_mod(selected as nat, count as nat);
}

/// The positions are exactly those of the rows that can be selected, in order.
pub proof fn positions_are_the_selectable_rows(rows: Seq<HistoryRow>)
    requires
        rows.len() <= usize::MAX,
    ensures
        positions(rows).len() <= rows.len(),
        forall|k: int|
            0 <= k < positions(rows).len() ==> (#[trigger] positions(rows)[k]) < rows.len()
                && rows[positions(rows)[k] as int].can_select(),
        forall|k: int, l: int|
            0 <= k < l < positions(rows).len() ==> positions(rows)[k] < positions(rows)[l],
        forall|i: int|
            0 <= i < rows.len() && (#[trigger] rows[i]).can_select() ==> positions(rows).contains(i as usize),
    decreases rows.len(),
{
    if rows.len() > 0 {
        let rest = rows.drop_last();
        positions_are_the_selectable_rows(rest);
        let before = positions(rest);
        let now = positions(rows);
        assert forall|i: int| 0 <= i < rows.len() && (#[trigger] rows[i]).can_select() implies now.contains(
            i as usize,
        ) by {
            if i < rest.len() {
                assert(rest[i] == rows[i]);
                let k = choose|k: int| 0 <= k < before.len() && before[k] == i as usize;
                assert(now[k] == i as usize);
            } else {
                assert(now[before.len() as int] == i as usize);
            }
        }
        assert forall|k: int| 0 <= k < now.len() implies (#[trigger] now[k]) < rows.len()
            && rows[now[k] as int].can_select() by {
            if k < before.len() {
                assert(now[k] == before[k]);
                assert(rest[before[k] as int] == rows[before[k] as int]);
            }
        }
    }
}

/// Moving the selection keeps it among the rows that can be selected and shows its row; as many rows
/// back, it is where it was.
pub proof fn moving_and_back_selects_the_same_row(m: Model, delta: int)
    requires
        m.thread_history matches Some(state) && state.selected < state.choices() <= usize::MAX,
    ensures
        ({
            let state = m.thread_history->0;
            let there = m.selection_moved(delta, false);
            let to = there.thread_history->0.selected;
            &&& to < state.choices()
            &&& to == (state.selected + delta) % state.choices()
            &&& there.effects == m.effects.push(Effect::ScrollHistoryTo(positions(state.listed())[to as int]))
            &&& there.selection_moved(-delta, false).thread_history == m.thread_history
        }),
{
    let state = m.thread_history->0;
    let there = m.selection_moved(delta, false);
    let after = there.thread_history->0;
    let n = state.choices();
    lemma_mod_bound(state.selected + delta, n);
    assert(after.listed() == state.listed());
    down_and_up_is_the_same_row(state.selected as int, delta, n);
}

/// From the last row the selection goes to the first, and from the first to the last.
pub proof fn the_ends_meet(m: Model)
    requires
        m.thread_history matches Some(state) && state.selected < state.choices() <= usize::MAX,
    ensures
        ({
            let state = m.thread_history->0;
            &&& state.selected == 0 ==> m.selection_moved(-1, false).thread_history->0.selected
                == state.choices() - 1
            &&& state.selected == state.choices() - 1 ==> m.selection_moved(1, false).thread_history->0.selected
                == 0
        }),
{
    let n = m.thread_history->0.choices();
    negated_remainder(1, n);
    if n > 1 {
        lemma_small_mod(1, n as nat);
    }
    lemma_mod_self_0(n);
}

proof fn thread_rows_hold(all: bool, hits: Seq<bool>, n: int)
    requires
        n <= usize::MAX,
    ensures
        ({
            let rows = thread_rows(all, hits, n);
            &&& forall|k: int|
                0 <= k < n ==> (#[trigger] rows.contains(HistoryRow::Thread(k as usize)) <==> all || (k < hits.len()
                    && hits[k]))
            &&& forall|i: int| 0 <= i < rows.len() ==> (#[trigger] rows[i] matches HistoryRow::Thread(k) && k < n)
            &&& forall|i: int, j: int|
                0 <= i < j < rows.len() ==> #[trigger] rows[i]->Thread_0 < #[trigger] rows[j]->Thread_0
        }),
    decreases n,
{
    if n > 0 {
        thread_rows_hold(all, hits, n - 1);
        let before = thread_rows(all, hits, n - 1);
        let rows = thread_rows(all, hits, n);
        assert forall|k: int| 0 <= k < n implies (#[trigger] rows.contains(HistoryRow::Thread(k as usize)) <==> all
            || (k < hits.len() && hits[k])) by {
            let wanted = HistoryRow::Thread(k as usize);
            if before.contains(wanted) {
                let at = choose|i: int| 0 <= i < before.len() && before[i] == wanted;
                assert(rows[at] == wanted);
            }
            if k == n - 1 && hit(all, hits, k) {
                assert(rows[before.len() as int] == wanted);
            }
            if rows.contains(wanted) {
                let at = choose|i: int| 0 <= i < rows.len() && rows[i] == wanted;
                if at < before.len() {
                    assert(before[at] == wanted);
                    assert(k < n - 1);
                }
            }
        }
    }
}

proof fn session_rows_hold_hits(all: bool, hits: Seq<bool>, n: int)
    requires
        n <= usize::MAX,
    ensures
        ({
            let rows = session_rows(all, hits, n);
            &&& forall|k: int|
                0 <= k < n ==> (#[trigger] rows.contains(HistoryRow::AgentSession(k as usize)) <==> all || (k
                    < hits.len() && hits[k]))
            &&& forall|i: int|
                0 <= i < rows.len() ==> (#[trigger] rows[i] matches HistoryRow::AgentSession(k) && k < n)
            &&& forall|i: int, j: int|
                0 <= i < j < rows.len() ==> #[trigger] rows[i]->AgentSession_0 < #[trigger] rows[j]->AgentSession_0
        }),
    decreases n,
{
    if n > 0 {
        session_rows_hold_hits(all, hits, n - 1);
        let before = session_rows(all, hits, n - 1);
        let rows = session_rows(all, hits, n);
        assert forall|k: int| 0 <= k < n implies (#[trigger] rows.contains(HistoryRow::AgentSession(k as usize))
            <==> all || (k < hits.len() && hits[k])) by {
            let wanted = HistoryRow::AgentSession(k as usize);
            if before.contains(wanted) {
                let at = choose|i: int| 0 <= i < before.len() && before[i] == wanted;
                assert(rows[at] == wanted);
            }
            if k == n - 1 && hit(all, hits, k) {
                assert(rows[before.len() as int] == wanted);
            }
            if rows.contains(wanted) {
                let at = choose|i: int| 0 <= i < rows.len() && rows[i] == wanted;
                if at < before.len() {
                    assert(before[at] == wanted);
                    assert(k < n - 1);
                }
            }
        }
    }
}

/// A thread is listed exactly if there is no query or the query matches its name.
pub proof fn matching_threads_are_listed(state: ThreadHistoryState, k: int)
    requires
        0 <= k < state.threads.len(),
    ensures
        state.listed().contains(HistoryRow::Thread(k as usize)) <==> trim(state.query@).len() == 0 || (k
            < state.thread_hits@.len() && state.thread_hits@[k]),
{
    let n = state.threads@.len() as int;
    let rows = thread_rows(state.shows_all(), state.thread_hits@, n);
    thread_rows_hold(state.shows_all(), state.thread_hits@, n);
    sections_of_a_kind(state);
    let wanted = HistoryRow::Thread(k as usize);
    if rows.contains(wanted) {
        let at = choose|i: int| 0 <= i < rows.len() && rows[i] == wanted;
        assert(state.thread_section()[at + 1] == wanted);
        assert(state.listed()[at + 1] == wanted);
    }
    if state.listed().contains(wanted) {
        let at = choose|i: int| 0 <= i < state.listed().len() && state.listed()[i] == wanted;
        assert(at < state.thread_section().len());
        assert(state.thread_section()[at] == wanted);
        assert(rows[at - 1] == wanted);
    }
}

/// A conversation of the agent is listed exactly if there is no query or the query matches its title.
pub proof fn only_matching_conversations_are_listed(
    state: ThreadHistoryState,
    sessions: Vec<AgentSessionSummary>,
    k: int,
)
    requires
        state.agent_sessions == AgentSessions::Loaded(sessions),
        0 <= k < sessions.len(),
    ensures
        state.listed().contains(HistoryRow::AgentSession(k as usize)) <==> trim(state.query@).len() == 0 || (k
            < state.session_hits@.len() && state.session_hits@[k]),
{
    let n = sessions@.len() as int;
    let rows = session_rows(state.shows_all(), state.session_hits@, n);
    session_rows_hold_hits(state.shows_all(), state.session_hits@, n);
    sections_of_a_kind(state);
    let wanted = HistoryRow::AgentSession(k as usize);
    let first = state.thread_section().len();
    if rows.contains(wanted) {
        let at = choose|i: int| 0 <= i < rows.len() && rows[i] == wanted;
        assert(state.agent_section()[at + 1] == wanted);
        assert(state.listed()[first + at + 1] == wanted);
    }
    if state.listed().contains(wanted) {
        let at = choose|i: int| 0 <= i < state.listed().len() && state.listed()[i] == wanted;
        assert(first <= at < first + state.agent_section().len());
        assert(state.agent_section()[at - first] == wanted);
        assert(rows[at - first - 1] == wanted);
    }
}

/// A turn that was found is listed exactly if there is a query.
pub proof fn found_turns_are_listed(state: ThreadHistoryState, found: Vec<HistoryMatch>, k: int)
    requires
        state.matches == HistoryMatches::Loaded(found),
        0 <= k < found.len(),
    ensures
        state.listed().contains(HistoryRow::Match(k as usize)) <==> trim(state.query@).len() > 0,
{
    sections_of_a_kind(state);
    let wanted = HistoryRow::Match(k as usize);
    let first = state.thread_section().len() + state.agent_section().len();
    if !state.shows_all() {
        assert(match_rows(found@.len() as int)[k] == wanted);
        assert(state.match_section()[k + 1] == wanted);
        assert(state.listed()[first + k + 1] == wanted);
    }
    if state.listed().contains(wanted) {
        let at = choose|i: int| 0 <= i < state.listed().len() && state.listed()[i] == wanted;
        assert(first <= at);
        assert(state.match_section()[at - first] == wanted);
    }
}

/// What the rows of each section stand for.
proof fn sections_of_a_kind(state: ThreadHistoryState)
    ensures
        ({
            let a = state.thread_section();
            let b = state.agent_section();
            let c = state.match_section();
            &&& forall|i: int|
                0 <= i < a.len() ==> !(#[trigger] a[i] is AgentSession) && !(a[i] is Match) && (a[i]
                    matches HistoryRow::Thread(k) ==> k < state.threads@.len())
            &&& forall|i: int, j: int|
                0 <= i < j < a.len() && (#[trigger] a[i] is Thread) && (#[trigger] a[j] is Thread) ==> a[i]->Thread_0
                    < a[j]->Thread_0
            &&& forall|i: int|
                0 <= i < b.len() ==> !(#[trigger] b[i] is Thread) && !(b[i] is Match) && (b[i]
                    matches HistoryRow::AgentSession(k) ==> (state.agent_sessions matches AgentSessions::Loaded(sessions)
                    && k < sessions@.len()))
            &&& forall|i: int, j: int|
                0 <= i < j < b.len() && (#[trigger] b[i] is AgentSession) && (#[trigger] b[j] is AgentSession)
                    ==> b[i]->AgentSession_0 < b[j]->AgentSession_0
            &&& forall|i: int|
                0 <= i < c.len() ==> !(#[trigger] c[i] is Thread) && !(c[i] is AgentSession) && (c[i]
                    matches HistoryRow::Match(k) ==> (state.matches matches HistoryMatches::Loaded(found) && k
                    < found@.len()))
            &&& forall|i: int, j: int|
                0 <= i < j < c.len() && (#[trigger] c[i] is Match) && (#[trigger] c[j] is Match) ==> c[i]->Match_0
                    < c[j]->Match_0
        }),
{
    let all = state.shows_all();
    assert(state.threads.len() <= usize::MAX);
    thread_rows_hold(all, state.thread_hits@, state.threads@.len() as int);
    let rows = thread_rows(all, state.thread_hits@, state.threads@.len() as int);
    let a = state.thread_section();
    assert forall|i: int, j: int|
        0 <= i < j < a.len() && (#[trigger] a[i] is Thread) && (#[trigger] a[j] is Thread) implies a[i]->Thread_0
        < a[j]->Thread_0 by {
        assert(a[i] == rows[i - 1] && a[j] == rows[j - 1]);
    }
    if let AgentSessions::Loaded(sessions) = state.agent_sessions {
        assert(sessions.len() <= usize::MAX);
        session_rows_hold_hits(all, state.session_hits@, sessions@.len() as int);
        let rows = session_rows(all, state.session_hits@, sessions@.len() as int);
        let b = state.agent_section();
        assert forall|i: int, j: int|
            0 <= i < j < b.len() && (#[trigger] b[i] is AgentSession) && (#[trigger] b[j] is AgentSession) implies b[i]->AgentSession_0
            < b[j]->AgentSession_0 by {
            assert(b[i] == rows[i - 1] && b[j] == rows[j - 1]);
        }
    }
    if let HistoryMatches::Loaded(found) = state.matches {
        assert(found.len() <= usize::MAX);
    }
}

/// Threads are listed before the conversations of the agent, and those before the turns that were
/// found; among themselves each kind is in its own order, and no row stands for nothing.
pub proof fn rows_are_in_order(state: ThreadHistoryState, i: int, j: int)
    requires
        0 <= i < j < state.listed().len(),
    ensures
        match (state.listed()[i], state.listed()[j]) {
            (HistoryRow::Thread(k), HistoryRow::Thread(l)) => k < l < state.threads@.len(),
            (HistoryRow::AgentSession(k), HistoryRow::AgentSession(l)) => k < l,
            (HistoryRow::Match(k), HistoryRow::Match(l)) => k < l,
            (HistoryRow::AgentSession(_), HistoryRow::Thread(_)) => false,
            (HistoryRow::Match(_), HistoryRow::Thread(_)) => false,
            (HistoryRow::Match(_), HistoryRow::AgentSession(_)) => false,
            _ => true,
        },
        state.listed()[j] matches HistoryRow::AgentSession(l) ==> (state.agent_sessions
            matches AgentSessions::Loaded(sessions) && l < sessions@.len()),
        state.listed()[j] matches HistoryRow::Match(l) ==> (state.matches matches HistoryMatches::Loaded(found) && l
            < found@.len()),
{
    sections_of_a_kind(state);
    let a = state.thread_section();
    let b = state.agent_section();
    let c = state.match_section();
    let rows = state.listed();
    let x = a.len() as int;
    let y = (a.len() + b.len()) as int;
    assert(rows[i] == if i < x { a[i] } else if i < y { b[i - x] } else { c[i - y] });
    assert(rows[j] == if j < x { a[j] } else if j < y { b[j - x] } else { c[j - y] });
}

/// The project that a thread belongs to is looked for by the id of its space first: a slot with this
/// id wins over one with this name, and among equals the first; there is none exactly if no slot has
/// either.
pub proof fn projects_are_found_by_id_then_by_name(m: Model, project: Seq<char>)
    ensures
        match m.history_slot(project) {
            Some(i) => {
                &&& 0 <= i < m.projects.len()
                &&& m.projects[i].task_space.id@ == project || m.projects[i].name@ == project
                &&& m.projects[i].task_space.id@ != project ==> forall|k: int|
                    0 <= k < m.projects.len() ==> (#[trigger] m.projects[k]).task_space.id@ != project
                &&& m.projects[i].task_space.id@ != project ==> forall|k: int|
                    0 <= k < i ==> (#[trigger] m.projects[k]).name@ != project
                &&& forall|k: int| 0 <= k < i ==> (#[trigger] m.projects[k]).task_space.id@ != project
            },
            None => forall|k: int|
                0 <= k < m.projects.len() ==> (#[trigger] m.projects[k]).task_space.id@ != project
                    && m.projects[k].name@ != project,
        },
{
    crate::seqs::first_index_holds(m.projects, has_space(project));
    crate::seqs::first_index_holds(m.projects, has_name(project));
    assert forall|k: int| 0 <= k < m.projects.len() implies has_space(project)(#[trigger] m.projects[k]) == (
    m.projects[k].task_space.id@ == project) by {}
    assert forall|k: int| 0 <= k < m.projects.len() implies has_name(project)(#[trigger] m.projects[k]) == (
    m.projects[k].name@ == project) by {}
}

/// A turn of the chat is opened in the chat; one of a project on the rail in that project, which is
/// shown for it where it is not; and one of any other project once that was opened.
pub proof fn turns_are_opened_where_they_belong(m: Model, found: HistoryMatch, query: String, chat_scope: Seq<char>)
    requires
        m.projects.len() <= usize::MAX,
    ensures
        ({
            let after = m.match_opened(found, query, chat_scope);
            let last = after.effects.last();
            &&& found.project@ == chat_scope ==> last == (Effect::OpenChat { thread_id: found.thread_id, query })
            &&& found.project@ != chat_scope && (forall|k: int|
                0 <= k < m.projects.len() ==> (#[trigger] m.projects[k]).task_space.id@ != found.project@
                    && m.projects[k].name@ != found.project@) ==> last == (Effect::OpenClosedProject { found, query })
            &&& last is OpenThreadAtTurn && m.sessions.len() == m.projects.len() && m.effects.len()
                < after.effects.len() ==> {
                let session = last->OpenThreadAtTurn_session;
                &&& last->OpenThreadAtTurn_found == found && last->OpenThreadAtTurn_query == query
                &&& session < m.projects.len()
                &&& m.projects[session as int].task_space.id@ == found.project@ || m.projects[session as int].name@
                    == found.project@
                &&& m.chrome.surface.chat_mode || session != m.active ==> after.effects[m.effects.len() as int]
                    == Effect::SwitchProject(session)
                &&& !m.chrome.surface.chat_mode && session == m.active ==> after.effects.len() == m.effects.len() + 1
            }
            &&& found.project@ != chat_scope && m.sessions.len() == m.projects.len() && (exists|k: int|
                0 <= k < m.projects.len() && ((#[trigger] m.projects[k]).task_space.id@ == found.project@
                    || m.projects[k].name@ == found.project@)) ==> last is OpenThreadAtTurn && after.effects.len()
                > m.effects.len()
            &&& after == (Model { effects: after.effects, ..m })
            &&& after.effects.take(m.effects.len() as int) == m.effects
        }),
{
    projects_are_found_by_id_then_by_name(m, found.project@);
    let after = m.match_opened(found, query, chat_scope);
    assert(after.effects.take(m.effects.len() as int) =~= m.effects);
}

/// A project that is on the rail goes by its name there, one on another machine with that machine
/// behind it; any other by the title that is known of it, or else by what it was stored as.
pub proof fn places_have_names(projects: Seq<ProjectSlot>, titles: Seq<SpaceTitle>, project: Seq<char>)
    ensures
        (forall|k: int|
            0 <= k < projects.len() ==> (#[trigger] projects[k]).task_space.id@ != project && projects[k].name@
                != project) && (forall|k: int| 0 <= k < titles.len() ==> (#[trigger] titles[k]).id@ != project)
            ==> place_text(projects, titles, project) == project,
        (exists|k: int|
            0 <= k < projects.len() && ((#[trigger] projects[k]).task_space.id@ == project || projects[k].name@
                == project)) ==> exists|k: int|
            0 <= k < projects.len() && ((#[trigger] projects[k]).task_space.id@ == project || projects[k].name@
                == project) && (forall|l: int|
                0 <= l < k ==> (#[trigger] projects[l]).task_space.id@ != project && projects[l].name@ != project)
                && projects[k].name@.is_prefix_of(place_text(projects, titles, project)) && (projects[k].remote_host
                is None ==> place_text(projects, titles, project) == projects[k].name@) && (
            projects[k].remote_host matches Some(host) ==> place_text(projects, titles, project).len()
                == projects[k].name@.len() + host@.len() + 2 && place_text(projects, titles, project).subrange(
                (projects[k].name@.len() + 1) as int,
                (projects[k].name@.len() + 1 + host@.len()) as int,
            ) == host@),
        (forall|k: int|
            0 <= k < projects.len() ==> (#[trigger] projects[k]).task_space.id@ != project && projects[k].name@
                != project) && (exists|k: int| 0 <= k < titles.len() && (#[trigger] titles[k]).id@ == project)
            ==> exists|k: int|
            0 <= k < titles.len() && (#[trigger] titles[k]).id@ == project && place_text(projects, titles, project)
                == titles[k].title@ && forall|l: int| 0 <= l < k ==> (#[trigger] titles[l]).id@ != project,
{
    let p = goes_by(project);
    let t = title_of(project);
    crate::seqs::first_index_holds(projects, p);
    crate::seqs::first_index_holds(titles, t);
    assert forall|k: int| 0 <= k < projects.len() implies p(#[trigger] projects[k]) == (projects[k].task_space.id@
        == project || projects[k].name@ == project) by {}
    assert forall|k: int| 0 <= k < titles.len() implies t(#[trigger] titles[k]) == (titles[k].id@ == project) by {}
    if let Some(i) = first_index(projects, p) {
        let slot = projects[i];
        let text = place_text(projects, titles, project);
        if let Some(host) = slot.remote_host {
            reveal_strlit("（");
            reveal_strlit("）");
            let from = (slot.name@.len() + 1) as int;
            assert(text.subrange(from, from + host@.len()) =~= host@);
        }
        assert(slot.name@ =~= text.take(slot.name@.len() as int));
        assert(slot.name@.is_prefix_of(text));
    }
}

/// The history of a project holds exactly the stored threads that belong to its space, or that were
/// stored by its name.
pub proof fn the_history_holds_the_threads_of_the_project(
    stored: Seq<StoredThread>,
    space: Seq<char>,
    name: Seq<char>,
    thread: HistoryThread,
)
    ensures
        stored.filter(belongs(space, name)).map_values(bare_thread()).contains(thread) <==> exists|k: int|
            0 <= k < stored.len() && (#[trigger] stored[k]).thread == thread && (stored[k].project@ == space
                || stored[k].project@ == name),
{
    let keep = belongs(space, name);
    let kept = stored.filter(keep);
    let threads = kept.map_values(bare_thread());
    crate::seqs::filter_holds(stored, keep);
    if threads.contains(thread) {
        let i = choose|i: int| 0 <= i < threads.len() && threads[i] == thread;
        crate::seqs::filter_comes_from(stored, keep, i);
        let k = choose|k: int| 0 <= k < stored.len() && #[trigger] stored[k] == kept[i];
        assert(keep(kept[i]));
        assert(stored[k].thread == thread);
    }
    if exists|k: int|
        0 <= k < stored.len() && (#[trigger] stored[k]).thread == thread && (stored[k].project@ == space
            || stored[k].project@ == name) {
        let k = choose|k: int|
            0 <= k < stored.len() && (#[trigger] stored[k]).thread == thread && (stored[k].project@ == space
                || stored[k].project@ == name);
        crate::seqs::filter_keeps(stored, keep, k);
        let i = choose|i: int| 0 <= i < kept.len() && kept[i] == stored[k];
        assert(threads[i] == thread);
    }
}

/// A conversation is listed as the agent's own exactly if the agent has it and no thread here does.
pub proof fn known_conversations_are_left_out(
    sessions: Seq<AgentSessionSummary>,
    known: Seq<Seq<char>>,
    session: AgentSessionSummary,
)
    ensures
        sessions.filter(not_among(known)).contains(session) <==> sessions.contains(session) && !known.contains(
            session.session_id@,
        ),
{
    let keep = not_among(known);
    let kept = sessions.filter(keep);
    crate::seqs::filter_holds(sessions, keep);
    if kept.contains(session) {
        let i = choose|i: int| 0 <= i < kept.len() && kept[i] == session;
        crate::seqs::filter_comes_from(sessions, keep, i);
        assert(keep(kept[i]));
    }
    if sessions.contains(session) && !known.contains(session.session_id@) {
        let k = choose|k: int| 0 <= k < sessions.len() && sessions[k] == session;
        crate::seqs::filter_keeps(sessions, keep, k);
    }
}

/// Bringing the selection in place changes nothing else; a selection that is in place stays, and one
/// past the end goes to the last row that can be selected.
pub proof fn the_selection_moves_only_from_past_the_end(state: ThreadHistoryState)
    requires
        state.choices() <= usize::MAX,
    ensures
        state.selected < state.choices() ==> state.clamped() == state,
        state.choices() > 0 && state.selected >= state.choices() ==> state.clamped().selected + 1
            == state.choices(),
        state.clamped().listed() == state.listed(),
        (ThreadHistoryState { selected: state.selected, ..state.clamped() }) == state,
{
    assert(state.clamped().listed() == state.listed());
}

/// A query that differs from the one before selects the first row, and a search is waited for exactly
/// if the query says something; no search that was asked for before is the current one.
pub proof fn a_new_query_starts_over(
    before: Model,
    after: Model,
    query: String,
    thread_hits: Vec<bool>,
    session_hits: Vec<bool>,
)
    requires
        requeried(before, after, query, thread_hits, session_hits),
        before.thread_history matches Some(state) && state.query@ != query@,
        before.has_storage,
    ensures
        ({
            let was = before.thread_history->0;
            let state = after.thread_history->0;
            let n = before.effects.len() as int;
            &&& after.thread_history is Some
            &&& state.query == query && state.selected == 0
            &&& state.thread_hits == thread_hits && state.session_hits == session_hits
            &&& state.search_generation != was.search_generation
            &&& state.threads == was.threads && state.agent_sessions == was.agent_sessions
            &&& after.effects[n] == Effect::ScrollHistoryTo(0)
            &&& trim(query@).len() == 0 ==> state.matches is Idle && after.effects.len() == n + 1
            &&& trim(query@).len() > 0 ==> {
                &&& state.matches is Searching
                &&& after.effects.len() == n + 2
                &&& after.effects[n + 1] matches Effect::WaitToSearch { generation, query: wanted }
                    && generation == state.search_generation && wanted@ == trim(query@)
            }
        }),
{
}

/// Whatever row is opened, the history closes, and exactly the thing that the row stands for is
/// opened; a head or a message opens nothing.
pub proof fn opening_a_row_opens_what_it_stands_for(
    before: Model,
    after: Model,
    row: HistoryRow,
    chat_scope: Seq<char>,
)
    requires
        row_opened(before, after, row, chat_scope),
        before.thread_history is Some,
    ensures
        ({
            let state = before.thread_history->0;
            let n = before.effects.len() as int;
            &&& (row is Header || row is Message) ==> after == before
            &&& !(row is Header || row is Message) ==> after.thread_history is None
            &&& row matches HistoryRow::Thread(i) ==> i < state.threads@.len() ==> after.effects
                == before.effects.push(
                Effect::OpenHistoryThread { panel: state.panel, thread: state.threads@[i as int] },
            )
            &&& row matches HistoryRow::AgentSession(i) ==> (state.agent_sessions
                matches AgentSessions::Loaded(sessions) ==> i < sessions@.len() ==> after.effects
                == before.effects.push(
                Effect::OpenAgentSession { panel: state.panel, agent: state.agent, session: sessions@[i as int] },
            ))
            &&& row matches HistoryRow::Match(i) ==> (state.matches matches HistoryMatches::Loaded(found) ==> i
                < found@.len() ==> (found@[i as int].project@ == chat_scope ==> after.effects.len() == n + 1 && (
            after.effects[n] matches Effect::OpenChat { thread_id, query } && thread_id == found@[i as int].thread_id
                && query@ == trim(state.query@))))
        }),
{
}

/// A thread that was opened is in sight afterwards: beside the fleet the agent dock is shown, and
/// in the chat nothing is; the match is searched in it where there is a query, otherwise its composer
/// has the focus.
pub proof fn an_opened_thread_is_in_sight(m: Model, panel: u64, thread: Option<usize>, query: Option<String>)
    ensures
        ({
            let after = m.thread_revealed(panel, thread, query);
            &&& !m.chrome.surface.fleet_mode && !m.chrome.surface.chat_mode ==> after.chrome.docks.right
            &&& !m.chrome.surface.fleet_mode && m.chrome.surface.chat_mode ==> after.chrome == m.chrome
            &&& !m.chrome.surface.fleet_mode ==> after.effects.len() == m.effects.len() + 1
            &&& query is Some ==> after.effects.last() == (Effect::RevealMatch { panel, query: query->0 })
            &&& query is None ==> after.effects.last() == Effect::FocusComposerOf(panel)
        }),
{
}

/// A conversation has a title exactly if something of it is not white space; it is its words with one
/// space between them.
pub proof fn titles_are_words_on_one_line(session: AgentSessionSummary)
    ensures
        session_title(session) is Some <==> (session.title is Some && words(session.title->0@).len() > 0),
        session_title(session) matches Some(title) ==> title == join(words(session.title->0@), seq![' ']),
{
    reveal_strlit(" ");
    assert(" "@ =~= seq![' ']);
}

/// The folder of a conversation is named only where it is another one than the project's.
pub proof fn only_other_folders_are_named(cwd: Seq<char>, root: Seq<char>)
    ensures
        other_folder(cwd, cwd) is None,
        other_folder(cwd, root) is Some ==> cwd != root && other_folder(cwd, root) == name_of(cwd),
{
}

/// An answer of the agent changes what is known of its conversations, and brings the selection in place;
/// nothing else of the history changes.
pub proof fn answers_change_the_conversations_alone(
    before: Model,
    after: Model,
    state: ThreadHistoryState,
    fresh: Seq<AgentSessionSummary>,
)
    requires
        sessions_shown(before, after, state, fresh),
    ensures
        ({
            let now = after.thread_history->0;
            &&& after.thread_history is Some
            &&& now.agent_sessions matches AgentSessions::Loaded(sessions) && sessions@ == fresh
            &&& now.query == state.query && now.threads == state.threads && now.matches == state.matches
            &&& now.panel == state.panel && now.search_generation == state.search_generation
            &&& now.choices() > 0 ==> now.selected < now.choices()
            &&& state.selected < now.choices() ==> now.selected == state.selected
            &&& after.effects == before.effects
        }),
{
    let sessions = choose|sessions: Vec<AgentSessionSummary>|
        sessions@ == fresh && after == #[trigger] before.sessions_loaded(state, sessions);
    let loaded = ThreadHistoryState { agent_sessions: AgentSessions::Loaded(sessions), ..state };
    assert(loaded.clamped().listed() == loaded.listed());
}

/// A thread that was found in the fleet is shown in the cell of the project whose panel it is in: the
/// first that has this panel.
pub proof fn panels_are_found_by_their_number(sessions: Seq<ProjectSession>, panel: u64)
    ensures
        match first_index(sessions, has_panel(panel)) {
            Some(i) => 0 <= i < sessions.len() && sessions[i].panel == panel && forall|k: int|
                0 <= k < i ==> (#[trigger] sessions[k]).panel != panel,
            None => forall|k: int| 0 <= k < sessions.len() ==> (#[trigger] sessions[k]).panel != panel,
        },
{
    let wanted = has_panel(panel);
    crate::seqs::first_index_holds(sessions, wanted);
    assert forall|k: int| 0 <= k < sessions.len() implies wanted(#[trigger] sessions[k]) == (sessions[k].panel
        == panel) by {}
}

/// In the fleet a thread that was opened is shown in the cell of its own task.
pub proof fn the_fleet_shows_an_opened_thread(m: Model, panel: u64, thread: usize, query: Option<String>, i: int)
    requires
        m.chrome.surface.fleet_mode,
        0 <= i < m.sessions.len(),
        m.sessions[i].panel == panel,
        forall|k: int| 0 <= k < i ==> (#[trigger] m.sessions[k]).panel != panel,
    ensures
        ({
            let after = m.thread_revealed(panel, Some(thread), query);
            let shown = m.agent_revealed(i, thread);
            &&& after.chrome == shown.chrome && after.fleet_cells == shown.fleet_cells
            &&& after.effects.drop_last() == shown.effects
        }),
{
    let wanted = has_panel(panel);
    assert forall|k: int| 0 <= k < i implies !wanted(#[trigger] m.sessions[k]) by {}
    first_index_is(m.sessions, wanted, i);
    let after = m.thread_revealed(panel, Some(thread), query);
    assert(after.effects.drop_last() =~= m.agent_revealed(i, thread).effects);
}

/// What a section says while it has no rows: that there are no threads, what became of asking the agent,
/// and what became of the search; a search says nothing without a query.
pub proof fn empty_sections_say_why(state: ThreadHistoryState)
    ensures
        ({
            let rows = state.listed();
            let asked = trim(state.query@).len() > 0;
            &&& !asked && state.threads@.len() == 0 ==> rows.contains(
                HistoryRow::Message(HistoryMessage::ThreadsEmpty),
            )
            &&& state.agent_sessions is Loading ==> rows.contains(HistoryRow::Message(HistoryMessage::AgentLoading))
            &&& state.agent_sessions matches AgentSessions::Failed(error) ==> rows.contains(
                HistoryRow::Message(HistoryMessage::AgentFailed { error }),
            )
            &&& state.agent_sessions is Unsupported ==> rows.contains(
                HistoryRow::Message(HistoryMessage::AgentUnsupported { agent: state.agent }),
            )
            &&& asked && state.matches is Searching ==> rows.contains(
                HistoryRow::Message(HistoryMessage::MatchesSearching),
            )
            &&& state.matches matches HistoryMatches::Failed(error) ==> (asked ==> rows.contains(
                HistoryRow::Message(HistoryMessage::MatchesFailed { error }),
            ))
            &&& state.matches matches HistoryMatches::Loaded(found) ==> (asked && found@.len() == 0 ==> rows.contains(
                HistoryRow::Message(HistoryMessage::MatchesEmpty),
            ))
            &&& state.agent_sessions matches AgentSessions::Loaded(sessions) ==> (sessions@.len() == 0
                ==> rows.contains(HistoryRow::Message(HistoryMessage::AgentEmpty)))
        }),
{
    let rows = state.listed();
    let a = state.thread_section();
    let b = state.agent_section();
    let c = state.match_section();
    let x = a.len() as int;
    let y = x + b.len();
    if a.len() > 1 {
        assert(rows[1] == a[1]);
    }
    if b.len() > 1 {
        assert(rows[x + 1] == b[1]);
    }
    if c.len() > 1 {
        assert(rows[y + 1] == c[1]);
    }
    assert(state.threads@.len() == 0 ==> thread_rows(state.shows_all(), state.thread_hits@, 0).len() == 0);
}

} // verus!
