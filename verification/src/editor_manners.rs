//! Small things that an editor is expected to do: copying `path:line`, closing every tab, opening
//! the file in another application.

use vstd::prelude::*;
use vstd::string::*;
use crate::paths::{relative_to, seen_from};
use crate::pins::pins_lead;
use crate::seqs::{filter_holds, filter_keeps, filter_none, filter_step, maybe_text};
use crate::tabs::{
    closing_another_tab_leaves_the_active_one, closing_keeps_pins_left, closing_keeps_the_active_tab,
    closing_keeps_the_others,
};
use crate::text::{
    contains, decimal, decimal_reads_back, decimal_text, digits_value, occurrences_are_surrounded, texts,
    texts_empty, texts_push,
};
use crate::workspace::{Effect, EditorTab, Model, Notice, Workspace};

verus! {

/// Where a file is opened besides here.
#[derive(Clone, Copy, PartialEq, Eq, Structural, Debug)]
pub enum ExternalApp {
    VsCode,
    Cursor,
    Zed,
    Terminal,
}

#[derive(Clone, Copy, PartialEq, Eq, Structural, Debug)]
pub enum Platform {
    MacOs,
    Windows,
    Other,
}

/// A program and its arguments.
pub struct ExternalCommand {
    pub program: String,
    pub args: Vec<String>,
}

/// A program and its arguments, as texts.
pub struct CommandText {
    pub program: Seq<char>,
    pub args: Seq<Seq<char>>,
}

impl View for ExternalCommand {
    type V = CommandText;

    open spec fn view(&self) -> CommandText {
        CommandText { program: self.program@, args: texts(self.args@) }
    }
}

impl ExternalApp {
    pub open spec fn cli_name(self) -> Option<Seq<char>> {
        match self {
            ExternalApp::VsCode => Some("code"@),
            ExternalApp::Cursor => Some("cursor"@),
            ExternalApp::Zed => Some("zed"@),
            ExternalApp::Terminal => None,
        }
    }

    pub open spec fn mac_name(self) -> Seq<char> {
        match self {
            ExternalApp::VsCode => "Visual Studio Code"@,
            ExternalApp::Cursor => "Cursor"@,
            ExternalApp::Zed => "Zed"@,
            ExternalApp::Terminal => "Terminal"@,
        }
    }

    pub open spec fn shown_name(self) -> Seq<char> {
        match self {
            ExternalApp::VsCode => "VS Code"@,
            ExternalApp::Cursor => "Cursor"@,
            ExternalApp::Zed => "Zed"@,
            ExternalApp::Terminal => "Terminal"@,
        }
    }

    /// The program to look for. The terminal has another one on each platform.
    pub fn cli(self) -> (r: Option<&'static str>)
        ensures
            match r {
                Some(name) => self.cli_name() == Some(name@),
                None => self.cli_name() == None::<Seq<char>>,
            },
    {
        match self {
            ExternalApp::VsCode => Some("code"),
            ExternalApp::Cursor => Some("cursor"),
            ExternalApp::Zed => Some("zed"),
            ExternalApp::Terminal => None,
        }
    }

    /// What the application is called on a Mac.
    pub fn mac_app(self) -> (r: &'static str)
        ensures
            r@ == self.mac_name(),
    {
        match self {
            ExternalApp::VsCode => "Visual Studio Code",
            ExternalApp::Cursor => "Cursor",
            ExternalApp::Zed => "Zed",
            ExternalApp::Terminal => "Terminal",
        }
    }

    /// What the application is called in notices.
    pub fn label(self) -> (r: &'static str)
        ensures
            r@ == self.shown_name(),
    {
        match self {
            ExternalApp::VsCode => "VS Code",
            ExternalApp::Cursor => "Cursor",
            ExternalApp::Zed => "Zed",
            ExternalApp::Terminal => "Terminal",
        }
    }
}

/// A file and a line in it.
pub struct FileLine {
    pub path: String,
    pub line: usize,
}

/// `path:line`.
pub open spec fn at_line(path: Seq<char>, line: nat) -> Seq<char> {
    path + ":"@ + decimal(line)
}

/// What the program of an editor is called with.
pub open spec fn cli_args(app: ExternalApp, folder: Seq<char>, file: Option<FileLine>) -> Seq<Seq<char>> {
    match (file, app) {
        (Some(file), ExternalApp::VsCode) => seq![folder, "--goto"@, at_line(file.path@, file.line as nat)],
        (Some(file), ExternalApp::Cursor) => seq![folder, "--goto"@, at_line(file.path@, file.line as nat)],
        (Some(file), ExternalApp::Zed) => seq![folder, at_line(file.path@, file.line as nat)],
        _ => seq![folder],
    }
}

fn with_line(path: &str, line: usize) -> (r: String)
    ensures
        r@ == at_line(path@, line as nat),
{
    let mut out = path.to_owned();
    out.append(":");
    out.append(decimal_text(line as u64).as_str());
    out
}

fn push_text(list: &mut Vec<String>, text: &str)
    ensures
        texts(final(list)@) == texts(old(list)@).push(text@),
{
    let s = text.to_owned();
    proof {
        texts_push(list@, s);
    }
    list.push(s);
}

/// What the program of an editor is called with: the folder of the project, and the file with its
/// line where there is one.
pub fn editor_cli_args(app: ExternalApp, folder: &str, file: &Option<FileLine>) -> (args: Vec<String>)
    ensures
        texts(args@) == cli_args(app, folder@, *file),
{
    let mut args: Vec<String> = Vec::new();
    proof {
        texts_empty();
    }
    push_text(&mut args, folder);
    if let Some(file) = file {
        let target = with_line(file.path.as_str(), file.line);
        match app {
            ExternalApp::VsCode | ExternalApp::Cursor => {
                push_text(&mut args, "--goto");
                push_text(&mut args, target.as_str());
            },
            ExternalApp::Zed => {
                push_text(&mut args, target.as_str());
            },
            ExternalApp::Terminal => {},
        }
    }
    assert(texts(args@) =~= cli_args(app, folder@, *file));
    args
}

/// `path:line`, or `path:10-14` for several lines.
pub open spec fn lines_link(path: Seq<char>, start: nat, end: nat) -> Seq<char> {
    if start == end {
        at_line(path, start)
    } else {
        at_line(path, start) + "-"@ + decimal(end)
    }
}

/// `path:line`, or `path:10-14` for several lines.
pub fn path_with_lines(relative: &str, start: usize, end: usize) -> (r: String)
    ensures
        r@ == lines_link(relative@, start as nat, end as nat),
{
    let mut out = with_line(relative, start);
    if start != end {
        out.append("-");
        out.append(decimal_text(end as u64).as_str());
    }
    out
}

/// How a folder is opened in a terminal. `found` is the program that was found for it: `wt` on
/// Windows, `x-terminal-emulator` elsewhere.
pub open spec fn terminal_call(platform: Platform, folder: Seq<char>, found: Option<Seq<char>>) -> Option<CommandText> {
    match platform {
        Platform::MacOs => Some(
            CommandText { program: "open"@, args: seq!["-a"@, "Terminal"@, folder] },
        ),
        Platform::Windows => if found is Some {
            Some(CommandText { program: "wt"@, args: seq!["-d"@, folder] })
        } else {
            Some(
                CommandText {
                    program: "cmd"@,
                    args: seq!["/c"@, "start"@, "cmd"@, "/k"@, "cd /d \""@ + folder + "\""@],
                },
            )
        },
        Platform::Other => match found {
            Some(program) => Some(
                CommandText { program, args: seq!["--working-directory="@ + folder] },
            ),
            None => None,
        },
    }
}

/// The program that is looked for to open things in this application: the terminals of some platforms
/// have one too.
pub open spec fn wanted_program(app: ExternalApp, platform: Platform) -> Option<Seq<char>> {
    if app == ExternalApp::Terminal {
        match platform {
            Platform::MacOs => None,
            Platform::Windows => Some("wt"@),
            Platform::Other => Some("x-terminal-emulator"@),
        }
    } else {
        app.cli_name()
    }
}

/// The program that is looked for to open things in this application.
pub fn program_to_find(app: ExternalApp, platform: Platform) -> (r: Option<&'static str>)
    ensures
        match r {
            Some(program) => wanted_program(app, platform) == Some(program@),
            None => wanted_program(app, platform) == None::<Seq<char>>,
        },
{
    match app {
        ExternalApp::Terminal => match platform {
            Platform::MacOs => None,
            Platform::Windows => Some("wt"),
            Platform::Other => Some("x-terminal-emulator"),
        },
        _ => app.cli(),
    }
}

/// How a folder is opened in a terminal.
pub fn terminal_command(platform: Platform, folder: &str, found: &Option<String>) -> (r: Option<ExternalCommand>)
    ensures
        match r {
            Some(command) => terminal_call(platform, folder@, maybe_text(*found)) == Some(command@),
            None => terminal_call(platform, folder@, maybe_text(*found)) == None::<CommandText>,
        },
{
    let mut args: Vec<String> = Vec::new();
    proof {
        texts_empty();
    }
    match platform {
        Platform::MacOs => {
            push_text(&mut args, "-a");
            push_text(&mut args, "Terminal");
            push_text(&mut args, folder);
            assert(texts(args@) =~= seq!["-a"@, "Terminal"@, folder@]);
            Some(ExternalCommand { program: "open".to_owned(), args })
        },
        Platform::Windows => if found.is_some() {
            push_text(&mut args, "-d");
            push_text(&mut args, folder);
            assert(texts(args@) =~= seq!["-d"@, folder@]);
            Some(ExternalCommand { program: "wt".to_owned(), args })
        } else {
            let mut change = "cd /d \"".to_owned();
            change.append(folder);
            change.append("\"");
            push_text(&mut args, "/c");
            push_text(&mut args, "start");
            push_text(&mut args, "cmd");
            push_text(&mut args, "/k");
            push_text(&mut args, change.as_str());
            assert(texts(args@) =~= seq!["/c"@, "start"@, "cmd"@, "/k"@, "cd /d \""@ + folder@ + "\""@]);
            Some(ExternalCommand { program: "cmd".to_owned(), args })
        },
        Platform::Other => match found {
            Some(program) => {
                let mut directory = "--working-directory=".to_owned();
                directory.append(folder);
                push_text(&mut args, directory.as_str());
                assert(texts(args@) =~= seq!["--working-directory="@ + folder@]);
                Some(ExternalCommand { program: program.clone(), args })
            },
            None => None,
        },
    }
}

/// How a file, or its folder, is opened in another application. `found` is the program that was
/// found for it. A Mac can open the file without one, though not at its line.
pub open spec fn external_call(
    app: ExternalApp,
    platform: Platform,
    found: Option<Seq<char>>,
    folder: Seq<char>,
    file: Option<FileLine>,
) -> Option<CommandText> {
    if app == ExternalApp::Terminal {
        terminal_call(platform, folder, found)
    } else {
        match found {
            Some(program) => Some(CommandText { program, args: cli_args(app, folder, file) }),
            None => if platform == Platform::MacOs {
                Some(
                    CommandText {
                        program: "open"@,
                        args: seq![
                            "-a"@,
                            app.mac_name(),
                            match file {
                                Some(file) => file.path@,
                                None => folder,
                            },
                        ],
                    },
                )
            } else {
                None
            },
        }
    }
}

/// How a file, or its folder, is opened in another application.
pub fn external_command(
    app: ExternalApp,
    platform: Platform,
    found: &Option<String>,
    folder: &str,
    file: &Option<FileLine>,
) -> (r: Option<ExternalCommand>)
    ensures
        match r {
            Some(command) => external_call(app, platform, maybe_text(*found), folder@, *file)
                == Some(command@),
            None => external_call(app, platform, maybe_text(*found), folder@, *file)
                == None::<CommandText>,
        },
{
    if app == ExternalApp::Terminal {
        return terminal_command(platform, folder, found);
    }
    match found {
        Some(program) => Some(
            ExternalCommand { program: program.clone(), args: editor_cli_args(app, folder, file) },
        ),
        None => if platform == Platform::MacOs {
            let mut args: Vec<String> = Vec::new();
            proof {
                texts_empty();
            }
            push_text(&mut args, "-a");
            push_text(&mut args, app.mac_app());
            match file {
                Some(file) => push_text(&mut args, file.path.as_str()),
                None => push_text(&mut args, folder),
            }
            assert(texts(args@) =~= external_call(app, platform, None, folder@, *file)->0.args);
            Some(ExternalCommand { program: "open".to_owned(), args })
        } else {
            None
        },
    }
}

/// A tab that closing every tab leaves open: it has unsaved edits, or is pinned.
pub open spec fn stays() -> spec_fn(EditorTab) -> bool {
    |tab: EditorTab| tab.dirty || tab.pinned
}

/// How many of the tabs from `from` on have unsaved edits.
pub open spec fn unsaved_from(tabs: Seq<EditorTab>, from: int) -> nat
    decreases tabs.len() - from,
{
    if from >= tabs.len() || from < 0 {
        0
    } else if tabs[from].dirty {
        1 + unsaved_from(tabs, from + 1)
    } else {
        unsaved_from(tabs, from + 1)
    }
}

impl Model {
    /// Of the tabs from `low` up to `n`, those that may be closed are, from the right.
    pub open spec fn closed_between(self, low: int, n: int) -> Model
        decreases n - low,
    {
        if n <= low {
            self
        } else {
            let tab = self.tabs[n - 1];
            if tab.dirty || tab.pinned {
                self.closed_between(low, n - 1)
            } else {
                self.tab_closed(n - 1).closed_between(low, n - 1)
            }
        }
    }

    /// Every tab that may be closed is; a notice says how many unsaved ones stay.
    pub open spec fn saved_closed(self) -> Model {
        let unsaved = unsaved_from(self.tabs, 0);
        let m = self.closed_between(0, self.tabs.len() as int);
        if unsaved > 0 {
            m.then_do(Effect::Toast(Notice::UnsavedTabsStay(unsaved as usize)))
        } else {
            m
        }
    }

    /// Every tab but this one is closed that may be.
    pub open spec fn others_closed(self, index: int) -> Model {
        if index < self.tabs.len() {
            self.closed_between(index + 1, self.tabs.len() as int).closed_between(0, index)
        } else {
            self
        }
    }

    /// Every tab to the right of this one is closed that may be.
    pub open spec fn right_closed(self, index: int) -> Model {
        if index < self.tabs.len() {
            self.closed_between(index + 1, self.tabs.len() as int)
        } else {
            self
        }
    }

    /// The file of the active editor, at a line.
    pub open spec fn file_at(self, line: usize) -> Option<FileLine> {
        if self.has_active_file() {
            Some(FileLine { path: self.tab().path, line })
        } else {
            None
        }
    }
}

/// What opening something in another application does.
pub open spec fn opened_outside(before: Model, after: Model, app: ExternalApp, platform: Platform, found: Option<Seq<char>>, line: usize) -> bool {
    if !before.has_slot() {
        after == before
    } else if before.slot().remote_host is Some {
        after == before.then_do(Effect::Toast(Notice::RemoteOpenRefused))
    } else {
        match external_call(app, platform, found, before.slot().root@, before.file_at(line)) {
            None => after == before.then_do(Effect::ExternalMissing(app)),
            Some(call) => exists|command: ExternalCommand|
                command@ == call && after == #[trigger] before.then_do(Effect::Launch { app, command }),
        }
    }
}

impl Workspace {
    /// Copies `path:line` of the active file, as seen from its project.
    pub fn copy_path_with_line(&mut self, start: usize, end: usize)
        ensures
            if old(self)@.has_active_file() {
                let path = old(self)@.tab().path@;
                let seen = if old(self)@.has_slot() {
                    seen_from(path, old(self)@.slot().root@)
                } else {
                    path
                };
                exists|text: String|
                    text@ == lines_link(seen, start as nat, end as nat) && final(self)@
                        == #[trigger] old(self)@.then_do(Effect::CopyText(text)).then_do(Effect::PathCopied(text))
            } else {
                final(self)@ == old(self)@
            },
    {
        if self.active_tab >= self.tabs.len() || !self.tabs[self.active_tab].has_editor
            || !self.tabs[self.active_tab].has_file {
            return;
        }
        let relative = if self.has_active_slot() {
            relative_to(self.tabs[self.active_tab].path.as_str(), self.projects[self.active].root.as_str())
        } else {
            self.tabs[self.active_tab].path.clone()
        };
        let text = path_with_lines(relative.as_str(), start, end);
        self.effect(Effect::CopyText(text.clone()));
        self.effect(Effect::PathCopied(text));
    }

    /// Closes every tab that is saved and not pinned.
    pub fn close_all_tabs(&mut self)
        ensures
            final(self)@ == old(self)@.saved_closed(),
    {
        self.close_saved_tabs();
    }

    /// Closes every tab that is saved and not pinned, and says how many unsaved ones stay.
    pub fn close_saved_tabs(&mut self)
        ensures
            final(self)@ == old(self)@.saved_closed(),
    {
        let kept: usize = self.unsaved_count();
        self.close_between(0, self.tabs.len());
        if kept > 0 {
            self.effect(Effect::Toast(Notice::UnsavedTabsStay(kept)));
        }
    }

    /// Closes every tab but this one, and those that are not saved or are pinned.
    pub fn close_other_tabs(&mut self, index: usize)
        ensures
            final(self)@ == old(self)@.others_closed(index as int),
    {
        if index < self.tabs.len() {
            let count: usize = self.tabs.len();
            proof {
                closed_between_tabs(self@, index + 1, count as int);
            }
            self.close_between(index + 1, count);
            self.close_between(0, index);
        }
    }

    /// Closes every tab to the right of this one, but those that are not saved or are pinned.
    pub fn close_tabs_to_right(&mut self, index: usize)
        ensures
            final(self)@ == old(self)@.right_closed(index as int),
    {
        if index < self.tabs.len() {
            let count: usize = self.tabs.len();
            self.close_between(index + 1, count);
        }
    }

    fn unsaved_count(&self) -> (n: usize)
        ensures
            n == unsaved_from(self@.tabs, 0),
    {
        let total: usize = self.tabs.len();
        let mut n: usize = 0;
        let mut i: usize = total;
        while i > 0
            invariant
                i <= total,
                total == self.tabs@.len(),
                n == unsaved_from(self.tabs@, i as int),
                n <= total - i,
            decreases i,
        {
            i = i - 1;
            if self.tabs[i].dirty {
                n = n + 1;
            }
        }
        n
    }

    fn close_between(&mut self, low: usize, high: usize)
        requires
            low <= high <= old(self)@.tabs.len(),
        ensures
            final(self)@ == old(self)@.closed_between(low as int, high as int),
    {
        let mut i: usize = high;
        while i > low
            invariant
                low <= i,
                i <= self@.tabs.len(),
                self@.closed_between(low as int, i as int) == old(self)@.closed_between(low as int, high as int),
            decreases i,
        {
            i = i - 1;
            if !self.tabs[i].dirty && !self.tabs[i].pinned {
                proof {
                    closing_keeps_the_others(self@, i as int);
                }
                self.close_tab_at(i);
            }
        }
    }

    pub fn open_in_vs_code(&mut self, platform: Platform, found: &Option<String>, line: usize)
        ensures
            opened_outside(old(self)@, final(self)@, ExternalApp::VsCode, platform, maybe_text(*found), line),
    {
        self.open_in_external_app(ExternalApp::VsCode, platform, found, line);
    }

    pub fn open_in_cursor(&mut self, platform: Platform, found: &Option<String>, line: usize)
        ensures
            opened_outside(old(self)@, final(self)@, ExternalApp::Cursor, platform, maybe_text(*found), line),
    {
        self.open_in_external_app(ExternalApp::Cursor, platform, found, line);
    }

    pub fn open_in_zed(&mut self, platform: Platform, found: &Option<String>, line: usize)
        ensures
            opened_outside(old(self)@, final(self)@, ExternalApp::Zed, platform, maybe_text(*found), line),
    {
        self.open_in_external_app(ExternalApp::Zed, platform, found, line);
    }

    pub fn open_in_terminal(&mut self, platform: Platform, found: &Option<String>, line: usize)
        ensures
            opened_outside(old(self)@, final(self)@, ExternalApp::Terminal, platform, maybe_text(*found), line),
    {
        self.open_in_external_app(ExternalApp::Terminal, platform, found, line);
    }

    /// Opens the active file at its line, or the folder of the project, in another application.
    /// Files on another machine are not opened; a missing application is told.
    pub fn open_in_external_app(&mut self, app: ExternalApp, platform: Platform, found: &Option<String>, line: usize)
        ensures
            opened_outside(old(self)@, final(self)@, app, platform, maybe_text(*found), line),
    {
        if !self.has_active_slot() {
            return;
        }
        if self.projects[self.active].remote_host.is_some() {
            self.effect(Effect::Toast(Notice::RemoteOpenRefused));
            return;
        }
        let file = if self.active_tab < self.tabs.len() && self.tabs[self.active_tab].has_editor
            && self.tabs[self.active_tab].has_file {
            Some(FileLine { path: self.tabs[self.active_tab].path.clone(), line })
        } else {
            None
        };
        let command = external_command(app, platform, found, self.projects[self.active].root.as_str(), &file);
        match command {
            Some(command) => self.effect(Effect::Launch { app, command }),
            None => self.effect(Effect::ExternalMissing(app)),
        }
    }

    /// The application could not be started.
    pub fn external_app_failed(&mut self, app: ExternalApp)
        ensures
            final(self)@ == old(self)@.then_do(Effect::ExternalMissing(app)),
    {
        self.effect(Effect::ExternalMissing(app));
    }
}

proof fn closed_between_tabs(m: Model, low: int, n: int)
    requires
        0 <= low <= n <= m.tabs.len(),
    ensures
        m.closed_between(low, n).tabs == m.tabs.take(low) + m.tabs.subrange(low, n).filter(stays()) + m.tabs.skip(n),
    decreases n - low,
{
    if n == low {
        filter_none(m.tabs.subrange(low, n), stays());
        assert(m.tabs.subrange(low, n).take(0) =~= m.tabs.subrange(low, n));
        assert(m.tabs.take(low) + Seq::<EditorTab>::empty() + m.tabs.skip(n) =~= m.tabs);
    } else {
        let part = m.tabs.subrange(low, n);
        filter_step(part, n - low - 1, stays());
        assert(part.take(n - low) =~= part);
        assert(part.take(n - low - 1) =~= m.tabs.subrange(low, n - 1));
        let kept = m.tabs.subrange(low, n - 1).filter(stays());
        let tab = m.tabs[n - 1];
        if tab.dirty || tab.pinned {
            closed_between_tabs(m, low, n - 1);
            assert(m.tabs.take(low) + kept + m.tabs.skip(n - 1) =~= m.tabs.take(low) + kept.push(tab) + m.tabs.skip(n));
        } else {
            closing_keeps_the_others(m, n - 1);
            let rest = m.tab_closed(n - 1);
            closed_between_tabs(rest, low, n - 1);
            assert(rest.tabs.take(low) =~= m.tabs.take(low));
            assert(rest.tabs.subrange(low, n - 1) =~= m.tabs.subrange(low, n - 1));
            assert(rest.tabs.skip(n - 1) =~= m.tabs.skip(n));
        }
    }
}

/// Closing every tab leaves exactly the unsaved and the pinned ones, in order.
pub proof fn closing_all_keeps_unsaved_and_pinned(m: Model)
    ensures
        m.saved_closed().tabs == m.tabs.filter(stays()),
{
    let n = m.tabs.len() as int;
    closed_between_tabs(m, 0, n);
    assert(m.tabs.subrange(0, n) =~= m.tabs);
    assert(m.tabs.take(0) + m.tabs.filter(stays()) + m.tabs.skip(n) =~= m.tabs.filter(stays()));
}

/// Closing the other tabs leaves the one that was chosen between the unsaved and the pinned ones.
pub proof fn closing_others_keeps_unsaved_and_pinned(m: Model, index: int)
    requires
        0 <= index < m.tabs.len(),
    ensures
        m.others_closed(index).tabs == m.tabs.take(index).filter(stays()).push(m.tabs[index]) + m.tabs.skip(
            index + 1,
        ).filter(stays()),
        m.right_closed(index).tabs == m.tabs.take(index + 1) + m.tabs.skip(index + 1).filter(stays()),
{
    let n = m.tabs.len() as int;
    closed_between_tabs(m, index + 1, n);
    let right = m.closed_between(index + 1, n);
    assert(m.tabs.subrange(index + 1, n) =~= m.tabs.skip(index + 1));
    assert(right.tabs =~= m.tabs.take(index + 1) + m.tabs.skip(index + 1).filter(stays()));
    closed_between_tabs(right, 0, index);
    assert(right.tabs.subrange(0, index) =~= m.tabs.take(index));
    let kept = m.tabs.take(index).filter(stays());
    assert(right.tabs.take(0) + kept + right.tabs.skip(index) =~= kept.push(m.tabs[index]) + m.tabs.skip(
        index + 1,
    ).filter(stays()));
}

/// Closing every tab twice closes nothing more.
pub proof fn closing_all_twice_closes_no_more(m: Model)
    ensures
        m.saved_closed().saved_closed().tabs == m.saved_closed().tabs,
{
    closing_all_keeps_unsaved_and_pinned(m);
    closing_all_keeps_unsaved_and_pinned(m.saved_closed());
    filter_again(m.tabs, stays());
}

proof fn filter_again<A>(s: Seq<A>, pred: spec_fn(A) -> bool)
    ensures
        s.filter(pred).filter(pred) == s.filter(pred),
    decreases s.len(),
{
    reveal(Seq::filter);
    if s.len() > 0 {
        filter_again(s.drop_last(), pred);
        let before = s.drop_last().filter(pred);
        if pred(s.last()) {
            assert(before.push(s.last()).drop_last() =~= before);
        }
    }
}

proof fn closed_between_stays_in_order(m: Model, low: int, n: int)
    requires
        0 <= low,
        n <= m.tabs.len() <= usize::MAX,
    ensures
        m.tabs_wf() ==> m.closed_between(low, n).tabs_wf(),
        pins_lead(m.tabs) ==> pins_lead(m.closed_between(low, n).tabs),
        m.closed_between(low, n).tabs.len() <= m.tabs.len(),
        low <= n ==> m.closed_between(low, n).tabs.len() >= low,
    decreases n - low,
{
    if n > low {
        if m.tabs[n - 1].dirty || m.tabs[n - 1].pinned {
            closed_between_stays_in_order(m, low, n - 1);
        } else {
            closing_keeps_the_others(m, n - 1);
            if m.tabs_wf() {
                closing_keeps_the_active_tab(m, n - 1);
            }
            if pins_lead(m.tabs) {
                closing_keeps_pins_left(m, n - 1);
            }
            closed_between_stays_in_order(m.tab_closed(n - 1), low, n - 1);
        }
    }
}

/// Closing tabs in bulk leaves one of those that stay active, and the pinned ones at the left end.
pub proof fn closing_in_bulk_keeps_the_tabs_in_order(m: Model, index: int)
    requires
        0 <= index,
        m.tabs.len() <= usize::MAX,
        m.tabs_wf(),
        pins_lead(m.tabs),
    ensures
        m.saved_closed().tabs_wf() && pins_lead(m.saved_closed().tabs),
        m.others_closed(index).tabs_wf() && pins_lead(m.others_closed(index).tabs),
        m.right_closed(index).tabs_wf() && pins_lead(m.right_closed(index).tabs),
{
    let n = m.tabs.len() as int;
    closed_between_stays_in_order(m, 0, n);
    if index < n {
        closed_between_stays_in_order(m, index + 1, n);
        closed_between_stays_in_order(m.closed_between(index + 1, n), 0, index);
    }
}

/// The name of a file with a line is the path, a colon and the line, which reads back as the same number.
pub proof fn lines_stand_behind_the_path(path: Seq<char>, line: nat)
    ensures
        path.is_prefix_of(at_line(path, line)),
        at_line(path, line)[path.len() as int] == ':',
        digits_value(at_line(path, line).skip((path.len() + 1) as int)) == line,
{
    reveal_strlit(":");
    let text = at_line(path, line);
    decimal_reads_back(line);
    assert(text.take(path.len() as int) =~= path);
    assert(text.skip((path.len() + 1) as int) =~= decimal(line));
}

/// One line is named alone, several by the first and the last, with a dash between them.
pub proof fn several_lines_are_named_by_both_ends(path: Seq<char>, start: nat, end: nat)
    ensures
        at_line(path, start).is_prefix_of(lines_link(path, start, end)),
        start == end ==> lines_link(path, start, end) == at_line(path, start),
        start != end ==> {
            let n = at_line(path, start).len() as int;
            &&& lines_link(path, start, end)[n] == '-'
            &&& digits_value(lines_link(path, start, end).skip(n + 1)) == end
        },
{
    reveal_strlit("-");
    decimal_reads_back(end);
    let text = lines_link(path, start, end);
    let n = at_line(path, start).len() as int;
    assert(text.take(n) =~= at_line(path, start));
    if start != end {
        assert(text.skip(n + 1) =~= decimal(end));
    }
}

/// The program of an editor is called with the folder of the project first, and with the file at its line
/// last, where there is one; only some editors are told that it is a place to go to, and a terminal gets
/// the folder alone.
pub proof fn editors_get_the_folder_and_the_place(app: ExternalApp, folder: Seq<char>, file: Option<FileLine>)
    ensures
        ({
            let args = cli_args(app, folder, file);
            &&& args.first() == folder
            &&& file is None || app == ExternalApp::Terminal ==> args.len() == 1
            &&& file matches Some(f) ==> (app != ExternalApp::Terminal ==> args.len() >= 2 && args.last() == at_line(
                f.path@,
                f.line as nat,
            ))
            &&& (args.len() == 3 <==> file is Some && (app == ExternalApp::VsCode || app == ExternalApp::Cursor))
            &&& args.len() == 3 ==> args[1] == "--goto"@
        }),
{
}

/// An application is missing only where no program was found for it and the platform has no other way: a
/// Mac always has one, and so has the terminal on Windows. A program that was found for an editor is the
/// one that is called.
pub proof fn applications_are_found_or_missing(
    app: ExternalApp,
    platform: Platform,
    found: Option<Seq<char>>,
    folder: Seq<char>,
    file: Option<FileLine>,
)
    ensures
        ({
            let call = external_call(app, platform, found, folder, file);
            let terminal = app == ExternalApp::Terminal;
            &&& call is None <==> found is None && (platform == Platform::Other || (platform == Platform::Windows
                && !terminal))
            &&& !terminal && found is Some ==> call->0.program == found->0 && call->0.args == cli_args(
                app,
                folder,
                file,
            )
            &&& terminal && platform == Platform::Other && found is Some ==> call->0.program == found->0
            &&& terminal && platform == Platform::Windows ==> call->0.program == if found is Some { "wt"@ } else { "cmd"@ }
            &&& terminal && call is Some ==> contains(call->0.args.last(), folder)
            &&& !terminal && found is None && platform == Platform::MacOs ==> call->0.args.last() == (
            match file {
                Some(f) => f.path@,
                None => folder,
            })
            &&& platform == Platform::MacOs && (terminal || found is None) ==> call->0.program == "open"@
                && call->0.args[1] == app.mac_name()
        }),
{
    if app == ExternalApp::Terminal {
        if let Some(call) = terminal_call(platform, folder, found) {
            let last = call.args.last();
            let none = Seq::<char>::empty();
            occurrences_are_surrounded(last, folder, none, none);
            assert(none + folder + none =~= folder);
            occurrences_are_surrounded(last, folder, "cd /d \""@, "\""@);
            occurrences_are_surrounded(last, folder, "--working-directory="@, none);
            assert("--working-directory="@ + folder + none =~= "--working-directory="@ + folder);
        }
    }
}

/// The program that is looked for is that of the application, whatever the platform; the terminal of a Mac
/// needs none.
pub proof fn editors_have_the_same_program_everywhere(app: ExternalApp, a: Platform, b: Platform)
    ensures
        app != ExternalApp::Terminal ==> wanted_program(app, a) == wanted_program(app, b) && wanted_program(app, a)
            is Some,
        wanted_program(ExternalApp::Terminal, a) is None <==> a == Platform::MacOs,
{
}

proof fn unsaved_tabs_are_counted(tabs: Seq<EditorTab>, from: int)
    requires
        0 <= from <= tabs.len(),
    ensures
        unsaved_from(tabs, from) == tabs.skip(from).filter(|tab: EditorTab| tab.dirty).len(),
    decreases tabs.len() - from,
{
    let unsaved = |tab: EditorTab| tab.dirty;
    if from == tabs.len() {
        filter_none(tabs.skip(from), unsaved);
        assert(tabs.skip(from).take(0) =~= tabs.skip(from));
    } else {
        unsaved_tabs_are_counted(tabs, from + 1);
        let first = seq![tabs[from]];
        assert(tabs.skip(from) =~= first + tabs.skip(from + 1));
        Seq::filter_distributes_over_add(first, tabs.skip(from + 1), unsaved);
        filter_none(first, unsaved);
        filter_step(first, 0, unsaved);
        assert(first.take(1) =~= first);
    }
}

/// Closing every tab tells how many tabs with unsaved edits stay, and tells nothing where there are none.
pub proof fn unsaved_tabs_that_stay_are_told(m: Model)
    requires
        m.tabs.len() <= usize::MAX,
    ensures
        ({
            let unsaved = m.tabs.filter(|tab: EditorTab| tab.dirty).len();
            &&& unsaved > 0 ==> m.saved_closed().effects.last() == Effect::Toast(
                Notice::UnsavedTabsStay(unsaved as usize),
            )
            &&& unsaved == 0 ==> m.saved_closed() == m.closed_between(0, m.tabs.len() as int)
            &&& unsaved <= m.tabs.len()
        }),
{
    unsaved_tabs_are_counted(m.tabs, 0);
    assert(m.tabs.skip(0) =~= m.tabs);
    filter_holds(m.tabs, |tab: EditorTab| tab.dirty);
}

/// A tab with unsaved edits stays open however many tabs are closed at once, and so does a pinned one;
/// closing all leaves no other.
pub proof fn closing_in_bulk_spares_unsaved_and_pinned_tabs(m: Model, index: int, k: int)
    requires
        0 <= k < m.tabs.len(),
        0 <= index < m.tabs.len(),
    ensures
        m.tabs[k].dirty || m.tabs[k].pinned ==> {
            &&& m.saved_closed().tabs.contains(m.tabs[k])
            &&& m.others_closed(index).tabs.contains(m.tabs[k])
            &&& m.right_closed(index).tabs.contains(m.tabs[k])
        },
        m.others_closed(index).tabs.contains(m.tabs[index]),
        k <= index ==> m.right_closed(index).tabs.contains(m.tabs[k]) && m.right_closed(index).tabs[k] == m.tabs[k],
        forall|i: int|
            0 <= i < m.saved_closed().tabs.len() ==> (#[trigger] m.saved_closed().tabs[i]).dirty
                || m.saved_closed().tabs[i].pinned,
        forall|i: int|
            index < i < m.right_closed(index).tabs.len() ==> (#[trigger] m.right_closed(index).tabs[i]).dirty
                || m.right_closed(index).tabs[i].pinned,
        m.saved_closed().tabs.len() <= m.tabs.len(),
{
    let keep = stays();
    closing_all_keeps_unsaved_and_pinned(m);
    closing_others_keeps_unsaved_and_pinned(m, index);
    filter_holds(m.tabs, keep);
    assert forall|i: int| 0 <= i < m.saved_closed().tabs.len() implies (#[trigger] m.saved_closed().tabs[i]).dirty
        || m.saved_closed().tabs[i].pinned by {
        assert(keep(m.tabs.filter(keep)[i]));
    }
    let left = m.tabs.take(index);
    let right = m.tabs.skip(index + 1);
    let after = m.others_closed(index).tabs;
    let kept = left.filter(keep);
    let rest = right.filter(keep);
    filter_holds(right, keep);
    let cut = m.right_closed(index).tabs;
    assert forall|i: int| index < i < cut.len() implies (#[trigger] cut[i]).dirty || cut[i].pinned by {
        assert(cut[i] == rest[i - index - 1]);
        assert(keep(rest[i - index - 1]));
    }
    assert(after[kept.len() as int] == m.tabs[index]);
    if k <= index {
        assert(cut[k] == m.tabs[k]);
    }
    if m.tabs[k].dirty || m.tabs[k].pinned {
        assert(keep(m.tabs[k]));
        filter_keeps(m.tabs, keep, k);
        if k < index {
            assert(left[k] == m.tabs[k]);
            filter_keeps(left, keep, k);
            let i = choose|i: int| 0 <= i < kept.len() && kept[i] == left[k];
            assert(after[i] == m.tabs[k]);
        } else if k > index {
            assert(right[k - index - 1] == m.tabs[k]);
            filter_keeps(right, keep, k - index - 1);
            let i = choose|i: int| 0 <= i < rest.len() && rest[i] == right[k - index - 1];
            assert(after[kept.len() + 1 + i] == m.tabs[k]);
            assert(cut[index + 1 + i] == m.tabs[k]);
        }
    }
}

proof fn a_tab_that_stays_stays_active(m: Model, low: int, n: int)
    requires
        0 <= low <= n <= m.tabs.len() <= usize::MAX,
        m.active_tab < m.tabs.len(),
        m.active_tab < low || m.active_tab >= n || m.tab().dirty || m.tab().pinned,
    ensures
        m.closed_between(low, n).active_tab < m.closed_between(low, n).tabs.len(),
        m.closed_between(low, n).tab() == m.tab(),
        m.active_tab < low ==> m.closed_between(low, n).active_tab == m.active_tab,
    decreases n - low,
{
    if n > low {
        if m.tabs[n - 1].dirty || m.tabs[n - 1].pinned {
            a_tab_that_stays_stays_active(m, low, n - 1);
        } else {
            closing_keeps_the_others(m, n - 1);
            closing_another_tab_leaves_the_active_one(m, n - 1);
            let rest = m.tab_closed(n - 1);
            assert(rest.tab() == m.tab());
            a_tab_that_stays_stays_active(rest, low, n - 1);
        }
    }
}

/// Closing tabs in bulk leaves the active tab active where it stays open: where it is the one that was
/// chosen, one to its left, or one that is spared.
pub proof fn closing_in_bulk_keeps_the_active_tab(m: Model, index: int)
    requires
        m.active_tab < m.tabs.len() <= usize::MAX,
        0 <= index < m.tabs.len(),
    ensures
        m.active_tab <= index || m.tab().dirty || m.tab().pinned ==> m.right_closed(index).tab() == m.tab(),
        m.active_tab == index || m.tab().dirty || m.tab().pinned ==> m.others_closed(index).tab() == m.tab(),
        m.tab().dirty || m.tab().pinned ==> m.saved_closed().tab() == m.tab(),
{
    let n = m.tabs.len() as int;
    if m.active_tab <= index || m.tab().dirty || m.tab().pinned {
        a_tab_that_stays_stays_active(m, index + 1, n);
        let right = m.closed_between(index + 1, n);
        closed_between_tabs(m, index + 1, n);
        if m.active_tab == index || m.tab().dirty || m.tab().pinned {
            a_tab_that_stays_stays_active(right, 0, index);
        }
    }
    if m.tab().dirty || m.tab().pinned {
        a_tab_that_stays_stays_active(m, 0, n);
    }
}

/// What is opened outside is at the root of the shown project: its active file at the line, where it has
/// one. A project on another machine is refused, and a missing application told.
pub proof fn the_shown_project_is_opened_outside(
    before: Model,
    after: Model,
    app: ExternalApp,
    platform: Platform,
    found: Option<Seq<char>>,
    line: usize,
)
    requires
        opened_outside(before, after, app, platform, found, line),
        before.active < before.projects.len(),
    ensures
        ({
            let slot = before.projects[before.active as int];
            let tab = before.tabs[before.active_tab as int];
            let file = if before.active_tab < before.tabs.len() && tab.has_editor && tab.has_file {
                Some(FileLine { path: tab.path, line })
            } else {
                None
            };
            let last = after.effects.last();
            &&& after.effects.drop_last() == before.effects
            &&& slot.remote_host is Some ==> last == Effect::Toast(Notice::RemoteOpenRefused)
            &&& slot.remote_host is None ==> match external_call(app, platform, found, slot.root@, file) {
                Some(call) => last matches Effect::Launch { app: launched, command } && launched == app && command@
                    == call,
                None => last == Effect::ExternalMissing(app),
            }
        }),
{
    assert(after.effects.drop_last() =~= before.effects);
}

/// Every application has its own names: in notices, on a Mac, and as a program, which only the terminal
/// does not have.
pub proof fn applications_have_their_own_names(a: ExternalApp, b: ExternalApp)
    ensures
        a.cli_name() is None <==> a == ExternalApp::Terminal,
        a.cli_name() == b.cli_name() ==> a == b,
        a.shown_name() == b.shown_name() ==> a == b,
        a.mac_name() == b.mac_name() ==> a == b,
        a != ExternalApp::VsCode ==> a.mac_name() == a.shown_name(),
{
    reveal_strlit("code");
    reveal_strlit("cursor");
    reveal_strlit("zed");
    reveal_strlit("VS Code");
    reveal_strlit("Visual Studio Code");
    reveal_strlit("Cursor");
    reveal_strlit("Zed");
    reveal_strlit("Terminal");
    assert("code"@.len() == 4 && "cursor"@.len() == 6 && "zed"@.len() == 3);
    assert("VS Code"@.len() == 7 && "Visual Studio Code"@.len() == 18 && "Cursor"@.len() == 6);
    assert("Zed"@.len() == 3 && "Terminal"@.len() == 8);
}

} // verus!
