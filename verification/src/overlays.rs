//! What is laid over the editor: bars, the list of completions, the terminal that a project starts.

use vstd::prelude::*;
use vstd::string::*;
use crate::text::{contains, occurs_at, starts_with, texts, texts_empty, texts_push};
use crate::workspace::{Effect, Model, Workspace};

verus! {

/// How many completions are listed.
pub const COMPLETIONS_LISTED: usize = 12;

/// The completions that are listed, of those that match.
pub fn completion_rows(matching: &Vec<usize>) -> (rows: Vec<usize>)
    ensures
        rows@ == if matching@.len() > COMPLETIONS_LISTED {
            matching@.take(COMPLETIONS_LISTED as int)
        } else {
            matching@
        },
{
    let mut rows: Vec<usize> = Vec::new();
    let mut i: usize = 0;
    while i < matching.len() && i < COMPLETIONS_LISTED
        invariant
            i <= matching@.len(),
            i <= COMPLETIONS_LISTED,
            rows@ == matching@.take(i as int),
        decreases matching@.len() - i,
    {
        assert(matching@.take(i + 1) =~= matching@.take(i as int).push(matching@[i as int]));
        rows.push(matching[i]);
        i = i + 1;
    }
    assert(matching@.take(matching@.len() as int) =~= matching@);
    rows
}

/// A line of a hover as it is shown: an empty one keeps its place.
pub fn hover_line(line: &str) -> (r: String)
    ensures
        r@ == if line@.len() == 0 { " "@ } else { line@ },
{
    if line.is_empty() {
        " ".to_owned()
    } else {
        line.to_owned()
    }
}

/// How the host of a project starts a terminal.
pub enum HostLaunch {
    /// With this program.
    Shell { program: String, args: Vec<String> },
    /// With whatever the user has.
    Plain,
    /// Not at all.
    Failed,
}

/// A program that a terminal runs.
pub struct ShellCommand {
    pub program: String,
    pub args: Vec<String>,
}

/// How a terminal is started.
pub struct TerminalLaunch {
    pub cwd: Option<String>,
    pub shell: Option<ShellCommand>,
}

/// The command that shows a text before the shell starts.
pub open spec fn echo_script(text: Seq<char>) -> Seq<char> {
    "echo '"@ + text + "'; exec zsh -f"@
}

/// The program that a terminal runs, where the host names one.
pub open spec fn host_shell(host: HostLaunch) -> Option<ShellCommand> {
    match host {
        HostLaunch::Shell { program, args } => Some(ShellCommand { program, args }),
        _ => None,
    }
}

/// The folder that a terminal starts in. A program of another machine finds its own way there.
pub open spec fn start_folder(root: String, remote: bool, host: HostLaunch) -> Option<String> {
    match host {
        HostLaunch::Shell { .. } => if remote {
            None
        } else {
            Some(root)
        },
        HostLaunch::Plain => Some(root),
        HostLaunch::Failed => None,
    }
}

/// What a project tells of its terminal.
pub struct TerminalPlace {
    pub root: String,
    pub remote: bool,
    pub host: HostLaunch,
}

/// The program that a terminal runs to show a text before the shell starts.
pub open spec fn echoes(shell: ShellCommand, text: Seq<char>) -> bool {
    shell.program@ == "/bin/sh"@ && texts(shell.args@) == seq!["-c"@, echo_script(text)]
}

impl Workspace {
    /// Whether a row of the list of completions is the selected one.
    pub fn completion_row_selected(&self, row: usize) -> (b: bool)
        ensures
            b == (self@.completion == Some(row)),
    {
        match self.completion {
            Some(selected) => selected == row,
            None => false,
        }
    }

    /// A row of the list of completions was clicked: it is selected and put in.
    pub fn completion_clicked(&mut self, row: usize)
        ensures
            final(self)@ == (Model {
                completion: if old(self)@.completion is Some { Some(row) } else { None },
                ..old(self)@
            }).then_do(Effect::ConfirmCompletion),
    {
        if self.completion.is_some() {
            self.completion = Some(row);
        }
        self.effect(Effect::ConfirmCompletion);
    }

    /// How the terminal of a project is started. `echo` is a text to show before the shell, where
    /// the host names no program of its own.
    pub fn terminal_launch_for(place: Option<TerminalPlace>, echo: &Option<String>) -> (launch: TerminalLaunch)
        ensures
            launch.cwd == match place {
                Some(place) => start_folder(place.root, place.remote, place.host),
                None => None::<String>,
            },
            ({
                let shell = match place {
                    Some(place) => host_shell(place.host),
                    None => None::<ShellCommand>,
                };
                match *echo {
                    Some(text) => if text@.len() > 0 && shell is None {
                        launch.shell matches Some(command) && echoes(command, text@)
                    } else {
                        launch.shell == shell
                    },
                    None => launch.shell == shell,
                }
            }),
    {
        let (cwd, shell) = match place {
            Some(place) => {
                let TerminalPlace { root, remote, host } = place;
                match host {
                    HostLaunch::Shell { program, args } => {
                        let cwd = if remote {
                            None
                        } else {
                            Some(root)
                        };
                        (cwd, Some(ShellCommand { program, args }))
                    },
                    HostLaunch::Plain => (Some(root), None),
                    HostLaunch::Failed => (None, None),
                }
            },
            None => (None, None),
        };
        if shell.is_none() {
            if let Some(text) = echo {
                if !text.as_str().is_empty() {
                    let mut script = "echo '".to_owned();
                    script.append(text.as_str());
                    script.append("'; exec zsh -f");
                    let flag = "-c".to_owned();
                    let mut args: Vec<String> = Vec::new();
                    proof {
                        texts_empty();
                        texts_push(args@, flag);
                        texts_push(args@.push(flag), script);
                    }
                    args.push(flag);
                    args.push(script);
                    assert(texts(args@) =~= seq!["-c"@, echo_script(text@)]);
                    return TerminalLaunch {
                        cwd,
                        shell: Some(ShellCommand { program: "/bin/sh".to_owned(), args }),
                    };
                }
            }
        }
        TerminalLaunch { cwd, shell }
    }

    /// How many kept texts the bar offers to bring back; `None` without the bar.
    pub fn hot_exit_bar(&self) -> (r: Option<usize>)
        ensures
            r == match self@.hot_exit_pending {
                Some(rows) => Some(rows@.len() as usize),
                None => None::<usize>,
            },
    {
        match &self.hot_exit_pending {
            Some(rows) => Some(rows.len()),
            None => None,
        }
    }

    /// Whether the bar is shown that says that the file has changed on disk.
    pub fn external_change_bar(&self) -> (b: bool)
        ensures
            b == (self@.has_active_editor() && self@.tab().externally_changed),
    {
        self.active_editor().is_some() && self.tabs[self.active_tab].externally_changed
    }

    /// The file is read again, or the text stays as it is.
    pub fn answer_external_change(&mut self, reload: bool)
        ensures
            final(self)@ == if !old(self)@.has_active_editor() {
                old(self)@
            } else if reload {
                old(self)@.then_do(Effect::ReloadFromDisk(old(self)@.tab().id))
            } else {
                old(self)@.then_do(Effect::DismissExternalChange(old(self)@.tab().id))
            },
    {
        if let Some(tab) = self.active_editor() {
            if reload {
                self.effect(Effect::ReloadFromDisk(tab));
            } else {
                self.effect(Effect::DismissExternalChange(tab));
            }
        }
    }
}

/// A terminal starts at the root of its project, unless its host starts a program on another machine or
/// cannot start any.
pub proof fn terminals_start_at_the_root(root: String, remote: bool, host: HostLaunch)
    ensures
        start_folder(root, remote, host) matches Some(folder) ==> folder == root,
        start_folder(root, remote, host) is None <==> host is Failed || (host is Shell && remote),
        host_shell(host) is Some <==> host is Shell,
        host matches HostLaunch::Shell { program, args } ==> host_shell(host)->0.program == program && host_shell(
            host,
        )->0.args == args,
{
}

/// The text that is shown before the shell stands in the command as it is, between quotes, and the shell
/// starts after it.
pub proof fn the_text_is_shown_before_the_shell(text: Seq<char>)
    ensures
        contains(echo_script(text), seq!['\''] + text + seq!['\'']),
        starts_with(echo_script(text), "echo "@),
        "exec zsh -f"@.is_suffix_of(echo_script(text)),
{
    reveal_strlit("echo '");
    reveal_strlit("echo ");
    reveal_strlit("exec zsh -f");
    reveal_strlit("'; exec zsh -f");
    let whole = echo_script(text);
    let quoted = seq!['\''] + text + seq!['\''];
    let end = (5 + quoted.len()) as int;
    assert(whole.subrange(5, end) =~= quoted);
    assert(occurs_at(whole, quoted, 5));
    assert(whole.subrange(0, 5) =~= "echo "@);
    assert(whole.skip(whole.len() - 11) =~= "exec zsh -f"@);
}

/// A terminal that shows a text first runs it in a shell.
pub proof fn texts_are_shown_by_a_shell(shell: ShellCommand, text: Seq<char>)
    requires
        echoes(shell, text),
    ensures
        shell.program@ == "/bin/sh"@,
        shell.args@.len() == 2,
        shell.args@[0]@ == "-c"@,
        contains(shell.args@[1]@, seq!['\''] + text + seq!['\'']),
{
    assert(texts(shell.args@).len() == shell.args@.len());
    assert(texts(shell.args@)[0] == shell.args@[0]@);
    assert(texts(shell.args@)[1] == shell.args@[1]@);
    the_text_is_shown_before_the_shell(text);
}

} // verus!
