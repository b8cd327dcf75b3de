//! Starting a terminal, step by step.
//!
//! A start alternates with questions to the system: where the shell is, whether the directory
//! exists, whether the terminal opened. Each step takes the answer to the last question and gives
//! the next one, or ends the start with an error. From the first step to the last a place for the
//! terminal is taken; whichever step ends the start gives it back or hands it to the terminal.
use super::env::{
    custom_views, merge_environment, merged_environment, var_key, var_views, Environment, VarView,
};
use super::history::{law_step_keeps_order, ManagerStep};
use super::instance::{fresh_terminal, InfoView, SpawnOptions, TerminalInfo};
use super::laws::{
    law_new_id_is_free, law_releasing_keeps_order, law_started_terminal_is_found,
    law_starting_keeps_order,
};
use super::manager::{
    is_id_at, next_id_number, released_slot, reserved_slot, terminal_id, with_started, ManagerView,
    PtyManager, Reserved, TerminalSlotReservation, GLOBAL_TERMINAL_LIMIT,
};
use super::shell::{
    command_line, default_shell, get_default_shell, get_home_directory, home_directory,
    plan_shell, probe_views, resolve_shell_path, resolved_shell, shell_probes,
    windows_command_line, Probe, ProbeView,
};
use crate::lookup::answer_views;
use crate::platform::Os;
use crate::text::concat2;
use vstd::prelude::*;

verus! {

/// What the program finds in its own environment.
#[derive(Debug, Clone)]
pub struct SpawnSystem {
    pub os: Os,
    /// `COMSPEC` on Windows, `SHELL` elsewhere.
    pub shell: Option<String>,
    /// `USERPROFILE`.
    pub profile: Option<String>,
    /// `HOME`.
    pub home: Option<String>,
    /// All the variables.
    pub variables: Vec<(String, String)>,
    /// `PATH`.
    pub path: Option<String>,
    /// `PATHEXT`.
    pub pathext: Option<String>,
}

/// How a start begins.
pub struct SpawnBegun {
    /// Somebody is to begin with the sweeps.
    pub start_sweeps: bool,
    /// The first question, or why there is none.
    pub question: Result<ShellQuestion, String>,
}

/// Where is the shell? There are no probes where the default shell is taken.
pub struct ShellQuestion {
    pub id: String,
    pub slot: TerminalSlotReservation,
    pub options: SpawnOptions,
    pub system: SpawnSystem,
    pub probes: Vec<Probe>,
}

/// Does the directory exist?
pub struct DirectoryQuestion {
    pub id: String,
    pub slot: TerminalSlotReservation,
    pub options: SpawnOptions,
    pub system: SpawnSystem,
    pub shell: String,
    pub cwd: String,
}

/// What a terminal is opened with.
pub struct Launch {
    pub shell: String,
    /// What starts the shell.
    pub command_line: String,
    pub cwd: String,
    pub cols: u16,
    pub rows: u16,
    pub env: Environment,
}

/// Open a terminal.
pub struct OpenRequest {
    pub id: String,
    pub slot: TerminalSlotReservation,
    pub launch: Launch,
}

/// Why a terminal did not open.
pub enum OpenFailure {
    ConPty(String),
    OpenPty(String),
    SpawnShell(String),
    CloneReader(String),
    TakeWriter(String),
}

/// What is said of a terminal that did not open.
pub open spec fn open_failure(failure: OpenFailure) -> Seq<char> {
    match failure {
        OpenFailure::ConPty(e) => "Failed to spawn ConPTY: "@ + e@,
        OpenFailure::OpenPty(e) => "Failed to open PTY: "@ + e@,
        OpenFailure::SpawnShell(e) => "Failed to spawn shell: "@ + e@,
        OpenFailure::CloneReader(e) => "Failed to clone PTY reader: "@ + e@,
        OpenFailure::TakeWriter(e) => "Failed to get PTY writer: "@ + e@,
    }
}

fn failure_message(failure: &OpenFailure) -> (message: String)
    ensures
        message@ == open_failure(*failure),
{
    match failure {
        OpenFailure::ConPty(e) => concat2("Failed to spawn ConPTY: ", e.as_str()),
        OpenFailure::OpenPty(e) => concat2("Failed to open PTY: ", e.as_str()),
        OpenFailure::SpawnShell(e) => concat2("Failed to spawn shell: ", e.as_str()),
        OpenFailure::CloneReader(e) => concat2("Failed to clone PTY reader: ", e.as_str()),
        OpenFailure::TakeWriter(e) => concat2("Failed to get PTY writer: ", e.as_str()),
    }
}

/// How the shell is looked for: the one that the options name, or not at all.
pub open spec fn wanted_probes(system: SpawnSystem, options: SpawnOptions) -> Seq<ProbeView> {
    match options.shell {
        Some(shell) => shell_probes(system.os, shell@),
        None => Seq::empty(),
    }
}

/// The shell of the terminal: the one that the options name, as it was found, or the default.
pub open spec fn chosen_shell(
    system: SpawnSystem,
    options: SpawnOptions,
    answers: Seq<Option<Seq<char>>>,
) -> Result<Seq<char>, Seq<char>> {
    match options.shell {
        Some(shell) => resolved_shell(system.os, shell@, answers),
        None => Ok(default_shell(system.os, system.shell)),
    }
}

/// The directory of the terminal: the one that the options name, or the home of the user.
pub open spec fn chosen_cwd(system: SpawnSystem, options: SpawnOptions) -> Seq<char> {
    match options.cwd {
        Some(cwd) => cwd@,
        None => home_directory(system.os, system.profile, system.home),
    }
}

/// The environment of the terminal. Except on Windows it says what the terminal can do.
pub open spec fn chosen_env(system: SpawnSystem, options: SpawnOptions) -> Map<
    Seq<char>,
    VarView,
> {
    let env = merged_environment(
        system.os,
        var_views(system.variables@),
        custom_views(options.env),
        system.path,
        system.pathext,
    );
    if system.os is Windows {
        env
    } else {
        env.insert(var_key(system.os, "TERM"@), ("TERM"@, "xterm-256color"@)).insert(
            var_key(system.os, "COLORTERM"@),
            ("COLORTERM"@, "truecolor"@),
        )
    }
}

/// The launch is for these options.
pub open spec fn launches(
    launch: Launch,
    system: SpawnSystem,
    options: SpawnOptions,
    shell: Seq<char>,
    cwd: Seq<char>,
) -> bool {
    &&& launch.shell@ == shell
    &&& launch.command_line@ == if system.os is Windows {
        command_line(shell)
    } else {
        shell
    }
    &&& launch.cwd@ == cwd
    &&& launch.cols == match options.cols {
        Some(cols) => cols,
        None => 80u16,
    }
    &&& launch.rows == match options.rows {
        Some(rows) => rows,
        None => 24u16,
    }
    &&& launch.env.wf()
    &&& launch.env.os() == system.os
    &&& launch.env@ == chosen_env(system, options)
}

/// What is told of a terminal that opened.
pub open spec fn opened_info(request: OpenRequest, pid: u32) -> InfoView {
    InfoView {
        id: request.id@,
        shell: request.launch.shell@,
        cwd: request.launch.cwd@,
        pid,
        cols: request.launch.cols,
        rows: request.launch.rows,
    }
}

/// The manager once it was asked for a terminal, whatever it answers.
pub open spec fn asked(m: ManagerView) -> ManagerView {
    ManagerView { detection_started: true, ..m }
}

/// The manager with a start under way.
pub open spec fn starting(m: ManagerView, id: Seq<char>) -> ManagerView {
    reserved_slot(asked(m), id)
}

impl PtyManager {
    /// Begins to start a terminal: a place is taken, unless none is free, and an id is made. The
    /// time is in milliseconds and goes into the id.
    pub fn spawn(&mut self, options: SpawnOptions, system: SpawnSystem, timestamp: u128) -> (begun:
        SpawnBegun)
        requires
            old(self)@.wf(),
        ensures
            final(self)@.wf(),
            begun.start_sweeps == !old(self)@.detection_started,
            if old(self)@.slots >= GLOBAL_TERMINAL_LIMIT {
                &&& begun.question is Err
                &&& begun.question->Err_0@ == "Global terminal limit reached"@
                &&& final(self)@ == asked(old(self)@)
            } else {
                &&& begun.question is Ok
                &&& begun.question->Ok_0.id@ == terminal_id(timestamp as nat, old(self)@.ids as nat)
                &&& !begun.question->Ok_0.slot.is_committed()
                &&& begun.question->Ok_0.options == options
                &&& begun.question->Ok_0.system == system
                &&& probe_views(begun.question->Ok_0.probes@) == wanted_probes(system, options)
                &&& final(self)@ == starting(old(self)@, begun.question->Ok_0.id@)
                &&& final(self)@.starting.count(begun.question->Ok_0.id@) > 0
                &&& old(self)@.orderly() ==> !old(self)@.tracks(begun.question->Ok_0.id@)
            },
            old(self)@.orderly() && old(self)@.ids < u64::MAX ==> final(self)@.orderly(),
    {
        proof {
            if self@.orderly() {
                law_new_id_is_free(self@, timestamp as nat);
                if self@.ids < u64::MAX {
                    law_step_keeps_order(self@, ManagerStep::Ask { timestamp: timestamp as nat });
                }
            }
        }
        let start_sweeps = self.start_orphan_detection();
        let Reserved { id, slot } = match self.try_reserve_terminal_slot(timestamp) {
            Some(start) => start,
            None => {
                return SpawnBegun {
                    start_sweeps,
                    question: Err("Global terminal limit reached".to_owned()),
                };
            },
        };
        let probes = match &options.shell {
            Some(shell) => plan_shell(system.os, shell.as_str()),
            None => Vec::new(),
        };
        assert(probe_views(probes@) =~= wanted_probes(system, options));
        SpawnBegun { start_sweeps, question: Ok(ShellQuestion { id, slot, options, system, probes }) }
    }

    /// Goes on with the answers to the probes for the shell, in their order.
    pub fn spawn_with_shell(&mut self, question: ShellQuestion, answers: &Vec<Option<String>>) -> (
    next: Result<DirectoryQuestion, String>)
        requires
            old(self)@.wf(),
            old(self)@.starting.count(question.id@) > 0,
            !question.slot.is_committed(),
        ensures
            final(self)@.wf(),
            match chosen_shell(question.system, question.options, answer_views(answers@)) {
                Ok(shell) => {
                    &&& next is Ok
                    &&& next->Ok_0.id == question.id
                    &&& next->Ok_0.slot == question.slot
                    &&& next->Ok_0.options == question.options
                    &&& next->Ok_0.system == question.system
                    &&& next->Ok_0.shell@ == shell
                    &&& next->Ok_0.cwd@ == chosen_cwd(question.system, question.options)
                    &&& final(self)@ == old(self)@
                },
                Err(message) => {
                    &&& next is Err
                    &&& next->Err_0@ == message
                    &&& final(self)@ == released_slot(old(self)@, question.id@)
                },
            },
            old(self)@.orderly() ==> final(self)@.orderly(),
    {
        proof {
            if self@.orderly() {
                law_releasing_keeps_order(self@, question.id@);
            }
        }
        let ShellQuestion { id, slot, options, system, probes: _ } = question;
        let shell = match &options.shell {
            Some(shell) => match resolve_shell_path(system.os, shell.as_str(), answers) {
                Ok(path) => path,
                Err(message) => {
                    self.release_reservation(id.as_str(), slot);
                    return Err(message);
                },
            },
            None => get_default_shell(system.os, copy_of(&system.shell)),
        };
        let cwd = match &options.cwd {
            Some(cwd) => cwd.clone(),
            None => get_home_directory(
                system.os,
                copy_of(&system.profile),
                copy_of(&system.home),
            ),
        };
        Ok(DirectoryQuestion { id, slot, options, system, shell, cwd })
    }

    /// Goes on with whether the directory exists.
    pub fn spawn_in_directory(&mut self, question: DirectoryQuestion, present: bool) -> (next:
        Result<OpenRequest, String>)
        requires
            old(self)@.wf(),
            old(self)@.starting.count(question.id@) > 0,
            !question.slot.is_committed(),
        ensures
            final(self)@.wf(),
            if present {
                &&& next is Ok
                &&& next->Ok_0.id == question.id
                &&& next->Ok_0.slot == question.slot
                &&& launches(
                    next->Ok_0.launch,
                    question.system,
                    question.options,
                    question.shell@,
                    question.cwd@,
                )
                &&& final(self)@ == old(self)@
            } else {
                &&& next is Err
                &&& next->Err_0@ == "Directory does not exist: "@ + question.cwd@
                &&& final(self)@ == released_slot(old(self)@, question.id@)
            },
            old(self)@.orderly() ==> final(self)@.orderly(),
    {
        proof {
            if self@.orderly() {
                law_releasing_keeps_order(self@, question.id@);
            }
        }
        let DirectoryQuestion { id, slot, options, system, shell, cwd } = question;
        if !present {
            self.release_reservation(id.as_str(), slot);
            return Err(concat2("Directory does not exist: ", cwd.as_str()));
        }
        let cols: u16 = match options.cols {
            Some(c) => c,
            None => 80,
        };
        let rows: u16 = match options.rows {
            Some(r) => r,
            None => 24,
        };
        let mut env = merge_environment(
            system.os,
            &system.variables,
            &options.env,
            copy_of(&system.path),
            copy_of(&system.pathext),
        );
        let command_line = match system.os {
            Os::Windows => windows_command_line(shell.as_str()),
            _ => {
                env.upsert("TERM", "xterm-256color".to_owned());
                env.upsert("COLORTERM", "truecolor".to_owned());
                shell.clone()
            },
        };
        Ok(OpenRequest { id, slot, launch: Launch { shell, command_line, cwd, cols, rows, env } })
    }

    /// Ends a start with what became of the terminal: the process id of its shell, or why it did
    /// not open.
    pub fn spawn_opened(&mut self, request: OpenRequest, opened: Result<u32, OpenFailure>, now: u64)
        -> (done: Result<TerminalInfo, String>)
        requires
            old(self)@.wf(),
            old(self)@.starting.count(request.id@) > 0,
            !request.slot.is_committed(),
        ensures
            final(self)@.wf(),
            match opened {
                Ok(pid) => {
                    &&& done is Ok
                    &&& done->Ok_0@ == opened_info(request, pid)
                    &&& final(self)@ == with_started(old(self)@, opened_info(request, pid), now)
                    &&& old(self)@.orderly() ==> {
                        &&& !old(self)@.tracks(request.id@)
                        &&& final(self)@.terminals == old(self)@.terminals.push(
                            fresh_terminal(opened_info(request, pid), now),
                        )
                    }
                },
                Err(failure) => {
                    &&& done is Err
                    &&& done->Err_0@ == open_failure(failure)
                    &&& final(self)@ == released_slot(old(self)@, request.id@)
                },
            },
            old(self)@.orderly() ==> final(self)@.orderly(),
    {
        proof {
            if self@.orderly() {
                law_releasing_keeps_order(self@, request.id@);
                if opened is Ok {
                    law_starting_keeps_order(self@, opened_info(request, opened->Ok_0), now);
                }
            }
        }
        let OpenRequest { id, slot, launch } = request;
        match opened {
            Ok(pid) => {
                let info = TerminalInfo {
                    id,
                    shell: launch.shell,
                    cwd: launch.cwd,
                    pid,
                    cols: launch.cols,
                    rows: launch.rows,
                };
                self.insert_terminal(&info, slot, now);
                Ok(info)
            },
            Err(failure) => {
                self.release_reservation(id.as_str(), slot);
                Err(failure_message(&failure))
            },
        }
    }
}

fn copy_of(text: &Option<String>) -> (copy: Option<String>)
    ensures
        copy == *text,
{
    match text {
        Some(t) => Some(t.clone()),
        None => None,
    }
}

/// A start that ends with an error leaves the manager as it was, but that an id was used up and
/// the sweeps have begun.
pub proof fn law_failed_start_uses_up_an_id_only(m: ManagerView, id: Seq<char>)
    ensures
        released_slot(starting(m, id), id) == (ManagerView {
            ids: next_id_number(m.ids),
            ..asked(m)
        }),
{
    assert(m.starting.insert(id).remove(id) =~= m.starting);
}

/// A start that succeeds makes a terminal known that was not there before, under the id of the
/// start, in one more place, and behind those that were there.
pub proof fn law_successful_start_adds_its_terminal(
    m: ManagerView,
    timestamp: nat,
    request: OpenRequest,
    pid: u32,
    now: u64,
)
    requires
        m.wf(),
        m.orderly(),
        m.slots < GLOBAL_TERMINAL_LIMIT,
        request.id@ == terminal_id(timestamp, m.ids as nat),
    ensures
        ({
            let after = with_started(starting(m, request.id@), opened_info(request, pid), now);
            &&& !m.tracks(request.id@)
            &&& after.tracks(request.id@)
            &&& after.terminal(request.id@).info() == opened_info(request, pid)
            &&& after.terminals == m.terminals.push(
                fresh_terminal(opened_info(request, pid), now),
            )
            &&& after.starting == m.starting
            &&& after.slots == m.slots + 1
        }),
{
    let id = request.id@;
    let info = opened_info(request, pid);
    let begun = starting(m, id);
    law_new_id_is_free(m, timestamp);
    assert(!begun.tracks(id)) by {
        if begun.tracks(id) {
            assert(is_id_at(m.terminals, id, begun.place(id)));
        }
    }
    let other = id.push('x');
    assert(other.len() != info.id.len());
    law_started_terminal_is_found(begun, info, now, other);
    assert(m.starting.insert(id).remove(id) =~= m.starting);
}

}
