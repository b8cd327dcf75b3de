//! What a terminal is started with, whatever is asked for and whatever the system has.
use super::env::{
    custom_views, has_windows_env_var, is_at, is_last_at, law_base_preserved, law_custom_overrides,
    lemma_by_key, lemma_with_vars_none, merge_environment, merge_windows_environment_map,
    upsert_windows_env_var, var_key, var_view, var_views, with_vars, Environment,
};
use super::instance::{SpawnOptions, TerminalInfo};
use super::manager::PtyManager;
use super::shell::{
    get_default_shell, get_home_directory, plan_shell, probe_views, resolve_shell_path,
    windows_command_line, Probe,
};
use super::spawn::{
    DirectoryQuestion, OpenFailure, OpenRequest, ShellQuestion, SpawnBegun, SpawnSystem,
};
use super::use_laws::same_settings;
use crate::platform::Os;
use crate::text::number::decimal;
use crate::text::{ascii_lower, ascii_lowercase};
use vstd::prelude::*;

verus! {

// ---------------------------------------------------------------------------------------------
// The environment
// ---------------------------------------------------------------------------------------------

/// The letter is the same but for case.
pub open spec fn same_letter(a: char, b: char) -> bool {
    ||| a == b
    ||| 65 <= a as u32 <= 90 && b as u32 == a as u32 + 32
    ||| 65 <= b as u32 <= 90 && a as u32 == b as u32 + 32
}

/// The system takes the names for one: on Windows those that differ in the case of letters alone,
/// elsewhere the same name alone.
pub open spec fn one_name(os: Os, a: Seq<char>, b: Seq<char>) -> bool {
    if os is Windows {
        a.len() == b.len() && forall|i: int| 0 <= i < a.len() ==> same_letter(#[trigger] a[i], b[i])
    } else {
        a == b
    }
}

/// Variables are told apart by their names as the system does it.
pub proof fn law_names_of_variables(os: Os, a: Seq<char>, b: Seq<char>)
    ensures
        var_key(os, a) == var_key(os, b) <==> one_name(os, a, b),
{
    if os is Windows {
        let x = ascii_lowercase(a);
        let y = ascii_lowercase(b);
        if x == y {
            assert(x.len() == y.len());
            assert forall|i: int| 0 <= i < a.len() implies same_letter(#[trigger] a[i], b[i]) by {
                assert(x[i] == ascii_lower(a[i]) && y[i] == ascii_lower(b[i]));
            }
        }
        if one_name(os, a, b) {
            assert forall|i: int| 0 <= i < x.len() implies x[i] == y[i] by {
                assert(same_letter(a[i], b[i]));
            }
            assert(x =~= y);
        }
    }
}

/// A list names a variable.
pub open spec fn names(os: Os, vars: Seq<(String, String)>, name: Seq<char>) -> bool {
    exists|i: int| 0 <= i < vars.len() && one_name(os, (#[trigger] vars[i]).0@, name)
}

/// The variable at this place of a list is the last that has its name.
pub open spec fn is_last(os: Os, vars: Seq<(String, String)>, i: int) -> bool {
    &&& 0 <= i < vars.len()
    &&& forall|j: int| i < j < vars.len() ==> !one_name(os, (#[trigger] vars[j]).0@, vars[i].0@)
}

/// A list of variables; none where there is none.
pub open spec fn listed(custom: Option<Vec<(String, String)>>) -> Seq<(String, String)> {
    if custom is Some {
        custom->0@
    } else {
        Seq::empty()
    }
}

proof fn lemma_listed(custom: Option<Vec<(String, String)>>)
    ensures
        custom_views(custom) == var_views(listed(custom)),
{
    assert(custom_views(custom) =~= var_views(listed(custom)));
}

proof fn lemma_names(os: Os, vars: Seq<(String, String)>, name: Seq<char>)
    ensures
        names(os, vars, name) <==> exists|i: int|
            is_at(os, var_views(vars), var_key(os, name), i),
{
    let seen = var_views(vars);
    if names(os, vars, name) {
        let i = choose|i: int| 0 <= i < vars.len() && one_name(os, (#[trigger] vars[i]).0@, name);
        law_names_of_variables(os, vars[i].0@, name);
        assert(seen[i] == var_view(vars[i]));
        assert(is_at(os, seen, var_key(os, name), i));
    }
    if exists|i: int| is_at(os, seen, var_key(os, name), i) {
        let i = choose|i: int| is_at(os, seen, var_key(os, name), i);
        assert(seen[i] == var_view(vars[i]));
        law_names_of_variables(os, vars[i].0@, name);
    }
}

proof fn lemma_is_last(os: Os, vars: Seq<(String, String)>, i: int)
    requires
        is_last(os, vars, i),
    ensures
        is_last_at(os, var_views(vars), var_key(os, vars[i].0@), i),
{
    let seen = var_views(vars);
    assert(seen[i] == var_view(vars[i]));
    assert forall|j: int| i < j < seen.len() implies var_key(os, (#[trigger] seen[j]).0) != var_key(
        os,
        vars[i].0@,
    ) by {
        assert(seen[j] == var_view(vars[j]));
        law_names_of_variables(os, vars[j].0@, vars[i].0@);
    }
}

/// A variable that is asked for is set, under the name and with the value that are asked for; of
/// several that the system takes for one, the last.
pub proof fn law_asked_for_variable_is_set(
    os: Os,
    base: Vec<(String, String)>,
    custom: Option<Vec<(String, String)>>,
    path: Option<String>,
    pathext: Option<String>,
    env: Environment,
    i: int,
)
    requires
        call_ensures(merge_environment, (os, &base, &custom, path, pathext), env),
        is_last(os, listed(custom), i),
    ensures
        env@.contains_key(var_key(os, listed(custom)[i].0@)),
        env@[var_key(os, listed(custom)[i].0@)] == (listed(custom)[i].0@, listed(custom)[i].1@),
{
    lemma_listed(custom);
    lemma_is_last(os, listed(custom), i);
    let seen = var_views(listed(custom));
    assert(seen[i] == var_view(listed(custom)[i]));
    law_custom_overrides(os, var_views(base@), seen, path, pathext, i);
}

/// A variable of the program that nothing asked for names is handed on as it is.
pub proof fn law_other_variables_are_handed_on(
    os: Os,
    base: Vec<(String, String)>,
    custom: Option<Vec<(String, String)>>,
    path: Option<String>,
    pathext: Option<String>,
    env: Environment,
    i: int,
)
    requires
        call_ensures(merge_environment, (os, &base, &custom, path, pathext), env),
        is_last(os, base@, i),
        !names(os, listed(custom), base@[i].0@),
    ensures
        env@.contains_key(var_key(os, base@[i].0@)),
        env@[var_key(os, base@[i].0@)] == (base@[i].0@, base@[i].1@),
{
    lemma_listed(custom);
    lemma_is_last(os, base@, i);
    lemma_names(os, listed(custom), base@[i].0@);
    let seen = var_views(base@);
    assert(seen[i] == var_view(base@[i]));
    law_base_preserved(os, seen, var_views(listed(custom)), path, pathext, i);
}

/// Where nothing names a search path there is one all the same: the usual directories, and on Windows
/// the one of the program and its extensions of executable files. Nothing else is added.
pub proof fn law_missing_variables_are_added(
    os: Os,
    base: Vec<(String, String)>,
    custom: Option<Vec<(String, String)>>,
    path: Option<String>,
    pathext: Option<String>,
    env: Environment,
    name: Seq<char>,
)
    requires
        call_ensures(merge_environment, (os, &base, &custom, path, pathext), env),
        !names(os, base@, name),
        !names(os, listed(custom), name),
    ensures
        !(os is Windows) && name == "PATH"@ ==> env@.contains_key(name) && env@[name] == (
            "PATH"@,
            "/usr/bin:/bin"@,
        ),
        !(os is Windows) && name != "PATH"@ ==> !env@.contains_key(name),
        os is Windows && one_name(os, name, "Path"@) ==> env@.contains_key(var_key(os, name))
            && env@[var_key(os, name)].0 == "Path"@ && env@[var_key(os, name)].1 == if path is Some {
            path->0@
        } else {
            ""@
        },
        os is Windows && one_name(os, name, "PATHEXT"@) ==> env@.contains_key(var_key(os, name))
            && env@[var_key(os, name)].0 == "PATHEXT"@ && env@[var_key(os, name)].1
            == if pathext is Some {
            pathext->0@
        } else {
            ".COM;.EXE;.BAT;.CMD"@
        },
        os is Windows && !one_name(os, name, "Path"@) && !one_name(os, name, "PATHEXT"@)
            ==> !env@.contains_key(var_key(os, name)),
{
    lemma_listed(custom);
    lemma_names(os, base@, name);
    lemma_names(os, listed(custom), name);
    let key = var_key(os, name);
    let b = var_views(base@);
    let c = var_views(listed(custom));
    lemma_with_vars_none(os, Map::empty(), b, key);
    lemma_with_vars_none(os, with_vars(os, Map::empty(), b), c, key);
    law_names_of_variables(os, name, "Path"@);
    law_names_of_variables(os, name, "PATHEXT"@);
    law_names_of_variables(os, "Path"@, "PATHEXT"@);
    reveal_strlit("Path");
    reveal_strlit("PATHEXT");
}

/// A variable that is set has its value, under its name; the others keep theirs.
pub proof fn law_set_variable_has_its_value(
    env: &mut Environment,
    name: &str,
    value: String,
    other: Seq<char>,
)
    requires
        call_ensures(Environment::upsert, (env, name, value), ()),
    ensures
        ({
            let os = old(env).os();
            &&& final(env)@.contains_key(var_key(os, name@))
            &&& final(env)@[var_key(os, name@)] == (name@, value@)
            &&& !one_name(os, other, name@) ==> {
                &&& final(env)@.contains_key(var_key(os, other)) <==> old(env)@.contains_key(
                    var_key(os, other),
                )
                &&& old(env)@.contains_key(var_key(os, other)) ==> final(env)@[var_key(os, other)]
                    == old(env)@[var_key(os, other)]
            }
        }),
{
    law_names_of_variables(old(env).os(), other, name@);
}

/// The value of a variable is the one that the environment holds under its name.
pub proof fn law_value_is_read(env: Environment, name: &str, value: Option<String>, there: bool)
    requires
        call_ensures(Environment::value_of, (&env, name), value),
        call_ensures(Environment::has_var, (&env, name), there),
    ensures
        there <==> value is Some,
        there <==> env@.contains_key(var_key(env.os(), name@)),
        there ==> value->0@ == env@[var_key(env.os(), name@)].1,
{
}

// ---------------------------------------------------------------------------------------------
// The steps of a start
// ---------------------------------------------------------------------------------------------

/// A start begins exactly where fewer than thirty places are taken. It takes one, under a new id made
/// of the time and the number of the start, and goes on with what was asked for. The sweeps begin
/// with the first start.
pub proof fn law_start_begins(
    manager: &mut PtyManager,
    options: SpawnOptions,
    system: SpawnSystem,
    timestamp: u128,
    begun: SpawnBegun,
)
    requires
        call_ensures(PtyManager::spawn, (manager, options, system, timestamp), begun),
    ensures
        begun.start_sweeps <==> !old(manager)@.detection_started,
        final(manager)@.detection_started,
        final(manager)@.terminals == old(manager)@.terminals,
        final(manager)@.broadcasts == old(manager)@.broadcasts,
        same_settings(final(manager)@, old(manager)@),
        begun.question is Ok <==> old(manager)@.slots < 30,
        begun.question is Err ==> {
            &&& begun.question->Err_0@ == "Global terminal limit reached"@
            &&& final(manager)@.slots == old(manager)@.slots
            &&& final(manager)@.ids == old(manager)@.ids
        },
        begun.question is Ok ==> {
            let q = begun.question->Ok_0;
            &&& q.options == options
            &&& q.system == system
            &&& q.id@ == "terminal-"@ + decimal(timestamp as nat) + "-"@ + decimal(
                old(manager)@.ids as nat,
            )
            &&& final(manager)@.slots == old(manager)@.slots + 1
            &&& final(manager)@.ids == if old(manager)@.ids == u64::MAX {
                0
            } else {
                old(manager)@.ids + 1
            }
        },
{
}

/// A start looks for the shell that is asked for, and for none where none is.
pub proof fn law_start_looks_for_its_shell(
    manager: &mut PtyManager,
    options: SpawnOptions,
    system: SpawnSystem,
    timestamp: u128,
    begun: SpawnBegun,
    shell: &str,
    probes: Vec<Probe>,
)
    requires
        call_ensures(PtyManager::spawn, (manager, options, system, timestamp), begun),
        call_ensures(plan_shell, (system.os, shell), probes),
        begun.question is Ok,
        options.shell is Some ==> options.shell->0@ == shell@,
    ensures
        options.shell is Some ==> probe_views(begun.question->Ok_0.probes@) == probe_views(probes@),
        options.shell is None ==> begun.question->Ok_0.probes@.len() == 0,
{
    assert(probe_views(begun.question->Ok_0.probes@).len() == begun.question->Ok_0.probes@.len());
}

/// The directory of a terminal is the one that is asked for, whatever the home of the user is; the
/// home is taken only where none is asked for.
pub proof fn law_directory_is_the_one_asked_for(
    manager: &mut PtyManager,
    question: ShellQuestion,
    answers: Vec<Option<String>>,
    next: Result<DirectoryQuestion, String>,
    home: String,
)
    requires
        call_ensures(PtyManager::spawn_with_shell, (manager, question, &answers), next),
        call_ensures(
            get_home_directory,
            (question.system.os, question.system.profile, question.system.home),
            home,
        ),
        next is Ok,
    ensures
        question.options.cwd is Some ==> next->Ok_0.cwd@ == question.options.cwd->0@,
        question.options.cwd is None ==> next->Ok_0.cwd@ == home@,
{
}

/// The shell of a terminal is what the one that is asked for was found to be; where it was not found
/// the start ends with the reason. The default of the system is taken only where none is asked for.
pub proof fn law_shell_is_the_one_asked_for(
    manager: &mut PtyManager,
    question: ShellQuestion,
    answers: Vec<Option<String>>,
    next: Result<DirectoryQuestion, String>,
    shell: &str,
    resolved: Result<String, String>,
    usual: String,
)
    requires
        call_ensures(PtyManager::spawn_with_shell, (manager, question, &answers), next),
        call_ensures(resolve_shell_path, (question.system.os, shell, &answers), resolved),
        call_ensures(get_default_shell, (question.system.os, question.system.shell), usual),
        question.options.shell is Some ==> question.options.shell->0@ == shell@,
    ensures
        question.options.shell is None ==> next is Ok && next->Ok_0.shell@ == usual@,
        question.options.shell is Some ==> (next is Ok <==> resolved is Ok),
        question.options.shell is Some && next is Ok ==> next->Ok_0.shell@ == resolved->Ok_0@,
        question.options.shell is Some && next is Err ==> next->Err_0@ == resolved->Err_0@,
        next is Ok ==> {
            &&& next->Ok_0.id@ == question.id@
            &&& next->Ok_0.options == question.options
            &&& next->Ok_0.system == question.system
            &&& final(manager)@ == old(manager)@
        },
        next is Err ==> {
            &&& final(manager)@.slots == old(manager)@.slots - 1
            &&& final(manager)@.terminals == old(manager)@.terminals
            &&& final(manager)@.broadcasts == old(manager)@.broadcasts
            &&& final(manager)@.ids == old(manager)@.ids
            &&& same_settings(final(manager)@, old(manager)@)
        },
{
}

/// A terminal is opened in the directory exactly where there is one, with the shell that was found
/// and in the size that is asked for, or the usual one. Elsewhere the start ends, and the message
/// names the directory.
pub proof fn law_terminal_is_opened_as_asked_for(
    manager: &mut PtyManager,
    question: DirectoryQuestion,
    present: bool,
    next: Result<OpenRequest, String>,
    line: String,
    shell: &str,
)
    requires
        call_ensures(PtyManager::spawn_in_directory, (manager, question, present), next),
        call_ensures(windows_command_line, (shell,), line),
        shell@ == question.shell@,
    ensures
        next is Ok <==> present,
        next is Ok ==> {
            let launch = next->Ok_0.launch;
            &&& next->Ok_0.id@ == question.id@
            &&& launch.shell@ == question.shell@
            &&& launch.cwd@ == question.cwd@
            &&& question.options.cols is Some ==> launch.cols == question.options.cols->0
            &&& question.options.cols is None ==> launch.cols == 80
            &&& question.options.rows is Some ==> launch.rows == question.options.rows->0
            &&& question.options.rows is None ==> launch.rows == 24
            &&& question.system.os is Windows ==> launch.command_line@ == line@
            &&& !(question.system.os is Windows) ==> launch.command_line@ == question.shell@
            &&& launch.env.os() == question.system.os
            &&& final(manager)@ == old(manager)@
        },
        next is Err ==> {
            &&& next->Err_0@ == "Directory does not exist: "@ + question.cwd@
            &&& final(manager)@.slots == old(manager)@.slots - 1
            &&& final(manager)@.terminals == old(manager)@.terminals
            &&& final(manager)@.broadcasts == old(manager)@.broadcasts
            &&& final(manager)@.ids == old(manager)@.ids
            &&& same_settings(final(manager)@, old(manager)@)
        },
{
}

/// A terminal runs in the environment that the program runs in, with the variables that are asked
/// for in it. Except on Windows it is told what kind of terminal it is, whatever else is said of that.
pub proof fn law_terminal_has_its_environment(
    manager: &mut PtyManager,
    question: DirectoryQuestion,
    next: Result<OpenRequest, String>,
    env: Environment,
    name: Seq<char>,
)
    requires
        call_ensures(PtyManager::spawn_in_directory, (manager, question, true), next),
        call_ensures(
            merge_environment,
            (
                question.system.os,
                &question.system.variables,
                &question.options.env,
                question.system.path,
                question.system.pathext,
            ),
            env,
        ),
    ensures
        question.system.os is Windows ==> next->Ok_0.launch.env@ == env@,
        !(question.system.os is Windows) ==> {
            let e = next->Ok_0.launch.env@;
            &&& e.contains_key("TERM"@) && e["TERM"@] == ("TERM"@, "xterm-256color"@)
            &&& e.contains_key("COLORTERM"@) && e["COLORTERM"@] == ("COLORTERM"@, "truecolor"@)
            &&& name != "TERM"@ && name != "COLORTERM"@ ==> {
                &&& e.contains_key(name) <==> env@.contains_key(name)
                &&& env@.contains_key(name) ==> e[name] == env@[name]
            }
        },
{
    reveal_strlit("TERM");
    reveal_strlit("COLORTERM");
    assert("TERM"@.len() != "COLORTERM"@.len());
}

/// A terminal that opened is told of as it was opened, with the process that runs in it, and is known
/// from then on. One that did not gives its place back, and the reason is told.
pub proof fn law_opened_terminal_is_told_of(
    manager: &mut PtyManager,
    request: OpenRequest,
    opened: Result<u32, OpenFailure>,
    now: u64,
    done: Result<TerminalInfo, String>,
)
    requires
        call_ensures(PtyManager::spawn_opened, (manager, request, opened, now), done),
    ensures
        done is Ok <==> opened is Ok,
        done is Ok ==> {
            &&& done->Ok_0.id@ == request.id@
            &&& done->Ok_0.shell@ == request.launch.shell@
            &&& done->Ok_0.cwd@ == request.launch.cwd@
            &&& done->Ok_0.pid == opened->Ok_0
            &&& done->Ok_0.cols == request.launch.cols
            &&& done->Ok_0.rows == request.launch.rows
            &&& final(manager)@.slots == old(manager)@.slots
            &&& final(manager)@.ids == old(manager)@.ids
            &&& final(manager)@.broadcasts == old(manager)@.broadcasts.insert(request.id@)
            &&& same_settings(final(manager)@, old(manager)@)
        },
        done is Ok && old(manager)@.orderly() ==> {
            let ts = final(manager)@.terminals;
            let t = ts[ts.len() - 1];
            &&& ts.len() == old(manager)@.terminals.len() + 1
            &&& ts.take(ts.len() - 1) == old(manager)@.terminals
            &&& t.id == request.id@
            &&& t.shell == request.launch.shell@
            &&& t.cwd == request.launch.cwd@
            &&& t.pid == opened->Ok_0
            &&& t.cols == request.launch.cols
            &&& t.rows == request.launch.rows
            &&& t.last_activity == now
            &&& t.renderer_refs.len() == 0
            &&& t.remote_connections == 0
            &&& !t.kill_deferred
            &&& final(manager)@.broadcasts.contains(request.id@)
        },
        done is Err ==> {
            &&& final(manager)@.slots == old(manager)@.slots - 1
            &&& final(manager)@.terminals == old(manager)@.terminals
            &&& final(manager)@.broadcasts == old(manager)@.broadcasts
            &&& final(manager)@.ids == old(manager)@.ids
            &&& same_settings(final(manager)@, old(manager)@)
        },
{
    if done is Ok && old(manager)@.orderly() {
        let ts = final(manager)@.terminals;
        assert(ts.take(ts.len() - 1) =~= old(manager)@.terminals);
    }
}

/// What is said of a terminal that did not open tells what failed, and what the system said.
pub proof fn law_failed_open_is_told(
    manager: &mut PtyManager,
    request: OpenRequest,
    failure: OpenFailure,
    now: u64,
    done: Result<TerminalInfo, String>,
)
    requires
        call_ensures(PtyManager::spawn_opened, (manager, request, Err(failure), now), done),
    ensures
        failure is ConPty ==> done->Err_0@ == "Failed to spawn ConPTY: "@ + failure->ConPty_0@,
        failure is OpenPty ==> done->Err_0@ == "Failed to open PTY: "@ + failure->OpenPty_0@,
        failure is SpawnShell ==> done->Err_0@ == "Failed to spawn shell: "@
            + failure->SpawnShell_0@,
        failure is CloneReader ==> done->Err_0@ == "Failed to clone PTY reader: "@
            + failure->CloneReader_0@,
        failure is TakeWriter ==> done->Err_0@ == "Failed to get PTY writer: "@
            + failure->TakeWriter_0@,
{
}

/// From the options to what is told of the terminal: the directory and the size are those that are
/// asked for, whatever the system has.
pub proof fn law_terminal_is_as_asked_for(
    first: &mut PtyManager,
    second: &mut PtyManager,
    third: &mut PtyManager,
    question: ShellQuestion,
    answers: Vec<Option<String>>,
    next: DirectoryQuestion,
    request: OpenRequest,
    pid: u32,
    now: u64,
    done: Result<TerminalInfo, String>,
)
    requires
        call_ensures(PtyManager::spawn_with_shell, (first, question, &answers), Ok(next)),
        call_ensures(PtyManager::spawn_in_directory, (second, next, true), Ok(request)),
        call_ensures(PtyManager::spawn_opened, (third, request, Ok(pid), now), done),
    ensures
        done is Ok,
        done->Ok_0.id@ == question.id@,
        done->Ok_0.pid == pid,
        done->Ok_0.shell@ == next.shell@,
        question.options.cwd is Some ==> done->Ok_0.cwd@ == question.options.cwd->0@,
        question.options.cols is Some ==> done->Ok_0.cols == question.options.cols->0,
        question.options.rows is Some ==> done->Ok_0.rows == question.options.rows->0,
{
}

/// The usual options ask for eighty columns and twenty-four rows, and for nothing else.
pub proof fn law_usual_options(options: SpawnOptions)
    requires
        call_ensures(<SpawnOptions as Default>::default, (), options),
    ensures
        options.cols == Some(80u16),
        options.rows == Some(24u16),
        options.shell is None,
        options.cwd is None,
        options.env is None,
{
}

/// On Windows a variable is found and set whatever the case of the letters in its name.
pub proof fn law_variables_of_windows(
    env: Environment,
    name: &str,
    there: bool,
    set: &mut Environment,
    value: String,
    spelled: &str,
)
    requires
        env.os() is Windows,
        old(set).os() is Windows,
        one_name(Os::Windows, name@, spelled@),
        call_ensures(has_windows_env_var, (&env, name), there),
        call_ensures(upsert_windows_env_var, (set, name, value), ()),
    ensures
        there <==> env@.contains_key(var_key(Os::Windows, spelled@)),
        final(set)@.contains_key(var_key(Os::Windows, spelled@)),
        final(set)@[var_key(Os::Windows, spelled@)] == (name@, value@),
{
    law_names_of_variables(Os::Windows, name@, spelled@);
}

/// The environment of a terminal on Windows is made as it is for any other system, by the rule of
/// Windows.
pub proof fn law_environment_of_windows(
    base: Vec<(String, String)>,
    custom: Option<Vec<(String, String)>>,
    path: Option<String>,
    pathext: Option<String>,
    a: Environment,
    b: Environment,
)
    requires
        call_ensures(merge_windows_environment_map, (&base, &custom, path, pathext), a),
        call_ensures(merge_environment, (Os::Windows, &base, &custom, path, pathext), b),
    ensures
        a@ == b@,
        a.os() is Windows,
{
}

/// The variables of an environment are handed out, each once, with their names and values.
pub proof fn law_variables_are_handed_out(
    env: Environment,
    pairs: Vec<(String, String)>,
    i: int,
    j: int,
)
    requires
        call_ensures(Environment::pairs, (&env,), pairs),
        0 <= i < pairs@.len(),
        0 <= j < pairs@.len(),
    ensures
        env@.contains_key(var_key(env.os(), pairs@[i].0@)),
        env@[var_key(env.os(), pairs@[i].0@)] == (pairs@[i].0@, pairs@[i].1@),
        i != j ==> !one_name(env.os(), pairs@[i].0@, pairs@[j].0@),
        forall|key: Seq<char>| #[trigger]
            env@.contains_key(key) ==> exists|k: int|
                0 <= k < pairs@.len() && var_key(env.os(), (#[trigger] pairs@[k]).0@) == key,
{
    let seen = var_views(pairs@);
    assert(seen.len() == pairs@.len());
    assert(seen[i] == var_view(pairs@[i]) && seen[j] == var_view(pairs@[j]));
    lemma_by_key(env.os(), seen, i);
    law_names_of_variables(env.os(), pairs@[i].0@, pairs@[j].0@);
    assert forall|key: Seq<char>| #[trigger] env@.contains_key(key) implies exists|k: int|
        0 <= k < pairs@.len() && var_key(env.os(), (#[trigger] pairs@[k]).0@) == key by {
        let k = choose|k: int| is_at(env.os(), seen, key, k);
        assert(seen[k] == var_view(pairs@[k]));
        assert(var_key(env.os(), pairs@[k].0@) == key);
    }
}

}
