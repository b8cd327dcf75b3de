//! Which shell a terminal runs, whatever the system and whatever is asked for.
use super::shell::{
    executable_names, executable_probe_views, extensions_of, get_default_shell,
    get_home_directory, git_bash_fallback_paths, git_bash_primary_paths, has_extension,
    is_builtin_windows_shell, is_path, names_in_all, needs_path_search, plan_executable,
    plan_shell, probe_views, resolve_executable_from_path, resolve_shell_path,
    resolve_shell_path_uncached, windows_command_line, ExecutableProbe, ExecutableProbeView,
    Probe, ProbeView, ShellCache,
};
use crate::lookup::{answer_views, lemma_misses, misses};
use crate::platform::Os;
use crate::search::laws::is_blank;
use crate::text::laws::{is_middle, lemma_trimmed};
use crate::text::split::{pieces, trimmed, views, white_space};
use crate::text::{ascii_lowercase, has_text};
use vstd::prelude::*;

verus! {

// ---------------------------------------------------------------------------------------------
// Looking for a shell
// ---------------------------------------------------------------------------------------------

/// A shell is named by a path exactly where a slash of either kind stands in it.
pub proof fn law_paths_have_slashes(shell: &str, path: bool)
    requires
        call_ensures(is_path, (shell,), path),
    ensures
        path <==> exists|i: int|
            0 <= i < shell@.len() && ((#[trigger] shell@[i]) == '/' || shell@[i] == '\\'),
{
    if path {
        if shell@.contains('/') {
            let i = choose|i: int| 0 <= i < shell@.len() && shell@[i] == '/';
            assert(shell@[i] == '/');
        } else {
            let i = choose|i: int| 0 <= i < shell@.len() && shell@[i] == '\\';
            assert(shell@[i] == '\\');
        }
    }
}

/// The text is a name: no slash stands in it.
pub open spec fn is_name(shell: Seq<char>) -> bool {
    forall|i: int| 0 <= i < shell.len() ==> (#[trigger] shell[i]) != '/' && shell[i] != '\\'
}

proof fn lemma_is_name(shell: Seq<char>)
    ensures
        is_name(shell) <==> !shell.contains('/') && !shell.contains('\\'),
{
    if is_name(shell) {
        assert(!shell.contains('/') && !shell.contains('\\'));
    } else {
        let i = choose|i: int|
            0 <= i < shell.len() && !((#[trigger] shell[i]) != '/' && shell[i] != '\\');
        assert(shell.contains(shell[i]));
    }
}

/// A probe asks whether a path exists.
pub open spec fn asks_for_path(probes: Seq<Probe>, i: int, path: Seq<char>) -> bool {
    0 <= i < probes.len() && probes[i] is Exists && probes[i]->Exists_0@ == path
}

/// A probe asks which program a name is.
pub open spec fn asks_for_program(probes: Seq<Probe>, i: int, name: Seq<char>) -> bool {
    0 <= i < probes.len() && probes[i] is Program && probes[i]->Program_0@ == name
}

proof fn lemma_probes(probes: Seq<Probe>)
    ensures
        probe_views(probes).len() == probes.len(),
        forall|i: int| 0 <= i < probes.len() ==> probe_views(probes)[i] == (#[trigger] probes[i])@,
{
}

/// A path is asked for as it stands, and nothing else is, on every system.
pub proof fn law_path_is_asked_for_alone(os: Os, shell: &str, probes: Vec<Probe>)
    requires
        call_ensures(plan_shell, (os, shell), probes),
        !is_name(shell@),
    ensures
        probes@.len() == 1,
        asks_for_path(probes@, 0, shell@),
{
    lemma_is_name(shell@);
    lemma_probes(probes@);
}

/// Except on Windows, a name is looked for in `/bin`, `/usr/bin` and `/usr/local/bin`, in this order.
pub proof fn law_name_is_looked_for_in_the_usual_directories(
    os: Os,
    shell: &str,
    probes: Vec<Probe>,
)
    requires
        call_ensures(plan_shell, (os, shell), probes),
        is_name(shell@),
        !(os is Windows),
    ensures
        probes@.len() == 3,
        asks_for_path(probes@, 0, "/bin/"@ + shell@),
        asks_for_path(probes@, 1, "/usr/bin/"@ + shell@),
        asks_for_path(probes@, 2, "/usr/local/bin/"@ + shell@),
{
    lemma_is_name(shell@);
    lemma_probes(probes@);
}

/// From one place on, the probes ask for the bash of Git for Windows and then for others.
pub open spec fn asks_for_bash_places(probes: Seq<Probe>, i: int) -> bool {
    &&& asks_for_path(probes, i, "C:\\Program Files\\Git\\bin\\bash.exe"@)
    &&& asks_for_path(probes, i + 1, "C:\\Program Files\\Git\\usr\\bin\\bash.exe"@)
    &&& asks_for_path(probes, i + 2, "C:\\tools\\msys64\\usr\\bin\\bash.exe"@)
    &&& asks_for_path(probes, i + 3, "C:\\msys64\\usr\\bin\\bash.exe"@)
    &&& asks_for_path(probes, i + 4, "C:\\Git\\bin\\bash.exe"@)
    &&& asks_for_path(probes, i + 5, "C:\\Git\\usr\\bin\\bash.exe"@)
    &&& probes.len() == i + 6
}

/// On Windows a name is looked for with `.exe` behind it, then as it stands; the PowerShells are
/// looked for in their places first, and a bash in its places last. `git-bash` is a bash.
pub proof fn law_name_is_looked_for_on_windows(shell: &str, probes: Vec<Probe>)
    requires
        call_ensures(plan_shell, (Os::Windows, shell), probes),
        is_name(shell@),
    ensures
        shell@ == "git-bash"@ ==> asks_for_program(probes@, 0, "bash.exe"@)
            && asks_for_bash_places(probes@, 1),
        shell@ == "pwsh"@ ==> {
            &&& probes@.len() == 5
            &&& asks_for_program(probes@, 0, "C:\\Program Files\\PowerShell\\7\\pwsh.exe"@)
            &&& asks_for_program(probes@, 1, "C:\\Program Files\\PowerShell\\6\\pwsh.exe"@)
            &&& asks_for_program(probes@, 2, "pwsh.exe"@)
            &&& asks_for_program(probes@, 3, shell@ + ".exe"@)
            &&& asks_for_program(probes@, 4, shell@)
        },
        shell@ == "powershell"@ ==> {
            &&& probes@.len() == 4
            &&& asks_for_program(
                probes@,
                0,
                "C:\\Windows\\System32\\WindowsPowerShell\\v1.0\\powershell.exe"@,
            )
            &&& asks_for_program(probes@, 1, "powershell.exe"@)
            &&& asks_for_program(probes@, 2, shell@ + ".exe"@)
            &&& asks_for_program(probes@, 3, shell@)
        },
        shell@ == "bash"@ ==> {
            &&& asks_for_program(probes@, 0, shell@ + ".exe"@)
            &&& asks_for_program(probes@, 1, shell@)
            &&& asks_for_bash_places(probes@, 2)
        },
        shell@ != "git-bash"@ && shell@ != "pwsh"@ && shell@ != "powershell"@ && shell@ != "bash"@
            ==> {
            &&& probes@.len() == 2
            &&& asks_for_program(probes@, 0, shell@ + ".exe"@)
            &&& asks_for_program(probes@, 1, shell@)
        },
{
    lemma_is_name(shell@);
    lemma_probes(probes@);
    reveal_strlit("git-bash");
    reveal_strlit("pwsh");
    reveal_strlit("powershell");
    reveal_strlit("bash");
    lemma_bash_places();
    let seen = probe_views(probes@);
    assert(seen == super::shell::shell_probes(Os::Windows, shell@));
    if shell@ == "git-bash"@ {
        assert forall|i: int| 0 <= i < 6 implies seen[1 + i]
            == #[trigger] super::shell::bash_places()[i] by {}
        assert(probes@[0]@ == seen[0]);
        lemma_asks_for_bash(probes@, 1);
    }
    if shell@ == "bash"@ {
        assert("bash"@ != "pwsh"@) by {
            assert("bash"@[0] == 'b' && "pwsh"@[0] == 'p');
        }
        assert("bash"@.len() != "git-bash"@.len() && "bash"@.len() != "powershell"@.len());
        assert(super::shell::known_programs(shell@).len() == 0);
        assert(seen =~= seq![
            ProbeView::Program(shell@ + ".exe"@),
            ProbeView::Program(shell@),
        ] + super::shell::bash_places());
        assert forall|i: int| 0 <= i < 6 implies seen[2 + i]
            == #[trigger] super::shell::bash_places()[i] by {}
        assert(probes@[0]@ == seen[0] && probes@[1]@ == seen[1]);
        lemma_asks_for_bash(probes@, 2);
    }
}

proof fn lemma_bash_places()
    ensures
        ({
            let b = super::shell::bash_places();
            &&& b.len() == 6
            &&& b[0] == ProbeView::Exists("C:\\Program Files\\Git\\bin\\bash.exe"@)
            &&& b[1] == ProbeView::Exists("C:\\Program Files\\Git\\usr\\bin\\bash.exe"@)
            &&& b[2] == ProbeView::Exists("C:\\tools\\msys64\\usr\\bin\\bash.exe"@)
            &&& b[3] == ProbeView::Exists("C:\\msys64\\usr\\bin\\bash.exe"@)
            &&& b[4] == ProbeView::Exists("C:\\Git\\bin\\bash.exe"@)
            &&& b[5] == ProbeView::Exists("C:\\Git\\usr\\bin\\bash.exe"@)
        }),
{
}

proof fn lemma_asks_for_bash(probes: Seq<Probe>, at: int)
    requires
        0 <= at,
        probes.len() == at + 6,
        forall|i: int|
            0 <= i < 6 ==> probe_views(probes)[at + i]
                == #[trigger] super::shell::bash_places()[i],
    ensures
        asks_for_bash_places(probes, at),
{
    lemma_bash_places();
    lemma_probes(probes);
    let b = super::shell::bash_places();
    assert(probes[at]@ == b[0]) by {
        assert(probe_views(probes)[at + 0] == b[0]);
    }
    assert(probes[at + 1]@ == b[1]);
    assert(probes[at + 2]@ == b[2]);
    assert(probes[at + 3]@ == b[3]);
    assert(probes[at + 4]@ == b[4]);
    assert(probes[at + 5]@ == b[5]);
}

/// The places of a bash are the same wherever they are asked for.
pub proof fn law_places_of_bash(primary: Vec<String>, fallback: Vec<String>)
    requires
        call_ensures(git_bash_primary_paths, (), primary),
        call_ensures(git_bash_fallback_paths, (), fallback),
    ensures
        primary@.len() == 2,
        primary@[0]@ == "C:\\Program Files\\Git\\bin\\bash.exe"@,
        primary@[1]@ == "C:\\Program Files\\Git\\usr\\bin\\bash.exe"@,
        fallback@.len() == 4,
        fallback@[0]@ == "C:\\tools\\msys64\\usr\\bin\\bash.exe"@,
        fallback@[1]@ == "C:\\msys64\\usr\\bin\\bash.exe"@,
        fallback@[2]@ == "C:\\Git\\bin\\bash.exe"@,
        fallback@[3]@ == "C:\\Git\\usr\\bin\\bash.exe"@,
{
    let p = views(primary@);
    let f = views(fallback@);
    assert(p.len() == primary@.len() && f.len() == fallback@.len());
    assert(p[0] == primary@[0]@ && p[1] == primary@[1]@);
    assert(f[0] == fallback@[0]@ && f[1] == fallback@[1]@ && f[2] == fallback@[2]@ && f[3]
        == fallback@[3]@);
}

proof fn lemma_first(answers: Vec<Option<String>>, i: int)
    requires
        0 <= i <= answers@.len(),
        forall|j: int| 0 <= j < i ==> #[trigger] answers@[j] is None,
        i < answers@.len() ==> answers@[i] is Some,
    ensures
        misses(answer_views(answers@)) == i,
        i < answers@.len() ==> answer_views(answers@)[i] == Some(answers@[i]->0@),
{
    let seen = answer_views(answers@);
    lemma_misses(seen);
    let n = misses(seen) as int;
    if n < i {
        assert(answers@[n] is None);
    } else if i < n {
        assert(seen[i] is None);
    }
}

/// A shell is what its first probe with a find leads to: the path that was asked for, or the program
/// that was found under the name. Where no probe finds anything, the shell is not found, and the
/// message names it.
pub proof fn law_shell_is_the_first_find(
    os: Os,
    shell: &str,
    answers: Vec<Option<String>>,
    probes: Vec<Probe>,
    resolved: Result<String, String>,
    i: int,
)
    requires
        call_ensures(plan_shell, (os, shell), probes),
        call_ensures(resolve_shell_path, (os, shell, &answers), resolved),
        0 <= i <= answers@.len() <= probes@.len(),
        forall|j: int| 0 <= j < i ==> #[trigger] answers@[j] is None,
        i < answers@.len() ==> answers@[i] is Some,
    ensures
        i < answers@.len() && probes@[i] is Exists ==> resolved is Ok && resolved->Ok_0@
            == probes@[i]->Exists_0@,
        i < answers@.len() && probes@[i] is Program ==> resolved is Ok && resolved->Ok_0@
            == answers@[i]->0@,
        i == answers@.len() ==> resolved is Err,
        i == answers@.len() && !(os is Windows && shell@ == "git-bash"@) ==> resolved->Err_0@
            == "Shell not found: "@ + shell@,
        i == answers@.len() && os is Windows && shell@ == "git-bash"@ ==> resolved->Err_0@
            == "Shell not found: "@ + shell@
            + " - bash.exe not found in PATH or common Git Bash locations"@,
{
    lemma_first(answers, i);
    lemma_probes(probes@);
}

// ---------------------------------------------------------------------------------------------
// Programs on Windows
// ---------------------------------------------------------------------------------------------

/// The name, in lowercase, is that of a shell that Windows finds itself.
pub open spec fn is_shell_of_windows(lower: Seq<char>) -> bool {
    ||| lower == "cmd"@
    ||| lower == "cmd.exe"@
    ||| lower == "powershell"@
    ||| lower == "powershell.exe"@
    ||| lower == "pwsh"@
    ||| lower == "pwsh.exe"@
    ||| lower == "wsl"@
    ||| lower == "wsl.exe"@
}

/// Windows finds cmd, the PowerShells and wsl itself, with or without `.exe` and whatever the case of
/// the letters, and nothing else.
pub proof fn law_shells_of_windows(shell: &str, builtin: bool)
    requires
        call_ensures(is_builtin_windows_shell, (shell,), builtin),
    ensures
        builtin <==> is_shell_of_windows(ascii_lowercase(shell@)),
{
    lemma_builtin(ascii_lowercase(shell@));
}

proof fn lemma_builtin(lower: Seq<char>)
    ensures
        super::shell::builtin_shells().contains(lower) <==> is_shell_of_windows(lower),
{
    let all = super::shell::builtin_shells();
    assert(all.len() == 8);
    assert(all[0] == "cmd"@ && all[1] == "cmd.exe"@ && all[2] == "powershell"@ && all[3]
        == "powershell.exe"@ && all[4] == "pwsh"@ && all[5] == "pwsh.exe"@ && all[6] == "wsl"@
        && all[7] == "wsl.exe"@);
}

/// A program is looked for on the search path exactly where it is a name and Windows does not find
/// it itself.
pub proof fn law_names_are_searched_for(name: &str, searched: bool)
    requires
        call_ensures(needs_path_search, (name,), searched),
    ensures
        searched <==> is_name(name@) && !is_shell_of_windows(ascii_lowercase(name@)),
{
    lemma_is_name(name@);
    lemma_builtin(ascii_lowercase(name@));
}

/// What exists stands for itself. What does not is nothing where it is a path, itself where Windows
/// finds it, and else what the search path holds.
pub proof fn law_program_of_a_name(
    name: &str,
    present: bool,
    on_path: Option<String>,
    found: Option<String>,
)
    requires
        call_ensures(resolve_shell_path_uncached, (name, present, on_path), found),
    ensures
        present ==> found is Some && found->0@ == name@,
        !present && !is_name(name@) ==> found is None,
        !present && is_name(name@) && is_shell_of_windows(ascii_lowercase(name@)) ==> found is Some
            && found->0@ == name@,
        !present && is_name(name@) && !is_shell_of_windows(ascii_lowercase(name@)) ==> {
            &&& found is Some <==> on_path is Some
            &&& found is Some ==> found->0@ == on_path->0@
        },
{
    lemma_is_name(name@);
    lemma_builtin(ascii_lowercase(name@));
}

/// A name is looked up once: what it stood for then it stands for ever after, and the names that
/// were asked for before keep what they stood for.
pub proof fn law_names_are_looked_up_once(
    cache: &mut ShellCache,
    name: &str,
    found: Option<String>,
    path: Option<String>,
    other: Seq<char>,
)
    requires
        call_ensures(ShellCache::get_absolute_shell_path, (cache, name, found), path),
        other != name@,
    ensures
        final(cache)@.contains_key(name@),
        path is Some <==> final(cache)@[name@] is Some,
        path is Some ==> final(cache)@[name@]->0@ == path->0@,
        !old(cache)@.contains_key(name@) ==> (path is Some <==> found is Some),
        !old(cache)@.contains_key(name@) && found is Some ==> path->0@ == found->0@,
        old(cache)@.contains_key(name@) ==> (path is Some <==> old(cache)@[name@] is Some),
        old(cache)@.contains_key(name@) && path is Some ==> path->0@ == old(cache)@[name@]->0@,
        final(cache)@.contains_key(other) <==> old(cache)@.contains_key(other),
        old(cache)@.contains_key(other) ==> final(cache)@[other] == old(cache)@[other],
{
    let a = final(cache)@.remove(name@);
    let b = old(cache)@.remove(name@);
    assert(a.contains_key(other) <==> final(cache)@.contains_key(other));
    assert(b.contains_key(other) <==> old(cache)@.contains_key(other));
    if old(cache)@.contains_key(other) {
        assert(a[other] == final(cache)@[other] && b[other] == old(cache)@[other]);
    }
}

/// A cache knows what it was asked for, and nothing to begin with.
pub proof fn law_cache_knows_what_it_was_asked_for(
    fresh: ShellCache,
    cache: ShellCache,
    name: &str,
    known: bool,
)
    requires
        call_ensures(ShellCache::new, (), fresh),
        call_ensures(ShellCache::knows, (&cache, name), known),
    ensures
        !fresh@.contains_key(name@),
        known <==> cache@.contains_key(name@),
{
}

/// A name without a drive before it has an extension exactly where a dot stands behind its first
/// character; `..` has none.
pub proof fn law_extension_is_behind_a_dot(name: &str, extended: bool)
    requires
        call_ensures(has_extension, (name,), extended),
        name@.len() < 2 || name@[1] != ':',
    ensures
        extended <==> name@ != ".."@ && exists|i: int| 0 < i < name@.len() && #[trigger] name@[i] == '.',
{
}

/// The letter of a drive is no part of the name.
pub proof fn law_drive_is_no_part_of_the_name(name: &str, extended: bool, rest: Seq<char>, letter: char)
    requires
        call_ensures(has_extension, (name,), extended),
        'a' <= letter && letter <= 'z' || 'A' <= letter && letter <= 'Z',
        name@ == seq![letter, ':'] + rest,
    ensures
        extended <==> rest != ".."@ && exists|i: int| 0 < i < rest.len() && #[trigger] rest[i] == '.',
{
    assert(name@[0] == letter && name@[1] == ':');
    assert(name@.skip(2) =~= rest);
    assert(super::shell::without_drive(name@) == rest);
}

proof fn lemma_extensions(parts: Seq<Seq<char>>)
    ensures
        forall|i: int|
            0 <= i < extensions_of(parts).len() ==> exists|k: int|
                0 <= k < parts.len() && #[trigger] extensions_of(parts)[i] == trimmed(
                    #[trigger] parts[k],
                ) && trimmed(parts[k]).len() > 0,
        forall|k: int|
            0 <= k < parts.len() && trimmed(#[trigger] parts[k]).len() > 0 ==> extensions_of(
                parts,
            ).contains(trimmed(parts[k])),
    decreases parts.len(),
{
    if parts.len() > 0 {
        let rest = parts.drop_last();
        lemma_extensions(rest);
        let all = extensions_of(parts);
        let front = extensions_of(rest);
        assert forall|i: int| 0 <= i < all.len() implies exists|k: int|
            0 <= k < parts.len() && #[trigger] all[i] == trimmed(#[trigger] parts[k]) && trimmed(
                parts[k],
            ).len() > 0 by {
            if i < front.len() {
                assert(all[i] == front[i]);
                let k = choose|k: int|
                    0 <= k < rest.len() && front[i] == trimmed(#[trigger] rest[k]) && trimmed(
                        rest[k],
                    ).len() > 0;
                assert(parts[k] == rest[k]);
            } else {
                assert(parts[parts.len() - 1] == parts.last());
            }
        }
        assert forall|k: int|
            0 <= k < parts.len() && trimmed(#[trigger] parts[k]).len() > 0 implies all.contains(
            trimmed(parts[k]),
        ) by {
            if k < rest.len() {
                assert(rest[k] == parts[k]);
                let i = choose|i: int| 0 <= i < front.len() && front[i] == trimmed(rest[k]);
                assert(all[i] == trimmed(parts[k]));
            } else {
                assert(all[all.len() - 1] == trimmed(parts[k]));
            }
        }
    }
}

/// The usual extensions, as the environment lists them or as Windows has them.
pub open spec fn usual_extensions(pathext: Option<String>) -> Seq<Seq<char>> {
    if pathext is Some {
        pieces(pathext->0@, ';')
    } else {
        pieces(".COM;.EXE;.BAT;.CMD"@, ';')
    }
}

/// A command is looked for under its own name first. One with an extension has no other name; one
/// without has its name with each of the usual extensions behind it, and no others.
pub proof fn law_names_of_a_command(
    command: &str,
    pathext: Option<String>,
    names: Vec<String>,
    extended: bool,
    k: int,
)
    requires
        call_ensures(executable_names, (command, &pathext), names),
        call_ensures(has_extension, (command,), extended),
    ensures
        names@.len() > 0,
        names@[0]@ == command@,
        extended ==> names@.len() == 1,
        ({
            let parts = usual_extensions(pathext);
            &&& !extended && 0 <= k < parts.len() && trimmed(parts[k]).len() > 0 ==> views(
                names@,
            ).contains(command@ + trimmed(parts[k]))
            &&& forall|i: int|
                0 < i < names@.len() ==> exists|j: int|
                    0 <= j < parts.len() && (#[trigger] names@[i])@ == command@ + trimmed(
                        #[trigger] parts[j],
                    )
        }),
{
    let shown = views(names@);
    assert(shown.len() == names@.len());
    assert(shown[0] == names@[0]@);
    let parts = usual_extensions(pathext);
    lemma_extensions(parts);
    let exts = extensions_of(parts);
    if !extended {
        let more = exts.map_values(|ext: Seq<char>| command@ + ext);
        assert(shown == seq![command@] + more);
        if 0 <= k < parts.len() && trimmed(parts[k]).len() > 0 {
            let i = choose|i: int| 0 <= i < exts.len() && exts[i] == trimmed(parts[k]);
            assert(shown[i + 1] == command@ + trimmed(parts[k]));
        }
        assert forall|i: int| 0 < i < names@.len() implies exists|j: int|
            0 <= j < parts.len() && (#[trigger] names@[i])@ == command@ + trimmed(
                #[trigger] parts[j],
            ) by {
            assert(shown[i] == names@[i]@);
            assert(shown[i] == command@ + exts[i - 1]);
            let j = choose|j: int|
                0 <= j < parts.len() && exts[i - 1] == trimmed(#[trigger] parts[j]) && trimmed(
                    parts[j],
                ).len() > 0;
            assert(names@[i]@ == command@ + trimmed(parts[j]));
        }
    }
}

/// The usual extensions are tried in their order; a blank one is none.
pub proof fn law_extensions_keep_their_order(front: Seq<Seq<char>>, part: Seq<char>)
    ensures
        extensions_of(Seq::empty()).len() == 0,
        is_blank(part) ==> extensions_of(front.push(part)) == extensions_of(front),
        !is_blank(part) ==> {
            let all = extensions_of(front.push(part));
            &&& all.len() == extensions_of(front).len() + 1
            &&& all.drop_last() == extensions_of(front)
            &&& exists|from: int, to: int| is_middle(part, all.last(), from, to)
        },
{
    assert(front.push(part).drop_last() =~= front);
    let (from, to) = lemma_trimmed(part);
    assert(is_middle(part, trimmed(part), from, to));
    if is_blank(part) && from < to {
        assert(white_space(part[from]));
    }
    if !is_blank(part) {
        let all = extensions_of(front.push(part));
        if trimmed(part).len() == 0 {
            assert(from == to);
            assert forall|i: int| 0 <= i < part.len() implies white_space(#[trigger] part[i]) by {}
        }
        assert(all.drop_last() =~= extensions_of(front));
        assert(is_middle(part, all.last(), from, to));
    }
}

proof fn lemma_names_in_all(directories: int, names: Seq<Seq<char>>, d: int, k: int)
    requires
        0 <= d < directories,
        0 <= k < names.len(),
    ensures
        names_in_all(directories, names).len() == directories * names.len(),
        0 <= d * names.len() + k < directories * names.len(),
        names_in_all(directories, names)[d * names.len() + k] == (ExecutableProbeView::In {
            directory: d,
            name: names[k],
        }),
    decreases directories,
{
    let n = names.len() as int;
    assert((directories - 1) * n + n == directories * n) by (nonlinear_arith);
    assert(0 <= d * n) by (nonlinear_arith)
        requires
            0 <= d,
            0 <= n,
    ;
    if directories > 1 {
        lemma_names_in_all(directories - 1, names, if d < directories - 1 {
            d
        } else {
            0
        }, k);
    } else {
        assert(names_in_all(0, names).len() == 0);
        assert(0 * n == 0) by (nonlinear_arith);
    }
    if d == directories - 1 {
        assert(names_in_all(directories, names)[d * n + k] == super::shell::names_in(d, names)[k]);
    }
}

/// A command that is a path is looked for as it stands; a name in each directory of the search path,
/// one after the other, under each of its names.
pub proof fn law_command_is_looked_for(
    command: &str,
    directories: usize,
    pathext: Option<String>,
    names: Vec<String>,
    probes: Vec<ExecutableProbe>,
    d: int,
    k: int,
)
    requires
        call_ensures(plan_executable, (command, directories, &pathext), probes),
        call_ensures(executable_names, (command, &pathext), names),
    ensures
        !is_name(command@) ==> probes@.len() == 1 && probes@[0] is AsItStands,
        is_name(command@) && 0 <= d < directories && 0 <= k < names@.len() ==> {
            let at = d * names@.len() + k;
            &&& probes@.len() == directories * names@.len()
            &&& 0 <= at < probes@.len()
            &&& probes@[at] is In
            &&& probes@[at]->directory == d
            &&& probes@[at]->name@ == names@[k]@
        },
{
    lemma_is_name(command@);
    let seen = executable_probe_views(probes@);
    assert(seen.len() == probes@.len());
    if !is_name(command@) {
        assert(seen[0] == probes@[0]@);
    }
    if is_name(command@) && 0 <= d < directories && 0 <= k < names@.len() {
        let shown = views(names@);
        assert(shown.len() == names@.len() && shown[k] == names@[k]@);
        lemma_names_in_all(directories as int, shown, d, k);
        let at = d * names@.len() + k;
        assert(seen[at] == probes@[at]@);
    }
}

/// A command is the first file that was found for it; a path that exists is the command itself.
pub proof fn law_command_is_the_first_find(
    command: &str,
    directories: usize,
    pathext: Option<String>,
    answers: Vec<Option<String>>,
    probes: Vec<ExecutableProbe>,
    found: Option<String>,
    i: int,
)
    requires
        call_ensures(plan_executable, (command, directories, &pathext), probes),
        call_ensures(
            resolve_executable_from_path,
            (command, directories, &pathext, &answers),
            found,
        ),
        0 <= i <= answers@.len() <= probes@.len(),
        forall|j: int| 0 <= j < i ==> #[trigger] answers@[j] is None,
        i < answers@.len() ==> answers@[i] is Some,
    ensures
        i == answers@.len() ==> found is None,
        i < answers@.len() ==> found is Some,
        i < answers@.len() && probes@[i] is AsItStands ==> found->0@ == command@,
        i < answers@.len() && probes@[i] is In ==> found->0@ == answers@[i]->0@,
{
    lemma_first(answers, i);
    let seen = executable_probe_views(probes@);
    assert(seen.len() == probes@.len());
    if i < answers@.len() {
        assert(seen[i] == probes@[i]@);
    }
}

// ---------------------------------------------------------------------------------------------
// Defaults and the command line
// ---------------------------------------------------------------------------------------------

/// The shell of a terminal that names none is the one of the environment; without it, cmd on Windows
/// and sh elsewhere.
pub proof fn law_default_shell(os: Os, variable: Option<String>, shell: String)
    requires
        call_ensures(get_default_shell, (os, variable), shell),
    ensures
        variable is Some ==> shell@ == variable->0@,
        variable is None && os is Windows ==> shell@ == "cmd.exe"@,
        variable is None && !(os is Windows) ==> shell@ == "/bin/sh"@,
{
}

/// The home of the user is the profile on Windows, where there is one, and else the home of the
/// environment; without either, the root of the drive on Windows and the temporary directory
/// elsewhere.
pub proof fn law_home_of_the_user(
    os: Os,
    profile: Option<String>,
    home: Option<String>,
    dir: String,
)
    requires
        call_ensures(get_home_directory, (os, profile, home), dir),
    ensures
        os is Windows && profile is Some ==> dir@ == profile->0@,
        os is Windows && profile is None && home is Some ==> dir@ == home->0@,
        os is Windows && profile is None && home is None ==> dir@ == "C:\\"@,
        !(os is Windows) && home is Some ==> dir@ == home->0@,
        !(os is Windows) && home is None ==> dir@ == "/tmp"@,
{
}

/// The command line names the shell, in quotes exactly where a space stands in it, and asks a
/// PowerShell, and nothing else, to leave out its banner.
pub proof fn law_command_line_names_the_shell(shell: &str, line: String)
    requires
        call_ensures(windows_command_line, (shell,), line),
    ensures
        ({
            let powershell = has_text(shell@, "powershell"@) || has_text(shell@, "pwsh"@);
            let spaced = exists|i: int| 0 <= i < shell@.len() && #[trigger] shell@[i] == ' ';
            &&& !spaced && !powershell ==> line@ == shell@
            &&& !spaced && powershell ==> line@ == shell@ + " -NoLogo"@
            &&& spaced && !powershell ==> line@ == "\""@ + shell@ + "\" "@
            &&& spaced && powershell ==> line@ == "\""@ + shell@ + "\" -NoLogo"@
        }),
{
    reveal_strlit("");
    reveal_strlit("\"");
    reveal_strlit("\" ");
    reveal_strlit("-NoLogo");
    reveal_strlit(" -NoLogo");
    reveal_strlit("\" -NoLogo");
    assert(""@ =~= Seq::<char>::empty());
    assert("\" "@ + "-NoLogo"@ =~= "\" -NoLogo"@);
    assert("\""@ + shell@ + "\" "@ + "-NoLogo"@ =~= "\""@ + shell@ + "\" -NoLogo"@);
    assert("\""@ + shell@ + "\" "@ + ""@ =~= "\""@ + shell@ + "\" "@);
}

}
