//! Finding the shell that a terminal runs.
//!
//! What the disk holds is asked in advance: a lookup is a list of probes, in order, and the answers
//! to them decide. Nothing behind the first probe that finds something matters.
use crate::lookup::{answer_views, first_find, misses, opt_view};
use crate::platform::Os;
use crate::text::split::{split_on, trim, trimmed, pieces, views};
use crate::text::{
    ascii_lowercase, chars_of, concat2, concat3, contains_char, contains_text, has_text, same_text,
    to_ascii_lowercase,
};
use vstd::hash_map::StringHashMap;
use vstd::prelude::*;

verus! {

/// Where Git for Windows installs its bash.
pub open spec fn git_bash_primary() -> Seq<Seq<char>> {
    seq!["C:\\Program Files\\Git\\bin\\bash.exe"@, "C:\\Program Files\\Git\\usr\\bin\\bash.exe"@]
}

/// Where other distributions install their bash.
pub open spec fn git_bash_fallback() -> Seq<Seq<char>> {
    seq![
        "C:\\tools\\msys64\\usr\\bin\\bash.exe"@,
        "C:\\msys64\\usr\\bin\\bash.exe"@,
        "C:\\Git\\bin\\bash.exe"@,
        "C:\\Git\\usr\\bin\\bash.exe"@,
    ]
}

fn text(s: &str) -> (t: String)
    ensures
        t@ == s@,
{
    s.to_owned()
}

/// Where Git for Windows installs its bash.
pub fn git_bash_primary_paths() -> (paths: Vec<String>)
    ensures
        views(paths@) == git_bash_primary(),
{
    let paths: Vec<String> = vec![
        text("C:\\Program Files\\Git\\bin\\bash.exe"),
        text("C:\\Program Files\\Git\\usr\\bin\\bash.exe"),
    ];
    assert(views(paths@) =~= git_bash_primary());
    paths
}

/// Where other distributions install their bash.
pub fn git_bash_fallback_paths() -> (paths: Vec<String>)
    ensures
        views(paths@) == git_bash_fallback(),
{
    let paths: Vec<String> = vec![
        text("C:\\tools\\msys64\\usr\\bin\\bash.exe"),
        text("C:\\msys64\\usr\\bin\\bash.exe"),
        text("C:\\Git\\bin\\bash.exe"),
        text("C:\\Git\\usr\\bin\\bash.exe"),
    ];
    assert(views(paths@) =~= git_bash_fallback());
    paths
}

/// A question that a lookup asks.
#[derive(Debug, Clone)]
pub enum Probe {
    /// Does this path exist? The find is the path itself.
    Exists(String),
    /// Which program is this name? The find is its path.
    Program(String),
}

/// The model of a [`Probe`].
pub enum ProbeView {
    Exists(Seq<char>),
    Program(Seq<char>),
}

impl View for Probe {
    type V = ProbeView;

    open spec fn view(&self) -> ProbeView {
        match *self {
            Probe::Exists(path) => ProbeView::Exists(path@),
            Probe::Program(name) => ProbeView::Program(name@),
        }
    }
}

/// The models of probes.
pub open spec fn probe_views(probes: Seq<Probe>) -> Seq<ProbeView> {
    probes.map_values(|p: Probe| p@)
}

/// Probes for paths.
pub open spec fn exists_probes(paths: Seq<Seq<char>>) -> Seq<ProbeView> {
    paths.map_values(|p: Seq<char>| ProbeView::Exists(p))
}

/// The text is a path and not a name.
pub open spec fn looks_like_path(shell: Seq<char>) -> bool {
    shell.contains('/') || shell.contains('\\')
}

/// Where bash stands if it is not on the search path.
pub open spec fn bash_places() -> Seq<ProbeView> {
    exists_probes(git_bash_primary()) + exists_probes(git_bash_fallback())
}

/// What is asked before the name itself: the places of the two PowerShells.
pub open spec fn known_programs(shell: Seq<char>) -> Seq<ProbeView> {
    if shell == "pwsh"@ {
        seq![
            ProbeView::Program("C:\\Program Files\\PowerShell\\7\\pwsh.exe"@),
            ProbeView::Program("C:\\Program Files\\PowerShell\\6\\pwsh.exe"@),
            ProbeView::Program("pwsh.exe"@),
        ]
    } else if shell == "powershell"@ {
        seq![
            ProbeView::Program(
                "C:\\Windows\\System32\\WindowsPowerShell\\v1.0\\powershell.exe"@,
            ),
            ProbeView::Program("powershell.exe"@),
        ]
    } else {
        Seq::empty()
    }
}

/// How a shell is looked for. A path is taken as it stands. On Windows `git-bash` is a name for the
/// bash of the search path, then for the usual places of one; any other name is looked up with
/// `.exe` and as it stands, after the known places of the PowerShells and before those of a bash.
/// On other systems a name is looked for in the usual directories.
pub open spec fn shell_probes(os: Os, shell: Seq<char>) -> Seq<ProbeView> {
    if looks_like_path(shell) {
        seq![ProbeView::Exists(shell)]
    } else if os is Windows {
        if shell == "git-bash"@ {
            seq![ProbeView::Program("bash.exe"@)] + bash_places()
        } else {
            known_programs(shell) + seq![
                ProbeView::Program(shell + ".exe"@),
                ProbeView::Program(shell),
            ] + (if shell == "bash"@ {
                bash_places()
            } else {
                Seq::empty()
            })
        }
    } else {
        seq![
            ProbeView::Exists("/bin/"@ + shell),
            ProbeView::Exists("/usr/bin/"@ + shell),
            ProbeView::Exists("/usr/local/bin/"@ + shell),
        ]
    }
}

/// What is said of a shell that was not found.
pub open spec fn not_found(os: Os, shell: Seq<char>) -> Seq<char> {
    if os is Windows && shell == "git-bash"@ {
        "Shell not found: "@ + shell + " - bash.exe not found in PATH or common Git Bash locations"@
    } else {
        "Shell not found: "@ + shell
    }
}

fn push_probe(probes: &mut Vec<Probe>, probe: Probe)
    ensures
        probe_views(final(probes)@) == probe_views(old(probes)@).push(probe@),
{
    let ghost was = probe_views(probes@);
    probes.push(probe);
    assert(probe_views(probes@) =~= was.push(probe@));
}

fn push_exists(probes: &mut Vec<Probe>, paths: &Vec<String>)
    ensures
        probe_views(final(probes)@) == probe_views(old(probes)@) + exists_probes(views(paths@)),
{
    let ghost was = probe_views(probes@);
    let ghost all = exists_probes(views(paths@));
    let mut i: usize = 0;
    assert(was + all.take(0) =~= was);
    while i < paths.len()
        invariant
            i <= paths@.len(),
            all == exists_probes(views(paths@)),
            probe_views(probes@) == was + all.take(i as int),
        decreases paths.len() - i,
    {
        push_probe(probes, Probe::Exists(paths[i].clone()));
        assert(was + all.take(i as int + 1) =~= (was + all.take(i as int)).push(all[i as int]));
        i += 1;
    }
    assert(all.take(i as int) =~= all);
}

fn push_bash_places(probes: &mut Vec<Probe>)
    ensures
        probe_views(final(probes)@) == probe_views(old(probes)@) + bash_places(),
{
    let ghost was = probe_views(probes@);
    push_exists(probes, &git_bash_primary_paths());
    push_exists(probes, &git_bash_fallback_paths());
    assert(probe_views(probes@) =~= was + bash_places());
}

/// Is the text a path and not a name?
pub fn is_path(shell: &str) -> (path: bool)
    ensures
        path == looks_like_path(shell@),
{
    contains_char(shell, '/') || contains_char(shell, '\\')
}

/// How a shell is looked for.
pub fn plan_shell(os: Os, shell: &str) -> (probes: Vec<Probe>)
    ensures
        probe_views(probes@) == shell_probes(os, shell@),
{
    let mut probes: Vec<Probe> = Vec::new();
    assert(probe_views(probes@) =~= Seq::<ProbeView>::empty());
    if is_path(shell) {
        push_probe(&mut probes, Probe::Exists(shell.to_owned()));
        assert(probe_views(probes@) =~= shell_probes(os, shell@));
        return probes;
    }
    match os {
        Os::Windows => {
            if same_text(shell, "git-bash") {
                push_probe(&mut probes, Probe::Program(text("bash.exe")));
                push_bash_places(&mut probes);
                assert(probe_views(probes@) =~= shell_probes(os, shell@));
                return probes;
            }
            if same_text(shell, "pwsh") {
                push_probe(
                    &mut probes,
                    Probe::Program(text("C:\\Program Files\\PowerShell\\7\\pwsh.exe")),
                );
                push_probe(
                    &mut probes,
                    Probe::Program(text("C:\\Program Files\\PowerShell\\6\\pwsh.exe")),
                );
                push_probe(&mut probes, Probe::Program(text("pwsh.exe")));
            } else if same_text(shell, "powershell") {
                push_probe(
                    &mut probes,
                    Probe::Program(
                        text("C:\\Windows\\System32\\WindowsPowerShell\\v1.0\\powershell.exe"),
                    ),
                );
                push_probe(&mut probes, Probe::Program(text("powershell.exe")));
            }
            assert(probe_views(probes@) =~= known_programs(shell@));
            push_probe(&mut probes, Probe::Program(concat2(shell, ".exe")));
            push_probe(&mut probes, Probe::Program(shell.to_owned()));
            if same_text(shell, "bash") {
                push_bash_places(&mut probes);
            }
        },
        _ => {
            push_probe(&mut probes, Probe::Exists(concat2("/bin/", shell)));
            push_probe(&mut probes, Probe::Exists(concat2("/usr/bin/", shell)));
            push_probe(&mut probes, Probe::Exists(concat2("/usr/local/bin/", shell)));
        },
    }
    assert(probe_views(probes@) =~= shell_probes(os, shell@));
    probes
}

/// What a probe that found something leads to.
pub open spec fn find_of(probe: ProbeView, answer: Seq<char>) -> Seq<char> {
    match probe {
        ProbeView::Exists(path) => path,
        ProbeView::Program(_) => answer,
    }
}

/// The shell that a lookup found: what the first probe with a find leads to.
pub open spec fn shell_found(
    probes: Seq<ProbeView>,
    answers: Seq<Option<Seq<char>>>,
) -> Option<Seq<char>> {
    let n = misses(answers) as int;
    if n < answers.len() && n < probes.len() {
        Some(find_of(probes[n], answers[n]->0))
    } else {
        None
    }
}

/// The model of an answer that is a text or an error message.
pub open spec fn outcome(result: Result<String, String>) -> Result<Seq<char>, Seq<char>> {
    match result {
        Ok(t) => Ok(t@),
        Err(e) => Err(e@),
    }
}

/// What a shell resolves to, with the answers to its probes.
pub open spec fn resolved_shell(
    os: Os,
    shell: Seq<char>,
    answers: Seq<Option<Seq<char>>>,
) -> Result<Seq<char>, Seq<char>> {
    match shell_found(shell_probes(os, shell), answers) {
        Some(path) => Ok(path),
        None => Err(not_found(os, shell)),
    }
}

fn pick(probes: &Vec<Probe>, answers: &Vec<Option<String>>) -> (found: Option<String>)
    ensures
        opt_view(found) == shell_found(probe_views(probes@), answer_views(answers@)),
{
    match first_find(answers) {
        Some(i) => {
            if i >= probes.len() {
                return None;
            }
            assert(answer_views(answers@)[i as int] == opt_view(answers@[i as int]));
            assert(probe_views(probes@)[i as int] == probes@[i as int]@);
            match (&probes[i], &answers[i]) {
                (Probe::Exists(path), _) => Some(path.clone()),
                (Probe::Program(_), Some(path)) => Some(path.clone()),
                (Probe::Program(_), None) => None,
            }
        },
        None => None,
    }
}

/// Resolves a shell, with the answers to its probes in their order.
pub fn resolve_shell_path(os: Os, shell: &str, answers: &Vec<Option<String>>) -> (resolved: Result<
    String,
    String,
>)
    ensures
        outcome(resolved) == resolved_shell(os, shell@, answer_views(answers@)),
{
    let probes = plan_shell(os, shell);
    match pick(&probes, answers) {
        Some(path) => Ok(path),
        None => {
            let git_bash = match os {
                Os::Windows => same_text(shell, "git-bash"),
                _ => false,
            };
            if git_bash {
                Err(
                    concat3(
                        "Shell not found: ",
                        shell,
                        " - bash.exe not found in PATH or common Git Bash locations",
                    ),
                )
            } else {
                Err(concat2("Shell not found: ", shell))
            }
        },
    }
}

// ---------------------------------------------------------------------------------------------
// Programs on Windows
// ---------------------------------------------------------------------------------------------

/// The shells that Windows itself finds under their names.
pub open spec fn builtin_shells() -> Seq<Seq<char>> {
    seq![
        "cmd"@,
        "cmd.exe"@,
        "powershell"@,
        "powershell.exe"@,
        "pwsh"@,
        "pwsh.exe"@,
        "wsl"@,
        "wsl.exe"@,
    ]
}

/// Is it a shell that Windows itself finds under its name?
pub fn is_builtin_windows_shell(shell_path: &str) -> (builtin: bool)
    ensures
        builtin == builtin_shells().contains(ascii_lowercase(shell_path@)),
{
    let name = to_ascii_lowercase(shell_path);
    let n = name.as_str();
    let ghost all = builtin_shells();
    assert(all[0] == "cmd"@ && all[1] == "cmd.exe"@ && all[2] == "powershell"@ && all[3]
        == "powershell.exe"@ && all[4] == "pwsh"@ && all[5] == "pwsh.exe"@ && all[6] == "wsl"@
        && all[7] == "wsl.exe"@);
    same_text(n, "cmd") || same_text(n, "cmd.exe") || same_text(n, "powershell") || same_text(
        n,
        "powershell.exe",
    ) || same_text(n, "pwsh") || same_text(n, "pwsh.exe") || same_text(n, "wsl") || same_text(
        n,
        "wsl.exe",
    )
}

/// The program is looked for on the search path: it is a name, and not of a built-in shell.
pub open spec fn is_searched(name: Seq<char>) -> bool {
    !looks_like_path(name) && !builtin_shells().contains(ascii_lowercase(name))
}

/// The program that a name or a path stands for on Windows: what exists as it stands, then a
/// built-in shell, then what the search path holds.
pub open spec fn program_of(
    name: Seq<char>,
    exists: bool,
    on_path: Option<Seq<char>>,
) -> Option<Seq<char>> {
    if exists {
        Some(name)
    } else if is_searched(name) {
        on_path
    } else if looks_like_path(name) {
        None
    } else {
        Some(name)
    }
}

/// Is the program to be looked for on the search path?
pub fn needs_path_search(name: &str) -> (searched: bool)
    ensures
        searched == is_searched(name@),
{
    !is_path(name) && !is_builtin_windows_shell(name)
}

/// The program that a name or a path stands for on Windows. `exists` tells whether it exists as it
/// stands, `on_path` what the search path holds under the name.
pub fn resolve_shell_path_uncached(
    shell_path: &str,
    exists: bool,
    on_path: Option<String>,
) -> (found: Option<String>)
    ensures
        opt_view(found) == program_of(shell_path@, exists, opt_view(on_path)),
{
    if exists {
        return Some(shell_path.to_owned());
    }
    if is_path(shell_path) {
        return None;
    }
    if is_builtin_windows_shell(shell_path) {
        return Some(shell_path.to_owned());
    }
    on_path
}

/// What names stood for when they were first asked for.
pub struct ShellCache {
    known: StringHashMap<Option<String>>,
}

impl View for ShellCache {
    type V = Map<Seq<char>, Option<String>>;

    closed spec fn view(&self) -> Map<Seq<char>, Option<String>> {
        self.known@
    }
}

impl ShellCache {
    /// Nothing was asked for yet.
    pub fn new() -> (cache: Self)
        ensures
            cache@ == Map::<Seq<char>, Option<String>>::empty(),
    {
        ShellCache { known: StringHashMap::new() }
    }

    /// Is it known what the name stands for, if only that it stands for nothing?
    pub fn knows(&self, shell_path: &str) -> (known: bool)
        ensures
            known == self@.contains_key(shell_path@),
    {
        self.known.contains_key(shell_path)
    }

    /// What a name stands for: what it did when it was first asked for. For a name that was not
    /// asked for yet that is `found`, and it is kept.
    pub fn get_absolute_shell_path(&mut self, shell_path: &str, found: Option<String>) -> (path:
        Option<String>)
        ensures
            opt_view(path) == opt_view(
                if old(self)@.contains_key(shell_path@) {
                    old(self)@[shell_path@]
                } else {
                    found
                },
            ),
            final(self)@.contains_key(shell_path@),
            opt_view(final(self)@[shell_path@]) == opt_view(path),
            final(self)@.remove(shell_path@) == old(self)@.remove(shell_path@),
    {
        match self.known.get(shell_path) {
            Some(cached) => {
                return match cached {
                    Some(p) => Some(p.clone()),
                    None => None,
                };
            },
            None => {},
        }
        let kept = match &found {
            Some(p) => Some(p.clone()),
            None => None,
        };
        self.known.insert(shell_path.to_owned(), kept);
        assert(self@.remove(shell_path@) =~= old(self)@.remove(shell_path@));
        found
    }
}

/// The extensions that are tried behind a name, in order: blank ones count as none.
pub open spec fn extensions_of(parts: Seq<Seq<char>>) -> Seq<Seq<char>>
    decreases parts.len(),
{
    if parts.len() == 0 {
        Seq::empty()
    } else {
        let rest = extensions_of(parts.drop_last());
        let ext = trimmed(parts.last());
        if ext.len() == 0 {
            rest
        } else {
            rest.push(ext)
        }
    }
}

/// The name without the letter of a drive before it.
pub open spec fn without_drive(name: Seq<char>) -> Seq<char> {
    if name.len() >= 2 && name[1] == ':' && (('a' <= name[0] && name[0] <= 'z') || ('A' <= name[0]
        && name[0] <= 'Z')) {
        name.skip(2)
    } else {
        name
    }
}

/// The name of a file has an extension: a dot stands in it, and not only at its start. The names of
/// a directory itself and of the one above it have none.
pub open spec fn names_extension(name: Seq<char>) -> bool {
    let file = without_drive(name);
    &&& file != ".."@
    &&& exists|i: int| 0 < i < file.len() && #[trigger] file[i] == '.'
}

/// Has the name of a command, on Windows and without a path before it, an extension?
pub fn has_extension(name: &str) -> (has: bool)
    ensures
        has == names_extension(name@),
{
    proof {
        reveal_strlit("..");
    }
    let chars = chars_of(name);
    let letter = chars.len() >= 2 && chars[1] == ':' && (('a' <= chars[0] && chars[0] <= 'z') || (
    'A' <= chars[0] && chars[0] <= 'Z'));
    let start: usize = if letter {
        2
    } else {
        0
    };
    let ghost file = without_drive(name@);
    assert(file =~= name@.skip(start as int));
    if chars.len() - start == 2 && chars[start] == '.' && chars[start + 1] == '.' {
        assert(file =~= ".."@);
        return false;
    }
    assert(file != ".."@) by {
        if file == ".."@ {
            assert(file[0] == '.' && file[1] == '.');
        }
    }
    if start == chars.len() {
        return false;
    }
    let mut i: usize = start + 1;
    while i < chars.len()
        invariant
            start < i <= chars@.len(),
            chars@ == name@,
            file == name@.skip(start as int),
            file != ".."@,
            file == without_drive(name@),
            forall|j: int| 0 < j < i - start ==> #[trigger] file[j] != '.',
        decreases chars.len() - i,
    {
        if chars[i] == '.' {
            assert(file[i - start] == '.');
            return true;
        }
        i += 1;
    }
    false
}

/// The file names that a command can have: itself, and without an extension of its own also with
/// each of the usual ones.
pub open spec fn file_names(command: Seq<char>, pathext: Seq<char>) -> Seq<Seq<char>> {
    seq![command] + (if names_extension(command) {
        Seq::empty()
    } else {
        extensions_of(pieces(pathext, ';')).map_values(|ext: Seq<char>| command + ext)
    })
}

/// The usual extensions of executable files.
pub open spec fn pathext_or_default(pathext: Option<String>) -> Seq<char> {
    match pathext {
        Some(p) => p@,
        None => ".COM;.EXE;.BAT;.CMD"@,
    }
}

/// The file names that a command can have. `pathext` is what the environment says of the usual
/// extensions.
pub fn executable_names(command: &str, pathext: &Option<String>) -> (names: Vec<String>)
    ensures
        views(names@) == file_names(command@, pathext_or_default(*pathext)),
{
    let mut names: Vec<String> = Vec::new();
    names.push(command.to_owned());
    assert(views(names@) =~= seq![command@]);
    if has_extension(command) {
        assert(views(names@) =~= file_names(command@, pathext_or_default(*pathext)));
        return names;
    }
    let extensions = match pathext {
        Some(p) => split_on(p.as_str(), ';'),
        None => split_on(".COM;.EXE;.BAT;.CMD", ';'),
    };
    let ghost parts = views(extensions@);
    let mut i: usize = 0;
    assert(extensions_of(parts.take(0)).map_values(|ext: Seq<char>| command@ + ext) =~= Seq::<
        Seq<char>,
    >::empty());
    while i < extensions.len()
        invariant
            i <= extensions@.len(),
            parts == views(extensions@),
            views(names@) == seq![command@] + extensions_of(parts.take(i as int)).map_values(
                |ext: Seq<char>| command@ + ext,
            ),
        decreases extensions.len() - i,
    {
        let ghost now = parts.take(i + 1);
        let ghost was = views(names@);
        assert(now.drop_last() =~= parts.take(i as int));
        let ext = trim(extensions[i].as_str());
        if !ext.as_str().is_empty() {
            names.push(concat2(command, ext.as_str()));
            assert(views(names@) =~= was.push(command@ + ext@));
        }
        assert(views(names@) =~= seq![command@] + extensions_of(now).map_values(
            |e: Seq<char>| command@ + e,
        ));
        i += 1;
    }
    assert(parts.take(i as int) =~= parts);
    names
}

/// Where a command is looked for: as it stands, or under a name in a directory of the search path,
/// which is given by its place there.
#[derive(Debug, Clone)]
pub enum ExecutableProbe {
    AsItStands,
    In { directory: usize, name: String },
}

/// The model of an [`ExecutableProbe`].
pub enum ExecutableProbeView {
    AsItStands,
    In { directory: int, name: Seq<char> },
}

impl View for ExecutableProbe {
    type V = ExecutableProbeView;

    open spec fn view(&self) -> ExecutableProbeView {
        match *self {
            ExecutableProbe::AsItStands => ExecutableProbeView::AsItStands,
            ExecutableProbe::In { directory, name } => ExecutableProbeView::In {
                directory: directory as int,
                name: name@,
            },
        }
    }
}

/// The models of probes.
pub open spec fn executable_probe_views(probes: Seq<ExecutableProbe>) -> Seq<ExecutableProbeView> {
    probes.map_values(|p: ExecutableProbe| p@)
}

/// All the names in one directory.
pub open spec fn names_in(directory: int, names: Seq<Seq<char>>) -> Seq<ExecutableProbeView> {
    names.map_values(|name: Seq<char>| ExecutableProbeView::In { directory, name })
}

/// All the names in each of the first directories, a directory after the other.
pub open spec fn names_in_all(directories: int, names: Seq<Seq<char>>) -> Seq<ExecutableProbeView>
    decreases directories,
{
    if directories <= 0 {
        Seq::empty()
    } else {
        names_in_all(directories - 1, names) + names_in(directories - 1, names)
    }
}

/// How a command is looked for on a search path of this many directories.
pub open spec fn executable_probes(
    command: Seq<char>,
    directories: int,
    pathext: Seq<char>,
) -> Seq<ExecutableProbeView> {
    if looks_like_path(command) {
        seq![ExecutableProbeView::AsItStands]
    } else {
        names_in_all(directories, file_names(command, pathext))
    }
}

fn push_names(probes: &mut Vec<ExecutableProbe>, directory: usize, names: &Vec<String>)
    ensures
        executable_probe_views(final(probes)@) == executable_probe_views(old(probes)@) + names_in(
            directory as int,
            views(names@),
        ),
{
    let ghost was = executable_probe_views(probes@);
    let ghost all = names_in(directory as int, views(names@));
    let mut i: usize = 0;
    assert(was + all.take(0) =~= was);
    while i < names.len()
        invariant
            i <= names@.len(),
            all == names_in(directory as int, views(names@)),
            executable_probe_views(probes@) == was + all.take(i as int),
        decreases names.len() - i,
    {
        let ghost before = executable_probe_views(probes@);
        let probe = ExecutableProbe::In { directory, name: names[i].clone() };
        let ghost seen = probe@;
        probes.push(probe);
        assert(executable_probe_views(probes@) =~= before.push(seen));
        assert(was + all.take(i as int + 1) =~= (was + all.take(i as int)).push(all[i as int]));
        i += 1;
    }
    assert(all.take(i as int) =~= all);
}

/// How a command is looked for on a search path of this many directories.
pub fn plan_executable(command: &str, directories: usize, pathext: &Option<String>) -> (probes: Vec<
    ExecutableProbe,
>)
    ensures
        executable_probe_views(probes@) == executable_probes(
            command@,
            directories as int,
            pathext_or_default(*pathext),
        ),
{
    let mut probes: Vec<ExecutableProbe> = Vec::new();
    if is_path(command) {
        probes.push(ExecutableProbe::AsItStands);
        assert(executable_probe_views(probes@) =~= seq![ExecutableProbeView::AsItStands]);
        return probes;
    }
    let names = executable_names(command, pathext);
    assert(executable_probe_views(probes@) =~= Seq::<ExecutableProbeView>::empty());
    let mut i: usize = 0;
    while i < directories
        invariant
            i <= directories,
            executable_probe_views(probes@) == names_in_all(i as int, views(names@)),
        decreases directories - i,
    {
        push_names(&mut probes, i, &names);
        i += 1;
    }
    probes
}

/// What a command resolves to: the first probe that found something leads to the command as it
/// stands, or to the file that was found in a directory.
pub open spec fn executable_found(
    command: Seq<char>,
    probes: Seq<ExecutableProbeView>,
    answers: Seq<Option<Seq<char>>>,
) -> Option<Seq<char>> {
    let n = misses(answers) as int;
    if n < answers.len() && n < probes.len() {
        Some(
            match probes[n] {
                ExecutableProbeView::AsItStands => command,
                ExecutableProbeView::In { .. } => answers[n]->0,
            },
        )
    } else {
        None
    }
}

/// Resolves a command on a search path of this many directories, with the answers to its probes in
/// their order.
pub fn resolve_executable_from_path(
    command: &str,
    directories: usize,
    pathext: &Option<String>,
    answers: &Vec<Option<String>>,
) -> (found: Option<String>)
    ensures
        opt_view(found) == executable_found(
            command@,
            executable_probes(command@, directories as int, pathext_or_default(*pathext)),
            answer_views(answers@),
        ),
{
    let probes = plan_executable(command, directories, pathext);
    match first_find(answers) {
        Some(i) => {
            if i >= probes.len() {
                return None;
            }
            assert(answer_views(answers@)[i as int] == opt_view(answers@[i as int]));
            assert(executable_probe_views(probes@)[i as int] == probes@[i as int]@);
            match (&probes[i], &answers[i]) {
                (ExecutableProbe::AsItStands, _) => Some(command.to_owned()),
                (ExecutableProbe::In { .. }, Some(path)) => Some(path.clone()),
                (ExecutableProbe::In { .. }, None) => None,
            }
        },
        None => None,
    }
}

// ---------------------------------------------------------------------------------------------
// Defaults and the command line
// ---------------------------------------------------------------------------------------------

/// The shell of a terminal that names none: what the environment says, else one that every system
/// of the kind has. `variable` is `COMSPEC` on Windows and `SHELL` elsewhere.
pub open spec fn default_shell(os: Os, variable: Option<String>) -> Seq<char> {
    match variable {
        Some(shell) => shell@,
        None => if os is Windows {
            "cmd.exe"@
        } else {
            "/bin/sh"@
        },
    }
}

/// The shell of a terminal that names none.
pub fn get_default_shell(os: Os, variable: Option<String>) -> (shell: String)
    ensures
        shell@ == default_shell(os, variable),
{
    match variable {
        Some(shell) => shell,
        None => match os {
            Os::Windows => text("cmd.exe"),
            _ => text("/bin/sh"),
        },
    }
}

/// The directory of a terminal that names none: the home of the user. `profile` is `USERPROFILE`
/// and matters on Windows alone.
pub open spec fn home_directory(
    os: Os,
    profile: Option<String>,
    home: Option<String>,
) -> Seq<char> {
    if os is Windows && profile is Some {
        profile->0@
    } else if home is Some {
        home->0@
    } else if os is Windows {
        "C:\\"@
    } else {
        "/tmp"@
    }
}

/// The directory of a terminal that names none.
pub fn get_home_directory(os: Os, profile: Option<String>, home: Option<String>) -> (dir: String)
    ensures
        dir@ == home_directory(os, profile, home),
{
    match os {
        Os::Windows => match profile {
            Some(p) => p,
            None => match home {
                Some(h) => h,
                None => text("C:\\"),
            },
        },
        _ => match home {
            Some(h) => h,
            None => text("/tmp"),
        },
    }
}

/// The path names a PowerShell.
pub open spec fn is_powershell(shell: Seq<char>) -> bool {
    has_text(shell, "powershell"@) || has_text(shell, "pwsh"@)
}

/// The command line that starts a shell on Windows: a path with a space in it is quoted, and a
/// PowerShell is asked to leave out its banner.
pub open spec fn command_line(shell: Seq<char>) -> Seq<char> {
    let option = if is_powershell(shell) {
        "-NoLogo"@
    } else {
        ""@
    };
    if shell.contains(' ') {
        "\""@ + shell + "\" "@ + option
    } else if is_powershell(shell) {
        shell + " -NoLogo"@
    } else {
        shell
    }
}

/// The command line that starts a shell on Windows.
pub fn windows_command_line(shell: &str) -> (line: String)
    ensures
        line@ == command_line(shell@),
{
    let powershell = contains_text(shell, "powershell") || contains_text(shell, "pwsh");
    if contains_char(shell, ' ') {
        let quoted = concat3("\"", shell, "\" ");
        if powershell {
            concat2(quoted.as_str(), "-NoLogo")
        } else {
            concat2(quoted.as_str(), "")
        }
    } else if powershell {
        concat2(shell, " -NoLogo")
    } else {
        shell.to_owned()
    }
}

// ---------------------------------------------------------------------------------------------
// Laws
// ---------------------------------------------------------------------------------------------

/// A path that does not exist is no shell, and one that does is taken as it stands.
pub proof fn law_paths_are_taken_as_they_stand(os: Os, shell: Seq<char>, answer: Option<Seq<char>>)
    requires
        looks_like_path(shell),
    ensures
        shell_probes(os, shell) == seq![ProbeView::Exists(shell)],
        answer is Some ==> resolved_shell(os, shell, seq![answer]) == Ok::<Seq<char>, Seq<char>>(
            shell,
        ),
        answer is None ==> resolved_shell(os, shell, seq![answer]) == Err::<Seq<char>, Seq<char>>(
            "Shell not found: "@ + shell,
        ),
{
    reveal_strlit("git-bash");
    reveal_with_fuel(misses, 2);
    let answers = seq![answer];
    assert(answers[0] == answer);
    assert(answers.skip(1).len() == 0);
    if shell == "git-bash"@ {
        assert(!shell.contains('/') && !shell.contains('\\'));
    }
}

/// What a shell resolves to is what its first successful probe leads to; without one there is an
/// error.
pub proof fn law_first_probe_wins(
    os: Os,
    shell: Seq<char>,
    answers: Seq<Option<Seq<char>>>,
    i: int,
)
    requires
        answers.len() == shell_probes(os, shell).len(),
        0 <= i < answers.len(),
        answers[i] is Some,
        forall|j: int| 0 <= j < i ==> answers[j] is None,
    ensures
        resolved_shell(os, shell, answers) == Ok::<Seq<char>, Seq<char>>(
            find_of(shell_probes(os, shell)[i], answers[i]->0),
        ),
{
    crate::lookup::lemma_misses(answers);
    let n = misses(answers) as int;
    if n < i {
        assert(answers[n] is None);
    } else if i < n {
        assert(answers[i] is None);
    }
}

/// A command resolves to what its first successful probe leads to; where every probe fails, to
/// nothing.
pub proof fn law_first_executable_wins(
    command: Seq<char>,
    probes: Seq<ExecutableProbeView>,
    answers: Seq<Option<Seq<char>>>,
    i: int,
)
    requires
        answers.len() == probes.len(),
        0 <= i <= answers.len(),
        i < answers.len() ==> answers[i] is Some,
        forall|j: int| 0 <= j < i ==> answers[j] is None,
    ensures
        executable_found(command, probes, answers) == if i == answers.len() {
            None
        } else if probes[i] is AsItStands {
            Some(command)
        } else {
            answers[i]
        },
{
    crate::lookup::lemma_misses(answers);
    let n = misses(answers) as int;
    if n < i {
        assert(answers[n] is None);
    } else if i < n {
        assert(answers[i] is None);
    }
}

/// Where every probe fails, the shell is not found.
pub proof fn law_all_probes_fail(os: Os, shell: Seq<char>, answers: Seq<Option<Seq<char>>>)
    requires
        forall|j: int| 0 <= j < answers.len() ==> answers[j] is None,
    ensures
        resolved_shell(os, shell, answers) == Err::<Seq<char>, Seq<char>>(not_found(os, shell)),
{
    crate::lookup::lemma_misses(answers);
}

/// A path that does not exist stands for no program, whatever the search path holds; one that does
/// stands for itself.
pub proof fn law_program_of_a_path(name: Seq<char>, on_path: Option<Seq<char>>)
    requires
        looks_like_path(name),
    ensures
        program_of(name, false, on_path) is None,
        program_of(name, true, on_path) == Some(name),
{
}

}
