use termul::platform::Os;
use termul::pty::env::{
    has_windows_env_var, merge_environment, merge_windows_environment_map, upsert_windows_env_var,
    Environment,
};
use termul::pty::shell::{
    executable_names, get_default_shell, get_home_directory, git_bash_fallback_paths,
    git_bash_primary_paths, has_extension, is_builtin_windows_shell, needs_path_search,
    plan_executable, plan_shell, resolve_executable_from_path, resolve_shell_path,
    resolve_shell_path_uncached, windows_command_line, ExecutableProbe, Probe, ShellCache,
};

fn var(name: &str, value: &str) -> (String, String) {
    (name.to_string(), value.to_string())
}

#[test]
fn test_git_bash_candidates_match_detection() {
    let primary = git_bash_primary_paths();
    assert!(!primary.is_empty());
    for path in &primary {
        assert!(
            path.contains("bash.exe"),
            "Primary path should contain bash.exe: {}",
            path
        );
    }
    let fallback = git_bash_fallback_paths();
    assert!(!fallback.is_empty());
    for path in &fallback {
        assert!(
            path.contains("bash.exe"),
            "Fallback path should contain bash.exe: {}",
            path
        );
    }
    assert!(primary.iter().any(|p| p == r"C:\Program Files\Git\bin\bash.exe"));
    assert!(primary.iter().any(|p| p == r"C:\Program Files\Git\usr\bin\bash.exe"));
}

#[test]
fn test_git_bash_fallback_paths_included() {
    let fallback_paths = vec![
        r"C:\tools\msys64\usr\bin\bash.exe",
        r"C:\msys64\usr\bin\bash.exe",
        r"C:\Git\bin\bash.exe",
        r"C:\Git\usr\bin\bash.exe",
    ];
    let known = git_bash_fallback_paths();
    for path in fallback_paths {
        assert!(path.contains("bash.exe"));
        assert!(known.iter().any(|k| k == path));
    }
}

#[test]
fn test_shell_resolution_git_bash_alias_recognized() {
    let git_bash = "git-bash";
    let bash = "bash";
    assert_ne!(git_bash, bash);
    assert!(git_bash.contains("bash"));
    // The alias stands for bash.exe, and the two names are looked for in different ways.
    let alias = plan_shell(Os::Windows, git_bash);
    assert!(matches!(&alias[0], Probe::Program(name) if name == "bash.exe"));
    assert_eq!(alias.len(), 7);
    let plain = plan_shell(Os::Windows, bash);
    assert!(matches!(&plain[0], Probe::Program(name) if name == "bash.exe"));
    assert!(matches!(&plain[1], Probe::Program(name) if name == "bash"));
    assert_eq!(plain.len(), 8);
}

#[test]
fn test_shell_resolution_error_message_git_bash() {
    let shell = "git-bash";
    let expected_error_substring = "bash.exe not found in PATH or common Git Bash locations";
    assert!(expected_error_substring.contains("bash.exe"));
    assert!(expected_error_substring.contains("PATH"));
    let nothing = vec![None; 7];
    let error = resolve_shell_path(Os::Windows, shell, &nothing).unwrap_err();
    assert_eq!(error, format!("Shell not found: {} - {}", shell, expected_error_substring));
}

#[test]
fn test_is_builtin_windows_shell() {
    assert!(is_builtin_windows_shell("cmd"));
    assert!(is_builtin_windows_shell("CMD.EXE"));
    assert!(is_builtin_windows_shell("powershell"));
    assert!(is_builtin_windows_shell("pwsh"));
    assert!(is_builtin_windows_shell("wsl"));
    assert!(!is_builtin_windows_shell("bash.exe"));
    assert!(!is_builtin_windows_shell("git-bash"));
}

#[test]
fn test_windows_env_merge_preserves_existing_path_case_insensitively() {
    let env_map = merge_windows_environment_map(
        &vec![var("Path", r"C:\laragon\bin\nodejs")],
        &None,
        None,
        None,
    );
    let pairs = env_map.pairs();
    let path_keys: Vec<&String> = pairs
        .iter()
        .map(|(key, _)| key)
        .filter(|key| key.eq_ignore_ascii_case("path"))
        .collect();
    assert_eq!(path_keys.len(), 1);
    assert_eq!(
        pairs
            .iter()
            .find(|(key, _)| key.eq_ignore_ascii_case("path"))
            .map(|(_, value)| value.as_str()),
        Some(r"C:\laragon\bin\nodejs")
    );
}

#[test]
fn test_windows_env_merge_overrides_path_case_insensitively() {
    let custom_env = vec![var("PATH", r"C:\custom\node")];
    let env_map = merge_windows_environment_map(
        &vec![var("Path", r"C:\laragon\bin\nodejs")],
        &Some(custom_env),
        None,
        None,
    );
    let pairs = env_map.pairs();
    let path_keys: Vec<&String> = pairs
        .iter()
        .map(|(key, _)| key)
        .filter(|key| key.eq_ignore_ascii_case("path"))
        .collect();
    assert_eq!(path_keys.len(), 1);
    assert_eq!(
        pairs
            .iter()
            .find(|(key, _)| key.eq_ignore_ascii_case("path"))
            .map(|(_, value)| value.as_str()),
        Some(r"C:\custom\node")
    );
}

#[test]
fn windows_environment_has_its_defaults() {
    let env = merge_windows_environment_map(&vec![], &None, None, None);
    assert_eq!(env.value_of("path"), Some("".to_string()));
    assert_eq!(env.value_of("pathext"), Some(".COM;.EXE;.BAT;.CMD".to_string()));
    let own = merge_windows_environment_map(
        &vec![],
        &None,
        Some("C:\\bin".to_string()),
        Some(".EXE".to_string()),
    );
    assert_eq!(own.value_of("PATH"), Some("C:\\bin".to_string()));
    assert_eq!(own.value_of("PATHEXT"), Some(".EXE".to_string()));
    let mut names: Vec<String> = own.pairs().into_iter().map(|(k, _)| k).collect();
    names.sort();
    assert_eq!(names, vec!["PATHEXT".to_string(), "Path".to_string()]);
}

#[test]
fn upsert_takes_the_place_of_a_name_in_another_case() {
    let mut env = Environment::new(Os::Windows);
    assert!(!has_windows_env_var(&env, "Foo"));
    upsert_windows_env_var(&mut env, "Foo", "1".to_string());
    upsert_windows_env_var(&mut env, "FOO", "2".to_string());
    assert!(has_windows_env_var(&env, "foo"));
    assert_eq!(env.pairs(), vec![var("FOO", "2")]);
    let mut unix = Environment::new(Os::Linux);
    unix.upsert("Foo", "1".to_string());
    unix.upsert("FOO", "2".to_string());
    assert_eq!(unix.pairs().len(), 2);
}

#[test]
fn unix_environment_tells_case_apart() {
    let env = merge_environment(
        Os::Linux,
        &vec![var("A", "1"), var("B", "2")],
        &Some(vec![var("a", "3"), var("B", "4")]),
        None,
        None,
    );
    assert_eq!(env.value_of("A"), Some("1".to_string()));
    assert_eq!(env.value_of("a"), Some("3".to_string()));
    assert_eq!(env.value_of("B"), Some("4".to_string()));
    assert_eq!(env.value_of("PATH"), Some("/usr/bin:/bin".to_string()));
    assert_eq!(env.value_of("C"), None);
    let kept = merge_environment(Os::MacOs, &vec![var("PATH", "/x")], &None, None, None);
    assert_eq!(kept.value_of("PATH"), Some("/x".to_string()));
}

#[test]
fn unix_shells_are_looked_for_in_order() {
    let probes = plan_shell(Os::Linux, "zsh");
    let paths: Vec<String> = probes
        .into_iter()
        .map(|p| match p {
            Probe::Exists(path) => path,
            Probe::Program(_) => panic!("no programs here"),
        })
        .collect();
    assert_eq!(paths, vec!["/bin/zsh", "/usr/bin/zsh", "/usr/local/bin/zsh"]);
    let second = vec![None, Some("ignored".to_string()), Some("late".to_string())];
    assert_eq!(resolve_shell_path(Os::Linux, "zsh", &second), Ok("/usr/bin/zsh".to_string()));
    let none = vec![None, None, None];
    assert_eq!(
        resolve_shell_path(Os::Linux, "zsh", &none),
        Err("Shell not found: zsh".to_string())
    );
    // The alias means nothing outside Windows.
    assert_eq!(
        resolve_shell_path(Os::Linux, "git-bash", &none),
        Err("Shell not found: git-bash".to_string())
    );
}

#[test]
fn paths_are_taken_as_they_stand() {
    let yes = vec![Some("whatever".to_string())];
    let no = vec![None];
    assert_eq!(resolve_shell_path(Os::Linux, "/opt/fish", &yes), Ok("/opt/fish".to_string()));
    assert_eq!(
        resolve_shell_path(Os::Linux, "/opt/fish", &no),
        Err("Shell not found: /opt/fish".to_string())
    );
    assert_eq!(
        resolve_shell_path(Os::Windows, "C:\\x.exe", &yes),
        Ok("C:\\x.exe".to_string())
    );
}

#[test]
fn powershells_have_known_places() {
    let names = |shell: &str| -> Vec<String> {
        plan_shell(Os::Windows, shell)
            .into_iter()
            .map(|p| match p {
                Probe::Exists(path) => path,
                Probe::Program(name) => name,
            })
            .collect()
    };
    assert_eq!(
        names("pwsh"),
        vec![
            r"C:\Program Files\PowerShell\7\pwsh.exe",
            r"C:\Program Files\PowerShell\6\pwsh.exe",
            "pwsh.exe",
            "pwsh.exe",
            "pwsh",
        ]
    );
    assert_eq!(
        names("powershell"),
        vec![
            r"C:\Windows\System32\WindowsPowerShell\v1.0\powershell.exe",
            "powershell.exe",
            "powershell.exe",
            "powershell",
        ]
    );
    assert_eq!(names("nu"), vec!["nu.exe", "nu"]);
    let answers = vec![None, Some(r"D:\pwsh.exe".to_string())];
    assert_eq!(
        resolve_shell_path(Os::Windows, "pwsh", &answers),
        Ok(r"D:\pwsh.exe".to_string())
    );
}

#[test]
fn programs_on_windows() {
    assert_eq!(
        resolve_shell_path_uncached("C:\\a.exe", true, None),
        Some("C:\\a.exe".to_string())
    );
    assert_eq!(
        resolve_shell_path_uncached("C:\\a.exe", false, Some("D:\\a.exe".to_string())),
        None
    );
    assert_eq!(resolve_shell_path_uncached("cmd.exe", false, None), Some("cmd.exe".to_string()));
    assert_eq!(
        resolve_shell_path_uncached("nu", false, Some("D:\\nu.exe".to_string())),
        Some("D:\\nu.exe".to_string())
    );
    assert_eq!(resolve_shell_path_uncached("nu", false, None), None);
    assert!(needs_path_search("nu"));
    assert!(!needs_path_search("wsl"));
    assert!(!needs_path_search("a/b"));
}

#[test]
fn what_a_name_stood_for_first_stays() {
    let mut cache = ShellCache::new();
    assert!(!cache.knows("nu"));
    assert_eq!(cache.get_absolute_shell_path("nu", None), None);
    assert!(cache.knows("nu"));
    assert_eq!(cache.get_absolute_shell_path("nu", Some("late".to_string())), None);
    assert_eq!(
        cache.get_absolute_shell_path("fish", Some("F".to_string())),
        Some("F".to_string())
    );
    assert_eq!(cache.get_absolute_shell_path("fish", None), Some("F".to_string()));
}

#[test]
fn executables_are_tried_with_extensions() {
    assert_eq!(
        executable_names("nu", &None),
        vec!["nu", "nu.COM", "nu.EXE", "nu.BAT", "nu.CMD"]
    );
    assert_eq!(
        executable_names("nu", &Some(" .EXE ; ;;.PS1".to_string())),
        vec!["nu", "nu.EXE", "nu.PS1"]
    );
    assert_eq!(executable_names("nu.exe", &None), vec!["nu.exe"]);
    let probes = plan_executable("nu", 2, &Some(".EXE".to_string()));
    let seen: Vec<(usize, String)> = probes
        .into_iter()
        .map(|p| match p {
            ExecutableProbe::In { directory, name } => (directory, name),
            ExecutableProbe::AsItStands => panic!("a name"),
        })
        .collect();
    assert_eq!(
        seen,
        vec![
            (0, "nu".to_string()),
            (0, "nu.EXE".to_string()),
            (1, "nu".to_string()),
            (1, "nu.EXE".to_string()),
        ]
    );
    let path = plan_executable("a\\b", 9, &None);
    assert_eq!(path.len(), 1);
    assert!(matches!(path[0], ExecutableProbe::AsItStands));
    assert!(plan_executable("nu", 0, &None).is_empty());
}

#[test]
fn the_first_executable_found_is_taken() {
    let exe = Some(".EXE".to_string());
    let found = |path: &str| Some(path.to_string());
    // `nu` and `nu.EXE` in one directory, then in the other.
    let second = vec![None, None, found("D:\\nu"), found("D:\\nu.EXE")];
    assert_eq!(resolve_executable_from_path("nu", 2, &exe, &second), found("D:\\nu"));
    let early = vec![None, found("C:\\nu.EXE")];
    assert_eq!(resolve_executable_from_path("nu", 2, &exe, &early), found("C:\\nu.EXE"));
    let none = vec![None, None, None, None];
    assert_eq!(resolve_executable_from_path("nu", 2, &exe, &none), None);
    assert_eq!(resolve_executable_from_path("nu", 0, &exe, &vec![]), None);
    // An answer that belongs to no probe counts for nothing.
    let late = vec![None, None, found("E:\\nu.exe")];
    assert_eq!(resolve_executable_from_path("nu.exe", 2, &exe, &late), None);
    let as_it_stands = vec![found("a\\b")];
    assert_eq!(resolve_executable_from_path("a\\b", 9, &None, &as_it_stands), found("a\\b"));
    assert_eq!(resolve_executable_from_path("a\\b", 9, &None, &vec![None]), None);
}

#[test]
fn names_with_an_extension() {
    for name in ["", ".", "..", "...", "nu", "nu.", "nu.exe", ".bashrc", ".a.b", "a..b", "..a", "a b"]
    {
        assert_eq!(has_extension(name), std::path::Path::new(name).extension().is_some(), "{name}");
    }
    assert!(has_extension("nu."));
    assert!(!has_extension(".bashrc"));
    // A drive is no part of the name.
    assert!(has_extension("C:nu.exe"));
    assert!(!has_extension("C:.exe"));
    assert!(!has_extension("C:nu"));
}

#[test]
fn defaults_of_the_systems() {
    assert_eq!(get_default_shell(Os::Windows, None), "cmd.exe");
    assert_eq!(get_default_shell(Os::Linux, None), "/bin/sh");
    assert_eq!(get_default_shell(Os::Linux, Some("/bin/zsh".to_string())), "/bin/zsh");
    let some = |s: &str| Some(s.to_string());
    assert_eq!(get_home_directory(Os::Windows, some("P"), some("H")), "P");
    assert_eq!(get_home_directory(Os::Windows, None, some("H")), "H");
    assert_eq!(get_home_directory(Os::Windows, None, None), "C:\\");
    assert_eq!(get_home_directory(Os::Linux, some("P"), some("H")), "H");
    assert_eq!(get_home_directory(Os::Linux, some("P"), None), "/tmp");
}

#[test]
fn command_lines_on_windows() {
    assert_eq!(windows_command_line("cmd.exe"), "cmd.exe");
    assert_eq!(windows_command_line("pwsh.exe"), "pwsh.exe -NoLogo");
    assert_eq!(
        windows_command_line("C:\\Program Files\\Git\\bin\\bash.exe"),
        "\"C:\\Program Files\\Git\\bin\\bash.exe\" "
    );
    assert_eq!(
        windows_command_line("C:\\Program Files\\PowerShell\\7\\pwsh.exe"),
        "\"C:\\Program Files\\PowerShell\\7\\pwsh.exe\" -NoLogo"
    );
}
