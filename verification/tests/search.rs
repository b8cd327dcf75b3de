use termul::json::JsonField;
use termul::lookup::first_find;
use termul::platform::{Arch, Os};
use termul::search::args::{build_search_args, is_ignored_name};
use termul::search::commands::{
    begin_search_content, search_content, search_content_cancel, search_content_stream,
    search_get_rg_info, stream_not_started, stream_without_output, Begun, RgRun, RunningSearches,
};
use termul::search::content::{group_output, Absorbed, ContentStream, Grouping};
use termul::search::files::{search_file_names, DirEntry, FileNameSearch, FileNameStep};
use termul::search::hits::{hit_of_fields, hit_of_line, Hit};
use termul::search::rg::{
    detect_rg_path, resolve_rg_path, rg_plan, rg_sidecar_name, RgBase, RgPlan, RgSetting,
};
use termul::search::{
    FileSearchMatch, SearchContentCancelRequest, SearchContentRequest, SearchContentStreamRequest,
    SearchFileNamesRequest,
};

fn line(path: &str, number: usize, text: &str) -> String {
    format!(
        "{{\"type\":\"match\",\"data\":{{\"path\":{{\"text\":\"{path}\"}},\"lines\":{{\"text\":\"{text}\"}},\"line_number\":{number}}}}}"
    )
}

fn hit(path: &str, number: usize) -> Hit {
    Hit {
        file_path: path.to_string(),
        found: FileSearchMatch { line_number: number, line_text: "t".to_string() },
    }
}

#[test]
fn ripgrep_is_called_with_these_arguments() {
    let args = build_search_args("--pre", "/root", 30);
    assert_eq!(
        &args[..8],
        &["--json", "-F", "-i", "-n", "--max-filesize", "1M", "--max-count", "30"]
    );
    assert_eq!(args[8], "-g");
    assert_eq!(args[9], "!**/node_modules/**");
    assert_eq!(args[39], "!**/.nyc_output/**");
    assert_eq!(&args[40..], &["-g", "!**/.env", "--", "--pre", "/root"]);
    assert_eq!(args.len(), 45);
}

#[test]
fn ignored_names_are_exact() {
    assert!(is_ignored_name(".git"));
    assert!(is_ignored_name("coverage"));
    assert!(!is_ignored_name("Coverage"));
    assert!(!is_ignored_name("git"));
}

#[test]
fn hits_are_read_from_lines() {
    let found = hit_of_line(&line("src\\\\a.rs", 3, "let x;\\r\\n")).unwrap();
    assert_eq!(found.file_path, "src/a.rs");
    assert_eq!(found.found.line_number, 3);
    assert_eq!(found.found.line_text, "let x;");
    assert!(hit_of_line("no json").is_none());
    assert!(hit_of_line("{\"type\":\"begin\"}").is_none());
    assert!(hit_of_line("{\"type\":\"match\"}").is_none());
    assert!(hit_of_line("[1]").is_none());
    // Without a text the line counts as empty; with a negative number there is no hit.
    let bare = "{\"type\":\"match\",\"data\":{\"path\":{\"text\":\"a\"},\"line_number\":1}}";
    assert_eq!(hit_of_line(bare).unwrap().found.line_text, "");
    let odd = "{\"type\":\"match\",\"data\":{\"path\":{\"text\":\"a\"},\"line_number\":-1}}";
    assert!(hit_of_line(odd).is_none());
    let bytes = "{\"type\":\"match\",\"data\":{\"path\":{\"bytes\":\"YQ==\"},\"line_number\":1}}";
    assert!(hit_of_line(bytes).is_none());
}

#[test]
fn hits_of_given_fields() {
    let kind = || JsonField::Text("match".to_string());
    let path = || JsonField::Text("a".to_string());
    let number = || JsonField::Number(Some(9));
    assert!(hit_of_fields(kind(), path(), number(), JsonField::Absent).is_some());
    assert!(hit_of_fields(JsonField::Text("end".to_string()), path(), number(), JsonField::Null).is_none());
    assert!(hit_of_fields(kind(), JsonField::Object, number(), JsonField::Null).is_none());
    assert!(hit_of_fields(kind(), path(), JsonField::Number(None), JsonField::Null).is_none());
    assert!(hit_of_fields(kind(), path(), JsonField::Bool(true), JsonField::Array).is_none());
}

#[test]
fn output_is_grouped_by_file() {
    let output = format!(
        "{}\nnoise\n{}\n{}\n",
        line("b.rs", 2, "two"),
        line("a.rs", 1, "one"),
        line("b.rs", 5, "five")
    );
    let response = group_output(&output);
    assert!(!response.truncated);
    assert_eq!(response.results.len(), 2);
    assert_eq!(response.results[0].file_path, "a.rs");
    assert_eq!(response.results[1].file_path, "b.rs");
    let numbers: Vec<usize> =
        response.results[1].matches.iter().map(|m| m.line_number).collect();
    assert_eq!(numbers, vec![2, 5]);
    assert_eq!(response.scanned_files, 0);
    assert_eq!(response.failed_files, 0);
}

#[test]
fn a_file_has_thirty_matches_at_most() {
    let mut grouping = Grouping::new();
    for i in 0..30 {
        assert_eq!(grouping.absorb(hit("a", i)), Absorbed::Kept);
    }
    assert!(!grouping.is_truncated());
    assert_eq!(grouping.absorb(hit("a", 30)), Absorbed::LeftOut);
    assert!(grouping.is_truncated());
    assert!(!grouping.is_full());
    assert_eq!(grouping.absorb(hit("b", 1)), Absorbed::Kept);
    let response = grouping.into_response();
    assert_eq!(response.results[0].matches.len(), 30);
    assert!(response.truncated);
}

#[test]
fn a_search_has_a_hundred_files_at_most() {
    let mut grouping = Grouping::new();
    for i in 0..100 {
        assert_eq!(grouping.absorb(hit(&format!("f{i}"), 1)), Absorbed::Kept);
    }
    assert!(!grouping.is_full());
    assert_eq!(grouping.absorb(hit("g", 1)), Absorbed::TooManyFiles);
    assert!(grouping.is_full());
    assert_eq!(grouping.absorb(hit("f1", 2)), Absorbed::TooManyFiles);
    let response = grouping.into_response();
    assert_eq!(response.results.len(), 100);
    assert!(response.truncated);
    assert_eq!(response.results[0].file_path, "f0");
    assert_eq!(response.results[2].file_path, "f10");
}

#[test]
fn batches_hold_twenty_five_matches() {
    let mut stream = ContentStream::new("s");
    for i in 0..24 {
        assert!(stream.accept_line(&line("a", i, "x")).is_none());
    }
    assert!(stream.accept_line("noise").is_none());
    let batch = stream.accept_line(&line("b", 1, "x")).unwrap();
    assert_eq!(batch.search_id, "s");
    assert!(!batch.truncated);
    assert_eq!(batch.results.len(), 2);
    assert_eq!(batch.results[0].matches.len(), 24);
    for i in 24..31 {
        assert!(stream.accept_hit(hit("a", i)).is_none());
    }
    let (last, done) = stream.finish();
    let last = last.unwrap();
    // Thirty matches of a file are reported: the one behind them is left out.
    assert_eq!(last.results[0].matches.len(), 6);
    assert!(last.truncated);
    assert!(done.truncated);
    assert!(done.error.is_none());
    assert_eq!(done.search_id, "s");
    let (none, quiet) = ContentStream::new("q").finish();
    assert!(none.is_none());
    assert!(!quiet.truncated);
}

#[test]
fn batches_end_with_too_many_files() {
    let mut stream = ContentStream::new("s");
    let mut reported = 0;
    for i in 0..101 {
        if let Some(batch) = stream.accept_hit(hit(&format!("f{i}"), 1)) {
            reported += batch.results.len();
        }
    }
    assert!(stream.is_full());
    assert_eq!(reported, 100);
    let (last, done) = stream.finish();
    assert!(last.is_none());
    assert!(done.truncated);
}

fn content_request(query: &str) -> SearchContentRequest {
    SearchContentRequest { root_path: "/r".to_string(), query: query.to_string() }
}

#[test]
fn content_searches_begin() {
    match begin_search_content(&content_request("  \t")) {
        Begun::Answer(a) => {
            let response = a.data.unwrap();
            assert!(response.results.is_empty() && !response.truncated);
        }
        Begun::Run(_) => panic!("nothing to look for"),
    }
    match begin_search_content(&content_request(" x y ")) {
        Begun::Run(args) => assert_eq!(args, build_search_args("x y", "/r", 30)),
        Begun::Answer(_) => panic!("not run"),
    }
}

#[test]
fn content_searches_end() {
    let not_started = RgRun::NotStarted { reason: "no such file".to_string() };
    let a = search_content("/bin/rg", &not_started);
    assert_eq!(a.error.as_deref(), Some("rg spawn failed (path: /bin/rg): no such file"));
    assert_eq!(a.code.as_deref(), Some("SEARCH_ERROR"));
    let ended = |code: Option<i32>| RgRun::Ended {
        code,
        stdout: line("a", 1, "x").into_bytes(),
        stderr: vec![98, 97, 100, 255],
    };
    let bad = search_content("rg", &ended(Some(2)));
    assert_eq!(bad.error.as_deref(), Some("rg failed (2): bad\u{fffd}"));
    assert_eq!(bad.code.as_deref(), Some("SEARCH_ERROR"));
    for code in [Some(0), Some(1), Some(-1), None] {
        let good = search_content("rg", &ended(code));
        assert!(good.success);
        assert_eq!(good.data.unwrap().results[0].file_path, "a");
    }
}

#[test]
fn streamed_searches_begin_and_fail() {
    let request = |query: &str| SearchContentStreamRequest {
        root_path: "/r".to_string(),
        query: query.to_string(),
        search_id: "id".to_string(),
    };
    match search_content_stream(&request("")) {
        Begun::Answer(done) => {
            assert_eq!(done.search_id, "id");
            assert!(done.error.is_none());
            assert_eq!(done.failed_files, 0);
        }
        Begun::Run(_) => panic!("nothing to look for"),
    }
    assert!(matches!(search_content_stream(&request("q")), Begun::Run(_)));
    let done = stream_not_started("id", "rg", "denied");
    assert_eq!(done.error.as_deref(), Some("rg spawn failed (path: rg): denied"));
    assert_eq!(done.failed_files, 0);
    let done = stream_without_output("id");
    assert_eq!(done.error.as_deref(), Some("failed to capture rg stdout"));
    assert_eq!(done.failed_files, 1);
}

#[test]
fn searches_are_cancelled() {
    let mut running = RunningSearches::new();
    running.start("a");
    running.start("a");
    let request = |id: &str| SearchContentCancelRequest { search_id: id.to_string() };
    let (kill, answer) = search_content_cancel(&mut running, &request("a"));
    assert!(kill && answer.success);
    let (kill, answer) = search_content_cancel(&mut running, &request("a"));
    assert!(!kill && answer.success);
    running.start("b");
    assert!(running.end("b"));
    assert!(!running.end("b"));
}

fn setting() -> RgSetting {
    RgSetting {
        env_path: None,
        env_path_is_absolute: false,
        has_working_directory: true,
        has_executable_directory: true,
        os: Os::Linux,
        arch: Arch::Other,
    }
}

fn places(plan: &RgPlan) -> Vec<(RgBase, String)> {
    plan.candidates.iter().map(|c| (c.base, c.parts.join("/"))).collect()
}

#[test]
fn ripgrep_is_looked_for() {
    let plan = rg_plan(&setting());
    let name = "rg-x86_64-unknown-linux-musl";
    assert_eq!(
        places(&plan),
        vec![
            (RgBase::WorkingDirectory, format!("src-tauri/bin/{name}")),
            (RgBase::WorkingDirectory, format!("bin/{name}")),
            (RgBase::ExecutableDirectory, name.to_string()),
            (RgBase::ExecutableDirectory, format!("../Resources/{name}")),
            (RgBase::ExecutableDirectory, format!("../lib/{name}")),
        ]
    );
    let some = |s: &str| Some(s.to_string());
    assert_eq!(
        resolve_rg_path(&plan, &vec![None, some("/b"), some("/c")]),
        ("/b".to_string(), "sidecar".to_string())
    );
    assert_eq!(
        resolve_rg_path(&plan, &vec![None, None, None, None, None]),
        ("rg".to_string(), "path".to_string())
    );
    let bare = RgSetting {
        has_working_directory: false,
        has_executable_directory: false,
        ..setting()
    };
    assert!(rg_plan(&bare).candidates.is_empty());
}

#[test]
fn the_environment_names_a_ripgrep() {
    let some = |s: &str| Some(s.to_string());
    let absolute = rg_plan(&RgSetting {
        env_path: some("/opt/rg"),
        env_path_is_absolute: true,
        ..setting()
    });
    assert!(absolute.candidates.is_empty());
    assert_eq!(
        resolve_rg_path(&absolute, &vec![]),
        ("/opt/rg".to_string(), "env".to_string())
    );
    let relative = rg_plan(&RgSetting { env_path: some("t/rg"), ..setting() });
    assert_eq!(
        places(&relative),
        vec![
            (RgBase::WorkingDirectory, "t/rg".to_string()),
            (RgBase::WorkingDirectory, "src-tauri/t/rg".to_string()),
        ]
    );
    assert_eq!(
        resolve_rg_path(&relative, &vec![None, some("/w/src-tauri/t/rg")]),
        ("/w/src-tauri/t/rg".to_string(), "env".to_string())
    );
    assert_eq!(
        resolve_rg_path(&relative, &vec![None, None]),
        ("t/rg".to_string(), "env".to_string())
    );
    let blank = rg_plan(&RgSetting { env_path: some("  "), ..setting() });
    assert_eq!(blank.source, "sidecar");
}

#[test]
fn ripgrep_is_looked_for_once() {
    let plan = rg_plan(&setting());
    let mut cache = None;
    assert_eq!(detect_rg_path(&mut cache, &plan, &vec![Some("/first".to_string())]), "/first");
    assert_eq!(cache.as_deref(), Some("/first"));
    assert_eq!(detect_rg_path(&mut cache, &plan, &vec![]), "/first");
}

#[test]
fn shipped_ripgreps() {
    assert_eq!(rg_sidecar_name(Os::Windows, Arch::Aarch64), "rg-x86_64-pc-windows-msvc.exe");
    assert_eq!(rg_sidecar_name(Os::MacOs, Arch::Aarch64), "rg-aarch64-apple-darwin");
    assert_eq!(rg_sidecar_name(Os::MacOs, Arch::Other), "rg-x86_64-apple-darwin");
    assert_eq!(rg_sidecar_name(Os::Linux, Arch::Aarch64), "rg-aarch64-unknown-linux-gnu");
    assert_eq!(rg_sidecar_name(Os::Linux, Arch::Arm), "rg-armv7-unknown-linux-gnueabihf");
    assert_eq!(rg_sidecar_name(Os::Other, Arch::Arm), "rg");
    let info = search_get_rg_info(
        Os::Linux,
        Arch::Other,
        "/x/rg".to_string(),
        "sidecar".to_string(),
        true,
    )
    .data
    .unwrap();
    assert_eq!(info.sidecar_binary_name, "rg-x86_64-unknown-linux-musl");
    assert_eq!(info.resolved_path, "/x/rg");
    assert_eq!(info.source, "sidecar");
    assert!(info.exists);
}

#[test]
fn the_first_find_counts() {
    let some = |s: &str| Some(s.to_string());
    assert_eq!(first_find(&vec![None, some("a"), some("b")]), Some(1));
    assert_eq!(first_find(&vec![None, None]), None);
    assert_eq!(first_find(&vec![]), None);
}

fn entry(path: &str, is_dir: bool) -> DirEntry {
    let name = path.rsplit(|c| c == '/' || c == '\\').next().unwrap();
    DirEntry { path: path.to_string(), file_name: Some(name.to_string()), is_dir }
}

fn names_request(query: &str) -> SearchFileNamesRequest {
    SearchFileNamesRequest { root_path: "/r".to_string(), query: query.to_string() }
}

#[test]
fn file_names_are_walked() {
    let search = FileNameSearch::new(&names_request(" MAIN "));
    let (search, step) = search_file_names(search, &vec![]);
    assert!(matches!(step, FileNameStep::Read(ref dir) if dir == "/r"));
    let root = vec![
        entry("/r/a", true),
        entry("/r/node_modules", true),
        entry("/r/Main.rs", false),
        entry("/r/other.rs", false),
        entry("/r/.env", false),
        entry("/r/b", true),
        DirEntry { path: "/r/main?".to_string(), file_name: None, is_dir: false },
    ];
    let (search, step) = search_file_names(search.unwrap(), &root);
    // The directory that was found last is read first.
    assert!(matches!(step, FileNameStep::Read(ref dir) if dir == "/r/b"));
    let (search, step) = search_file_names(search.unwrap(), &vec![entry("\\r\\b\\domain", false)]);
    assert!(matches!(step, FileNameStep::Read(ref dir) if dir == "/r/a"));
    let (search, step) = search_file_names(search.unwrap(), &vec![]);
    assert!(search.is_none());
    match step {
        FileNameStep::Done(answer) => {
            let response = answer.data.unwrap();
            assert_eq!(response.files, vec!["/r/Main.rs", "/r/b/domain"]);
            assert!(!response.truncated);
        }
        FileNameStep::Read(_) => panic!("nothing is left"),
    }
}

#[test]
fn a_blank_query_finds_no_file() {
    let search = FileNameSearch::new(&names_request("  "));
    match search_file_names(search, &vec![]) {
        (None, FileNameStep::Done(answer)) => {
            let response = answer.data.unwrap();
            assert!(response.files.is_empty() && !response.truncated);
        }
        _ => panic!("nothing to look for"),
    }
}

#[test]
fn a_hundred_file_names_are_reported_at_most() {
    let search = FileNameSearch::new(&names_request("f"));
    let (search, _) = search_file_names(search, &vec![]);
    let mut entries: Vec<DirEntry> =
        (0..150).map(|i| entry(&format!("/r/f{i}"), false)).collect();
    entries.push(entry("/r/deep", true));
    match search_file_names(search.unwrap(), &entries) {
        (None, FileNameStep::Done(answer)) => {
            let response = answer.data.unwrap();
            assert_eq!(response.files.len(), 100);
            assert_eq!(response.files[99], "/r/f99");
            assert!(response.truncated);
        }
        _ => panic!("the walk is over"),
    }
}

#[test]
fn names_are_compared_in_lowercase() {
    // The lowercase of a letter can be longer than the letter.
    let mut search = FileNameSearch::for_lowercase("i\u{307}".to_string(), "/r");
    search.visit_entry_as(&entry("/r/x", false), "x");
    search.visit_entries(&vec![entry("/r/\u{130}.rs", false)]);
    let response = search.into_answer().data.unwrap();
    assert_eq!(response.files, vec!["/r/\u{130}.rs"]);
}
