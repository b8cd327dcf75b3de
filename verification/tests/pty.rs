use termul::platform::Os;
use termul::pty::instance::{SpawnOptions, TerminalInfo, TerminalInstance};
use termul::pty::manager::{
    kill_result, write_result, PtyManager, ResizeOutcome, TerminalSlotReservation, WriteOutcome,
};
use termul::pty::output::{
    after_wait, exit_event, overflow_notice, read_text, ChildStatus, PendingOutput, ReadNext,
    ReadResult, WaitResult, Waited, MAX_PENDING,
};
use termul::pty::spawn::{OpenFailure, SpawnSystem};

const SECOND: u64 = 1_000_000_000;

fn system(os: Os) -> SpawnSystem {
    SpawnSystem {
        os,
        shell: None,
        profile: None,
        home: Some("/home/me".to_string()),
        variables: vec![("PATH".to_string(), "/bin".to_string())],
        path: None,
        pathext: None,
    }
}

fn started(manager: &mut PtyManager, now: u64) -> String {
    let begun = manager.spawn(SpawnOptions::default(), system(Os::Linux), 1000);
    let question = begun.question.unwrap();
    let question = manager.spawn_with_shell(question, &vec![]).unwrap();
    let request = manager.spawn_in_directory(question, true).unwrap();
    manager.spawn_opened(request, Ok(42), now).unwrap().id
}

#[test]
fn test_spawn_options_default() {
    let options = SpawnOptions::default();
    assert!(options.shell.is_none());
    assert!(options.cwd.is_none());
    assert!(options.env.is_none());
    assert_eq!(options.cols, Some(80));
    assert_eq!(options.rows, Some(24));
}

#[test]
fn a_terminal_is_started_step_by_step() {
    let mut manager = PtyManager::new();
    let options = SpawnOptions {
        shell: Some("zsh".to_string()),
        cwd: None,
        env: Some(vec![("LANG".to_string(), "C".to_string())]),
        cols: Some(100),
        rows: None,
    };
    let begun = manager.spawn(options, system(Os::Linux), 1700);
    assert!(begun.start_sweeps);
    let question = begun.question.unwrap();
    assert_eq!(question.id, "terminal-1700-0");
    assert_eq!(question.probes.len(), 3);
    let question =
        manager.spawn_with_shell(question, &vec![None, Some("y".to_string())]).unwrap();
    assert_eq!(question.shell, "/usr/bin/zsh");
    assert_eq!(question.cwd, "/home/me");
    let request = manager.spawn_in_directory(question, true).unwrap();
    assert_eq!(request.launch.command_line, "/usr/bin/zsh");
    assert_eq!(request.launch.cols, 100);
    assert_eq!(request.launch.rows, 24);
    assert_eq!(request.launch.env.value_of("LANG"), Some("C".to_string()));
    assert_eq!(request.launch.env.value_of("TERM"), Some("xterm-256color".to_string()));
    assert_eq!(request.launch.env.value_of("COLORTERM"), Some("truecolor".to_string()));
    let info = manager.spawn_opened(request, Ok(99), 5).unwrap();
    assert_eq!(info.id, "terminal-1700-0");
    assert_eq!(info.pid, 99);
    assert_eq!(manager.get_count(), 1);
    assert_eq!(manager.list_active()[0].shell, "/usr/bin/zsh");
    assert_eq!(manager.get("terminal-1700-0").unwrap().last_activity, 5);
    assert!(manager.subscribe_broadcast("terminal-1700-0"));
    // The sweeps begin once, and the number in the id goes up.
    let again = manager.spawn(SpawnOptions::default(), system(Os::Linux), 1700);
    assert!(!again.start_sweeps);
    assert_eq!(again.question.unwrap().id, "terminal-1700-1");
}

#[test]
fn a_terminal_on_windows() {
    let mut manager = PtyManager::new();
    let options = SpawnOptions { shell: Some("pwsh".to_string()), ..SpawnOptions::default() };
    let question = manager.spawn(options, system(Os::Windows), 1).question.unwrap();
    let answers = vec![Some("C:\\Program Files\\PowerShell\\7\\pwsh.exe".to_string())];
    let question = manager.spawn_with_shell(question, &answers).unwrap();
    let request = manager.spawn_in_directory(question, true).unwrap();
    assert_eq!(
        request.launch.command_line,
        "\"C:\\Program Files\\PowerShell\\7\\pwsh.exe\" -NoLogo"
    );
    assert_eq!(request.launch.env.value_of("TERM"), None);
    assert_eq!(
        request.launch.env.value_of("PATHEXT"),
        Some(".COM;.EXE;.BAT;.CMD".to_string())
    );
}

#[test]
fn failed_starts_give_their_place_back() {
    let mut manager = PtyManager::new();
    for _ in 0..40 {
        let options = SpawnOptions { shell: Some("nope".to_string()), ..SpawnOptions::default() };
        let question = manager.spawn(options, system(Os::Linux), 1).question.unwrap();
        let error = manager.spawn_with_shell(question, &vec![None, None, None]).err().unwrap();
        assert_eq!(error, "Shell not found: nope");
    }
    for _ in 0..40 {
        let question = manager.spawn(SpawnOptions::default(), system(Os::Linux), 1).question.unwrap();
        let question = manager.spawn_with_shell(question, &vec![]).unwrap();
        assert_eq!(question.shell, "/bin/sh");
        let error = manager.spawn_in_directory(question, false).err().unwrap();
        assert_eq!(error, "Directory does not exist: /home/me");
    }
    let failures = vec![
        (OpenFailure::ConPty("e".to_string()), "Failed to spawn ConPTY: e"),
        (OpenFailure::OpenPty("e".to_string()), "Failed to open PTY: e"),
        (OpenFailure::SpawnShell("e".to_string()), "Failed to spawn shell: e"),
        (OpenFailure::CloneReader("e".to_string()), "Failed to clone PTY reader: e"),
        (OpenFailure::TakeWriter("e".to_string()), "Failed to get PTY writer: e"),
    ];
    for (failure, message) in failures {
        let question = manager.spawn(SpawnOptions::default(), system(Os::Linux), 1).question.unwrap();
        let question = manager.spawn_with_shell(question, &vec![]).unwrap();
        let request = manager.spawn_in_directory(question, true).unwrap();
        assert_eq!(manager.spawn_opened(request, Err(failure), 0).unwrap_err(), message);
    }
    assert!(!manager.is_limit_reached());
    assert_eq!(manager.get_count(), 0);
}

#[test]
fn there_are_places_for_thirty() {
    let mut manager = PtyManager::new();
    for _ in 0..30 {
        assert!(!manager.is_limit_reached());
        started(&mut manager, 0);
    }
    assert!(manager.is_limit_reached());
    let refused = manager.spawn(SpawnOptions::default(), system(Os::Linux), 1);
    assert_eq!(refused.question.err().unwrap(), "Global terminal limit reached");
    let id = manager.list_active()[7].id.clone();
    assert!(manager.kill(&id).unwrap().is_some());
    assert!(!manager.is_limit_reached());
    assert_eq!(manager.get_count(), 29);
    started(&mut manager, 0);
    assert!(manager.is_limit_reached());
}

#[test]
fn places_are_taken_and_given_back() {
    let mut taken = 29;
    let mut last = TerminalSlotReservation::try_acquire(&mut taken).unwrap();
    assert_eq!(taken, 30);
    assert!(TerminalSlotReservation::try_acquire(&mut taken).is_none());
    assert_eq!(taken, 30);
    last.commit();
    last.release(&mut taken);
    assert_eq!(taken, 30);
    taken = 5;
    let unused = TerminalSlotReservation::try_acquire(&mut taken).unwrap();
    assert_eq!(taken, 6);
    unused.release(&mut taken);
    assert_eq!(taken, 5);
}

#[test]
fn ids_differ() {
    let mut manager = PtyManager::new();
    let a = started(&mut manager, 0);
    let b = started(&mut manager, 0);
    assert_ne!(a, b);
    assert_eq!(a, "terminal-1000-0");
    assert_eq!(b, "terminal-1000-1");
    assert_eq!(manager.get_all().len(), 2);
}

#[test]
fn starts_that_overlap_have_ids_of_their_own() {
    let mut manager = PtyManager::new();
    let first = manager.spawn(SpawnOptions::default(), system(Os::Linux), 1000).question.unwrap();
    let second = manager.spawn(SpawnOptions::default(), system(Os::Linux), 1000).question.unwrap();
    assert_eq!(first.id, "terminal-1000-0");
    assert_eq!(second.id, "terminal-1000-1");
    // The second opens before the first is given up: its place and id stay its own.
    let second = manager.spawn_with_shell(second, &vec![]).unwrap();
    let second = manager.spawn_in_directory(second, true).unwrap();
    assert_eq!(manager.spawn_opened(second, Ok(1), 0).unwrap().id, "terminal-1000-1");
    let first = manager.spawn_with_shell(first, &vec![]).unwrap();
    assert!(manager.spawn_in_directory(first, false).is_err());
    assert_eq!(manager.get_count(), 1);
    assert!(manager.get("terminal-1000-0").is_none());
    assert!(manager.get("terminal-1000-1").is_some());
    for _ in 0..29 {
        assert!(!manager.is_limit_reached());
        let before = manager.get_count();
        let id = started(&mut manager, 0);
        assert_eq!(manager.get_count(), before + 1);
        assert_eq!(manager.list_active().iter().filter(|t| t.id == id).count(), 1);
    }
    assert!(manager.is_limit_reached());
}

#[test]
fn no_place_is_lost_whatever_happens() {
    let mut manager = PtyManager::new();
    for round in 0..5u64 {
        let a = started(&mut manager, 0);
        let b = started(&mut manager, 0);
        started(&mut manager, 0);
        manager.add_renderer_ref(&b, "w").unwrap();
        assert!(manager.kill(&a).unwrap().is_some());
        let given_up = manager.spawn(SpawnOptions::default(), system(Os::Linux), 1).question.unwrap();
        let given_up = manager.spawn_with_shell(given_up, &vec![]).unwrap();
        assert_eq!(manager.sweep(400 * SECOND).len(), 1);
        assert!(manager.spawn_in_directory(given_up, false).is_err());
        if round % 2 == 0 {
            assert_eq!(manager.kill_all().len(), 1);
        } else {
            assert!(manager.kill(&b).unwrap().is_some());
        }
        assert_eq!(manager.get_count(), 0);
    }
    for _ in 0..30 {
        assert!(!manager.is_limit_reached());
        started(&mut manager, 0);
    }
    assert!(manager.is_limit_reached());
}

#[test]
fn a_killed_terminal_is_gone() {
    let mut manager = PtyManager::new();
    let a = started(&mut manager, 0);
    let b = started(&mut manager, 0);
    let gone = manager.kill(&a).unwrap().unwrap();
    assert_eq!(gone.id, a);
    assert!(manager.get(&a).is_none());
    assert!(!manager.subscribe_broadcast(&a));
    assert!(manager.get(&b).is_some());
    assert_eq!(manager.kill(&a).err().unwrap(), format!("Terminal not found: {a}"));
    assert_eq!(kill_result(&a, &None), Ok(()));
    assert_eq!(
        kill_result("x", &Some("panic".to_string())),
        Err("spawn_blocking failed for terminal x: panic".to_string())
    );
}

#[test]
fn a_kill_is_put_off_while_the_window_is_hidden() {
    let mut manager = PtyManager::new();
    let a = started(&mut manager, 0);
    let b = started(&mut manager, 0);
    manager.add_renderer_ref(&a, "r").unwrap();
    manager.set_hidden(true);
    assert!(manager.kill(&a).unwrap().is_none());
    assert!(manager.kill("unknown").unwrap().is_none());
    assert!(manager.get(&a).is_some());
    assert!(manager.sweep(1).is_empty());
    manager.set_hidden(false);
    let gone = manager.sweep(1);
    assert_eq!(gone.len(), 1);
    assert_eq!(gone[0].id, a);
    assert!(manager.get(&a).is_none());
    assert!(!manager.subscribe_broadcast(&a));
    assert!(manager.get(&b).is_some());
    assert_eq!(manager.get_count(), 1);
}

#[test]
fn orphans_go_after_the_timeout() {
    let mut manager = PtyManager::new();
    let orphan = started(&mut manager, 0);
    let shown = started(&mut manager, 0);
    let used = started(&mut manager, 0);
    manager.add_renderer_ref(&shown, "window").unwrap();
    manager.note_activity(&used, 200 * SECOND);
    assert!(manager.sweep(300 * SECOND).is_empty());
    manager.update_orphan_detection(false, None);
    assert!(manager.sweep(300 * SECOND + 1).is_empty());
    manager.update_orphan_detection(true, None);
    manager.set_hidden(true);
    assert!(manager.sweep(300 * SECOND + 1).is_empty());
    manager.set_hidden(false);
    let gone = manager.sweep(300 * SECOND + 1);
    assert_eq!(gone.len(), 1);
    assert_eq!(gone[0].id, orphan);
    assert!(manager.get(&orphan).is_none());
    assert!(!manager.subscribe_broadcast(&orphan));
    manager.remove_renderer_ref(&shown, "window").unwrap();
    manager.update_orphan_detection_settings(true, Some(1));
    let gone = manager.sweep(260 * SECOND + 1);
    assert_eq!(gone.len(), 2);
    assert_eq!(manager.get_count(), 0);
    assert!(!manager.is_limit_reached());
}

#[test]
fn all_terminals_go_at_once() {
    let mut manager = PtyManager::new();
    let a = started(&mut manager, 0);
    started(&mut manager, 0);
    manager.set_hidden(true);
    assert_eq!(manager.kill_all().len(), 2);
    assert_eq!(manager.get_count(), 0);
    assert!(!manager.subscribe_broadcast(&a));
    manager.set_hidden(false);
    for _ in 0..30 {
        started(&mut manager, 0);
    }
    assert!(manager.is_limit_reached());
}

#[test]
fn writing_and_resizing() {
    let mut manager = PtyManager::new();
    let id = started(&mut manager, 3);
    assert_eq!(manager.write("x", 4).unwrap_err(), "Terminal not found: x");
    manager.write(&id, 9).unwrap();
    assert_eq!(manager.get(&id).unwrap().last_activity, 9);
    assert_eq!(write_result(&WriteOutcome::Written), Ok(()));
    assert_eq!(write_result(&WriteOutcome::NoWriter).unwrap_err(), "PTY writer unavailable");
    assert_eq!(
        write_result(&WriteOutcome::WriteFailed("e".to_string())).unwrap_err(),
        "Failed to write to PTY: e"
    );
    assert_eq!(
        write_result(&WriteOutcome::FlushFailed("e".to_string())).unwrap_err(),
        "Failed to flush PTY: e"
    );
    assert_eq!(
        manager.resize("x", 1, 2, &ResizeOutcome::Resized, 10).unwrap_err(),
        "Terminal not found: x"
    );
    let refused = vec![
        (ResizeOutcome::NoConPty, "ConPTY handles unavailable"),
        (ResizeOutcome::ConPtyFailed("e".to_string()), "Failed to resize ConPTY: e"),
        (ResizeOutcome::NoMaster, "PTY master already consumed"),
        (ResizeOutcome::MasterFailed("e".to_string()), "Failed to resize terminal: e"),
    ];
    for (outcome, message) in refused {
        assert_eq!(manager.resize(&id, 1, 2, &outcome, 10).unwrap_err(), message);
    }
    assert_eq!(manager.get(&id).unwrap().last_activity, 9);
    manager.resize(&id, 120, 40, &ResizeOutcome::Resized, 11).unwrap();
    let info = &manager.list_active()[0];
    assert_eq!((info.cols, info.rows), (120, 40));
    assert_eq!(manager.get(&id).unwrap().last_activity, 11);
}

#[test]
fn renderers_and_remote_clients_of_a_terminal() {
    let info = TerminalInfo {
        id: "t".to_string(),
        shell: "s".to_string(),
        cwd: "/".to_string(),
        pid: 1,
        cols: 80,
        rows: 24,
    };
    let mut terminal = TerminalInstance::new(&info, 100);
    assert!(terminal.is_orphan());
    terminal.add_renderer_ref("a".to_string());
    terminal.add_renderer_ref("a".to_string());
    terminal.add_renderer_ref("b".to_string());
    assert_eq!(terminal.renderer_ref_count(), 2);
    terminal.remove_renderer_ref("a");
    terminal.remove_renderer_ref("c");
    assert!(!terminal.is_orphan());
    terminal.remove_renderer_ref("b");
    assert!(terminal.is_orphan());
    assert_eq!(terminal.inactive_duration(150), 50);
    assert_eq!(terminal.inactive_duration(50), 0);
    terminal.update_activity(140);
    assert_eq!(terminal.inactive_duration(150), 10);
    for _ in 0..10 {
        assert!(terminal.try_add_remote_connection(10));
    }
    assert!(!terminal.try_add_remote_connection(10));
    terminal.remove_remote_connection();
    assert!(terminal.try_add_remote_connection(10));
    assert_eq!(terminal.info().id, "t");
}

#[test]
fn the_overflow_notice_has_its_bytes() {
    let expected: &[u8] = b"\x1bc\x1b[2m[termul: dropped output due to backpressure]\x1b[0m\r\n";
    assert_eq!(overflow_notice(), expected);
}

#[test]
fn output_is_flushed_or_dropped() {
    let mut pending = PendingOutput::new();
    assert!(pending.take().is_none());
    assert!(!pending.push(b"ab"));
    assert!(!pending.push(b"cd"));
    let flush = pending.flusher_step(true, true, false);
    assert_eq!(flush.to_channel.as_deref(), Some(&b"abcd"[..]));
    assert_eq!(flush.to_broadcast.as_deref(), Some(&b"abcd"[..]));
    assert!(!flush.ended);
    let idle = pending.flusher_step(true, true, true);
    assert!(idle.to_channel.is_none() && idle.to_broadcast.is_none() && idle.ended);
    pending.push(b"x");
    let quiet = pending.flusher_step(false, false, false);
    assert!(quiet.to_channel.is_none() && quiet.to_broadcast.is_none());
    assert!(pending.take().is_none());
    pending.push(b"y");
    let remote = pending.flusher_step(false, true, true);
    assert!(remote.to_channel.is_none());
    assert_eq!(remote.to_broadcast.as_deref(), Some(&b"y"[..]));
}

#[test]
fn a_full_buffer_gives_way_to_the_notice() {
    let mut pending = PendingOutput::new();
    let big = vec![7u8; MAX_PENDING];
    assert!(!pending.push(&big));
    assert!(pending.push(b"!"));
    assert_eq!(pending.take(), Some(overflow_notice()));
    assert!(!pending.push(b"after"));
    assert_eq!(pending.take(), Some(b"after".to_vec()));
}

#[test]
fn the_reader_reads_until_the_end() {
    let mut pending = PendingOutput::new();
    assert_eq!(read_text(&[104, 105, 255]), "hi\u{fffd}");
    match pending.reader_step(ReadResult::Data { filtered: vec![104] }) {
        ReadNext::Continue { overflowed } => assert!(!overflowed),
        ReadNext::Stop => panic!("there is more"),
    }
    assert!(matches!(pending.reader_step(ReadResult::Eof), ReadNext::Stop));
    assert!(matches!(pending.reader_step(ReadResult::Failed), ReadNext::Stop));
    assert_eq!(pending.take(), Some(vec![104]));
}

#[test]
fn exits_are_reported() {
    let event = exit_event("t", &ChildStatus::Exited(3));
    assert_eq!(event.id, "t");
    assert_eq!(event.exit_code, Some(3));
    assert_eq!(event.signal, None);
    assert_eq!(exit_event("t", &ChildStatus::Exited(2147483647)).exit_code, Some(i32::MAX));
    assert_eq!(exit_event("t", &ChildStatus::Exited(2147483648)).exit_code, None);
    assert_eq!(exit_event("t", &ChildStatus::Running).exit_code, None);
    assert_eq!(exit_event("t", &ChildStatus::Unknown).exit_code, None);
}

#[test]
fn waits_for_a_process() {
    assert!(matches!(after_wait(WaitResult::NoHandle, true), Waited::Exited(1)));
    assert!(matches!(after_wait(WaitResult::TimedOut, true), Waited::Running));
    assert!(matches!(after_wait(WaitResult::TimedOut, false), Waited::Failed));
    assert!(matches!(after_wait(WaitResult::Signaled { code: Some(5) }, true), Waited::Exited(5)));
    assert!(matches!(after_wait(WaitResult::Signaled { code: None }, true), Waited::Failed));
    assert!(matches!(after_wait(WaitResult::Failed, false), Waited::Failed));
}
