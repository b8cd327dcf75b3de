use termul::commands::browser::{
    browser_tab_create, browser_tab_destroy, browser_tab_go_back, browser_tab_go_forward,
    browser_tab_hide, browser_tab_inject_annotation, browser_tab_inject_annotation_markers,
    browser_tab_navigate, browser_tab_reload, browser_tab_remove_annotation_overlay,
    browser_tab_report_annotation_marker_clicked, browser_tab_report_element_captured,
    browser_tab_report_loaded, browser_tab_report_region_captured, browser_tab_report_title,
    browser_tab_report_url, browser_tab_resize, browser_tab_show,
    browser_tab_update_annotation_marker_selection, TabEvent,
};
use termul::commands::remote::{
    begin_remote_start, begin_remote_stop, remote_start, remote_status, remote_stop, RemoteServer,
    RemoteStart, RemoteStatus, RemoteStop,
};
use termul::commands::terminal::{
    terminal_add_renderer_ref, terminal_kill, terminal_remove_renderer_ref, terminal_resize,
    terminal_set_visibility, terminal_spawn, terminal_update_orphan_detection, terminal_write,
};
use termul::ipc::{
    IpcResult, OrphanDetectionSettings, RendererRefRequest, RollbackRequest, SetVisibilityRequest,
};
use termul::json::JsonField;
use termul::pty::instance::TerminalInfo;
use termul::pty::manager::PtyManager;
use termul::remote::auth::AuthState;
use termul::remote::server::{AppState, ServerHandle};

#[test]
fn test_ipc_result_success() {
    let result: IpcResult<String> = IpcResult::success("test".to_string());
    assert!(result.success);
    assert_eq!(result.data, Some("test".to_string()));
    assert!(result.error.is_none());
    assert!(result.code.is_none());
}

#[test]
fn test_ipc_result_error() {
    let result: IpcResult<String> = IpcResult::error("test error", "TEST_ERROR");
    assert!(!result.success);
    assert!(result.data.is_none());
    assert_eq!(result.error, Some("test error".to_string()));
    assert_eq!(result.code, Some("TEST_ERROR".to_string()));
}

#[test]
fn ipc_error_takes_owned_texts() {
    let result: IpcResult<u8> = IpcResult::error("broken".to_string(), "CODE".to_string());
    assert_eq!(result.error.as_deref(), Some("broken"));
    assert_eq!(result.code.as_deref(), Some("CODE"));
}

fn failed<T>(result: &IpcResult<T>, error: &str, code: &str) -> bool {
    !result.success
        && result.data.is_none()
        && result.error.as_deref() == Some(error)
        && result.code.as_deref() == Some(code)
}

#[test]
fn terminal_commands_have_their_codes() {
    let info = TerminalInfo {
        id: "t".to_string(),
        shell: "/bin/sh".to_string(),
        cwd: "/".to_string(),
        pid: 7,
        cols: 80,
        rows: 24,
    };
    let ok = terminal_spawn(Ok(info));
    assert!(ok.success);
    assert_eq!(ok.data.map(|i| i.pid), Some(7));
    let e = || Err("no".to_string());
    assert!(failed(&terminal_spawn(Err("no".to_string())), "no", "SPAWN_FAILED"));
    assert!(failed(&terminal_write(e()), "no", "WRITE_FAILED"));
    assert!(failed(&terminal_resize(e()), "no", "RESIZE_FAILED"));
    assert!(failed(&terminal_kill(e()), "no", "KILL_FAILED"));
    assert!(terminal_write(Ok(())).success);
    assert!(terminal_resize(Ok(())).success);
    assert!(terminal_kill(Ok(())).success);
}

#[test]
fn renderer_refs_of_an_unknown_terminal() {
    let mut manager = PtyManager::new();
    let request = RendererRefRequest {
        terminal_id: "ghost".to_string(),
        renderer_id: "r".to_string(),
    };
    let added = terminal_add_renderer_ref(&mut manager, &request);
    assert!(failed(&added, "Terminal not found: ghost", "TERMINAL_NOT_FOUND"));
    let removed = terminal_remove_renderer_ref(&mut manager, &request);
    assert!(failed(&removed, "Terminal not found: ghost", "TERMINAL_NOT_FOUND"));
}

#[test]
fn visibility_and_orphan_settings() {
    let mut manager = PtyManager::new();
    assert!(!manager.is_hidden());
    assert!(terminal_set_visibility(&mut manager, &SetVisibilityRequest { is_visible: false }).success);
    assert!(manager.is_hidden());
    assert!(terminal_set_visibility(&mut manager, &SetVisibilityRequest { is_visible: true }).success);
    assert!(!manager.is_hidden());
    let settings = OrphanDetectionSettings { enabled: false, timeout_minutes: Some(2) };
    assert!(terminal_update_orphan_detection(&mut manager, &settings).success);
    let rollback = RollbackRequest { version: "1.0.0".to_string() };
    assert_eq!(rollback.version, "1.0.0");
}

#[test]
fn browser_commands_have_their_codes() {
    let e = || Err("no".to_string());
    assert!(failed(&browser_tab_create::<u8>(Err("no".to_string())), "no", "BROWSER_TAB_CREATE_FAILED"));
    assert_eq!(browser_tab_create(Ok(3u8)).data, Some(3u8));
    assert!(failed(&browser_tab_navigate(e()), "no", "BROWSER_TAB_NAVIGATE_FAILED"));
    assert!(failed(&browser_tab_resize(e()), "no", "BROWSER_TAB_RESIZE_FAILED"));
    assert!(failed(&browser_tab_show(e()), "no", "BROWSER_TAB_SHOW_FAILED"));
    assert!(failed(&browser_tab_hide(e()), "no", "BROWSER_TAB_HIDE_FAILED"));
    assert!(failed(&browser_tab_destroy(e()), "no", "BROWSER_TAB_DESTROY_FAILED"));
    assert!(failed(&browser_tab_go_back(e()), "no", "BROWSER_TAB_GO_BACK_FAILED"));
    assert!(failed(&browser_tab_go_forward(e()), "no", "BROWSER_TAB_GO_FORWARD_FAILED"));
    assert!(failed(&browser_tab_reload(e()), "no", "BROWSER_TAB_RELOAD_FAILED"));
    assert!(failed(&browser_tab_inject_annotation(e()), "no", "BROWSER_TAB_INJECT_ANNOTATION_FAILED"));
    assert!(failed(
        &browser_tab_remove_annotation_overlay(e()),
        "no",
        "BROWSER_TAB_REMOVE_ANNOTATION_OVERLAY_FAILED"
    ));
    assert!(failed(
        &browser_tab_inject_annotation_markers(e()),
        "no",
        "BROWSER_TAB_INJECT_ANNOTATION_MARKERS_FAILED"
    ));
    assert!(failed(
        &browser_tab_update_annotation_marker_selection(e()),
        "no",
        "BROWSER_TAB_UPDATE_MARKER_SELECTION_FAILED"
    ));
    assert!(browser_tab_show(Ok(())).success);
}

#[test]
fn tabs_report_on_themselves_only() {
    let report = browser_tab_report_url("tab".to_string(), "http://x".to_string(), "tab").unwrap();
    assert!(report.invalidates_annotations);
    assert_eq!(report.event.name(), "browser-tab-navigated");
    assert!(matches!(
        report.event,
        TabEvent::Navigated { ref browser_tab_id, ref url } if browser_tab_id == "tab" && url == "http://x"
    ));
    assert_eq!(
        browser_tab_report_url("tab".to_string(), "u".to_string(), "other").unwrap_err(),
        "Browser tab report URL rejected: caller 'other' does not match payload 'tab'"
    );
    let loaded = browser_tab_report_loaded("tab".to_string(), "tab").unwrap();
    assert!(loaded.invalidates_annotations);
    assert_eq!(loaded.event.name(), "browser-tab-loaded");
    assert_eq!(
        browser_tab_report_loaded("a".to_string(), "b").unwrap_err(),
        "Browser tab report loaded rejected: caller 'b' does not match payload 'a'"
    );
    let title = browser_tab_report_title("tab".to_string(), "T".to_string(), "tab").unwrap();
    assert!(!title.invalidates_annotations);
    assert_eq!(title.event.name(), "browser-tab-title-changed");
    assert_eq!(
        browser_tab_report_title("a".to_string(), "T".to_string(), "b").unwrap_err(),
        "Browser tab report title rejected: caller 'b' does not match payload 'a'"
    );
    let click =
        browser_tab_report_annotation_marker_clicked("tab".to_string(), "n".to_string(), "tab").unwrap();
    assert!(!click.invalidates_annotations);
    assert_eq!(click.event.name(), "browser-tab-annotation-marker-clicked");
    assert_eq!(
        browser_tab_report_annotation_marker_clicked("a".to_string(), "n".to_string(), "b").unwrap_err(),
        "Browser tab report annotation marker clicked rejected: caller 'b' does not match payload 'a'"
    );
    assert_eq!(browser_tab_report_region_captured("a", "a"), Ok(()));
    assert_eq!(
        browser_tab_report_region_captured("a", "b").unwrap_err(),
        "Browser tab report region captured rejected: caller 'b' does not match payload 'a'"
    );
    assert_eq!(browser_tab_report_element_captured("a", "a", &JsonField::Object), Ok(()));
    assert_eq!(
        browser_tab_report_element_captured("a", "a", &JsonField::Array).unwrap_err(),
        "Browser tab report element captured rejected: attributes must be an object"
    );
    assert_eq!(
        browser_tab_report_element_captured("a", "b", &JsonField::Array).unwrap_err(),
        "Browser tab report element captured rejected: caller 'b' does not match payload 'a'"
    );
}

fn handle(port: u16, token: &str) -> ServerHandle {
    let mut state = AppState {
        auth: AuthState::with_token(token.to_string()),
        connection_count: 0,
        port,
    };
    ServerHandle::new(&mut state, port)
}

#[test]
fn remote_server_is_started_once() {
    let mut remote = RemoteServer::new();
    assert!(matches!(
        begin_remote_start(&remote, None, None),
        RemoteStart::Start { port: 19480, bind_lan: false }
    ));
    assert!(matches!(
        begin_remote_start(&remote, Some(8080), Some(true)),
        RemoteStart::Start { port: 8080, bind_lan: true }
    ));
    assert!(remote_start(&mut remote, Ok(handle(8080, "t")), true).success);
    match begin_remote_start(&remote, None, None) {
        RemoteStart::Answer(a) => {
            assert!(failed(&a, "Remote server already running", "ALREADY_RUNNING"))
        }
        RemoteStart::Start { .. } => panic!("started twice"),
    }
}

#[test]
fn remote_server_tells_its_address() {
    let mut remote = RemoteServer::new();
    assert!(matches!(remote_status(&remote).data, Some(RemoteStatus::Stopped)));
    let local = remote_start(&mut remote, Ok(handle(19480, "tok")), false).data.unwrap();
    assert_eq!(local.url, "http://127.0.0.1:19480?token=tok");
    assert_eq!(local.token, "tok");
    assert_eq!(local.port, 19480);
    assert!(!local.bind_lan);
    match remote_status(&remote).data.unwrap() {
        RemoteStatus::Running { port, token, url } => {
            assert_eq!(port, 19480);
            assert_eq!(token, "tok");
            assert_eq!(url, "http://127.0.0.1:19480?token=tok");
        }
        RemoteStatus::Stopped => panic!("it runs"),
    }
    let mut other = RemoteServer::new();
    let lan = remote_start(&mut other, Ok(handle(19480, "tok")), true).data.unwrap();
    assert_eq!(lan.url, "http://0.0.0.0:19480?token=tok");
    assert!(lan.bind_lan);
}

#[test]
fn remote_server_tells_the_port_that_the_system_chose() {
    let mut state = AppState {
        auth: AuthState::with_token("tok".to_string()),
        connection_count: 0,
        port: 0,
    };
    let listening = ServerHandle::new(&mut state, 51234);
    assert_eq!(state.port, 51234);
    let mut remote = RemoteServer::new();
    let started = remote_start(&mut remote, Ok(listening), false).data.unwrap();
    assert_eq!(started.port, 51234);
    assert_eq!(started.url, "http://127.0.0.1:51234?token=tok");
    match remote_status(&remote).data.unwrap() {
        RemoteStatus::Running { port, .. } => assert_eq!(port, 51234),
        RemoteStatus::Stopped => panic!("it runs"),
    }
}

#[test]
fn failed_start_of_the_remote_server_is_not_remembered() {
    let mut remote = RemoteServer::new();
    let refused = remote_start(&mut remote, Err("in use".to_string()), false);
    assert!(failed(&refused, "in use", "START_FAILED"));
    assert!(matches!(remote_status(&remote).data, Some(RemoteStatus::Stopped)));
    assert!(matches!(begin_remote_start(&remote, None, None), RemoteStart::Start { .. }));
}

#[test]
fn remote_server_is_stopped_and_forgotten() {
    for failure in [None, Some("boom".to_string())] {
        let mut remote = RemoteServer::new();
        assert!(remote_start(&mut remote, Ok(handle(7, "t")), false).success);
        let server = match begin_remote_stop(&mut remote) {
            RemoteStop::Stop(server) => server,
            RemoteStop::Answer(_) => panic!("it runs"),
        };
        assert_eq!(server.port(), 7);
        assert_eq!(server.token(), "t");
        let answer = remote_stop(server, &failure);
        match failure {
            None => assert!(answer.success),
            Some(_) => assert!(failed(&answer, "Server task panicked: boom", "STOP_FAILED")),
        }
        match begin_remote_stop(&mut remote) {
            RemoteStop::Answer(a) => {
                assert!(failed(&a, "Remote server not running", "NOT_RUNNING"))
            }
            RemoteStop::Stop(_) => panic!("stopped twice"),
        }
        assert!(matches!(remote_status(&remote).data, Some(RemoteStatus::Stopped)));
        assert!(matches!(begin_remote_start(&remote, None, None), RemoteStart::Start { .. }));
    }
}

#[test]
fn remote_server_ends_as_its_task_does() {
    let stopped = handle(1, "t").stop(&Some("boom".to_string()));
    assert_eq!(stopped, Err("Server task panicked: boom".to_string()));
    assert_eq!(handle(1, "t").stop(&None), Ok(()));
}
