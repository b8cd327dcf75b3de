use termul::platform::Os;
use termul::pty::instance::SpawnOptions;
use termul::pty::manager::PtyManager;
use termul::pty::spawn::SpawnSystem;
use termul::remote::auth::AuthState;
use termul::remote::server::AppState;
use termul::remote::ws::{
    handle_client_input, handle_terminal_ws, ClientMessage, ServerMessage, WsAction, WsEvent,
    WsSession,
};

fn state() -> AppState {
    AppState {
        auth: AuthState::with_token("tok".to_string()),
        connection_count: 0,
        port: 19480,
    }
}

fn manager_with_terminal() -> (PtyManager, String) {
    let mut manager = PtyManager::new();
    let system = SpawnSystem {
        os: Os::Linux,
        shell: Some("/bin/sh".to_string()),
        profile: None,
        home: Some("/".to_string()),
        variables: vec![],
        path: None,
        pathext: None,
    };
    let question = manager.spawn(SpawnOptions::default(), system, 1).question.unwrap();
    let question = manager.spawn_with_shell(question, &vec![]).unwrap();
    let request = manager.spawn_in_directory(question, true).unwrap();
    let id = manager.spawn_opened(request, Ok(1), 0).unwrap().id;
    (manager, id)
}

fn attach(id: &str) -> WsEvent {
    WsEvent::Text(Some(ClientMessage::Attach { terminal_id: id.to_string() }))
}

fn error_of(action: WsAction) -> String {
    match action {
        WsAction::Close(Some(ServerMessage::Error { message })) => message,
        WsAction::TrySend(ServerMessage::Error { message }) => message,
        _ => panic!("no error"),
    }
}

#[test]
fn a_session_from_beginning_to_end() {
    let mut state = state();
    let (mut manager, id) = manager_with_terminal();
    let welcome = WsSession::connect_as(&mut state, &manager, "r1".to_string()).unwrap();
    assert_eq!(state.connection_count, 1);
    match welcome.action {
        WsAction::Send(ServerMessage::TerminalList { terminals }) => {
            assert_eq!(terminals.len(), 1);
            assert_eq!(terminals[0].id, id);
        }
        _ => panic!("the list comes first"),
    }
    let mut session = welcome.session;
    let action = handle_terminal_ws(&mut state, &mut manager, &mut session, attach(&id), 1);
    match action {
        WsAction::TrySend(ServerMessage::Connected { terminal_id }) => assert_eq!(terminal_id, id),
        _ => panic!("not connected"),
    }
    assert_eq!(manager.get(&id).unwrap().renderer_ref_count(), 1);
    assert_eq!(manager.get(&id).unwrap().remote_connections, 1);
    let output = WsEvent::Output(vec![111, 107, 255]);
    match handle_terminal_ws(&mut state, &mut manager, &mut session, output, 2) {
        WsAction::Send(ServerMessage::Data { data }) => assert_eq!(data, "ok\u{fffd}"),
        _ => panic!("no output"),
    }
    let input = WsEvent::Text(Some(ClientMessage::Input { data: "ls\n".to_string() }));
    match handle_terminal_ws(&mut state, &mut manager, &mut session, input, 77) {
        WsAction::Write { terminal_id, data } => {
            assert_eq!(terminal_id, id);
            assert_eq!(data, "ls\n");
        }
        _ => panic!("no write"),
    }
    assert_eq!(manager.get(&id).unwrap().last_activity, 77);
    let ping = handle_terminal_ws(&mut state, &mut manager, &mut session, WsEvent::PingDue, 78);
    assert!(matches!(ping, WsAction::Ping));
    let lag = handle_terminal_ws(&mut state, &mut manager, &mut session, WsEvent::Lagged, 78);
    assert!(matches!(lag, WsAction::Wait));
    let end = handle_terminal_ws(&mut state, &mut manager, &mut session, WsEvent::OutputEnded, 79);
    match end {
        WsAction::Close(Some(ServerMessage::Exit { terminal_id })) => assert_eq!(terminal_id, id),
        _ => panic!("no end"),
    }
    assert!(!session.is_open());
    assert_eq!(state.connection_count, 0);
    assert!(manager.get(&id).unwrap().is_orphan());
    assert_eq!(manager.get(&id).unwrap().remote_connections, 0);
    // What ended does nothing more.
    let late = handle_terminal_ws(&mut state, &mut manager, &mut session, WsEvent::PeerClosed, 80);
    assert!(matches!(late, WsAction::Wait));
    assert_eq!(state.connection_count, 0);
}

#[test]
fn a_terminal_that_goes_before_it_is_followed_is_not_found() {
    let mut state = state();
    let (mut manager, id) = manager_with_terminal();
    let mut session =
        WsSession::connect_as(&mut state, &manager, "r".to_string()).unwrap().session;
    handle_terminal_ws(&mut state, &mut manager, &mut session, attach(&id), 1);
    assert_eq!(manager.get(&id).unwrap().remote_connections, 1);
    let end = handle_terminal_ws(&mut state, &mut manager, &mut session, WsEvent::NoOutput, 2);
    match end {
        WsAction::Close(Some(ServerMessage::Error { message })) => {
            assert_eq!(message, format!("Terminal not found: {id}"))
        }
        _ => panic!("no error"),
    }
    assert!(!session.is_open());
    assert_eq!(state.connection_count, 0);
    assert_eq!(manager.get(&id).unwrap().remote_connections, 0);
    assert!(manager.get(&id).unwrap().is_orphan());
}

#[test]
fn clients_do_not_resize_or_attach_again() {
    let mut state = state();
    let (mut manager, id) = manager_with_terminal();
    let mut session =
        WsSession::connect_as(&mut state, &manager, "r".to_string()).unwrap().session;
    handle_terminal_ws(&mut state, &mut manager, &mut session, attach(&id), 1);
    let resize = WsEvent::Text(Some(ClientMessage::Resize { cols: 1, rows: 1 }));
    assert!(matches!(
        handle_terminal_ws(&mut state, &mut manager, &mut session, resize, 2),
        WsAction::Wait
    ));
    assert_eq!(manager.get(&id).unwrap().cols, 80);
    let again = handle_terminal_ws(&mut state, &mut manager, &mut session, attach(&id), 3);
    assert_eq!(error_of(again), "Re-attach not supported. Reconnect.");
    assert_eq!(manager.get(&id).unwrap().remote_connections, 1);
    let junk = handle_terminal_ws(&mut state, &mut manager, &mut session, WsEvent::Text(None), 3);
    assert!(matches!(junk, WsAction::Wait));
}

#[test]
fn before_a_terminal_is_named() {
    let mut state = state();
    let (mut manager, _) = manager_with_terminal();
    let mut session =
        WsSession::connect_as(&mut state, &manager, "r".to_string()).unwrap().session;
    let junk = handle_terminal_ws(&mut state, &mut manager, &mut session, WsEvent::Text(None), 0);
    assert_eq!(error_of(junk), "Expected attach message");
    let input = WsEvent::Text(Some(ClientMessage::Input { data: "x".to_string() }));
    let early = handle_terminal_ws(&mut state, &mut manager, &mut session, input, 0);
    assert_eq!(error_of(early), "Expected attach message");
    let other = handle_terminal_ws(&mut state, &mut manager, &mut session, WsEvent::Other, 0);
    assert!(matches!(other, WsAction::Wait));
    let fault =
        handle_terminal_ws(&mut state, &mut manager, &mut session, WsEvent::ReceiveFailed, 0);
    assert!(matches!(fault, WsAction::Wait));
    assert!(session.is_open());
    let late =
        handle_terminal_ws(&mut state, &mut manager, &mut session, WsEvent::AttachTimedOut, 0);
    assert_eq!(error_of(late), "Attach timeout");
    assert!(!session.is_open());
    assert_eq!(state.connection_count, 0);
}

#[test]
fn an_unknown_terminal_ends_the_session() {
    let mut state = state();
    let (mut manager, _) = manager_with_terminal();
    let mut session =
        WsSession::connect_as(&mut state, &manager, "r".to_string()).unwrap().session;
    let action = handle_terminal_ws(&mut state, &mut manager, &mut session, attach("x"), 0);
    assert_eq!(error_of(action), "Terminal not found: x");
    assert!(!session.is_open());
    assert_eq!(state.connection_count, 0);
}

#[test]
fn a_terminal_has_ten_clients_at_most() {
    let mut state = state();
    let (mut manager, id) = manager_with_terminal();
    for i in 0..10 {
        let mut session =
            WsSession::connect_as(&mut state, &manager, format!("r{i}")).unwrap().session;
        let action = handle_terminal_ws(&mut state, &mut manager, &mut session, attach(&id), 0);
        assert!(matches!(action, WsAction::TrySend(ServerMessage::Connected { .. })));
    }
    let mut session =
        WsSession::connect_as(&mut state, &manager, "r10".to_string()).unwrap().session;
    let action = handle_terminal_ws(&mut state, &mut manager, &mut session, attach(&id), 0);
    assert_eq!(error_of(action), "Connection limit per terminal reached (10)");
    assert_eq!(state.connection_count, 10);
    assert_eq!(manager.get(&id).unwrap().remote_connections, 10);
}

#[test]
fn there_are_fifty_clients_at_most() {
    let mut state = state();
    let manager = PtyManager::new();
    for _ in 0..50 {
        assert!(WsSession::connect(&mut state, &manager).is_some());
    }
    assert!(WsSession::connect(&mut state, &manager).is_none());
    assert_eq!(state.connection_count, 50);
}

#[test]
fn sessions_show_terminals_under_names_of_their_own() {
    let mut state = state();
    let (mut manager, id) = manager_with_terminal();
    for _ in 0..2 {
        let mut session = WsSession::connect(&mut state, &manager).unwrap().session;
        handle_terminal_ws(&mut state, &mut manager, &mut session, attach(&id), 0);
    }
    assert_eq!(manager.get(&id).unwrap().renderer_ref_count(), 2);
    assert!(!manager.get(&id).unwrap().is_orphan());
}

#[test]
fn a_session_whose_terminal_is_gone() {
    let mut state = state();
    let (mut manager, id) = manager_with_terminal();
    let mut session =
        WsSession::connect_as(&mut state, &manager, "r".to_string()).unwrap().session;
    handle_terminal_ws(&mut state, &mut manager, &mut session, attach(&id), 0);
    manager.kill(&id).unwrap();
    let message = ClientMessage::Input { data: "x".to_string() };
    assert!(matches!(handle_client_input(&mut manager, &id, message, 1), WsAction::Wait));
    let action = handle_terminal_ws(&mut state, &mut manager, &mut session, WsEvent::SendFailed, 1);
    assert!(matches!(action, WsAction::Close(None)));
    assert_eq!(state.connection_count, 0);
}
