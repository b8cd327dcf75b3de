//! A client of the server: a web socket on the one side, a terminal on the other.
//!
//! A session goes from event to event. It begins with a list of the terminals, waits for the client
//! to name one, attaches to it, and then hands output one way and input the other until one side
//! ends it. However it ends, what it took is given back.
use super::auth::{is_uuid_v4, random_uuid};
use super::server::AppState;
use super::{MAX_CONNECTIONS_PER_TERMINAL, MAX_TOTAL_CONNECTIONS};
use crate::pty::instance::{info_views, InfoView, TerminalInfo, TerminalView};
use crate::pty::manager::{
    ids_differ, is_id_at, lemma_place, not_found, ManagerView, PtyManager,
};
use crate::text::{concat2, from_utf8_lossy, utf8_lossy};
use vstd::prelude::*;

verus! {

/// What a client says.
#[derive(Debug)]
pub enum ClientMessage {
    /// Keys for the terminal.
    Input { data: String },
    /// The client has another size.
    Resize { cols: u16, rows: u16 },
    /// The client names a terminal.
    Attach { terminal_id: String },
}

/// The model of a [`ClientMessage`].
pub enum ClientMessageView {
    Input { data: Seq<char> },
    Resize { cols: u16, rows: u16 },
    Attach { terminal_id: Seq<char> },
}

impl View for ClientMessage {
    type V = ClientMessageView;

    open spec fn view(&self) -> ClientMessageView {
        match *self {
            ClientMessage::Input { data } => ClientMessageView::Input { data: data@ },
            ClientMessage::Resize { cols, rows } => ClientMessageView::Resize { cols, rows },
            ClientMessage::Attach { terminal_id } => ClientMessageView::Attach {
                terminal_id: terminal_id@,
            },
        }
    }
}

/// What a client is told.
#[derive(Debug)]
pub enum ServerMessage {
    /// Output of the terminal.
    Data { data: String },
    /// The terminals there are.
    TerminalList { terminals: Vec<TerminalInfo> },
    /// The client is attached.
    Connected { terminal_id: String },
    /// The terminal ended.
    Exit { terminal_id: String },
    Error { message: String },
}

/// The model of a [`ServerMessage`].
pub enum ServerMessageView {
    Data { data: Seq<char> },
    TerminalList { terminals: Seq<InfoView> },
    Connected { terminal_id: Seq<char> },
    Exit { terminal_id: Seq<char> },
    Error { message: Seq<char> },
}

impl View for ServerMessage {
    type V = ServerMessageView;

    open spec fn view(&self) -> ServerMessageView {
        match *self {
            ServerMessage::Data { data } => ServerMessageView::Data { data: data@ },
            ServerMessage::TerminalList { terminals } => ServerMessageView::TerminalList {
                terminals: info_views(terminals@),
            },
            ServerMessage::Connected { terminal_id } => ServerMessageView::Connected {
                terminal_id: terminal_id@,
            },
            ServerMessage::Exit { terminal_id } => ServerMessageView::Exit {
                terminal_id: terminal_id@,
            },
            ServerMessage::Error { message } => ServerMessageView::Error { message: message@ },
        }
    }
}

/// What happens to a session.
#[derive(Debug)]
pub enum WsEvent {
    /// Something that was to be sent could not be.
    SendFailed,
    /// The client sent a text: a message, or nothing that can be read as one.
    Text(Option<ClientMessage>),
    /// The client is gone.
    PeerClosed,
    /// The socket could not be read.
    ReceiveFailed,
    /// The client sent something else.
    Other,
    /// The client did not name a terminal in time.
    AttachTimedOut,
    /// The terminal that the client named is gone before its output could be followed.
    NoOutput,
    /// The terminal wrote something.
    Output(Vec<u8>),
    /// The client is too slow, and some output is lost.
    Lagged,
    /// The terminal ended.
    OutputEnded,
    /// It is time for a ping.
    PingDue,
}

/// The model of a [`WsEvent`].
pub enum WsEventView {
    SendFailed,
    Text(Option<ClientMessageView>),
    PeerClosed,
    ReceiveFailed,
    Other,
    AttachTimedOut,
    NoOutput,
    Output(Seq<u8>),
    Lagged,
    OutputEnded,
    PingDue,
}

impl View for WsEvent {
    type V = WsEventView;

    open spec fn view(&self) -> WsEventView {
        match *self {
            WsEvent::SendFailed => WsEventView::SendFailed,
            WsEvent::Text(None) => WsEventView::Text(None),
            WsEvent::Text(Some(message)) => WsEventView::Text(Some(message@)),
            WsEvent::PeerClosed => WsEventView::PeerClosed,
            WsEvent::ReceiveFailed => WsEventView::ReceiveFailed,
            WsEvent::Other => WsEventView::Other,
            WsEvent::AttachTimedOut => WsEventView::AttachTimedOut,
            WsEvent::NoOutput => WsEventView::NoOutput,
            WsEvent::Output(bytes) => WsEventView::Output(bytes@),
            WsEvent::Lagged => WsEventView::Lagged,
            WsEvent::OutputEnded => WsEventView::OutputEnded,
            WsEvent::PingDue => WsEventView::PingDue,
        }
    }
}

/// What is to be done for a session.
#[derive(Debug)]
pub enum WsAction {
    /// Nothing but to wait for the next event.
    Wait,
    /// Send a message, and say so if that fails.
    Send(ServerMessage),
    /// Send a message; it does not matter if that fails.
    TrySend(ServerMessage),
    /// Send a ping, and say so if that fails.
    Ping,
    /// Write to a terminal.
    Write { terminal_id: String, data: String },
    /// Send a last message, if there is one, and close the socket.
    Close(Option<ServerMessage>),
}

/// The model of a [`WsAction`].
pub enum WsActionView {
    Wait,
    Send(ServerMessageView),
    TrySend(ServerMessageView),
    Ping,
    Write { terminal_id: Seq<char>, data: Seq<char> },
    Close(Option<ServerMessageView>),
}

impl View for WsAction {
    type V = WsActionView;

    open spec fn view(&self) -> WsActionView {
        match *self {
            WsAction::Wait => WsActionView::Wait,
            WsAction::Send(message) => WsActionView::Send(message@),
            WsAction::TrySend(message) => WsActionView::TrySend(message@),
            WsAction::Ping => WsActionView::Ping,
            WsAction::Write { terminal_id, data } => WsActionView::Write {
                terminal_id: terminal_id@,
                data: data@,
            },
            WsAction::Close(None) => WsActionView::Close(None),
            WsAction::Close(Some(message)) => WsActionView::Close(Some(message@)),
        }
    }
}

// ---------------------------------------------------------------------------------------------
// The model
// ---------------------------------------------------------------------------------------------

/// The model of a [`WsSession`].
pub struct SessionView {
    /// The name under which the session shows a terminal.
    pub renderer: Seq<char>,
    /// The terminal that the client named.
    pub attached: Option<Seq<char>>,
    pub open: bool,
}

/// A session and what it works on.
pub struct WsView {
    /// How many sessions there are.
    pub count: int,
    pub manager: ManagerView,
    pub session: SessionView,
}

/// The manager with one more client attached to a terminal, which shows it under a name.
pub open spec fn with_client(m: ManagerView, id: Seq<char>, renderer: Seq<char>) -> ManagerView {
    let t = m.terminal(id);
    let m1 = m.with_terminal(id, t.with_connections(t.remote_connections + 1));
    m1.with_terminal(id, m1.terminal(id).shown_by(renderer))
}

/// The manager with a client detached from a terminal, if there still is that terminal.
pub open spec fn without_client(m: ManagerView, id: Seq<char>, renderer: Seq<char>) -> ManagerView {
    let m1 = if m.tracks(id) {
        m.with_terminal(id, m.terminal(id).not_shown_by(renderer))
    } else {
        m
    };
    if m1.tracks(id) && m1.terminal(id).remote_connections > 0 {
        let t = m1.terminal(id);
        m1.with_terminal(id, t.with_connections(t.remote_connections - 1))
    } else {
        m1
    }
}

/// A session that ended: it is no longer counted, and it is detached from its terminal.
pub open spec fn ended(w: WsView) -> WsView {
    WsView {
        count: w.count - 1,
        manager: match w.session.attached {
            Some(id) => without_client(w.manager, id, w.session.renderer),
            None => w.manager,
        },
        session: SessionView { open: false, ..w.session },
    }
}

/// An error message to the client.
pub open spec fn error_message(message: Seq<char>) -> ServerMessageView {
    ServerMessageView::Error { message }
}

/// The client names a terminal.
pub open spec fn attach_step(w: WsView, id: Seq<char>) -> (WsView, WsActionView) {
    if !w.manager.tracks(id) {
        (ended(w), WsActionView::Close(Some(error_message(not_found(id)))))
    } else if w.manager.terminal(id).remote_connections >= MAX_CONNECTIONS_PER_TERMINAL {
        (
            ended(w),
            WsActionView::Close(
                Some(error_message("Connection limit per terminal reached (10)"@)),
            ),
        )
    } else {
        (
            WsView {
                manager: with_client(w.manager, id, w.session.renderer),
                session: SessionView { attached: Some(id), ..w.session },
                ..w
            },
            WsActionView::TrySend(ServerMessageView::Connected { terminal_id: id }),
        )
    }
}

/// An event before the client named a terminal.
pub open spec fn waiting_step(w: WsView, event: WsEventView) -> (WsView, WsActionView) {
    match event {
        WsEventView::Text(Some(ClientMessageView::Attach { terminal_id })) => attach_step(
            w,
            terminal_id,
        ),
        WsEventView::Text(_) => (
            w,
            WsActionView::TrySend(error_message("Expected attach message"@)),
        ),
        WsEventView::SendFailed | WsEventView::PeerClosed => (ended(w), WsActionView::Close(None)),
        WsEventView::AttachTimedOut => (
            ended(w),
            WsActionView::Close(Some(error_message("Attach timeout"@))),
        ),
        _ => (w, WsActionView::Wait),
    }
}

/// What a message of the client of a terminal does. The size of the client does not matter: the
/// terminal is shared with the desktop.
pub open spec fn input_step(
    m: ManagerView,
    id: Seq<char>,
    message: ClientMessageView,
    now: u64,
) -> (ManagerView, WsActionView) {
    match message {
        ClientMessageView::Input { data } => if m.tracks(id) {
            (
                m.with_terminal(id, m.terminal(id).used(now)),
                WsActionView::Write { terminal_id: id, data },
            )
        } else {
            (m, WsActionView::Wait)
        },
        ClientMessageView::Resize { .. } => (m, WsActionView::Wait),
        ClientMessageView::Attach { .. } => (
            m,
            WsActionView::TrySend(error_message("Re-attach not supported. Reconnect."@)),
        ),
    }
}

/// An event while the client is attached to a terminal.
pub open spec fn relay_step(w: WsView, id: Seq<char>, event: WsEventView, now: u64) -> (
    WsView,
    WsActionView,
) {
    match event {
        WsEventView::NoOutput => (
            ended(w),
            WsActionView::Close(Some(error_message(not_found(id)))),
        ),
        WsEventView::Output(bytes) => (
            w,
            WsActionView::Send(ServerMessageView::Data { data: utf8_lossy(bytes) }),
        ),
        WsEventView::OutputEnded => (
            ended(w),
            WsActionView::Close(Some(ServerMessageView::Exit { terminal_id: id })),
        ),
        WsEventView::Text(Some(message)) => {
            let (manager, action) = input_step(w.manager, id, message, now);
            (WsView { manager, ..w }, action)
        },
        WsEventView::SendFailed | WsEventView::PeerClosed | WsEventView::ReceiveFailed => (
            ended(w),
            WsActionView::Close(None),
        ),
        WsEventView::PingDue => (w, WsActionView::Ping),
        _ => (w, WsActionView::Wait),
    }
}

/// An event of a session. One that ended does nothing more.
pub open spec fn ws_step(w: WsView, event: WsEventView, now: u64) -> (WsView, WsActionView) {
    if !w.session.open {
        (w, WsActionView::Wait)
    } else {
        match w.session.attached {
            None => waiting_step(w, event),
            Some(id) => relay_step(w, id, event, now),
        }
    }
}

// ---------------------------------------------------------------------------------------------
// The session
// ---------------------------------------------------------------------------------------------

/// A client of the server.
pub struct WsSession {
    renderer_id: String,
    terminal_id: Option<String>,
    open: bool,
}

impl View for WsSession {
    type V = SessionView;

    closed spec fn view(&self) -> SessionView {
        SessionView {
            renderer: self.renderer_id@,
            attached: match self.terminal_id {
                Some(id) => Some(id@),
                None => None,
            },
            open: self.open,
        }
    }
}

/// A session that begins, and what is to be done for it first.
pub struct Welcome {
    pub session: WsSession,
    pub action: WsAction,
}

/// A session and what it works on.
pub open spec fn together(state: AppState, manager: PtyManager, session: WsSession) -> WsView {
    WsView { count: state.connection_count as int, manager: manager@, session: session@ }
}

/// Two states of the server differ in the number of sessions alone.
pub open spec fn same_server(a: AppState, b: AppState) -> bool {
    a.auth == b.auth && a.port == b.port
}

impl WsSession {
    /// A client came: it is counted, unless there are as many as there may be, and gets a list of
    /// the terminals. It is to show a terminal under this name.
    pub fn connect_as(state: &mut AppState, manager: &PtyManager, renderer_id: String) -> (welcome:
        Option<Welcome>)
        ensures
            same_server(*final(state), *old(state)),
            if old(state).connection_count >= MAX_TOTAL_CONNECTIONS {
                welcome is None && final(state).connection_count == old(state).connection_count
            } else {
                &&& welcome is Some
                &&& final(state).connection_count == old(state).connection_count + 1
                &&& welcome->0.session@ == (SessionView {
                    renderer: renderer_id@,
                    attached: None,
                    open: true,
                })
                &&& welcome->0.action@ == WsActionView::Send(
                    ServerMessageView::TerminalList {
                        terminals: manager@.terminals.map_values(|t: TerminalView| t.info()),
                    },
                )
            },
    {
        if state.connection_count >= MAX_TOTAL_CONNECTIONS {
            return None;
        }
        state.connection_count += 1;
        let session = WsSession { renderer_id, terminal_id: None, open: true };
        let terminals = manager.list_active();
        let action = WsAction::Send(ServerMessage::TerminalList { terminals });
        Some(Welcome { session, action })
    }

    /// A client came. It is to show a terminal under a name that no other has.
    pub fn connect(state: &mut AppState, manager: &PtyManager) -> (welcome: Option<
        Welcome,
    >)
        ensures
            same_server(*final(state), *old(state)),
            if old(state).connection_count >= MAX_TOTAL_CONNECTIONS {
                welcome is None && final(state).connection_count == old(state).connection_count
            } else {
                &&& welcome is Some
                &&& final(state).connection_count == old(state).connection_count + 1
                &&& welcome->0.session@.open
                &&& welcome->0.session@.attached is None
                &&& exists|uuid: Seq<char>|
                    #[trigger] is_uuid_v4(uuid) && welcome->0.session@.renderer == "remote-ws-"@ + uuid
                &&& welcome->0.action@ == WsActionView::Send(
                    ServerMessageView::TerminalList {
                        terminals: manager@.terminals.map_values(|t: TerminalView| t.info()),
                    },
                )
            },
    {
        let uuid = random_uuid();
        let renderer_id = concat2("remote-ws-", uuid.as_str());
        assert(is_uuid_v4(uuid@));
        WsSession::connect_as(state, manager, renderer_id)
    }

    /// Is the session still on?
    pub fn is_open(&self) -> (open: bool)
        ensures
            open == self@.open,
    {
        self.open
    }

    fn end(&mut self, state: &mut AppState, manager: &mut PtyManager)
        requires
            old(self)@.open,
            old(state).connection_count > 0,
            old(manager)@.wf(),
        ensures
            same_server(*final(state), *old(state)),
            final(manager)@.wf(),
            together(*final(state), *final(manager), *final(self)) == ended(
                together(*old(state), *old(manager), *old(self)),
            ),
    {
        match &self.terminal_id {
            Some(id) => {
                let _ = manager.remove_renderer_ref(id.as_str(), self.renderer_id.as_str());
                manager.remove_remote_connection(id.as_str());
            },
            None => {},
        }
        state.connection_count -= 1;
        self.open = false;
    }

    fn attach(&mut self, state: &mut AppState, manager: &mut PtyManager, id: String) -> (action:
        WsAction)
        requires
            old(self)@.open,
            old(self)@.attached is None,
            old(state).connection_count > 0,
            old(manager)@.wf(),
        ensures
            same_server(*final(state), *old(state)),
            final(manager)@.wf(),
            (together(*final(state), *final(manager), *final(self)), action@) == attach_step(
                together(*old(state), *old(manager), *old(self)),
                id@,
            ),
    {
        match manager.try_add_remote_connection(id.as_str(), MAX_CONNECTIONS_PER_TERMINAL) {
            None => {
                self.end(state, manager);
                WsAction::Close(
                    Some(
                        ServerMessage::Error {
                            message: concat2("Terminal not found: ", id.as_str()),
                        },
                    ),
                )
            },
            Some(false) => {
                self.end(state, manager);
                WsAction::Close(
                    Some(
                        ServerMessage::Error {
                            message: "Connection limit per terminal reached (10)".to_owned(),
                        },
                    ),
                )
            },
            Some(true) => {
                proof {
                    let t = old(manager)@.terminal(id@);
                    lemma_tracked(old(manager)@, id@);
                    lemma_with_terminal(
                        old(manager)@,
                        id@,
                        t.with_connections(t.remote_connections + 1),
                    );
                }
                let _ = manager.add_renderer_ref(id.as_str(), self.renderer_id.as_str());
                let shown = id.clone();
                self.terminal_id = Some(id);
                WsAction::TrySend(ServerMessage::Connected { terminal_id: shown })
            },
        }
    }

    fn wait_for_attach(
        &mut self,
        state: &mut AppState,
        manager: &mut PtyManager,
        event: WsEvent,
    ) -> (action: WsAction)
        requires
            old(self)@.open,
            old(self)@.attached is None,
            old(state).connection_count > 0,
            old(manager)@.wf(),
        ensures
            same_server(*final(state), *old(state)),
            final(manager)@.wf(),
            (together(*final(state), *final(manager), *final(self)), action@) == waiting_step(
                together(*old(state), *old(manager), *old(self)),
                event@,
            ),
    {
        match event {
            WsEvent::Text(Some(ClientMessage::Attach { terminal_id })) => self.attach(
                state,
                manager,
                terminal_id,
            ),
            WsEvent::Text(_) => WsAction::TrySend(
                ServerMessage::Error { message: "Expected attach message".to_owned() },
            ),
            WsEvent::SendFailed => {
                self.end(state, manager);
                WsAction::Close(None)
            },
            WsEvent::PeerClosed => {
                self.end(state, manager);
                WsAction::Close(None)
            },
            WsEvent::AttachTimedOut => {
                self.end(state, manager);
                WsAction::Close(
                    Some(ServerMessage::Error { message: "Attach timeout".to_owned() }),
                )
            },
            _ => WsAction::Wait,
        }
    }

    fn relay(
        &mut self,
        state: &mut AppState,
        manager: &mut PtyManager,
        id: &str,
        event: WsEvent,
        now: u64,
    ) -> (action: WsAction)
        requires
            old(self)@.open,
            old(self)@.attached == Some(id@),
            old(state).connection_count > 0,
            old(manager)@.wf(),
        ensures
            same_server(*final(state), *old(state)),
            final(manager)@.wf(),
            (together(*final(state), *final(manager), *final(self)), action@) == relay_step(
                together(*old(state), *old(manager), *old(self)),
                id@,
                event@,
                now,
            ),
    {
        match event {
            WsEvent::Output(bytes) => {
                let data = from_utf8_lossy(bytes.as_slice());
                WsAction::Send(ServerMessage::Data { data })
            },
            WsEvent::NoOutput => {
                self.end(state, manager);
                let message = concat2("Terminal not found: ", id);
                WsAction::Close(Some(ServerMessage::Error { message }))
            },
            WsEvent::OutputEnded => {
                self.end(state, manager);
                WsAction::Close(Some(ServerMessage::Exit { terminal_id: id.to_owned() }))
            },
            WsEvent::Text(Some(message)) => handle_client_input(manager, id, message, now),
            WsEvent::SendFailed => {
                self.end(state, manager);
                WsAction::Close(None)
            },
            WsEvent::PeerClosed => {
                self.end(state, manager);
                WsAction::Close(None)
            },
            WsEvent::ReceiveFailed => {
                self.end(state, manager);
                WsAction::Close(None)
            },
            WsEvent::PingDue => WsAction::Ping,
            _ => WsAction::Wait,
        }
    }
}

/// A message of a client that is attached to a terminal.
pub fn handle_client_input(
    manager: &mut PtyManager,
    terminal_id: &str,
    message: ClientMessage,
    now: u64,
) -> (action: WsAction)
    requires
        old(manager)@.wf(),
    ensures
        final(manager)@.wf(),
        (final(manager)@, action@) == input_step(old(manager)@, terminal_id@, message@, now),
{
    match message {
        ClientMessage::Input { data } => match manager.write(terminal_id, now) {
            Ok(()) => WsAction::Write { terminal_id: terminal_id.to_owned(), data },
            Err(_) => WsAction::Wait,
        },
        ClientMessage::Resize { cols: _, rows: _ } => WsAction::Wait,
        ClientMessage::Attach { terminal_id: _ } => WsAction::TrySend(
            ServerMessage::Error { message: "Re-attach not supported. Reconnect.".to_owned() },
        ),
    }
}

/// Takes a session one event further, and says what is to be done for it.
pub fn handle_terminal_ws(
    state: &mut AppState,
    manager: &mut PtyManager,
    session: &mut WsSession,
    event: WsEvent,
    now: u64,
) -> (action: WsAction)
    requires
        old(manager)@.wf(),
        old(session)@.open ==> old(state).connection_count > 0,
    ensures
        same_server(*final(state), *old(state)),
        final(manager)@.wf(),
        (together(*final(state), *final(manager), *final(session)), action@) == ws_step(
            together(*old(state), *old(manager), *old(session)),
            event@,
            now,
        ),
{
    if !session.open {
        return WsAction::Wait;
    }
    let attached = match &session.terminal_id {
        Some(id) => Some(id.clone()),
        None => None,
    };
    match attached {
        None => session.wait_for_attach(state, manager, event),
        Some(id) => session.relay(state, manager, id.as_str(), event, now),
    }
}

// ---------------------------------------------------------------------------------------------
// Laws
// ---------------------------------------------------------------------------------------------

pub(crate) proof fn lemma_tracked(m: ManagerView, id: Seq<char>)
    requires
        m.tracks(id),
    ensures
        0 <= m.place(id) < m.terminals.len(),
        m.terminal(id).id == id,
{
    assert(is_id_at(m.terminals, id, m.place(id)));
}

pub(crate) proof fn lemma_with_terminal(m: ManagerView, id: Seq<char>, t: TerminalView)
    requires
        m.wf(),
        m.tracks(id),
        t.id == id,
    ensures
        m.with_terminal(id, t).wf(),
        m.with_terminal(id, t).tracks(id),
        m.with_terminal(id, t).place(id) == m.place(id),
        m.with_terminal(id, t).terminal(id) == t,
{
    let p = m.place(id);
    assert(is_id_at(m.terminals, id, p));
    let after = m.with_terminal(id, t);
    assert(is_id_at(after.terminals, id, p));
    assert(ids_differ(after.terminals)) by {
        assert forall|i: int, j: int|
            #![trigger after.terminals[i], after.terminals[j]]
            0 <= i < j < after.terminals.len() implies after.terminals[i].id
            != after.terminals[j].id by {
            assert(m.terminals[i] == m.terminals[i] && m.terminals[j] == m.terminals[j]);
        }
    }
    assert forall|i: int|
        #![trigger after.terminals[i]]
        0 <= i < after.terminals.len() implies after.broadcasts.contains(
        after.terminals[i].id,
    ) by {
        assert(m.terminals[i] == m.terminals[i]);
    }
    lemma_place(after, id, p);
}

/// A client that attaches to a terminal and then leaves, with nothing between, leaves the terminals
/// as they were.
pub proof fn law_session_leaves_no_trace(m: ManagerView, id: Seq<char>, renderer: Seq<char>)
    requires
        m.wf(),
        m.tracks(id),
        m.terminal(id).remote_connections < MAX_CONNECTIONS_PER_TERMINAL,
        !m.terminal(id).renderer_refs.contains(renderer),
    ensures
        without_client(with_client(m, id, renderer), id, renderer) == m,
{
    let t = m.terminal(id);
    lemma_tracked(m, id);
    let t1 = t.with_connections(t.remote_connections + 1);
    let m1 = m.with_terminal(id, t1);
    lemma_with_terminal(m, id, t1);
    let t2 = t1.shown_by(renderer);
    let m2 = m1.with_terminal(id, t2);
    lemma_with_terminal(m1, id, t2);
    let t3 = t2.not_shown_by(renderer);
    let m3 = m2.with_terminal(id, t3);
    lemma_with_terminal(m2, id, t3);
    let t4 = t3.with_connections(t3.remote_connections - 1);
    let m4 = m3.with_terminal(id, t4);
    assert(t3.renderer_refs =~= t.renderer_refs);
    assert(t4 =~= t);
    assert(m4.terminals =~= m.terminals);
    assert(m4 =~= m);
}

/// While a client is attached, its terminal is shown, so that no sweep takes it for an orphan, and
/// no more clients are attached than may be.
pub proof fn law_attached_terminal_is_shown(m: ManagerView, id: Seq<char>, renderer: Seq<char>)
    requires
        m.wf(),
        m.tracks(id),
        m.terminal(id).remote_connections < MAX_CONNECTIONS_PER_TERMINAL,
    ensures
        ({
            let after = with_client(m, id, renderer);
            &&& after.wf()
            &&& after.tracks(id)
            &&& after.terminal(id).renderer_refs.contains(renderer)
            &&& !after.terminal(id).orphaned()
            &&& after.terminal(id).remote_connections == m.terminal(id).remote_connections + 1
            &&& after.terminal(id).remote_connections <= MAX_CONNECTIONS_PER_TERMINAL
        }),
{
    let t = m.terminal(id);
    lemma_tracked(m, id);
    let t1 = t.with_connections(t.remote_connections + 1);
    lemma_with_terminal(m, id, t1);
    let m1 = m.with_terminal(id, t1);
    lemma_with_terminal(m1, id, t1.shown_by(renderer));
    assert(t1.shown_by(renderer).renderer_refs.contains(renderer));
}

/// A session that ended shows no terminal any more, and is not among the clients of one.
pub proof fn law_ended_session_is_detached(w: WsView, id: Seq<char>)
    requires
        w.manager.wf(),
        w.session.attached == Some(id),
        w.manager.tracks(id),
        w.manager.terminal(id).remote_connections > 0,
    ensures
        ({
            let after = ended(w).manager;
            let t = w.manager.terminal(id);
            &&& after.tracks(id)
            &&& !after.terminal(id).renderer_refs.contains(w.session.renderer)
            &&& after.terminal(id).remote_connections == t.remote_connections - 1
        }),
{
    let m = w.manager;
    lemma_tracked(m, id);
    let t1 = m.terminal(id).not_shown_by(w.session.renderer);
    lemma_with_terminal(m, id, t1);
    let m1 = m.with_terminal(id, t1);
    lemma_with_terminal(m1, id, t1.with_connections(t1.remote_connections - 1));
}

/// However a session ends, it is taken off the count once: with the event that ends it, and with no
/// other. The end always closes the socket, and nothing else does.
pub proof fn law_sessions_are_counted_once(w: WsView, event: WsEventView, now: u64)
    ensures
        ({
            let (after, action) = ws_step(w, event, now);
            &&& after.count == if w.session.open && !after.session.open {
                w.count - 1
            } else {
                w.count
            }
            &&& !w.session.open ==> after == w
            &&& action is Close <==> w.session.open && !after.session.open
        }),
{
}

/// A client never changes the size of a terminal, whatever it sends.
pub proof fn law_clients_do_not_resize(w: WsView, event: WsEventView, now: u64, i: int)
    requires
        w.manager.wf(),
        0 <= i < w.manager.terminals.len(),
    ensures
        ({
            let after = ws_step(w, event, now).0.manager;
            &&& after.terminals.len() == w.manager.terminals.len()
            &&& after.terminals[i].id == w.manager.terminals[i].id
            &&& after.terminals[i].cols == w.manager.terminals[i].cols
            &&& after.terminals[i].rows == w.manager.terminals[i].rows
        }),
{
    let m = w.manager;
    let r = w.session.renderer;
    match w.session.attached {
        Some(id) => {
            if m.tracks(id) {
                lemma_tracked(m, id);
                let t1 = m.terminal(id).not_shown_by(r);
                lemma_with_terminal(m, id, t1);
                let m1 = m.with_terminal(id, t1);
                lemma_with_terminal(m1, id, t1.with_connections(t1.remote_connections - 1));
                lemma_with_terminal(m, id, m.terminal(id).used(now));
            }
        },
        None => {
            if event is Text && event->Text_0 is Some && event->Text_0->0 is Attach {
                let id = event->Text_0->0->terminal_id;
                if m.tracks(id) {
                    let t = m.terminal(id);
                    lemma_tracked(m, id);
                    let t1 = t.with_connections(t.remote_connections + 1);
                    lemma_with_terminal(m, id, t1);
                    let m1 = m.with_terminal(id, t1);
                    lemma_with_terminal(m1, id, t1.shown_by(r));
                }
            }
        },
    }
}

/// A session and what it works on after several events, each with its time.
pub open spec fn ws_run(w: WsView, events: Seq<(WsEventView, u64)>) -> WsView
    decreases events.len(),
{
    if events.len() == 0 {
        w
    } else {
        ws_step(ws_run(w, events.drop_last()), events.last().0, events.last().1).0
    }
}

/// The managers differ at most in when terminals were last used.
pub open spec fn same_but_use(a: ManagerView, b: ManagerView) -> bool {
    &&& a == (ManagerView { terminals: a.terminals, ..b })
    &&& a.terminals.len() == b.terminals.len()
    &&& forall|i: int|
        #![trigger a.terminals[i]]
        0 <= i < a.terminals.len() ==> a.terminals[i].used(0) == b.terminals[i].used(0)
}

/// No terminal is shown under the name.
pub open spec fn is_new_name(m: ManagerView, renderer: Seq<char>) -> bool {
    forall|i: int|
        #![trigger m.terminals[i]]
        0 <= i < m.terminals.len() ==> !m.terminals[i].renderer_refs.contains(renderer)
}

/// The terminal with a client attached to it, used at this time.
spec fn attached_terminal(t: TerminalView, renderer: Seq<char>, time: u64) -> TerminalView {
    t.with_connections(t.remote_connections + 1).shown_by(renderer).used(time)
}

/// The manager with a client attached to a terminal that was used at this time.
spec fn attached_state(m: ManagerView, id: Seq<char>, renderer: Seq<char>, time: u64) -> ManagerView {
    m.with_terminal(id, attached_terminal(m.terminal(id), renderer, time))
}

/// What holds of a session that began with this manager, event for event.
spec fn keeps_track(m: ManagerView, start: int, w: WsView) -> bool {
    if w.session.open {
        &&& w.count == start
        &&& match w.session.attached {
            None => w.manager == m,
            Some(id) => {
                &&& m.tracks(id)
                &&& m.terminal(id).remote_connections < MAX_CONNECTIONS_PER_TERMINAL
                &&& w.manager == attached_state(
                    m,
                    id,
                    w.session.renderer,
                    w.manager.terminal(id).last_activity,
                )
            },
        }
    } else {
        w.count == start - 1 && same_but_use(w.manager, m)
    }
}

proof fn lemma_detached(m: ManagerView, id: Seq<char>, renderer: Seq<char>, time: u64)
    requires
        m.wf(),
        m.tracks(id),
        is_new_name(m, renderer),
        m.terminal(id).remote_connections < MAX_CONNECTIONS_PER_TERMINAL,
    ensures
        same_but_use(
            without_client(attached_state(m, id, renderer, time), id, renderer),
            m,
        ),
{
    lemma_tracked(m, id);
    let t = m.terminal(id);
    let t1 = attached_terminal(t, renderer, time);
    let m1 = m.with_terminal(id, t1);
    lemma_with_terminal(m, id, t1);
    let t2 = t1.not_shown_by(renderer);
    let m2 = m1.with_terminal(id, t2);
    lemma_with_terminal(m1, id, t2);
    let t3 = t2.with_connections(t2.remote_connections - 1);
    let m3 = m2.with_terminal(id, t3);
    assert(m.terminals[m.place(id)] == t);
    assert(t3.renderer_refs =~= t.renderer_refs);
    assert(t3.used(0) =~= t.used(0));
    assert(m3 == without_client(m1, id, renderer));
    assert(m3.broadcasts == m.broadcasts);
    assert forall|i: int|
        #![trigger m3.terminals[i]]
        0 <= i < m3.terminals.len() implies m3.terminals[i].used(0) == m.terminals[i].used(0) by {
        if i != m.place(id) {
            assert(m3.terminals[i] == m.terminals[i]);
        }
    }
}

proof fn lemma_keeps_track(m: ManagerView, start: int, w: WsView, event: WsEventView, now: u64)
    requires
        m.wf(),
        is_new_name(m, w.session.renderer),
        keeps_track(m, start, w),
    ensures
        keeps_track(m, start, ws_step(w, event, now).0),
        ws_step(w, event, now).0.session.renderer == w.session.renderer,
{
    let r = w.session.renderer;
    let after = ws_step(w, event, now).0;
    if w.session.open {
        match w.session.attached {
            None => {
                if event is Text && event->Text_0 is Some && event->Text_0->0 is Attach {
                    let id = event->Text_0->0->terminal_id;
                    if after.session.open {
                        let t = m.terminal(id);
                        lemma_tracked(m, id);
                        let t1 = t.with_connections(t.remote_connections + 1);
                        lemma_with_terminal(m, id, t1);
                        let whole = attached_terminal(t, r, t.last_activity);
                        let expected = attached_state(m, id, r, t.last_activity);
                        lemma_with_terminal(m, id, whole);
                        assert(whole =~= t1.shown_by(r));
                        assert(after.manager.terminals =~= expected.terminals);
                        assert(after.manager == expected);
                    }
                }
            },
            Some(id) => {
                let time = w.manager.terminal(id).last_activity;
                let t = m.terminal(id);
                lemma_tracked(m, id);
                lemma_with_terminal(m, id, attached_terminal(t, r, time));
                if !after.session.open {
                    lemma_detached(m, id, r, time);
                } else if event is Text && event->Text_0 is Some && event->Text_0->0 is Input {
                    let expected = attached_state(m, id, r, now);
                    lemma_with_terminal(m, id, attached_terminal(t, r, now));
                    assert(after.manager.terminals =~= expected.terminals);
                    assert(after.manager == expected);
                } else {
                    assert(after.manager == w.manager);
                }
            },
        }
    }
}

proof fn lemma_run_keeps_track(w: WsView, events: Seq<(WsEventView, u64)>)
    requires
        w.manager.wf(),
        w.session.open,
        w.session.attached is None,
        is_new_name(w.manager, w.session.renderer),
    ensures
        keeps_track(w.manager, w.count, ws_run(w, events)),
        ws_run(w, events).session.renderer == w.session.renderer,
    decreases events.len(),
{
    if events.len() > 0 {
        lemma_run_keeps_track(w, events.drop_last());
        lemma_keeps_track(
            w.manager,
            w.count,
            ws_run(w, events.drop_last()),
            events.last().0,
            events.last().1,
        );
    }
}

/// Whatever happens to a session, once it has ended it has given back what it took: it is off the
/// count, and the terminals are as they were before it, but for when they were last used.
pub proof fn law_session_gives_back_what_it_took(w: WsView, events: Seq<(WsEventView, u64)>)
    requires
        w.manager.wf(),
        w.session.open,
        w.session.attached is None,
        is_new_name(w.manager, w.session.renderer),
        !ws_run(w, events).session.open,
    ensures
        ws_run(w, events).count == w.count - 1,
        same_but_use(ws_run(w, events).manager, w.manager),
{
    lemma_run_keeps_track(w, events);
}

/// Until a session has ended it is counted, whatever happens to it.
pub proof fn law_open_session_is_counted(w: WsView, events: Seq<(WsEventView, u64)>)
    requires
        w.manager.wf(),
        w.session.open,
        w.session.attached is None,
        is_new_name(w.manager, w.session.renderer),
        ws_run(w, events).session.open,
    ensures
        ws_run(w, events).count == w.count,
{
    lemma_run_keeps_track(w, events);
}

}
