//! What a client of the server gets and what it leaves behind, whatever happens to it.
use super::server::AppState;
use super::ws::{
    handle_client_input, handle_terminal_ws, lemma_tracked, lemma_with_terminal, ClientMessage,
    Welcome, WsAction, WsEvent, WsSession,
};
use super::{
    ATTACH_TIMEOUT_SECS, BROADCAST_CAPACITY, MAX_CONNECTIONS_PER_TERMINAL,
    MAX_TOTAL_CONNECTIONS, PING_INTERVAL_SECS,
};
use crate::pty::instance::TerminalView;
use crate::pty::manager::{ManagerView, PtyManager};
use crate::pty::use_laws::{differ_in, has_the_same_size, is_watched_the_same, runs_the_same};
use crate::text::utf8_lossy;
use vstd::prelude::*;

verus! {

/// The terminal is as it was but for who shows and follows it: one client less does.
pub open spec fn lost_a_client(a: TerminalView, b: TerminalView, renderer: Seq<char>) -> bool {
    &&& !a.renderer_refs.contains(renderer)
    &&& forall|r: Seq<char>|
        r != renderer ==> (#[trigger] a.renderer_refs.contains(r) <==> b.renderer_refs.contains(r))
    &&& a.remote_connections == if b.remote_connections > 0 {
        b.remote_connections - 1
    } else {
        0
    }
    &&& runs_the_same(a, b) && has_the_same_size(a, b)
    &&& a.last_activity == b.last_activity
    &&& a.kill_deferred == b.kill_deferred
}

proof fn lemma_lost(m: ManagerView, id: Seq<char>, renderer: Seq<char>)
    requires
        m.wf(),
        m.tracks(id),
    ensures
        differ_in(super::ws::without_client(m, id, renderer), m, id),
        lost_a_client(
            super::ws::without_client(m, id, renderer).terminal(id),
            m.terminal(id),
            renderer,
        ),
{
    lemma_tracked(m, id);
    let t1 = m.terminal(id).not_shown_by(renderer);
    lemma_with_terminal(m, id, t1);
    let m1 = m.with_terminal(id, t1);
    if t1.remote_connections > 0 {
        lemma_with_terminal(m1, id, t1.with_connections(t1.remote_connections - 1));
    }
    let after = super::ws::without_client(m, id, renderer);
    let p = m.place(id);
    assert forall|i: int|
        #![trigger after.terminals[i]]
        0 <= i < after.terminals.len() && after.terminals[i].id != id implies after.terminals[i]
        == m.terminals[i] by {
        assert(i != p);
    }
}

/// Whatever takes the client of a terminal away ends its session: the client leaves, the socket fails
/// either way, or the output ends or cannot be followed. The session is then closed and off the count,
/// it no longer shows the terminal, and it is not among the clients of the terminal.
pub proof fn law_client_that_leaves_is_gone(
    state: &mut AppState,
    manager: &mut PtyManager,
    session: &mut WsSession,
    event: WsEvent,
    now: u64,
    action: WsAction,
    id: Seq<char>,
)
    requires
        old(manager)@.wf(),
        old(session)@.open,
        old(session)@.attached == Some(id),
        event is PeerClosed || event is ReceiveFailed || event is SendFailed || event is OutputEnded
            || event is NoOutput,
        call_ensures(handle_terminal_ws, (state, manager, session, event, now), action),
    ensures
        !final(session)@.open,
        action is Close,
        final(state).connection_count == old(state).connection_count - 1,
        old(manager)@.tracks(id) ==> {
            &&& differ_in(final(manager)@, old(manager)@, id)
            &&& lost_a_client(
                final(manager)@.terminal(id),
                old(manager)@.terminal(id),
                old(session)@.renderer,
            )
        },
        !old(manager)@.tracks(id) ==> final(manager)@ == old(manager)@,
{
    if old(manager)@.tracks(id) {
        lemma_lost(old(manager)@, id, old(session)@.renderer);
    }
}

/// A client is told why its session ends where it can still hear it: the terminal ended, or it was
/// not found.
pub proof fn law_client_is_told_why(
    state: &mut AppState,
    manager: &mut PtyManager,
    session: &mut WsSession,
    event: WsEvent,
    now: u64,
    action: WsAction,
    id: Seq<char>,
)
    requires
        old(session)@.open,
        old(session)@.attached == Some(id),
        call_ensures(handle_terminal_ws, (state, manager, session, event, now), action),
    ensures
        event is OutputEnded ==> action is Close && action->Close_0 is Some && action->Close_0->0
            is Exit && action->Close_0->0->Exit_terminal_id@ == id,
        event is NoOutput ==> action is Close && action->Close_0 is Some && action->Close_0->0
            is Error && action->Close_0->0->Error_message@ == "Terminal not found: "@ + id,
        event is PeerClosed || event is ReceiveFailed || event is SendFailed ==> action is Close
            && action->Close_0 is None,
{
}

/// Output of the terminal is sent to its client, all of it, as text; input of the client is written to
/// its terminal, as it is, and to no other.
pub proof fn law_output_and_input_are_passed_on(
    state: &mut AppState,
    manager: &mut PtyManager,
    session: &mut WsSession,
    event: WsEvent,
    now: u64,
    action: WsAction,
    id: Seq<char>,
)
    requires
        old(manager)@.wf(),
        old(session)@.open,
        old(session)@.attached == Some(id),
        call_ensures(handle_terminal_ws, (state, manager, session, event, now), action),
    ensures
        event is Output ==> {
            &&& action is Send
            &&& action->Send_0 is Data
            &&& action->Send_0->data@ == utf8_lossy(event->Output_0@)
            &&& final(manager)@ == old(manager)@
        },
        event is Text && event->Text_0 is Some && event->Text_0->0 is Input ==> {
            let data = event->Text_0->0->Input_data@;
            if old(manager)@.tracks(id) {
                let a = final(manager)@.terminal(id);
                let b = old(manager)@.terminal(id);
                &&& action is Write
                &&& action->terminal_id@ == id
                &&& action->Write_data@ == data
                &&& differ_in(final(manager)@, old(manager)@, id)
                &&& a.last_activity == now
                &&& runs_the_same(a, b) && has_the_same_size(a, b) && is_watched_the_same(a, b)
            } else {
                action is Wait && final(manager)@ == old(manager)@
            }
        },
        event is Text && event->Text_0 is Some && event->Text_0->0 is Resize ==> action is Wait
            && final(manager)@ == old(manager)@,
        event is Text && event->Text_0 is Some && event->Text_0->0 is Attach ==> {
            &&& action is TrySend
            &&& action->TrySend_0 is Error
            &&& action->TrySend_0->Error_message@ == "Re-attach not supported. Reconnect."@
            &&& final(manager)@ == old(manager)@
        },
        event is PingDue ==> action is Ping && final(manager)@ == old(manager)@,
        event is Lagged || event is Other || event is AttachTimedOut || (event is Text
            && event->Text_0 is None) ==> action is Wait && final(manager)@ == old(manager)@,
        event is Output || event is Text || event is PingDue || event is Lagged || event is Other
            || event is AttachTimedOut ==> {
            &&& final(session)@.open
            &&& final(session)@.attached == Some(id)
            &&& final(session)@.renderer == old(session)@.renderer
            &&& final(state).connection_count == old(state).connection_count
        },
{
    let m = old(manager)@;
    if m.tracks(id) {
        lemma_tracked(m, id);
        let t = m.terminal(id).used(now);
        lemma_with_terminal(m, id, t);
        let after = m.with_terminal(id, t);
        let p = m.place(id);
        assert forall|i: int|
            #![trigger after.terminals[i]]
            0 <= i < after.terminals.len() && after.terminals[i].id != id implies after.terminals[i]
            == m.terminals[i] by {
            assert(i != p);
        }
    }
}

/// The terminal is as it was but for who shows and follows it: one client more does.
pub open spec fn got_a_client(a: TerminalView, b: TerminalView, renderer: Seq<char>) -> bool {
    &&& a.renderer_refs.contains(renderer)
    &&& forall|r: Seq<char>|
        r != renderer ==> (#[trigger] a.renderer_refs.contains(r) <==> b.renderer_refs.contains(r))
    &&& a.remote_connections == b.remote_connections + 1
    &&& runs_the_same(a, b) && has_the_same_size(a, b)
    &&& a.last_activity == b.last_activity
    &&& a.kill_deferred == b.kill_deferred
}

/// A client that names a terminal is attached to that terminal exactly where there is one with fewer
/// than ten clients, and is told so. Elsewhere it is told why not, and its session ends.
pub proof fn law_client_attaches(
    state: &mut AppState,
    manager: &mut PtyManager,
    session: &mut WsSession,
    terminal_id: String,
    now: u64,
    action: WsAction,
)
    requires
        old(manager)@.wf(),
        old(session)@.open,
        old(session)@.attached is None,
        call_ensures(
            handle_terminal_ws,
            (
                state,
                manager,
                session,
                WsEvent::Text(Some(ClientMessage::Attach { terminal_id })),
                now,
            ),
            action,
        ),
    ensures
        ({
            let id = terminal_id@;
            let m = old(manager)@;
            if m.tracks(id) && m.terminal(id).remote_connections < 10 {
                &&& action is TrySend
                &&& action->TrySend_0 is Connected
                &&& action->TrySend_0->Connected_terminal_id@ == id
                &&& final(session)@.open
                &&& final(session)@.attached == Some(id)
                &&& final(session)@.renderer == old(session)@.renderer
                &&& final(state).connection_count == old(state).connection_count
                &&& differ_in(final(manager)@, m, id)
                &&& got_a_client(
                    final(manager)@.terminal(id),
                    m.terminal(id),
                    old(session)@.renderer,
                )
            } else {
                &&& action is Close
                &&& action->Close_0 is Some
                &&& action->Close_0->0 is Error
                &&& action->Close_0->0->Error_message@ == if m.tracks(id) {
                    "Connection limit per terminal reached (10)"@
                } else {
                    "Terminal not found: "@ + id
                }
                &&& !final(session)@.open
                &&& final(state).connection_count == old(state).connection_count - 1
                &&& final(manager)@ == m
            }
        }),
{
    let id = terminal_id@;
    let m = old(manager)@;
    if m.tracks(id) && m.terminal(id).remote_connections < 10 {
        lemma_tracked(m, id);
        let t = m.terminal(id);
        let t1 = t.with_connections(t.remote_connections + 1);
        lemma_with_terminal(m, id, t1);
        let m1 = m.with_terminal(id, t1);
        lemma_with_terminal(m1, id, t1.shown_by(old(session)@.renderer));
        let after = m1.with_terminal(id, t1.shown_by(old(session)@.renderer));
        let p = m.place(id);
        assert forall|i: int|
            #![trigger after.terminals[i]]
            0 <= i < after.terminals.len() && after.terminals[i].id != id implies after.terminals[i]
            == m.terminals[i] by {
            assert(i != p);
        }
    }
}

/// Until it names a terminal, a client that leaves, cannot be reached or takes too long ends its
/// session; one that says something else is told what is expected; and everything else is waited out.
pub proof fn law_client_is_waited_for(
    state: &mut AppState,
    manager: &mut PtyManager,
    session: &mut WsSession,
    event: WsEvent,
    now: u64,
    action: WsAction,
)
    requires
        old(manager)@.wf(),
        old(session)@.open,
        old(session)@.attached is None,
        !(event is Text && event->Text_0 is Some && event->Text_0->0 is Attach),
        call_ensures(handle_terminal_ws, (state, manager, session, event, now), action),
    ensures
        final(manager)@ == old(manager)@,
        final(session)@.attached is None,
        final(session)@.open <==> !(event is PeerClosed || event is SendFailed || event
            is AttachTimedOut),
        final(session)@.open ==> final(state).connection_count == old(state).connection_count,
        !final(session)@.open ==> final(state).connection_count == old(state).connection_count - 1,
        event is PeerClosed || event is SendFailed ==> action is Close && action->Close_0 is None,
        event is AttachTimedOut ==> action is Close && action->Close_0 is Some && action->Close_0->0
            is Error && action->Close_0->0->Error_message@ == "Attach timeout"@,
        event is Text ==> action is TrySend && action->TrySend_0 is Error
            && action->TrySend_0->Error_message@ == "Expected attach message"@,
        event is ReceiveFailed || event is Other || event is NoOutput || event is Output || event
            is Lagged || event is OutputEnded || event is PingDue ==> action is Wait,
{
}

/// A session that ended does nothing more, whatever comes.
pub proof fn law_ended_session_does_nothing(
    state: &mut AppState,
    manager: &mut PtyManager,
    session: &mut WsSession,
    event: WsEvent,
    now: u64,
    action: WsAction,
)
    requires
        !old(session)@.open,
        call_ensures(handle_terminal_ws, (state, manager, session, event, now), action),
    ensures
        action is Wait,
        final(manager)@ == old(manager)@,
        final(session)@ == old(session)@,
        final(state).connection_count == old(state).connection_count,
{
}

/// A client is let in exactly where fewer than fifty are. It is counted, its session is open and
/// attached to nothing, and it is sent all the terminals there are.
pub proof fn law_client_is_welcomed(
    state: &mut AppState,
    manager: PtyManager,
    name: String,
    welcome: Option<Welcome>,
    i: int,
)
    requires
        call_ensures(WsSession::connect_as, (state, &manager, name), welcome),
    ensures
        welcome is Some <==> old(state).connection_count < 50,
        welcome is None ==> final(state).connection_count == old(state).connection_count,
        welcome is Some ==> {
            let w = welcome->0;
            &&& final(state).connection_count == old(state).connection_count + 1
            &&& w.session@.open
            &&& w.session@.attached is None
            &&& w.session@.renderer == name@
            &&& w.action is Send
            &&& w.action->Send_0 is TerminalList
            &&& w.action->Send_0->terminals@.len() == manager@.terminals.len()
            &&& 0 <= i < manager@.terminals.len() ==> {
                let told = w.action->Send_0->terminals@[i];
                let t = manager@.terminals[i];
                &&& told.id@ == t.id
                &&& told.shell@ == t.shell
                &&& told.cwd@ == t.cwd
                &&& told.pid == t.pid
                &&& told.cols == t.cols
                &&& told.rows == t.rows
            }
        },
        final(state).auth == old(state).auth,
        final(state).port == old(state).port,
{
    if welcome is Some {
        let told = welcome->0.action->Send_0->terminals@;
        let seen = crate::pty::instance::info_views(told);
        assert(seen.len() == told.len());
        if 0 <= i < told.len() {
            assert(seen[i] == told[i]@);
            assert(seen[i] == manager@.terminals[i].info());
        }
    }
}

/// A client that comes by itself is let in as one with a name is, under a name made for it.
pub proof fn law_client_gets_a_name(
    state: &mut AppState,
    manager: PtyManager,
    welcome: Option<Welcome>,
)
    requires
        call_ensures(WsSession::connect, (state, &manager), welcome),
    ensures
        welcome is Some <==> old(state).connection_count < 50,
        welcome is None ==> final(state).connection_count == old(state).connection_count,
        welcome is Some ==> {
            &&& final(state).connection_count == old(state).connection_count + 1
            &&& welcome->0.session@.open
            &&& welcome->0.session@.attached is None
            &&& welcome->0.session@.renderer.len() == 46
            &&& welcome->0.action is Send && welcome->0.action->Send_0 is TerminalList
        },
{
    reveal_strlit("remote-ws-");
}

/// A session tells whether it is still on.
pub proof fn law_session_tells_whether_it_is_on(session: WsSession, open: bool)
    requires
        call_ensures(WsSession::is_open, (&session,), open),
    ensures
        open <==> session@.open,
{
}

/// Input of a client is handled alone as it is in its session.
pub proof fn law_input_is_written_to_the_terminal(
    manager: &mut PtyManager,
    id: &str,
    message: ClientMessage,
    now: u64,
    action: WsAction,
)
    requires
        call_ensures(handle_client_input, (manager, id, message, now), action),
    ensures
        message is Input && old(manager)@.tracks(id@) ==> action is Write && action->terminal_id@
            == id@ && action->Write_data@ == message->Input_data@,
        message is Input && !old(manager)@.tracks(id@) ==> action is Wait,
        message is Resize ==> action is Wait && final(manager)@ == old(manager)@,
        message is Attach ==> action is TrySend && final(manager)@ == old(manager)@,
{
}

/// Ten clients may be attached to a terminal and fifty to all; one has half a minute to name its
/// terminal, and is asked every half minute whether it is there.
pub proof fn law_limits_of_clients()
    ensures
        MAX_CONNECTIONS_PER_TERMINAL == 10,
        MAX_TOTAL_CONNECTIONS == 50,
        ATTACH_TIMEOUT_SECS == 30,
        PING_INTERVAL_SECS == 30,
        BROADCAST_CAPACITY == 128,
{
}

}
