//! The server: where it listens, and which requests it grants.
use super::auth::{
    allows_origin, is_uuid_v4, law_own_pages_may_connect, own_address, AuthState, WsAuthQuery,
};
use super::MAX_TOTAL_CONNECTIONS;
use crate::pty::instance::{info_views, TerminalInfo, TerminalView};
use crate::pty::manager::PtyManager;
use crate::text::number::{decimal, to_decimal};
use crate::text::{concat2, concat4};
use vstd::prelude::*;

verus! {

/// What the server knows.
pub struct AppState {
    pub auth: AuthState,
    /// How many clients there are.
    pub connection_count: usize,
    /// The port that the server listens on; until it does, the one that it was asked for at.
    pub port: u16,
}

/// A server that runs.
#[derive(Debug)]
pub struct ServerHandle {
    port: u16,
    token: String,
}

/// What a server is started with.
pub struct ServerPlan {
    /// Where it is to listen.
    pub bind_addr: String,
    pub state: AppState,
}

/// Where a server listens: on this machine alone, or to the whole network.
pub open spec fn bind_address(port: u16, lan: bool) -> Seq<char> {
    (if lan {
        "0.0.0.0:"@
    } else {
        "127.0.0.1:"@
    }) + decimal(port as nat)
}

/// Where a server listens.
pub fn bind_addr(port: u16, bind_lan: bool) -> (addr: String)
    ensures
        addr@ == bind_address(port, bind_lan),
{
    let digits = to_decimal(port as u128);
    if bind_lan {
        concat2("0.0.0.0:", digits.as_str())
    } else {
        concat2("127.0.0.1:", digits.as_str())
    }
}

/// What a server is started with: a new token and no client.
pub fn start_server(port: u16, bind_lan: bool) -> (plan: ServerPlan)
    ensures
        plan.bind_addr@ == bind_address(port, bind_lan),
        is_uuid_v4(plan.state.auth@),
        plan.state.connection_count == 0,
        plan.state.port == port,
{
    let auth = AuthState::new();
    ServerPlan {
        bind_addr: bind_addr(port, bind_lan),
        state: AppState { auth, connection_count: 0, port },
    }
}

/// What is said where the server cannot listen.
pub fn bind_failure(bind_addr: &str, reason: &str) -> (message: String)
    ensures
        message@ == "Failed to bind to "@ + bind_addr@ + ": "@ + reason@,
{
    concat4("Failed to bind to ", bind_addr, ": ", reason)
}

impl ServerHandle {
    /// The port and the token of the server.
    pub closed spec fn shows(&self) -> (u16, Seq<char>) {
        (self.port, self.token@)
    }

    /// The handle of a server that listens on this port. Where any free port was asked for, it is
    /// the one that the system chose; from now on the server goes by it.
    pub fn new(state: &mut AppState, listening: u16) -> (handle: Self)
        ensures
            handle.shows() == (listening, old(state).auth@),
            final(state).port == listening,
            final(state).auth == old(state).auth,
            final(state).connection_count == old(state).connection_count,
    {
        state.port = listening;
        ServerHandle { port: listening, token: state.auth.token().to_owned() }
    }

    /// The port that the server listens on.
    pub fn port(&self) -> (port: u16)
        ensures
            port == self.shows().0,
    {
        self.port
    }

    /// What clients must know.
    pub fn token(&self) -> (token: &str)
        ensures
            token@ == self.shows().1,
    {
        self.token.as_str()
    }

    /// What is said of a server that was stopped: it ended as it should, or its task failed.
    pub fn stop(self, failure: &Option<String>) -> (result: Result<(), String>)
        ensures
            match *failure {
                Some(e) => result is Err && result->Err_0@ == "Server task panicked: "@ + e@,
                None => result is Ok,
            },
    {
        match failure {
            Some(e) => Err(concat2("Server task panicked: ", e.as_str())),
            None => Ok(()),
        }
    }
}

/// Why a request is refused.
#[derive(Debug, Clone, Copy, PartialEq, Eq, Structural)]
pub enum Refusal {
    Unauthorized,
    Forbidden,
    ServiceUnavailable,
}

impl Refusal {
    /// The number that HTTP has for it.
    pub fn status(self) -> (code: u16)
        ensures
            code == match self {
                Refusal::Unauthorized => 401u16,
                Refusal::Forbidden => 403u16,
                Refusal::ServiceUnavailable => 503u16,
            },
    {
        match self {
            Refusal::Unauthorized => 401,
            Refusal::Forbidden => 403,
            Refusal::ServiceUnavailable => 503,
        }
    }
}

/// The token that a request names; an empty one where it names none.
pub open spec fn named_token(query: WsAuthQuery) -> Seq<char> {
    match query.token {
        Some(token) => token@,
        None => Seq::empty(),
    }
}

fn is_authorized(auth: &AuthState, query: &WsAuthQuery) -> (yes: bool)
    ensures
        yes == (named_token(*query) == auth@),
{
    match &query.token {
        Some(token) => auth.validate_token(token.as_str()),
        None => {
            proof {
                reveal_strlit("");
                assert(""@ =~= Seq::<char>::empty());
            }
            auth.validate_token("")
        },
    }
}

/// Lists the terminals for those who know the token.
pub fn list_terminals(state: &AppState, manager: &PtyManager, query: &WsAuthQuery) -> (answer:
    Result<Vec<TerminalInfo>, Refusal>)
    ensures
        if named_token(*query) != state.auth@ {
            answer is Err && answer->Err_0 == Refusal::Unauthorized
        } else {
            &&& answer is Ok
            &&& info_views(answer->Ok_0@) == manager@.terminals.map_values(
                |t: TerminalView| t.info(),
            )
        },
{
    if !is_authorized(&state.auth, query) {
        return Err(Refusal::Unauthorized);
    }
    Ok(manager.list_active())
}

/// What a request for a web socket is answered. The token is looked at first, then the origin, then
/// whether there is room.
pub open spec fn upgrade_answer(
    token: Seq<char>,
    origin: Option<Seq<char>>,
    auth: Seq<char>,
    port: u16,
    connections: nat,
) -> Result<(), Refusal> {
    if token != auth {
        Err(Refusal::Unauthorized)
    } else if origin is Some && !allows_origin(origin->0, port) {
        Err(Refusal::Forbidden)
    } else if connections >= MAX_TOTAL_CONNECTIONS {
        Err(Refusal::ServiceUnavailable)
    } else {
        Ok(())
    }
}

/// The origin that a request names.
pub open spec fn origin_view(origin: Option<&str>) -> Option<Seq<char>> {
    match origin {
        Some(o) => Some(o@),
        None => None,
    }
}

/// May a request for a web socket be granted?
pub fn ws_upgrade(state: &AppState, query: &WsAuthQuery, origin: Option<&str>) -> (answer: Result<
    (),
    Refusal,
>)
    ensures
        answer == upgrade_answer(
            named_token(*query),
            origin_view(origin),
            state.auth@,
            state.port,
            state.connection_count as nat,
        ),
{
    if !is_authorized(&state.auth, query) {
        return Err(Refusal::Unauthorized);
    }
    if !AuthState::validate_origin(origin, state.port) {
        return Err(Refusal::Forbidden);
    }
    if state.connection_count >= MAX_TOTAL_CONNECTIONS {
        return Err(Refusal::ServiceUnavailable);
    }
    Ok(())
}

/// Unless the whole network is asked for, a server listens to this machine alone.
pub proof fn law_servers_listen_locally(port: u16)
    ensures
        "127.0.0.1:"@.is_prefix_of(bind_address(port, false)),
        bind_address(port, true) != bind_address(port, false),
{
    reveal_strlit("127.0.0.1:");
    reveal_strlit("0.0.0.0:");
    let local = bind_address(port, false);
    assert(local.subrange(0, 10) =~= "127.0.0.1:"@);
    assert(local[0] == '1' && bind_address(port, true)[0] == '0');
}

/// The pages that a server hands out itself may connect to it, whatever port it got.
pub proof fn law_pages_of_the_server_may_connect(listening: u16, auth: Seq<char>, connections: nat)
    requires
        connections < MAX_TOTAL_CONNECTIONS,
    ensures
        upgrade_answer(
            auth,
            Some(own_address("http://127.0.0.1"@, listening)),
            auth,
            listening,
            connections,
        ) is Ok,
        upgrade_answer(
            auth,
            Some(own_address("http://localhost"@, listening)),
            auth,
            listening,
            connections,
        ) is Ok,
{
    law_own_pages_may_connect(listening);
}

/// Nobody gets a web socket without the token, from a page of another machine, or beyond the limit.
pub proof fn law_granted_sockets_are_authorized(
    token: Seq<char>,
    origin: Option<Seq<char>>,
    auth: Seq<char>,
    port: u16,
    connections: nat,
)
    ensures
        upgrade_answer(token, origin, auth, port, connections) is Ok <==> {
            &&& token == auth
            &&& origin is Some ==> allows_origin(origin->0, port)
            &&& connections < MAX_TOTAL_CONNECTIONS
        },
{
}

}
