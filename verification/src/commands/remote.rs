//! The commands on the server for remote clients.
use super::terminal::answer;
use crate::ipc::IpcResult;
use crate::remote::server::ServerHandle;
use crate::remote::DEFAULT_PORT;
use crate::text::number::{decimal, to_decimal};
use crate::text::{concat2, concat5};
use vstd::prelude::*;

verus! {

/// The address under which a browser finds the server.
pub open spec fn server_url(host: Seq<char>, port: u16, token: Seq<char>) -> Seq<char> {
    "http://"@ + host + ":"@ + decimal(port as nat) + "?token="@ + token
}

fn url(host: &str, port: u16, token: &str) -> (text: String)
    ensures
        text@ == server_url(host@, port, token@),
{
    let digits = to_decimal(port as u128);
    let front = concat5("http://", host, ":", digits.as_str(), "?token=");
    concat2(front.as_str(), token)
}

/// What is told of a server that was started.
#[derive(Debug, Clone)]
pub struct RemoteStarted {
    pub port: u16,
    pub token: String,
    pub url: String,
    pub bind_lan: bool,
}

/// The port and the token of a server.
pub type ServerView = (u16, Seq<char>);

/// The server that is remembered, if one runs.
pub struct RemoteServer {
    server: Option<ServerHandle>,
}

impl View for RemoteServer {
    type V = Option<ServerView>;

    closed spec fn view(&self) -> Option<ServerView> {
        match self.server {
            Some(handle) => Some(handle.shows()),
            None => None,
        }
    }
}

impl RemoteServer {
    /// No server runs.
    pub fn new() -> (remote: Self)
        ensures
            remote@ is None,
    {
        RemoteServer { server: None }
    }
}

/// How a start of the server goes on.
pub enum RemoteStart {
    /// Start it at this port, for the whole network or not.
    Start { port: u16, bind_lan: bool },
    /// There is nothing to start.
    Answer(IpcResult<RemoteStarted>),
}

/// A server can be started: none is remembered.
pub open spec fn may_start(remembered: Option<ServerView>) -> bool {
    remembered is None
}

/// Begins to start the server. One that runs is not started again; what is not asked for is the
/// usual port, and this machine alone.
pub fn begin_remote_start(remote: &RemoteServer, port: Option<u16>, bind_lan: Option<bool>) -> (
start: RemoteStart)
    ensures
        match start {
            RemoteStart::Answer(a) => !may_start(remote@) && a.fails(
                "Remote server already running"@,
                "ALREADY_RUNNING"@,
            ),
            RemoteStart::Start { port: p, bind_lan: lan } => {
                &&& may_start(remote@)
                &&& p == match port {
                    Some(n) => n,
                    None => DEFAULT_PORT,
                }
                &&& lan == (bind_lan == Some(true))
            },
        },
{
    if remote.server.is_some() {
        return RemoteStart::Answer(
            IpcResult::error("Remote server already running", "ALREADY_RUNNING"),
        );
    }
    let port: u16 = match port {
        Some(p) => p,
        None => DEFAULT_PORT,
    };
    let bind_lan = match bind_lan {
        Some(lan) => lan,
        None => false,
    };
    RemoteStart::Start { port, bind_lan }
}

/// What is remembered once a start has ended: the server that was started, else what was before.
pub open spec fn after_start(
    remembered: Option<ServerView>,
    started: Result<ServerHandle, String>,
) -> Option<ServerView> {
    match started {
        Ok(handle) => Some(handle.shows()),
        Err(_) => remembered,
    }
}

/// Ends a start of the server with what became of it. A server that was started is remembered.
pub fn remote_start(
    remote: &mut RemoteServer,
    started: Result<ServerHandle, String>,
    bind_lan: bool,
) -> (a: IpcResult<RemoteStarted>)
    ensures
        final(remote)@ == after_start(old(remote)@, started),
        match started {
            Ok(handle) => {
                &&& a.data is Some
                &&& a.succeeds(a.data->0)
                &&& a.data->0.port == handle.shows().0
                &&& a.data->0.token@ == handle.shows().1
                &&& a.data->0.url@ == server_url(
                    if bind_lan {
                        "0.0.0.0"@
                    } else {
                        "127.0.0.1"@
                    },
                    handle.shows().0,
                    handle.shows().1,
                )
                &&& a.data->0.bind_lan == bind_lan
            },
            Err(e) => a.fails(e@, "START_FAILED"@),
        },
{
    match started {
        Ok(handle) => {
            let port: u16 = handle.port();
            let token = handle.token().to_owned();
            let host = if bind_lan {
                "0.0.0.0"
            } else {
                "127.0.0.1"
            };
            let url = url(host, port, token.as_str());
            remote.server = Some(handle);
            IpcResult::success(RemoteStarted { port, token, url, bind_lan })
        },
        Err(e) => IpcResult::error(e, "START_FAILED"),
    }
}

/// How a stop of the server goes on.
pub enum RemoteStop {
    /// End this server.
    Stop(ServerHandle),
    /// There is nothing to stop.
    Answer(IpcResult<()>),
}

/// What is remembered once a stop has begun: nothing. And what there is to stop.
pub open spec fn stop_step(remembered: Option<ServerView>) -> (
    Option<ServerView>,
    Option<ServerView>,
) {
    (None, remembered)
}

/// Begins to stop the server. It is forgotten, whatever becomes of it.
pub fn begin_remote_stop(remote: &mut RemoteServer) -> (stop: RemoteStop)
    ensures
        final(remote)@ == stop_step(old(remote)@).0,
        match (stop, stop_step(old(remote)@).1) {
            (RemoteStop::Stop(handle), Some(server)) => handle.shows() == server,
            (RemoteStop::Answer(a), None) => a.fails(
                "Remote server not running"@,
                "NOT_RUNNING"@,
            ),
            _ => false,
        },
{
    let mut server: Option<ServerHandle> = None;
    std::mem::swap(&mut server, &mut remote.server);
    match server {
        Some(handle) => RemoteStop::Stop(handle),
        None => RemoteStop::Answer(IpcResult::error("Remote server not running", "NOT_RUNNING")),
    }
}

/// Ends a stop of the server: it ended as it should, or its task failed.
pub fn remote_stop(server: ServerHandle, failure: &Option<String>) -> (a: IpcResult<()>)
    ensures
        match *failure {
            Some(e) => a.fails("Server task panicked: "@ + e@, "STOP_FAILED"@),
            None => a.succeeds(()),
        },
{
    answer(server.stop(failure), "STOP_FAILED")
}

/// What is told of the server.
#[derive(Debug, Clone)]
pub enum RemoteStatus {
    Running { port: u16, token: String, url: String },
    Stopped,
}

/// Tells of the server, if one runs.
pub fn remote_status(remote: &RemoteServer) -> (a: IpcResult<RemoteStatus>)
    ensures
        a.data is Some,
        a.succeeds(a.data->0),
        match (remote@, a.data->0) {
            (Some(server), RemoteStatus::Running { port, token, url }) => {
                &&& (port, token@) == server
                &&& url@ == server_url("127.0.0.1"@, port, token@)
            },
            (None, RemoteStatus::Stopped) => true,
            _ => false,
        },
{
    match &remote.server {
        Some(handle) => {
            let token = handle.token();
            let url = url("127.0.0.1", handle.port(), token);
            IpcResult::success(
                RemoteStatus::Running { port: handle.port(), token: token.to_owned(), url },
            )
        },
        None => IpcResult::success(RemoteStatus::Stopped),
    }
}

/// The server that was started is the one that is remembered, and the one that a stop ends. Until
/// then no other is started.
pub proof fn law_started_server_is_remembered(
    remembered: Option<ServerView>,
    handle: ServerHandle,
)
    ensures
        after_start(remembered, Ok(handle)) == Some(handle.shows()),
        stop_step(after_start(remembered, Ok(handle))).1 == Some(handle.shows()),
        !may_start(after_start(remembered, Ok(handle))),
{
}

/// A stop always forgets the server, whatever becomes of it: a second stop finds none, and a server
/// can be started again.
pub proof fn law_stop_forgets_the_server(remembered: Option<ServerView>)
    ensures
        stop_step(remembered).0 is None,
        may_start(stop_step(remembered).0),
        stop_step(stop_step(remembered).0).1 is None,
        stop_step(remembered).1 == remembered,
{
}

/// A start that failed remembers no other server than before.
pub proof fn law_failed_start_changes_nothing(remembered: Option<ServerView>, error: String)
    ensures
        after_start(remembered, Err(error)) == remembered,
{
}

}
