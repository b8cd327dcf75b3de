//! The search commands, but for what they ask of the system: running ripgrep, sending events.
use super::args::{build_search_args, search_args};
use super::content::{answers_output, group_output};
use super::rg::{rg_sidecar_name, sidecar_name};
use super::{
    FileSearchResponse, RgInfoResponse, SearchContentCancelRequest, SearchContentDoneEvent,
    SearchContentRequest, SearchContentStreamRequest, MAX_MATCHES_PER_FILE,
};
use crate::ipc::IpcResult;
use crate::platform::{Arch, Os};
use crate::text::number::{decimal, to_decimal};
use crate::text::split::{lines_of, trim, trimmed, views};
use crate::text::{concat4, from_utf8_lossy, utf8_lossy};
use vstd::hash_set::StringHashSet;
use vstd::prelude::*;

verus! {

/// What a command goes on with: the arguments for ripgrep, or at once its answer.
pub enum Begun<A> {
    Run(Vec<String>),
    Answer(A),
}

/// The arguments for ripgrep, or nothing to search for.
pub open spec fn content_args(query: Seq<char>, root: Seq<char>) -> Option<Seq<Seq<char>>> {
    if trimmed(query).len() == 0 {
        None
    } else {
        Some(search_args(trimmed(query), root, MAX_MATCHES_PER_FILE as nat))
    }
}

/// An answer that holds no result.
pub open spec fn is_empty_response(response: FileSearchResponse) -> bool {
    &&& response.results@.len() == 0
    &&& !response.truncated
    &&& response.scanned_files == 0
    &&& response.failed_files == 0
}

/// Begins a content search. A blank query is answered with an empty response; for any other,
/// ripgrep is to be run.
pub fn begin_search_content(request: &SearchContentRequest) -> (begun: Begun<
    IpcResult<FileSearchResponse>,
>)
    ensures
        match (content_args(request.query@, request.root_path@), begun) {
            (Some(args), Begun::Run(run)) => views(run@) == args,
            (None, Begun::Answer(answer)) => {
                &&& answer.data is Some
                &&& answer.succeeds(answer.data->0)
                &&& is_empty_response(answer.data->0)
            },
            _ => false,
        },
{
    let query = trim(request.query.as_str());
    if query.as_str().is_empty() {
        let response = FileSearchResponse {
            results: Vec::new(),
            truncated: false,
            scanned_files: 0,
            failed_files: 0,
        };
        return Begun::Answer(IpcResult::success(response));
    }
    Begun::Run(
        build_search_args(query.as_str(), request.root_path.as_str(), MAX_MATCHES_PER_FILE),
    )
}

/// What became of a run of ripgrep.
pub enum RgRun {
    /// It could not be started.
    NotStarted { reason: String },
    /// It ran to its end; without a code where a signal ended it.
    Ended { code: Option<i32>, stdout: Vec<u8>, stderr: Vec<u8> },
}

/// The message on a ripgrep that could not be started.
pub open spec fn not_started(path: Seq<char>, reason: Seq<char>) -> Seq<char> {
    "rg spawn failed (path: "@ + path + "): "@ + reason
}

/// The message on a ripgrep that failed.
pub open spec fn failed_run(code: nat, stderr: Seq<char>) -> Seq<char> {
    "rg failed ("@ + decimal(code) + "): "@ + stderr
}

fn spawn_message(path: &str, reason: &str) -> (message: String)
    ensures
        message@ == not_started(path@, reason@),
{
    concat4("rg spawn failed (path: ", path, "): ", reason)
}

/// Finishes a content search with what ripgrep wrote. Codes above one are failures; a run without a
/// code counts as one that succeeded.
pub fn search_content(rg_path: &str, run: &RgRun) -> (answer: IpcResult<FileSearchResponse>)
    ensures
        match *run {
            RgRun::NotStarted { reason } => answer.fails(
                not_started(rg_path@, reason@),
                "SEARCH_ERROR"@,
            ),
            RgRun::Ended { code, stdout, stderr } => if code is Some && code->0 > 1 {
                answer.fails(failed_run(code->0 as nat, utf8_lossy(stderr@)), "SEARCH_ERROR"@)
            } else {
                &&& answer.data is Some
                &&& answer.succeeds(answer.data->0)
                &&& answers_output(answer.data->0, lines_of(utf8_lossy(stdout@)))
            },
        },
{
    match run {
        RgRun::NotStarted { reason } => {
            let message = spawn_message(rg_path, reason.as_str());
            IpcResult::error(message, "SEARCH_ERROR")
        },
        RgRun::Ended { code, stdout, stderr } => {
            let code: i32 = match code {
                Some(c) => *c,
                None => 0,
            };
            if code > 1 {
                let digits = to_decimal(code as u128);
                let shown = from_utf8_lossy(stderr.as_slice());
                let message = concat4("rg failed (", digits.as_str(), "): ", shown.as_str());
                return IpcResult::error(message, "SEARCH_ERROR");
            }
            let output = from_utf8_lossy(stdout.as_slice());
            IpcResult::success(group_output(output.as_str()))
        },
    }
}

/// The event that ends a search: nothing truncated, this many files that failed, perhaps an error.
pub open spec fn ends_search(
    event: SearchContentDoneEvent,
    id: Seq<char>,
    failed: usize,
    error: Option<Seq<char>>,
) -> bool {
    &&& event.search_id@ == id
    &&& !event.truncated
    &&& event.scanned_files == 0
    &&& event.failed_files == failed
    &&& match error {
        Some(text) => event.error is Some && event.error->0@ == text,
        None => event.error is None,
    }
}

/// Begins a content search that is answered in batches. A blank query ends at once, without
/// results; for any other, ripgrep is to be run.
pub fn search_content_stream(request: &SearchContentStreamRequest) -> (begun: Begun<
    SearchContentDoneEvent,
>)
    ensures
        match (content_args(request.query@, request.root_path@), begun) {
            (Some(args), Begun::Run(run)) => views(run@) == args,
            (None, Begun::Answer(event)) => ends_search(event, request.search_id@, 0, None),
            _ => false,
        },
{
    let query = trim(request.query.as_str());
    if query.as_str().is_empty() {
        return Begun::Answer(
            SearchContentDoneEvent {
                search_id: request.search_id.clone(),
                truncated: false,
                scanned_files: 0,
                failed_files: 0,
                error: None,
            },
        );
    }
    Begun::Run(
        build_search_args(query.as_str(), request.root_path.as_str(), MAX_MATCHES_PER_FILE),
    )
}

/// The event that ends a search whose ripgrep could not be started.
pub fn stream_not_started(search_id: &str, rg_path: &str, reason: &str) -> (event:
    SearchContentDoneEvent)
    ensures
        ends_search(event, search_id@, 0, Some(not_started(rg_path@, reason@))),
{
    SearchContentDoneEvent {
        search_id: search_id.to_owned(),
        truncated: false,
        scanned_files: 0,
        failed_files: 0,
        error: Some(spawn_message(rg_path, reason)),
    }
}

/// The event that ends a search whose ripgrep started without an output to read.
pub fn stream_without_output(search_id: &str) -> (event: SearchContentDoneEvent)
    ensures
        ends_search(event, search_id@, 1, Some("failed to capture rg stdout"@)),
{
    SearchContentDoneEvent {
        search_id: search_id.to_owned(),
        truncated: false,
        scanned_files: 0,
        failed_files: 1,
        error: Some("failed to capture rg stdout".to_owned()),
    }
}

/// The searches that run, by their ids.
pub struct RunningSearches {
    ids: StringHashSet,
}

impl View for RunningSearches {
    type V = Set<Seq<char>>;

    closed spec fn view(&self) -> Set<Seq<char>> {
        self.ids@
    }
}

impl RunningSearches {
    /// No search runs.
    pub fn new() -> (running: Self)
        ensures
            running@ == Set::<Seq<char>>::empty(),
    {
        RunningSearches { ids: StringHashSet::new() }
    }

    /// A search begins to run. Under an id that is in use, the new search takes its place.
    pub fn start(&mut self, id: &str)
        ensures
            final(self)@ == old(self)@.insert(id@),
    {
        self.ids.insert(id.to_owned());
    }

    /// A search no longer runs, because it ended or was cancelled. Tells whether it did run.
    pub fn end(&mut self, id: &str) -> (ran: bool)
        ensures
            ran == old(self)@.contains(id@),
            final(self)@ == old(self)@.remove(id@),
    {
        self.ids.remove(id)
    }
}

/// Cancels a search: it no longer counts as running, and its process is to be killed if it did.
/// The command succeeds either way.
pub fn search_content_cancel(running: &mut RunningSearches, request: &SearchContentCancelRequest)
    -> (answer: (bool, IpcResult<()>))
    ensures
        final(running)@ == old(running)@.remove(request.search_id@),
        answer.0 == old(running)@.contains(request.search_id@),
        answer.1.succeeds(()),
{
    let kill = running.end(request.search_id.as_str());
    (kill, IpcResult::success(()))
}

/// Tells which ripgrep the searches run.
pub fn search_get_rg_info(
    os: Os,
    arch: Arch,
    resolved_path: String,
    source: String,
    exists: bool,
) -> (answer: IpcResult<RgInfoResponse>)
    ensures
        answer.data is Some,
        answer.succeeds(answer.data->0),
        answer.data->0.sidecar_binary_name@ == sidecar_name(os, arch),
        answer.data->0.resolved_path@ == resolved_path@,
        answer.data->0.source@ == source@,
        answer.data->0.exists == exists,
{
    IpcResult::success(
        RgInfoResponse {
            sidecar_binary_name: rg_sidecar_name(os, arch).to_owned(),
            resolved_path,
            source,
            exists,
        },
    )
}

}
