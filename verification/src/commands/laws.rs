//! What the frontend is answered, whatever became of its commands.
use super::browser::{
    browser_tab_create, browser_tab_destroy, browser_tab_go_back, browser_tab_go_forward,
    browser_tab_hide, browser_tab_inject_annotation, browser_tab_inject_annotation_markers,
    browser_tab_navigate, browser_tab_reload, browser_tab_remove_annotation_overlay,
    browser_tab_report_annotation_marker_clicked, browser_tab_report_element_captured,
    browser_tab_report_loaded, browser_tab_report_region_captured, browser_tab_report_title,
    browser_tab_report_url, browser_tab_resize, browser_tab_show,
    browser_tab_update_annotation_marker_selection, TabEvent, TabReport,
};
use super::remote::{
    begin_remote_start, begin_remote_stop, remote_start, remote_status, remote_stop,
    RemoteServer, RemoteStart, RemoteStarted, RemoteStatus, RemoteStop,
};
use super::terminal::{
    answer, terminal_add_renderer_ref, terminal_kill, terminal_remove_renderer_ref, terminal_resize,
    terminal_set_visibility, terminal_spawn, terminal_update_orphan_detection, terminal_write,
};
use crate::ipc::{IpcResult, OrphanDetectionSettings, RendererRefRequest, SetVisibilityRequest};
use crate::json::JsonField;
use crate::pty::instance::TerminalInfo;
use crate::pty::manager::PtyManager;
use crate::remote::server::ServerHandle;
use crate::search::commands::{
    search_content_cancel, search_get_rg_info, stream_not_started, stream_without_output,
    RunningSearches,
};
use crate::search::rg::rg_sidecar_name;
use crate::search::{RgInfoResponse, SearchContentCancelRequest, SearchContentDoneEvent};
use crate::platform::{Arch, Os};
use crate::text::number::decimal;
use vstd::prelude::*;

verus! {

// ---------------------------------------------------------------------------------------------
// Answers
// ---------------------------------------------------------------------------------------------

/// A command that succeeded is answered with its value and no error; one that failed with its error
/// under a code, and no value.
pub open spec fn tells<T>(a: IpcResult<T>, result: Result<T, String>, code: Seq<char>) -> bool {
    &&& a.success <==> result is Ok
    &&& result is Ok ==> a.data is Some && a.data->0 == result->Ok_0 && a.error is None && a.code
        is None
    &&& result is Err ==> a.data is None && a.error is Some && a.error->0@ == result->Err_0@
        && a.code is Some && a.code->0@ == code
}

/// Success is told with the data and nothing else.
pub proof fn law_success_is_told(data: u64, a: IpcResult<u64>)
    requires
        call_ensures(IpcResult::<u64>::success, (data,), a),
    ensures
        a.success,
        a.data == Some(data),
        a.error is None,
        a.code is None,
{
}

/// Whatever a command on a terminal came to is told, each under its own code.
pub proof fn law_terminal_commands_are_answered(
    info: Result<TerminalInfo, String>,
    result: Result<(), String>,
    a: IpcResult<TerminalInfo>,
    b: IpcResult<()>,
    c: IpcResult<()>,
    d: IpcResult<()>,
)
    requires
        call_ensures(terminal_spawn, (info,), a),
        call_ensures(terminal_write, (result,), b),
        call_ensures(terminal_resize, (result,), c),
        call_ensures(terminal_kill, (result,), d),
    ensures
        tells(a, info, "SPAWN_FAILED"@),
        tells(b, result, "WRITE_FAILED"@),
        tells(c, result, "RESIZE_FAILED"@),
        tells(d, result, "KILL_FAILED"@),
{
}

/// Whatever a command on a page of a tab came to is told, each under its own code.
pub proof fn law_page_commands_are_answered(
    made: Result<u64, String>,
    result: Result<(), String>,
    a: IpcResult<u64>,
    b: IpcResult<()>,
    c: IpcResult<()>,
    d: IpcResult<()>,
    e: IpcResult<()>,
    f: IpcResult<()>,
    g: IpcResult<()>,
    h: IpcResult<()>,
    i: IpcResult<()>,
)
    requires
        call_ensures(browser_tab_create::<u64>, (made,), a),
        call_ensures(browser_tab_navigate, (result,), b),
        call_ensures(browser_tab_resize, (result,), c),
        call_ensures(browser_tab_show, (result,), d),
        call_ensures(browser_tab_hide, (result,), e),
        call_ensures(browser_tab_destroy, (result,), f),
        call_ensures(browser_tab_go_back, (result,), g),
        call_ensures(browser_tab_go_forward, (result,), h),
        call_ensures(browser_tab_reload, (result,), i),
    ensures
        tells(a, made, "BROWSER_TAB_CREATE_FAILED"@),
        tells(b, result, "BROWSER_TAB_NAVIGATE_FAILED"@),
        tells(c, result, "BROWSER_TAB_RESIZE_FAILED"@),
        tells(d, result, "BROWSER_TAB_SHOW_FAILED"@),
        tells(e, result, "BROWSER_TAB_HIDE_FAILED"@),
        tells(f, result, "BROWSER_TAB_DESTROY_FAILED"@),
        tells(g, result, "BROWSER_TAB_GO_BACK_FAILED"@),
        tells(h, result, "BROWSER_TAB_GO_FORWARD_FAILED"@),
        tells(i, result, "BROWSER_TAB_RELOAD_FAILED"@),
{
}

/// Whatever a command on the annotations of a page came to is told, each under its own code.
pub proof fn law_annotation_commands_are_answered(
    result: Result<(), String>,
    a: IpcResult<()>,
    b: IpcResult<()>,
    c: IpcResult<()>,
    d: IpcResult<()>,
)
    requires
        call_ensures(browser_tab_inject_annotation, (result,), a),
        call_ensures(browser_tab_remove_annotation_overlay, (result,), b),
        call_ensures(browser_tab_inject_annotation_markers, (result,), c),
        call_ensures(browser_tab_update_annotation_marker_selection, (result,), d),
    ensures
        tells(a, result, "BROWSER_TAB_INJECT_ANNOTATION_FAILED"@),
        tells(b, result, "BROWSER_TAB_REMOVE_ANNOTATION_OVERLAY_FAILED"@),
        tells(c, result, "BROWSER_TAB_INJECT_ANNOTATION_MARKERS_FAILED"@),
        tells(d, result, "BROWSER_TAB_UPDATE_MARKER_SELECTION_FAILED"@),
{
}

// ---------------------------------------------------------------------------------------------
// Terminals
// ---------------------------------------------------------------------------------------------

/// Orphans are looked for as the settings say; minutes are kept in milliseconds.
pub proof fn law_settings_are_taken_over(
    manager: &mut PtyManager,
    settings: OrphanDetectionSettings,
    a: IpcResult<()>,
)
    requires
        call_ensures(terminal_update_orphan_detection, (manager, &settings), a),
        settings.timeout_minutes is Some ==> settings.timeout_minutes->0 * 60_000 <= u64::MAX,
    ensures
        a.success,
        final(manager)@.detection == settings.enabled,
        settings.timeout_minutes is Some ==> final(manager)@.timeout_ms
            == settings.timeout_minutes->0 * 60 * 1000,
        settings.timeout_minutes is None ==> final(manager)@.timeout_ms
            == old(manager)@.timeout_ms,
        final(manager)@.terminals == old(manager)@.terminals,
        final(manager)@.hidden == old(manager)@.hidden,
{
}

/// The window is remembered as hidden exactly where it is not visible.
pub proof fn law_visibility_is_taken_over(
    manager: &mut PtyManager,
    request: SetVisibilityRequest,
    a: IpcResult<()>,
)
    requires
        call_ensures(terminal_set_visibility, (manager, &request), a),
    ensures
        a.success,
        final(manager)@.hidden <==> !request.is_visible,
        final(manager)@.terminals == old(manager)@.terminals,
        final(manager)@.slots == old(manager)@.slots,
{
}

/// A renderer is added to the terminal that the request names, or removed from it; where there is no
/// such terminal the request fails under a code.
pub proof fn law_renderers_are_taken_over(
    first: &mut PtyManager,
    second: &mut PtyManager,
    request: RendererRefRequest,
    a: IpcResult<()>,
    b: IpcResult<()>,
)
    requires
        old(first)@.wf(),
        old(second)@.wf(),
        call_ensures(terminal_add_renderer_ref, (first, &request), a),
        call_ensures(terminal_remove_renderer_ref, (second, &request), b),
    ensures
        a.success <==> old(first)@.tracks(request.terminal_id@),
        !a.success ==> a.code is Some && a.code->0@ == "TERMINAL_NOT_FOUND"@ && a.error is Some
            && a.error->0@ == "Terminal not found: "@ + request.terminal_id@ && final(first)@
            == old(first)@,
        a.success ==> final(first)@.terminals[old(first)@.place(
            request.terminal_id@,
        )].renderer_refs.contains(request.renderer_id@),
        b.success <==> old(second)@.tracks(request.terminal_id@),
        !b.success ==> b.code is Some && b.code->0@ == "TERMINAL_NOT_FOUND"@ && b.error is Some
            && b.error->0@ == "Terminal not found: "@ + request.terminal_id@ && final(second)@
            == old(second)@,
        b.success ==> !final(second)@.terminals[old(second)@.place(
            request.terminal_id@,
        )].renderer_refs.contains(request.renderer_id@),
{
    let id = request.terminal_id@;
    if old(first)@.tracks(id) {
        assert(crate::pty::manager::is_id_at(old(first)@.terminals, id, old(first)@.place(id)));
    }
    if old(second)@.tracks(id) {
        assert(crate::pty::manager::is_id_at(old(second)@.terminals, id, old(second)@.place(id)));
    }
}

// ---------------------------------------------------------------------------------------------
// Reports of tabs
// ---------------------------------------------------------------------------------------------

/// The message turns a report down, and names who sent it and whom it is about.
pub open spec fn turns_down(
    message: Seq<char>,
    what: Seq<char>,
    caller: Seq<char>,
    tab: Seq<char>,
) -> bool {
    message == "Browser tab report "@ + what + " rejected: caller '"@ + caller
        + "' does not match payload '"@ + tab + "'"@
}

/// A report of another page is taken up exactly where a tab sends it of itself. The frontend is then
/// told of that tab and that page, and what was put on the old page is gone.
pub proof fn law_pages_are_reported_by_their_tabs(
    tab: String,
    url: String,
    caller: &str,
    a: Result<TabReport, String>,
    b: Result<TabReport, String>,
)
    requires
        call_ensures(browser_tab_report_url, (tab, url, caller), a),
        call_ensures(browser_tab_report_loaded, (tab, caller), b),
    ensures
        a is Ok <==> caller@ == tab@,
        b is Ok <==> caller@ == tab@,
        a is Err ==> turns_down(a->Err_0@, "URL"@, caller@, tab@),
        b is Err ==> turns_down(b->Err_0@, "loaded"@, caller@, tab@),
        a is Ok ==> {
            &&& a->Ok_0.event is Navigated
            &&& a->Ok_0.event->Navigated_browser_tab_id@ == tab@
            &&& a->Ok_0.event->url@ == url@
            &&& a->Ok_0.invalidates_annotations
        },
        b is Ok ==> {
            &&& b->Ok_0.event is Loaded
            &&& b->Ok_0.event->Loaded_browser_tab_id@ == tab@
            &&& b->Ok_0.invalidates_annotations
        },
{
}

/// A report of a title or of a click is taken up exactly where a tab sends it of itself. The frontend
/// is then told of that tab and what it says, and what was put on the page stays.
pub proof fn law_titles_and_clicks_are_reported_by_their_tabs(
    tab: String,
    title: String,
    annotation: String,
    caller: &str,
    a: Result<TabReport, String>,
    b: Result<TabReport, String>,
)
    requires
        call_ensures(browser_tab_report_title, (tab, title, caller), a),
        call_ensures(
            browser_tab_report_annotation_marker_clicked,
            (tab, annotation, caller),
            b,
        ),
    ensures
        a is Ok <==> caller@ == tab@,
        b is Ok <==> caller@ == tab@,
        a is Err ==> turns_down(a->Err_0@, "title"@, caller@, tab@),
        b is Err ==> turns_down(b->Err_0@, "annotation marker clicked"@, caller@, tab@),
        a is Ok ==> {
            &&& a->Ok_0.event is TitleChanged
            &&& a->Ok_0.event->TitleChanged_browser_tab_id@ == tab@
            &&& a->Ok_0.event->title@ == title@
            &&& !a->Ok_0.invalidates_annotations
        },
        b is Ok ==> {
            &&& b->Ok_0.event is MarkerClicked
            &&& b->Ok_0.event->MarkerClicked_browser_tab_id@ == tab@
            &&& b->Ok_0.event->annotation_id@ == annotation@
            &&& !b->Ok_0.invalidates_annotations
        },
{
}

/// A report of what was captured is taken up exactly where a tab sends it of itself, and the attributes
/// of an element are an object.
pub proof fn law_captures_are_reported_by_their_tabs(
    tab: &str,
    caller: &str,
    attributes: JsonField,
    a: Result<(), String>,
    b: Result<(), String>,
)
    requires
        call_ensures(browser_tab_report_region_captured, (tab, caller), a),
        call_ensures(browser_tab_report_element_captured, (tab, caller, &attributes), b),
    ensures
        a is Ok <==> caller@ == tab@,
        b is Ok <==> caller@ == tab@ && attributes is Object,
        a is Err ==> turns_down(a->Err_0@, "region captured"@, caller@, tab@),
        caller@ != tab@ ==> turns_down(b->Err_0@, "element captured"@, caller@, tab@),
        caller@ == tab@ && b is Err ==> b->Err_0@
            == "Browser tab report element captured rejected: attributes must be an object"@,
{
}

/// The frontend is told under the name of what happened.
pub proof fn law_events_have_their_names(event: TabEvent, name: &'static str)
    requires
        call_ensures(TabEvent::name, (&event,), name),
    ensures
        event is Navigated ==> name@ == "browser-tab-navigated"@,
        event is Loaded ==> name@ == "browser-tab-loaded"@,
        event is TitleChanged ==> name@ == "browser-tab-title-changed"@,
        event is MarkerClicked ==> name@ == "browser-tab-annotation-marker-clicked"@,
{
}

// ---------------------------------------------------------------------------------------------
// The server for remote clients
// ---------------------------------------------------------------------------------------------

/// A server is started exactly where none is remembered: at the port that is asked for, or the usual
/// one, and for the whole network only where that is asked for.
pub proof fn law_server_is_started_once(
    remote: RemoteServer,
    port: Option<u16>,
    lan: Option<bool>,
    start: RemoteStart,
)
    requires
        call_ensures(begin_remote_start, (&remote, port, lan), start),
    ensures
        start is Start <==> remote@ is None,
        start is Start ==> {
            &&& port is Some ==> start->port == port->0
            &&& port is None ==> start->port == 19480
            &&& start->bind_lan <==> lan == Some(true)
        },
        start is Answer ==> {
            &&& !start->Answer_0.success
            &&& start->Answer_0.error->0@ == "Remote server already running"@
            &&& start->Answer_0.code->0@ == "ALREADY_RUNNING"@
        },
{
}

/// A server that was started is remembered, and told of with the port that it listens on, its token
/// and an address that has both. One that was not is told of with the reason, and what was remembered
/// stays.
pub proof fn law_started_server_is_told_of(
    remote: &mut RemoteServer,
    handle: ServerHandle,
    error: String,
    started: Result<ServerHandle, String>,
    lan: bool,
    a: IpcResult<RemoteStarted>,
)
    requires
        started == Ok::<ServerHandle, String>(handle) || started == Err::<ServerHandle, String>(
            error,
        ),
        call_ensures(remote_start, (remote, started, lan), a),
    ensures
        a.success <==> started is Ok,
        started is Ok ==> {
            let port = handle.shows().0;
            let token = handle.shows().1;
            &&& final(remote)@ == Some((port, token))
            &&& a.data->0.port == port
            &&& a.data->0.token@ == token
            &&& a.data->0.bind_lan == lan
            &&& lan ==> a.data->0.url@ == "http://0.0.0.0:"@ + decimal(port as nat) + "?token="@
                + token
            &&& !lan ==> a.data->0.url@ == "http://127.0.0.1:"@ + decimal(port as nat) + "?token="@
                + token
        },
        started is Err ==> {
            &&& final(remote)@ == old(remote)@
            &&& a.error->0@ == error@
            &&& a.code->0@ == "START_FAILED"@
        },
{
    lemma_host("0.0.0.0"@, "http://0.0.0.0:"@);
    lemma_host("127.0.0.1"@, "http://127.0.0.1:"@);
}

proof fn lemma_host(host: Seq<char>, front: Seq<char>)
    requires
        (host == "0.0.0.0"@ && front == "http://0.0.0.0:"@) || (host == "127.0.0.1"@ && front
            == "http://127.0.0.1:"@),
    ensures
        "http://"@ + host + ":"@ == front,
{
    reveal_strlit("http://");
    reveal_strlit(":");
    reveal_strlit("0.0.0.0");
    reveal_strlit("127.0.0.1");
    reveal_strlit("http://0.0.0.0:");
    reveal_strlit("http://127.0.0.1:");
    assert("http://"@ + host + ":"@ =~= front);
}

/// A stop ends the server that is remembered and forgets it; where none is, that is the answer.
pub proof fn law_remembered_server_is_stopped(remote: &mut RemoteServer, stop: RemoteStop)
    requires
        call_ensures(begin_remote_stop, (remote,), stop),
    ensures
        final(remote)@ is None,
        stop is Stop <==> old(remote)@ is Some,
        stop is Stop ==> old(remote)@ == Some(stop->Stop_0.shows()),
        stop is Answer ==> {
            &&& !stop->Answer_0.success
            &&& stop->Answer_0.error->0@ == "Remote server not running"@
            &&& stop->Answer_0.code->0@ == "NOT_RUNNING"@
        },
{
}

/// What became of a stop is told, and so is what runs.
pub proof fn law_server_is_told_of(
    handle: ServerHandle,
    failure: Option<String>,
    a: IpcResult<()>,
    fresh: RemoteServer,
    remote: RemoteServer,
    b: IpcResult<RemoteStatus>,
)
    requires
        call_ensures(remote_stop, (handle, &failure), a),
        call_ensures(RemoteServer::new, (), fresh),
        call_ensures(remote_status, (&remote,), b),
    ensures
        a.success <==> failure is None,
        failure is Some ==> a.error->0@ == "Server task panicked: "@ + failure->0@ && a.code->0@
            == "STOP_FAILED"@,
        fresh@ is None,
        b.success,
        b.data->0 is Running <==> remote@ is Some,
        b.data->0 is Running ==> {
            let status = b.data->0;
            &&& Some((status->port, status->token@)) == remote@
            &&& status->url@ == "http://127.0.0.1:"@ + decimal(status->port as nat) + "?token="@
                + status->token@
        },
{
    lemma_host("127.0.0.1"@, "http://127.0.0.1:"@);
}

// ---------------------------------------------------------------------------------------------
// Searches
// ---------------------------------------------------------------------------------------------

/// A search that was cancelled no longer runs, and its process is to be killed exactly where it did;
/// the others run on.
pub proof fn law_search_is_cancelled(
    running: &mut RunningSearches,
    request: SearchContentCancelRequest,
    a: (bool, IpcResult<()>),
    other: Seq<char>,
)
    requires
        call_ensures(search_content_cancel, (running, &request), a),
        other != request.search_id@,
    ensures
        a.0 <==> old(running)@.contains(request.search_id@),
        a.1.success,
        !final(running)@.contains(request.search_id@),
        final(running)@.contains(other) <==> old(running)@.contains(other),
{
}

/// A search runs from its start to its end; the others are not touched, and none runs to begin with.
pub proof fn law_searches_run(
    fresh: RunningSearches,
    first: &mut RunningSearches,
    second: &mut RunningSearches,
    id: &str,
    ran: bool,
    other: Seq<char>,
)
    requires
        call_ensures(RunningSearches::new, (), fresh),
        call_ensures(RunningSearches::start, (first, id), ()),
        call_ensures(RunningSearches::end, (second, id), ran),
        other != id@,
    ensures
        !fresh@.contains(other) && !fresh@.contains(id@),
        final(first)@.contains(id@),
        final(first)@.contains(other) <==> old(first)@.contains(other),
        !final(second)@.contains(id@),
        final(second)@.contains(other) <==> old(second)@.contains(other),
        ran <==> old(second)@.contains(id@),
{
}

/// A search whose ripgrep did not run is told of as done, under its id and with the reason.
pub proof fn law_search_that_did_not_run_is_told_of(
    id: &str,
    path: &str,
    reason: &str,
    a: SearchContentDoneEvent,
    b: SearchContentDoneEvent,
)
    requires
        call_ensures(stream_not_started, (id, path, reason), a),
        call_ensures(stream_without_output, (id,), b),
    ensures
        a.search_id@ == id@ && b.search_id@ == id@,
        !a.truncated && !b.truncated,
        a.scanned_files == 0 && b.scanned_files == 0,
        a.failed_files == 0 && b.failed_files == 1,
        a.error is Some && a.error->0@ == "rg spawn failed (path: "@ + path@ + "): "@ + reason@,
        b.error is Some && b.error->0@ == "failed to capture rg stdout"@,
{
}

/// What is told of the ripgrep that is run is what was found of it.
pub proof fn law_ripgrep_is_told_of(
    os: Os,
    arch: Arch,
    path: String,
    source: String,
    there: bool,
    a: IpcResult<RgInfoResponse>,
    name: &'static str,
)
    requires
        call_ensures(search_get_rg_info, (os, arch, path, source, there), a),
        call_ensures(rg_sidecar_name, (os, arch), name),
    ensures
        a.success,
        a.data->0.sidecar_binary_name@ == name@,
        a.data->0.resolved_path@ == path@,
        a.data->0.source@ == source@,
        a.data->0.exists == there,
{
}

/// Any command is answered with what it came to, under the code that it was given.
pub proof fn law_commands_are_answered(result: Result<u64, String>, code: &str, a: IpcResult<u64>)
    requires
        call_ensures(answer::<u64>, (result, code), a),
    ensures
        tells(a, result, code@),
{
}

}
