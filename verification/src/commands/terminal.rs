//! The commands on terminals.
use crate::ipc::{IpcResult, OrphanDetectionSettings, RendererRefRequest, SetVisibilityRequest};
use crate::pty::instance::TerminalInfo;
use crate::pty::manager::{not_found, ManagerView, PtyManager};
use vstd::prelude::*;

verus! {

/// The answer says what became of a command: its value, or its error under a code.
pub open spec fn answers<T>(answer: IpcResult<T>, result: Result<T, String>, code: Seq<char>) -> bool {
    match result {
        Ok(value) => answer.succeeds(value),
        Err(e) => answer.fails(e@, code),
    }
}

/// The answer to a command that ended with this result, its error under a code.
pub fn answer<T>(result: Result<T, String>, code: &str) -> (answer: IpcResult<T>)
    ensures
        answers(answer, result, code@),
{
    match result {
        Ok(value) => IpcResult::success(value),
        Err(e) => IpcResult::error(e, code),
    }
}

/// The answer to a start of a terminal.
pub fn terminal_spawn(result: Result<TerminalInfo, String>) -> (a: IpcResult<TerminalInfo>)
    ensures
        answers(a, result, "SPAWN_FAILED"@),
{
    answer(result, "SPAWN_FAILED")
}

/// The answer to a write to a terminal.
pub fn terminal_write(result: Result<(), String>) -> (a: IpcResult<()>)
    ensures
        answers(a, result, "WRITE_FAILED"@),
{
    answer(result, "WRITE_FAILED")
}

/// The answer to a resize of a terminal.
pub fn terminal_resize(result: Result<(), String>) -> (a: IpcResult<()>)
    ensures
        answers(a, result, "RESIZE_FAILED"@),
{
    answer(result, "RESIZE_FAILED")
}

/// The answer to a kill of a terminal.
pub fn terminal_kill(result: Result<(), String>) -> (a: IpcResult<()>)
    ensures
        answers(a, result, "KILL_FAILED"@),
{
    answer(result, "KILL_FAILED")
}

/// Changes how orphans are looked for.
pub fn terminal_update_orphan_detection(
    manager: &mut PtyManager,
    settings: &OrphanDetectionSettings,
) -> (a: IpcResult<()>)
    requires
        settings.timeout_minutes is Some ==> settings.timeout_minutes->0 * 60_000 <= u64::MAX,
    ensures
        a.succeeds(()),
        final(manager)@ == (ManagerView {
            detection: settings.enabled,
            timeout_ms: match settings.timeout_minutes {
                Some(minutes) => (minutes * 60_000) as u64,
                None => old(manager)@.timeout_ms,
            },
            ..old(manager)@
        }),
{
    manager.update_orphan_detection_settings(settings.enabled, settings.timeout_minutes);
    IpcResult::success(())
}

/// A renderer shows a terminal.
pub fn terminal_add_renderer_ref(manager: &mut PtyManager, request: &RendererRefRequest) -> (a:
    IpcResult<()>)
    requires
        old(manager)@.wf(),
    ensures
        final(manager)@.wf(),
        ({
            let id = request.terminal_id@;
            if old(manager)@.tracks(id) {
                &&& a.succeeds(())
                &&& final(manager)@ == old(manager)@.with_terminal(
                    id,
                    old(manager)@.terminal(id).shown_by(request.renderer_id@),
                )
            } else {
                a.fails(not_found(id), "TERMINAL_NOT_FOUND"@) && final(manager)@ == old(manager)@
            }
        }),
{
    let result = manager.add_renderer_ref(
        request.terminal_id.as_str(),
        request.renderer_id.as_str(),
    );
    answer(result, "TERMINAL_NOT_FOUND")
}

/// A renderer no longer shows a terminal.
pub fn terminal_remove_renderer_ref(manager: &mut PtyManager, request: &RendererRefRequest) -> (a:
    IpcResult<()>)
    requires
        old(manager)@.wf(),
    ensures
        final(manager)@.wf(),
        ({
            let id = request.terminal_id@;
            if old(manager)@.tracks(id) {
                &&& a.succeeds(())
                &&& final(manager)@ == old(manager)@.with_terminal(
                    id,
                    old(manager)@.terminal(id).not_shown_by(request.renderer_id@),
                )
            } else {
                a.fails(not_found(id), "TERMINAL_NOT_FOUND"@) && final(manager)@ == old(manager)@
            }
        }),
{
    let result = manager.remove_renderer_ref(
        request.terminal_id.as_str(),
        request.renderer_id.as_str(),
    );
    answer(result, "TERMINAL_NOT_FOUND")
}

/// The window was shown or hidden.
pub fn terminal_set_visibility(manager: &mut PtyManager, request: &SetVisibilityRequest) -> (a:
    IpcResult<()>)
    ensures
        a.succeeds(()),
        final(manager)@ == (ManagerView { hidden: !request.is_visible, ..old(manager)@ }),
{
    manager.set_hidden(!request.is_visible);
    IpcResult::success(())
}

}
