//! What using, showing, killing and sweeping terminals does, whichever they are.
use super::instance::{TerminalInfo, TerminalInstance, TerminalView};
use super::laws::law_sweep_takes_exactly_those;
use super::manager::{
    is_id_at, kill_result, lemma_kept_and_swept, lemma_without_ids, to_sweep, write_result,
    ManagerView, PtyManager, Reserved, ResizeOutcome, TerminalSlotReservation, WriteOutcome,
    GLOBAL_TERMINAL_LIMIT, ORPHAN_CHECK_INTERVAL_MS,
};
use crate::text::number::decimal;
use vstd::prelude::*;

verus! {

/// What tells terminals apart and what they run is the same.
pub open spec fn runs_the_same(a: TerminalView, b: TerminalView) -> bool {
    a.id == b.id && a.shell == b.shell && a.cwd == b.cwd && a.pid == b.pid
}

/// The size is the same.
pub open spec fn has_the_same_size(a: TerminalView, b: TerminalView) -> bool {
    a.cols == b.cols && a.rows == b.rows
}

/// Those who show or follow the terminal are the same, and so is what was decided of its end.
pub open spec fn is_watched_the_same(a: TerminalView, b: TerminalView) -> bool {
    &&& a.renderer_refs == b.renderer_refs
    &&& a.remote_connections == b.remote_connections
    &&& a.kill_deferred == b.kill_deferred
}

/// All that is no terminal is the same.
pub open spec fn same_around(a: ManagerView, b: ManagerView) -> bool {
    &&& a.broadcasts == b.broadcasts
    &&& a.slots == b.slots
    &&& a.starting == b.starting
    &&& a.ids == b.ids
    &&& a.detection == b.detection
    &&& a.timeout_ms == b.timeout_ms
    &&& a.detection_started == b.detection_started
    &&& a.hidden == b.hidden
}

/// What was set is the same: how orphans are looked for, and whether the window is hidden.
pub open spec fn same_settings(a: ManagerView, b: ManagerView) -> bool {
    a.detection == b.detection && a.timeout_ms == b.timeout_ms && a.hidden == b.hidden
}

/// The managers differ in the terminal of this id at most, which is there in both.
pub open spec fn differ_in(a: ManagerView, b: ManagerView, id: Seq<char>) -> bool {
    &&& same_around(a, b)
    &&& a.tracks(id) && b.tracks(id)
    &&& a.terminals.len() == b.terminals.len()
    &&& forall|i: int|
        #![trigger a.terminals[i]]
        0 <= i < a.terminals.len() ==> a.terminals[i].id == b.terminals[i].id
    &&& forall|i: int|
        #![trigger a.terminals[i]]
        0 <= i < a.terminals.len() && a.terminals[i].id != id ==> a.terminals[i] == b.terminals[i]
}

proof fn lemma_differ(m: ManagerView, id: Seq<char>, t: TerminalView)
    requires
        m.wf(),
        m.tracks(id),
        t.id == id,
    ensures
        differ_in(m.with_terminal(id, t), m, id),
        m.with_terminal(id, t).terminal(id) == t,
        m.terminal(id).id == id,
{
    let p = m.place(id);
    assert(is_id_at(m.terminals, id, p));
    let after = m.with_terminal(id, t);
    assert(is_id_at(after.terminals, id, p));
    let q = after.place(id);
    assert(is_id_at(after.terminals, id, q));
    if q != p {
        assert(m.terminals[p] == m.terminals[p] && m.terminals[q] == m.terminals[q]);
    }
}

// ---------------------------------------------------------------------------------------------
// Using a terminal
// ---------------------------------------------------------------------------------------------

/// A write to a terminal makes it one that was used now, and changes nothing else of it or of any
/// other. A write to none is an error that names it, and changes nothing.
pub proof fn law_write_uses_the_terminal(
    manager: &mut PtyManager,
    id: &str,
    now: u64,
    result: Result<(), String>,
)
    requires
        old(manager)@.wf(),
        call_ensures(PtyManager::write, (manager, id, now), result),
    ensures
        result is Ok <==> old(manager)@.tracks(id@),
        result is Err ==> result->Err_0@ == "Terminal not found: "@ + id@ && final(manager)@
            == old(manager)@,
        result is Ok ==> {
            let a = final(manager)@.terminal(id@);
            let b = old(manager)@.terminal(id@);
            &&& differ_in(final(manager)@, old(manager)@, id@)
            &&& a.last_activity == now
            &&& runs_the_same(a, b) && has_the_same_size(a, b) && is_watched_the_same(a, b)
        },
{
    if old(manager)@.tracks(id@) {
        let m = old(manager)@;
        assert(is_id_at(m.terminals, id@, m.place(id@)));
        lemma_differ(m, id@, m.terminal(id@).used(now));
    }
}

/// Output of a terminal makes it one that was used now; output of none changes nothing.
pub proof fn law_output_uses_the_terminal(manager: &mut PtyManager, id: &str, now: u64)
    requires
        old(manager)@.wf(),
        call_ensures(PtyManager::note_activity, (manager, id, now), ()),
    ensures
        !old(manager)@.tracks(id@) ==> final(manager)@ == old(manager)@,
        old(manager)@.tracks(id@) ==> {
            let a = final(manager)@.terminal(id@);
            let b = old(manager)@.terminal(id@);
            &&& differ_in(final(manager)@, old(manager)@, id@)
            &&& a.last_activity == now
            &&& runs_the_same(a, b) && has_the_same_size(a, b) && is_watched_the_same(a, b)
        },
{
    if old(manager)@.tracks(id@) {
        let m = old(manager)@;
        assert(is_id_at(m.terminals, id@, m.place(id@)));
        lemma_differ(m, id@, m.terminal(id@).used(now));
    }
}

/// A terminal that the system resized has the size that was asked for, and was used now. Where the
/// system refused, nothing changes, and the reason is told.
pub proof fn law_resize_changes_the_size(
    manager: &mut PtyManager,
    id: &str,
    cols: u16,
    rows: u16,
    outcome: ResizeOutcome,
    now: u64,
    result: Result<(), String>,
)
    requires
        old(manager)@.wf(),
        call_ensures(PtyManager::resize, (manager, id, cols, rows, &outcome, now), result),
    ensures
        result is Ok <==> old(manager)@.tracks(id@) && outcome is Resized,
        result is Err ==> final(manager)@ == old(manager)@,
        !old(manager)@.tracks(id@) ==> result->Err_0@ == "Terminal not found: "@ + id@,
        old(manager)@.tracks(id@) ==> {
            &&& outcome is NoConPty ==> result->Err_0@ == "ConPTY handles unavailable"@
            &&& outcome is ConPtyFailed ==> result->Err_0@ == "Failed to resize ConPTY: "@
                + outcome->ConPtyFailed_0@
            &&& outcome is NoMaster ==> result->Err_0@ == "PTY master already consumed"@
            &&& outcome is MasterFailed ==> result->Err_0@ == "Failed to resize terminal: "@
                + outcome->MasterFailed_0@
        },
        result is Ok ==> {
            let a = final(manager)@.terminal(id@);
            let b = old(manager)@.terminal(id@);
            &&& differ_in(final(manager)@, old(manager)@, id@)
            &&& a.cols == cols && a.rows == rows
            &&& a.last_activity == now
            &&& runs_the_same(a, b) && is_watched_the_same(a, b)
        },
{
    if old(manager)@.tracks(id@) {
        let m = old(manager)@;
        assert(is_id_at(m.terminals, id@, m.place(id@)));
        lemma_differ(m, id@, m.terminal(id@).sized(cols, rows, now));
    }
}

/// What is said of a write is what became of it.
pub proof fn law_write_is_told(outcome: WriteOutcome, result: Result<(), String>)
    requires
        call_ensures(write_result, (&outcome,), result),
    ensures
        result is Ok <==> outcome is Written,
        outcome is NoWriter ==> result->Err_0@ == "PTY writer unavailable"@,
        outcome is WriteFailed ==> result->Err_0@ == "Failed to write to PTY: "@
            + outcome->WriteFailed_0@,
        outcome is FlushFailed ==> result->Err_0@ == "Failed to flush PTY: "@
            + outcome->FlushFailed_0@,
{
}

// ---------------------------------------------------------------------------------------------
// Showing and following a terminal
// ---------------------------------------------------------------------------------------------

/// A renderer that shows a terminal is among those who do, beside all who did; nothing else changes.
pub proof fn law_renderer_is_added(
    manager: &mut PtyManager,
    id: &str,
    renderer: &str,
    result: Result<(), String>,
    other: Seq<char>,
)
    requires
        old(manager)@.wf(),
        call_ensures(PtyManager::add_renderer_ref, (manager, id, renderer), result),
        other != renderer@,
    ensures
        result is Ok <==> old(manager)@.tracks(id@),
        result is Err ==> result->Err_0@ == "Terminal not found: "@ + id@ && final(manager)@
            == old(manager)@,
        result is Ok ==> {
            let a = final(manager)@.terminal(id@);
            let b = old(manager)@.terminal(id@);
            &&& differ_in(final(manager)@, old(manager)@, id@)
            &&& a.renderer_refs.contains(renderer@)
            &&& a.renderer_refs.contains(other) <==> b.renderer_refs.contains(other)
            &&& runs_the_same(a, b) && has_the_same_size(a, b)
            &&& a.last_activity == b.last_activity
            &&& a.remote_connections == b.remote_connections
            &&& a.kill_deferred == b.kill_deferred
        },
{
    if old(manager)@.tracks(id@) {
        let m = old(manager)@;
        assert(is_id_at(m.terminals, id@, m.place(id@)));
        lemma_differ(m, id@, m.terminal(id@).shown_by(renderer@));
    }
}

/// A renderer that no longer shows a terminal is not among those who do; all others still are.
pub proof fn law_renderer_is_removed(
    manager: &mut PtyManager,
    id: &str,
    renderer: &str,
    result: Result<(), String>,
    other: Seq<char>,
)
    requires
        old(manager)@.wf(),
        call_ensures(PtyManager::remove_renderer_ref, (manager, id, renderer), result),
        other != renderer@,
    ensures
        result is Ok <==> old(manager)@.tracks(id@),
        result is Err ==> result->Err_0@ == "Terminal not found: "@ + id@ && final(manager)@
            == old(manager)@,
        result is Ok ==> {
            let a = final(manager)@.terminal(id@);
            let b = old(manager)@.terminal(id@);
            &&& differ_in(final(manager)@, old(manager)@, id@)
            &&& !a.renderer_refs.contains(renderer@)
            &&& a.renderer_refs.contains(other) <==> b.renderer_refs.contains(other)
            &&& runs_the_same(a, b) && has_the_same_size(a, b)
            &&& a.last_activity == b.last_activity
            &&& a.remote_connections == b.remote_connections
            &&& a.kill_deferred == b.kill_deferred
        },
{
    if old(manager)@.tracks(id@) {
        let m = old(manager)@;
        assert(is_id_at(m.terminals, id@, m.place(id@)));
        lemma_differ(m, id@, m.terminal(id@).not_shown_by(renderer@));
    }
}

/// A terminal takes one more remote client exactly where fewer are attached than may be.
pub proof fn law_client_is_attached(
    manager: &mut PtyManager,
    id: &str,
    limit: usize,
    added: Option<bool>,
)
    requires
        old(manager)@.wf(),
        call_ensures(PtyManager::try_add_remote_connection, (manager, id, limit), added),
    ensures
        added is Some <==> old(manager)@.tracks(id@),
        added == Some(true) <==> old(manager)@.tracks(id@) && old(manager)@.terminal(
            id@,
        ).remote_connections < limit,
        added != Some(true) ==> final(manager)@ == old(manager)@,
        added == Some(true) ==> {
            let a = final(manager)@.terminal(id@);
            let b = old(manager)@.terminal(id@);
            &&& differ_in(final(manager)@, old(manager)@, id@)
            &&& a.remote_connections == b.remote_connections + 1
            &&& a.renderer_refs == b.renderer_refs
            &&& a.last_activity == b.last_activity
            &&& a.kill_deferred == b.kill_deferred
            &&& runs_the_same(a, b) && has_the_same_size(a, b)
        },
{
    if old(manager)@.tracks(id@) {
        let m = old(manager)@;
        assert(is_id_at(m.terminals, id@, m.place(id@)));
        let t = m.terminal(id@);
        lemma_differ(m, id@, t.with_connections(t.remote_connections + 1));
    }
}

/// A remote client that leaves is no longer attached; where none is, or the terminal is gone, nothing
/// changes.
pub proof fn law_client_is_detached(manager: &mut PtyManager, id: &str)
    requires
        old(manager)@.wf(),
        call_ensures(PtyManager::remove_remote_connection, (manager, id), ()),
    ensures
        ({
            let m = old(manager)@;
            if m.tracks(id@) && m.terminal(id@).remote_connections > 0 {
                let a = final(manager)@.terminal(id@);
                let b = m.terminal(id@);
                &&& differ_in(final(manager)@, m, id@)
                &&& a.remote_connections == b.remote_connections - 1
                &&& a.renderer_refs == b.renderer_refs
                &&& a.last_activity == b.last_activity
                &&& a.kill_deferred == b.kill_deferred
                &&& runs_the_same(a, b) && has_the_same_size(a, b)
            } else {
                final(manager)@ == m
            }
        }),
{
    let m = old(manager)@;
    if m.tracks(id@) && m.terminal(id@).remote_connections > 0 {
        assert(is_id_at(m.terminals, id@, m.place(id@)));
        let t = m.terminal(id@);
        lemma_differ(m, id@, t.with_connections(t.remote_connections - 1));
    }
}

/// A terminal has not been used for as long as it is since its last use, and is an orphan exactly
/// where nobody shows it.
pub proof fn law_idle_terminal(t: TerminalInstance, now: u64, idle: u64, orphan: bool, r: Seq<char>)
    requires
        call_ensures(TerminalInstance::inactive_duration, (&t, now), idle),
        call_ensures(TerminalInstance::is_orphan, (&t,), orphan),
    ensures
        now >= t.last_activity ==> idle == now - t.last_activity,
        now <= t.last_activity ==> idle == 0,
        orphan ==> !t.renderer_refs@.contains(r),
        t.renderer_refs@.contains(r) ==> !orphan,
        t.renderer_refs@ == Set::<Seq<char>>::empty() ==> orphan,
{
    if orphan {
        assert(t.renderer_refs@ =~= Set::empty());
    }
}

/// What is told of a terminal is what it is.
pub proof fn law_terminal_is_told_of(t: TerminalInstance, info: TerminalInfo)
    requires
        call_ensures(TerminalInstance::info, (&t,), info),
    ensures
        info.id@ == t.id@,
        info.shell@ == t.shell@,
        info.cwd@ == t.cwd@,
        info.pid == t.pid,
        info.cols == t.cols,
        info.rows == t.rows,
{
}

/// A terminal that is made is as it is told of, used now, and nobody shows or follows it.
pub proof fn law_terminal_is_made(info: TerminalInfo, now: u64, t: TerminalInstance, r: Seq<char>)
    requires
        call_ensures(TerminalInstance::new, (&info, now), t),
    ensures
        t@.id == info.id@,
        t@.shell == info.shell@,
        t@.cwd == info.cwd@,
        t@.pid == info.pid,
        t@.cols == info.cols,
        t@.rows == info.rows,
        t@.last_activity == now,
        !t@.renderer_refs.contains(r),
        t@.remote_connections == 0,
        !t@.kill_deferred,
{
}

/// Every terminal is listed, in the order in which they were started, each as it is.
pub proof fn law_every_terminal_is_listed(manager: PtyManager, infos: Vec<TerminalInfo>, i: int)
    requires
        call_ensures(PtyManager::list_active, (&manager,), infos),
    ensures
        infos@.len() == manager@.terminals.len(),
        0 <= i < infos@.len() ==> {
            let t = manager@.terminals[i];
            &&& infos@[i].id@ == t.id
            &&& infos@[i].shell@ == t.shell
            &&& infos@[i].cwd@ == t.cwd
            &&& infos@[i].pid == t.pid
            &&& infos@[i].cols == t.cols
            &&& infos@[i].rows == t.rows
        },
{
    let seen = super::instance::info_views(infos@);
    assert(seen.len() == infos@.len());
    if 0 <= i < infos@.len() {
        assert(seen[i] == infos@[i]@);
        assert(seen[i] == manager@.terminals[i].info());
    }
}

/// A terminal is found exactly under the id of one that is there; its output can be followed then, and
/// only then. As many are counted as there are, and all places are taken at thirty.
pub proof fn law_terminals_are_found(
    manager: PtyManager,
    id: &str,
    found: Option<&TerminalInstance>,
    followed: bool,
    count: usize,
    full: bool,
)
    requires
        manager@.wf(),
        call_ensures(PtyManager::get, (&manager, id), found),
        call_ensures(PtyManager::subscribe_broadcast, (&manager, id), followed),
        call_ensures(PtyManager::get_count, (&manager,), count),
        call_ensures(PtyManager::is_limit_reached, (&manager,), full),
    ensures
        found is Some <==> exists|i: int|
            0 <= i < manager@.terminals.len() && (#[trigger] manager@.terminals[i]).id == id@,
        found is Some ==> found->0@.id == id@ && manager@.terminals.contains(found->0@),
        followed <==> found is Some,
        count == manager@.terminals.len(),
        full <==> manager@.slots >= 30,
{
    let m = manager@;
    if m.tracks(id@) {
        let p = m.place(id@);
        assert(is_id_at(m.terminals, id@, p));
        assert(m.terminals[p].id == id@);
    }
    if exists|i: int| 0 <= i < m.terminals.len() && (#[trigger] m.terminals[i]).id == id@ {
        let i = choose|i: int| 0 <= i < m.terminals.len() && (#[trigger] m.terminals[i]).id == id@;
        assert(is_id_at(m.terminals, id@, i));
    }
}

// ---------------------------------------------------------------------------------------------
// Ending terminals
// ---------------------------------------------------------------------------------------------

/// While the window is visible, a kill takes the terminal of the id and no other: it is handed out,
/// its place is free and its output goes nowhere. A kill of none is an error that names it.
pub proof fn law_kill_takes_the_terminal(
    manager: &mut PtyManager,
    id: &str,
    result: Result<Option<TerminalInstance>, String>,
    i: int,
)
    requires
        old(manager)@.wf(),
        !old(manager)@.hidden,
        call_ensures(PtyManager::kill, (manager, id), result),
    ensures
        result is Ok <==> old(manager)@.tracks(id@),
        result is Err ==> result->Err_0@ == "Terminal not found: "@ + id@ && final(manager)@
            == old(manager)@,
        result is Ok ==> {
            &&& result->Ok_0 is Some
            &&& result->Ok_0->0@.id == id@
            &&& result->Ok_0->0@ == old(manager)@.terminal(id@)
            &&& !final(manager)@.tracks(id@)
            &&& !final(manager)@.broadcasts.contains(id@)
            &&& final(manager)@.slots == old(manager)@.slots - 1
            &&& final(manager)@.terminals.len() == old(manager)@.terminals.len() - 1
            &&& final(manager)@.ids == old(manager)@.ids
            &&& final(manager)@.starting == old(manager)@.starting
            &&& final(manager)@.detection_started == old(manager)@.detection_started
            &&& same_settings(final(manager)@, old(manager)@)
            &&& 0 <= i < old(manager)@.terminals.len() && old(manager)@.terminals[i].id != id@ ==> {
                &&& final(manager)@.terminals.contains(old(manager)@.terminals[i])
                &&& final(manager)@.broadcasts.contains(old(manager)@.terminals[i].id)
            }
        },
{
    let m = old(manager)@;
    if m.tracks(id@) {
        let p = m.place(id@);
        assert(is_id_at(m.terminals, id@, p));
        let after = m.without_terminal(id@);
        if after.tracks(id@) {
            let q = after.place(id@);
            assert(is_id_at(after.terminals, id@, q));
            let k = if q < p {
                q
            } else {
                q + 1
            };
            assert(m.terminals[k] == after.terminals[q]);
            assert(m.terminals[p] == m.terminals[p]);
        }
        if 0 <= i < m.terminals.len() && m.terminals[i].id != id@ {
            let k = if i < p {
                i
            } else {
                i - 1
            };
            assert(after.terminals[k] == m.terminals[i]);
        }
    }
}

/// While the window is hidden, a kill takes nothing: the terminal stays, as it was, and is only marked.
pub proof fn law_kill_is_put_off(
    manager: &mut PtyManager,
    id: &str,
    result: Result<Option<TerminalInstance>, String>,
)
    requires
        old(manager)@.wf(),
        old(manager)@.hidden,
        call_ensures(PtyManager::kill, (manager, id), result),
    ensures
        result is Ok && result->Ok_0 is None,
        !old(manager)@.tracks(id@) ==> final(manager)@ == old(manager)@,
        old(manager)@.tracks(id@) ==> {
            let a = final(manager)@.terminal(id@);
            let b = old(manager)@.terminal(id@);
            &&& differ_in(final(manager)@, old(manager)@, id@)
            &&& a.kill_deferred
            &&& a.renderer_refs == b.renderer_refs
            &&& a.remote_connections == b.remote_connections
            &&& a.last_activity == b.last_activity
            &&& runs_the_same(a, b) && has_the_same_size(a, b)
        },
{
    let m = old(manager)@;
    if m.tracks(id@) {
        assert(is_id_at(m.terminals, id@, m.place(id@)));
        lemma_differ(m, id@, m.terminal(id@).deferred());
    }
}

/// What is said of a kill is what became of its clean-up.
pub proof fn law_kill_is_told(id: &str, error: Option<String>, result: Result<(), String>)
    requires
        call_ensures(kill_result, (id, &error), result),
    ensures
        result is Ok <==> error is None,
        error is Some ==> result->Err_0@ == "spawn_blocking failed for terminal "@ + id@ + ": "@
            + error->0@,
{
}

/// A kill of all takes every terminal, whether or not the window is visible: none is left, their
/// places are free, and those of starts under way are not.
pub proof fn law_kill_all_takes_every_terminal(
    manager: &mut PtyManager,
    gone: Vec<TerminalInstance>,
    i: int,
)
    requires
        old(manager)@.wf(),
        call_ensures(PtyManager::kill_all, (manager,), gone),
    ensures
        gone@.len() == old(manager)@.terminals.len(),
        0 <= i < gone@.len() ==> gone@[i]@ == old(manager)@.terminals[i],
        0 <= i < gone@.len() ==> !final(manager)@.broadcasts.contains(
            old(manager)@.terminals[i].id,
        ),
        final(manager)@.terminals.len() == 0,
        final(manager)@.slots == old(manager)@.slots - old(manager)@.terminals.len(),
        final(manager)@.starting == old(manager)@.starting,
        final(manager)@.ids == old(manager)@.ids,
        same_settings(final(manager)@, old(manager)@),
{
    let seen = super::instance::terminal_views(gone@);
    assert(seen.len() == gone@.len());
    if 0 <= i < gone@.len() {
        let m = old(manager)@;
        assert(seen[i] == gone@[i]@);
        lemma_without_ids(m.broadcasts, m.terminals, m.terminals[i].id);
        assert(m.terminals[i].id == m.terminals[i].id);
    }
}

/// The terminal is to leave: its kill was put off, or orphans are looked for, nobody shows it, and
/// nobody used it for longer than the timeout. Times are in nanoseconds and the timeout is in
/// milliseconds.
pub open spec fn is_to_leave(m: ManagerView, t: TerminalView, now: u64) -> bool {
    ||| t.kill_deferred
    ||| {
        &&& m.detection
        &&& forall|r: Seq<char>| !#[trigger] t.renderer_refs.contains(r)
        &&& now > t.last_activity
        &&& now - t.last_activity > m.timeout_ms * 1_000_000
    }
}

proof fn lemma_to_leave(m: ManagerView, t: TerminalView, now: u64)
    ensures
        to_sweep(m, t, now) <==> !m.hidden && is_to_leave(m, t, now),
{
    if forall|r: Seq<char>| !#[trigger] t.renderer_refs.contains(r) {
        assert(t.renderer_refs =~= Set::empty());
    }
    if t.orphaned() {
        assert(forall|r: Seq<char>| !#[trigger] t.renderer_refs.contains(r));
    }
}

/// A sweep of a visible window takes every terminal that is to leave and no other. Those that stay are
/// as they were; the places of those that left are free, and their output goes nowhere.
pub proof fn law_sweep_takes_those_that_are_to_leave(
    manager: &mut PtyManager,
    now: u64,
    gone: Vec<TerminalInstance>,
    i: int,
)
    requires
        old(manager)@.wf(),
        !old(manager)@.hidden,
        0 <= i < old(manager)@.terminals.len(),
        call_ensures(PtyManager::sweep, (manager, now), gone),
    ensures
        ({
            let t = old(manager)@.terminals[i];
            if is_to_leave(old(manager)@, t, now) {
                &&& exists|k: int| 0 <= k < gone@.len() && (#[trigger] gone@[k])@ == t
                &&& !final(manager)@.tracks(t.id)
                &&& !final(manager)@.broadcasts.contains(t.id)
            } else {
                &&& final(manager)@.tracks(t.id)
                &&& final(manager)@.terminal(t.id) == t
                &&& final(manager)@.broadcasts.contains(t.id)
            }
        }),
        final(manager)@.slots == old(manager)@.slots - gone@.len(),
        final(manager)@.terminals.len() == old(manager)@.terminals.len() - gone@.len(),
        final(manager)@.starting == old(manager)@.starting,
        final(manager)@.ids == old(manager)@.ids,
        same_settings(final(manager)@, old(manager)@),
{
    let m = old(manager)@;
    let t = m.terminals[i];
    lemma_to_leave(m, t, now);
    law_sweep_takes_exactly_those(m, now, i);
    lemma_kept_and_swept(m, m.terminals, now);
    let seen = super::instance::terminal_views(gone@);
    assert(seen.len() == gone@.len());
    if is_to_leave(m, t, now) {
        let k = choose|k: int| 0 <= k < seen.len() && seen[k] == t;
        assert(gone@[k]@ == t);
    }
}

/// A sweep of a hidden window takes nothing.
pub proof fn law_hidden_window_keeps_its_terminals(
    manager: &mut PtyManager,
    now: u64,
    gone: Vec<TerminalInstance>,
)
    requires
        old(manager)@.wf(),
        old(manager)@.hidden,
        call_ensures(PtyManager::sweep, (manager, now), gone),
    ensures
        gone@.len() == 0,
        final(manager)@ == old(manager)@,
{
    let m = old(manager)@;
    super::laws::law_hidden_window_is_not_swept(m, now);
    lemma_kept_and_swept(m, m.terminals, now);
    assert(super::instance::terminal_views(gone@).len() == gone@.len());
}

// ---------------------------------------------------------------------------------------------
// Settings and places
// ---------------------------------------------------------------------------------------------

/// A manager begins without terminals, with a visible window, and looks out for orphans that nobody
/// used for five minutes.
pub proof fn law_manager_begins(manager: PtyManager)
    requires
        call_ensures(PtyManager::new, (), manager),
    ensures
        manager@.terminals.len() == 0,
        manager@.slots == 0,
        manager@.ids == 0,
        manager@.detection,
        manager@.timeout_ms == 5 * 60 * 1000,
        !manager@.detection_started,
        !manager@.hidden,
{
}

/// Orphans are looked for as it is asked for, after the time in milliseconds or minutes that is asked
/// for, or after the one before.
pub proof fn law_orphans_are_looked_for_as_asked(
    a: &mut PtyManager,
    b: &mut PtyManager,
    enabled: bool,
    ms: Option<u64>,
    minutes: Option<u64>,
)
    requires
        call_ensures(PtyManager::update_orphan_detection, (a, enabled, ms), ()),
        call_ensures(PtyManager::update_orphan_detection_settings, (b, enabled, minutes), ()),
        minutes is Some ==> minutes->0 * 60_000 <= u64::MAX,
    ensures
        final(a)@.detection == enabled,
        ms is Some ==> final(a)@.timeout_ms == ms->0,
        ms is None ==> final(a)@.timeout_ms == old(a)@.timeout_ms,
        final(a)@.terminals == old(a)@.terminals,
        final(a)@.slots == old(a)@.slots,
        final(a)@.ids == old(a)@.ids,
        final(a)@.broadcasts == old(a)@.broadcasts,
        final(a)@.hidden == old(a)@.hidden,
        final(b)@.detection == enabled,
        minutes is Some ==> final(b)@.timeout_ms == minutes->0 * 60 * 1000,
        minutes is None ==> final(b)@.timeout_ms == old(b)@.timeout_ms,
        final(b)@.terminals == old(b)@.terminals,
        final(b)@.slots == old(b)@.slots,
        final(b)@.hidden == old(b)@.hidden,
{
}

/// A window that was hidden or shown is remembered as such; nothing else changes.
pub proof fn law_window_is_hidden_or_shown(a: &mut PtyManager, hidden: bool, b: PtyManager, is: bool)
    requires
        call_ensures(PtyManager::set_hidden, (a, hidden), ()),
        call_ensures(PtyManager::is_hidden, (&b,), is),
    ensures
        final(a)@.hidden == hidden,
        final(a)@.terminals == old(a)@.terminals,
        final(a)@.slots == old(a)@.slots,
        final(a)@.timeout_ms == old(a)@.timeout_ms,
        final(a)@.detection == old(a)@.detection,
        is == b@.hidden,
{
}

/// A place is taken exactly where fewer than thirty are, and is free again once it is released,
/// unless it was committed to a terminal.
pub proof fn law_places_are_taken_and_released(
    taken: &mut usize,
    slot: Option<TerminalSlotReservation>,
    other: TerminalSlotReservation,
    count: &mut usize,
)
    requires
        call_ensures(TerminalSlotReservation::try_acquire, (taken,), slot),
        call_ensures(TerminalSlotReservation::release, (other, count), ()),
    ensures
        slot is Some <==> *old(taken) < 30,
        slot is Some ==> *final(taken) == *old(taken) + 1 && !slot->0.is_committed(),
        slot is None ==> *final(taken) == *old(taken),
        other.is_committed() ==> *final(count) == *old(count),
        !other.is_committed() ==> *final(count) == *old(count) - 1,
        GLOBAL_TERMINAL_LIMIT == 30,
        ORPHAN_CHECK_INTERVAL_MS == 30 * 1000,
{
}

/// One terminal is used, shown, and followed as the manager does it.
pub proof fn law_one_terminal_is_used_and_shown(
    a: &mut TerminalInstance,
    b: &mut TerminalInstance,
    c: &mut TerminalInstance,
    now: u64,
    renderer: String,
    other: Seq<char>,
    name: &str,
)
    requires
        call_ensures(TerminalInstance::update_activity, (a, now), ()),
        call_ensures(TerminalInstance::add_renderer_ref, (b, renderer), ()),
        call_ensures(TerminalInstance::remove_renderer_ref, (c, name), ()),
    ensures
        final(a)@.last_activity == now,
        runs_the_same(final(a)@, old(a)@) && has_the_same_size(final(a)@, old(a)@),
        is_watched_the_same(final(a)@, old(a)@),
        final(b)@.renderer_refs.contains(renderer@),
        other != renderer@ ==> (final(b)@.renderer_refs.contains(other) <==> old(
            b,
        )@.renderer_refs.contains(other)),
        final(b)@.last_activity == old(b)@.last_activity,
        final(b)@.remote_connections == old(b)@.remote_connections,
        runs_the_same(final(b)@, old(b)@) && has_the_same_size(final(b)@, old(b)@),
        !final(c)@.renderer_refs.contains(name@),
        other != name@ ==> (final(c)@.renderer_refs.contains(other) <==> old(
            c,
        )@.renderer_refs.contains(other)),
        final(c)@.last_activity == old(c)@.last_activity,
        final(c)@.remote_connections == old(c)@.remote_connections,
        runs_the_same(final(c)@, old(c)@) && has_the_same_size(final(c)@, old(c)@),
{
}

/// One terminal takes a client exactly where fewer are attached than may be, and lets one go where one
/// is.
pub proof fn law_one_terminal_is_followed(
    a: &mut TerminalInstance,
    limit: usize,
    added: bool,
    b: &mut TerminalInstance,
    t: TerminalInstance,
    count: usize,
)
    requires
        call_ensures(TerminalInstance::try_add_remote_connection, (a, limit), added),
        call_ensures(TerminalInstance::remove_remote_connection, (b,), ()),
        call_ensures(TerminalInstance::renderer_ref_count, (&t,), count),
    ensures
        added <==> old(a)@.remote_connections < limit,
        added ==> final(a)@.remote_connections == old(a)@.remote_connections + 1,
        !added ==> final(a)@ == old(a)@,
        final(a)@.renderer_refs == old(a)@.renderer_refs,
        final(a)@.last_activity == old(a)@.last_activity,
        old(b)@.remote_connections > 0 ==> final(b)@.remote_connections == old(
            b,
        )@.remote_connections - 1,
        old(b)@.remote_connections == 0 ==> final(b)@ == old(b)@,
        final(b)@.renderer_refs == old(b)@.renderer_refs,
        count == t@.renderer_refs.len(),
{
}

/// All the terminals are handed out, in their order; the sweeps begin the first time that is asked for;
/// and a place that was committed stays so.
pub proof fn law_all_terminals_are_handed_out(
    manager: PtyManager,
    all: &Vec<TerminalInstance>,
    i: int,
    other: &mut PtyManager,
    begins: bool,
    slot: &mut TerminalSlotReservation,
)
    requires
        call_ensures(PtyManager::get_all, (&manager,), all),
        call_ensures(PtyManager::start_orphan_detection, (other,), begins),
        call_ensures(TerminalSlotReservation::commit, (slot,), ()),
    ensures
        all@.len() == manager@.terminals.len(),
        0 <= i < all@.len() ==> all@[i]@ == manager@.terminals[i],
        begins <==> !old(other)@.detection_started,
        final(other)@.detection_started,
        final(other)@.terminals == old(other)@.terminals,
        final(other)@.slots == old(other)@.slots,
        final(slot).is_committed(),
{
    let seen = super::instance::terminal_views(all@);
    assert(seen.len() == all@.len());
    if 0 <= i < all@.len() {
        assert(seen[i] == all@[i]@);
    }
}

/// A place is taken under a new id exactly where fewer than thirty are; a start that is given up gives
/// its place back, and no terminal is touched.
pub proof fn law_starts_take_and_give_back_places(
    a: &mut PtyManager,
    timestamp: u128,
    start: Option<Reserved>,
    b: &mut PtyManager,
    id: &str,
    slot: TerminalSlotReservation,
)
    requires
        call_ensures(PtyManager::try_reserve_terminal_slot, (a, timestamp), start),
        call_ensures(PtyManager::release_reservation, (b, id, slot), ()),
    ensures
        start is Some <==> old(a)@.slots < 30,
        start is Some ==> {
            &&& start->0.id@ == "terminal-"@ + decimal(timestamp as nat) + "-"@ + decimal(
                old(a)@.ids as nat,
            )
            &&& final(a)@.slots == old(a)@.slots + 1
            &&& final(a)@.starting.count(start->0.id@) == old(a)@.starting.count(start->0.id@) + 1
        },
        start is None ==> final(a)@ == old(a)@,
        final(a)@.terminals == old(a)@.terminals,
        final(a)@.broadcasts == old(a)@.broadcasts,
        same_settings(final(a)@, old(a)@),
        same_settings(final(b)@, old(b)@),
        final(b)@.broadcasts == old(b)@.broadcasts,
        final(b)@.slots == old(b)@.slots - 1,
        final(b)@.terminals == old(b)@.terminals,
        final(b)@.ids == old(b)@.ids,
{
}

}
