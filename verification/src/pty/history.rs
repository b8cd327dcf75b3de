//! What holds of the manager after whatever was done with it.
use super::instance::{InfoView, TerminalView};
use super::laws::{
    law_changes_keep_order, law_endings_keep_order, law_new_id_is_free, law_releasing_keeps_order,
    law_reserving_keeps_order, law_starting_keeps_order, lemma_some_stay,
};
use super::manager::{
    after_sweep, all_gone, idle_manager, is_id_at, lemma_after_sweep, lemma_is_starting,
    lemma_with_started, lemma_without_terminal, released_slot, terminal_id, with_started,
    ManagerView, GLOBAL_TERMINAL_LIMIT,
};
use super::spawn::{asked, starting};
use vstd::prelude::*;

verus! {

/// One thing that is done with the manager.
pub enum ManagerStep {
    /// A terminal is asked for.
    Ask { timestamp: nat },
    /// A start ends with an error.
    GiveUp { id: Seq<char> },
    /// A start ends with a terminal.
    Open { info: InfoView, now: u64 },
    /// A terminal is used, resized, shown, hidden, followed from afar, or marked to be killed.
    Change { id: Seq<char>, to: TerminalView },
    /// A terminal is killed.
    Kill { id: Seq<char> },
    /// All terminals are killed.
    KillAll,
    Sweep { now: u64 },
    /// Orphans are looked for or not, after this time.
    Settings { detection: bool, timeout_ms: u64 },
    /// The window is hidden or shown.
    Hide { hidden: bool },
}

/// The step can be taken: what ends is under way, and what changes is there.
pub open spec fn may_step(m: ManagerView, step: ManagerStep) -> bool {
    match step {
        ManagerStep::GiveUp { id } => m.starting.count(id) > 0,
        ManagerStep::Open { info, .. } => m.starting.count(info.id) > 0,
        ManagerStep::Change { id, to } => m.tracks(id) && to.id == id,
        ManagerStep::Kill { id } => m.tracks(id),
        _ => true,
    }
}

/// The manager after the step.
pub open spec fn after_step(m: ManagerView, step: ManagerStep) -> ManagerView {
    match step {
        ManagerStep::Ask { timestamp } => if m.slots >= GLOBAL_TERMINAL_LIMIT {
            asked(m)
        } else {
            starting(m, terminal_id(timestamp, m.ids as nat))
        },
        ManagerStep::GiveUp { id } => released_slot(m, id),
        ManagerStep::Open { info, now } => with_started(m, info, now),
        ManagerStep::Change { id, to } => m.with_terminal(id, to),
        ManagerStep::Kill { id } => m.without_terminal(id),
        ManagerStep::KillAll => all_gone(m),
        ManagerStep::Sweep { now } => after_sweep(m, now),
        ManagerStep::Settings { detection, timeout_ms } => ManagerView {
            detection,
            timeout_ms,
            ..m
        },
        ManagerStep::Hide { hidden } => ManagerView { hidden, ..m },
    }
}

/// A new manager after these steps.
pub open spec fn after_steps(steps: Seq<ManagerStep>) -> ManagerView
    decreases steps.len(),
{
    if steps.len() == 0 {
        idle_manager()
    } else {
        after_step(after_steps(steps.drop_last()), steps.last())
    }
}

/// Each of the steps can be taken after those before it.
pub open spec fn may_take(steps: Seq<ManagerStep>) -> bool
    decreases steps.len(),
{
    steps.len() > 0 ==> {
        &&& may_take(steps.drop_last())
        &&& may_step(after_steps(steps.drop_last()), steps.last())
    }
}

/// A step keeps ids apart and places accounted for, and uses up at most one number. An `Ask` needs
/// one that is left.
pub proof fn law_step_keeps_order(m: ManagerView, step: ManagerStep)
    requires
        m.wf(),
        m.orderly(),
        may_step(m, step),
        step is Ask ==> m.ids < u64::MAX,
    ensures
        after_step(m, step).wf(),
        after_step(m, step).orderly(),
        m.ids <= after_step(m, step).ids <= m.ids + 1,
{
    let after = after_step(m, step);
    match step {
        ManagerStep::Ask { timestamp } => {
            lemma_same_order(m, asked(m));
            if m.slots < GLOBAL_TERMINAL_LIMIT {
                law_reserving_keeps_order(asked(m), timestamp);
            }
        },
        ManagerStep::GiveUp { id } => {
            lemma_is_starting(m, id);
            law_releasing_keeps_order(m, id);
        },
        ManagerStep::Open { info, now } => {
            lemma_with_started(m, info, now);
            law_starting_keeps_order(m, info, now);
        },
        ManagerStep::Change { id, to } => {
            assert(is_id_at(m.terminals, id, m.place(id)));
            law_changes_keep_order(m, id, to);
            assert forall|i: int|
                #![trigger after.terminals[i]]
                0 <= i < after.terminals.len() implies after.broadcasts.contains(
                after.terminals[i].id,
            ) by {
                assert(after.terminals[i].id == m.terminals[i].id);
            }
            assert forall|i: int, j: int|
                #![trigger after.terminals[i], after.terminals[j]]
                0 <= i < j < after.terminals.len() implies after.terminals[i].id
                != after.terminals[j].id by {
                assert(after.terminals[i].id == m.terminals[i].id);
                assert(after.terminals[j].id == m.terminals[j].id);
            }
        },
        ManagerStep::Kill { id } => {
            lemma_without_terminal(m, id);
            law_endings_keep_order(m, id, 0);
        },
        ManagerStep::KillAll => {
            law_endings_keep_order(m, Seq::empty(), 0);
        },
        ManagerStep::Sweep { now } => {
            lemma_after_sweep(m, now);
            law_endings_keep_order(m, Seq::empty(), now);
        },
        ManagerStep::Settings { .. } => {
            lemma_same_order(m, after);
        },
        ManagerStep::Hide { .. } => {
            lemma_same_order(m, after);
        },
    }
}

/// Over the life of a manager ids stay apart and no place is lost: whatever was done, the places
/// that are taken are those of the terminals that run or are being started, at most as many as the
/// limit allows, the id of the next terminal is free, and the output that is handed on is that of
/// the terminals there are.
pub proof fn law_manager_stays_in_order(steps: Seq<ManagerStep>, timestamp: nat)
    requires
        may_take(steps),
        steps.len() <= u64::MAX,
    ensures
        ({
            let m = after_steps(steps);
            &&& m.wf()
            &&& m.orderly()
            &&& m.slots == m.terminals.len() + m.starting.len()
            &&& m.slots <= GLOBAL_TERMINAL_LIMIT
            &&& m.ids <= steps.len()
            &&& !m.tracks(terminal_id(timestamp, m.ids as nat))
            &&& forall|id: Seq<char>|
                #![trigger m.broadcasts.contains(id)]
                m.broadcasts.contains(id) <==> m.tracks(id)
        }),
    decreases steps.len(),
{
    let m = after_steps(steps);
    if steps.len() > 0 {
        law_manager_stays_in_order(steps.drop_last(), timestamp);
        law_step_keeps_order(after_steps(steps.drop_last()), steps.last());
    }
    law_new_id_is_free(m, timestamp);
    assert forall|id: Seq<char>|
        #![trigger m.broadcasts.contains(id)]
        m.broadcasts.contains(id) <==> m.tracks(id) by {
        if m.tracks(id) {
            let p = m.place(id);
            assert(is_id_at(m.terminals, id, p));
            assert(m.broadcasts.contains(m.terminals[p].id));
        }
    }
}

/// Where terminals, their output, starts, places and numbers are the same, so is the order among them.
proof fn lemma_same_order(m: ManagerView, after: ManagerView)
    requires
        m.orderly(),
        after.terminals == m.terminals,
        after.broadcasts == m.broadcasts,
        after.starting == m.starting,
        after.slots == m.slots,
        after.ids == m.ids,
    ensures
        after.orderly(),
{
    assert forall|i: int| 0 <= i < after.terminals.len() implies m.tracks(
        (#[trigger] after.terminals[i]).id,
    ) by {
        assert(is_id_at(m.terminals, after.terminals[i].id, i));
    }
    assert forall|x: Seq<char>| #[trigger] after.broadcasts.contains(x) implies after.tracks(x) by {
        assert(is_id_at(m.terminals, x, m.place(x)));
        assert(is_id_at(after.terminals, x, m.place(x)));
    }
    lemma_some_stay(m, after);
}

}
