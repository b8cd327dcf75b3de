//! What holds of all the terminals together.
use super::instance::{fresh_terminal, InfoView, TerminalView};
use super::manager::{
    after_sweep, all_gone, ids_differ, is_abandoned, is_id_at, is_numbered, kept,
    lemma_after_sweep, lemma_kept_and_swept, lemma_place, lemma_without_ids, next_id_number,
    released_slot, reserved_slot, swept, terminal_id, to_sweep, with_started, ManagerView,
    GLOBAL_TERMINAL_LIMIT,
};
use crate::text::number::{decimal, lemma_decimal_value, lemma_decimal_injective};
use vstd::prelude::*;

verus! {

/// There are never more terminals than the limit allows, those included that are being started.
pub proof fn law_terminal_limit(m: ManagerView)
    requires
        m.wf(),
    ensures
        m.terminals.len() + m.starting.len() <= GLOBAL_TERMINAL_LIMIT,
{
}

/// The id of a terminal that is to be started is that of no terminal, and of no other start.
pub proof fn law_new_id_is_free(m: ManagerView, timestamp: nat)
    requires
        m.orderly(),
    ensures
        !m.tracks(terminal_id(timestamp, m.ids as nat)),
        m.starting.count(terminal_id(timestamp, m.ids as nat)) == 0,
{
    let id = terminal_id(timestamp, m.ids as nat);
    if is_numbered(id, m.ids as nat) {
        let (t, n) = choose|t: nat, n: nat| n < m.ids && id == #[trigger] terminal_id(t, n);
        law_terminal_ids_differ(timestamp, m.ids as nat, t, n);
    }
    if m.tracks(id) {
        let p = m.place(id);
        assert(is_id_at(m.terminals, id, p));
        assert(is_numbered(m.terminals[p].id, m.ids as nat));
    }
}

/// Ids stay apart and places accounted for when a start begins, as long as the numbers last.
pub proof fn law_reserving_keeps_order(m: ManagerView, timestamp: nat)
    requires
        m.orderly(),
        m.ids < u64::MAX,
    ensures
        reserved_slot(m, terminal_id(timestamp, m.ids as nat)).orderly(),
{
    let id = terminal_id(timestamp, m.ids as nat);
    let after = reserved_slot(m, id);
    law_new_id_is_free(m, timestamp);
    assert(is_numbered(id, after.ids as nat));
    lemma_still_numbered(m, after);
    assert forall|x: Seq<char>| #[trigger] after.broadcasts.contains(x) implies after.tracks(x) by {
        lemma_same_terminals(m, after, x);
    }
    assert forall|x: Seq<char>| #[trigger] after.starting.count(x) > 0 implies {
        &&& is_numbered(x, after.ids as nat)
        &&& after.starting.count(x) == 1
        &&& !after.tracks(x)
    } by {
        lemma_same_terminals(m, after, x);
        if x != id {
            assert(m.starting.count(x) > 0);
            lemma_numbered_below(x, m.ids as nat, after.ids as nat);
        }
    }
}

/// Ids stay apart and places accounted for when a start is given up.
pub proof fn law_releasing_keeps_order(m: ManagerView, id: Seq<char>)
    requires
        m.orderly(),
        m.starting.count(id) > 0,
    ensures
        released_slot(m, id).orderly(),
{
    let after = released_slot(m, id);
    assert(m.starting.contains(id));
    lemma_still_numbered(m, after);
    assert forall|x: Seq<char>| #[trigger] after.broadcasts.contains(x) implies after.tracks(x) by {
        lemma_same_terminals(m, after, x);
    }
    assert forall|x: Seq<char>| #[trigger] after.starting.count(x) > 0 implies {
        &&& is_numbered(x, after.ids as nat)
        &&& after.starting.count(x) == 1
        &&& !after.tracks(x)
    } by {
        lemma_same_terminals(m, after, x);
        assert(m.starting.count(x) > 0);
    }
}

/// A start that succeeds finds its id free. Ids stay apart and places accounted for.
pub proof fn law_starting_keeps_order(m: ManagerView, info: InfoView, now: u64)
    requires
        m.orderly(),
        m.starting.count(info.id) > 0,
    ensures
        !m.tracks(info.id),
        with_started(m, info, now).orderly(),
{
    let after = with_started(m, info, now);
    assert(m.starting.contains(info.id));
    assert forall|x: Seq<char>| #[trigger] after.broadcasts.contains(x) implies after.tracks(x) by {
        if x == info.id {
            assert(is_id_at(after.terminals, x, m.terminals.len() as int));
        } else {
            assert(m.broadcasts.contains(x));
            assert(is_id_at(m.terminals, x, m.place(x)));
            assert(is_id_at(after.terminals, x, m.place(x)));
        }
    }
    assert forall|i: int|
        #![trigger after.terminals[i]]
        0 <= i < after.terminals.len() implies is_numbered(
        after.terminals[i].id,
        after.ids as nat,
    ) by {
        if i < m.terminals.len() {
            assert(after.terminals[i] == m.terminals[i]);
        }
    }
    assert forall|x: Seq<char>| #[trigger] after.starting.count(x) > 0 implies {
        &&& is_numbered(x, after.ids as nat)
        &&& after.starting.count(x) == 1
        &&& !after.tracks(x)
    } by {
        assert(m.starting.count(x) > 0);
        assert(x != info.id);
        if after.tracks(x) {
            let p = after.place(x);
            assert(is_id_at(after.terminals, x, p));
            assert(is_id_at(m.terminals, x, p));
        }
    }
}

/// Ids stay apart and places accounted for when terminals change but keep their ids.
pub proof fn law_changes_keep_order(m: ManagerView, id: Seq<char>, to: TerminalView)
    requires
        m.orderly(),
        m.tracks(id),
        to.id == id,
    ensures
        m.with_terminal(id, to).orderly(),
{
    let after = m.with_terminal(id, to);
    let p = m.place(id);
    assert(is_id_at(m.terminals, id, p));
    assert forall|i: int| 0 <= i < after.terminals.len() implies m.tracks(
        (#[trigger] after.terminals[i]).id,
    ) by {
        assert(is_id_at(m.terminals, after.terminals[i].id, i));
    }
    assert forall|x: Seq<char>| #[trigger] after.broadcasts.contains(x) implies after.tracks(x) by {
        assert(is_id_at(m.terminals, x, m.place(x)));
        assert(is_id_at(after.terminals, x, m.place(x)));
    }
    lemma_some_stay(m, after);
}

/// Ids stay apart and places accounted for when a terminal is killed, when a sweep takes some, and
/// when all go.
pub proof fn law_endings_keep_order(m: ManagerView, id: Seq<char>, now: u64)
    requires
        m.orderly(),
    ensures
        m.tracks(id) ==> m.without_terminal(id).orderly(),
        after_sweep(m, now).orderly(),
        all_gone(m).orderly(),
{
    lemma_kept_and_swept(m, m.terminals, now);
    if m.tracks(id) {
        let p = m.place(id);
        assert(is_id_at(m.terminals, id, p));
        let after = m.without_terminal(id);
        assert forall|i: int| 0 <= i < after.terminals.len() implies m.tracks(
            (#[trigger] after.terminals[i]).id,
        ) by {
            let k = if i < p {
                i
            } else {
                i + 1
            };
            assert(is_id_at(m.terminals, after.terminals[i].id, k));
        }
        assert forall|x: Seq<char>| #[trigger] after.broadcasts.contains(x) implies after.tracks(
            x,
        ) by {
            let q = m.place(x);
            assert(is_id_at(m.terminals, x, q));
            assert(is_id_at(after.terminals, x, if q < p {
                q
            } else {
                q - 1
            }));
        }
        lemma_some_stay(m, after);
    }
    let swept_once = after_sweep(m, now);
    assert forall|i: int| 0 <= i < swept_once.terminals.len() implies m.tracks(
        (#[trigger] swept_once.terminals[i]).id,
    ) by {
        let t = kept(m, m.terminals, now)[i];
        let k = choose|k: int| 0 <= k < m.terminals.len() && m.terminals[k] == t;
        assert(is_id_at(m.terminals, swept_once.terminals[i].id, k));
    }
    let gone = swept(m, m.terminals, now);
    assert forall|x: Seq<char>| #[trigger] swept_once.broadcasts.contains(
        x,
    ) implies swept_once.tracks(x) by {
        lemma_without_ids(m.broadcasts, gone, x);
        let q = m.place(x);
        assert(is_id_at(m.terminals, x, q));
        let t = m.terminals[q];
        if to_sweep(m, t, now) {
            let j = choose|j: int| 0 <= j < gone.len() && gone[j] == t;
            assert(gone[j].id == x);
        }
        let stay = kept(m, m.terminals, now);
        let k = choose|k: int| 0 <= k < stay.len() && stay[k] == t;
        assert(is_id_at(swept_once.terminals, x, k));
    }
    lemma_some_stay(m, swept_once);
    let none = all_gone(m);
    assert forall|x: Seq<char>| #[trigger] none.broadcasts.contains(x) implies none.tracks(x) by {
        lemma_without_ids(m.broadcasts, m.terminals, x);
        assert(is_id_at(m.terminals, x, m.place(x)));
        assert(m.terminals[m.place(x)].id == x);
    }
    lemma_some_stay(m, none);
}

/// Where every id was there before, the starts are the same and no output is handed on but that of
/// a terminal, ids stay apart.
pub(crate) proof fn lemma_some_stay(m: ManagerView, after: ManagerView)
    requires
        m.orderly(),
        after.balanced(),
        after.starting == m.starting,
        after.ids == m.ids,
        forall|i: int|
            0 <= i < after.terminals.len() ==> m.tracks((#[trigger] after.terminals[i]).id),
        forall|x: Seq<char>| #[trigger] after.broadcasts.contains(x) ==> after.tracks(x),
    ensures
        after.orderly(),
{
    assert forall|i: int|
        #![trigger after.terminals[i]]
        0 <= i < after.terminals.len() implies is_numbered(
        after.terminals[i].id,
        after.ids as nat,
    ) by {
        let id = after.terminals[i].id;
        assert(m.tracks(id));
        let p = m.place(id);
        assert(is_id_at(m.terminals, id, p));
        assert(is_numbered(m.terminals[p].id, m.ids as nat));
    }
    assert forall|x: Seq<char>| #[trigger] after.starting.count(x) > 0 implies {
        &&& is_numbered(x, after.ids as nat)
        &&& after.starting.count(x) == 1
        &&& !after.tracks(x)
    } by {
        assert(m.starting.count(x) > 0);
        if after.tracks(x) {
            let p = after.place(x);
            assert(is_id_at(after.terminals, x, p));
            assert(m.tracks(after.terminals[p].id));
        }
    }
}

proof fn lemma_numbered_below(id: Seq<char>, low: nat, high: nat)
    requires
        is_numbered(id, low),
        low <= high,
    ensures
        is_numbered(id, high),
{
    let (t, n) = choose|t: nat, n: nat| n < low && id == #[trigger] terminal_id(t, n);
    assert(n < high && id == terminal_id(t, n));
}

proof fn lemma_still_numbered(m: ManagerView, after: ManagerView)
    requires
        m.orderly(),
        after.terminals == m.terminals,
        m.ids <= after.ids,
    ensures
        forall|i: int|
            #![trigger after.terminals[i]]
            0 <= i < after.terminals.len() ==> is_numbered(
                after.terminals[i].id,
                after.ids as nat,
            ),
{
    assert forall|i: int|
        #![trigger after.terminals[i]]
        0 <= i < after.terminals.len() implies is_numbered(
        after.terminals[i].id,
        after.ids as nat,
    ) by {
        assert(is_numbered(m.terminals[i].id, m.ids as nat));
        lemma_numbered_below(m.terminals[i].id, m.ids as nat, after.ids as nat);
    }
}

proof fn lemma_same_terminals(m: ManagerView, after: ManagerView, id: Seq<char>)
    requires
        after.terminals == m.terminals,
    ensures
        after.tracks(id) == m.tracks(id),
{
    if m.tracks(id) {
        assert(is_id_at(after.terminals, id, m.place(id)));
    }
    if after.tracks(id) {
        assert(is_id_at(m.terminals, id, after.place(id)));
    }
}

/// A terminal that could not be started leaves the manager as it was, but that an id was used up.
pub proof fn law_failed_start_leaves_no_trace(m: ManagerView, id: Seq<char>)
    ensures
        released_slot(reserved_slot(m, id), id) == (ManagerView {
            ids: next_id_number(m.ids),
            ..m
        }),
{
    assert(m.starting.insert(id).remove(id) =~= m.starting);
}

/// A terminal that was started is found under its id, as it was started, and its output can be
/// followed. Other terminals stay as they are.
pub proof fn law_started_terminal_is_found(
    m: ManagerView,
    info: InfoView,
    now: u64,
    other: Seq<char>,
)
    requires
        m.wf(),
        other != info.id,
    ensures
        ({
            let after = with_started(m, info, now);
            &&& after.tracks(info.id)
            &&& after.terminal(info.id) == fresh_terminal(info, now)
            &&& after.broadcasts.contains(info.id)
            &&& after.tracks(other) == m.tracks(other)
            &&& m.tracks(other) ==> after.terminal(other) == m.terminal(other)
        }),
{
    let after = with_started(m, info, now);
    lemma_started_ids_differ(m, info, now);
    let p = if m.tracks(info.id) {
        m.place(info.id)
    } else {
        m.terminals.len() as int
    };
    if m.tracks(info.id) {
        assert(is_id_at(m.terminals, info.id, p));
    }
    assert(is_id_at(after.terminals, info.id, p));
    lemma_place(after, info.id, p);
    if m.tracks(other) {
        let q = m.place(other);
        assert(is_id_at(m.terminals, other, q));
        assert(is_id_at(after.terminals, other, q));
        lemma_place(after, other, q);
    }
    if after.tracks(other) {
        let q = after.place(other);
        assert(is_id_at(after.terminals, other, q));
        assert(is_id_at(m.terminals, other, q));
    }
}

proof fn lemma_started_ids_differ(m: ManagerView, info: InfoView, now: u64)
    requires
        m.wf(),
    ensures
        ids_differ(with_started(m, info, now).terminals),
{
    let after = with_started(m, info, now);
    if m.tracks(info.id) {
        assert(is_id_at(m.terminals, info.id, m.place(info.id)));
    }
    assert forall|i: int, j: int|
        #![trigger after.terminals[i], after.terminals[j]]
        0 <= i < j < after.terminals.len() implies after.terminals[i].id
        != after.terminals[j].id by {
        if !m.tracks(info.id) {
            assert(!is_id_at(m.terminals, info.id, i));
        }
        if j < m.terminals.len() {
            assert(m.terminals[i] == m.terminals[i] && m.terminals[j] == m.terminals[j]);
        }
    }
}

/// A terminal that was killed is gone, and its output cannot be followed. Other terminals stay as
/// they are.
pub proof fn law_killed_terminal_is_gone(m: ManagerView, id: Seq<char>, other: Seq<char>)
    requires
        m.wf(),
        m.tracks(id),
        other != id,
    ensures
        ({
            let after = m.without_terminal(id);
            &&& !after.tracks(id)
            &&& !after.broadcasts.contains(id)
            &&& after.tracks(other) == m.tracks(other)
            &&& m.tracks(other) ==> after.terminal(other) == m.terminal(other)
        }),
{
    let after = m.without_terminal(id);
    let p = m.place(id);
    assert(is_id_at(m.terminals, id, p));
    assert(ids_differ(after.terminals)) by {
        assert forall|i: int, j: int|
            #![trigger after.terminals[i], after.terminals[j]]
            0 <= i < j < after.terminals.len() implies after.terminals[i].id
            != after.terminals[j].id by {
            let a = if i < p {
                i
            } else {
                i + 1
            };
            let b = if j < p {
                j
            } else {
                j + 1
            };
            assert(after.terminals[i] == m.terminals[a] && after.terminals[j] == m.terminals[b]);
        }
    }
    if after.tracks(id) {
        let q = after.place(id);
        assert(is_id_at(after.terminals, id, q));
        let k = if q < p {
            q
        } else {
            q + 1
        };
        assert(m.terminals[k] == after.terminals[q] && m.terminals[p] == m.terminals[p]);
    }
    if m.tracks(other) {
        let q = m.place(other);
        assert(is_id_at(m.terminals, other, q));
        let k = if q < p {
            q
        } else {
            q - 1
        };
        assert(is_id_at(after.terminals, other, k));
        lemma_place(after, other, k);
    }
    if after.tracks(other) {
        let q = after.place(other);
        assert(is_id_at(after.terminals, other, q));
        assert(is_id_at(m.terminals, other, if q < p {
            q
        } else {
            q + 1
        }));
    }
}

/// A sweep takes exactly the terminals that are to leave: every terminal is still there, unchanged,
/// or it left and its output goes nowhere, and which of the two holds depends on that terminal
/// alone.
pub proof fn law_sweep_takes_exactly_those(m: ManagerView, now: u64, i: int)
    requires
        m.wf(),
        0 <= i < m.terminals.len(),
    ensures
        ({
            let t = m.terminals[i];
            let after = after_sweep(m, now);
            if to_sweep(m, t, now) {
                &&& swept(m, m.terminals, now).contains(t)
                &&& !after.tracks(t.id)
                &&& !after.broadcasts.contains(t.id)
            } else {
                &&& after.tracks(t.id)
                &&& after.terminal(t.id) == t
                &&& after.broadcasts.contains(t.id)
            }
        }),
{
    let t = m.terminals[i];
    let after = after_sweep(m, now);
    lemma_kept_and_swept(m, m.terminals, now);
    let stay = kept(m, m.terminals, now);
    let gone = swept(m, m.terminals, now);
    lemma_without_ids(m.broadcasts, gone, t.id);
    if to_sweep(m, t, now) {
        let j = choose|j: int| 0 <= j < gone.len() && gone[j] == t;
        assert(gone[j].id == t.id);
        if after.tracks(t.id) {
            let q = after.place(t.id);
            assert(is_id_at(after.terminals, t.id, q));
            assert(stay[q].id == t.id);
            let b = choose|b: int| 0 <= b < m.terminals.len() && m.terminals[b] == stay[q];
            assert(m.terminals[b] == stay[q] && m.terminals[i] == t);
        }
    } else {
        assert(stay.contains(t));
        let q = choose|q: int| 0 <= q < stay.len() && stay[q] == t;
        assert(is_id_at(after.terminals, t.id, q));
        lemma_place(after, t.id, q);
        lemma_after_sweep(m, now);
        assert(after.broadcasts.contains(after.terminals[q].id));
    }
}

/// A sweep of a hidden window changes nothing.
pub proof fn law_hidden_window_is_not_swept(m: ManagerView, now: u64)
    requires
        m.hidden,
    ensures
        after_sweep(m, now) == m,
{
    lemma_nothing_swept(m, m.terminals, now);
    assert(after_sweep(m, now) =~= m);
}

proof fn lemma_nothing_swept(m: ManagerView, terminals: Seq<TerminalView>, now: u64)
    requires
        m.hidden,
    ensures
        swept(m, terminals, now).len() == 0,
        kept(m, terminals, now) == terminals,
    decreases terminals.len(),
{
    if terminals.len() > 0 {
        lemma_nothing_swept(m, terminals.drop_last(), now);
        assert(terminals.drop_last().push(terminals.last()) =~= terminals);
    }
    assert(kept(m, terminals, now) =~= terminals);
}

/// A terminal that something shows is never taken for an orphan.
pub proof fn law_shown_terminal_stays(m: ManagerView, t: TerminalView, now: u64)
    requires
        !t.orphaned(),
    ensures
        !is_abandoned(m, t, now),
        !t.kill_deferred ==> !to_sweep(m, t, now),
{
}

/// A kill that was put off because the window was hidden is made up for by the first sweep after
/// the window is visible again.
pub proof fn law_deferred_kill_is_made_up_for(m: ManagerView, id: Seq<char>, now: u64)
    requires
        m.wf(),
        m.hidden,
        m.tracks(id),
    ensures
        ({
            let marked = m.with_terminal(id, m.terminal(id).deferred());
            let shown = ManagerView { hidden: false, ..marked };
            &&& marked.tracks(id)
            &&& !after_sweep(shown, now).tracks(id)
        }),
{
    let p = m.place(id);
    assert(is_id_at(m.terminals, id, p));
    let marked = m.with_terminal(id, m.terminal(id).deferred());
    assert(is_id_at(marked.terminals, id, p));
    let shown = ManagerView { hidden: false, ..marked };
    assert(shown.wf()) by {
        assert forall|i: int, j: int|
            #![trigger shown.terminals[i], shown.terminals[j]]
            0 <= i < j < shown.terminals.len() implies shown.terminals[i].id
            != shown.terminals[j].id by {
            assert(m.terminals[i] == m.terminals[i] && m.terminals[j] == m.terminals[j]);
        }
        assert forall|i: int|
            #![trigger shown.terminals[i]]
            0 <= i < shown.terminals.len() implies shown.broadcasts.contains(
            shown.terminals[i].id,
        ) by {
            assert(m.terminals[i] == m.terminals[i]);
        }
    }
    assert(shown.terminals[p].kill_deferred);
    law_sweep_takes_exactly_those(shown, now, p);
}

/// Ids of different numbers differ, and so do those of different times.
pub proof fn law_terminal_ids_differ(t1: nat, n1: nat, t2: nat, n2: nat)
    requires
        terminal_id(t1, n1) == terminal_id(t2, n2),
    ensures
        t1 == t2,
        n1 == n2,
{
    reveal_strlit("terminal-");
    reveal_strlit("-");
    let a = terminal_id(t1, n1);
    let b = terminal_id(t2, n2);
    let d1 = decimal(t1);
    let d2 = decimal(t2);
    let e1 = decimal(n1);
    let e2 = decimal(n2);
    lemma_decimal_value(t1);
    lemma_decimal_value(t2);
    let head = "terminal-"@.len() as int;
    assert(a[head + d1.len()] == '-');
    assert(b[head + d2.len()] == '-');
    if d1.len() < d2.len() {
        assert(b[head + d1.len()] == d2[d1.len() as int]);
    }
    if d2.len() < d1.len() {
        assert(a[head + d2.len()] == d1[d2.len() as int]);
    }
    assert forall|i: int| 0 <= i < d1.len() implies d1[i] == d2[i] by {
        assert(a[head + i] == d1[i]);
        assert(b[head + i] == d2[i]);
    }
    assert(d1 =~= d2);
    assert(a.len() == head + d1.len() + 1 + e1.len());
    assert(b.len() == head + d2.len() + 1 + e2.len());
    assert forall|i: int| 0 <= i < e1.len() implies e1[i] == e2[i] by {
        assert(a[head + d1.len() + 1 + i] == e1[i]);
        assert(b[head + d2.len() + 1 + i] == e2[i]);
    }
    assert(e1 =~= e2);
    lemma_decimal_injective(t1, t2);
    lemma_decimal_injective(n1, n2);
}

}
