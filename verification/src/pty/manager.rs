//! All the terminals: which there are, who may start one more, and which are to go.
//!
//! The manager decides. What it decides on, processes and threads, is in the hands of its caller,
//! who tells it of times and outcomes.
use super::instance::{
    fresh_terminal, info_views, terminal_views, InfoView, TerminalInfo, TerminalInstance,
    TerminalView,
};
use crate::text::number::{decimal, to_decimal};
use crate::text::{concat2, concat4, same_text};
use vstd::hash_set::StringHashSet;
use vstd::multiset::Multiset;
use vstd::prelude::*;

verus! {

/// How many terminals there may be at once.
pub const GLOBAL_TERMINAL_LIMIT: usize = 30;

/// After how many milliseconds without use a terminal that nothing shows is to go, to begin with.
pub const ORPHAN_TIMEOUT_MS: u64 = 300_000;

/// How many milliseconds pass between two sweeps.
pub const ORPHAN_CHECK_INTERVAL_MS: u64 = 30_000;

// ---------------------------------------------------------------------------------------------
// The model
// ---------------------------------------------------------------------------------------------

/// The terminal of this id stands in the list at this place.
pub open spec fn is_id_at(terminals: Seq<TerminalView>, id: Seq<char>, i: int) -> bool {
    0 <= i < terminals.len() && terminals[i].id == id
}

/// No two terminals of the list have one id.
pub open spec fn ids_differ(terminals: Seq<TerminalView>) -> bool {
    forall|i: int, j: int|
        #![trigger terminals[i], terminals[j]]
        0 <= i < j < terminals.len() ==> terminals[i].id != terminals[j].id
}

/// The model of a [`PtyManager`].
#[verifier::ext_equal]
pub struct ManagerView {
    /// The terminals, in the order in which they were started.
    pub terminals: Seq<TerminalView>,
    /// The ids under which output is handed to remote clients.
    pub broadcasts: Set<Seq<char>>,
    /// How many of the places for terminals are taken.
    pub slots: int,
    /// The ids of the terminals that are still being started; each of them has a place.
    pub starting: Multiset<Seq<char>>,
    /// The number in the next id.
    pub ids: u64,
    /// Orphans are looked for.
    pub detection: bool,
    pub timeout_ms: u64,
    /// Somebody sweeps at intervals.
    pub detection_started: bool,
    /// The window is hidden.
    pub hidden: bool,
}

impl ManagerView {
    /// There is a terminal of this id.
    pub open spec fn tracks(self, id: Seq<char>) -> bool {
        exists|i: int| is_id_at(self.terminals, id, i)
    }

    /// Where the terminal of this id stands.
    pub open spec fn place(self, id: Seq<char>) -> int {
        choose|i: int| is_id_at(self.terminals, id, i)
    }

    /// The terminal of this id.
    pub open spec fn terminal(self, id: Seq<char>) -> TerminalView {
        self.terminals[self.place(id)]
    }

    /// The manager with another terminal in the place of the one of this id.
    pub open spec fn with_terminal(self, id: Seq<char>, terminal: TerminalView) -> ManagerView {
        ManagerView { terminals: self.terminals.update(self.place(id), terminal), ..self }
    }

    /// The manager without the terminal of this id: its place is free, and its output goes nowhere.
    pub open spec fn without_terminal(self, id: Seq<char>) -> ManagerView {
        ManagerView {
            terminals: self.terminals.remove(self.place(id)),
            broadcasts: self.broadcasts.remove(id),
            slots: self.slots - 1,
            ..self
        }
    }

    /// Ids tell terminals apart, the output of every terminal can be followed, and the places that
    /// are taken are enough for the terminals and within the limit.
    pub open spec fn wf(self) -> bool {
        &&& ids_differ(self.terminals)
        &&& forall|i: int|
            #![trigger self.terminals[i]]
            0 <= i < self.terminals.len() ==> self.broadcasts.contains(self.terminals[i].id)
        &&& self.terminals.len() + self.starting.len() <= self.slots
        &&& self.slots <= GLOBAL_TERMINAL_LIMIT
    }

    /// No place is taken but for a terminal that runs or is being started.
    pub open spec fn balanced(self) -> bool {
        self.slots == self.terminals.len() + self.starting.len()
    }

    /// Every id was made with a number below the next one, no id is that of two starts or of a
    /// start and a terminal, no place is taken but for them, and no output is handed on but that of
    /// a terminal.
    pub open spec fn orderly(self) -> bool {
        &&& self.balanced()
        &&& forall|id: Seq<char>| #[trigger] self.broadcasts.contains(id) ==> self.tracks(id)
        &&& forall|i: int|
            #![trigger self.terminals[i]]
            0 <= i < self.terminals.len() ==> is_numbered(self.terminals[i].id, self.ids as nat)
        &&& forall|id: Seq<char>| #[trigger]
            self.starting.count(id) > 0 ==> {
                &&& is_numbered(id, self.ids as nat)
                &&& self.starting.count(id) == 1
                &&& !self.tracks(id)
            }
    }
}

/// The id was made with a number below this one.
pub open spec fn is_numbered(id: Seq<char>, below: nat) -> bool {
    exists|timestamp: nat, number: nat|
        number < below && id == #[trigger] terminal_id(timestamp, number)
}

/// What is said of a terminal that there is not.
pub open spec fn not_found(id: Seq<char>) -> Seq<char> {
    "Terminal not found: "@ + id
}

/// A result without a value is a failure with this message.
pub open spec fn fails_with(result: Result<(), String>, message: Seq<char>) -> bool {
    result is Err && result->Err_0@ == message
}

pub(crate) proof fn lemma_place(m: ManagerView, id: Seq<char>, i: int)
    requires
        ids_differ(m.terminals),
        is_id_at(m.terminals, id, i),
    ensures
        m.tracks(id),
        m.place(id) == i,
{
    let p = m.place(id);
    assert(is_id_at(m.terminals, id, p));
    if p != i {
        assert(m.terminals[p] == m.terminals[p] && m.terminals[i] == m.terminals[i]);
    }
}

// ---------------------------------------------------------------------------------------------
// The manager
// ---------------------------------------------------------------------------------------------

/// A place that is taken for a terminal. Until it is committed to a terminal that runs it can be
/// given back.
pub struct TerminalSlotReservation {
    committed: bool,
}

impl TerminalSlotReservation {
    /// The place belongs to a terminal that runs.
    pub closed spec fn is_committed(&self) -> bool {
        self.committed
    }

    /// Takes one more place, if one is free.
    pub fn try_acquire(active_slots: &mut usize) -> (slot: Option<Self>)
        ensures
            slot is Some <==> *old(active_slots) < GLOBAL_TERMINAL_LIMIT,
            slot is Some ==> !slot->0.is_committed(),
            *final(active_slots) == if slot is Some {
                *old(active_slots) + 1
            } else {
                *old(active_slots) as int
            },
    {
        if *active_slots >= GLOBAL_TERMINAL_LIMIT {
            return None;
        }
        *active_slots = *active_slots + 1;
        Some(TerminalSlotReservation { committed: false })
    }

    /// Commits the place to a terminal that runs.
    pub fn commit(&mut self)
        ensures
            final(self).is_committed(),
    {
        self.committed = true;
    }

    /// Ends the reservation: a place that was not committed is free again.
    pub fn release(self, active_slots: &mut usize)
        requires
            !self.is_committed() ==> *old(active_slots) > 0,
        ensures
            *final(active_slots) == if self.is_committed() {
                *old(active_slots) as int
            } else {
                *old(active_slots) - 1
            },
    {
        if !self.committed {
            *active_slots = *active_slots - 1;
        }
    }
}

/// A start that is under way: the id of the terminal and the place that is taken for it.
pub struct Reserved {
    pub id: String,
    pub slot: TerminalSlotReservation,
}

/// All the terminals.
pub struct PtyManager {
    terminals: Vec<TerminalInstance>,
    broadcasts: StringHashSet,
    active_terminal_slots: usize,
    starting: Ghost<Multiset<Seq<char>>>,
    id_counter: u64,
    orphan_detection_enabled: bool,
    orphan_timeout_ms: u64,
    orphan_detection_started: bool,
    is_hidden: bool,
}

impl View for PtyManager {
    type V = ManagerView;

    closed spec fn view(&self) -> ManagerView {
        ManagerView {
            terminals: terminal_views(self.terminals@),
            broadcasts: self.broadcasts@,
            slots: self.active_terminal_slots as int,
            starting: self.starting@,
            ids: self.id_counter,
            detection: self.orphan_detection_enabled,
            timeout_ms: self.orphan_timeout_ms,
            detection_started: self.orphan_detection_started,
            hidden: self.is_hidden,
        }
    }
}

/// A manager that has done nothing yet.
pub open spec fn idle_manager() -> ManagerView {
    ManagerView {
        terminals: Seq::empty(),
        broadcasts: Set::empty(),
        slots: 0,
        starting: Multiset::empty(),
        ids: 0,
        detection: true,
        timeout_ms: ORPHAN_TIMEOUT_MS,
        detection_started: false,
        hidden: false,
    }
}

impl PtyManager {
    /// No terminal, a visible window, and a look out for orphans.
    pub fn new() -> (manager: Self)
        ensures
            manager@.wf(),
            manager@.orderly(),
            manager@ == idle_manager(),
    {
        let manager = PtyManager {
            terminals: Vec::new(),
            broadcasts: StringHashSet::new(),
            active_terminal_slots: 0,
            starting: Ghost(Multiset::empty()),
            id_counter: 0,
            orphan_detection_enabled: true,
            orphan_timeout_ms: ORPHAN_TIMEOUT_MS,
            orphan_detection_started: false,
            is_hidden: false,
        };
        assert(manager@ =~= idle_manager());
        manager
    }

    fn find(&self, id: &str) -> (at: Option<usize>)
        ensures
            match at {
                Some(i) => is_id_at(self@.terminals, id@, i as int),
                None => !self@.tracks(id@),
            },
    {
        let ghost all = terminal_views(self.terminals@);
        let mut i: usize = 0;
        while i < self.terminals.len()
            invariant
                i <= self.terminals@.len(),
                all == terminal_views(self.terminals@),
                forall|j: int| 0 <= j < i ==> !is_id_at(all, id@, j),
            decreases self.terminals.len() - i,
        {
            assert(all[i as int] == self.terminals@[i as int]@);
            if same_text(self.terminals[i].id.as_str(), id) {
                return Some(i);
            }
            i += 1;
        }
        assert forall|j: int| !is_id_at(all, id@, j) by {}
        None
    }

    fn unknown(id: &str) -> (message: String)
        ensures
            message@ == not_found(id@),
    {
        concat2("Terminal not found: ", id)
    }

    // -----------------------------------------------------------------------------------------
    // Looking
    // -----------------------------------------------------------------------------------------

    /// The terminal of this id.
    pub fn get(&self, id: &str) -> (terminal: Option<&TerminalInstance>)
        requires
            self@.wf(),
        ensures
            match terminal {
                Some(t) => self@.tracks(id@) && t@ == self@.terminal(id@),
                None => !self@.tracks(id@),
            },
    {
        match self.find(id) {
            Some(i) => {
                proof {
                    lemma_place(self@, id@, i as int);
                }
                Some(&self.terminals[i])
            },
            None => None,
        }
    }

    /// All the terminals.
    pub fn get_all(&self) -> (terminals: &Vec<TerminalInstance>)
        ensures
            terminal_views(terminals@) == self@.terminals,
    {
        &self.terminals
    }

    /// What is told of the terminals.
    pub fn list_active(&self) -> (infos: Vec<TerminalInfo>)
        ensures
            info_views(infos@) == self@.terminals.map_values(|t: TerminalView| t.info()),
    {
        let mut infos: Vec<TerminalInfo> = Vec::new();
        let mut i: usize = 0;
        while i < self.terminals.len()
            invariant
                i <= self.terminals@.len(),
                infos@.len() == i,
                forall|j: int| 0 <= j < i ==> (#[trigger] infos@[j])@ == self.terminals@[j]@.info(),
            decreases self.terminals.len() - i,
        {
            infos.push(self.terminals[i].info());
            i += 1;
        }
        assert(info_views(infos@) =~= self@.terminals.map_values(|t: TerminalView| t.info()));
        infos
    }

    /// Can the output of a terminal be followed? It can where there is such a terminal.
    pub fn subscribe_broadcast(&self, id: &str) -> (subscribed: bool)
        ensures
            subscribed == (self@.tracks(id@) && self@.broadcasts.contains(id@)),
            self@.wf() ==> subscribed == self@.tracks(id@),
    {
        let subscribed = match self.find(id) {
            Some(i) => self.broadcasts.contains(id),
            None => false,
        };
        assert(self@.wf() && self@.tracks(id@) ==> subscribed) by {
            if self@.wf() && self@.tracks(id@) {
                let i = self@.place(id@);
                assert(is_id_at(self@.terminals, id@, i));
                assert(self@.broadcasts.contains(self@.terminals[i].id));
            }
        }
        subscribed
    }

    /// How many terminals there are.
    pub fn get_count(&self) -> (count: usize)
        ensures
            count == self@.terminals.len(),
    {
        self.terminals.len()
    }

    /// Are all the places taken?
    pub fn is_limit_reached(&self) -> (reached: bool)
        ensures
            reached == (self@.slots >= GLOBAL_TERMINAL_LIMIT),
    {
        self.active_terminal_slots >= GLOBAL_TERMINAL_LIMIT
    }

    /// Is the window hidden?
    pub fn is_hidden(&self) -> (hidden: bool)
        ensures
            hidden == self@.hidden,
    {
        self.is_hidden
    }

    // -----------------------------------------------------------------------------------------
    // Using a terminal
    // -----------------------------------------------------------------------------------------

    /// The process of a terminal wrote something.
    pub fn note_activity(&mut self, id: &str, now: u64)
        requires
            old(self)@.wf(),
        ensures
            final(self)@.wf(),
            final(self)@ == if old(self)@.tracks(id@) {
                old(self)@.with_terminal(id@, old(self)@.terminal(id@).used(now))
            } else {
                old(self)@
            },
    {
        match self.find(id) {
            Some(i) => {
                proof {
                    lemma_place(self@, id@, i as int);
                }
                self.terminals[i].update_activity(now);
                assert(self@ =~= old(self)@.with_terminal(
                    id@,
                    old(self)@.terminal(id@).used(now),
                ));
            },
            None => {},
        }
    }

    /// Something is to be written to a terminal. It counts as used even if that fails.
    pub fn write(&mut self, id: &str, now: u64) -> (result: Result<(), String>)
        requires
            old(self)@.wf(),
        ensures
            final(self)@.wf(),
            if old(self)@.tracks(id@) {
                &&& result is Ok
                &&& final(self)@ == old(self)@.with_terminal(
                    id@,
                    old(self)@.terminal(id@).used(now),
                )
            } else {
                fails_with(result, not_found(id@)) && final(self)@ == old(self)@
            },
    {
        match self.find(id) {
            Some(_) => {
                proof {
                    assert(self@.tracks(id@));
                }
                self.note_activity(id, now);
                Ok(())
            },
            None => Err(PtyManager::unknown(id)),
        }
    }

    /// A terminal is to have another size, and the system was asked for it. Where the system
    /// refused, the size stays and the terminal does not count as used.
    pub fn resize(
        &mut self,
        id: &str,
        cols: u16,
        rows: u16,
        outcome: &ResizeOutcome,
        now: u64,
    ) -> (result: Result<(), String>)
        requires
            old(self)@.wf(),
        ensures
            final(self)@.wf(),
            if !old(self)@.tracks(id@) {
                fails_with(result, not_found(id@)) && final(self)@ == old(self)@
            } else {
                match resize_failure(*outcome) {
                    Some(message) => fails_with(result, message) && final(self)@ == old(self)@,
                    None => {
                        &&& result is Ok
                        &&& final(self)@ == old(self)@.with_terminal(
                            id@,
                            old(self)@.terminal(id@).sized(cols, rows, now),
                        )
                    },
                }
            },
    {
        match self.find(id) {
            None => Err(PtyManager::unknown(id)),
            Some(i) => {
                proof {
                    lemma_place(self@, id@, i as int);
                }
                match outcome {
                    ResizeOutcome::Resized => {
                        self.terminals[i].cols = cols;
                        self.terminals[i].rows = rows;
                        self.terminals[i].update_activity(now);
                        assert(self@ =~= old(self)@.with_terminal(
                            id@,
                            old(self)@.terminal(id@).sized(cols, rows, now),
                        ));
                        Ok(())
                    },
                    ResizeOutcome::NoConPty => Err("ConPTY handles unavailable".to_owned()),
                    ResizeOutcome::ConPtyFailed(e) => Err(
                        concat2("Failed to resize ConPTY: ", e.as_str()),
                    ),
                    ResizeOutcome::NoMaster => Err("PTY master already consumed".to_owned()),
                    ResizeOutcome::MasterFailed(e) => Err(
                        concat2("Failed to resize terminal: ", e.as_str()),
                    ),
                }
            },
        }
    }

    /// A renderer shows a terminal.
    pub fn add_renderer_ref(&mut self, id: &str, renderer_id: &str) -> (result: Result<(), String>)
        requires
            old(self)@.wf(),
        ensures
            final(self)@.wf(),
            if old(self)@.tracks(id@) {
                &&& result is Ok
                &&& final(self)@ == old(self)@.with_terminal(
                    id@,
                    old(self)@.terminal(id@).shown_by(renderer_id@),
                )
            } else {
                fails_with(result, not_found(id@)) && final(self)@ == old(self)@
            },
    {
        match self.find(id) {
            Some(i) => {
                proof {
                    lemma_place(self@, id@, i as int);
                }
                self.terminals[i].add_renderer_ref(renderer_id.to_owned());
                assert(self@ =~= old(self)@.with_terminal(
                    id@,
                    old(self)@.terminal(id@).shown_by(renderer_id@),
                ));
                Ok(())
            },
            None => Err(PtyManager::unknown(id)),
        }
    }

    /// A renderer no longer shows a terminal.
    pub fn remove_renderer_ref(&mut self, id: &str, renderer_id: &str) -> (result: Result<
        (),
        String,
    >)
        requires
            old(self)@.wf(),
        ensures
            final(self)@.wf(),
            if old(self)@.tracks(id@) {
                &&& result is Ok
                &&& final(self)@ == old(self)@.with_terminal(
                    id@,
                    old(self)@.terminal(id@).not_shown_by(renderer_id@),
                )
            } else {
                fails_with(result, not_found(id@)) && final(self)@ == old(self)@
            },
    {
        match self.find(id) {
            Some(i) => {
                proof {
                    lemma_place(self@, id@, i as int);
                }
                self.terminals[i].remove_renderer_ref(renderer_id);
                assert(self@ =~= old(self)@.with_terminal(
                    id@,
                    old(self)@.terminal(id@).not_shown_by(renderer_id@),
                ));
                Ok(())
            },
            None => Err(PtyManager::unknown(id)),
        }
    }

    /// Attaches one more remote client to a terminal, unless as many are attached as may be. There
    /// is nothing to say where there is no such terminal.
    pub fn try_add_remote_connection(&mut self, id: &str, limit: usize) -> (added: Option<bool>)
        requires
            old(self)@.wf(),
        ensures
            final(self)@.wf(),
            if !old(self)@.tracks(id@) {
                added is None && final(self)@ == old(self)@
            } else {
                let t = old(self)@.terminal(id@);
                if t.remote_connections < limit {
                    &&& added == Some(true)
                    &&& final(self)@ == old(self)@.with_terminal(
                        id@,
                        t.with_connections(t.remote_connections + 1),
                    )
                } else {
                    added == Some(false) && final(self)@ == old(self)@
                }
            },
    {
        match self.find(id) {
            Some(i) => {
                proof {
                    lemma_place(self@, id@, i as int);
                }
                let ghost t = self@.terminal(id@);
                let added = self.terminals[i].try_add_remote_connection(limit);
                assert(added ==> self@ =~= old(self)@.with_terminal(
                    id@,
                    t.with_connections(t.remote_connections + 1),
                ));
                assert(!added ==> self@ =~= old(self)@);
                Some(added)
            },
            None => None,
        }
    }

    /// Detaches a remote client from a terminal, if there is such a terminal and one is attached.
    pub fn remove_remote_connection(&mut self, id: &str)
        requires
            old(self)@.wf(),
        ensures
            final(self)@.wf(),
            final(self)@ == if old(self)@.tracks(id@) && old(self)@.terminal(
                id@,
            ).remote_connections > 0 {
                let t = old(self)@.terminal(id@);
                old(self)@.with_terminal(id@, t.with_connections(t.remote_connections - 1))
            } else {
                old(self)@
            },
    {
        match self.find(id) {
            Some(i) => {
                proof {
                    lemma_place(self@, id@, i as int);
                }
                let ghost t = self@.terminal(id@);
                self.terminals[i].remove_remote_connection();
                assert(t.remote_connections > 0 ==> self@ =~= old(self)@.with_terminal(
                    id@,
                    t.with_connections(t.remote_connections - 1),
                ));
                assert(t.remote_connections == 0 ==> self@ =~= old(self)@);
            },
            None => {},
        }
    }

    // -----------------------------------------------------------------------------------------
    // Ending terminals
    // -----------------------------------------------------------------------------------------

    /// Kills a terminal. While the window is hidden the terminal stays and is only marked: the next
    /// sweep of a visible window takes it. The terminal that left, if one did, is to be cleaned up.
    pub fn kill(&mut self, id: &str) -> (result: Result<Option<TerminalInstance>, String>)
        requires
            old(self)@.wf(),
        ensures
            final(self)@.wf(),
            if old(self)@.hidden {
                &&& result is Ok
                &&& result->Ok_0 is None
                &&& final(self)@ == if old(self)@.tracks(id@) {
                    old(self)@.with_terminal(id@, old(self)@.terminal(id@).deferred())
                } else {
                    old(self)@
                }
            } else if old(self)@.tracks(id@) {
                &&& result is Ok
                &&& result->Ok_0 is Some
                &&& result->Ok_0->0@ == old(self)@.terminal(id@)
                &&& final(self)@ == old(self)@.without_terminal(id@)
            } else {
                &&& result is Err
                &&& result->Err_0@ == not_found(id@)
                &&& final(self)@ == old(self)@
            },
    {
        let found = self.find(id);
        if self.is_hidden {
            match found {
                Some(i) => {
                    proof {
                        lemma_place(self@, id@, i as int);
                    }
                    self.terminals[i].kill_deferred = true;
                    assert(self@ =~= old(self)@.with_terminal(
                        id@,
                        old(self)@.terminal(id@).deferred(),
                    ));
                },
                None => {},
            }
            return Ok(None);
        }
        match found {
            Some(i) => {
                proof {
                    lemma_place(self@, id@, i as int);
                }
                let gone = self.terminals.remove(i);
                self.broadcasts.remove(id);
                self.active_terminal_slots -= 1;
                proof {
                    assert(self@ =~= old(self)@.without_terminal(id@));
                    lemma_without_terminal(old(self)@, id@);
                }
                Ok(Some(gone))
            },
            None => Err(PtyManager::unknown(id)),
        }
    }

    /// Ends all terminals, whether or not the window is visible. Those that left are to be cleaned
    /// up.
    pub fn kill_all(&mut self) -> (gone: Vec<TerminalInstance>)
        requires
            old(self)@.wf(),
        ensures
            final(self)@.wf(),
            terminal_views(gone@) == old(self)@.terminals,
            final(self)@ == all_gone(old(self)@),
    {
        let mut gone: Vec<TerminalInstance> = Vec::new();
        std::mem::swap(&mut gone, &mut self.terminals);
        let ghost all = terminal_views(gone@);
        let mut i: usize = 0;
        while i < gone.len()
            invariant
                i <= gone@.len(),
                all == terminal_views(gone@),
                self.broadcasts@ == without_ids(old(self)@.broadcasts, all.take(i as int)),
                self@ == (ManagerView {
                    terminals: Seq::empty(),
                    broadcasts: self.broadcasts@,
                    ..old(self)@
                }),
            decreases gone.len() - i,
        {
            let ghost now = all.take(i + 1);
            assert(now.drop_last() =~= all.take(i as int));
            assert(now.last() == gone@[i as int]@);
            self.broadcasts.remove(gone[i].id.as_str());
            i += 1;
        }
        assert(all.take(i as int) =~= all);
        self.active_terminal_slots -= gone.len();
        assert(self@ =~= all_gone(old(self)@));
        gone
    }

    /// A sweep: terminals whose kill was put off, and those that nothing shows and nobody used for
    /// too long, leave. A hidden window is not swept. Those that left are to be cleaned up.
    pub fn sweep(&mut self, now: u64) -> (gone: Vec<TerminalInstance>)
        requires
            old(self)@.wf(),
        ensures
            final(self)@.wf(),
            terminal_views(gone@) == swept(old(self)@, old(self)@.terminals, now),
            final(self)@ == after_sweep(old(self)@, now),
    {
        let ghost m = self@;
        let ghost all = self@.terminals;
        let mut gone: Vec<TerminalInstance> = Vec::new();
        let mut i: usize = 0;
        let ghost mut k: int = 0;
        assert(all.take(0) =~= Seq::empty());
        assert(all.skip(0) =~= all);
        assert(kept(m, all.take(0), now) + all.skip(0) =~= all);
        assert(terminal_views(gone@) =~= Seq::empty());
        while i < self.terminals.len()
            invariant
                m.wf(),
                all == m.terminals,
                0 <= k <= all.len(),
                i == kept(m, all.take(k), now).len(),
                self@ == (ManagerView {
                    terminals: kept(m, all.take(k), now) + all.skip(k),
                    broadcasts: without_ids(m.broadcasts, swept(m, all.take(k), now)),
                    slots: m.slots - swept(m, all.take(k), now).len(),
                    ..m
                }),
                terminal_views(gone@) == swept(m, all.take(k), now),
                swept(m, all.take(k), now).len() <= k,
            decreases all.len() - k,
        {
            let ghost front = all.take(k);
            let ghost next = all.take(k + 1);
            let ghost was = self@;
            proof {
                assert(self@.terminals.len() == self.terminals@.len());
                assert(k < all.len());
                assert(next.drop_last() =~= front);
                assert(next.last() == all[k]);
                assert(self.terminals@[i as int]@ == self@.terminals[i as int]);
                assert(self.terminals@[i as int]@ == all[k]);
            }
            if self.is_swept(i, now) {
                let t = self.terminals.remove(i);
                self.broadcasts.remove(t.id.as_str());
                self.active_terminal_slots -= 1;
                let ghost seen = terminal_views(gone@);
                let ghost left = t@;
                gone.push(t);
                proof {
                    assert(terminal_views(gone@) =~= seen.push(left));
                    assert(kept(m, next, now) == kept(m, front, now));
                    assert(was.terminals.remove(i as int) =~= kept(m, next, now) + all.skip(k + 1));
                    assert(swept(m, next, now).drop_last() =~= swept(m, front, now));
                    assert(self@.terminals =~= kept(m, next, now) + all.skip(k + 1));
                    k = k + 1;
                }
            } else {
                proof {
                    assert(kept(m, next, now) =~= kept(m, front, now).push(all[k]));
                    assert(kept(m, front, now) + all.skip(k) =~= kept(m, next, now) + all.skip(
                        k + 1,
                    ));
                    k = k + 1;
                }
                i += 1;
            }
        }
        proof {
            assert(self@.terminals.len() == self.terminals@.len());
            assert(k == all.len());
            assert(all.take(k) =~= all);
            assert(kept(m, all, now) + all.skip(k) =~= kept(m, all, now));
            assert(self@ =~= after_sweep(m, now));
            lemma_after_sweep(m, now);
        }
        gone
    }

    fn is_swept(&self, i: usize, now: u64) -> (yes: bool)
        requires
            i < self@.terminals.len(),
        ensures
            yes == to_sweep(self@, self@.terminals[i as int], now),
    {
        let t = &self.terminals[i];
        if self.is_hidden {
            return false;
        }
        if t.kill_deferred {
            return true;
        }
        if !self.orphan_detection_enabled || !t.is_orphan() {
            return false;
        }
        let timeout: u128 = (self.orphan_timeout_ms as u128) * 1_000_000;
        t.inactive_duration(now) as u128 > timeout
    }

    // -----------------------------------------------------------------------------------------
    // Settings
    // -----------------------------------------------------------------------------------------

    /// Turns the look out for orphans on or off; a timeout in milliseconds takes the place of the
    /// one there was.
    pub fn update_orphan_detection(&mut self, enabled: bool, timeout_ms: Option<u64>)
        ensures
            final(self)@ == (ManagerView {
                detection: enabled,
                timeout_ms: match timeout_ms {
                    Some(ms) => ms,
                    None => old(self)@.timeout_ms,
                },
                ..old(self)@
            }),
    {
        self.orphan_detection_enabled = enabled;
        if let Some(ms) = timeout_ms {
            self.orphan_timeout_ms = ms;
        }
    }

    /// Turns the look out for orphans on or off; a timeout in minutes takes the place of the one
    /// there was.
    pub fn update_orphan_detection_settings(&mut self, enabled: bool, timeout_minutes: Option<u64>)
        requires
            timeout_minutes is Some ==> timeout_minutes->0 * 60_000 <= u64::MAX,
        ensures
            final(self)@ == (ManagerView {
                detection: enabled,
                timeout_ms: match timeout_minutes {
                    Some(minutes) => (minutes * 60_000) as u64,
                    None => old(self)@.timeout_ms,
                },
                ..old(self)@
            }),
    {
        let timeout_ms: Option<u64> = match timeout_minutes {
            Some(minutes) => Some(minutes * 60_000),
            None => None,
        };
        self.update_orphan_detection(enabled, timeout_ms);
    }

    /// The window was hidden or shown.
    pub fn set_hidden(&mut self, hidden: bool)
        ensures
            final(self)@ == (ManagerView { hidden, ..old(self)@ }),
    {
        self.is_hidden = hidden;
    }

    /// Is it time to begin with the sweeps? It is when this is asked for the first time.
    pub fn start_orphan_detection(&mut self) -> (start: bool)
        ensures
            start == !old(self)@.detection_started,
            final(self)@ == (ManagerView { detection_started: true, ..old(self)@ }),
    {
        let start = !self.orphan_detection_started;
        self.orphan_detection_started = true;
        start
    }

    // -----------------------------------------------------------------------------------------
    // Starting terminals
    // -----------------------------------------------------------------------------------------

    /// Takes a place for a terminal that is to be started, if one is free, and makes its id.
    pub fn try_reserve_terminal_slot(&mut self, timestamp: u128) -> (start: Option<Reserved>)
        requires
            old(self)@.wf(),
        ensures
            final(self)@.wf(),
            start is Some <==> old(self)@.slots < GLOBAL_TERMINAL_LIMIT,
            match start {
                Some(s) => {
                    &&& !s.slot.is_committed()
                    &&& s.id@ == terminal_id(timestamp as nat, old(self)@.ids as nat)
                    &&& final(self)@ == reserved_slot(old(self)@, s.id@)
                },
                None => final(self)@ == old(self)@,
            },
    {
        match TerminalSlotReservation::try_acquire(&mut self.active_terminal_slots) {
            Some(slot) => {
                let id = self.generate_id(timestamp);
                self.starting = Ghost(self.starting@.insert(id@));
                assert(self@ =~= reserved_slot(old(self)@, id@));
                Some(Reserved { id, slot })
            },
            None => None,
        }
    }

    /// Gives the place of a terminal back that was not started.
    pub fn release_reservation(&mut self, id: &str, slot: TerminalSlotReservation)
        requires
            old(self)@.wf(),
            old(self)@.starting.count(id@) > 0,
            !slot.is_committed(),
        ensures
            final(self)@.wf(),
            final(self)@ == released_slot(old(self)@, id@),
    {
        proof {
            lemma_is_starting(self@, id@);
        }
        slot.release(&mut self.active_terminal_slots);
        self.starting = Ghost(self.starting@.remove(id@));
        assert(self@ =~= released_slot(old(self)@, id@));
    }

    /// A new id, made of the time in milliseconds and a number that goes up with every id.
    fn generate_id(&mut self, timestamp: u128) -> (id: String)
        ensures
            id@ == terminal_id(timestamp as nat, old(self)@.ids as nat),
            final(self)@ == (ManagerView { ids: next_id_number(old(self)@.ids), ..old(self)@ }),
            final(self).starting == old(self).starting,
    {
        let counter = self.id_counter;
        self.id_counter = if counter == u64::MAX {
            0
        } else {
            counter + 1
        };
        let time = to_decimal(timestamp);
        let number = to_decimal(counter as u128);
        concat4("terminal-", time.as_str(), "-", number.as_str())
    }

    /// A terminal was started: its output can be followed, and its place is its own.
    pub fn insert_terminal(
        &mut self,
        info: &TerminalInfo,
        slot: TerminalSlotReservation,
        now: u64,
    )
        requires
            old(self)@.wf(),
            old(self)@.starting.count(info.id@) > 0,
        ensures
            final(self)@.wf(),
            final(self)@ == with_started(old(self)@, info@, now),
    {
        proof {
            lemma_is_starting(self@, info.id@);
        }
        let found = self.find(info.id.as_str());
        let terminal = TerminalInstance::new(info, now);
        let ghost was = self@;
        let ghost t = terminal@;
        self.broadcasts.insert(info.id.clone());
        match found {
            Some(i) => {
                proof {
                    lemma_place(was, info.id@, i as int);
                }
                self.terminals.set(i, terminal);
                assert(terminal_views(self.terminals@) =~= was.terminals.update(i as int, t));
            },
            None => {
                self.terminals.push(terminal);
                assert(terminal_views(self.terminals@) =~= was.terminals.push(t));
            },
        }
        let mut slot = slot;
        slot.commit();
        slot.release(&mut self.active_terminal_slots);
        self.starting = Ghost(self.starting@.remove(info.id@));
        proof {
            assert(self@ =~= with_started(was, info@, now));
            lemma_with_started(was, info@, now);
        }
    }
}

// ---------------------------------------------------------------------------------------------
// What the operations do to the model
// ---------------------------------------------------------------------------------------------

/// What the system said to a resize.
pub enum ResizeOutcome {
    Resized,
    /// The console of the terminal is gone.
    NoConPty,
    ConPtyFailed(String),
    /// The device of the terminal is gone.
    NoMaster,
    MasterFailed(String),
}

/// What is said of a resize that failed.
pub open spec fn resize_failure(outcome: ResizeOutcome) -> Option<Seq<char>> {
    match outcome {
        ResizeOutcome::Resized => None,
        ResizeOutcome::NoConPty => Some("ConPTY handles unavailable"@),
        ResizeOutcome::ConPtyFailed(e) => Some("Failed to resize ConPTY: "@ + e@),
        ResizeOutcome::NoMaster => Some("PTY master already consumed"@),
        ResizeOutcome::MasterFailed(e) => Some("Failed to resize terminal: "@ + e@),
    }
}

/// What became of a write to a terminal.
pub enum WriteOutcome {
    Written,
    /// The terminal takes no input any more.
    NoWriter,
    WriteFailed(String),
    FlushFailed(String),
}

/// What is said of a write that failed.
pub open spec fn write_failure(outcome: WriteOutcome) -> Option<Seq<char>> {
    match outcome {
        WriteOutcome::Written => None,
        WriteOutcome::NoWriter => Some("PTY writer unavailable"@),
        WriteOutcome::WriteFailed(e) => Some("Failed to write to PTY: "@ + e@),
        WriteOutcome::FlushFailed(e) => Some("Failed to flush PTY: "@ + e@),
    }
}

/// What is said of a write.
pub fn write_result(outcome: &WriteOutcome) -> (result: Result<(), String>)
    ensures
        match write_failure(*outcome) {
            Some(message) => fails_with(result, message),
            None => result is Ok,
        },
{
    match outcome {
        WriteOutcome::Written => Ok(()),
        WriteOutcome::NoWriter => Err("PTY writer unavailable".to_owned()),
        WriteOutcome::WriteFailed(e) => Err(concat2("Failed to write to PTY: ", e.as_str())),
        WriteOutcome::FlushFailed(e) => Err(concat2("Failed to flush PTY: ", e.as_str())),
    }
}

/// What is said of a kill whose clean-up did or did not come to its end.
pub fn kill_result(id: &str, cleanup_error: &Option<String>) -> (result: Result<(), String>)
    ensures
        match *cleanup_error {
            Some(e) => fails_with(
                result,
                "spawn_blocking failed for terminal "@ + id@ + ": "@ + e@,
            ),
            None => result is Ok,
        },
{
    match cleanup_error {
        Some(e) => Err(concat4("spawn_blocking failed for terminal ", id, ": ", e.as_str())),
        None => Ok(()),
    }
}

/// The ids without those of some terminals.
pub open spec fn without_ids(ids: Set<Seq<char>>, gone: Seq<TerminalView>) -> Set<Seq<char>>
    decreases gone.len(),
{
    if gone.len() == 0 {
        ids
    } else {
        without_ids(ids, gone.drop_last()).remove(gone.last().id)
    }
}

/// The manager after all terminals were ended.
pub open spec fn all_gone(m: ManagerView) -> ManagerView {
    ManagerView {
        terminals: Seq::empty(),
        broadcasts: without_ids(m.broadcasts, m.terminals),
        slots: m.slots - m.terminals.len(),
        ..m
    }
}

/// Nothing shows the terminal, nobody used it for longer than the timeout, and such terminals are
/// looked for.
pub open spec fn is_abandoned(m: ManagerView, t: TerminalView, now: u64) -> bool {
    m.detection && t.orphaned() && t.idle(now) > m.timeout_ms * 1_000_000
}

/// The terminal leaves in a sweep.
pub open spec fn to_sweep(m: ManagerView, t: TerminalView, now: u64) -> bool {
    !m.hidden && (t.kill_deferred || is_abandoned(m, t, now))
}

/// The terminals that leave in a sweep.
pub open spec fn swept(m: ManagerView, terminals: Seq<TerminalView>, now: u64) -> Seq<TerminalView>
    decreases terminals.len(),
{
    if terminals.len() == 0 {
        Seq::empty()
    } else {
        let rest = swept(m, terminals.drop_last(), now);
        if to_sweep(m, terminals.last(), now) {
            rest.push(terminals.last())
        } else {
            rest
        }
    }
}

/// The terminals that stay in a sweep.
pub open spec fn kept(m: ManagerView, terminals: Seq<TerminalView>, now: u64) -> Seq<TerminalView>
    decreases terminals.len(),
{
    if terminals.len() == 0 {
        Seq::empty()
    } else {
        let rest = kept(m, terminals.drop_last(), now);
        if to_sweep(m, terminals.last(), now) {
            rest
        } else {
            rest.push(terminals.last())
        }
    }
}

/// The manager after a sweep. The output of the terminals that left goes nowhere any more.
pub open spec fn after_sweep(m: ManagerView, now: u64) -> ManagerView {
    let gone = swept(m, m.terminals, now);
    ManagerView {
        terminals: kept(m, m.terminals, now),
        broadcasts: without_ids(m.broadcasts, gone),
        slots: m.slots - gone.len(),
        ..m
    }
}

/// The manager with one more place taken for a terminal that is being started under a new id.
pub open spec fn reserved_slot(m: ManagerView, id: Seq<char>) -> ManagerView {
    ManagerView {
        slots: m.slots + 1,
        starting: m.starting.insert(id),
        ids: next_id_number(m.ids),
        ..m
    }
}

/// The manager with the place of a terminal given back that was not started.
pub open spec fn released_slot(m: ManagerView, id: Seq<char>) -> ManagerView {
    ManagerView { slots: m.slots - 1, starting: m.starting.remove(id), ..m }
}

/// The manager with a terminal that was started. Under an id that is in use it takes the place of
/// the terminal there was.
pub open spec fn with_started(m: ManagerView, info: InfoView, now: u64) -> ManagerView {
    let t = fresh_terminal(info, now);
    ManagerView {
        terminals: if m.tracks(info.id) {
            m.terminals.update(m.place(info.id), t)
        } else {
            m.terminals.push(t)
        },
        broadcasts: m.broadcasts.insert(info.id),
        starting: m.starting.remove(info.id),
        ..m
    }
}

/// The number behind this one; behind the largest comes zero.
pub open spec fn next_id_number(n: u64) -> u64 {
    if n == u64::MAX {
        0
    } else {
        (n + 1) as u64
    }
}

/// The id of a terminal that was started at this time as the one of this number.
pub open spec fn terminal_id(timestamp: nat, number: nat) -> Seq<char> {
    "terminal-"@ + decimal(timestamp) + "-"@ + decimal(number)
}

/// A start that is under way has a place.
pub(crate) proof fn lemma_is_starting(m: ManagerView, id: Seq<char>)
    requires
        m.starting.count(id) > 0,
    ensures
        m.starting.len() > 0,
        m.starting.remove(id).len() == m.starting.len() - 1,
        m.wf() ==> m.slots > m.terminals.len(),
{
    assert(m.starting.contains(id));
}

pub(crate) proof fn lemma_without_terminal(m: ManagerView, id: Seq<char>)
    requires
        m.wf(),
        m.tracks(id),
    ensures
        m.without_terminal(id).wf(),
{
    let p = m.place(id);
    assert(is_id_at(m.terminals, id, p));
    let now = m.without_terminal(id);
    assert forall|i: int|
        #![trigger now.terminals[i]]
        0 <= i < now.terminals.len() implies now.broadcasts.contains(now.terminals[i].id) by {
        let k = if i < p {
            i
        } else {
            i + 1
        };
        assert(now.terminals[i] == m.terminals[k]);
        assert(m.terminals[p] == m.terminals[p]);
    }
    assert forall|i: int, j: int|
        #![trigger now.terminals[i], now.terminals[j]]
        0 <= i < j < now.terminals.len() implies now.terminals[i].id != now.terminals[j].id by {
        let a = if i < p {
            i
        } else {
            i + 1
        };
        let b = if j < p {
            j
        } else {
            j + 1
        };
        assert(now.terminals[i] == m.terminals[a] && now.terminals[j] == m.terminals[b]);
    }
}

pub(crate) proof fn lemma_with_started(m: ManagerView, info: InfoView, now: u64)
    requires
        m.wf(),
        m.starting.count(info.id) > 0,
    ensures
        with_started(m, info, now).wf(),
{
    lemma_is_starting(m, info.id);
    let after = with_started(m, info, now);
    if m.tracks(info.id) {
        let p = m.place(info.id);
        assert(is_id_at(m.terminals, info.id, p));
        assert forall|i: int, j: int|
            #![trigger after.terminals[i], after.terminals[j]]
            0 <= i < j < after.terminals.len() implies after.terminals[i].id
            != after.terminals[j].id by {
            assert(m.terminals[i] == m.terminals[i] && m.terminals[j] == m.terminals[j]);
        }
        assert forall|i: int|
            #![trigger after.terminals[i]]
            0 <= i < after.terminals.len() implies after.broadcasts.contains(
            after.terminals[i].id,
        ) by {
            assert(m.terminals[i] == m.terminals[i]);
        }
    } else {
        assert forall|i: int, j: int|
            #![trigger after.terminals[i], after.terminals[j]]
            0 <= i < j < after.terminals.len() implies after.terminals[i].id
            != after.terminals[j].id by {
            assert(!is_id_at(m.terminals, info.id, i));
            if j < m.terminals.len() {
                assert(m.terminals[i] == m.terminals[i] && m.terminals[j] == m.terminals[j]);
            }
        }
        assert forall|i: int|
            #![trigger after.terminals[i]]
            0 <= i < after.terminals.len() implies after.broadcasts.contains(
            after.terminals[i].id,
        ) by {
            if i < m.terminals.len() {
                assert(m.terminals[i] == m.terminals[i]);
            }
        }
    }
}

/// Every terminal of a list stays or leaves, and only those of the list do.
pub(crate) proof fn lemma_kept_and_swept(m: ManagerView, ts: Seq<TerminalView>, now: u64)
    ensures
        kept(m, ts, now).len() + swept(m, ts, now).len() == ts.len(),
        forall|i: int|
            #![trigger kept(m, ts, now)[i]]
            0 <= i < kept(m, ts, now).len() ==> ts.contains(kept(m, ts, now)[i]) && !to_sweep(
                m,
                kept(m, ts, now)[i],
                now,
            ),
        forall|i: int|
            #![trigger swept(m, ts, now)[i]]
            0 <= i < swept(m, ts, now).len() ==> ts.contains(swept(m, ts, now)[i]) && to_sweep(
                m,
                swept(m, ts, now)[i],
                now,
            ),
        forall|i: int|
            #![trigger ts[i]]
            0 <= i < ts.len() ==> if to_sweep(m, ts[i], now) {
                swept(m, ts, now).contains(ts[i])
            } else {
                kept(m, ts, now).contains(ts[i])
            },
        ids_differ(ts) ==> ids_differ(kept(m, ts, now)),
    decreases ts.len(),
{
    if ts.len() > 0 {
        let rest = ts.drop_last();
        let last = ts.last();
        lemma_kept_and_swept(m, rest, now);
        let k = kept(m, ts, now);
        let s = swept(m, ts, now);
        let k0 = kept(m, rest, now);
        let s0 = swept(m, rest, now);
        assert(ts[ts.len() - 1] == last);
        assert forall|x: TerminalView| rest.contains(x) implies ts.contains(x) by {
            let i = choose|i: int| 0 <= i < rest.len() && rest[i] == x;
            assert(ts[i] == x);
        }
        assert forall|i: int| #![trigger k[i]] 0 <= i < k.len() implies ts.contains(k[i])
            && !to_sweep(m, k[i], now) by {
            if i < k0.len() {
                assert(k[i] == k0[i]);
            }
        }
        assert forall|i: int| #![trigger s[i]] 0 <= i < s.len() implies ts.contains(s[i])
            && to_sweep(m, s[i], now) by {
            if i < s0.len() {
                assert(s[i] == s0[i]);
            }
        }
        assert forall|i: int| #![trigger ts[i]] 0 <= i < ts.len() implies if to_sweep(
            m,
            ts[i],
            now,
        ) {
            s.contains(ts[i])
        } else {
            k.contains(ts[i])
        } by {
            if i < rest.len() {
                assert(rest[i] == ts[i]);
                if to_sweep(m, ts[i], now) {
                    let j = choose|j: int| 0 <= j < s0.len() && s0[j] == ts[i];
                    assert(s[j] == ts[i]);
                } else {
                    let j = choose|j: int| 0 <= j < k0.len() && k0[j] == ts[i];
                    assert(k[j] == ts[i]);
                }
            } else if to_sweep(m, last, now) {
                assert(s[s.len() - 1] == last);
            } else {
                assert(k[k.len() - 1] == last);
            }
        }
        if ids_differ(ts) {
            assert(ids_differ(rest)) by {
                assert forall|i: int, j: int|
                    #![trigger rest[i], rest[j]]
                    0 <= i < j < rest.len() implies rest[i].id != rest[j].id by {
                    assert(ts[i] == rest[i] && ts[j] == rest[j]);
                }
            }
            assert forall|i: int, j: int|
                #![trigger k[i], k[j]]
                0 <= i < j < k.len() implies k[i].id != k[j].id by {
                assert(k[i] == k0[i]);
                if j < k0.len() {
                    assert(k[j] == k0[j]);
                } else {
                    let a = choose|a: int| 0 <= a < rest.len() && rest[a] == k0[i];
                    assert(ts[a] == k0[i] && ts[ts.len() - 1] == last);
                }
            }
        }
    }
}

pub(crate) proof fn lemma_without_ids(
    ids: Set<Seq<char>>,
    gone: Seq<TerminalView>,
    id: Seq<char>,
)
    ensures
        without_ids(ids, gone).contains(id) <==> ids.contains(id) && forall|i: int|
            #![trigger gone[i]]
            0 <= i < gone.len() ==> gone[i].id != id,
    decreases gone.len(),
{
    if gone.len() > 0 {
        let rest = gone.drop_last();
        lemma_without_ids(ids, rest, id);
        assert(gone[gone.len() - 1] == gone.last());
        assert forall|i: int| #![trigger rest[i]] 0 <= i < rest.len() implies rest[i]
            == gone[i] by {}
        if without_ids(ids, gone).contains(id) {
            assert forall|i: int| #![trigger gone[i]] 0 <= i < gone.len() implies gone[i].id
                != id by {
                if i < rest.len() {
                    assert(rest[i] == gone[i]);
                }
            }
        }
    }
}

pub(crate) proof fn lemma_after_sweep(m: ManagerView, now: u64)
    requires
        m.wf(),
    ensures
        after_sweep(m, now).wf(),
{
    let after = after_sweep(m, now);
    let gone = swept(m, m.terminals, now);
    lemma_kept_and_swept(m, m.terminals, now);
    assert forall|i: int|
        #![trigger after.terminals[i]]
        0 <= i < after.terminals.len() implies after.broadcasts.contains(
        after.terminals[i].id,
    ) by {
        let t = after.terminals[i];
        assert(t == kept(m, m.terminals, now)[i]);
        let a = choose|a: int| 0 <= a < m.terminals.len() && m.terminals[a] == t;
        assert(m.broadcasts.contains(m.terminals[a].id));
        assert forall|j: int| #![trigger gone[j]] 0 <= j < gone.len() implies gone[j].id
            != t.id by {
            let b = choose|b: int| 0 <= b < m.terminals.len() && m.terminals[b] == gone[j];
            assert(m.terminals[a] == t && m.terminals[b] == gone[j]);
        }
        lemma_without_ids(m.broadcasts, gone, t.id);
    }
}

}
