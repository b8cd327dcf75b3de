//! One terminal, but for its process and its streams.
use vstd::hash_set::StringHashSet;
use vstd::prelude::*;

verus! {

/// What is told of a terminal to those who list or start one.
#[derive(Debug, Clone)]
pub struct TerminalInfo {
    pub id: String,
    pub shell: String,
    pub cwd: String,
    pub pid: u32,
    pub cols: u16,
    pub rows: u16,
}

/// The model of a [`TerminalInfo`].
pub struct InfoView {
    pub id: Seq<char>,
    pub shell: Seq<char>,
    pub cwd: Seq<char>,
    pub pid: u32,
    pub cols: u16,
    pub rows: u16,
}

impl View for TerminalInfo {
    type V = InfoView;

    open spec fn view(&self) -> InfoView {
        InfoView {
            id: self.id@,
            shell: self.shell@,
            cwd: self.cwd@,
            pid: self.pid,
            cols: self.cols,
            rows: self.rows,
        }
    }
}

/// The models of what is told of terminals.
pub open spec fn info_views(infos: Seq<TerminalInfo>) -> Seq<InfoView> {
    infos.map_values(|i: TerminalInfo| i@)
}

/// What a terminal is started with.
#[derive(Debug, Clone)]
pub struct SpawnOptions {
    pub shell: Option<String>,
    pub cwd: Option<String>,
    pub env: Option<Vec<(String, String)>>,
    pub cols: Option<u16>,
    pub rows: Option<u16>,
}

impl Default for SpawnOptions {
    /// The usual size, and everything else as the system has it.
    fn default() -> (options: Self)
        ensures
            options.shell is None,
            options.cwd is None,
            options.env is None,
            options.cols == Some(80u16),
            options.rows == Some(24u16),
    {
        SpawnOptions { shell: None, cwd: None, env: None, cols: Some(80), rows: Some(24) }
    }
}

/// A terminal that runs. Times are nanoseconds of one clock that never goes back.
pub struct TerminalInstance {
    pub id: String,
    pub shell: String,
    pub cwd: String,
    pub pid: u32,
    pub cols: u16,
    pub rows: u16,
    /// When the terminal was last used.
    pub last_activity: u64,
    /// Who shows the terminal.
    pub renderer_refs: StringHashSet,
    /// How many remote clients are attached.
    pub remote_connections: usize,
    /// The terminal was to be killed while the window was hidden.
    pub kill_deferred: bool,
}

/// The model of a [`TerminalInstance`].
#[verifier::ext_equal]
pub struct TerminalView {
    pub id: Seq<char>,
    pub shell: Seq<char>,
    pub cwd: Seq<char>,
    pub pid: u32,
    pub cols: u16,
    pub rows: u16,
    pub last_activity: u64,
    pub renderer_refs: Set<Seq<char>>,
    pub remote_connections: usize,
    pub kill_deferred: bool,
}

impl View for TerminalInstance {
    type V = TerminalView;

    open spec fn view(&self) -> TerminalView {
        TerminalView {
            id: self.id@,
            shell: self.shell@,
            cwd: self.cwd@,
            pid: self.pid,
            cols: self.cols,
            rows: self.rows,
            last_activity: self.last_activity,
            renderer_refs: self.renderer_refs@,
            remote_connections: self.remote_connections,
            kill_deferred: self.kill_deferred,
        }
    }
}

/// The models of terminals.
pub open spec fn terminal_views(terminals: Seq<TerminalInstance>) -> Seq<TerminalView> {
    terminals.map_values(|t: TerminalInstance| t@)
}

/// A terminal that nothing shows and nobody used yet.
pub open spec fn fresh_terminal(info: InfoView, now: u64) -> TerminalView {
    TerminalView {
        id: info.id,
        shell: info.shell,
        cwd: info.cwd,
        pid: info.pid,
        cols: info.cols,
        rows: info.rows,
        last_activity: now,
        renderer_refs: Set::empty(),
        remote_connections: 0,
        kill_deferred: false,
    }
}

impl TerminalView {
    /// What is told of the terminal.
    pub open spec fn info(self) -> InfoView {
        InfoView {
            id: self.id,
            shell: self.shell,
            cwd: self.cwd,
            pid: self.pid,
            cols: self.cols,
            rows: self.rows,
        }
    }

    /// The terminal, used at this time.
    pub open spec fn used(self, now: u64) -> TerminalView {
        TerminalView { last_activity: now, ..self }
    }

    /// The terminal in another size, used at this time.
    pub open spec fn sized(self, cols: u16, rows: u16, now: u64) -> TerminalView {
        TerminalView { cols, rows, last_activity: now, ..self }
    }

    /// The terminal, shown by one more renderer.
    pub open spec fn shown_by(self, renderer: Seq<char>) -> TerminalView {
        TerminalView { renderer_refs: self.renderer_refs.insert(renderer), ..self }
    }

    /// The terminal, no longer shown by a renderer.
    pub open spec fn not_shown_by(self, renderer: Seq<char>) -> TerminalView {
        TerminalView { renderer_refs: self.renderer_refs.remove(renderer), ..self }
    }

    /// The terminal with another number of remote clients.
    pub open spec fn with_connections(self, n: int) -> TerminalView {
        TerminalView { remote_connections: n as usize, ..self }
    }

    /// The terminal, to be killed once the window is visible.
    pub open spec fn deferred(self) -> TerminalView {
        TerminalView { kill_deferred: true, ..self }
    }

    /// How long the terminal has not been used.
    pub open spec fn idle(self, now: u64) -> int {
        if now > self.last_activity {
            now - self.last_activity
        } else {
            0
        }
    }

    /// Nothing shows the terminal.
    pub open spec fn orphaned(self) -> bool {
        self.renderer_refs =~= Set::empty()
    }
}

impl TerminalInstance {
    /// A terminal that nothing shows and nobody used yet.
    pub fn new(info: &TerminalInfo, now: u64) -> (terminal: Self)
        ensures
            terminal@ == fresh_terminal(info@, now),
    {
        TerminalInstance {
            id: info.id.clone(),
            shell: info.shell.clone(),
            cwd: info.cwd.clone(),
            pid: info.pid,
            cols: info.cols,
            rows: info.rows,
            last_activity: now,
            renderer_refs: StringHashSet::new(),
            remote_connections: 0,
            kill_deferred: false,
        }
    }

    /// What is told of the terminal.
    pub fn info(&self) -> (info: TerminalInfo)
        ensures
            info@ == self@.info(),
    {
        TerminalInfo {
            id: self.id.clone(),
            shell: self.shell.clone(),
            cwd: self.cwd.clone(),
            pid: self.pid,
            cols: self.cols,
            rows: self.rows,
        }
    }

    /// The terminal is being used.
    pub fn update_activity(&mut self, now: u64)
        ensures
            final(self)@ == old(self)@.used(now),
    {
        self.last_activity = now;
    }

    /// How long the terminal has not been used.
    pub fn inactive_duration(&self, now: u64) -> (nanoseconds: u64)
        ensures
            nanoseconds == self@.idle(now),
    {
        if now > self.last_activity {
            now - self.last_activity
        } else {
            0
        }
    }

    /// A renderer shows the terminal.
    pub fn add_renderer_ref(&mut self, renderer_id: String)
        ensures
            final(self)@ == old(self)@.shown_by(renderer_id@),
    {
        self.renderer_refs.insert(renderer_id);
    }

    /// A renderer no longer shows the terminal.
    pub fn remove_renderer_ref(&mut self, renderer_id: &str)
        ensures
            final(self)@ == old(self)@.not_shown_by(renderer_id@),
    {
        self.renderer_refs.remove(renderer_id);
    }

    /// How many renderers show the terminal.
    pub fn renderer_ref_count(&self) -> (count: usize)
        ensures
            count == self@.renderer_refs.len(),
    {
        self.renderer_refs.len()
    }

    /// Does nothing show the terminal?
    pub fn is_orphan(&self) -> (orphan: bool)
        ensures
            orphan == self@.orphaned(),
    {
        self.renderer_refs.is_empty()
    }

    /// Attaches one more remote client, unless as many are attached as may be.
    pub fn try_add_remote_connection(&mut self, limit: usize) -> (added: bool)
        ensures
            added == (old(self)@.remote_connections < limit),
            final(self)@ == if added {
                old(self)@.with_connections(old(self)@.remote_connections + 1)
            } else {
                old(self)@
            },
    {
        if self.remote_connections < limit {
            self.remote_connections += 1;
            true
        } else {
            false
        }
    }

    /// Detaches a remote client, if one is attached.
    pub fn remove_remote_connection(&mut self)
        ensures
            final(self)@ == if old(self)@.remote_connections > 0 {
                old(self)@.with_connections(old(self)@.remote_connections - 1)
            } else {
                old(self)@
            },
    {
        if self.remote_connections > 0 {
            self.remote_connections -= 1;
        }
    }
}

/// A renderer that is added and then removed leaves no trace, if it was not there before.
pub proof fn law_renderer_ref_undone(terminal: TerminalView, renderer: Seq<char>)
    requires
        !terminal.renderer_refs.contains(renderer),
    ensures
        terminal.shown_by(renderer).not_shown_by(renderer) == terminal,
{
    assert(terminal.renderer_refs.insert(renderer).remove(renderer) =~= terminal.renderer_refs);
}

/// A terminal is an orphan until a renderer shows it, and is one again when the last one is gone.
pub proof fn law_shown_terminal_is_no_orphan(terminal: TerminalView, renderer: Seq<char>)
    ensures
        !terminal.shown_by(renderer).orphaned(),
        terminal.orphaned() ==> terminal.shown_by(renderer).not_shown_by(renderer).orphaned(),
{
    assert(terminal.shown_by(renderer).renderer_refs.contains(renderer));
    if terminal.orphaned() {
        assert(terminal.renderer_refs.insert(renderer).remove(renderer) =~= Set::empty());
    }
}

}
