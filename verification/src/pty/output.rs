//! The output of a terminal on its way from the process to those who watch it.
//!
//! A reader adds what the process writes to a buffer, and a flusher empties the buffer at short
//! intervals. A buffer that would grow too large is dropped, and a notice stands in its place.
use crate::text::{chars_of, from_utf8_lossy, utf8_lossy};
use vstd::prelude::*;

verus! {

/// How many milliseconds pass between two flushes.
pub const FLUSH_INTERVAL_MS: u64 = 4;

/// How many bytes are read at once.
pub const READ_BUF: usize = 16_384;

/// How many bytes wait for a flush at most.
pub const MAX_PENDING: usize = 4_194_304;

/// What is shown in place of output that was dropped: a reset of the screen and a note.
pub open spec fn overflow_text() -> Seq<char> {
    "\u{1b}c\u{1b}[2m[termul: dropped output due to backpressure]\u{1b}[0m\r\n"@
}

/// The bytes of [`overflow_text`], which is ASCII.
pub open spec fn overflow_notice_bytes() -> Seq<u8> {
    overflow_text().map_values(|c: char| c as u8)
}

/// What is shown in place of output that was dropped.
pub fn overflow_notice() -> (bytes: Vec<u8>)
    ensures
        bytes@ == overflow_notice_bytes(),
{
    let chars = chars_of("\u{1b}c\u{1b}[2m[termul: dropped output due to backpressure]\u{1b}[0m\r\n");
    let mut bytes: Vec<u8> = Vec::new();
    let mut i: usize = 0;
    while i < chars.len()
        invariant
            i <= chars@.len(),
            chars@ == overflow_text(),
            bytes@ == overflow_notice_bytes().take(i as int),
        decreases chars.len() - i,
    {
        bytes.push(chars[i] as u8);
        i += 1;
    }
    assert(overflow_notice_bytes().take(i as int) =~= overflow_notice_bytes());
    bytes
}

proof fn lemma_notice_is_short()
    ensures
        0 < overflow_notice_bytes().len() <= 100,
{
    reveal_strlit("\u{1b}c\u{1b}[2m[termul: dropped output due to backpressure]\u{1b}[0m\r\n");
}

/// There is no room for this many bytes more.
pub open spec fn overflows(pending: Seq<u8>, data: Seq<u8>) -> bool {
    pending.len() + data.len() > MAX_PENDING
}

/// The buffer after a read.
pub open spec fn after_read(pending: Seq<u8>, data: Seq<u8>) -> Seq<u8> {
    if overflows(pending, data) {
        overflow_notice_bytes()
    } else {
        pending + data
    }
}

/// What the reader got from the terminal.
pub enum ReadResult {
    /// The process closed its end.
    Eof,
    /// What is left of the bytes that were read, for those who watch: queries that the terminal
    /// answers itself are taken out.
    Data { filtered: Vec<u8> },
    /// The terminal could not be read, or the buffer is out of order.
    Failed,
}

/// What the reader does next.
pub enum ReadNext {
    /// It reads on.
    Continue { overflowed: bool },
    /// It ends.
    Stop,
}

/// What was read, as text, for those who look for exit codes in it. They get it before anything is
/// taken out and before it waits for a flush.
pub fn read_text(raw: &[u8]) -> (text: String)
    ensures
        text@ == utf8_lossy(raw@),
{
    from_utf8_lossy(raw)
}

/// Output that waits for a flush.
pub struct PendingOutput {
    bytes: Vec<u8>,
}

impl View for PendingOutput {
    type V = Seq<u8>;

    closed spec fn view(&self) -> Seq<u8> {
        self.bytes@
    }
}

/// What a flush does: the bytes for the desktop, those for remote clients, and whether the flusher
/// ends.
pub struct Flush {
    pub to_channel: Option<Vec<u8>>,
    pub to_broadcast: Option<Vec<u8>>,
    pub ended: bool,
}

/// These are the bytes, or there are none.
pub open spec fn carries(part: Option<Vec<u8>>, bytes: Seq<u8>, wanted: bool) -> bool {
    match part {
        Some(sent) => wanted && bytes.len() > 0 && sent@ == bytes,
        None => !wanted || bytes.len() == 0,
    }
}

impl PendingOutput {
    /// No more bytes wait than the buffer may hold.
    pub closed spec fn wf(&self) -> bool {
        self.bytes@.len() <= MAX_PENDING
    }

    /// Nothing waits.
    pub fn new() -> (pending: Self)
        ensures
            pending.wf(),
            pending@ == Seq::<u8>::empty(),
    {
        PendingOutput { bytes: Vec::new() }
    }

    /// Adds output. Where there is no room for it, all that waits is dropped, and so is the new
    /// output: a notice takes their place.
    pub fn push(&mut self, data: &[u8]) -> (overflowed: bool)
        requires
            old(self).wf(),
        ensures
            final(self).wf(),
            overflowed == overflows(old(self)@, data@),
            final(self)@ == after_read(old(self)@, data@),
            final(self)@.len() <= MAX_PENDING,
    {
        proof {
            lemma_notice_is_short();
        }
        let room: usize = MAX_PENDING - self.bytes.len();
        if data.len() > room {
            self.bytes = overflow_notice();
            true
        } else {
            self.bytes.extend_from_slice(data);
            assert(self.bytes@ =~= old(self)@ + data@);
            false
        }
    }

    /// Takes what waits, if anything does.
    pub fn take(&mut self) -> (chunk: Option<Vec<u8>>)
        ensures
            final(self).wf(),
            final(self)@ == Seq::<u8>::empty(),
            carries(chunk, old(self)@, true),
    {
        let mut chunk: Vec<u8> = Vec::new();
        std::mem::swap(&mut chunk, &mut self.bytes);
        if chunk.len() == 0 {
            None
        } else {
            Some(chunk)
        }
    }

    /// One step of the reader.
    pub fn reader_step(&mut self, result: ReadResult) -> (next: ReadNext)
        requires
            old(self).wf(),
        ensures
            final(self).wf(),
            match (result, next) {
                (ReadResult::Data { filtered }, ReadNext::Continue { overflowed }) => {
                    &&& final(self)@ == after_read(old(self)@, filtered@)
                    &&& overflowed == overflows(old(self)@, filtered@)
                },
                (ReadResult::Data { .. }, ReadNext::Stop) => false,
                (_, ReadNext::Stop) => final(self)@ == old(self)@,
                (_, ReadNext::Continue { .. }) => false,
            },
    {
        match result {
            ReadResult::Data { filtered } => {
                let overflowed = self.push(filtered.as_slice());
                ReadNext::Continue { overflowed }
            },
            _ => ReadNext::Stop,
        }
    }

    /// One step of the flusher: what waits goes to the desktop and to remote clients, as far as
    /// there are any, and is dropped otherwise. `done` tells whether the reader had ended before
    /// the buffer is looked at.
    pub fn flusher_step(&mut self, has_channel: bool, has_broadcast: bool, done: bool) -> (flush:
        Flush)
        ensures
            final(self).wf(),
            final(self)@ == Seq::<u8>::empty(),
            carries(flush.to_channel, old(self)@, has_channel),
            carries(flush.to_broadcast, old(self)@, has_broadcast),
            flush.ended == done,
    {
        let chunk = self.take();
        match chunk {
            None => Flush { to_channel: None, to_broadcast: None, ended: done },
            Some(bytes) => {
                let to_channel = if has_channel {
                    Some(copy_bytes(&bytes))
                } else {
                    None
                };
                let to_broadcast = if has_broadcast {
                    Some(bytes)
                } else {
                    None
                };
                Flush { to_channel, to_broadcast, ended: done }
            },
        }
    }
}

fn copy_bytes(bytes: &Vec<u8>) -> (copy: Vec<u8>)
    ensures
        copy@ == bytes@,
{
    let mut copy: Vec<u8> = Vec::new();
    copy.extend_from_slice(bytes.as_slice());
    assert(copy@ =~= bytes@);
    copy
}

/// What happens to the buffer.
pub enum OutputEvent {
    Read(Seq<u8>),
    Flush,
}

/// What became of output: what waits, what was sent, and whether any was ever dropped.
pub struct OutputView {
    pub pending: Seq<u8>,
    pub sent: Seq<u8>,
    pub dropped: bool,
}

/// What became of output after reads and flushes, in their order.
pub open spec fn output_after(events: Seq<OutputEvent>) -> OutputView
    decreases events.len(),
{
    if events.len() == 0 {
        OutputView { pending: Seq::empty(), sent: Seq::empty(), dropped: false }
    } else {
        let before = output_after(events.drop_last());
        match events.last() {
            OutputEvent::Read(data) => OutputView {
                pending: after_read(before.pending, data),
                sent: before.sent,
                dropped: before.dropped || overflows(before.pending, data),
            },
            OutputEvent::Flush => OutputView {
                pending: Seq::empty(),
                sent: before.sent + before.pending,
                dropped: before.dropped,
            },
        }
    }
}

/// All that was read.
pub open spec fn all_read(events: Seq<OutputEvent>) -> Seq<u8>
    decreases events.len(),
{
    if events.len() == 0 {
        Seq::empty()
    } else {
        match events.last() {
            OutputEvent::Read(data) => all_read(events.drop_last()) + data,
            OutputEvent::Flush => all_read(events.drop_last()),
        }
    }
}

/// The buffer never outgrows its bound, and as long as nothing was dropped, what was sent followed
/// by what waits is what was read: nothing is lost, repeated or moved.
pub proof fn law_output_is_kept(events: Seq<OutputEvent>)
    ensures
        output_after(events).pending.len() <= MAX_PENDING,
        !output_after(events).dropped ==> output_after(events).sent + output_after(events).pending
            == all_read(events),
    decreases events.len(),
{
    lemma_notice_is_short();
    if events.len() > 0 {
        let rest = events.drop_last();
        law_output_is_kept(rest);
        let before = output_after(rest);
        match events.last() {
            OutputEvent::Read(data) => {
                assert(before.sent + (before.pending + data) =~= (before.sent + before.pending)
                    + data);
            },
            OutputEvent::Flush => {
                assert((before.sent + before.pending) + Seq::<u8>::empty() =~= before.sent
                    + before.pending);
            },
        }
    } else {
        assert(Seq::<u8>::empty() + Seq::<u8>::empty() =~= Seq::<u8>::empty());
    }
}

/// A flush behind the last read sends all that is left of it: unless output was dropped, everything
/// that was read has then been sent.
pub proof fn law_last_flush_sends_the_rest(events: Seq<OutputEvent>)
    requires
        !output_after(events).dropped,
    ensures
        output_after(events.push(OutputEvent::Flush)).sent == all_read(events),
        output_after(events.push(OutputEvent::Flush)).pending.len() == 0,
{
    law_output_is_kept(events);
    assert(events.push(OutputEvent::Flush).drop_last() =~= events);
}

// ---------------------------------------------------------------------------------------------
// The end of a process
// ---------------------------------------------------------------------------------------------

/// What is known of the process of a terminal whose output has ended.
pub enum ChildStatus {
    /// It cannot be asked: it is in use, gone, or the question failed.
    Unknown,
    /// It still runs.
    Running,
    /// It ended with this code.
    Exited(u32),
}

/// A terminal ended.
#[derive(Debug, Clone)]
pub struct TerminalExitEvent {
    pub id: String,
    pub exit_code: Option<i32>,
    pub signal: Option<i32>,
}

/// The code that is reported: none where the process did not end, or its code does not fit.
pub open spec fn reported_code(status: ChildStatus) -> Option<i32> {
    match status {
        ChildStatus::Exited(code) => if code <= i32::MAX {
            Some(code as i32)
        } else {
            None
        },
        _ => None,
    }
}

/// What is reported of a terminal whose output has ended.
pub fn exit_event(id: &str, status: &ChildStatus) -> (event: TerminalExitEvent)
    ensures
        event.id@ == id@,
        event.exit_code == reported_code(*status),
        event.signal is None,
{
    let exit_code = match status {
        ChildStatus::Exited(code) => if *code <= 2_147_483_647 {
            Some(*code as i32)
        } else {
            None
        },
        _ => None,
    };
    TerminalExitEvent { id: id.to_owned(), exit_code, signal: None }
}

/// What a wait for a process of Windows gave.
pub enum WaitResult {
    /// There is no process to wait for.
    NoHandle,
    /// The process did not end within the time.
    TimedOut,
    /// The process ended; its code where it could be asked for.
    Signaled { code: Option<u32> },
    /// Anything else.
    Failed,
}

/// What a wait tells of a process.
pub enum Waited {
    Running,
    Exited(u32),
    /// The system failed; its last error says why.
    Failed,
}

/// What a wait tells of a process: one that there is no handle of counts as ended with code one. A
/// wait without a limit does not time out, so one that says it did has failed.
pub open spec fn waited_for(result: WaitResult, limited: bool) -> Waited {
    match result {
        WaitResult::NoHandle => Waited::Exited(1),
        WaitResult::TimedOut => if limited {
            Waited::Running
        } else {
            Waited::Failed
        },
        WaitResult::Signaled { code: Some(code) } => Waited::Exited(code),
        WaitResult::Signaled { code: None } => Waited::Failed,
        WaitResult::Failed => Waited::Failed,
    }
}

/// What a wait, with or without a limit on its time, tells of a process.
pub fn after_wait(result: WaitResult, limited: bool) -> (waited: Waited)
    ensures
        waited == waited_for(result, limited),
{
    match result {
        WaitResult::NoHandle => Waited::Exited(1),
        WaitResult::TimedOut => if limited {
            Waited::Running
        } else {
            Waited::Failed
        },
        WaitResult::Signaled { code: Some(code) } => Waited::Exited(code),
        WaitResult::Signaled { code: None } => Waited::Failed,
        WaitResult::Failed => Waited::Failed,
    }
}

}
