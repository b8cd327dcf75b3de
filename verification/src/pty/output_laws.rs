//! What becomes of the output of a terminal, and how its end is reported, whatever it is.
use super::output::{
    after_wait, exit_event, overflow_notice, read_text, ChildStatus, Flush, PendingOutput,
    ReadNext, ReadResult, TerminalExitEvent, WaitResult, Waited, FLUSH_INTERVAL_MS, MAX_PENDING,
    READ_BUF,
};
use crate::text::utf8_lossy;
use vstd::prelude::*;

verus! {

/// A process that ended with a code that fits is reported with exactly that code, and under the id
/// of its terminal. A code that does not fit is not reported.
pub proof fn law_exit_code_is_reported(id: &str, code: u32, event: TerminalExitEvent)
    requires
        call_ensures(exit_event, (id, &ChildStatus::Exited(code)), event),
    ensures
        event.id@ == id@,
        event.signal is None,
        code < 0x8000_0000 ==> event.exit_code is Some && event.exit_code->0 == code,
        code >= 0x8000_0000 ==> event.exit_code is None,
{
}

/// Two codes that fit are never reported as the same: a process that failed is not taken for one
/// that succeeded.
pub proof fn law_exit_codes_are_told_apart(
    id: &str,
    a: u32,
    b: u32,
    first: TerminalExitEvent,
    second: TerminalExitEvent,
)
    requires
        a < 0x8000_0000,
        b < 0x8000_0000,
        a != b,
        call_ensures(exit_event, (id, &ChildStatus::Exited(a)), first),
        call_ensures(exit_event, (id, &ChildStatus::Exited(b)), second),
    ensures
        first.exit_code != second.exit_code,
{
}

/// No code is reported of a process that still runs, or of which nothing is known.
pub proof fn law_no_code_without_an_end(id: &str, status: ChildStatus, event: TerminalExitEvent)
    requires
        call_ensures(exit_event, (id, &status), event),
        !(status is Exited),
    ensures
        event.id@ == id@,
        event.exit_code is None,
        event.signal is None,
{
}

/// A process that a wait found at its end is reported with the code that was asked for; one that did
/// not end within a limit still runs.
pub proof fn law_wait_tells_the_code(result: WaitResult, limited: bool, waited: Waited)
    requires
        call_ensures(after_wait, (result, limited), waited),
    ensures
        result is Signaled && result->code is Some ==> waited is Exited && waited->Exited_0
            == result->code->0,
        result is Signaled && result->code is None ==> waited is Failed,
        result is NoHandle ==> waited is Exited && waited->Exited_0 == 1,
        result is TimedOut && limited ==> waited is Running,
        result is TimedOut && !limited ==> waited is Failed,
        result is Failed ==> waited is Failed,
{
}

/// Output that has room waits behind what waits already, byte for byte, and the reader reads on.
pub proof fn law_output_with_room_is_kept(
    pending: &mut PendingOutput,
    filtered: Vec<u8>,
    next: ReadNext,
    i: int,
)
    requires
        call_ensures(PendingOutput::reader_step, (pending, ReadResult::Data { filtered }), next),
        old(pending)@.len() + filtered@.len() <= 4_194_304,
    ensures
        next is Continue && !next->overflowed,
        final(pending)@.len() == old(pending)@.len() + filtered@.len(),
        0 <= i < old(pending)@.len() ==> final(pending)@[i] == old(pending)@[i],
        0 <= i < filtered@.len() ==> final(pending)@[old(pending)@.len() + i] == filtered@[i],
{
}

/// Output without room gives way to the notice, and so does all that waited; the reader reads on.
pub proof fn law_output_without_room_is_dropped(
    pending: &mut PendingOutput,
    filtered: Vec<u8>,
    next: ReadNext,
    notice: Vec<u8>,
)
    requires
        call_ensures(PendingOutput::reader_step, (pending, ReadResult::Data { filtered }), next),
        call_ensures(overflow_notice, (), notice),
        old(pending)@.len() + filtered@.len() > 4_194_304,
    ensures
        next is Continue && next->overflowed,
        final(pending)@ == notice@,
{
}

/// The reader ends where there is nothing more to read, and what waits stays.
pub proof fn law_reader_ends(pending: &mut PendingOutput, result: ReadResult, next: ReadNext)
    requires
        call_ensures(PendingOutput::reader_step, (pending, result), next),
        !(result is Data),
    ensures
        next is Stop,
        final(pending)@ == old(pending)@,
{
}

/// Output is added as the reader adds it.
pub proof fn law_push_keeps_or_drops(pending: &mut PendingOutput, data: &[u8], overflowed: bool)
    requires
        call_ensures(PendingOutput::push, (pending, data), overflowed),
    ensures
        overflowed <==> old(pending)@.len() + data@.len() > 4_194_304,
        !overflowed ==> final(pending)@ == old(pending)@ + data@,
        final(pending)@.len() <= 4_194_304,
{
}

/// A flush hands all that waits to each of those who watch, the same bytes to the desktop and to
/// remote clients, and leaves nothing waiting. It is the last one exactly where the reader had ended.
pub proof fn law_flush_hands_all_on(
    pending: &mut PendingOutput,
    channel: bool,
    broadcast: bool,
    done: bool,
    flush: Flush,
)
    requires
        call_ensures(PendingOutput::flusher_step, (pending, channel, broadcast, done), flush),
    ensures
        final(pending)@.len() == 0,
        flush.to_channel is Some <==> channel && old(pending)@.len() > 0,
        flush.to_channel is Some ==> flush.to_channel->0@ == old(pending)@,
        flush.to_broadcast is Some <==> broadcast && old(pending)@.len() > 0,
        flush.to_broadcast is Some ==> flush.to_broadcast->0@ == old(pending)@,
        flush.ended == done,
{
}

/// What is taken is all that waited; nothing is taken only where nothing waited.
pub proof fn law_all_that_waits_is_taken(pending: &mut PendingOutput, chunk: Option<Vec<u8>>)
    requires
        call_ensures(PendingOutput::take, (pending,), chunk),
    ensures
        final(pending)@.len() == 0,
        chunk is None <==> old(pending)@.len() == 0,
        chunk is Some ==> chunk->0@ == old(pending)@,
{
}

/// A buffer begins empty.
pub proof fn law_nothing_waits_to_begin_with(pending: PendingOutput)
    requires
        call_ensures(PendingOutput::new, (), pending),
    ensures
        pending@.len() == 0,
{
}

/// Those who look for exit codes get all that was read, as text.
pub proof fn law_all_that_was_read_is_looked_at(raw: &[u8], text: String)
    requires
        call_ensures(read_text, (raw,), text),
    ensures
        text@ == utf8_lossy(raw@),
{
}

/// The notice is the reset of the screen, then a dim note on a line of its own.
pub proof fn law_notice_resets_the_screen(notice: Vec<u8>)
    requires
        call_ensures(overflow_notice, (), notice),
    ensures
        notice@.len() == 56,
        notice@[0] == 27 && notice@[1] == 99,
        notice@[2] == 27 && notice@[3] == 91 && notice@[4] == 50 && notice@[5] == 109,
        notice@[50] == 27 && notice@[51] == 91 && notice@[52] == 48 && notice@[53] == 109,
        notice@[54] == 13 && notice@[55] == 10,
{
    reveal_strlit("\u{1b}c\u{1b}[2m[termul: dropped output due to backpressure]\u{1b}[0m\r\n");
}

/// A full read always has room in an empty buffer, and between two flushes pass four milliseconds.
pub proof fn law_buffer_sizes()
    ensures
        READ_BUF == 16 * 1024,
        MAX_PENDING == 4 * 1024 * 1024,
        READ_BUF <= MAX_PENDING,
        FLUSH_INTERVAL_MS == 4,
{
}

}
