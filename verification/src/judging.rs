//! What reports come to, byte by byte, and how long they are waited for.

use vstd::prelude::*;

use crate::error::ErrorModel;
use crate::frames::reports;
use crate::link::{elapsed, ReplyModel};
use crate::status::{decode, PrinterStatus};
use crate::text::{decimal, hex_byte};
use crate::waiting::{
    examined, page_examined, page_verdict, parsed, readiness, unjudged, verdict, P300WaitModel,
    PrintWaitModel, WaitStepModel,
};

verus! {

// ---------------------------------------------------------------------
// One report
// ---------------------------------------------------------------------

/// Whether the bytes of a report begin as a report does.
pub open spec fn sound(frame: Seq<u8>) -> bool {
    frame[0] == 0x80 && frame[1] == 0x20
}

/// Whether the bytes of a report name an error or a power-off.
pub open spec fn alarming(frame: Seq<u8>) -> bool {
    frame[8] != 0 || frame[9] != 0 || frame[18] == 2 || frame[18] == 4
}

/// Whether the bytes of a report name the receiving phase.
pub open spec fn receiving(frame: Seq<u8>) -> bool {
    frame[18] == 6 && frame[19] == 0
}

/// Whether the bytes of a report name a PT-P300BT.
pub open spec fn names_p300bt(frame: Seq<u8>) -> bool {
    frame[2] == 0x42 && frame[3] == 0x30 && frame[4] == 0x72
}

/// Whether the bytes of a report of a PT-P300BT are of the awaited kind.
pub open spec fn of_awaited_kind(frame: Seq<u8>, completion: bool) -> bool {
    if completion {
        frame[18] == 1
    } else {
        frame[18] == 0
    }
}

/// A report is taken as it was sent if its first two bytes are right. Else the
/// complaint shows them, behind the message that it was asked to give.
pub proof fn law_header_decides(bytes: Seq<u8>, message: Seq<char>)
    requires
        bytes.len() >= 32,
    ensures
        sound(bytes) ==> parsed(bytes, message) == Ok::<PrinterStatus, ErrorModel>(decode(bytes)),
        !sound(bytes) ==> parsed(bytes, message) == Err::<PrinterStatus, ErrorModel>(
            ErrorModel::StatusError(
                message + ": mark="@ + hex_byte(bytes[0]) + " size="@ + hex_byte(bytes[1]),
            ),
        ),
{
}

/// After a print command an error comes first, then a power-off. Without either
/// the printer is ready in the receiving phase and not in any other.
pub proof fn law_readiness(status: PrinterStatus)
    ensures
        match readiness(status) {
            Ok(ready) => {
                &&& status.error_info_1 == 0
                &&& status.error_info_2 == 0
                &&& status.status_type != 2
                &&& status.status_type != 4
                &&& ready <==> status.status_type == 6 && status.phase_type == 0
            },
            Err(ErrorModel::StatusError(text)) => {
                if status.error_info_1 != 0 || status.error_info_2 != 0 {
                    text == status.description()
                } else if status.status_type == 2 {
                    text == "Printer reported an unspecified error"@
                } else {
                    status.status_type == 4 && text == "Printer turned off"@
                }
            },
            _ => false,
        },
{
}

/// What one report after a print command comes to depends on six of its bytes.
pub proof fn law_page_report(frame: Seq<u8>)
    requires
        frame.len() >= 32,
    ensures
        match page_examined(frame) {
            Ok(Some(status)) => {
                &&& sound(frame)
                &&& !alarming(frame)
                &&& receiving(frame)
                &&& status == decode(frame)
            },
            Ok(None) => sound(frame) && !alarming(frame) && !receiving(frame),
            Err(e) => e is StatusError && (!sound(frame) || alarming(frame)),
        },
{
}

/// What one report of a PT-P300BT comes to depends on its header, the printer it
/// names, its error bytes and its kind.
pub proof fn law_p300bt_report(frame: Seq<u8>, completion: bool)
    requires
        frame.len() >= 32,
    ensures
        match examined(frame, completion) {
            Ok(Some(status)) => {
                &&& sound(frame)
                &&& names_p300bt(frame)
                &&& !alarming(frame)
                &&& of_awaited_kind(frame, completion)
                &&& status == decode(frame)
            },
            Ok(None) => {
                &&& sound(frame)
                &&& names_p300bt(frame)
                &&& !alarming(frame)
                &&& !of_awaited_kind(frame, completion)
            },
            Err(e) => {
                &&& e is StatusError
                &&& !sound(frame) || !names_p300bt(frame) || alarming(frame)
                &&& sound(frame) && !names_p300bt(frame) ==> e == ErrorModel::StatusError(
                    "Unexpected PT-P300BT status identity"@,
                )
            },
        },
{
}

// ---------------------------------------------------------------------
// Several reports
// ---------------------------------------------------------------------

/// Whether a report of a PT-P300BT is passed over.
pub open spec fn passed_over(frame: Seq<u8>, completion: bool) -> bool {
    &&& sound(frame)
    &&& names_p300bt(frame)
    &&& !alarming(frame)
    &&& !of_awaited_kind(frame, completion)
}

/// Whether a report after a print command is passed over.
pub open spec fn page_passed_over(frame: Seq<u8>) -> bool {
    sound(frame) && !alarming(frame) && !receiving(frame)
}

/// The verdict on reports of a PT-P300BT is on the first that is not passed over:
/// it succeeds where that one is the awaited one, and fails where it is not sound,
/// of another printer, or names an error. Without such a report there is none.
pub proof fn law_verdict_is_on_first_decisive_report(
    frames: Seq<Seq<u8>>,
    completion: bool,
    i: int,
)
    requires
        forall|k: int| 0 <= k < frames.len() ==> (#[trigger] frames[k]).len() >= 32,
        0 <= i <= frames.len(),
        forall|k: int| 0 <= k < i ==> passed_over(#[trigger] frames[k], completion),
        i < frames.len() ==> !passed_over(frames[i], completion),
    ensures
        match verdict(frames, completion) {
            None => i == frames.len(),
            Some(Ok(status)) => {
                &&& i < frames.len()
                &&& status == decode(frames[i])
                &&& sound(frames[i])
                &&& names_p300bt(frames[i])
                &&& !alarming(frames[i])
                &&& of_awaited_kind(frames[i], completion)
            },
            Some(Err(e)) => {
                &&& i < frames.len()
                &&& e is StatusError
                &&& !sound(frames[i]) || !names_p300bt(frames[i]) || alarming(frames[i])
            },
        },
    decreases frames.len(),
{
    if frames.len() > 0 {
        law_p300bt_report(frames[0], completion);
        let rest = frames.drop_first();
        assert forall|k: int| 0 <= k < rest.len() implies (#[trigger] rest[k]).len() >= 32 by {
            assert(rest[k] == frames[k + 1]);
        }
        if i > 0 {
            assert(passed_over(frames[0], completion));
            assert forall|k: int| 0 <= k < i - 1 implies passed_over(
                #[trigger] rest[k],
                completion,
            ) by {
                assert(rest[k] == frames[k + 1]);
            }
            law_verdict_is_on_first_decisive_report(rest, completion, i - 1);
            if i < frames.len() {
                assert(rest[i - 1] == frames[i]);
            }
        }
    }
}

/// The verdict after a print command is on the first report that is not passed
/// over: it succeeds in the receiving phase, and fails where the report is not
/// sound or names an error. Without such a report there is none.
pub proof fn law_page_verdict_is_on_first_decisive_report(frames: Seq<Seq<u8>>, i: int)
    requires
        forall|k: int| 0 <= k < frames.len() ==> (#[trigger] frames[k]).len() >= 32,
        0 <= i <= frames.len(),
        forall|k: int| 0 <= k < i ==> page_passed_over(#[trigger] frames[k]),
        i < frames.len() ==> !page_passed_over(frames[i]),
    ensures
        match page_verdict(frames) {
            None => i == frames.len(),
            Some(Ok(status)) => {
                &&& i < frames.len()
                &&& status == decode(frames[i])
                &&& sound(frames[i])
                &&& !alarming(frames[i])
                &&& receiving(frames[i])
            },
            Some(Err(e)) => {
                &&& i < frames.len()
                &&& e is StatusError
                &&& !sound(frames[i]) || alarming(frames[i])
            },
        },
    decreases frames.len(),
{
    if frames.len() > 0 {
        law_page_report(frames[0]);
        let rest = frames.drop_first();
        assert forall|k: int| 0 <= k < rest.len() implies (#[trigger] rest[k]).len() >= 32 by {
            assert(rest[k] == frames[k + 1]);
        }
        if i > 0 {
            assert(page_passed_over(frames[0]));
            assert forall|k: int| 0 <= k < i - 1 implies page_passed_over(#[trigger] rest[k]) by {
                assert(rest[k] == frames[k + 1]);
            }
            law_page_verdict_is_on_first_decisive_report(rest, i - 1);
            if i < frames.len() {
                assert(rest[i - 1] == frames[i]);
            }
        }
    }
}

/// Bytes are used up report by report. Up to the first report that decides, and
/// with it, they are gone once the reports are judged; without one, only those of
/// the last, incomplete report are left.
pub proof fn law_judged_reports_are_used_up(stream: Seq<u8>, completion: bool, i: int)
    requires
        0 <= i <= reports(stream).len(),
        forall|k: int| 0 <= k < i ==> passed_over(#[trigger] reports(stream)[k], completion),
        i < reports(stream).len() ==> !passed_over(reports(stream)[i], completion),
    ensures
        i < reports(stream).len() ==> 32 * (i + 1) <= stream.len() && unjudged(stream, completion)
            == stream.skip(32 * (i + 1)),
        i == reports(stream).len() ==> 32 * i <= stream.len() < 32 * (i + 1) && unjudged(
            stream,
            completion,
        ) == stream.skip(32 * i),
    decreases stream.len(),
{
    if stream.len() < 32 {
        assert(stream.skip(0) =~= stream);
    } else {
        let rest = stream.skip(32);
        let frames = reports(stream);
        assert(frames[0] == stream.take(32));
        assert(frames.drop_first() =~= reports(rest));
        law_p300bt_report(frames[0], completion);
        if i > 0 {
            assert(passed_over(frames[0], completion));
            assert forall|k: int| 0 <= k < i - 1 implies passed_over(
                #[trigger] reports(rest)[k],
                completion,
            ) by {
                assert(reports(rest)[k] == frames[k + 1]);
            }
            if i < frames.len() {
                assert(reports(rest)[i - 1] == frames[i]);
            }
            law_judged_reports_are_used_up(rest, completion, i - 1);
            if i < frames.len() {
                assert(rest.skip(32 * i) =~= stream.skip(32 * (i + 1)));
            } else {
                assert(rest.skip(32 * (i - 1)) =~= stream.skip(32 * i));
            }
        } else {
            assert(!passed_over(frames[0], completion));
        }
    }
}

/// After a print command a report is used up once it is judged, whatever it says,
/// and incomplete ones wait for the rest. The deadline is not moved by it.
pub proof fn law_page_reports_are_used_up(wait: PrintWaitModel, now: u64)
    ensures
        ({
            let after = wait.judge(now).0;
            &&& wait.pending.len() < 32 ==> after == wait && wait.judge(now).1 == wait.poll(now)
            &&& wait.pending.len() >= 32 ==> after.pending == wait.pending.skip(32)
            &&& after.idle_timeout == wait.idle_timeout
            &&& after.last_transfer == wait.last_transfer
        }),
{
}

// ---------------------------------------------------------------------
// Time
// ---------------------------------------------------------------------

/// The wait after a print command fails once the silence is longer than it may
/// be, and not before. Each read is given what is left of that time, but at most
/// a quarter of a second and at least a millisecond.
pub proof fn law_page_poll(wait: PrintWaitModel, now: u64)
    ensures
        ({
            let left = wait.idle_timeout - elapsed(wait.last_transfer, now);
            match wait.poll(now) {
                WaitStepModel::Fault(e) => e is Timeout && left < 0,
                WaitStepModel::Read { timeout } => {
                    &&& left >= 0
                    &&& left >= 250_000_000 ==> timeout == 250_000_000
                    &&& left <= 1_000_000 ==> timeout == 1_000_000
                    &&& 1_000_000 <= left <= 250_000_000 ==> timeout == left
                },
                _ => false,
            }
        }),
{
}

/// The wait for a PT-P300BT fails once its total time is up, and not before,
/// unless a report has decided it. Each read is given what is left of that time,
/// but at most a quarter of a second.
pub proof fn law_p300bt_poll(wait: P300WaitModel, now: u64)
    ensures
        ({
            let left = wait.timeout - elapsed(wait.start, now);
            match wait.read_on(now) {
                WaitStepModel::Fault(e) => e is Timeout && left <= 0,
                WaitStepModel::Read { timeout } => {
                    &&& left > 0
                    &&& left >= 250_000_000 ==> timeout == 250_000_000
                    &&& left <= 250_000_000 ==> timeout == left
                },
                _ => false,
            }
        }),
{
}

/// Time is counted from the start on; a clock that shows an earlier time counts
/// as one that stands still.
pub proof fn law_elapsed(start: u64, now: u64, later: u64)
    requires
        start <= now <= later,
    ensures
        elapsed(start, now) + elapsed(now, later) == elapsed(start, later),
        start + elapsed(start, now) == now,
        elapsed(now, start) == 0,
{
}

/// A failed transfer ends a wait with its own error, except that nothing having
/// arrived in time is no failure of the wait.
pub proof fn law_transfer_failures_end_waits(
    print: PrintWaitModel,
    p300bt: P300WaitModel,
    e: ErrorModel,
    now: u64,
)
    ensures
        ({
            let reply = ReplyModel::Failed(e);
            &&& !(e is Timeout) ==> print.absorb(reply, now) == (print, WaitStepModel::Fault(e))
            &&& !(e is Timeout) ==> p300bt.absorb(reply, now) == (p300bt, WaitStepModel::Fault(e))
            &&& e is Timeout ==> print.absorb(reply, now) == (print, print.poll(now))
            &&& e is Timeout ==> p300bt.absorb(reply, now).1 == p300bt.poll(now)
        }),
{
}

/// A transfer of more bytes than there is room for ends a wait, and one of none
/// is followed by a pause.
pub proof fn law_impossible_and_empty_transfers(
    print: PrintWaitModel,
    p300bt: P300WaitModel,
    count: usize,
    buffer: Seq<u8>,
    now: u64,
)
    ensures
        ({
            let reply = ReplyModel::Received { count, buffer };
            let print_step = print.absorb(reply, now).1;
            let p300bt_step = p300bt.absorb(reply, now).1;
            &&& count > 32 ==> print_step == WaitStepModel::Fault(
                ErrorModel::StatusError(
                    "USB read reported "@ + decimal(count as nat) + " bytes for a "@ + decimal(32)
                        + "-byte buffer"@,
                ),
            )
            &&& count > 128 ==> p300bt_step == WaitStepModel::Fault(
                ErrorModel::StatusError(
                    "Transport returned more bytes than the receive buffer"@,
                ),
            )
            &&& count == 0 ==> print_step is Pause && p300bt_step is Pause
            &&& 0 < count <= 32 ==> !(print_step is Pause)
            &&& 0 < count <= 128 ==> !(p300bt_step is Pause)
        }),
{
}

/// What a transfer leaves of a wait for a PT-P300BT: nothing that it is for
/// changes, and only bytes that have arrived, or silence, have its reports judged.
pub proof fn law_p300bt_wait_is_kept(wait: P300WaitModel, reply: ReplyModel)
    ensures
        ({
            let after = wait.after(reply);
            &&& after.start == wait.start
            &&& after.timeout == wait.timeout
            &&& after.completion == wait.completion
            &&& match reply {
                ReplyModel::Received { count, buffer } => after.pending == if count == 0 || count
                    > 128 {
                    wait.pending
                } else {
                    unjudged(wait.pending + buffer.take(count as int), wait.completion)
                },
                ReplyModel::Failed(e) => after.pending == if e is Timeout {
                    unjudged(wait.pending, wait.completion)
                } else {
                    wait.pending
                },
                _ => true,
            }
        }),
{
}

} // verus!
