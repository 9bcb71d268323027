//! At what pace an operation goes on, and when it gives up.

use vstd::prelude::*;

use crate::bluetooth::lasts;
use crate::error::ErrorModel;
use crate::frames::reports;
use crate::hearing::{heard, heard_by, status_reads};
use crate::lifecycle::{answered, init_step, query_step, run};
use crate::link::{elapsed, ActionModel, ReplyModel};
use crate::model::Dialect;
use crate::protocol::PrintQuality;
use crate::session::{
    requesting, AfterFlushModel, AfterJob, Goal, PhaseModel, ReportUse, SessionModel, StepModel,
};
use crate::status::PrinterStatus;
use crate::text::decimal;
use crate::waiting::{parsed, verdict, P300WaitModel, PrintWaitModel, WaitStepModel};

verus! {

/// Whether what is asked for in a phase is of the right kind, size and duration.
/// Commands are given five seconds. Stale input is read 64 bytes at a time, for a
/// tenth of a second. Each status read is for 32 bytes and five seconds, behind a
/// tenth of a second of rest. While a report is awaited, reads last a quarter of
/// a second at most, and an empty one is followed by ten milliseconds of rest.
pub open spec fn paced(step: StepModel) -> bool {
    match step {
        StepModel::Done(r) => true,
        StepModel::Do { phase, action } => match phase {
            PhaseModel::Flush { start, next } => match action {
                ActionModel::Receive { capacity, timeout } => capacity == 64 && 0 < timeout
                    <= 100_000_000,
                _ => false,
            },
            PhaseModel::UsbPause { goal, attempt, pending } => action == (ActionModel::Sleep {
                duration: 100_000_000,
            }),
            PhaseModel::UsbRead { goal, attempt, pending } => action == (ActionModel::Receive {
                capacity: 32,
                timeout: 5_000_000_000,
            }),
            PhaseModel::P300Pause { wait, purpose } => action == (ActionModel::Sleep {
                duration: 10_000_000,
            }),
            PhaseModel::P300Read { wait, purpose } => match action {
                ActionModel::Receive { capacity, timeout } => capacity == 128 && 0 < timeout
                    <= 250_000_000,
                _ => false,
            },
            PhaseModel::ReadyPause { watch } => action == (ActionModel::Sleep {
                duration: 10_000_000,
            }),
            PhaseModel::ReadyRead { watch } => match action {
                ActionModel::Receive { capacity, timeout } => capacity == 32 && 1_000_000
                    <= timeout <= 250_000_000,
                _ => false,
            },
            PhaseModel::Completion => action == (ActionModel::Receive {
                capacity: 32,
                timeout: 5_000_000_000,
            }),
            _ => action matches ActionModel::Send { bytes, timeout } && timeout == 5_000_000_000,
        },
    }
}

/// Whether a wait that reads on does so for no more than a quarter of a second and
/// no less than `least`.
spec fn brief(step: WaitStepModel, least: int) -> bool {
    match step {
        WaitStepModel::Read { timeout } => least <= timeout <= 250_000_000,
        _ => true,
    }
}

proof fn lemma_page_reads_are_brief(watch: PrintWaitModel, reply: ReplyModel, now: u64)
    ensures
        brief(watch.poll(now), 1_000_000),
        brief(watch.absorb(reply, now).1, 1_000_000),
{
}

proof fn lemma_report_reads_are_brief(wait: P300WaitModel, reply: ReplyModel, now: u64)
    ensures
        brief(wait.poll(now), 1),
        brief(wait.absorb(reply, now).1, 1),
{
}

proof fn lemma_turns_are_paced(
    s: SessionModel,
    watch: PrintWaitModel,
    wait: P300WaitModel,
    purpose: ReportUse,
    step: WaitStepModel,
)
    ensures
        brief(step, 1_000_000) ==> paced(s.ready_turn(watch, step).1),
        brief(step, 1) ==> paced(s.p300_turn(wait, purpose, step).1),
{
}

/// The wait that begins at `now`.
spec fn first_page_wait(now: u64) -> PrintWaitModel {
    PrintWaitModel { idle_timeout: 30_000_000_000, last_transfer: now, pending: Seq::empty() }
}

spec fn first_report_wait(now: u64, timeout: u64, completion: bool) -> P300WaitModel {
    P300WaitModel { start: now, timeout, completion, pending: Seq::empty() }
}

proof fn lemma_report_wait_is_paced(s: SessionModel, purpose: ReportUse, timeout: u64, now: u64)
    ensures
        paced(s.p300_begin(timeout, purpose, now).1),
{
    let wait = first_report_wait(now, timeout, purpose is Completion);
    lemma_report_reads_are_brief(wait, ReplyModel::Slept, now);
    lemma_turns_are_paced(s, first_page_wait(now), wait.drained(), purpose, wait.poll(now));
}

proof fn lemma_dispatch_is_paced(
    s: SessionModel,
    rest: Seq<Seq<u8>>,
    after: AfterJob,
    now: u64,
)
    ensures
        paced(s.dispatching(rest, after, now).1),
{
    if rest.len() == 0 {
        let watch = first_page_wait(now);
        let wait = first_report_wait(now, 60_000_000_000, true);
        lemma_page_reads_are_brief(watch, ReplyModel::Slept, now);
        lemma_turns_are_paced(s, watch, wait, ReportUse::Completion, watch.poll(now));
        lemma_report_wait_is_paced(s, ReportUse::Completion, 60_000_000_000, now);
    }
}

proof fn lemma_resumed_is_paced(s: SessionModel, phase: PhaseModel, reply: ReplyModel, now: u64)
    ensures
        paced(s.resumed(phase, reply, now).1),
{
    let no_page = first_page_wait(now);
    let no_report = first_report_wait(now, 0, false);
    match phase {
        PhaseModel::Request { goal } => {
            lemma_report_wait_is_paced(s, ReportUse::Status(goal), 10_000_000_000, now);
        },
        PhaseModel::Job { rest, after } => {
            lemma_dispatch_is_paced(s, rest, after, now);
        },
        PhaseModel::P300Pause { wait, purpose } => {
            lemma_report_reads_are_brief(wait, reply, now);
            lemma_turns_are_paced(s, no_page, wait.drained(), purpose, wait.poll(now));
        },
        PhaseModel::P300Read { wait, purpose } => {
            let (after, step) = wait.absorb(reply, now);
            lemma_report_reads_are_brief(wait, reply, now);
            lemma_turns_are_paced(s, no_page, after, purpose, step);
        },
        PhaseModel::ReadyPause { watch } => {
            lemma_page_reads_are_brief(watch, reply, now);
            lemma_turns_are_paced(s, watch, no_report, ReportUse::Completion, watch.poll(now));
        },
        PhaseModel::ReadyRead { watch } => {
            let (after, step) = watch.absorb(reply, now);
            lemma_page_reads_are_brief(watch, reply, now);
            lemma_turns_are_paced(s, after, no_report, ReportUse::Completion, step);
        },
        _ => {},
    }
}

/// Every operation begins and goes on at its pace, whatever the transport
/// replies.
pub proof fn law_operations_are_paced(
    s: SessionModel,
    phase: PhaseModel,
    reply: ReplyModel,
    lines: Seq<Seq<u8>>,
    chain_print: bool,
    precut: bool,
    quality: PrintQuality,
    now: u64,
)
    ensures
        paced(init_step(s, now)),
        paced(query_step(s, now)),
        paced(requesting(Goal::Report)),
        paced(s.printing(lines, chain_print, precut, quality, now).1),
        paced(s.feeding(now).1),
        paced(s.resumed(phase, reply, now).1),
{
    if let Ok(job) = s.label(lines, chain_print, precut, quality) {
        lemma_dispatch_is_paced(s, job, s.after_label(), now);
    }
    lemma_dispatch_is_paced(s, s.feed_job(), AfterJob::Ready, now);
    lemma_dispatch_is_paced(s, s.feed_job(), AfterJob::Nothing, now);
    lemma_resumed_is_paced(s, phase, reply, now);
}

// ---------------------------------------------------------------------
// Stale input
// ---------------------------------------------------------------------

/// An initialization and a query begin by reading stale input. It is read on as
/// long as some comes, on a PT-P300BT for a tenth of a second in all. As soon as
/// none comes, or that time is up, the operation goes on: an initialization with a
/// command, a query with the request, and a failed exchange with its failure.
/// Nothing is learnt from stale input.
pub proof fn law_flush_reads_on(
    s: SessionModel,
    start: u64,
    next: AfterFlushModel,
    reply: ReplyModel,
    now: u64,
)
    ensures
        init_step(s, now) == (StepModel::Do {
            phase: PhaseModel::Flush { start: now, next: AfterFlushModel::Reset },
            action: ActionModel::Receive { capacity: 64, timeout: 100_000_000 },
        }),
        query_step(s, now) == (StepModel::Do {
            phase: PhaseModel::Flush { start: now, next: AfterFlushModel::Query },
            action: ActionModel::Receive { capacity: 64, timeout: 100_000_000 },
        }),
        ({
            let (after, step) = s.resumed(PhaseModel::Flush { start, next }, reply, now);
            let more = (reply matches ReplyModel::Received { count, buffer } && count > 0) && (
            s.profile.dialect == Dialect::Usb || elapsed(start, now) < 100_000_000);
            &&& after == s
            &&& if more {
                &&& step matches StepModel::Do {
                    phase: PhaseModel::Flush { start: begun, next: later },
                    action: ActionModel::Receive { capacity, timeout },
                } && begun == start && later == next && capacity == 64 && timeout == 100_000_000 - (
                if s.profile.dialect == Dialect::Usb {
                    0
                } else {
                    elapsed(start, now)
                })
            } else {
                match next {
                    AfterFlushModel::Fail(e) => step == StepModel::Done(Err(e)),
                    _ => step matches StepModel::Do { phase, action: ActionModel::Send {
                        bytes,
                        timeout,
                    } } && phase == if next is Reset {
                        PhaseModel::Reset
                    } else {
                        PhaseModel::Request { goal: Goal::Report }
                    },
                }
            }
        }),
{
}

// ---------------------------------------------------------------------
// Status reads on the USB bus
// ---------------------------------------------------------------------

/// How a status exchange on the USB bus may fail with `e`, when `reads` status
/// reads have brought `bytes` and `reply` has come for `action`: because a
/// transfer has failed, though silence in a read is no failure; because the first
/// 32 bytes are no report; or because ten reads have not brought as many.
pub open spec fn fails_with(
    e: ErrorModel,
    action: ActionModel,
    reply: ReplyModel,
    reads: nat,
    bytes: Seq<u8>,
) -> bool {
    ||| reply == ReplyModel::Failed(e) && (e is Timeout ==> action is Send)
    ||| gives_up_with(e, reads, bytes)
}

/// How a status exchange on the USB bus may give up with `e`.
pub open spec fn gives_up_with(e: ErrorModel, reads: nat, bytes: Seq<u8>) -> bool {
    ||| bytes.len() >= 32 && !(bytes[0] == 0x80 && bytes[1] == 0x20) && parsed(
        bytes.take(32),
        "Invalid status header"@,
    ) == Err::<PrinterStatus, ErrorModel>(e)
    ||| bytes.len() < 32 && reads == 10 && e == ErrorModel::StatusError(
        "Status packet too short: "@ + decimal(bytes.len()) + " bytes (expected "@ + decimal(32)
            + ")"@,
    )
}

spec fn counted(s: SessionModel, step: StepModel, reads: nat, h: Seq<u8>) -> bool {
    &&& s.profile.dialect == Dialect::Usb
    &&& paced(step)
    &&& match step {
        StepModel::Done(r) => true,
        StepModel::Do { phase, action } => match phase {
            PhaseModel::Flush { start, next: AfterFlushModel::Fail(e) } => gives_up_with(
                e,
                reads,
                h,
            ),
            PhaseModel::Flush { start, next } => reads == 0 && h.len() == 0,
            PhaseModel::Reset => reads == 0 && h.len() == 0,
            PhaseModel::Request { goal } => reads == 0 && h.len() == 0,
            PhaseModel::UsbPause { goal, attempt, pending } => attempt == reads < 10 && pending == h
                && h.len() < 32,
            PhaseModel::UsbRead { goal, attempt, pending } => attempt == reads < 10 && pending == h
                && h.len() < 32,
            PhaseModel::Notify => true,
            _ => false,
        },
    }
}

spec fn one_read(phase: PhaseModel) -> nat {
    if phase is UsbRead {
        1
    } else {
        0
    }
}

proof fn lemma_counted_step(
    s: SessionModel,
    step: StepModel,
    reads: nat,
    h: Seq<u8>,
    reply: ReplyModel,
    now: u64,
)
    requires
        counted(s, step, reads, h),
        step is Do,
        step->phase.accepts(reply),
    ensures
        ({
            let (s1, step1) = s.resumed(step->phase, reply, now);
            let reads1 = reads + one_read(step->phase);
            let h1 = h + heard_by(step->phase, reply);
            &&& counted(s1, step1, reads1, h1)
            &&& step1 matches StepModel::Done(Err(e)) ==> fails_with(
                e,
                step->action,
                reply,
                reads1,
                h1,
            )
        }),
{
    let phase = step->phase;
    let more = heard_by(phase, reply);
    law_operations_are_paced(
        s,
        phase,
        reply,
        Seq::empty(),
        false,
        false,
        PrintQuality::Standard,
        now,
    );
    match phase {
        PhaseModel::UsbRead { goal, attempt, pending } => {
            match reply {
                ReplyModel::Received { count, buffer } => {
                    if count == 0 {
                        assert(buffer.take(0) =~= Seq::empty());
                        assert(h + more =~= h);
                    } else {
                        let all = pending + buffer.take(count as int);
                        if all.len() >= 32 {
                            assert(all.take(32)[0] == all[0]);
                            assert(all.take(32)[1] == all[1]);
                        }
                    }
                },
                _ => {
                    assert(h + more =~= h);
                },
            }
        },
        _ => {
            assert(h + more =~= h);
        },
    }
}

proof fn lemma_counted_run(
    s: SessionModel,
    step: StepModel,
    reads: nat,
    h: Seq<u8>,
    replies: Seq<(ReplyModel, u64)>,
)
    requires
        counted(s, step, reads, h),
        step is Do,
        answered(s, step, replies),
        lasts(s, step, replies),
    ensures
        run(s, step, replies).1 matches StepModel::Done(Err(e)) ==> {
            &&& replies.len() > 0
            &&& run(s, step, replies.drop_last()).1 is Do
            &&& fails_with(
                e,
                run(s, step, replies.drop_last()).1->action,
                replies.last().0,
                reads + status_reads(s, step, replies),
                h + heard(s, step, replies),
            )
        },
    decreases replies.len(),
{
    if replies.len() > 0 {
        let phase = step->phase;
        let (reply, now) = replies[0];
        let (s1, step1) = s.resumed(phase, reply, now);
        let more = heard_by(phase, reply);
        let rest = replies.drop_first();
        lemma_counted_step(s, step, reads, h, reply, now);
        assert(h + heard(s, step, replies) =~= h + more + heard(s1, step1, rest));
        assert(status_reads(s, step, replies) == one_read(phase) + status_reads(s1, step1, rest));
        if step1 is Do {
            lemma_counted_run(s1, step1, reads + one_read(phase), h + more, rest);
            if rest.len() > 0 {
                let shorter = replies.drop_last();
                assert(rest.last() == replies.last());
                assert(shorter.drop_first() =~= rest.drop_last());
                assert(shorter[0] == replies[0]);
                assert(run(s, step, shorter) == run(s1, step1, rest.drop_last()));
            }
        } else {
            assert(lasts(s1, step1, rest));
            assert(rest.len() == 0);
            assert(heard(s1, step1, rest) =~= Seq::empty());
            assert(h + more + heard(s1, step1, rest) =~= h + more);
            assert(replies.last() == replies[0]);
            assert(replies.drop_last() =~= Seq::empty());
            assert(run(s, step, replies.drop_last()) == (s, step));
            assert(run(s, step, replies) == run(s1, step1, rest));
            assert(status_reads(s1, step1, rest) == 0);
            assert(status_reads(s, step, replies) == one_read(phase));
        }
    }
}

/// Whether an exchange on the USB bus that was started with `step` fails only as
/// it may.
pub open spec fn fails_duly(
    s: SessionModel,
    step: StepModel,
    replies: Seq<(ReplyModel, u64)>,
) -> bool {
    run(s, step, replies).1 matches StepModel::Done(Err(e)) ==> {
        &&& replies.len() > 0
        &&& run(s, step, replies.drop_last()).1 is Do
        &&& fails_with(
            e,
            run(s, step, replies.drop_last()).1->action,
            replies.last().0,
            status_reads(s, step, replies),
            heard(s, step, replies),
        )
    }
}

/// On the USB bus a status exchange, alone or in an initialization, is not given
/// up early: it fails only if a transfer fails, if what has come first is no
/// report, or if ten reads have not brought a whole one.
pub proof fn law_usb_exchange_is_not_given_up_early(
    s: SessionModel,
    now: u64,
    replies: Seq<(ReplyModel, u64)>,
)
    requires
        s.profile.dialect == Dialect::Usb,
    ensures
        answered(s, requesting(Goal::Report), replies) && lasts(
            s,
            requesting(Goal::Report),
            replies,
        ) ==> fails_duly(s, requesting(Goal::Report), replies),
        answered(s, query_step(s, now), replies) && lasts(s, query_step(s, now), replies)
            ==> fails_duly(s, query_step(s, now), replies),
        answered(s, init_step(s, now), replies) && lasts(s, init_step(s, now), replies)
            ==> fails_duly(s, init_step(s, now), replies),
{
    let none = Seq::<u8>::empty();
    let bare = requesting(Goal::Report);
    let query = query_step(s, now);
    let init = init_step(s, now);
    assert(none + heard(s, bare, replies) =~= heard(s, bare, replies));
    assert(none + heard(s, query, replies) =~= heard(s, query, replies));
    assert(none + heard(s, init, replies) =~= heard(s, init, replies));
    if answered(s, bare, replies) && lasts(s, bare, replies) {
        lemma_counted_run(s, bare, 0, none, replies);
    }
    if answered(s, query, replies) && lasts(s, query, replies) {
        lemma_counted_run(s, query, 0, none, replies);
    }
    if answered(s, init, replies) && lasts(s, init, replies) {
        lemma_counted_run(s, init, 0, none, replies);
    }
}

// ---------------------------------------------------------------------
// Replies
// ---------------------------------------------------------------------

/// Whether a reply is one to an action: a command is sent or not, a read brings a
/// buffer of the size asked for or fails, and a rest is over.
pub open spec fn fits(action: ActionModel, reply: ReplyModel) -> bool {
    match action {
        ActionModel::Send { bytes, timeout } => reply is Sent || reply is Failed,
        ActionModel::Receive { capacity, timeout } => match reply {
            ReplyModel::Received { count, buffer } => buffer.len() == capacity,
            ReplyModel::Failed(e) => true,
            _ => false,
        },
        ActionModel::Sleep { duration } => reply is Slept,
    }
}

/// Whatever an operation asks for, it goes on with every reply to that, and with
/// no other. Only a status read on the USB bus cannot take more bytes than it has
/// asked for.
pub proof fn law_every_reply_to_the_action_is_accepted(
    phase: PhaseModel,
    action: ActionModel,
    reply: ReplyModel,
)
    requires
        paced(StepModel::Do { phase, action }),
    ensures
        phase.accepts(reply) <==> fits(action, reply) && (phase is UsbRead ==> (reply matches
            ReplyModel::Received { count, buffer } ==> count <= 32)),
{
}

/// A command that cannot be sent ends every operation with that error. So does a
/// read that fails otherwise than by silence, except that of stale input. The last
/// report and the tape stay as they were, and so does whether the printer counts
/// as initialized, unless a PT-P300BT was printing.
pub proof fn law_failed_transfers_end_operations(
    s: SessionModel,
    phase: PhaseModel,
    action: ActionModel,
    e: ErrorModel,
    now: u64,
)
    requires
        paced(StepModel::Do { phase, action }),
        action is Send || (action is Receive && !(phase is Flush) && !(e is Timeout)),
    ensures
        ({
            let (after, step) = s.resumed(phase, ReplyModel::Failed(e), now);
            let printing = match phase {
                PhaseModel::Job { rest, after } => after == AfterJob::P300Completion,
                PhaseModel::P300Read { wait, purpose } => purpose == ReportUse::Completion,
                _ => false,
            };
            &&& step == StepModel::Done(Err(e))
            &&& after.profile == s.profile
            &&& after.status == s.status
            &&& after.tape_width_px == s.tape_width_px
            &&& after.initialized == (s.initialized && !printing)
        }),
{
}

/// Silence in a read ends no operation by itself: a status read is repeated behind
/// a rest until there were ten, and a report is awaited on for as long as it may.
pub proof fn law_silence_is_waited_out(
    s: SessionModel,
    goal: Goal,
    attempt: nat,
    pending: Seq<u8>,
    watch: PrintWaitModel,
    wait: P300WaitModel,
    purpose: ReportUse,
    now: u64,
)
    requires
        watch.pending.len() < 32,
        wait.pending.len() < 32,
    ensures
        ({
            let silence = ReplyModel::Failed(ErrorModel::Timeout);
            let again = s.resumed(PhaseModel::UsbRead { goal, attempt, pending }, silence, now);
            let page = s.resumed(PhaseModel::ReadyRead { watch }, silence, now);
            let report = s.resumed(PhaseModel::P300Read { wait, purpose }, silence, now);
            &&& attempt < 9 ==> again == (
                s,
                StepModel::Do {
                    phase: PhaseModel::UsbPause { goal, attempt: attempt + 1, pending },
                    action: ActionModel::Sleep { duration: 100_000_000 },
                },
            )
            &&& elapsed(watch.last_transfer, now) <= watch.idle_timeout ==> page.0 == s && (
            page.1 matches StepModel::Do {
                phase: PhaseModel::ReadyRead { watch: w },
                action,
            } && w == watch)
            &&& elapsed(wait.start, now) < wait.timeout ==> report.0 == s && (
            report.1 matches StepModel::Do {
                phase: PhaseModel::P300Read { wait: w, purpose: p },
                action,
            } && p == purpose && w.start == wait.start && w.timeout == wait.timeout && w.pending
                == wait.pending && w.completion == wait.completion)
        }),
{
    assert(reports(wait.pending) =~= Seq::empty());
    assert(verdict(reports(wait.pending), wait.completion) is None);
}

} // verus!
