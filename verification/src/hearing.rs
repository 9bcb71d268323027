//! By which reports an operation goes, whatever the transport replies and
//! however it cuts the bytes up.

use vstd::prelude::*;

use crate::bluetooth::lasts;
use crate::device::DeviceFlags;
use crate::error::ErrorModel;
use crate::frames::{law_reports_survive_fragmentation, leftover, reports};
use crate::lifecycle::{
    after_calls, answered, fresh_session, grounded, init_step, law_feed, law_label, law_query,
    lemma_call, query_step, run, Call,
};
use crate::link::{
    answers_receive, elapsed, ActionModel, ReplyModel, P300BT_COMPLETION_TIMEOUT,
    P300BT_QUERY_TIMEOUT, STATUS_MAX_RETRIES,
};
use crate::model::{Dialect, ModelProfile};
use crate::p300bt::idle;
use crate::protocol::PrintQuality;
use crate::session::{
    failed, requesting, AfterFlushModel, AfterJob, Goal, PhaseModel, ReportUse, SessionModel,
    StepModel,
};
use crate::status::{decode, PrinterStatus, STATUS_PACKET_SIZE};
use crate::waiting::{
    law_page_verdict_survives_fragmentation, law_verdict_survives_fragmentation, page_verdict,
    parsed, verdict, P300WaitModel, PrintWaitModel, P300BT_BUFFER_SIZE,
};

verus! {

/// What a reply adds to the bytes from which reports are cut.
pub open spec fn heard_by(phase: PhaseModel, reply: ReplyModel) -> Seq<u8> {
    match reply {
        ReplyModel::Received { count, buffer } => match phase {
            PhaseModel::UsbRead { goal, attempt, pending } => buffer.take(count as int),
            PhaseModel::P300Read { wait, purpose } => if count <= P300BT_BUFFER_SIZE {
                buffer.take(count as int)
            } else {
                Seq::empty()
            },
            PhaseModel::ReadyRead { watch } => if count <= STATUS_PACKET_SIZE {
                buffer.take(count as int)
            } else {
                Seq::empty()
            },
            _ => Seq::empty(),
        },
        _ => Seq::empty(),
    }
}

/// The bytes from which reports are cut in a run, in order.
pub open spec fn heard(s: SessionModel, step: StepModel, replies: Seq<(ReplyModel, u64)>) -> Seq<
    u8,
>
    decreases replies.len(),
{
    match step {
        StepModel::Done(r) => Seq::empty(),
        StepModel::Do { phase, action } => if replies.len() == 0 {
            Seq::empty()
        } else {
            let (s1, step1) = s.resumed(phase, replies[0].0, replies[0].1);
            heard_by(phase, replies[0].0) + heard(s1, step1, replies.drop_first())
        },
    }
}

// ---------------------------------------------------------------------
// Status on the USB bus
// ---------------------------------------------------------------------

/// Whether the bytes begin with a report that has a valid header.
pub open spec fn begins_with_report(bytes: Seq<u8>) -> bool {
    &&& bytes.len() >= STATUS_PACKET_SIZE
    &&& parsed(bytes.take(STATUS_PACKET_SIZE as int), "Invalid status header"@) is Ok
}

/// Whether the session goes by the first report among the bytes.
pub open spec fn goes_by_first_report(s: SessionModel, bytes: Seq<u8>) -> bool {
    let first = bytes.take(STATUS_PACKET_SIZE as int);
    &&& begins_with_report(bytes)
    &&& s.status == Some(decode(first))
    &&& s.tape_width_px == s.profile.printable_px(decode(first).media_width)
}

/// Whether an exchange on the USB bus that started with the status `before`
/// stands as the bytes `h` heard so far demand.
spec fn usb_stands(
    before: Option<PrinterStatus>,
    h: Seq<u8>,
    goal: Goal,
    turn: (SessionModel, StepModel),
) -> bool {
    let (s, step) = turn;
    &&& s.profile.dialect == Dialect::Usb
    &&& if begins_with_report(h) {
        goes_by_first_report(s, h)
    } else {
        s.status == before
    }
    &&& match step {
        StepModel::Done(Ok(u)) => begins_with_report(h),
        // An initialization can still fail on the command behind its report.
        StepModel::Done(Err(e)) => goal == Goal::Init || !begins_with_report(h),
        StepModel::Do { phase, action } => match phase {
            PhaseModel::Flush { start, next } => match next {
                AfterFlushModel::Reset => goal == Goal::Init && h.len() == 0,
                AfterFlushModel::Query => goal == Goal::Report && h.len() == 0,
                AfterFlushModel::Fail(e) => !begins_with_report(h),
            },
            PhaseModel::Reset => goal == Goal::Init && h.len() == 0,
            PhaseModel::Request { goal: g } => g == goal && h.len() == 0,
            PhaseModel::UsbPause { goal: g, attempt, pending } => g == goal && pending == h
                && h.len() < STATUS_PACKET_SIZE,
            PhaseModel::UsbRead { goal: g, attempt, pending } => g == goal && pending == h
                && h.len() < STATUS_PACKET_SIZE,
            PhaseModel::Notify => goal == Goal::Init && begins_with_report(h),
            _ => false,
        },
    }
}

proof fn lemma_usb_step(
    s: SessionModel,
    step: StepModel,
    before: Option<PrinterStatus>,
    h: Seq<u8>,
    goal: Goal,
    reply: ReplyModel,
    now: u64,
)
    requires
        usb_stands(before, h, goal, (s, step)),
        step is Do,
    ensures
        usb_stands(
            before,
            h + heard_by(step->phase, reply),
            goal,
            s.resumed(step->phase, reply, now),
        ),
{
    let phase = step->phase;
    let more = heard_by(phase, reply);
    match phase {
        PhaseModel::UsbRead { goal: g, attempt, pending } => {
            if let ReplyModel::Received { count, buffer } = reply {
                if count == 0 {
                    assert(buffer.take(0) =~= Seq::empty());
                    assert(h + more =~= h);
                }
            } else {
                assert(h + more =~= h);
            }
        },
        PhaseModel::Flush { start, next } => {
            assert(h + more =~= h);
        },
        _ => {
            assert(h + more =~= h);
        },
    }
}

proof fn lemma_usb_run(
    s: SessionModel,
    step: StepModel,
    before: Option<PrinterStatus>,
    h: Seq<u8>,
    goal: Goal,
    replies: Seq<(ReplyModel, u64)>,
)
    requires
        usb_stands(before, h, goal, (s, step)),
    ensures
        usb_stands(before, h + heard(s, step, replies), goal, run(s, step, replies)),
    decreases replies.len(),
{
    let ended = match step {
        StepModel::Done(r) => true,
        _ => replies.len() == 0,
    };
    if ended {
        assert(h + heard(s, step, replies) =~= h);
    } else {
        let phase = step->phase;
        let (s1, step1) = s.resumed(phase, replies[0].0, replies[0].1);
        let more = heard_by(phase, replies[0].0);
        lemma_usb_step(s, step, before, h, goal, replies[0].0, replies[0].1);
        lemma_usb_run(s1, step1, before, h + more, goal, replies.drop_first());
        assert(h + heard(s, step, replies) =~= h + more + heard(s1, step1, replies.drop_first()));
    }
}

/// On the USB bus a status exchange goes by the first 32 bytes that arrived for
/// it, in however many pieces: it succeeds as soon as they are a report with a
/// valid header, and not otherwise, whether it was asked for alone or behind a
/// flush. An initialization goes by them as well, and succeeds only on such a
/// report, though it can still fail on the command behind it. Without such a
/// report the last one stays.
pub proof fn law_usb_status_is_first_report(
    s: SessionModel,
    now: u64,
    replies: Seq<(ReplyModel, u64)>,
)
    requires
        s.profile.dialect == Dialect::Usb,
    ensures
        ({
            let step = requesting(Goal::Report);
            let (after, last) = run(s, step, replies);
            &&& last.is_success() == begins_with_report(heard(s, step, replies))
            &&& last.is_success() ==> goes_by_first_report(after, heard(s, step, replies))
        }),
        ({
            let step = query_step(s, now);
            let (after, last) = run(s, step, replies);
            &&& last.is_success() == begins_with_report(heard(s, step, replies))
            &&& last.is_success() ==> goes_by_first_report(after, heard(s, step, replies))
        }),
        ({
            let step = init_step(s, now);
            let (after, last) = run(s, step, replies);
            &&& last.is_success() ==> begins_with_report(heard(s, step, replies))
            &&& if begins_with_report(heard(s, step, replies)) {
                goes_by_first_report(after, heard(s, step, replies))
            } else {
                after.status == s.status
            }
        }),
{
    let none = Seq::<u8>::empty();
    lemma_usb_run(s, requesting(Goal::Report), s.status, none, Goal::Report, replies);
    lemma_usb_run(s, query_step(s, now), s.status, none, Goal::Report, replies);
    lemma_usb_run(s, init_step(s, now), s.status, none, Goal::Init, replies);
    assert(none + heard(s, requesting(Goal::Report), replies) =~= heard(
        s,
        requesting(Goal::Report),
        replies,
    ));
    assert(none + heard(s, query_step(s, now), replies) =~= heard(s, query_step(s, now), replies));
    assert(none + heard(s, init_step(s, now), replies) =~= heard(s, init_step(s, now), replies));
}

/// The number of status reads in a run.
pub open spec fn status_reads(
    s: SessionModel,
    step: StepModel,
    replies: Seq<(ReplyModel, u64)>,
) -> nat
    decreases replies.len(),
{
    match step {
        StepModel::Done(r) => 0,
        StepModel::Do { phase, action } => {
            let here: nat = if phase is UsbRead {
                1
            } else {
                0
            };
            if replies.len() == 0 {
                here
            } else {
                let (s1, step1) = s.resumed(phase, replies[0].0, replies[0].1);
                here + status_reads(s1, step1, replies.drop_first())
            }
        },
    }
}

/// The status reads that an exchange may still make.
spec fn reads_left(step: StepModel) -> nat {
    match step {
        StepModel::Done(r) => 0,
        StepModel::Do { phase, action } => match phase {
            PhaseModel::Flush { start, next } => if next is Fail {
                0
            } else {
                STATUS_MAX_RETRIES as nat
            },
            PhaseModel::Reset => STATUS_MAX_RETRIES as nat,
            PhaseModel::Request { goal } => STATUS_MAX_RETRIES as nat,
            PhaseModel::UsbPause { goal, attempt, pending } => if attempt < STATUS_MAX_RETRIES {
                (STATUS_MAX_RETRIES - attempt) as nat
            } else {
                1
            },
            PhaseModel::UsbRead { goal, attempt, pending } => if attempt < STATUS_MAX_RETRIES {
                (STATUS_MAX_RETRIES - attempt) as nat
            } else {
                1
            },
            _ => 0,
        },
    }
}

proof fn lemma_status_reads(s: SessionModel, step: StepModel, replies: Seq<(ReplyModel, u64)>)
    ensures
        status_reads(s, step, replies) <= reads_left(step),
    decreases replies.len(),
{
    if let StepModel::Do { phase, action } = step {
        if replies.len() > 0 {
            let (s1, step1) = s.resumed(phase, replies[0].0, replies[0].1);
            lemma_status_reads(s1, step1, replies.drop_first());
            lemma_reads_left(s, phase, replies[0].0, replies[0].1);
        }
    }
}

proof fn lemma_reads_left(s: SessionModel, phase: PhaseModel, reply: ReplyModel, now: u64)
    ensures
        forall|action|
            reads_left(s.resumed(phase, reply, now).1) + (if phase is UsbRead {
                1nat
            } else {
                0nat
            }) <= #[trigger] reads_left(StepModel::Do { phase, action }),
{
    match phase {
        PhaseModel::P300Read { wait, purpose } => {
            let (after, step) = wait.absorb(reply, now);
            assert(reads_left(s.p300_turn(after, purpose, step).1) == 0);
        },
        PhaseModel::P300Pause { wait, purpose } => {
            let step = wait.poll(now);
            assert(reads_left(s.p300_turn(wait.drained(), purpose, step).1) == 0);
        },
        PhaseModel::ReadyRead { watch } => {
            let (after, step) = watch.absorb(reply, now);
            assert(reads_left(s.ready_turn(after, step).1) == 0);
        },
        PhaseModel::ReadyPause { watch } => {
            let step = watch.poll(now);
            assert(reads_left(s.ready_turn(watch, step).1) == 0);
        },
        _ => {},
    }
}

/// A status exchange never makes more than ten status reads.
pub proof fn law_status_reads_are_bounded(
    s: SessionModel,
    now: u64,
    replies: Seq<(ReplyModel, u64)>,
)
    ensures
        status_reads(s, requesting(Goal::Report), replies) <= 10,
        status_reads(s, query_step(s, now), replies) <= 10,
        status_reads(s, init_step(s, now), replies) <= 10,
{
    lemma_status_reads(s, requesting(Goal::Report), replies);
    lemma_status_reads(s, query_step(s, now), replies);
    lemma_status_reads(s, init_step(s, now), replies);
}

// ---------------------------------------------------------------------
// Reports of a PT-P300BT
// ---------------------------------------------------------------------

/// Whether the session goes by the verdict on the bytes.
pub open spec fn goes_by_verdict(s: SessionModel, bytes: Seq<u8>, completion: bool) -> bool {
    match verdict(reports(bytes), completion) {
        Some(Ok(status)) => s.status == Some(status),
        _ => false,
    }
}

/// Whether a wait has judged all the bytes without a verdict.
spec fn undecided(wait: P300WaitModel, h: Seq<u8>, completion: bool) -> bool {
    &&& wait.completion == completion
    &&& wait.pending == leftover(h)
    &&& verdict(reports(h), completion) is None
}

/// Whether an operation of a PT-P300BT that started with the status `before`
/// stands as the bytes `h` heard so far demand.
spec fn p300_stands(
    before: Option<PrinterStatus>,
    h: Seq<u8>,
    purpose: ReportUse,
    turn: (SessionModel, StepModel),
) -> bool {
    let completion = purpose is Completion;
    let (s, step) = turn;
    &&& s.profile.dialect == Dialect::P300Bt
    &&& s.status == match verdict(reports(h), completion) {
        Some(Ok(status)) => Some(status),
        _ => before,
    }
    &&& match step {
        StepModel::Done(Ok(u)) => goes_by_verdict(s, h, completion),
        StepModel::Done(Err(e)) => match verdict(reports(h), completion) {
            // An initialization can still fail on the command behind its report.
            Some(Ok(status)) => purpose == ReportUse::Status(Goal::Init),
            Some(Err(fault)) => fault == e,
            None => true,
        },
        StepModel::Do { phase, action } => match phase {
            PhaseModel::Flush { start, next } => h.len() == 0 && match next {
                AfterFlushModel::Reset => purpose == ReportUse::Status(Goal::Init),
                AfterFlushModel::Query => purpose == ReportUse::Status(Goal::Report),
                AfterFlushModel::Fail(e) => false,
            },
            PhaseModel::Reset => h.len() == 0 && purpose == ReportUse::Status(
                Goal::Init,
            ),
            PhaseModel::Request { goal } => h.len() == 0 && purpose == ReportUse::Status(goal),
            PhaseModel::Job { rest, after } => completion && h.len() == 0 && after
                == AfterJob::P300Completion,
            PhaseModel::P300Pause { wait, purpose: p } => p == purpose && undecided(
                wait,
                h,
                completion,
            ),
            PhaseModel::P300Read { wait, purpose: p } => p == purpose && undecided(
                wait,
                h,
                completion,
            ),
            PhaseModel::Notify => purpose == ReportUse::Status(Goal::Init) && goes_by_verdict(
                s,
                h,
                completion,
            ),
            _ => false,
        },
    }
}

proof fn lemma_undecided_poll(wait: P300WaitModel, h: Seq<u8>, more: Seq<u8>, completion: bool)
    requires
        undecided(wait, h, completion),
    ensures
        verdict(reports(wait.pending + more), completion) == verdict(
            reports(h + more),
            completion,
        ),
        verdict(reports(wait.pending + more), completion) is None ==> undecided(
            wait.holding(leftover(wait.pending + more)),
            h + more,
            completion,
        ),
{
    law_verdict_survives_fragmentation(h, more, completion);
    law_reports_survive_fragmentation(h, more);
}

proof fn lemma_p300_read(
    s: SessionModel,
    wait: P300WaitModel,
    purpose: ReportUse,
    h: Seq<u8>,
    reply: ReplyModel,
    now: u64,
)
    requires
        s.profile.dialect == Dialect::P300Bt,
        undecided(wait, h, purpose is Completion),
    ensures
        ({
            let (after, step) = wait.absorb(reply, now);
            p300_stands(
                s.status,
                h + heard_by(PhaseModel::P300Read { wait, purpose }, reply),
                purpose,
                s.p300_turn(after, purpose, step),
            )
        }),
{
    let completion = purpose is Completion;
    let more = heard_by(PhaseModel::P300Read { wait, purpose }, reply);
    lemma_undecided_poll(wait, h, more, completion);
    if let ReplyModel::Received { count, buffer } = reply {
        if count == 0 {
            assert(buffer.take(0) =~= Seq::empty());
        }
    }
    if more.len() == 0 {
        assert(more =~= Seq::empty());
        assert(h + more =~= h);
        assert(wait.pending + more =~= wait.pending);
    }
}

proof fn lemma_p300_start(s: SessionModel, timeout: u64, purpose: ReportUse, now: u64)
    requires
        s.profile.dialect == Dialect::P300Bt,
    ensures
        p300_stands(s.status, Seq::empty(), purpose, s.p300_begin(timeout, purpose, now)),
{
    assert(reports(Seq::empty()) =~= Seq::empty());
    assert(leftover(Seq::empty()) =~= Seq::empty());
}

proof fn lemma_p300_step(
    s: SessionModel,
    step: StepModel,
    purpose: ReportUse,
    before: Option<PrinterStatus>,
    h: Seq<u8>,
    reply: ReplyModel,
    now: u64,
)
    requires
        p300_stands(before, h, purpose, (s, step)),
        step is Do,
    ensures
        p300_stands(
            before,
            h + heard_by(step->phase, reply),
            purpose,
            s.resumed(step->phase, reply, now),
        ),
{
    let phase = step->phase;
    let more = heard_by(phase, reply);
    match phase {
        PhaseModel::P300Read { wait, purpose: p } => {
            lemma_p300_read(s, wait, purpose, h, reply, now);
            assert(p300_stands(before, h + more, purpose, s.resumed(phase, reply, now)));
        },
        PhaseModel::P300Pause { wait, purpose: p } => {
            assert(h + more =~= h);
            lemma_undecided_poll(wait, h, Seq::empty(), purpose is Completion);
            assert(wait.pending + Seq::<u8>::empty() =~= wait.pending);
            assert(h + Seq::<u8>::empty() =~= h);
        },
        PhaseModel::Request { goal } => {
            assert(h + more =~= Seq::empty());
            lemma_p300_start(s, P300BT_QUERY_TIMEOUT, purpose, now);
            assert(reports(h + more) =~= Seq::empty());
        },
        PhaseModel::Job { rest, after } => {
            assert(h + more =~= Seq::empty());
            lemma_p300_start(s, P300BT_COMPLETION_TIMEOUT, purpose, now);
            assert(reports(h + more) =~= Seq::empty());
        },
        _ => {
            assert(h + more =~= h);
        },
    }
}

proof fn lemma_p300_run(
    s: SessionModel,
    step: StepModel,
    purpose: ReportUse,
    before: Option<PrinterStatus>,
    h: Seq<u8>,
    replies: Seq<(ReplyModel, u64)>,
)
    requires
        p300_stands(before, h, purpose, (s, step)),
    ensures
        p300_stands(before, h + heard(s, step, replies), purpose, run(s, step, replies)),
    decreases replies.len(),
{
    let ended = match step {
        StepModel::Done(r) => true,
        _ => replies.len() == 0,
    };
    if ended {
        assert(h + heard(s, step, replies) =~= h);
    } else {
        let phase = step->phase;
        let (s1, step1) = s.resumed(phase, replies[0].0, replies[0].1);
        let more = heard_by(phase, replies[0].0);
        lemma_p300_step(s, step, purpose, before, h, replies[0].0, replies[0].1);
        lemma_p300_run(s1, step1, purpose, before, h + more, replies.drop_first());
        assert(h + heard(s, step, replies) =~= h + more + heard(s1, step1, replies.drop_first()));
    }
}

/// A status exchange with a PT-P300BT goes by the verdict on the bytes that
/// arrived, in however many pieces: it succeeds as soon as there is a report that
/// answers the query, behind any that are skipped, and not otherwise, and an
/// error that comes first fails it with that error. An initialization goes by the
/// verdict as well, though with the report it can still fail on the command behind
/// it. Without such a report the last one stays.
pub proof fn law_p300bt_status_is_first_answer(
    s: SessionModel,
    now: u64,
    replies: Seq<(ReplyModel, u64)>,
)
    requires
        s.profile.dialect == Dialect::P300Bt,
    ensures
        ({
            let step = requesting(Goal::Report);
            let (after, last) = run(s, step, replies);
            match verdict(reports(heard(s, step, replies)), false) {
                Some(Ok(status)) => last.is_success() && after.status == Some(status),
                Some(Err(e)) => last == failed(e),
                None => !last.is_success(),
            }
        }),
        ({
            let step = query_step(s, now);
            let (after, last) = run(s, step, replies);
            match verdict(reports(heard(s, step, replies)), false) {
                Some(Ok(status)) => last.is_success() && after.status == Some(status),
                Some(Err(e)) => last == failed(e),
                None => !last.is_success(),
            }
        }),
        ({
            let step = init_step(s, now);
            let (after, last) = run(s, step, replies);
            match verdict(reports(heard(s, step, replies)), false) {
                Some(Ok(status)) => after.status == Some(status),
                Some(Err(e)) => last == failed(e) && after.status == s.status,
                None => !last.is_success() && after.status == s.status,
            }
        }),
{
    let none = Seq::<u8>::empty();
    assert(reports(none) =~= Seq::empty());
    let report = ReportUse::Status(Goal::Report);
    lemma_p300_run(s, requesting(Goal::Report), report, s.status, none, replies);
    lemma_p300_run(s, query_step(s, now), report, s.status, none, replies);
    let init = ReportUse::Status(Goal::Init);
    lemma_p300_run(s, init_step(s, now), init, s.status, none, replies);
    assert(none + heard(s, requesting(Goal::Report), replies) =~= heard(
        s,
        requesting(Goal::Report),
        replies,
    ));
    assert(none + heard(s, query_step(s, now), replies) =~= heard(s, query_step(s, now), replies));
    assert(none + heard(s, init_step(s, now), replies) =~= heard(s, init_step(s, now), replies));
    lemma_no_verdict_while_under_way(s, requesting(Goal::Report), report, replies);
    lemma_no_verdict_while_under_way(s, query_step(s, now), report, replies);
}

/// A label on a PT-P300BT succeeds only on the report of its completion, and
/// always once that is the verdict on the bytes that have arrived. Phase
/// changes alone never complete it; an error or a power-off that comes first
/// fails it with that error.
pub proof fn law_p300bt_label_ends_with_its_verdict(
    s: SessionModel,
    lines: Seq<Seq<u8>>,
    chain_print: bool,
    precut: bool,
    quality: PrintQuality,
    now: u64,
    replies: Seq<(ReplyModel, u64)>,
)
    requires
        s.profile.dialect == Dialect::P300Bt,
        s.label(lines, chain_print, precut, quality) is Ok,
    ensures
        ({
            let (s1, step) = s.printing(lines, chain_print, precut, quality, now);
            let (after, last) = run(s1, step, replies);
            match verdict(reports(heard(s1, step, replies)), true) {
                Some(Ok(status)) => last.is_success() && after.status == Some(status),
                Some(Err(e)) => last == failed(e),
                None => !last.is_success(),
            }
        }),
{
    let (s1, step) = s.printing(lines, chain_print, precut, quality, now);
    let job = s.label(lines, chain_print, precut, quality)->Ok_0;
    let none = Seq::<u8>::empty();
    assert(job.len() > 0);
    assert(reports(none) =~= Seq::empty());
    assert(p300_stands(s.status, none, ReportUse::Completion, (s1, step)));
    lemma_p300_run(s1, step, ReportUse::Completion, s.status, none, replies);
    assert(none + heard(s1, step, replies) =~= heard(s1, step, replies));
    lemma_no_verdict_while_under_way(s1, step, ReportUse::Completion, replies);
}

/// While a report of a PT-P300BT is awaited there is no verdict.
proof fn lemma_no_verdict_while_under_way(
    s: SessionModel,
    step: StepModel,
    purpose: ReportUse,
    replies: Seq<(ReplyModel, u64)>,
)
    requires
        p300_stands(s.status, Seq::empty(), purpose, (s, step)),
        purpose != ReportUse::Status(Goal::Init),
    ensures
        run(s, step, replies).1 is Do ==> verdict(
            reports(heard(s, step, replies)),
            purpose is Completion,
        ) is None,
{
    let none = Seq::<u8>::empty();
    lemma_p300_run(s, step, purpose, s.status, none, replies);
    let h = heard(s, step, replies);
    assert(none + h =~= h);
    if run(s, step, replies).1 is Do {
        if h.len() == 0 {
            assert(reports(h) =~= Seq::empty());
        }
    }
}

// ---------------------------------------------------------------------
// The receiving phase on the USB bus
// ---------------------------------------------------------------------

spec fn page_stands(h: Seq<u8>, before: Option<PrinterStatus>, turn: (SessionModel, StepModel)) -> bool {
    let (s, step) = turn;
    match step {
        StepModel::Done(Ok(u)) => match page_verdict(reports(h)) {
            Some(Ok(status)) => s.status == Some(status),
            Some(Err(e)) => false,
            None => s.status == before,
        },
        StepModel::Done(Err(e)) => s.status == before && match page_verdict(reports(h)) {
            Some(Ok(status)) => false,
            Some(Err(fault)) => fault == e,
            None => true,
        },
        StepModel::Do { phase, action } => s.status == before && page_verdict(reports(h)) is None
            && match phase {
            PhaseModel::Job { rest, after } => h.len() == 0 && after == AfterJob::Ready,
            PhaseModel::ReadyPause { watch } => watch.wf() && watch.pending == leftover(h),
            PhaseModel::ReadyRead { watch } => watch.wf() && watch.pending == leftover(h),
            _ => false,
        },
    }
}

proof fn lemma_single_report(p: Seq<u8>)
    requires
        STATUS_PACKET_SIZE <= p.len() < 2 * STATUS_PACKET_SIZE,
    ensures
        reports(p) == seq![p.take(STATUS_PACKET_SIZE as int)],
        leftover(p) == p.skip(STATUS_PACKET_SIZE as int),
{
    let rest = p.skip(STATUS_PACKET_SIZE as int);
    assert(reports(rest) =~= Seq::empty());
    assert(leftover(rest) == rest);
    assert(reports(p) =~= seq![p.take(STATUS_PACKET_SIZE as int)]);
}

proof fn lemma_page_read(
    s: SessionModel,
    watch: PrintWaitModel,
    h: Seq<u8>,
    reply: ReplyModel,
    now: u64,
)
    requires
        watch.wf(),
        watch.pending == leftover(h),
        page_verdict(reports(h)) is None,
        answers_receive(reply, STATUS_PACKET_SIZE),
    ensures
        ({
            let (after, step) = watch.absorb(reply, now);
            page_stands(
                h + heard_by(PhaseModel::ReadyRead { watch }, reply),
                s.status,
                s.ready_turn(after, step),
            )
        }),
{
    let more = heard_by(PhaseModel::ReadyRead { watch }, reply);
    if let ReplyModel::Received { count, buffer } = reply {
        if count == 0 {
            assert(buffer.take(0) =~= Seq::empty());
        }
    }
    if more.len() == 0 {
        assert(h + more =~= h);
    } else {
        let p = watch.pending + more;
        law_page_verdict_survives_fragmentation(h, more);
        law_reports_survive_fragmentation(h, more);
        if p.len() < STATUS_PACKET_SIZE {
            assert(reports(p) =~= Seq::empty());
        } else {
            lemma_single_report(p);
            assert(reports(p).drop_first() =~= Seq::empty());
            assert(page_verdict(reports(p).drop_first()) is None);
        }
    }
}

proof fn lemma_page_step(
    s: SessionModel,
    step: StepModel,
    h: Seq<u8>,
    reply: ReplyModel,
    now: u64,
)
    requires
        page_stands(h, s.status, (s, step)),
        step is Do,
        step->phase.accepts(reply),
    ensures
        page_stands(
            h + heard_by(step->phase, reply),
            s.status,
            s.resumed(step->phase, reply, now),
        ),
{
    let phase = step->phase;
    let more = heard_by(phase, reply);
    match phase {
        PhaseModel::ReadyRead { watch } => {
            lemma_page_read(s, watch, h, reply, now);
            assert(page_stands(h + more, s.status, s.resumed(phase, reply, now)));
        },
        PhaseModel::ReadyPause { watch } => {
            assert(h + more =~= h);
        },
        PhaseModel::Job { rest, after } => {
            assert(h + more =~= h);
            assert(leftover(h) =~= Seq::empty());
        },
        _ => {},
    }
}

proof fn lemma_page_run(
    s: SessionModel,
    step: StepModel,
    h: Seq<u8>,
    replies: Seq<(ReplyModel, u64)>,
)
    requires
        page_stands(h, s.status, (s, step)),
        answered(s, step, replies),
    ensures
        page_stands(h + heard(s, step, replies), s.status, run(s, step, replies)),
    decreases replies.len(),
{
    let ended = match step {
        StepModel::Done(r) => true,
        _ => replies.len() == 0,
    };
    if ended {
        assert(h + heard(s, step, replies) =~= h);
    } else {
        let phase = step->phase;
        let (s1, step1) = s.resumed(phase, replies[0].0, replies[0].1);
        let more = heard_by(phase, replies[0].0);
        lemma_page_step(s, step, h, replies[0].0, replies[0].1);
        if step1 is Do {
            lemma_page_run(s1, step1, h + more, replies.drop_first());
        } else {
            assert(h + more + heard(s1, step1, replies.drop_first()) =~= h + more);
            assert(run(s1, step1, replies.drop_first()) == (s1, step1));
        }
        assert(h + heard(s, step, replies) =~= h + more + heard(s1, step1, replies.drop_first()));
    }
}

/// On a printer that announces its receiving phase, a label ends with the
/// first report of that phase, an error or a power-off that comes first fails
/// it with that error, and reports of other kinds, printing having completed
/// among them, are skipped, in however many pieces the bytes arrived. Without a
/// verdict a label can only end on silence, which is no failure, or on a failed
/// transfer, and the last report stays what it was.
pub proof fn law_label_ends_with_receiving_phase(
    s: SessionModel,
    lines: Seq<Seq<u8>>,
    chain_print: bool,
    precut: bool,
    quality: PrintQuality,
    now: u64,
    replies: Seq<(ReplyModel, u64)>,
)
    requires
        s.after_label() == AfterJob::Ready,
        s.label(lines, chain_print, precut, quality) is Ok,
        ({
            let (s1, step) = s.printing(lines, chain_print, precut, quality, now);
            answered(s1, step, replies)
        }),
    ensures
        ({
            let (s1, step) = s.printing(lines, chain_print, precut, quality, now);
            let (after, last) = run(s1, step, replies);
            match page_verdict(reports(heard(s1, step, replies))) {
                Some(Ok(status)) => last.is_success() && after.status == Some(status),
                Some(Err(e)) => last == failed(e) && after.status == s.status,
                None => after.status == s.status,
            }
        }),
{
    let (s1, step) = s.printing(lines, chain_print, precut, quality, now);
    let job = s.label(lines, chain_print, precut, quality)->Ok_0;
    let none = Seq::<u8>::empty();
    assert(job.len() > 0);
    assert(reports(none) =~= Seq::empty());
    lemma_page_run(s1, step, none, replies);
    assert(none + heard(s1, step, replies) =~= heard(s1, step, replies));
}

// ---------------------------------------------------------------------
// A second label
// ---------------------------------------------------------------------

proof fn lemma_verdict_is_completion(frames: Seq<Seq<u8>>)
    ensures
        verdict(frames, true) matches Some(Ok(status)) ==> !status.faulty() && status.status_type
            == 1,
    decreases frames.len(),
{
    if frames.len() > 0 {
        lemma_verdict_is_completion(frames.drop_first());
    }
}

/// Whether a PT-P300BT takes no label: it is not initialized, or its last report
/// is not that of an idle printer.
spec fn spent(s: SessionModel) -> bool {
    &&& s.profile.dialect == Dialect::P300Bt
    &&& s.initialized ==> match s.status {
        Some(status) => !idle(status),
        None => true,
    }
}

proof fn lemma_spent(s: SessionModel, calls: Seq<Call>)
    requires
        spent(s),
        forall|i: int| 0 <= i < calls.len() ==> !(#[trigger] calls[i]).asks_status(),
    ensures
        after_calls(s, calls) == s,
        forall|i: int|
            0 <= i < calls.len() ==> {
                &&& (#[trigger] calls[i]).commands(s) == Seq::<Seq<u8>>::empty()
                &&& calls[i].result(s).0 == s
                &&& calls[i].result(s).1.is_failure()
            },
    decreases calls.len(),
{
    assert forall|i: int| 0 <= i < calls.len() implies {
        &&& (#[trigger] calls[i]).commands(s) == Seq::<Seq<u8>>::empty()
        &&& calls[i].result(s).0 == s
        &&& calls[i].result(s).1.is_failure()
    } by {
        assert(!calls[i].asks_status());
        match calls[i] {
            Call::PrintRaster { lines, chain_print, precut, quality, now, replies } => {
                assert(s.label(lines, chain_print, precut, quality) is Err);
                law_label(s, lines, chain_print, precut, quality, now, replies);
            },
            Call::FeedAndCut { now, replies } => law_feed(s, now, replies),
            _ => {},
        }
    }
    if calls.len() > 0 {
        let rest = calls.drop_first();
        assert forall|i: int| 0 <= i < rest.len() implies !(#[trigger] rest[i]).asks_status() by {
            assert(rest[i] == calls[i + 1]);
        }
        assert(calls[0].result(s).0 == s);
        lemma_spent(s, rest);
    }
}

/// Once a label of a PT-P300BT has come to its end, printed or failed, every
/// further label is refused and sends nothing, until the status is queried
/// again.
pub proof fn law_second_p300bt_label_needs_query(
    s: SessionModel,
    lines: Seq<Seq<u8>>,
    chain_print: bool,
    precut: bool,
    quality: PrintQuality,
    now: u64,
    replies: Seq<(ReplyModel, u64)>,
    calls: Seq<Call>,
)
    requires
        s.profile.dialect == Dialect::P300Bt,
        s.label(lines, chain_print, precut, quality) is Ok,
        ({
            let (s1, step) = s.printing(lines, chain_print, precut, quality, now);
            run(s1, step, replies).1 is Done
        }),
        forall|i: int| 0 <= i < calls.len() ==> !(#[trigger] calls[i]).asks_status(),
    ensures
        ({
            let (s1, step) = s.printing(lines, chain_print, precut, quality, now);
            let after = run(s1, step, replies).0;
            &&& after_calls(after, calls) == after
            &&& forall|i: int|
                0 <= i < calls.len() ==> {
                    &&& (#[trigger] calls[i]).commands(after) == Seq::<Seq<u8>>::empty()
                    &&& calls[i].result(after).1.is_failure()
                }
        }),
{
    let (s1, step) = s.printing(lines, chain_print, precut, quality, now);
    let (after, last) = run(s1, step, replies);
    law_label(s, lines, chain_print, precut, quality, now, replies);
    law_p300bt_label_ends_with_its_verdict(
        s,
        lines,
        chain_print,
        precut,
        quality,
        now,
        replies,
    );
    lemma_verdict_is_completion(reports(heard(s1, step, replies)));
    assert(spent(after));
    lemma_spent(after, calls);
}

// ---------------------------------------------------------------------
// When a status is known
// ---------------------------------------------------------------------

/// Whether the bytes hold a good answer to a status query: on the USB bus they
/// begin with a report that has a valid header, and with a PT-P300BT the verdict
/// on them is a report.
pub open spec fn good_answer(dialect: Dialect, bytes: Seq<u8>) -> bool {
    match dialect {
        Dialect::Usb => begins_with_report(bytes),
        Dialect::P300Bt => verdict(reports(bytes), false) matches Some(Ok(status)),
    }
}

/// Whether a call queries the status and hears a good answer.
pub open spec fn hears_answer(s: SessionModel, call: Call) -> bool {
    let (s1, step) = call.start(s);
    &&& call.asks_status()
    &&& good_answer(s.profile.dialect, heard(s1, step, call.replies()))
}

proof fn lemma_call_makes_status_known(s: SessionModel, call: Call)
    requires
        grounded(s),
    ensures
        call.result(s).0.status is Some == (s.status is Some || hears_answer(s, call)),
{
    match call {
        Call::Init { now, replies } => {
            if s.profile.dialect == Dialect::Usb {
                law_usb_status_is_first_report(s, now, replies);
            } else {
                law_p300bt_status_is_first_answer(s, now, replies);
            }
        },
        Call::QueryStatus { now, replies } => {
            law_query(s, now, replies);
            if s.profile.dialect == Dialect::Usb {
                law_usb_status_is_first_report(s, now, replies);
            } else {
                law_p300bt_status_is_first_answer(s, now, replies);
            }
        },
        Call::GetStatus { replies } => {
            law_query(s, 0, replies);
            if s.profile.dialect == Dialect::Usb {
                law_usb_status_is_first_report(s, 0, replies);
            } else {
                law_p300bt_status_is_first_answer(s, 0, replies);
            }
        },
        Call::PrintRaster { lines, chain_print, precut, quality, now, replies } => {
            lemma_call(s, call);
            law_label(s, lines, chain_print, precut, quality, now, replies);
        },
        Call::FeedAndCut { now, replies } => {
            lemma_call(s, call);
            law_feed(s, now, replies);
        },
    }
}

/// Whether some call of a sequence queries the status and hears a good answer.
pub open spec fn some_answer(s: SessionModel, calls: Seq<Call>) -> bool {
    exists|i: int|
        0 <= i < calls.len() && hears_answer(after_calls(s, calls.take(i)), #[trigger] calls[i])
}

proof fn lemma_some_answer(s: SessionModel, calls: Seq<Call>)
    requires
        calls.len() > 0,
    ensures
        some_answer(s, calls) == (hears_answer(s, calls[0]) || some_answer(
            calls[0].result(s).0,
            calls.drop_first(),
        )),
{
    let s1 = calls[0].result(s).0;
    let rest = calls.drop_first();
    assert(calls.take(0) =~= Seq::empty());
    assert(after_calls(s, calls.take(0)) == s);
    assert forall|i: int| 0 <= i < rest.len() implies after_calls(s, calls.take(i + 1))
        == after_calls(s1, #[trigger] rest.take(i)) by {
        assert(calls.take(i + 1).drop_first() =~= rest.take(i));
        assert(calls.take(i + 1)[0] == calls[0]);
    }
    if some_answer(s, calls) {
        let i = choose|i: int|
            0 <= i < calls.len() && hears_answer(
                after_calls(s, calls.take(i)),
                #[trigger] calls[i],
            );
        if i > 0 {
            assert(rest[i - 1] == calls[i]);
            assert(after_calls(s, calls.take(i - 1 + 1)) == after_calls(s1, rest.take(i - 1)));
        }
    }
    if some_answer(s1, rest) {
        let i = choose|i: int|
            0 <= i < rest.len() && hears_answer(after_calls(s1, rest.take(i)), #[trigger] rest[i]);
        assert(calls[i + 1] == rest[i]);
        assert(after_calls(s, calls.take(i + 1)) == after_calls(s1, rest.take(i)));
    }
}

proof fn lemma_status_known(s: SessionModel, calls: Seq<Call>)
    requires
        grounded(s),
    ensures
        after_calls(s, calls).status is Some == (s.status is Some || some_answer(s, calls)),
    decreases calls.len(),
{
    if calls.len() > 0 {
        lemma_call(s, calls[0]);
        lemma_call_makes_status_known(s, calls[0]);
        lemma_status_known(calls[0].result(s).0, calls.drop_first());
        lemma_some_answer(s, calls);
    }
}

/// A status is known exactly if some initialization or status query before has
/// heard a good answer, whatever else was called and whatever the transport
/// replied. Nothing else makes it known.
pub proof fn law_status_is_known_from_answer(profile: ModelProfile, calls: Seq<Call>)
    ensures
        after_calls(fresh_session(profile), calls).status is Some == some_answer(
            fresh_session(profile),
            calls,
        ),
{
    lemma_status_known(fresh_session(profile), calls);
}

// ---------------------------------------------------------------------
// The end of labels and feeds
// ---------------------------------------------------------------------

/// Whether a reply shows that the printer is there: it took a command, or sent
/// bytes.
pub open spec fn shows_life(reply: ReplyModel) -> bool {
    match reply {
        ReplyModel::Sent => true,
        ReplyModel::Received { count, buffer } => count > 0,
        _ => false,
    }
}

/// When the printer last showed that it is there, or `since` if it has not.
pub open spec fn last_sign(replies: Seq<(ReplyModel, u64)>, since: u64) -> u64
    decreases replies.len(),
{
    if replies.len() == 0 {
        since
    } else if shows_life(replies.last().0) {
        replies.last().1
    } else {
        last_sign(replies.drop_last(), since)
    }
}

/// Whether an operation that waits for the receiving phase, started from `s`,
/// stands as it should after the replies: it ends with the verdict on the bytes
/// heard, and without one only on a failed transfer, on an impossible read, or
/// successfully once the printer has shown no sign of life for half a minute.
pub open spec fn awaits_receiving_phase(
    s: SessionModel,
    turn: (SessionModel, StepModel),
    replies: Seq<(ReplyModel, u64)>,
    now: u64,
) -> bool {
    let (s1, step) = turn;
    let (after, last) = run(s1, step, replies);
    match page_verdict(reports(heard(s1, step, replies))) {
        Some(Ok(status)) => last.is_success() && after.status == Some(status),
        Some(Err(e)) => last == failed(e) && after.status == s.status,
        None => {
            &&& after.status == s.status
            &&& last is Done && lasts(s1, step, replies) ==> replies.len() > 0 && ends_on(
                last,
                phase_before(s1, step, replies),
                replies.last().0,
                last_sign(replies, now),
                replies.last().1,
            )
            &&& last matches StepModel::Do { phase: PhaseModel::ReadyRead { watch }, action }
                ==> replies.len() > 0 && elapsed(last_sign(replies, now), replies.last().1)
                <= 30_000_000_000
        },
    }
}

/// The phase that was left on the last reply.
pub open spec fn phase_before(
    s: SessionModel,
    step: StepModel,
    replies: Seq<(ReplyModel, u64)>,
) -> PhaseModel {
    run(s, step, replies.drop_last()).1->phase
}

/// How an operation may end on a reply without a verdict. That nothing has
/// arrived in time for one read is no reason.
pub open spec fn ends_on(
    last: StepModel,
    phase: PhaseModel,
    reply: ReplyModel,
    since: u64,
    now: u64,
) -> bool {
    ||| last.is_success() && elapsed(since, now) > 30_000_000_000
    ||| reply matches ReplyModel::Failed(e) && last == failed(e) && (e is Timeout ==> !(
    phase is ReadyRead))
    ||| reply matches ReplyModel::Received { count, buffer } && count > 32 && last.is_failure()
}

proof fn lemma_phase_before(
    s: SessionModel,
    step: StepModel,
    replies: Seq<(ReplyModel, u64)>,
)
    requires
        step is Do,
        replies.len() > 0,
    ensures
        replies.len() == 1 ==> phase_before(s, step, replies) == step->phase,
        replies.len() > 1 ==> {
            let (s1, step1) = s.resumed(step->phase, replies[0].0, replies[0].1);
            phase_before(s, step, replies) == phase_before(s1, step1, replies.drop_first())
        },
{
    let shorter = replies.drop_last();
    if replies.len() > 1 {
        assert(shorter.drop_first() =~= replies.drop_first().drop_last());
        assert(shorter[0] == replies[0]);
    }
}

spec fn quiet(step: StepModel, since: u64) -> bool {
    match step {
        StepModel::Do { phase: PhaseModel::ReadyPause { watch }, action } => watch.idle_timeout
            == 30_000_000_000 && watch.last_transfer == since,
        StepModel::Do { phase: PhaseModel::ReadyRead { watch }, action } => watch.idle_timeout
            == 30_000_000_000 && watch.last_transfer == since,
        _ => true,
    }
}

proof fn lemma_settle_step(
    s: SessionModel,
    step: StepModel,
    h: Seq<u8>,
    since: u64,
    reply: ReplyModel,
    now: u64,
)
    requires
        page_stands(h, s.status, (s, step)),
        quiet(step, since),
        step is Do,
        step->phase.accepts(reply),
    ensures
        ({
            let step1 = s.resumed(step->phase, reply, now).1;
            let sign = if shows_life(reply) {
                now
            } else {
                since
            };
            &&& quiet(step1, sign)
            &&& step1 is Done && page_verdict(reports(h + heard_by(step->phase, reply))) is None
                ==> ends_on(step1, step->phase, reply, sign, now)
            &&& step1 matches StepModel::Do { phase: PhaseModel::ReadyRead { watch }, action }
                ==> elapsed(sign, now) <= 30_000_000_000
        }),
{
    let phase = step->phase;
    let more = heard_by(phase, reply);
    match phase {
        PhaseModel::ReadyRead { watch } => {
            if let ReplyModel::Received { count, buffer } = reply {
                if count == 0 {
                    assert(buffer.take(0) =~= Seq::empty());
                } else if count <= STATUS_PACKET_SIZE {
                    let p = watch.pending + more;
                    law_page_verdict_survives_fragmentation(h, more);
                    if p.len() < STATUS_PACKET_SIZE {
                        assert(reports(p) =~= Seq::empty());
                    } else {
                        lemma_single_report(p);
                        assert(reports(p)[0] == p.take(STATUS_PACKET_SIZE as int));
                        assert(reports(p).drop_first() =~= Seq::empty());
                    }
                }
            }
        },
        _ => {},
    }
}

proof fn lemma_last_sign(replies: Seq<(ReplyModel, u64)>, since: u64)
    requires
        replies.len() > 0,
    ensures
        last_sign(replies, since) == last_sign(
            replies.drop_first(),
            if shows_life(replies[0].0) {
                replies[0].1
            } else {
                since
            },
        ),
    decreases replies.len(),
{
    let rest = replies.drop_first();
    if replies.len() == 1 {
        assert(replies.last() == replies[0]);
        assert(last_sign(replies.drop_last(), since) == since);
        let sign = if shows_life(replies[0].0) {
            replies[0].1
        } else {
            since
        };
        assert(last_sign(rest, sign) == sign);
    } else {
        assert(rest.last() == replies.last());
        assert(replies.drop_last().drop_first() =~= rest.drop_last());
        assert(replies.drop_last()[0] == replies[0]);
        lemma_last_sign(replies.drop_last(), since);
    }
}

proof fn lemma_settle_run(
    s: SessionModel,
    step: StepModel,
    h: Seq<u8>,
    since: u64,
    replies: Seq<(ReplyModel, u64)>,
)
    requires
        page_stands(h, s.status, (s, step)),
        quiet(step, since),
        step is Do,
        answered(s, step, replies),
        lasts(s, step, replies),
    ensures
        ({
            let last = run(s, step, replies).1;
            last is Done && page_verdict(reports(h + heard(s, step, replies))) is None ==> {
                &&& replies.len() > 0
                &&& ends_on(
                    last,
                    phase_before(s, step, replies),
                    replies.last().0,
                    last_sign(replies, since),
                    replies.last().1,
                )
            }
        }),
        ({
            let last = run(s, step, replies).1;
            last matches StepModel::Do { phase: PhaseModel::ReadyRead { watch }, action }
                && replies.len() > 0 ==> elapsed(last_sign(replies, since), replies.last().1)
                <= 30_000_000_000
        }),
    decreases replies.len(),
{
    if replies.len() > 0 {
        let phase = step->phase;
        let (reply, now) = replies[0];
        let (s1, step1) = s.resumed(phase, reply, now);
        let more = heard_by(phase, reply);
        let rest = replies.drop_first();
        let sign = if shows_life(reply) {
            now
        } else {
            since
        };
        lemma_page_step(s, step, h, reply, now);
        lemma_settle_step(s, step, h, since, reply, now);
        lemma_last_sign(replies, since);
        lemma_phase_before(s, step, replies);
        assert(h + heard(s, step, replies) =~= h + more + heard(s1, step1, rest));
        if step1 is Do {
            lemma_settle_run(s1, step1, h + more, sign, rest);
            if rest.len() > 0 {
                assert(rest.last() == replies.last());
            } else {
                assert(replies.last() == replies[0]);
                assert(last_sign(rest, sign) == sign);
                assert(run(s1, step1, rest) == (s1, step1));
            }
        } else {
            assert(lasts(s1, step1, rest));
            assert(rest.len() == 0);
            assert(heard(s1, step1, rest) =~= Seq::empty());
            assert(h + more + heard(s1, step1, rest) =~= h + more);
            assert(replies.last() == replies[0]);
        }
    }
}

/// A run that has not ended was not over before its last reply.
proof fn lemma_under_way(s: SessionModel, step: StepModel, replies: Seq<(ReplyModel, u64)>)
    ensures
        run(s, step, replies).1 is Do ==> lasts(s, step, replies),
    decreases replies.len(),
{
    if step is Do && replies.len() > 0 {
        let (s1, step1) = s.resumed(step->phase, replies[0].0, replies[0].1);
        lemma_under_way(s1, step1, replies.drop_first());
    }
}

proof fn lemma_awaits(
    s: SessionModel,
    turn: (SessionModel, StepModel),
    replies: Seq<(ReplyModel, u64)>,
    now: u64,
)
    requires
        turn.0 == s,
        turn.1 matches StepModel::Do { phase: PhaseModel::Job { rest, after }, action } && after
            == AfterJob::Ready,
        answered(turn.0, turn.1, replies),
    ensures
        awaits_receiving_phase(s, turn, replies, now),
{
    let (s1, step) = turn;
    let none = Seq::<u8>::empty();
    assert(reports(none) =~= Seq::empty());
    lemma_page_run(s1, step, none, replies);
    assert(none + heard(s1, step, replies) =~= heard(s1, step, replies));
    lemma_under_way(s1, step, replies);
    if lasts(s1, step, replies) {
        lemma_settle_run(s1, step, none, now, replies);
    }
}

/// On a USB printer that announces its receiving phase, a label and a feed end
/// alike: with the first report of the receiving phase they succeed, and that
/// report is the status; a report of an error or a power-off that comes first
/// fails them with that error; and before either they are not over unless a
/// transfer fails or the printer shows no sign of life for half a minute.
pub proof fn law_labels_and_feeds_await_receiving_phase(
    s: SessionModel,
    lines: Seq<Seq<u8>>,
    chain_print: bool,
    precut: bool,
    quality: PrintQuality,
    now: u64,
    replies: Seq<(ReplyModel, u64)>,
)
    requires
        s.profile.dialect == Dialect::Usb,
        s.profile.flags.bits & DeviceFlags::WAIT_FOR_RECEIVE_READY
            == DeviceFlags::WAIT_FOR_RECEIVE_READY,
        s.initialized,
    ensures
        ({
            let turn = s.feeding(now);
            answered(turn.0, turn.1, replies) ==> awaits_receiving_phase(s, turn, replies, now)
        }),
        ({
            let turn = s.printing(lines, chain_print, precut, quality, now);
            answered(turn.0, turn.1, replies) && (quality == PrintQuality::Standard
                || s.profile.flags.bits & DeviceFlags::LEGACY_HIRES == DeviceFlags::LEGACY_HIRES)
                ==> awaits_receiving_phase(s, turn, replies, now)
        }),
{
    let turn = s.feeding(now);
    assert(s.feed_job().len() > 0);
    if answered(turn.0, turn.1, replies) {
        lemma_awaits(s, turn, replies, now);
    }
    if quality == PrintQuality::Standard || s.profile.flags.has(DeviceFlags::LEGACY_HIRES) {
        let turn = s.printing(lines, chain_print, precut, quality, now);
        assert(s.label(lines, chain_print, precut, quality)->Ok_0.len() > 0);
        if answered(turn.0, turn.1, replies) {
            lemma_awaits(s, turn, replies, now);
        }
    }
}

/// The session and the step once all commands of a job are sent.
proof fn lemma_job_sent(
    s: SessionModel,
    rest: Seq<Seq<u8>>,
    after: AfterJob,
    now: u64,
    replies: Seq<(ReplyModel, u64)>,
)
    requires
        replies.len() >= rest.len(),
        forall|i: int| 0 <= i < rest.len() ==> (#[trigger] replies[i]).0 is Sent,
    ensures
        ({
            let turn = s.dispatching(rest, after, now);
            let sent_at = if rest.len() == 0 {
                now
            } else {
                replies[rest.len() - 1].1
            };
            let ready = s.job_sent(after, sent_at);
            run(turn.0, turn.1, replies) == run(
                ready.0,
                ready.1,
                replies.skip(rest.len() as int),
            )
        }),
    decreases rest.len(),
{
    if rest.len() == 0 {
        assert(replies.skip(0) =~= replies);
    } else {
        let later = replies.drop_first();
        assert(replies[0].0 is Sent);
        assert forall|i: int| 0 <= i < rest.len() - 1 implies (#[trigger] later[i]).0 is Sent by {
            assert(later[i] == replies[i + 1]);
        }
        lemma_job_sent(s, rest.drop_first(), after, replies[0].1, later);
        assert(later.skip(rest.len() - 1) =~= replies.skip(rest.len() as int));
        if rest.len() > 1 {
            assert(later[rest.len() - 2] == replies[rest.len() - 1]);
        }
    }
}

/// What the one report after a label comes to, on a USB printer without an
/// announced receiving phase: only a whole report counts, an error in it fails
/// the label, and silence does not.
pub open spec fn best_effort(
    s: SessionModel,
    reply: ReplyModel,
    turn: (SessionModel, StepModel),
) -> bool {
    let (after, last) = turn;
    match reply {
        ReplyModel::Received { count, buffer } => if count >= 32 {
            if buffer[8] != 0 || buffer[9] != 0 {
                after == s && last == failed(
                    ErrorModel::StatusError(decode(buffer).description()),
                )
            } else {
                last.is_success() && after == s.with_status(decode(buffer))
            }
        } else {
            last.is_success() && after == s
        },
        ReplyModel::Failed(e) => after == s && if e is Timeout {
            last.is_success()
        } else {
            last == failed(e)
        },
        _ => true,
    }
}

/// On a USB printer without an announced receiving phase, a feed is over as soon
/// as its commands are sent, without a read. A label then reads one report, for
/// at most five seconds, and goes by what comes of it.
pub proof fn law_plain_labels_and_feeds_end(
    s: SessionModel,
    lines: Seq<Seq<u8>>,
    chain_print: bool,
    precut: bool,
    quality: PrintQuality,
    now: u64,
    replies: Seq<(ReplyModel, u64)>,
    reply: (ReplyModel, u64),
)
    requires
        s.profile.dialect == Dialect::Usb,
        s.profile.flags.bits & DeviceFlags::WAIT_FOR_RECEIVE_READY
            != DeviceFlags::WAIT_FOR_RECEIVE_READY,
        s.initialized,
        forall|i: int| 0 <= i < replies.len() ==> (#[trigger] replies[i]).0 is Sent,
    ensures
        replies.len() == s.feed_job().len() ==> {
            let turn = s.feeding(now);
            run(turn.0, turn.1, replies).1.is_success() && run(turn.0, turn.1, replies).0 == s
        },
        ({
            let label = s.label(lines, chain_print, precut, quality);
            let turn = s.printing(lines, chain_print, precut, quality, now);
            label is Ok && replies.len() == label->Ok_0.len() ==> {
                &&& run(turn.0, turn.1, replies).0 == s
                &&& run(turn.0, turn.1, replies).1 matches StepModel::Do { phase, action }
                    && action == (ActionModel::Receive { capacity: 32, timeout: 5_000_000_000 })
                &&& best_effort(s, reply.0, run(turn.0, turn.1, replies.push(reply)))
            }
        }),
{
    if replies.len() == s.feed_job().len() {
        assert(s.feed_job().len() > 0);
        lemma_job_sent(s, s.feed_job(), AfterJob::Nothing, now, replies);
        assert(replies.skip(replies.len() as int) =~= Seq::empty());
    }
    let label = s.label(lines, chain_print, precut, quality);
    if label is Ok && replies.len() == label->Ok_0.len() {
        let job = label->Ok_0;
        let more = replies.push(reply);
        assert(job.len() > 0);
        lemma_job_sent(s, job, AfterJob::Completion, now, replies);
        assert(replies.skip(replies.len() as int) =~= Seq::empty());
        assert forall|i: int| 0 <= i < job.len() implies (#[trigger] more[i]).0 is Sent by {
            assert(more[i] == replies[i]);
        }
        lemma_job_sent(s, job, AfterJob::Completion, now, more);
        let tail = more.skip(job.len() as int);
        assert(tail =~= seq![reply]);
        assert(tail.drop_first() =~= Seq::empty());
        let waiting = s.job_sent(AfterJob::Completion, more[job.len() - 1].1);
        let (after, last) = s.resumed(PhaseModel::Completion, reply.0, reply.1);
        assert(run(after, last, tail.drop_first()) == (after, last));
        assert(run(waiting.0, waiting.1, tail) == (after, last));
    }
}

/// When the printer last took a command, or `since` if it has not.
pub open spec fn last_taken(replies: Seq<(ReplyModel, u64)>, since: u64) -> u64
    decreases replies.len(),
{
    if replies.len() == 0 {
        since
    } else if replies.last().0 is Sent {
        replies.last().1
    } else {
        last_taken(replies.drop_last(), since)
    }
}

/// Whether an operation of a PT-P300BT without a verdict on the bytes heard ends
/// as it should: not before a transfer fails, an impossible read comes back, or
/// `total` has passed since the last command was taken, which is a timeout. No
/// read is asked for beyond that.
pub open spec fn bounded_by(
    turn: (SessionModel, StepModel),
    replies: Seq<(ReplyModel, u64)>,
    now: u64,
    total: int,
    completion: bool,
) -> bool {
    let last = run(turn.0, turn.1, replies).1;
    let decision = verdict(reports(heard(turn.0, turn.1, replies)), completion);
    lasts(turn.0, turn.1, replies) ==> {
        &&& last is Done && decision is None ==> {
            &&& replies.len() > 0
            &&& overdue(
                last,
                phase_before(turn.0, turn.1, replies),
                replies.last().0,
                last_taken(replies, now),
                replies.last().1,
                total,
            )
        }
        &&& last matches StepModel::Do {
            phase: PhaseModel::P300Read { wait, purpose },
            action: ActionModel::Receive { capacity, timeout },
        } ==> replies.len() > 0 && elapsed(last_taken(replies, now), replies.last().1) + timeout
            <= total
        &&& last.is_failure() && (decision matches Some(r) && r is Ok) ==> {
            &&& replies.len() > 0
            &&& replies.last().0 matches ReplyModel::Failed(e) && last == failed(e)
        }
    }
}

/// How an operation of a PT-P300BT may end on a reply without a verdict.
pub open spec fn overdue(
    last: StepModel,
    phase: PhaseModel,
    reply: ReplyModel,
    since: u64,
    now: u64,
    total: int,
) -> bool {
    ||| last == failed(ErrorModel::Timeout) && elapsed(since, now) >= total
    ||| reply matches ReplyModel::Failed(e) && last == failed(e) && (e is Timeout ==> !(
    phase is P300Read))
    ||| reply matches ReplyModel::Received { count, buffer } && count > 128 && last.is_failure()
}

spec fn timed(step: StepModel, since: u64, total: int) -> bool {
    match step {
        StepModel::Do { phase: PhaseModel::P300Pause { wait, purpose }, action } => wait.start
            == since && wait.timeout == total,
        StepModel::Do { phase: PhaseModel::P300Read { wait, purpose }, action } => wait.start
            == since && wait.timeout == total,
        _ => true,
    }
}

spec fn total_of(purpose: ReportUse) -> int {
    if purpose is Completion {
        60_000_000_000
    } else {
        10_000_000_000
    }
}

proof fn lemma_timed_step(
    s: SessionModel,
    step: StepModel,
    purpose: ReportUse,
    before: Option<PrinterStatus>,
    h: Seq<u8>,
    since: u64,
    reply: ReplyModel,
    now: u64,
)
    requires
        p300_stands(before, h, purpose, (s, step)),
        timed(step, since, total_of(purpose)),
        step is Do,
        step->phase.accepts(reply),
    ensures
        ({
            let step1 = s.resumed(step->phase, reply, now).1;
            let taken = if reply is Sent {
                now
            } else {
                since
            };
            &&& timed(step1, taken, total_of(purpose))
            &&& step1 is Done && verdict(
                reports(h + heard_by(step->phase, reply)),
                purpose is Completion,
            ) is None ==> overdue(step1, step->phase, reply, taken, now, total_of(purpose))
            &&& step1 matches StepModel::Do {
                phase: PhaseModel::P300Read { wait, purpose: p },
                action: ActionModel::Receive { capacity, timeout },
            } ==> elapsed(taken, now) + timeout <= total_of(purpose)
            &&& step1.is_failure() && (verdict(
                reports(h + heard_by(step->phase, reply)),
                purpose is Completion,
            ) matches Some(r) && r is Ok) ==> {
                reply matches ReplyModel::Failed(e) && step1 == failed(e)
            }
        }),
{
    let phase = step->phase;
    let more = heard_by(phase, reply);
    let completion = purpose is Completion;
    match phase {
        PhaseModel::P300Read { wait, purpose: p } => {
            lemma_undecided_poll(wait, h, more, completion);
            if let ReplyModel::Received { count, buffer } = reply {
                if count == 0 {
                    assert(buffer.take(0) =~= Seq::empty());
                }
            }
            if more.len() == 0 {
                assert(more =~= Seq::empty());
                assert(wait.pending + more =~= wait.pending);
            }
        },
        PhaseModel::P300Pause { wait, purpose: p } => {
            lemma_undecided_poll(wait, h, Seq::empty(), completion);
            assert(wait.pending + Seq::<u8>::empty() =~= wait.pending);
            assert(h + Seq::<u8>::empty() =~= h);
            assert(h + more =~= h);
        },
        PhaseModel::Request { goal } => {
            assert(reports(Seq::empty()) =~= Seq::empty());
            assert(leftover(Seq::empty()) =~= Seq::empty());
        },
        PhaseModel::Job { rest, after } => {
            assert(reports(Seq::empty()) =~= Seq::empty());
            assert(leftover(Seq::empty()) =~= Seq::empty());
        },
        PhaseModel::Notify => {
            assert(h + more =~= h);
        },
        _ => {},
    }
}

proof fn lemma_last_taken(replies: Seq<(ReplyModel, u64)>, since: u64)
    requires
        replies.len() > 0,
    ensures
        last_taken(replies, since) == last_taken(
            replies.drop_first(),
            if replies[0].0 is Sent {
                replies[0].1
            } else {
                since
            },
        ),
    decreases replies.len(),
{
    let rest = replies.drop_first();
    if replies.len() == 1 {
        assert(replies.last() == replies[0]);
        assert(last_taken(replies.drop_last(), since) == since);
        let taken = if replies[0].0 is Sent {
            replies[0].1
        } else {
            since
        };
        assert(last_taken(rest, taken) == taken);
    } else {
        assert(rest.last() == replies.last());
        assert(replies.drop_last().drop_first() =~= rest.drop_last());
        assert(replies.drop_last()[0] == replies[0]);
        lemma_last_taken(replies.drop_last(), since);
    }
}

proof fn lemma_timed_run(
    s: SessionModel,
    step: StepModel,
    purpose: ReportUse,
    before: Option<PrinterStatus>,
    h: Seq<u8>,
    since: u64,
    replies: Seq<(ReplyModel, u64)>,
)
    requires
        p300_stands(before, h, purpose, (s, step)),
        timed(step, since, total_of(purpose)),
        step is Do,
        answered(s, step, replies),
        lasts(s, step, replies),
    ensures
        ({
            let last = run(s, step, replies).1;
            last is Done && verdict(
                reports(h + heard(s, step, replies)),
                purpose is Completion,
            ) is None ==> {
                &&& replies.len() > 0
                &&& overdue(
                    last,
                    phase_before(s, step, replies),
                    replies.last().0,
                    last_taken(replies, since),
                    replies.last().1,
                    total_of(purpose),
                )
            }
        }),
        ({
            let last = run(s, step, replies).1;
            replies.len() > 0 ==> (last matches StepModel::Do {
                phase: PhaseModel::P300Read { wait, purpose: p },
                action: ActionModel::Receive { capacity, timeout },
            } ==> elapsed(last_taken(replies, since), replies.last().1) + timeout <= total_of(
                purpose,
            ))
        }),
        ({
            let last = run(s, step, replies).1;
            last.is_failure() && (verdict(
                reports(h + heard(s, step, replies)),
                purpose is Completion,
            ) matches Some(r) && r is Ok) ==> {
                &&& replies.len() > 0
                &&& replies.last().0 matches ReplyModel::Failed(e) && last == failed(e)
            }
        }),
    decreases replies.len(),
{
    if replies.len() > 0 {
        let phase = step->phase;
        let (reply, now) = replies[0];
        let (s1, step1) = s.resumed(phase, reply, now);
        let more = heard_by(phase, reply);
        let rest = replies.drop_first();
        let taken = if reply is Sent {
            now
        } else {
            since
        };
        lemma_p300_step(s, step, purpose, before, h, reply, now);
        lemma_timed_step(s, step, purpose, before, h, since, reply, now);
        lemma_last_taken(replies, since);
        lemma_phase_before(s, step, replies);
        assert(h + heard(s, step, replies) =~= h + more + heard(s1, step1, rest));
        if step1 is Do {
            lemma_timed_run(s1, step1, purpose, before, h + more, taken, rest);
            if rest.len() > 0 {
                assert(rest.last() == replies.last());
            } else {
                assert(replies.last() == replies[0]);
                assert(last_taken(rest, taken) == taken);
                assert(run(s1, step1, rest) == (s1, step1));
            }
        } else {
            assert(lasts(s1, step1, rest));
            assert(rest.len() == 0);
            assert(heard(s1, step1, rest) =~= Seq::empty());
            assert(h + more + heard(s1, step1, rest) =~= h + more);
            assert(replies.last() == replies[0]);
        }
    }
}

/// A PT-P300BT is given ten seconds in all to answer a query, alone or in an
/// initialization, and a minute in all to complete a label, whatever else it
/// reports meanwhile. Neither is over before unless a report decides it or a
/// transfer fails, and running out of time is a failure. Once the awaited report
/// has come, only the last command of an initialization can still fail.
pub proof fn law_p300bt_is_given_its_time(
    s: SessionModel,
    lines: Seq<Seq<u8>>,
    chain_print: bool,
    precut: bool,
    quality: PrintQuality,
    now: u64,
    replies: Seq<(ReplyModel, u64)>,
)
    requires
        s.profile.dialect == Dialect::P300Bt,
    ensures
        ({
            let turn = (s, query_step(s, now));
            answered(turn.0, turn.1, replies) ==> bounded_by(
                turn,
                replies,
                now,
                10_000_000_000,
                false,
            )
        }),
        ({
            let turn = (s, init_step(s, now));
            answered(turn.0, turn.1, replies) ==> bounded_by(
                turn,
                replies,
                now,
                10_000_000_000,
                false,
            )
        }),
        ({
            let turn = (s, requesting(Goal::Report));
            answered(turn.0, turn.1, replies) ==> bounded_by(
                turn,
                replies,
                now,
                10_000_000_000,
                false,
            )
        }),
        ({
            let turn = s.printing(lines, chain_print, precut, quality, now);
            answered(turn.0, turn.1, replies) && s.label(
                lines,
                chain_print,
                precut,
                quality,
            ) is Ok ==> bounded_by(turn, replies, now, 60_000_000_000, true)
        }),
{
    let none = Seq::<u8>::empty();
    assert(reports(none) =~= Seq::empty());
    let report = ReportUse::Status(Goal::Report);
    let query = query_step(s, now);
    assert(none + heard(s, query, replies) =~= heard(s, query, replies));
    if answered(s, query, replies) && lasts(s, query, replies) {
        lemma_timed_run(s, query, report, s.status, none, now, replies);
    }
    let init = init_step(s, now);
    assert(none + heard(s, init, replies) =~= heard(s, init, replies));
    if answered(s, init, replies) && lasts(s, init, replies) {
        let purpose = ReportUse::Status(Goal::Init);
        lemma_timed_run(s, init, purpose, s.status, none, now, replies);
    }
    let bare = requesting(Goal::Report);
    assert(none + heard(s, bare, replies) =~= heard(s, bare, replies));
    if answered(s, bare, replies) && lasts(s, bare, replies) {
        lemma_timed_run(s, bare, report, s.status, none, now, replies);
    }
    let (s1, step) = s.printing(lines, chain_print, precut, quality, now);
    let label = s.label(lines, chain_print, precut, quality);
    if label is Ok {
        assert(label->Ok_0.len() > 0);
        assert(none + heard(s1, step, replies) =~= heard(s1, step, replies));
        if answered(s1, step, replies) && lasts(s1, step, replies) {
            lemma_timed_run(s1, step, ReportUse::Completion, s.status, none, now, replies);
        }
    }
}

} // verus!
