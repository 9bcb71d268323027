//! What holds of whole operations, whatever the transport replies.

use vstd::prelude::*;

use crate::device::DeviceFlags;
use crate::error::ErrorModel;
use crate::link::{
    ActionModel, ReplyModel, FLUSH_TIMEOUT, P300BT_COMPLETION_TIMEOUT, P300BT_QUERY_TIMEOUT,
    PRINT_STATUS_IDLE_TIMEOUT, STATUS_MAX_RETRIES, ZERO_LENGTH_TRANSFER_DELAY,
};
use crate::model::{law_printable_width_fits_raster, Dialect, ModelProfile};
use crate::protocol;
use crate::protocol::{JobOptions, PrintQuality};
use crate::session::{
    failed, requesting, sleeping, too_short, AfterFlushModel, AfterJob, Goal, PhaseModel,
    ReportUse, SessionModel, StepModel, FEED_LINES,
};
use crate::status::STATUS_PACKET_SIZE;
use crate::waiting::{parsed, P300WaitModel, PrintWaitModel, WaitStepModel};

verus! {

// ---------------------------------------------------------------------
// Runs
// ---------------------------------------------------------------------

/// The session and the step reached from `step` once the replies have come,
/// each with the time of its arrival. Replies behind the end are ignored.
pub open spec fn run(s: SessionModel, step: StepModel, replies: Seq<(ReplyModel, u64)>) -> (
    SessionModel,
    StepModel,
)
    decreases replies.len(),
{
    match step {
        StepModel::Done(r) => (s, step),
        StepModel::Do { phase, action } => if replies.len() == 0 {
            (s, step)
        } else {
            let (s1, step1) = s.resumed(phase, replies[0].0, replies[0].1);
            run(s1, step1, replies.drop_first())
        },
    }
}

/// What a step hands to the printer.
pub open spec fn handed_over(step: StepModel) -> Seq<Seq<u8>> {
    match step {
        StepModel::Do { phase, action: ActionModel::Send { bytes, timeout } } => seq![bytes],
        _ => Seq::empty(),
    }
}

/// Everything handed to the printer in a run, in order.
pub open spec fn sent(s: SessionModel, step: StepModel, replies: Seq<(ReplyModel, u64)>) -> Seq<
    Seq<u8>,
>
    decreases replies.len(),
{
    match step {
        StepModel::Done(r) => Seq::empty(),
        StepModel::Do { phase, action } => if replies.len() == 0 {
            handed_over(step)
        } else {
            let (s1, step1) = s.resumed(phase, replies[0].0, replies[0].1);
            handed_over(step) + sent(s1, step1, replies.drop_first())
        },
    }
}

/// Whether every reply of a run answers what was asked for.
pub open spec fn answered(s: SessionModel, step: StepModel, replies: Seq<(ReplyModel, u64)>) -> bool
    decreases replies.len(),
{
    match step {
        StepModel::Done(r) => true,
        StepModel::Do { phase, action } => replies.len() == 0 || {
            let (s1, step1) = s.resumed(phase, replies[0].0, replies[0].1);
            phase.accepts(replies[0].0) && answered(s1, step1, replies.drop_first())
        },
    }
}

/// The step that starts an initialization.
pub open spec fn init_step(s: SessionModel, now: u64) -> StepModel {
    s.flushing(now, AfterFlushModel::Reset, now)
}

/// The step that starts a status query.
pub open spec fn query_step(s: SessionModel, now: u64) -> StepModel {
    s.flushing(now, AfterFlushModel::Query, now)
}

// ---------------------------------------------------------------------
// What is sent
// ---------------------------------------------------------------------

/// The commands that follow a status exchange.
pub open spec fn goal_commands(s: SessionModel, goal: Goal) -> Seq<Seq<u8>> {
    if goal == Goal::Init && s.profile.flags.has(DeviceFlags::AUTO_STATUS_NOTIFICATION) {
        seq![protocol::auto_status_command(true)]
    } else {
        Seq::empty()
    }
}

/// The commands of an initialization: reset, query the status, and turn on
/// automatic reports where the printer has them.
pub open spec fn init_commands(s: SessionModel) -> Seq<Seq<u8>> {
    seq![s.reset_command(), protocol::status_request()] + goal_commands(s, Goal::Init)
}

/// The command of a status query.
pub open spec fn query_commands() -> Seq<Seq<u8>> {
    seq![protocol::status_request()]
}

/// The commands that an operation still has to send.
spec fn script(s: SessionModel, phase: PhaseModel) -> Seq<Seq<u8>> {
    match phase {
        PhaseModel::Flush { start, next } => match next {
            AfterFlushModel::Reset => init_commands(s),
            AfterFlushModel::Query => query_commands(),
            AfterFlushModel::Fail(e) => Seq::empty(),
        },
        PhaseModel::Reset => query_commands() + goal_commands(s, Goal::Init),
        PhaseModel::Request { goal } => goal_commands(s, goal),
        PhaseModel::UsbPause { goal, attempt, pending } => goal_commands(s, goal),
        PhaseModel::UsbRead { goal, attempt, pending } => goal_commands(s, goal),
        PhaseModel::P300Pause { wait, purpose: ReportUse::Status(goal) } => goal_commands(s, goal),
        PhaseModel::P300Read { wait, purpose: ReportUse::Status(goal) } => goal_commands(s, goal),
        PhaseModel::Job { rest, after } => rest,
        _ => Seq::empty(),
    }
}

spec fn plan(s: SessionModel, step: StepModel) -> Seq<Seq<u8>> {
    match step {
        StepModel::Do { phase, action } => handed_over(step) + script(s, phase),
        StepModel::Done(r) => Seq::empty(),
    }
}

/// Whether a step has failed or will fail as soon as stale input is flushed.
spec fn doomed(step: StepModel) -> bool {
    match step {
        StepModel::Do { phase: PhaseModel::Flush { start, next }, action } => next is Fail,
        StepModel::Do { phase, action } => false,
        StepModel::Done(r) => r is Err,
    }
}

/// Whether a turn keeps to the script: it goes on with it, or it is doomed and
/// sends nothing more.
spec fn keeps_to(s: SessionModel, script: Seq<Seq<u8>>, turn: (SessionModel, StepModel)) -> bool {
    &&& turn.0.profile == s.profile
    &&& if doomed(turn.1) {
        plan(turn.0, turn.1) == Seq::<Seq<u8>>::empty()
    } else {
        plan(turn.0, turn.1) == script
    }
}

proof fn lemma_flushing(s: SessionModel, start: u64, next: AfterFlushModel, now: u64)
    ensures
        keeps_to(
            s,
            script(s, PhaseModel::Flush { start, next }),
            (s, s.flushing(start, next, now)),
        ),
        keeps_to(s, script(s, PhaseModel::Flush { start, next }), (s, s.flushed(next))),
        doomed(s.flushing(start, next, now)) == (next is Fail),
        doomed(s.flushed(next)) == (next is Fail),
{
    let expected = script(s, PhaseModel::Flush { start, next });
    assert(plan(s, s.flushed(next)) =~= expected);
    assert(plan(s, s.flushing(start, next, now)) =~= expected);
}

proof fn lemma_concluded(s: SessionModel, s1: SessionModel, goal: Goal)
    requires
        s1.profile == s.profile,
    ensures
        keeps_to(s, goal_commands(s, goal), s1.concluded(goal)),
{
    let (s2, step) = s1.concluded(goal);
    assert(plan(s2, step) =~= goal_commands(s, goal));
}

proof fn lemma_retrying(s: SessionModel, goal: Goal, attempt: nat, pending: Seq<u8>, now: u64)
    ensures
        keeps_to(s, goal_commands(s, goal), (s, s.retrying(goal, attempt, pending, now))),
{
    let step = s.retrying(goal, attempt, pending, now);
    lemma_flushing(
        s,
        now,
        AfterFlushModel::Fail(too_short(pending.len())),
        now,
    );
    if attempt + 1 < STATUS_MAX_RETRIES {
        assert(plan(s, step) =~= goal_commands(s, goal));
    }
}

proof fn lemma_reading(s: SessionModel, goal: Goal, attempt: nat, pending: Seq<u8>, now: u64)
    ensures
        keeps_to(s, goal_commands(s, goal), s.reading(goal, attempt, pending, now)),
{
    lemma_retrying(s, goal, attempt, pending, now);
    if pending.len() >= STATUS_PACKET_SIZE {
        match parsed(pending.take(STATUS_PACKET_SIZE as int), "Invalid status header"@) {
            Ok(status) => lemma_concluded(s, s.adopting(status), goal),
            Err(e) => lemma_flushing(s, now, AfterFlushModel::Fail(e), now),
        }
    }
}

proof fn lemma_p300_turn(
    s: SessionModel,
    wait: P300WaitModel,
    purpose: ReportUse,
    step: WaitStepModel,
)
    ensures
        keeps_to(
            s,
            script(s, PhaseModel::P300Read { wait, purpose }),
            s.p300_turn(wait, purpose, step),
        ),
{
    let expected = script(s, PhaseModel::P300Read { wait, purpose });
    let turn = s.p300_turn(wait, purpose, step);
    match step {
        WaitStepModel::Found(status) => match purpose {
            ReportUse::Status(goal) => lemma_concluded(s, s.adopting(status), goal),
            ReportUse::Completion => {},
        },
        WaitStepModel::Fault(e) => {},
        _ => {
            assert(plan(turn.0, turn.1) =~= expected);
        },
    }
}

proof fn lemma_ready_turn(
    s: SessionModel,
    watch: PrintWaitModel,
    step: WaitStepModel,
)
    ensures
        keeps_to(s, Seq::empty(), s.ready_turn(watch, step)),
{
    let turn = s.ready_turn(watch, step);
    assert(plan(turn.0, turn.1) =~= Seq::empty());
}

proof fn lemma_dispatching(s: SessionModel, rest: Seq<Seq<u8>>, after: AfterJob, now: u64)
    ensures
        keeps_to(s, rest, s.dispatching(rest, after, now)),
{
    let turn = s.dispatching(rest, after, now);
    if rest.len() > 0 {
        assert(plan(turn.0, turn.1) =~= rest);
    } else {
        assert(rest =~= Seq::empty());
        match after {
            AfterJob::Ready => {
                let watch = PrintWaitModel {
                    idle_timeout: PRINT_STATUS_IDLE_TIMEOUT,
                    last_transfer: now,
                    pending: Seq::empty(),
                };
                lemma_ready_turn(s, watch, watch.poll(now));
            },
            AfterJob::P300Completion => lemma_p300_begin(
                s,
                P300BT_COMPLETION_TIMEOUT,
                ReportUse::Completion,
                now,
            ),
            _ => {
                assert(plan(turn.0, turn.1) =~= rest);
            },
        }
    }
}

proof fn lemma_p300_begin(s: SessionModel, timeout: u64, purpose: ReportUse, now: u64)
    ensures
        keeps_to(
            s,
            match purpose {
                ReportUse::Status(goal) => goal_commands(s, goal),
                ReportUse::Completion => Seq::empty(),
            },
            s.p300_begin(timeout, purpose, now),
        ),
{
    let wait = P300WaitModel {
        start: now,
        timeout,
        completion: purpose is Completion,
        pending: Seq::empty(),
    };
    lemma_p300_turn(s, wait.drained(), purpose, wait.poll(now));
}

proof fn lemma_one_step(s: SessionModel, phase: PhaseModel, reply: ReplyModel, now: u64)
    ensures
        keeps_to(s, script(s, phase), s.resumed(phase, reply, now)),
        (phase matches PhaseModel::Flush { start, next } && next is Fail) ==> doomed(
            s.resumed(phase, reply, now).1,
        ),
{
    let turn = s.resumed(phase, reply, now);
    match phase {
        PhaseModel::Flush { start, next } => lemma_flushing(s, start, next, now),
        PhaseModel::Request { goal } => {
            if !(reply is Failed) {
                if s.profile.dialect == Dialect::P300Bt {
                    lemma_p300_begin(
                        s,
                        P300BT_QUERY_TIMEOUT,
                        ReportUse::Status(goal),
                        now,
                    );
                } else {
                    assert(plan(turn.0, turn.1) =~= script(s, phase));
                }
            }
        },
        PhaseModel::UsbRead { goal, attempt, pending } => {
            lemma_retrying(s, goal, attempt, pending, now);
            if let ReplyModel::Received { count, buffer } = reply {
                lemma_reading(s, goal, attempt, pending + buffer.take(count as int), now);
            }
        },
        PhaseModel::P300Pause { wait, purpose } => {
            lemma_p300_turn(s, wait.drained(), purpose, wait.poll(now));
        },
        PhaseModel::P300Read { wait, purpose } => {
            let (after, step) = wait.absorb(reply, now);
            lemma_p300_turn(s, after, purpose, step);
        },
        PhaseModel::Job { rest, after } => lemma_dispatching(s, rest, after, now),
        PhaseModel::ReadyPause { watch } => lemma_ready_turn(s, watch, watch.poll(now)),
        PhaseModel::ReadyRead { watch } => {
            let (after, step) = watch.absorb(reply, now);
            lemma_ready_turn(s, after, step);
        },
        _ => {
            if !doomed(turn.1) {
                assert(plan(turn.0, turn.1) =~= script(s, phase));
            }
        },
    }
}

proof fn lemma_sent_follows_plan(s: SessionModel, step: StepModel, replies: Seq<(ReplyModel, u64)>)
    ensures
        run(s, step, replies).0.profile == s.profile,
        sent(s, step, replies).is_prefix_of(plan(s, step)),
        doomed(step) ==> !run(s, step, replies).1.is_success(),
        run(s, step, replies).1.is_success() ==> sent(s, step, replies) == plan(
            s,
            step,
        ),
    decreases replies.len(),
{
    match step {
        StepModel::Done(r) => {
            assert(sent(s, step, replies) =~= plan(s, step));
        },
        StepModel::Do { phase, action } => {
            if replies.len() == 0 {
            } else {
                let (s1, step1) = s.resumed(phase, replies[0].0, replies[0].1);
                lemma_one_step(s, phase, replies[0].0, replies[0].1);
                lemma_sent_follows_plan(s1, step1, replies.drop_first());
                let tail = sent(s1, step1, replies.drop_first());
                assert(tail.is_prefix_of(script(s, phase)));
                assert((handed_over(step) + tail).is_prefix_of(
                    handed_over(step) + script(s, phase),
                )) by {
                    let a = handed_over(step) + tail;
                    let b = handed_over(step) + script(s, phase);
                    assert(a =~= b.subrange(0, a.len() as int));
                }
            }
        },
    }
}

// ---------------------------------------------------------------------
// What becomes of the session
// ---------------------------------------------------------------------

/// Whether the session holds a report together with the tape width it names.
pub open spec fn informed(s: SessionModel) -> bool {
    match s.status {
        Some(status) => s.tape_width_px == s.profile.printable_px(status.media_width),
        None => false,
    }
}

/// The phases of a status exchange with the given goal.
spec fn exchanging(phase: PhaseModel, goal: Goal) -> bool {
    match phase {
        PhaseModel::Flush { start, next } => match next {
            AfterFlushModel::Reset => goal == Goal::Init,
            AfterFlushModel::Query => goal == Goal::Report,
            AfterFlushModel::Fail(e) => true,
        },
        PhaseModel::Reset => goal == Goal::Init,
        PhaseModel::Notify => goal == Goal::Init,
        PhaseModel::Request { goal: g } => g == goal,
        PhaseModel::UsbPause { goal: g, attempt, pending } => g == goal,
        PhaseModel::UsbRead { goal: g, attempt, pending } => g == goal,
        PhaseModel::P300Pause { wait, purpose } => purpose == ReportUse::Status(goal),
        PhaseModel::P300Read { wait, purpose } => purpose == ReportUse::Status(goal),
        _ => false,
    }
}

/// Whether a session has taken over a report since `s0`, and nothing else has
/// changed.
spec fn updated(s0: SessionModel, s: SessionModel) -> bool {
    &&& informed(s)
    &&& s.profile == s0.profile
    &&& s.initialized == s0.initialized
}

/// Whether a status exchange that started from `s0` stands as it should.
spec fn exchange_stands(s0: SessionModel, goal: Goal, turn: (SessionModel, StepModel)) -> bool {
    let (s, step) = turn;
    match step {
        StepModel::Done(Ok(u)) => {
            &&& informed(s)
            &&& s.profile == s0.profile
            &&& s.initialized == (goal == Goal::Init || s0.initialized)
        },
        StepModel::Done(Err(e)) => {
            ||| s == s0
            ||| notifies(s0, goal) && updated(s0, s)
        },
        StepModel::Do { phase, action } => {
            &&& exchanging(phase, goal)
            &&& if phase is Notify {
                notifies(s0, goal) && updated(s0, s)
            } else {
                s == s0
            }
        },
    }
}

/// Whether the report is followed by the command that turns automatic reports
/// on.
pub open spec fn notifies(s: SessionModel, goal: Goal) -> bool {
    goal == Goal::Init && s.profile.flags.has(DeviceFlags::AUTO_STATUS_NOTIFICATION)
}

proof fn lemma_exchange_step(
    s0: SessionModel,
    s: SessionModel,
    phase: PhaseModel,
    goal: Goal,
    reply: ReplyModel,
    now: u64,
)
    requires
        exchanging(phase, goal),
        if phase is Notify {
            notifies(s0, goal) && updated(s0, s)
        } else {
            s == s0
        },
    ensures
        exchange_stands(s0, goal, s.resumed(phase, reply, now)),
{
    match phase {
        PhaseModel::P300Read { wait, purpose } => {
            let (after, step) = wait.absorb(reply, now);
            assert(exchange_stands(s0, goal, s.p300_turn(after, purpose, step)));
        },
        PhaseModel::P300Pause { wait, purpose } => {
            let step = wait.poll(now);
            assert(exchange_stands(s0, goal, s.p300_turn(wait.drained(), purpose, step)));
        },
        PhaseModel::UsbRead { goal: g, attempt, pending } => {
            assert(exchange_stands(s0, goal, (s, s.retrying(goal, attempt, pending, now))));
            if let ReplyModel::Received { count, buffer } = reply {
                let p = pending + buffer.take(count as int);
                assert(exchange_stands(s0, goal, (s, s.retrying(goal, attempt, p, now))));
                assert(exchange_stands(s0, goal, s.reading(goal, attempt, p, now)));
            }
        },
        _ => {},
    }
}

proof fn lemma_exchange(
    s0: SessionModel,
    s: SessionModel,
    step: StepModel,
    goal: Goal,
    replies: Seq<(ReplyModel, u64)>,
)
    requires
        exchange_stands(s0, goal, (s, step)),
    ensures
        exchange_stands(s0, goal, run(s, step, replies)),
    decreases replies.len(),
{
    if let StepModel::Do { phase, action } = step {
        if replies.len() > 0 {
            let (s1, step1) = s.resumed(phase, replies[0].0, replies[0].1);
            lemma_exchange_step(s0, s, phase, goal, replies[0].0, replies[0].1);
            lemma_exchange(s0, s1, step1, goal, replies.drop_first());
        }
    }
}

/// An initialization sends the reset command, the status request and, where
/// the printer has automatic reports, the command that turns them on: in this
/// order, nothing else, and all of them if it succeeds. The printer counts as
/// initialized as soon as it succeeds, and then a report and the tape width it
/// names are known. Until then, and if it fails, nothing is initialized by it,
/// and the session stays as it was, except that the report is kept where only
/// the last command is still to be sent or has failed.
pub proof fn law_initialization(s: SessionModel, now: u64, replies: Seq<(ReplyModel, u64)>)
    ensures
        ({
            let step = init_step(s, now);
            let (after, last) = run(s, step, replies);
            &&& sent(s, step, replies).is_prefix_of(init_commands(s))
            &&& if last.is_success() {
                &&& sent(s, step, replies) == init_commands(s)
                &&& after.initialized
                &&& informed(after)
            } else {
                &&& after.initialized == s.initialized
                &&& after == s || (notifies(s, Goal::Init) && informed(after))
            }
            &&& after.profile == s.profile
        }),
{
    let step = init_step(s, now);
    lemma_flushing(s, now, AfterFlushModel::Reset, now);
    lemma_sent_follows_plan(s, step, replies);
    lemma_exchange(s, s, step, Goal::Init, replies);
}

/// What holds of a status query that started with `step`: it sends the status
/// request and nothing else, and does not end before; if it succeeds, a report
/// and the tape width it names are known and nothing else has changed; otherwise
/// the session is as it was.
pub open spec fn queries_only(
    s: SessionModel,
    step: StepModel,
    replies: Seq<(ReplyModel, u64)>,
) -> bool {
    let (after, last) = run(s, step, replies);
    &&& sent(s, step, replies).is_prefix_of(query_commands())
    &&& last is Done ==> sent(s, step, replies) == query_commands()
    &&& after.initialized == s.initialized
    &&& after.profile == s.profile
    &&& if last.is_success() {
        informed(after)
    } else {
        after == s
    }
}

/// A query does not end before the request is sent.
proof fn lemma_query_sends(s: SessionModel, step: StepModel, replies: Seq<(ReplyModel, u64)>)
    requires
        step == requesting(Goal::Report) || (step matches StepModel::Do {
            phase: PhaseModel::Flush { start, next },
            action,
        } && next is Query),
    ensures
        run(s, step, replies).1 is Done ==> sent(s, step, replies).len() > 0,
    decreases replies.len(),
{
    if replies.len() > 0 && step != requesting(Goal::Report) {
        let (s1, step1) = s.resumed(step->phase, replies[0].0, replies[0].1);
        lemma_query_sends(s1, step1, replies.drop_first());
    }
}

/// A status query, whether behind a flush or bare, sends the status request and
/// nothing else, and has always done so when it ends: it neither resets the
/// printer nor turns automatic reports on, and never changes whether the printer
/// counts as initialized. If it succeeds, a report and the tape width it names are
/// known. As long as it is under way, and if it fails, the session is as it was.
pub proof fn law_query(s: SessionModel, now: u64, replies: Seq<(ReplyModel, u64)>)
    ensures
        queries_only(s, query_step(s, now), replies),
        queries_only(s, requesting(Goal::Report), replies),
{
    let step = query_step(s, now);
    lemma_flushing(s, now, AfterFlushModel::Query, now);
    lemma_sent_follows_plan(s, step, replies);
    lemma_exchange(s, s, step, Goal::Report, replies);
    let bare = requesting(Goal::Report);
    assert(plan(s, bare) =~= query_commands());
    lemma_sent_follows_plan(s, bare, replies);
    lemma_exchange(s, s, bare, Goal::Report, replies);
    lemma_query_sends(s, step, replies);
    lemma_query_sends(s, bare, replies);
    lemma_whole_query(sent(s, step, replies));
    lemma_whole_query(sent(s, bare, replies));
}

proof fn lemma_whole_query(commands: Seq<Seq<u8>>)
    ensures
        commands.is_prefix_of(query_commands()) && commands.len() > 0 ==> commands
            == query_commands(),
{
    if commands.is_prefix_of(query_commands()) && commands.len() > 0 {
        assert(commands =~= query_commands());
    }
}

/// The phases of a job, apart by whether a PT-P300BT prints it.
spec fn in_job(phase: PhaseModel, p300: bool) -> bool {
    match phase {
        PhaseModel::Job { rest, after } => p300 == (after == AfterJob::P300Completion),
        PhaseModel::ReadyPause { watch } => !p300,
        PhaseModel::ReadyRead { watch } => !p300,
        PhaseModel::Completion => !p300,
        PhaseModel::P300Pause { wait, purpose } => p300 && purpose is Completion,
        PhaseModel::P300Read { wait, purpose } => p300 && purpose is Completion,
        _ => false,
    }
}

spec fn job_stands(s0: SessionModel, p300: bool, turn: (SessionModel, StepModel)) -> bool {
    let (s, step) = turn;
    &&& s.profile == s0.profile
    &&& s.tape_width_px == s0.tape_width_px
    &&& match step {
        StepModel::Done(Err(e)) => {
            &&& s.initialized == (s0.initialized && !p300)
            &&& s.status == s0.status
        },
        StepModel::Done(Ok(u)) => {
            &&& s.initialized == s0.initialized
            &&& s.status is Some || s.status == s0.status
        },
        StepModel::Do { phase, action } => {
            &&& in_job(phase, p300)
            &&& s.initialized == s0.initialized
            &&& s.status == s0.status
        },
    }
}

proof fn lemma_job_dispatch(s: SessionModel, rest: Seq<Seq<u8>>, after: AfterJob, now: u64)
    ensures
        job_stands(s, after == AfterJob::P300Completion, s.dispatching(rest, after, now)),
{
    if rest.len() == 0 {
        match after {
            AfterJob::Ready => {
                let watch = PrintWaitModel {
                    idle_timeout: PRINT_STATUS_IDLE_TIMEOUT,
                    last_transfer: now,
                    pending: Seq::empty(),
                };
                let step = watch.poll(now);
                assert(job_stands(s, false, s.ready_turn(watch, step)));
            },
            AfterJob::P300Completion => {
                let wait = P300WaitModel {
                    start: now,
                    timeout: P300BT_COMPLETION_TIMEOUT,
                    completion: true,
                    pending: Seq::empty(),
                };
                let step = wait.poll(now);
                assert(job_stands(
                    s,
                    true,
                    s.p300_turn(wait.drained(), ReportUse::Completion, step),
                ));
            },
            _ => {},
        }
    }
}

proof fn lemma_job_step(s: SessionModel, phase: PhaseModel, p300: bool, reply: ReplyModel, now: u64)
    requires
        in_job(phase, p300),
    ensures
        job_stands(s, p300, s.resumed(phase, reply, now)),
{
    match phase {
        PhaseModel::Job { rest, after } => lemma_job_dispatch(s, rest, after, now),
        PhaseModel::P300Read { wait, purpose } => {
            let (after, step) = wait.absorb(reply, now);
            assert(job_stands(s, p300, s.p300_turn(after, purpose, step)));
        },
        PhaseModel::P300Pause { wait, purpose } => {
            let step = wait.poll(now);
            assert(job_stands(s, p300, s.p300_turn(wait.drained(), purpose, step)));
        },
        PhaseModel::ReadyRead { watch } => {
            let (after, step) = watch.absorb(reply, now);
            assert(job_stands(s, p300, s.ready_turn(after, step)));
        },
        PhaseModel::ReadyPause { watch } => {
            let step = watch.poll(now);
            assert(job_stands(s, p300, s.ready_turn(watch, step)));
        },
        _ => {},
    }
}

proof fn lemma_job(
    s0: SessionModel,
    s: SessionModel,
    step: StepModel,
    p300: bool,
    replies: Seq<(ReplyModel, u64)>,
)
    requires
        job_stands(s0, p300, (s, step)),
    ensures
        job_stands(s0, p300, run(s, step, replies)),
    decreases replies.len(),
{
    if let StepModel::Do { phase, action } = step {
        if replies.len() > 0 {
            let (s1, step1) = s.resumed(phase, replies[0].0, replies[0].1);
            lemma_job_step(s, phase, p300, replies[0].0, replies[0].1);
            lemma_job(s0, s1, step1, p300, replies.drop_first());
        }
    }
}

/// A label sends the commands of its job in order and nothing else, and all of
/// them if it succeeds. A refused label sends nothing and changes nothing.
/// While a label is under way nothing of the session changes, and a failed one
/// leaves the last report as it was. A PT-P300BT whose label has failed on the
/// way no longer counts as initialized; on the USB bus a failed label leaves that
/// as it was.
pub proof fn law_label(
    s: SessionModel,
    lines: Seq<Seq<u8>>,
    chain_print: bool,
    precut: bool,
    quality: PrintQuality,
    now: u64,
    replies: Seq<(ReplyModel, u64)>,
)
    ensures
        ({
            let (s1, step) = s.printing(lines, chain_print, precut, quality, now);
            let (after, last) = run(s1, step, replies);
            match s.label(lines, chain_print, precut, quality) {
                Err(e) => {
                    &&& sent(s1, step, replies) == Seq::<Seq<u8>>::empty()
                    &&& last == failed(e)
                    &&& after == s
                },
                Ok(job) => {
                    &&& sent(s1, step, replies).is_prefix_of(job)
                    &&& after.profile == s.profile
                    &&& after.tape_width_px == s.tape_width_px
                    &&& match last {
                        StepModel::Do { phase, action } => after == s,
                        StepModel::Done(Ok(u)) => {
                            &&& sent(s1, step, replies) == job
                            &&& after.initialized
                            &&& after.status is Some || after.status == s.status
                        },
                        StepModel::Done(Err(e)) => {
                            &&& after.initialized == (s.profile.dialect == Dialect::Usb)
                            &&& after.status == s.status
                        },
                    }
                },
            }
        }),
{
    let (s1, step) = s.printing(lines, chain_print, precut, quality, now);
    match s.label(lines, chain_print, precut, quality) {
        Err(e) => {},
        Ok(job) => {
            let p300 = s.profile.dialect == Dialect::P300Bt;
            lemma_dispatching(s, job, s.after_label(), now);
            lemma_sent_follows_plan(s1, step, replies);
            lemma_job_dispatch(s, job, s.after_label(), now);
            lemma_job(s, s1, step, p300, replies);
            if doomed(step) {
                assert(sent(s1, step, replies) =~= Seq::empty());
            }
        },
    }
}

/// A failed label of a PT-P300BT cannot be replayed: until the printer is
/// initialized again, every label is refused without an action.
pub proof fn law_failed_p300bt_label_is_not_replayed(
    s: SessionModel,
    lines: Seq<Seq<u8>>,
    chain_print: bool,
    precut: bool,
    quality: PrintQuality,
    now: u64,
    replies: Seq<(ReplyModel, u64)>,
    lines2: Seq<Seq<u8>>,
    chain_print2: bool,
    precut2: bool,
    quality2: PrintQuality,
    now2: u64,
)
    requires
        s.profile.dialect == Dialect::P300Bt,
        s.label(lines, chain_print, precut, quality) is Ok,
        ({
            let (s1, step) = s.printing(lines, chain_print, precut, quality, now);
            run(s1, step, replies).1.is_failure()
        }),
    ensures
        ({
            let (s1, step) = s.printing(lines, chain_print, precut, quality, now);
            let after = run(s1, step, replies).0;
            after.printing(lines2, chain_print2, precut2, quality2, now2) == (
                after,
                failed(ErrorModel::NotInitialized),
            )
        }),
{
    law_label(s, lines, chain_print, precut, quality, now, replies);
}

/// A command that cannot be sent ends the job: nothing is sent after it.
pub proof fn law_send_failure_ends_job(
    s: SessionModel,
    rest: Seq<Seq<u8>>,
    after: AfterJob,
    error: ErrorModel,
    now: u64,
    later: Seq<(ReplyModel, u64)>,
)
    ensures
        ({
            let (s1, step) = s.resumed(
                PhaseModel::Job { rest, after },
                ReplyModel::Failed(error),
                now,
            );
            &&& step == failed(error)
            &&& sent(s1, step, later) == Seq::<Seq<u8>>::empty()
        }),
{
}

/// A feed sends the job of a few blank lines, in order and nothing else, and all
/// of it if it succeeds. A PT-P300BT, whose cutter is manual, and a printer that
/// is not initialized refuse without an action.
pub proof fn law_feed(s: SessionModel, now: u64, replies: Seq<(ReplyModel, u64)>)
    ensures
        ({
            let (s1, step) = s.feeding(now);
            let (after, last) = run(s1, step, replies);
            if s.profile.dialect == Dialect::P300Bt || !s.initialized {
                &&& sent(s1, step, replies) == Seq::<Seq<u8>>::empty()
                &&& after == s
                &&& last.is_failure()
            } else {
                &&& sent(s1, step, replies).is_prefix_of(s.feed_job())
                &&& last.is_success() ==> sent(s1, step, replies) == s.feed_job()
                &&& after.initialized
                &&& after.profile == s.profile
                &&& after.tape_width_px == s.tape_width_px
                &&& after.status is Some || after.status == s.status
            }
        }),
{
    let (s1, step) = s.feeding(now);
    if s.profile.dialect == Dialect::Usb && s.initialized {
        let after = if s.profile.flags.has(DeviceFlags::WAIT_FOR_RECEIVE_READY) {
            AfterJob::Ready
        } else {
            AfterJob::Nothing
        };
        lemma_dispatching(s, s.feed_job(), after, now);
        lemma_sent_follows_plan(s1, step, replies);
        lemma_job_dispatch(s, s.feed_job(), after, now);
        lemma_job(s, s1, step, false, replies);
        if doomed(step) {
            assert(sent(s1, step, replies) =~= Seq::empty());
        }
    }
}

/// Whatever happens, a session keeps to the profile it was made with.
pub proof fn law_profile_is_kept(
    s: SessionModel,
    step: StepModel,
    replies: Seq<(ReplyModel, u64)>,
    lines: Seq<Seq<u8>>,
    chain_print: bool,
    precut: bool,
    quality: PrintQuality,
    now: u64,
)
    ensures
        run(s, step, replies).0.profile == s.profile,
        s.printing(lines, chain_print, precut, quality, now).0.profile == s.profile,
        s.feeding(now).0.profile == s.profile,
{
    lemma_sent_follows_plan(s, step, replies);
    law_label(s, lines, chain_print, precut, quality, now, Seq::empty());
    law_feed(s, now, Seq::empty());
}

/// Flushing stale input of a PT-P300BT has a fixed deadline, however much input
/// there is: no read is asked for that could last beyond it.
pub proof fn law_p300bt_flush_has_deadline(
    s: SessionModel,
    start: u64,
    next: AfterFlushModel,
    reply: ReplyModel,
    now: u64,
)
    requires
        s.profile.dialect == Dialect::P300Bt,
        start <= now,
    ensures
        s.resumed(PhaseModel::Flush { start, next }, reply, now).1 matches StepModel::Do {
            phase: PhaseModel::Flush { start: begun, next: later },
            action: ActionModel::Receive { capacity, timeout },
        } ==> begun == start && now + timeout <= start + FLUSH_TIMEOUT,
{
}

/// A printer that falls silent after a label has most likely printed it:
/// silence is no failure on the USB bus, and leaves the last report as it was.
pub proof fn law_silence_after_label_is_no_failure(
    s: SessionModel,
    watch: PrintWaitModel,
    now: u64,
)
    ensures
        s.resumed(PhaseModel::Completion, ReplyModel::Failed(ErrorModel::Timeout), now).0 == s,
        s.resumed(
            PhaseModel::Completion,
            ReplyModel::Failed(ErrorModel::Timeout),
            now,
        ).1.is_success(),
        watch.poll(now) == WaitStepModel::Fault(ErrorModel::Timeout) ==> {
            let (after, step) = s.resumed(
                PhaseModel::ReadyRead { watch },
                ReplyModel::Failed(ErrorModel::Timeout),
                now,
            );
            after == s && step.is_success()
        },
{
}

/// A printer that keeps completing empty reads cannot spin a core: while a report
/// is awaited, every empty read is followed by a pause.
pub proof fn law_empty_reads_are_paced(
    s: SessionModel,
    watch: PrintWaitModel,
    wait: P300WaitModel,
    purpose: ReportUse,
    buffer: Seq<u8>,
    now: u64,
)
    ensures
        s.resumed(
            PhaseModel::ReadyRead { watch },
            ReplyModel::Received { count: 0, buffer },
            now,
        ) == (s, sleeping(PhaseModel::ReadyPause { watch }, ZERO_LENGTH_TRANSFER_DELAY)),
        s.resumed(
            PhaseModel::P300Read { wait, purpose },
            ReplyModel::Received { count: 0, buffer },
            now,
        ) == (s, sleeping(PhaseModel::P300Pause { wait, purpose }, ZERO_LENGTH_TRANSFER_DELAY)),
{
}

/// A feed prints a blank strip of more than one line and cuts the tape behind
/// it: the job holds one line feed for each line, no marked line, and the
/// command that prints and cuts.
pub proof fn law_feed_prints_blank_strip(s: SessionModel)
    ensures
        s.feed_strip().len() == FEED_LINES > 1,
        forall|i: int| 0 <= i < FEED_LINES ==> protocol::blank(#[trigger] s.feed_strip()[i]),
        ({
            let opts = JobOptions {
                media_width: s.media_width(),
                chain_print: false,
                precut: false,
                quality: PrintQuality::Standard,
            };
            s.feed_job() == protocol::preamble(FEED_LINES as nat, s.profile.flags, opts)
                + Seq::new(FEED_LINES as nat, |i: int| protocol::line_feed()) + seq![
                protocol::finalize_command(false),
            ]
        }),
{
    assert forall|i: int| 0 <= i < FEED_LINES implies protocol::blank(
        #[trigger] s.feed_strip()[i],
    ) by {}
    assert(protocol::body(s.feed_strip()) =~= Seq::new(
        FEED_LINES as nat,
        |i: int| protocol::line_feed(),
    ));
}

// ---------------------------------------------------------------------
// What holds between operations
// ---------------------------------------------------------------------

/// A call on a session, with the replies to its actions as far as they come.
pub enum Call {
    Init { now: u64, replies: Seq<(ReplyModel, u64)> },
    QueryStatus { now: u64, replies: Seq<(ReplyModel, u64)> },
    GetStatus { replies: Seq<(ReplyModel, u64)> },
    PrintRaster {
        lines: Seq<Seq<u8>>,
        chain_print: bool,
        precut: bool,
        quality: PrintQuality,
        now: u64,
        replies: Seq<(ReplyModel, u64)>,
    },
    FeedAndCut { now: u64, replies: Seq<(ReplyModel, u64)> },
}

impl Call {
    /// The session and the step with which the call starts.
    pub open spec fn start(self, s: SessionModel) -> (SessionModel, StepModel) {
        match self {
            Call::Init { now, replies } => (s, init_step(s, now)),
            Call::QueryStatus { now, replies } => (s, query_step(s, now)),
            Call::GetStatus { replies } => (s, requesting(Goal::Report)),
            Call::PrintRaster { lines, chain_print, precut, quality, now, replies } => s.printing(
                lines,
                chain_print,
                precut,
                quality,
                now,
            ),
            Call::FeedAndCut { now, replies } => s.feeding(now),
        }
    }

    /// The replies to the actions of the call.
    pub open spec fn replies(self) -> Seq<(ReplyModel, u64)> {
        match self {
            Call::Init { now, replies } => replies,
            Call::QueryStatus { now, replies } => replies,
            Call::GetStatus { replies } => replies,
            Call::PrintRaster { lines, chain_print, precut, quality, now, replies } => replies,
            Call::FeedAndCut { now, replies } => replies,
        }
    }

    /// The session and the step that the call comes to.
    pub open spec fn result(self, s: SessionModel) -> (SessionModel, StepModel) {
        let (s1, step) = self.start(s);
        run(s1, step, self.replies())
    }

    /// What the call hands to the printer.
    pub open spec fn commands(self, s: SessionModel) -> Seq<Seq<u8>> {
        let (s1, step) = self.start(s);
        sent(s1, step, self.replies())
    }

    /// Whether the call queries the status.
    pub open spec fn asks_status(self) -> bool {
        self is Init || self is QueryStatus || self is GetStatus
    }
}

/// The session after a sequence of calls.
pub open spec fn after_calls(s: SessionModel, calls: Seq<Call>) -> SessionModel
    decreases calls.len(),
{
    if calls.len() == 0 {
        s
    } else {
        after_calls(calls[0].result(s).0, calls.drop_first())
    }
}

/// A session with a printer of which nothing is known yet.
pub open spec fn fresh_session(profile: ModelProfile) -> SessionModel {
    SessionModel { profile, status: None, tape_width_px: None, initialized: false }
}

/// Whether what the session knows comes from a report.
pub open spec fn grounded(s: SessionModel) -> bool {
    s.initialized || s.tape_width_px is Some ==> s.status is Some
}

/// Whether a known tape width fits the raster.
pub open spec fn fitting(s: SessionModel) -> bool {
    s.tape_width_px matches Some(px) ==> px <= s.profile.raster_width_px
}

/// Whether the raster has room for every tape: on the USB bus widths are clamped
/// to it, and the PT-P300BT prints 64 dots.
pub open spec fn roomy(profile: ModelProfile) -> bool {
    profile.dialect == Dialect::P300Bt ==> profile.raster_width_px >= 64
}

/// What every call keeps: the profile, that a report is known, and that what is
/// known comes from a report and fits the raster.
pub proof fn lemma_call(s: SessionModel, call: Call)
    ensures
        call.result(s).0.profile == s.profile,
        s.status is Some ==> call.result(s).0.status is Some,
        grounded(s) ==> grounded(call.result(s).0),
        roomy(s.profile) && fitting(s) ==> fitting(call.result(s).0),
{
    match call {
        Call::Init { now, replies } => law_initialization(s, now, replies),
        Call::QueryStatus { now, replies } => law_query(s, now, replies),
        Call::GetStatus { replies } => law_query(s, 0, replies),
        Call::PrintRaster { lines, chain_print, precut, quality, now, replies } => law_label(
            s,
            lines,
            chain_print,
            precut,
            quality,
            now,
            replies,
        ),
        Call::FeedAndCut { now, replies } => law_feed(s, now, replies),
    }
    if let Some(status) = call.result(s).0.status {
        if roomy(s.profile) {
            law_printable_width_fits_raster(s.profile, status.media_width);
        }
    }
}

proof fn lemma_calls(s: SessionModel, calls: Seq<Call>)
    ensures
        after_calls(s, calls).profile == s.profile,
        s.status is Some ==> after_calls(s, calls).status is Some,
        grounded(s) ==> grounded(after_calls(s, calls)),
        roomy(s.profile) && fitting(s) ==> fitting(after_calls(s, calls)),
    decreases calls.len(),
{
    if calls.len() > 0 {
        lemma_call(s, calls[0]);
        lemma_calls(calls[0].result(s).0, calls.drop_first());
    }
}

/// Whatever is called and whatever the transport replies, a printer that counts
/// as initialized has reported its status.
pub proof fn law_initialized_printer_has_reported(profile: ModelProfile, calls: Seq<Call>)
    ensures
        ({
            let s = after_calls(fresh_session(profile), calls);
            s.initialized ==> s.status is Some
        }),
{
    lemma_calls(fresh_session(profile), calls);
}

/// Whatever is called and whatever the transport replies, a tape width is known
/// only of a printer that has reported its status, and fits the raster.
pub proof fn law_known_tape_width_fits_raster(profile: ModelProfile, calls: Seq<Call>)
    ensures
        ({
            let s = after_calls(fresh_session(profile), calls);
            s.tape_width_px matches Some(px) ==> {
                &&& s.status is Some
                &&& roomy(profile) ==> px <= profile.raster_width_px
            }
        }),
{
    lemma_calls(fresh_session(profile), calls);
}

/// A report may be replaced by a later one, but is never lost.
pub proof fn law_status_is_never_lost(s: SessionModel, calls: Seq<Call>)
    requires
        s.status is Some,
    ensures
        after_calls(s, calls).status is Some,
{
    lemma_calls(s, calls);
}

} // verus!
