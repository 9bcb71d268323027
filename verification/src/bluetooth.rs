//! A PT-P300BT over Bluetooth.
//!
//! Raster lines are 16 bytes wide, and only the middle 64 dots may be marked.

use vstd::prelude::*;

use crate::device::DeviceFlags;
use crate::error::{ErrorModel, PtouchError};
use crate::lifecycle::{query_step, run};
use crate::link::{Action, ActionModel, Reply, ReplyModel};
use crate::model::{Dialect, ModelProfile};
use crate::opening::{begin_open, opening, OpenStep};
use crate::protocol::{contents, PrintQuality};
use crate::session::{
    AfterFlushModel, Operation, PhaseModel, PrinterSession, SessionModel, Step, StepModel,
};
use crate::status::PrinterStatus;

verus! {

/// A PT-P300BT with an open channel.
pub struct BluetoothDevice {
    session: PrinterSession,
}

impl View for BluetoothDevice {
    type V = SessionModel;

    closed spec fn view(&self) -> SessionModel {
        self.session@
    }
}

/// Whether a profile is that of the PT-P300BT.
pub open spec fn is_p300bt(profile: ModelProfile) -> bool {
    &&& profile.dialect == Dialect::P300Bt
    &&& profile.name@ == "PT-P300BT"@
    &&& profile.raster_width_px == 128
    &&& profile.dpi == 180
    &&& profile.flags.bits == DeviceFlags::NONE
}

// ---------------------------------------------------------------------
// Printing one label
// ---------------------------------------------------------------------

enum LabelPhase {
    Refresh { operation: Operation, lines: Vec<Vec<u8>> },
    Print { operation: Operation },
}

/// The printing of one label under way.
pub struct LabelOperation {
    phase: LabelPhase,
}

/// The value of a [`LabelOperation`].
pub enum LabelModel {
    /// The status is being queried ahead of the job.
    Refresh { phase: PhaseModel, lines: Seq<Seq<u8>> },
    /// The job is being printed.
    Print { phase: PhaseModel },
}

impl View for LabelOperation {
    type V = LabelModel;

    closed spec fn view(&self) -> LabelModel {
        match self.phase {
            LabelPhase::Refresh { operation, lines } => LabelModel::Refresh {
                phase: operation@,
                lines: contents(lines@),
            },
            LabelPhase::Print { operation } => LabelModel::Print { phase: operation@ },
        }
    }
}

impl LabelOperation {
    /// What holds of every label under way.
    pub closed spec fn wf(&self) -> bool {
        match self.phase {
            LabelPhase::Refresh { operation, lines } => operation.wf(),
            LabelPhase::Print { operation } => operation.wf(),
        }
    }

    /// Whether a reply answers what was asked for.
    pub fn accepts(&self, reply: &Reply) -> (r: bool)
        ensures
            r == self@.phase().accepts(reply@),
    {
        match &self.phase {
            LabelPhase::Refresh { operation, .. } => operation.accepts(reply),
            LabelPhase::Print { operation } => operation.accepts(reply),
        }
    }
}

impl LabelModel {
    /// The phase of the operation of which the label consists at the moment.
    pub open spec fn phase(self) -> PhaseModel {
        match self {
            LabelModel::Refresh { phase, lines } => phase,
            LabelModel::Print { phase } => phase,
        }
    }
}

/// What a label asks for next, or its result.
pub enum LabelStep {
    Do { operation: LabelOperation, action: Action },
    Done(Result<(), PtouchError>),
}

/// The value of a [`LabelStep`].
pub enum LabelStepModel {
    Do { label: LabelModel, action: ActionModel },
    Done(Result<(), ErrorModel>),
}

impl View for LabelStep {
    type V = LabelStepModel;

    open spec fn view(&self) -> LabelStepModel {
        match self {
            LabelStep::Do { operation, action } => LabelStepModel::Do {
                label: operation@,
                action: action@,
            },
            LabelStep::Done(Ok(())) => LabelStepModel::Done(Ok(())),
            LabelStep::Done(Err(e)) => LabelStepModel::Done(Err(e@)),
        }
    }
}

impl LabelStep {
    /// What holds of every step.
    pub open spec fn wf(&self) -> bool {
        match self {
            LabelStep::Do { operation, action } => operation.wf(),
            LabelStep::Done(r) => true,
        }
    }
}

/// A step of the job as a step of the label.
pub open spec fn of_job(turn: (SessionModel, StepModel)) -> (SessionModel, LabelStepModel) {
    match turn.1 {
        StepModel::Do { phase, action } => (
            turn.0,
            LabelStepModel::Do { label: LabelModel::Print { phase }, action },
        ),
        StepModel::Done(r) => (turn.0, LabelStepModel::Done(r)),
    }
}

/// A step of the status query as a step of the label: once the query has
/// succeeded, the job starts.
pub open spec fn of_query(
    turn: (SessionModel, StepModel),
    lines: Seq<Seq<u8>>,
    now: u64,
) -> (SessionModel, LabelStepModel) {
    match turn.1 {
        StepModel::Do { phase, action } => (
            turn.0,
            LabelStepModel::Do { label: LabelModel::Refresh { phase, lines }, action },
        ),
        StepModel::Done(Err(e)) => (turn.0, LabelStepModel::Done(Err(e))),
        StepModel::Done(Ok(u)) => of_job(
            turn.0.printing(lines, false, false, PrintQuality::Standard, now),
        ),
    }
}

/// How printing a label starts.
pub open spec fn labelling(s: SessionModel, lines: Seq<Seq<u8>>, now: u64) -> (
    SessionModel,
    LabelStepModel,
) {
    if !s.initialized {
        (s, LabelStepModel::Done(Err(ErrorModel::NotInitialized)))
    } else {
        of_query((s, query_step(s, now)), lines, now)
    }
}

/// How a label goes on after a reply.
pub open spec fn label_resumed(s: SessionModel, label: LabelModel, reply: ReplyModel, now: u64) -> (
    SessionModel,
    LabelStepModel,
) {
    match label {
        LabelModel::Refresh { phase, lines } => of_query(
            s.resumed(phase, reply, now),
            lines,
            now,
        ),
        LabelModel::Print { phase } => of_job(s.resumed(phase, reply, now)),
    }
}

fn job_step(step: Step) -> (r: LabelStep)
    requires
        step.wf(),
    ensures
        forall|s: SessionModel| (s, r@) == #[trigger] of_job((s, step@)),
        r.wf(),
{
    match step {
        Step::Do { operation, action } => LabelStep::Do {
            operation: LabelOperation { phase: LabelPhase::Print { operation } },
            action,
        },
        Step::Done(result) => LabelStep::Done(result),
    }
}

// ---------------------------------------------------------------------
// The printer
// ---------------------------------------------------------------------

impl BluetoothDevice {
    /// Start to open an already-paired printer by its colon-separated address.
    pub fn open(main_thread: bool, address: &str) -> (r: OpenStep)
        ensures
            r@ == opening(main_thread, address@),
    {
        begin_open(main_thread, address)
    }

    /// The printer at the other end of a channel that was just opened.
    pub fn connected() -> (r: Self)
        ensures
            is_p300bt(r@.profile),
            r@.status is None,
            r@.tape_width_px is None,
            !r@.initialized,
    {
        BluetoothDevice { session: PrinterSession::new(ModelProfile::p300bt()) }
    }

    /// The model name.
    pub fn model_name(&self) -> (r: &'static str)
        ensures
            r@ == self@.profile.name@,
    {
        self.session.profile().name
    }

    /// Resolution in dots per inch.
    pub fn dpi(&self) -> (r: u16)
        ensures
            r == self@.profile.dpi,
    {
        self.session.profile().dpi
    }

    /// Raster transfer width, distinct from the printable tape width.
    pub fn raster_width_px(&self) -> (r: u16)
        ensures
            r == self@.profile.raster_width_px,
    {
        self.session.raster_width_px()
    }

    /// Printable dots on the loaded tape, if known.
    pub fn tape_width_px(&self) -> (r: Option<u16>)
        ensures
            r == self@.tape_width_px,
    {
        self.session.tape_width_px()
    }

    /// The last report, if there is one.
    pub fn status(&self) -> (r: Option<&PrinterStatus>)
        ensures
            match self@.status {
                Some(status) => r is Some && *r->Some_0 == status,
                None => r is None,
            },
    {
        self.session.status()
    }

    /// Whether initialization succeeded.
    pub fn is_initialized(&self) -> (r: bool)
        ensures
            r == self@.initialized,
    {
        self.session.is_initialized()
    }

    /// Initialize raster mode and query the status.
    pub fn init(&self, now: u64) -> (r: Step)
        ensures
            r@ == self@.flushing(now, AfterFlushModel::Reset, now),
            r.wf(),
    {
        self.session.init(now)
    }

    /// Query the status without resetting the printer.
    pub fn query_status(&self, now: u64) -> (r: Step)
        ensures
            r@ == self@.flushing(now, AfterFlushModel::Query, now),
            r.wf(),
    {
        self.session.query_status(now)
    }

    /// Go on with an initialization or a query.
    pub fn resume(&mut self, operation: Operation, reply: Reply, now: u64) -> (r: Step)
        requires
            operation.wf(),
            operation@.accepts(reply@),
        ensures
            (final(self)@, r@) == old(self)@.resumed(operation@, reply@, now),
            r.wf(),
    {
        self.session.resume(operation, reply, now)
    }

    fn query_turn(&mut self, step: Step, lines: Vec<Vec<u8>>, now: u64) -> (r: LabelStep)
        requires
            step.wf(),
        ensures
            (final(self)@, r@) == of_query((old(self)@, step@), contents(lines@), now),
            r.wf(),
    {
        match step {
            Step::Do { operation, action } => LabelStep::Do {
                operation: LabelOperation { phase: LabelPhase::Refresh { operation, lines } },
                action,
            },
            Step::Done(Err(error)) => LabelStep::Done(Err(error)),
            Step::Done(Ok(())) => {
                let step: Step = self.session.print_raster(
                    lines.as_slice(),
                    false,
                    false,
                    PrintQuality::Standard,
                    now,
                );
                let label: LabelStep = job_step(step);
                assert((self@, label@) == of_job((self@, step@)));
                label
            },
        }
    }

    /// Print one label and wait for the completion report of the printer.
    ///
    /// Readiness and media are queried before the job is made. Tape widths that
    /// were not verified and marks outside the printable area are rejected. A
    /// failed job is never submitted again by itself.
    pub fn print_raster(&mut self, lines: Vec<Vec<u8>>, now: u64) -> (r: LabelStep)
        ensures
            (final(self)@, r@) == labelling(old(self)@, contents(lines@), now),
            r.wf(),
    {
        if !self.session.is_initialized() {
            return LabelStep::Done(Err(PtouchError::NotInitialized));
        }
        let step: Step = self.session.query_status(now);
        self.query_turn(step, lines, now)
    }

    /// Go on with a label once the reply to its last action is there.
    pub fn resume_label(&mut self, operation: LabelOperation, reply: Reply, now: u64) -> (r:
        LabelStep)
        requires
            operation.wf(),
            operation@.phase().accepts(reply@),
        ensures
            (final(self)@, r@) == label_resumed(old(self)@, operation@, reply@, now),
            r.wf(),
    {
        match operation.phase {
            LabelPhase::Refresh { operation, lines } => {
                let step: Step = self.session.resume(operation, reply, now);
                self.query_turn(step, lines, now)
            },
            LabelPhase::Print { operation } => {
                let step: Step = self.session.resume(operation, reply, now);
                let label: LabelStep = job_step(step);
                assert((self@, label@) == of_job((self@, step@)));
                label
            },
        }
    }
}

// ---------------------------------------------------------------------
// What holds of a label
// ---------------------------------------------------------------------

/// The printer and the step of the label once the replies have come, each with
/// the time of its arrival.
pub open spec fn label_run(s: SessionModel, step: LabelStepModel, replies: Seq<(ReplyModel, u64)>) -> (
    SessionModel,
    LabelStepModel,
)
    decreases replies.len(),
{
    match step {
        LabelStepModel::Done(r) => (s, step),
        LabelStepModel::Do { label, action } => if replies.len() == 0 {
            (s, step)
        } else {
            let (s1, step1) = label_resumed(s, label, replies[0].0, replies[0].1);
            label_run(s1, step1, replies.drop_first())
        },
    }
}

/// The time of the last reply, or `now` without one.
pub open spec fn last_time(replies: Seq<(ReplyModel, u64)>, now: u64) -> u64 {
    if replies.len() == 0 {
        now
    } else {
        replies.last().1
    }
}

/// Whether a run is still under way before its last reply.
pub open spec fn lasts(s: SessionModel, step: StepModel, replies: Seq<(ReplyModel, u64)>) -> bool
    decreases replies.len(),
{
    match step {
        StepModel::Done(r) => replies.len() == 0,
        StepModel::Do { phase, action } => replies.len() == 0 || {
            let (s1, step1) = s.resumed(phase, replies[0].0, replies[0].1);
            lasts(s1, step1, replies.drop_first())
        },
    }
}

proof fn lemma_query_part(
    s: SessionModel,
    step: StepModel,
    lines: Seq<Seq<u8>>,
    replies: Seq<(ReplyModel, u64)>,
    now: u64,
)
    requires
        lasts(s, step, replies),
    ensures
        ({
            let (s1, label1) = of_query((s, step), lines, now);
            label_run(s1, label1, replies) == of_query(
                run(s, step, replies),
                lines,
                last_time(replies, now),
            )
        }),
    decreases replies.len(),
{
    if let StepModel::Do { phase, action } = step {
        if replies.len() > 0 {
            let (s1, step1) = s.resumed(phase, replies[0].0, replies[0].1);
            let rest = replies.drop_first();
            lemma_query_part(s1, step1, lines, rest, replies[0].1);
            assert(last_time(rest, replies[0].1) == last_time(replies, now));
            let (s2, label2) = of_query((s1, step1), lines, replies[0].1);
            assert(label_run(s, of_query((s, step), lines, now).1, replies) == label_run(
                s2,
                label2,
                rest,
            ));
        }
    }
}

/// A label starts with a status query, and the job is made from what the query
/// has found: as long as the query is under way, and when it has just ended, the
/// label stands where the query stands. In particular nothing of the job is sent
/// before the query has succeeded, and a failed query fails the label.
pub proof fn law_label_is_preceded_by_query(
    s: SessionModel,
    lines: Seq<Seq<u8>>,
    replies: Seq<(ReplyModel, u64)>,
    now: u64,
)
    requires
        s.initialized,
        replies.len() > 0,
        lasts(s, query_step(s, now), replies),
    ensures
        ({
            let (s1, label1) = labelling(s, lines, now);
            label_run(s1, label1, replies) == of_query(
                run(s, query_step(s, now), replies),
                lines,
                replies.last().1,
            )
        }),
{
    lemma_query_part(s, query_step(s, now), lines, replies, now);
}

/// A label waits for the reply that the query or the job waits for, of which it
/// consists at the moment.
pub proof fn law_label_waits_for_its_part(phase: PhaseModel, lines: Seq<Seq<u8>>)
    ensures
        (LabelModel::Refresh { phase, lines }).phase() == phase,
        (LabelModel::Print { phase }).phase() == phase,
{
}

} // verus!
