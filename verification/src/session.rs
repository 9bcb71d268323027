//! Printer state and the lifecycle of its operations, independent of the
//! transport.
//!
//! An operation starts with a call such as [`PrinterSession::init`] and goes on
//! with [`PrinterSession::resume`] until its [`Step`] is done.

use vstd::prelude::*;

use crate::device::DeviceFlags;
use crate::error::{ErrorModel, PtouchError};
use crate::frames::StatusFrameBuffer;
use crate::link::{
    answers_receive, answers_send, answers_sleep, elapsed, elapsed_since, Action, ActionModel,
    Reply, ReplyModel, FLUSH_BUFFER_SIZE, FLUSH_TIMEOUT, P300BT_COMPLETION_TIMEOUT,
    P300BT_QUERY_TIMEOUT, PRINT_STATUS_IDLE_TIMEOUT, STATUS_MAX_RETRIES, STATUS_RETRY_DELAY,
    TRANSFER_TIMEOUT, ZERO_LENGTH_TRANSFER_DELAY,
};
use crate::model::{Dialect, ModelProfile};
use crate::p300bt;
use crate::protocol;
use crate::protocol::{contents, JobOptions, PrintQuality};
use crate::status::{decode, PrinterStatus, STATUS_PACKET_SIZE};
use crate::text::{decimal, push_decimal};
use crate::waiting::{
    parse_status_packet, parsed, P300StatusWait, P300WaitModel, PrintStatusWait, PrintWaitModel,
    WaitStep, WaitStepModel, P300BT_BUFFER_SIZE,
};

verus! {

/// Blank raster lines of a feed: a few make the printer engage the feed
/// mechanism.
pub const FEED_LINES: usize = 3;

// ---------------------------------------------------------------------
// Where an operation stands
// ---------------------------------------------------------------------

/// What a status exchange is for.
#[derive(Debug, Clone, Copy, PartialEq, Eq, Structural)]
pub enum Goal {
    /// Part of the initialization.
    Init,
    /// Wanted for its own sake.
    Report,
}

/// What follows the raster data of a job.
#[derive(Debug, Clone, Copy, PartialEq, Eq, Structural)]
pub enum AfterJob {
    /// Wait for the receiving phase.
    Ready,
    /// Read one completion report, if it comes.
    Completion,
    /// Wait for the completion report of a PT-P300BT.
    P300Completion,
    /// Nothing.
    Nothing,
}

/// What a report of a PT-P300BT is for.
#[derive(Debug, Clone, Copy, PartialEq, Eq, Structural)]
pub enum ReportUse {
    Status(Goal),
    Completion,
}

/// What follows once stale input is flushed.
enum AfterFlush {
    Reset,
    Query,
    Fail(PtouchError),
}

/// The value of what follows a flush: reset the printer, query its status, or
/// fail.
pub enum AfterFlushModel {
    Reset,
    Query,
    Fail(ErrorModel),
}

impl View for AfterFlush {
    type V = AfterFlushModel;

    closed spec fn view(&self) -> AfterFlushModel {
        match self {
            AfterFlush::Reset => AfterFlushModel::Reset,
            AfterFlush::Query => AfterFlushModel::Query,
            AfterFlush::Fail(e) => AfterFlushModel::Fail(e@),
        }
    }
}

enum Phase {
    Flush { start: u64, next: AfterFlush },
    Reset,
    Request { goal: Goal },
    UsbPause { goal: Goal, attempt: usize, frames: StatusFrameBuffer },
    UsbRead { goal: Goal, attempt: usize, frames: StatusFrameBuffer },
    P300Pause { wait: P300StatusWait, purpose: ReportUse },
    P300Read { wait: P300StatusWait, purpose: ReportUse },
    Notify,
    Job { chunks: Vec<Vec<u8>>, cursor: usize, after: AfterJob },
    ReadyPause { watch: PrintStatusWait },
    ReadyRead { watch: PrintStatusWait },
    Completion,
}

/// The reply that an operation waits for.
pub enum PhaseModel {
    /// Stale input, since `start`.
    Flush { start: u64, next: AfterFlushModel },
    /// The reset command being sent.
    Reset,
    /// The status request being sent.
    Request { goal: Goal },
    /// The pause before a status read.
    UsbPause { goal: Goal, attempt: nat, pending: Seq<u8> },
    /// A status read; `attempt` were made before.
    UsbRead { goal: Goal, attempt: nat, pending: Seq<u8> },
    /// The pause after an empty read.
    P300Pause { wait: P300WaitModel, purpose: ReportUse },
    /// A report of a PT-P300BT.
    P300Read { wait: P300WaitModel, purpose: ReportUse },
    /// Automatic reports being turned on.
    Notify,
    /// A command of a job being sent, with `rest` to follow.
    Job { rest: Seq<Seq<u8>>, after: AfterJob },
    /// The pause after an empty read.
    ReadyPause { watch: PrintWaitModel },
    /// A report after a print command.
    ReadyRead { watch: PrintWaitModel },
    /// A completion report.
    Completion,
}

impl PhaseModel {
    /// What holds of every operation under way.
    pub open spec fn wf(self) -> bool {
        match self {
            PhaseModel::UsbPause { goal, attempt, pending } => attempt < STATUS_MAX_RETRIES
                && pending.len() < STATUS_PACKET_SIZE,
            PhaseModel::UsbRead { goal, attempt, pending } => attempt < STATUS_MAX_RETRIES
                && pending.len() < STATUS_PACKET_SIZE,
            PhaseModel::ReadyPause { watch } => watch.wf(),
            PhaseModel::ReadyRead { watch } => watch.wf(),
            _ => true,
        }
    }

    /// Whether a reply answers what the operation has asked for.
    pub open spec fn accepts(self, reply: ReplyModel) -> bool {
        match self {
            PhaseModel::Flush { start, next } => answers_receive(reply, FLUSH_BUFFER_SIZE),
            PhaseModel::Reset => answers_send(reply),
            PhaseModel::Request { goal } => answers_send(reply),
            PhaseModel::Notify => answers_send(reply),
            PhaseModel::Job { rest, after } => answers_send(reply),
            PhaseModel::UsbPause { goal, attempt, pending } => answers_sleep(reply),
            PhaseModel::P300Pause { wait, purpose } => answers_sleep(reply),
            PhaseModel::ReadyPause { watch } => answers_sleep(reply),
            // More bytes than the buffer holds cannot be taken from it.
            PhaseModel::UsbRead { goal, attempt, pending } => answers_receive(
                reply,
                STATUS_PACKET_SIZE,
            ) && (reply matches ReplyModel::Received { count, buffer } ==> count
                <= STATUS_PACKET_SIZE),
            PhaseModel::P300Read { wait, purpose } => answers_receive(reply, P300BT_BUFFER_SIZE),
            PhaseModel::ReadyRead { watch } => answers_receive(reply, STATUS_PACKET_SIZE),
            PhaseModel::Completion => answers_receive(reply, STATUS_PACKET_SIZE),
        }
    }
}

/// An operation under way.
pub struct Operation {
    phase: Phase,
}

impl View for Operation {
    type V = PhaseModel;

    closed spec fn view(&self) -> PhaseModel {
        match self.phase {
            Phase::Flush { start, next } => PhaseModel::Flush { start, next: next@ },
            Phase::Reset => PhaseModel::Reset,
            Phase::Request { goal } => PhaseModel::Request { goal },
            Phase::UsbPause { goal, attempt, frames } => PhaseModel::UsbPause {
                goal,
                attempt: attempt as nat,
                pending: frames@,
            },
            Phase::UsbRead { goal, attempt, frames } => PhaseModel::UsbRead {
                goal,
                attempt: attempt as nat,
                pending: frames@,
            },
            Phase::P300Pause { wait, purpose } => PhaseModel::P300Pause { wait: wait@, purpose },
            Phase::P300Read { wait, purpose } => PhaseModel::P300Read { wait: wait@, purpose },
            Phase::Notify => PhaseModel::Notify,
            Phase::Job { chunks, cursor, after } => PhaseModel::Job {
                rest: contents(chunks@).skip(cursor as int),
                after,
            },
            Phase::ReadyPause { watch } => PhaseModel::ReadyPause { watch: watch@ },
            Phase::ReadyRead { watch } => PhaseModel::ReadyRead { watch: watch@ },
            Phase::Completion => PhaseModel::Completion,
        }
    }
}

impl Operation {
    /// What holds of every operation under way.
    pub closed spec fn wf(&self) -> bool {
        &&& self@.wf()
        &&& match self.phase {
            Phase::Job { chunks, cursor, after } => cursor <= chunks@.len(),
            _ => true,
        }
    }

    /// Whether a reply answers what the operation has asked for.
    pub fn accepts(&self, reply: &Reply) -> (r: bool)
        ensures
            r == self@.accepts(reply@),
    {
        match &self.phase {
            Phase::Flush { .. } => Self::is_read(reply, FLUSH_BUFFER_SIZE),
            Phase::Reset | Phase::Request { .. } | Phase::Notify | Phase::Job { .. } => {
                matches!(reply, Reply::Sent) || matches!(reply, Reply::Failed(_))
            },
            Phase::UsbPause { .. } | Phase::P300Pause { .. } | Phase::ReadyPause { .. } => {
                matches!(reply, Reply::Slept)
            },
            Phase::UsbRead { .. } => {
                Self::is_read(reply, STATUS_PACKET_SIZE) && match reply {
                    Reply::Received { count, .. } => *count <= STATUS_PACKET_SIZE,
                    _ => true,
                }
            },
            Phase::P300Read { .. } => Self::is_read(reply, P300BT_BUFFER_SIZE),
            Phase::ReadyRead { .. } | Phase::Completion => {
                Self::is_read(reply, STATUS_PACKET_SIZE)
            },
        }
    }

    fn is_read(reply: &Reply, capacity: usize) -> (r: bool)
        ensures
            r == answers_receive(reply@, capacity),
    {
        match reply {
            Reply::Received { buffer, .. } => buffer.len() == capacity,
            Reply::Failed(_) => true,
            _ => false,
        }
    }
}

/// What an operation asks for next, or its result.
pub enum Step {
    /// Perform the action, and resume the operation with the reply.
    Do { operation: Operation, action: Action },
    /// The operation is over.
    Done(Result<(), PtouchError>),
}

/// The value of a [`Step`].
pub enum StepModel {
    Do { phase: PhaseModel, action: ActionModel },
    Done(Result<(), ErrorModel>),
}

impl StepModel {
    /// Whether the operation is over and has succeeded.
    pub open spec fn is_success(self) -> bool {
        self matches StepModel::Done(r) && r is Ok
    }

    /// Whether the operation is over and has failed.
    pub open spec fn is_failure(self) -> bool {
        self matches StepModel::Done(r) && r is Err
    }
}

impl View for Step {
    type V = StepModel;

    open spec fn view(&self) -> StepModel {
        match self {
            Step::Do { operation, action } => StepModel::Do {
                phase: operation@,
                action: action@,
            },
            Step::Done(Ok(())) => StepModel::Done(Ok(())),
            Step::Done(Err(e)) => StepModel::Done(Err(e@)),
        }
    }
}

impl Step {
    /// What holds of every step.
    pub open spec fn wf(&self) -> bool {
        match self {
            Step::Do { operation, action } => operation.wf(),
            Step::Done(r) => true,
        }
    }
}

// ---------------------------------------------------------------------
// What a session does
// ---------------------------------------------------------------------

/// The value of a [`PrinterSession`].
pub struct SessionModel {
    pub profile: ModelProfile,
    /// The last report.
    pub status: Option<PrinterStatus>,
    /// Printable dots on the loaded tape.
    pub tape_width_px: Option<u16>,
    pub initialized: bool,
}

/// Hand `bytes` to the printer, and wait in `phase`.
pub open spec fn sending(phase: PhaseModel, bytes: Seq<u8>) -> StepModel {
    StepModel::Do { phase, action: ActionModel::Send { bytes, timeout: TRANSFER_TIMEOUT } }
}

/// Read from the printer, and wait in `phase`.
pub open spec fn receiving(phase: PhaseModel, capacity: usize, timeout: u64) -> StepModel {
    StepModel::Do { phase, action: ActionModel::Receive { capacity, timeout } }
}

/// Let time pass, and wait in `phase`.
pub open spec fn sleeping(phase: PhaseModel, duration: u64) -> StepModel {
    StepModel::Do { phase, action: ActionModel::Sleep { duration } }
}

/// The operation has failed.
pub open spec fn failed(error: ErrorModel) -> StepModel {
    StepModel::Done(Err(error))
}

/// The operation has succeeded.
pub open spec fn succeeded() -> StepModel {
    StepModel::Done(Ok(()))
}

/// Send the status request.
pub open spec fn requesting(goal: Goal) -> StepModel {
    sending(PhaseModel::Request { goal }, protocol::status_request())
}

/// The complaint that no whole report arrived.
pub open spec fn too_short(held: nat) -> ErrorModel {
    ErrorModel::StatusError(
        "Status packet too short: "@ + decimal(held) + " bytes (expected "@ + decimal(
            STATUS_PACKET_SIZE as nat,
        ) + ")"@,
    )
}

impl SessionModel {
    /// The session with another report.
    pub open spec fn with_status(self, status: PrinterStatus) -> SessionModel {
        SessionModel { status: Some(status), ..self }
    }

    /// The session after a status query: the report and the tape it names.
    pub open spec fn adopting(self, status: PrinterStatus) -> SessionModel {
        SessionModel {
            status: Some(status),
            tape_width_px: self.profile.printable_px(status.media_width),
            ..self
        }
    }

    /// The session with the printer initialized or not.
    pub open spec fn with_initialized(self, initialized: bool) -> SessionModel {
        SessionModel { initialized, ..self }
    }

    /// The tape width of the last report, or zero.
    pub open spec fn media_width(self) -> u8 {
        match self.status {
            Some(status) => status.media_width,
            None => 0,
        }
    }

    /// The reset command of the printer.
    pub open spec fn reset_command(self) -> Seq<u8> {
        match self.profile.dialect {
            Dialect::Usb => protocol::init_command(),
            Dialect::P300Bt => p300bt::init_command(),
        }
    }

    /// Stale input is gone.
    pub open spec fn flushed(self, next: AfterFlushModel) -> StepModel {
        match next {
            AfterFlushModel::Reset => sending(PhaseModel::Reset, self.reset_command()),
            AfterFlushModel::Query => requesting(Goal::Report),
            AfterFlushModel::Fail(e) => failed(e),
        }
    }

    /// Read stale input: on the USB bus until there is none, on a PT-P300BT for
    /// a bounded time.
    pub open spec fn flushing(self, start: u64, next: AfterFlushModel, now: u64) -> StepModel {
        let phase = PhaseModel::Flush { start, next };
        match self.profile.dialect {
            Dialect::Usb => receiving(phase, FLUSH_BUFFER_SIZE, FLUSH_TIMEOUT),
            Dialect::P300Bt => if elapsed(start, now) < FLUSH_TIMEOUT {
                receiving(
                    phase,
                    FLUSH_BUFFER_SIZE,
                    (FLUSH_TIMEOUT - elapsed(start, now)) as u64,
                )
            } else {
                self.flushed(next)
            },
        }
    }

    /// A status exchange has succeeded.
    pub open spec fn concluded(self, goal: Goal) -> (SessionModel, StepModel) {
        match goal {
            Goal::Report => (self, succeeded()),
            Goal::Init => if self.profile.flags.has(DeviceFlags::AUTO_STATUS_NOTIFICATION) {
                (self, sending(PhaseModel::Notify, protocol::auto_status_command(true)))
            } else {
                (self.with_initialized(true), succeeded())
            },
        }
    }

    /// A status read brought no whole report.
    pub open spec fn retrying(
        self,
        goal: Goal,
        attempt: nat,
        pending: Seq<u8>,
        now: u64,
    ) -> StepModel {
        if attempt + 1 < STATUS_MAX_RETRIES {
            sleeping(
                PhaseModel::UsbPause { goal, attempt: attempt + 1, pending },
                STATUS_RETRY_DELAY,
            )
        } else {
            self.flushing(now, AfterFlushModel::Fail(too_short(pending.len())), now)
        }
    }

    /// Bytes of a status report have arrived.
    pub open spec fn reading(
        self,
        goal: Goal,
        attempt: nat,
        pending: Seq<u8>,
        now: u64,
    ) -> (SessionModel, StepModel) {
        if pending.len() < STATUS_PACKET_SIZE {
            (self, self.retrying(goal, attempt, pending, now))
        } else {
            match parsed(pending.take(STATUS_PACKET_SIZE as int), "Invalid status header"@) {
                Ok(status) => self.adopting(status).concluded(goal),
                Err(e) => (self, self.flushing(now, AfterFlushModel::Fail(e), now)),
            }
        }
    }

    /// A wait for a report of a PT-P300BT has taken a step.
    pub open spec fn p300_turn(
        self,
        wait: P300WaitModel,
        purpose: ReportUse,
        step: WaitStepModel,
    ) -> (SessionModel, StepModel) {
        match step {
            WaitStepModel::Read { timeout } => (
                self,
                receiving(PhaseModel::P300Read { wait, purpose }, P300BT_BUFFER_SIZE, timeout),
            ),
            WaitStepModel::Pause => (
                self,
                sleeping(PhaseModel::P300Pause { wait, purpose }, ZERO_LENGTH_TRANSFER_DELAY),
            ),
            WaitStepModel::Found(status) => match purpose {
                ReportUse::Status(goal) => self.adopting(status).concluded(goal),
                ReportUse::Completion => (self.with_status(status), succeeded()),
            },
            WaitStepModel::Fault(e) => match purpose {
                ReportUse::Status(goal) => (self, failed(e)),
                // A job that may have been printed in part is never replayed.
                ReportUse::Completion => (self.with_initialized(false), failed(e)),
            },
        }
    }

    /// Begin to wait for a report of a PT-P300BT.
    pub open spec fn p300_begin(self, timeout: u64, purpose: ReportUse, now: u64) -> (
        SessionModel,
        StepModel,
    ) {
        let wait = P300WaitModel {
            start: now,
            timeout,
            completion: purpose is Completion,
            pending: Seq::empty(),
        };
        self.p300_turn(wait.drained(), purpose, wait.poll(now))
    }

    /// A wait for the receiving phase has taken a step. The page has most
    /// likely printed when the printer just stops talking, so silence is no
    /// failure.
    pub open spec fn ready_turn(self, wait: PrintWaitModel, step: WaitStepModel) -> (
        SessionModel,
        StepModel,
    ) {
        match step {
            WaitStepModel::Read { timeout } => (
                self,
                receiving(PhaseModel::ReadyRead { watch: wait }, STATUS_PACKET_SIZE, timeout),
            ),
            WaitStepModel::Pause => (
                self,
                sleeping(PhaseModel::ReadyPause { watch: wait }, ZERO_LENGTH_TRANSFER_DELAY),
            ),
            WaitStepModel::Found(status) => (self.with_status(status), succeeded()),
            WaitStepModel::Fault(e) => if e is Timeout {
                (self, succeeded())
            } else {
                (self, failed(e))
            },
        }
    }

    /// A completion read has come back. Only a complete report counts, and only
    /// an error in it fails the job.
    pub open spec fn completing(self, reply: ReplyModel) -> (SessionModel, StepModel) {
        match reply {
            ReplyModel::Received { count, buffer } => if count >= STATUS_PACKET_SIZE {
                let status = decode(buffer);
                if status.faulty() {
                    (self, failed(ErrorModel::StatusError(status.description())))
                } else {
                    (self.with_status(status), succeeded())
                }
            } else {
                (self, succeeded())
            },
            ReplyModel::Failed(e) => if e is Timeout {
                (self, succeeded())
            } else {
                (self, failed(e))
            },
            _ => (self, succeeded()),
        }
    }

    /// The commands of a job are sent.
    pub open spec fn job_sent(self, after: AfterJob, now: u64) -> (SessionModel, StepModel) {
        match after {
            AfterJob::Ready => {
                let wait = PrintWaitModel {
                    idle_timeout: PRINT_STATUS_IDLE_TIMEOUT,
                    last_transfer: now,
                    pending: Seq::empty(),
                };
                self.ready_turn(wait, wait.poll(now))
            },
            AfterJob::Completion => (
                self,
                receiving(PhaseModel::Completion, STATUS_PACKET_SIZE, TRANSFER_TIMEOUT),
            ),
            AfterJob::P300Completion => self.p300_begin(
                P300BT_COMPLETION_TIMEOUT,
                ReportUse::Completion,
                now,
            ),
            AfterJob::Nothing => (self, succeeded()),
        }
    }

    /// Send the next command of a job.
    pub open spec fn dispatching(self, rest: Seq<Seq<u8>>, after: AfterJob, now: u64) -> (
        SessionModel,
        StepModel,
    ) {
        if rest.len() == 0 {
            self.job_sent(after, now)
        } else {
            (self, sending(PhaseModel::Job { rest: rest.drop_first(), after }, rest[0]))
        }
    }

    /// A command of a job could not be sent.
    pub open spec fn job_failed(self, after: AfterJob, error: ErrorModel) -> (
        SessionModel,
        StepModel,
    ) {
        if after == AfterJob::P300Completion {
            (self.with_initialized(false), failed(error))
        } else {
            (self, failed(error))
        }
    }

    /// What follows the raster data of a label.
    pub open spec fn after_label(self) -> AfterJob {
        if self.profile.dialect == Dialect::P300Bt {
            AfterJob::P300Completion
        } else if self.profile.flags.has(DeviceFlags::WAIT_FOR_RECEIVE_READY) {
            AfterJob::Ready
        } else {
            AfterJob::Completion
        }
    }

    /// The commands of a label, or the reason for which it is refused.
    pub open spec fn label(
        self,
        lines: Seq<Seq<u8>>,
        chain_print: bool,
        precut: bool,
        quality: PrintQuality,
    ) -> Result<Seq<Seq<u8>>, ErrorModel> {
        if !self.initialized {
            Err(ErrorModel::NotInitialized)
        } else if quality != PrintQuality::Standard && !self.profile.flags.has(
            DeviceFlags::LEGACY_HIRES,
        ) {
            Err(ErrorModel::UnsupportedQuality(self.profile.name@))
        } else if self.profile.dialect == Dialect::P300Bt {
            match self.status {
                None => Err(ErrorModel::NotInitialized),
                Some(status) => p300bt::planned(lines, status, chain_print),
            }
        } else {
            Ok(
                protocol::job(
                    lines,
                    self.profile.flags,
                    JobOptions { media_width: self.media_width(), chain_print, precut, quality },
                ),
            )
        }
    }

    /// Print a label.
    pub open spec fn printing(
        self,
        lines: Seq<Seq<u8>>,
        chain_print: bool,
        precut: bool,
        quality: PrintQuality,
        now: u64,
    ) -> (SessionModel, StepModel) {
        match self.label(lines, chain_print, precut, quality) {
            Err(e) => (self, failed(e)),
            Ok(job) => self.dispatching(job, self.after_label(), now),
        }
    }

    /// The raster lines of a feed: a minimal blank strip.
    pub open spec fn feed_strip(self) -> Seq<Seq<u8>> {
        Seq::new(
            FEED_LINES as nat,
            |i: int| protocol::zeros(protocol::line_bytes(self.profile.raster_width_px)),
        )
    }

    /// The commands of a feed: a job of a few blank lines, at the end of which
    /// the tape is cut.
    pub open spec fn feed_job(self) -> Seq<Seq<u8>> {
        protocol::job(
            self.feed_strip(),
            self.profile.flags,
            JobOptions {
                media_width: self.media_width(),
                chain_print: false,
                precut: false,
                quality: PrintQuality::Standard,
            },
        )
    }

    /// Feed the tape and cut it.
    pub open spec fn feeding(self, now: u64) -> (SessionModel, StepModel) {
        if self.profile.dialect == Dialect::P300Bt {
            (self, failed(ErrorModel::UnsupportedOperation("PT-P300BT has a manual cutter"@)))
        } else if !self.initialized {
            (self, failed(ErrorModel::NotInitialized))
        } else {
            self.dispatching(
                self.feed_job(),
                if self.profile.flags.has(DeviceFlags::WAIT_FOR_RECEIVE_READY) {
                    AfterJob::Ready
                } else {
                    AfterJob::Nothing
                },
                now,
            )
        }
    }

    /// The session and its next step once a reply has come.
    pub open spec fn resumed(self, phase: PhaseModel, reply: ReplyModel, now: u64) -> (
        SessionModel,
        StepModel,
    ) {
        match phase {
            PhaseModel::Flush { start, next } => match reply {
                ReplyModel::Received { count, buffer } => if count > 0 {
                    (self, self.flushing(start, next, now))
                } else {
                    (self, self.flushed(next))
                },
                _ => (self, self.flushed(next)),
            },
            PhaseModel::Reset => match reply {
                ReplyModel::Failed(e) => (self, failed(e)),
                _ => (self, requesting(Goal::Init)),
            },
            PhaseModel::Request { goal } => match reply {
                ReplyModel::Failed(e) => (self, failed(e)),
                _ => match self.profile.dialect {
                    Dialect::Usb => (
                        self,
                        sleeping(
                            PhaseModel::UsbPause { goal, attempt: 0, pending: Seq::empty() },
                            STATUS_RETRY_DELAY,
                        ),
                    ),
                    Dialect::P300Bt => self.p300_begin(
                        P300BT_QUERY_TIMEOUT,
                        ReportUse::Status(goal),
                        now,
                    ),
                },
            },
            PhaseModel::UsbPause { goal, attempt, pending } => (
                self,
                receiving(
                    PhaseModel::UsbRead { goal, attempt, pending },
                    STATUS_PACKET_SIZE,
                    TRANSFER_TIMEOUT,
                ),
            ),
            PhaseModel::UsbRead { goal, attempt, pending } => match reply {
                ReplyModel::Received { count, buffer } => if count == 0 {
                    (self, self.retrying(goal, attempt, pending, now))
                } else {
                    self.reading(goal, attempt, pending + buffer.take(count as int), now)
                },
                ReplyModel::Failed(e) => if e is Timeout {
                    (self, self.retrying(goal, attempt, pending, now))
                } else {
                    (self, failed(e))
                },
                _ => (self, self.retrying(goal, attempt, pending, now)),
            },
            PhaseModel::P300Pause { wait, purpose } => self.p300_turn(
                wait.drained(),
                purpose,
                wait.poll(now),
            ),
            PhaseModel::P300Read { wait, purpose } => {
                let (after, step) = wait.absorb(reply, now);
                self.p300_turn(after, purpose, step)
            },
            PhaseModel::Notify => match reply {
                ReplyModel::Failed(e) => (self, failed(e)),
                _ => (self.with_initialized(true), succeeded()),
            },
            PhaseModel::Job { rest, after } => match reply {
                ReplyModel::Failed(e) => self.job_failed(after, e),
                _ => self.dispatching(rest, after, now),
            },
            PhaseModel::ReadyPause { watch } => self.ready_turn(watch, watch.poll(now)),
            PhaseModel::ReadyRead { watch } => {
                let (after, step) = watch.absorb(reply, now);
                self.ready_turn(after, step)
            },
            PhaseModel::Completion => self.completing(reply),
        }
    }
}

// ---------------------------------------------------------------------
// The session
// ---------------------------------------------------------------------

/// A printer and what is known of its state.
pub struct PrinterSession {
    profile: ModelProfile,
    status: Option<PrinterStatus>,
    tape_width_px: Option<u16>,
    initialized: bool,
}

impl View for PrinterSession {
    type V = SessionModel;

    closed spec fn view(&self) -> SessionModel {
        SessionModel {
            profile: self.profile,
            status: self.status,
            tape_width_px: self.tape_width_px,
            initialized: self.initialized,
        }
    }
}

fn send_step(phase: Phase, bytes: Vec<u8>) -> (r: Step)
    ensures
        r@ == sending((Operation { phase })@, bytes@),
        (Operation { phase }).wf() ==> r.wf(),
{
    Step::Do {
        operation: Operation { phase },
        action: Action::Send { bytes, timeout: TRANSFER_TIMEOUT },
    }
}

fn receive_step(phase: Phase, capacity: usize, timeout: u64) -> (r: Step)
    ensures
        r@ == receiving((Operation { phase })@, capacity, timeout),
        (Operation { phase }).wf() ==> r.wf(),
{
    Step::Do { operation: Operation { phase }, action: Action::Receive { capacity, timeout } }
}

fn sleep_step(phase: Phase, duration: u64) -> (r: Step)
    ensures
        r@ == sleeping((Operation { phase })@, duration),
        (Operation { phase }).wf() ==> r.wf(),
{
    Step::Do { operation: Operation { phase }, action: Action::Sleep { duration } }
}

fn request_step(goal: Goal) -> (r: Step)
    ensures
        r@ == requesting(goal),
        r.wf(),
{
    send_step(Phase::Request { goal }, protocol::cmd_status_request())
}

fn copy_of(bytes: &Vec<u8>) -> (r: Vec<u8>)
    ensures
        r@ == bytes@,
{
    let mut out: Vec<u8> = Vec::new();
    protocol::push_all(&mut out, bytes.as_slice());
    assert(out@ =~= bytes@);
    out
}

impl PrinterSession {
    /// A session with a printer of which nothing is known yet.
    pub fn new(profile: ModelProfile) -> (r: Self)
        ensures
            r@ == (SessionModel { profile, status: None, tape_width_px: None, initialized: false }),
    {
        PrinterSession { profile, status: None, tape_width_px: None, initialized: false }
    }

    /// The profile of the printer.
    pub fn profile(&self) -> (r: ModelProfile)
        ensures
            r == self@.profile,
    {
        self.profile
    }

    /// The flags of the printer.
    pub fn flags(&self) -> (r: DeviceFlags)
        ensures
            r == self@.profile.flags,
    {
        self.profile.flags
    }

    /// The last report, if there is one.
    pub fn status(&self) -> (r: Option<&PrinterStatus>)
        ensures
            match self@.status {
                Some(status) => r is Some && *r->Some_0 == status,
                None => r is None,
            },
    {
        self.status.as_ref()
    }

    /// Printable dots on the loaded tape, if known.
    pub fn tape_width_px(&self) -> (r: Option<u16>)
        ensures
            r == self@.tape_width_px,
    {
        self.tape_width_px
    }

    /// The raster transfer width, which may exceed the printable area.
    pub fn raster_width_px(&self) -> (r: u16)
        ensures
            r == self@.profile.raster_width_px,
    {
        self.profile.raster_width_px
    }

    /// Whether the printer has been initialized.
    pub fn is_initialized(&self) -> (r: bool)
        ensures
            r == self@.initialized,
    {
        self.initialized
    }

    /// Send raw bytes.
    pub fn send(&self, data: &[u8]) -> (r: Action)
        ensures
            r@ == (ActionModel::Send { bytes: data@, timeout: TRANSFER_TIMEOUT }),
    {
        let mut bytes: Vec<u8> = Vec::new();
        protocol::push_all(&mut bytes, data);
        assert(bytes@ =~= data@);
        Action::Send { bytes, timeout: TRANSFER_TIMEOUT }
    }

    /// Receive up to `capacity` raw bytes.
    pub fn receive(&self, capacity: usize) -> (r: Action)
        ensures
            r@ == (ActionModel::Receive { capacity, timeout: TRANSFER_TIMEOUT }),
    {
        Action::Receive { capacity, timeout: TRANSFER_TIMEOUT }
    }

    /// Initialize the printer: flush stale input, reset, query the status, and
    /// turn on automatic reports where the printer has them.
    pub fn init(&self, now: u64) -> (r: Step)
        ensures
            r@ == self@.flushing(now, AfterFlushModel::Reset, now),
            r.wf(),
    {
        self.flush_input(now, AfterFlush::Reset, now)
    }

    /// Query the status without resetting the printer, after flushing stale
    /// input.
    pub fn query_status(&self, now: u64) -> (r: Step)
        ensures
            r@ == self@.flushing(now, AfterFlushModel::Query, now),
            r.wf(),
    {
        self.flush_input(now, AfterFlush::Query, now)
    }

    /// Request and read the status.
    pub fn get_status(&self) -> (r: Step)
        ensures
            r@ == requesting(Goal::Report),
            r.wf(),
    {
        request_step(Goal::Report)
    }

    /// Print raster lines.
    ///
    /// With `chain_print` the tape is not cut. With `precut` the tape is cut
    /// ahead of the label where the printer can.
    pub fn print_raster(
        &mut self,
        lines: &[Vec<u8>],
        chain_print: bool,
        precut: bool,
        quality: PrintQuality,
        now: u64,
    ) -> (r: Step)
        ensures
            (final(self)@, r@) == old(self)@.printing(
                contents(lines@),
                chain_print,
                precut,
                quality,
                now,
            ),
            r.wf(),
    {
        if !self.initialized {
            return Step::Done(Err(PtouchError::NotInitialized));
        }
        if quality != PrintQuality::Standard && !self.profile.flags.contains(
            DeviceFlags::LEGACY_HIRES,
        ) {
            return Step::Done(Err(PtouchError::UnsupportedQuality(self.profile.name.to_string())));
        }
        if self.profile.dialect == Dialect::P300Bt {
            return match self.status {
                None => Step::Done(Err(PtouchError::NotInitialized)),
                Some(status) => match p300bt::build_print_job(lines, &status, chain_print) {
                    Err(error) => Step::Done(Err(error)),
                    Ok(job) => self.start_job(job, AfterJob::P300Completion, now),
                },
            };
        }
        let opts: JobOptions = JobOptions {
            media_width: self.media_width(),
            chain_print,
            precut,
            quality,
        };
        let job: Vec<Vec<u8>> = protocol::build_print_job(lines, self.profile.flags, &opts);
        let after: AfterJob = if self.profile.flags.contains(DeviceFlags::WAIT_FOR_RECEIVE_READY) {
            AfterJob::Ready
        } else {
            AfterJob::Completion
        };
        self.start_job(job, after, now)
    }

    /// Feed the tape forward and cut it.
    ///
    /// Prints a minimal blank strip, a few blank raster lines, then ejects and
    /// cuts: the printer needs raster data to engage the feed mechanism.
    pub fn feed_and_cut(&mut self, now: u64) -> (r: Step)
        ensures
            (final(self)@, r@) == old(self)@.feeding(now),
            r.wf(),
    {
        if self.profile.dialect == Dialect::P300Bt {
            return Step::Done(
                Err(PtouchError::UnsupportedOperation("PT-P300BT has a manual cutter")),
            );
        }
        if !self.initialized {
            return Step::Done(Err(PtouchError::NotInitialized));
        }
        let mut lines: Vec<Vec<u8>> = Vec::new();
        while lines.len() < FEED_LINES
            invariant
                lines@.len() <= FEED_LINES,
                contents(lines@) == self@.feed_strip().take(lines@.len() as int),
            decreases FEED_LINES - lines@.len(),
        {
            let ghost before = contents(lines@);
            let line: Vec<u8> = protocol::rasterline_blank(self.profile.raster_width_px);
            lines.push(line);
            assert(contents(lines@) =~= before.push(line@));
            assert(contents(lines@) =~= self@.feed_strip().take(lines@.len() as int));
        }
        assert(contents(lines@) =~= self@.feed_strip());
        let opts: JobOptions = JobOptions {
            media_width: self.media_width(),
            ..JobOptions::default()
        };
        let job: Vec<Vec<u8>> = protocol::build_print_job(
            lines.as_slice(),
            self.profile.flags,
            &opts,
        );
        let after: AfterJob = if self.profile.flags.contains(DeviceFlags::WAIT_FOR_RECEIVE_READY) {
            AfterJob::Ready
        } else {
            AfterJob::Nothing
        };
        self.start_job(job, after, now)
    }

    /// Go on with an operation once the reply to its last action is there.
    pub fn resume(&mut self, operation: Operation, reply: Reply, now: u64) -> (r: Step)
        requires
            operation.wf(),
            operation@.accepts(reply@),
        ensures
            (final(self)@, r@) == old(self)@.resumed(operation@, reply@, now),
            r.wf(),
    {
        match operation.phase {
            Phase::Flush { start, next } => {
                let more: bool = match reply {
                    Reply::Received { count, .. } => count > 0,
                    _ => false,
                };
                if more {
                    self.flush_input(start, next, now)
                } else {
                    self.flushed(next)
                }
            },
            Phase::Reset => match reply {
                Reply::Failed(error) => Step::Done(Err(error)),
                _ => request_step(Goal::Init),
            },
            Phase::Request { goal } => match reply {
                Reply::Failed(error) => Step::Done(Err(error)),
                _ => match self.profile.dialect {
                    Dialect::Usb => sleep_step(
                        Phase::UsbPause { goal, attempt: 0, frames: StatusFrameBuffer::new() },
                        STATUS_RETRY_DELAY,
                    ),
                    Dialect::P300Bt => self.get_p300bt_status(goal, now),
                },
            },
            Phase::UsbPause { goal, attempt, frames } => receive_step(
                Phase::UsbRead { goal, attempt, frames },
                STATUS_PACKET_SIZE,
                TRANSFER_TIMEOUT,
            ),
            Phase::UsbRead { goal, attempt, frames } => self.read_status(
                goal,
                attempt,
                frames,
                reply,
                now,
            ),
            Phase::P300Pause { wait, purpose } => {
                let mut wait = wait;
                let step: WaitStep = wait.poll(now);
                self.p300_turn(wait, purpose, step)
            },
            Phase::P300Read { wait, purpose } => {
                let mut wait = wait;
                let step: WaitStep = wait.absorb(reply, now);
                self.p300_turn(wait, purpose, step)
            },
            Phase::Notify => match reply {
                Reply::Failed(error) => Step::Done(Err(error)),
                _ => {
                    self.initialized = true;
                    Step::Done(Ok(()))
                },
            },
            Phase::Job { chunks, cursor, after } => match reply {
                Reply::Failed(error) => {
                    if after == AfterJob::P300Completion {
                        self.initialized = false;
                    }
                    Step::Done(Err(error))
                },
                _ => self.send_job(chunks, cursor, after, now),
            },
            Phase::ReadyPause { watch } => {
                let step: WaitStep = watch.poll(now);
                self.ready_turn(watch, step)
            },
            Phase::ReadyRead { watch } => {
                let mut watch = watch;
                let step: WaitStep = watch.absorb(reply, now);
                self.ready_turn(watch, step)
            },
            Phase::Completion => self.receive_print_completion(reply),
        }
    }

    fn media_width(&self) -> (r: u8)
        ensures
            r == self@.media_width(),
    {
        match self.status {
            Some(status) => status.media_width,
            None => 0,
        }
    }

    fn flush_input(&self, start: u64, next: AfterFlush, now: u64) -> (r: Step)
        ensures
            r@ == self@.flushing(start, next@, now),
            r.wf(),
    {
        let timeout: u64 = match self.profile.dialect {
            Dialect::Usb => FLUSH_TIMEOUT,
            Dialect::P300Bt => {
                let spent: u64 = elapsed_since(start, now);
                if spent >= FLUSH_TIMEOUT {
                    return self.flushed(next);
                }
                FLUSH_TIMEOUT - spent
            },
        };
        receive_step(Phase::Flush { start, next }, FLUSH_BUFFER_SIZE, timeout)
    }

    fn flushed(&self, next: AfterFlush) -> (r: Step)
        ensures
            r@ == self@.flushed(next@),
            r.wf(),
    {
        match next {
            AfterFlush::Reset => {
                let command: Vec<u8> = match self.profile.dialect {
                    Dialect::Usb => protocol::cmd_init(),
                    Dialect::P300Bt => p300bt::cmd_init(),
                };
                send_step(Phase::Reset, command)
            },
            AfterFlush::Query => request_step(Goal::Report),
            AfterFlush::Fail(error) => Step::Done(Err(error)),
        }
    }

    fn adopt(&mut self, status: PrinterStatus)
        ensures
            final(self)@ == old(self)@.adopting(status),
    {
        self.tape_width_px = self.profile.tape_width_px(status.media_width);
        self.status = Some(status);
    }

    fn conclude(&mut self, goal: Goal) -> (r: Step)
        ensures
            (final(self)@, r@) == old(self)@.concluded(goal),
            r.wf(),
    {
        match goal {
            Goal::Report => Step::Done(Ok(())),
            Goal::Init => {
                if self.profile.flags.contains(DeviceFlags::AUTO_STATUS_NOTIFICATION) {
                    // Enable the phase changes used by the wait for the receiving phase.
                    send_step(Phase::Notify, protocol::cmd_auto_status_notification(true))
                } else {
                    self.initialized = true;
                    Step::Done(Ok(()))
                }
            },
        }
    }

    fn retry(&self, goal: Goal, attempt: usize, frames: StatusFrameBuffer, now: u64) -> (r: Step)
        requires
            attempt < STATUS_MAX_RETRIES,
            frames@.len() < STATUS_PACKET_SIZE,
        ensures
            r@ == self@.retrying(goal, attempt as nat, frames@, now),
            r.wf(),
    {
        if attempt + 1 < STATUS_MAX_RETRIES {
            return sleep_step(
                Phase::UsbPause { goal, attempt: attempt + 1, frames },
                STATUS_RETRY_DELAY,
            );
        }
        let mut text: String = "Status packet too short: ".to_string();
        push_decimal(&mut text, frames.len() as u64);
        text.append(" bytes (expected ");
        push_decimal(&mut text, STATUS_PACKET_SIZE as u64);
        text.append(")");
        assert(PtouchError::StatusError(text)@ == too_short(frames@.len()));
        // Flush junk data before reporting the error.
        self.flush_input(now, AfterFlush::Fail(PtouchError::StatusError(text)), now)
    }

    fn read_status(
        &mut self,
        goal: Goal,
        attempt: usize,
        frames: StatusFrameBuffer,
        reply: Reply,
        now: u64,
    ) -> (r: Step)
        requires
            attempt < STATUS_MAX_RETRIES,
            frames@.len() < STATUS_PACKET_SIZE,
            (PhaseModel::UsbRead { goal, attempt: attempt as nat, pending: frames@ }).accepts(
                reply@,
            ),
        ensures
            (final(self)@, r@) == old(self)@.resumed(
                PhaseModel::UsbRead { goal, attempt: attempt as nat, pending: frames@ },
                reply@,
                now,
            ),
            r.wf(),
    {
        match reply {
            Reply::Received { count, buffer } => {
                if count == 0 {
                    return self.retry(goal, attempt, frames, now);
                }
                let mut frames = frames;
                frames.push(vstd::slice::slice_subrange(buffer.as_slice(), 0, count));
                assert(buffer@.subrange(0, count as int) =~= buffer@.take(count as int));
                match frames.pop() {
                    None => self.retry(goal, attempt, frames, now),
                    Some(response) => match parse_status_packet(
                        &response,
                        "Invalid status header",
                    ) {
                        Ok(status) => {
                            self.adopt(status);
                            self.conclude(goal)
                        },
                        Err(error) => self.flush_input(now, AfterFlush::Fail(error), now),
                    },
                }
            },
            Reply::Failed(error) => {
                if matches!(error, PtouchError::Timeout) {
                    self.retry(goal, attempt, frames, now)
                } else {
                    Step::Done(Err(error))
                }
            },
            _ => self.retry(goal, attempt, frames, now),
        }
    }

    fn get_p300bt_status(&mut self, goal: Goal, now: u64) -> (r: Step)
        ensures
            (final(self)@, r@) == old(self)@.p300_begin(
                P300BT_QUERY_TIMEOUT,
                ReportUse::Status(goal),
                now,
            ),
            r.wf(),
    {
        let mut wait: P300StatusWait = P300StatusWait::new(P300BT_QUERY_TIMEOUT, false, now);
        let step: WaitStep = wait.poll(now);
        self.p300_turn(wait, ReportUse::Status(goal), step)
    }

    fn receive_p300bt_completion(&mut self, now: u64) -> (r: Step)
        ensures
            (final(self)@, r@) == old(self)@.p300_begin(
                P300BT_COMPLETION_TIMEOUT,
                ReportUse::Completion,
                now,
            ),
            r.wf(),
    {
        // A fixed total deadline; phase changes alone never complete the job.
        let mut wait: P300StatusWait = P300StatusWait::new(P300BT_COMPLETION_TIMEOUT, true, now);
        let step: WaitStep = wait.poll(now);
        self.p300_turn(wait, ReportUse::Completion, step)
    }

    fn p300_turn(&mut self, wait: P300StatusWait, purpose: ReportUse, step: WaitStep) -> (r: Step)
        ensures
            (final(self)@, r@) == old(self)@.p300_turn(wait@, purpose, step@),
            r.wf(),
    {
        match step {
            WaitStep::Read { timeout } => receive_step(
                Phase::P300Read { wait, purpose },
                P300BT_BUFFER_SIZE,
                timeout,
            ),
            WaitStep::Pause => sleep_step(
                Phase::P300Pause { wait, purpose },
                ZERO_LENGTH_TRANSFER_DELAY,
            ),
            WaitStep::Found(status) => match purpose {
                ReportUse::Status(goal) => {
                    self.adopt(status);
                    self.conclude(goal)
                },
                ReportUse::Completion => {
                    self.status = Some(status);
                    Step::Done(Ok(()))
                },
            },
            WaitStep::Fault(error) => {
                if matches!(purpose, ReportUse::Completion) {
                    self.initialized = false;
                }
                Step::Done(Err(error))
            },
        }
    }

    fn wait_until_ready(&mut self, now: u64) -> (r: Step)
        ensures
            (final(self)@, r@) == old(self)@.job_sent(AfterJob::Ready, now),
            r.wf(),
    {
        let wait: PrintStatusWait = PrintStatusWait::new(now);
        let step: WaitStep = wait.poll(now);
        self.ready_turn(wait, step)
    }

    fn ready_turn(&mut self, wait: PrintStatusWait, step: WaitStep) -> (r: Step)
        requires
            wait@.wf(),
        ensures
            (final(self)@, r@) == old(self)@.ready_turn(wait@, step@),
            r.wf(),
    {
        match step {
            WaitStep::Read { timeout } => receive_step(
                Phase::ReadyRead { watch: wait },
                STATUS_PACKET_SIZE,
                timeout,
            ),
            WaitStep::Pause => sleep_step(Phase::ReadyPause { watch: wait }, ZERO_LENGTH_TRANSFER_DELAY),
            WaitStep::Found(status) => {
                self.status = Some(status);
                Step::Done(Ok(()))
            },
            WaitStep::Fault(error) => {
                if matches!(error, PtouchError::Timeout) {
                    Step::Done(Ok(()))
                } else {
                    Step::Done(Err(error))
                }
            },
        }
    }

    fn receive_print_completion(&mut self, reply: Reply) -> (r: Step)
        requires
            answers_receive(reply@, STATUS_PACKET_SIZE),
        ensures
            (final(self)@, r@) == old(self)@.completing(reply@),
            r.wf(),
    {
        match reply {
            Reply::Received { count, buffer } => {
                if count >= STATUS_PACKET_SIZE {
                    if let Some(status) = PrinterStatus::from_bytes(buffer.as_slice()) {
                        if status.has_error() {
                            return Step::Done(
                                Err(PtouchError::StatusError(status.error_description())),
                            );
                        }
                        self.status = Some(status);
                    }
                }
                Step::Done(Ok(()))
            },
            Reply::Failed(error) => {
                if matches!(error, PtouchError::Timeout) {
                    Step::Done(Ok(()))
                } else {
                    Step::Done(Err(error))
                }
            },
            _ => Step::Done(Ok(())),
        }
    }

    fn start_job(&mut self, chunks: Vec<Vec<u8>>, after: AfterJob, now: u64) -> (r: Step)
        ensures
            (final(self)@, r@) == old(self)@.dispatching(contents(chunks@), after, now),
            r.wf(),
    {
        assert(contents(chunks@).skip(0) =~= contents(chunks@));
        self.send_job(chunks, 0, after, now)
    }

    fn send_job(&mut self, chunks: Vec<Vec<u8>>, cursor: usize, after: AfterJob, now: u64) -> (r:
        Step)
        requires
            cursor <= chunks@.len(),
        ensures
            (final(self)@, r@) == old(self)@.dispatching(
                contents(chunks@).skip(cursor as int),
                after,
                now,
            ),
            r.wf(),
    {
        if cursor < chunks.len() {
            let ghost rest = contents(chunks@).skip(cursor as int);
            assert(rest.drop_first() =~= contents(chunks@).skip(cursor + 1));
            assert(rest[0] == chunks@[cursor as int]@);
            let bytes: Vec<u8> = copy_of(&chunks[cursor]);
            return send_step(Phase::Job { chunks, cursor: cursor + 1, after }, bytes);
        }
        match after {
            AfterJob::Ready => self.wait_until_ready(now),
            AfterJob::Completion => receive_step(
                Phase::Completion,
                STATUS_PACKET_SIZE,
                TRANSFER_TIMEOUT,
            ),
            AfterJob::P300Completion => self.receive_p300bt_completion(now),
            AfterJob::Nothing => Step::Done(Ok(())),
        }
    }
}

} // verus!
