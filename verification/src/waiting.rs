//! Waiting for the status report that ends an operation.

use vstd::prelude::*;

use crate::error::{outcome, ErrorModel, PtouchError};
use crate::frames::{leftover, reports, StatusFrameBuffer};
use crate::link::{
    answers_receive, elapsed, elapsed_since, Reply, ReplyModel, PRINT_STATUS_IDLE_TIMEOUT,
    PRINT_STATUS_MIN_POLL_TIMEOUT, PRINT_STATUS_POLL_TIMEOUT,
};
use crate::status::{decode, spelled_out, PrinterStatus, STATUS_PACKET_SIZE};
use crate::text::{decimal, hex_byte, push_decimal, push_hex_byte};

verus! {

/// Size of the receive buffer for reports of a PT-P300BT. It deliberately
/// permits several reports in one transfer.
pub const P300BT_BUFFER_SIZE: usize = 128;

// ---------------------------------------------------------------------
// Judging one report
// ---------------------------------------------------------------------

/// The message for a report whose header is wrong.
pub open spec fn header_complaint(message: Seq<char>, status: PrinterStatus) -> Seq<char> {
    message + ": mark="@ + hex_byte(status.print_head_mark) + " size="@ + hex_byte(status.size)
}

/// A report, or the complaint about its header.
pub open spec fn parsed(bytes: Seq<u8>, message: Seq<char>) -> Result<PrinterStatus, ErrorModel> {
    let status = decode(bytes);
    if status.print_head_mark != 0x80 || status.size != 0x20 {
        Err(ErrorModel::StatusError(header_complaint(message, status)))
    } else {
        Ok(status)
    }
}

/// Decode a report and check its header.
pub fn parse_status_packet(
    response: &[u8; STATUS_PACKET_SIZE],
    invalid_header_message: &str,
) -> (r: Result<PrinterStatus, PtouchError>)
    ensures
        outcome(r) == parsed(response@, invalid_header_message@),
        r is Ok <==> response@[0] == 0x80 && response@[1] == 0x20,
        r matches Ok(status) ==> spelled_out(status, response@),
{
    match PrinterStatus::from_bytes(response.as_slice()) {
        Some(status) => {
            if status.print_head_mark != 0x80 || status.size != 0x20 {
                let mut text: String = invalid_header_message.to_string();
                text.append(": mark=");
                push_hex_byte(&mut text, status.print_head_mark);
                text.append(" size=");
                push_hex_byte(&mut text, status.size);
                assert(text@ =~= header_complaint(invalid_header_message@, status));
                Err(PtouchError::StatusError(text))
            } else {
                Ok(status)
            }
        },
        None => Err(PtouchError::StatusError("Failed to parse status packet".to_string())),
    }
}

/// Whether the printer can receive the next page, or the problem it reports.
pub open spec fn readiness(status: PrinterStatus) -> Result<bool, ErrorModel> {
    if status.faulty() {
        Err(ErrorModel::StatusError(status.description()))
    } else if status.status_type == 0x02 {
        Err(ErrorModel::StatusError("Printer reported an unspecified error"@))
    } else if status.status_type == 0x04 {
        Err(ErrorModel::StatusError("Printer turned off"@))
    } else {
        Ok(status.receptive())
    }
}

/// Judge a report that arrives after a print command.
pub fn print_status_is_ready(status: &PrinterStatus) -> (r: Result<bool, PtouchError>)
    ensures
        outcome(r) == readiness(*status),
        r matches Ok(ready) ==> (ready <==> status.status_type == 6 && status.phase_type == 0),
        r is Ok <==> status.error_info_1 == 0 && status.error_info_2 == 0 && status.status_type != 2
            && status.status_type != 4,
{
    if status.has_error() || status.status_type == 0x02 {
        let description: String = if status.has_error() {
            status.error_description()
        } else {
            "Printer reported an unspecified error".to_string()
        };
        return Err(PtouchError::StatusError(description));
    }
    if status.status_type == 0x04 {
        return Err(PtouchError::StatusError("Printer turned off".to_string()));
    }
    Ok(status.is_waiting_to_receive())
}

/// A report that names an error or a power-off never counts as ready.
pub proof fn law_errors_override_readiness(status: PrinterStatus)
    requires
        status.faulty() || status.status_type == 0x02 || status.status_type == 0x04,
    ensures
        readiness(status) is Err,
{
}

/// Printing having completed does not mean that the next page can be received.
pub proof fn law_completion_is_not_readiness(status: PrinterStatus)
    requires
        status.status_type == 0x01,
    ensures
        readiness(status) != Ok::<bool, ErrorModel>(true),
{
}

// ---------------------------------------------------------------------
// One step of a wait
// ---------------------------------------------------------------------

/// What a wait asks for next, or what it has come to.
#[derive(Debug, Clone, PartialEq, Eq)]
pub enum WaitStep {
    /// Read with this timeout.
    Read { timeout: u64 },
    /// Pause after a transfer of no bytes.
    Pause,
    /// The awaited report has arrived.
    Found(PrinterStatus),
    /// The wait has failed.
    Fault(PtouchError),
}

/// The value of a [`WaitStep`].
pub enum WaitStepModel {
    Read { timeout: u64 },
    Pause,
    Found(PrinterStatus),
    Fault(ErrorModel),
}

impl View for WaitStep {
    type V = WaitStepModel;

    open spec fn view(&self) -> WaitStepModel {
        match self {
            WaitStep::Read { timeout } => WaitStepModel::Read { timeout: *timeout },
            WaitStep::Pause => WaitStepModel::Pause,
            WaitStep::Found(status) => WaitStepModel::Found(*status),
            WaitStep::Fault(e) => WaitStepModel::Fault(e@),
        }
    }
}

impl WaitStepModel {
    /// Whether the wait goes on.
    pub open spec fn waiting(self) -> bool {
        self is Read || self is Pause
    }
}

// ---------------------------------------------------------------------
// The receiving phase after a print command
// ---------------------------------------------------------------------

/// A wait for the receiving phase.
pub struct PrintStatusWait {
    idle_timeout: u64,
    last_transfer: u64,
    frames: StatusFrameBuffer,
}

/// The value of a [`PrintStatusWait`].
pub struct PrintWaitModel {
    /// Longest silence.
    pub idle_timeout: u64,
    /// When bytes last arrived.
    pub last_transfer: u64,
    /// Bytes of the report that is still incomplete.
    pub pending: Seq<u8>,
}

impl View for PrintStatusWait {
    type V = PrintWaitModel;

    closed spec fn view(&self) -> PrintWaitModel {
        PrintWaitModel {
            idle_timeout: self.idle_timeout,
            last_transfer: self.last_transfer,
            pending: self.frames@,
        }
    }
}

impl PrintWaitModel {
    /// Less than one report is pending whenever the wait goes on.
    pub open spec fn wf(self) -> bool {
        self.pending.len() < STATUS_PACKET_SIZE
    }

    /// The timeout of the next read, when `remaining` is left of the deadline.
    pub open spec fn read_timeout(remaining: nat) -> u64 {
        if remaining > PRINT_STATUS_POLL_TIMEOUT {
            PRINT_STATUS_POLL_TIMEOUT
        } else if remaining < PRINT_STATUS_MIN_POLL_TIMEOUT {
            PRINT_STATUS_MIN_POLL_TIMEOUT
        } else {
            remaining as u64
        }
    }

    /// Read on unless the printer has been silent for too long.
    pub open spec fn poll(self, now: u64) -> WaitStepModel {
        let silence = elapsed(self.last_transfer, now);
        if silence > self.idle_timeout {
            WaitStepModel::Fault(ErrorModel::Timeout)
        } else {
            WaitStepModel::Read { timeout: Self::read_timeout((self.idle_timeout - silence) as nat) }
        }
    }

    /// The wait after `bytes` have arrived.
    pub open spec fn fed(self, bytes: Seq<u8>, now: u64) -> PrintWaitModel {
        PrintWaitModel {
            idle_timeout: self.idle_timeout,
            last_transfer: now,
            pending: self.pending + bytes,
        }
    }

    /// The wait without its first report.
    pub open spec fn advanced(self) -> PrintWaitModel {
        PrintWaitModel {
            idle_timeout: self.idle_timeout,
            last_transfer: self.last_transfer,
            pending: self.pending.skip(STATUS_PACKET_SIZE as int),
        }
    }

    /// Judge the first report, if it is complete.
    pub open spec fn judge(self, now: u64) -> (PrintWaitModel, WaitStepModel) {
        if self.pending.len() < STATUS_PACKET_SIZE {
            (self, self.poll(now))
        } else {
            match parsed(
                self.pending.take(STATUS_PACKET_SIZE as int),
                "Invalid status header after print"@,
            ) {
                Err(e) => (self.advanced(), WaitStepModel::Fault(e)),
                Ok(status) => match readiness(status) {
                    Err(e) => (self.advanced(), WaitStepModel::Fault(e)),
                    Ok(ready) => if ready {
                        (self.advanced(), WaitStepModel::Found(status))
                    } else {
                        (self.advanced(), self.advanced().poll(now))
                    },
                },
            }
        }
    }

    /// The complaint about a read of more bytes than the buffer holds.
    pub open spec fn overrun(count: usize) -> ErrorModel {
        ErrorModel::StatusError(
            "USB read reported "@ + decimal(count as nat) + " bytes for a "@ + decimal(
                STATUS_PACKET_SIZE as nat,
            ) + "-byte buffer"@,
        )
    }

    /// The wait after a read.
    pub open spec fn absorb(self, reply: ReplyModel, now: u64) -> (PrintWaitModel, WaitStepModel) {
        match reply {
            ReplyModel::Failed(e) => if e is Timeout {
                (self, self.poll(now))
            } else {
                (self, WaitStepModel::Fault(e))
            },
            ReplyModel::Received { count, buffer } => if count > STATUS_PACKET_SIZE {
                (self, WaitStepModel::Fault(Self::overrun(count)))
            } else if count == 0 {
                (self, WaitStepModel::Pause)
            } else {
                self.fed(buffer.take(count as int), now).judge(now)
            },
            _ => (self, self.poll(now)),
        }
    }
}

impl PrintStatusWait {
    /// Wait for the receiving phase with the usual idle deadline.
    pub fn new(now: u64) -> (r: Self)
        ensures
            r@ == (PrintWaitModel {
                idle_timeout: PRINT_STATUS_IDLE_TIMEOUT,
                last_transfer: now,
                pending: Seq::empty(),
            }),
            r@.idle_timeout == 30_000_000_000,
    {
        Self::with_timeout(PRINT_STATUS_IDLE_TIMEOUT, now)
    }

    /// Wait for the receiving phase with the given idle deadline.
    pub fn with_timeout(idle_timeout: u64, now: u64) -> (r: Self)
        ensures
            r@ == (PrintWaitModel { idle_timeout, last_transfer: now, pending: Seq::empty() }),
    {
        PrintStatusWait { idle_timeout, last_transfer: now, frames: StatusFrameBuffer::new() }
    }

    /// Read on unless the printer has been silent for too long.
    pub fn poll(&self, now: u64) -> (r: WaitStep)
        ensures
            r@ == self@.poll(now),
    {
        let silence: u64 = elapsed_since(self.last_transfer, now);
        if silence > self.idle_timeout {
            return WaitStep::Fault(PtouchError::Timeout);
        }
        let remaining: u64 = self.idle_timeout - silence;
        let timeout: u64 = if remaining > PRINT_STATUS_POLL_TIMEOUT {
            PRINT_STATUS_POLL_TIMEOUT
        } else if remaining < PRINT_STATUS_MIN_POLL_TIMEOUT {
            PRINT_STATUS_MIN_POLL_TIMEOUT
        } else {
            remaining
        };
        WaitStep::Read { timeout }
    }

    /// Go on after a read.
    pub fn absorb(&mut self, reply: Reply, now: u64) -> (r: WaitStep)
        requires
            old(self)@.wf(),
            answers_receive(reply@, STATUS_PACKET_SIZE),
        ensures
            r@ == old(self)@.absorb(reply@, now).1,
            final(self)@ == old(self)@.absorb(reply@, now).0,
            final(self)@.wf(),
    {
        match reply {
            Reply::Failed(error) => {
                if matches!(error, PtouchError::Timeout) {
                    self.poll(now)
                } else {
                    WaitStep::Fault(error)
                }
            },
            Reply::Received { count, buffer } => {
                if count > STATUS_PACKET_SIZE {
                    let mut text: String = "USB read reported ".to_string();
                    push_decimal(&mut text, count as u64);
                    text.append(" bytes for a ");
                    push_decimal(&mut text, STATUS_PACKET_SIZE as u64);
                    text.append("-byte buffer");
                    assert(PtouchError::StatusError(text)@ == PrintWaitModel::overrun(count));
                    return WaitStep::Fault(PtouchError::StatusError(text));
                }
                if count == 0 {
                    return WaitStep::Pause;
                }
                // Real bytes mean the job is still alive.
                self.last_transfer = now;
                self.frames.push(vstd::slice::slice_subrange(buffer.as_slice(), 0, count));
                assert(buffer@.subrange(0, count as int) =~= buffer@.take(count as int));
                assert(self@ == old(self)@.fed(buffer@.take(count as int), now));
                self.judge(now)
            },
            _ => self.poll(now),
        }
    }

    fn judge(&mut self, now: u64) -> (r: WaitStep)
        requires
            old(self)@.pending.len() < 2 * STATUS_PACKET_SIZE,
        ensures
            r@ == old(self)@.judge(now).1,
            final(self)@ == old(self)@.judge(now).0,
            final(self)@.wf(),
    {
        match self.frames.pop() {
            None => self.poll(now),
            Some(response) => {
                assert(self@ == old(self)@.advanced());
                match parse_status_packet(&response, "Invalid status header after print") {
                    Err(error) => WaitStep::Fault(error),
                    Ok(status) => match print_status_is_ready(&status) {
                        Err(error) => WaitStep::Fault(error),
                        Ok(ready) => {
                            if ready {
                                WaitStep::Found(status)
                            } else {
                                self.poll(now)
                            }
                        },
                    },
                }
            },
        }
    }
}

// ---------------------------------------------------------------------
// Reports of a PT-P300BT
// ---------------------------------------------------------------------

/// Whether a report comes from a PT-P300BT.
pub open spec fn from_p300bt(status: PrinterStatus) -> bool {
    status.brother_code == 0x42 && status.series_code == 0x30 && status.model_code == 0x72
}

/// Whether a report is the awaited one: that of a completed job, or the answer
/// to a query.
pub open spec fn awaited(status: PrinterStatus, completion: bool) -> bool {
    status.status_type == if completion {
        1u8
    } else {
        0u8
    }
}

/// What one report comes to: the awaited one, one to skip, or a fault.
pub open spec fn examined(frame: Seq<u8>, completion: bool) -> Result<
    Option<PrinterStatus>,
    ErrorModel,
> {
    match parsed(frame, "Invalid PT-P300BT status header"@) {
        Err(e) => Err(e),
        Ok(status) => if !from_p300bt(status) {
            Err(ErrorModel::StatusError("Unexpected PT-P300BT status identity"@))
        } else {
            match readiness(status) {
                Err(e) => Err(e),
                Ok(ready) => if awaited(status, completion) {
                    Ok(Some(status))
                } else {
                    Ok(None)
                },
            }
        },
    }
}

/// What the first report that is not skipped comes to, if there is one.
pub open spec fn verdict(frames: Seq<Seq<u8>>, completion: bool) -> Option<
    Result<PrinterStatus, ErrorModel>,
>
    decreases frames.len(),
{
    if frames.len() == 0 {
        None
    } else {
        match examined(frames[0], completion) {
            Err(e) => Some(Err(e)),
            Ok(Some(status)) => Some(Ok(status)),
            Ok(None) => verdict(frames.drop_first(), completion),
        }
    }
}

/// What is left of a byte stream once its reports are judged: the bytes behind
/// the first report that is not skipped, or behind all reports without one.
pub open spec fn unjudged(stream: Seq<u8>, completion: bool) -> Seq<u8>
    decreases stream.len(),
{
    let rest = stream.skip(STATUS_PACKET_SIZE as int);
    if stream.len() < STATUS_PACKET_SIZE {
        stream
    } else if examined(stream.take(STATUS_PACKET_SIZE as int), completion) == Ok::<
        Option<PrinterStatus>,
        ErrorModel,
    >(None) {
        unjudged(rest, completion)
    } else {
        rest
    }
}

proof fn lemma_unjudged(stream: Seq<u8>, completion: bool)
    ensures
        verdict(reports(stream), completion) is None ==> unjudged(stream, completion) == leftover(
            stream,
        ),
    decreases stream.len(),
{
    if stream.len() >= STATUS_PACKET_SIZE {
        let rest = stream.skip(STATUS_PACKET_SIZE as int);
        assert(reports(stream).drop_first() =~= reports(rest));
        lemma_unjudged(rest, completion);
    }
}

/// A wait for a report of a PT-P300BT, with a fixed total deadline.
pub struct P300StatusWait {
    start: u64,
    timeout: u64,
    completion: bool,
    frames: StatusFrameBuffer,
}

/// The value of a [`P300StatusWait`].
pub struct P300WaitModel {
    /// When the wait began.
    pub start: u64,
    /// Total time for the wait.
    pub timeout: u64,
    /// Whether the completion of a job is awaited, rather than the answer to a query.
    pub completion: bool,
    /// Bytes that have not been judged.
    pub pending: Seq<u8>,
}

impl View for P300StatusWait {
    type V = P300WaitModel;

    closed spec fn view(&self) -> P300WaitModel {
        P300WaitModel {
            start: self.start,
            timeout: self.timeout,
            completion: self.completion,
            pending: self.frames@,
        }
    }
}

impl P300WaitModel {
    /// The wait with other pending bytes.
    pub open spec fn holding(self, pending: Seq<u8>) -> P300WaitModel {
        P300WaitModel {
            start: self.start,
            timeout: self.timeout,
            completion: self.completion,
            pending,
        }
    }

    /// Read on unless the time is up.
    pub open spec fn read_on(self, now: u64) -> WaitStepModel {
        let spent = elapsed(self.start, now);
        if spent >= self.timeout {
            WaitStepModel::Fault(ErrorModel::Timeout)
        } else if self.timeout - spent < PRINT_STATUS_POLL_TIMEOUT {
            WaitStepModel::Read { timeout: (self.timeout - spent) as u64 }
        } else {
            WaitStepModel::Read { timeout: PRINT_STATUS_POLL_TIMEOUT }
        }
    }

    /// Judge the pending reports; without a verdict, read on.
    pub open spec fn poll(self, now: u64) -> WaitStepModel {
        match verdict(reports(self.pending), self.completion) {
            Some(Ok(status)) => WaitStepModel::Found(status),
            Some(Err(e)) => WaitStepModel::Fault(e),
            None => self.read_on(now),
        }
    }

    /// The wait once its pending reports are judged.
    pub open spec fn drained(self) -> P300WaitModel {
        self.holding(leftover(self.pending))
    }

    /// The wait once its pending reports are judged up to the one that ends it.
    pub open spec fn judged(self) -> P300WaitModel {
        self.holding(unjudged(self.pending, self.completion))
    }

    /// The wait after a read, whether it goes on or has ended.
    pub open spec fn after(self, reply: ReplyModel) -> P300WaitModel {
        match reply {
            ReplyModel::Failed(e) => if e is Timeout {
                self.judged()
            } else {
                self
            },
            ReplyModel::Received { count, buffer } => if 0 < count <= P300BT_BUFFER_SIZE {
                self.holding(self.pending + buffer.take(count as int)).judged()
            } else {
                self
            },
            _ => self.judged(),
        }
    }

    /// The wait, if it goes on, and its next step after a read.
    pub open spec fn absorb(self, reply: ReplyModel, now: u64) -> (P300WaitModel, WaitStepModel) {
        match reply {
            ReplyModel::Failed(e) => if e is Timeout {
                (self.drained(), self.poll(now))
            } else {
                (self, WaitStepModel::Fault(e))
            },
            ReplyModel::Received { count, buffer } => if count > P300BT_BUFFER_SIZE {
                (
                    self,
                    WaitStepModel::Fault(
                        ErrorModel::StatusError(
                            "Transport returned more bytes than the receive buffer"@,
                        ),
                    ),
                )
            } else if count == 0 {
                (self, WaitStepModel::Pause)
            } else {
                let fed = self.holding(self.pending + buffer.take(count as int));
                (fed.drained(), fed.poll(now))
            },
            _ => (self.drained(), self.poll(now)),
        }
    }
}

impl P300StatusWait {
    /// Wait for the completion of a job, or for the answer to a query.
    pub fn new(timeout: u64, completion: bool, now: u64) -> (r: Self)
        ensures
            r@ == (P300WaitModel { start: now, timeout, completion, pending: Seq::empty() }),
    {
        P300StatusWait { start: now, timeout, completion, frames: StatusFrameBuffer::new() }
    }

    /// Judge one report.
    fn examine(&self, frame: &[u8; STATUS_PACKET_SIZE]) -> (r: Result<
        Option<PrinterStatus>,
        PtouchError,
    >)
        ensures
            outcome(r) == examined(frame@, self@.completion),
    {
        let status: PrinterStatus = match parse_status_packet(
            frame,
            "Invalid PT-P300BT status header",
        ) {
            Ok(status) => status,
            Err(error) => return Err(error),
        };
        if status.brother_code != 0x42 || status.series_code != 0x30 || status.model_code != 0x72 {
            return Err(
                PtouchError::StatusError("Unexpected PT-P300BT status identity".to_string()),
            );
        }
        // Error and power-off checks are shared with the receiving phase, but
        // completion does not require a later receiving phase.
        match print_status_is_ready(&status) {
            Err(error) => return Err(error),
            Ok(_) => {},
        }
        if (!self.completion && status.status_type == 0) || (self.completion && status.status_type
            == 1) {
            Ok(Some(status))
        } else {
            Ok(None)
        }
    }

    /// Judge the pending reports; without a verdict, read on.
    pub fn poll(&mut self, now: u64) -> (r: WaitStep)
        ensures
            r@ == old(self)@.poll(now),
            final(self)@ == old(self)@.judged(),
            r@.waiting() ==> final(self)@ == old(self)@.drained(),
    {
        let ghost completion = self@.completion;
        let ghost goal = verdict(reports(self@.pending), completion);
        let ghost rest = unjudged(self@.pending, completion);
        proof {
            lemma_unjudged(self@.pending, completion);
        }
        while self.frames.len() >= STATUS_PACKET_SIZE
            invariant
                self@ == old(self)@.holding(self@.pending),
                completion == self@.completion,
                goal == verdict(reports(old(self)@.pending), completion),
                goal == verdict(reports(self@.pending), completion),
                rest == unjudged(old(self)@.pending, completion),
                rest == unjudged(self@.pending, completion),
            decreases self@.pending.len(),
        {
            let ghost before = self@.pending;
            if let Some(frame) = self.frames.pop() {
                assert(reports(before)[0] == frame@);
                assert(reports(before).drop_first() =~= reports(self@.pending));
                match self.examine(&frame) {
                    Err(error) => return WaitStep::Fault(error),
                    Ok(Some(status)) => return WaitStep::Found(status),
                    Ok(None) => {},
                }
            }
        }
        let spent: u64 = elapsed_since(self.start, now);
        if spent >= self.timeout {
            return WaitStep::Fault(PtouchError::Timeout);
        }
        let remaining: u64 = self.timeout - spent;
        if remaining < PRINT_STATUS_POLL_TIMEOUT {
            WaitStep::Read { timeout: remaining }
        } else {
            WaitStep::Read { timeout: PRINT_STATUS_POLL_TIMEOUT }
        }
    }

    /// Go on after a read.
    pub fn absorb(&mut self, reply: Reply, now: u64) -> (r: WaitStep)
        requires
            answers_receive(reply@, P300BT_BUFFER_SIZE),
        ensures
            r@ == old(self)@.absorb(reply@, now).1,
            final(self)@ == old(self)@.after(reply@),
            r@.waiting() ==> final(self)@ == old(self)@.absorb(reply@, now).0,
    {
        match reply {
            Reply::Failed(error) => {
                if matches!(error, PtouchError::Timeout) {
                    self.poll(now)
                } else {
                    WaitStep::Fault(error)
                }
            },
            Reply::Received { count, buffer } => {
                if count > P300BT_BUFFER_SIZE {
                    return WaitStep::Fault(
                        PtouchError::StatusError(
                            "Transport returned more bytes than the receive buffer".to_string(),
                        ),
                    );
                }
                if count == 0 {
                    return WaitStep::Pause;
                }
                self.frames.push(vstd::slice::slice_subrange(buffer.as_slice(), 0, count));
                assert(buffer@.subrange(0, count as int) =~= buffer@.take(count as int));
                self.poll(now)
            },
            _ => self.poll(now),
        }
    }
}

// ---------------------------------------------------------------------
// Deadlines
// ---------------------------------------------------------------------

/// No wait ever asks for a read without a timeout, and none asks for one
/// longer than the poll bound.
pub proof fn law_reads_are_bounded(print: PrintWaitModel, p300bt: P300WaitModel, now: u64)
    ensures
        print.poll(now) matches WaitStepModel::Read { timeout } ==> 0 < timeout
            <= PRINT_STATUS_POLL_TIMEOUT,
        p300bt.poll(now) matches WaitStepModel::Read { timeout } ==> 0 < timeout
            <= PRINT_STATUS_POLL_TIMEOUT,
{
}

/// Every transfer of at least one byte restarts the idle deadline; an empty
/// one does not.
pub proof fn law_bytes_restart_idle_deadline(
    wait: PrintWaitModel,
    count: usize,
    buffer: Seq<u8>,
    now: u64,
)
    requires
        count <= STATUS_PACKET_SIZE,
    ensures
        ({
            let after = wait.absorb(ReplyModel::Received { count, buffer }, now).0;
            &&& after.idle_timeout == wait.idle_timeout
            &&& after.last_transfer == if count == 0 {
                wait.last_transfer
            } else {
                now
            }
        }),
{
}

/// Whatever arrives, the wait for a PT-P300BT ends at its total deadline: no
/// reply moves its start, and no read is asked for once the time is up, nor
/// one that would outlast it.
pub proof fn law_p300bt_deadline_is_fixed(wait: P300WaitModel, reply: ReplyModel, now: u64)
    ensures
        ({
            let (after, step) = wait.absorb(reply, now);
            &&& after.start == wait.start
            &&& after.timeout == wait.timeout
            &&& step matches WaitStepModel::Read { timeout } ==> elapsed(wait.start, now) + timeout
                <= wait.timeout
        }),
{
}

// ---------------------------------------------------------------------
// Fragments
// ---------------------------------------------------------------------

proof fn lemma_verdict_of_concatenation(a: Seq<Seq<u8>>, b: Seq<Seq<u8>>, completion: bool)
    ensures
        verdict(a + b, completion) == match verdict(a, completion) {
            Some(v) => Some(v),
            None => verdict(b, completion),
        },
    decreases a.len(),
{
    if a.len() == 0 {
        assert(a + b =~= b);
    } else {
        assert((a + b).drop_first() =~= a.drop_first() + b);
        lemma_verdict_of_concatenation(a.drop_first(), b, completion);
    }
}

/// What one report after a print command comes to: that of the receiving
/// phase, one to skip, or a fault.
pub open spec fn page_examined(frame: Seq<u8>) -> Result<Option<PrinterStatus>, ErrorModel> {
    match parsed(frame, "Invalid status header after print"@) {
        Err(e) => Err(e),
        Ok(status) => match readiness(status) {
            Err(e) => Err(e),
            Ok(ready) => if ready {
                Ok(Some(status))
            } else {
                Ok(None)
            },
        },
    }
}

/// What the first report that is not skipped comes to after a print command,
/// if there is one.
pub open spec fn page_verdict(frames: Seq<Seq<u8>>) -> Option<Result<PrinterStatus, ErrorModel>>
    decreases frames.len(),
{
    if frames.len() == 0 {
        None
    } else {
        match page_examined(frames[0]) {
            Err(e) => Some(Err(e)),
            Ok(Some(status)) => Some(Ok(status)),
            Ok(None) => page_verdict(frames.drop_first()),
        }
    }
}

proof fn lemma_page_verdict_of_concatenation(a: Seq<Seq<u8>>, b: Seq<Seq<u8>>)
    ensures
        page_verdict(a + b) == match page_verdict(a) {
            Some(v) => Some(v),
            None => page_verdict(b),
        },
    decreases a.len(),
{
    if a.len() == 0 {
        assert(a + b =~= b);
    } else {
        assert((a + b).drop_first() =~= a.drop_first() + b);
        lemma_page_verdict_of_concatenation(a.drop_first(), b);
    }
}

/// The verdict on a byte stream after a print command does not depend on how
/// it was cut into transfers.
pub proof fn law_page_verdict_survives_fragmentation(a: Seq<u8>, b: Seq<u8>)
    ensures
        page_verdict(reports(a + b)) == match page_verdict(reports(a)) {
            Some(v) => Some(v),
            None => page_verdict(reports(leftover(a) + b)),
        },
{
    crate::frames::law_reports_survive_fragmentation(a, b);
    lemma_page_verdict_of_concatenation(reports(a), reports(leftover(a) + b));
}

/// The verdict on a byte stream does not depend on how it was cut into
/// transfers: judging a first part and then what it left over together with the
/// rest comes to the same as judging the whole.
pub proof fn law_verdict_survives_fragmentation(a: Seq<u8>, b: Seq<u8>, completion: bool)
    ensures
        verdict(reports(a + b), completion) == match verdict(reports(a), completion) {
            Some(v) => Some(v),
            None => verdict(reports(leftover(a) + b), completion),
        },
{
    crate::frames::law_reports_survive_fragmentation(a, b);
    lemma_verdict_of_concatenation(reports(a), reports(leftover(a) + b), completion);
}

} // verus!
