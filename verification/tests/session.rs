use std::cell::{Cell, RefCell};
use std::collections::VecDeque;

use ptouch_core::device::DeviceFlags;
use ptouch_core::error::{PtouchError, UsbFault};
use ptouch_core::frames::StatusFrameBuffer;
use ptouch_core::link::{Action, Reply};
use ptouch_core::model::{Dialect, ModelProfile};
use ptouch_core::protocol::PrintQuality;
use ptouch_core::session::{PrinterSession, Step};
use ptouch_core::status::{PrinterStatus, STATUS_PACKET_SIZE};
use ptouch_core::waiting::{P300StatusWait, PrintStatusWait, WaitStep, P300BT_BUFFER_SIZE};

const MILLISECOND: u64 = 1_000_000;
const SECOND: u64 = 1_000 * MILLISECOND;

/// A clock that moves when something waits on it.
struct Clock {
    now: Cell<u64>,
}

impl Clock {
    fn new() -> Self {
        Self { now: Cell::new(7 * SECOND) }
    }
    fn now(&self) -> u64 {
        self.now.get()
    }
    fn advance(&self, duration: u64) {
        self.now.set(self.now.get() + duration);
    }
}

/// Read once: a transfer takes a tenth of a millisecond, a timeout all its time.
fn read_once(
    clock: &Clock,
    receive: &mut dyn FnMut(&mut [u8], u64) -> Result<usize, PtouchError>,
    capacity: usize,
    timeout: u64,
) -> Reply {
    let mut buffer = vec![0u8; capacity];
    match receive(&mut buffer, timeout) {
        Ok(count) => {
            clock.advance(MILLISECOND / 10);
            Reply::Received { count, buffer }
        }
        Err(PtouchError::Timeout) => {
            clock.advance(timeout);
            Reply::Failed(PtouchError::Timeout)
        }
        Err(error) => Reply::Failed(error),
    }
}

fn finish_print_wait(
    clock: &Clock,
    mut wait: PrintStatusWait,
    receive: &mut dyn FnMut(&mut [u8], u64) -> Result<usize, PtouchError>,
) -> Result<PrinterStatus, PtouchError> {
    let mut step = wait.poll(clock.now());
    loop {
        step = match step {
            WaitStep::Read { timeout } => {
                assert!(timeout > 0);
                let reply = read_once(clock, receive, STATUS_PACKET_SIZE, timeout);
                wait.absorb(reply, clock.now())
            }
            WaitStep::Pause => {
                clock.advance(10 * MILLISECOND);
                wait.poll(clock.now())
            }
            WaitStep::Found(status) => return Ok(status),
            WaitStep::Fault(error) => return Err(error),
        };
    }
}

fn receive_print_status(
    mut receive: impl FnMut(&mut [u8], u64) -> Result<usize, PtouchError>,
) -> Result<PrinterStatus, PtouchError> {
    let clock = Clock::new();
    let wait = PrintStatusWait::new(clock.now());
    finish_print_wait(&clock, wait, &mut receive)
}

fn receive_print_status_with_timeout(
    mut receive: impl FnMut(&mut [u8], u64) -> Result<usize, PtouchError>,
    idle_timeout: u64,
) -> Result<PrinterStatus, PtouchError> {
    let clock = Clock::new();
    let wait = PrintStatusWait::with_timeout(idle_timeout, clock.now());
    finish_print_wait(&clock, wait, &mut receive)
}

fn read_p300bt_status(
    mut receive: impl FnMut(&mut [u8], u64) -> Result<usize, PtouchError>,
    timeout: u64,
    wait_for_completion: bool,
) -> Result<PrinterStatus, PtouchError> {
    let clock = Clock::new();
    let mut wait = P300StatusWait::new(timeout, wait_for_completion, clock.now());
    let mut step = wait.poll(clock.now());
    loop {
        step = match step {
            WaitStep::Read { timeout } => {
                let reply = read_once(&clock, &mut receive, P300BT_BUFFER_SIZE, timeout);
                wait.absorb(reply, clock.now())
            }
            WaitStep::Pause => {
                clock.advance(10 * MILLISECOND);
                wait.poll(clock.now())
            }
            WaitStep::Found(status) => return Ok(status),
            WaitStep::Fault(error) => return Err(error),
        };
    }
}

fn status_packet(status_type: u8, phase_type: u8) -> [u8; STATUS_PACKET_SIZE] {
    let mut packet = [0u8; STATUS_PACKET_SIZE];
    packet[0] = 0x80;
    packet[1] = 0x20;
    packet[18] = status_type;
    packet[19] = phase_type;
    packet
}

struct ScriptedTransport {
    writes: RefCell<Vec<Vec<u8>>>,
    fail_on_write: Cell<Option<usize>>,
    reads: RefCell<VecDeque<Vec<u8>>>,
    answer: RefCell<Vec<u8>>,
    receives: Cell<usize>,
    clock: Clock,
}

impl ScriptedTransport {
    fn new() -> Self {
        Self {
            writes: RefCell::new(Vec::new()),
            fail_on_write: Cell::new(None),
            reads: RefCell::new(VecDeque::new()),
            answer: RefCell::new(p300bt_packet(0, 0).to_vec()),
            receives: Cell::new(0),
            clock: Clock::new(),
        }
    }

    fn send(&self, data: &[u8]) -> Result<(), PtouchError> {
        self.writes.borrow_mut().push(data.to_vec());
        if self.fail_on_write.get() == Some(self.writes.borrow().len()) {
            return Err(PtouchError::SendFailed("Injected transfer failure".into()));
        }
        if data == [0x1b, 0x69, 0x53] {
            let answer = self.answer.borrow();
            if answer.len() >= 11 {
                self.reads
                    .borrow_mut()
                    .extend([answer[..11].to_vec(), answer[11..].to_vec()]);
            }
        }
        Ok(())
    }

    fn receive(&self, buf: &mut [u8]) -> Result<usize, PtouchError> {
        self.receives.set(self.receives.get() + 1);
        let bytes = self
            .reads
            .borrow_mut()
            .pop_front()
            .ok_or(PtouchError::Timeout)?;
        buf[..bytes.len()].copy_from_slice(&bytes);
        Ok(bytes.len())
    }

    fn perform(&self, action: Action) -> Reply {
        match action {
            Action::Send { bytes, .. } => match self.send(&bytes) {
                Ok(()) => Reply::Sent,
                Err(error) => Reply::Failed(error),
            },
            Action::Receive { capacity, timeout } => {
                let mut receive = |buf: &mut [u8], _timeout: u64| self.receive(buf);
                read_once(&self.clock, &mut receive, capacity, timeout)
            }
            Action::Sleep { duration } => {
                self.clock.advance(duration);
                Reply::Slept
            }
        }
    }
}

/// A session together with the transport that serves it.
struct Printer {
    session: PrinterSession,
    transport: ScriptedTransport,
}

impl Printer {
    fn new(profile: ModelProfile) -> Self {
        Self {
            session: PrinterSession::new(profile),
            transport: ScriptedTransport::new(),
        }
    }

    fn finish(&mut self, mut step: Step) -> Result<(), PtouchError> {
        loop {
            match step {
                Step::Done(result) => return result,
                Step::Do { operation, action } => {
                    let reply = self.transport.perform(action);
                    assert!(operation.accepts(&reply));
                    step = self.session.resume(operation, reply, self.transport.clock.now());
                }
            }
        }
    }

    fn init(&mut self) -> Result<(), PtouchError> {
        let step = self.session.init(self.transport.clock.now());
        self.finish(step)
    }

    fn query_status(&mut self) -> Result<(), PtouchError> {
        let step = self.session.query_status(self.transport.clock.now());
        self.finish(step)
    }

    fn get_status(&mut self) -> Result<(), PtouchError> {
        let step = self.session.get_status();
        self.finish(step)
    }

    fn print_raster(
        &mut self,
        lines: &[Vec<u8>],
        chain_print: bool,
        precut: bool,
        quality: PrintQuality,
    ) -> Result<(), PtouchError> {
        let now = self.transport.clock.now();
        let step = self.session.print_raster(lines, chain_print, precut, quality, now);
        self.finish(step)
    }

    fn feed_and_cut(&mut self) -> Result<(), PtouchError> {
        let now = self.transport.clock.now();
        let step = self.session.feed_and_cut(now);
        self.finish(step)
    }

    fn queue(&self, bytes: &[u8]) {
        self.transport.reads.borrow_mut().push_back(bytes.to_vec());
    }

    fn writes(&self) -> Vec<Vec<u8>> {
        self.transport.writes.borrow().clone()
    }
}

fn usb_session(flags: u32) -> Printer {
    Printer::new(ModelProfile {
        dialect: Dialect::Usb,
        name: "Test USB",
        raster_width_px: 128,
        dpi: 180,
        flags: DeviceFlags { bits: flags },
    })
}

fn p300bt_packet(kind: u8, phase: u8) -> [u8; STATUS_PACKET_SIZE] {
    let mut packet = status_packet(kind, phase);
    packet[2] = 0x42;
    packet[3] = 0x30;
    packet[4] = 0x72;
    packet[10] = 12;
    packet
}

#[test]
fn p300bt_profile_keeps_printable_and_raster_widths_separate() {
    let mut session = Printer::new(ModelProfile::p300bt());
    session.init().unwrap();
    assert_eq!(session.session.raster_width_px(), 128);
    assert_eq!(session.session.tape_width_px(), Some(64));
    assert_eq!(ModelProfile::p300bt().tape_width_px(9), None);
    let mut reset = vec![0; 64];
    reset.extend([0x1b, 0x40, 0x1b, 0x69, 0x61, 1]);
    assert_eq!(session.writes(), vec![reset, vec![0x1b, 0x69, 0x53]]);
    assert!(matches!(
        session.feed_and_cut(),
        Err(PtouchError::UnsupportedOperation(_))
    ));
}

#[test]
fn p300bt_failed_job_stops_sending_and_cannot_be_replayed() {
    let mut session = Printer::new(ModelProfile::p300bt());
    session.init().unwrap();
    session.transport.writes.borrow_mut().clear();
    session.transport.fail_on_write.set(Some(2));
    assert!(matches!(
        session.print_raster(&[vec![0; 16]], false, false, PrintQuality::Standard),
        Err(PtouchError::SendFailed(_))
    ));
    assert_eq!(session.writes().len(), 2);
    assert!(!session.session.is_initialized());
    assert!(matches!(
        session.print_raster(&[vec![0; 16]], false, false, PrintQuality::Standard),
        Err(PtouchError::NotInitialized)
    ));
    assert_eq!(session.writes().len(), 2);
}

#[test]
fn p300bt_completion_handles_fragmented_and_coalesced_notifications() {
    let printing = p300bt_packet(6, 1);
    let done = p300bt_packet(1, 1);
    let mut transfers = VecDeque::from([
        printing[..7].to_vec(),
        [printing[7..].as_ref(), done.as_ref()].concat(),
    ]);
    let result = read_p300bt_status(
        |buf, _| {
            let bytes = transfers.pop_front().ok_or(PtouchError::Timeout)?;
            buf[..bytes.len()].copy_from_slice(&bytes);
            Ok(bytes.len())
        },
        SECOND,
        true,
    )
    .unwrap();
    assert_eq!(result.status_type, 1);
    assert_eq!(result.phase_type, 1); // No later receiving phase is required.
    assert!(transfers.is_empty());
}

#[test]
fn p300bt_errors_override_completion_and_disconnects_propagate() {
    let mut done = p300bt_packet(1, 1);
    done[8] = 8;
    let result = read_p300bt_status(
        |buf, _| {
            buf[..32].copy_from_slice(&done);
            Ok(32)
        },
        SECOND,
        true,
    );
    assert!(matches!(result, Err(PtouchError::StatusError(_))));
    let off = p300bt_packet(4, 0);
    assert!(read_p300bt_status(
        |buf, _| {
            buf[..32].copy_from_slice(&off);
            Ok(32)
        },
        SECOND,
        true
    )
    .is_err());
    assert!(matches!(
        read_p300bt_status(
            |_, _| Err(PtouchError::Bluetooth("Disconnected".into())),
            SECOND,
            true
        ),
        Err(PtouchError::Bluetooth(_))
    ));
}

#[test]
fn p300bt_query_skips_stale_notifications_and_checks_identity() {
    let mut transfers = VecDeque::from([p300bt_packet(1, 1), p300bt_packet(0, 0)]);
    let status = read_p300bt_status(
        |buf, _| {
            let bytes = transfers.pop_front().ok_or(PtouchError::Timeout)?;
            buf[..32].copy_from_slice(&bytes);
            Ok(32)
        },
        SECOND,
        false,
    )
    .unwrap();
    assert_eq!(status.status_type, 0);
    let mut wrong = p300bt_packet(0, 0);
    wrong[4] = 0;
    assert!(read_p300bt_status(
        |buf, _| {
            buf[..32].copy_from_slice(&wrong);
            Ok(32)
        },
        SECOND,
        false
    )
    .is_err());
}

#[test]
fn p300bt_phase_changes_do_not_extend_the_completion_deadline() {
    let packet = p300bt_packet(6, 1);
    let result = read_p300bt_status(
        |buf, _| {
            buf[..32].copy_from_slice(&packet);
            Ok(32)
        },
        2 * MILLISECOND,
        true,
    );
    assert!(matches!(result, Err(PtouchError::Timeout)));
    assert!(matches!(
        read_p300bt_status(|_, _| Ok(0), 0, true),
        Err(PtouchError::Timeout)
    ));
}

#[test]
fn usb_session_keeps_initialization_sequence_and_tape_resolution() {
    let mut session = usb_session(DeviceFlags::AUTO_STATUS_NOTIFICATION);
    session.init().unwrap();
    let mut reset = vec![0; 100];
    reset.extend([0x1b, 0x40]);
    assert_eq!(
        session.writes(),
        vec![reset, vec![0x1b, 0x69, 0x53], vec![0x1b, 0x69, 0x21, 0]]
    );
    assert_eq!(session.session.tape_width_px(), Some(76));
    assert!(session.session.is_initialized());
}

#[test]
fn usb_session_keeps_plain_job_and_best_effort_completion() {
    let mut session = usb_session(DeviceFlags::NONE);
    session.init().unwrap();
    session.transport.writes.borrow_mut().clear();
    // A completion timeout is permitted.
    session
        .print_raster(
            &[vec![0; 16], vec![0x80; 16]],
            false,
            false,
            PrintQuality::Standard,
        )
        .unwrap();
    let mut raster = vec![0x47, 16, 0];
    raster.extend([0x80; 16]);
    assert_eq!(
        session.writes(),
        vec![vec![0x1b, 0x69, 0x52, 1], vec![0x5a], raster, vec![0x1a]]
    );
}

#[test]
fn usb_session_query_does_not_reset_or_enable_notifications() {
    let mut session = usb_session(DeviceFlags::AUTO_STATUS_NOTIFICATION);
    session.query_status().unwrap();
    assert_eq!(session.writes(), vec![vec![0x1b, 0x69, 0x53]]);
    assert!(!session.session.is_initialized());
}

#[test]
fn print_status_waits_until_reception_is_possible() {
    let mut packets = VecDeque::from([
        status_packet(0x06, 0x01),
        status_packet(0x01, 0x00),
        status_packet(0x06, 0x00),
    ]);

    let status = receive_print_status(|buf, _timeout| {
        let packet = packets.pop_front().ok_or(PtouchError::Timeout)?;
        buf.copy_from_slice(&packet);
        Ok(packet.len())
    })
    .unwrap();

    assert_eq!(status.status_type, 0x06);
    assert_eq!(status.phase_type, 0x00);
    assert!(packets.is_empty());
}

#[test]
fn print_status_does_not_accept_printing_completed_as_ready() {
    let mut packets = VecDeque::from([status_packet(0x01, 0x00)]);

    let result = receive_print_status_with_timeout(
        |buf, _timeout| {
            let packet = packets.pop_front().ok_or(PtouchError::Timeout)?;
            buf.copy_from_slice(&packet);
            Ok(packet.len())
        },
        MILLISECOND,
    );

    assert!(matches!(result, Err(PtouchError::Timeout)));
}

#[test]
fn print_status_propagates_printer_errors() {
    let mut packet = status_packet(0x02, 0x00);
    packet[8] = 0x04;

    let result = receive_print_status(|buf, _timeout| {
        buf.copy_from_slice(&packet);
        Ok(packet.len())
    });

    assert!(matches!(
        result,
        Err(PtouchError::StatusError(message)) if message == "Cutter jam"
    ));
}

#[test]
fn print_status_propagates_power_off() {
    let packet = status_packet(0x04, 0x00);

    let result = receive_print_status(|buf, _timeout| {
        buf.copy_from_slice(&packet);
        Ok(packet.len())
    });

    assert!(matches!(
        result,
        Err(PtouchError::StatusError(message)) if message == "Printer turned off"
    ));
}

#[test]
fn print_status_times_out_after_incomplete_packet() {
    let mut transfers = VecDeque::from([Ok(vec![0u8; 12]), Err(PtouchError::Timeout)]);

    let result = receive_print_status_with_timeout(
        |buf, _timeout| match transfers.pop_front().unwrap_or(Err(PtouchError::Timeout)) {
            Ok(transfer) => {
                buf[..transfer.len()].copy_from_slice(&transfer);
                Ok(transfer.len())
            }
            Err(error) => Err(error),
        },
        MILLISECOND,
    );

    assert!(matches!(result, Err(PtouchError::Timeout)));
}

#[test]
fn print_status_ignores_zero_length_usb_transfers() {
    let mut transfers = VecDeque::from([
        Vec::new(),
        status_packet(0x06, 0x01).to_vec(),
        status_packet(0x01, 0x00).to_vec(),
        status_packet(0x06, 0x00).to_vec(),
    ]);

    let status = receive_print_status(|buf, _timeout| {
        let transfer = transfers.pop_front().ok_or(PtouchError::Timeout)?;
        buf[..transfer.len()].copy_from_slice(&transfer);
        Ok(transfer.len())
    })
    .unwrap();

    assert!(status.is_waiting_to_receive());
    assert!(transfers.is_empty());
}

#[test]
fn print_status_accumulates_fragmented_packets() {
    let ready = status_packet(0x06, 0x00);
    let mut transfers = VecDeque::from([ready[..11].to_vec(), ready[11..].to_vec()]);

    let status = receive_print_status(|buf, _timeout| {
        let transfer = transfers.pop_front().ok_or(PtouchError::Timeout)?;
        buf[..transfer.len()].copy_from_slice(&transfer);
        Ok(transfer.len())
    })
    .unwrap();

    assert!(status.is_waiting_to_receive());
    assert!(transfers.is_empty());
}

#[test]
fn status_frame_buffer_preserves_partial_next_packet() {
    let first = status_packet(0x01, 0x00);
    let second = status_packet(0x06, 0x00);
    let mut frames = StatusFrameBuffer::new();

    frames.push(&first[..9]);
    frames.push(&[first[9..].as_ref(), second[..7].as_ref()].concat());

    assert_eq!(frames.pop(), Some(first));
    assert_eq!(frames.len(), 7);

    frames.push(&second[7..]);
    assert_eq!(frames.pop(), Some(second));
    assert_eq!(frames.len(), 0);
}

#[test]
fn print_status_tolerates_transient_usb_timeouts() {
    let ready = status_packet(0x06, 0x00);
    let mut transfers = VecDeque::from([
        Err(PtouchError::Timeout),
        Err(PtouchError::Timeout),
        Ok(ready.to_vec()),
    ]);

    let status = receive_print_status(|buf, _timeout| {
        match transfers.pop_front().ok_or(PtouchError::Timeout)? {
            Ok(transfer) => {
                buf[..transfer.len()].copy_from_slice(&transfer);
                Ok(transfer.len())
            }
            Err(error) => Err(error),
        }
    })
    .unwrap();

    assert!(status.is_waiting_to_receive());
    assert!(transfers.is_empty());
}

#[test]
fn consecutive_pages_each_wait_for_their_receiving_phase() {
    let mut transfers = VecDeque::from([
        status_packet(0x06, 0x01),
        status_packet(0x01, 0x00),
        status_packet(0x06, 0x00),
        status_packet(0x06, 0x01),
        status_packet(0x01, 0x00),
        status_packet(0x06, 0x00),
    ]);
    let mut receive = |buf: &mut [u8], _timeout: u64| {
        let packet = transfers.pop_front().ok_or(PtouchError::Timeout)?;
        buf.copy_from_slice(&packet);
        Ok(packet.len())
    };

    let first = receive_print_status(&mut receive).unwrap();
    let second = receive_print_status(&mut receive).unwrap();

    assert!(first.is_waiting_to_receive());
    assert!(second.is_waiting_to_receive());
    assert!(transfers.is_empty());
}

#[test]
fn print_status_has_an_overall_deadline() {
    let result = receive_print_status_with_timeout(|_, _| Ok(0), 0);

    assert!(matches!(result, Err(PtouchError::Timeout)));
}

#[test]
fn print_status_deadline_restarts_on_every_transfer() {
    let mut packets = VecDeque::from([
        status_packet(0x06, 0x01),
        status_packet(0x06, 0x01),
        status_packet(0x01, 0x00),
        status_packet(0x06, 0x00),
    ]);
    let clock = Clock::new();
    let wait = PrintStatusWait::with_timeout(300 * MILLISECOND, clock.now());

    // Every gap stays inside the idle deadline while the total elapsed time
    // runs past it, which is what a long label looks like.
    let mut receive = |buf: &mut [u8], _timeout: u64| {
        clock.advance(100 * MILLISECOND);
        let packet = packets.pop_front().ok_or(PtouchError::Timeout)?;
        buf.copy_from_slice(&packet);
        Ok(packet.len())
    };
    let status = finish_print_wait(&clock, wait, &mut receive).unwrap();

    assert!(status.is_waiting_to_receive());
    assert!(packets.is_empty());
}

#[test]
fn print_status_paces_zero_length_transfers() {
    let mut transfers = 0usize;

    let result = receive_print_status_with_timeout(
        |_, _| {
            transfers += 1;
            Ok(0)
        },
        50 * MILLISECOND,
    );

    assert!(matches!(result, Err(PtouchError::Timeout)));
    assert!(
        transfers <= 50,
        "zero-length transfers were not paced ({} reads)",
        transfers
    );
}

// ---------------------------------------------------------------------
// Further scenarios
// ---------------------------------------------------------------------

#[test]
fn status_reads_stop_after_ten_attempts() {
    let mut session = usb_session(DeviceFlags::NONE);
    session.transport.answer.borrow_mut().clear();
    session.queue(&[0x80; 5]);
    let result = session.get_status();
    assert!(matches!(
        result,
        Err(PtouchError::StatusError(message))
            if message == "Status packet too short: 5 bytes (expected 32)"
    ));
    // Ten status reads and one flush of stale input.
    assert_eq!(session.transport.receives.get(), 11);
    assert!(session.session.status().is_none());
}

#[test]
fn empty_status_reads_count_as_attempts() {
    let mut session = usb_session(DeviceFlags::NONE);
    session.transport.answer.borrow_mut().clear();
    for _ in 0..9 {
        session.queue(&[]);
    }
    session.queue(&p300bt_packet(0, 0));
    session.get_status().unwrap();
    assert_eq!(session.transport.receives.get(), 10);
}

#[test]
fn bad_status_header_is_named_after_a_flush() {
    let mut session = usb_session(DeviceFlags::NONE);
    session.transport.answer.borrow_mut()[0] = 0x0f;
    let result = session.get_status();
    assert!(matches!(
        result,
        Err(PtouchError::StatusError(message))
            if message == "Invalid status header: mark=0x0f size=0x20"
    ));
    assert_eq!(session.transport.receives.get(), 3);
    assert_eq!(session.session.tape_width_px(), None);
}

#[test]
fn stale_input_is_flushed_before_a_query() {
    let mut session = usb_session(DeviceFlags::NONE);
    session.queue(&[1, 2, 3]);
    session.queue(&[4]);
    session.query_status().unwrap();
    assert_eq!(session.session.status().unwrap().media_width, 12);
}

#[test]
fn failed_reset_leaves_the_printer_uninitialized() {
    let mut session = usb_session(DeviceFlags::NONE);
    session.transport.fail_on_write.set(Some(1));
    assert!(matches!(session.init(), Err(PtouchError::SendFailed(_))));
    assert_eq!(session.writes().len(), 1);
    assert!(!session.session.is_initialized());
}

#[test]
fn printing_requires_initialization_and_quality_support() {
    let mut session = usb_session(DeviceFlags::NONE);
    assert!(matches!(
        session.print_raster(&[vec![0; 16]], false, false, PrintQuality::Standard),
        Err(PtouchError::NotInitialized)
    ));
    assert!(matches!(session.feed_and_cut(), Err(PtouchError::NotInitialized)));
    session.init().unwrap();
    session.transport.writes.borrow_mut().clear();
    assert!(matches!(
        session.print_raster(&[vec![0; 16]], false, false, PrintQuality::HighResolution),
        Err(PtouchError::UnsupportedQuality(name)) if name == "Test USB"
    ));
    assert!(session.writes().is_empty());
}

#[test]
fn feed_prints_a_blank_strip_and_cuts() {
    let mut session = usb_session(DeviceFlags::NONE);
    session.init().unwrap();
    session.transport.writes.borrow_mut().clear();
    let reads = session.transport.receives.get();
    session.feed_and_cut().unwrap();
    assert_eq!(
        session.writes(),
        vec![
            vec![0x1b, 0x69, 0x52, 1],
            vec![0x5a],
            vec![0x5a],
            vec![0x5a],
            vec![0x1a],
        ]
    );
    assert_eq!(session.transport.receives.get(), reads);
}

#[test]
fn label_options_are_spelled_out_where_supported() {
    let mut session = usb_session(
        DeviceFlags::HAS_PRECUT + DeviceFlags::LEGACY_HIRES + DeviceFlags::USE_INFO_CMD,
    );
    session.init().unwrap();
    session.transport.writes.borrow_mut().clear();
    session
        .print_raster(&[vec![1; 2]], true, true, PrintQuality::HighResolution)
        .unwrap();
    assert_eq!(
        session.writes(),
        vec![
            vec![0x1b, 0x69, 0x52, 1],
            vec![0x1b, 0x69, 0x7a, 0, 0, 12, 0, 1, 0, 0, 0, 0, 0],
            vec![0x1b, 0x69, 0x4b, 0x40],
            vec![0x1b, 0x69, 0x4d, 0x40],
            vec![0x47, 2, 0, 1, 1],
            vec![0x0c],
        ]
    );
}

#[test]
fn receiving_phase_is_awaited_and_remembered() {
    let mut session = usb_session(DeviceFlags::WAIT_FOR_RECEIVE_READY);
    session.init().unwrap();
    session.queue(&status_packet(0x06, 0x01));
    session.queue(&status_packet(0x01, 0x00));
    session.queue(&status_packet(0x06, 0x00));
    session
        .print_raster(&[vec![0; 16]], false, false, PrintQuality::Standard)
        .unwrap();
    assert!(session.session.status().unwrap().is_waiting_to_receive());
    // The tape width of the last query stays known.
    assert_eq!(session.session.tape_width_px(), Some(76));
}

#[test]
fn silence_after_a_page_is_no_failure() {
    let mut session = usb_session(DeviceFlags::WAIT_FOR_RECEIVE_READY);
    session.init().unwrap();
    let before = *session.session.status().unwrap();
    let start = session.transport.clock.now();
    session
        .print_raster(&[vec![0; 16]], false, false, PrintQuality::Standard)
        .unwrap();
    assert!(session.transport.clock.now() - start >= 30 * SECOND);
    assert_eq!(*session.session.status().unwrap(), before);
}

#[test]
fn completion_report_with_an_error_fails_the_label() {
    let mut session = usb_session(DeviceFlags::NONE);
    session.init().unwrap();
    let mut report = status_packet(0x02, 0x00);
    report[8] = 0x01;
    report[9] = 0x10;
    session.queue(&report);
    assert!(matches!(
        session.print_raster(&[vec![0; 16]], false, false, PrintQuality::Standard),
        Err(PtouchError::StatusError(message)) if message == "No media, Cover open"
    ));
    assert!(session.session.is_initialized());
    // A short report is ignored.
    session.queue(&report[..31]);
    session
        .print_raster(&[vec![0; 16]], false, false, PrintQuality::Standard)
        .unwrap();
    assert_eq!(session.session.status().unwrap().status_type, 0);
}

#[test]
fn p300bt_label_completes_on_its_notification() {
    let mut session = Printer::new(ModelProfile::p300bt());
    session.init().unwrap();
    session.queue(&p300bt_packet(6, 1));
    session.queue(&p300bt_packet(1, 1));
    session
        .print_raster(&[vec![0; 16]], false, false, PrintQuality::Standard)
        .unwrap();
    assert!(session.session.is_initialized());
    assert_eq!(session.session.status().unwrap().status_type, 1);
    // The printer no longer reports itself idle, so the next label needs a query.
    assert!(matches!(
        session.print_raster(&[vec![0; 16]], false, false, PrintQuality::Standard),
        Err(PtouchError::StatusError(message)) if message == "PT-P300BT is not idle"
    ));
    assert!(session.session.is_initialized());
}

#[test]
fn p300bt_flush_takes_a_bounded_time() {
    let mut session = Printer::new(ModelProfile::p300bt());
    let start = session.transport.clock.now();
    session.query_status().unwrap();
    // The first read waits for its whole time and the flush is over.
    assert!(session.transport.clock.now() - start < 110 * MILLISECOND);
}

#[test]
fn oversized_reads_are_reported() {
    assert!(matches!(
        receive_print_status(|_, _| Ok(33)),
        Err(PtouchError::StatusError(message))
            if message == "USB read reported 33 bytes for a 32-byte buffer"
    ));
    assert!(matches!(
        read_p300bt_status(|_, _| Ok(129), SECOND, true),
        Err(PtouchError::StatusError(message))
            if message == "Transport returned more bytes than the receive buffer"
    ));
    let session = usb_session(DeviceFlags::NONE);
    let oversized = Reply::Received { count: 33, buffer: vec![0; 32] };
    if let Step::Do { operation, action } = session.session.get_status() {
        assert_eq!(
            action,
            Action::Send { bytes: vec![0x1b, 0x69, 0x53], timeout: 5 * SECOND }
        );
        assert!(!operation.accepts(&oversized));
        assert!(operation.accepts(&Reply::Sent));
    } else {
        panic!("a status request must be sent");
    }
}

#[test]
fn transfer_failures_end_an_operation() {
    assert!(matches!(
        receive_print_status(|_, _| Err(PtouchError::UsbError(UsbFault::Pipe))),
        Err(PtouchError::UsbError(UsbFault::Pipe))
    ));
    assert!(matches!(
        receive_print_status(|buf, _| {
            buf.copy_from_slice(&[0u8; 32]);
            Ok(32)
        }),
        Err(PtouchError::StatusError(message))
            if message == "Invalid status header after print: mark=0x00 size=0x00"
    ));
    let unspecified = status_packet(0x02, 0x00);
    assert!(matches!(
        receive_print_status(|buf, _| {
            buf.copy_from_slice(&unspecified);
            Ok(32)
        }),
        Err(PtouchError::StatusError(message))
            if message == "Printer reported an unspecified error"
    ));
}

#[test]
fn raw_transfers_use_the_default_timeout() {
    let session = PrinterSession::new(ModelProfile::p300bt());
    assert_eq!(
        session.send(&[1, 2]),
        Action::Send { bytes: vec![1, 2], timeout: 5 * SECOND }
    );
    assert_eq!(
        session.receive(9),
        Action::Receive { capacity: 9, timeout: 5 * SECOND }
    );
    assert_eq!(session.flags().bits, DeviceFlags::NONE);
    assert_eq!(session.profile().name, "PT-P300BT");
}

#[test]
fn failed_queries_leave_the_session_as_it_was() {
    let mut session = usb_session(DeviceFlags::NONE);
    session.init().unwrap();
    let known = *session.session.status().unwrap();
    session.transport.answer.borrow_mut()[0] = 0;
    session.transport.answer.borrow_mut()[10] = 24;
    assert!(session.get_status().is_err());
    assert!(session.query_status().is_err());
    assert_eq!(*session.session.status().unwrap(), known);
    assert_eq!(session.session.tape_width_px(), Some(76));
    assert!(session.session.is_initialized());
    session.transport.answer.borrow_mut()[0] = 0x80;
    session.get_status().unwrap();
    assert_eq!(session.session.tape_width_px(), Some(128));
}

#[test]
fn a_report_outlives_a_failed_notification_command() {
    let mut session = usb_session(DeviceFlags::AUTO_STATUS_NOTIFICATION);
    session.transport.fail_on_write.set(Some(3));
    assert!(matches!(session.init(), Err(PtouchError::SendFailed(_))));
    assert!(!session.session.is_initialized());
    assert_eq!(session.session.status().unwrap().media_width, 12);
    assert_eq!(session.session.tape_width_px(), Some(76));
}

#[test]
fn a_second_p300bt_label_needs_a_query() {
    let mut session = Printer::new(ModelProfile::p300bt());
    session.init().unwrap();
    session.queue(&p300bt_packet(1, 1));
    let label = [vec![0; 16]];
    session.print_raster(&label, false, false, PrintQuality::Standard).unwrap();
    session.transport.writes.borrow_mut().clear();
    for _ in 0..2 {
        assert!(session
            .print_raster(&label, false, false, PrintQuality::Standard)
            .is_err());
        assert!(session.feed_and_cut().is_err());
    }
    assert!(session.writes().is_empty());
    session.query_status().unwrap();
    session.queue(&p300bt_packet(1, 1));
    session.print_raster(&label, false, false, PrintQuality::Standard).unwrap();
}

#[test]
fn a_failed_query_has_sent_its_request() {
    let mut session = usb_session(DeviceFlags::NONE);
    session.transport.fail_on_write.set(Some(1));
    assert!(session.query_status().is_err());
    assert_eq!(session.writes(), vec![vec![0x1b, 0x69, 0x53]]);
    session.transport.writes.borrow_mut().clear();
    session.transport.fail_on_write.set(None);
    session.transport.answer.borrow_mut().clear();
    assert!(session.get_status().is_err());
    assert_eq!(session.writes(), vec![vec![0x1b, 0x69, 0x53]]);
}

#[test]
fn a_status_is_known_from_a_good_answer_only() {
    let mut session = usb_session(DeviceFlags::NONE);
    let label = [vec![0; 16]];
    session.queue(&p300bt_packet(0, 0));
    assert!(session
        .print_raster(&label, false, false, PrintQuality::Standard)
        .is_err());
    assert!(session.feed_and_cut().is_err());
    assert!(session.session.status().is_none());
    session.transport.answer.borrow_mut()[1] = 0;
    assert!(session.init().is_err());
    assert!(session.session.status().is_none());
    session.transport.answer.borrow_mut()[1] = 0x20;
    session.query_status().unwrap();
    assert!(session.session.status().is_some());
}
