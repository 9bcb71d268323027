use ptouch_core::bluetooth::{BluetoothDevice, LabelStep};
use ptouch_core::error::PtouchError;
use ptouch_core::link::{Action, Reply};
use ptouch_core::opening::{resume_open, OpenReply, OpenRequest, OpenStep};
use ptouch_core::pairing::{bt, is_address, normalize_address, paired_devices, Listed, PairedDevice};
use ptouch_core::rfcomm::{
    settles, shutdown_outcome, wait_turn, write_settled, Channel, ReadStep, WaitTurn, WriteStep,
    Writing, DISCOVERY_TIMEOUT, OPEN_TIMEOUT,
};
use ptouch_core::session::Step;

const SECOND: u64 = 1_000_000_000;

fn message(error: PtouchError) -> String {
    match error {
        PtouchError::Bluetooth(message) => message,
        other => panic!("not a Bluetooth error: {:?}", other),
    }
}

// ---------------------------------------------------------------------
// Addresses and paired devices
// ---------------------------------------------------------------------

#[test]
fn normalizes_macos_addresses_for_cli_input() {
    assert_eq!(normalize_address("ec-79-49-61-cc-f8"), "EC:79:49:61:CC:F8");
}

#[test]
fn rejects_worker_thread_before_accessing_bluetooth() {
    let rejected = match BluetoothDevice::open(false, "AA:BB:CC:DD:EE:FF") {
        OpenStep::Done(Err(PtouchError::Bluetooth(message))) => message.contains("main thread"),
        _ => false,
    };
    assert!(rejected);
    assert_eq!(
        message(paired_devices(false, None).unwrap_err()),
        "Native Bluetooth must be queried on the main thread"
    );
}

#[test]
fn addresses_are_six_hexadecimal_pairs() {
    assert!(is_address("AA:BB:CC:DD:EE:FF"));
    assert!(is_address("00:1a:7D:da:71:13"));
    for text in [
        "",
        "AA",
        "AA:BB:CC:DD:EE",
        "AA:BB:CC:DD:EE:FF:00",
        "AA:BB:CC:DD:EE:FG",
        "AA:BB:CC:DD:EE:F",
        "AA:BB:CC:DD:EE:FFF",
        "AA-BB-CC-DD-EE-FF",
        "AA:BB:CC:DD:EE:é",
        ":::::",
    ] {
        assert!(!is_address(text), "{:?}", text);
    }
}

#[test]
fn normalizing_twice_changes_nothing() {
    for text in ["ec-79-49-61-cc-f8", "ec:79:49:61:cc:f8", "EC:79:49:61:CC:F8"] {
        let once = normalize_address(text);
        assert!(is_address(&once));
        assert_eq!(normalize_address(&once), once);
    }
}

fn entry(name: Option<&str>, address: Option<&str>) -> Listed {
    Listed {
        name: name.map(String::from),
        address: address.map(String::from),
    }
}

fn device(name: &str, address: &str) -> PairedDevice {
    PairedDevice {
        name: name.into(),
        address: address.into(),
    }
}

#[test]
fn paired_devices_are_listed_by_name_and_address() {
    let expected = vec![
        device("02:00:00:00:00:AA", "02:00:00:00:00:AA"),
        device("Printer", "01:00:00:00:00:00"),
        device("Printer", "03:00:00:00:00:00"),
        device("Éclair", "00:00:00:00:00:01"),
    ];
    let forward = vec![
        entry(Some("Printer"), Some("03-00-00-00-00-00")),
        entry(Some("Éclair"), Some("00-00-00-00-00-01")),
        entry(Some("Nameless"), None),
        entry(None, Some("02-00-00-00-00-aa")),
        entry(Some("Printer"), Some("01-00-00-00-00-00")),
    ];
    let backward = vec![
        entry(Some("Printer"), Some("01-00-00-00-00-00")),
        entry(None, Some("02-00-00-00-00-aa")),
        entry(Some("Éclair"), Some("00-00-00-00-00-01")),
        entry(Some("Printer"), Some("03-00-00-00-00-00")),
    ];
    assert_eq!(paired_devices(true, Some(forward)), Ok(expected));
    let listed = paired_devices(true, Some(backward)).unwrap();
    assert_eq!(listed[0].name, "02:00:00:00:00:AA");
    assert_eq!(listed.len(), 4);
    assert_eq!(paired_devices(true, None), Ok(vec![]));
    assert_eq!(bt("x"), PtouchError::Bluetooth("x".into()));
}

// ---------------------------------------------------------------------
// Opening
// ---------------------------------------------------------------------

fn next(request: OpenRequest, reply: OpenReply) -> OpenStep {
    assert!(request.answered_by(&reply));
    resume_open(request, reply)
}

fn asks(step: OpenStep, request: OpenRequest) {
    assert_eq!(step, OpenStep::Ask(request));
}

fn fails(step: OpenStep, text: &str) {
    match step {
        OpenStep::Done(Err(error)) => assert_eq!(message(error), text),
        other => panic!("not a failure: {:?}", other),
    }
}

#[test]
fn opening_follows_its_requests() {
    asks(
        BluetoothDevice::open(true, "AA:BB:CC:DD:EE:FF"),
        OpenRequest::FindDevice,
    );
    let found = || OpenReply::Found(true);
    asks(next(OpenRequest::FindDevice, found()), OpenRequest::CheckPairing);
    asks(next(OpenRequest::CheckPairing, found()), OpenRequest::MakeServiceId);
    asks(next(OpenRequest::MakeServiceId, found()), OpenRequest::LookUpService);
    asks(next(OpenRequest::LookUpService, found()), OpenRequest::TakeService);
    asks(
        next(OpenRequest::LookUpService, OpenReply::Found(false)),
        OpenRequest::QueryServices,
    );
    asks(
        next(OpenRequest::QueryServices, OpenReply::Code(0)),
        OpenRequest::AwaitService { timeout: DISCOVERY_TIMEOUT },
    );
    asks(
        next(OpenRequest::AwaitService { timeout: DISCOVERY_TIMEOUT }, found()),
        OpenRequest::TakeService,
    );
    asks(next(OpenRequest::TakeService, found()), OpenRequest::ResolveChannel);
    asks(
        next(OpenRequest::ResolveChannel, OpenReply::Resolved { code: 0, id: 3 }),
        OpenRequest::OpenChannel { id: 3 },
    );
    asks(
        next(
            OpenRequest::OpenChannel { id: 3 },
            OpenReply::Opening { code: 0, channel: true },
        ),
        OpenRequest::AwaitConnection { id: 3, timeout: OPEN_TIMEOUT },
    );
    assert_eq!(
        next(
            OpenRequest::AwaitConnection { id: 3, timeout: OPEN_TIMEOUT },
            OpenReply::Reported(Some(0)),
        ),
        OpenStep::Done(Ok(3))
    );
}

#[test]
fn opening_names_what_failed() {
    let missing = || OpenReply::Found(false);
    fails(
        BluetoothDevice::open(true, "nowhere"),
        "Expected a Bluetooth address such as AA:BB:CC:DD:EE:FF",
    );
    fails(next(OpenRequest::FindDevice, missing()), "Unknown Bluetooth address");
    fails(
        next(OpenRequest::CheckPairing, missing()),
        "Pair the printer in macOS Bluetooth settings first",
    );
    fails(next(OpenRequest::MakeServiceId, missing()), "Cannot create SPP UUID");
    fails(
        next(OpenRequest::QueryServices, OpenReply::Code(-536870208)),
        "SDP query failed: 0xe00002c0",
    );
    fails(
        next(OpenRequest::AwaitService { timeout: 1 }, missing()),
        "SPP service discovery timed out",
    );
    fails(next(OpenRequest::TakeService, missing()), "No SPP service");
    fails(
        next(OpenRequest::ResolveChannel, OpenReply::Resolved { code: 0, id: 0 }),
        "Cannot resolve RFCOMM channel: 0x0",
    );
    fails(
        next(
            OpenRequest::OpenChannel { id: 1 },
            OpenReply::Opening { code: 5, channel: false },
        ),
        "No RFCOMM channel: 0x5",
    );
    assert!(!OpenRequest::FindDevice.answered_by(&OpenReply::Code(0)));
}

#[test]
fn a_channel_that_does_not_open_is_shut_down() {
    let rejected = next(
        OpenRequest::OpenChannel { id: 1 },
        OpenReply::Opening { code: -1, channel: true },
    );
    let request = OpenRequest::CloseFailed {
        error: bt("RFCOMM open rejected: 0xffffffff"),
    };
    assert_eq!(rejected, OpenStep::Ask(request));
    let failed = next(
        OpenRequest::AwaitConnection { id: 1, timeout: 1 },
        OpenReply::Reported(Some(16)),
    );
    match failed {
        OpenStep::Ask(request) => fails(
            next(request, OpenReply::Closed(Err(bt("ignored")))),
            "RFCOMM connection failed: 0x10",
        ),
        other => panic!("not shut down: {:?}", other),
    }
    asks(
        next(
            OpenRequest::AwaitConnection { id: 1, timeout: 1 },
            OpenReply::Reported(None),
        ),
        OpenRequest::CloseExpired,
    );
    fails(
        next(OpenRequest::CloseExpired, OpenReply::Closed(Ok(()))),
        "RFCOMM connection timed out",
    );
    fails(
        next(OpenRequest::CloseExpired, OpenReply::Closed(Err(bt("Baseband close failed: 0x1")))),
        "Baseband close failed: 0x1",
    );
}

// ---------------------------------------------------------------------
// Reading
// ---------------------------------------------------------------------

fn taken(step: ReadStep) -> Vec<u8> {
    match step {
        ReadStep::Taken(bytes) => bytes,
        _ => panic!("nothing was read"),
    }
}

fn read_failure(step: ReadStep) -> (PtouchError, bool) {
    match step {
        ReadStep::Failed { error, shut_down } => (error, shut_down),
        _ => panic!("the read did not fail"),
    }
}

#[test]
fn bytes_are_read_in_order() {
    let mut channel = Channel::new();
    assert!(!channel.is_readable());
    assert!(matches!(channel.begin_read(4), ReadStep::Await));
    channel.on_data(&[1, 2, 3]);
    channel.on_data(&[4, 5]);
    assert!(channel.is_readable());
    assert_eq!(taken(channel.finish_read(true, 4)), vec![1, 2, 3, 4]);
    channel.on_data(&[6]);
    assert_eq!(taken(channel.finish_read(true, 4)), vec![5, 6]);
    assert_eq!(taken(channel.begin_read(0)), Vec::<u8>::new());
    assert_eq!(read_failure(channel.finish_read(false, 4)), (PtouchError::Timeout, false));
}

#[test]
fn buffered_bytes_outlive_the_connection() {
    let mut channel = Channel::new();
    channel.on_data(&[7]);
    channel.on_closed();
    assert!(channel.is_dead() && channel.is_disconnected());
    // A read that was already awaited takes what is there.
    assert_eq!(taken(channel.finish_read(true, 4)), vec![7]);
    let (error, shut_down) = read_failure(channel.finish_read(true, 4));
    assert_eq!(message(error), "RFCOMM disconnected while reading");
    assert!(!shut_down);
    let (error, _) = read_failure(channel.begin_read(4));
    assert_eq!(message(error), "RFCOMM disconnected while reading");
}

#[test]
fn the_receive_queue_has_a_limit() {
    let mut channel = Channel::new();
    channel.on_data(&vec![1; 65536]);
    assert_eq!(taken(channel.finish_read(true, 1)), vec![1]);
    channel.on_data(&[2]);
    channel.on_data(&[3]);
    let (error, shut_down) = read_failure(channel.finish_read(true, 1));
    assert_eq!(message(error), "Bluetooth receive buffer exceeded its limit");
    assert!(shut_down);
}

#[test]
fn what_has_come_counts_even_when_time_is_up() {
    assert_eq!(wait_turn(true, 5, 9), WaitTurn::Ready);
    assert_eq!(wait_turn(false, 5, 5), WaitTurn::Expired);
    assert_eq!(wait_turn(false, 5, 4), WaitTurn::Pump);
}

// ---------------------------------------------------------------------
// Writing and closing
// ---------------------------------------------------------------------

fn piece_of(step: WriteStep) -> (Writing, Vec<u8>) {
    match step {
        WriteStep::Write { writing, piece } => (writing, piece),
        _ => panic!("nothing is written"),
    }
}

fn write_result(step: WriteStep) -> Result<(), PtouchError> {
    match step {
        WriteStep::Done(result) => result,
        _ => panic!("the write is under way"),
    }
}

/// Hand a piece over without an error.
fn accepted(writing: Writing, now: u64) -> Writing {
    match writing.started(0, now) {
        WriteStep::Await { writing, .. } => writing,
        _ => panic!("the piece was not accepted"),
    }
}

#[test]
fn writes_are_cut_into_pieces_that_make_up_the_bytes() {
    for (mtu, sizes) in [
        (1000u16, vec![1000, 1000, 500]),
        (4000, vec![1024, 1024, 452]),
        (2500, vec![1024, 1024, 452]),
        (1250, vec![1024, 1024, 452]),
        (500, vec![500; 5]),
    ] {
        let bytes: Vec<u8> = (0..2500u32).map(|n| (n % 251) as u8).collect();
        let mut written = Vec::new();
        let mut found = Vec::new();
        let mut step = Channel::new().begin_write(bytes.clone(), mtu, 5 * SECOND, SECOND);
        while let WriteStep::Write { writing, piece } = step {
            found.push(piece.len());
            written.extend(piece);
            step = accepted(writing, SECOND).finished(true, Some(0), SECOND);
        }
        assert_eq!(write_result(step), Ok(()));
        assert_eq!(written, bytes);
        assert_eq!(found, sizes);
    }
    let (_, piece) = piece_of(Channel::new().begin_write(vec![1, 2], 0, 1, 0));
    assert_eq!(piece, vec![1]);
}

#[test]
fn a_broken_write_has_handed_over_a_prefix() {
    let bytes: Vec<u8> = (0..10u8).collect();
    for broken in 0..4 {
        let mut written = Vec::new();
        let mut step = Channel::new().begin_write(bytes.clone(), 3, 5 * SECOND, SECOND);
        while let WriteStep::Write { writing, piece } = step {
            let result = if written.len() / 3 == broken { Some(7) } else { Some(0) };
            written.extend(piece);
            step = accepted(writing, SECOND).finished(true, result, SECOND);
        }
        assert_eq!(message(write_result(step).unwrap_err()), "RFCOMM write failed: 0x7");
        assert_eq!(written, bytes[..bytes.len().min(3 * (broken + 1))]);
    }
}

#[test]
fn the_last_piece_may_settle_after_the_deadline() {
    let (writing, _) = piece_of(Channel::new().begin_write(vec![1], 8, 10, 100));
    assert_eq!(write_result(accepted(writing, 101).finished(true, Some(0), 999)), Ok(()));
}

#[test]
fn a_write_ends_at_its_deadline() {
    let step = Channel::new().begin_write(vec![1, 2], 1, 10, 100);
    let (writing, _) = piece_of(step);
    match writing.started(0, 104) {
        WriteStep::Await { writing, timeout } => {
            assert_eq!(timeout, 6);
            assert_eq!(
                write_result(writing.finished(true, Some(0), 110)),
                Err(PtouchError::Timeout)
            );
        }
        _ => panic!("the piece was not accepted"),
    }
    let step = Channel::new().begin_write(vec![], 1, 0, 100);
    assert_eq!(write_result(step), Ok(()));
    let step = Channel::new().begin_write(vec![1], 1, 0, 100);
    assert_eq!(write_result(step), Err(PtouchError::Timeout));
}

#[test]
fn write_failures_are_named() {
    let start = || piece_of(Channel::new().begin_write(vec![1, 2], 1, 10, 0)).0;
    let text = |step: WriteStep| message(write_result(step).unwrap_err());
    assert_eq!(text(start().started(-1, 1)), "RFCOMM write rejected: 0xffffffff");
    let lost = "RFCOMM write timed out or disconnected (buffer retained)";
    assert_eq!(text(start().finished(false, None, 1)), lost);
    assert_eq!(text(start().finished(true, None, 1)), lost);
    assert_eq!(text(start().finished(true, Some(3), 1)), "RFCOMM write failed: 0x3");
    let mut closed = Channel::new();
    closed.on_closed();
    assert_eq!(
        text(closed.begin_write(vec![1], 1, 10, 0)),
        "RFCOMM channel is closed"
    );
    assert!(write_settled(None, &closed));
    assert!(write_settled(Some(0), &Channel::new()));
    assert!(!write_settled(None, &Channel::new()));
}

#[test]
fn a_channel_is_shut_down_once() {
    let mut channel = Channel::new();
    channel.on_opened(0);
    assert_eq!(channel.opened(), Some(0));
    assert!(!channel.is_dead());
    assert!(channel.begin_shutdown());
    assert!(!channel.begin_shutdown());
    assert!(channel.is_dead());
    assert_eq!(shutdown_outcome(0, 0), Ok(()));
    assert_eq!(
        message(shutdown_outcome(1, 2).unwrap_err()),
        "Baseband close failed: 0x2"
    );
    assert_eq!(
        message(shutdown_outcome(1, 0).unwrap_err()),
        "RFCOMM close failed: 0x1"
    );
    assert!(settles(0) && !settles(2));
}

// ---------------------------------------------------------------------
// The printer
// ---------------------------------------------------------------------

fn report(kind: u8, phase: u8, width: u8) -> Vec<u8> {
    let mut packet = vec![0u8; 32];
    packet[..5].copy_from_slice(&[0x80, 0x20, 0x42, 0x30, 0x72]);
    packet[10] = width;
    packet[11] = 1;
    packet[18] = kind;
    packet[19] = phase;
    packet
}

/// Answers reads with the queued reports, and everything else with success.
struct Answers {
    reports: Vec<Vec<u8>>,
    sent: Vec<Vec<u8>>,
    now: u64,
}

impl Answers {
    fn new(reports: Vec<Vec<u8>>) -> Self {
        Self { reports, sent: Vec::new(), now: 0 }
    }

    fn perform(&mut self, action: Action) -> Reply {
        match action {
            Action::Send { bytes, .. } => {
                self.sent.push(bytes);
                Reply::Sent
            }
            Action::Receive { capacity, timeout } => {
                if capacity == 64 || self.reports.is_empty() {
                    self.now += timeout;
                    return Reply::Failed(PtouchError::Timeout);
                }
                let report = self.reports.remove(0);
                let mut buffer = vec![0; capacity];
                buffer[..report.len()].copy_from_slice(&report);
                Reply::Received { count: report.len(), buffer }
            }
            Action::Sleep { duration } => {
                self.now += duration;
                Reply::Slept
            }
        }
    }

    fn init(&mut self, device: &mut BluetoothDevice) -> Result<(), PtouchError> {
        let mut step = device.init(self.now);
        loop {
            match step {
                Step::Done(result) => return result,
                Step::Do { operation, action } => {
                    let reply = self.perform(action);
                    assert!(operation.accepts(&reply));
                    step = device.resume(operation, reply, self.now);
                }
            }
        }
    }

    fn print(
        &mut self,
        device: &mut BluetoothDevice,
        lines: Vec<Vec<u8>>,
    ) -> Result<(), PtouchError> {
        let mut step = device.print_raster(lines, self.now);
        loop {
            match step {
                LabelStep::Done(result) => return result,
                LabelStep::Do { operation, action } => {
                    let reply = self.perform(action);
                    assert!(operation.accepts(&reply));
                    step = device.resume_label(operation, reply, self.now);
                }
            }
        }
    }
}

#[test]
fn a_label_is_preceded_by_a_query() {
    let mut device = BluetoothDevice::connected();
    assert_eq!(device.model_name(), "PT-P300BT");
    assert_eq!((device.dpi(), device.raster_width_px()), (180, 128));
    let mut answers = Answers::new(vec![
        report(0, 0, 12),
        report(0, 0, 12),
        report(6, 1, 12),
        report(1, 1, 12),
    ]);
    assert_eq!(
        answers.print(&mut device, vec![vec![0; 16]]),
        Err(PtouchError::NotInitialized)
    );
    assert!(answers.sent.is_empty());
    answers.init(&mut device).unwrap();
    assert_eq!(device.tape_width_px(), Some(64));
    answers.sent.clear();
    answers.print(&mut device, vec![vec![0; 16]]).unwrap();
    assert_eq!(answers.sent[0], vec![0x1b, 0x69, 0x53]);
    assert_eq!(answers.sent.len(), 9);
    assert_eq!(answers.sent[8], vec![0x1a]);
    assert_eq!(device.status().unwrap().status_type, 1);
    assert!(device.is_initialized());
}

#[test]
fn a_label_goes_by_the_queried_media() {
    let mut device = BluetoothDevice::connected();
    let mut answers = Answers::new(vec![report(0, 0, 12), report(0, 0, 9)]);
    answers.init(&mut device).unwrap();
    answers.sent.clear();
    assert_eq!(
        answers.print(&mut device, vec![vec![0; 16]]),
        Err(PtouchError::UnknownTapeWidth(9))
    );
    // Nothing of the job was sent.
    assert_eq!(answers.sent, vec![vec![0x1b, 0x69, 0x53]]);
    assert_eq!(device.tape_width_px(), None);
    assert!(device.is_initialized());
}

#[test]
fn a_failed_query_fails_the_label() {
    let mut device = BluetoothDevice::connected();
    let mut answers = Answers::new(vec![report(0, 0, 12)]);
    answers.init(&mut device).unwrap();
    answers.sent.clear();
    assert_eq!(
        answers.print(&mut device, vec![vec![0; 16]]),
        Err(PtouchError::Timeout)
    );
    assert_eq!(answers.sent.len(), 1);
    assert!(answers.now >= 10 * SECOND);
}
