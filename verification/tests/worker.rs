use ptouch_core::bluetooth::BluetoothDevice;
use ptouch_core::device::{DeviceFlags, DeviceInfo};
use ptouch_core::error::PtouchError;
use ptouch_core::helper::{
    exit_code, helper_command, helper_failure, is_helper_call, list_printers, raster_bytes,
    raster_lines, report_status, HelperCommand, HELPER_ARG,
};
use ptouch_core::link::{Action, Reply};
use ptouch_core::pairing::PairedDevice;
use ptouch_core::protocol::PrintQuality;
use ptouch_core::session::Step;
use ptouch_core::transport::PtouchDevice;
use ptouch_core::worker::{
    discovery_event, feed_event, feed_refusal, parse_bluetooth_devices, parse_bluetooth_status,
    poll_event, print_event, stage_error, usb_response, PrinterCommand, PrinterEvent,
    PrinterResponse, PrinterTarget, Stage, Worker, WorkerInput, WorkerTask,
};

fn printer(name: &str, address: &str) -> PrinterTarget {
    PrinterTarget::Bluetooth {
        name: name.to_string(),
        address: address.to_string(),
    }
}

#[test]
fn parses_bluetooth_device_list() {
    let devices = parse_bluetooth_devices("EC:79:49:61:CC:F8\tPT-P300BT6427\n");
    assert_eq!(
        devices,
        [PrinterTarget::Bluetooth {
            name: "PT-P300BT6427".to_string(),
            address: "EC:79:49:61:CC:F8".to_string(),
        }]
    );
}

#[test]
fn parses_bluetooth_status_geometry() {
    let response = parse_bluetooth_status("PT-P300BT\t12\tLaminated tape\t128\t180\t64\n")
        .expect("valid status");
    assert!(matches!(
        response,
        PrinterResponse::Connected {
            media_width: 12,
            max_px: 128,
            dpi: 180,
            tape_width_px: 64,
            ..
        }
    ));
}

#[test]
fn rejects_malformed_bluetooth_status() {
    assert!(parse_bluetooth_status("PT-P300BT\t12").is_err());
}

#[test]
fn listing_passes_over_other_lines() {
    assert_eq!(
        parse_bluetooth_devices("nothing\nA\tB\tC\r\n\n\tD\nE\t"),
        [printer("B\tC", "A"), printer("D", ""), printer("", "E")]
    );
    assert_eq!(parse_bluetooth_devices(""), []);
}

#[test]
fn malformed_status_fields_are_named() {
    let error = |text: &str| parse_bluetooth_status(text).unwrap_err();
    assert_eq!(error(""), "Bluetooth helper returned invalid status");
    assert_eq!(error("a\t1\tb\t2\t3\t4\t5"), "Bluetooth helper returned invalid status");
    assert_eq!(error("a\t256\tb\tx\t3\t4"), "Invalid media width");
    assert_eq!(error("a\t12\tb\t65536\t3\t4"), "Invalid raster width");
    assert_eq!(error("a\t12\tb\t128\t-1\t4"), "Invalid resolution");
    assert_eq!(error("a\t12\tb\t128\t180\tx"), "Invalid tape width");
    // Trailing white space is no part of the last field.
    assert_eq!(
        parse_bluetooth_status("a\t+12\t\t128\t180\t0064 \r\n"),
        Ok(PrinterResponse::Connected {
            model_name: "a".into(),
            media_width: 12,
            media_type: "".into(),
            max_px: 128,
            dpi: 180,
            quality_modes: false,
            tape_width_px: 64,
        })
    );
}

// ---------------------------------------------------------------------
// The worker
// ---------------------------------------------------------------------

#[test]
fn silence_polls_the_last_usb_printer_only() {
    let bluetooth = printer("PT-P300BT", "AA:BB:CC:DD:EE:FF");
    let mut worker = Worker::new();
    assert_eq!(worker.step(WorkerInput::Silence), WorkerTask::Poll(PrinterTarget::Usb));
    assert_eq!(
        worker.step(WorkerInput::Command(PrinterCommand::Poll(bluetooth.clone()))),
        WorkerTask::Poll(bluetooth.clone())
    );
    assert_eq!(worker.step(WorkerInput::Silence), WorkerTask::Rest);
    assert_eq!(
        worker.step(WorkerInput::Command(PrinterCommand::DiscoverBluetooth)),
        WorkerTask::Discover
    );
    assert_eq!(worker.step(WorkerInput::Silence), WorkerTask::Rest);
    assert_eq!(
        worker.step(WorkerInput::Command(PrinterCommand::Print {
            raster_lines: vec![vec![1, 2]],
            chain_print: true,
            auto_cut: false,
            quality: PrintQuality::Standard,
            target: PrinterTarget::Usb,
        })),
        WorkerTask::Print {
            raster_lines: vec![vec![1, 2]],
            chain_print: true,
            auto_cut: false,
            quality: PrintQuality::Standard,
            target: PrinterTarget::Usb,
        }
    );
    assert_eq!(worker.step(WorkerInput::Silence), WorkerTask::Poll(PrinterTarget::Usb));
    assert_eq!(
        worker.step(WorkerInput::Command(PrinterCommand::FeedAndCut(bluetooth.clone()))),
        WorkerTask::FeedAndCut(bluetooth)
    );
    assert_eq!(worker.step(WorkerInput::Silence), WorkerTask::Rest);
    assert_eq!(worker.step(WorkerInput::HungUp), WorkerTask::Stop);
}

#[test]
fn events_report_what_became_of_a_command() {
    let target = printer("PT-P300BT", "AA:BB:CC:DD:EE:FF");
    let event = |response| PrinterEvent { target: Some(target.clone()), response };
    assert_eq!(
        poll_event(target.clone(), Err("gone".into())),
        event(PrinterResponse::Disconnected)
    );
    assert_eq!(
        poll_event(target.clone(), Ok(PrinterResponse::PrintDone)),
        event(PrinterResponse::PrintDone)
    );
    assert_eq!(print_event(target.clone(), Ok(())), event(PrinterResponse::PrintDone));
    assert_eq!(
        print_event(target.clone(), Err("jam".into())),
        event(PrinterResponse::Error("jam".into()))
    );
    assert_eq!(feed_event(target.clone(), Ok(())), event(PrinterResponse::FeedAndCutDone));
    assert_eq!(
        feed_event(target.clone(), Err("jam".into())),
        event(PrinterResponse::Error("jam".into()))
    );
    assert_eq!(
        discovery_event(Err("no helper".into())),
        PrinterEvent { target: None, response: PrinterResponse::BluetoothDevices(vec![]) }
    );
    assert_eq!(
        discovery_event(Ok("A\tB\n".into())),
        PrinterEvent {
            target: None,
            response: PrinterResponse::BluetoothDevices(vec![printer("B", "A")]),
        }
    );
}

#[test]
fn failures_are_reported_with_their_stage() {
    let error = PtouchError::Timeout;
    assert_eq!(stage_error(Stage::Connect, &error), "Connect error: Operation timed out");
    assert_eq!(stage_error(Stage::Init, &error), "Init error: Operation timed out");
    assert_eq!(stage_error(Stage::Print, &error), "Print error: Operation timed out");
    assert_eq!(
        stage_error(Stage::FeedAndCut, &error),
        "Feed & cut error: Operation timed out"
    );
    assert_eq!(feed_refusal(&PrinterTarget::Usb), None);
    assert_eq!(
        feed_refusal(&printer("a", "b")),
        Some("PT-P300BT has a manual cutter".to_string())
    );
}

/// Finish an operation with a printer that sends one report after a request.
fn finish(
    mut step: Step,
    report: &[u8],
    mut resume: impl FnMut(ptouch_core::session::Operation, Reply) -> Step,
) -> Result<(), PtouchError> {
    let mut pending: Option<Vec<u8>> = None;
    loop {
        match step {
            Step::Done(result) => return result,
            Step::Do { operation, action } => {
                let reply = match action {
                    Action::Send { bytes, .. } => {
                        if bytes == [0x1b, 0x69, 0x53] {
                            pending = Some(report.to_vec());
                        }
                        Reply::Sent
                    }
                    Action::Receive { capacity, .. } => match pending.take() {
                        Some(bytes) => {
                            let mut buffer = vec![0; capacity];
                            buffer[..bytes.len()].copy_from_slice(&bytes);
                            Reply::Received { count: bytes.len(), buffer }
                        }
                        None => Reply::Failed(PtouchError::Timeout),
                    },
                    Action::Sleep { .. } => Reply::Slept,
                };
                assert!(operation.accepts(&reply));
                step = resume(operation, reply);
            }
        }
    }
}

fn report(width: u8, media: u8) -> Vec<u8> {
    let mut packet = vec![0u8; 32];
    packet[..5].copy_from_slice(&[0x80, 0x20, 0x42, 0x30, 0x72]);
    packet[10] = width;
    packet[11] = media;
    packet
}

#[test]
fn usb_printers_are_reported_with_their_tape() {
    let table = [DeviceInfo {
        vid: 0x04f9,
        pid: 0x205f,
        name: "PT-E500",
        max_px: 128,
        dpi: 180,
        flags: DeviceFlags { bits: DeviceFlags::LEGACY_HIRES },
    }];
    let mut device = PtouchDevice::open(&table, 0x04f9, 0x205f).ok().unwrap();
    assert_eq!(usb_response(&device), None);
    let step = device.query_status(0);
    finish(step, &report(12, 3), |operation, reply| device.resume(operation, reply, 0)).unwrap();
    let connected = |media_width, media_type: &str, tape_width_px| {
        Some(PrinterResponse::Connected {
            model_name: "PT-E500".into(),
            media_width,
            media_type: media_type.into(),
            max_px: 128,
            dpi: 180,
            quality_modes: true,
            tape_width_px,
        })
    };
    assert_eq!(usb_response(&device), connected(12, "Non-laminated tape", 76));
    let step = device.query_status(0);
    finish(step, &report(13, 9), |operation, reply| device.resume(operation, reply, 0)).unwrap();
    assert_eq!(usb_response(&device), connected(13, "Unknown media", 128));
}

// ---------------------------------------------------------------------
// The helper
// ---------------------------------------------------------------------

fn args(list: &[&str]) -> Vec<String> {
    list.iter().map(|arg| arg.to_string()).collect()
}

#[test]
fn helper_reads_its_command_line() {
    assert_eq!(HELPER_ARG, "--ptouch-bluetooth-helper");
    assert!(!is_helper_call(&args(&["app"])));
    assert!(!is_helper_call(&args(&["app", "list", HELPER_ARG])));
    assert!(is_helper_call(&args(&["app", HELPER_ARG, "list"])));
    let command = |list: &[&str]| {
        let mut all = vec!["app", HELPER_ARG];
        all.extend(list);
        helper_command(&args(&all))
    };
    assert_eq!(command(&["list"]), Ok(HelperCommand::List));
    assert_eq!(
        command(&["status", "AA"]),
        Ok(HelperCommand::Status { address: "AA".into() })
    );
    assert_eq!(
        command(&["print", "AA", "more"]),
        Ok(HelperCommand::Print { address: "AA".into() })
    );
    assert_eq!(command(&["status"]), Err("Missing Bluetooth address".into()));
    assert_eq!(command(&["print"]), Err("Missing Bluetooth address".into()));
    assert_eq!(command(&[]), Err("Unknown Bluetooth helper operation".into()));
    assert_eq!(command(&["LIST"]), Err("Unknown Bluetooth helper operation".into()));
    assert_eq!(exit_code(&Ok(())), 0);
    assert_eq!(exit_code(&Err("x".into())), 1);
}

#[test]
fn helper_failures_are_trimmed() {
    assert_eq!(helper_failure(""), "Bluetooth helper failed");
    assert_eq!(helper_failure(" \n\t"), "Bluetooth helper failed");
    assert_eq!(helper_failure("  no printer\n"), "no printer");
}

#[test]
fn raster_data_survives_the_pipe() {
    let lines: Vec<Vec<u8>> = (0..5u8).map(|n| vec![n; 16]).collect();
    let bytes = raster_bytes(&lines);
    assert_eq!(bytes.len(), 80);
    assert_eq!(raster_lines(&bytes), Ok(lines));
    assert_eq!(raster_lines(&[]), Err("Invalid PT-P300BT raster data".into()));
    assert_eq!(raster_lines(&[0; 17]), Err("Invalid PT-P300BT raster data".into()));
    assert_eq!(raster_lines(&[9; 16]), Ok(vec![vec![9; 16]]));
}

#[test]
fn listing_survives_being_read_back() {
    let paired = |name: &str, address: &str| PairedDevice {
        name: name.into(),
        address: address.into(),
    };
    let list = list_printers(&vec![
        paired("Headphones", "00:00:00:00:00:01"),
        paired("pt-p300bt\tdesk\nleft", "00:00:00:00:00:02"),
        paired("PT-P300BT6427", "00:00:00:00:00:03"),
    ]);
    assert_eq!(
        list,
        "00:00:00:00:00:02\tpt-p300bt desk left\n00:00:00:00:00:03\tPT-P300BT6427\n"
    );
    assert_eq!(
        parse_bluetooth_devices(&list),
        [
            printer("pt-p300bt desk left", "00:00:00:00:00:02"),
            printer("PT-P300BT6427", "00:00:00:00:00:03"),
        ]
    );
    assert_eq!(list_printers(&vec![]), "");
}

#[test]
fn status_line_survives_being_read_back() {
    let mut device = BluetoothDevice::connected();
    assert_eq!(report_status(&device), Err("Printer returned no status".into()));
    let step = device.init(0);
    finish(step, &report(12, 1), |operation, reply| device.resume(operation, reply, 0)).unwrap();
    let line = report_status(&device).unwrap();
    assert_eq!(line, "PT-P300BT\t12\tLaminated tape\t128\t180\t64\n");
    assert_eq!(
        parse_bluetooth_status(&line),
        Ok(PrinterResponse::Connected {
            model_name: "PT-P300BT".into(),
            media_width: 12,
            media_type: "Laminated tape".into(),
            max_px: 128,
            dpi: 180,
            quality_modes: false,
            tape_width_px: 64,
        })
    );
    let step = device.query_status(0);
    finish(step, &report(9, 1), |operation, reply| device.resume(operation, reply, 0)).unwrap();
    assert_eq!(report_status(&device), Err("Unsupported tape width".into()));
}
