use ptouch_core::device::{
    find_device, first_printer, select_device, DeviceFlags, DeviceInfo, BROTHER_VENDOR_ID,
};
use ptouch_core::error::{PtouchError, UsbFault};
use ptouch_core::link::{Action, Reply};
use ptouch_core::model::{Dialect, ModelProfile};
use ptouch_core::protocol::{build_print_job, rasterline_blank, JobOptions, PrintQuality};
use ptouch_core::sample::{raster, sample_request, SampleRequest};
use ptouch_core::session::Step;
use ptouch_core::status::PrinterStatus;
use ptouch_core::tape::tape_pixels;
use ptouch_core::transport::{
    find_bulk_endpoints, receive_outcome, receive_reply, send_outcome, send_reply, Direction,
    Endpoint, PtouchDevice,
};

fn model(pid: u16, name: &'static str, flags: u32) -> DeviceInfo {
    DeviceInfo {
        vid: BROTHER_VENDOR_ID,
        pid,
        name,
        max_px: 128,
        dpi: 180,
        flags: DeviceFlags { bits: flags },
    }
}

fn table() -> Vec<DeviceInfo> {
    vec![
        model(1, "PT-Lite", DeviceFlags::PLITE),
        model(2, "PT-Plain", DeviceFlags::NONE),
        model(3, "PT-Template", DeviceFlags::UNSUP_RASTER),
        model(4, "PT-Auto", DeviceFlags::AUTO_STATUS_NOTIFICATION),
        model(2, "PT-Shadowed", DeviceFlags::PLITE),
    ]
}

#[test]
fn usb_facade_preserves_send_and_sync() {
    fn assert_traits<T: Send + Sync>() {}
    assert_traits::<PtouchDevice>();
}

#[test]
fn only_printable_models_are_opened() {
    let table = table();
    assert_eq!(find_device(&table, BROTHER_VENDOR_ID, 2).unwrap().name, "PT-Plain");
    assert!(find_device(&table, 0x1234, 2).is_none());
    let refused = |pid| PtouchDevice::open(&table, BROTHER_VENDOR_ID, pid).err().unwrap();
    assert_eq!(refused(9), PtouchError::DeviceNotFound);
    assert_eq!(refused(1), PtouchError::PLiteMode("PT-Lite".into()));
    assert_eq!(refused(3), PtouchError::UnsupportedRaster("PT-Template".into()));
    assert!(select_device(&table, BROTHER_VENDOR_ID, 4).is_ok());
    let device = PtouchDevice::open(&table, BROTHER_VENDOR_ID, 2).ok().unwrap();
    assert_eq!(device.device_info().name, "PT-Plain");
    assert_eq!(device.max_px(), 128);
    assert_eq!(device.flags().bits, DeviceFlags::NONE);
    assert!(!device.is_initialized());
    assert!(device.status().is_none());
    assert_eq!(device.tape_width_px(), None);
}

#[test]
fn the_first_printable_printer_on_the_bus_is_taken() {
    let table = table();
    let brother = BROTHER_VENDOR_ID;
    let bus = [(0x1234, 2), (brother, 1), (brother, 9), (brother, 4), (brother, 2)];
    assert_eq!(first_printer(&table, &bus), Some(3));
    let device = PtouchDevice::open_first(&table, &bus).ok().unwrap();
    assert_eq!(device.device_info().name, "PT-Auto");
    assert_eq!(first_printer(&table, &bus[..3]), None);
    assert_eq!(
        PtouchDevice::open_first(&table, &bus[..3]).err(),
        Some(PtouchError::DeviceNotFound)
    );
}

#[test]
fn short_writes_fail() {
    assert_eq!(send_outcome(Ok(3), 3), Ok(()));
    assert_eq!(
        send_outcome(Ok(2), 3),
        Err(PtouchError::SendFailed("Expected to write 3 bytes, wrote 2".into()))
    );
    assert_eq!(send_outcome(Err(UsbFault::Timeout), 3), Err(PtouchError::Timeout));
    assert_eq!(
        send_outcome(Err(UsbFault::NoDevice), 3),
        Err(PtouchError::UsbError(UsbFault::NoDevice))
    );
    assert_eq!(send_reply(Ok(3), 3), Reply::Sent);
    assert_eq!(send_reply(Err(UsbFault::Timeout), 3), Reply::Failed(PtouchError::Timeout));
    assert_eq!(receive_outcome(Ok(5)), Ok(5));
    assert_eq!(receive_outcome(Err(UsbFault::Timeout)), Err(PtouchError::Timeout));
    assert_eq!(
        receive_reply(Ok(1), vec![7, 0]),
        Reply::Received { count: 1, buffer: vec![7, 0] }
    );
    assert_eq!(
        receive_reply(Err(UsbFault::Io), vec![7, 0]),
        Reply::Failed(PtouchError::UsbError(UsbFault::Io))
    );
}

#[test]
fn the_last_bulk_endpoints_of_the_printer_interface_are_used() {
    let endpoint = |interface, bulk, direction, address| Endpoint {
        interface,
        bulk,
        direction,
        address,
    };
    let endpoints = [
        endpoint(0, true, Direction::Out, 0x01),
        endpoint(0, false, Direction::In, 0x81),
        endpoint(0, true, Direction::In, 0x82),
        endpoint(0, true, Direction::Out, 0x02),
        endpoint(1, true, Direction::In, 0x83),
    ];
    assert_eq!(find_bulk_endpoints(&endpoints), Ok((0x02, 0x82)));
    assert_eq!(find_bulk_endpoints(&endpoints[..2]), Err(PtouchError::DeviceNotFound));
    assert_eq!(find_bulk_endpoints(&[]), Err(PtouchError::DeviceNotFound));
}

#[test]
fn device_operations_start_as_the_session_does() {
    let mut device = PtouchDevice::open(&table(), BROTHER_VENDOR_ID, 2).ok().unwrap();
    assert_eq!(device.send(&[1]), Action::Send { bytes: vec![1], timeout: 5_000_000_000 });
    assert_eq!(device.receive(8), Action::Receive { capacity: 8, timeout: 5_000_000_000 });
    let flush = Action::Receive { capacity: 64, timeout: 100_000_000 };
    assert!(matches!(device.init(0), Step::Do { action, .. } if action == flush));
    assert!(matches!(device.query_status(0), Step::Do { action, .. } if action == flush));
    assert!(matches!(
        device.get_status(),
        Step::Do { action: Action::Send { bytes, .. }, .. } if bytes == [0x1b, 0x69, 0x53]
    ));
    assert!(matches!(
        device.print_raster(&[vec![0; 16]], false, false, PrintQuality::Standard, 0),
        Step::Done(Err(PtouchError::NotInitialized))
    ));
    assert!(matches!(
        device.feed_and_cut(0),
        Step::Done(Err(PtouchError::NotInitialized))
    ));
}

// ---------------------------------------------------------------------
// Models, tapes, jobs, reports
// ---------------------------------------------------------------------

#[test]
fn tape_widths_are_clamped_to_the_head() {
    assert_eq!(tape_pixels(12, 180), Some(76));
    assert_eq!(tape_pixels(12, 360), Some(152));
    assert_eq!(tape_pixels(7, 180), None);
    let narrow = ModelProfile::from(&model(2, "PT-Plain", DeviceFlags::NONE));
    assert_eq!(narrow.dialect, Dialect::Usb);
    assert_eq!(narrow.tape_width_px(12), Some(76));
    assert_eq!(narrow.tape_width_px(36), Some(128));
    assert_eq!(narrow.tape_width_px(7), None);
    assert_eq!(ModelProfile::p300bt().tape_width_px(12), Some(64));
}

#[test]
fn a_plain_job_feeds_blank_lines() {
    let lines = vec![rasterline_blank(12), vec![0, 1]];
    let opts = JobOptions {
        media_width: 12,
        chain_print: true,
        precut: true,
        quality: PrintQuality::Standard,
    };
    assert_eq!(rasterline_blank(12), vec![0, 0]);
    assert_eq!(
        build_print_job(&lines, DeviceFlags { bits: DeviceFlags::NONE }, &opts),
        vec![
            vec![0x1b, 0x69, 0x52, 1],
            vec![0x5a],
            vec![0x47, 2, 0, 0, 1],
            vec![0x0c],
        ]
    );
}

#[test]
fn reports_are_decoded_and_described() {
    let mut bytes = [0u8; 32];
    assert!(PrinterStatus::from_bytes(&bytes[..31]).is_none());
    bytes[8] = 0x4d;
    bytes[9] = 0x31;
    bytes[18] = 6;
    let status = PrinterStatus::from_bytes(&bytes).unwrap();
    assert!(status.has_error());
    assert_eq!(
        status.error_description(),
        "No media, Cutter jam, Weak batteries, High-voltage adapter, Wrong media, Cover open, Overheating"
    );
    assert!(status.is_waiting_to_receive());
    assert_eq!(status.media_type_name(), "No media");
}

// ---------------------------------------------------------------------
// The sample label
// ---------------------------------------------------------------------

#[test]
fn asymmetric_glyph_survives_printer_dot_order() {
    let raster = raster();
    let expected = [
        "11110", "10001", "10001", "11110", "10100", "10010", "10001",
    ];
    for (row, pattern) in expected.iter().enumerate() {
        for (col, pixel) in pattern.bytes().enumerate() {
            let wire_dot = 127 - (32 + 11 + row * 6);
            let line = &raster[6 + col * 6];
            let black = line[15 - wire_dot / 8] & (1 << (wire_dot % 8)) != 0;
            assert_eq!(black, pixel == b'1', "row {} column {}", row, col);
        }
    }
}

#[test]
fn sample_label_is_accepted_by_the_printer() {
    let mut bytes = [0; 32];
    bytes[..5].copy_from_slice(&[0x80, 0x20, 0x42, 0x30, 0x72]);
    bytes[10] = 12;
    let status = PrinterStatus::from_bytes(&bytes).unwrap();
    let lines = raster();
    assert_eq!(lines.len(), 156);
    let job = ptouch_core::p300bt::build_print_job(&lines, &status, false).unwrap();
    assert_eq!(job.len(), 6 + 156 + 1);
    // The margins are blank, and the top bar of the last letter is not.
    assert_eq!(job[6], vec![0x5a]);
    assert_eq!(job[6 + 155], vec![0x5a]);
    assert_eq!(job[6 + 6 + 3 * 36][0], 0x47);
    let marks: u32 = lines.iter().flatten().map(|byte| byte.count_ones()).sum();
    assert_eq!(marks, 36 * (18 + 15 + 15 + 11));
}

#[test]
fn sample_program_reads_its_arguments() {
    let args = |list: &[&str]| list.iter().map(|arg| arg.to_string()).collect::<Vec<_>>();
    let usage = Err("Usage: bluetooth status|print ADDRESS [REPEAT]".to_string());
    assert_eq!(sample_request(&args(&["status"]), None), usage);
    assert_eq!(sample_request(&args(&["list", "AA"]), None), usage);
    assert_eq!(
        sample_request(&args(&["status", "AA", "3"]), Some(Ok(3))),
        Ok(SampleRequest { print: false, address: "AA".into(), repeat: 3 })
    );
    assert_eq!(
        sample_request(&args(&["print", "AA"]), None),
        Ok(SampleRequest { print: true, address: "AA".into(), repeat: 1 })
    );
    let limited = Err("Use positive repetitions; print is limited to one label".to_string());
    assert_eq!(sample_request(&args(&["print", "AA", "2"]), Some(Ok(2))), limited);
    assert_eq!(sample_request(&args(&["status", "AA", "0"]), Some(Ok(0))), limited);
    assert_eq!(
        sample_request(&args(&["status", "AA", "x"]), Some(Err("no number".into()))),
        Err("no number".to_string())
    );
}
