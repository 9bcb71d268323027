use ptouch_core::error::PtouchError;
use ptouch_core::p300bt::build_print_job;
use ptouch_core::status::PrinterStatus;

fn ready() -> PrinterStatus {
    let mut bytes = [0; 32];
    bytes[..5].copy_from_slice(&[0x80, 0x20, 0x42, 0x30, 0x72]);
    bytes[10] = 12;
    bytes[11] = 1;
    PrinterStatus::from_bytes(&bytes).unwrap()
}

#[test]
fn job_matches_verified_probe_commands() {
    let mut line = vec![0; 16];
    line[5] = 0x40;
    let job = build_print_job(&[vec![0; 16], line], &ready(), false).unwrap();
    let mut init = vec![0; 64];
    init.extend([0x1b, 0x40, 0x1b, 0x69, 0x61, 1]);
    assert_eq!(job[0], init);
    assert_eq!(job[1], [0x1b, 0x69, 0x7a, 0xc4, 1, 12, 0, 2, 0, 0, 0, 0, 0]);
    assert_eq!(job[2], [0x1b, 0x69, 0x4b, 8]);
    assert_eq!(job[3], [0x1b, 0x69, 0x4d, 0]);
    assert_eq!(job[4], [0x1b, 0x69, 0x64, 0, 0]);
    assert_eq!(job[5], [0x4d, 0]);
    assert_eq!(job[6], [0x5a]);
    assert_eq!(&job[7][..3], [0x47, 16, 0]);
    assert_eq!(job[7][8], 0x40);
    assert_eq!(job[8], [0x1a]);
}

#[test]
fn invalid_jobs_are_rejected_before_sending() {
    assert!(build_print_job(&[], &ready(), false).is_err());
    assert!(build_print_job(&[vec![0; 8]], &ready(), false).is_err());
    assert!(build_print_job(&[vec![1; 16]], &ready(), false).is_err());
    let mut status = ready();
    status.media_width = 9;
    assert!(matches!(
        build_print_job(&[vec![0; 16]], &status, false),
        Err(PtouchError::UnknownTapeWidth(9))
    ));
    status = ready();
    status.phase_type = 1;
    assert!(build_print_job(&[vec![0; 16]], &status, false).is_err());
    status = ready();
    status.error_info_1 = 8;
    assert!(build_print_job(&[vec![0; 16]], &status, false).is_err());
}

#[test]
fn refusals_name_their_reason() {
    let refused = |lines: &[Vec<u8>], status: &PrinterStatus| {
        build_print_job(lines, status, false).unwrap_err()
    };
    let mut off = ready();
    off.status_type = 4;
    assert_eq!(
        refused(&[vec![0; 16]], &off),
        PtouchError::StatusError("No error".into())
    );
    let mut busy = ready();
    busy.phase_number_lo = 1;
    assert_eq!(
        refused(&[vec![0; 16]], &busy),
        PtouchError::StatusError("PT-P300BT is not idle".into())
    );
    let mut other = ready();
    other.model_code = 0x71;
    assert_eq!(
        refused(&[vec![0; 16]], &other),
        PtouchError::StatusError("Expected PT-P300BT status".into())
    );
    assert_eq!(
        refused(&[vec![0; 16], vec![0; 15]], &ready()),
        PtouchError::SendFailed(
            "PT-P300BT requires nonempty raster data with 16 bytes per line".into()
        )
    );
    let mut marked = vec![0; 16];
    marked[12] = 1;
    assert_eq!(
        refused(&[vec![0; 16], marked], &ready()),
        PtouchError::UnsupportedRaster(
            "PT-P300BT requires white padding outside the middle 64 dots".into()
        )
    );
}

#[test]
fn printable_area_reaches_its_edges() {
    let mut line = vec![0; 16];
    line[4] = 0x80;
    line[11] = 0x01;
    let job = build_print_job(&[line.clone()], &ready(), true).unwrap();
    assert_eq!(job.len(), 8);
    assert_eq!(job[2], [0x1b, 0x69, 0x4b, 0]);
    assert_eq!(&job[6][3..], &line[..]);
    assert_eq!(job[7], [0x0c]);
}

#[test]
fn different_lines_make_different_jobs() {
    let mut line = vec![0; 16];
    line[6] = 1;
    let marked = build_print_job(&[line], &ready(), false).unwrap();
    let blank = build_print_job(&[vec![0; 16]], &ready(), false).unwrap();
    assert_ne!(marked, blank);
}
