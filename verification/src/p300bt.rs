//! The command dialect of the PT-P300BT.

use vstd::prelude::*;

use crate::error::{ErrorModel, PtouchError};
use crate::protocol;
use crate::protocol::contents;
use crate::status::PrinterStatus;
use crate::wire::{is_p300bt_job, law_p300bt_job_reads_back, law_p300bt_refusals, takes_lines};

verus! {

/// Bytes of a raster line.
pub const LINE_BYTES: usize = 16;

/// Clear the command buffer with 64 zeros, reset, and enter raster mode.
pub open spec fn init_command() -> Seq<u8> {
    protocol::zeros(64) + seq![0x1b, 0x40, 0x1b, 0x69, 0x61, 1]
}

/// Whether every mark of a raster line lies in the middle 64 dots.
pub open spec fn within_margins(line: Seq<u8>) -> bool {
    forall|i: int| 0 <= i < 4 || 12 <= i < LINE_BYTES ==> line[i] == 0
}

/// Whether the printer waits for a job.
pub open spec fn idle(status: PrinterStatus) -> bool {
    status.status_type == 0 && status.phase_type == 0 && status.phase_number_hi == 0
        && status.phase_number_lo == 0
}

/// Why a job is refused, if it is.
pub open spec fn refusal(lines: Seq<Seq<u8>>, status: PrinterStatus) -> Option<ErrorModel> {
    if status.faulty() || status.status_type == 2 || status.status_type == 4 {
        Some(ErrorModel::StatusError(status.description()))
    } else if !idle(status) {
        Some(ErrorModel::StatusError("PT-P300BT is not idle"@))
    } else if status.model_code != 0x72 {
        Some(ErrorModel::StatusError("Expected PT-P300BT status"@))
    } else if status.media_width != 12 {
        Some(ErrorModel::UnknownTapeWidth(status.media_width))
    } else if lines.len() == 0 || exists|i: int|
        0 <= i < lines.len() && #[trigger] lines[i].len() != LINE_BYTES {
        Some(
            ErrorModel::SendFailed(
                "PT-P300BT requires nonempty raster data with 16 bytes per line"@,
            ),
        )
    } else if exists|i: int| 0 <= i < lines.len() && !within_margins(#[trigger] lines[i]) {
        Some(
            ErrorModel::UnsupportedRaster(
                "PT-P300BT requires white padding outside the middle 64 dots"@,
            ),
        )
    } else if lines.len() > u32::MAX {
        Some(ErrorModel::SendFailed("Too many raster lines"@))
    } else {
        None
    }
}

/// The print information command: the loaded media and the number of lines.
pub open spec fn info_command(status: PrinterStatus, count: nat) -> Seq<u8> {
    seq![
        0x1b,
        0x69,
        0x7a,
        0xc4,
        status.media_type,
        status.media_width,
        status.media_length,
    ] + protocol::le32(count) + seq![0, 0]
}

/// The commands that set a job up.
pub open spec fn preamble(status: PrinterStatus, count: nat, chain_print: bool) -> Seq<Seq<u8>> {
    seq![
        init_command(),
        info_command(status, count),
        seq![0x1b, 0x69, 0x4b, if chain_print {
            0u8
        } else {
            8u8
        }],
        seq![0x1b, 0x69, 0x4d, 0],
        protocol::page_flags_command(0),
        seq![0x4d, 0],
    ]
}

/// A whole job: the preamble, one command for each line, and the final command.
pub open spec fn job(lines: Seq<Seq<u8>>, status: PrinterStatus, chain_print: bool) -> Seq<
    Seq<u8>,
> {
    preamble(status, lines.len(), chain_print) + protocol::body(lines) + seq![
        protocol::finalize_command(chain_print),
    ]
}

/// The commands of a job, or the reason for which it is refused.
pub open spec fn planned(lines: Seq<Seq<u8>>, status: PrinterStatus, chain_print: bool) -> Result<
    Seq<Seq<u8>>,
    ErrorModel,
> {
    match refusal(lines, status) {
        Some(e) => Err(e),
        None => Ok(job(lines, status, chain_print)),
    }
}

/// The reset command.
pub fn cmd_init() -> (r: Vec<u8>)
    ensures
        r@ == init_command(),
{
    let mut out: Vec<u8> = protocol::zero_bytes(64);
    out.push(0x1b);
    out.push(0x40);
    out.push(0x1b);
    out.push(0x69);
    out.push(0x61);
    out.push(1);
    assert(out@ =~= init_command());
    out
}

fn cmd_info(status: &PrinterStatus, count: u32) -> (r: Vec<u8>)
    ensures
        r@ == info_command(*status, count as nat),
{
    let mut out: Vec<u8> = vec![
        0x1b,
        0x69,
        0x7a,
        0xc4,
        status.media_type,
        status.media_width,
        status.media_length,
    ];
    protocol::push_le32(&mut out, count as u64);
    out.push(0);
    out.push(0);
    assert(out@ =~= info_command(*status, count as nat));
    out
}

fn all_lines_fit(lines: &[Vec<u8>]) -> (r: bool)
    ensures
        r == (forall|i: int|
            0 <= i < contents(lines@).len() ==> #[trigger] contents(lines@)[i].len()
                == LINE_BYTES),
{
    let mut i: usize = 0;
    while i < lines.len()
        invariant
            i <= lines@.len(),
            forall|j: int| 0 <= j < i ==> #[trigger] contents(lines@)[j].len() == LINE_BYTES,
        decreases lines@.len() - i,
    {
        if lines[i].len() != LINE_BYTES {
            assert(contents(lines@)[i as int].len() != LINE_BYTES);
            return false;
        }
        i = i + 1;
    }
    true
}

fn margins_are_blank(line: &[u8]) -> (r: bool)
    requires
        line@.len() == LINE_BYTES,
    ensures
        r == within_margins(line@),
{
    let mut i: usize = 0;
    while i < LINE_BYTES
        invariant
            i <= LINE_BYTES,
            line@.len() == LINE_BYTES,
            forall|j: int| 0 <= j < i && (j < 4 || 12 <= j) ==> line@[j] == 0,
        decreases LINE_BYTES - i,
    {
        if (i < 4 || i >= 12) && line[i] != 0 {
            return false;
        }
        i = i + 1;
    }
    true
}

fn all_within_margins(lines: &[Vec<u8>]) -> (r: bool)
    requires
        forall|i: int|
            0 <= i < contents(lines@).len() ==> #[trigger] contents(lines@)[i].len() == LINE_BYTES,
    ensures
        r == (forall|i: int|
            0 <= i < contents(lines@).len() ==> within_margins(#[trigger] contents(lines@)[i])),
{
    let mut i: usize = 0;
    while i < lines.len()
        invariant
            i <= lines@.len(),
            forall|j: int|
                0 <= j < contents(lines@).len() ==> #[trigger] contents(lines@)[j].len()
                    == LINE_BYTES,
            forall|j: int| 0 <= j < i ==> within_margins(#[trigger] contents(lines@)[j]),
        decreases lines@.len() - i,
    {
        assert(contents(lines@)[i as int] == lines@[i as int]@);
        if !margins_are_blank(lines[i].as_slice()) {
            return false;
        }
        i = i + 1;
    }
    true
}

/// Build the commands of a job for a printer in the given state.
pub fn build_print_job(lines: &[Vec<u8>], status: &PrinterStatus, chain_print: bool) -> (r: Result<
    Vec<Vec<u8>>,
    PtouchError,
>)
    ensures
        match planned(contents(lines@), *status, chain_print) {
            Ok(job) => r is Ok && contents(r->Ok_0@) == job,
            Err(e) => r is Err && r->Err_0@ == e,
        },
        r is Ok <==> takes_lines(contents(lines@), *status),
        r matches Ok(job) ==> is_p300bt_job(
            contents(job@),
            contents(lines@),
            *status,
            chain_print,
        ),
{
    proof {
        law_p300bt_refusals(contents(lines@), *status, chain_print);
        if planned(contents(lines@), *status, chain_print) is Ok {
            law_p300bt_job_reads_back(contents(lines@), *status, chain_print);
        }
    }
    if status.has_error() || status.status_type == 2 || status.status_type == 4 {
        return Err(PtouchError::StatusError(status.error_description()));
    }
    if status.status_type != 0 || status.phase_type != 0 || status.phase_number_hi != 0
        || status.phase_number_lo != 0 {
        return Err(PtouchError::StatusError("PT-P300BT is not idle".to_string()));
    }
    if status.model_code != 0x72 {
        return Err(PtouchError::StatusError("Expected PT-P300BT status".to_string()));
    }
    if status.media_width != 12 {
        return Err(PtouchError::UnknownTapeWidth(status.media_width));
    }
    if lines.len() == 0 || !all_lines_fit(lines) {
        return Err(
            PtouchError::SendFailed(
                "PT-P300BT requires nonempty raster data with 16 bytes per line".to_string(),
            ),
        );
    }
    // Reject marks outside the physically verified 64-dot printable area.
    if !all_within_margins(lines) {
        return Err(
            PtouchError::UnsupportedRaster(
                "PT-P300BT requires white padding outside the middle 64 dots".to_string(),
            ),
        );
    }
    if lines.len() as u64 > u32::MAX as u64 {
        return Err(PtouchError::SendFailed("Too many raster lines".to_string()));
    }
    let count: u32 = lines.len() as u32;
    let mut out: Vec<Vec<u8>> = Vec::new();
    out.push(cmd_init());
    out.push(cmd_info(status, count));
    out.push(vec![0x1b, 0x69, 0x4b, if chain_print { 0 } else { 8 }]);
    out.push(vec![0x1b, 0x69, 0x4d, 0]);
    out.push(protocol::cmd_page_flags(0));
    out.push(vec![0x4d, 0]);
    proof {
        let plan = preamble(*status, count as nat, chain_print);
        assert(out@[2]@ =~= plan[2]);
        assert(out@[3]@ =~= plan[3]);
        assert(out@[5]@ =~= plan[5]);
        assert(contents(out@) =~= plan);
    }
    protocol::push_lines(&mut out, lines);
    let ghost before = out@;
    out.push(protocol::cmd_finalize(chain_print));
    assert(contents(out@) =~= contents(before).push(protocol::finalize_command(chain_print)));
    assert(contents(out@) =~= job(contents(lines@), *status, chain_print));
    Ok(out)
}

/// An accepted job has seven commands beside one for each line, and says which
/// dots are marked: different accepted lines make different jobs.
pub proof fn law_job_determines_lines(
    a: Seq<Seq<u8>>,
    b: Seq<Seq<u8>>,
    status: PrinterStatus,
    chain_print: bool,
)
    requires
        refusal(a, status) is None,
        refusal(b, status) is None,
        job(a, status, chain_print) == job(b, status, chain_print),
    ensures
        job(a, status, chain_print).len() == a.len() + 7,
        a == b,
{
    let ja = job(a, status, chain_print);
    let jb = job(b, status, chain_print);
    assert(ja.len() == a.len() + 7);
    assert(jb.len() == b.len() + 7);
    assert forall|i: int| 0 <= i < a.len() implies a[i] == b[i] by {
        assert(ja[i + 6] == protocol::line_command(a[i]));
        assert(jb[i + 6] == protocol::line_command(b[i]));
        assert(a[i].len() == LINE_BYTES);
        assert(b[i].len() == LINE_BYTES);
        protocol::law_line_command_determines_line(a[i], b[i]);
    }
    assert(a =~= b);
}

/// A job is made only for an idle PT-P300BT without errors on the one tape that
/// was verified, from lines without a mark outside the printable area.
pub proof fn law_job_fits_printer(
    lines: Seq<Seq<u8>>,
    status: PrinterStatus,
    chain_print: bool,
    i: int,
)
    requires
        planned(lines, status, chain_print) is Ok,
        0 <= i < lines.len(),
    ensures
        idle(status) && !status.faulty(),
        status.model_code == 0x72,
        status.media_width == 12,
        lines[i].len() == LINE_BYTES,
        within_margins(lines[i]),
{
}

} // verus!
