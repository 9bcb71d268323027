//! Reading a print job back from its commands, as the printer does.
//!
//! Nothing here is taken from the functions that build a job: a command is known
//! by its bytes alone.

use vstd::prelude::*;

use crate::bluetooth::{
    label_resumed, label_run, labelling, of_job, of_query, LabelStepModel,
};
use crate::device::DeviceFlags;
use crate::error::ErrorModel;
use crate::lifecycle::{
    handed_over, init_commands, init_step, law_feed, law_initialization, law_label, law_query,
    query_commands, query_step, run, sent,
};
use crate::link::{ActionModel, ReplyModel};
use crate::model::{Dialect, ModelProfile};
use crate::p300bt;
use crate::protocol;
use crate::protocol::{JobOptions, PrintQuality};
use crate::session::{failed, requesting, Goal, PhaseModel, SessionModel, StepModel};
use crate::status::PrinterStatus;

verus! {

// ---------------------------------------------------------------------
// Commands
// ---------------------------------------------------------------------

/// What a command prints.
pub enum Printed {
    /// A line without a mark.
    Blank,
    /// A line with these dots.
    Dots(Seq<u8>),
}

/// What a command prints, if it prints a line: `5A` a blank one, and `47` with
/// the length in two bytes, lower byte first, the dots that follow.
pub open spec fn printed(command: Seq<u8>) -> Option<Printed> {
    if command.len() == 1 && command[0] == 0x5a {
        Some(Printed::Blank)
    } else if command.len() >= 3 && command[0] == 0x47 && command[1] + 256 * command[2] == (
    command.len() - 3) % 65536 {
        Some(Printed::Dots(command.skip(3)))
    } else {
        None
    }
}

/// Whether what is printed is the given raster line, and a blank one is not
/// printed dot by dot.
pub open spec fn depicts(print: Printed, line: Seq<u8>) -> bool {
    match print {
        Printed::Blank => forall|k: int| 0 <= k < line.len() ==> line[k] == 0,
        Printed::Dots(dots) => dots == line && exists|k: int|
            0 <= k < line.len() && #[trigger] line[k] != 0,
    }
}

/// Whether a command ends the page, and the tape is cut behind it: `1A`.
pub open spec fn cuts(command: Seq<u8>) -> bool {
    command.len() == 1 && command[0] == 0x1a
}

/// Whether a command ends the page, and another follows at once: `0C`.
pub open spec fn continues(command: Seq<u8>) -> bool {
    command.len() == 1 && command[0] == 0x0c
}

/// How many commands come before the first one that prints a line or ends the
/// page.
pub open spec fn setup_len(commands: Seq<Seq<u8>>) -> nat
    decreases commands.len(),
{
    if commands.len() == 0 || printed(commands[0]) is Some || cuts(commands[0]) || continues(
        commands[0],
    ) {
        0
    } else {
        1 + setup_len(commands.drop_first())
    }
}

/// Whether commands, behind those that set the job up, print the lines one by
/// one, in order, nothing else, and then end the page, with a cut unless it is
/// chained.
pub open spec fn prints_lines(commands: Seq<Seq<u8>>, lines: Seq<Seq<u8>>, chained: bool) -> bool {
    let start = setup_len(commands) as int;
    &&& commands.len() == start + lines.len() + 1
    &&& forall|i: int|
        0 <= i < lines.len() ==> printed(#[trigger] commands[start + i]) is Some && depicts(
            printed(commands[start + i])->Some_0,
            lines[i],
        )
    &&& if chained {
        continues(commands.last())
    } else {
        cuts(commands.last())
    }
}

/// The number that four bytes spell out, lowest first.
pub open spec fn little_endian(b: Seq<u8>, at: int) -> int {
    b[at] + 256 * b[at + 1] + 65536 * b[at + 2] + 16777216 * b[at + 3]
}

/// Whether every bit of a mask is set.
pub open spec fn flagged(flags: DeviceFlags, mask: u32) -> bool {
    flags.bits & mask == mask
}

/// One for what is there, zero for what is not.
pub open spec fn one_if(there: bool) -> int {
    if there {
        1
    } else {
        0
    }
}

proof fn lemma_setup_len(commands: Seq<Seq<u8>>, n: int)
    requires
        0 <= n < commands.len(),
        forall|i: int|
            0 <= i < n ==> printed(#[trigger] commands[i]) is None && !cuts(commands[i])
                && !continues(commands[i]),
        printed(commands[n]) is Some || cuts(commands[n]) || continues(commands[n]),
    ensures
        setup_len(commands) == n,
    decreases n,
{
    if n > 0 {
        let rest = commands.drop_first();
        assert(printed(commands[0]) is None);
        assert forall|i: int| 0 <= i < n - 1 implies printed(#[trigger] rest[i]) is None && !cuts(
            rest[i],
        ) && !continues(rest[i]) by {
            assert(rest[i] == commands[i + 1]);
        }
        assert(rest[n - 1] == commands[n]);
        lemma_setup_len(rest, n - 1);
    }
}

proof fn lemma_raster_command_prints(line: Seq<u8>)
    ensures
        printed(protocol::send_raster(line)) == Some(Printed::Dots(line)),
{
    let command = protocol::send_raster(line);
    let n = line.len();
    assert(command.len() == n + 3);
    assert(command[0] == 0x47);
    assert(command[1] == n % 256);
    assert(command[2] == n / 256 % 256);
    assert(n / 65536 == n / 256 / 256);
    assert(command.skip(3) =~= line);
}

proof fn lemma_line_command_prints(line: Seq<u8>)
    ensures
        printed(protocol::line_command(line)) is Some,
        depicts(printed(protocol::line_command(line))->Some_0, line),
{
    if !protocol::blank(line) {
        lemma_raster_command_prints(line);
    }
}

/// The parts of a job make it read back.
proof fn lemma_prints_lines(
    commands: Seq<Seq<u8>>,
    setup: Seq<Seq<u8>>,
    lines: Seq<Seq<u8>>,
    chained: bool,
)
    requires
        commands == setup + protocol::body(lines) + seq![protocol::finalize_command(chained)],
        forall|i: int|
            0 <= i < setup.len() ==> printed(#[trigger] setup[i]) is None && !cuts(setup[i])
                && !continues(setup[i]),
    ensures
        prints_lines(commands, lines, chained),
        setup_len(commands) == setup.len(),
{
    let n = setup.len() as int;
    assert forall|i: int| 0 <= i < n implies printed(#[trigger] commands[i]) is None && !cuts(
        commands[i],
    ) && !continues(commands[i]) by {
        assert(commands[i] == setup[i]);
    }
    assert forall|i: int| 0 <= i < lines.len() implies #[trigger] commands[n + i]
        == protocol::line_command(lines[i]) by {}
    assert(commands.last() == protocol::finalize_command(chained));
    if lines.len() > 0 {
        lemma_line_command_prints(lines[0]);
        assert(commands[n + 0] == protocol::line_command(lines[0]));
    } else {
        assert(commands[n] == commands.last());
    }
    lemma_setup_len(commands, n);
    assert forall|i: int| 0 <= i < lines.len() implies printed(#[trigger] commands[n + i]) is Some
        && depicts(printed(commands[n + i])->Some_0, lines[i]) by {
        lemma_line_command_prints(lines[i]);
    }
}

proof fn lemma_little_endian(count: nat)
    ensures
        protocol::le32(count).len() == 4,
        little_endian(protocol::le32(count), 0) == count % 0x1_0000_0000,
{
    let b = protocol::le32(count);
    assert(b[0] == count % 256);
    assert(b[1] == count / 0x100 % 256);
    assert(b[2] == count / 0x10000 % 256);
    assert(b[3] == count / 0x1000000 % 256);
    let q1 = count / 256;
    let q2 = q1 / 256;
    let q3 = q2 / 256;
    assert(count / 0x10000 == q2);
    assert(count / 0x1000000 == q3);
    assert(count / 0x1_0000_0000 == q3 / 256);
}

// ---------------------------------------------------------------------
// Jobs on the USB bus
// ---------------------------------------------------------------------

/// Whether a command announces the tape width and the number of lines:
/// `1B 69 7A`, the width at the sixth byte, and the number in four bytes from
/// the eighth.
pub open spec fn announces(command: Seq<u8>, width: u8, count: nat) -> bool {
    &&& command.len() == 13
    &&& command.take(3) == seq![0x1bu8, 0x69, 0x7a]
    &&& command[5] == width
    &&& little_endian(command, 7) == count % 0x1_0000_0000
    &&& forall|k: int| k == 3 || k == 4 || k == 6 || k == 11 || k == 12 ==> command[k] == 0
}

/// Whether commands are the job of the lines on a USB printer with the given
/// flags: raster mode first, then, only where the printer wants it, the
/// announcement; only where it is asked for and there, the higher resolution and
/// the cut ahead of the label; then the lines.
pub open spec fn is_usb_job(
    commands: Seq<Seq<u8>>,
    lines: Seq<Seq<u8>>,
    flags: DeviceFlags,
    opts: JobOptions,
) -> bool {
    let info = flagged(flags, DeviceFlags::USE_INFO_CMD);
    let fine = flagged(flags, DeviceFlags::LEGACY_HIRES) && opts.quality
        == PrintQuality::HighResolution;
    let precut = flagged(flags, DeviceFlags::HAS_PRECUT) && opts.precut;
    &&& prints_lines(commands, lines, opts.chain_print)
    &&& setup_len(commands) == 1 + one_if(info) + one_if(fine) + one_if(precut)
    &&& commands[0] == seq![0x1bu8, 0x69, 0x52, 0x01]
    &&& info ==> announces(commands[1], opts.media_width, lines.len())
    &&& fine ==> commands[1 + one_if(info)] == seq![0x1bu8, 0x69, 0x4b, 0x40]
    &&& precut ==> commands[1 + one_if(info) + one_if(fine)] == seq![0x1bu8, 0x69, 0x4d, 0x40]
}

/// A job on the USB bus reads back as what was asked for, whatever the flags and
/// options: as many commands as lines print them in the order given, each its
/// line, and the set-up and the end are those that the flags and options call
/// for.
pub proof fn law_usb_job_reads_back(lines: Seq<Seq<u8>>, flags: DeviceFlags, opts: JobOptions)
    ensures
        is_usb_job(protocol::job(lines, flags, opts), lines, flags, opts),
{
    let commands = protocol::job(lines, flags, opts);
    let setup = protocol::preamble(lines.len(), flags, opts);
    let info = flagged(flags, DeviceFlags::USE_INFO_CMD);
    let fine = flagged(flags, DeviceFlags::LEGACY_HIRES) && opts.quality
        == PrintQuality::HighResolution;
    let precut = flagged(flags, DeviceFlags::HAS_PRECUT) && opts.precut;
    assert(setup.len() == 1 + one_if(info) + one_if(fine) + one_if(precut));
    assert(setup[0] == protocol::raster_start());
    assert(info ==> setup[1] == protocol::info_command(opts.media_width, lines.len()));
    assert(fine ==> setup[1 + one_if(info)] == protocol::high_resolution_command());
    assert(precut ==> setup[1 + one_if(info) + one_if(fine)] == protocol::precut_command());
    assert forall|i: int| 0 <= i < setup.len() implies printed(#[trigger] setup[i]) is None
        && !cuts(setup[i]) && !continues(setup[i]) by {
        assert(setup[i][0] == 0x1b);
        assert(setup[i].len() > 1);
    }
    lemma_prints_lines(commands, setup, lines, opts.chain_print);
    assert forall|i: int| 0 <= i < setup.len() implies #[trigger] commands[i] == setup[i] by {}
    assert(commands[0] =~= seq![0x1bu8, 0x69, 0x52, 0x01]);
    if info {
        let c = commands[1];
        lemma_little_endian(lines.len());
        let b = protocol::le32(lines.len());
        assert(c.take(3) =~= seq![0x1bu8, 0x69, 0x7a]);
        assert(c[7] == b[0] && c[8] == b[1] && c[9] == b[2] && c[10] == b[3]);
    }
    if fine {
        assert(commands[1 + one_if(info)] =~= seq![0x1bu8, 0x69, 0x4b, 0x40]);
    }
    if precut {
        assert(commands[1 + one_if(info) + one_if(fine)] =~= seq![0x1bu8, 0x69, 0x4d, 0x40]);
    }
}

// ---------------------------------------------------------------------
// Jobs of a PT-P300BT
// ---------------------------------------------------------------------

/// Whether a command clears the command buffer with so many zeros, and then
/// says `tail`.
pub open spec fn zeros_and(command: Seq<u8>, zeros: int, tail: Seq<u8>) -> bool {
    &&& command.len() == zeros + tail.len()
    &&& forall|k: int| 0 <= k < zeros ==> command[k] == 0
    &&& command.skip(zeros) == tail
}

/// Whether commands are the job of the lines on a PT-P300BT with the given
/// report: reset and raster mode, the announcement of the loaded media and of
/// the number of lines, the cut, no margin, no compression, then the lines.
pub open spec fn is_p300bt_job(
    commands: Seq<Seq<u8>>,
    lines: Seq<Seq<u8>>,
    status: PrinterStatus,
    chained: bool,
) -> bool {
    let info = commands[1];
    &&& prints_lines(commands, lines, chained)
    &&& setup_len(commands) == 6
    &&& zeros_and(commands[0], 64, seq![0x1bu8, 0x40, 0x1b, 0x69, 0x61, 0x01])
    &&& info.len() == 13
    &&& info.take(4) == seq![0x1bu8, 0x69, 0x7a, 0xc4]
    &&& info[4] == status.media_type && info[5] == status.media_width && info[6]
        == status.media_length
    &&& little_endian(info, 7) == lines.len()
    &&& info[11] == 0 && info[12] == 0
    &&& commands[2] == seq![0x1bu8, 0x69, 0x4b, if chained {
        0u8
    } else {
        8u8
    }]
    &&& commands[3] == seq![0x1bu8, 0x69, 0x4d, 0x00]
    &&& commands[4] == seq![0x1bu8, 0x69, 0x64, 0x00, 0x00]
    &&& commands[5] == seq![0x4du8, 0x00]
}

/// An accepted job of a PT-P300BT reads back as what was asked for. In particular
/// it announces as many lines as it prints, however many.
pub proof fn law_p300bt_job_reads_back(
    lines: Seq<Seq<u8>>,
    status: PrinterStatus,
    chained: bool,
)
    requires
        p300bt::planned(lines, status, chained) is Ok,
    ensures
        is_p300bt_job(p300bt::planned(lines, status, chained)->Ok_0, lines, status, chained),
{
    let commands = p300bt::planned(lines, status, chained)->Ok_0;
    let setup = p300bt::preamble(status, lines.len(), chained);
    assert(setup.len() == 6);
    assert forall|i: int| 0 <= i < setup.len() implies printed(#[trigger] setup[i]) is None
        && !cuts(setup[i]) && !continues(setup[i]) by {
        assert(setup[i].len() > 1);
        assert(setup[i][0] == 0x1b || setup[i][0] == 0x4d || setup[i][0] == 0);
    }
    lemma_prints_lines(commands, setup, lines, chained);
    assert forall|i: int| 0 <= i < 6 implies #[trigger] commands[i] == setup[i] by {}
    lemma_little_endian(lines.len());
    let b = protocol::le32(lines.len());
    let info = commands[1];
    assert(info.take(4) =~= seq![0x1bu8, 0x69, 0x7a, 0xc4]);
    assert(info[7] == b[0] && info[8] == b[1] && info[9] == b[2] && info[10] == b[3]);
    assert(commands[0].skip(64) =~= seq![0x1bu8, 0x40, 0x1b, 0x69, 0x61, 0x01]);
    assert(commands[4] =~= seq![0x1bu8, 0x69, 0x64, 0x00, 0x00]);
}

// ---------------------------------------------------------------------
// What goes over the wire in whole operations
// ---------------------------------------------------------------------

/// The tape width that the last report names, or zero without a report.
pub open spec fn loaded_width(s: SessionModel) -> u8 {
    match s.status {
        Some(status) => status.media_width,
        None => 0,
    }
}

/// Whether a session with a USB printer takes a label of the given quality.
pub open spec fn takes_quality(s: SessionModel, quality: PrintQuality) -> bool {
    quality == PrintQuality::Standard || flagged(s.profile.flags, DeviceFlags::LEGACY_HIRES)
}

/// A label on the USB bus is refused exactly if the printer is not initialized
/// or lacks the quality, whatever the lines. Otherwise what the printer receives
/// is a part of a job that reads back as the lines in order with the options
/// asked for and the loaded tape, and the whole of it if the label succeeds.
pub proof fn law_usb_label_arrives(
    s: SessionModel,
    lines: Seq<Seq<u8>>,
    chain_print: bool,
    precut: bool,
    quality: PrintQuality,
    now: u64,
    replies: Seq<(ReplyModel, u64)>,
)
    requires
        s.profile.dialect == Dialect::Usb,
    ensures
        ({
            let (s1, step) = s.printing(lines, chain_print, precut, quality, now);
            let last = run(s1, step, replies).1;
            let arrived = sent(s1, step, replies);
            let opts = JobOptions { media_width: loaded_width(s), chain_print, precut, quality };
            if !s.initialized {
                s1 == s && step == failed(ErrorModel::NotInitialized)
            } else if !takes_quality(s, quality) {
                s1 == s && step == failed(ErrorModel::UnsupportedQuality(s.profile.name@))
            } else {
                &&& step is Do
                &&& arrived.len() > 0
                &&& exists|job: Seq<Seq<u8>>|
                    #[trigger] arrived.is_prefix_of(job) && is_usb_job(
                        job,
                        lines,
                        s.profile.flags,
                        opts,
                    )
                &&& last.is_success() ==> is_usb_job(arrived, lines, s.profile.flags, opts)
            }
        }),
{
    let opts = JobOptions { media_width: loaded_width(s), chain_print, precut, quality };
    let job = protocol::job(lines, s.profile.flags, opts);
    law_label(s, lines, chain_print, precut, quality, now, replies);
    law_usb_job_reads_back(lines, s.profile.flags, opts);
    let (s1, step) = s.printing(lines, chain_print, precut, quality, now);
    if s.initialized && takes_quality(s, quality) {
        assert(s.label(lines, chain_print, precut, quality) == Ok::<Seq<Seq<u8>>, ErrorModel>(job));
        assert(step is Do);
        assert(sent(s1, step, replies).is_prefix_of(job));
    }
}

/// Whether a PT-P300BT with the given report takes the lines: no error, idle,
/// the right model, 12 mm tape, and at least one line of sixteen bytes each with
/// marks in the eight bytes in the middle only.
pub open spec fn takes_lines(lines: Seq<Seq<u8>>, status: PrinterStatus) -> bool {
    &&& status.error_info_1 == 0 && status.error_info_2 == 0
    &&& status.status_type == 0 && status.phase_type == 0 && status.phase_number_hi == 0
        && status.phase_number_lo == 0
    &&& status.model_code == 0x72
    &&& status.media_width == 12
    &&& 0 < lines.len() <= 0xffff_ffff
    &&& forall|i: int| 0 <= i < lines.len() ==> (#[trigger] lines[i]).len() == 16
    &&& forall|i: int, k: int|
        0 <= i < lines.len() && (0 <= k < 4 || 12 <= k < 16) ==> #[trigger] lines[i][k] == 0
}

/// A job for a PT-P300BT is accepted exactly if the printer takes the lines. If
/// not, the first thing that is wrong is named: the error it reports, that it is
/// busy or off, another model, the width of the tape, the shape of the lines, or
/// a mark outside the printable area.
pub proof fn law_p300bt_refusals(lines: Seq<Seq<u8>>, status: PrinterStatus, chained: bool)
    ensures
        p300bt::planned(lines, status, chained) is Ok == takes_lines(lines, status),
        ({
            let quiet = status.error_info_1 == 0 && status.error_info_2 == 0 && status.status_type
                != 2 && status.status_type != 4;
            let ready = quiet && status.status_type == 0 && status.phase_type == 0
                && status.phase_number_hi == 0 && status.phase_number_lo == 0;
            let shaped = lines.len() > 0 && forall|i: int|
                0 <= i < lines.len() ==> (#[trigger] lines[i]).len() == 16;
            let kept = forall|i: int, k: int|
                0 <= i < lines.len() && (0 <= k < 4 || 12 <= k < 16) ==> #[trigger] lines[i][k]
                    == 0;
            p300bt::planned(lines, status, chained) matches Err(e) ==> e == if !quiet {
                ErrorModel::StatusError(status.description())
            } else if !ready {
                ErrorModel::StatusError("PT-P300BT is not idle"@)
            } else if status.model_code != 0x72 {
                ErrorModel::StatusError("Expected PT-P300BT status"@)
            } else if status.media_width != 12 {
                ErrorModel::UnknownTapeWidth(status.media_width)
            } else if !shaped {
                ErrorModel::SendFailed(
                    "PT-P300BT requires nonempty raster data with 16 bytes per line"@,
                )
            } else if !kept {
                ErrorModel::UnsupportedRaster(
                    "PT-P300BT requires white padding outside the middle 64 dots"@,
                )
            } else {
                ErrorModel::SendFailed("Too many raster lines"@)
            }
        }),
{
    assert forall|i: int| 0 <= i < lines.len() implies p300bt::within_margins(#[trigger] lines[i])
        == (forall|k: int| 0 <= k < 4 || 12 <= k < 16 ==> #[trigger] lines[i][k] == 0) by {}
}

/// A label on a PT-P300BT is refused exactly if the printer is not initialized,
/// lacks the quality, or does not take the lines. Otherwise what the printer
/// receives is a part of a job that reads back as the lines in order, and the
/// whole of it if the label succeeds.
pub proof fn law_p300bt_label_arrives(
    s: SessionModel,
    lines: Seq<Seq<u8>>,
    chain_print: bool,
    precut: bool,
    quality: PrintQuality,
    now: u64,
    replies: Seq<(ReplyModel, u64)>,
)
    requires
        s.profile.dialect == Dialect::P300Bt,
    ensures
        ({
            let (s1, step) = s.printing(lines, chain_print, precut, quality, now);
            let last = run(s1, step, replies).1;
            let arrived = sent(s1, step, replies);
            if !s.initialized || (s.status is None && takes_quality(s, quality)) {
                s1 == s && step == failed(ErrorModel::NotInitialized)
            } else if !takes_quality(s, quality) {
                s1 == s && step == failed(ErrorModel::UnsupportedQuality(s.profile.name@))
            } else if !takes_lines(lines, s.status->Some_0) {
                s1 == s && step.is_failure()
            } else {
                &&& step is Do
                &&& arrived.len() > 0
                &&& exists|job: Seq<Seq<u8>>|
                    #[trigger] arrived.is_prefix_of(job) && is_p300bt_job(
                        job,
                        lines,
                        s.status->Some_0,
                        chain_print,
                    )
                &&& last.is_success() ==> is_p300bt_job(
                    arrived,
                    lines,
                    s.status->Some_0,
                    chain_print,
                )
            }
        }),
{
    law_label(s, lines, chain_print, precut, quality, now, replies);
    let (s1, step) = s.printing(lines, chain_print, precut, quality, now);
    if s.status is Some {
        let status = s.status->Some_0;
        law_p300bt_refusals(lines, status, chain_print);
        if s.initialized && takes_quality(s, quality) && takes_lines(lines, status) {
            law_p300bt_job_reads_back(lines, status, chain_print);
            let job = p300bt::planned(lines, status, chain_print)->Ok_0;
            assert(job.len() > 0);
            assert(s.label(lines, chain_print, precut, quality) == Ok::<
                Seq<Seq<u8>>,
                ErrorModel,
            >(job));
            assert(sent(s1, step, replies).is_prefix_of(job));
        }
    }
}

/// A strip of blank raster lines as wide as the print head.
pub open spec fn blank_strip(s: SessionModel, count: nat) -> Seq<Seq<u8>> {
    Seq::new(
        count,
        |i: int| Seq::new(((s.profile.raster_width_px + 7) / 8) as nat, |k: int| 0u8),
    )
}

/// A feed on the USB bus is refused exactly if the printer is not initialized.
/// Otherwise what the printer receives is a part of a job that reads back as
/// three blank lines behind which the tape is cut, and the whole of it if the feed
/// succeeds.
pub proof fn law_usb_feed_arrives(s: SessionModel, now: u64, replies: Seq<(ReplyModel, u64)>)
    requires
        s.profile.dialect == Dialect::Usb,
    ensures
        ({
            let (s1, step) = s.feeding(now);
            let last = run(s1, step, replies).1;
            let arrived = sent(s1, step, replies);
            let opts = JobOptions {
                media_width: loaded_width(s),
                chain_print: false,
                precut: false,
                quality: PrintQuality::Standard,
            };
            if !s.initialized {
                s1 == s && step == failed(ErrorModel::NotInitialized)
            } else {
                &&& step is Do
                &&& arrived.len() > 0
                &&& exists|job: Seq<Seq<u8>>|
                    #[trigger] arrived.is_prefix_of(job) && is_usb_job(
                        job,
                        blank_strip(s, 3),
                        s.profile.flags,
                        opts,
                    ) && (last.is_success() ==> arrived == job)
            }
        }),
{
    law_feed(s, now, replies);
    let (s1, step) = s.feeding(now);
    let opts = JobOptions {
        media_width: loaded_width(s),
        chain_print: false,
        precut: false,
        quality: PrintQuality::Standard,
    };
    if s.initialized {
        let count = s.feed_strip().len();
        assert forall|i: int| 0 <= i < count implies #[trigger] s.feed_strip()[i] == blank_strip(
            s,
            count,
        )[i] by {
            assert(s.feed_strip()[i] =~= blank_strip(s, count)[i]);
        }
        assert(s.feed_strip() =~= blank_strip(s, count));
        law_usb_job_reads_back(s.feed_strip(), s.profile.flags, opts);
        assert(s.feed_job() == protocol::job(s.feed_strip(), s.profile.flags, opts));
        assert(sent(s1, step, replies).is_prefix_of(s.feed_job()));
    }
}

/// Whether commands are those of an initialization: the reset of the dialect, the
/// status request `1B 69 53`, and `1B 69 21 00` exactly where the printer has
/// automatic reports.
pub open spec fn is_initialization(commands: Seq<Seq<u8>>, profile: ModelProfile) -> bool {
    let notifies = flagged(profile.flags, DeviceFlags::AUTO_STATUS_NOTIFICATION);
    &&& commands.len() == 2 + one_if(notifies)
    &&& match profile.dialect {
        Dialect::Usb => zeros_and(commands[0], 100, seq![0x1bu8, 0x40]),
        Dialect::P300Bt => zeros_and(commands[0], 64, seq![0x1bu8, 0x40, 0x1b, 0x69, 0x61, 0x01]),
    }
    &&& commands[1] == seq![0x1bu8, 0x69, 0x53]
    &&& notifies ==> commands[2] == seq![0x1bu8, 0x69, 0x21, 0x00]
}

/// An initialization that succeeds has sent the commands of one, and one that has
/// not has sent the first of them. A query has sent the request when it ends, and
/// nothing else.
pub proof fn law_exchanges_arrive(s: SessionModel, now: u64, replies: Seq<(ReplyModel, u64)>)
    ensures
        ({
            let step = init_step(s, now);
            let arrived = sent(s, step, replies);
            &&& run(s, step, replies).1.is_success() ==> is_initialization(arrived, s.profile)
            &&& exists|all: Seq<Seq<u8>>|
                #[trigger] arrived.is_prefix_of(all) && is_initialization(all, s.profile)
        }),
        ({
            let step = query_step(s, now);
            let arrived = sent(s, step, replies);
            &&& run(s, step, replies).1 is Done ==> arrived == seq![seq![0x1bu8, 0x69, 0x53]]
            &&& arrived.is_prefix_of(seq![seq![0x1bu8, 0x69, 0x53]])
        }),
        ({
            let step = requesting(Goal::Report);
            sent(s, step, replies) == seq![seq![0x1bu8, 0x69, 0x53]]
        }),
{
    law_initialization(s, now, replies);
    law_query(s, now, replies);
    let all = init_commands(s);
    assert(protocol::status_request() =~= seq![0x1bu8, 0x69, 0x53]);
    assert(query_commands() =~= seq![seq![0x1bu8, 0x69, 0x53]]);
    assert(protocol::init_command().skip(100) =~= seq![0x1bu8, 0x40]);
    assert(p300bt::init_command().skip(64) =~= seq![0x1bu8, 0x40, 0x1b, 0x69, 0x61, 0x01]);
    assert(protocol::auto_status_command(true) =~= seq![0x1bu8, 0x69, 0x21, 0x00]);
    assert(is_initialization(all, s.profile));
    let bare = sent(s, requesting(Goal::Report), replies);
    assert(bare.len() > 0);
    assert(bare =~= seq![seq![0x1bu8, 0x69, 0x53]]);
}

/// The commands one by one, byte by byte.
pub proof fn law_commands_byte_by_byte(enabled: bool, flags: u16, width: u8, count: nat)
    ensures
        protocol::auto_status_command(enabled) == seq![0x1bu8, 0x69, 0x21, if enabled {
            0u8
        } else {
            1u8
        }],
        ({
            let page = protocol::page_flags_command(flags);
            &&& page.len() == 5
            &&& page.take(3) == seq![0x1bu8, 0x69, 0x64]
            &&& page[3] + 256 * page[4] == flags
        }),
        announces(protocol::info_command(width, count), width, count),
        protocol::status_request() == seq![0x1bu8, 0x69, 0x53],
        protocol::raster_start() == seq![0x1bu8, 0x69, 0x52, 0x01],
        zeros_and(protocol::init_command(), 100, seq![0x1bu8, 0x40]),
        zeros_and(p300bt::init_command(), 64, seq![0x1bu8, 0x40, 0x1b, 0x69, 0x61, 0x01]),
        cuts(protocol::finalize_command(false)),
        continues(protocol::finalize_command(true)),
        printed(protocol::line_feed()) == Some(Printed::Blank),
{
    assert(protocol::auto_status_command(enabled) =~= seq![0x1bu8, 0x69, 0x21, if enabled {
        0u8
    } else {
        1u8
    }]);
    let page = protocol::page_flags_command(flags);
    assert(page.take(3) =~= seq![0x1bu8, 0x69, 0x64]);
    lemma_little_endian(count);
    let info = protocol::info_command(width, count);
    let b = protocol::le32(count);
    assert(info.take(3) =~= seq![0x1bu8, 0x69, 0x7a]);
    assert(info[7] == b[0] && info[8] == b[1] && info[9] == b[2] && info[10] == b[3]);
    assert(protocol::init_command().skip(100) =~= seq![0x1bu8, 0x40]);
    assert(p300bt::init_command().skip(64) =~= seq![0x1bu8, 0x40, 0x1b, 0x69, 0x61, 0x01]);
    assert(protocol::status_request() =~= seq![0x1bu8, 0x69, 0x53]);
    assert(protocol::raster_start() =~= seq![0x1bu8, 0x69, 0x52, 0x01]);
}

/// A line is sent with its dots if it has any, and without a mark as a blank one.
/// A head of so many dots has lines of as many bytes as hold them, the last one
/// perhaps not full.
pub proof fn law_lines_on_the_wire(line: Seq<u8>, width_px: u16)
    ensures
        printed(protocol::line_command(line)) matches Some(print) && depicts(print, line),
        printed(protocol::send_raster(line)) == Some(Printed::Dots(line)),
        width_px <= 8 * protocol::line_bytes(width_px) < width_px + 8,
        forall|k: int|
            0 <= k < protocol::line_bytes(width_px) ==> protocol::zeros(
                protocol::line_bytes(width_px),
            )[k] == 0u8,
        protocol::zeros(protocol::line_bytes(width_px)).len() == protocol::line_bytes(width_px),
{
    lemma_line_command_prints(line);
    lemma_raster_command_prints(line);
}

// ---------------------------------------------------------------------
// Labels on a PT-P300BT behind a query
// ---------------------------------------------------------------------

/// The commands that a label on a PT-P300BT hands over, in order.
pub open spec fn label_sent(
    s: SessionModel,
    step: LabelStepModel,
    replies: Seq<(ReplyModel, u64)>,
) -> Seq<Seq<u8>>
    decreases replies.len(),
{
    match step {
        LabelStepModel::Done(r) => Seq::empty(),
        LabelStepModel::Do { label, action } => {
            let here = match action {
                ActionModel::Send { bytes, timeout } => seq![bytes],
                _ => Seq::empty(),
            };
            if replies.len() == 0 {
                here
            } else {
                let (s1, step1) = label_resumed(s, label, replies[0].0, replies[0].1);
                here + label_sent(s1, step1, replies.drop_first())
            }
        },
    }
}

proof fn lemma_job_part(s: SessionModel, step: StepModel, replies: Seq<(ReplyModel, u64)>)
    ensures
        ({
            let (s1, label) = of_job((s, step));
            &&& label_run(s1, label, replies) == of_job(run(s, step, replies))
            &&& label_sent(s1, label, replies) == sent(s, step, replies)
        }),
    decreases replies.len(),
{
    if let StepModel::Do { phase, action } = step {
        if replies.len() > 0 {
            let (s1, step1) = s.resumed(phase, replies[0].0, replies[0].1);
            lemma_job_part(s1, step1, replies.drop_first());
        }
    }
}

/// Whether a label that has gone so far consists of a query of which `n` replies
/// were for, and of a label printed with what the query has found.
pub open spec fn consists_of(
    s: SessionModel,
    query: StepModel,
    lines: Seq<Seq<u8>>,
    now: u64,
    replies: Seq<(ReplyModel, u64)>,
    n: int,
    commands: Seq<Seq<u8>>,
    end: (SessionModel, LabelStepModel),
) -> bool {
    let first = replies.take(n);
    let (found, queried) = run(s, query, first);
    let at = if n == 0 {
        now
    } else {
        replies[n - 1].1
    };
    let (s1, step) = found.printing(lines, false, false, PrintQuality::Standard, at);
    let (after, last) = run(s1, step, replies.skip(n));
    &&& 0 <= n <= replies.len()
    &&& queried.is_success()
    &&& commands == sent(s, query, first) + sent(s1, step, replies.skip(n))
    &&& end.0 == after
    &&& match last {
        StepModel::Done(r) => end.1 == LabelStepModel::Done(r),
        StepModel::Do { phase, action } => end.1 is Do && end.1->action == action,
    }
}

/// Whether a label has not come beyond its query.
pub open spec fn still_queries(
    s: SessionModel,
    query: StepModel,
    replies: Seq<(ReplyModel, u64)>,
    commands: Seq<Seq<u8>>,
    end: (SessionModel, LabelStepModel),
) -> bool {
    let (after, last) = run(s, query, replies);
    &&& !last.is_success()
    &&& commands == sent(s, query, replies)
    &&& end.0 == after
    &&& match last {
        StepModel::Done(r) => end.1 == LabelStepModel::Done(r),
        StepModel::Do { phase, action } => end.1 is Do && end.1->action == action,
    }
}

/// A query that has succeeded is followed by the label.
proof fn lemma_label_follows(
    s: SessionModel,
    lines: Seq<Seq<u8>>,
    now: u64,
    replies: Seq<(ReplyModel, u64)>,
    query: StepModel,
)
    requires
        query.is_success(),
    ensures
        ({
            let (s1, label) = of_query((s, query), lines, now);
            let end = label_run(s1, label, replies);
            let commands = label_sent(s1, label, replies);
            consists_of(s, query, lines, now, replies, 0, commands, end)
        }),
{
    let (s1, label) = of_query((s, query), lines, now);
    let (s2, step) = s.printing(lines, false, false, PrintQuality::Standard, now);
    lemma_job_part(s2, step, replies);
    assert(replies.skip(0) =~= replies);
    assert(sent(s, query, replies.take(0)) + sent(s2, step, replies) =~= label_sent(
        s1,
        label,
        replies,
    ));
}

/// One more reply ahead of a run.
proof fn lemma_run_ahead(
    s: SessionModel,
    phase: PhaseModel,
    action: ActionModel,
    replies: Seq<(ReplyModel, u64)>,
    n: int,
)
    requires
        0 <= n < replies.len(),
    ensures
        ({
            let step = StepModel::Do { phase, action };
            let (s1, step1) = s.resumed(phase, replies[0].0, replies[0].1);
            let rest = replies.drop_first();
            &&& run(s, step, replies.take(n + 1)) == run(s1, step1, rest.take(n))
            &&& sent(s, step, replies.take(n + 1)) == handed_over(step) + sent(
                s1,
                step1,
                rest.take(n),
            )
            &&& run(s, step, replies) == run(s1, step1, rest)
            &&& sent(s, step, replies) == handed_over(step) + sent(s1, step1, rest)
            &&& replies.skip(n + 1) == rest.skip(n)
            &&& n > 0 ==> rest[n - 1] == replies[n]
        }),
{
    let rest = replies.drop_first();
    assert(replies.take(n + 1).drop_first() =~= rest.take(n));
    assert(replies.take(n + 1)[0] == replies[0]);
    assert(replies.skip(n + 1) =~= rest.skip(n));
}

proof fn lemma_label_ahead(
    s: SessionModel,
    phase: PhaseModel,
    action: ActionModel,
    lines: Seq<Seq<u8>>,
    now: u64,
    replies: Seq<(ReplyModel, u64)>,
)
    requires
        replies.len() > 0,
    ensures
        ({
            let step = StepModel::Do { phase, action };
            let (s0, label0) = of_query((s, step), lines, now);
            let turn = s.resumed(phase, replies[0].0, replies[0].1);
            let (s1, label1) = of_query(turn, lines, replies[0].1);
            let rest = replies.drop_first();
            &&& label_run(s0, label0, replies) == label_run(s1, label1, rest)
            &&& label_sent(s0, label0, replies) == handed_over(step) + label_sent(s1, label1, rest)
        }),
{
}

proof fn lemma_label_parts(
    s: SessionModel,
    query: StepModel,
    lines: Seq<Seq<u8>>,
    now: u64,
    replies: Seq<(ReplyModel, u64)>,
) -> (n: int)
    ensures
        ({
            let (s1, label) = of_query((s, query), lines, now);
            let end = label_run(s1, label, replies);
            let commands = label_sent(s1, label, replies);
            still_queries(s, query, replies, commands, end) || consists_of(
                s,
                query,
                lines,
                now,
                replies,
                n,
                commands,
                end,
            )
        }),
    decreases replies.len(),
{
    match query {
        StepModel::Done(r) => {
            if r is Ok {
                lemma_label_follows(s, lines, now, replies, query);
            }
            0
        },
        StepModel::Do { phase, action } => {
            if replies.len() == 0 {
                0
            } else {
                let (s2, query2) = s.resumed(phase, replies[0].0, replies[0].1);
                let rest = replies.drop_first();
                let n = lemma_label_parts(s2, query2, lines, replies[0].1, rest);
                lemma_label_ahead(s, phase, action, lines, now, replies);
                let (s3, label) = of_query((s2, query2), lines, replies[0].1);
                let end = label_run(s3, label, rest);
                let later = label_sent(s3, label, rest);
                lemma_parts_ahead(s, phase, action, lines, now, replies, n, later, end);
                n + 1
            }
        },
    }
}

proof fn lemma_parts_ahead(
    s: SessionModel,
    phase: PhaseModel,
    action: ActionModel,
    lines: Seq<Seq<u8>>,
    now: u64,
    replies: Seq<(ReplyModel, u64)>,
    n: int,
    later: Seq<Seq<u8>>,
    end: (SessionModel, LabelStepModel),
)
    requires
        replies.len() > 0,
    ensures
        ({
            let query = StepModel::Do { phase, action };
            let (s2, query2) = s.resumed(phase, replies[0].0, replies[0].1);
            let rest = replies.drop_first();
            let commands = handed_over(query) + later;
            &&& still_queries(s2, query2, rest, later, end) ==> still_queries(
                s,
                query,
                replies,
                commands,
                end,
            )
            &&& consists_of(s2, query2, lines, replies[0].1, rest, n, later, end) ==> consists_of(
                s,
                query,
                lines,
                now,
                replies,
                n + 1,
                commands,
                end,
            )
        }),
{
    let query = StepModel::Do { phase, action };
    let (s2, query2) = s.resumed(phase, replies[0].0, replies[0].1);
    let rest = replies.drop_first();
    if consists_of(s2, query2, lines, replies[0].1, rest, n, later, end) {
        lemma_run_ahead(s, phase, action, replies, n);
        let found = run(s2, query2, rest.take(n)).0;
        let at = replies[n].1;
        let (s4, step) = found.printing(lines, false, false, PrintQuality::Standard, at);
        assert(handed_over(query) + later =~= sent(s, query, replies.take(n + 1)) + sent(
            s4,
            step,
            replies.skip(n + 1),
        ));
    } else {
        lemma_run_ahead(s, phase, action, replies, 0);
    }
}

/// A label on a PT-P300BT is refused at once if the printer is not initialized.
/// Otherwise it is a query followed, if that succeeds, by the unchained label of
/// standard quality that the answer to the query allows. A label that succeeds
/// has sent the status request, and then a job that reads back as the lines in
/// order for the media that the query has found.
pub proof fn law_bluetooth_label_arrives(
    s: SessionModel,
    lines: Seq<Seq<u8>>,
    now: u64,
    replies: Seq<(ReplyModel, u64)>,
)
    requires
        s.profile.dialect == Dialect::P300Bt,
    ensures
        ({
            let (s1, label) = labelling(s, lines, now);
            let end = label_run(s1, label, replies);
            let commands = label_sent(s1, label, replies);
            if !s.initialized {
                s1 == s && label == LabelStepModel::Done(Err(ErrorModel::NotInitialized))
            } else {
                &&& still_queries(s, query_step(s, now), replies, commands, end) || exists|n: int|
                    #[trigger] consists_of(
                        s,
                        query_step(s, now),
                        lines,
                        now,
                        replies,
                        n,
                        commands,
                        end,
                    )
                &&& (end.1 matches LabelStepModel::Done(r) && r is Ok) ==> {
                    &&& commands.len() > 0
                    &&& commands[0] == seq![0x1bu8, 0x69, 0x53]
                    &&& exists|status: PrinterStatus|
                        #[trigger] is_p300bt_job(commands.drop_first(), lines, status, false)
                            && takes_lines(lines, status)
                }
            }
        }),
{
    if s.initialized {
        let (s1, label) = labelling(s, lines, now);
        let query = query_step(s, now);
        let end = label_run(s1, label, replies);
        let commands = label_sent(s1, label, replies);
        let n = lemma_label_parts(s, query, lines, now, replies);
        if end.1 matches LabelStepModel::Done(r) && r is Ok {
            assert(!still_queries(s, query, replies, commands, end));
            assert(consists_of(s, query, lines, now, replies, n, commands, end));
            let first = replies.take(n);
            let at = if n == 0 {
                now
            } else {
                replies[n - 1].1
            };
            law_exchanges_arrive(s, now, first);
            law_query(s, now, first);
            let found = run(s, query, first).0;
            let quality = PrintQuality::Standard;
            law_p300bt_label_arrives(found, lines, false, false, quality, at, replies.skip(n));
            let (s2, step) = found.printing(lines, false, false, quality, at);
            let job = sent(s2, step, replies.skip(n));
            assert(commands.drop_first() =~= job);
            assert(run(s2, step, replies.skip(n)).1.is_success());
            let status = found.status->Some_0;
            assert(is_p300bt_job(commands.drop_first(), lines, status, false));
        }
    }
}

} // verus!
