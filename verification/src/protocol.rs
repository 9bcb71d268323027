//! The raster command language.

use vstd::prelude::*;

use crate::device::DeviceFlags;
use crate::wire::{is_usb_job, law_usb_job_reads_back};

verus! {

/// The byte strings held by a list of buffers.
pub open spec fn contents(chunks: Seq<Vec<u8>>) -> Seq<Seq<u8>> {
    Seq::new(chunks.len(), |i: int| chunks[i]@)
}

/// The low four bytes of a number, lowest first.
pub open spec fn le32(n: nat) -> Seq<u8> {
    seq![
        (n % 256) as u8,
        (n / 0x100 % 256) as u8,
        (n / 0x10000 % 256) as u8,
        (n / 0x1000000 % 256) as u8,
    ]
}

/// `n` zero bytes.
pub open spec fn zeros(n: nat) -> Seq<u8> {
    Seq::new(n, |i: int| 0u8)
}

/// Print quality of a job.
#[derive(Debug, Clone, Copy, PartialEq, Eq, Structural)]
pub enum PrintQuality {
    Standard,
    HighResolution,
}

/// How a job is to be printed.
#[derive(Debug, Clone, Copy, PartialEq, Eq, Structural)]
pub struct JobOptions {
    pub media_width: u8,
    pub chain_print: bool,
    pub precut: bool,
    pub quality: PrintQuality,
}

impl Default for JobOptions {
    fn default() -> (r: Self)
        ensures
            r == (JobOptions {
                media_width: 0,
                chain_print: false,
                precut: false,
                quality: PrintQuality::Standard,
            }),
    {
        JobOptions {
            media_width: 0,
            chain_print: false,
            precut: false,
            quality: PrintQuality::Standard,
        }
    }
}

// ---------------------------------------------------------------------
// Commands
// ---------------------------------------------------------------------

/// Clear the command buffer with a hundred zeros, then reset.
pub open spec fn init_command() -> Seq<u8> {
    zeros(100) + seq![0x1b, 0x40]
}

/// Ask for a status report.
pub open spec fn status_request() -> Seq<u8> {
    seq![0x1b, 0x69, 0x53]
}

/// Turn automatic status reports on or off.
pub open spec fn auto_status_command(enabled: bool) -> Seq<u8> {
    seq![0x1b, 0x69, 0x21, if enabled {
        0u8
    } else {
        1u8
    }]
}

/// Switch to raster data.
pub open spec fn raster_start() -> Seq<u8> {
    seq![0x1b, 0x69, 0x52, 0x01]
}

/// Announce the tape width and the number of raster lines.
pub open spec fn info_command(media_width: u8, count: nat) -> Seq<u8> {
    seq![0x1b, 0x69, 0x7a, 0, 0, media_width, 0] + le32(count) + seq![0, 0]
}

/// Print at the higher resolution.
pub open spec fn high_resolution_command() -> Seq<u8> {
    seq![0x1b, 0x69, 0x4b, 0x40]
}

/// Cut the tape ahead of the label.
pub open spec fn precut_command() -> Seq<u8> {
    seq![0x1b, 0x69, 0x4d, 0x40]
}

/// Set the flags of the page, lower byte first.
pub open spec fn page_flags_command(flags: u16) -> Seq<u8> {
    seq![0x1b, 0x69, 0x64, (flags as nat % 256) as u8, (flags as nat / 256) as u8]
}

/// Advance by one blank line.
pub open spec fn line_feed() -> Seq<u8> {
    seq![0x5a]
}

/// A raster line behind its sixteen-bit length.
pub open spec fn send_raster(line: Seq<u8>) -> Seq<u8> {
    seq![0x47, (line.len() % 256) as u8, (line.len() / 256 % 256) as u8] + line
}

/// Print, and cut the tape unless the next label follows at once.
pub open spec fn finalize_command(chain_print: bool) -> Seq<u8> {
    seq![if chain_print {
        0x0cu8
    } else {
        0x1au8
    }]
}

/// Whether a raster line marks no dot.
pub open spec fn blank(line: Seq<u8>) -> bool {
    forall|i: int| 0 <= i < line.len() ==> line[i] == 0
}

/// The command that prints one raster line.
pub open spec fn line_command(line: Seq<u8>) -> Seq<u8> {
    if blank(line) {
        line_feed()
    } else {
        send_raster(line)
    }
}

/// The commands that print the raster lines, one each.
pub open spec fn body(lines: Seq<Seq<u8>>) -> Seq<Seq<u8>> {
    Seq::new(lines.len(), |i: int| line_command(lines[i]))
}

/// The commands that set a job up.
pub open spec fn preamble(count: nat, flags: DeviceFlags, opts: JobOptions) -> Seq<Seq<u8>> {
    seq![raster_start()] + (if flags.has(DeviceFlags::USE_INFO_CMD) {
        seq![info_command(opts.media_width, count)]
    } else {
        Seq::empty()
    }) + (if flags.has(DeviceFlags::LEGACY_HIRES) && opts.quality != PrintQuality::Standard {
        seq![high_resolution_command()]
    } else {
        Seq::empty()
    }) + (if flags.has(DeviceFlags::HAS_PRECUT) && opts.precut {
        seq![precut_command()]
    } else {
        Seq::empty()
    })
}

/// A whole job: the preamble, one command for each line, and the final command.
pub open spec fn job(lines: Seq<Seq<u8>>, flags: DeviceFlags, opts: JobOptions) -> Seq<Seq<u8>> {
    preamble(lines.len(), flags, opts) + body(lines) + seq![finalize_command(opts.chain_print)]
}

/// `n` zero bytes.
pub fn zero_bytes(n: usize) -> (r: Vec<u8>)
    ensures
        r@ == zeros(n as nat),
{
    let mut out: Vec<u8> = Vec::new();
    let mut i: usize = 0;
    while i < n
        invariant
            i <= n,
            out@ == zeros(i as nat),
        decreases n - i,
    {
        out.push(0);
        i = i + 1;
        assert(out@ =~= zeros(i as nat));
    }
    out
}

/// Append the bytes of `tail`.
pub fn push_all(out: &mut Vec<u8>, tail: &[u8])
    ensures
        final(out)@ == old(out)@ + tail@,
{
    out.extend_from_slice(tail);
    assert(out@ =~= old(out)@ + tail@);
}

/// Append the low four bytes of `n`, lowest first.
pub fn push_le32(out: &mut Vec<u8>, n: u64)
    ensures
        final(out)@ == old(out)@ + le32(n as nat),
{
    out.push((n % 256) as u8);
    out.push((n / 0x100 % 256) as u8);
    out.push((n / 0x10000 % 256) as u8);
    out.push((n / 0x1000000 % 256) as u8);
    assert(out@ =~= old(out)@ + le32(n as nat));
}

/// The reset command.
pub fn cmd_init() -> (r: Vec<u8>)
    ensures
        r@ == init_command(),
{
    let mut out: Vec<u8> = zero_bytes(100);
    out.push(0x1b);
    out.push(0x40);
    assert(out@ =~= init_command());
    out
}

/// The command that asks for a status report.
pub fn cmd_status_request() -> (r: Vec<u8>)
    ensures
        r@ == status_request(),
{
    let out: Vec<u8> = vec![0x1b, 0x69, 0x53];
    assert(out@ =~= status_request());
    out
}

/// The command that turns automatic reports on or off.
pub fn cmd_auto_status_notification(enabled: bool) -> (r: Vec<u8>)
    ensures
        r@ == auto_status_command(enabled),
{
    let out: Vec<u8> = vec![0x1b, 0x69, 0x21, if enabled { 0 } else { 1 }];
    assert(out@ =~= auto_status_command(enabled));
    out
}

/// The command that switches to raster data.
pub fn cmd_raster_start() -> (r: Vec<u8>)
    ensures
        r@ == raster_start(),
{
    let out: Vec<u8> = vec![0x1b, 0x69, 0x52, 0x01];
    assert(out@ =~= raster_start());
    out
}

/// `count` is the number of raster lines; only its low 32 bits are sent.
pub fn cmd_info(media_width: u8, count: u64) -> (r: Vec<u8>)
    ensures
        r@ == info_command(media_width, count as nat),
{
    let mut out: Vec<u8> = vec![0x1b, 0x69, 0x7a, 0, 0, media_width, 0];
    push_le32(&mut out, count);
    out.push(0);
    out.push(0);
    assert(out@ =~= info_command(media_width, count as nat));
    out
}

/// The command for the higher resolution.
pub fn cmd_high_resolution() -> (r: Vec<u8>)
    ensures
        r@ == high_resolution_command(),
{
    let out: Vec<u8> = vec![0x1b, 0x69, 0x4b, 0x40];
    assert(out@ =~= high_resolution_command());
    out
}

/// The command that cuts the tape ahead of the label.
pub fn cmd_precut() -> (r: Vec<u8>)
    ensures
        r@ == precut_command(),
{
    let out: Vec<u8> = vec![0x1b, 0x69, 0x4d, 0x40];
    assert(out@ =~= precut_command());
    out
}

/// The command that sets the flags of the page.
pub fn cmd_page_flags(flags: u16) -> (r: Vec<u8>)
    ensures
        r@ == page_flags_command(flags),
{
    let out: Vec<u8> = vec![0x1b, 0x69, 0x64, (flags % 256) as u8, (flags / 256) as u8];
    assert(out@ =~= page_flags_command(flags));
    out
}

/// The command for a blank line.
pub fn cmd_line_feed() -> (r: Vec<u8>)
    ensures
        r@ == line_feed(),
{
    let out: Vec<u8> = vec![0x5a];
    assert(out@ =~= line_feed());
    out
}

/// The command for a raster line.
pub fn cmd_send_raster(line: &[u8]) -> (r: Vec<u8>)
    ensures
        r@ == send_raster(line@),
{
    let n: usize = line.len();
    let mut out: Vec<u8> = vec![0x47, (n % 256) as u8, (n / 256 % 256) as u8];
    push_all(&mut out, line);
    assert(out@ =~= send_raster(line@));
    out
}

/// The command that ends a job.
pub fn cmd_finalize(chain_print: bool) -> (r: Vec<u8>)
    ensures
        r@ == finalize_command(chain_print),
{
    let out: Vec<u8> = vec![if chain_print { 0x0c } else { 0x1a }];
    assert(out@ =~= finalize_command(chain_print));
    out
}

/// Whether a raster line marks no dot.
pub fn rasterline_is_blank(line: &[u8]) -> (r: bool)
    ensures
        r == blank(line@),
{
    let mut i: usize = 0;
    while i < line.len()
        invariant
            i <= line@.len(),
            forall|j: int| 0 <= j < i ==> line@[j] == 0,
        decreases line@.len() - i,
    {
        if line[i] != 0 {
            return false;
        }
        i = i + 1;
    }
    true
}

/// Bytes needed for `width_px` dots.
pub open spec fn line_bytes(width_px: u16) -> nat {
    ((width_px as nat + 7) / 8) as nat
}

/// A raster line of `width_px` unmarked dots.
pub fn rasterline_blank(width_px: u16) -> (r: Vec<u8>)
    ensures
        r@ == zeros(line_bytes(width_px)),
{
    zero_bytes((width_px as usize + 7) / 8)
}

/// Append one command for each raster line.
pub fn push_lines(out: &mut Vec<Vec<u8>>, lines: &[Vec<u8>])
    ensures
        contents(final(out)@) == contents(old(out)@) + body(contents(lines@)),
{
    let mut i: usize = 0;
    assert(contents(out@) =~= contents(old(out)@) + body(contents(lines@.take(0))));
    while i < lines.len()
        invariant
            i <= lines@.len(),
            contents(out@) == contents(old(out)@) + body(contents(lines@.take(i as int))),
        decreases lines@.len() - i,
    {
        let command: Vec<u8> = if rasterline_is_blank(lines[i].as_slice()) {
            cmd_line_feed()
        } else {
            cmd_send_raster(lines[i].as_slice())
        };
        let ghost before = out@;
        out.push(command);
        assert(contents(out@) =~= contents(before).push(command@));
        assert(body(contents(lines@.take(i + 1))) =~= body(contents(lines@.take(i as int))).push(
            line_command(lines@[i as int]@),
        ));
        i = i + 1;
    }
    assert(lines@.take(lines@.len() as int) =~= lines@);
}

/// Build the commands of a job.
pub fn build_print_job(lines: &[Vec<u8>], flags: DeviceFlags, opts: &JobOptions) -> (r: Vec<
    Vec<u8>,
>)
    ensures
        contents(r@) == job(contents(lines@), flags, *opts),
        is_usb_job(contents(r@), contents(lines@), flags, *opts),
{
    proof {
        law_usb_job_reads_back(contents(lines@), flags, *opts);
    }
    let mut out: Vec<Vec<u8>> = Vec::new();
    out.push(cmd_raster_start());
    assert(contents(out@) =~= seq![raster_start()]);
    if flags.contains(DeviceFlags::USE_INFO_CMD) {
        out.push(cmd_info(opts.media_width, lines.len() as u64));
    }
    if flags.contains(DeviceFlags::LEGACY_HIRES) && opts.quality != PrintQuality::Standard {
        out.push(cmd_high_resolution());
    }
    if flags.contains(DeviceFlags::HAS_PRECUT) && opts.precut {
        out.push(cmd_precut());
    }
    assert(contents(out@) =~= preamble(contents(lines@).len(), flags, *opts));
    push_lines(&mut out, lines);
    let ghost before = out@;
    out.push(cmd_finalize(opts.chain_print));
    assert(contents(out@) =~= contents(before).push(finalize_command(opts.chain_print)));
    assert(contents(out@) =~= job(contents(lines@), flags, *opts));
    out
}

/// Two raster lines of the same length have the same command only if they are
/// equal: the command says exactly which dots are marked.
pub proof fn law_line_command_determines_line(a: Seq<u8>, b: Seq<u8>)
    requires
        a.len() == b.len(),
        line_command(a) == line_command(b),
    ensures
        a == b,
{
    if blank(a) || blank(b) {
        assert(line_feed().len() == 1);
        assert(send_raster(a).len() == a.len() + 3);
        assert(send_raster(b).len() == b.len() + 3);
        assert(blank(a) && blank(b));
        assert(a =~= b);
    } else {
        assert(send_raster(a).skip(3) =~= a);
        assert(send_raster(b).skip(3) =~= b);
    }
}

} // verus!
