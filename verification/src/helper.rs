//! The helper process that talks to Bluetooth printers on behalf of a user
//! interface: what it is asked on its command line, and what it prints.

use vstd::prelude::*;

use crate::bluetooth::{is_p300bt, BluetoothDevice};
use crate::p300bt::LINE_BYTES;
use crate::pairing::{devices, PairedDevice, PairedModel};
use crate::protocol::{contents, push_all};
use crate::session::SessionModel;
use crate::text::{
    characters, decimal, decimal_digit, first_at, law_number_round_trip,
    lemma_decimal_is_read_back, lemma_first_at, lines, push_decimal, reads, split, texts, trim,
    trimmed, trimmed_end, upper, uppercase, uppercase_starts_with, white, without_return,
};
use crate::worker::{
    listed_printer, listed_printers, printers_of, reported, ConnectedModel, TargetModel,
};

verus! {

/// The argument that makes a process the helper.
pub const HELPER_ARG: &'static str = "--ptouch-bluetooth-helper";

// ---------------------------------------------------------------------
// What the helper is asked
// ---------------------------------------------------------------------

/// What the helper is asked to do.
#[derive(Debug, PartialEq, Eq)]
pub enum HelperCommand {
    /// List the paired printers.
    List,
    /// Report on the printer with the address.
    Status { address: String },
    /// Print the label from the standard input on the printer with the address.
    Print { address: String },
}

/// The value of a [`HelperCommand`].
pub enum HelperModel {
    List,
    Status { address: Seq<char> },
    Print { address: Seq<char> },
}

impl View for HelperCommand {
    type V = HelperModel;

    open spec fn view(&self) -> HelperModel {
        match self {
            HelperCommand::List => HelperModel::List,
            HelperCommand::Status { address } => HelperModel::Status { address: address@ },
            HelperCommand::Print { address } => HelperModel::Print { address: address@ },
        }
    }
}

/// Whether a process with these arguments, its own name first, is the helper.
pub open spec fn helper_call(args: Seq<Seq<char>>) -> bool {
    args.len() > 1 && args[1] == HELPER_ARG@
}

/// What the helper with these arguments is asked to do.
pub open spec fn asked(args: Seq<Seq<char>>) -> Result<HelperModel, Seq<char>> {
    if args.len() > 2 && args[2] == "list"@ {
        Ok(HelperModel::List)
    } else if args.len() > 2 && args[2] == "status"@ {
        if args.len() > 3 {
            Ok(HelperModel::Status { address: args[3] })
        } else {
            Err("Missing Bluetooth address"@)
        }
    } else if args.len() > 2 && args[2] == "print"@ {
        if args.len() > 3 {
            Ok(HelperModel::Print { address: args[3] })
        } else {
            Err("Missing Bluetooth address"@)
        }
    } else {
        Err("Unknown Bluetooth helper operation"@)
    }
}

/// Whether a process with these arguments, its own name first, is the helper.
pub fn is_helper_call(args: &Vec<String>) -> (r: bool)
    ensures
        r == helper_call(texts(args@)),
{
    args.len() > 1 && reads(&args[1], HELPER_ARG)
}

/// Read what the helper is asked to do.
pub fn helper_command(args: &Vec<String>) -> (r: Result<HelperCommand, String>)
    ensures
        match (r, asked(texts(args@))) {
            (Ok(command), Ok(model)) => command@ == model,
            (Err(message), Err(text)) => message@ == text,
            _ => false,
        },
{
    proof {
        reveal_strlit("list");
        reveal_strlit("status");
        reveal_strlit("print");
        assert("list"@.len() == 4);
        assert("status"@.len() == 6);
        assert("print"@.len() == 5);
    }
    if args.len() > 2 && reads(&args[2], "list") {
        return Ok(HelperCommand::List);
    }
    if args.len() > 2 && reads(&args[2], "status") {
        if args.len() > 3 {
            return Ok(HelperCommand::Status { address: args[3].clone() });
        }
        return Err("Missing Bluetooth address".to_string());
    }
    if args.len() > 2 && reads(&args[2], "print") {
        if args.len() > 3 {
            return Ok(HelperCommand::Print { address: args[3].clone() });
        }
        return Err("Missing Bluetooth address".to_string());
    }
    Err("Unknown Bluetooth helper operation".to_string())
}

/// The exit code of the helper.
pub fn exit_code(result: &Result<(), String>) -> (code: i32)
    ensures
        code == if result is Ok {
            0int
        } else {
            1int
        },
{
    match result {
        Ok(()) => 0,
        Err(_) => 1,
    }
}

/// What a failed helper is reported as, given what it has printed on its error
/// output.
pub open spec fn failure_text(stderr: Seq<char>) -> Seq<char> {
    if trimmed(stderr).len() == 0 {
        "Bluetooth helper failed"@
    } else {
        trimmed(stderr)
    }
}

/// What a failed helper is reported as, given what it has printed on its error
/// output.
pub fn helper_failure(stderr: &str) -> (text: String)
    ensures
        text@ == failure_text(stderr@),
{
    let message: String = trim(stderr);
    if message.as_str().is_empty() {
        "Bluetooth helper failed".to_string()
    } else {
        message
    }
}

// ---------------------------------------------------------------------
// Raster data
// ---------------------------------------------------------------------

/// The raster lines that bytes are cut into.
pub open spec fn cut(bytes: Seq<u8>) -> Seq<Seq<u8>> {
    Seq::new(
        bytes.len() / LINE_BYTES as nat,
        |i: int| bytes.subrange(i * LINE_BYTES, (i + 1) * LINE_BYTES),
    )
}

/// Whether bytes make up raster lines.
pub open spec fn whole_lines(bytes: Seq<u8>) -> bool {
    bytes.len() > 0 && bytes.len() % LINE_BYTES as nat == 0
}

/// Cut bytes into raster lines.
pub fn raster_lines(bytes: &[u8]) -> (r: Result<Vec<Vec<u8>>, String>)
    ensures
        match r {
            Ok(lines) => whole_lines(bytes@) && contents(lines@) == cut(bytes@),
            Err(message) => !whole_lines(bytes@) && message@ == "Invalid PT-P300BT raster data"@,
        },
{
    if bytes.len() == 0 || bytes.len() % LINE_BYTES != 0 {
        return Err("Invalid PT-P300BT raster data".to_string());
    }
    let count: usize = bytes.len() / LINE_BYTES;
    let mut lines: Vec<Vec<u8>> = Vec::new();
    let mut i: usize = 0;
    let mut from: usize = 0;
    proof {
        assert(contents(lines@) =~= cut(bytes@).take(0));
    }
    while i < count
        invariant
            i <= count,
            count * LINE_BYTES == bytes@.len() <= usize::MAX,
            count == cut(bytes@).len(),
            from == i * LINE_BYTES,
            contents(lines@) == cut(bytes@).take(i as int),
        decreases count - i,
    {
        let mut line: Vec<u8> = Vec::new();
        push_all(&mut line, vstd::slice::slice_subrange(bytes, from, from + LINE_BYTES));
        assert(line@ =~= cut(bytes@)[i as int]);
        let ghost before = contents(lines@);
        lines.push(line);
        assert(contents(lines@) =~= before.push(line@));
        assert(before.push(line@) =~= cut(bytes@).take(i + 1));
        from = from + LINE_BYTES;
        i = i + 1;
    }
    assert(cut(bytes@).take(i as int) =~= cut(bytes@));
    Ok(lines)
}

/// The bytes of raster lines, one line after the other.
pub fn raster_bytes(lines: &[Vec<u8>]) -> (bytes: Vec<u8>)
    ensures
        bytes@ == contents(lines@).flatten(),
{
    let mut bytes: Vec<u8> = Vec::new();
    let mut i: usize = 0;
    let ghost all = contents(lines@);
    proof {
        assert(all.take(0) =~= Seq::empty());
        assert(all.take(0).flatten() =~= Seq::empty());
    }
    while i < lines.len()
        invariant
            i <= lines@.len(),
            all == contents(lines@),
            bytes@ == all.take(i as int).flatten(),
        decreases lines@.len() - i,
    {
        push_all(&mut bytes, lines[i].as_slice());
        proof {
            all.take(i as int).lemma_flatten_push(all[i as int]);
            assert(all.take(i as int).push(all[i as int]) =~= all.take(i + 1));
        }
        i = i + 1;
    }
    assert(all.take(i as int) =~= all);
    bytes
}

/// Raster lines survive being sent as bytes and cut again.
pub proof fn law_raster_round_trip(lines: Seq<Seq<u8>>)
    requires
        lines.len() > 0,
        forall|i: int| 0 <= i < lines.len() ==> (#[trigger] lines[i]).len() == LINE_BYTES,
    ensures
        whole_lines(lines.flatten()),
        cut(lines.flatten()) == lines,
{
    lemma_flatten_lines(lines);
    let bytes = lines.flatten();
    assert(bytes.len() % 16 == 0);
    assert(bytes.len() / 16 == lines.len());
    assert forall|i: int| 0 <= i < lines.len() implies #[trigger] cut(bytes)[i] == lines[i] by {
        assert(cut(bytes)[i] =~= bytes.subrange(i * 16, i * 16 + 16));
        assert(lines[i].len() == 16);
        assert(cut(bytes)[i] =~= lines[i]);
    }
    assert(cut(bytes) =~= lines);
}

proof fn lemma_flatten_lines(lines: Seq<Seq<u8>>)
    requires
        forall|i: int| 0 <= i < lines.len() ==> (#[trigger] lines[i]).len() == LINE_BYTES,
    ensures
        lines.flatten().len() == 16 * lines.len(),
        forall|i: int, j: int|
            0 <= i < lines.len() && 0 <= j < 16 ==> lines.flatten()[i * 16 + j] == #[trigger] lines[i][j],
    decreases lines.len(),
{
    if lines.len() > 0 {
        let rest = lines.drop_first();
        assert forall|i: int| 0 <= i < rest.len() implies (#[trigger] rest[i]).len()
            == LINE_BYTES by {
            assert(rest[i] == lines[i + 1]);
        }
        lemma_flatten_lines(rest);
        assert(lines.flatten() == lines[0] + rest.flatten());
        assert(lines[0].len() == 16);
        assert forall|i: int, j: int|
            0 <= i < lines.len() && 0 <= j < 16 implies lines.flatten()[i * 16 + j]
            == #[trigger] lines[i][j] by {
            if i > 0 {
                assert(lines[i] == rest[i - 1]);
                assert(rest.flatten()[(i - 1) * 16 + j] == rest[i - 1][j]);
            }
        }
    }
}

// ---------------------------------------------------------------------
// The listing
// ---------------------------------------------------------------------

/// A character of a name in a listing: no tabulator and no line feed.
pub open spec fn plain_char(c: char) -> char {
    if c == '\t' || c == '\n' {
        ' '
    } else {
        c
    }
}

/// A name as it stands in a listing.
pub open spec fn plain(name: Seq<char>) -> Seq<char> {
    name.map_values(|c: char| plain_char(c))
}

/// Whether a paired device is a printer, judging by its name.
pub open spec fn offered(device: PairedModel) -> bool {
    "PT-P300BT"@.is_prefix_of(uppercase(device.name))
}

/// The line of a printer in a listing.
pub open spec fn listing_line(device: PairedModel) -> Seq<char> {
    device.address + "\t"@ + plain(device.name) + "\n"@
}

/// The listing of the printers among paired devices.
pub open spec fn listing(list: Seq<PairedModel>) -> Seq<char>
    decreases list.len(),
{
    if list.len() == 0 {
        Seq::empty()
    } else if offered(list.last()) {
        listing(list.drop_last()) + listing_line(list.last())
    } else {
        listing(list.drop_last())
    }
}

fn push_plain(out: &mut String, name: &str)
    ensures
        final(out)@ == old(out)@ + plain(name@),
{
    let chars: Vec<char> = characters(name);
    let mut i: usize = 0;
    assert(plain(name@).take(0) =~= Seq::empty());
    let ghost before = out@;
    while i < chars.len()
        invariant
            i <= chars.len(),
            chars@ == name@,
            out@ == before + plain(name@).take(i as int),
        decreases chars.len() - i,
    {
        let c: char = chars[i];
        if c == '\t' || c == '\n' {
            out.push(' ');
        } else {
            out.push(c);
        }
        i = i + 1;
        assert(out@ =~= before + plain(name@).take(i as int));
    }
    assert(plain(name@).take(i as int) =~= plain(name@));
}

/// List the printers among paired devices.
pub fn list_printers(list: &Vec<PairedDevice>) -> (out: String)
    ensures
        out@ == listing(devices(list@)),
{
    let mut out: String = String::new();
    let mut i: usize = 0;
    let ghost all = devices(list@);
    proof {
        assert(all.take(0) =~= Seq::empty());
    }
    while i < list.len()
        invariant
            i <= list.len(),
            all == devices(list@),
            out@ == listing(all.take(i as int)),
        decreases list.len() - i,
    {
        let device: &PairedDevice = &list[i];
        proof {
            assert(all.take(i + 1).drop_last() =~= all.take(i as int));
            assert(all[i as int] == device@);
        }
        if uppercase_starts_with(device.name.as_str(), "PT-P300BT") {
            let ghost before = out@;
            out.append(device.address.as_str());
            out.append("\t");
            push_plain(&mut out, device.name.as_str());
            out.append("\n");
            assert(out@ =~= before + listing_line(device@));
        }
        i = i + 1;
    }
    assert(all.take(i as int) =~= all);
    out
}

/// The printers that are offered among paired devices.
pub open spec fn offered_printers(list: Seq<PairedModel>) -> Seq<TargetModel>
    decreases list.len(),
{
    if list.len() == 0 {
        Seq::empty()
    } else if offered(list.last()) {
        offered_printers(list.drop_last()).push(
            TargetModel::Bluetooth {
                name: plain(list.last().name),
                address: list.last().address,
            },
        )
    } else {
        offered_printers(list.drop_last())
    }
}

/// Whether a device can be told apart in a listing: its address holds no
/// tabulator and no line feed, and its name does not end in a carriage return,
/// which would pass for part of the line ending.
pub open spec fn listable(device: PairedModel) -> bool {
    &&& forall|k: int| 0 <= k < device.address.len() ==> device.address[k] != '\t'
    &&& forall|k: int| 0 <= k < device.address.len() ==> device.address[k] != '\n'
    &&& device.name.len() > 0 ==> device.name.last() != '\r'
}

/// The lines of a text that ends in a line feed, and of one more line.
proof fn lemma_lines_append(text: Seq<char>, line: Seq<char>)
    requires
        text.len() > 0 ==> text.last() == '\n',
        forall|k: int| 0 <= k < line.len() ==> line[k] != '\n',
    ensures
        lines(text + line.push('\n')) == lines(text).push(without_return(line)),
    decreases text.len(),
{
    let whole = text + line.push('\n');
    if text.len() == 0 {
        assert(whole =~= line.push('\n'));
        lemma_first_at(whole, '\n', line.len() as int);
        assert(whole.take(line.len() as int) =~= line);
        assert(whole.skip(line.len() as int + 1) =~= Seq::empty());
        assert(lines(whole) =~= seq![without_return(line)] + lines(Seq::<char>::empty()));
        assert(lines(text) =~= Seq::empty());
        assert(lines(whole) =~= lines(text).push(without_return(line)));
    } else {
        crate::text::lemma_first_at_bounds(text, '\n');
        let i = first_at(text, '\n') as int;
        if i == text.len() {
            assert(text[text.len() - 1] != '\n');
        }
        assert forall|k: int| 0 <= k < i implies whole[k] != '\n' by {
            assert(whole[k] == text[k]);
        }
        assert(whole[i] == text[i]);
        lemma_first_at(whole, '\n', i);
        let rest = text.skip(i + 1);
        assert(rest.len() > 0 ==> rest.last() == text.last());
        lemma_lines_append(rest, line);
        assert(whole.take(i) =~= text.take(i));
        assert(whole.skip(i + 1) =~= rest + line.push('\n'));
        assert(lines(whole) =~= lines(text).push(without_return(line)));
    }
}

/// A listing that is read back gives the printers that were offered, with their
/// addresses and with their names as far as a line can hold them.
pub proof fn law_listing_round_trip(list: Seq<PairedModel>)
    requires
        forall|i: int| 0 <= i < list.len() ==> listable(#[trigger] list[i]),
    ensures
        listed_printers(listing(list)) == offered_printers(list),
        listing(list).len() > 0 ==> listing(list).last() == '\n',
    decreases list.len(),
{
    reveal_strlit("\t");
    reveal_strlit("\n");
    if list.len() == 0 {
        assert(printers_of(lines(Seq::<char>::empty())) =~= Seq::empty());
    } else {
        let shorter = list.drop_last();
        assert forall|i: int| 0 <= i < shorter.len() implies listable(#[trigger] shorter[i]) by {
            assert(shorter[i] == list[i]);
        }
        law_listing_round_trip(shorter);
        let device = list.last();
        assert(listable(list[list.len() - 1]));
        if offered(device) {
            let line = device.address + "\t"@ + plain(device.name);
            let text = listing(shorter);
            assert("\t"@ =~= seq!['\t']);
            assert("\n"@ =~= seq!['\n']);
            assert forall|k: int| 0 <= k < line.len() implies line[k] != '\n' by {
                let n = device.address.len() as int;
                if k > n {
                    assert(line[k] == plain_char(device.name[k - n - 1]));
                }
            }
            assert(listing(list) =~= text + line.push('\n'));
            lemma_lines_append(text, line);
            assert(without_return(line) == line) by {
                let n = device.address.len() as int;
                if device.name.len() > 0 {
                    assert(line.last() == plain_char(device.name.last()));
                } else {
                    assert(line.last() == '\t');
                }
            }
            let all = lines(listing(list));
            assert(all.drop_last() =~= lines(text));
            assert(all.last() == line);
            assert(line[device.address.len() as int] == '\t');
            lemma_first_at(line, '\t', device.address.len() as int);
            assert(line.take(device.address.len() as int) =~= device.address);
            assert(line.skip(device.address.len() as int + 1) =~= plain(device.name));
            assert(listed_printer(line) == Some(
                TargetModel::Bluetooth { name: plain(device.name), address: device.address },
            ));
        }
    }
}

// ---------------------------------------------------------------------
// The status line
// ---------------------------------------------------------------------

/// The status line of a printer.
pub open spec fn status_line(c: ConnectedModel) -> Seq<char> {
    c.model_name + "\t"@ + decimal(c.media_width as nat) + "\t"@ + c.media_type + "\t"@
        + decimal(c.max_px as nat) + "\t"@ + decimal(c.dpi as nat) + "\t"@ + decimal(
        c.tape_width_px as nat,
    ) + "\n"@
}

/// What an initialized printer is reported as, or why it cannot be.
pub open spec fn status_of(s: SessionModel) -> Result<ConnectedModel, Seq<char>> {
    match (s.status, s.tape_width_px) {
        (None, _) => Err("Printer returned no status"@),
        (Some(status), None) => Err("Unsupported tape width"@),
        (Some(status), Some(px)) => Ok(
            ConnectedModel {
                model_name: s.profile.name@,
                media_width: status.media_width,
                media_type: status.media_name(),
                max_px: s.profile.raster_width_px,
                dpi: s.profile.dpi,
                quality_modes: false,
                tape_width_px: px,
            },
        ),
    }
}

/// Report on an initialized printer.
pub fn report_status(device: &BluetoothDevice) -> (r: Result<String, String>)
    ensures
        match (r, status_of(device@)) {
            (Ok(line), Ok(connected)) => line@ == status_line(connected),
            (Err(message), Err(text)) => message@ == text,
            _ => false,
        },
{
    let status = match device.status() {
        Some(status) => status,
        None => {
            return Err("Printer returned no status".to_string());
        },
    };
    let tape_width_px: u16 = match device.tape_width_px() {
        Some(px) => px,
        None => {
            return Err("Unsupported tape width".to_string());
        },
    };
    let mut line: String = device.model_name().to_string();
    line.append("\t");
    push_decimal(&mut line, status.media_width as u64);
    line.append("\t");
    line.append(status.media_type_name());
    line.append("\t");
    push_decimal(&mut line, device.raster_width_px() as u64);
    line.append("\t");
    push_decimal(&mut line, device.dpi() as u64);
    line.append("\t");
    push_decimal(&mut line, tape_width_px as u64);
    line.append("\n");
    Ok(line)
}

/// A first field and the rest.
proof fn lemma_split_field(field: Seq<char>, rest: Seq<char>)
    requires
        forall|k: int| 0 <= k < field.len() ==> field[k] != '\t',
    ensures
        split(field + seq!['\t'] + rest, '\t') == seq![field] + split(rest, '\t'),
{
    let whole = field + seq!['\t'] + rest;
    lemma_first_at(whole, '\t', field.len() as int);
    assert(whole.take(field.len() as int) =~= field);
    assert(whole.skip(field.len() as int + 1) =~= rest);
}

proof fn lemma_split_last(field: Seq<char>)
    requires
        forall|k: int| 0 <= k < field.len() ==> field[k] != '\t',
    ensures
        split(field, '\t') == seq![field],
{
    lemma_first_at(field, '\t', field.len() as int);
}

proof fn lemma_decimal_is_plain(n: nat)
    ensures
        decimal(n).len() > 0,
        forall|k: int| 0 <= k < decimal(n).len() ==> decimal(n)[k] != '\t',
        !white(decimal(n).last()),
{
    lemma_decimal_is_read_back(n);
    assert forall|k: int| 0 <= k < decimal(n).len() implies decimal(n)[k] != '\t' by {
        assert(decimal_digit(decimal(n)[k]));
    }
    assert(decimal_digit(decimal(n)[decimal(n).len() - 1]));
}

/// Fields with tabulators between them.
spec fn joined(fields: Seq<Seq<char>>) -> Seq<char>
    decreases fields.len(),
{
    if fields.len() == 0 {
        Seq::empty()
    } else if fields.len() == 1 {
        fields[0]
    } else {
        fields[0] + seq!['\t'] + joined(fields.drop_first())
    }
}

proof fn lemma_split_joined(fields: Seq<Seq<char>>)
    requires
        fields.len() > 0,
        forall|i: int, k: int|
            0 <= i < fields.len() && 0 <= k < fields[i].len() ==> #[trigger] fields[i][k] != '\t',
    ensures
        split(joined(fields), '\t') == fields,
    decreases fields.len(),
{
    assert forall|k: int| 0 <= k < fields[0].len() implies fields[0][k] != '\t' by {}
    if fields.len() == 1 {
        lemma_split_last(fields[0]);
        assert(seq![fields[0]] =~= fields);
    } else {
        let rest = fields.drop_first();
        assert forall|i: int, k: int|
            0 <= i < rest.len() && 0 <= k < rest[i].len() implies #[trigger] rest[i][k]
            != '\t' by {
            assert(rest[i] == fields[i + 1]);
            assert(fields[i + 1][k] != '\t');
        }
        lemma_split_joined(rest);
        lemma_split_field(fields[0], joined(rest));
        assert(seq![fields[0]] + rest =~= fields);
    }
}

/// The fields of a status line.
spec fn status_fields(c: ConnectedModel) -> Seq<Seq<char>> {
    seq![
        c.model_name,
        decimal(c.media_width as nat),
        c.media_type,
        decimal(c.max_px as nat),
        decimal(c.dpi as nat),
        decimal(c.tape_width_px as nat),
    ]
}

proof fn lemma_status_line_is_joined(c: ConnectedModel)
    ensures
        status_line(c) == joined(status_fields(c)).push('\n'),
        joined(status_fields(c)).len() > 0,
        joined(status_fields(c)).last() == decimal(c.tape_width_px as nat).last(),
{
    reveal_strlit("\t");
    reveal_strlit("\n");
    assert("\t"@ =~= seq!['\t']);
    assert("\n"@ =~= seq!['\n']);
    lemma_decimal_is_plain(c.tape_width_px as nat);
    let f0 = status_fields(c);
    let f1 = f0.drop_first();
    let f2 = f1.drop_first();
    let f3 = f2.drop_first();
    let f4 = f3.drop_first();
    let f5 = f4.drop_first();
    assert(joined(f5) == decimal(c.tape_width_px as nat));
    assert(joined(f4) == decimal(c.dpi as nat) + seq!['\t'] + joined(f5));
    assert(joined(f3) == decimal(c.max_px as nat) + seq!['\t'] + joined(f4));
    assert(joined(f2) == c.media_type + seq!['\t'] + joined(f3));
    assert(joined(f1) == decimal(c.media_width as nat) + seq!['\t'] + joined(f2));
    assert(joined(f0) == c.model_name + seq!['\t'] + joined(f1));
    assert(status_line(c) =~= joined(f0).push('\n'));
}

proof fn lemma_status_fields_are_plain(c: ConnectedModel)
    requires
        forall|k: int| 0 <= k < c.model_name.len() ==> c.model_name[k] != '\t',
        forall|k: int| 0 <= k < c.media_type.len() ==> c.media_type[k] != '\t',
    ensures
        forall|i: int, k: int|
            0 <= i < 6 && 0 <= k < status_fields(c)[i].len() ==> #[trigger] status_fields(c)[i][k]
                != '\t',
{
    lemma_decimal_is_plain(c.media_width as nat);
    lemma_decimal_is_plain(c.max_px as nat);
    lemma_decimal_is_plain(c.dpi as nat);
    lemma_decimal_is_plain(c.tape_width_px as nat);
}

/// A status line that is read back gives the printer that was reported.
pub proof fn law_status_round_trip(c: ConnectedModel)
    requires
        forall|k: int| 0 <= k < c.model_name.len() ==> c.model_name[k] != '\t',
        forall|k: int| 0 <= k < c.media_type.len() ==> c.media_type[k] != '\t',
        !c.quality_modes,
    ensures
        reported(status_line(c)) == Ok::<ConnectedModel, Seq<char>>(c),
{
    let fields = status_fields(c);
    let text = joined(fields);
    lemma_status_line_is_joined(c);
    lemma_decimal_is_plain(c.tape_width_px as nat);
    assert(status_line(c).drop_last() =~= text);
    assert(status_line(c).last() == '\n');
    assert(trimmed_end(text) == text);
    assert(trimmed_end(status_line(c)) == text);
    lemma_status_fields_are_plain(c);
    lemma_split_joined(fields);
    law_number_round_trip(c.media_width as nat, u8::MAX as nat);
    law_number_round_trip(c.max_px as nat, u16::MAX as nat);
    law_number_round_trip(c.dpi as nat, u16::MAX as nat);
    law_number_round_trip(c.tape_width_px as nat, u16::MAX as nat);
}

/// What the helper reports on a PT-P300BT is what the user interface reads.
pub proof fn law_printer_report_round_trip(s: SessionModel)
    requires
        is_p300bt(s.profile),
        status_of(s) is Ok,
    ensures
        reported(status_line(status_of(s)->Ok_0)) == status_of(s),
{
    reveal_strlit("PT-P300BT");
    reveal_strlit("No media");
    reveal_strlit("Laminated tape");
    reveal_strlit("Non-laminated tape");
    reveal_strlit("Heat-shrink tube");
    reveal_strlit("Incompatible tape");
    reveal_strlit("Unknown media");
    law_status_round_trip(status_of(s)->Ok_0);
}

// ---------------------------------------------------------------------
// What is asked and printed, in words
// ---------------------------------------------------------------------

/// The helper is asked by its second argument, and a printer is named by the one
/// behind it, taken as it is. Without one the address is missing, and any other
/// word is no operation.
pub proof fn law_helper_is_asked_by_arguments(args: Seq<Seq<char>>)
    ensures
        helper_call(args) <==> args.len() >= 2 && args[1] == "--ptouch-bluetooth-helper"@,
        match asked(args) {
            Ok(HelperModel::List) => args.len() >= 3 && args[2] == "list"@,
            Ok(HelperModel::Status { address }) => {
                args.len() >= 4 && args[2] == "status"@ && address == args[3]
            },
            Ok(HelperModel::Print { address }) => {
                args.len() >= 4 && args[2] == "print"@ && address == args[3]
            },
            Err(text) => if args.len() == 3 && (args[2] == "status"@ || args[2] == "print"@) {
                text == "Missing Bluetooth address"@
            } else {
                text == "Unknown Bluetooth helper operation"@ && (args.len() < 3 || (args[2]
                    != "list"@ && args[2] != "status"@ && args[2] != "print"@))
            },
        },
{
    reveal_strlit("list");
    reveal_strlit("status");
    reveal_strlit("print");
    assert("list"@.len() == 4);
    assert("status"@.len() == 6);
    assert("print"@.len() == 5);
}

/// A failed helper is reported by what it has said, and never by nothing.
pub proof fn law_failures_are_reported(stderr: Seq<char>)
    ensures
        failure_text(stderr).len() > 0,
        trimmed(stderr).len() > 0 ==> failure_text(stderr) == trimmed(stderr),
        trimmed(stderr).len() == 0 ==> failure_text(stderr) == "Bluetooth helper failed"@,
{
    reveal_strlit("Bluetooth helper failed");
}

/// Bytes are cut into lines of 16 without loss: one behind the other, the lines
/// are the bytes again.
pub proof fn law_cut_lines_are_the_bytes(bytes: Seq<u8>)
    requires
        whole_lines(bytes),
    ensures
        bytes.len() > 0,
        bytes.len() == 16 * cut(bytes).len(),
        cut(bytes).flatten() == bytes,
        forall|i: int, j: int|
            0 <= i < cut(bytes).len() && 0 <= j < 16 ==> #[trigger] cut(bytes)[i][j] == bytes[16 * i
                + j],
        forall|i: int| 0 <= i < cut(bytes).len() ==> (#[trigger] cut(bytes)[i]).len() == 16,
{
    let lines = cut(bytes);
    lemma_flatten_lines(lines);
    assert forall|k: int| 0 <= k < bytes.len() implies lines.flatten()[k] == bytes[k] by {
        let (i, j) = (k / 16, k % 16);
        assert(lines.flatten()[i * 16 + j] == lines[i][j]);
        assert(k == i * 16 + j);
    }
    assert(lines.flatten() =~= bytes);
}

/// Bytes are raster lines exactly if there are some and their number is a multiple
/// of 16.
pub proof fn law_whole_lines(bytes: Seq<u8>)
    ensures
        whole_lines(bytes) <==> bytes.len() >= 16 && bytes.len() % 16 == 0,
{
}

/// A paired device is offered as a printer exactly if the first nine characters
/// of its name are `PT-P300BT`, whatever the case of the letters.
pub proof fn law_offered_by_name(device: PairedModel)
    ensures
        offered(device) <==> device.name.len() >= 9 && upper(device.name[0]) == 'P' && upper(
            device.name[1],
        ) == 'T' && device.name[2] == '-' && upper(device.name[3]) == 'P' && device.name[4] == '3'
            && device.name[5] == '0' && device.name[6] == '0' && upper(device.name[7]) == 'B'
            && upper(device.name[8]) == 'T',
{
    reveal_strlit("PT-P300BT");
    let up = uppercase(device.name);
    let start = "PT-P300BT"@;
    assert(start.len() == 9);
    assert(start[0] == 'P' && start[1] == 'T' && start[2] == '-' && start[3] == 'P');
    assert(start[4] == '3' && start[5] == '0' && start[6] == '0' && start[7] == 'B');
    assert(start[8] == 'T');
    if start.is_prefix_of(up) {
        assert forall|k: int| 0 <= k < 9 implies up[k] == start[k] by {
            assert(up.subrange(0, 9)[k] == up[k]);
        }
        assert(up[0] == 'P' && up[1] == 'T' && up[2] == '-' && up[3] == 'P' && up[4] == '3');
        assert(up[5] == '0' && up[6] == '0' && up[7] == 'B' && up[8] == 'T');
    }
    if device.name.len() >= 9 && up[0] == 'P' && up[1] == 'T' && up[2] == '-' && up[3] == 'P'
        && up[4] == '3' && up[5] == '0' && up[6] == '0' && up[7] == 'B' && up[8] == 'T' {
        assert(start =~= up.subrange(0, 9));
    }
}

/// Each printer is offered with its own address and with its own name, in which a
/// blank stands for each tabulator and line feed. Other devices are passed over,
/// and none of several devices is lost.
pub proof fn law_offered_printers(before: Seq<PairedModel>, device: PairedModel)
    ensures
        offered_printers(Seq::empty()) == Seq::<TargetModel>::empty(),
        !offered(device) ==> offered_printers(before.push(device)) == offered_printers(before),
        offered(device) ==> {
            let all = offered_printers(before.push(device));
            &&& all.drop_last() == offered_printers(before)
            &&& match all.last() {
                TargetModel::Bluetooth { name, address } => {
                    &&& address == device.address
                    &&& name.len() == device.name.len()
                    &&& forall|k: int|
                        0 <= k < name.len() ==> #[trigger] name[k] == if device.name[k] == '\t'
                            || device.name[k] == '\n' {
                            ' '
                        } else {
                            device.name[k]
                        }
                },
                TargetModel::Usb => false,
            }
        },
{
    assert(before.push(device).drop_last() =~= before);
    if offered(device) {
        assert(offered_printers(before.push(device)).drop_last() =~= offered_printers(before));
    }
}

/// An initialized printer is reported by its own name, resolution and raster
/// width, with the tape of its last report and the printable width that is known.
/// Without a report, or on a tape of unknown width, it cannot be.
pub proof fn law_report_is_of_the_printer(s: SessionModel)
    ensures
        match status_of(s) {
            Ok(c) => {
                &&& c.model_name == s.profile.name@
                &&& s.status matches Some(status) && c.media_width == status.media_width
                    && c.media_type == status.media_name()
                &&& c.max_px == s.profile.raster_width_px
                &&& c.dpi == s.profile.dpi
                &&& !c.quality_modes
                &&& s.tape_width_px == Some(c.tape_width_px)
            },
            Err(text) => {
                ||| s.status is None && text == "Printer returned no status"@
                ||| s.status is Some && s.tape_width_px is None && text == "Unsupported tape width"@
            },
        },
{
}

} // verus!
