//! A small label for trying a PT-P300BT out, and the program that prints it.

use vstd::prelude::*;

use crate::p300bt::{idle, refusal, within_margins, LINE_BYTES};
use crate::protocol::contents;
use crate::status::PrinterStatus;
use crate::text::{reads, texts};

verus! {

/// The raster lines of the label.
pub const SAMPLE_LINES: usize = 156;

/// The rows of the letters `R`, `U`, `S` and `T`, top row first; five dots a
/// row, the leftmost in the highest bit.
pub open spec fn glyph_row(glyph: int, row: int) -> u8 {
    if glyph == 0 {
        seq![30u8, 17, 17, 30, 20, 18, 17][row]
    } else if glyph == 1 {
        seq![17u8, 17, 17, 17, 17, 17, 14][row]
    } else if glyph == 2 {
        seq![15u8, 16, 16, 14, 1, 1, 30][row]
    } else {
        seq![31u8, 4, 4, 4, 4, 4, 4][row]
    }
}

fn glyph_bits(glyph: usize, row: usize) -> (bits: u8)
    requires
        glyph < 4,
        row < 7,
    ensures
        bits == glyph_row(glyph as int, row as int),
{
    let r: [u8; 7] = [30, 17, 17, 30, 20, 18, 17];
    let u: [u8; 7] = [17, 17, 17, 17, 17, 17, 14];
    let s: [u8; 7] = [15, 16, 16, 14, 1, 1, 30];
    let t: [u8; 7] = [31, 4, 4, 4, 4, 4, 4];
    if glyph == 0 {
        r[row]
    } else if glyph == 1 {
        u[row]
    } else if glyph == 2 {
        s[row]
    } else {
        t[row]
    }
}

/// Whether dot `y` from the top of line `x` is black: a dot of a letter is a
/// square of six by six, letters are six dots apart, and there is a margin.
pub open spec fn ink(x: int, y: int) -> bool {
    let glyph = (x - 6) / 36;
    let column = (x - 6) % 36 / 6;
    let row = (y - 11) / 6;
    &&& 6 <= x
    &&& glyph < 4
    &&& column < 5
    &&& 11 <= y < 53
    &&& glyph_row(glyph, row) & (1u8 << ((4 - column) as u8)) != 0
}

fn is_ink(x: usize, y: usize) -> (r: bool)
    requires
        x < SAMPLE_LINES,
        y < 64,
    ensures
        r == ink(x as int, y as int),
{
    if x < 6 || y < 11 || y >= 53 {
        return false;
    }
    let glyph: usize = (x - 6) / 36;
    let column: usize = (x - 6) % 36 / 6;
    let row: usize = (y - 11) / 6;
    if glyph >= 4 || column >= 5 {
        return false;
    }
    let shift: u8 = (4 - column) as u8;
    glyph_bits(glyph, row) & (1u8 << shift) != 0
}

/// Whether dot `wire` of a raster line is black. Dots run from the bottom to
/// the top, in the bytes from the last to the first.
pub open spec fn wire_dot(line: Seq<u8>, wire: int) -> bool {
    line[15 - wire / 8] & (1u8 << ((wire % 8) as u8)) != 0
}

/// The dot of the raster line that prints dot `y` from the top: the 64 printable
/// dots are in the middle of the 128 that are transferred.
pub open spec fn wire_of(y: int) -> int {
    32 + (63 - y)
}

/// Whether a raster line shows line `x` of the label and nothing else.
pub open spec fn shows(line: Seq<u8>, x: int) -> bool {
    &&& line.len() == LINE_BYTES
    &&& forall|y: int| 0 <= y < 64 ==> #[trigger] wire_dot(line, wire_of(y)) == ink(x, y)
    &&& forall|k: int| 0 <= k < 4 || 12 <= k < 16 ==> #[trigger] line[k] == 0
}

/// The byte at `k` of line `x`.
fn ink_byte(x: usize, k: usize) -> (byte: u8)
    requires
        x < SAMPLE_LINES,
        4 <= k < 12,
    ensures
        forall|b: int|
            0 <= b < 8 ==> (byte & (1u8 << (b as u8)) != 0) == ink(
                x as int,
                #[trigger] (95 - ((15 - k) * 8 + b)),
            ),
{
    let mut byte: u8 = 0;
    let mut b: usize = 0;
    proof {
        assert forall|c: u8| c < 8 implies byte & #[trigger] (1u8 << c) == 0 by {
            assert(0u8 & (1u8 << c) == 0) by (bit_vector);
        }
    }
    while b < 8
        invariant
            b <= 8,
            x < SAMPLE_LINES,
            4 <= k < 12,
            forall|c: int|
                0 <= c < b ==> (byte & (1u8 << (c as u8)) != 0) == ink(
                    x as int,
                    #[trigger] (95 - ((15 - k) * 8 + c)),
                ),
            forall|c: u8| b <= c < 8 ==> byte & #[trigger] (1u8 << c) == 0,
        decreases 8 - b,
    {
        let y: usize = 95 - ((15 - k) * 8 + b);
        let shift: u8 = b as u8;
        let ghost before = byte;
        if is_ink(x, y) {
            byte = byte | (1u8 << shift);
            proof {
                assert forall|c: u8| c < 8 && c != shift implies byte & #[trigger] (1u8 << c)
                    == before & (1u8 << c) by {
                    assert((before | (1u8 << shift)) & (1u8 << c) == before & (1u8 << c))
                        by (bit_vector)
                        requires
                            c < 8,
                            shift < 8,
                            c != shift,
                    ;
                }
                assert((before | (1u8 << shift)) & (1u8 << shift) != 0) by (bit_vector)
                    requires
                        shift < 8,
                ;
            }
        } else {
            assert(before & (1u8 << shift) == 0);
        }
        proof {
            assert forall|c: int| 0 <= c < b + 1 implies (byte & (1u8 << (c as u8)) != 0) == ink(
                x as int,
                #[trigger] (95 - ((15 - k) * 8 + c)),
            ) by {
                if c < b {
                    assert(byte & (1u8 << (c as u8)) == before & (1u8 << (c as u8)));
                }
            }
        }
        b = b + 1;
    }
    byte
}

fn ink_line(x: usize) -> (line: Vec<u8>)
    requires
        x < SAMPLE_LINES,
    ensures
        shows(line@, x as int),
{
    let mut line: Vec<u8> = Vec::new();
    let mut k: usize = 0;
    while k < 16
        invariant
            k <= 16,
            x < SAMPLE_LINES,
            line@.len() == k,
            forall|j: int| 0 <= j < k && (j < 4 || 12 <= j) ==> #[trigger] line@[j] == 0,
            forall|j: int, b: int|
                4 <= j < k && j < 12 && 0 <= b < 8 ==> (#[trigger] line@[j] & (1u8 << (b as u8))
                    != 0) == ink(x as int, #[trigger] (95 - ((15 - j) * 8 + b))),
        decreases 16 - k,
    {
        if k < 4 || k >= 12 {
            line.push(0);
        } else {
            line.push(ink_byte(x, k));
        }
        k = k + 1;
    }
    proof {
        assert forall|y: int| 0 <= y < 64 implies #[trigger] wire_dot(line@, wire_of(y)) == ink(
            x as int,
            y,
        ) by {
            let wire = wire_of(y);
            let j = 15 - wire / 8;
            let b = wire % 8;
            assert(4 <= j < 12 && 0 <= b < 8);
            assert(95 - ((15 - j) * 8 + b) == y);
            assert((line@[j] & (1u8 << (b as u8)) != 0) == ink(
                x as int,
                95 - ((15 - j) * 8 + b),
            ));
        }
    }
    line
}

/// The raster lines of the label.
pub fn raster() -> (lines: Vec<Vec<u8>>)
    ensures
        lines@.len() == SAMPLE_LINES,
        lines@.len() == 156,
        forall|x: int| 0 <= x < SAMPLE_LINES ==> shows(#[trigger] contents(lines@)[x], x),
{
    let mut lines: Vec<Vec<u8>> = Vec::new();
    let mut x: usize = 0;
    while x < SAMPLE_LINES
        invariant
            x <= SAMPLE_LINES,
            lines@.len() == x,
            forall|i: int| 0 <= i < x ==> shows(#[trigger] contents(lines@)[i], i),
        decreases SAMPLE_LINES - x,
    {
        let ghost before = contents(lines@);
        let line: Vec<u8> = ink_line(x);
        lines.push(line);
        assert(contents(lines@) =~= before.push(line@));
        x = x + 1;
    }
    lines
}

/// A printer that waits for a job on the tape it knows takes the label.
pub proof fn law_sample_is_printable(lines: Seq<Seq<u8>>, status: PrinterStatus)
    requires
        lines.len() == SAMPLE_LINES,
        forall|x: int| 0 <= x < SAMPLE_LINES ==> shows(#[trigger] lines[x], x),
        !status.faulty(),
        idle(status),
        status.model_code == 0x72,
        status.media_width == 12,
    ensures
        refusal(lines, status) is None,
{
    assert forall|i: int| 0 <= i < lines.len() implies within_margins(#[trigger] lines[i]) by {
        assert(shows(lines[i], i));
    }
}

// ---------------------------------------------------------------------
// The program
// ---------------------------------------------------------------------

/// What the program is asked to do.
#[derive(Debug, PartialEq, Eq)]
pub struct SampleRequest {
    /// Whether to print the label, or only to report the status.
    pub print: bool,
    pub address: String,
    /// How many sessions to open.
    pub repeat: usize,
}

/// The value of a [`SampleRequest`].
pub struct SampleModel {
    pub print: bool,
    pub address: Seq<char>,
    pub repeat: usize,
}

impl View for SampleRequest {
    type V = SampleModel;

    open spec fn view(&self) -> SampleModel {
        SampleModel { print: self.print, address: self.address@, repeat: self.repeat }
    }
}

/// What the arguments ask for; `repeat` is what the third one reads as, if
/// there is one. Only one label is printed at a time.
pub open spec fn requested(
    args: Seq<Seq<char>>,
    repeat: Option<Result<usize, Seq<char>>>,
) -> Result<SampleModel, Seq<char>> {
    let sessions = match repeat {
        None => Ok(1usize),
        Some(r) => r,
    };
    if args.len() < 2 || (args[0] != "status"@ && args[0] != "print"@) {
        Err("Usage: bluetooth status|print ADDRESS [REPEAT]"@)
    } else {
        match sessions {
            Err(text) => Err(text),
            Ok(n) => if n == 0 || (args[0] == "print"@ && n != 1) {
                Err("Use positive repetitions; print is limited to one label"@)
            } else {
                Ok(SampleModel { print: args[0] == "print"@, address: args[1], repeat: n })
            },
        }
    }
}

/// What the third argument reads as, taken by value.
pub open spec fn repetition(repeat: Option<Result<usize, String>>) -> Option<
    Result<usize, Seq<char>>,
> {
    match repeat {
        None => None,
        Some(Ok(n)) => Some(Ok(n)),
        Some(Err(text)) => Some(Err(text@)),
    }
}

/// Read what the arguments behind the name of the program ask for.
pub fn sample_request(args: &Vec<String>, repeat: Option<Result<usize, String>>) -> (r: Result<
    SampleRequest,
    String,
>)
    ensures
        match (r, requested(texts(args@), repetition(repeat))) {
            (Ok(request), Ok(model)) => request@ == model,
            (Err(message), Err(text)) => message@ == text,
            _ => false,
        },
{
    if args.len() < 2 {
        return Err("Usage: bluetooth status|print ADDRESS [REPEAT]".to_string());
    }
    let print: bool = reads(&args[0], "print");
    if !print && !reads(&args[0], "status") {
        return Err("Usage: bluetooth status|print ADDRESS [REPEAT]".to_string());
    }
    let sessions: usize = match repeat {
        None => 1,
        Some(Ok(n)) => n,
        Some(Err(text)) => {
            return Err(text);
        },
    };
    if sessions == 0 || (print && sessions != 1) {
        return Err("Use positive repetitions; print is limited to one label".to_string());
    }
    Ok(SampleRequest { print, address: args[1].clone(), repeat: sessions })
}

// ---------------------------------------------------------------------
// What the label looks like
// ---------------------------------------------------------------------

/// A row of a letter as it is drawn.
pub open spec fn drawn_row(letter: int, row: int) -> Seq<char> {
    if letter == 0 {
        if row == 0 || row == 3 {
            "####."@
        } else if row == 4 {
            "#.#.."@
        } else if row == 5 {
            "#..#."@
        } else {
            "#...#"@
        }
    } else if letter == 1 {
        if row < 6 {
            "#...#"@
        } else {
            ".###."@
        }
    } else if letter == 2 {
        if row == 0 {
            ".####"@
        } else if row == 1 || row == 2 {
            "#...."@
        } else if row == 3 {
            ".###."@
        } else if row < 6 {
            "....#"@
        } else {
            "####."@
        }
    } else {
        if row == 0 {
            "#####"@
        } else {
            "..#.."@
        }
    }
}

spec fn weight(drawn: Seq<char>, column: int) -> int {
    if drawn[column] == '#' {
        1
    } else {
        0
    }
}

proof fn lemma_drawn_rows(letter: int, row: int)
    requires
        0 <= letter < 4,
        0 <= row < 7,
    ensures
        ({
            let drawn = drawn_row(letter, row);
            glyph_row(letter, row) == 16 * weight(drawn, 0) + 8 * weight(drawn, 1) + 4 * weight(
                drawn,
                2,
            ) + 2 * weight(drawn, 3) + weight(drawn, 4)
        }),
{
    reveal_strlit("####.");
    reveal_strlit("#.#..");
    reveal_strlit("#..#.");
    reveal_strlit("#...#");
    reveal_strlit(".###.");
    reveal_strlit(".####");
    reveal_strlit("#....");
    reveal_strlit("....#");
    reveal_strlit("#####");
    reveal_strlit("..#..");
}

proof fn lemma_bits(bits: u8, b4: u8, b3: u8, b2: u8, b1: u8, b0: u8)
    requires
        b4 <= 1,
        b3 <= 1,
        b2 <= 1,
        b1 <= 1,
        b0 <= 1,
        bits == 16 * b4 + 8 * b3 + 4 * b2 + 2 * b1 + b0,
    ensures
        bits & (1u8 << 4u8) != 0 <==> b4 == 1,
        bits & (1u8 << 3u8) != 0 <==> b3 == 1,
        bits & (1u8 << 2u8) != 0 <==> b2 == 1,
        bits & (1u8 << 1u8) != 0 <==> b1 == 1,
        bits & (1u8 << 0u8) != 0 <==> b0 == 1,
{
    let sum: u8 = (16 * b4 + 8 * b3 + 4 * b2 + 2 * b1 + b0) as u8;
    assert(sum == bits);
    assert((sum & (1u8 << 4u8) != 0 <==> b4 == 1) && (sum & (1u8 << 3u8) != 0 <==> b3 == 1) && (sum
        & (1u8 << 2u8) != 0 <==> b2 == 1) && (sum & (1u8 << 1u8) != 0 <==> b1 == 1) && (sum & (1u8
        << 0u8) != 0 <==> b0 == 1)) by (bit_vector)
        requires
            b4 <= 1,
            b3 <= 1,
            b2 <= 1,
            b1 <= 1,
            b0 <= 1,
            sum == (16 * b4 + 8 * b3 + 4 * b2 + 2 * b1 + b0) as u8,
    ;
}

/// The label reads `RUST`: each dot of a drawn letter is a square of six by six,
/// the letters are 36 lines apart, and they begin six lines from the left and
/// eleven dots from the top.
pub proof fn law_label_reads_rust(letter: int, row: int, column: int, dx: int, dy: int)
    requires
        0 <= letter < 4,
        0 <= row < 7,
        0 <= column < 5,
        0 <= dx < 6,
        0 <= dy < 6,
    ensures
        ink(6 + 36 * letter + 6 * column + dx, 11 + 6 * row + dy) <==> drawn_row(
            letter,
            row,
        )[column] == '#',
{
    let x = 6 + 36 * letter + 6 * column + dx;
    let y = 11 + 6 * row + dy;
    let drawn = drawn_row(letter, row);
    assert((x - 6) / 36 == letter);
    assert((x - 6) % 36 == 6 * column + dx);
    assert((6 * column + dx) / 6 == column);
    assert((y - 11) / 6 == row);
    lemma_drawn_rows(letter, row);
    lemma_bits(
        glyph_row(letter, row),
        weight(drawn, 0) as u8,
        weight(drawn, 1) as u8,
        weight(drawn, 2) as u8,
        weight(drawn, 3) as u8,
        weight(drawn, 4) as u8,
    );
}

/// Nothing is black outside the letters: not in the margins, and not in the six
/// lines behind each letter.
pub proof fn law_label_is_white_around_letters(x: int, y: int)
    requires
        x < 6 || x >= 150 || (x - 6) % 36 >= 30 || y < 11 || y >= 53,
    ensures
        !ink(x, y),
{
}

/// The dots of a line from the top down are the bits of its bytes from the fifth
/// to the twelfth, the highest bit of each first. The others are white.
pub proof fn law_label_dots_on_the_wire(line: Seq<u8>, x: int, y: int)
    requires
        shows(line, x),
        0 <= y < 64,
    ensures
        line.len() == 16,
        line[4 + y / 8] & (1u8 << ((7 - y % 8) as u8)) != 0 <==> ink(x, y),
        forall|k: int| 0 <= k < 4 || 12 <= k < 16 ==> line[k] == 0,
{
    assert(wire_dot(line, wire_of(y)) == ink(x, y));
    assert(15 - (95 - y) / 8 == 4 + y / 8);
    assert((95 - y) % 8 == 7 - y % 8);
}

/// The program takes its task and its address from its arguments. A status is
/// reported as often as asked, and once without a word on it; a label is printed
/// once.
pub proof fn law_sample_is_requested_by_arguments(
    args: Seq<Seq<char>>,
    repeat: Option<Result<usize, Seq<char>>>,
)
    ensures
        match requested(args, repeat) {
            Ok(request) => {
                &&& args.len() >= 2
                &&& request.address == args[1]
                &&& request.print ==> args[0] == "print"@ && request.repeat == 1
                &&& !request.print ==> args[0] == "status"@ && request.repeat >= 1
                &&& repeat is None ==> request.repeat == 1
                &&& repeat matches Some(r) ==> r == Ok::<usize, Seq<char>>(request.repeat)
            },
            Err(text) => if args.len() < 2 || (args[0] != "status"@ && args[0] != "print"@) {
                text == "Usage: bluetooth status|print ADDRESS [REPEAT]"@
            } else {
                match repeat {
                    None => false,
                    Some(Err(problem)) => text == problem,
                    Some(Ok(n)) => {
                        &&& n == 0 || (n > 1 && args[0] == "print"@)
                        &&& text == "Use positive repetitions; print is limited to one label"@
                    },
                }
            },
        },
{
    reveal_strlit("status");
    reveal_strlit("print");
    assert("status"@.len() == 6);
    assert("print"@.len() == 5);
}

} // verus!
