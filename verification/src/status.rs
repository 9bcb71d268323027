//! The 32-byte status report of a printer.

use vstd::prelude::*;

verus! {

/// Size of a status report in bytes.
pub const STATUS_PACKET_SIZE: usize = 32;

/// A decoded status report.
#[derive(Debug, Clone, Copy, PartialEq, Eq, Structural)]
pub struct PrinterStatus {
    pub print_head_mark: u8,
    pub size: u8,
    pub brother_code: u8,
    pub series_code: u8,
    pub model_code: u8,
    pub error_info_1: u8,
    pub error_info_2: u8,
    pub media_width: u8,
    pub media_type: u8,
    pub media_length: u8,
    pub status_type: u8,
    pub phase_type: u8,
    pub phase_number_hi: u8,
    pub phase_number_lo: u8,
}

/// The report that the first 32 bytes of `bytes` spell out.
pub open spec fn decode(bytes: Seq<u8>) -> PrinterStatus
    recommends
        bytes.len() >= STATUS_PACKET_SIZE,
{
    PrinterStatus {
        print_head_mark: bytes[0],
        size: bytes[1],
        brother_code: bytes[2],
        series_code: bytes[3],
        model_code: bytes[4],
        error_info_1: bytes[8],
        error_info_2: bytes[9],
        media_width: bytes[10],
        media_type: bytes[11],
        media_length: bytes[17],
        status_type: bytes[18],
        phase_type: bytes[19],
        phase_number_hi: bytes[20],
        phase_number_lo: bytes[21],
    }
}

/// The error conditions of the first error byte, lowest bit first.
pub open spec fn first_byte_conditions() -> Seq<(u8, Seq<char>)> {
    seq![
        (0x01u8, "No media"@),
        (0x04u8, "Cutter jam"@),
        (0x08u8, "Weak batteries"@),
        (0x40u8, "High-voltage adapter"@),
    ]
}

/// The error conditions of the second error byte, lowest bit first.
pub open spec fn second_byte_conditions() -> Seq<(u8, Seq<char>)> {
    seq![(0x01u8, "Wrong media"@), (0x10u8, "Cover open"@), (0x20u8, "Overheating"@)]
}

/// `text` with `name` added to the list it holds, if the bit is set.
pub open spec fn with_condition(text: Seq<char>, info: u8, bit: u8, name: Seq<char>) -> Seq<char> {
    if info & bit == 0 {
        text
    } else if text.len() == 0 {
        name
    } else {
        text + ", "@ + name
    }
}

/// `text` with every condition of `conditions` added whose bit is set.
pub open spec fn with_conditions(
    text: Seq<char>,
    info: u8,
    conditions: Seq<(u8, Seq<char>)>,
) -> Seq<char>
    decreases conditions.len(),
{
    if conditions.len() == 0 {
        text
    } else {
        with_condition(
            with_conditions(text, info, conditions.drop_last()),
            info,
            conditions.last().0,
            conditions.last().1,
        )
    }
}

fn add_condition(text: &mut String, info: u8, bit: u8, name: &str)
    ensures
        final(text)@ == with_condition(old(text)@, info, bit, name@),
{
    if info & bit != 0 {
        if !text.as_str().is_empty() {
            text.append(", ");
        }
        text.append(name);
        proof {
            if old(text)@.len() == 0 {
                assert(text@ =~= name@);
            }
        }
    }
}

impl PrinterStatus {
    /// Whether the report names an error.
    pub open spec fn faulty(self) -> bool {
        self.error_info_1 != 0 || self.error_info_2 != 0
    }

    /// The named error conditions, separated by commas.
    pub open spec fn conditions(self) -> Seq<char> {
        with_conditions(
            with_conditions(Seq::empty(), self.error_info_1, first_byte_conditions()),
            self.error_info_2,
            second_byte_conditions(),
        )
    }

    /// The error of the report in words.
    pub open spec fn description(self) -> Seq<char> {
        if !self.faulty() {
            "No error"@
        } else if self.conditions().len() == 0 {
            "Unknown error"@
        } else {
            self.conditions()
        }
    }

    /// Whether the printer announces that it can receive data.
    pub open spec fn receptive(self) -> bool {
        self.status_type == 0x06 && self.phase_type == 0x00
    }

    /// The kind of the loaded media in words.
    pub open spec fn media_name(self) -> Seq<char> {
        if self.media_type == 0x00 {
            "No media"@
        } else if self.media_type == 0x01 {
            "Laminated tape"@
        } else if self.media_type == 0x03 {
            "Non-laminated tape"@
        } else if self.media_type == 0x11 {
            "Heat-shrink tube"@
        } else if self.media_type == 0xff {
            "Incompatible tape"@
        } else {
            "Unknown media"@
        }
    }

    /// Decode a report, if there are enough bytes for one.
    pub fn from_bytes(bytes: &[u8]) -> (r: Option<PrinterStatus>)
        ensures
            r == if bytes@.len() >= STATUS_PACKET_SIZE {
                Some(decode(bytes@))
            } else {
                None
            },
            r is Some <==> bytes@.len() >= 32,
            r matches Some(status) ==> spelled_out(status, bytes@),
    {
        if bytes.len() < STATUS_PACKET_SIZE {
            return None;
        }
        Some(
            PrinterStatus {
                print_head_mark: bytes[0],
                size: bytes[1],
                brother_code: bytes[2],
                series_code: bytes[3],
                model_code: bytes[4],
                error_info_1: bytes[8],
                error_info_2: bytes[9],
                media_width: bytes[10],
                media_type: bytes[11],
                media_length: bytes[17],
                status_type: bytes[18],
                phase_type: bytes[19],
                phase_number_hi: bytes[20],
                phase_number_lo: bytes[21],
            },
        )
    }

    /// Whether the report names an error.
    pub fn has_error(&self) -> (r: bool)
        ensures
            r == self.faulty(),
            r <==> !(self.error_info_1 == 0 && self.error_info_2 == 0),
    {
        self.error_info_1 != 0 || self.error_info_2 != 0
    }

    /// Describe the error of the report.
    pub fn error_description(&self) -> (r: String)
        ensures
            r@ == self.description(),
    {
        if !self.has_error() {
            return "No error".to_string();
        }
        let mut text: String = String::new();
        add_condition(&mut text, self.error_info_1, 0x01, "No media");
        add_condition(&mut text, self.error_info_1, 0x04, "Cutter jam");
        add_condition(&mut text, self.error_info_1, 0x08, "Weak batteries");
        add_condition(&mut text, self.error_info_1, 0x40, "High-voltage adapter");
        proof {
            reveal_with_fuel(with_conditions, 5);
            let c = first_byte_conditions();
            assert(c.drop_last().drop_last().drop_last().drop_last().len() == 0);
            assert(text@ =~= with_conditions(Seq::empty(), self.error_info_1, c));
        }
        add_condition(&mut text, self.error_info_2, 0x01, "Wrong media");
        add_condition(&mut text, self.error_info_2, 0x10, "Cover open");
        add_condition(&mut text, self.error_info_2, 0x20, "Overheating");
        proof {
            reveal_with_fuel(with_conditions, 4);
            assert(text@ =~= self.conditions());
        }
        if text.as_str().is_empty() {
            "Unknown error".to_string()
        } else {
            text
        }
    }

    /// Whether the printer announces that it can receive data.
    pub fn is_waiting_to_receive(&self) -> (r: bool)
        ensures
            r == self.receptive(),
            r <==> self.status_type == 6 && self.phase_type == 0,
    {
        self.status_type == 0x06 && self.phase_type == 0x00
    }

    /// Name the kind of the loaded media.
    pub fn media_type_name(&self) -> (r: &'static str)
        ensures
            r@ == self.media_name(),
    {
        match self.media_type {
            0x00 => "No media",
            0x01 => "Laminated tape",
            0x03 => "Non-laminated tape",
            0x11 => "Heat-shrink tube",
            0xff => "Incompatible tape",
            _ => "Unknown media",
        }
    }
}

/// Whether each field of a report is the byte at its place.
pub open spec fn spelled_out(status: PrinterStatus, bytes: Seq<u8>) -> bool {
    &&& bytes[0] == status.print_head_mark
    &&& bytes[1] == status.size
    &&& bytes[2] == status.brother_code
    &&& bytes[3] == status.series_code
    &&& bytes[4] == status.model_code
    &&& bytes[8] == status.error_info_1
    &&& bytes[9] == status.error_info_2
    &&& bytes[10] == status.media_width
    &&& bytes[11] == status.media_type
    &&& bytes[17] == status.media_length
    &&& bytes[18] == status.status_type
    &&& bytes[19] == status.phase_type
    &&& bytes[20] == status.phase_number_hi
    &&& bytes[21] == status.phase_number_lo
}

/// A report is what its 32 bytes spell out, each field the byte at its place.
/// Bytes that agree at the places that matter are the same report, and any other
/// report differs at one of them.
pub proof fn law_report_is_spelled_out(a: Seq<u8>, b: Seq<u8>)
    requires
        a.len() >= 32,
        b.len() >= 32,
    ensures
        spelled_out(decode(a), a),
        spelled_out(decode(a), b) <==> decode(a) == decode(b),
        decode(a) == decode(b) <==> a.subrange(0, 5) == b.subrange(0, 5) && a.subrange(8, 12)
            == b.subrange(8, 12) && a.subrange(17, 22) == b.subrange(17, 22),
{
    let x = (a.subrange(0, 5), a.subrange(8, 12), a.subrange(17, 22));
    let y = (b.subrange(0, 5), b.subrange(8, 12), b.subrange(17, 22));
    if decode(a) == decode(b) {
        assert(x.0 =~= y.0);
        assert(x.1 =~= y.1);
        assert(x.2 =~= y.2);
    } else if x == y {
        assert(x.0[0] == a[0] && x.0[1] == a[1] && x.0[2] == a[2]);
        assert(x.0[3] == a[3] && x.0[4] == a[4]);
        assert(x.1[0] == a[8] && x.1[1] == a[9] && x.1[2] == a[10] && x.1[3] == a[11]);
        assert(x.2[0] == a[17] && x.2[1] == a[18] && x.2[2] == a[19]);
        assert(x.2[3] == a[20] && x.2[4] == a[21]);
    }
}

/// A report is an error as soon as a bit of the two error bytes is set.
pub proof fn law_any_error_bit_is_an_error(status: PrinterStatus)
    ensures
        status.faulty() <==> status.error_info_1 | status.error_info_2 != 0,
        !status.faulty() <==> status.description() == "No error"@ && status.error_info_1 == 0
            && status.error_info_2 == 0,
{
    let (a, b) = (status.error_info_1, status.error_info_2);
    assert((a | b != 0) <==> (a != 0 || b != 0)) by (bit_vector);
}

/// Whether `name` stands in `text` from `at` on, behind a comma unless it is the
/// first.
pub open spec fn stands_at(text: Seq<char>, at: int, name: Seq<char>) -> bool {
    &&& 0 <= at
    &&& at + name.len() <= text.len()
    &&& text.subrange(at, at + name.len()) == name
    &&& at > 0 ==> at >= 2 && text.subrange(at - 2, at) == ", "@
}

/// Where the next name stands, behind one of `length` characters that may be
/// there.
pub open spec fn next_place(at: int, there: bool, length: int) -> int {
    if there {
        at + length + 2
    } else {
        at
    }
}

/// Where a name that is added to `text` stands.
spec fn end_place(text: Seq<char>) -> int {
    if text.len() == 0 {
        0
    } else {
        text.len() as int + 2
    }
}

spec fn begins(text: Seq<char>, longer: Seq<char>) -> bool {
    text.is_prefix_of(longer)
}

proof fn lemma_adds(text: Seq<char>, info: u8, bit: u8, name: Seq<char>, at: int)
    requires
        at == end_place(text),
        name.len() > 0,
    ensures
        ({
            let longer = with_condition(text, info, bit, name);
            &&& next_place(at, info & bit != 0, name.len() as int) == end_place(longer)
            &&& info & bit != 0 ==> stands_at(longer, at, name)
            &&& begins(text, longer)
        }),
{
    reveal_strlit(", ");
    let longer = with_condition(text, info, bit, name);
    if info & bit != 0 {
        assert(longer.subrange(at, at + name.len()) =~= name);
        if text.len() > 0 {
            assert(longer.subrange(at - 2, at) =~= ", "@);
        }
    }
}

proof fn lemma_prefixes(a: Seq<char>, b: Seq<char>, c: Seq<char>)
    requires
        begins(a, b),
        begins(b, c),
    ensures
        begins(a, c),
{
}

proof fn lemma_stays(text: Seq<char>, longer: Seq<char>, at: int, name: Seq<char>)
    requires
        begins(text, longer),
    ensures
        stands_at(text, at, name) ==> stands_at(longer, at, name),
{
    if stands_at(text, at, name) {
        assert(longer.subrange(at, at + name.len()) =~= text.subrange(at, at + name.len()));
        if at > 0 {
            assert(longer.subrange(at - 2, at) =~= text.subrange(at - 2, at));
        }
    }
}

/// The conditions of a report, one after the other.
spec fn seven_conditions(
    a: u8,
    b: u8,
    n1: Seq<char>,
    n2: Seq<char>,
    n3: Seq<char>,
    n4: Seq<char>,
    n5: Seq<char>,
    n6: Seq<char>,
    n7: Seq<char>,
) -> Seq<char> {
    let t1 = with_condition(Seq::empty(), a, 0x01, n1);
    let t2 = with_condition(t1, a, 0x04, n2);
    let t3 = with_condition(t2, a, 0x08, n3);
    let t4 = with_condition(t3, a, 0x40, n4);
    let t5 = with_condition(t4, b, 0x01, n5);
    let t6 = with_condition(t5, b, 0x10, n6);
    with_condition(t6, b, 0x20, n7)
}

proof fn lemma_conditions(status: PrinterStatus)
    ensures
        status.conditions() == seven_conditions(
            status.error_info_1,
            status.error_info_2,
            "No media"@,
            "Cutter jam"@,
            "Weak batteries"@,
            "High-voltage adapter"@,
            "Wrong media"@,
            "Cover open"@,
            "Overheating"@,
        ),
{
    reveal_with_fuel(with_conditions, 5);
    let c = first_byte_conditions();
    assert(c.drop_last().drop_last().drop_last().drop_last().len() == 0);
    let d = second_byte_conditions();
    assert(d.drop_last().drop_last().drop_last().len() == 0);
}

proof fn lemma_names_stand(
    a: u8,
    b: u8,
    n1: Seq<char>,
    n2: Seq<char>,
    n3: Seq<char>,
    n4: Seq<char>,
    n5: Seq<char>,
    n6: Seq<char>,
    n7: Seq<char>,
)
    requires
        n1.len() > 0,
        n2.len() > 0,
        n3.len() > 0,
        n4.len() > 0,
        n5.len() > 0,
        n6.len() > 0,
        n7.len() > 0,
    ensures
        ({
            let text = seven_conditions(a, b, n1, n2, n3, n4, n5, n6, n7);
            let p1 = next_place(0, a & 0x01 != 0, n1.len() as int);
            let p2 = next_place(p1, a & 0x04 != 0, n2.len() as int);
            let p3 = next_place(p2, a & 0x08 != 0, n3.len() as int);
            let p4 = next_place(p3, a & 0x40 != 0, n4.len() as int);
            let p5 = next_place(p4, b & 0x01 != 0, n5.len() as int);
            let p6 = next_place(p5, b & 0x10 != 0, n6.len() as int);
            let p7 = next_place(p6, b & 0x20 != 0, n7.len() as int);
            &&& a & 0x01 != 0 ==> stands_at(text, 0, n1)
            &&& a & 0x04 != 0 ==> stands_at(text, p1, n2)
            &&& a & 0x08 != 0 ==> stands_at(text, p2, n3)
            &&& a & 0x40 != 0 ==> stands_at(text, p3, n4)
            &&& b & 0x01 != 0 ==> stands_at(text, p4, n5)
            &&& b & 0x10 != 0 ==> stands_at(text, p5, n6)
            &&& b & 0x20 != 0 ==> stands_at(text, p6, n7)
            &&& p7 > 0 ==> text.len() == p7 - 2
            &&& p7 == 0 ==> text.len() == 0
        }),
{
    let t0 = Seq::<char>::empty();
    let t1 = with_condition(t0, a, 0x01, n1);
    let t2 = with_condition(t1, a, 0x04, n2);
    let t3 = with_condition(t2, a, 0x08, n3);
    let t4 = with_condition(t3, a, 0x40, n4);
    let t5 = with_condition(t4, b, 0x01, n5);
    let t6 = with_condition(t5, b, 0x10, n6);
    let t7 = with_condition(t6, b, 0x20, n7);
    let p1 = next_place(0, a & 0x01 != 0, n1.len() as int);
    let p2 = next_place(p1, a & 0x04 != 0, n2.len() as int);
    let p3 = next_place(p2, a & 0x08 != 0, n3.len() as int);
    let p4 = next_place(p3, a & 0x40 != 0, n4.len() as int);
    let p5 = next_place(p4, b & 0x01 != 0, n5.len() as int);
    let p6 = next_place(p5, b & 0x10 != 0, n6.len() as int);
    lemma_adds(t0, a, 0x01, n1, 0);
    lemma_adds(t1, a, 0x04, n2, p1);
    lemma_adds(t2, a, 0x08, n3, p2);
    lemma_adds(t3, a, 0x40, n4, p3);
    lemma_adds(t4, b, 0x01, n5, p4);
    lemma_adds(t5, b, 0x10, n6, p5);
    lemma_adds(t6, b, 0x20, n7, p6);
    lemma_prefixes(t5, t6, t7);
    lemma_prefixes(t4, t5, t7);
    lemma_prefixes(t3, t4, t7);
    lemma_prefixes(t2, t3, t7);
    lemma_prefixes(t1, t2, t7);
    lemma_stays(t1, t7, 0, n1);
    lemma_stays(t2, t7, p1, n2);
    lemma_stays(t3, t7, p2, n3);
    lemma_stays(t4, t7, p3, n4);
    lemma_stays(t5, t7, p4, n5);
    lemma_stays(t6, t7, p5, n6);
    assert(t7 == seven_conditions(a, b, n1, n2, n3, n4, n5, n6, n7));
}

/// The description of an error lists each condition whose bit is set, in the
/// order of the bits, with a comma between two of them and nothing else. An error
/// without such a bit is unknown.
pub proof fn law_description_lists_conditions(status: PrinterStatus)
    requires
        status.faulty(),
    ensures
        ({
            let (a, b) = (status.error_info_1, status.error_info_2);
            let text = status.description();
            let p1 = next_place(0, a & 0x01 != 0, 8);
            let p2 = next_place(p1, a & 0x04 != 0, 10);
            let p3 = next_place(p2, a & 0x08 != 0, 14);
            let p4 = next_place(p3, a & 0x40 != 0, 20);
            let p5 = next_place(p4, b & 0x01 != 0, 11);
            let p6 = next_place(p5, b & 0x10 != 0, 10);
            let p7 = next_place(p6, b & 0x20 != 0, 11);
            &&& a & 0x01 != 0 ==> stands_at(text, 0, "No media"@)
            &&& a & 0x04 != 0 ==> stands_at(text, p1, "Cutter jam"@)
            &&& a & 0x08 != 0 ==> stands_at(text, p2, "Weak batteries"@)
            &&& a & 0x40 != 0 ==> stands_at(text, p3, "High-voltage adapter"@)
            &&& b & 0x01 != 0 ==> stands_at(text, p4, "Wrong media"@)
            &&& b & 0x10 != 0 ==> stands_at(text, p5, "Cover open"@)
            &&& b & 0x20 != 0 ==> stands_at(text, p6, "Overheating"@)
            &&& p7 > 0 ==> text.len() == p7 - 2
            &&& p7 == 0 ==> text == "Unknown error"@
        }),
{
    reveal_strlit("No media");
    reveal_strlit("Cutter jam");
    reveal_strlit("Weak batteries");
    reveal_strlit("High-voltage adapter");
    reveal_strlit("Wrong media");
    reveal_strlit("Cover open");
    reveal_strlit("Overheating");
    lemma_conditions(status);
    lemma_names_stand(
        status.error_info_1,
        status.error_info_2,
        "No media"@,
        "Cutter jam"@,
        "Weak batteries"@,
        "High-voltage adapter"@,
        "Wrong media"@,
        "Cover open"@,
        "Overheating"@,
    );
}

/// The kinds of media have names of their own: two reports are given the same
/// name only for the same kind, or both for kinds without one.
pub proof fn law_media_names_tell_kinds_apart(a: PrinterStatus, b: PrinterStatus)
    ensures
        ({
            let named = |kind: u8|
                kind == 0x00 || kind == 0x01 || kind == 0x03 || kind == 0x11 || kind == 0xff;
            &&& a.media_name() == b.media_name() <==> a.media_type == b.media_type || (!named(
                a.media_type,
            ) && !named(b.media_type))
            &&& a.media_type == 0x00 ==> a.media_name() == "No media"@
            &&& a.media_type == 0x01 ==> a.media_name() == "Laminated tape"@
            &&& a.media_type == 0x03 ==> a.media_name() == "Non-laminated tape"@
            &&& a.media_type == 0x11 ==> a.media_name() == "Heat-shrink tube"@
            &&& a.media_type == 0xff ==> a.media_name() == "Incompatible tape"@
            &&& !named(a.media_type) ==> a.media_name() == "Unknown media"@
        }),
{
    reveal_strlit("No media");
    reveal_strlit("Laminated tape");
    reveal_strlit("Non-laminated tape");
    reveal_strlit("Heat-shrink tube");
    reveal_strlit("Incompatible tape");
    reveal_strlit("Unknown media");
    assert("No media"@.len() == 8);
    assert("Laminated tape"@.len() == 14);
    assert("Non-laminated tape"@.len() == 18);
    assert("Heat-shrink tube"@.len() == 16);
    assert("Incompatible tape"@.len() == 17);
    assert("Unknown media"@.len() == 13);
}

} // verus!
