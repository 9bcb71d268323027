//! Bluetooth addresses and the printers paired with this computer.

use vstd::prelude::*;
use vstd::multiset::Multiset;

use crate::error::{ErrorModel, PtouchError};
use crate::text::{
    characters, first_at, hex_digit_char, is_hex_digit, lemma_first_at, lemma_first_at_bounds,
    split, split_text, texts, to_upper, upper,
};

verus! {

/// A Bluetooth error with the given message.
pub fn bt(message: &str) -> (r: PtouchError)
    ensures
        r@ == ErrorModel::Bluetooth(message@),
{
    PtouchError::Bluetooth(message.to_string())
}

// ---------------------------------------------------------------------
// Addresses
// ---------------------------------------------------------------------

/// Whether a text is two hexadecimal digits.
pub open spec fn hex_pair(s: Seq<char>) -> bool {
    s.len() == 2 && hex_digit_char(s[0]) && hex_digit_char(s[1])
}

/// Whether a text is a Bluetooth address: six pairs of hexadecimal digits with
/// colons between them.
pub open spec fn address(s: Seq<char>) -> bool {
    let parts = split(s, ':');
    parts.len() == 6 && forall|i: int| 0 <= i < 6 ==> hex_pair(#[trigger] parts[i])
}

/// Whether a text is a Bluetooth address such as `AA:BB:CC:DD:EE:FF`.
pub fn is_address(text: &str) -> (r: bool)
    ensures
        r == address(text@),
{
    let parts: Vec<String> = split_text(text, ':');
    let ghost all = split(text@, ':');
    assert(all.len() == parts@.len());
    if parts.len() != 6 {
        return false;
    }
    let mut i: usize = 0;
    while i < 6
        invariant
            i <= 6,
            parts@.len() == 6,
            all == split(text@, ':'),
            texts(parts@) == all,
            forall|k: int| 0 <= k < i ==> hex_pair(#[trigger] all[k]),
        decreases 6 - i,
    {
        let part: Vec<char> = characters(parts[i].as_str());
        assert(part@ == all[i as int]);
        if part.len() != 2 || !is_hex_digit(part[0]) || !is_hex_digit(part[1]) {
            assert(!hex_pair(all[i as int]));
            return false;
        }
        i = i + 1;
    }
    true
}

/// A character of a normalized address: a colon for a dash, and upper case.
pub open spec fn normal_char(c: char) -> char {
    if c == '-' {
        ':'
    } else {
        upper(c)
    }
}

/// An address with colons for dashes and in upper case.
pub open spec fn normalized(s: Seq<char>) -> Seq<char> {
    s.map_values(|c: char| normal_char(c))
}

/// Write an address with colons and in upper case, as it is typed in.
pub fn normalize_address(address: &str) -> (out: String)
    ensures
        out@ == normalized(address@),
{
    let chars: Vec<char> = characters(address);
    let mut out: String = String::new();
    let mut i: usize = 0;
    while i < chars.len()
        invariant
            i <= chars.len(),
            chars@ == address@,
            out@ == normalized(address@).take(i as int),
        decreases chars.len() - i,
    {
        let c: char = chars[i];
        if c == '-' {
            out.push(':');
        } else {
            out.push(to_upper(c));
        }
        assert(out@ =~= normalized(address@).take(i + 1));
        i = i + 1;
    }
    assert(normalized(address@).take(i as int) =~= normalized(address@));
    out
}

/// Normalizing a normalized address changes nothing.
pub proof fn law_normalizing_is_idempotent(s: Seq<char>)
    ensures
        normalized(normalized(s)) == normalized(s),
{
    assert(normalized(normalized(s)) =~= normalized(s));
}

/// The shape of an address with the given separator.
pub open spec fn six_pairs(s: Seq<char>, separator: char) -> bool {
    &&& s.len() == 17
    &&& forall|i: int|
        0 <= i < 17 ==> if i % 3 == 2 {
            #[trigger] s[i] == separator
        } else {
            hex_digit_char(s[i])
        }
}

/// A text of six pairs with colons is split into these pairs.
proof fn lemma_six_pairs_split(s: Seq<char>, n: int)
    requires
        1 <= n <= 6,
        s.len() == 3 * n - 1,
        forall|i: int|
            0 <= i < s.len() ==> if i % 3 == 2 {
                #[trigger] s[i] == ':'
            } else {
                hex_digit_char(s[i])
            },
    ensures
        split(s, ':').len() == n,
        forall|i: int| 0 <= i < n ==> hex_pair(#[trigger] split(s, ':')[i]),
    decreases n,
{
    assert(s[0] != ':' && s[1] != ':');
    lemma_first_at(s, ':', 2);
    if n > 1 {
        let rest = s.skip(3);
        assert forall|i: int| 0 <= i < rest.len() implies if i % 3 == 2 {
            #[trigger] rest[i] == ':'
        } else {
            hex_digit_char(rest[i])
        } by {
            assert(rest[i] == s[i + 3]);
            assert((i + 3) % 3 == i % 3);
        }
        lemma_six_pairs_split(rest, n - 1);
        assert(split(s, ':') == seq![s.take(2)] + split(rest, ':'));
        assert forall|i: int| 0 <= i < n implies hex_pair(#[trigger] split(s, ':')[i]) by {
            if i > 0 {
                assert(split(s, ':')[i] == split(rest, ':')[i - 1]);
            }
        }
    } else {
        assert(split(s, ':') == seq![s]);
    }
}

/// An address as the system writes it, with dashes and in either case, becomes
/// one that can be opened, and an address with colons stays one.
pub proof fn law_normalized_address_is_valid(s: Seq<char>)
    requires
        six_pairs(s, '-') || six_pairs(s, ':'),
    ensures
        address(normalized(s)),
{
    let n = normalized(s);
    assert forall|i: int| 0 <= i < n.len() implies if i % 3 == 2 {
        #[trigger] n[i] == ':'
    } else {
        hex_digit_char(n[i])
    } by {
        assert(n[i] == normal_char(s[i]));
        assert(hex_digit_char(s[i]) || s[i] == '-' || s[i] == ':');
    }
    lemma_six_pairs_split(n, 6);
}

// ---------------------------------------------------------------------
// Order of texts
// ---------------------------------------------------------------------

/// Whether `a` comes before `b` or is the same, by code points.
pub open spec fn text_le(a: Seq<char>, b: Seq<char>) -> bool
    decreases a.len(),
{
    if a.len() == 0 {
        true
    } else if b.len() == 0 {
        false
    } else if a[0] != b[0] {
        a[0] < b[0]
    } else {
        text_le(a.drop_first(), b.drop_first())
    }
}

proof fn lemma_text_le_total(a: Seq<char>, b: Seq<char>)
    ensures
        text_le(a, b) || text_le(b, a),
        text_le(a, b) && text_le(b, a) ==> a == b,
    decreases a.len(),
{
    if a.len() > 0 && b.len() > 0 {
        lemma_text_le_total(a.drop_first(), b.drop_first());
        if a[0] == b[0] && a.drop_first() == b.drop_first() {
            assert(a =~= seq![a[0]] + a.drop_first());
            assert(b =~= seq![b[0]] + b.drop_first());
        }
    } else if a.len() == 0 && b.len() == 0 {
        assert(a =~= b);
    }
}

proof fn lemma_text_le_transitive(a: Seq<char>, b: Seq<char>, c: Seq<char>)
    requires
        text_le(a, b),
        text_le(b, c),
    ensures
        text_le(a, c),
    decreases a.len(),
{
    if a.len() > 0 && a[0] == b[0] && b[0] == c[0] {
        lemma_text_le_transitive(a.drop_first(), b.drop_first(), c.drop_first());
    }
}

/// Whether `a` comes before `b` or is the same, by code points.
fn precedes(a: &str, b: &str) -> (r: bool)
    ensures
        r == text_le(a@, b@),
{
    let left: Vec<char> = characters(a);
    let right: Vec<char> = characters(b);
    let mut i: usize = 0;
    assert(left@.skip(0) =~= left@);
    assert(right@.skip(0) =~= right@);
    while i < left.len()
        invariant
            i <= left.len(),
            i <= right.len(),
            left@ == a@,
            right@ == b@,
            text_le(a@, b@) == text_le(left@.skip(i as int), right@.skip(i as int)),
        decreases left.len() - i,
    {
        if i >= right.len() {
            return false;
        }
        if left[i] != right[i] {
            return left[i] < right[i];
        }
        assert(left@.skip(i as int).drop_first() =~= left@.skip(i + 1));
        assert(right@.skip(i as int).drop_first() =~= right@.skip(i + 1));
        i = i + 1;
    }
    true
}

// ---------------------------------------------------------------------
// Paired devices
// ---------------------------------------------------------------------

/// A device paired with this computer.
#[derive(Debug, Clone, PartialEq, Eq)]
pub struct PairedDevice {
    pub name: String,
    /// The address, normalized.
    pub address: String,
}

/// The value of a [`PairedDevice`].
pub struct PairedModel {
    pub name: Seq<char>,
    pub address: Seq<char>,
}

impl View for PairedDevice {
    type V = PairedModel;

    open spec fn view(&self) -> PairedModel {
        PairedModel { name: self.name@, address: self.address@ }
    }
}

/// The values of a list of devices.
pub open spec fn devices(list: Seq<PairedDevice>) -> Seq<PairedModel> {
    list.map_values(|d: PairedDevice| d@)
}

/// Order by name, and by address under one name.
pub open spec fn device_le(a: PairedModel, b: PairedModel) -> bool {
    if a.name == b.name {
        text_le(a.address, b.address)
    } else {
        text_le(a.name, b.name)
    }
}

/// Whether devices stand in order.
pub open spec fn in_order(list: Seq<PairedModel>) -> bool {
    forall|i: int, j: int| 0 <= i <= j < list.len() ==> device_le(list[i], list[j])
}

/// A device as the system lists it: its name and its address, as far as known.
pub struct Listed {
    pub name: Option<String>,
    pub address: Option<String>,
}

/// The device that an entry stands for: without an address there is none, and
/// without a name the address takes its place.
pub open spec fn known(entry: Listed) -> Option<PairedModel> {
    match entry.address {
        None => None,
        Some(raw) => Some(
            PairedModel {
                name: match entry.name {
                    Some(name) => name@,
                    None => normalized(raw@),
                },
                address: normalized(raw@),
            },
        ),
    }
}

/// The devices that the entries stand for, in the order of the entries.
pub open spec fn known_devices(entries: Seq<Listed>) -> Seq<PairedModel>
    decreases entries.len(),
{
    if entries.len() == 0 {
        Seq::empty()
    } else {
        let before = known_devices(entries.drop_last());
        match known(entries.last()) {
            Some(device) => before.push(device),
            None => before,
        }
    }
}

proof fn lemma_device_le(a: PairedModel, b: PairedModel, c: PairedModel)
    ensures
        device_le(a, a),
        device_le(a, b) || device_le(b, a),
        device_le(a, b) && device_le(b, a) ==> a == b,
        device_le(a, b) && device_le(b, c) ==> device_le(a, c),
{
    lemma_text_le_total(a.name, b.name);
    lemma_text_le_total(b.name, c.name);
    lemma_text_le_total(a.name, c.name);
    lemma_text_le_total(a.address, b.address);
    lemma_text_le_total(a.address, a.address);
    if device_le(a, b) && device_le(b, c) {
        if a.name == b.name && b.name == c.name {
            lemma_text_le_transitive(a.address, b.address, c.address);
        } else if a.name != b.name && b.name != c.name {
            lemma_text_le_transitive(a.name, b.name, c.name);
        }
    }
}

fn device_precedes(a: &PairedDevice, b: &PairedDevice) -> (r: bool)
    ensures
        r == device_le(a@, b@),
{
    if a.name == b.name {
        precedes(a.address.as_str(), b.address.as_str())
    } else {
        precedes(a.name.as_str(), b.name.as_str())
    }
}

/// Put a device in its place behind those that come before it or are the same.
fn insert_in_order(list: &mut Vec<PairedDevice>, device: PairedDevice)
    requires
        in_order(devices(old(list)@)),
    ensures
        in_order(devices(final(list)@)),
        devices(final(list)@).to_multiset() == devices(old(list)@).to_multiset().insert(device@),
{
    let mut at: usize = 0;
    let ghost before = devices(list@);
    while at < list.len() && device_precedes(&list[at], &device)
        invariant
            at <= list.len(),
            before == devices(list@),
            forall|k: int| 0 <= k < at ==> device_le(#[trigger] before[k], device@),
        decreases list.len() - at,
    {
        assert(before[at as int] == list@[at as int]@);
        at = at + 1;
    }
    proof {
        if at < list.len() {
            assert(before[at as int] == list@[at as int]@);
            lemma_device_le(before[at as int], device@, device@);
        }
    }
    list.insert(at, device);
    proof {
        let after = devices(list@);
        assert(after =~= before.insert(at as int, device@));
        assert forall|i: int, j: int| 0 <= i <= j < after.len() implies device_le(
            after[i],
            after[j],
        ) by {
            lemma_device_le(after[i], after[j], after[j]);
            let i0 = if i < at {
                i
            } else {
                i - 1
            };
            let j0 = if j < at {
                j
            } else {
                j - 1
            };
            if i == at && j > at {
                lemma_device_le(device@, before[at as int], before[j0]);
                assert(device_le(before[at as int], before[j0]));
            } else if i < at && j == at {
                assert(device_le(before[i], device@));
            } else if i != at && j != at {
                assert(after[i] == before[i0]);
                assert(after[j] == before[j0]);
                assert(device_le(before[i0], before[j0]));
            }
        }
        vstd::seq_lib::to_multiset_insert(before, at as int, device@);
    }
}

/// The devices that the entries stand for, in order of name and address.
fn sort_known(entries: Vec<Listed>) -> (out: Vec<PairedDevice>)
    ensures
        in_order(devices(out@)),
        devices(out@).to_multiset() == known_devices(entries@).to_multiset(),
{
    let mut out: Vec<PairedDevice> = Vec::new();
    let mut i: usize = 0;
    proof {
        assert(devices(out@) =~= Seq::empty());
        assert(entries@.take(0) =~= Seq::empty());
    }
    while i < entries.len()
        invariant
            i <= entries.len(),
            in_order(devices(out@)),
            devices(out@).to_multiset() == known_devices(entries@.take(i as int)).to_multiset(),
        decreases entries.len() - i,
    {
        proof {
            assert(entries@.take(i + 1).drop_last() =~= entries@.take(i as int));
            if let Some(device) = known(entries@[i as int]) {
                vstd::seq_lib::to_multiset_build(known_devices(entries@.take(i as int)), device);
            }
        }
        let entry: &Listed = &entries[i];
        if let Some(raw) = &entry.address {
            let address: String = normalize_address(raw.as_str());
            let name: String = match &entry.name {
                Some(name) => name.clone(),
                None => address.clone(),
            };
            insert_in_order(&mut out, PairedDevice { name, address });
        }
        i = i + 1;
    }
    assert(entries@.take(i as int) =~= entries@);
    out
}

/// The devices paired with this computer, in order of name and address, given
/// what the system lists, if it lists anything.
///
/// The system may be asked on the main thread only.
pub fn paired_devices(main_thread: bool, entries: Option<Vec<Listed>>) -> (r: Result<
    Vec<PairedDevice>,
    PtouchError,
>)
    ensures
        match r {
            Ok(list) => {
                &&& main_thread
                &&& in_order(devices(list@))
                &&& devices(list@).to_multiset() == match entries {
                    Some(entries) => known_devices(entries@).to_multiset(),
                    None => Multiset::empty(),
                }
            },
            Err(e) => !main_thread && e@ == ErrorModel::Bluetooth(
                "Native Bluetooth must be queried on the main thread"@,
            ),
        },
{
    if !main_thread {
        return Err(bt("Native Bluetooth must be queried on the main thread"));
    }
    match entries {
        None => {
            let none: Vec<PairedDevice> = Vec::new();
            proof {
                assert(devices(none@) =~= Seq::empty());
                broadcast use vstd::seq_lib::group_to_multiset_ensures;

                assert(devices(none@).to_multiset() =~= Multiset::empty());
            }
            Ok(none)
        },
        Some(entries) => Ok(sort_known(entries)),
    }
}

/// The listing does not depend on the order in which the system lists the
/// devices: two lists of the same devices in order are the same list.
pub proof fn law_listing_is_canonical(a: Seq<PairedModel>, b: Seq<PairedModel>)
    requires
        in_order(a),
        in_order(b),
        a.to_multiset() == b.to_multiset(),
    ensures
        a == b,
    decreases a.len(),
{
    broadcast use vstd::seq_lib::group_to_multiset_ensures;

    assert(a.len() == a.to_multiset().len());
    assert(b.len() == b.to_multiset().len());
    if a.len() > 0 {
        assert(a.to_multiset().count(a[0]) > 0);
        assert(b.to_multiset().count(b[0]) > 0);
        assert(b.contains(a[0]));
        assert(a.contains(b[0]));
        let i = choose|i: int| 0 <= i < b.len() && b[i] == a[0];
        let j = choose|j: int| 0 <= j < a.len() && a[j] == b[0];
        lemma_device_le(a[0], b[0], b[0]);
        assert(device_le(b[0], b[i]));
        assert(device_le(a[0], a[j]));
        assert(a[0] == b[0]);
        vstd::seq_lib::to_multiset_remove(a, 0);
        vstd::seq_lib::to_multiset_remove(b, 0);
        let ra = a.remove(0);
        let rb = b.remove(0);
        assert forall|i: int, j: int| 0 <= i <= j < ra.len() implies device_le(ra[i], ra[j]) by {
            assert(ra[i] == a[i + 1] && ra[j] == a[j + 1]);
        }
        assert forall|i: int, j: int| 0 <= i <= j < rb.len() implies device_le(rb[i], rb[j]) by {
            assert(rb[i] == b[i + 1] && rb[j] == b[j + 1]);
        }
        law_listing_is_canonical(ra, rb);
        assert(a =~= seq![a[0]] + ra);
        assert(b =~= seq![b[0]] + rb);
    } else {
        assert(a =~= b);
    }
}

/// Parts that are pairs of hexadecimal digits, with colons between them.
proof fn lemma_split_is_pairs(s: Seq<char>, n: int)
    requires
        1 <= n <= 6,
        split(s, ':').len() == n,
        forall|i: int| 0 <= i < n ==> hex_pair(#[trigger] split(s, ':')[i]),
    ensures
        s.len() == 3 * n - 1,
        forall|i: int|
            0 <= i < s.len() ==> if i % 3 == 2 {
                #[trigger] s[i] == ':'
            } else {
                hex_digit_char(s[i])
            },
    decreases n,
{
    lemma_first_at_bounds(s, ':');
    let i = first_at(s, ':') as int;
    let parts = split(s, ':');
    assert(hex_pair(parts[0]));
    if i < s.len() {
        let rest = s.skip(i + 1);
        let later = split(rest, ':');
        assert(parts[0] == s.take(i));
        assert(later.len() > 0);
        assert forall|k: int| 0 <= k < n - 1 implies hex_pair(#[trigger] later[k]) by {
            assert(parts[k + 1] == later[k]);
        }
        lemma_split_is_pairs(rest, n - 1);
        assert forall|k: int| 0 <= k < s.len() implies if k % 3 == 2 {
            #[trigger] s[k] == ':'
        } else {
            hex_digit_char(s[k])
        } by {
            if k < 2 {
                assert(s[k] == parts[0][k]);
            } else if k > 2 {
                assert(rest[k - 3] == s[k]);
                assert((k - 3) % 3 == k % 3);
            }
        }
    } else {
        assert(parts[0] == s);
    }
}

/// A text is an address exactly if it is 17 characters of which every third is a
/// colon and every other one a hexadecimal digit.
pub proof fn law_addresses_are_six_pairs(s: Seq<char>)
    ensures
        address(s) <==> s.len() == 17 && (forall|i: int|
            0 <= i < 17 ==> if i == 2 || i == 5 || i == 8 || i == 11 || i == 14 {
                #[trigger] s[i] == ':'
            } else {
                hex_digit_char(s[i])
            }),
{
    if address(s) {
        lemma_split_is_pairs(s, 6);
    }
    if s.len() == 17 && (forall|i: int|
        0 <= i < 17 ==> if i == 2 || i == 5 || i == 8 || i == 11 || i == 14 {
            #[trigger] s[i] == ':'
        } else {
            hex_digit_char(s[i])
        }) {
        lemma_six_pairs_split(s, 6);
    }
}

/// Normalizing goes character by character: a dash becomes a colon, a letter of
/// ASCII its upper case, and everything else stays.
pub proof fn law_normalizing_keeps_digits(s: Seq<char>, i: int)
    requires
        0 <= i < s.len(),
    ensures
        normalized(s).len() == s.len(),
        s[i] == '-' ==> normalized(s)[i] == ':',
        97 <= s[i] as int <= 122 ==> normalized(s)[i] as int == s[i] as int - 32,
        s[i] != '-' && !(97 <= s[i] as int <= 122) ==> normalized(s)[i] == s[i],
{
}

/// Texts are in the order of their first difference, and a text comes before
/// every longer one that begins with it.
pub proof fn law_text_order(a: Seq<char>, b: Seq<char>, i: int)
    requires
        0 <= i <= a.len(),
        i <= b.len(),
        a.take(i) == b.take(i),
    ensures
        i == a.len() ==> text_le(a, b),
        i == b.len() && a.len() > i ==> !text_le(a, b),
        i < a.len() && i < b.len() && a[i] != b[i] ==> text_le(a, b) == ((a[i] as int) < (
        b[i] as int)),
    decreases i,
{
    if i > 0 {
        let (x, y) = (a.drop_first(), b.drop_first());
        assert(a.take(i)[0] == a[0]);
        assert(b.take(i)[0] == b[0]);
        assert forall|k: int| 0 <= k < i - 1 implies x[k] == y[k] by {
            assert(a.take(i)[k + 1] == x[k]);
            assert(b.take(i)[k + 1] == y[k]);
        }
        assert(x.take(i - 1) =~= y.take(i - 1));
        law_text_order(x, y, i - 1);
    }
}

/// Paired devices are listed in the order of their names, and in that of their
/// addresses under one name.
pub proof fn law_devices_are_in_order_of_names(list: Seq<PairedModel>, i: int, j: int)
    requires
        in_order(list),
        0 <= i < j < list.len(),
    ensures
        text_le(list[i].name, list[j].name),
        list[i].name == list[j].name ==> text_le(list[i].address, list[j].address),
{
    assert(device_le(list[i], list[j]));
    lemma_text_le_total(list[i].name, list[i].name);
}

/// An entry with an address stands for one device, with the address normalized
/// and under its own name, or under the address if it has none. An entry without
/// an address stands for no device, and nothing is lost of several entries.
pub proof fn law_known_devices(before: Seq<Listed>, entry: Listed)
    ensures
        known_devices(Seq::empty()) == Seq::<PairedModel>::empty(),
        entry.address is None ==> known_devices(before.push(entry)) == known_devices(before),
        entry.address matches Some(raw) ==> {
            let all = known_devices(before.push(entry));
            &&& all.len() == known_devices(before).len() + 1
            &&& all.drop_last() == known_devices(before)
            &&& all.last().address == normalized(raw@)
            &&& entry.name matches Some(name) ==> all.last().name == name@
            &&& entry.name is None ==> all.last().name == all.last().address
        },
{
    assert(before.push(entry).drop_last() =~= before);
    if entry.address is Some {
        assert(known_devices(before.push(entry)).drop_last() =~= known_devices(before));
    }
}

} // verus!
