//! Scan fixtures: the access points that a simulated WiFi scan reports.
//!
//! A fixture list is text of the form `ssid,rssi,chan,bssid[;...]`, at most
//! [`MAX_FIXTURES`] entries. White space around fields is ignored, and the six
//! BSSID bytes are hexadecimal with any separators. A field that is too short is
//! padded with zeros, one that is too long is cut. An entry that does not parse is
//! skipped.

use vstd::prelude::*;
use vstd::slice::slice_subrange;

verus! {

/// Entries of a fixture list beyond this number are ignored.
pub const MAX_FIXTURES: usize = 8;

/// One access point.
#[derive(Clone, Copy)]
pub struct ScanFixtureAp {
    /// SSID, zero-padded.
    pub ssid: [u8; 32],
    pub ssid_len: u8,
    pub bssid: [u8; 6],
    /// Channel, 1 to 14.
    pub chan: u8,
    /// Signal strength in dBm.
    pub rssi: i8,
}

/// What an access point is made of.
#[verifier::ext_equal]
pub struct FixtureAp {
    pub ssid: Seq<u8>,
    pub ssid_len: u8,
    pub bssid: Seq<u8>,
    pub chan: u8,
    pub rssi: i8,
}

impl View for ScanFixtureAp {
    type V = FixtureAp;

    open spec fn view(&self) -> FixtureAp {
        FixtureAp {
            ssid: self.ssid@,
            ssid_len: self.ssid_len,
            bssid: self.bssid@,
            chan: self.chan,
            rssi: self.rssi,
        }
    }
}

/// Position of the first `sep`, or the length.
pub open spec fn find(s: Seq<u8>, sep: u8) -> int
    decreases s.len(),
{
    if s.len() == 0 || s[0] == sep {
        0
    } else {
        1 + find(s.skip(1), sep)
    }
}

/// The pieces of a text between separators; always at least one.
pub open spec fn split(s: Seq<u8>, sep: u8) -> Seq<Seq<u8>>
    decreases s.len(),
{
    let i = find(s, sep);
    if 0 <= i < s.len() {
        seq![s.take(i)] + split(s.skip(i + 1), sep)
    } else {
        seq![s]
    }
}

/// Bytes of the white-space character that starts a UTF-8 text, 0 if none does.
pub open spec fn space_at_front(s: Seq<u8>) -> int {
    if s.len() >= 1 && (9 <= s[0] <= 13 || s[0] == 32) {
        1
    } else if s.len() >= 2 && space2(s[0], s[1]) {
        2
    } else if s.len() >= 3 && space3(s[0], s[1], s[2]) {
        3
    } else {
        0
    }
}

/// Bytes of the white-space character that ends a UTF-8 text, 0 if none does.
pub open spec fn space_at_back(s: Seq<u8>) -> int {
    let n = s.len() as int;
    if n >= 1 && (9 <= s[n - 1] <= 13 || s[n - 1] == 32) {
        1
    } else if n >= 2 && space2(s[n - 2], s[n - 1]) {
        2
    } else if n >= 3 && space3(s[n - 3], s[n - 2], s[n - 1]) {
        3
    } else {
        0
    }
}

/// The two bytes encode U+0085 or U+00A0.
pub open spec fn space2(a: u8, b: u8) -> bool {
    a == 0xC2 && (b == 0x85 || b == 0xA0)
}

/// The three bytes encode a white-space character: U+1680, U+2000 to U+200A,
/// U+2028, U+2029, U+202F, U+205F or U+3000.
pub open spec fn space3(a: u8, b: u8, c: u8) -> bool {
    ||| a == 0xE1 && b == 0x9A && c == 0x80
    ||| a == 0xE2 && b == 0x80 && (0x80 <= c <= 0x8A || c == 0xA8 || c == 0xA9 || c == 0xAF)
    ||| a == 0xE2 && b == 0x81 && c == 0x9F
    ||| a == 0xE3 && b == 0x80 && c == 0x80
}

pub open spec fn trim_front(s: Seq<u8>) -> Seq<u8>
    decreases s.len(),
{
    let n = space_at_front(s);
    if n == 0 {
        s
    } else {
        trim_front(s.skip(n))
    }
}

pub open spec fn trim_back(s: Seq<u8>) -> Seq<u8>
    decreases s.len(),
{
    let n = space_at_back(s);
    if n == 0 {
        s
    } else {
        trim_back(s.take(s.len() - n))
    }
}

/// A text without white space at either end.
pub open spec fn trim(s: Seq<u8>) -> Seq<u8> {
    trim_back(trim_front(s))
}

pub open spec fn is_digit(b: u8) -> bool {
    0x30 <= b <= 0x39
}

pub open spec fn all_digits(s: Seq<u8>) -> bool {
    forall|i: int| 0 <= i < s.len() ==> is_digit(#[trigger] s[i])
}

/// Value of a decimal number.
pub open spec fn decimal(s: Seq<u8>) -> int
    decreases s.len(),
{
    if s.len() == 0 {
        0
    } else {
        10 * decimal(s.drop_last()) + (s.last() - 0x30)
    }
}

/// An unsigned decimal number of at most `max`, digits only.
pub open spec fn number(s: Seq<u8>, max: int) -> Option<int> {
    if s.len() > 0 && all_digits(s) && decimal(s) <= max {
        Some(decimal(s))
    } else {
        None
    }
}

/// A decimal number that fits in a byte, with an optional plus sign.
pub open spec fn parsed_u8(s: Seq<u8>) -> Option<u8> {
    let digits = if s.len() > 1 && s[0] == 0x2B {
        s.skip(1)
    } else {
        s
    };
    match number(digits, 255) {
        Some(v) => Some(v as u8),
        None => None,
    }
}

/// A decimal number that fits in a signed byte, with an optional sign.
pub open spec fn parsed_i8(s: Seq<u8>) -> Option<i8> {
    if s.len() > 1 && s[0] == 0x2D {
        match number(s.skip(1), 128) {
            Some(v) => Some((0 - v) as i8),
            None => None,
        }
    } else {
        let digits = if s.len() > 1 && s[0] == 0x2B {
            s.skip(1)
        } else {
            s
        };
        match number(digits, 127) {
            Some(v) => Some(v as i8),
            None => None,
        }
    }
}

pub open spec fn is_hex(b: u8) -> bool {
    is_digit(b) || 0x41 <= b <= 0x46 || 0x61 <= b <= 0x66
}

/// Value of a hexadecimal digit.
pub open spec fn hex_value(b: u8) -> u8 {
    if is_digit(b) {
        (b - 0x30) as u8
    } else if b <= 0x46 {
        (b - 0x37) as u8
    } else {
        (b - 0x57) as u8
    }
}

/// The hexadecimal digits of a text.
pub open spec fn hex_digits(s: Seq<u8>) -> Seq<u8>
    decreases s.len(),
{
    if s.len() == 0 {
        Seq::empty()
    } else if is_hex(s.last()) {
        hex_digits(s.drop_last()).push(s.last())
    } else {
        hex_digits(s.drop_last())
    }
}

/// Value of digit `i` of a string of hexadecimal digits, zero past its end.
pub open spec fn hex_at(hex: Seq<u8>, i: int) -> u8 {
    if i < hex.len() {
        hex_value(hex[i])
    } else {
        0
    }
}

/// Byte `k` of a string of hexadecimal digit pairs, padded with zero digits.
pub open spec fn hex_byte(hex: Seq<u8>, k: int) -> u8 {
    (hex_at(hex, 2 * k) * 16 + hex_at(hex, 2 * k + 1)) as u8
}

/// The access point that an entry describes, if it parses.
pub open spec fn parsed_entry(entry: Seq<u8>) -> Option<FixtureAp> {
    let f = split(trim(entry), 0x2C);
    let ssid = trim(f[0]);
    let hex = hex_digits(trim(f[3]));
    if f.len() >= 4 && parsed_i8(trim(f[1])) is Some && parsed_u8(trim(f[2])) is Some && ssid.len()
        > 0 && 1 <= parsed_u8(trim(f[2]))->0 <= 14 {
        Some(
            FixtureAp {
                ssid: Seq::new(
                    32,
                    |i: int|
                        if i < ssid.len() {
                            ssid[i]
                        } else {
                            0
                        },
                ),
                ssid_len: if ssid.len() < 32 {
                    ssid.len() as u8
                } else {
                    32
                },
                bssid: Seq::new(6, |k: int| hex_byte(hex, k)),
                chan: parsed_u8(trim(f[2]))->0,
                rssi: parsed_i8(trim(f[1]))->0,
            },
        )
    } else {
        None
    }
}

/// The access points of the entries that parse, in order.
pub open spec fn parsed_entries(entries: Seq<Seq<u8>>) -> Seq<FixtureAp>
    decreases entries.len(),
{
    if entries.len() == 0 {
        Seq::empty()
    } else {
        match parsed_entry(entries[0]) {
            Some(ap) => seq![ap] + parsed_entries(entries.skip(1)),
            None => parsed_entries(entries.skip(1)),
        }
    }
}

/// The access points of a fixture list.
pub open spec fn parsed_list(text: Seq<u8>) -> Seq<FixtureAp> {
    let all = parsed_entries(split(text, 0x3B));
    if all.len() > MAX_FIXTURES {
        all.take(MAX_FIXTURES as int)
    } else {
        all
    }
}

/// The views of a list of access points.
pub open spec fn views(aps: Seq<ScanFixtureAp>) -> Seq<FixtureAp> {
    Seq::new(aps.len(), |i: int| aps[i]@)
}

proof fn lemma_find(s: Seq<u8>, sep: u8, i: int)
    requires
        0 <= i <= s.len(),
        forall|k: int| 0 <= k < i ==> s[k] != sep,
        i < s.len() ==> s[i] == sep,
    ensures
        find(s, sep) == i,
    decreases s.len(),
{
    if i > 0 {
        assert forall|k: int| 0 <= k < i - 1 implies s.skip(1)[k] != sep by {
            assert(s.skip(1)[k] == s[k + 1]);
        }
        lemma_find(s.skip(1), sep, i - 1);
    }
}

/// Position of the first `sep`, or the length.
fn find_byte(s: &[u8], sep: u8) -> (i: usize)
    ensures
        i == find(s@, sep),
        i <= s@.len(),
{
    let mut i: usize = 0;
    while i < s.len() && s[i] != sep
        invariant
            i <= s@.len(),
            forall|k: int| 0 <= k < i ==> s@[k] != sep,
        decreases s@.len() - i,
    {
        i = i + 1;
    }
    proof {
        lemma_find(s@, sep, i as int);
    }
    i
}

fn is_space2(a: u8, b: u8) -> (r: bool)
    ensures
        r == space2(a, b),
{
    a == 0xC2 && (b == 0x85 || b == 0xA0)
}

fn is_space3(a: u8, b: u8, c: u8) -> (r: bool)
    ensures
        r == space3(a, b, c),
{
    (a == 0xE1 && b == 0x9A && c == 0x80) || (a == 0xE2 && b == 0x80 && ((0x80 <= c && c <= 0x8A)
        || c == 0xA8 || c == 0xA9 || c == 0xAF)) || (a == 0xE2 && b == 0x81 && c == 0x9F) || (a
        == 0xE3 && b == 0x80 && c == 0x80)
}

/// A text without white space at either end.
fn trim_bytes<'a>(s: &'a [u8]) -> (t: &'a [u8])
    ensures
        t@ == trim(s@),
{
    let mut a: usize = 0;
    let mut more: bool = true;
    assert(s@.skip(0) =~= s@);
    while more
        invariant
            a <= s@.len(),
            trim_front(s@.skip(a as int)) == trim_front(s@),
            !more ==> space_at_front(s@.skip(a as int)) == 0,
        decreases s@.len() - a + (if more { 1int } else { 0 }),
    {
        let ghost r = s@.skip(a as int);
        let n: usize = s.len() - a;
        let w: usize = if n >= 1 && ((9 <= s[a] && s[a] <= 13) || s[a] == 32) {
            1
        } else if n >= 2 && is_space2(s[a], s[a + 1]) {
            2
        } else if n >= 3 && is_space3(s[a], s[a + 1], s[a + 2]) {
            3
        } else {
            0
        };
        assert(w == space_at_front(r));
        if w == 0 {
            more = false;
        } else {
            assert(r.skip(w as int) =~= s@.skip(a + w));
            a = a + w;
        }
    }
    let ghost front = s@.skip(a as int);
    assert(front == trim_front(s@));
    let mut b: usize = s.len();
    let mut more: bool = true;
    assert(s@.subrange(a as int, b as int) =~= front);
    while more
        invariant
            a <= b <= s@.len(),
            trim_back(s@.subrange(a as int, b as int)) == trim_back(front),
            !more ==> space_at_back(s@.subrange(a as int, b as int)) == 0,
        decreases b - a + (if more { 1int } else { 0 }),
    {
        let ghost r = s@.subrange(a as int, b as int);
        let n: usize = b - a;
        let w: usize = if n >= 1 && ((9 <= s[b - 1] && s[b - 1] <= 13) || s[b - 1] == 32) {
            1
        } else if n >= 2 && is_space2(s[b - 2], s[b - 1]) {
            2
        } else if n >= 3 && is_space3(s[b - 3], s[b - 2], s[b - 1]) {
            3
        } else {
            0
        };
        assert(w == space_at_back(r));
        if w == 0 {
            more = false;
        } else {
            assert(r.take(r.len() - w) =~= s@.subrange(a as int, b - w));
            b = b - w;
        }
    }
    slice_subrange(s, a, b)
}

/// An unsigned decimal number of at most `max`.
fn parse_number(s: &[u8], max: u32) -> (r: Option<u32>)
    requires
        max <= 1000,
    ensures
        match r {
            Some(v) => number(s@, max as int) == Some(v as int),
            None => number(s@, max as int) is None,
        },
{
    if s.len() == 0 {
        return None;
    }
    let mut v: u32 = 0;
    let mut i: usize = 0;
    assert(s@.take(0) =~= Seq::<u8>::empty());
    while i < s.len()
        invariant
            i <= s@.len(),
            max <= 1000,
            all_digits(s@.take(i as int)),
            v <= 10009,
            v <= 1000 ==> v == decimal(s@.take(i as int)),
            v > 1000 ==> decimal(s@.take(i as int)) > 1000,
        decreases s@.len() - i,
    {
        let ghost now = s@.take(i as int);
        let ghost next = s@.take(i + 1);
        assert(next.drop_last() =~= now);
        let b: u8 = s[i];
        if !(0x30 <= b && b <= 0x39) {
            assert(!is_digit(s@[i as int]));
            return None;
        }
        assert forall|k: int| 0 <= k < next.len() implies is_digit(#[trigger] next[k]) by {
            if k < i {
                assert(now[k] == next[k]);
            }
        }
        if v <= 1000 {
            v = 10 * v + (b - 0x30) as u32;
        }
        i = i + 1;
    }
    assert(s@.take(i as int) =~= s@);
    if v <= max {
        Some(v)
    } else {
        None
    }
}

/// A decimal number that fits in a byte.
fn parse_u8(s: &[u8]) -> (r: Option<u8>)
    ensures
        r == parsed_u8(s@),
{
    let digits: &[u8] = if s.len() > 1 && s[0] == 0x2B {
        slice_subrange(s, 1, s.len())
    } else {
        s
    };
    assert(s@.len() > 1 ==> s@.subrange(1, s@.len() as int) =~= s@.skip(1));
    match parse_number(digits, 255) {
        Some(v) => Some(v as u8),
        None => None,
    }
}

/// A decimal number that fits in a signed byte.
fn parse_i8(s: &[u8]) -> (r: Option<i8>)
    ensures
        r == parsed_i8(s@),
{
    assert(s@.len() > 1 ==> s@.subrange(1, s@.len() as int) =~= s@.skip(1));
    if s.len() > 1 && s[0] == 0x2D {
        match parse_number(slice_subrange(s, 1, s.len()), 128) {
            Some(v) => Some((0 - v as i32) as i8),
            None => None,
        }
    } else {
        let digits: &[u8] = if s.len() > 1 && s[0] == 0x2B {
            slice_subrange(s, 1, s.len())
        } else {
            s
        };
        match parse_number(digits, 127) {
            Some(v) => Some(v as i8),
            None => None,
        }
    }
}

/// The hexadecimal digits of a text.
fn collect_hex(s: &[u8]) -> (hex: Vec<u8>)
    ensures
        hex@ == hex_digits(s@),
        forall|i: int| 0 <= i < hex@.len() ==> is_hex(#[trigger] hex@[i]),
{
    let mut hex: Vec<u8> = Vec::new();
    let mut i: usize = 0;
    assert(s@.take(0) =~= Seq::<u8>::empty());
    while i < s.len()
        invariant
            i <= s@.len(),
            hex@ == hex_digits(s@.take(i as int)),
            forall|k: int| 0 <= k < hex@.len() ==> is_hex(#[trigger] hex@[k]),
        decreases s@.len() - i,
    {
        assert(s@.take(i + 1).drop_last() =~= s@.take(i as int));
        let b: u8 = s[i];
        if (0x30 <= b && b <= 0x39) || (0x41 <= b && b <= 0x46) || (0x61 <= b && b <= 0x66) {
            hex.push(b);
        }
        i = i + 1;
    }
    assert(s@.take(i as int) =~= s@);
    hex
}

/// Value of a hexadecimal digit.
fn hex_digit(b: u8) -> (v: u8)
    requires
        is_hex(b),
    ensures
        v == hex_value(b),
        v < 16,
{
    if b <= 0x39 {
        b - 0x30
    } else if b <= 0x46 {
        b - 0x37
    } else {
        b - 0x57
    }
}

/// The first four fields of an entry and whether there are as many: where they
/// start and end.
fn four_fields(s: &[u8]) -> (r: Option<[(usize, usize); 4]>)
    ensures
        match r {
            Some(f) => {
                &&& split(s@, 0x2C).len() >= 4
                &&& forall|k: int|
                    0 <= k < 4 ==> (#[trigger] f@[k]).0 <= f@[k].1 <= s@.len() && split(
                        s@,
                        0x2C,
                    )[k] == s@.subrange(f@[k].0 as int, f@[k].1 as int)
            },
            None => split(s@, 0x2C).len() < 4,
        },
{
    let mut f: [(usize, usize); 4] = [(0, 0); 4];
    let mut start: usize = 0;
    let mut k: usize = 0;
    assert(s@.skip(0) =~= s@);
    assert(Seq::<Seq<u8>>::empty() + split(s@, 0x2C) =~= split(s@, 0x2C));
    let ghost mut done = Seq::<Seq<u8>>::empty();
    while k < 4
        invariant
            k <= 4,
            start <= s@.len(),
            done.len() == k,
            k < 4 ==> split(s@, 0x2C) == done + split(s@.skip(start as int), 0x2C),
            k == 4 ==> split(s@, 0x2C).len() >= 4 && split(s@, 0x2C).take(4) == done,
            forall|j: int|
                0 <= j < k ==> (#[trigger] f@[j]).0 <= f@[j].1 <= s@.len() && done[j]
                    == s@.subrange(f@[j].0 as int, f@[j].1 as int),
        decreases 4 - k,
    {
        let ghost left = s@.skip(start as int);
        let n: usize = find_byte(slice_subrange(s, start, s.len()), 0x2C);
        assert(s@.subrange(start as int, s@.len() as int) =~= left);
        let end: usize = start + n;
        f[k] = (start, end);
        let ghost piece = left.take(n as int);
        assert(piece =~= s@.subrange(start as int, end as int));
        let ghost before = done;
        proof {
            done = before.push(piece);
        }
        if n < s.len() - start {
            assert(left.skip(n + 1) =~= s@.skip(end + 1));
            assert(before + (seq![piece] + split(s@.skip(end + 1), 0x2C)) =~= done + split(
                s@.skip(end + 1),
                0x2C,
            ));
            start = end + 1;
            if k == 3 {
                assert((done + split(s@.skip(end + 1), 0x2C)).take(4) =~= done);
            }
        } else {
            assert(piece =~= left);
            assert(before + seq![left] =~= done);
            if k < 3 {
                return None;
            }
            assert(done.take(4) =~= done);
        }
        k = k + 1;
    }
    proof {
        let all = split(s@, 0x2C);
        assert forall|k: int| 0 <= k < 4 implies all[k] == done[k] by {
            assert(all.take(4)[k] == all[k]);
        }
    }
    Some(f)
}

/// Value of digit `i`, zero past the end.
fn digit_or_zero(hex: &Vec<u8>, i: usize) -> (v: u8)
    requires
        forall|k: int| 0 <= k < hex@.len() ==> is_hex(#[trigger] hex@[k]),
    ensures
        v == hex_at(hex@, i as int),
        v < 16,
{
    if i < hex.len() {
        hex_digit(hex[i])
    } else {
        0
    }
}

/// The access point that an entry describes, if it parses.
fn parse_entry(entry: &[u8]) -> (r: Option<ScanFixtureAp>)
    ensures
        match r {
            Some(ap) => parsed_entry(entry@) == Some(ap@),
            None => parsed_entry(entry@) is None,
        },
{
    let e: &[u8] = trim_bytes(entry);
    match four_fields(e) {
        None => None,
        Some(f) => {
            let ssid: &[u8] = trim_bytes(slice_subrange(e, f[0].0, f[0].1));
            let rssi: Option<i8> = parse_i8(trim_bytes(slice_subrange(e, f[1].0, f[1].1)));
            let chan: Option<u8> = parse_u8(trim_bytes(slice_subrange(e, f[2].0, f[2].1)));
            let hex: Vec<u8> = collect_hex(trim_bytes(slice_subrange(e, f[3].0, f[3].1)));
            assert(split(e@, 0x2C)[0] == e@.subrange(f@[0].0 as int, f@[0].1 as int));
            assert(split(e@, 0x2C)[1] == e@.subrange(f@[1].0 as int, f@[1].1 as int));
            assert(split(e@, 0x2C)[2] == e@.subrange(f@[2].0 as int, f@[2].1 as int));
            assert(split(e@, 0x2C)[3] == e@.subrange(f@[3].0 as int, f@[3].1 as int));
            match (rssi, chan) {
                (Some(rssi), Some(chan)) => {
                    if ssid.len() == 0 || chan < 1 || chan > 14 {
                        return None;
                    }
                    let mut mac: [u8; 6] = [0u8; 6];
                    let mut k: usize = 0;
                    while k < 6
                        invariant
                            k <= 6,
                            forall|i: int| 0 <= i < hex@.len() ==> is_hex(#[trigger] hex@[i]),
                            forall|i: int| 0 <= i < k ==> mac@[i] == hex_byte(hex@, i),
                        decreases 6 - k,
                    {
                        let hi: u8 = digit_or_zero(&hex, 2 * k);
                        let lo: u8 = digit_or_zero(&hex, 2 * k + 1);
                        mac[k] = hi * 16 + lo;
                        k = k + 1;
                    }
                    let mut name: [u8; 32] = [0u8; 32];
                    let mut k: usize = 0;
                    while k < 32 && k < ssid.len()
                        invariant
                            k <= 32,
                            k <= ssid@.len(),
                            forall|i: int| 0 <= i < k ==> name@[i] == ssid@[i],
                            forall|i: int| k <= i < 32 ==> name@[i] == 0,
                        decreases 32 - k,
                    {
                        name[k] = ssid[k];
                        k = k + 1;
                    }
                    let ap = ScanFixtureAp { ssid: name, ssid_len: k as u8, bssid: mac, chan, rssi };
                    proof {
                        let want = parsed_entry(entry@)->0;
                        assert(ap@.ssid =~= want.ssid);
                        assert(ap@.bssid =~= want.bssid);
                    }
                    Some(ap)
                },
                _ => None,
            }
        },
    }
}

/// The first piece of a split text, and the rest.
proof fn lemma_split_first(s: Seq<u8>, sep: u8, i: int)
    requires
        i == find(s, sep),
        0 <= i <= s.len(),
    ensures
        i < s.len() ==> parsed_entries(split(s, sep)) == (match parsed_entry(s.take(i)) {
            Some(ap) => seq![ap] + parsed_entries(split(s.skip(i + 1), sep)),
            None => parsed_entries(split(s.skip(i + 1), sep)),
        }),
        i == s.len() ==> parsed_entries(split(s, sep)) == (match parsed_entry(s) {
            Some(ap) => seq![ap],
            None => Seq::empty(),
        }),
{
    let all = split(s, sep);
    if i < s.len() {
        assert(all.skip(1) =~= split(s.skip(i + 1), sep));
    } else {
        assert(all.skip(1) =~= Seq::<Seq<u8>>::empty());
        assert(parsed_entries(all.skip(1)) =~= Seq::<FixtureAp>::empty());
        if parsed_entry(s) is Some {
            assert(seq![parsed_entry(s)->0] + Seq::<FixtureAp>::empty() =~= seq![
                parsed_entry(s)->0,
            ]);
        }
    }
}

/// Parse a fixture list.
pub fn parse_scan_fixtures(spec: &str) -> (aps: Vec<ScanFixtureAp>)
    ensures
        views(aps@) == parsed_list(vstd::utf8::encode_utf8(spec@)),
{
    let s: &[u8] = spec.as_bytes();
    let ghost text = vstd::utf8::encode_utf8(spec@);
    let mut aps: Vec<ScanFixtureAp> = Vec::new();
    let mut start: usize = 0;
    let mut more: bool = true;
    let ghost all = parsed_entries(split(text, 0x3B));
    assert(s@.skip(0) =~= s@);
    assert(views(aps@) =~= Seq::<FixtureAp>::empty());
    assert(Seq::<FixtureAp>::empty() + all =~= all);
    while more && aps.len() < MAX_FIXTURES
        invariant
            s@ == text,
            all == parsed_entries(split(text, 0x3B)),
            start <= s@.len(),
            aps@.len() <= MAX_FIXTURES,
            more ==> all == views(aps@) + parsed_entries(split(s@.skip(start as int), 0x3B)),
            !more ==> all == views(aps@),
        decreases s@.len() - start + (if more { 1int } else { 0 }),
    {
        let ghost left = s@.skip(start as int);
        let ghost before = views(aps@);
        let rest: &[u8] = slice_subrange(s, start, s.len());
        assert(rest@ =~= left);
        let n: usize = find_byte(rest, 0x3B);
        let piece: &[u8] = slice_subrange(rest, 0, n);
        assert(piece@ =~= left.take(n as int));
        proof {
            lemma_split_first(left, 0x3B, n as int);
        }
        if n < rest.len() {
            assert(left.skip(n + 1) =~= s@.skip(start + n + 1));
        } else {
            assert(piece@ =~= left);
        }
        match parse_entry(piece) {
            Some(ap) => {
                aps.push(ap);
                assert(views(aps@) =~= before.push(ap@));
                if n < rest.len() {
                    assert(before + (seq![ap@] + parsed_entries(
                        split(s@.skip(start + n + 1), 0x3B),
                    )) =~= views(aps@) + parsed_entries(split(s@.skip(start + n + 1), 0x3B)));
                } else {
                    assert(before + seq![ap@] =~= views(aps@));
                }
            },
            None => {
                assert(before + Seq::<FixtureAp>::empty() =~= before);
            },
        }
        if n < rest.len() {
            start = start + n + 1;
        } else {
            more = false;
        }
    }
    proof {
        if more {
            let tail = parsed_entries(split(s@.skip(start as int), 0x3B));
            assert(all == views(aps@) + tail);
            if all.len() > MAX_FIXTURES {
                assert(all.take(MAX_FIXTURES as int) =~= views(aps@));
            } else {
                assert(all =~= views(aps@));
            }
        }
    }
    aps
}

/// Parse the first entry of a fixture list.
pub fn parse_scan_fixture(spec: &str) -> (ap: Option<ScanFixtureAp>)
    ensures
        match ap {
            Some(ap) => parsed_list(vstd::utf8::encode_utf8(spec@)).len() > 0 && ap@ == parsed_list(
                vstd::utf8::encode_utf8(spec@),
            )[0],
            None => parsed_list(vstd::utf8::encode_utf8(spec@)).len() == 0,
        },
{
    let aps: Vec<ScanFixtureAp> = parse_scan_fixtures(spec);
    assert(views(aps@).len() == aps@.len());
    if aps.len() > 0 {
        assert(views(aps@)[0] == aps@[0]@);
        Some(aps[0])
    } else {
        None
    }
}

/// Every access point of a list is usable: a nonempty name no longer than its
/// field, a channel in range, six address bytes.
pub proof fn law_entries_are_valid(text: Seq<u8>, i: int)
    requires
        0 <= i < parsed_list(text).len(),
    ensures
        1 <= parsed_list(text)[i].ssid_len <= 32,
        1 <= parsed_list(text)[i].chan <= 14,
        parsed_list(text)[i].bssid.len() == 6,
        parsed_list(text).len() <= MAX_FIXTURES,
{
    lemma_entries_valid(split(text, 0x3B), i);
}

proof fn lemma_entries_valid(entries: Seq<Seq<u8>>, i: int)
    requires
        0 <= i < parsed_entries(entries).len(),
    ensures
        1 <= parsed_entries(entries)[i].ssid_len <= 32,
        1 <= parsed_entries(entries)[i].chan <= 14,
        parsed_entries(entries)[i].bssid.len() == 6,
    decreases entries.len(),
{
    if entries.len() > 0 {
        if parsed_entry(entries[0]) is Some {
            if i > 0 {
                lemma_entries_valid(entries.skip(1), i - 1);
            }
        } else {
            lemma_entries_valid(entries.skip(1), i);
        }
    }
}

/// A garbled entry does not affect the others: it contributes nothing, and the
/// rest of the list parses as it would alone.
pub proof fn law_garbled_entry_is_skipped(entries: Seq<Seq<u8>>)
    requires
        entries.len() > 0,
        parsed_entry(entries[0]) is None,
    ensures
        parsed_entries(entries) == parsed_entries(entries.skip(1)),
{
}

/// The length of the address field decides nothing: a short one stands for the same
/// address with zero digits behind it, and what follows twelve digits is ignored.
pub proof fn law_address_pads_and_cuts(hex: Seq<u8>, more: Seq<u8>, zeros: nat, k: int)
    requires
        0 <= k < 6,
    ensures
        hex_byte(hex + Seq::new(zeros, |i: int| 0x30u8), k) == hex_byte(hex, k),
        hex.len() >= 12 ==> hex_byte(hex + more, k) == hex_byte(hex, k),
{
    let padded = hex + Seq::new(zeros, |i: int| 0x30u8);
    assert forall|i: int| 0 <= i implies hex_at(padded, i) == hex_at(hex, i) by {
        if hex.len() <= i < padded.len() {
            assert(padded[i] == 0x30);
        }
    }
}

} // verus!
