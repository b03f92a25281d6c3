//! The RFC 1123 timestamp carried by the date-valued header fields, as a
//! broken-down calendar value of plain integers, with its fixed 29-byte
//! wire form `Sun, 06 Nov 1994 08:49:37 GMT`.
use vstd::prelude::*;

verus! {

/// A broken-down GMT timestamp. `weekday` counts from Sunday as 0, as the
/// wire form carries the weekday name rather than deriving it.
#[derive(Clone, Copy, Debug, PartialEq, Eq, Structural)]
pub struct HttpDate {
    pub weekday: u8,
    pub day: u8,
    pub month: u8,
    pub year: u16,
    pub hour: u8,
    pub minute: u8,
    pub second: u8,
}

/// The field ranges the wire form can carry.
pub open spec fn wf_date(d: HttpDate) -> bool {
    d.weekday < 7 && 1 <= d.day <= 31 && 1 <= d.month <= 12 && d.year <= 9999 && d.hour <= 23
        && d.minute <= 59 && d.second <= 59
}

/// The ASCII digit standing at decimal weight `div` in `n`.
pub open spec fn dig_at(n: nat, div: nat) -> u8
    recommends
        div > 0,
{
    (48 + (n / div) % 10) as u8
}

/// First byte of the weekday name.
pub open spec fn wb0(w: nat) -> u8 {
    if w == 0 { 83 } else if w == 1 { 77 } else if w == 2 { 84 } else if w == 3 { 87 }
    else if w == 4 { 84 } else if w == 5 { 70 } else { 83 }
}

/// Second byte of the weekday name.
pub open spec fn wb1(w: nat) -> u8 {
    if w == 0 { 117 } else if w == 1 { 111 } else if w == 2 { 117 } else if w == 3 { 101 }
    else if w == 4 { 104 } else if w == 5 { 114 } else { 97 }
}

/// Third byte of the weekday name.
pub open spec fn wb2(w: nat) -> u8 {
    if w == 0 { 110 } else if w == 1 { 110 } else if w == 2 { 101 } else if w == 3 { 100 }
    else if w == 4 { 117 } else if w == 5 { 105 } else { 116 }
}

/// First byte of the month name, months counted from 1.
pub open spec fn mb0(m: nat) -> u8 {
    if m == 1 { 74 } else if m == 2 { 70 } else if m == 3 { 77 } else if m == 4 { 65 }
    else if m == 5 { 77 } else if m == 6 { 74 } else if m == 7 { 74 } else if m == 8 { 65 }
    else if m == 9 { 83 } else if m == 10 { 79 } else if m == 11 { 78 } else { 68 }
}

/// Second byte of the month name.
pub open spec fn mb1(m: nat) -> u8 {
    if m == 1 { 97 } else if m == 2 { 101 } else if m == 3 { 97 } else if m == 4 { 112 }
    else if m == 5 { 97 } else if m == 6 { 117 } else if m == 7 { 117 } else if m == 8 { 117 }
    else if m == 9 { 101 } else if m == 10 { 99 } else if m == 11 { 111 } else { 101 }
}

/// Third byte of the month name.
pub open spec fn mb2(m: nat) -> u8 {
    if m == 1 { 110 } else if m == 2 { 98 } else if m == 3 { 114 } else if m == 4 { 114 }
    else if m == 5 { 121 } else if m == 6 { 110 } else if m == 7 { 108 } else if m == 8 { 103 }
    else if m == 9 { 112 } else if m == 10 { 116 } else if m == 11 { 118 } else { 99 }
}

/// The 29-byte RFC 1123 form of a timestamp.
pub open spec fn spec_format_date(d: HttpDate) -> Seq<u8> {
    seq![
        wb0(d.weekday as nat),
        wb1(d.weekday as nat),
        wb2(d.weekday as nat),
        44u8,
        32u8,
        dig_at(d.day as nat, 10),
        dig_at(d.day as nat, 1),
        32u8,
        mb0(d.month as nat),
        mb1(d.month as nat),
        mb2(d.month as nat),
        32u8,
        dig_at(d.year as nat, 1000),
        dig_at(d.year as nat, 100),
        dig_at(d.year as nat, 10),
        dig_at(d.year as nat, 1),
        32u8,
        dig_at(d.hour as nat, 10),
        dig_at(d.hour as nat, 1),
        58u8,
        dig_at(d.minute as nat, 10),
        dig_at(d.minute as nat, 1),
        58u8,
        dig_at(d.second as nat, 10),
        dig_at(d.second as nat, 1),
        32u8,
        71u8,
        77u8,
        84u8,
    ]
}

/// The weekday whose name is the three given bytes, if any.
pub open spec fn spec_wday_code(b0: u8, b1: u8, b2: u8) -> Option<u8> {
    if b0 == 83 && b1 == 117 && b2 == 110 { Some(0u8) }
    else if b0 == 77 && b1 == 111 && b2 == 110 { Some(1u8) }
    else if b0 == 84 && b1 == 117 && b2 == 101 { Some(2u8) }
    else if b0 == 87 && b1 == 101 && b2 == 100 { Some(3u8) }
    else if b0 == 84 && b1 == 104 && b2 == 117 { Some(4u8) }
    else if b0 == 70 && b1 == 114 && b2 == 105 { Some(5u8) }
    else if b0 == 83 && b1 == 97 && b2 == 116 { Some(6u8) }
    else { None }
}

/// The month whose name is the three given bytes, if any.
pub open spec fn spec_month_code(b0: u8, b1: u8, b2: u8) -> Option<u8> {
    if b0 == 74 && b1 == 97 && b2 == 110 { Some(1u8) }
    else if b0 == 70 && b1 == 101 && b2 == 98 { Some(2u8) }
    else if b0 == 77 && b1 == 97 && b2 == 114 { Some(3u8) }
    else if b0 == 65 && b1 == 112 && b2 == 114 { Some(4u8) }
    else if b0 == 77 && b1 == 97 && b2 == 121 { Some(5u8) }
    else if b0 == 74 && b1 == 117 && b2 == 110 { Some(6u8) }
    else if b0 == 74 && b1 == 117 && b2 == 108 { Some(7u8) }
    else if b0 == 65 && b1 == 117 && b2 == 103 { Some(8u8) }
    else if b0 == 83 && b1 == 101 && b2 == 112 { Some(9u8) }
    else if b0 == 79 && b1 == 99 && b2 == 116 { Some(10u8) }
    else if b0 == 78 && b1 == 111 && b2 == 118 { Some(11u8) }
    else if b0 == 68 && b1 == 101 && b2 == 99 { Some(12u8) }
    else { None }
}

/// The value of two ASCII digits.
pub open spec fn dval2(a: u8, b: u8) -> nat {
    ((a - 48) * 10 + (b - 48)) as nat
}

/// Whether a byte is an ASCII decimal digit.
pub open spec fn dg(b: u8) -> bool {
    48 <= b <= 57
}

/// What parsing an RFC 1123 timestamp yields: the broken-down value when the
/// input has exactly the 29-byte layout with every field in range, and
/// nothing otherwise.
pub open spec fn spec_parse_date(s: Seq<u8>) -> Option<HttpDate> {
    if s.len() == 29 && s[3] == 44 && s[4] == 32 && s[7] == 32 && s[11] == 32 && s[16] == 32
        && s[19] == 58 && s[22] == 58 && s[25] == 32 && s[26] == 71 && s[27] == 77 && s[28] == 84
        && dg(s[5]) && dg(s[6]) && dg(s[12]) && dg(s[13]) && dg(s[14]) && dg(s[15]) && dg(s[17])
        && dg(s[18]) && dg(s[20]) && dg(s[21]) && dg(s[23]) && dg(s[24])
        && spec_wday_code(s[0], s[1], s[2]) is Some
        && spec_month_code(s[8], s[9], s[10]) is Some
        && 1 <= dval2(s[5], s[6]) <= 31
        && dval2(s[17], s[18]) <= 23 && dval2(s[20], s[21]) <= 59 && dval2(s[23], s[24]) <= 59 {
        Some(
            HttpDate {
                weekday: spec_wday_code(s[0], s[1], s[2]).unwrap(),
                day: dval2(s[5], s[6]) as u8,
                month: spec_month_code(s[8], s[9], s[10]).unwrap(),
                year: (dval2(s[12], s[13]) * 100 + dval2(s[14], s[15])) as u16,
                hour: dval2(s[17], s[18]) as u8,
                minute: dval2(s[20], s[21]) as u8,
                second: dval2(s[23], s[24]) as u8,
            },
        )
    } else {
        None
    }
}

/// Appends the weekday name.
fn push_wday(out: &mut Vec<u8>, w: u8)
    requires
        w < 7,
    ensures
        final(out)@ == old(out)@ + seq![wb0(w as nat), wb1(w as nat), wb2(w as nat)],
{
    if w == 0 { out.push(83); out.push(117); out.push(110); }
    else if w == 1 { out.push(77); out.push(111); out.push(110); }
    else if w == 2 { out.push(84); out.push(117); out.push(101); }
    else if w == 3 { out.push(87); out.push(101); out.push(100); }
    else if w == 4 { out.push(84); out.push(104); out.push(117); }
    else if w == 5 { out.push(70); out.push(114); out.push(105); }
    else { out.push(83); out.push(97); out.push(116); }
    proof {
        assert(out@ =~= old(out)@ + seq![wb0(w as nat), wb1(w as nat), wb2(w as nat)]);
    }
}

/// Appends the month name, months counted from 1.
fn push_month(out: &mut Vec<u8>, m: u8)
    requires
        1 <= m <= 12,
    ensures
        final(out)@ == old(out)@ + seq![mb0(m as nat), mb1(m as nat), mb2(m as nat)],
{
    if m == 1 { out.push(74); out.push(97); out.push(110); }
    else if m == 2 { out.push(70); out.push(101); out.push(98); }
    else if m == 3 { out.push(77); out.push(97); out.push(114); }
    else if m == 4 { out.push(65); out.push(112); out.push(114); }
    else if m == 5 { out.push(77); out.push(97); out.push(121); }
    else if m == 6 { out.push(74); out.push(117); out.push(110); }
    else if m == 7 { out.push(74); out.push(117); out.push(108); }
    else if m == 8 { out.push(65); out.push(117); out.push(103); }
    else if m == 9 { out.push(83); out.push(101); out.push(112); }
    else if m == 10 { out.push(79); out.push(99); out.push(116); }
    else if m == 11 { out.push(78); out.push(111); out.push(118); }
    else { out.push(68); out.push(101); out.push(99); }
    proof {
        assert(out@ =~= old(out)@ + seq![mb0(m as nat), mb1(m as nat), mb2(m as nat)]);
    }
}

/// Appends the RFC 1123 form of a timestamp to a byte sink.
#[verifier::rlimit(60)]
pub fn push_date(out: &mut Vec<u8>, d: &HttpDate)
    requires
        wf_date(*d),
    ensures
        final(out)@ == old(out)@ + spec_format_date(*d),
{
    push_wday(out, d.weekday);
    out.push(44);
    out.push(32);
    out.push(48 + (d.day / 10) % 10);
    out.push(48 + d.day % 10);
    out.push(32);
    push_month(out, d.month);
    out.push(32);
    out.push(48 + ((d.year / 1000) % 10) as u8);
    out.push(48 + ((d.year / 100) % 10) as u8);
    out.push(48 + ((d.year / 10) % 10) as u8);
    out.push(48 + (d.year % 10) as u8);
    out.push(32);
    out.push(48 + (d.hour / 10) % 10);
    out.push(48 + d.hour % 10);
    out.push(58);
    out.push(48 + (d.minute / 10) % 10);
    out.push(48 + d.minute % 10);
    out.push(58);
    out.push(48 + (d.second / 10) % 10);
    out.push(48 + d.second % 10);
    out.push(32);
    out.push(71);
    out.push(77);
    out.push(84);
    proof {
        assert(out@ =~= old(out)@ + spec_format_date(*d));
    }
}

/// Parses an RFC 1123 timestamp, returning `None` on any other shape.
pub fn parse_date(s: &[u8]) -> (r: Option<HttpDate>)
    ensures
        r == spec_parse_date(s@),
{
    if s.len() != 29 {
        return None;
    }
    if !(s[3] == 44 && s[4] == 32 && s[7] == 32 && s[11] == 32 && s[16] == 32 && s[19] == 58
        && s[22] == 58 && s[25] == 32 && s[26] == 71 && s[27] == 77 && s[28] == 84) {
        return None;
    }
    if !(digit(s[5]) && digit(s[6]) && digit(s[12]) && digit(s[13]) && digit(s[14]) && digit(s[15])
        && digit(s[17]) && digit(s[18]) && digit(s[20]) && digit(s[21]) && digit(s[23]) && digit(
        s[24],
    )) {
        return None;
    }
    let weekday = match wday_code(s[0], s[1], s[2]) {
        Some(w) => w,
        None => { return None; },
    };
    let month = match month_code(s[8], s[9], s[10]) {
        Some(m) => m,
        None => { return None; },
    };
    let day: u8 = (s[5] - 48) * 10 + (s[6] - 48);
    let year: u16 = ((s[12] - 48) as u16) * 1000 + ((s[13] - 48) as u16) * 100 + ((s[14]
        - 48) as u16) * 10 + (s[15] - 48) as u16;
    let hour: u8 = (s[17] - 48) * 10 + (s[18] - 48);
    let minute: u8 = (s[20] - 48) * 10 + (s[21] - 48);
    let second: u8 = (s[23] - 48) * 10 + (s[24] - 48);
    if !(1 <= day && day <= 31 && hour <= 23 && minute <= 59 && second <= 59) {
        return None;
    }
    Some(HttpDate { weekday, day, month, year, hour, minute, second })
}

/// Runtime test for [`dg`].
fn digit(b: u8) -> (r: bool)
    ensures
        r == dg(b),
{
    48 <= b && b <= 57
}

/// Runtime form of [`spec_wday_code`].
fn wday_code(b0: u8, b1: u8, b2: u8) -> (r: Option<u8>)
    ensures
        r == spec_wday_code(b0, b1, b2),
{
    if b0 == 83 && b1 == 117 && b2 == 110 { Some(0) }
    else if b0 == 77 && b1 == 111 && b2 == 110 { Some(1) }
    else if b0 == 84 && b1 == 117 && b2 == 101 { Some(2) }
    else if b0 == 87 && b1 == 101 && b2 == 100 { Some(3) }
    else if b0 == 84 && b1 == 104 && b2 == 117 { Some(4) }
    else if b0 == 70 && b1 == 114 && b2 == 105 { Some(5) }
    else if b0 == 83 && b1 == 97 && b2 == 116 { Some(6) }
    else { None }
}

/// Runtime form of [`spec_month_code`].
fn month_code(b0: u8, b1: u8, b2: u8) -> (r: Option<u8>)
    ensures
        r == spec_month_code(b0, b1, b2),
{
    if b0 == 74 && b1 == 97 && b2 == 110 { Some(1) }
    else if b0 == 70 && b1 == 101 && b2 == 98 { Some(2) }
    else if b0 == 77 && b1 == 97 && b2 == 114 { Some(3) }
    else if b0 == 65 && b1 == 112 && b2 == 114 { Some(4) }
    else if b0 == 77 && b1 == 97 && b2 == 121 { Some(5) }
    else if b0 == 74 && b1 == 117 && b2 == 110 { Some(6) }
    else if b0 == 74 && b1 == 117 && b2 == 108 { Some(7) }
    else if b0 == 65 && b1 == 117 && b2 == 103 { Some(8) }
    else if b0 == 83 && b1 == 101 && b2 == 112 { Some(9) }
    else if b0 == 79 && b1 == 99 && b2 == 116 { Some(10) }
    else if b0 == 78 && b1 == 111 && b2 == 118 { Some(11) }
    else if b0 == 68 && b1 == 101 && b2 == 99 { Some(12) }
    else { None }
}

/// Two ASCII digits at weights ten and one recover a value under one hundred.
proof fn lemma_split2(n: nat)
    requires
        n <= 99,
    ensures
        dval2(dig_at(n, 10), dig_at(n, 1)) == n,
{
    assert((n / 10) % 10 == n / 10);
    assert((n / 1) % 10 == n % 10);
}

/// Four ASCII digits at decreasing weights recover a value under ten thousand.
proof fn lemma_split4(y: nat)
    requires
        y <= 9999,
    ensures
        dval2(dig_at(y, 1000), dig_at(y, 100)) * 100 + dval2(dig_at(y, 10), dig_at(y, 1)) == y,
{
    assert(((y / 1000) % 10) * 1000 + ((y / 100) % 10) * 100 + ((y / 10) % 10) * 10 + (y / 1) % 10
        == y) by (nonlinear_arith)
        requires
            0 <= y <= 9999,
    ;
}

/// Law: parsing the wire form of a well-formed timestamp returns it.
#[verifier::rlimit(100)]
pub proof fn lemma_date_roundtrip(d: HttpDate)
    requires
        wf_date(d),
    ensures
        spec_parse_date(spec_format_date(d)) == Some(d),
{
    let s = spec_format_date(d);
    lemma_split2(d.day as nat);
    lemma_split2(d.hour as nat);
    lemma_split2(d.minute as nat);
    lemma_split2(d.second as nat);
    lemma_split4(d.year as nat);
    assert(dval2(s[5], s[6]) == d.day);
    assert(dval2(s[17], s[18]) == d.hour);
    assert(dval2(s[20], s[21]) == d.minute);
    assert(dval2(s[23], s[24]) == d.second);
    assert(dval2(s[12], s[13]) * 100 + dval2(s[14], s[15]) == d.year);
    assert(spec_wday_code(s[0], s[1], s[2]) == Some(d.weekday));
    assert(spec_month_code(s[8], s[9], s[10]) == Some(d.month));
}

} // verus!
