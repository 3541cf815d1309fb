//! MAC addresses: canonical text form, parsing, and the locally-administered bit.

use vstd::prelude::*;

verus! {

/// A 48-bit hardware address, one field per octet.
#[derive(Clone, Copy, PartialEq, Eq, Structural, Debug)]
pub struct MacAddr {
    pub o0: u8,
    pub o1: u8,
    pub o2: u8,
    pub o3: u8,
    pub o4: u8,
    pub o5: u8,
}

/// The upper-case hex digit character for a value below sixteen.
pub open spec fn spec_hex_char(d: u8) -> char {
    if d < 10 {
        crate::text::spec_digit_char(d)
    } else if d == 10 {
        'A'
    } else if d == 11 {
        'B'
    } else if d == 12 {
        'C'
    } else if d == 13 {
        'D'
    } else if d == 14 {
        'E'
    } else {
        'F'
    }
}

/// One-character string for an upper-case hex digit.
pub fn hex_str(d: u8) -> (r: &'static str)
    requires
        d < 16,
    ensures
        r@ =~= seq![spec_hex_char(d)],
{
    if d < 10 {
        crate::text::digit_str(d)
    } else {
        proof {
            reveal_strlit("A");
            reveal_strlit("B");
            reveal_strlit("C");
            reveal_strlit("D");
            reveal_strlit("E");
            reveal_strlit("F");
        }
        match d {
            10 => "A",
            11 => "B",
            12 => "C",
            13 => "D",
            14 => "E",
            _ => "F",
        }
    }
}

/// Two upper-case hex digits of a byte.
pub open spec fn spec_byte_hex(b: u8) -> Seq<char> {
    seq![spec_hex_char((b / 16) as u8), spec_hex_char((b % 16) as u8)]
}

/// Canonical text of a MAC address: upper-case hex pairs, colon-separated.
pub open spec fn spec_mac_text(m: MacAddr) -> Seq<char> {
    spec_byte_hex(m.o0) + seq![':'] + spec_byte_hex(m.o1) + seq![':'] + spec_byte_hex(m.o2) + seq![
        ':',
    ] + spec_byte_hex(m.o3) + seq![':'] + spec_byte_hex(m.o4) + seq![':'] + spec_byte_hex(m.o5)
}

/// Appends the two hex digits of a byte to a string.
fn push_byte_hex(s: &mut String, b: u8)
    ensures
        final(s)@ == old(s)@ + spec_byte_hex(b),
{
    s.append(hex_str(b / 16));
    s.append(hex_str(b % 16));
    assert(final(s)@ =~= old(s)@ + spec_byte_hex(b));
}

/// Renders a MAC address in its canonical text form.
pub fn mac_to_string(m: &MacAddr) -> (r: String)
    ensures
        r@ == spec_mac_text(*m),
{
    proof {
        reveal_strlit(":");
    }
    let mut s = String::new();
    push_byte_hex(&mut s, m.o0);
    s.append(":");
    push_byte_hex(&mut s, m.o1);
    s.append(":");
    push_byte_hex(&mut s, m.o2);
    s.append(":");
    push_byte_hex(&mut s, m.o3);
    s.append(":");
    push_byte_hex(&mut s, m.o4);
    s.append(":");
    push_byte_hex(&mut s, m.o5);
    assert(s@ =~= spec_mac_text(*m));
    s
}

/// The value of a hex digit character, either case; `None` for any other character.
pub open spec fn spec_hex_val(c: char) -> Option<u8> {
    if c == '0' {
        Some(0u8)
    } else if c == '1' {
        Some(1u8)
    } else if c == '2' {
        Some(2u8)
    } else if c == '3' {
        Some(3u8)
    } else if c == '4' {
        Some(4u8)
    } else if c == '5' {
        Some(5u8)
    } else if c == '6' {
        Some(6u8)
    } else if c == '7' {
        Some(7u8)
    } else if c == '8' {
        Some(8u8)
    } else if c == '9' {
        Some(9u8)
    } else if c == 'a' || c == 'A' {
        Some(10u8)
    } else if c == 'b' || c == 'B' {
        Some(11u8)
    } else if c == 'c' || c == 'C' {
        Some(12u8)
    } else if c == 'd' || c == 'D' {
        Some(13u8)
    } else if c == 'e' || c == 'E' {
        Some(14u8)
    } else if c == 'f' || c == 'F' {
        Some(15u8)
    } else {
        None
    }
}

/// The value of a hex digit character, either case.
pub fn hex_val(c: char) -> (r: Option<u8>)
    ensures
        r == spec_hex_val(c),
{
    if c == '0' {
        Some(0)
    } else if c == '1' {
        Some(1)
    } else if c == '2' {
        Some(2)
    } else if c == '3' {
        Some(3)
    } else if c == '4' {
        Some(4)
    } else if c == '5' {
        Some(5)
    } else if c == '6' {
        Some(6)
    } else if c == '7' {
        Some(7)
    } else if c == '8' {
        Some(8)
    } else if c == '9' {
        Some(9)
    } else if c == 'a' || c == 'A' {
        Some(10)
    } else if c == 'b' || c == 'B' {
        Some(11)
    } else if c == 'c' || c == 'C' {
        Some(12)
    } else if c == 'd' || c == 'D' {
        Some(13)
    } else if c == 'e' || c == 'E' {
        Some(14)
    } else if c == 'f' || c == 'F' {
        Some(15)
    } else {
        None
    }
}

/// The byte value of the hex pair at positions `i`, `i + 1`.
pub open spec fn spec_pair_val(s: Seq<char>, i: int) -> Option<u8> {
    match (spec_hex_val(s[i]), spec_hex_val(s[i + 1])) {
        (Some(h), Some(l)) => Some((h * 16 + l) as u8),
        _ => None,
    }
}

/// Whether the text has the shape of a MAC address: six hex pairs
/// (either case) separated by colons.
pub open spec fn spec_mac_shape(s: Seq<char>) -> bool {
    &&& s.len() == 17
    &&& s[2] == ':'
    &&& s[5] == ':'
    &&& s[8] == ':'
    &&& s[11] == ':'
    &&& s[14] == ':'
    &&& spec_pair_val(s, 0) is Some
    &&& spec_pair_val(s, 3) is Some
    &&& spec_pair_val(s, 6) is Some
    &&& spec_pair_val(s, 9) is Some
    &&& spec_pair_val(s, 12) is Some
    &&& spec_pair_val(s, 15) is Some
}

/// Parses colon-separated MAC text, accepting hex digits of either case.
pub open spec fn spec_parse_mac(s: Seq<char>) -> Option<MacAddr> {
    if spec_mac_shape(s) {
        Some(
            MacAddr {
                o0: spec_pair_val(s, 0)->Some_0,
                o1: spec_pair_val(s, 3)->Some_0,
                o2: spec_pair_val(s, 6)->Some_0,
                o3: spec_pair_val(s, 9)->Some_0,
                o4: spec_pair_val(s, 12)->Some_0,
                o5: spec_pair_val(s, 15)->Some_0,
            },
        )
    } else {
        None
    }
}

/// Reads the hex pair at positions `i`, `i + 1`.
fn read_pair(s: &str, i: usize) -> (r: Option<u8>)
    requires
        i < 16,
        i + 1 < s@.len(),
    ensures
        r == spec_pair_val(s@, i as int),
{
    let h = hex_val(s.get_char(i));
    let l = hex_val(s.get_char(i + 1));
    match (h, l) {
        (Some(hv), Some(lv)) => Some(hv * 16 + lv),
        _ => None,
    }
}

/// Parses MAC address text into its six octets.
pub fn parse_mac(s: &str) -> (r: Option<MacAddr>)
    ensures
        r == spec_parse_mac(s@),
{
    if s.unicode_len() != 17 {
        return None;
    }
    if s.get_char(2) != ':' || s.get_char(5) != ':' || s.get_char(8) != ':' || s.get_char(11)
        != ':' || s.get_char(14) != ':' {
        return None;
    }
    let p0 = read_pair(s, 0);
    let p1 = read_pair(s, 3);
    let p2 = read_pair(s, 6);
    let p3 = read_pair(s, 9);
    let p4 = read_pair(s, 12);
    let p5 = read_pair(s, 15);
    match (p0, p1, p2, p3, p4, p5) {
        (Some(o0), Some(o1), Some(o2), Some(o3), Some(o4), Some(o5)) => Some(
            MacAddr { o0, o1, o2, o3, o4, o5 },
        ),
        _ => None,
    }
}

/// A hex digit parses back to its value, in either case.
proof fn lemma_hex_char_val(d: u8)
    requires
        d < 16,
    ensures
        spec_hex_val(spec_hex_char(d)) == Some(d),
{
}

/// Canonical MAC text parses back to the same octets.
pub proof fn lemma_mac_text_roundtrip(m: MacAddr)
    ensures
        spec_parse_mac(spec_mac_text(m)) == Some(m),
{
    let s = spec_mac_text(m);
    assert(s =~= seq![
        spec_hex_char((m.o0 / 16) as u8),
        spec_hex_char((m.o0 % 16) as u8),
        ':',
        spec_hex_char((m.o1 / 16) as u8),
        spec_hex_char((m.o1 % 16) as u8),
        ':',
        spec_hex_char((m.o2 / 16) as u8),
        spec_hex_char((m.o2 % 16) as u8),
        ':',
        spec_hex_char((m.o3 / 16) as u8),
        spec_hex_char((m.o3 % 16) as u8),
        ':',
        spec_hex_char((m.o4 / 16) as u8),
        spec_hex_char((m.o4 % 16) as u8),
        ':',
        spec_hex_char((m.o5 / 16) as u8),
        spec_hex_char((m.o5 % 16) as u8),
    ]);
    lemma_hex_char_val((m.o0 / 16) as u8);
    lemma_hex_char_val((m.o0 % 16) as u8);
    lemma_hex_char_val((m.o1 / 16) as u8);
    lemma_hex_char_val((m.o1 % 16) as u8);
    lemma_hex_char_val((m.o2 / 16) as u8);
    lemma_hex_char_val((m.o2 % 16) as u8);
    lemma_hex_char_val((m.o3 / 16) as u8);
    lemma_hex_char_val((m.o3 % 16) as u8);
    lemma_hex_char_val((m.o4 / 16) as u8);
    lemma_hex_char_val((m.o4 % 16) as u8);
    lemma_hex_char_val((m.o5 / 16) as u8);
    lemma_hex_char_val((m.o5 % 16) as u8);
}

/// Whether the locally-administered bit (0x02 of the first octet) is set:
/// the mark of a randomized or virtual MAC.
pub open spec fn spec_is_locally_administered(m: MacAddr) -> bool {
    m.o0 & 2 != 0
}

/// Whether a MAC is locally administered (randomized/virtual).
pub fn is_locally_administered(m: &MacAddr) -> (r: bool)
    ensures
        r == spec_is_locally_administered(*m),
{
    m.o0 & 2 != 0
}

/// Whether every octet is zero.
pub open spec fn spec_is_zero_mac(m: MacAddr) -> bool {
    m.o0 == 0 && m.o1 == 0 && m.o2 == 0 && m.o3 == 0 && m.o4 == 0 && m.o5 == 0
}

/// Whether every octet is zero.
pub fn is_zero_mac(m: &MacAddr) -> (r: bool)
    ensures
        r == spec_is_zero_mac(*m),
{
    m.o0 == 0 && m.o1 == 0 && m.o2 == 0 && m.o3 == 0 && m.o4 == 0 && m.o5 == 0
}

} // verus!
