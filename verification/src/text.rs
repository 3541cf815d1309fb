//! Decimal text rendering for octets and IPv4 addresses.

use vstd::prelude::*;

verus! {

/// The decimal digit character for a value below ten.
pub open spec fn spec_digit_char(d: u8) -> char {
    if d == 0 {
        '0'
    } else if d == 1 {
        '1'
    } else if d == 2 {
        '2'
    } else if d == 3 {
        '3'
    } else if d == 4 {
        '4'
    } else if d == 5 {
        '5'
    } else if d == 6 {
        '6'
    } else if d == 7 {
        '7'
    } else if d == 8 {
        '8'
    } else {
        '9'
    }
}

/// One-character string for a decimal digit.
pub fn digit_str(d: u8) -> (r: &'static str)
    requires
        d < 10,
    ensures
        r@ =~= seq![spec_digit_char(d)],
{
    proof {
        reveal_strlit("0");
        reveal_strlit("1");
        reveal_strlit("2");
        reveal_strlit("3");
        reveal_strlit("4");
        reveal_strlit("5");
        reveal_strlit("6");
        reveal_strlit("7");
        reveal_strlit("8");
        reveal_strlit("9");
    }
    match d {
        0 => "0",
        1 => "1",
        2 => "2",
        3 => "3",
        4 => "4",
        5 => "5",
        6 => "6",
        7 => "7",
        8 => "8",
        _ => "9",
    }
}

/// Decimal text of a byte value, without leading zeros.
pub open spec fn spec_u8_text(n: u8) -> Seq<char> {
    if n >= 100 {
        seq![
            spec_digit_char((n / 100) as u8),
            spec_digit_char(((n / 10) % 10) as u8),
            spec_digit_char((n % 10) as u8),
        ]
    } else if n >= 10 {
        seq![spec_digit_char((n / 10) as u8), spec_digit_char((n % 10) as u8)]
    } else {
        seq![spec_digit_char(n)]
    }
}

/// Appends the decimal text of a byte to a string.
pub fn push_u8_text(s: &mut String, n: u8)
    ensures
        final(s)@ == old(s)@ + spec_u8_text(n),
{
    if n >= 100 {
        s.append(digit_str(n / 100));
        s.append(digit_str((n / 10) % 10));
        s.append(digit_str(n % 10));
        assert(old(s)@ + spec_u8_text(n) =~= old(s)@ + seq![
            spec_digit_char((n / 100) as u8),
            spec_digit_char(((n / 10) % 10) as u8),
            spec_digit_char((n % 10) as u8),
        ]);
        assert(final(s)@ =~= old(s)@ + spec_u8_text(n));
    } else if n >= 10 {
        s.append(digit_str(n / 10));
        s.append(digit_str(n % 10));
        assert(final(s)@ =~= old(s)@ + spec_u8_text(n));
    } else {
        s.append(digit_str(n));
        assert(final(s)@ =~= old(s)@ + spec_u8_text(n));
    }
}

/// The four octets of an IPv4 address given as one 32-bit number,
/// most significant first.
pub open spec fn spec_ip_octet(ip: u32, k: int) -> u8 {
    if k == 0 {
        ((ip / 0x1000000) % 256) as u8
    } else if k == 1 {
        ((ip / 0x10000) % 256) as u8
    } else if k == 2 {
        ((ip / 0x100) % 256) as u8
    } else {
        (ip % 256) as u8
    }
}

/// Dotted-quad text of an IPv4 address.
pub open spec fn spec_ipv4_text(ip: u32) -> Seq<char> {
    spec_u8_text(spec_ip_octet(ip, 0)) + seq!['.'] + spec_u8_text(spec_ip_octet(ip, 1)) + seq![
        '.',
    ] + spec_u8_text(spec_ip_octet(ip, 2)) + seq!['.'] + spec_u8_text(spec_ip_octet(ip, 3))
}

/// One octet of an IPv4 address, counted from the most significant.
pub fn ip_octet(ip: u32, k: usize) -> (r: u8)
    requires
        k < 4,
    ensures
        r == spec_ip_octet(ip, k as int),
{
    if k == 0 {
        ((ip / 0x1000000) % 256) as u8
    } else if k == 1 {
        ((ip / 0x10000) % 256) as u8
    } else if k == 2 {
        ((ip / 0x100) % 256) as u8
    } else {
        (ip % 256) as u8
    }
}

/// Decimal digit characters are pairwise distinct and none is a dot.
proof fn lemma_digit_chars(d1: u8, d2: u8)
    requires
        d1 < 10,
        d2 < 10,
    ensures
        spec_digit_char(d1) != '.',
        spec_digit_char(d1) == spec_digit_char(d2) ==> d1 == d2,
{
}

/// No character of a byte's decimal text is a dot.
proof fn lemma_u8_text_no_dot(n: u8, j: int)
    requires
        0 <= j < spec_u8_text(n).len(),
    ensures
        spec_u8_text(n)[j] != '.',
{
    if n >= 100 {
        lemma_digit_chars((n / 100) as u8, 0);
        lemma_digit_chars(((n / 10) % 10) as u8, 0);
        lemma_digit_chars((n % 10) as u8, 0);
    } else if n >= 10 {
        lemma_digit_chars((n / 10) as u8, 0);
        lemma_digit_chars((n % 10) as u8, 0);
    } else {
        lemma_digit_chars(n, 0);
    }
}

/// A byte's decimal text determines the byte.
proof fn lemma_u8_text_injective(a: u8, b: u8)
    requires
        spec_u8_text(a) == spec_u8_text(b),
    ensures
        a == b,
{
    assert forall|d1: u8, d2: u8|
        d1 < 10 && d2 < 10 && spec_digit_char(d1) == spec_digit_char(d2) implies d1 == d2 by {
        lemma_digit_chars(d1, d2);
    }
    if a >= 100 {
        assert(spec_u8_text(b).len() == 3);
        assert(b >= 100);
        assert(spec_digit_char((a / 100) as u8) == spec_digit_char((b / 100) as u8));
        assert(spec_digit_char(((a / 10) % 10) as u8) == spec_digit_char(((b / 10) % 10) as u8));
        assert(spec_digit_char((a % 10) as u8) == spec_digit_char((b % 10) as u8));
        assert(a / 100 == b / 100 && (a / 10) % 10 == (b / 10) % 10 && a % 10 == b % 10);
        assert(a == (a / 100) * 100 + ((a / 10) % 10) * 10 + a % 10) by {
            assert(a / 100 == (a / 10) / 10) by (nonlinear_arith);
            vstd::arithmetic::div_mod::lemma_fundamental_div_mod(a as int, 10);
            vstd::arithmetic::div_mod::lemma_fundamental_div_mod((a / 10) as int, 10);
        }
        assert(b == (b / 100) * 100 + ((b / 10) % 10) * 10 + b % 10) by {
            assert(b / 100 == (b / 10) / 10) by (nonlinear_arith);
            vstd::arithmetic::div_mod::lemma_fundamental_div_mod(b as int, 10);
            vstd::arithmetic::div_mod::lemma_fundamental_div_mod((b / 10) as int, 10);
        }
    } else if a >= 10 {
        assert(spec_u8_text(b).len() == 2);
        assert(10 <= b && b < 100);
        assert(spec_digit_char((a / 10) as u8) == spec_digit_char((b / 10) as u8));
        assert(spec_digit_char((a % 10) as u8) == spec_digit_char((b % 10) as u8));
        assert(a / 10 == b / 10 && a % 10 == b % 10);
        vstd::arithmetic::div_mod::lemma_fundamental_div_mod(a as int, 10);
        vstd::arithmetic::div_mod::lemma_fundamental_div_mod(b as int, 10);
    } else {
        assert(spec_u8_text(b).len() == 1);
        assert(b < 10);
        assert(spec_u8_text(a)[0] == spec_digit_char(a));
        assert(spec_u8_text(b)[0] == spec_digit_char(b));
        assert(spec_digit_char(a) == spec_digit_char(b));
    }
}

/// Peels one dot-terminated decimal segment off equal texts: the leading
/// bytes and the tails agree.
proof fn lemma_peel_segment(x: u8, y: u8, ra: Seq<char>, rb: Seq<char>)
    requires
        spec_u8_text(x) + seq!['.'] + ra == spec_u8_text(y) + seq!['.'] + rb,
    ensures
        x == y,
        ra =~= rb,
{
    let ua = spec_u8_text(x);
    let ub = spec_u8_text(y);
    let sa = ua + seq!['.'] + ra;
    let sb = ub + seq!['.'] + rb;
    assert(sa.len() == sb.len());
    if ua.len() < ub.len() {
        let j = ua.len() as int;
        assert(sa[j] == (ua + seq!['.'])[j]);
        assert(sa[j] == '.');
        assert(sb[j] == (ub + seq!['.'])[j]);
        assert(sb[j] == ub[j]);
        lemma_u8_text_no_dot(y, j);
        assert(false);
    }
    if ub.len() < ua.len() {
        let j = ub.len() as int;
        assert(sb[j] == (ub + seq!['.'])[j]);
        assert(sb[j] == '.');
        assert(sa[j] == (ua + seq!['.'])[j]);
        assert(sa[j] == ua[j]);
        lemma_u8_text_no_dot(x, j);
        assert(false);
    }
    assert(ua =~= ub) by {
        assert forall|j: int| 0 <= j < ua.len() implies ua[j] == ub[j] by {
            assert(sa[j] == (ua + seq!['.'])[j]);
            assert(sb[j] == (ub + seq!['.'])[j]);
        }
    }
    lemma_u8_text_injective(x, y);
    assert(ra =~= rb) by {
        assert forall|j: int| 0 <= j < ra.len() implies ra[j] == rb[j] by {
            assert(sa[j + ua.len() + 1] == ra[j]);
            assert(sb[j + ub.len() + 1] == rb[j]);
        }
    }
}

/// The dotted-quad text, nested segment by segment.
proof fn lemma_ipv4_text_shape(ip: u32)
    ensures
        spec_ipv4_text(ip) == spec_u8_text(spec_ip_octet(ip, 0)) + seq!['.'] + (spec_u8_text(
            spec_ip_octet(ip, 1),
        ) + seq!['.'] + (spec_u8_text(spec_ip_octet(ip, 2)) + seq!['.'] + spec_u8_text(
            spec_ip_octet(ip, 3),
        ))),
{
    assert(spec_ipv4_text(ip) =~= spec_u8_text(spec_ip_octet(ip, 0)) + seq!['.'] + (spec_u8_text(
        spec_ip_octet(ip, 1),
    ) + seq!['.'] + (spec_u8_text(spec_ip_octet(ip, 2)) + seq!['.'] + spec_u8_text(
        spec_ip_octet(ip, 3),
    ))));
}

/// Dotted-quad text determines the address: no two IPv4 addresses render
/// to the same text.
pub proof fn lemma_ipv4_text_injective(a: u32, b: u32)
    requires
        spec_ipv4_text(a) == spec_ipv4_text(b),
    ensures
        a == b,
{
    lemma_ipv4_text_shape(a);
    lemma_ipv4_text_shape(b);
    let ta3 = spec_u8_text(spec_ip_octet(a, 3));
    let tb3 = spec_u8_text(spec_ip_octet(b, 3));
    let ra2 = spec_u8_text(spec_ip_octet(a, 2)) + seq!['.'] + ta3;
    let rb2 = spec_u8_text(spec_ip_octet(b, 2)) + seq!['.'] + tb3;
    let ra1 = spec_u8_text(spec_ip_octet(a, 1)) + seq!['.'] + ra2;
    let rb1 = spec_u8_text(spec_ip_octet(b, 1)) + seq!['.'] + rb2;
    lemma_peel_segment(spec_ip_octet(a, 0), spec_ip_octet(b, 0), ra1, rb1);
    lemma_peel_segment(spec_ip_octet(a, 1), spec_ip_octet(b, 1), ra2, rb2);
    lemma_peel_segment(spec_ip_octet(a, 2), spec_ip_octet(b, 2), ta3, tb3);
    lemma_u8_text_injective(spec_ip_octet(a, 3), spec_ip_octet(b, 3));
    // Equal octets make equal addresses.
    lemma_octet_recompose(a);
    lemma_octet_recompose(b);
}

/// An address is its four octets reassembled.
proof fn lemma_octet_recompose(ip: u32)
    ensures
        ip == spec_ip_octet(ip, 0) * 0x1000000 + spec_ip_octet(ip, 1) * 0x10000 + spec_ip_octet(
            ip,
            2,
        ) * 0x100 + spec_ip_octet(ip, 3),
{
    let x = ip as int;
    vstd::arithmetic::div_mod::lemma_fundamental_div_mod(x, 0x100);
    vstd::arithmetic::div_mod::lemma_fundamental_div_mod(x / 0x100, 0x100);
    vstd::arithmetic::div_mod::lemma_fundamental_div_mod(x / 0x10000, 0x100);
    assert(x / 0x10000 == (x / 0x100) / 0x100) by (nonlinear_arith);
    assert(x / 0x1000000 == (x / 0x10000) / 0x100) by (nonlinear_arith);
    assert((x / 0x1000000) % 256 == x / 0x1000000) by {
        assert(x / 0x1000000 < 256) by (nonlinear_arith)
            requires
                0 <= x < 0x1_0000_0000,
        ;
        vstd::arithmetic::div_mod::lemma_small_mod((x / 0x1000000) as nat, 256);
        assert(x / 0x1000000 >= 0) by (nonlinear_arith)
            requires
                x >= 0,
        ;
    }
}

/// Character-wise string equality.
pub fn str_eq(a: &str, b: &str) -> (r: bool)
    ensures
        r == (a@ == b@),
{
    let a_len = a.unicode_len();
    let b_len = b.unicode_len();
    if a_len != b_len {
        return false;
    }
    let mut i: usize = 0;
    while i < a_len
        invariant
            a_len == a@.len(),
            b_len == b@.len(),
            a_len == b_len,
            0 <= i <= a_len,
            forall|j: int| 0 <= j < i ==> a@[j] == b@[j],
        decreases a_len - i,
    {
        if a.get_char(i) != b.get_char(i) {
            return false;
        }
        i = i + 1;
    }
    proof {
        assert(a@ =~= b@);
    }
    true
}

/// Renders an IPv4 address as dotted-quad text.
pub fn ipv4_to_string(ip: u32) -> (r: String)
    ensures
        r@ == spec_ipv4_text(ip),
{
    proof {
        reveal_strlit(".");
    }
    let mut s = String::new();
    push_u8_text(&mut s, ip_octet(ip, 0));
    s.append(".");
    push_u8_text(&mut s, ip_octet(ip, 1));
    s.append(".");
    push_u8_text(&mut s, ip_octet(ip, 2));
    s.append(".");
    push_u8_text(&mut s, ip_octet(ip, 3));
    assert(s@ =~= spec_ipv4_text(ip));
    s
}

} // verus!
