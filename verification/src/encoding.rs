use vstd::prelude::*;

verus! {

/// The character of a six-bit value in the standard Base64 alphabet
/// (RFC 4648): `A`–`Z`, `a`–`z`, `0`–`9`, `+`, `/`.
pub open spec fn b64_char(v: int) -> char {
    if v < 26 {
        (65 + v) as char
    } else if v < 52 {
        (97 + v - 26) as char
    } else if v < 62 {
        (48 + v - 52) as char
    } else if v == 62 {
        '+'
    } else {
        '/'
    }
}

/// The six-bit value of a character of the standard Base64 alphabet.
pub open spec fn b64_value(c: char) -> int {
    if 'A' <= c <= 'Z' {
        c as int - 65
    } else if 'a' <= c <= 'z' {
        c as int - 97 + 26
    } else if '0' <= c <= '9' {
        c as int - 48 + 52
    } else if c == '+' {
        62
    } else {
        63
    }
}

/// The standard Base64 text (RFC 4648, with `=` padding) of some bytes: every
/// three bytes become four characters, a last one or two bytes become four
/// characters ending in `==` or `=`.
pub open spec fn base64_std(d: Seq<u8>) -> Seq<char>
    decreases d.len(),
{
    if d.len() == 0 {
        seq![]
    } else if d.len() == 1 {
        let a = d[0] as int;
        seq![b64_char(a / 4), b64_char((a % 4) * 16), '=', '=']
    } else if d.len() == 2 {
        let a = d[0] as int;
        let b = d[1] as int;
        seq![b64_char(a / 4), b64_char((a % 4) * 16 + b / 16), b64_char((b % 16) * 4), '=']
    } else {
        let a = d[0] as int;
        let b = d[1] as int;
        let c = d[2] as int;
        seq![
            b64_char(a / 4),
            b64_char((a % 4) * 16 + b / 16),
            b64_char((b % 16) * 4 + c / 64),
            b64_char(c % 64),
        ] + base64_std(d.subrange(3, d.len() as int))
    }
}

/// Decoding standard Base64 text with padding, four characters at a time.
pub open spec fn base64_decode(s: Seq<char>) -> Seq<u8>
    decreases s.len(),
{
    if s.len() < 4 {
        seq![]
    } else {
        let v0 = b64_value(s[0]);
        let v1 = b64_value(s[1]);
        let v2 = b64_value(s[2]);
        let v3 = b64_value(s[3]);
        let b0 = (v0 * 4 + v1 / 16) as u8;
        let b1 = ((v1 % 16) * 16 + v2 / 4) as u8;
        let b2 = ((v2 % 4) * 64 + v3) as u8;
        let bytes = if s[2] == '=' {
            seq![b0]
        } else if s[3] == '=' {
            seq![b0, b1]
        } else {
            seq![b0, b1, b2]
        };
        bytes + base64_decode(s.subrange(4, s.len() as int))
    }
}

proof fn lemma_b64_char(v: int)
    requires
        0 <= v < 64,
    ensures
        b64_value(b64_char(v)) == v,
        b64_char(v) != '=',
{
}

/// Base64 text has four characters for every three bytes or part of three,
/// and decoding it gives back the bytes.
pub proof fn law_base64_round_trip(d: Seq<u8>)
    ensures
        base64_std(d).len() == 4 * ((d.len() + 2) / 3),
        base64_decode(base64_std(d)) == d,
    decreases d.len(),
{
    if d.len() == 0 {
    } else if d.len() == 1 {
        let a = d[0] as int;
        lemma_b64_char(a / 4);
        lemma_b64_char((a % 4) * 16);
        let s = base64_std(d);
        assert(s.subrange(4, 4) =~= Seq::<char>::empty());
        assert(((a / 4) * 4 + ((a % 4) * 16) / 16) as u8 == d[0]);
        assert(s[2] == '=' && b64_value(s[0]) == a / 4 && b64_value(s[1]) == (a % 4) * 16);
        assert(base64_decode(s.subrange(4, 4)) =~= Seq::<u8>::empty());
        assert(base64_decode(s) =~= d);
    } else if d.len() == 2 {
        let a = d[0] as int;
        let b = d[1] as int;
        lemma_b64_char(a / 4);
        lemma_b64_char((a % 4) * 16 + b / 16);
        lemma_b64_char((b % 16) * 4);
        let s = base64_std(d);
        assert(s.subrange(4, 4) =~= Seq::<char>::empty());
        assert(((a / 4) * 4 + ((a % 4) * 16 + b / 16) / 16) as u8 == d[0]);
        assert(((((a % 4) * 16 + b / 16) % 16) * 16 + ((b % 16) * 4) / 4) as u8 == d[1]);
        assert(s[2] != '=' && s[3] == '=' && b64_value(s[0]) == a / 4 && b64_value(s[1]) == (a
            % 4) * 16 + b / 16 && b64_value(s[2]) == (b % 16) * 4);
        assert(base64_decode(s.subrange(4, 4)) =~= Seq::<u8>::empty());
        assert(base64_decode(s) =~= d);
    } else {
        let a = d[0] as int;
        let b = d[1] as int;
        let c = d[2] as int;
        let rest = d.subrange(3, d.len() as int);
        law_base64_round_trip(rest);
        lemma_b64_char(a / 4);
        lemma_b64_char((a % 4) * 16 + b / 16);
        lemma_b64_char((b % 16) * 4 + c / 64);
        lemma_b64_char(c % 64);
        let s = base64_std(d);
        let quad = seq![
            b64_char(a / 4),
            b64_char((a % 4) * 16 + b / 16),
            b64_char((b % 16) * 4 + c / 64),
            b64_char(c % 64),
        ];
        assert(s == quad + base64_std(rest));
        assert(s.subrange(4, s.len() as int) =~= base64_std(rest));
        assert(((a / 4) * 4 + ((a % 4) * 16 + b / 16) / 16) as u8 == d[0]);
        assert(((((a % 4) * 16 + b / 16) % 16) * 16 + ((b % 16) * 4 + c / 64) / 4) as u8 == d[1]);
        assert(((((b % 16) * 4 + c / 64) % 4) * 64 + c % 64) as u8 == d[2]);
        assert(base64_decode(s) =~= seq![d[0], d[1], d[2]] + rest);
        assert(seq![d[0], d[1], d[2]] + rest =~= d);
        assert(4 * ((d.len() + 2) / 3) == 4 + 4 * ((rest.len() + 2) / 3));
    }
}

} // verus!
