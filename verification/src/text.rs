//! Character-level text helpers: characters of a string, decimal and hex
//! formatting, JSON escaping, UTF-16 encoding.

use vstd::prelude::*;

verus! {

broadcast use vstd::string::group_string_axioms;

/// The characters of a string, in order.
pub fn chars_of(s: &str) -> (r: Vec<char>)
    ensures
        r@ == s@,
{
    let mut out: Vec<char> = Vec::new();
    for c in it: s.chars()
        invariant
            it.seq() == s@,
            out@ == it.seq().take(it.index() as int),
    {
        assert(it.seq().take(it.index() + 1) =~= it.seq().take(it.index() as int).push(c));
        out.push(c);
    }
    assert(s@.take(s@.len() as int) =~= s@);
    out
}

/// `String::from_iter` over characters: the string made of exactly these
/// characters.
#[verifier::external_body]
pub(crate) fn string_from_chars(cs: &[char]) -> (r: String)
    ensures
        r@ == cs@,
{
    cs.iter().collect()
}

/// Appends the characters of `s`.
pub fn push_str(out: &mut Vec<char>, s: &str)
    ensures
        final(out)@ == old(out)@ + s@,
{
    let cs = chars_of(s);
    let ghost start = out@;
    let mut i: usize = 0;
    while i < cs.len()
        invariant
            i <= cs@.len(),
            out@ == start + cs@.take(i as int),
        decreases cs@.len() - i,
    {
        out.push(cs[i]);
        assert(cs@.take(i + 1) =~= cs@.take(i as int).push(cs@[i as int]));
        i = i + 1;
    }
    assert(cs@.take(i as int) =~= cs@);
}

/// The decimal digit character for `d < 10`.
pub open spec fn digit_char(d: nat) -> char {
    if d == 0 {
        '0'
    } else if d == 1 {
        '1'
    } else if d == 2 {
        '2'
    } else if d == 3 {
        '3'
    } else if d == 4 {
        '4'
    } else if d == 5 {
        '5'
    } else if d == 6 {
        '6'
    } else if d == 7 {
        '7'
    } else if d == 8 {
        '8'
    } else {
        '9'
    }
}

/// The lowercase hex digit character for `d < 16`.
pub open spec fn hex_char(d: nat) -> char {
    if d < 10 {
        digit_char(d)
    } else if d == 10 {
        'a'
    } else if d == 11 {
        'b'
    } else if d == 12 {
        'c'
    } else if d == 13 {
        'd'
    } else if d == 14 {
        'e'
    } else {
        'f'
    }
}

/// Decimal digits of a natural number, most significant first.
pub open spec fn decimal_nat(n: nat) -> Seq<char>
    decreases n,
{
    if n < 10 {
        seq![digit_char(n)]
    } else {
        decimal_nat(n / 10).push(digit_char(n % 10))
    }
}

/// Decimal form of an integer, with a leading minus sign when negative.
pub open spec fn decimal(v: int) -> Seq<char> {
    if v < 0 {
        seq!['-'] + decimal_nat((-v) as nat)
    } else {
        decimal_nat(v as nat)
    }
}

fn digit(d: u64) -> (r: char)
    requires
        d < 10,
    ensures
        r == digit_char(d as nat),
{
    match d {
        0 => '0',
        1 => '1',
        2 => '2',
        3 => '3',
        4 => '4',
        5 => '5',
        6 => '6',
        7 => '7',
        8 => '8',
        _ => '9',
    }
}

fn hex_digit(d: u32) -> (r: char)
    requires
        d < 16,
    ensures
        r == hex_char(d as nat),
{
    if d < 10 {
        digit(d as u64)
    } else {
        match d {
            10 => 'a',
            11 => 'b',
            12 => 'c',
            13 => 'd',
            14 => 'e',
            _ => 'f',
        }
    }
}

fn push_decimal_nat(out: &mut Vec<char>, n: u64)
    ensures
        final(out)@ == old(out)@ + decimal_nat(n as nat),
    decreases n,
{
    if n >= 10 {
        push_decimal_nat(out, n / 10);
    }
    out.push(digit(n % 10));
    assert(final(out)@ =~= old(out)@ + decimal_nat(n as nat));
}

/// Appends the decimal form of `v`.
pub fn push_decimal(out: &mut Vec<char>, v: i32)
    ensures
        final(out)@ == old(out)@ + decimal(v as int),
{
    if v < 0 {
        out.push('-');
        let m = (0i64 - (v as i64)) as u64;
        push_decimal_nat(out, m);
    } else {
        push_decimal_nat(out, v as u64);
    }
    assert(final(out)@ =~= old(out)@ + decimal(v as int));
}

/// How one character is written inside a JSON string literal.
pub open spec fn json_escape_char(c: char) -> Seq<char> {
    if c == '"' {
        seq!['\\', '"']
    } else if c == '\\' {
        seq!['\\', '\\']
    } else if c == '\n' {
        seq!['\\', 'n']
    } else if c == '\r' {
        seq!['\\', 'r']
    } else if c == '\t' {
        seq!['\\', 't']
    } else if (c as u32) < 0x20 {
        seq!['\\', 'u', '0', '0', hex_char(((c as u32) / 16) as nat), hex_char(((c as u32) % 16) as nat)]
    } else {
        seq![c]
    }
}

/// A string's characters escaped for a JSON string literal.
pub open spec fn spec_json_escape(s: Seq<char>) -> Seq<char>
    decreases s.len(),
{
    if s.len() == 0 {
        Seq::empty()
    } else {
        spec_json_escape(s.drop_last()) + json_escape_char(s.last())
    }
}

/// Appends the JSON-escaped form of one character.
pub fn push_escaped(out: &mut Vec<char>, c: char)
    ensures
        final(out)@ == old(out)@ + json_escape_char(c),
{
    if c == '"' {
        out.push('\\');
        out.push('"');
    } else if c == '\\' {
        out.push('\\');
        out.push('\\');
    } else if c == '\n' {
        out.push('\\');
        out.push('n');
    } else if c == '\r' {
        out.push('\\');
        out.push('r');
    } else if c == '\t' {
        out.push('\\');
        out.push('t');
    } else if (c as u32) < 0x20 {
        let v = c as u32;
        out.push('\\');
        out.push('u');
        out.push('0');
        out.push('0');
        out.push(hex_digit(v / 16));
        out.push(hex_digit(v % 16));
    } else {
        out.push(c);
    }
    assert(final(out)@ =~= old(out)@ + json_escape_char(c));
}

/// Appends the JSON-escaped form of every character of `s`.
pub fn push_json_escaped(out: &mut Vec<char>, s: &str)
    ensures
        final(out)@ == old(out)@ + spec_json_escape(s@),
{
    let cs = chars_of(s);
    let ghost start = out@;
    let mut i: usize = 0;
    while i < cs.len()
        invariant
            i <= cs@.len(),
            out@ == start + spec_json_escape(cs@.take(i as int)),
        decreases cs@.len() - i,
    {
        push_escaped(out, cs[i]);
        assert(cs@.take(i + 1).drop_last() =~= cs@.take(i as int));
        assert(out@ =~= start + spec_json_escape(cs@.take(i + 1)));
        i = i + 1;
    }
    assert(cs@.take(i as int) =~= cs@);
}

/// Escape a string for embedding in a JSON string literal.
pub fn json_escape(s: &str) -> (r: String)
    ensures
        r@ == spec_json_escape(s@),
{
    let mut out: Vec<char> = Vec::new();
    push_json_escaped(&mut out, s);
    assert(out@ =~= spec_json_escape(s@));
    string_from_chars(out.as_slice())
}

/// The section sign that starts a Minecraft formatting code.
pub open spec fn section_sign() -> char {
    '\u{00a7}'
}

/// Text with every formatting code (the section sign and the character
/// after it) removed.
pub open spec fn spec_strip_section(s: Seq<char>) -> Seq<char>
    decreases s.len(),
{
    if s.len() == 0 {
        Seq::empty()
    } else if s[0] == section_sign() {
        if s.len() >= 2 {
            spec_strip_section(s.skip(2))
        } else {
            Seq::empty()
        }
    } else {
        seq![s[0]] + spec_strip_section(s.skip(1))
    }
}

/// Appends `s` with its formatting codes dropped.
pub fn push_stripped(out: &mut Vec<char>, s: &str)
    ensures
        final(out)@ == old(out)@ + spec_strip_section(s@),
{
    let cs = chars_of(s);
    let ghost start = out@;
    let mut i: usize = 0;
    assert(cs@.skip(0) =~= cs@);
    while i < cs.len()
        invariant
            i <= cs@.len(),
            start + spec_strip_section(cs@) == out@ + spec_strip_section(cs@.skip(i as int)),
        decreases cs@.len() - i,
    {
        let c = cs[i];
        let ghost rest = cs@.skip(i as int);
        assert(rest[0] == c);
        if c == '\u{00a7}' {
            if i + 1 < cs.len() {
                assert(rest.skip(2) =~= cs@.skip(i + 2));
                i = i + 2;
            } else {
                assert(cs@.skip(cs@.len() as int) =~= Seq::<char>::empty());
                i = i + 1;
            }
        } else {
            let ghost before = out@;
            out.push(c);
            assert(rest.skip(1) =~= cs@.skip(i + 1));
            assert(spec_strip_section(rest) == seq![c] + spec_strip_section(rest.skip(1)));
            assert(before + (seq![c] + spec_strip_section(rest.skip(1))) =~= out@ + spec_strip_section(cs@.skip(i + 1)));
            i = i + 1;
        }
    }
    assert(cs@.skip(i as int) =~= Seq::<char>::empty());
}

/// Legacy MOTD fields can't contain section-sign color codes (the format
/// reuses the sign as a separator), so drop them and the following code
/// character.
pub fn strip_section(s: &str) -> (r: String)
    ensures
        r@ == spec_strip_section(s@),
{
    let mut out: Vec<char> = Vec::new();
    push_stripped(&mut out, s);
    assert(out@ =~= spec_strip_section(s@));
    string_from_chars(out.as_slice())
}

/// UTF-16 code units of one character.
pub open spec fn utf16_of(c: char) -> Seq<u16> {
    let v = c as u32;
    if v < 0x10000 {
        seq![v as u16]
    } else {
        let w = (v - 0x10000) as u32;
        seq![(0xd800 + (w >> 10u32)) as u16, (0xdc00 + (w & 0x3ffu32)) as u16]
    }
}

/// UTF-16 code units of a character sequence.
pub open spec fn utf16_units(s: Seq<char>) -> Seq<u16>
    decreases s.len(),
{
    if s.len() == 0 {
        Seq::empty()
    } else {
        utf16_units(s.drop_last()) + utf16_of(s.last())
    }
}

/// Appends the UTF-16 code units of `cs`.
pub fn push_utf16(out: &mut Vec<u16>, cs: &[char])
    ensures
        final(out)@ == old(out)@ + utf16_units(cs@),
{
    let ghost start = out@;
    let mut i: usize = 0;
    while i < cs.len()
        invariant
            i <= cs@.len(),
            out@ == start + utf16_units(cs@.take(i as int)),
        decreases cs@.len() - i,
    {
        let v = cs[i] as u32;
        proof {
            vstd::utf8::char_is_scalar(cs@[i as int]);
        }
        if v < 0x10000 {
            out.push(v as u16);
        } else {
            let w = v - 0x10000;
            assert(w <= 0xfffff ==> (w >> 10u32) <= 0x3ff && (w & 0x3ffu32) <= 0x3ff) by (bit_vector);
            out.push((0xD800 + (w >> 10)) as u16);
            out.push((0xDC00 + (w & 0x3FF)) as u16);
        }
        assert(cs@.take(i + 1).drop_last() =~= cs@.take(i as int));
        assert(out@ =~= start + utf16_units(cs@.take(i + 1)));
        i = i + 1;
    }
    assert(cs@.take(i as int) =~= cs@);
}

} // verus!
