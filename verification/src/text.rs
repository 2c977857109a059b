//! Numbers as text: decimal and hexadecimal rendering, and the decimal
//! reading of unsigned 32-bit integers.

use vstd::prelude::*;
use vstd::string::*;

verus! {

/// The lower-case hexadecimal digit for a value below sixteen; for a value
/// below ten this is its decimal digit.
pub open spec fn hex_digit(d: nat) -> char {
    if d == 0 {
        '0'
    } else if d == 1 {
        '1'
    } else if d == 2 {
        '2'
    } else if d == 3 {
        '3'
    } else if d == 4 {
        '4'
    } else if d == 5 {
        '5'
    } else if d == 6 {
        '6'
    } else if d == 7 {
        '7'
    } else if d == 8 {
        '8'
    } else if d == 9 {
        '9'
    } else if d == 10 {
        'a'
    } else if d == 11 {
        'b'
    } else if d == 12 {
        'c'
    } else if d == 13 {
        'd'
    } else if d == 14 {
        'e'
    } else {
        'f'
    }
}

/// Decimal rendering without sign or leading zeros; zero is "0".
pub open spec fn decimal(n: nat) -> Seq<char>
    decreases n,
{
    if n < 10 {
        seq![hex_digit(n)]
    } else {
        decimal(n / 10).push(hex_digit(n % 10))
    }
}

/// Hexadecimal rendering in exactly `width` lower-case digits, padded with
/// zeros on the left; digits above `width` are cut off.
pub open spec fn hex_fixed(value: nat, width: nat) -> Seq<char>
    decreases width,
{
    if width == 0 {
        Seq::<char>::empty()
    } else {
        hex_fixed(value / 16, (width - 1) as nat).push(hex_digit(value % 16))
    }
}

/// Each byte as two hexadecimal digits, neighbours parted by `sep`.
pub open spec fn hex_joined(data: Seq<u8>, sep: Seq<char>) -> Seq<char>
    decreases data.len(),
{
    if data.len() == 0 {
        Seq::<char>::empty()
    } else if data.len() == 1 {
        hex_fixed(data[0] as nat, 2)
    } else {
        hex_joined(data.drop_last(), sep) + sep + hex_fixed(data.last() as nat, 2)
    }
}

/// Bytes as hexadecimal pairs with single spaces between them.
pub open spec fn hex_spaced(data: Seq<u8>) -> Seq<char> {
    hex_joined(data, seq![' '])
}

/// Bytes as a bracketed list of hexadecimal pairs, such as `[0a, ff]`.
pub open spec fn hex_list(data: Seq<u8>) -> Seq<char> {
    seq!['['] + hex_joined(data, seq![',', ' ']) + seq![']']
}

/// The character is a decimal digit.
pub open spec fn is_digit(c: char) -> bool {
    '0' <= c <= '9'
}

/// The value of a decimal digit.
pub open spec fn digit_value(c: char) -> nat {
    (c as u32 - 48) as nat
}

/// Every character of the text is a decimal digit.
pub open spec fn all_digits(s: Seq<char>) -> bool {
    forall|i: int| 0 <= i < s.len() ==> is_digit(#[trigger] s[i])
}

/// The number that a sequence of decimal digits denotes; the empty sequence
/// denotes zero.
pub open spec fn digits_value(s: Seq<char>) -> nat
    decreases s.len(),
{
    if s.len() == 0 {
        0
    } else {
        digits_value(s.drop_last()) * 10 + digit_value(s.last())
    }
}

/// The text without one leading plus sign, if it has one.
pub open spec fn unsigned_body(s: Seq<char>) -> Seq<char> {
    if s.len() > 0 && s[0] == '+' {
        s.drop_first()
    } else {
        s
    }
}

/// Reading of a number of at most `max`: one or more decimal digits whose
/// value is not above `max`. Anything else is no number.
pub open spec fn parse_digits_spec(s: Seq<char>, max: nat) -> Option<u64> {
    if s.len() > 0 && all_digits(s) && digits_value(s) <= max {
        Some(digits_value(s) as u64)
    } else {
        None
    }
}

/// Reading of an unsigned 32-bit integer: an optional plus sign, then one or
/// more decimal digits whose value fits in 32 bits. Anything else is no number.
pub open spec fn parse_u32_spec(s: Seq<char>) -> Option<u32> {
    match parse_digits_spec(unsigned_body(s), u32::MAX as nat) {
        Some(v) => Some(v as u32),
        None => None,
    }
}

fn hex_digit_str(d: u8) -> (r: &'static str)
    requires
        d < 16,
    ensures
        r@ == seq![hex_digit(d as nat)],
{
    proof {
        reveal_strlit("0");
        reveal_strlit("1");
        reveal_strlit("2");
        reveal_strlit("3");
        reveal_strlit("4");
        reveal_strlit("5");
        reveal_strlit("6");
        reveal_strlit("7");
        reveal_strlit("8");
        reveal_strlit("9");
        reveal_strlit("a");
        reveal_strlit("b");
        reveal_strlit("c");
        reveal_strlit("d");
        reveal_strlit("e");
        reveal_strlit("f");
    }
    match d {
        0 => "0",
        1 => "1",
        2 => "2",
        3 => "3",
        4 => "4",
        5 => "5",
        6 => "6",
        7 => "7",
        8 => "8",
        9 => "9",
        10 => "a",
        11 => "b",
        12 => "c",
        13 => "d",
        14 => "e",
        _ => "f",
    }
}

/// Appends the decimal rendering of `n`.
pub fn push_decimal(s: &mut String, n: u64)
    ensures
        final(s)@ == old(s)@ + decimal(n as nat),
    decreases n,
{
    if n >= 10 {
        push_decimal(s, n / 10);
    }
    s.append(hex_digit_str((n % 10) as u8));
}

/// The decimal rendering of `n`.
pub fn decimal_string(n: u64) -> (r: String)
    ensures
        r@ == decimal(n as nat),
{
    let mut s = String::new();
    push_decimal(&mut s, n);
    s
}

/// Appends the lowest `width` hexadecimal digits of `v`.
pub fn push_hex(s: &mut String, v: u64, width: u8)
    ensures
        final(s)@ == old(s)@ + hex_fixed(v as nat, width as nat),
    decreases width,
{
    if width > 0 {
        push_hex(s, v / 16, width - 1);
        s.append(hex_digit_str((v % 16) as u8));
    }
}

/// Appends one byte as two hexadecimal digits.
pub fn push_hex2(s: &mut String, b: u8)
    ensures
        final(s)@ == old(s)@ + hex_fixed(b as nat, 2),
{
    push_hex(s, b as u64, 2);
}

/// Appends a 32-bit value as eight hexadecimal digits.
pub fn push_hex8(s: &mut String, v: u32)
    ensures
        final(s)@ == old(s)@ + hex_fixed(v as nat, 8),
{
    push_hex(s, v as u64, 8);
}

/// Appends the bytes as hexadecimal pairs, neighbours parted by `sep`.
pub fn push_hex_joined(s: &mut String, data: &[u8], sep: &str)
    ensures
        final(s)@ == old(s)@ + hex_joined(data@, sep@),
{
    let mut i: usize = 0;
    while i < data.len()
        invariant
            i <= data.len(),
            s@ == old(s)@ + hex_joined(data@.take(i as int), sep@),
        decreases data.len() - i,
    {
        proof {
            let next = data@.take(i + 1);
            assert(next.drop_last() == data@.take(i as int));
            assert(next.last() == data@[i as int]);
            if i == 0 {
                assert(next[0] == data@[0]);
            }
        }
        if i > 0 {
            s.append(sep);
        }
        push_hex2(s, data[i]);
        i = i + 1;
    }
    proof {
        assert(data@.take(data.len() as int) == data@);
    }
}

/// Reads the digits of `s` from position `from` to its end as a number of
/// at most `max`.
pub fn parse_digits(s: &str, from: usize, max: u64) -> (r: Option<u64>)
    requires
        from <= s@.len(),
        max <= 0xffff_ffff,
    ensures
        r == parse_digits_spec(s@.skip(from as int), max as nat),
{
    let len = s.unicode_len();
    let ghost body = s@.skip(from as int);
    if from == len {
        return None;
    }
    let mut value: u64 = 0;
    let mut i: usize = from;
    while i < len
        invariant
            from <= i <= len,
            len == s@.len(),
            body == s@.skip(from as int),
            max <= 0xffff_ffff,
            all_digits(body.take(i - from)),
            value == digits_value(body.take(i - from)),
            value <= max,
        decreases len - i,
    {
        let c = s.get_char(i);
        let ghost k = i - from;
        proof {
            assert(body[k] == c);
            assert(body.take(k + 1).drop_last() == body.take(k));
            assert(body.take(k + 1).last() == c);
        }
        if !(c >= '0' && c <= '9') {
            proof {
                assert(!is_digit(body[k]));
            }
            return None;
        }
        let d: u64 = (c as u32 - 48) as u64;
        value = value * 10 + d;
        if value > max {
            proof {
                lemma_digits_value_grows(body, k + 1);
            }
            return None;
        }
        proof {
            assert forall|j: int| 0 <= j < k + 1 implies is_digit(#[trigger] body.take(k + 1)[j]) by {
                if j < k {
                    assert(body.take(k)[j] == body[j]);
                }
            }
        }
        i = i + 1;
    }
    proof {
        assert(body.take(len - from) == body);
    }
    Some(value)
}

/// Reads an unsigned 32-bit integer from its decimal text.
pub fn parse_u32(s: &str) -> (r: Option<u32>)
    ensures
        r == parse_u32_spec(s@),
{
    let len = s.unicode_len();
    let start: usize = if len > 0 && s.get_char(0) == '+' {
        1
    } else {
        0
    };
    proof {
        assert(unsigned_body(s@) == s@.skip(start as int));
    }
    match parse_digits(s, start, 0xffff_ffff) {
        Some(v) => Some(v as u32),
        None => None,
    }
}

/// Digits appended to a number never make it smaller.
pub proof fn lemma_digits_value_grows(s: Seq<char>, k: int)
    requires
        0 <= k <= s.len(),
    ensures
        digits_value(s.take(k)) <= digits_value(s),
    decreases s.len() - k,
{
    if k == s.len() {
        assert(s.take(k) == s);
    } else {
        lemma_digits_value_grows(s.drop_last(), k);
        assert(s.drop_last().take(k) == s.take(k));
    }
}

/// What `decimal` writes is made of digits, starts with no plus sign, and
/// denotes the number it was written from.
pub proof fn lemma_decimal_denotes(n: nat)
    ensures
        decimal(n).len() >= 1,
        all_digits(decimal(n)),
        decimal(n)[0] != '+',
        digits_value(decimal(n)) == n,
    decreases n,
{
    if n < 10 {
        let s = decimal(n);
        assert(s.drop_last().len() == 0);
        assert(digits_value(s) == digits_value(s.drop_last()) * 10 + digit_value(s.last()));
    } else {
        lemma_decimal_denotes(n / 10);
        let s = decimal(n);
        assert(s.drop_last() == decimal(n / 10));
        assert(s.last() == hex_digit(n % 10));
        assert(s[0] == decimal(n / 10)[0]);
        assert forall|i: int| 0 <= i < s.len() implies is_digit(#[trigger] s[i]) by {
            if i < s.len() - 1 {
                assert(s[i] == decimal(n / 10)[i]);
            }
        }
    }
}

/// A 32-bit number written in decimal reads back as itself.
pub proof fn lemma_parse_decimal(n: u32)
    ensures
        parse_u32_spec(decimal(n as nat)) == Some(n),
{
    lemma_decimal_denotes(n as nat);
}

} // verus!
