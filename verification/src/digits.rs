//! Numbers written in digits, and digits read as numbers.

use vstd::prelude::*;

verus! {

/// The lower-case hexadecimal digit of a number below sixteen.
pub open spec fn hex_digit(v: int) -> char {
    if v < 10 {
        ('0' as int + v) as char
    } else {
        ('a' as int + (v - 10)) as char
    }
}

/// The number that a hexadecimal digit of either case stands for.
pub open spec fn hex_value(c: char) -> Option<int> {
    if '0' <= c <= '9' {
        Some(c as int - '0' as int)
    } else if 'a' <= c <= 'f' {
        Some(c as int - 'a' as int + 10)
    } else if 'A' <= c <= 'F' {
        Some(c as int - 'A' as int + 10)
    } else {
        None
    }
}

/// A number in eight lower-case hexadecimal digits, the most significant first.
pub open spec fn hex8(v: u32) -> Seq<char> {
    seq![
        hex_digit(v as int / 0x1000_0000),
        hex_digit(v as int / 0x100_0000 % 16),
        hex_digit(v as int / 0x10_0000 % 16),
        hex_digit(v as int / 0x1_0000 % 16),
        hex_digit(v as int / 0x1000 % 16),
        hex_digit(v as int / 0x100 % 16),
        hex_digit(v as int / 0x10 % 16),
        hex_digit(v as int % 16),
    ]
}

/// The number that hexadecimal digits stand for, where they are nothing else.
pub open spec fn hex_number(s: Seq<char>) -> Option<int>
    decreases s.len(),
{
    if s.len() == 0 {
        Some(0)
    } else {
        match (hex_number(s.drop_last()), hex_value(s.last())) {
            (Some(n), Some(d)) => Some(16 * n + d),
            _ => None,
        }
    }
}

/// A number in decimal digits, without leading zeros.
pub open spec fn decimal(n: nat) -> Seq<char>
    decreases n,
{
    if n < 10 {
        seq![hex_digit(n as int)]
    } else {
        decimal(n / 10).push(hex_digit((n % 10) as int))
    }
}

/// Whether a byte is the ASCII code of a decimal digit.
pub open spec fn is_digit(b: u8) -> bool {
    0x30 <= b <= 0x39
}

/// The number that decimal digits stand for, where they are nothing else.
pub open spec fn decimal_number(s: Seq<u8>) -> Option<nat>
    decreases s.len(),
{
    if s.len() == 0 {
        Some(0)
    } else {
        match decimal_number(s.drop_last()) {
            Some(n) if is_digit(s.last()) => Some((10 * n + (s.last() - 0x30)) as nat),
            _ => None,
        }
    }
}

/// The digits of an unsigned number that may carry a plus sign.
pub open spec fn unsigned_digits(s: Seq<u8>) -> Seq<u8> {
    if s.len() > 0 && s[0] == 0x2b {
        s.skip(1)
    } else {
        s
    }
}

/// The `u32` that some bytes spell: an optional plus sign, then decimal digits and nothing
/// else, at least one, of a number that fits.
pub open spec fn u32_number(s: Seq<u8>) -> Option<u32> {
    match decimal_number(unsigned_digits(s)) {
        Some(n) if unsigned_digits(s).len() > 0 && n <= u32::MAX => Some(n as u32),
        _ => None,
    }
}

/// Writes one hexadecimal digit.
pub fn write_hex_digit(text: &mut String, v: u32)
    requires
        v < 16,
    ensures
        final(text)@ == old(text)@.push(hex_digit(v as int)),
{
    let digits: [char; 16] = [
        '0',
        '1',
        '2',
        '3',
        '4',
        '5',
        '6',
        '7',
        '8',
        '9',
        'a',
        'b',
        'c',
        'd',
        'e',
        'f',
    ];
    text.push(digits[v as usize]);
}

/// Writes a number in eight hexadecimal digits.
pub fn write_hex8(text: &mut String, v: u32)
    ensures
        final(text)@ == old(text)@ + hex8(v),
{
    let ghost before = text@;
    write_hex_digit(text, v / 0x1000_0000);
    write_hex_digit(text, v / 0x100_0000 % 16);
    write_hex_digit(text, v / 0x10_0000 % 16);
    write_hex_digit(text, v / 0x1_0000 % 16);
    write_hex_digit(text, v / 0x1000 % 16);
    write_hex_digit(text, v / 0x100 % 16);
    write_hex_digit(text, v / 0x10 % 16);
    write_hex_digit(text, v % 16);
    assert(text@ == before + hex8(v));
}

/// Writes a number in decimal digits.
pub fn write_decimal(text: &mut String, n: usize)
    ensures
        final(text)@ == old(text)@ + decimal(n as nat),
    decreases n,
{
    let ghost before = text@;
    if n >= 10 {
        write_decimal(text, n / 10);
        write_hex_digit(text, (n % 10) as u32);
        assert(text@ == before + decimal((n / 10) as nat).push(hex_digit((n % 10) as int)));
    } else {
        write_hex_digit(text, n as u32);
        assert(text@ == before + seq![hex_digit(n as int)]);
    }
}

/// The number that a hexadecimal digit stands for.
pub fn read_hex_digit(c: char) -> (v: Option<u8>)
    ensures
        match v {
            Some(d) => hex_value(c) == Some(d as int) && d < 16,
            None => hex_value(c) is None,
        },
{
    let n: u32 = c as u32;
    if 0x30 <= n && n <= 0x39 {
        Some((n - 0x30) as u8)
    } else if 0x61 <= n && n <= 0x66 {
        Some((n - 0x61 + 10) as u8)
    } else if 0x41 <= n && n <= 0x46 {
        Some((n - 0x41 + 10) as u8)
    } else {
        None
    }
}

/// More digits never make a number smaller, nor a number of what was none.
proof fn lemma_decimal_number_grows(s: Seq<u8>, i: int)
    requires
        0 <= i <= s.len(),
    ensures
        match (decimal_number(s.take(i)), decimal_number(s)) {
            (Some(n), Some(m)) => n <= m,
            (None, Some(_)) => false,
            _ => true,
        },
    decreases s.len() - i,
{
    if i == s.len() {
        assert(s.take(i) == s);
    } else {
        lemma_decimal_number_grows(s, i + 1);
        assert(s.take(i + 1).drop_last() == s.take(i));
    }
}

/// Reads a `u32` from bytes, as [`u32_number`] says.
pub fn read_u32(s: &[u8]) -> (n: Option<u32>)
    ensures
        n == u32_number(s@),
{
    let start: usize = if s.len() > 0 && s[0] == 0x2b {
        1
    } else {
        0
    };
    let ghost digits = unsigned_digits(s@);
    assert(digits == s@.skip(start as int));
    if s.len() == start {
        return None;
    }
    let mut value: u64 = 0;
    let mut i: usize = start;
    while i < s.len()
        invariant
            start <= i <= s@.len(),
            start < s@.len(),
            digits == s@.skip(start as int),
            digits == unsigned_digits(s@),
            value <= u32::MAX,
            decimal_number(digits.take(i - start)) == Some(value as nat),
        decreases s@.len() - i,
    {
        let b: u8 = s[i];
        proof {
            assert(digits.take(i - start + 1).drop_last() == digits.take(i - start));
            assert(digits.take(i - start + 1).last() == b);
            lemma_decimal_number_grows(digits, i - start + 1);
        }
        if b < 0x30 || b > 0x39 {
            return None;
        }
        value = 10 * value + (b - 0x30) as u64;
        if value > 0xffff_ffff {
            return None;
        }
        i += 1;
    }
    assert(digits.take(i - start) == digits);
    Some(value as u32)
}

} // verus!
