//! The service provider identifier, kept in a file as hexadecimal text.

use crate::digits::{hex_value, read_hex_digit};
use crate::text::chars_of;
use vstd::prelude::*;

verus! {

/// Whether a character is blank space of a text file.
pub open spec fn is_blank(c: char) -> bool {
    c == ' ' || c == '\t' || c == '\n' || c == '\r'
}

/// `s` without the blanks before and after it.
pub open spec fn trimmed(s: Seq<char>) -> Seq<char>
    decreases s.len(),
{
    if s.len() > 0 && is_blank(s[0]) {
        trimmed(s.skip(1))
    } else if s.len() > 0 && is_blank(s.last()) {
        trimmed(s.drop_last())
    } else {
        s
    }
}

/// Whether `s` is made of thirty-two hexadecimal digits.
pub open spec fn is_spid(s: Seq<char>) -> bool {
    s.len() == 32 && forall|i: int| 0 <= i < 32 ==> hex_value(#[trigger] s[i]) is Some
}

/// The sixteen bytes that thirty-two hexadecimal digits stand for.
pub open spec fn spid_bytes(s: Seq<char>) -> Seq<u8> {
    Seq::new(16, |i: int| (16 * hex_value(s[2 * i])->0 + hex_value(s[2 * i + 1])->0) as u8)
}

/// The identifier in a file, where the file holds one and blanks around it at most.
pub open spec fn spid(contents: Seq<char>) -> Option<Seq<u8>> {
    if is_spid(trimmed(contents)) {
        Some(spid_bytes(trimmed(contents)))
    } else {
        None
    }
}

/// Whether a character is blank.
fn blank(c: char) -> (b: bool)
    ensures
        b == is_blank(c),
{
    c == ' ' || c == '\t' || c == '\n' || c == '\r'
}

/// Reads the identifier in a file, as [`spid`] says.
pub fn decode_spid(contents: &str) -> (id: Option<[u8; 16]>)
    ensures
        match id {
            Some(bytes) => spid(contents@) == Some(bytes@),
            None => spid(contents@) is None,
        },
{
    let chars = chars_of(contents);
    let mut from: usize = 0;
    let mut to: usize = chars.len();
    assert(chars@.subrange(0, to as int) == chars@);
    while from < to && blank(chars[from])
        invariant
            from <= to == chars@.len(),
            trimmed(chars@.subrange(from as int, to as int)) == trimmed(chars@),
        decreases to - from,
    {
        assert(chars@.subrange(from as int, to as int).skip(1) == chars@.subrange(
            from + 1,
            to as int,
        ));
        from += 1;
    }
    while from < to && blank(chars[to - 1])
        invariant
            from <= to <= chars@.len(),
            from < to ==> !is_blank(chars@[from as int]),
            trimmed(chars@.subrange(from as int, to as int)) == trimmed(chars@),
        decreases to - from,
    {
        assert(chars@.subrange(from as int, to as int).drop_last() == chars@.subrange(
            from as int,
            to - 1,
        ));
        to -= 1;
    }
    let ghost digits = chars@.subrange(from as int, to as int);
    assert(digits == trimmed(chars@));
    if to - from != 32 {
        return None;
    }
    let mut id: [u8; 16] = [0u8;16];
    let mut i: usize = 0;
    while i < 16
        invariant
            i <= 16,
            to - from == 32,
            to <= chars@.len(),
            digits == chars@.subrange(from as int, to as int),
            digits == trimmed(chars@),
            chars@ == contents@,
            forall|j: int| 0 <= j < 2 * i ==> hex_value(#[trigger] digits[j]) is Some,
            forall|j: int| 0 <= j < i ==> #[trigger] id@[j] == spid_bytes(digits)[j],
        decreases 16 - i,
    {
        let high = match read_hex_digit(chars[from + 2 * i]) {
            Some(d) => d,
            None => {
                assert(hex_value(digits[2 * i]) is None);
                return None;
            },
        };
        let low = match read_hex_digit(chars[from + 2 * i + 1]) {
            Some(d) => d,
            None => {
                assert(hex_value(digits[2 * i + 1]) is None);
                return None;
            },
        };
        assert(digits[2 * i as int] == chars@[from + 2 * i]);
        assert(digits[2 * i + 1] == chars@[from + 2 * i + 1]);
        id[i] = 16 * high + low;
        i += 1;
    }
    assert(id@ == spid_bytes(digits));
    Some(id)
}

} // verus!
