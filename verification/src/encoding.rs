//! Bytes as Base64 text.

use vstd::prelude::*;

verus! {

/// The digit of the standard Base64 alphabet for a number below sixty-four.
pub open spec fn base64_digit(v: int) -> char {
    if v < 26 {
        ('A' as int + v) as char
    } else if v < 52 {
        ('a' as int + (v - 26)) as char
    } else if v < 62 {
        ('0' as int + (v - 52)) as char
    } else if v == 62 {
        '+'
    } else {
        '/'
    }
}

/// A byte of a byte string; zero behind its end.
pub open spec fn byte_or_zero(bytes: Seq<u8>, i: int) -> int {
    if i < bytes.len() {
        bytes[i] as int
    } else {
        0
    }
}

/// The number that three bytes spell, the most significant first.
pub open spec fn base64_word(bytes: Seq<u8>, from: int) -> int {
    0x1_0000 * byte_or_zero(bytes, from) + 0x100 * byte_or_zero(bytes, from + 1) + byte_or_zero(
        bytes,
        from + 2,
    )
}

/// One of the four digits of a number to the base of sixty-four, the most significant first.
pub open spec fn sextet(word: int, k: int) -> int {
    if k == 0 {
        word / 0x4_0000
    } else if k == 1 {
        word / 0x1000 % 64
    } else if k == 2 {
        word / 64 % 64
    } else {
        word % 64
    }
}

/// The Base64 text of some bytes: four digits for every three bytes, those that hold no bit of
/// a byte replaced by equals signs.
pub open spec fn base64_text(bytes: Seq<u8>) -> Seq<char> {
    Seq::new(
        4 * ((bytes.len() + 2) / 3),
        |i: int|
            {
                let from = 3 * (i / 4);
                if 6 * (i % 4) < 8 * (bytes.len() - from) {
                    base64_digit(sextet(base64_word(bytes, from), i % 4))
                } else {
                    '='
                }
            },
    )
}

/// Base64 text is ASCII, and three bytes make four characters of it.
pub proof fn lemma_base64_text_is_ascii(bytes: Seq<u8>)
    ensures
        base64_text(bytes).len() == 4 * ((bytes.len() + 2) / 3),
        forall|i: int|
            0 <= i < base64_text(bytes).len() ==> (#[trigger] base64_text(bytes)[i]) as int <= 0x7f,
{
    assert forall|i: int| 0 <= i < base64_text(bytes).len() implies (#[trigger] base64_text(
        bytes,
    )[i]) as int <= 0x7f by {
        lemma_sextet_fits(bytes, 3 * (i / 4), i % 4);
    }
}

/// A digit to the base of sixty-four is below sixty-four.
pub proof fn lemma_sextet_fits(bytes: Seq<u8>, from: int, k: int)
    requires
        0 <= from,
        0 <= k < 4,
    ensures
        0 <= sextet(base64_word(bytes, from), k) < 64,
{
}

} // verus!
