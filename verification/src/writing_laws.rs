//! What digits, pieces of text, escapes and requests are, character by character.

use crate::cert::{percent_decoded, signing_cert, CertError};
use crate::digits::{
    decimal, decimal_number, hex8, hex_digit, hex_value, u32_number, unsigned_digits,
};
use crate::encoding::{base64_text, base64_word, lemma_sextet_fits, sextet};
use crate::hex::{spid, spid_bytes, trimmed};
use crate::ias::{
    report_body_text, report_request_text, sigrl_request_text, status_text,
};
use crate::text::{ascii, first_occurrence, split, without};
use crate::text_laws::{join, law_decimal_reads_back, law_split_joins_back};
use vstd::arithmetic::power::pow;
use vstd::prelude::*;
use vstd::utf8::encode_utf8;

verus! {

/// Whether a character is a hexadecimal digit of either case that stands for `d`.
pub open spec fn stands_for(c: char, d: int) -> bool {
    0 <= d < 16 && (c == "0123456789abcdef"@[d] || c == "0123456789ABCDEF"@[d])
}

/// Hexadecimal digits stand for their places in the row of digits, in either case, and are
/// written in lower case; no other character stands for anything.
pub proof fn law_hex_digits(c: char, d: int)
    ensures
        0 <= d < 16 ==> hex_digit(d) == "0123456789abcdef"@[d],
        stands_for(c, d) <==> hex_value(c) == Some(d),
        hex_value(c) matches Some(v) ==> 0 <= v < 16,
{
    reveal_strlit("0123456789abcdef");
    reveal_strlit("0123456789ABCDEF");
    if let Some(v) = hex_value(c) {
        assert(c == "0123456789abcdef"@[v] || c == "0123456789ABCDEF"@[v]);
    }
}

/// Eight hexadecimal digits are written for a number, each standing for four of its bits, the
/// most significant first.
pub proof fn law_hex8_digits(v: u32)
    ensures
        hex8(v).len() == 8,
        hex8(v)[0] == "0123456789abcdef"@[v as int / 0x1000_0000],
        hex8(v)[1] == "0123456789abcdef"@[v as int / 0x100_0000 % 16],
        hex8(v)[2] == "0123456789abcdef"@[v as int / 0x10_0000 % 16],
        hex8(v)[3] == "0123456789abcdef"@[v as int / 0x1_0000 % 16],
        hex8(v)[4] == "0123456789abcdef"@[v as int / 0x1000 % 16],
        hex8(v)[5] == "0123456789abcdef"@[v as int / 0x100 % 16],
        hex8(v)[6] == "0123456789abcdef"@[v as int / 0x10 % 16],
        hex8(v)[7] == "0123456789abcdef"@[v as int % 16],
{
    law_hex_digits('0', v as int / 0x1000_0000);
    law_hex_digits('0', v as int / 0x100_0000 % 16);
    law_hex_digits('0', v as int / 0x10_0000 % 16);
    law_hex_digits('0', v as int / 0x1_0000 % 16);
    law_hex_digits('0', v as int / 0x1000 % 16);
    law_hex_digits('0', v as int / 0x100 % 16);
    law_hex_digits('0', v as int / 0x10 % 16);
    law_hex_digits('0', v as int % 16);
}

/// Whether bytes are the codes of decimal digits.
pub open spec fn all_digits(s: Seq<u8>) -> bool {
    forall|i: int| 0 <= i < s.len() ==> 48 <= #[trigger] s[i] <= 57
}

/// The sum of decimal digits, each times the power of ten of its place.
pub open spec fn place_value(s: Seq<u8>) -> int
    decreases s.len(),
{
    if s.len() == 0 {
        0
    } else {
        (s[0] - 48) * pow(10, (s.len() - 1) as nat) + place_value(s.skip(1))
    }
}

/// One more digit at the end moves the others up by one place.
proof fn lemma_place_value_last(s: Seq<u8>)
    requires
        s.len() > 0,
    ensures
        place_value(s) == 10 * place_value(s.drop_last()) + (s.last() - 48),
    decreases s.len(),
{
    reveal(pow);
    if s.len() == 1 {
        assert(s.skip(1) == Seq::<u8>::empty());
        assert(s.drop_last() == Seq::<u8>::empty());
        assert(pow(10, 0) == 1);
    } else {
        lemma_place_value_last(s.skip(1));
        assert(s.skip(1).drop_last() == s.drop_last().skip(1));
        let high = (s[0] - 48) as int;
        let p = pow(10, (s.len() - 2) as nat);
        assert(pow(10, (s.len() - 1) as nat) == 10 * p);
        assert(high * (10 * p) == 10 * (high * p)) by (nonlinear_arith);
    }
}

/// Decimal digits spell the sum of their place values; anything with another byte in it spells
/// nothing.
pub proof fn law_decimal_number_is_place_value(s: Seq<u8>)
    ensures
        all_digits(s) ==> decimal_number(s) == Some(place_value(s) as nat) && place_value(s) >= 0,
        !all_digits(s) ==> decimal_number(s) is None,
    decreases s.len(),
{
    if s.len() > 0 {
        let before = s.drop_last();
        law_decimal_number_is_place_value(before);
        lemma_place_value_last(s);
        if all_digits(s) {
            assert forall|i: int| 0 <= i < before.len() implies 48 <= #[trigger] before[i]
                <= 57 by {
                assert(before[i] == s[i]);
            }
            assert(48 <= s[s.len() - 1] <= 57);
        } else {
            let i = choose|i: int| 0 <= i < s.len() && !(48 <= #[trigger] s[i] <= 57);
            if i < before.len() {
                assert(before[i] == s[i]);
            }
        }
    }
}

/// A number is written in decimal digits that spell it, without leading zeros.
pub proof fn law_decimal_is_the_number(n: nat)
    ensures
        all_digits(ascii(decimal(n))),
        place_value(ascii(decimal(n))) == n,
        decimal(n).len() > 0,
        forall|i: int| 0 <= i < decimal(n).len() ==> '0' <= #[trigger] decimal(n)[i] <= '9',
        n > 0 ==> decimal(n)[0] != '0',
        n == 0 ==> decimal(n).len() == 1,
    decreases n,
{
    law_decimal_reads_back(n);
    law_decimal_number_is_place_value(ascii(decimal(n)));
    crate::text_laws::lemma_decimal_is_digits(n);
    if n >= 10 {
        law_decimal_is_the_number(n / 10);
    }
    assert forall|i: int| 0 <= i < ascii(decimal(n)).len() implies 48 <= #[trigger] ascii(
        decimal(n),
    )[i] <= 57 by {
        assert('0' <= decimal(n)[i] <= '9');
    }
}

/// Bytes spell a `u32` if they are decimal digits, at least one, of a number that fits, or a
/// plus sign and then such digits; else they spell none.
pub proof fn law_u32_number(s: Seq<u8>)
    ensures
        s.len() > 0 && all_digits(s) && place_value(s) <= 0xffff_ffff ==> u32_number(s) == Some(
            place_value(s) as u32,
        ),
        s.len() > 0 && all_digits(s) && place_value(s) > 0xffff_ffff ==> u32_number(s) is None,
        s.len() > 0 && s[0] != 43 && !all_digits(s) ==> u32_number(s) is None,
        s.len() == 0 ==> u32_number(s) is None,
        s.len() > 0 && s[0] == 43 ==> {
            let digits = s.skip(1);
            &&& digits.len() == 0 || !all_digits(digits) || place_value(digits) > 0xffff_ffff
                ==> u32_number(s) is None
            &&& digits.len() > 0 && all_digits(digits) && place_value(digits) <= 0xffff_ffff
                ==> u32_number(s) == Some(place_value(digits) as u32)
        },
{
    law_decimal_number_is_place_value(s);
    if s.len() > 0 && s[0] == 43 {
        law_decimal_number_is_place_value(s.skip(1));
        assert(unsigned_digits(s) == s.skip(1));
        if all_digits(s) {
            assert(48 <= s[0]);
        }
    } else {
        assert(unsigned_digits(s) == s);
    }
}

/// Whether `sep` stands at offset `i` of `s`.
pub open spec fn occurs_at(s: Seq<char>, sep: Seq<char>, i: int) -> bool {
    0 <= i && i + sep.len() <= s.len() && s.subrange(i, i + sep.len()) == sep
}

/// What is found first is found, and not before; what is not found stands nowhere.
pub proof fn law_first_occurrence(s: Seq<char>, sep: Seq<char>)
    requires
        sep.len() > 0,
    ensures
        match first_occurrence(s, sep) {
            Some(i) => occurs_at(s, sep, i as int) && forall|j: int|
                0 <= j < i ==> !#[trigger] occurs_at(s, sep, j),
            None => forall|j: int| !#[trigger] occurs_at(s, sep, j),
        },
    decreases s.len(),
{
    let n = sep.len() as int;
    if s.len() == 0 || s.len() < sep.len() {
    } else if s.take(n) == sep {
        assert(s.subrange(0, n) == s.take(n));
    } else {
        assert(s.subrange(0, n) == s.take(n));
        let rest = s.skip(1);
        law_first_occurrence(rest, sep);
        assert forall|j: int| #[trigger] occurs_at(s, sep, j) implies j > 0 && occurs_at(
            rest,
            sep,
            j - 1,
        ) by {
            if j > 0 {
                assert(rest.subrange(j - 1, j - 1 + n) == s.subrange(j, j + n));
            }
        }
        if let Some(i) = first_occurrence(rest, sep) {
            let at = i as int;
            assert(s.subrange(at + 1, at + 1 + n) == rest.subrange(at, at + n));
            assert(occurs_at(s, sep, at + 1));
        }
    }
}

/// Whether `sep`, put behind `piece`, is first found there.
pub open spec fn ends_at_sep(piece: Seq<char>, sep: Seq<char>) -> bool {
    forall|j: int| 0 <= j < piece.len() ==> !#[trigger] occurs_at(piece + sep, sep, j)
}

/// Whether `sep` stands nowhere in `piece`.
pub open spec fn free_of(piece: Seq<char>, sep: Seq<char>) -> bool {
    forall|j: int| !#[trigger] occurs_at(piece, sep, j)
}

/// A text is split behind a piece that ends at the separator, and not where the separator does
/// not stand.
pub proof fn law_split_at_first(piece: Seq<char>, sep: Seq<char>, rest: Seq<char>)
    requires
        sep.len() > 0,
    ensures
        ends_at_sep(piece, sep) ==> split(piece + sep + rest, sep) == seq![piece] + split(
            rest,
            sep,
        ),
        free_of(piece, sep) ==> split(piece, sep) == seq![piece],
{
    let n = sep.len() as int;
    let s = piece + sep + rest;
    law_first_occurrence(s, sep);
    law_first_occurrence(piece, sep);
    let at = piece.len() as int;
    assert(s.subrange(at, at + n) == sep);
    assert(occurs_at(s, sep, at));
    if ends_at_sep(piece, sep) {
        assert forall|j: int| 0 <= j < at implies !#[trigger] occurs_at(s, sep, j) by {
            assert(!occurs_at(piece + sep, sep, j));
            assert(s.subrange(j, j + n) == (piece + sep).subrange(j, j + n));
        }
        assert(first_occurrence(s, sep) == Some(piece.len()));
        assert(s.take(at) == piece);
        assert(s.skip(at + n) == rest);
    }
}

/// The pieces of a text make the text again with the separator between them; each but the last
/// ends where the separator is first found, and in the last it stands nowhere.
pub proof fn law_split_pieces(s: Seq<char>, sep: Seq<char>)
    requires
        sep.len() > 0,
    ensures
        split(s, sep).len() > 0,
        join(split(s, sep), sep) == s,
        forall|k: int| 0 <= k < split(s, sep).len() - 1 ==> ends_at_sep(
            #[trigger] split(s, sep)[k],
            sep,
        ),
        free_of(split(s, sep).last(), sep),
    decreases s.len(),
{
    law_split_joins_back(s, sep);
    law_first_occurrence(s, sep);
    let n = sep.len() as int;
    match first_occurrence(s, sep) {
        Some(i) => {
            let piece = s.take(i as int);
            let rest = s.skip(i + n);
            law_split_pieces(rest, sep);
            let tail = split(rest, sep);
            assert(split(s, sep) == seq![piece] + tail);
            assert forall|j: int| 0 <= j < piece.len() implies !#[trigger] occurs_at(
                piece + sep,
                sep,
                j,
            ) by {
                assert(!occurs_at(s, sep, j));
                assert(piece + sep == s.take(i + n)) by {
                    assert(s.subrange(i as int, i + n) == sep);
                    assert forall|x: int| 0 <= x < i + n implies (piece + sep)[x] == s[x] by {
                        if x >= i {
                            assert(s.subrange(i as int, i + n)[x - i] == s[x]);
                        }
                    }
                }
                assert((piece + sep).subrange(j, j + n) == s.subrange(j, j + n));
            }
            assert forall|k: int| 0 <= k < split(s, sep).len() - 1 implies ends_at_sep(
                #[trigger] split(s, sep)[k],
                sep,
            ) by {
                if k > 0 {
                    assert(split(s, sep)[k] == tail[k - 1]);
                }
            }
            assert(split(s, sep).last() == tail.last());
        },
        None => {
            assert(split(s, sep) == seq![s]);
        },
    }
}

/// Joining pieces with nothing between them is flattening them.
proof fn lemma_join_with_nothing(pieces: Seq<Seq<char>>)
    ensures
        join(pieces, Seq::empty()) == pieces.flatten(),
    decreases pieces.len(),
{
    if pieces.len() > 0 {
        assert(pieces.drop_first() == pieces.skip(1));
        lemma_join_with_nothing(pieces.skip(1));
        if pieces.len() == 1 {
            assert(pieces.skip(1) == Seq::<Seq<char>>::empty());
            assert(pieces[0] + Seq::<char>::empty() == pieces[0]);
        } else {
            assert(pieces[0] + Seq::<char>::empty() + join(pieces.skip(1), Seq::empty())
                == pieces[0] + join(pieces.skip(1), Seq::empty()));
        }
    }
}

/// Removing a separator is joining the pieces between the separators with nothing.
pub proof fn law_removal_joins_pieces(s: Seq<char>, sep: Seq<char>)
    ensures
        without(s, sep) == join(split(s, sep), Seq::empty()),
{
    lemma_join_with_nothing(split(s, sep));
}

/// Decoding goes from left to right: a character that is no percent sign stays, a percent sign
/// and two hexadecimal digits become the character with that code, and a percent sign without
/// two such digits behind it is refused.
pub proof fn law_percent_decoding(rest: Seq<char>, c: char, high: char, low: char, h: int, l: int)
    ensures
        percent_decoded(Seq::<char>::empty()) == Some(Seq::<char>::empty()),
        c != '%' ==> percent_decoded(seq![c] + rest) == (match percent_decoded(rest) {
            Some(decoded) => Some(seq![c] + decoded),
            None => None,
        }),
        stands_for(high, h) && stands_for(low, l) ==> percent_decoded(
            seq!['%', high, low] + rest,
        ) == (match percent_decoded(rest) {
            Some(decoded) => Some(seq![(16 * h + l) as char] + decoded),
            None => None,
        }),
        !is_hex(high) || !is_hex(low) ==> percent_decoded(seq!['%', high, low] + rest) is None,
        percent_decoded(seq!['%']) is None,
        percent_decoded(seq!['%', high]) is None,
{
    law_hex_digits(high, h);
    law_hex_digits(low, l);
    let plain = seq![c] + rest;
    assert(plain.skip(1) == rest);
    let escaped = seq!['%', high, low] + rest;
    assert(escaped.skip(3) == rest);
    assert(escaped[0] == '%' && escaped[1] == high && escaped[2] == low);
    if let Some(v) = hex_value(high) {
        law_hex_digits(high, v);
        assert(stands_for(high, v));
    }
    if let Some(v) = hex_value(low) {
        law_hex_digits(low, v);
        assert(stands_for(low, v));
    }
}

/// Of a decoded chain, the signing certificate is what stands between the second row of dashes
/// and the third, or the end; without a second row there is none.
pub proof fn law_signing_cert_is_third_piece(
    chain: Seq<char>,
    a: Seq<char>,
    b: Seq<char>,
    c: Seq<char>,
    rest: Seq<char>,
)
    ensures
        percent_decoded(without(chain, "%0A"@)) is None ==> (signing_cert(chain) matches Err(e)
            && e == CertError::Encoding),
        percent_decoded(without(chain, "%0A"@)) matches Some(pem) ==> {
            &&& pem == a && free_of(a, "-----"@) ==> (signing_cert(chain) matches Err(e) && e
                == CertError::Missing)
            &&& pem == a + "-----"@ + b && ends_at_sep(a, "-----"@) && free_of(b, "-----"@) ==> (
            signing_cert(chain) matches Err(e) && e == CertError::Missing)
            &&& pem == a + "-----"@ + (b + "-----"@ + c) && ends_at_sep(a, "-----"@)
                && ends_at_sep(b, "-----"@) && free_of(c, "-----"@) ==> (signing_cert(
                chain,
            ) matches Ok(cert) && cert == c)
            &&& pem == a + "-----"@ + (b + "-----"@ + (c + "-----"@ + rest)) && ends_at_sep(
                a,
                "-----"@,
            ) && ends_at_sep(b, "-----"@) && ends_at_sep(c, "-----"@) ==> (signing_cert(
                chain,
            ) matches Ok(cert) && cert == c)
        },
{
    reveal_strlit("-----");
    let sep = "-----"@;
    law_split_at_first(a, sep, b);
    law_split_at_first(a, sep, b + sep + c);
    law_split_at_first(a, sep, b + sep + (c + sep + rest));
    law_split_at_first(b, sep, c);
    law_split_at_first(b, sep, c + sep + rest);
    law_split_at_first(c, sep, rest);
    law_split_joins_back(rest, sep);
}

/// Whether a character is blank space of a text file.
pub open spec fn blank_char(c: char) -> bool {
    c == ' ' || c == '\t' || c == '\n' || c == '\r'
}

/// Trimming takes the blanks around a text that neither begins nor ends with one, and nothing
/// else.
proof fn lemma_trimmed_middle(lead: Seq<char>, text: Seq<char>, trail: Seq<char>)
    requires
        forall|i: int| 0 <= i < lead.len() ==> blank_char(#[trigger] lead[i]),
        forall|i: int| 0 <= i < trail.len() ==> blank_char(#[trigger] trail[i]),
        text.len() > 0,
        !blank_char(text[0]),
        !blank_char(text.last()),
    ensures
        trimmed(lead + text + trail) == text,
    decreases lead.len() + trail.len(),
{
    let s = lead + text + trail;
    if lead.len() > 0 {
        assert(s[0] == lead[0]);
        assert(s.skip(1) == lead.skip(1) + text + trail);
        lemma_trimmed_middle(lead.skip(1), text, trail);
    } else if trail.len() > 0 {
        assert(s[0] == text[0]);
        assert(s.last() == trail.last());
        assert(s.drop_last() == lead + text + trail.drop_last());
        lemma_trimmed_middle(lead, text, trail.drop_last());
    } else {
        assert(s == text);
    }
}

/// Thirty-two hexadecimal digits of either case, with blanks around them, are the identifier
/// whose bytes they spell, two digits for each.
pub proof fn law_spid_of_digits(
    lead: Seq<char>,
    digits: Seq<char>,
    trail: Seq<char>,
    values: Seq<int>,
)
    requires
        forall|i: int| 0 <= i < lead.len() ==> blank_char(#[trigger] lead[i]),
        forall|i: int| 0 <= i < trail.len() ==> blank_char(#[trigger] trail[i]),
        digits.len() == 32,
        values.len() == 32,
        forall|i: int| 0 <= i < 32 ==> stands_for(#[trigger] digits[i], values[i]),
    ensures
        spid(lead + digits + trail) matches Some(id) && id.len() == 16 && forall|i: int|
            0 <= i < 16 ==> #[trigger] id[i] == 16 * values[2 * i] + values[2 * i + 1],
{
    assert forall|i: int| 0 <= i < 32 implies hex_value(#[trigger] digits[i]) == Some(
        values[i],
    ) && 0 <= values[i] < 16 by {
        law_hex_digits(digits[i], values[i]);
    }
    assert(hex_value(digits[0]) is Some && hex_value(digits[31]) is Some);
    lemma_trimmed_middle(lead, digits, trail);
    assert forall|i: int| 0 <= i < 16 implies #[trigger] spid_bytes(digits)[i] == 16 * values[2 * i]
        + values[2 * i + 1] by {
        assert(hex_value(digits[2 * i]) == Some(values[2 * i]));
        assert(hex_value(digits[2 * i + 1]) == Some(values[2 * i + 1]));
    }
}

/// What is left of a text after trimming is a part of it with blanks alone around it.
proof fn lemma_trimmed_is_part(s: Seq<char>) -> (bounds: (int, int))
    ensures
        0 <= bounds.0 <= bounds.1 <= s.len(),
        trimmed(s) == s.subrange(bounds.0, bounds.1),
        forall|i: int|
            0 <= i < s.len() && !(bounds.0 <= i < bounds.1) ==> blank_char(#[trigger] s[i]),
    decreases s.len(),
{
    if s.len() > 0 && blank_char(s[0]) {
        let (from, to) = lemma_trimmed_is_part(s.skip(1));
        assert(s.skip(1).subrange(from, to) == s.subrange(from + 1, to + 1));
        assert forall|i: int| 0 <= i < s.len() && !(from + 1 <= i < to + 1) implies blank_char(
            #[trigger] s[i],
        ) by {
            if i > 0 {
                assert(s.skip(1)[i - 1] == s[i]);
            }
        }
        (from + 1, to + 1)
    } else if s.len() > 0 && blank_char(s.last()) {
        let (from, to) = lemma_trimmed_is_part(s.drop_last());
        assert(s.drop_last().subrange(from, to) == s.subrange(from, to));
        assert forall|i: int| 0 <= i < s.len() && !(from <= i < to) implies blank_char(
            #[trigger] s[i],
        ) by {
            if i < s.len() - 1 {
                assert(s.drop_last()[i] == s[i]);
            }
        }
        (from, to)
    } else {
        assert(s.subrange(0, s.len() as int) == s);
        (0, s.len() as int)
    }
}

/// Whether a text is thirty-two hexadecimal digits from offset `from` on, and blanks elsewhere.
pub open spec fn digits_from(contents: Seq<char>, from: int) -> bool {
    &&& 0 <= from && from + 32 <= contents.len()
    &&& forall|i: int|
        0 <= i < contents.len() && !(from <= i < from + 32) ==> blank_char(#[trigger] contents[i])
    &&& forall|i: int| from <= i < from + 32 ==> is_hex(#[trigger] contents[i])
}

/// Whether a character is a hexadecimal digit.
pub open spec fn is_hex(c: char) -> bool {
    exists|d: int| stands_for(c, d)
}

/// A text that gives an identifier is thirty-two hexadecimal digits with blanks around them.
pub proof fn law_only_digits_are_spid(contents: Seq<char>)
    requires
        spid(contents) is Some,
    ensures
        exists|from: int| #[trigger] digits_from(contents, from),
{
    let (from, to) = lemma_trimmed_is_part(contents);
    let digits = trimmed(contents);
    assert(digits == contents.subrange(from, to) && digits.len() == 32);
    assert forall|i: int| from <= i < from + 32 implies is_hex(#[trigger] contents[i]) by {
        assert(digits[i - from] == contents[i]);
        let v = hex_value(digits[i - from])->0;
        assert(hex_value(digits[i - from]) is Some);
        law_hex_digits(contents[i], v);
        assert(stands_for(contents[i], v));
    }
    assert(digits_from(contents, from));
}

/// The request for a revocation list, with the eight digits of the group in it.
pub proof fn law_sigrl_request(gid: u32)
    ensures
        sigrl_request_text(gid) == "GET /sgx/dev/attestation/v3/sigrl/"@ + hex8(gid)
            + " HTTP/1.1\r\nHOST: /sgx/dev/attestation/v3/sigrl/\r\n\r\n"@,
{
    reveal_strlit("GET ");
    reveal_strlit("/sgx/dev/attestation/v3/sigrl/");
    reveal_strlit(" HTTP/1.1\r\nHOST: ");
    reveal_strlit("\r\n\r\n");
    reveal_strlit("GET /sgx/dev/attestation/v3/sigrl/");
    reveal_strlit(" HTTP/1.1\r\nHOST: /sgx/dev/attestation/v3/sigrl/\r\n\r\n");
    assert("GET /sgx/dev/attestation/v3/sigrl/"@ == "GET "@ + "/sgx/dev/attestation/v3/sigrl/"@);
    assert(" HTTP/1.1\r\nHOST: /sgx/dev/attestation/v3/sigrl/\r\n\r\n"@ == " HTTP/1.1\r\nHOST: "@
        + "/sgx/dev/attestation/v3/sigrl/"@ + "\r\n\r\n"@);
    assert(sigrl_request_text(gid) == "GET /sgx/dev/attestation/v3/sigrl/"@ + hex8(gid)
        + " HTTP/1.1\r\nHOST: /sgx/dev/attestation/v3/sigrl/\r\n\r\n"@);
}

/// The body that sends a quote is the encoded quote, quoted, under its name.
pub proof fn law_report_body(encoded_quote: Seq<char>)
    ensures
        report_body_text(encoded_quote) == "{\"isvEnclaveQuote\":\""@ + encoded_quote
            + "\"}\r\n"@,
{
}

/// The request that sends a quote announces the number of bytes of its body, and ends with it.
pub proof fn law_report_request(encoded_quote: Seq<char>)
    ensures
        report_request_text(encoded_quote) == "POST /sgx/dev/attestation/v3/report HTTP/1.1\r\n"@
            + "HOST: api.trustedservices.intel.com\r\n"@ + "Content-Length:"@ + decimal(
            encode_utf8(report_body_text(encoded_quote)).len(),
        ) + "\r\nContent-Type: application/json\r\n\r\n"@ + report_body_text(encoded_quote),
{
    reveal_strlit("POST ");
    reveal_strlit("/sgx/dev/attestation/v3/report");
    reveal_strlit(" HTTP/1.1\r\nHOST: ");
    reveal_strlit("api.trustedservices.intel.com");
    reveal_strlit("\r\nContent-Length:");
    reveal_strlit("POST /sgx/dev/attestation/v3/report HTTP/1.1\r\n");
    reveal_strlit("HOST: api.trustedservices.intel.com\r\n");
    reveal_strlit("Content-Length:");
    assert("POST /sgx/dev/attestation/v3/report HTTP/1.1\r\n"@
        + "HOST: api.trustedservices.intel.com\r\n"@ + "Content-Length:"@ == "POST "@
        + "/sgx/dev/attestation/v3/report"@ + " HTTP/1.1\r\nHOST: "@
        + "api.trustedservices.intel.com"@ + "\r\nContent-Length:"@);
}

/// A character of the standard Base64 alphabet.
pub open spec fn alphabet(v: int) -> char {
    "ABCDEFGHIJKLMNOPQRSTUVWXYZabcdefghijklmnopqrstuvwxyz0123456789+/"@[v]
}

/// Three bytes make four characters of the alphabet, from six bits each; what is left over at
/// the end makes two or three, filled up with equals signs.
pub proof fn law_base64_characters(bytes: Seq<u8>, c: int)
    requires
        0 <= c,
        3 * c < bytes.len(),
    ensures
        base64_text(bytes).len() == 4 * ((bytes.len() + 2) / 3),
        base64_text(bytes)[4 * c] == alphabet(bytes[3 * c] as int / 4),
        3 * c + 1 == bytes.len() ==> {
            &&& base64_text(bytes)[4 * c + 1] == alphabet(bytes[3 * c] as int % 4 * 16)
            &&& base64_text(bytes)[4 * c + 2] == '='
            &&& base64_text(bytes)[4 * c + 3] == '='
        },
        3 * c + 1 < bytes.len() ==> base64_text(bytes)[4 * c + 1] == alphabet(
            bytes[3 * c] as int % 4 * 16 + bytes[3 * c + 1] as int / 16,
        ),
        3 * c + 2 == bytes.len() ==> {
            &&& base64_text(bytes)[4 * c + 2] == alphabet(bytes[3 * c + 1] as int % 16 * 4)
            &&& base64_text(bytes)[4 * c + 3] == '='
        },
        3 * c + 2 < bytes.len() ==> {
            &&& base64_text(bytes)[4 * c + 2] == alphabet(
                bytes[3 * c + 1] as int % 16 * 4 + bytes[3 * c + 2] as int / 64,
            )
            &&& base64_text(bytes)[4 * c + 3] == alphabet(bytes[3 * c + 2] as int % 64)
        },
{
    let from = 3 * c;
    let word = base64_word(bytes, from);
    assert((4 * c) / 4 == c && (4 * c) % 4 == 0);
    assert((4 * c + 1) / 4 == c && (4 * c + 1) % 4 == 1);
    assert((4 * c + 2) / 4 == c && (4 * c + 2) % 4 == 2);
    assert((4 * c + 3) / 4 == c && (4 * c + 3) % 4 == 3);
    let b0 = bytes[from] as int;
    let b1 = if from + 1 < bytes.len() {
        bytes[from + 1] as int
    } else {
        0
    };
    let b2 = if from + 2 < bytes.len() {
        bytes[from + 2] as int
    } else {
        0
    };
    lemma_sextets_of_bytes(b0, b1, b2);
    assert(word == 0x1_0000 * b0 + 0x100 * b1 + b2);
    lemma_sextet_fits(bytes, from, 0);
    lemma_sextet_fits(bytes, from, 1);
    lemma_sextet_fits(bytes, from, 2);
    lemma_sextet_fits(bytes, from, 3);
    lemma_alphabet(sextet(word, 0));
    lemma_alphabet(sextet(word, 1));
    lemma_alphabet(sextet(word, 2));
    lemma_alphabet(sextet(word, 3));
}

/// A digit of the alphabet is the character in its place.
proof fn lemma_alphabet(v: int)
    requires
        0 <= v < 64,
    ensures
        crate::encoding::base64_digit(v) == alphabet(v),
{
    reveal_strlit("ABCDEFGHIJKLMNOPQRSTUVWXYZabcdefghijklmnopqrstuvwxyz0123456789+/");
}

/// The sextets of three bytes.
proof fn lemma_sextets_of_bytes(b0: int, b1: int, b2: int)
    requires
        0 <= b0 < 256,
        0 <= b1 < 256,
        0 <= b2 < 256,
    ensures
        sextet(0x1_0000 * b0 + 0x100 * b1 + b2, 0) == b0 / 4,
        sextet(0x1_0000 * b0 + 0x100 * b1 + b2, 1) == b0 % 4 * 16 + b1 / 16,
        sextet(0x1_0000 * b0 + 0x100 * b1 + b2, 2) == b1 % 16 * 4 + b2 / 64,
        sextet(0x1_0000 * b0 + 0x100 * b1 + b2, 3) == b2 % 64,
{
    let word = 0x1_0000 * b0 + 0x100 * b1 + b2;
    assert(word / 64 == 1024 * b0 + 4 * b1 + b2 / 64);
    assert(word / 0x1000 == 16 * b0 + b1 / 16);
    assert(word / 0x4_0000 == b0 / 4);
    assert((16 * b0 + b1 / 16) % 64 == b0 % 4 * 16 + b1 / 16);
    assert((1024 * b0 + 4 * b1 + b2 / 64) % 64 == b1 % 16 * 4 + b2 / 64);
}

/// Each status code that the service gives has its message, and all others share one.
pub proof fn law_status_messages(code: Option<u16>)
    ensures
        code == Some(200u16) ==> status_text(code) == "OK Operation Successful"@,
        code == Some(401u16) ==> status_text(code)
            == "Unauthorized Failed to authenticate or authorize request."@,
        code == Some(404u16) ==> status_text(code)
            == "Not Found GID does not refer to a valid EPID group ID."@,
        code == Some(500u16) ==> status_text(code) == "Internal error occurred"@,
        code == Some(503u16) ==> status_text(code) == "Service is currently not able to process the request (due to
            a temporary overloading or maintenance). This is a
            temporary state – the same request can be repeated after
            some time. "@,
        code matches Some(n) && n != 200 && n != 401 && n != 404 && n != 500 && n != 503
            ==> status_text(code) == "Unknown error occured"@,
        code is None ==> status_text(code) == "Unknown error occured"@,
{
}

} // verus!
