//! What holds of the text that is written and read: numbers, pieces, requests, responses.

use crate::cert::{percent_decoded, signing_cert, CertError};
use crate::digits::{
    decimal, decimal_number, hex8, hex_digit, hex_number, hex_value, is_digit, u32_number,
};
use crate::encoding::{
    base64_digit, base64_text, base64_word, byte_or_zero, lemma_sextet_fits, sextet,
};
use crate::hex::{spid, spid_bytes, trimmed};
use crate::http::HeadView;
use crate::ias::{
    attn_report, decoded_sigrl, last_value, lemma_report_body_len, length_readable,
    report_body_len, report_body_text, report_request_text, sigrl_request_text, sigrl_text,
    ResponseError, DEV_HOSTNAME, REPORT_SUFFIX, SIGRL_SUFFIX,
};
use crate::provision::payload_text;
use crate::seqs::lemma_first_and_rest;
use crate::text::{ascii, first_occurrence, split, without};
use vstd::prelude::*;
use vstd::utf8::encode_utf8;

verus! {

/// One more digit makes a number sixteen times as large, and adds the digit.
proof fn lemma_hex_prefix(s: Seq<char>, k: int, n: int, d: int)
    requires
        0 <= k < s.len(),
        hex_number(s.take(k)) == Some(n),
        s[k] == hex_digit(d),
        0 <= d < 16,
    ensures
        hex_number(s.take(k + 1)) == Some(16 * n + d),
{
    assert(hex_value(hex_digit(d)) == Some(d));
    assert(s.take(k + 1).drop_last() == s.take(k));
}

/// Eight hexadecimal digits read back as the number that they were written for.
pub proof fn law_hex8_reads_back(v: u32)
    ensures
        hex_number(hex8(v)) == Some(v as int),
{
    let s = hex8(v);
    assert(v / 0x1000_0000 < 16) by (bit_vector);
    assert(16 * (v / 0x1000_0000) + v / 0x100_0000 % 16 == v / 0x100_0000) by (bit_vector);
    assert(16 * (v / 0x100_0000) + v / 0x10_0000 % 16 == v / 0x10_0000) by (bit_vector);
    assert(16 * (v / 0x10_0000) + v / 0x1_0000 % 16 == v / 0x1_0000) by (bit_vector);
    assert(16 * (v / 0x1_0000) + v / 0x1000 % 16 == v / 0x1000) by (bit_vector);
    assert(16 * (v / 0x1000) + v / 0x100 % 16 == v / 0x100) by (bit_vector);
    assert(16 * (v / 0x100) + v / 0x10 % 16 == v / 0x10) by (bit_vector);
    assert(16 * (v / 0x10) + v % 16 == v) by (bit_vector);
    lemma_hex_prefix(s, 0, 0, (v / 0x1000_0000) as int);
    lemma_hex_prefix(s, 1, (v / 0x1000_0000) as int, (v / 0x100_0000 % 16) as int);
    lemma_hex_prefix(s, 2, (v / 0x100_0000) as int, (v / 0x10_0000 % 16) as int);
    lemma_hex_prefix(s, 3, (v / 0x10_0000) as int, (v / 0x1_0000 % 16) as int);
    lemma_hex_prefix(s, 4, (v / 0x1_0000) as int, (v / 0x1000 % 16) as int);
    lemma_hex_prefix(s, 5, (v / 0x1000) as int, (v / 0x100 % 16) as int);
    lemma_hex_prefix(s, 6, (v / 0x100) as int, (v / 0x10 % 16) as int);
    lemma_hex_prefix(s, 7, (v / 0x10) as int, (v % 16) as int);
    assert(s.take(8) == s);
}

proof fn lemma_decimal_number_of_decimal(n: nat)
    ensures
        decimal_number(ascii(decimal(n))) == Some(n),
        decimal(n).len() > 0,
        is_digit(ascii(decimal(n))[0]),
    decreases n,
{
    let s = ascii(decimal(n));
    if n < 10 {
        assert(s == seq![(0x30 + n) as u8]);
        assert(s.drop_last() == Seq::<u8>::empty());
        assert(decimal_number(s.drop_last()) == Some(0nat));
    } else {
        lemma_decimal_number_of_decimal(n / 10);
        assert(s.drop_last() == ascii(decimal(n / 10)));
        assert(s.last() == (0x30 + n % 10) as u8);
    }
}

/// Decimal digits are digits.
pub proof fn lemma_decimal_is_digits(n: nat)
    ensures
        decimal(n).len() > 0,
        forall|i: int| 0 <= i < decimal(n).len() ==> '0' <= #[trigger] decimal(n)[i] <= '9',
    decreases n,
{
    if n >= 10 {
        lemma_decimal_is_digits(n / 10);
    }
}

/// A number in decimal digits reads back as itself, and where it fits, as a `u32`.
pub proof fn law_decimal_reads_back(n: nat)
    ensures
        decimal_number(ascii(decimal(n))) == Some(n),
        n <= u32::MAX ==> u32_number(ascii(decimal(n))) == Some(n as u32),
{
    lemma_decimal_number_of_decimal(n);
}

/// What stands in the request that sends a quote before the length of its body.
pub open spec fn before_length() -> Seq<char> {
    "POST "@ + REPORT_SUFFIX@ + " HTTP/1.1\r\nHOST: "@ + DEV_HOSTNAME@ + "\r\nContent-Length:"@
}

/// The digits of the length that the request that sends a quote announces, and its body.
pub open spec fn announced_and_body(encoded_quote: Seq<char>) -> (Seq<char>, Seq<char>) {
    let request = report_request_text(encoded_quote);
    let body_len = report_body_text(encoded_quote).len();
    let from = before_length().len() as int;
    let to = request.len() - body_len - "\r\nContent-Type: application/json\r\n\r\n"@.len();
    (request.subrange(from, to), request.skip(request.len() - body_len))
}

/// The length that the request that sends a quote announces reads back as the number of bytes
/// of its body.
pub proof fn law_announced_length_is_true(encoded_quote: Seq<char>)
    ensures
        announced_and_body(encoded_quote).1 == report_body_text(encoded_quote),
        decimal_number(ascii(announced_and_body(encoded_quote).0)) == Some(
            encode_utf8(announced_and_body(encoded_quote).1).len(),
        ),
{
    let n = encode_utf8(report_body_text(encoded_quote)).len();
    law_decimal_reads_back(n);
    assert(announced_and_body(encoded_quote).0 == decimal(n));
    assert(announced_and_body(encoded_quote).1 == report_body_text(encoded_quote));
}

/// Two groups whose requests are the same are the same group.
pub proof fn law_request_identifies_group(one: u32, other: u32)
    requires
        sigrl_request_text(one) == sigrl_request_text(other),
    ensures
        one == other,
{
    let at = ("GET "@ + SIGRL_SUFFIX@).len() as int;
    assert(sigrl_request_text(one).subrange(at, at + 8) == hex8(one));
    assert(sigrl_request_text(other).subrange(at, at + 8) == hex8(other));
    law_hex8_reads_back(one);
    law_hex8_reads_back(other);
}

/// The digits of a word with fewer than three bytes behind them are zero where they hold no
/// bit of a byte.
proof fn lemma_padding_holds_nothing(bytes: Seq<u8>, from: int, k: int)
    requires
        0 <= from < bytes.len(),
        0 <= k < 4,
        6 * k >= 8 * (bytes.len() - from),
    ensures
        sextet(base64_word(bytes, from), k) == 0,
{
    if k == 2 {
        assert(from + 1 == bytes.len());
    } else {
        assert(k == 3);
    }
}

/// Digits of two numbers below sixty-four differ as the numbers do, and are no equals signs.
proof fn lemma_base64_digit_identifies(v: int, w: int)
    requires
        0 <= v < 64,
        0 <= w < 64,
    ensures
        base64_digit(v) == base64_digit(w) ==> v == w,
        base64_digit(v) != '=',
{
}

/// A word is made of its digits to the base of sixty-four.
proof fn lemma_word_of_sextets(word: int)
    requires
        0 <= word < 0x100_0000,
    ensures
        word == 0x4_0000 * sextet(word, 0) + 0x1000 * sextet(word, 1) + 64 * sextet(word, 2)
            + sextet(word, 3),
{
    let two = word / 64;
    let three = two / 64;
    assert(word / 0x1000 == three);
    assert(word / 0x4_0000 == three / 64);
    assert(word == 64 * two + word % 64);
    assert(two == 64 * three + two % 64);
    assert(three == 64 * (three / 64) + three % 64);
}

/// A shorter byte string has less text, or more padding.
proof fn lemma_base64_text_tells_shorter(one: Seq<u8>, other: Seq<u8>)
    requires
        one.len() < other.len(),
        base64_text(one).len() == base64_text(other).len(),
    ensures
        base64_text(one) != base64_text(other),
{
    let from = 3 * ((one.len() + 2) / 3 - 1);
    let k = one.len() - from + 1;
    let i = 4 * (from / 3) + k;
    assert(i / 4 == from / 3 && i % 4 == k);
    assert(base64_text(one)[i] == '=');
    lemma_sextet_fits(other, from, k);
    lemma_base64_digit_identifies(sextet(base64_word(other, from), k), 0);
    assert(base64_text(other)[i] != '=');
}

/// The same text spells the same words.
proof fn lemma_base64_text_fixes_word(one: Seq<u8>, other: Seq<u8>, from: int)
    requires
        base64_text(one) == base64_text(other),
        one.len() == other.len(),
        0 <= from < one.len(),
        from % 3 == 0,
    ensures
        base64_word(one, from) == base64_word(other, from),
{
    let v = base64_word(one, from);
    let w = base64_word(other, from);
    assert forall|k: int| 0 <= k < 4 implies #[trigger] sextet(v, k) == sextet(w, k) by {
        if 6 * k >= 8 * (one.len() - from) {
            lemma_padding_holds_nothing(one, from, k);
            lemma_padding_holds_nothing(other, from, k);
        } else {
            let i = 4 * (from / 3) + k;
            assert(i / 4 == from / 3 && i % 4 == k);
            assert(base64_text(one)[i] == base64_digit(sextet(v, k)));
            assert(base64_text(other)[i] == base64_digit(sextet(w, k)));
            lemma_sextet_fits(one, from, k);
            lemma_sextet_fits(other, from, k);
            lemma_base64_digit_identifies(sextet(v, k), sextet(w, k));
        }
    }
    assert(sextet(v, 0) == sextet(w, 0) && sextet(v, 1) == sextet(w, 1) && sextet(v, 2) == sextet(
        w,
        2,
    ) && sextet(v, 3) == sextet(w, 3));
    lemma_word_of_sextets(v);
    lemma_word_of_sextets(w);
}

/// Two byte strings with the same Base64 text are the same.
pub proof fn law_base64_identifies_bytes(one: Seq<u8>, other: Seq<u8>)
    requires
        base64_text(one) == base64_text(other),
    ensures
        one == other,
{
    if one.len() < other.len() {
        lemma_base64_text_tells_shorter(one, other);
    } else if other.len() < one.len() {
        lemma_base64_text_tells_shorter(other, one);
    }
    assert forall|j: int| 0 <= j < one.len() implies one[j] == other[j] by {
        let from = 3 * (j / 3);
        lemma_base64_text_fixes_word(one, other, from);
        assert(byte_or_zero(one, from) == byte_or_zero(other, from));
        assert(byte_or_zero(one, from + 1) == byte_or_zero(other, from + 1));
        assert(byte_or_zero(one, from + 2) == byte_or_zero(other, from + 2));
    }
    assert(one == other);
}

/// A greater number never has fewer decimal digits.
proof fn lemma_decimal_grows(n: nat, m: nat)
    requires
        n <= m,
    ensures
        decimal(n).len() <= decimal(m).len(),
    decreases m,
{
    if m >= 10 {
        if n >= 10 {
            lemma_decimal_grows(n / 10, m / 10);
        } else {
            lemma_decimal_number_of_decimal(m / 10);
        }
    }
}

/// Two quotes whose requests are the same are the same quote.
pub proof fn law_request_identifies_quote(one: Seq<u8>, other: Seq<u8>)
    requires
        report_request_text(base64_text(one)) == report_request_text(base64_text(other)),
    ensures
        one == other,
{
    lemma_report_body_len(one);
    lemma_report_body_len(other);
    let n = report_body_len(one.len());
    let m = report_body_len(other.len());
    assert(decimal(n).len() + n == decimal(m).len() + m) by {
        assert(report_request_text(base64_text(one)).len() == report_request_text(
            base64_text(other),
        ).len());
    }
    if n < m {
        lemma_decimal_grows(n, m);
    } else if m < n {
        lemma_decimal_grows(m, n);
    }
    law_announced_length_is_true(base64_text(one));
    law_announced_length_is_true(base64_text(other));
    assert(report_body_text(base64_text(one)) == report_body_text(base64_text(other)));
    let before = "{\"isvEnclaveQuote\":\""@.len() as int;
    let after = n - "\"}\r\n"@.len();
    assert(report_body_text(base64_text(one)).subrange(before, after) == base64_text(one));
    assert(report_body_text(base64_text(other)).subrange(before, after) == base64_text(other));
    law_base64_identifies_bytes(one, other);
}

/// `sep` is first found where the first part that does not hold its first character ends.
proof fn lemma_first_occurrence_after(a: Seq<char>, sep: Seq<char>, rest: Seq<char>)
    requires
        sep.len() > 0,
        !a.contains(sep[0]),
    ensures
        first_occurrence(a + sep + rest, sep) == Some(a.len()),
    decreases a.len(),
{
    let s = a + sep + rest;
    if a.len() == 0 {
        assert(s.take(sep.len() as int) == sep);
    } else {
        lemma_first_and_rest(a);
        assert(s.take(sep.len() as int)[0] == a[0]);
        assert(s.skip(1) == a.skip(1) + sep + rest);
        lemma_first_occurrence_after(a.skip(1), sep, rest);
    }
}

/// A text without the first character of `sep` is not split.
proof fn lemma_not_split(a: Seq<char>, sep: Seq<char>)
    requires
        sep.len() > 0,
        !a.contains(sep[0]),
    ensures
        first_occurrence(a, sep) is None,
        split(a, sep) == seq![a],
    decreases a.len(),
{
    if a.len() > 0 && a.len() >= sep.len() {
        lemma_first_and_rest(a);
        assert(a.take(sep.len() as int)[0] == a[0]);
        lemma_not_split(a.skip(1), sep);
    }
}

/// A text is split behind the first part that does not hold the first character of `sep`.
proof fn lemma_split_after(a: Seq<char>, sep: Seq<char>, rest: Seq<char>)
    requires
        sep.len() > 0,
        !a.contains(sep[0]),
    ensures
        split(a + sep + rest, sep) == seq![a] + split(rest, sep),
{
    let s = a + sep + rest;
    lemma_first_occurrence_after(a, sep, rest);
    assert(s.take(a.len() as int) == a);
    assert(s.skip((a.len() + sep.len()) as int) == rest);
}

/// The pieces put together with `sep` between them.
pub open spec fn join(pieces: Seq<Seq<char>>, sep: Seq<char>) -> Seq<char>
    decreases pieces.len(),
{
    if pieces.len() == 0 {
        Seq::empty()
    } else if pieces.len() == 1 {
        pieces[0]
    } else {
        pieces[0] + sep + join(pieces.skip(1), sep)
    }
}

/// `sep` stands where it is found.
proof fn lemma_first_occurrence_holds(s: Seq<char>, sep: Seq<char>)
    ensures
        first_occurrence(s, sep) matches Some(i) ==> i + sep.len() <= s.len() && s.subrange(
            i as int,
            (i + sep.len()) as int,
        ) == sep,
    decreases s.len(),
{
    if s.len() == 0 || s.len() < sep.len() {
    } else if s.take(sep.len() as int) == sep {
        assert(s.subrange(0, sep.len() as int) == sep);
    } else {
        lemma_first_occurrence_holds(s.skip(1), sep);
        if let Some(i) = first_occurrence(s.skip(1), sep) {
            let end = (i + sep.len()) as int;
            assert(s.subrange(i as int + 1, end + 1) == s.skip(1).subrange(i as int, end));
        }
    }
}

/// What was split can be put together again.
pub proof fn law_split_joins_back(s: Seq<char>, sep: Seq<char>)
    ensures
        split(s, sep).len() > 0,
        join(split(s, sep), sep) == s,
    decreases s.len(),
{
    lemma_first_occurrence_holds(s, sep);
    match first_occurrence(s, sep) {
        Some(i) if sep.len() > 0 && i + sep.len() <= s.len() => {
            let rest = s.skip((i + sep.len()) as int);
            law_split_joins_back(rest, sep);
            assert(split(s, sep).skip(1) == split(rest, sep));
            assert(s == s.take(i as int) + sep + rest);
        },
        _ => {},
    }
}

/// Text without a percent sign is decoded as it stands.
pub proof fn law_plain_text_is_decoded_as_it_stands(s: Seq<char>)
    requires
        !s.contains('%'),
    ensures
        percent_decoded(s) == Some(s),
    decreases s.len(),
{
    if s.len() > 0 {
        lemma_first_and_rest(s);
        law_plain_text_is_decoded_as_it_stands(s.skip(1));
        assert(seq![s[0]] + s.skip(1) == s);
    }
}

/// Of a chain of PEM certificates, the signing certificate is the body of the first: what
/// stands between its opening line and its closing line.
pub proof fn law_signing_cert_is_first_body(
    chain: Seq<char>,
    opening: Seq<char>,
    body: Seq<char>,
    rest: Seq<char>,
)
    requires
        !opening.contains('-'),
        !body.contains('-'),
        percent_decoded(without(chain, "%0A"@)) == Some(
            "-----"@ + opening + "-----"@ + body + "-----"@ + rest,
        ),
    ensures
        signing_cert(chain) == Ok::<Seq<char>, CertError>(body),
{
    reveal_strlit("-----");
    let sep = "-----"@;
    let none = Seq::<char>::empty();
    let tail = body + sep + rest;
    let middle = opening + sep + tail;
    assert(sep + opening + sep + body + sep + rest == none + sep + middle);
    lemma_split_after(none, sep, middle);
    lemma_split_after(opening, sep, tail);
    lemma_split_after(body, sep, rest);
    law_split_joins_back(rest, sep);
}

/// What the certificate carries falls apart again into the report, its signature and its
/// certificate, if none of them holds the separator.
pub proof fn law_payload_splits_back(
    report: Seq<char>,
    signature: Seq<char>,
    certificate: Seq<char>,
)
    requires
        !report.contains('|'),
        !signature.contains('|'),
        !certificate.contains('|'),
    ensures
        split(payload_text(report, signature, certificate), "|"@) == seq![
            report,
            signature,
            certificate,
        ],
{
    reveal_strlit("|");
    let sep = "|"@;
    let tail = signature + sep + certificate;
    assert(payload_text(report, signature, certificate) == report + sep + tail);
    lemma_split_after(report, sep, tail);
    lemma_split_after(signature, sep, certificate);
    lemma_not_split(certificate, sep);
}

/// Without a header for the length of the body, or with one that says zero, a response gives
/// an empty revocation list, whatever follows its head.
pub proof fn law_no_length_no_revocations(head: HeadView, resp: Seq<u8>)
    requires
        match last_value(head.headers, "content-length"@) {
            Some(value) => u32_number(value) == Some(0u32),
            None => true,
        },
        forall|i: int| 0 <= i < head.headers.len() ==> length_readable(#[trigger] head.headers[i]),
    ensures
        decoded_sigrl(sigrl_text(head, resp)) == Ok::<Seq<u8>, ResponseError>(Seq::empty()),
{
}

/// Under the same conditions a response to a quote gives an empty report.
pub proof fn law_no_length_no_report(head: HeadView, resp: Seq<u8>)
    requires
        match last_value(head.headers, "content-length"@) {
            Some(value) => u32_number(value) == Some(0u32),
            None => true,
        },
    ensures
        attn_report(head, resp) matches Ok(said) ==> said.0 == Seq::<char>::empty(),
{
}

/// The hexadecimal digits of some bytes.
pub open spec fn hex_text(bytes: Seq<u8>) -> Seq<char> {
    Seq::new(
        2 * bytes.len(),
        |i: int|
            if i % 2 == 0 {
                hex_digit(bytes[i / 2] as int / 16)
            } else {
                hex_digit(bytes[i / 2] as int % 16)
            },
    )
}

/// A service provider identifier reads back from its hexadecimal digits.
pub proof fn law_spid_reads_back(id: Seq<u8>)
    requires
        id.len() == 16,
    ensures
        spid(hex_text(id)) == Some(id),
{
    let s = hex_text(id);
    assert forall|d: int| 0 <= d < 16 implies hex_value(#[trigger] hex_digit(d)) == Some(d) by {}
    assert(hex_value(s[0]) is Some && hex_value(s[31]) is Some);
    assert(trimmed(s) == s);
    assert forall|i: int| 0 <= i < 16 implies spid_bytes(s)[i] == id[i] by {
        assert(s[2 * i] == hex_digit(id[i] as int / 16));
        assert(s[2 * i + 1] == hex_digit(id[i] as int % 16));
    }
    assert(spid_bytes(s) == id);
}

} // verus!
