//! What a response carries, and what is read from it.

use crate::cert::signing_cert;
use crate::digits::{decimal, u32_number};
use crate::encoding::{base64_text, lemma_base64_text_is_ascii};
use crate::http::{
    header_line, header_lines, plain_head, plain_head_view, plain_header, plain_response,
    HeadView, HeaderView,
};
use crate::ias::{
    announced_length, attn_report, body_of, decoded_sigrl, last_value, length_readable,
    report_header_readable, sigrl_text, ResponseError, CERTIFICATE_HEADER, SIGNATURE_HEADER,
};
use crate::outside::base64_decoded;
use crate::text::ascii;
use crate::text_laws::{law_decimal_reads_back, lemma_decimal_is_digits};
use vstd::prelude::*;
use vstd::utf8::{
    decode_utf8, encode_utf8, encode_utf8_decode_utf8, encode_utf8_valid_utf8, is_ascii_chars,
    is_ascii_chars_encode_utf8, valid_utf8, valid_utf8_concat,
};

verus! {

/// The header that announces a body of `n` bytes.
pub open spec fn length_header(n: nat) -> HeaderView {
    HeaderView { name: "content-length"@, value: ascii(decimal(n)) }
}

/// A response that carries a revocation list.
pub open spec fn sigrl_response(data: Seq<u8>) -> Seq<u8> {
    plain_response(seq![length_header(base64_text(data).len())], encode_utf8(base64_text(data)))
}

/// Whether the Base64 text of some bytes is one that a response can announce, and a decoder can
/// take.
pub open spec fn is_sendable(data: Seq<u8>) -> bool {
    &&& data.len() > 0
    &&& base64_text(data).len() <= u32::MAX
    &&& 4 * base64_text(data).len() <= usize::MAX
}

/// Whether a text is made of visible ASCII characters, at least one.
pub open spec fn is_visible_text(text: Seq<char>) -> bool {
    text.len() > 0 && forall|i: int| 0 <= i < text.len() ==> '!' <= #[trigger] text[i] <= '~'
}

/// The headers of a response that carries a report of `n` bytes.
pub open spec fn report_headers(n: nat, signature: Seq<char>, chain: Seq<char>) -> Seq<HeaderView> {
    seq![
        length_header(n),
        HeaderView { name: SIGNATURE_HEADER@, value: ascii(signature) },
        HeaderView { name: CERTIFICATE_HEADER@, value: ascii(chain) },
    ]
}

/// A response that carries a report, its signature and the chain of its certificate.
pub open spec fn report_response(
    report: Seq<char>,
    signature: Seq<char>,
    chain: Seq<char>,
) -> Seq<u8> {
    plain_response(
        report_headers(encode_utf8(report).len(), signature, chain),
        encode_utf8(report),
    )
}

/// Whether a report, its signature and the chain of its certificate are such that a response
/// can carry them.
pub open spec fn is_sendable_report(
    report: Seq<char>,
    signature: Seq<char>,
    chain: Seq<char>,
) -> bool {
    &&& 0 < encode_utf8(report).len() <= u32::MAX
    &&& is_visible_text(signature)
    &&& is_visible_text(chain)
    &&& signing_cert(chain) is Ok
}

/// A response that carries the Base64 text of some bytes gives these bytes back, whatever its
/// other headers are, if the decoder reads back what the encoder wrote.
pub proof fn law_revocation_list_reads_back(head: HeadView, resp: Seq<u8>, data: Seq<u8>)
    requires
        forall|i: int| 0 <= i < head.headers.len() ==> length_readable(#[trigger] head.headers[i]),
        announced_length(head.headers) != 0,
        last_value(head.headers, "content-length"@) is Some,
        body_of(head.status, resp) == Some(encode_utf8(base64_text(data))),
        4 * base64_text(data).len() <= usize::MAX,
        base64_decoded(base64_text(data)) == Some(data),
    ensures
        decoded_sigrl(sigrl_text(head, resp)) == Ok::<Seq<u8>, ResponseError>(data),
{
    lemma_revocation_list_is_text(head, resp, data);
}

/// The text of a revocation list is that which the response carries.
pub proof fn lemma_revocation_list_is_text(head: HeadView, resp: Seq<u8>, data: Seq<u8>)
    requires
        forall|i: int| 0 <= i < head.headers.len() ==> length_readable(#[trigger] head.headers[i]),
        announced_length(head.headers) != 0,
        last_value(head.headers, "content-length"@) is Some,
        body_of(head.status, resp) == Some(encode_utf8(base64_text(data))),
        4 * base64_text(data).len() <= usize::MAX,
    ensures
        sigrl_text(head, resp) == Ok::<Option<Seq<char>>, ResponseError>(Some(base64_text(data))),
{
    encode_utf8_valid_utf8(base64_text(data));
    encode_utf8_decode_utf8(base64_text(data));
    lemma_base64_text_is_ascii(data);
    is_ascii_chars_encode_utf8(base64_text(data));
}

/// What stands behind the head of a plain response is its body.
proof fn lemma_plain_body(headers: Seq<HeaderView>, body: Seq<u8>)
    requires
        plain_response(headers, body).len() <= usize::MAX,
    ensures
        body_of(plain_head_view(headers).status, plain_response(headers, body)) == Some(body),
{
    let n = plain_head(headers).len();
    assert(plain_response(headers, body).skip(n as int) == body);
}

/// The header that announces a body of `n` bytes is a plain one, and says `n`.
proof fn lemma_length_header(n: nat)
    requires
        n <= u32::MAX,
    ensures
        plain_header(length_header(n)),
        u32_number(length_header(n).value) == Some(n as u32),
{
    reveal_strlit("content-length");
    law_decimal_reads_back(n);
    lemma_decimal_is_digits(n);
}

/// The head of a response that carries a revocation list is plain, and the text of the list is
/// what it carries.
pub proof fn lemma_sigrl_response(data: Seq<u8>)
    requires
        is_sendable(data),
        sigrl_response(data).len() <= usize::MAX,
    ensures
        plain_header(length_header(base64_text(data).len())),
        sigrl_text(
            plain_head_view(seq![length_header(base64_text(data).len())]),
            sigrl_response(data),
        ) == Ok::<Option<Seq<char>>, ResponseError>(Some(base64_text(data))),
{
    let n = base64_text(data).len();
    let headers = seq![length_header(n)];
    lemma_base64_text_is_ascii(data);
    lemma_length_header(n);
    lemma_plain_body(headers, encode_utf8(base64_text(data)));
    assert(last_value(headers, "content-length"@) == Some(length_header(n).value));
    lemma_revocation_list_is_text(plain_head_view(headers), sigrl_response(data), data);
}

/// ASCII codes are the text that they were taken from.
proof fn lemma_ascii_is_text(text: Seq<char>)
    requires
        is_ascii_chars(text),
    ensures
        valid_utf8(ascii(text)),
        decode_utf8(ascii(text)) == text,
{
    is_ascii_chars_encode_utf8(text);
    assert(ascii(text) == encode_utf8(text));
    encode_utf8_valid_utf8(text);
    encode_utf8_decode_utf8(text);
}

/// The head of a response that carries a report is plain, and the report, its signature and its
/// certificate are what it carries.
pub proof fn lemma_report_response(report: Seq<char>, signature: Seq<char>, chain: Seq<char>)
    requires
        is_sendable_report(report, signature, chain),
        report_response(report, signature, chain).len() <= usize::MAX,
    ensures
        forall|i: int|
            0 <= i < 3 ==> plain_header(
                #[trigger] report_headers(encode_utf8(report).len(), signature, chain)[i],
            ),
        attn_report(
            plain_head_view(report_headers(encode_utf8(report).len(), signature, chain)),
            report_response(report, signature, chain),
        ) == Ok::<(Seq<char>, Seq<char>, Seq<char>), ResponseError>(
            (report, signature, signing_cert(chain)->Ok_0),
        ),
{
    let n = encode_utf8(report).len();
    let headers = report_headers(n, signature, chain);
    reveal_strlit("content-length");
    reveal_strlit("x-iasreport-signature");
    reveal_strlit("x-iasreport-signing-certificate");
    lemma_length_header(n);
    lemma_plain_body(headers, encode_utf8(report));
    lemma_ascii_is_text(signature);
    lemma_ascii_is_text(chain);
    encode_utf8_valid_utf8(report);
    encode_utf8_decode_utf8(report);
    assert("content-length"@.len() != SIGNATURE_HEADER@.len());
    assert("content-length"@.len() != CERTIFICATE_HEADER@.len());
    assert(SIGNATURE_HEADER@.len() != CERTIFICATE_HEADER@.len());
    reveal_with_fuel(last_value, 4);
    assert(headers.drop_last().last() == headers[1]);
    assert(headers.drop_last().drop_last().last() == headers[0]);
    assert(last_value(headers, CERTIFICATE_HEADER@) == Some(ascii(chain)));
    assert(last_value(headers, SIGNATURE_HEADER@) == Some(ascii(signature)));
    assert(last_value(headers, "content-length"@) == Some(length_header(n).value));
    assert forall|i: int| 0 <= i < headers.len() implies report_header_readable(
        #[trigger] headers[i],
    ) by {}
}

/// A plain header on its line is text.
proof fn lemma_header_line_is_text(h: HeaderView)
    requires
        plain_header(h),
    ensures
        valid_utf8(header_line(h)),
{
    reveal_strlit(": ");
    reveal_strlit("\r\n");
    let value = h.value.map_values(|b: u8| b as char);
    assert(ascii(value) == h.value);
    lemma_ascii_is_text(h.name);
    lemma_ascii_is_text(": "@);
    lemma_ascii_is_text(value);
    lemma_ascii_is_text("\r\n"@);
    valid_utf8_concat(ascii(h.name), ascii(": "@));
    valid_utf8_concat(ascii(h.name) + ascii(": "@), h.value);
    valid_utf8_concat(ascii(h.name) + ascii(": "@) + h.value, ascii("\r\n"@));
}

/// Plain headers on their lines are text.
proof fn lemma_header_lines_are_text(headers: Seq<HeaderView>)
    requires
        forall|i: int| 0 <= i < headers.len() ==> plain_header(#[trigger] headers[i]),
    ensures
        valid_utf8(header_lines(headers)),
    decreases headers.len(),
{
    if headers.len() > 0 {
        lemma_header_lines_are_text(headers.drop_last());
        lemma_header_line_is_text(headers.last());
        valid_utf8_concat(header_lines(headers.drop_last()), header_line(headers.last()));
    }
}

/// A response with plain headers and a body that is text is text.
pub proof fn lemma_plain_response_is_text(headers: Seq<HeaderView>, body: Seq<char>)
    requires
        forall|i: int| 0 <= i < headers.len() ==> plain_header(#[trigger] headers[i]),
    ensures
        valid_utf8(plain_response(headers, encode_utf8(body))),
{
    let status = ascii("HTTP/1.1 200 OK\r\n"@);
    reveal_strlit("HTTP/1.1 200 OK\r\n");
    reveal_strlit("\r\n");
    lemma_ascii_is_text("HTTP/1.1 200 OK\r\n"@);
    lemma_ascii_is_text("\r\n"@);
    lemma_header_lines_are_text(headers);
    encode_utf8_valid_utf8(body);
    valid_utf8_concat(status, header_lines(headers));
    valid_utf8_concat(status + header_lines(headers), ascii("\r\n"@));
    valid_utf8_concat(plain_head(headers), encode_utf8(body));
}

} // verus!
