//! The attestation service: the requests it is sent and the responses it gives.

use crate::cert::{find_signing_cert, signing_cert, CertError};
use crate::digits::{decimal, hex8, read_u32, u32_number, write_decimal, write_hex8};
use crate::encoding::{base64_text, lemma_base64_text_is_ascii};
use crate::http::{
    plain_head_view, plain_response, HeadStatus, HeadView, HeaderView, HttpHead, HttpHeader,
};
use crate::outside::{
    base64_decode, base64_decoded, base64_encode, http_head, parse_http_head, utf8_text,
};
use crate::response_laws::{
    is_sendable, is_sendable_report, lemma_plain_response_is_text, lemma_report_response,
    lemma_sigrl_response, length_header, report_headers, report_response, sigrl_response,
};
use crate::views::ok_view;
use vstd::prelude::*;
use vstd::slice::slice_subrange;
use vstd::utf8::{
    decode_utf8, decode_utf8_encode_utf8, encode_utf8, is_ascii_chars_encode_utf8, valid_utf8,
};

verus! {

/// The host of the development service.
pub const DEV_HOSTNAME: &'static str = "api.trustedservices.intel.com";

/// The path under which revocation lists are fetched, up to the group.
pub const SIGRL_SUFFIX: &'static str = "/sgx/dev/attestation/v3/sigrl/";

/// The path to which quotes are sent.
pub const REPORT_SUFFIX: &'static str = "/sgx/dev/attestation/v3/report";

/// The most headers of a response that are read.
pub const MAX_HEADERS: usize = 16;

/// The request for the revocation list of a group.
pub open spec fn sigrl_request_text(gid: u32) -> Seq<char> {
    "GET "@ + SIGRL_SUFFIX@ + hex8(gid) + " HTTP/1.1\r\nHOST: "@ + SIGRL_SUFFIX@ + "\r\n\r\n"@
}

/// The body of the request that sends a quote, Base64-encoded.
pub open spec fn report_body_text(encoded_quote: Seq<char>) -> Seq<char> {
    "{\"isvEnclaveQuote\":\""@ + encoded_quote + "\"}\r\n"@
}

/// The request that sends a quote, Base64-encoded.
pub open spec fn report_request_text(encoded_quote: Seq<char>) -> Seq<char> {
    "POST "@ + REPORT_SUFFIX@ + " HTTP/1.1\r\nHOST: "@ + DEV_HOSTNAME@ + "\r\nContent-Length:"@
        + decimal(encode_utf8(report_body_text(encoded_quote)).len())
        + "\r\nContent-Type: application/json\r\n\r\n"@ + report_body_text(encoded_quote)
}

/// Writes the request for the revocation list of a group.
pub fn sigrl_request(gid: u32) -> (request: String)
    ensures
        request@ == sigrl_request_text(gid),
{
    let mut request = "GET ".to_owned();
    request.append(SIGRL_SUFFIX);
    write_hex8(&mut request, gid);
    request.append(" HTTP/1.1\r\nHOST: ");
    request.append(SIGRL_SUFFIX);
    request.append("\r\n\r\n");
    request
}

/// Writes the request that sends a quote that is Base64-encoded already.
pub fn encoded_report_request(encoded_quote: &str) -> (request: String)
    requires
        encode_utf8(report_body_text(encoded_quote@)).len() <= usize::MAX,
    ensures
        request@ == report_request_text(encoded_quote@),
{
    let mut body = "{\"isvEnclaveQuote\":\"".to_owned();
    body.append(encoded_quote);
    body.append("\"}\r\n");
    let mut request = "POST ".to_owned();
    request.append(REPORT_SUFFIX);
    request.append(" HTTP/1.1\r\nHOST: ");
    request.append(DEV_HOSTNAME);
    request.append("\r\nContent-Length:");
    write_decimal(&mut request, body.as_str().len());
    request.append("\r\nContent-Type: application/json\r\n\r\n");
    request.append(body.as_str());
    request
}

/// The body of a quote's request holds as many bytes as characters: only the quote's length
/// counts.
pub proof fn lemma_report_body_len(quote: Seq<u8>)
    ensures
        encode_utf8(report_body_text(base64_text(quote))).len() == report_body_len(quote.len()),
        report_body_text(base64_text(quote)).len() == report_body_len(quote.len()),
{
    reveal_strlit("{\"isvEnclaveQuote\":\"");
    reveal_strlit("\"}\r\n");
    lemma_base64_text_is_ascii(quote);
    is_ascii_chars_encode_utf8(report_body_text(base64_text(quote)));
}

/// The length of the body that sends a quote of `n` bytes.
pub open spec fn report_body_len(n: nat) -> nat {
    4 * ((n + 2) / 3) + 24
}

/// Writes the request that sends a quote.
pub fn report_request(quote: &[u8]) -> (request: String)
    requires
        report_body_len(quote@.len()) <= isize::MAX,
    ensures
        request@ == report_request_text(base64_text(quote@)),
        base64_decoded(base64_text(quote@)) == Some(quote@),
{
    let encoded = base64_encode(quote);
    proof {
        lemma_report_body_len(quote@);
    }
    encoded_report_request(encoded.as_str())
}

/// What the service says with a status code.
pub open spec fn status_text(code: Option<u16>) -> Seq<char> {
    match code {
        Some(200) => "OK Operation Successful"@,
        Some(401) => "Unauthorized Failed to authenticate or authorize request."@,
        Some(404) => "Not Found GID does not refer to a valid EPID group ID."@,
        Some(500) => "Internal error occurred"@,
        Some(503) => "Service is currently not able to process the request (due to
            a temporary overloading or maintenance). This is a
            temporary state – the same request can be repeated after
            some time. "@,
        _ => "Unknown error occured"@,
    }
}

/// Says what the service says with a status code.
pub fn status_message(code: Option<u16>) -> (message: &'static str)
    ensures
        message@ == status_text(code),
{
    match code {
        Some(200) => "OK Operation Successful",
        Some(401) => "Unauthorized Failed to authenticate or authorize request.",
        Some(404) => "Not Found GID does not refer to a valid EPID group ID.",
        Some(500) => "Internal error occurred",
        Some(503) => "Service is currently not able to process the request (due to
            a temporary overloading or maintenance). This is a
            temporary state – the same request can be repeated after
            some time. ",
        _ => "Unknown error occured",
    }
}

/// Why a response of the service cannot be used.
#[derive(Clone, Copy, Debug, PartialEq, Eq, Structural)]
pub enum ResponseError {
    /// The response is no UTF-8 text.
    NotText,
    /// There is no status code.
    NoStatusCode,
    /// The length of the body is no number, or a header that is read as text is none.
    BadHeader,
    /// The chain of certificates is not percent-encoded.
    CertEncoding,
    /// There is no signing certificate in the chain.
    CertMissing,
    /// A body is announced, and the head does not end before it.
    HeadIncomplete,
    /// The body is no UTF-8 text.
    BodyText,
    /// The body is longer than a decoder can take.
    BodyTooLong,
    /// The body is no Base64.
    BodyEncoding,
}

/// The value of the last header with a name.
pub open spec fn last_value(headers: Seq<HeaderView>, name: Seq<char>) -> Option<Seq<u8>>
    decreases headers.len(),
{
    if headers.len() == 0 {
        None
    } else if headers.last().name == name {
        Some(headers.last().value)
    } else {
        last_value(headers.drop_last(), name)
    }
}

/// Whether a header, if it gives the length of the body, gives a number.
pub open spec fn length_readable(h: HeaderView) -> bool {
    h.name == "content-length"@ ==> u32_number(h.value) is Some
}

/// Whether a header, if it has a name, holds text.
pub open spec fn text_readable(h: HeaderView, name: Seq<char>) -> bool {
    h.name == name ==> valid_utf8(h.value)
}

/// The length of the body: what the last header for it says, and nothing without one.
pub open spec fn announced_length(headers: Seq<HeaderView>) -> u32 {
    match last_value(headers, "content-length"@) {
        Some(value) => u32_number(value)->0,
        None => 0,
    }
}

/// The text of the last header with a name; empty without one.
pub open spec fn header_text(headers: Seq<HeaderView>, name: Seq<char>) -> Seq<char> {
    match last_value(headers, name) {
        Some(value) => decode_utf8(value),
        None => Seq::empty(),
    }
}

/// The bytes behind the head of a response.
pub open spec fn body_of(status: HeadStatus, resp: Seq<u8>) -> Option<Seq<u8>> {
    match status {
        HeadStatus::Complete(n) if n <= resp.len() => Some(resp.skip(n as int)),
        _ => None,
    }
}

/// The body of a response where one is announced, as text.
pub open spec fn body_text(head: HeadView, resp: Seq<u8>) -> Result<
    Option<Seq<char>>,
    ResponseError,
> {
    if announced_length(head.headers) == 0 {
        Ok(None)
    } else {
        match body_of(head.status, resp) {
            None => Err(ResponseError::HeadIncomplete),
            Some(body) => if valid_utf8(body) {
                Ok(Some(decode_utf8(body)))
            } else {
                Err(ResponseError::BodyText)
            },
        }
    }
}

/// Whether a header has a name.
fn is_named(h: &HttpHeader, name: &str) -> (b: bool)
    ensures
        b == (h@.name == name@),
{
    h.name == name.to_owned()
}

/// The value of the last header with a name.
fn find_last<'a>(headers: &'a Vec<HttpHeader>, name: &str) -> (value: Option<&'a Vec<u8>>)
    ensures
        match value {
            Some(v) => last_value(headers@.map_values(|h: HttpHeader| h@), name@) == Some(v@),
            None => last_value(headers@.map_values(|h: HttpHeader| h@), name@) is None,
        },
{
    let ghost views = headers@.map_values(|h: HttpHeader| h@);
    let mut i: usize = headers.len();
    assert(views.take(i as int) == views);
    while i > 0
        invariant
            i <= headers@.len(),
            views == headers@.map_values(|h: HttpHeader| h@),
            last_value(views, name@) == last_value(views.take(i as int), name@),
        decreases i,
    {
        assert(views.take(i as int).drop_last() == views.take(i - 1));
        if is_named(&headers[i - 1], name) {
            return Some(&headers[i - 1].value);
        }
        i -= 1;
    }
    None
}

/// The body of a response where one is announced, as [`body_text`] says.
fn read_body(head: &HttpHead, resp: &[u8]) -> (body: Result<Option<String>, ResponseError>)
    requires
        forall|i: int|
            0 <= i < head@.headers.len() ==> length_readable(#[trigger] head@.headers[i]),
    ensures
        ok_view(body) == body_text(head@, resp@),
{
    let length = match find_last(&head.headers, "content-length") {
        Some(value) => {
            proof {
                lemma_last_value_is_of_a_header(head@.headers, "content-length"@);
            }
            match read_u32(value.as_slice()) {
                Some(n) => n,
                None => 0,
            }
        },
        None => 0,
    };
    if length == 0 {
        return Ok(None);
    }
    match head.status {
        HeadStatus::Complete(n) => {
            if n > resp.len() {
                return Err(ResponseError::HeadIncomplete);
            }
            let body = slice_subrange(resp, n, resp.len());
            match utf8_text(body) {
                Some(text) => Ok(Some(text)),
                None => Err(ResponseError::BodyText),
            }
        },
        _ => Err(ResponseError::HeadIncomplete),
    }
}

/// The last value of a name is the value of a header that has it.
proof fn lemma_last_value_is_of_a_header(headers: Seq<HeaderView>, name: Seq<char>)
    ensures
        last_value(headers, name) matches Some(value) ==> exists|i: int|
            0 <= i < headers.len() && (#[trigger] headers[i]).name == name && headers[i].value
                == value,
    decreases headers.len(),
{
    if headers.len() > 0 {
        if headers.last().name == name {
            assert(headers[headers.len() - 1].name == name);
        } else {
            lemma_last_value_is_of_a_header(headers.drop_last(), name);
            if last_value(headers.drop_last(), name) is Some {
                let i = choose|i: int|
                    0 <= i < headers.len() - 1 && (#[trigger] headers.drop_last()[i]).name == name
                        && Some(headers.drop_last()[i].value) == last_value(
                        headers.drop_last(),
                        name,
                    );
                assert(headers[i] == headers.drop_last()[i]);
            }
        }
    }
}

/// The text of the last header with a name, as [`header_text`] says.
fn read_text(headers: &Vec<HttpHeader>, name: &str) -> (text: String)
    requires
        forall|i: int|
            0 <= i < headers@.len() ==> text_readable((#[trigger] headers@[i])@, name@),
    ensures
        text@ == header_text(headers@.map_values(|h: HttpHeader| h@), name@),
{
    let ghost views = headers@.map_values(|h: HttpHeader| h@);
    match find_last(headers, name) {
        Some(value) => {
            proof {
                lemma_last_value_is_of_a_header(views, name@);
                let i = choose|i: int|
                    0 <= i < views.len() && (#[trigger] views[i]).name == name@ && views[i].value
                        == value@;
                assert(text_readable(headers@[i]@, name@));
            }
            match utf8_text(value.as_slice()) {
                Some(text) => text,
                None => String::new(),
            }
        },
        None => String::new(),
    }
}

/// The header that carries the signature over the report.
pub const SIGNATURE_HEADER: &'static str = "x-iasreport-signature";

/// The header that carries the chain of the signing certificate.
pub const CERTIFICATE_HEADER: &'static str = "x-iasreport-signing-certificate";

/// Whether a header of a report's response can be read.
pub open spec fn report_header_readable(h: HeaderView) -> bool {
    length_readable(h) && text_readable(h, SIGNATURE_HEADER@) && text_readable(
        h,
        CERTIFICATE_HEADER@,
    )
}

/// What a response to a quote says: the report, its signature and the certificate that
/// signed it.
pub open spec fn attn_report(head: HeadView, resp: Seq<u8>) -> Result<
    (Seq<char>, Seq<char>, Seq<char>),
    ResponseError,
> {
    if head.code is None {
        Err(ResponseError::NoStatusCode)
    } else if exists|i: int|
        0 <= i < head.headers.len() && !report_header_readable(#[trigger] head.headers[i]) {
        Err(ResponseError::BadHeader)
    } else {
        match signing_cert(header_text(head.headers, CERTIFICATE_HEADER@)) {
            Err(CertError::Encoding) => Err(ResponseError::CertEncoding),
            Err(CertError::Missing) => Err(ResponseError::CertMissing),
            Ok(cert) => match body_text(head, resp) {
                Err(e) => Err(e),
                Ok(body) => Ok(
                    (
                        match body {
                            Some(report) => report,
                            None => Seq::empty(),
                        },
                        header_text(head.headers, SIGNATURE_HEADER@),
                        cert,
                    ),
                ),
            },
        }
    }
}

/// The Base64 text of a revocation list that a response gives; none where the list is empty.
pub open spec fn sigrl_text(head: HeadView, resp: Seq<u8>) -> Result<
    Option<Seq<char>>,
    ResponseError,
> {
    if exists|i: int|
        0 <= i < head.headers.len() && !length_readable(#[trigger] head.headers[i]) {
        Err(ResponseError::BadHeader)
    } else {
        match body_text(head, resp) {
            Ok(Some(text)) if 4 * encode_utf8(text).len() > usize::MAX => Err(
                ResponseError::BodyTooLong,
            ),
            other => other,
        }
    }
}

/// The revocation list behind its Base64 text.
pub open spec fn decoded_sigrl(text: Result<Option<Seq<char>>, ResponseError>) -> Result<
    Seq<u8>,
    ResponseError,
> {
    match text {
        Err(e) => Err(e),
        Ok(None) => Ok(Seq::empty()),
        Ok(Some(t)) => match base64_decoded(t) {
            Some(list) => Ok(list),
            None => Err(ResponseError::BodyEncoding),
        },
    }
}

/// Whether a header gives the length of the body as a number, if it gives it.
fn has_readable_length(h: &HttpHeader) -> (b: bool)
    ensures
        b == length_readable(h@),
{
    !is_named(h, "content-length") || read_u32(h.value.as_slice()).is_some()
}

/// Whether a header holds text, if it has a name.
fn has_readable_text(h: &HttpHeader, name: &str) -> (b: bool)
    ensures
        b == text_readable(h@, name@),
{
    !is_named(h, name) || utf8_text(h.value.as_slice()).is_some()
}

/// Takes a report from a response whose head was read, as [`attn_report`] says.
pub fn attn_report_from(head: &HttpHead, resp: &[u8]) -> (report: Result<
    (String, String, String),
    ResponseError,
>)
    ensures
        ok_view(report) == attn_report(head@, resp@),
{
    if head.code.is_none() {
        return Err(ResponseError::NoStatusCode);
    }
    let mut i: usize = 0;
    while i < head.headers.len()
        invariant
            i <= head.headers@.len(),
            head.code is Some,
            forall|j: int| 0 <= j < i ==> report_header_readable(#[trigger] head@.headers[j]),
        decreases head.headers@.len() - i,
    {
        let h = &head.headers[i];
        assert(head@.headers[i as int] == h@);
        if !has_readable_length(h) || !has_readable_text(h, SIGNATURE_HEADER)
            || !has_readable_text(h, CERTIFICATE_HEADER) {
            return Err(ResponseError::BadHeader);
        }
        i += 1;
    }
    assert forall|j: int| 0 <= j < head.headers@.len() implies report_header_readable(
        (#[trigger] head.headers@[j])@,
    ) by {
        assert(report_header_readable(head@.headers[j]));
    }
    let signature = read_text(&head.headers, SIGNATURE_HEADER);
    let chain = read_text(&head.headers, CERTIFICATE_HEADER);
    let cert = match find_signing_cert(chain.as_str()) {
        Ok(cert) => cert,
        Err(CertError::Encoding) => {
            return Err(ResponseError::CertEncoding);
        },
        Err(CertError::Missing) => {
            return Err(ResponseError::CertMissing);
        },
    };
    match read_body(head, resp) {
        Err(e) => Err(e),
        Ok(Some(report)) => Ok((report, signature, cert)),
        Ok(None) => Ok((String::new(), signature, cert)),
    }
}

/// Takes the text of a revocation list from a response whose head was read, as [`sigrl_text`]
/// says.
pub fn sigrl_text_from(head: &HttpHead, resp: &[u8]) -> (text: Result<
    Option<String>,
    ResponseError,
>)
    ensures
        ok_view(text) == sigrl_text(head@, resp@),
{
    let mut i: usize = 0;
    while i < head.headers.len()
        invariant
            i <= head.headers@.len(),
            forall|j: int| 0 <= j < i ==> length_readable(#[trigger] head@.headers[j]),
        decreases head.headers@.len() - i,
    {
        assert(head@.headers[i as int] == head.headers@[i as int]@);
        if !has_readable_length(&head.headers[i]) {
            return Err(ResponseError::BadHeader);
        }
        i += 1;
    }
    let body = read_body(head, resp);
    if let Ok(Some(_)) = body {
        proof {
            decode_utf8_encode_utf8(body_of(head.status, resp@)->0);
        }
        if let HeadStatus::Complete(n) = head.status {
            if resp.len() - n > usize::MAX / 4 {
                return Err(ResponseError::BodyTooLong);
            }
        }
    }
    body
}

/// Takes the report, its signature and the signing certificate from a response.
pub fn parse_response_attn_report(resp: &[u8]) -> (report: Result<
    (String, String, String),
    ResponseError,
>)
    ensures
        ok_view(report) == attn_report(http_head(resp@, MAX_HEADERS as nat), resp@),
        forall|sent: Seq<char>, signature: Seq<char>, chain: Seq<char>|
            resp@ == #[trigger] report_response(sent, signature, chain) && is_sendable_report(
                sent,
                signature,
                chain,
            ) ==> ok_view(report) == Ok::<(Seq<char>, Seq<char>, Seq<char>), ResponseError>(
                (sent, signature, signing_cert(chain)->Ok_0),
            ),
{
    let head = parse_http_head(resp, MAX_HEADERS);
    let report = attn_report_from(&head, resp);
    proof {
        assert(resp.len() == resp@.len());
        assert forall|sent: Seq<char>, signature: Seq<char>, chain: Seq<char>|
            resp@ == #[trigger] report_response(sent, signature, chain) && is_sendable_report(
                sent,
                signature,
                chain,
            ) implies ok_view(report) == Ok::<(Seq<char>, Seq<char>, Seq<char>), ResponseError>(
            (sent, signature, signing_cert(chain)->Ok_0),
        ) by {
            lemma_report_response(sent, signature, chain);
            let headers = report_headers(encode_utf8(sent).len(), signature, chain);
            assert(resp@ == plain_response(headers, encode_utf8(sent)));
            assert(head@ == plain_head_view(headers));
        }
    }
    report
}

/// Takes the revocation list from a response.
pub fn parse_response_sigrl(resp: &[u8]) -> (sigrl: Result<Vec<u8>, ResponseError>)
    ensures
        ok_view(sigrl) == decoded_sigrl(sigrl_text(http_head(resp@, MAX_HEADERS as nat), resp@)),
        forall|data: Seq<u8>|
            resp@ == #[trigger] sigrl_response(data) && is_sendable(data) ==> ok_view(sigrl)
                == Ok::<Seq<u8>, ResponseError>(data),
{
    let head = parse_http_head(resp, MAX_HEADERS);
    let text = sigrl_text_from(&head, resp);
    proof {
        assert(resp.len() == resp@.len());
        assert forall|data: Seq<u8>|
            resp@ == #[trigger] sigrl_response(data) && is_sendable(data) implies ok_view(text)
            == Ok::<Option<Seq<char>>, ResponseError>(Some(base64_text(data))) by {
            lemma_sigrl_response(data);
            let headers = seq![length_header(base64_text(data).len())];
            assert(resp@ == plain_response(headers, encode_utf8(base64_text(data))));
            assert(head@ == plain_head_view(headers));
        }
    }
    match text {
        Err(e) => Err(e),
        Ok(None) => {
            let empty: Vec<u8> = Vec::new();
            assert(empty.deep_view() == Seq::<u8>::empty());
            Ok(empty)
        },
        Ok(Some(text)) => match base64_decode(text.as_str()) {
            Some(list) => Ok(list),
            None => Err(ResponseError::BodyEncoding),
        },
    }
}

/// What a response says with its status code, for a log.
pub fn response_message(resp: &[u8]) -> (message: &'static str)
    ensures
        message@ == status_text(http_head(resp@, MAX_HEADERS as nat).code),
{
    status_message(parse_http_head(resp, MAX_HEADERS).code)
}

/// The revocation list in all that the service sent back.
pub open spec fn reply_sigrl(reply: Seq<u8>) -> Result<Seq<u8>, ResponseError> {
    if valid_utf8(reply) {
        decoded_sigrl(sigrl_text(http_head(reply, MAX_HEADERS as nat), reply))
    } else {
        Err(ResponseError::NotText)
    }
}

/// The report, its signature and the signing certificate in all that the service sent back.
pub open spec fn reply_report(reply: Seq<u8>) -> Result<
    (Seq<char>, Seq<char>, Seq<char>),
    ResponseError,
> {
    if valid_utf8(reply) {
        attn_report(http_head(reply, MAX_HEADERS as nat), reply)
    } else {
        Err(ResponseError::NotText)
    }
}

/// Takes the revocation list from all that the service sent back.
pub fn sigrl_from_reply(reply: &[u8]) -> (sigrl: Result<Vec<u8>, ResponseError>)
    ensures
        ok_view(sigrl) == reply_sigrl(reply@),
        forall|data: Seq<u8>|
            reply@ == #[trigger] sigrl_response(data) && is_sendable(data) ==> ok_view(sigrl)
                == Ok::<Seq<u8>, ResponseError>(data),
{
    proof {
        assert(reply.len() == reply@.len());
        assert forall|data: Seq<u8>|
            reply@ == #[trigger] sigrl_response(data) && is_sendable(data) implies valid_utf8(
            reply@,
        ) by {
            lemma_sigrl_response(data);
            lemma_plain_response_is_text(
                seq![length_header(base64_text(data).len())],
                base64_text(data),
            );
        }
    }
    if utf8_text(reply).is_none() {
        return Err(ResponseError::NotText);
    }
    parse_response_sigrl(reply)
}

/// Takes the report, its signature and the signing certificate from all that the service
/// sent back.
pub fn report_from_reply(reply: &[u8]) -> (report: Result<
    (String, String, String),
    ResponseError,
>)
    ensures
        ok_view(report) == reply_report(reply@),
        forall|sent: Seq<char>, signature: Seq<char>, chain: Seq<char>|
            reply@ == #[trigger] report_response(sent, signature, chain) && is_sendable_report(
                sent,
                signature,
                chain,
            ) ==> ok_view(report) == Ok::<(Seq<char>, Seq<char>, Seq<char>), ResponseError>(
                (sent, signature, signing_cert(chain)->Ok_0),
            ),
{
    proof {
        assert(reply.len() == reply@.len());
        assert forall|sent: Seq<char>, signature: Seq<char>, chain: Seq<char>|
            reply@ == #[trigger] report_response(sent, signature, chain) && is_sendable_report(
                sent,
                signature,
                chain,
            ) implies valid_utf8(reply@) by {
            lemma_report_response(sent, signature, chain);
            lemma_plain_response_is_text(
                report_headers(encode_utf8(sent).len(), signature, chain),
                sent,
            );
        }
    }
    if utf8_text(reply).is_none() {
        return Err(ResponseError::NotText);
    }
    parse_response_attn_report(reply)
}

} // verus!
