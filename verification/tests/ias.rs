use pcl_seal::http::{HeadStatus, HttpHead, HttpHeader};
use pcl_seal::ias::{
    attn_report_from, encoded_report_request, parse_response_attn_report, parse_response_sigrl,
    report_from_reply, report_request, response_message, sigrl_from_reply, sigrl_request,
    sigrl_text_from, status_message, ResponseError, DEV_HOSTNAME, MAX_HEADERS, REPORT_SUFFIX,
    SIGRL_SUFFIX,
};

const CHAIN: &str =
    "-----BEGIN%20CERTIFICATE-----%0AMIIB%3D%0A-----END%20CERTIFICATE-----%0A";

fn header(name: &str, value: &[u8]) -> HttpHeader {
    HttpHeader { name: name.to_string(), value: value.to_vec() }
}

fn head(code: Option<u16>, headers: Vec<HttpHeader>, status: HeadStatus) -> HttpHead {
    HttpHead { code, headers, status }
}

fn report_response(headers: &str, body: &str) -> Vec<u8> {
    format!("HTTP/1.1 200 OK\r\n{}\r\n{}", headers, body).into_bytes()
}

#[test]
fn service_addresses() {
    assert_eq!(DEV_HOSTNAME, "api.trustedservices.intel.com");
    assert_eq!(SIGRL_SUFFIX, "/sgx/dev/attestation/v3/sigrl/");
    assert_eq!(REPORT_SUFFIX, "/sgx/dev/attestation/v3/report");
    assert_eq!(MAX_HEADERS, 16);
}

#[test]
fn sigrl_request_names_the_group() {
    assert_eq!(
        sigrl_request(0xb1a),
        "GET /sgx/dev/attestation/v3/sigrl/00000b1a HTTP/1.1\r\n\
         HOST: /sgx/dev/attestation/v3/sigrl/\r\n\r\n"
    );
}

#[test]
fn requests_of_two_groups_differ() {
    assert_ne!(sigrl_request(1), sigrl_request(16));
    assert_ne!(sigrl_request(0), sigrl_request(u32::MAX));
}

#[test]
fn report_request_carries_the_quote() {
    assert_eq!(
        report_request(&[1, 2, 3]),
        "POST /sgx/dev/attestation/v3/report HTTP/1.1\r\n\
         HOST: api.trustedservices.intel.com\r\n\
         Content-Length:28\r\n\
         Content-Type: application/json\r\n\r\n\
         {\"isvEnclaveQuote\":\"AQID\"}\r\n"
    );
}

#[test]
fn report_request_of_an_empty_quote() {
    let request = report_request(&[]);
    assert!(request.ends_with("Content-Length:24\r\nContent-Type: application/json\r\n\r\n\
                               {\"isvEnclaveQuote\":\"\"}\r\n"));
}

#[test]
fn announced_length_is_that_of_the_body() {
    for n in [0usize, 1, 2, 3, 100, 2048] {
        let request = report_request(&vec![0xa5; n]);
        let body = request.split("\r\n\r\n").nth(1).unwrap();
        let announced = request.split("Content-Length:").nth(1).unwrap();
        let announced = announced.split("\r\n").next().unwrap();
        assert_eq!(announced.parse::<usize>().unwrap(), body.len());
    }
}

#[test]
fn quote_can_be_read_from_its_request() {
    let quote: Vec<u8> = (0..=255).collect();
    let request = report_request(&quote);
    let encoded = request.split('"').nth(3).unwrap();
    assert_eq!(base64::decode(encoded).unwrap(), quote);
    assert_eq!(encoded_report_request(encoded), request);
}

#[test]
fn request_counts_bytes_and_not_characters() {
    assert!(encoded_report_request("\u{20ac}").contains("Content-Length:27\r\n"));
}

#[test]
fn status_messages() {
    assert_eq!(status_message(Some(200)), "OK Operation Successful");
    assert_eq!(
        status_message(Some(401)),
        "Unauthorized Failed to authenticate or authorize request."
    );
    assert_eq!(
        status_message(Some(404)),
        "Not Found GID does not refer to a valid EPID group ID."
    );
    assert_eq!(status_message(Some(500)), "Internal error occurred");
    assert!(status_message(Some(503)).starts_with("Service is currently not able to process"));
    assert!(status_message(Some(503)).ends_with("some time. "));
    assert_eq!(status_message(Some(302)), "Unknown error occured");
    assert_eq!(status_message(None), "Unknown error occured");
}

#[test]
fn response_messages_go_by_the_code() {
    assert_eq!(response_message(b"HTTP/1.1 404 Not Found\r\n\r\n"), status_message(Some(404)));
    assert_eq!(response_message(b"HTTP/1.1 200 OK\r\n\r\n"), status_message(Some(200)));
    assert_eq!(response_message(b"garbage"), "Unknown error occured");
}

#[test]
fn sigrl_is_decoded() {
    let resp = b"HTTP/1.1 200 OK\r\ncontent-length: 8\r\n\r\nAQIDBA==";
    assert_eq!(parse_response_sigrl(resp), Ok(vec![1, 2, 3, 4]));
    assert_eq!(sigrl_from_reply(resp), Ok(vec![1, 2, 3, 4]));
}

#[test]
fn sigrl_takes_the_whole_body_whatever_the_length_says() {
    let resp = b"HTTP/1.1 200 OK\r\ncontent-length: 1\r\n\r\nAQIDBA==";
    assert_eq!(parse_response_sigrl(resp), Ok(vec![1, 2, 3, 4]));
}

#[test]
fn sigrl_is_empty_without_a_length() {
    assert_eq!(parse_response_sigrl(b"HTTP/1.1 200 OK\r\n\r\nAQIDBA=="), Ok(vec![]));
    let zero = b"HTTP/1.1 200 OK\r\ncontent-length: 0\r\n\r\nAQIDBA==";
    assert_eq!(parse_response_sigrl(zero), Ok(vec![]));
    let named_otherwise = b"HTTP/1.1 200 OK\r\nContent-Length: 8\r\n\r\nAQIDBA==";
    assert_eq!(parse_response_sigrl(named_otherwise), Ok(vec![]));
    assert_eq!(parse_response_sigrl(b""), Ok(vec![]));
}

#[test]
fn sigrl_is_read_whatever_the_code_says() {
    let resp = b"HTTP/1.1 404 Not Found\r\ncontent-length: 4\r\n\r\nAQID";
    assert_eq!(parse_response_sigrl(resp), Ok(vec![1, 2, 3]));
}

#[test]
fn the_last_length_counts() {
    let resp = b"HTTP/1.1 200 OK\r\ncontent-length: 8\r\ncontent-length: 0\r\n\r\nAQIDBA==";
    assert_eq!(parse_response_sigrl(resp), Ok(vec![]));
    let resp = b"HTTP/1.1 200 OK\r\ncontent-length: 0\r\ncontent-length: 8\r\n\r\nAQIDBA==";
    assert_eq!(parse_response_sigrl(resp), Ok(vec![1, 2, 3, 4]));
}

#[test]
fn sigrl_with_a_bad_length_is_refused() {
    for value in ["x", "-1", "4294967296", "1 2"] {
        let resp = format!("HTTP/1.1 200 OK\r\ncontent-length: {}\r\n\r\nAQID", value);
        assert_eq!(parse_response_sigrl(resp.as_bytes()), Err(ResponseError::BadHeader));
    }
    let first_bad = b"HTTP/1.1 200 OK\r\ncontent-length: x\r\ncontent-length: 4\r\n\r\nAQID";
    assert_eq!(parse_response_sigrl(first_bad), Err(ResponseError::BadHeader));
}

#[test]
fn sigrl_that_is_no_base64_is_refused() {
    let resp = b"HTTP/1.1 200 OK\r\ncontent-length: 4\r\n\r\n!!!!";
    assert_eq!(parse_response_sigrl(resp), Err(ResponseError::BodyEncoding));
}

#[test]
fn sigrl_that_is_no_text_is_refused() {
    let resp = b"HTTP/1.1 200 OK\r\ncontent-length: 1\r\n\r\n\xff";
    assert_eq!(parse_response_sigrl(resp), Err(ResponseError::BodyText));
    assert_eq!(sigrl_from_reply(resp), Err(ResponseError::NotText));
    assert_eq!(report_from_reply(resp), Err(ResponseError::NotText));
}

#[test]
fn sigrl_of_a_head_that_does_not_end_is_refused() {
    for status in [HeadStatus::Partial, HeadStatus::Invalid, HeadStatus::Complete(5)] {
        let cut = head(Some(200), vec![header("content-length", b"4")], status);
        assert_eq!(sigrl_text_from(&cut, b"AQID"), Err(ResponseError::HeadIncomplete));
    }
    let cut = head(Some(200), vec![header("content-length", b"0")], HeadStatus::Partial);
    assert_eq!(sigrl_text_from(&cut, b"AQID"), Ok(None));
}

#[test]
fn more_headers_than_there_is_room_for() {
    let mut headers = String::from("content-length: 4\r\n");
    for i in 1..16 {
        headers.push_str(&format!("h{}: v\r\n", i));
    }
    assert_eq!(parse_response_sigrl(&report_response(&headers, "AQID")), Ok(vec![1, 2, 3]));
    headers.push_str("h16: v\r\n");
    assert_eq!(
        parse_response_sigrl(&report_response(&headers, "AQID")),
        Err(ResponseError::HeadIncomplete)
    );
}

#[test]
fn sigrl_text_is_the_body_behind_the_head() {
    let whole = head(None, vec![header("content-length", b"4")], HeadStatus::Complete(2));
    assert_eq!(sigrl_text_from(&whole, b"xxAQID"), Ok(Some("AQID".to_string())));
}

#[test]
fn report_signature_and_certificate_are_read() {
    let headers = format!(
        "content-length: 10\r\nx-iasreport-signature: c2ln\r\n\
         x-iasreport-signing-certificate: {}\r\n",
        CHAIN
    );
    let resp = report_response(&headers, "{\"id\":\"1\"}");
    let said = ("{\"id\":\"1\"}".to_string(), "c2ln".to_string(), "MIIB=".to_string());
    assert_eq!(parse_response_attn_report(&resp), Ok(said.clone()));
    assert_eq!(report_from_reply(&resp), Ok(said));
}

#[test]
fn report_is_empty_without_a_length() {
    let headers = format!("x-iasreport-signing-certificate: {}\r\n", CHAIN);
    let resp = report_response(&headers, "{\"id\":\"1\"}");
    let said = (String::new(), String::new(), "MIIB=".to_string());
    assert_eq!(parse_response_attn_report(&resp), Ok(said));
}

#[test]
fn the_last_signature_counts() {
    let headers = format!(
        "x-iasreport-signature: one\r\nx-iasreport-signature: two\r\n\
         x-iasreport-signing-certificate: {}\r\n",
        CHAIN
    );
    let said = parse_response_attn_report(&report_response(&headers, "")).unwrap();
    assert_eq!(said.1, "two");
}

#[test]
fn report_without_a_status_code_is_refused() {
    assert_eq!(parse_response_attn_report(b""), Err(ResponseError::NoStatusCode));
    assert_eq!(parse_response_attn_report(b"garbage"), Err(ResponseError::NoStatusCode));
    assert_eq!(report_from_reply(b"garbage"), Err(ResponseError::NoStatusCode));
}

#[test]
fn report_with_a_bad_header_is_refused() {
    let resp = report_response("content-length: ten\r\n", "");
    assert_eq!(parse_response_attn_report(&resp), Err(ResponseError::BadHeader));
    let resp = b"HTTP/1.1 200 OK\r\nx-iasreport-signature: \xff\r\n\r\n";
    assert_eq!(parse_response_attn_report(resp), Err(ResponseError::BadHeader));
    let resp = b"HTTP/1.1 200 OK\r\nx-iasreport-signing-certificate: \xff\r\n\r\n";
    assert_eq!(parse_response_attn_report(resp), Err(ResponseError::BadHeader));
}

#[test]
fn other_headers_may_hold_anything() {
    let mut resp = b"HTTP/1.1 200 OK\r\nserver: \xff\r\nx-iasreport-signing-certificate: ".to_vec();
    resp.extend_from_slice(CHAIN.as_bytes());
    resp.extend_from_slice(b"\r\n\r\n");
    assert!(parse_response_attn_report(&resp).is_ok());
}

#[test]
fn report_without_a_certificate_is_refused() {
    let resp = report_response("content-length: 10\r\n", "{\"id\":\"1\"}");
    assert_eq!(parse_response_attn_report(&resp), Err(ResponseError::CertMissing));
}

#[test]
fn report_with_a_broken_certificate_is_refused() {
    let resp = report_response("x-iasreport-signing-certificate: -----%zz-----x-----\r\n", "");
    assert_eq!(parse_response_attn_report(&resp), Err(ResponseError::CertEncoding));
}

#[test]
fn report_of_a_head_that_does_not_end_is_refused() {
    let headers = vec![
        header("x-iasreport-signing-certificate", CHAIN.as_bytes()),
        header("content-length", b"1"),
    ];
    let cut = head(Some(200), headers, HeadStatus::Partial);
    assert_eq!(attn_report_from(&cut, b"x"), Err(ResponseError::HeadIncomplete));
}

#[test]
fn report_that_is_no_text_is_refused() {
    let headers = vec![
        header("x-iasreport-signing-certificate", CHAIN.as_bytes()),
        header("content-length", b"1"),
    ];
    let whole = head(Some(200), headers, HeadStatus::Complete(0));
    assert_eq!(attn_report_from(&whole, b"\xff"), Err(ResponseError::BodyText));
    assert_eq!(
        attn_report_from(&whole, b"r"),
        Ok(("r".to_string(), String::new(), "MIIB=".to_string()))
    );
}

#[test]
fn quotes_are_encoded_with_padding() {
    let encoded = |quote: &[u8]| report_request(quote).split('"').nth(3).unwrap().to_string();
    assert_eq!(encoded(b"f"), "Zg==");
    assert_eq!(encoded(b"fo"), "Zm8=");
    assert_eq!(encoded(b"foo"), "Zm9v");
    assert_eq!(encoded(b"foobar"), "Zm9vYmFy");
    assert_eq!(encoded(&[0xfb, 0xff, 0xbf]), "+/+/");
    assert_eq!(encoded(&[0; 40]), format!("{}AA==", "A".repeat(52)));
}

#[test]
fn requests_of_two_quotes_differ() {
    assert_ne!(report_request(&[0]), report_request(&[0, 0]));
    assert_ne!(report_request(&[1, 2, 3]), report_request(&[1, 2, 4]));
    assert_ne!(report_request(&[]), report_request(&[0]));
}

#[test]
fn a_list_that_a_response_carries_reads_back() {
    for n in [1usize, 2, 3, 100, 3000] {
        let data: Vec<u8> = (0..n).map(|i| (i * 7) as u8).collect();
        let text = base64::encode(&data);
        let resp = format!("HTTP/1.1 200 OK\r\ncontent-length: {}\r\n\r\n{}", text.len(), text);
        assert_eq!(parse_response_sigrl(resp.as_bytes()), Ok(data.clone()));
        assert_eq!(sigrl_from_reply(resp.as_bytes()), Ok(data));
    }
}

#[test]
fn a_report_that_a_response_carries_reads_back() {
    let report = "{\"note\":\"\u{e9}\u{20ac}\"}";
    let headers = format!(
        "content-length: {}\r\nx-iasreport-signature: ab+/=\r\n\
         x-iasreport-signing-certificate: {}\r\n",
        report.len(),
        CHAIN
    );
    let resp = report_response(&headers, report);
    let said = (report.to_string(), "ab+/=".to_string(), "MIIB=".to_string());
    assert_eq!(parse_response_attn_report(&resp), Ok(said.clone()));
    assert_eq!(report_from_reply(&resp), Ok(said));
}
