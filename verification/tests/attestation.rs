use pcl_seal::attestation::{
    as_u32_le, report_data_of, Abort, Attestation, EcPublicKey, Event, Phase, Report, TargetInfo,
    RET_QUOTE_BUF_LEN,
};
use pcl_seal::digest::{quote_preimage, same_bytes};
use pcl_seal::ias::{report_request, sigrl_request, ResponseError};
use pcl_seal::status::SGX_ERROR_UNEXPECTED;

const NONCE: [u8; 16] = [9; 16];
const SPID: &str = "000102030405060708090a0b0c0d0e0f\n";
const SIGRL_REPLY: &[u8] = b"HTTP/1.1 200 OK\r\ncontent-length: 4\r\n\r\nAQID";
const NO_SIGRL_REPLY: &[u8] = b"HTTP/1.1 200 OK\r\ncontent-length: 0\r\n\r\n";
const REPORT_REPLY: &[u8] = b"HTTP/1.1 200 OK\r\ncontent-length: 6\r\nx-iasreport-signature: sig\r\n\
    x-iasreport-signing-certificate: -----BEGIN-----body-----END-----\r\n\r\nreport";

fn key() -> EcPublicKey {
    let mut gx = [0u8; 32];
    let mut gy = [0u8; 32];
    for i in 0..32 {
        gx[i] = i as u8;
        gy[i] = 100 + i as u8;
    }
    EcPublicKey { gx, gy }
}

fn target() -> TargetInfo {
    TargetInfo {
        mr_enclave: [7; 32],
        flags: 5,
        xfrm: 3,
        reserved1: [0; 2],
        config_svn: 0,
        misc_select: 0,
        reserved2: [0; 8],
        config_id: [0; 64],
        reserved3: [0; 384],
    }
}

fn report(mr_enclave: [u8; 32], flags: u64, xfrm: u64, digest: [u8; 32]) -> Report {
    let mut report_data = [0u8; 64];
    report_data[..32].copy_from_slice(&digest);
    Report {
        cpu_svn: [0; 16],
        misc_select: 0,
        reserved1: [0; 12],
        isv_ext_prod_id: [0; 16],
        flags,
        xfrm,
        mr_enclave,
        reserved2: [0; 32],
        mr_signer: [0; 32],
        reserved3: [0; 32],
        config_id: [0; 64],
        isv_prod_id: 0,
        isv_svn: 0,
        config_svn: 0,
        reserved4: [0; 42],
        isv_family_id: [0; 16],
        report_data,
        key_id: [0; 32],
        mac: [0; 16],
    }
}

fn own_report() -> sgx_types::sgx_report_t {
    let mut own = sgx_types::sgx_report_t::default();
    own.body.mr_enclave.m = [1; 32];
    own.body.report_data.d[..32].copy_from_slice(&[4; 32]);
    own
}

fn qe_report() -> Report {
    report([7; 32], 5, 3, [8; 32])
}

fn buffer() -> [u8; 2048] {
    let mut buffer = [0u8; 2048];
    buffer[..3].copy_from_slice(&[1, 2, 3]);
    buffer
}

fn quote_init(res: u32, rt: u32) -> Event {
    Event::QuoteInit { res, rt, target: target(), gid: [0x1a, 0x0b, 0, 0] }
}

fn quote(res: u32, rt: u32, qe_report: Report, quote_len: u32) -> Event {
    Event::Quote { res, rt, qe_report, buffer: buffer(), quote_len }
}

fn socket(res: u32, rt: u32, fd: i32) -> Event {
    Event::Socket { res, rt, fd }
}

/// The events of an attestation in which nothing fails.
fn good_events() -> Vec<Event> {
    vec![
        quote_init(0, 0),
        socket(0, 0, 4),
        Event::Reply(SIGRL_REPLY.to_vec()),
        Event::ReportCreated(Ok(own_report())),
        Event::Nonce(NONCE),
        Event::SpidText(SPID.to_string()),
        quote(0, 0, qe_report(), 3),
        Event::ReportVerified { failure: None },
        Event::Digest(Ok([8; 32])),
        socket(0, 0, 6),
        Event::Reply(REPORT_REPLY.to_vec()),
    ]
}

/// An attestation after the first `n` events in which nothing fails.
fn after(n: usize) -> Attestation {
    let mut a = Attestation::new(key(), 1);
    for event in good_events().into_iter().take(n) {
        a = a.step(event);
    }
    a
}

fn failed(a: &Attestation) -> u32 {
    match a.phase() {
        Phase::Failed { status } => *status,
        _ => panic!("not failed"),
    }
}

fn aborted(a: &Attestation) -> Abort {
    match a.phase() {
        Phase::Aborted { cause } => *cause,
        _ => panic!("not aborted"),
    }
}

#[test]
fn group_number_is_little_endian() {
    assert_eq!(as_u32_le(&[0x78, 0x56, 0x34, 0x12]), 0x12345678);
    assert_eq!(as_u32_le(&[0xff; 4]), u32::MAX);
    assert_eq!(as_u32_le(&[1, 0, 0, 0]), 1);
    assert_eq!(as_u32_le(&[0, 0, 0, 1]), 0x0100_0000);
}

#[test]
fn different_groups_have_different_numbers() {
    assert_ne!(as_u32_le(&[1, 0, 0, 0]), as_u32_le(&[0, 1, 0, 0]));
}

#[test]
fn report_data_is_the_key_backwards() {
    let data = report_data_of(&key());
    for i in 0..32 {
        assert_eq!(data[i], 31 - i as u8);
        assert_eq!(data[32 + i], 131 - i as u8);
    }
}

#[test]
fn different_keys_have_different_report_data() {
    let mut other = key();
    other.gy[0] = 0;
    assert_ne!(report_data_of(&other)[..], report_data_of(&key())[..]);
}

#[test]
fn bytes_are_compared_whole() {
    assert!(same_bytes(&[], &[]));
    assert!(same_bytes(&[1, 2], &[1, 2]));
    assert!(!same_bytes(&[1, 2], &[1, 3]));
    assert!(!same_bytes(&[1, 2], &[1]));
    assert!(!same_bytes(&[2, 2], &[1, 2]));
}

#[test]
fn digest_is_taken_over_nonce_and_quote() {
    let mut expected = NONCE.to_vec();
    expected.extend_from_slice(&[1, 2, 3]);
    assert_eq!(quote_preimage(&NONCE, &[1, 2, 3]), expected);
    assert_eq!(quote_preimage(&NONCE, &[]), NONCE.to_vec());
}

#[test]
fn phases_follow_each_other() {
    assert!(matches!(after(0).phase(), Phase::InitQuote));
    assert!(matches!(after(1).phase(), Phase::SigrlSocket { gid: 0xb1a, .. }));
    match after(2).phase() {
        Phase::FetchSigrl { target: named, fd, request } => {
            assert_eq!(named.mr_enclave, [7; 32]);
            assert_eq!(*fd, 4);
            assert_eq!(*request, sigrl_request(0xb1a));
        }
        _ => panic!("the list is fetched next"),
    }
    match after(3).phase() {
        Phase::CreateReport { target: named, sigrl, report_data } => {
            assert_eq!(named.flags, 5);
            assert_eq!(*sigrl, vec![1, 2, 3]);
            assert_eq!(report_data[..], report_data_of(&key())[..]);
        }
        _ => panic!("the report is created next"),
    }
    match after(4).phase() {
        Phase::DrawNonce { report, .. } => assert_eq!(report.body.mr_enclave.m, [1; 32]),
        _ => panic!("the nonce is drawn next"),
    }
    assert!(matches!(after(5).phase(), Phase::LoadSpid { nonce: NONCE, .. }));
    match after(6).phase() {
        Phase::GetQuote { report, sigrl_given, sigrl_len, sign_type, spid, nonce, max_len, .. } => {
            assert_eq!(report.body.report_data.d[..32], [4; 32]);
            assert_eq!(*sigrl_given, Some(vec![1, 2, 3]));
            assert_eq!(*sigrl_len, 3);
            assert_eq!(*sign_type, 1);
            assert_eq!(*spid, [0, 1, 2, 3, 4, 5, 6, 7, 8, 9, 10, 11, 12, 13, 14, 15]);
            assert_eq!(*nonce, NONCE);
            assert_eq!(*max_len, RET_QUOTE_BUF_LEN);
        }
        _ => panic!("the quote is made next"),
    }
    match after(7).phase() {
        Phase::VerifyReport { qe_report, quote_len, .. } => {
            assert_eq!(qe_report.mr_enclave, [7; 32]);
            assert_eq!(*quote_len, 3);
        }
        _ => panic!("the report is verified next"),
    }
    match after(8).phase() {
        Phase::HashQuote { nonce, quote, .. } => {
            assert_eq!(*nonce, NONCE);
            assert_eq!(*quote, vec![1, 2, 3]);
        }
        _ => panic!("the digest is computed next"),
    }
    match after(9).phase() {
        Phase::ReportSocket { quote } => assert_eq!(*quote, vec![1, 2, 3]),
        _ => panic!("the socket is opened next"),
    }
    match after(10).phase() {
        Phase::FetchReport { fd, request } => {
            assert_eq!(*fd, 6);
            assert_eq!(*request, report_request(&[1, 2, 3]));
        }
        _ => panic!("the report is fetched next"),
    }
    match after(11).phase() {
        Phase::Done { attn_report, signature, certificate } => {
            assert_eq!(attn_report, "report");
            assert_eq!(signature, "sig");
            assert_eq!(certificate, "body");
        }
        _ => panic!("the attestation is done"),
    }
}

#[test]
fn a_failed_call_comes_before_a_failed_callee() {
    assert_eq!(failed(&after(0).step(quote_init(11, 12))), 11);
    assert_eq!(failed(&after(0).step(quote_init(0, 12))), 12);
    assert_eq!(failed(&after(1).step(socket(11, 12, 4))), 11);
    assert_eq!(failed(&after(1).step(socket(0, 12, 4))), 12);
    assert_eq!(failed(&after(6).step(quote(11, 12, qe_report(), 3))), 11);
    assert_eq!(failed(&after(6).step(quote(0, 12, qe_report(), 3))), 12);
    assert_eq!(failed(&after(9).step(socket(11, 12, 6))), 11);
    assert_eq!(failed(&after(9).step(socket(0, 12, 6))), 12);
}

#[test]
fn an_empty_list_is_not_given() {
    let a = after(2).step(Event::Reply(NO_SIGRL_REPLY.to_vec()));
    let a = a.step(Event::ReportCreated(Ok(own_report())));
    let a = a.step(Event::Nonce(NONCE)).step(Event::SpidText(SPID.to_string()));
    match a.phase() {
        Phase::GetQuote { sigrl_given, sigrl_len, .. } => {
            assert_eq!(*sigrl_given, None);
            assert_eq!(*sigrl_len, 0);
        }
        _ => panic!("the quote is made next"),
    }
}

#[test]
fn replies_that_cannot_be_used_abort() {
    let a = after(2).step(Event::Reply(vec![0xff]));
    assert_eq!(aborted(&a), Abort::Response(ResponseError::NotText));
    let a = after(10).step(Event::Reply(b"HTTP/1.1 200 OK\r\n\r\n".to_vec()));
    assert_eq!(aborted(&a), Abort::Response(ResponseError::CertMissing));
}

#[test]
fn a_report_that_is_not_created_aborts() {
    let a = after(3).step(Event::ReportCreated(Err(2)));
    assert_eq!(aborted(&a), Abort::ReportCreation(2));
}

#[test]
fn a_file_without_spid_aborts() {
    assert_eq!(aborted(&after(5).step(Event::SpidText("spid".to_string()))), Abort::Spid);
}

#[test]
fn a_report_that_is_not_verified_fails() {
    assert_eq!(failed(&after(7).step(Event::ReportVerified { failure: Some(0x3001) })), 0x3001);
}

#[test]
fn a_quoting_enclave_of_another_platform_fails() {
    let others = [
        report([6; 32], 5, 3, [8; 32]),
        report([7; 32], 4, 3, [8; 32]),
        report([7; 32], 5, 2, [8; 32]),
    ];
    for other in others {
        let a = after(6).step(quote(0, 0, other, 3)).step(Event::ReportVerified { failure: None });
        assert_eq!(failed(&a), SGX_ERROR_UNEXPECTED);
    }
}

#[test]
fn a_quote_fits_its_buffer_or_aborts() {
    let a = after(6).step(quote(0, 0, qe_report(), 2049));
    let a = a.step(Event::ReportVerified { failure: None });
    assert_eq!(aborted(&a), Abort::QuoteLength);
    let a = after(6).step(quote(0, 0, qe_report(), 2048));
    let a = a.step(Event::ReportVerified { failure: None });
    match a.phase() {
        Phase::HashQuote { quote, .. } => assert_eq!(quote[..], buffer()[..]),
        _ => panic!("the digest is computed next"),
    }
}

#[test]
fn another_platform_is_told_before_a_long_quote() {
    let a = after(6).step(quote(0, 0, report([6; 32], 5, 3, [8; 32]), 2049));
    assert_eq!(failed(&a.step(Event::ReportVerified { failure: None })), SGX_ERROR_UNEXPECTED);
}

#[test]
fn a_quote_with_another_digest_fails() {
    let mut other = [8u8; 32];
    other[31] = 9;
    assert_eq!(failed(&after(8).step(Event::Digest(Ok(other)))), SGX_ERROR_UNEXPECTED);
}

#[test]
fn no_digest_aborts() {
    assert_eq!(aborted(&after(8).step(Event::Digest(Err(3)))), Abort::Hash(3));
}

#[test]
fn stray_events_change_no_attestation() {
    for n in 0..12 {
        for (i, stray) in good_events().into_iter().enumerate() {
            let answers = i == n || (n == 1 && i == 9) || (n == 9 && i == 1) || (n == 2 && i == 10)
                || (n == 10 && i == 2);
            if !answers {
                let before = after(n);
                let kind = std::mem::discriminant(before.phase());
                assert_eq!(std::mem::discriminant(before.step(stray).phase()), kind);
            }
        }
    }
}

#[test]
fn an_attestation_ends_after_eleven_answers() {
    for n in 0..11 {
        assert!(!matches!(
            after(n).phase(),
            Phase::Done { .. } | Phase::Failed { .. } | Phase::Aborted { .. }
        ));
    }
    assert!(matches!(after(11).phase(), Phase::Done { .. }));
}

#[test]
fn types_are_as_wide_as_those_of_the_platform() {
    let t = sgx_types::sgx_target_info_t::default();
    assert_eq!(t.mr_enclave.m.len(), target().mr_enclave.len());
    assert_eq!(t.config_id.len(), target().config_id.len());
    assert_eq!(t.reserved3.len(), target().reserved3.len());
    let r = sgx_types::sgx_report_t::default();
    assert_eq!(r.body.report_data.d.len(), qe_report().report_data.len());
    assert_eq!(r.body.reserved4.len(), qe_report().reserved4.len());
    assert_eq!(r.key_id.id.len(), qe_report().key_id.len());
}
