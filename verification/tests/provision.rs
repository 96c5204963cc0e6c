use pcl_seal::attestation::{Abort, EcPublicKey, Event as AttestationEvent, Report, TargetInfo};
use pcl_seal::provision::{
    cert_payload, EcPrivateKey, Event, Phase, Provision, ACKNOWLEDGEMENT, KEYFILE,
};
use pcl_seal::seal::{Event as SealEvent, Phase as SealPhase, SealedKey};
use pcl_seal::status::{SGX_ERROR_UNEXPECTED, SGX_SUCCESS};

fn public() -> EcPublicKey {
    EcPublicKey { gx: [1; 32], gy: [2; 32] }
}

fn private() -> EcPrivateKey {
    EcPrivateKey { r: [3; 32] }
}

fn target() -> TargetInfo {
    TargetInfo {
        mr_enclave: [7; 32],
        flags: 5,
        xfrm: 3,
        reserved1: [0; 2],
        config_svn: 0,
        misc_select: 0,
        reserved2: [0; 8],
        config_id: [0; 64],
        reserved3: [0; 384],
    }
}

fn report() -> Report {
    Report {
        cpu_svn: [0; 16],
        misc_select: 0,
        reserved1: [0; 12],
        isv_ext_prod_id: [0; 16],
        flags: 5,
        xfrm: 3,
        mr_enclave: [7; 32],
        reserved2: [0; 32],
        mr_signer: [0; 32],
        reserved3: [0; 32],
        config_id: [0; 64],
        isv_prod_id: 0,
        isv_svn: 0,
        config_svn: 0,
        reserved4: [0; 42],
        isv_family_id: [0; 16],
        report_data: [8; 64],
        key_id: [0; 32],
        mac: [0; 16],
    }
}

fn reply() -> Vec<u8> {
    b"HTTP/1.1 200 OK\r\ncontent-length: 6\r\nx-iasreport-signature: sig\r\n\
      x-iasreport-signing-certificate: -----BEGIN-----body-----END-----\r\n\r\nreport"
        .to_vec()
}

fn attestation_events() -> Vec<AttestationEvent> {
    vec![
        AttestationEvent::QuoteInit { res: 0, rt: 0, target: target(), gid: [0; 4] },
        AttestationEvent::Socket { res: 0, rt: 0, fd: 4 },
        AttestationEvent::Reply(b"HTTP/1.1 200 OK\r\n\r\n".to_vec()),
        AttestationEvent::ReportCreated(Ok(sgx_types::sgx_report_t::default())),
        AttestationEvent::Nonce([9; 16]),
        AttestationEvent::SpidText("0".repeat(32)),
        AttestationEvent::Quote {
            res: 0,
            rt: 0,
            qe_report: report(),
            buffer: [0; 2048],
            quote_len: 3,
        },
        AttestationEvent::ReportVerified { failure: None },
        AttestationEvent::Digest(Ok([8; 32])),
        AttestationEvent::Socket { res: 0, rt: 0, fd: 6 },
        AttestationEvent::Reply(reply()),
    ]
}

fn attesting() -> Provision {
    Provision::new(1).step(Event::KeyPair(Ok((public(), private()))))
}

fn attested() -> Provision {
    let mut p = attesting();
    for event in attestation_events() {
        p = p.step(Event::Attestation(event));
    }
    p
}

fn certified() -> Provision {
    attested().step(Event::CertMade(Ok((vec![10], vec![20]))))
}

fn key() -> Vec<u8> {
    (1..=16).collect()
}

fn finished(p: &Provision) -> u32 {
    match p.phase() {
        Phase::Finished { status } => *status,
        _ => panic!("not finished"),
    }
}

#[test]
fn names_of_files_and_messages() {
    assert_eq!(KEYFILE, "prov_key.bin");
    assert_eq!(ACKNOWLEDGEMENT, "RECV complete");
}

#[test]
fn payload_is_report_signature_and_certificate() {
    assert_eq!(cert_payload("report", "sig", "cert"), "report|sig|cert");
    assert_eq!(cert_payload("", "", ""), "||");
}

#[test]
fn payload_splits_back() {
    let payload = cert_payload("{\"id\":1}", "c2ln", "MIIB");
    let parts: Vec<&str> = payload.split('|').collect();
    assert_eq!(parts, vec!["{\"id\":1}", "c2ln", "MIIB"]);
}

#[test]
fn a_key_pair_comes_first() {
    assert!(matches!(Provision::new(1).phase(), Phase::CreateKeyPair));
    match attesting().phase() {
        Phase::Attest { public: attested, .. } => assert_eq!(attested.gx, [1; 32]),
        _ => panic!("the key pair is attested next"),
    }
}

#[test]
fn no_key_pair_aborts() {
    let p = Provision::new(1).step(Event::KeyPair(Err(9)));
    match p.phase() {
        Phase::Aborted { cause } => assert_eq!(*cause, Abort::KeyPair(9)),
        _ => panic!("the provisioning is aborted"),
    }
}

#[test]
fn certificate_carries_the_attestation_of_the_key_pair() {
    match attested().phase() {
        Phase::MakeCert { payload, public, private } => {
            assert_eq!(payload, "report|sig|body");
            assert_eq!(public.gx, [1; 32]);
            assert_eq!(public.gy, [2; 32]);
            assert_eq!(private.r, [3; 32]);
        }
        _ => panic!("the certificate is made next"),
    }
}

#[test]
fn key_is_received_acknowledged_and_stored() {
    match certified().phase() {
        Phase::ReceiveKey { key_der, cert_der } => {
            assert_eq!(*key_der, vec![10]);
            assert_eq!(*cert_der, vec![20]);
        }
        _ => panic!("the key is received next"),
    }
    let p = certified().step(Event::KeyReceived(Some(key())));
    match p.phase() {
        Phase::Acknowledge { key: arrived } => assert_eq!(*arrived, key()),
        _ => panic!("the key is acknowledged next"),
    }
    let p = p.step(Event::Acknowledged);
    match p.phase() {
        Phase::StoreKey { key: stored } => assert_eq!(*stored, key()),
        _ => panic!("the key is stored next"),
    }
    assert_eq!(finished(&p.step(Event::KeyStored { written: true })), SGX_SUCCESS);
}

#[test]
fn a_key_that_is_not_stored_is_an_error() {
    let p = certified().step(Event::KeyReceived(Some(key()))).step(Event::Acknowledged);
    assert_eq!(finished(&p.step(Event::KeyStored { written: false })), SGX_ERROR_UNEXPECTED);
}

#[test]
fn keys_of_another_size_are_refused() {
    for received in [None, Some(vec![]), Some(vec![0; 15]), Some(vec![0; 17])] {
        assert_eq!(finished(&certified().step(Event::KeyReceived(received))), SGX_ERROR_UNEXPECTED);
    }
}

#[test]
fn failed_certificates_are_returned() {
    assert_eq!(finished(&attested().step(Event::CertMade(Err(0x3001)))), 0x3001);
}

#[test]
fn failed_attestations_are_returned() {
    let event = AttestationEvent::QuoteInit { res: 0, rt: 7, target: target(), gid: [0; 4] };
    assert_eq!(finished(&attesting().step(Event::Attestation(event))), 7);
}

#[test]
fn aborted_attestations_abort() {
    let mut p = attesting();
    for event in attestation_events().into_iter().take(3) {
        p = p.step(Event::Attestation(event));
    }
    let p = p.step(Event::Attestation(AttestationEvent::ReportCreated(Err(5))));
    match p.phase() {
        Phase::Aborted { cause } => assert_eq!(*cause, Abort::ReportCreation(5)),
        _ => panic!("the provisioning is aborted"),
    }
}

#[test]
fn no_key_is_taken_before_the_attestation() {
    let p = attesting().step(Event::KeyReceived(Some(key())));
    assert!(matches!(p.phase(), Phase::Attest { .. }));
    let p = attested().step(Event::KeyReceived(Some(key())));
    assert!(matches!(p.phase(), Phase::MakeCert { .. }));
    let p = Provision::new(1).step(Event::KeyStored { written: true });
    assert!(matches!(p.phase(), Phase::CreateKeyPair));
}

#[test]
fn stored_key_is_the_key_that_is_sealed() {
    let p = certified().step(Event::KeyReceived(Some(key()))).step(Event::Acknowledged);
    let stored = match p.phase() {
        Phase::StoreKey { key } => key.clone(),
        _ => panic!("the key is stored next"),
    };
    let s = SealedKey::new(592).step(SealEvent::FileRead(Some(stored)));
    match s.phase() {
        SealPhase::Seal { key: sealed, .. } => assert_eq!(sealed.to_vec(), key()),
        _ => panic!("the key is sealed next"),
    }
}
