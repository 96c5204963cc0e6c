//! Provisioning: an enclave makes a key pair, has it attested, shows the attestation to the
//! key server in a certificate, and keeps the key that it is sent.
//!
//! A [`Provision`] says by its phase what the caller has to do next, and takes what came of
//! it.

use crate::attestation::{
    begun, hashed, reported, stepped, verified, Abort, Attestation, AttestationView, EcPublicKey,
    Event as AttestationEvent, EventView as AttestationEventView, Phase as AttestationPhase,
    PhaseView as AttestationPhaseView,
};
use crate::platform::{create_key_pair, key_pair_came};
use crate::status::{SgxStatus, SGX_ERROR_UNEXPECTED, SGX_SUCCESS};
use sgx_tcrypto::SgxEccHandle;
use vstd::prelude::*;

verus! {

/// The file in which the key is kept.
pub const KEYFILE: &'static str = "prov_key.bin";

/// The size of the key.
pub const SGX_AESGCM_KEY_SIZE: usize = 16;

/// What the key server is told when the key has arrived.
pub const ACKNOWLEDGEMENT: &'static str = "RECV complete";

/// What the certificate carries of an attestation.
pub open spec fn payload_text(
    report: Seq<char>,
    signature: Seq<char>,
    certificate: Seq<char>,
) -> Seq<char> {
    report + "|"@ + signature + "|"@ + certificate
}

/// What the certificate carries of an attestation.
pub fn cert_payload(report: &str, signature: &str, certificate: &str) -> (payload: String)
    ensures
        payload@ == payload_text(report@, signature@, certificate@),
{
    let mut payload = report.to_owned();
    payload.append("|");
    payload.append(signature);
    payload.append("|");
    payload.append(certificate);
    payload
}

/// A private key on the curve P-256.
#[derive(Clone, Copy, Debug)]
pub struct EcPrivateKey {
    pub r: [u8; 32],
}

/// What has to be done next.
pub enum Phase {
    /// Make a key pair.
    CreateKeyPair,
    /// What the attestation of the public key says.
    Attest { public: EcPublicKey, private: EcPrivateKey, attestation: Attestation },
    /// Make a certificate for the key pair that carries `payload`.
    MakeCert { payload: String, public: EcPublicKey, private: EcPrivateKey },
    /// Show the certificate to the key server and read the key that it sends.
    ReceiveKey { key_der: Vec<u8>, cert_der: Vec<u8> },
    /// Tell the key server that the key has arrived.
    Acknowledge { key: Vec<u8> },
    /// Write the key to its file.
    StoreKey { key: Vec<u8> },
    /// Nothing: the provisioning ended with a status.
    Finished { status: SgxStatus },
    /// Nothing: the provisioning cannot go on.
    Aborted { cause: Abort },
}

/// What came of the last thing that was done.
pub enum Event {
    /// A key pair was made, or not.
    KeyPair(Result<(EcPublicKey, EcPrivateKey), SgxStatus>),
    /// What came of what the attestation asked for.
    Attestation(AttestationEvent),
    /// A certificate was made, or not: the private key and the certificate in DER form.
    CertMade(Result<(Vec<u8>, Vec<u8>), SgxStatus>),
    /// The key server sent something, or the connection broke.
    KeyReceived(Option<Vec<u8>>),
    /// The key server was told.
    Acknowledged,
    /// The file was written, or not.
    KeyStored { written: bool },
}

/// The mathematical form of a [`Phase`].
#[verifier::ext_equal]
pub enum PhaseView {
    CreateKeyPair,
    Attest { public: EcPublicKey, private: EcPrivateKey, attestation: AttestationView },
    MakeCert { payload: Seq<char>, public: EcPublicKey, private: EcPrivateKey },
    ReceiveKey { key_der: Seq<u8>, cert_der: Seq<u8> },
    Acknowledge { key: Seq<u8> },
    StoreKey { key: Seq<u8> },
    Finished { status: SgxStatus },
    Aborted { cause: Abort },
}

/// The mathematical form of an [`Event`].
#[verifier::ext_equal]
pub enum EventView {
    KeyPair(Result<(EcPublicKey, EcPrivateKey), SgxStatus>),
    Attestation(AttestationEventView),
    CertMade(Result<(Seq<u8>, Seq<u8>), SgxStatus>),
    KeyReceived(Option<Seq<u8>>),
    Acknowledged,
    KeyStored { written: bool },
}

impl View for Phase {
    type V = PhaseView;

    open spec fn view(&self) -> PhaseView {
        match *self {
            Phase::CreateKeyPair => PhaseView::CreateKeyPair,
            Phase::Attest { public, private, attestation } => PhaseView::Attest {
                public,
                private,
                attestation: attestation@,
            },
            Phase::MakeCert { payload, public, private } => PhaseView::MakeCert {
                payload: payload@,
                public,
                private,
            },
            Phase::ReceiveKey { key_der, cert_der } => PhaseView::ReceiveKey {
                key_der: key_der@,
                cert_der: cert_der@,
            },
            Phase::Acknowledge { key } => PhaseView::Acknowledge { key: key@ },
            Phase::StoreKey { key } => PhaseView::StoreKey { key: key@ },
            Phase::Finished { status } => PhaseView::Finished { status },
            Phase::Aborted { cause } => PhaseView::Aborted { cause },
        }
    }
}

impl View for Event {
    type V = EventView;

    open spec fn view(&self) -> EventView {
        match *self {
            Event::KeyPair(made) => EventView::KeyPair(made),
            Event::Attestation(event) => EventView::Attestation(event@),
            Event::CertMade(made) => EventView::CertMade(
                match made {
                    Ok((key_der, cert_der)) => Ok((key_der@, cert_der@)),
                    Err(status) => Err(status),
                },
            ),
            Event::KeyReceived(received) => EventView::KeyReceived(
                match received {
                    Some(bytes) => Some(bytes@),
                    None => None,
                },
            ),
            Event::Acknowledged => EventView::Acknowledged,
            Event::KeyStored { written } => EventView::KeyStored { written },
        }
    }
}

/// What has to be done when the attestation of a key pair has come to a phase.
pub open spec fn after_attestation(
    public: EcPublicKey,
    private: EcPrivateKey,
    attestation: AttestationView,
) -> PhaseView {
    match attestation.phase {
        AttestationPhaseView::Done { attn_report, signature, certificate } => PhaseView::MakeCert {
            payload: payload_text(attn_report, signature, certificate),
            public,
            private,
        },
        AttestationPhaseView::Failed { status } => PhaseView::Finished { status },
        AttestationPhaseView::Aborted { cause } => PhaseView::Aborted { cause },
        _ => PhaseView::Attest { public, private, attestation },
    }
}

/// What has to be done after `phase`, given what came of it. An event that does not answer
/// the phase changes nothing.
pub open spec fn next_phase(sign_type: u32, phase: PhaseView, event: EventView) -> PhaseView {
    match (phase, event) {
        (PhaseView::CreateKeyPair, EventView::KeyPair(made)) => match made {
            Err(e) => PhaseView::Aborted { cause: Abort::KeyPair(e) },
            Ok((public, private)) => PhaseView::Attest {
                public,
                private,
                attestation: begun(public, sign_type),
            },
        },
        (PhaseView::Attest { public, private, attestation }, EventView::Attestation(came)) => {
            after_attestation(public, private, stepped(attestation, came))
        },
        (PhaseView::MakeCert { .. }, EventView::CertMade(made)) => match made {
            Err(status) => PhaseView::Finished { status },
            Ok((key_der, cert_der)) => PhaseView::ReceiveKey { key_der, cert_der },
        },
        (PhaseView::ReceiveKey { .. }, EventView::KeyReceived(received)) => match received {
            Some(key) if key.len() == SGX_AESGCM_KEY_SIZE => PhaseView::Acknowledge { key },
            _ => PhaseView::Finished { status: SGX_ERROR_UNEXPECTED },
        },
        (PhaseView::Acknowledge { key }, EventView::Acknowledged) => PhaseView::StoreKey { key },
        (PhaseView::StoreKey { .. }, EventView::KeyStored { written }) => PhaseView::Finished {
            status: if written {
                SGX_SUCCESS
            } else {
                SGX_ERROR_UNEXPECTED
            },
        },
        (unanswered, _) => unanswered,
    }
}

/// What has to be done when the attestation of a key pair has come to a phase.
fn go_on(public: EcPublicKey, private: EcPrivateKey, attestation: Attestation) -> (next: Phase)
    ensures
        next@ == after_attestation(public, private, attestation@),
{
    match attestation.phase() {
        AttestationPhase::Done { attn_report, signature, certificate } => Phase::MakeCert {
            payload: cert_payload(attn_report.as_str(), signature.as_str(), certificate.as_str()),
            public,
            private,
        },
        AttestationPhase::Failed { status } => Phase::Finished { status: *status },
        AttestationPhase::Aborted { cause } => Phase::Aborted { cause: *cause },
        _ => Phase::Attest { public, private, attestation },
    }
}

/// A provisioning on its way.
pub struct Provision {
    sign_type: u32,
    phase: Phase,
}

/// The mathematical form of a [`Provision`].
#[verifier::ext_equal]
pub struct ProvisionView {
    pub sign_type: u32,
    pub phase: PhaseView,
}

impl View for Provision {
    type V = ProvisionView;

    closed spec fn view(&self) -> ProvisionView {
        ProvisionView { sign_type: self.sign_type, phase: self.phase@ }
    }
}

/// A provisioning, before anything was done.
pub open spec fn provision_begun(sign_type: u32) -> ProvisionView {
    ProvisionView { sign_type, phase: PhaseView::CreateKeyPair }
}

/// A provisioning after an event.
pub open spec fn provision_stepped(p: ProvisionView, event: EventView) -> ProvisionView {
    ProvisionView { phase: next_phase(p.sign_type, p.phase, event), ..p }
}

/// Whether a provisioning went on from `p` to `next` by letting the platform make a key pair:
/// where that was asked for, either the platform made none, and the provisioning cannot go on,
/// or the attestation of the key pair that it made begins; elsewhere nothing changed.
pub open spec fn paired(handle: SgxEccHandle, p: ProvisionView, next: ProvisionView) -> bool {
    match p.phase {
        PhaseView::CreateKeyPair => {
            &&& next.sign_type == p.sign_type
            &&& match next.phase {
                PhaseView::Aborted { cause: Abort::KeyPair(e) } => {
                    &&& e != SGX_SUCCESS
                    &&& key_pair_came(handle, Err(e))
                },
                PhaseView::Attest { public, private, attestation } => {
                    &&& attestation == begun(public, p.sign_type)
                    &&& key_pair_came(handle, Ok((public, private)))
                },
                _ => false,
            }
        },
        _ => next == p,
    }
}

/// Whether a provisioning went on from `p` to `next` by letting the platform create a report:
/// its attestation did, if it is under way; elsewhere nothing changed.
pub open spec fn provision_reported(p: ProvisionView, next: ProvisionView) -> bool {
    match p.phase {
        PhaseView::Attest { public, private, attestation } => {
            &&& next.sign_type == p.sign_type
            &&& exists|after: AttestationView| #[trigger]
                reported(attestation, after) && next.phase == after_attestation(
                    public,
                    private,
                    after,
                )
        },
        _ => next == p,
    }
}

/// Whether a provisioning went on from `p` to `next` by letting the platform verify a report:
/// its attestation did, if it is under way; elsewhere nothing changed.
pub open spec fn provision_verified(p: ProvisionView, next: ProvisionView) -> bool {
    match p.phase {
        PhaseView::Attest { public, private, attestation } => {
            &&& next.sign_type == p.sign_type
            &&& exists|after: AttestationView| #[trigger]
                verified(attestation, after) && next.phase == after_attestation(
                    public,
                    private,
                    after,
                )
        },
        _ => next == p,
    }
}

/// Whether a provisioning went on from `p` to `next` by hashing: its attestation did, if it is
/// under way; elsewhere nothing changed.
pub open spec fn provision_hashed(p: ProvisionView, next: ProvisionView) -> bool {
    match p.phase {
        PhaseView::Attest { public, private, attestation } => {
            &&& next.sign_type == p.sign_type
            &&& exists|after: AttestationView| #[trigger]
                hashed(attestation, after) && next.phase == after_attestation(
                    public,
                    private,
                    after,
                )
        },
        _ => next == p,
    }
}

impl Provision {
    /// Begins a provisioning, with signatures of a type in its attestation.
    pub fn new(sign_type: u32) -> (p: Provision)
        ensures
            p@ == provision_begun(sign_type),
    {
        Provision { sign_type, phase: Phase::CreateKeyPair }
    }

    /// What has to be done next.
    pub fn phase(&self) -> (phase: &Phase)
        ensures
            phase@ == self@.phase,
    {
        &self.phase
    }

    /// Takes what came of the last thing that was done.
    pub fn step(self, event: Event) -> (next: Provision)
        ensures
            next@ == provision_stepped(self@, event@),
    {
        let Provision { sign_type, phase } = self;
        let next = match (phase, event) {
            (Phase::CreateKeyPair, Event::KeyPair(Err(e))) => Phase::Aborted {
                cause: Abort::KeyPair(e),
            },
            (Phase::CreateKeyPair, Event::KeyPair(Ok((public, private)))) => Phase::Attest {
                public,
                private,
                attestation: Attestation::new(public, sign_type),
            },
            (Phase::Attest { public, private, attestation }, Event::Attestation(came)) => {
                go_on(public, private, attestation.step(came))
            },
            (Phase::MakeCert { .. }, Event::CertMade(Err(status))) => Phase::Finished { status },
            (Phase::MakeCert { .. }, Event::CertMade(Ok((key_der, cert_der)))) => {
                Phase::ReceiveKey { key_der, cert_der }
            },
            (Phase::ReceiveKey { .. }, Event::KeyReceived(Some(key))) => {
                if key.len() != SGX_AESGCM_KEY_SIZE {
                    Phase::Finished { status: SGX_ERROR_UNEXPECTED }
                } else {
                    Phase::Acknowledge { key }
                }
            },
            (Phase::ReceiveKey { .. }, Event::KeyReceived(None)) => Phase::Finished {
                status: SGX_ERROR_UNEXPECTED,
            },
            (Phase::Acknowledge { key }, Event::Acknowledged) => Phase::StoreKey { key },
            (Phase::StoreKey { .. }, Event::KeyStored { written }) => Phase::Finished {
                status: if written {
                    SGX_SUCCESS
                } else {
                    SGX_ERROR_UNEXPECTED
                },
            },
            (unanswered, _) => unanswered,
        };
        Provision { sign_type, phase: next }
    }

    /// Lets the platform make a key pair, if one is asked for, and takes what came of it.
    pub fn create_key_pair(self, handle: &SgxEccHandle) -> (next: Provision)
        ensures
            paired(*handle, self@, next@),
    {
        match &self.phase {
            Phase::CreateKeyPair => {},
            _ => {
                return self;
            },
        }
        self.step(Event::KeyPair(create_key_pair(handle)))
    }

    /// Lets the platform create the report that the attestation asks for, if it does, and takes
    /// what came of it.
    pub fn create_report(self) -> (next: Provision)
        ensures
            provision_reported(self@, next@),
    {
        let Provision { sign_type, phase } = self;
        let next = match phase {
            Phase::Attest { public, private, attestation } => {
                let ghost before = attestation@;
                let after = attestation.create_report();
                assert(reported(before, after@));
                go_on(public, private, after)
            },
            other => other,
        };
        Provision { sign_type, phase: next }
    }

    /// Lets the platform verify the report that the attestation asks about, if it does, and
    /// takes what came of it.
    pub fn verify_report(self) -> (next: Provision)
        ensures
            provision_verified(self@, next@),
    {
        let Provision { sign_type, phase } = self;
        let next = match phase {
            Phase::Attest { public, private, attestation } => {
                let ghost before = attestation@;
                let after = attestation.verify_report();
                assert(verified(before, after@));
                go_on(public, private, after)
            },
            other => other,
        };
        Provision { sign_type, phase: next }
    }

    /// Computes the digest that the attestation asks for, if it does, and takes it.
    pub fn hash_quote(self) -> (next: Provision)
        ensures
            provision_hashed(self@, next@),
    {
        let Provision { sign_type, phase } = self;
        let next = match phase {
            Phase::Attest { public, private, attestation } => {
                let ghost before = attestation@;
                let after = attestation.hash_quote();
                assert(hashed(before, after@));
                go_on(public, private, after)
            },
            other => other,
        };
        Provision { sign_type, phase: next }
    }
}

} // verus!
