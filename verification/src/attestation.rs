//! Remote attestation: from a public key to a report that the attestation service signed.
//!
//! An [`Attestation`] says by its phase what the caller has to do next, and takes what came
//! of it.

use crate::digest::{quote_digest, same_bytes};
use crate::encoding::base64_text;
use crate::hex::{decode_spid, spid};
use crate::ias::{
    reply_report, reply_sigrl, report_from_reply, report_request, report_request_text,
    sigrl_from_reply, sigrl_request, sigrl_request_text, ResponseError,
};
use crate::outside::sha256;
use crate::platform::{
    create_report, hash_came, report_came_for, verification_came, verify_report,
};
use crate::status::{SgxStatus, SGX_ERROR_UNEXPECTED, SGX_SUCCESS};
use sgx_types::sgx_report_t;
use vstd::array::array_as_slice;
use vstd::prelude::*;
use vstd::slice::{slice_subrange, slice_to_vec};

verus! {

/// The room for a quote, in bytes.
pub const RET_QUOTE_BUF_LEN: u32 = 2048;

/// A public key on the curve P-256, its coordinates in little-endian order.
#[derive(Clone, Copy, Debug)]
pub struct EcPublicKey {
    pub gx: [u8; 32],
    pub gy: [u8; 32],
}

/// What identifies an enclave of this platform, here the quoting enclave, as the target of a
/// report.
#[derive(Clone, Copy, Debug)]
pub struct TargetInfo {
    pub mr_enclave: [u8; 32],
    pub flags: u64,
    pub xfrm: u64,
    pub reserved1: [u8; 2],
    pub config_svn: u16,
    pub misc_select: u32,
    pub reserved2: [u8; 8],
    pub config_id: [u8; 64],
    pub reserved3: [u8; 384],
}

/// What an enclave reports of itself to another enclave of the platform.
#[derive(Clone, Copy, Debug)]
pub struct Report {
    pub cpu_svn: [u8; 16],
    pub misc_select: u32,
    pub reserved1: [u8; 12],
    pub isv_ext_prod_id: [u8; 16],
    pub flags: u64,
    pub xfrm: u64,
    pub mr_enclave: [u8; 32],
    pub reserved2: [u8; 32],
    pub mr_signer: [u8; 32],
    pub reserved3: [u8; 32],
    pub config_id: [u8; 64],
    pub isv_prod_id: u16,
    pub isv_svn: u16,
    pub config_svn: u16,
    pub reserved4: [u8; 42],
    pub isv_family_id: [u8; 16],
    pub report_data: [u8; 64],
    pub key_id: [u8; 32],
    pub mac: [u8; 16],
}

/// Why an attestation, or the provisioning that it is for, cannot go on and has no status to
/// return.
#[derive(Clone, Copy, Debug, PartialEq, Eq, Structural)]
pub enum Abort {
    /// The platform made no key pair.
    KeyPair(SgxStatus),
    /// The platform created no report.
    ReportCreation(SgxStatus),
    /// The file of the service provider identifier holds none.
    Spid,
    /// The quote is longer than the room for it.
    QuoteLength,
    /// The platform computed no digest.
    Hash(SgxStatus),
    /// A response of the service cannot be used.
    Response(ResponseError),
}

/// What has to be done next.
pub enum Phase {
    /// Initialise quoting.
    InitQuote,
    /// Open a socket to the service, to fetch the revocation list of the group `gid`.
    SigrlSocket { target: TargetInfo, gid: u32 },
    /// Send `request` over the socket `fd` and read the reply to its end.
    FetchSigrl { target: TargetInfo, fd: i32, request: String },
    /// Create a report for `target` over `report_data`.
    CreateReport { target: TargetInfo, sigrl: Vec<u8>, report_data: [u8; 64] },
    /// Draw a random nonce.
    DrawNonce { target: TargetInfo, sigrl: Vec<u8>, report: sgx_report_t },
    /// Read the file of the service provider identifier.
    LoadSpid { target: TargetInfo, sigrl: Vec<u8>, report: sgx_report_t, nonce: [u8; 16] },
    /// Ask for a quote over `report`, with the revocation list if there is one.
    GetQuote {
        target: TargetInfo,
        report: sgx_report_t,
        sigrl_given: Option<Vec<u8>>,
        sigrl_len: u32,
        sign_type: u32,
        spid: [u8; 16],
        nonce: [u8; 16],
        max_len: u32,
    },
    /// Let the platform verify the report of the quoting enclave.
    VerifyReport {
        target: TargetInfo,
        nonce: [u8; 16],
        qe_report: Report,
        buffer: [u8; 2048],
        quote_len: u32,
    },
    /// Compute the SHA-256 digest of `nonce` and `quote`.
    HashQuote { nonce: [u8; 16], qe_report: Report, quote: Vec<u8> },
    /// Open a socket to the service, to send `quote`.
    ReportSocket { quote: Vec<u8> },
    /// Send `request` over the socket `fd` and read the reply to its end.
    FetchReport { fd: i32, request: String },
    /// Nothing: here is the report, its signature and the certificate that signed it.
    Done { attn_report: String, signature: String, certificate: String },
    /// Nothing: the attestation failed with a status.
    Failed { status: SgxStatus },
    /// Nothing: the attestation cannot go on.
    Aborted { cause: Abort },
}

/// What came of the last thing that was done.
pub enum Event {
    /// Quoting was initialised: the outcome of the call, that of the callee, and what it gave.
    QuoteInit { res: SgxStatus, rt: SgxStatus, target: TargetInfo, gid: [u8; 4] },
    /// A socket was opened: the outcome of the call, that of the callee, and what it gave.
    Socket { res: SgxStatus, rt: SgxStatus, fd: i32 },
    /// The service sent a reply.
    Reply(Vec<u8>),
    /// A report was created, or not.
    ReportCreated(Result<sgx_report_t, SgxStatus>),
    /// A nonce was drawn.
    Nonce([u8; 16]),
    /// The file of the service provider identifier was read.
    SpidText(String),
    /// A quote was made: the outcome of the call, that of the callee, and what it gave.
    Quote {
        res: SgxStatus,
        rt: SgxStatus,
        qe_report: Report,
        buffer: [u8; 2048],
        quote_len: u32,
    },
    /// The platform verified the report of the quoting enclave, or refused it.
    ReportVerified { failure: Option<SgxStatus> },
    /// A digest was computed, or not.
    Digest(Result<[u8; 32], SgxStatus>),
}

/// The mathematical form of a [`Phase`].
#[verifier::ext_equal]
pub enum PhaseView {
    InitQuote,
    SigrlSocket { target: TargetInfo, gid: u32 },
    FetchSigrl { target: TargetInfo, fd: i32, request: Seq<char> },
    CreateReport { target: TargetInfo, sigrl: Seq<u8>, report_data: Seq<u8> },
    DrawNonce { target: TargetInfo, sigrl: Seq<u8>, report: sgx_report_t },
    LoadSpid { target: TargetInfo, sigrl: Seq<u8>, report: sgx_report_t, nonce: Seq<u8> },
    GetQuote {
        target: TargetInfo,
        report: sgx_report_t,
        sigrl_given: Option<Seq<u8>>,
        sigrl_len: u32,
        sign_type: u32,
        spid: Seq<u8>,
        nonce: Seq<u8>,
        max_len: u32,
    },
    VerifyReport {
        target: TargetInfo,
        nonce: Seq<u8>,
        qe_report: Report,
        buffer: Seq<u8>,
        quote_len: u32,
    },
    HashQuote { nonce: Seq<u8>, qe_report: Report, quote: Seq<u8> },
    ReportSocket { quote: Seq<u8> },
    FetchReport { fd: i32, request: Seq<char> },
    Done { attn_report: Seq<char>, signature: Seq<char>, certificate: Seq<char> },
    Failed { status: SgxStatus },
    Aborted { cause: Abort },
}

/// The mathematical form of an [`Event`].
#[verifier::ext_equal]
pub enum EventView {
    QuoteInit { res: SgxStatus, rt: SgxStatus, target: TargetInfo, gid: Seq<u8> },
    Socket { res: SgxStatus, rt: SgxStatus, fd: i32 },
    Reply(Seq<u8>),
    ReportCreated(Result<sgx_report_t, SgxStatus>),
    Nonce(Seq<u8>),
    SpidText(Seq<char>),
    Quote {
        res: SgxStatus,
        rt: SgxStatus,
        qe_report: Report,
        buffer: Seq<u8>,
        quote_len: u32,
    },
    ReportVerified { failure: Option<SgxStatus> },
    Digest(Result<Seq<u8>, SgxStatus>),
}

impl View for Phase {
    type V = PhaseView;

    open spec fn view(&self) -> PhaseView {
        match *self {
            Phase::InitQuote => PhaseView::InitQuote,
            Phase::SigrlSocket { target, gid } => PhaseView::SigrlSocket { target, gid },
            Phase::FetchSigrl { target, fd, request } => PhaseView::FetchSigrl {
                target,
                fd,
                request: request@,
            },
            Phase::CreateReport { target, sigrl, report_data } => PhaseView::CreateReport {
                target,
                sigrl: sigrl@,
                report_data: report_data@,
            },
            Phase::DrawNonce { target, sigrl, report } => PhaseView::DrawNonce {
                target,
                sigrl: sigrl@,
                report,
            },
            Phase::LoadSpid { target, sigrl, report, nonce } => PhaseView::LoadSpid {
                target,
                sigrl: sigrl@,
                report,
                nonce: nonce@,
            },
            Phase::GetQuote {
                target,
                report,
                sigrl_given,
                sigrl_len,
                sign_type,
                spid,
                nonce,
                max_len,
            } => PhaseView::GetQuote {
                target,
                report,
                sigrl_given: match sigrl_given {
                    Some(list) => Some(list@),
                    None => None,
                },
                sigrl_len,
                sign_type,
                spid: spid@,
                nonce: nonce@,
                max_len,
            },
            Phase::VerifyReport { target, nonce, qe_report, buffer, quote_len } => {
                PhaseView::VerifyReport {
                    target,
                    nonce: nonce@,
                    qe_report,
                    buffer: buffer@,
                    quote_len,
                }
            },
            Phase::HashQuote { nonce, qe_report, quote } => PhaseView::HashQuote {
                nonce: nonce@,
                qe_report,
                quote: quote@,
            },
            Phase::ReportSocket { quote } => PhaseView::ReportSocket { quote: quote@ },
            Phase::FetchReport { fd, request } => PhaseView::FetchReport { fd, request: request@ },
            Phase::Done { attn_report, signature, certificate } => PhaseView::Done {
                attn_report: attn_report@,
                signature: signature@,
                certificate: certificate@,
            },
            Phase::Failed { status } => PhaseView::Failed { status },
            Phase::Aborted { cause } => PhaseView::Aborted { cause },
        }
    }
}

impl View for Event {
    type V = EventView;

    open spec fn view(&self) -> EventView {
        match *self {
            Event::QuoteInit { res, rt, target, gid } => EventView::QuoteInit {
                res,
                rt,
                target,
                gid: gid@,
            },
            Event::Socket { res, rt, fd } => EventView::Socket { res, rt, fd },
            Event::Reply(reply) => EventView::Reply(reply@),
            Event::ReportCreated(outcome) => EventView::ReportCreated(outcome),
            Event::Nonce(nonce) => EventView::Nonce(nonce@),
            Event::SpidText(text) => EventView::SpidText(text@),
            Event::Quote { res, rt, qe_report, buffer, quote_len } => EventView::Quote {
                res,
                rt,
                qe_report,
                buffer: buffer@,
                quote_len,
            },
            Event::ReportVerified { failure } => EventView::ReportVerified { failure },
            Event::Digest(outcome) => EventView::Digest(
                match outcome {
                    Ok(digest) => Ok(digest@),
                    Err(e) => Err(e),
                },
            ),
        }
    }
}

/// The number that four bytes spell, the least significant first.
pub open spec fn u32_le(bytes: Seq<u8>) -> int {
    bytes[0] + 0x100 * bytes[1] + 0x1_0000 * bytes[2] + 0x100_0000 * bytes[3]
}

/// What a report for a public key is made over: the coordinates in big-endian order.
pub open spec fn key_report_data(key: EcPublicKey) -> Seq<u8> {
    key.gx@.reverse() + key.gy@.reverse()
}

/// Whether the quoting enclave that made a report is the one of this platform.
pub open spec fn same_platform(target: TargetInfo, qe_report: Report) -> bool {
    &&& target.mr_enclave@ == qe_report.mr_enclave@
    &&& target.flags == qe_report.flags
    &&& target.xfrm == qe_report.xfrm
}

/// What a quoting enclave reports for a quote and its nonce: the digest of both.
pub open spec fn reported_digest(qe_report: Report) -> Seq<u8> {
    qe_report.report_data@.take(32)
}

/// The failure of a call whose own outcome and whose callee's outcome are given, if it
/// failed: the call's comes first.
pub open spec fn call_failure(res: SgxStatus, rt: SgxStatus) -> Option<SgxStatus> {
    if res != SGX_SUCCESS {
        Some(res)
    } else if rt != SGX_SUCCESS {
        Some(rt)
    } else {
        None
    }
}

/// What has to be done after `phase`, given what came of it. An event that does not answer
/// the phase changes nothing.
pub open spec fn next_phase(
    key: EcPublicKey,
    sign_type: u32,
    phase: PhaseView,
    event: EventView,
) -> PhaseView {
    match (phase, event) {
        (PhaseView::InitQuote, EventView::QuoteInit { res, rt, target, gid }) => match call_failure(
            res,
            rt,
        ) {
            Some(status) => PhaseView::Failed { status },
            None => PhaseView::SigrlSocket { target, gid: u32_le(gid) as u32 },
        },
        (PhaseView::SigrlSocket { target, gid }, EventView::Socket { res, rt, fd }) => {
            match call_failure(res, rt) {
                Some(status) => PhaseView::Failed { status },
                None => PhaseView::FetchSigrl { target, fd, request: sigrl_request_text(gid) },
            }
        },
        (PhaseView::FetchSigrl { target, .. }, EventView::Reply(reply)) => match reply_sigrl(
            reply,
        ) {
            Err(e) => PhaseView::Aborted { cause: Abort::Response(e) },
            Ok(sigrl) => PhaseView::CreateReport {
                target,
                sigrl,
                report_data: key_report_data(key),
            },
        },
        (PhaseView::CreateReport { target, sigrl, .. }, EventView::ReportCreated(outcome)) => {
            match outcome {
                Err(e) => PhaseView::Aborted { cause: Abort::ReportCreation(e) },
                Ok(report) => PhaseView::DrawNonce { target, sigrl, report },
            }
        },
        (PhaseView::DrawNonce { target, sigrl, report }, EventView::Nonce(nonce)) => {
            PhaseView::LoadSpid { target, sigrl, report, nonce }
        },
        (
            PhaseView::LoadSpid { target, sigrl, report, nonce },
            EventView::SpidText(text),
        ) => match spid(text) {
            None => PhaseView::Aborted { cause: Abort::Spid },
            Some(id) => PhaseView::GetQuote {
                target,
                report,
                sigrl_given: if sigrl.len() == 0 {
                    None
                } else {
                    Some(sigrl)
                },
                sigrl_len: (sigrl.len() % 0x1_0000_0000) as u32,
                sign_type,
                spid: id,
                nonce,
                max_len: RET_QUOTE_BUF_LEN,
            },
        },
        (
            PhaseView::GetQuote { target, nonce, .. },
            EventView::Quote { res, rt, qe_report, buffer, quote_len },
        ) => match call_failure(res, rt) {
            Some(status) => PhaseView::Failed { status },
            None => PhaseView::VerifyReport { target, nonce, qe_report, buffer, quote_len },
        },
        (
            PhaseView::VerifyReport { target, nonce, qe_report, buffer, quote_len },
            EventView::ReportVerified { failure },
        ) => match failure {
            Some(status) => PhaseView::Failed { status },
            None => if !same_platform(target, qe_report) {
                PhaseView::Failed { status: SGX_ERROR_UNEXPECTED }
            } else if quote_len > RET_QUOTE_BUF_LEN {
                PhaseView::Aborted { cause: Abort::QuoteLength }
            } else {
                PhaseView::HashQuote { nonce, qe_report, quote: buffer.take(quote_len as int) }
            },
        },
        (PhaseView::HashQuote { nonce, qe_report, quote }, EventView::Digest(outcome)) => {
            match outcome {
                Err(e) => PhaseView::Aborted { cause: Abort::Hash(e) },
                Ok(digest) => if digest != reported_digest(qe_report) {
                    PhaseView::Failed { status: SGX_ERROR_UNEXPECTED }
                } else {
                    PhaseView::ReportSocket { quote }
                },
            }
        },
        (PhaseView::ReportSocket { quote }, EventView::Socket { res, rt, fd }) => {
            match call_failure(res, rt) {
                Some(status) => PhaseView::Failed { status },
                None => PhaseView::FetchReport {
                    fd,
                    request: report_request_text(base64_text(quote)),
                },
            }
        },
        (PhaseView::FetchReport { .. }, EventView::Reply(reply)) => match reply_report(reply) {
            Err(e) => PhaseView::Aborted { cause: Abort::Response(e) },
            Ok((attn_report, signature, certificate)) => PhaseView::Done {
                attn_report,
                signature,
                certificate,
            },
        },
        (unanswered, _) => unanswered,
    }
}

/// The number that four bytes spell, the least significant first.
pub fn as_u32_le(array: &[u8; 4]) -> (n: u32)
    ensures
        n as int == u32_le(array@),
{
    let a: u32 = array[0] as u32;
    let b: u32 = array[1] as u32;
    let c: u32 = array[2] as u32;
    let d: u32 = array[3] as u32;
    assert(a < 0x100 && b < 0x100 && c < 0x100 && d < 0x100);
    assert(a << 0 == a && b << 8 == 0x100 * b && c << 16 == 0x1_0000 * c && d << 24 == 0x100_0000
        * d) by (bit_vector)
        requires
            a < 0x100,
            b < 0x100,
            c < 0x100,
            d < 0x100,
    ;
    (a << 0) + (b << 8) + (c << 16) + (d << 24)
}

/// What a report for a public key is made over.
pub fn report_data_of(key: &EcPublicKey) -> (data: [u8; 64])
    ensures
        data@ == key_report_data(*key),
{
    let mut data: [u8; 64] = [0u8;64];
    let mut i: usize = 0;
    while i < 32
        invariant
            i <= 32,
            forall|j: int| 0 <= j < i ==> #[trigger] data@[j] == key_report_data(*key)[j],
            forall|j: int|
                32 <= j < 32 + i ==> #[trigger] data@[j] == key_report_data(*key)[j],
        decreases 32 - i,
    {
        data[i] = key.gx[31 - i];
        data[32 + i] = key.gy[31 - i];
        i += 1;
    }
    assert(data@ == key_report_data(*key));
    data
}

/// The failure of a call, if it failed.
fn failure_of(res: SgxStatus, rt: SgxStatus) -> (failure: Option<SgxStatus>)
    ensures
        failure == call_failure(res, rt),
{
    if res != SGX_SUCCESS {
        Some(res)
    } else if rt != SGX_SUCCESS {
        Some(rt)
    } else {
        None
    }
}

/// Whether the quoting enclave that made a report is the one of this platform.
fn is_same_platform(target: &TargetInfo, qe_report: &Report) -> (same: bool)
    ensures
        same == same_platform(*target, *qe_report),
{
    same_bytes(array_as_slice(&target.mr_enclave), array_as_slice(&qe_report.mr_enclave))
        && target.flags == qe_report.flags && target.xfrm == qe_report.xfrm
}

/// An attestation on its way.
pub struct Attestation {
    key: EcPublicKey,
    sign_type: u32,
    phase: Phase,
}

/// The mathematical form of an [`Attestation`].
#[verifier::ext_equal]
pub struct AttestationView {
    pub key: EcPublicKey,
    pub sign_type: u32,
    pub phase: PhaseView,
}

impl View for Attestation {
    type V = AttestationView;

    closed spec fn view(&self) -> AttestationView {
        AttestationView { key: self.key, sign_type: self.sign_type, phase: self.phase@ }
    }
}

/// An attestation of a key, before anything was done.
pub open spec fn begun(key: EcPublicKey, sign_type: u32) -> AttestationView {
    AttestationView { key, sign_type, phase: PhaseView::InitQuote }
}

/// An attestation after an event.
pub open spec fn stepped(a: AttestationView, event: EventView) -> AttestationView {
    AttestationView { phase: next_phase(a.key, a.sign_type, a.phase, event), ..a }
}

/// Whether an attestation went on from `a` to `next` by letting the platform create a report:
/// where that was asked for, either the platform created none for the target over the data, and
/// the attestation cannot go on, or it went on with the report that the platform created for
/// the target over the data; elsewhere nothing changed.
pub open spec fn reported(a: AttestationView, next: AttestationView) -> bool {
    match a.phase {
        PhaseView::CreateReport { target, sigrl, report_data } => {
            &&& next.key == a.key
            &&& next.sign_type == a.sign_type
            &&& match next.phase {
                PhaseView::Aborted { cause: Abort::ReportCreation(e) } => {
                    &&& e != SGX_SUCCESS
                    &&& report_came_for(target, report_data, Err(e))
                },
                PhaseView::DrawNonce { target: t, sigrl: s, report } => {
                    &&& t == target
                    &&& s == sigrl
                    &&& report_came_for(target, report_data, Ok(report))
                },
                _ => false,
            }
        },
        _ => next == a,
    }
}

/// Whether an attestation went on from `a` to `next` by letting the platform verify a report:
/// where that was asked for, either the platform refused it, and the attestation failed, or it
/// went on as it does with a report that was verified, and that is what came of verifying the
/// report in question; elsewhere nothing changed.
pub open spec fn verified(a: AttestationView, next: AttestationView) -> bool {
    match a.phase {
        PhaseView::VerifyReport { qe_report, .. } => {
            &&& next.key == a.key
            &&& next.sign_type == a.sign_type
            &&& {
                ||| next.phase matches PhaseView::Failed { status } && status != SGX_SUCCESS
                ||| next == stepped(a, EventView::ReportVerified { failure: None })
            }
            &&& exists|failure: Option<SgxStatus>| #[trigger]
                verification_came(qe_report, failure) && next == stepped(
                    a,
                    EventView::ReportVerified { failure },
                )
        },
        _ => next == a,
    }
}

/// Whether an attestation went on from `a` to `next` by hashing: where a digest was asked for,
/// either the platform computed none, or the true digest of the nonce and the quote decided;
/// elsewhere nothing changed.
pub open spec fn hashed(a: AttestationView, next: AttestationView) -> bool {
    match a.phase {
        PhaseView::HashQuote { nonce, qe_report, quote } => {
            &&& next.key == a.key
            &&& next.sign_type == a.sign_type
            &&& {
                ||| next.phase matches PhaseView::Aborted { cause: Abort::Hash(e) } && e
                    != SGX_SUCCESS && hash_came(nonce + quote, Err(e))
                ||| next.phase == if sha256(nonce + quote) == reported_digest(qe_report) {
                    PhaseView::ReportSocket { quote }
                } else {
                    PhaseView::Failed { status: SGX_ERROR_UNEXPECTED }
                }
            }
        },
        _ => next == a,
    }
}

/// Whether a quote that a phase holds fits the room for quotes.
spec fn quote_fits(phase: Phase) -> bool {
    match phase {
        Phase::HashQuote { quote, .. } => quote@.len() <= RET_QUOTE_BUF_LEN,
        Phase::ReportSocket { quote } => quote@.len() <= RET_QUOTE_BUF_LEN,
        _ => true,
    }
}

impl Attestation {
    #[verifier::type_invariant]
    spec fn inv(self) -> bool {
        quote_fits(self.phase)
    }

    /// Begins the attestation of a public key, with signatures of a type.
    pub fn new(key: EcPublicKey, sign_type: u32) -> (a: Attestation)
        ensures
            a@ == begun(key, sign_type),
    {
        Attestation { key, sign_type, phase: Phase::InitQuote }
    }

    /// What has to be done next.
    pub fn phase(&self) -> (phase: &Phase)
        ensures
            phase@ == self@.phase,
    {
        &self.phase
    }

    /// Takes what came of the last thing that was done.
    pub fn step(self, event: Event) -> (next: Attestation)
        ensures
            next@ == stepped(self@, event@),
    {
        proof {
            use_type_invariant(&self);
        }
        let Attestation { key, sign_type, phase } = self;
        let next = Self::next(&key, sign_type, phase, event);
        Attestation { key, sign_type, phase: next }
    }

    /// Lets the platform create the report that is asked for, if one is, and takes what came of
    /// it.
    pub fn create_report(self) -> (next: Attestation)
        ensures
            reported(self@, next@),
    {
        let created = match &self.phase {
            Phase::CreateReport { target, report_data, .. } => create_report(target, report_data),
            _ => {
                return self;
            },
        };
        self.step(Event::ReportCreated(created))
    }

    /// Lets the platform verify the report of the quoting enclave, if that is asked for, and
    /// takes what came of it.
    pub fn verify_report(self) -> (next: Attestation)
        ensures
            verified(self@, next@),
    {
        let failure = match &self.phase {
            Phase::VerifyReport { qe_report, .. } => verify_report(qe_report),
            _ => {
                return self;
            },
        };
        self.step(Event::ReportVerified { failure })
    }

    /// Computes the digest that is asked for, if one is, and takes it.
    pub fn hash_quote(self) -> (next: Attestation)
        ensures
            hashed(self@, next@),
    {
        proof {
            use_type_invariant(&self);
        }
        let outcome = match &self.phase {
            Phase::HashQuote { nonce, quote, .. } => quote_digest(nonce, quote.as_slice()),
            _ => {
                return self;
            },
        };
        self.step(Event::Digest(outcome))
    }

    /// What has to be done after a phase.
    fn next(key: &EcPublicKey, sign_type: u32, phase: Phase, event: Event) -> (next: Phase)
        requires
            quote_fits(phase),
        ensures
            next@ == next_phase(*key, sign_type, phase@, event@),
            quote_fits(next),
    {
        match (phase, event) {
            (Phase::InitQuote, Event::QuoteInit { res, rt, target, gid }) => {
                match failure_of(res, rt) {
                    Some(status) => Phase::Failed { status },
                    None => Phase::SigrlSocket { target, gid: as_u32_le(&gid) },
                }
            },
            (Phase::SigrlSocket { target, gid }, Event::Socket { res, rt, fd }) => {
                match failure_of(res, rt) {
                    Some(status) => Phase::Failed { status },
                    None => Phase::FetchSigrl { target, fd, request: sigrl_request(gid) },
                }
            },
            (Phase::FetchSigrl { target, .. }, Event::Reply(reply)) => {
                match sigrl_from_reply(reply.as_slice()) {
                    Err(e) => Phase::Aborted { cause: Abort::Response(e) },
                    Ok(sigrl) => {
                        assert(sigrl.deep_view() == sigrl@);
                        Phase::CreateReport { target, sigrl, report_data: report_data_of(key) }
                    },
                }
            },
            (Phase::CreateReport { target, sigrl, .. }, Event::ReportCreated(outcome)) => {
                match outcome {
                    Err(e) => Phase::Aborted { cause: Abort::ReportCreation(e) },
                    Ok(report) => Phase::DrawNonce { target, sigrl, report },
                }
            },
            (Phase::DrawNonce { target, sigrl, report }, Event::Nonce(nonce)) => {
                Phase::LoadSpid { target, sigrl, report, nonce }
            },
            (Phase::LoadSpid { target, sigrl, report, nonce }, Event::SpidText(text)) => {
                match decode_spid(text.as_str()) {
                    None => Phase::Aborted { cause: Abort::Spid },
                    Some(id) => {
                        let sigrl_len: u32 = low_half(sigrl.len());
                        let sigrl_given = if sigrl.len() == 0 {
                            None
                        } else {
                            Some(sigrl)
                        };
                        Phase::GetQuote {
                            target,
                            report,
                            sigrl_given,
                            sigrl_len,
                            sign_type,
                            spid: id,
                            nonce,
                            max_len: RET_QUOTE_BUF_LEN,
                        }
                    },
                }
            },
            (
                Phase::GetQuote { target, nonce, .. },
                Event::Quote { res, rt, qe_report, buffer, quote_len },
            ) => {
                match failure_of(res, rt) {
                    Some(status) => Phase::Failed { status },
                    None => Phase::VerifyReport { target, nonce, qe_report, buffer, quote_len },
                }
            },
            (
                Phase::VerifyReport { target, nonce, qe_report, buffer, quote_len },
                Event::ReportVerified { failure },
            ) => {
                match failure {
                    Some(status) => Phase::Failed { status },
                    None => {
                        if !is_same_platform(&target, &qe_report) {
                            Phase::Failed { status: SGX_ERROR_UNEXPECTED }
                        } else if quote_len > RET_QUOTE_BUF_LEN {
                            Phase::Aborted { cause: Abort::QuoteLength }
                        } else {
                            let quote = slice_to_vec(
                                slice_subrange(array_as_slice(&buffer), 0, quote_len as usize),
                            );
                            Phase::HashQuote { nonce, qe_report, quote }
                        }
                    },
                }
            },
            (Phase::HashQuote { nonce, qe_report, quote }, Event::Digest(outcome)) => {
                match outcome {
                    Err(e) => Phase::Aborted { cause: Abort::Hash(e) },
                    Ok(digest) => {
                        let reported = slice_subrange(
                            array_as_slice(&qe_report.report_data),
                            0,
                            32,
                        );
                        if !same_bytes(array_as_slice(&digest), reported) {
                            Phase::Failed { status: SGX_ERROR_UNEXPECTED }
                        } else {
                            Phase::ReportSocket { quote }
                        }
                    },
                }
            },
            (Phase::ReportSocket { quote }, Event::Socket { res, rt, fd }) => {
                match failure_of(res, rt) {
                    Some(status) => Phase::Failed { status },
                    None => Phase::FetchReport { fd, request: report_request(quote.as_slice()) },
                }
            },
            (Phase::FetchReport { .. }, Event::Reply(reply)) => {
                match report_from_reply(reply.as_slice()) {
                    Err(e) => Phase::Aborted { cause: Abort::Response(e) },
                    Ok((attn_report, signature, certificate)) => Phase::Done {
                        attn_report,
                        signature,
                        certificate,
                    },
                }
            },
            (unanswered, _) => unanswered,
        }
    }
}

/// A length as the platform takes it: what of it fits in a `u32`.
fn low_half(n: usize) -> (low: u32)
    ensures
        low as int == n as int % 0x1_0000_0000,
{
    let wide: u64 = n as u64;
    assert(wide as u32 == wide % 0x1_0000_0000) by (bit_vector);
    wide as u32
}

} // verus!
