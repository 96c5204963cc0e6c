//! What each answer does to an attestation, to a provisioning and to a sealing, byte by byte.

use crate::attestation::{
    begun, hashed, key_report_data, reported, stepped, u32_le, verified, Abort, AttestationView,
    EcPublicKey, EventView, PhaseView, Report, TargetInfo,
};
use crate::attestation_laws::{law_report_binds_key, run};
use crate::encoding::base64_text;
use crate::hex::spid;
use crate::ias::{
    attn_report, decoded_sigrl, reply_report, reply_sigrl, report_request_text,
    sigrl_request_text, sigrl_text, ResponseError,
};
use crate::outside::{http_head, sha256};
use crate::platform::{hash_came, key_pair_came, report_came_for, verification_came};
use crate::provision::{
    after_attestation, paired, payload_text, provision_begun, provision_hashed,
    provision_reported, provision_stepped, provision_verified, EcPrivateKey,
    EventView as ProvisionEventView, PhaseView as ProvisionPhaseView, ProvisionView,
};
use crate::seal::{
    sealed_size, sealing_begun, sealing_stepped, EventView as SealEventView,
    PhaseView as SealPhaseView, SealedKeyView,
};
use crate::status::SgxStatus;
use sgx_tcrypto::SgxEccHandle;
use sgx_types::sgx_report_t;
use vstd::prelude::*;
use vstd::utf8::valid_utf8;

verus! {

/// The four bytes of a group spell its number, the least significant first.
pub proof fn law_group_number(bytes: Seq<u8>)
    requires
        bytes.len() == 4,
    ensures
        0 <= u32_le(bytes) <= u32::MAX,
        u32_le(bytes) % 256 == bytes[0],
        u32_le(bytes) / 256 % 256 == bytes[1],
        u32_le(bytes) / 65536 % 256 == bytes[2],
        u32_le(bytes) / 16777216 == bytes[3],
{
    let n = u32_le(bytes);
    let high = bytes[1] + 0x100 * bytes[2] + 0x1_0000 * bytes[3];
    assert(n == 0x100 * high + bytes[0]);
    assert(n / 256 == high);
    assert(n / 65536 == bytes[2] + 0x100 * bytes[3]);
}

/// Report data holds the coordinates of the key, each with its last byte first.
pub proof fn law_report_data_is_key_backwards(key: EcPublicKey, i: int)
    requires
        0 <= i < 32,
    ensures
        key_report_data(key).len() == 64,
        key_report_data(key)[i] == key.gx@[31 - i],
        key_report_data(key)[32 + i] == key.gy@[31 - i],
{
}

/// Whatever comes, an attestation stays one of its key, with its type of signature.
pub proof fn law_step_keeps_key(a: AttestationView, event: EventView)
    ensures
        stepped(a, event).key == a.key,
        stepped(a, event).sign_type == a.sign_type,
        begun(a.key, a.sign_type).key == a.key,
        begun(a.key, a.sign_type).sign_type == a.sign_type,
        begun(a.key, a.sign_type).phase is InitQuote,
{
}

/// When quoting is initialised, a failed call comes before a failed callee; else a socket is
/// opened for the group with the number that its bytes spell.
pub proof fn law_quote_init_step(
    a: AttestationView,
    res: SgxStatus,
    rt: SgxStatus,
    target: TargetInfo,
    gid: Seq<u8>,
)
    requires
        a.phase is InitQuote,
        gid.len() == 4,
    ensures
        ({
            let next = stepped(a, EventView::QuoteInit { res, rt, target, gid }).phase;
            &&& res != 0 ==> next == (PhaseView::Failed { status: res })
            &&& res == 0 && rt != 0 ==> next == (PhaseView::Failed { status: rt })
            &&& res == 0 && rt == 0 ==> (next matches PhaseView::SigrlSocket {
                target: named,
                gid: number,
            } && named == target && number == gid[0] + 256 * gid[1] + 65536 * gid[2] + 16777216
                * gid[3])
        }),
{
}

/// A socket for the revocation list is used to ask for the list of the group.
pub proof fn law_sigrl_socket_step(
    a: AttestationView,
    target: TargetInfo,
    gid: u32,
    res: SgxStatus,
    rt: SgxStatus,
    fd: i32,
)
    requires
        a.phase == (PhaseView::SigrlSocket { target, gid }),
    ensures
        ({
            let next = stepped(a, EventView::Socket { res, rt, fd }).phase;
            &&& res != 0 ==> next == (PhaseView::Failed { status: res })
            &&& res == 0 && rt != 0 ==> next == (PhaseView::Failed { status: rt })
            &&& res == 0 && rt == 0 ==> next == (PhaseView::FetchSigrl {
                target,
                fd,
                request: sigrl_request_text(gid),
            })
        }),
{
}

/// A reply with a revocation list leads to a report over the key, the list unchanged; a reply
/// without one ends the attestation with what is wrong with it.
pub proof fn law_sigrl_reply_step(
    a: AttestationView,
    target: TargetInfo,
    fd: i32,
    request: Seq<char>,
    reply: Seq<u8>,
    i: int,
)
    requires
        a.phase == (PhaseView::FetchSigrl { target, fd, request }),
        0 <= i < 32,
    ensures
        ({
            let next = stepped(a, EventView::Reply(reply)).phase;
            match reply_sigrl(reply) {
                Err(e) => next == (PhaseView::Aborted { cause: Abort::Response(e) }),
                Ok(list) => {
                    &&& next matches PhaseView::CreateReport { target: t, sigrl, report_data }
                    &&& t == target
                    &&& sigrl == list
                    &&& report_data.len() == 64
                    &&& report_data[i] == a.key.gx@[31 - i]
                    &&& report_data[32 + i] == a.key.gy@[31 - i]
                },
            }
        }),
{
}

/// A created report is carried on; without one the attestation ends.
pub proof fn law_report_created_step(
    a: AttestationView,
    target: TargetInfo,
    sigrl: Seq<u8>,
    report_data: Seq<u8>,
    created: Result<sgx_report_t, SgxStatus>,
)
    requires
        a.phase == (PhaseView::CreateReport { target, sigrl, report_data }),
    ensures
        ({
            let next = stepped(a, EventView::ReportCreated(created)).phase;
            match created {
                Ok(report) => next == (PhaseView::DrawNonce { target, sigrl, report }),
                Err(e) => next == (PhaseView::Aborted { cause: Abort::ReportCreation(e) }),
            }
        }),
{
}

/// The nonce that was drawn is the nonce that is used.
pub proof fn law_nonce_step(
    a: AttestationView,
    target: TargetInfo,
    sigrl: Seq<u8>,
    report: sgx_report_t,
    nonce: Seq<u8>,
)
    requires
        a.phase == (PhaseView::DrawNonce { target, sigrl, report }),
    ensures
        stepped(a, EventView::Nonce(nonce)).phase == (PhaseView::LoadSpid {
            target,
            sigrl,
            report,
            nonce,
        }),
{
}

/// A quote is asked for with the report, the nonce, the identifier that was read, the type of
/// signature, room for 2048 bytes, and the revocation list: none where it is empty, and with
/// its length wherever that fits.
pub proof fn law_spid_step(
    a: AttestationView,
    target: TargetInfo,
    sigrl: Seq<u8>,
    report: sgx_report_t,
    nonce: Seq<u8>,
    text: Seq<char>,
)
    requires
        a.phase == (PhaseView::LoadSpid { target, sigrl, report, nonce }),
    ensures
        ({
            let next = stepped(a, EventView::SpidText(text)).phase;
            match spid(text) {
                None => next == (PhaseView::Aborted { cause: Abort::Spid }),
                Some(id) => {
                    &&& next matches PhaseView::GetQuote {
                        target: t,
                        report: r,
                        sigrl_given,
                        sigrl_len,
                        sign_type,
                        spid: s,
                        nonce: n,
                        max_len,
                    }
                    &&& t == target
                    &&& r == report
                    &&& s == id
                    &&& n == nonce
                    &&& sign_type == a.sign_type
                    &&& max_len == 2048
                    &&& sigrl.len() == 0 ==> sigrl_given is None
                    &&& sigrl.len() > 0 ==> sigrl_given == Some(sigrl)
                    &&& sigrl.len() <= u32::MAX ==> sigrl_len as int == sigrl.len()
                    &&& (sigrl.len() - sigrl_len) % 0x1_0000_0000 == 0
                },
            }
        }),
{
}

/// A quote that was made goes on as it came.
pub proof fn law_quote_step(a: AttestationView, event: EventView)
    requires
        a.phase is GetQuote,
        event is Quote,
    ensures
        ({
            let next = stepped(a, event).phase;
            &&& a.phase matches PhaseView::GetQuote { target, nonce, .. }
            &&& event matches EventView::Quote { res, rt, qe_report, buffer, quote_len }
            &&& res != 0 ==> next == (PhaseView::Failed { status: res })
            &&& res == 0 && rt != 0 ==> next == (PhaseView::Failed { status: rt })
            &&& res == 0 && rt == 0 ==> next == (PhaseView::VerifyReport {
                target,
                nonce,
                qe_report,
                buffer,
                quote_len,
            })
        }),
{
}

/// A verified report of a quoting enclave with another measurement, other flags or other
/// features than the target fails the attestation; one with the same goes on to the digest of
/// the quote, which is the beginning of the buffer, if it fits.
pub proof fn law_report_verified_step(
    a: AttestationView,
    target: TargetInfo,
    nonce: Seq<u8>,
    qe_report: Report,
    buffer: Seq<u8>,
    quote_len: u32,
    failure: Option<SgxStatus>,
)
    requires
        a.phase == (PhaseView::VerifyReport { target, nonce, qe_report, buffer, quote_len }),
        buffer.len() == 2048,
    ensures
        ({
            let next = stepped(a, EventView::ReportVerified { failure }).phase;
            let same = (forall|i: int|
                0 <= i < 32 ==> #[trigger] target.mr_enclave@[i] == qe_report.mr_enclave@[i])
                && target.flags == qe_report.flags && target.xfrm == qe_report.xfrm;
            match failure {
                Some(status) => next == (PhaseView::Failed { status }),
                None => {
                    &&& !same ==> next == (PhaseView::Failed { status: 1 })
                    &&& same && quote_len > 2048 ==> next == (PhaseView::Aborted {
                        cause: Abort::QuoteLength,
                    })
                    &&& same && quote_len <= 2048 ==> {
                        &&& next matches PhaseView::HashQuote { nonce: n, qe_report: r, quote }
                        &&& n == nonce
                        &&& r == qe_report
                        &&& quote.len() == quote_len
                        &&& forall|i: int| 0 <= i < quote_len ==> #[trigger] quote[i] == buffer[i]
                    }
                },
            }
        }),
{
    let same = forall|i: int|
        0 <= i < 32 ==> #[trigger] target.mr_enclave@[i] == qe_report.mr_enclave@[i];
    if same {
        assert(target.mr_enclave@ == qe_report.mr_enclave@);
    }
}

/// A digest that is, byte by byte, what the quoting enclave reported in the first half of its
/// report data lets the quote be sent; a digest that differs in any byte fails the attestation.
pub proof fn law_digest_step(
    a: AttestationView,
    nonce: Seq<u8>,
    qe_report: Report,
    quote: Seq<u8>,
    digest: Seq<u8>,
)
    requires
        a.phase == (PhaseView::HashQuote { nonce, qe_report, quote }),
        digest.len() == 32,
    ensures
        (forall|i: int| 0 <= i < 32 ==> #[trigger] digest[i] == qe_report.report_data@[i])
            ==> stepped(a, EventView::Digest(Ok(digest))).phase == (PhaseView::ReportSocket {
            quote,
        }),
        (exists|i: int| 0 <= i < 32 && #[trigger] digest[i] != qe_report.report_data@[i])
            ==> stepped(a, EventView::Digest(Ok(digest))).phase == (PhaseView::Failed {
            status: 1,
        }),
{
    if forall|i: int| 0 <= i < 32 ==> #[trigger] digest[i] == qe_report.report_data@[i] {
        assert(digest == qe_report.report_data@.take(32));
    }
}

/// Without a digest the attestation ends.
pub proof fn law_no_digest_step(
    a: AttestationView,
    nonce: Seq<u8>,
    qe_report: Report,
    quote: Seq<u8>,
    e: SgxStatus,
)
    requires
        a.phase == (PhaseView::HashQuote { nonce, qe_report, quote }),
    ensures
        stepped(a, EventView::Digest(Err(e))).phase == (PhaseView::Aborted {
            cause: Abort::Hash(e),
        }),
{
}

/// A socket for the report is used to send the quote.
pub proof fn law_report_socket_step(
    a: AttestationView,
    quote: Seq<u8>,
    res: SgxStatus,
    rt: SgxStatus,
    fd: i32,
)
    requires
        a.phase == (PhaseView::ReportSocket { quote }),
    ensures
        ({
            let next = stepped(a, EventView::Socket { res, rt, fd }).phase;
            &&& res != 0 ==> next == (PhaseView::Failed { status: res })
            &&& res == 0 && rt != 0 ==> next == (PhaseView::Failed { status: rt })
            &&& res == 0 && rt == 0 ==> next == (PhaseView::FetchReport {
                fd,
                request: report_request_text(base64_text(quote)),
            })
        }),
{
}

/// What the reply to a quote says is what the attestation gives.
pub proof fn law_report_reply_step(
    a: AttestationView,
    fd: i32,
    request: Seq<char>,
    reply: Seq<u8>,
)
    requires
        a.phase == (PhaseView::FetchReport { fd, request }),
    ensures
        ({
            let next = stepped(a, EventView::Reply(reply)).phase;
            match reply_report(reply) {
                Err(e) => next == (PhaseView::Aborted { cause: Abort::Response(e) }),
                Ok(said) => next == (PhaseView::Done {
                    attn_report: said.0,
                    signature: said.1,
                    certificate: said.2,
                }),
            }
        }),
{
}

/// A reply that is no text is refused; of one that is text, what its head and its body say
/// counts, with room for sixteen headers.
pub proof fn law_replies_are_text(reply: Seq<u8>)
    ensures
        !valid_utf8(reply) ==> (reply_sigrl(reply) matches Err(e) && e == ResponseError::NotText),
        !valid_utf8(reply) ==> (reply_report(reply) matches Err(e) && e == ResponseError::NotText),
        valid_utf8(reply) ==> reply_sigrl(reply) == decoded_sigrl(
            sigrl_text(http_head(reply, 16), reply),
        ),
        valid_utf8(reply) ==> reply_report(reply) == attn_report(http_head(reply, 16), reply),
{
}

/// In every run that asks for a quote, the length that is given with the revocation list is
/// the length of the list that is given, and zero where none is, wherever the length fits.
pub proof fn law_list_length_is_given(key: EcPublicKey, sign_type: u32, events: Seq<EventView>)
    ensures
        run(begun(key, sign_type), events).phase matches PhaseView::GetQuote {
            sigrl_given,
            sigrl_len,
            max_len,
            ..
        } ==> {
            &&& max_len == 2048
            &&& sigrl_given is None ==> sigrl_len == 0
            &&& sigrl_given matches Some(list) ==> list.len() > 0 && (list.len() <= u32::MAX
                ==> sigrl_len as int == list.len())
        },
    decreases events.len(),
{
    if events.len() > 0 {
        law_list_length_is_given(key, sign_type, events.drop_last());
        let before = run(begun(key, sign_type), events.drop_last());
        match (before.phase, events.last()) {
            (PhaseView::LoadSpid { target, sigrl, report, nonce }, EventView::SpidText(text)) => {
                law_spid_step(before, target, sigrl, report, nonce, text);
            },
            _ => {},
        }
    }
}

/// The report that an attestation goes on with, when the platform was let create one, is what
/// the platform created for the target and over the data that were asked for; where it goes on
/// with none, the platform created none for them.
pub proof fn law_report_is_the_one_created(
    a: AttestationView,
    next: AttestationView,
    target: TargetInfo,
    sigrl: Seq<u8>,
    report_data: Seq<u8>,
)
    requires
        reported(a, next),
        a.phase == (PhaseView::CreateReport { target, sigrl, report_data }),
    ensures
        exists|created: Result<sgx_report_t, SgxStatus>| #[trigger]
            report_came_for(target, report_data, created) && (match created {
                Ok(report) => next.phase == (PhaseView::DrawNonce { target, sigrl, report }),
                Err(e) => e != 0 && next.phase == (PhaseView::Aborted {
                    cause: Abort::ReportCreation(e),
                }),
            }),
        next.key == a.key,
        next.sign_type == a.sign_type,
{
    match next.phase {
        PhaseView::DrawNonce { report, .. } => {
            assert(report_came_for(target, report_data, Ok(report)));
        },
        PhaseView::Aborted { cause: Abort::ReportCreation(e) } => {
            assert(report_came_for(target, report_data, Err(e)));
        },
        _ => {},
    }
}

/// Whether some data is the public key: the coordinates, each with its last byte first.
pub open spec fn is_key_backwards(data: Seq<u8>, key: EcPublicKey) -> bool {
    &&& data.len() == 64
    &&& forall|i: int| 0 <= i < 32 ==> #[trigger] data[i] == key.gx@[31 - i]
    &&& forall|i: int| 32 <= i < 64 ==> #[trigger] data[i] == key.gy@[63 - i]
}

/// In every attestation of a key, the report that it goes on with, when the platform was let
/// create one, was created over the bytes of that key.
pub proof fn law_created_report_is_over_key(
    key: EcPublicKey,
    sign_type: u32,
    events: Seq<EventView>,
    next: AttestationView,
)
    requires
        run(begun(key, sign_type), events).phase is CreateReport,
        reported(run(begun(key, sign_type), events), next),
    ensures
        next.key == key,
        next.phase matches PhaseView::DrawNonce { target, report, .. } ==> exists|data: Seq<u8>|
            is_key_backwards(data, key) && #[trigger] report_came_for(target, data, Ok(report)),
{
    let a = run(begun(key, sign_type), events);
    law_report_binds_key(key, sign_type, events);
    if let PhaseView::CreateReport { report_data, .. } = a.phase {
        assert(is_key_backwards(report_data, key));
        if let PhaseView::DrawNonce { target, report, .. } = next.phase {
            assert(report_came_for(target, report_data, Ok(report)));
        }
    }
}

/// An attestation that let the platform verify a report goes by what the platform said of that
/// very report.
pub proof fn law_verification_is_of_the_report(
    a: AttestationView,
    next: AttestationView,
    target: TargetInfo,
    nonce: Seq<u8>,
    qe_report: Report,
    buffer: Seq<u8>,
    quote_len: u32,
)
    requires
        verified(a, next),
        a.phase == (PhaseView::VerifyReport { target, nonce, qe_report, buffer, quote_len }),
    ensures
        exists|failure: Option<SgxStatus>| #[trigger]
            verification_came(qe_report, failure) && (match failure {
                Some(status) => next.phase == (PhaseView::Failed { status }),
                None => next == stepped(a, EventView::ReportVerified { failure: None }),
            }),
{
    let failure = choose|failure: Option<SgxStatus>| #[trigger]
        verification_came(qe_report, failure) && next == stepped(
            a,
            EventView::ReportVerified { failure },
        );
    assert(verification_came(qe_report, failure));
}

/// An attestation that had the digest computed sends the quote if the digest of nonce and quote
/// is, byte by byte, the first half of the report data, and fails if a byte differs; unless the
/// platform computed none.
pub proof fn law_digest_decides(
    a: AttestationView,
    next: AttestationView,
    nonce: Seq<u8>,
    qe_report: Report,
    quote: Seq<u8>,
)
    requires
        hashed(a, next),
        a.phase == (PhaseView::HashQuote { nonce, qe_report, quote }),
    ensures
        ({
            ||| next.phase matches PhaseView::Aborted { cause: Abort::Hash(e) } && e != 0
                && hash_came(nonce + quote, Err(e))
            ||| next.phase == (PhaseView::ReportSocket { quote }) && sha256(nonce + quote).len()
                == 32 && forall|i: int|
                0 <= i < 32 ==> #[trigger] sha256(nonce + quote)[i] == qe_report.report_data@[i]
            ||| next.phase == (PhaseView::Failed { status: 1 }) && (sha256(nonce + quote).len()
                != 32 || exists|i: int|
                0 <= i < 32 && #[trigger] sha256(nonce + quote)[i] != qe_report.report_data@[i])
        }),
{
    let digest = sha256(nonce + quote);
    if digest.len() != 32 {
        assert(digest != qe_report.report_data@.take(32));
    } else if forall|i: int| 0 <= i < 32 ==> #[trigger] digest[i] == qe_report.report_data@[i] {
        assert(digest == qe_report.report_data@.take(32));
    } else {
        let i = choose|i: int| 0 <= i < 32 && #[trigger] digest[i] != qe_report.report_data@[i];
        assert(digest[i] != qe_report.report_data@.take(32)[i]);
    }
}

/// Where none of these is asked for, letting the platform create a report, verify one or
/// compute a digest changes nothing.
pub proof fn law_platform_is_only_let_where_asked(a: AttestationView, next: AttestationView)
    ensures
        reported(a, next) && !(a.phase is CreateReport) ==> next == a,
        verified(a, next) && !(a.phase is VerifyReport) ==> next == a,
        hashed(a, next) && !(a.phase is HashQuote) ==> next == a,
{
}

/// A provisioning begins with a key pair, and the attestation of the key pair that was made.
pub proof fn law_key_pair_step(
    sign_type: u32,
    made: Result<(EcPublicKey, EcPrivateKey), SgxStatus>,
)
    ensures
        provision_begun(sign_type).phase is CreateKeyPair,
        ({
            let next = provision_stepped(
                provision_begun(sign_type),
                ProvisionEventView::KeyPair(made),
            );
            &&& next.sign_type == sign_type
            &&& match made {
                Ok(pair) => {
                    &&& next.phase matches ProvisionPhaseView::Attest {
                        public,
                        private,
                        attestation,
                    }
                    &&& public == pair.0
                    &&& private == pair.1
                    &&& attestation.key == pair.0
                    &&& attestation.sign_type == sign_type
                    &&& attestation.phase is InitQuote
                },
                Err(e) => next.phase == (ProvisionPhaseView::Aborted {
                    cause: Abort::KeyPair(e),
                }),
            }
        }),
{
}

/// The key pair that a provisioning goes on with, when the platform was let make one, is the
/// pair that the platform made.
pub proof fn law_key_pair_is_the_one_made(
    handle: SgxEccHandle,
    p: ProvisionView,
    next: ProvisionView,
)
    requires
        paired(handle, p, next),
        p.phase is CreateKeyPair,
    ensures
        next.sign_type == p.sign_type,
        exists|made: Result<(EcPublicKey, EcPrivateKey), SgxStatus>| #[trigger]
            key_pair_came(handle, made) && (match made {
                Ok(pair) => {
                    &&& next.phase matches ProvisionPhaseView::Attest {
                        public,
                        private,
                        attestation,
                    }
                    &&& public == pair.0
                    &&& private == pair.1
                    &&& attestation.key == pair.0
                    &&& attestation.sign_type == p.sign_type
                    &&& attestation.phase is InitQuote
                },
                Err(e) => e != 0 && next.phase == (ProvisionPhaseView::Aborted {
                    cause: Abort::KeyPair(e),
                }),
            }),
{
    match next.phase {
        ProvisionPhaseView::Attest { public, private, .. } => {
            assert(key_pair_came(handle, Ok((public, private))));
        },
        ProvisionPhaseView::Aborted { cause: Abort::KeyPair(e) } => {
            assert(key_pair_came(handle, Err(e)));
        },
        _ => {},
    }
}

/// An answer to the attestation of a provisioning is given to it, and nothing else of the
/// provisioning changes until the attestation ends: then the certificate is made of what it
/// gave, or the provisioning ends with it.
pub proof fn law_attestation_answer_step(
    p: ProvisionView,
    public: EcPublicKey,
    private: EcPrivateKey,
    attestation: AttestationView,
    came: EventView,
)
    requires
        p.phase == (ProvisionPhaseView::Attest { public, private, attestation }),
    ensures
        ({
            let next = provision_stepped(p, ProvisionEventView::Attestation(came));
            let after = stepped(attestation, came);
            &&& next.sign_type == p.sign_type
            &&& match after.phase {
                PhaseView::Done { attn_report, signature, certificate } => next.phase == (
                ProvisionPhaseView::MakeCert {
                    payload: attn_report + seq!['|'] + signature + seq!['|'] + certificate,
                    public,
                    private,
                }),
                PhaseView::Failed { status } => next.phase == (ProvisionPhaseView::Finished {
                    status,
                }),
                PhaseView::Aborted { cause } => next.phase == (ProvisionPhaseView::Aborted {
                    cause,
                }),
                _ => next.phase == (ProvisionPhaseView::Attest {
                    public,
                    private,
                    attestation: after,
                }),
            }
        }),
{
    let after = stepped(attestation, came);
    if let PhaseView::Done { attn_report, signature, certificate } = after.phase {
        law_payload_is_joined(attn_report, signature, certificate);
    }
}

/// The payload of a certificate is the report, the signature and the certificate, with one bar
/// between each two, whatever they hold.
pub proof fn law_payload_is_joined(
    attn_report: Seq<char>,
    signature: Seq<char>,
    certificate: Seq<char>,
)
    ensures
        payload_text(attn_report, signature, certificate) == attn_report + seq!['|'] + signature
            + seq!['|'] + certificate,
{
    reveal_strlit("|");
    assert("|"@ == seq!['|']);
}

/// A certificate that was made is shown as it was made; a failure is returned.
pub proof fn law_certificate_step(
    p: ProvisionView,
    made: Result<(Seq<u8>, Seq<u8>), SgxStatus>,
)
    requires
        p.phase is MakeCert,
    ensures
        ({
            let next = provision_stepped(p, ProvisionEventView::CertMade(made)).phase;
            match made {
                Ok(ders) => next == (ProvisionPhaseView::ReceiveKey {
                    key_der: ders.0,
                    cert_der: ders.1,
                }),
                Err(status) => next == (ProvisionPhaseView::Finished { status }),
            }
        }),
{
}

/// A key of sixteen bytes is taken as it came; anything else that comes, or nothing, is an
/// error.
pub proof fn law_key_step(p: ProvisionView, received: Option<Seq<u8>>)
    requires
        p.phase is ReceiveKey,
    ensures
        ({
            let next = provision_stepped(p, ProvisionEventView::KeyReceived(received)).phase;
            match received {
                Some(key) => {
                    &&& key.len() == 16 ==> next == (ProvisionPhaseView::Acknowledge { key })
                    &&& key.len() != 16 ==> next == (ProvisionPhaseView::Finished { status: 1 })
                },
                None => next == (ProvisionPhaseView::Finished { status: 1 }),
            }
        }),
{
}

/// The key that is acknowledged is stored, and that it was stored is success.
pub proof fn law_store_steps(p: ProvisionView, key: Seq<u8>, written: bool)
    ensures
        p.phase == (ProvisionPhaseView::Acknowledge { key }) ==> provision_stepped(
            p,
            ProvisionEventView::Acknowledged,
        ).phase == (ProvisionPhaseView::StoreKey { key }),
        p.phase == (ProvisionPhaseView::StoreKey { key }) ==> provision_stepped(
            p,
            ProvisionEventView::KeyStored { written },
        ).phase == (ProvisionPhaseView::Finished {
            status: if written {
                0
            } else {
                1
            },
        }),
{
}

/// Whether an event answers a phase of a provisioning.
pub open spec fn provision_answers(phase: ProvisionPhaseView, event: ProvisionEventView) -> bool {
    match phase {
        ProvisionPhaseView::CreateKeyPair => event is KeyPair,
        ProvisionPhaseView::Attest { .. } => event is Attestation,
        ProvisionPhaseView::MakeCert { .. } => event is CertMade,
        ProvisionPhaseView::ReceiveKey { .. } => event is KeyReceived,
        ProvisionPhaseView::Acknowledge { .. } => event is Acknowledged,
        ProvisionPhaseView::StoreKey { .. } => event is KeyStored,
        _ => false,
    }
}

/// What does not answer a phase of a provisioning changes nothing.
pub proof fn law_strays_change_no_provisioning(p: ProvisionView, event: ProvisionEventView)
    ensures
        provision_stepped(p, event).sign_type == p.sign_type,
        !provision_answers(p.phase, event) ==> provision_stepped(p, event) == p,
{
}

/// Where no attestation is under way, letting the platform work for it changes nothing; where
/// no key pair is asked for, letting the platform make one changes nothing.
pub proof fn law_platform_works_for_attestation_only(
    handle: SgxEccHandle,
    p: ProvisionView,
    next: ProvisionView,
)
    ensures
        !(p.phase is Attest) && (provision_reported(p, next) || provision_verified(p, next)
            || provision_hashed(p, next)) ==> next == p,
        !(p.phase is CreateKeyPair) && paired(handle, p, next) ==> next == p,
{
}

/// Whether a provisioning of a key pair is where it belongs when its attestation has come to
/// `after`: still there, at the certificate, or at an end.
pub open spec fn follows(
    phase: ProvisionPhaseView,
    public: EcPublicKey,
    private: EcPrivateKey,
    after: AttestationView,
) -> bool {
    match after.phase {
        PhaseView::Done { attn_report, signature, certificate } => phase == (
        ProvisionPhaseView::MakeCert {
            payload: attn_report + seq!['|'] + signature + seq!['|'] + certificate,
            public,
            private,
        }),
        PhaseView::Failed { status } => phase == (ProvisionPhaseView::Finished { status }),
        PhaseView::Aborted { cause } => phase == (ProvisionPhaseView::Aborted { cause }),
        _ => phase == (ProvisionPhaseView::Attest { public, private, attestation: after }),
    }
}

/// What the platform is let do for the attestation of a provisioning, it does for that very
/// attestation, and the provisioning follows it with its own key pair.
pub proof fn law_platform_works_for_the_attestation(
    p: ProvisionView,
    next: ProvisionView,
    public: EcPublicKey,
    private: EcPrivateKey,
    attestation: AttestationView,
)
    requires
        p.phase == (ProvisionPhaseView::Attest { public, private, attestation }),
    ensures
        provision_reported(p, next) ==> next.sign_type == p.sign_type && exists|
            after: AttestationView,
        | #[trigger]
            reported(attestation, after) && follows(next.phase, public, private, after),
        provision_verified(p, next) ==> next.sign_type == p.sign_type && exists|
            after: AttestationView,
        | #[trigger]
            verified(attestation, after) && follows(next.phase, public, private, after),
        provision_hashed(p, next) ==> next.sign_type == p.sign_type && exists|
            after: AttestationView,
        | #[trigger]
            hashed(attestation, after) && follows(next.phase, public, private, after),
{
    assert forall|after: AttestationView| follows(
        #[trigger] after_attestation(public, private, after),
        public,
        private,
        after,
    ) by {
        if let PhaseView::Done { attn_report, signature, certificate } = after.phase {
            law_payload_is_joined(attn_report, signature, certificate);
        }
    }
}

/// The size of sealed data is 560 bytes and what is sealed; the greatest number where that
/// does not fit.
pub proof fn law_sealed_size(beside: u32, sealed: u32)
    ensures
        560 + beside + sealed <= 0xffff_ffff ==> sealed_size(beside, sealed) as int == 560 + beside
            + sealed,
        560 + beside + sealed > 0xffff_ffff ==> sealed_size(beside, sealed) == 0xffff_ffffu32,
{
}

/// A file of sixteen bytes is the key, to be sealed with the identifier; any other file is an
/// error.
pub proof fn law_file_step(room: u32, contents: Option<Seq<u8>>)
    ensures
        sealing_begun(room).phase is ReadKeyFile,
        sealing_begun(room).room == room,
        ({
            let next = sealing_stepped(sealing_begun(room), SealEventView::FileRead(contents));
            &&& next.room == room
            &&& match contents {
                Some(bytes) => {
                    &&& bytes.len() == 16 ==> next.phase == (SealPhaseView::Seal {
                        aad: seq![
                            0x95u8,
                            0x48,
                            0x6e,
                            0x8f,
                            0x8f,
                            0x4a,
                            0x41,
                            0x4f,
                            0xb1,
                            0x27,
                            0x46,
                            0x21,
                            0xa8,
                            0x59,
                            0xa8,
                            0xac,
                        ],
                        key: bytes,
                    })
                    &&& bytes.len() != 16 ==> next.phase == (SealPhaseView::Finished { status: 1 })
                },
                None => next.phase == (SealPhaseView::Finished { status: 1 }),
            }
        }),
{
    let next = sealing_stepped(sealing_begun(room), SealEventView::FileRead(contents));
    if let SealPhaseView::Seal { aad, .. } = next.phase {
        assert(aad == crate::seal::SGX_PCL_GUID@);
        assert(aad == seq![
            0x95u8,
            0x48,
            0x6e,
            0x8f,
            0x8f,
            0x4a,
            0x41,
            0x4f,
            0xb1,
            0x27,
            0x46,
            0x21,
            0xa8,
            0x59,
            0xa8,
            0xac,
        ]);
    }
}

/// A sealed key is exported to the caller's buffer with all its room, and that it was written
/// is success; what does not fit is a wrong parameter, and a failure to seal is returned.
pub proof fn law_seal_steps(s: SealedKeyView, failure: Option<SgxStatus>, written: bool)
    ensures
        s.phase is Seal ==> sealing_stepped(s, SealEventView::Sealed { failure }).phase == (
        match failure {
            Some(status) => SealPhaseView::Finished { status },
            None => SealPhaseView::Export { room: s.room },
        }),
        s.phase is Export ==> sealing_stepped(s, SealEventView::Exported { written }).phase == (
        SealPhaseView::Finished {
            status: if written {
                0
            } else {
                2
            },
        }),
{
}

/// Whether an event answers a phase of a sealing.
pub open spec fn sealing_answers(phase: SealPhaseView, event: SealEventView) -> bool {
    match phase {
        SealPhaseView::ReadKeyFile => event is FileRead,
        SealPhaseView::Seal { .. } => event is Sealed,
        SealPhaseView::Export { .. } => event is Exported,
        _ => false,
    }
}

/// What does not answer a phase of a sealing changes nothing.
pub proof fn law_strays_change_no_sealing(s: SealedKeyView, event: SealEventView)
    ensures
        sealing_stepped(s, event).room == s.room,
        !sealing_answers(s.phase, event) ==> sealing_stepped(s, event) == s,
{
}

} // verus!
