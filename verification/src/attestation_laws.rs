//! What holds of every attestation, whatever the platform and the network do.

use crate::attestation::{
    begun, hashed, key_report_data, reported, reported_digest, same_platform, stepped, u32_le,
    verified, Abort, AttestationView, EcPublicKey, EventView, PhaseView, Report, TargetInfo,
    RET_QUOTE_BUF_LEN,
};
use crate::encoding::base64_text;
use crate::hex::spid;
use crate::ias::{reply_report, reply_sigrl, report_request_text};
use crate::outside::sha256;
use crate::seqs::lemma_push_contains;
use crate::status::{SgxStatus, SGX_ERROR_UNEXPECTED, SGX_SUCCESS};
use sgx_types::sgx_report_t;
use vstd::prelude::*;

verus! {

/// An attestation after some events, in their order.
pub open spec fn run(a: AttestationView, events: Seq<EventView>) -> AttestationView
    decreases events.len(),
{
    if events.len() == 0 {
        a
    } else {
        stepped(run(a, events.drop_last()), events.last())
    }
}

/// Whether every digest that was handed in, when one was asked for, is that of the nonce and
/// the quote.
pub open spec fn digests_are_true(a: AttestationView, events: Seq<EventView>) -> bool {
    forall|i: int|
        0 <= i < events.len() ==> digest_is_true(
            run(a, #[trigger] events.take(i)).phase,
            events[i],
        )
}

/// Whether an event, if it answers the question for a digest, answers it with the digest of
/// the nonce and the quote.
pub open spec fn digest_is_true(phase: PhaseView, event: EventView) -> bool {
    match (phase, event) {
        (PhaseView::HashQuote { nonce, quote, .. }, EventView::Digest(Ok(digest))) => digest
            == sha256(nonce + quote),
        _ => true,
    }
}

/// The successful answer to the initialisation of quoting.
pub open spec fn quoting_ready(target: TargetInfo, gid: Seq<u8>) -> EventView {
    EventView::QuoteInit { res: SGX_SUCCESS, rt: SGX_SUCCESS, target, gid }
}

/// The successful answer to the question for a quote.
pub open spec fn quote_made(qe_report: Report, buffer: Seq<u8>, quote_len: u32) -> EventView {
    EventView::Quote { res: SGX_SUCCESS, rt: SGX_SUCCESS, qe_report, buffer, quote_len }
}

/// Whether, in the course of an attestation from `a` on, `event` answered `phase`.
#[verifier::opaque]
pub open spec fn answered(
    a: AttestationView,
    events: Seq<EventView>,
    phase: PhaseView,
    event: EventView,
) -> bool {
    exists|i: int|
        0 <= i < events.len() && #[trigger] events[i] == event && run(a, events.take(i)).phase
            == phase
}

/// Whether the platform was asked for its quoting enclave and named `target`.
pub open spec fn target_named(events: Seq<EventView>, target: TargetInfo) -> bool {
    exists|gid: Seq<u8>| #[trigger] events.contains(quoting_ready(target, gid))
}

/// Whether the service sent a reply that says a revocation list.
pub open spec fn sigrl_came(events: Seq<EventView>, sigrl: Seq<u8>) -> bool {
    exists|reply: Seq<u8>| #[trigger]
        events.contains(EventView::Reply(reply)) && (reply_sigrl(reply) matches Ok(said) && said
            == sigrl)
}

/// Whether the file of the service provider identifier was read and held `id`.
pub open spec fn spid_read(events: Seq<EventView>, id: Seq<u8>) -> bool {
    exists|text: Seq<char>| #[trigger]
        events.contains(EventView::SpidText(text)) && spid(text) == Some(id)
}

/// Whether the platform created a report.
pub open spec fn report_created(events: Seq<EventView>, report: sgx_report_t) -> bool {
    events.contains(EventView::ReportCreated(Ok(report)))
}

/// What a quote is asked for with, `None` standing for an empty revocation list.
pub open spec fn list_given(sigrl_given: Option<Seq<u8>>) -> Seq<u8> {
    match sigrl_given {
        Some(sigrl) => sigrl,
        None => Seq::empty(),
    }
}

/// Whether a quote was made for a nonce that was drawn, by a quoting enclave whose report,
/// the one that came with the quote, the platform verified, and which is that of the platform.
pub open spec fn quote_checked(
    a: AttestationView,
    events: Seq<EventView>,
    target: TargetInfo,
    nonce: Seq<u8>,
    qe_report: Report,
    buffer: Seq<u8>,
    quote_len: u32,
    quote: Seq<u8>,
) -> bool {
    &&& target_named(events, target)
    &&& events.contains(EventView::Nonce(nonce))
    &&& events.contains(quote_made(qe_report, buffer, quote_len))
    &&& quote_len <= RET_QUOTE_BUF_LEN
    &&& quote == buffer.take(quote_len as int)
    &&& answered(
        a,
        events,
        PhaseView::VerifyReport { target, nonce, qe_report, buffer, quote_len },
        EventView::ReportVerified { failure: None },
    )
    &&& same_platform(target, qe_report)
}

/// Whether a quote was checked, and the quoting enclave reported the digest of it and of the
/// nonce: then neither was it changed on its way, nor is it an old one.
pub open spec fn quote_vouched(a: AttestationView, events: Seq<EventView>, quote: Seq<u8>) -> bool {
    exists|target: TargetInfo, nonce: Seq<u8>, qe_report: Report, buffer: Seq<u8>, quote_len: u32|
        #[trigger] quote_checked(a, events, target, nonce, qe_report, buffer, quote_len, quote)
            && reported_digest(qe_report) == sha256(nonce + quote)
}

/// Whether a request sends a quote that was vouched for.
pub open spec fn vouched_in(
    a: AttestationView,
    events: Seq<EventView>,
    request: Seq<char>,
) -> bool {
    exists|quote: Seq<u8>| #[trigger]
        quote_vouched(a, events, quote) && request == report_request_text(base64_text(quote))
}

/// Whether the service was sent `request` and answered with a reply that says a report, its
/// signature and its certificate.
pub open spec fn report_said(
    a: AttestationView,
    events: Seq<EventView>,
    fd: i32,
    request: Seq<char>,
    reply: Seq<u8>,
    said: (Seq<char>, Seq<char>, Seq<char>),
) -> bool {
    &&& answered(a, events, PhaseView::FetchReport { fd, request }, EventView::Reply(reply))
    &&& reply_report(reply) matches Ok(found)
    &&& found == said
}

/// Whether the service was sent some request and said a report, its signature and its
/// certificate.
pub open spec fn report_came(
    a: AttestationView,
    events: Seq<EventView>,
    said: (Seq<char>, Seq<char>, Seq<char>),
) -> bool {
    exists|fd: i32, request: Seq<char>, reply: Seq<u8>| #[trigger]
        report_said(a, events, fd, request, reply, said)
}

/// Whether the service was sent a quote that was vouched for and said a report, its signature
/// and its certificate.
pub open spec fn vouched_report_came(
    a: AttestationView,
    events: Seq<EventView>,
    said: (Seq<char>, Seq<char>, Seq<char>),
) -> bool {
    exists|fd: i32, request: Seq<char>, reply: Seq<u8>| #[trigger]
        report_said(a, events, fd, request, reply, said) && vouched_in(a, events, request)
}

/// Whether a quote was checked, so that its digest can be asked for.
spec fn ready_to_hash(
    a: AttestationView,
    events: Seq<EventView>,
    nonce: Seq<u8>,
    qe_report: Report,
    quote: Seq<u8>,
) -> bool {
    exists|target: TargetInfo, buffer: Seq<u8>, quote_len: u32| #[trigger]
        quote_checked(a, events, target, nonce, qe_report, buffer, quote_len, quote)
}

/// What the events say of a phase that they led to; of what follows a digest, only if the
/// digests are true.
spec fn accounted(
    a: AttestationView,
    events: Seq<EventView>,
    phase: PhaseView,
    digests_true: bool,
) -> bool {
    match phase {
        PhaseView::SigrlSocket { target, .. } => target_named(events, target),
        PhaseView::FetchSigrl { target, .. } => target_named(events, target),
        PhaseView::CreateReport { target, sigrl, .. } => {
            &&& target_named(events, target)
            &&& sigrl_came(events, sigrl)
        },
        PhaseView::DrawNonce { target, sigrl, report } => {
            &&& target_named(events, target)
            &&& sigrl_came(events, sigrl)
            &&& report_created(events, report)
        },
        PhaseView::LoadSpid { target, sigrl, report, nonce } => {
            &&& target_named(events, target)
            &&& sigrl_came(events, sigrl)
            &&& report_created(events, report)
            &&& events.contains(EventView::Nonce(nonce))
        },
        PhaseView::GetQuote { target, report, sigrl_given, spid, nonce, .. } => {
            &&& target_named(events, target)
            &&& sigrl_came(events, list_given(sigrl_given))
            &&& report_created(events, report)
            &&& spid_read(events, spid)
            &&& events.contains(EventView::Nonce(nonce))
        },
        PhaseView::VerifyReport { target, nonce, qe_report, buffer, quote_len } => {
            &&& target_named(events, target)
            &&& events.contains(EventView::Nonce(nonce))
            &&& events.contains(quote_made(qe_report, buffer, quote_len))
        },
        PhaseView::HashQuote { nonce, qe_report, quote } => ready_to_hash(
            a,
            events,
            nonce,
            qe_report,
            quote,
        ),
        PhaseView::ReportSocket { quote } => digests_true ==> quote_vouched(a, events, quote),
        PhaseView::FetchReport { request, .. } => digests_true ==> vouched_in(a, events, request),
        PhaseView::Done { attn_report, signature, certificate } => {
            &&& report_came(a, events, (attn_report, signature, certificate))
            &&& digests_true ==> vouched_report_came(
                a,
                events,
                (attn_report, signature, certificate),
            )
        },
        _ => true,
    }
}

proof fn lemma_accounted_grows(
    a: AttestationView,
    events: Seq<EventView>,
    event: EventView,
    phase: PhaseView,
    digests_true: bool,
)
    requires
        accounted(a, events, phase, digests_true),
    ensures
        accounted(a, events.push(event), phase, digests_true),
{
    lemma_push_contains(events, event);
    let more = events.push(event);
    assert forall|asked: PhaseView, answer: EventView| #[trigger]
        answered(a, events, asked, answer) implies answered(a, more, asked, answer) by {
        reveal(answered);
        let i = choose|i: int|
            0 <= i < events.len() && #[trigger] events[i] == answer && run(
                a,
                events.take(i),
            ).phase == asked;
        assert(more[i] == answer && more.take(i) == events.take(i));
    }
    assert forall|sigrl: Seq<u8>| #[trigger] sigrl_came(events, sigrl) implies sigrl_came(
        more,
        sigrl,
    ) by {
        let reply = choose|reply: Seq<u8>| #[trigger]
            events.contains(EventView::Reply(reply)) && (reply_sigrl(reply) matches Ok(said)
                && said == sigrl);
        assert(more.contains(EventView::Reply(reply)));
    }
    assert forall|id: Seq<u8>| #[trigger] spid_read(events, id) implies spid_read(more, id) by {
        let text = choose|text: Seq<char>| #[trigger]
            events.contains(EventView::SpidText(text)) && spid(text) == Some(id);
        assert(more.contains(EventView::SpidText(text)));
    }
    assert forall|target: TargetInfo| #[trigger] target_named(events, target) implies target_named(
        more,
        target,
    ) by {
        let gid = choose|gid: Seq<u8>| #[trigger] events.contains(quoting_ready(target, gid));
        assert(more.contains(quoting_ready(target, gid)));
    }
    assert forall|
        target: TargetInfo,
        nonce: Seq<u8>,
        qe_report: Report,
        buffer: Seq<u8>,
        quote_len: u32,
        quote: Seq<u8>,
    | #[trigger]
        quote_checked(a, events, target, nonce, qe_report, buffer, quote_len, quote)
    implies quote_checked(a, more, target, nonce, qe_report, buffer, quote_len, quote) by {}
    assert forall|quote: Seq<u8>| #[trigger] quote_vouched(a, events, quote) implies quote_vouched(
        a,
        more,
        quote,
    ) by {
        let (target, nonce, qe_report, buffer, quote_len) = choose|
            target: TargetInfo,
            nonce: Seq<u8>,
            qe_report: Report,
            buffer: Seq<u8>,
            quote_len: u32,
        | #[trigger]
            quote_checked(a, events, target, nonce, qe_report, buffer, quote_len, quote)
                && reported_digest(qe_report) == sha256(nonce + quote);
        assert(quote_checked(a, more, target, nonce, qe_report, buffer, quote_len, quote));
    }
    assert forall|request: Seq<char>| #[trigger] vouched_in(a, events, request) implies vouched_in(
        a,
        more,
        request,
    ) by {
        let quote = choose|quote: Seq<u8>| #[trigger]
            quote_vouched(a, events, quote) && request == report_request_text(
                base64_text(quote),
            );
        assert(quote_vouched(a, more, quote));
    }
    if let PhaseView::Done { attn_report, signature, certificate } = phase {
        let said = (attn_report, signature, certificate);
        let (fd, request, reply) = choose|fd: i32, request: Seq<char>, reply: Seq<u8>| #[trigger]
            report_said(a, events, fd, request, reply, said) && (digests_true ==> vouched_in(
                a,
                events,
                request,
            ));
        assert(report_said(a, more, fd, request, reply, said));
    }
}

proof fn lemma_step_accounted(
    a: AttestationView,
    events: Seq<EventView>,
    event: EventView,
    digests_true: bool,
)
    requires
        accounted(a, events, run(a, events).phase, digests_true),
        digests_true ==> digest_is_true(run(a, events).phase, event),
    ensures
        accounted(a, events.push(event), run(a, events.push(event)).phase, digests_true),
{
    let phase = run(a, events).phase;
    let more = events.push(event);
    assert(more.drop_last() == events);
    lemma_accounted_grows(a, events, event, phase, digests_true);
    lemma_push_contains(events, event);
    assert(answered(a, more, phase, event)) by {
        reveal(answered);
        assert(more.take(events.len() as int) == events);
        assert(more[events.len() as int] == event);
    }
    match (phase, event) {
        (PhaseView::InitQuote, EventView::QuoteInit { res, rt, target, gid }) => {
            if res == SGX_SUCCESS && rt == SGX_SUCCESS {
                assert(more.contains(quoting_ready(target, gid)));
            }
        },
        (PhaseView::FetchSigrl { .. }, EventView::Reply(reply)) => {
            if let Ok(sigrl) = reply_sigrl(reply) {
                assert(more.contains(EventView::Reply(reply)));
                assert(sigrl_came(more, sigrl));
            }
        },
        (PhaseView::LoadSpid { sigrl, .. }, EventView::SpidText(text)) => {
            if let Some(id) = spid(text) {
                assert(more.contains(EventView::SpidText(text)));
                assert(spid_read(more, id));
                assert(sigrl.len() == 0 ==> sigrl == Seq::<u8>::empty());
            }
        },
        (
            PhaseView::GetQuote { .. },
            EventView::Quote { res, rt, qe_report, buffer, quote_len },
        ) => {
            if res == SGX_SUCCESS && rt == SGX_SUCCESS {
                assert(more.contains(quote_made(qe_report, buffer, quote_len)));
            }
        },
        (
            PhaseView::VerifyReport { target, nonce, qe_report, buffer, quote_len },
            EventView::ReportVerified { failure: None },
        ) => {
            let quote = buffer.take(quote_len as int);
            if same_platform(target, qe_report) && quote_len <= RET_QUOTE_BUF_LEN {
                assert(quote_checked(a, more, target, nonce, qe_report, buffer, quote_len, quote));
                assert(ready_to_hash(a, more, nonce, qe_report, quote));
            }
        },
        (PhaseView::HashQuote { nonce, qe_report, quote }, EventView::Digest(Ok(digest))) => {
            let (target, buffer, quote_len) = choose|
                target: TargetInfo,
                buffer: Seq<u8>,
                quote_len: u32,
            | #[trigger]
                quote_checked(a, more, target, nonce, qe_report, buffer, quote_len, quote);
            if digest == reported_digest(qe_report) && digests_true {
                assert(quote_checked(a, more, target, nonce, qe_report, buffer, quote_len, quote));
                assert(quote_vouched(a, more, quote));
            }
        },
        (PhaseView::ReportSocket { quote }, EventView::Socket { .. }) => {
            if digests_true {
                assert(quote_vouched(a, more, quote));
                assert(vouched_in(a, more, report_request_text(base64_text(quote))));
            }
        },
        (PhaseView::FetchReport { fd, request }, EventView::Reply(reply)) => {
            if let Ok(said) = reply_report(reply) {
                assert(report_said(a, more, fd, request, reply, said));
                assert(report_came(a, more, said));
                if digests_true {
                    assert(vouched_in(a, more, request));
                    assert(vouched_report_came(a, more, said));
                }
            }
        },
        _ => {},
    }
}

proof fn lemma_run_accounted(
    key: EcPublicKey,
    sign_type: u32,
    events: Seq<EventView>,
    digests_true: bool,
)
    requires
        digests_true ==> digests_are_true(begun(key, sign_type), events),
    ensures
        accounted(
            begun(key, sign_type),
            events,
            run(begun(key, sign_type), events).phase,
            digests_true,
        ),
    decreases events.len(),
{
    let a = begun(key, sign_type);
    if events.len() > 0 {
        let before = events.drop_last();
        if digests_true {
            assert forall|i: int| 0 <= i < before.len() implies digest_is_true(
                run(a, #[trigger] before.take(i)).phase,
                before[i],
            ) by {
                assert(before.take(i) == events.take(i));
            }
            assert(events.take(events.len() - 1) == before);
        }
        lemma_run_accounted(key, sign_type, before, digests_true);
        lemma_step_accounted(a, before, events.last(), digests_true);
        assert(before.push(events.last()) == events);
    }
}

/// A quote is asked for over the report that the platform created, with the revocation list
/// that the service sent, the identifier that was read, the nonce that was drawn and the type
/// of signature that was wished for.
pub proof fn law_quote_is_asked_over_what_came(
    key: EcPublicKey,
    sign_type: u32,
    events: Seq<EventView>,
)
    ensures
        run(begun(key, sign_type), events).phase matches PhaseView::GetQuote {
            report,
            sigrl_given,
            sign_type: asked,
            spid,
            nonce,
            ..
        } ==> {
            &&& report_created(events, report)
            &&& sigrl_came(events, list_given(sigrl_given))
            &&& asked == sign_type
            &&& spid_read(events, spid)
            &&& events.contains(EventView::Nonce(nonce))
        },
{
    lemma_run_accounted(key, sign_type, events, false);
    law_report_binds_key(key, sign_type, events);
}

/// Letting the platform create a report is taking its answer: an attestation that went on so
/// went on by an event that tells what the platform made of it.
pub proof fn law_creating_takes_an_answer(a: AttestationView, next: AttestationView)
    requires
        reported(a, next),
    ensures
        exists|created: Result<sgx_report_t, SgxStatus>|
            (created matches Err(e) ==> e != SGX_SUCCESS) && next == #[trigger] stepped(
                a,
                EventView::ReportCreated(created),
            ),
{
    let created = match (a.phase, next.phase) {
        (
            PhaseView::CreateReport { .. },
            PhaseView::Aborted { cause: Abort::ReportCreation(e) },
        ) => Err(e),
        (PhaseView::CreateReport { .. }, PhaseView::DrawNonce { report, .. }) => Ok(report),
        _ => Err(SGX_ERROR_UNEXPECTED),
    };
    assert(next == stepped(a, EventView::ReportCreated(created)));
}

/// Letting the platform verify a report is taking its answer: an attestation that went on so
/// went on by an event that never refuses a report with the status of success.
pub proof fn law_verifying_takes_an_answer(a: AttestationView, next: AttestationView)
    requires
        verified(a, next),
    ensures
        exists|failure: Option<SgxStatus>|
            failure != Some(SGX_SUCCESS) && next == #[trigger] stepped(
                a,
                EventView::ReportVerified { failure },
            ),
{
    let failure = match (a.phase, next.phase) {
        (PhaseView::VerifyReport { .. }, PhaseView::Failed { status }) => Some(status),
        _ => None,
    };
    assert(failure != Some(SGX_SUCCESS));
    assert(next == stepped(a, EventView::ReportVerified { failure }));
}

/// Hashing is taking a true digest: an attestation that went on by hashing went on by an event
/// with a true digest, or without one.
pub proof fn law_hashing_takes_true_digests(a: AttestationView, next: AttestationView)
    requires
        hashed(a, next),
    ensures
        exists|event: EventView| #[trigger]
            digest_is_true(a.phase, event) && next == stepped(a, event),
{
    let event = match a.phase {
        PhaseView::HashQuote { nonce, quote, .. } => match next.phase {
            PhaseView::Aborted { cause: Abort::Hash(e) } => EventView::Digest(Err(e)),
            _ => EventView::Digest(Ok(sha256(nonce + quote))),
        },
        _ => EventView::Digest(Err(SGX_SUCCESS)),
    };
    assert(digest_is_true(a.phase, event));
    assert(next == stepped(a, event));
}

/// The request that sends a quote to the service is only made for a quote that a quoting
/// enclave of this platform vouched for: its report was verified, and it reported the digest
/// of the nonce that was drawn and of the very quote that is sent.
pub proof fn law_only_vouched_quotes_are_sent(
    key: EcPublicKey,
    sign_type: u32,
    events: Seq<EventView>,
)
    requires
        digests_are_true(begun(key, sign_type), events),
    ensures
        run(begun(key, sign_type), events).phase matches PhaseView::FetchReport { request, .. }
            ==> vouched_in(begun(key, sign_type), events, request),
{
    lemma_run_accounted(key, sign_type, events, true);
}

/// An attestation that is done gives what a reply of the service says, and was made for a
/// quote that was vouched for.
pub proof fn law_done_means_vouched(key: EcPublicKey, sign_type: u32, events: Seq<EventView>)
    requires
        digests_are_true(begun(key, sign_type), events),
    ensures
        run(begun(key, sign_type), events).phase matches PhaseView::Done {
            attn_report,
            signature,
            certificate,
        } ==> vouched_report_came(
            begun(key, sign_type),
            events,
            (attn_report, signature, certificate),
        ),
{
    lemma_run_accounted(key, sign_type, events, true);
}

/// The report that an attestation asks for is made over the key that is attested.
pub proof fn law_report_binds_key(key: EcPublicKey, sign_type: u32, events: Seq<EventView>)
    ensures
        run(begun(key, sign_type), events).phase matches PhaseView::CreateReport {
            report_data,
            ..
        } ==> report_data == key_report_data(key),
        run(begun(key, sign_type), events).phase matches PhaseView::GetQuote {
            sign_type: asked,
            ..
        } ==> asked == sign_type,
        run(begun(key, sign_type), events).key == key,
        run(begun(key, sign_type), events).sign_type == sign_type,
    decreases events.len(),
{
    if events.len() > 0 {
        law_report_binds_key(key, sign_type, events.drop_last());
    }
}

/// Two keys with the same report data are the same key.
pub proof fn law_report_data_identifies_key(one: EcPublicKey, other: EcPublicKey)
    requires
        key_report_data(one) == key_report_data(other),
    ensures
        one.gx@ == other.gx@,
        one.gy@ == other.gy@,
{
    assert forall|i: int| 0 <= i < 32 implies one.gx@[i] == other.gx@[i] && one.gy@[i]
        == other.gy@[i] by {
        assert(key_report_data(one)[31 - i] == one.gx@[i]);
        assert(key_report_data(other)[31 - i] == other.gx@[i]);
        assert(key_report_data(one)[63 - i] == one.gy@[i]);
        assert(key_report_data(other)[63 - i] == other.gy@[i]);
    }
    assert(one.gx@ == other.gx@);
    assert(one.gy@ == other.gy@);
}

/// The bytes of a number, from the number.
proof fn lemma_u32_le_bytes(bytes: Seq<u8>)
    ensures
        bytes[0] == u32_le(bytes) % 0x100,
        bytes[1] == u32_le(bytes) / 0x100 % 0x100,
        bytes[2] == u32_le(bytes) / 0x1_0000 % 0x100,
        bytes[3] == u32_le(bytes) / 0x100_0000,
{
    let n = u32_le(bytes);
    let high = bytes[1] + 0x100 * bytes[2] + 0x1_0000 * bytes[3];
    assert(n == 0x100 * high + bytes[0]);
    assert(n / 0x100 == high);
    assert(n / 0x1_0000 == bytes[2] + 0x100 * bytes[3]);
}

/// Two groups of four bytes that spell the same number are the same.
pub proof fn law_u32_le_identifies_bytes(one: Seq<u8>, other: Seq<u8>)
    requires
        one.len() == 4,
        other.len() == 4,
        u32_le(one) == u32_le(other),
    ensures
        one == other,
{
    lemma_u32_le_bytes(one);
    lemma_u32_le_bytes(other);
    assert(one == other);
}

/// Whether nothing is left to do.
pub open spec fn is_end(phase: PhaseView) -> bool {
    phase is Done || phase is Failed || phase is Aborted
}

/// How far a phase is from the beginning.
pub open spec fn progress(phase: PhaseView) -> int {
    match phase {
        PhaseView::InitQuote => 0,
        PhaseView::SigrlSocket { .. } => 1,
        PhaseView::FetchSigrl { .. } => 2,
        PhaseView::CreateReport { .. } => 3,
        PhaseView::DrawNonce { .. } => 4,
        PhaseView::LoadSpid { .. } => 5,
        PhaseView::GetQuote { .. } => 6,
        PhaseView::VerifyReport { .. } => 7,
        PhaseView::HashQuote { .. } => 8,
        PhaseView::ReportSocket { .. } => 9,
        PhaseView::FetchReport { .. } => 10,
        _ => 11,
    }
}

/// Whether an event answers a phase.
pub open spec fn answers(phase: PhaseView, event: EventView) -> bool {
    match phase {
        PhaseView::InitQuote => event is QuoteInit,
        PhaseView::SigrlSocket { .. } => event is Socket,
        PhaseView::FetchSigrl { .. } => event is Reply,
        PhaseView::CreateReport { .. } => event is ReportCreated,
        PhaseView::DrawNonce { .. } => event is Nonce,
        PhaseView::LoadSpid { .. } => event is SpidText,
        PhaseView::GetQuote { .. } => event is Quote,
        PhaseView::VerifyReport { .. } => event is ReportVerified,
        PhaseView::HashQuote { .. } => event is Digest,
        PhaseView::ReportSocket { .. } => event is Socket,
        PhaseView::FetchReport { .. } => event is Reply,
        _ => false,
    }
}

/// An answer always leads on, by one phase or to the end; anything else changes nothing. So
/// an attestation ends after eleven answers at the latest, and stays as it ended.
pub proof fn law_answers_lead_on(a: AttestationView, event: EventView)
    ensures
        answers(a.phase, event) ==> {
            ||| progress(stepped(a, event).phase) == progress(a.phase) + 1
            ||| is_end(stepped(a, event).phase)
        },
        !answers(a.phase, event) ==> stepped(a, event) == a,
        is_end(a.phase) ==> stepped(a, event) == a,
        is_end(a.phase) <==> progress(a.phase) == 11,
{
}

/// An attestation that failed never reports success, as long as the platform never refuses a
/// report with the status of success.
pub proof fn law_failure_is_no_success(
    key: EcPublicKey,
    sign_type: u32,
    events: Seq<EventView>,
)
    requires
        !events.contains(EventView::ReportVerified { failure: Some(SGX_SUCCESS) }),
    ensures
        run(begun(key, sign_type), events).phase matches PhaseView::Failed { status } ==> status
            != SGX_SUCCESS,
    decreases events.len(),
{
    if events.len() > 0 {
        let before = events.drop_last();
        assert(before.push(events.last()) == events);
        lemma_push_contains(before, events.last());
        law_failure_is_no_success(key, sign_type, before);
    }
}

} // verus!
