//! What is read from a response, header by header.

use crate::attestation::{
    Event as AttestationEvent, EventView as AttestationEventView, Phase as AttestationPhase,
    PhaseView as AttestationPhaseView,
};
use crate::cert::{signing_cert, CertError};
use crate::digits::u32_number;
use crate::http::{HeadStatus, HeadView, HeaderView, HttpHead};
use crate::ias::{attn_report, decoded_sigrl, last_value, sigrl_text, ResponseError};
use crate::identity::{certs_read, key_chosen, IdentityError};
use crate::outside::base64_decoded;
use crate::provision::{
    Event as ProvisionEvent, EventView as ProvisionEventView, Phase as ProvisionPhase,
    PhaseView as ProvisionPhaseView,
};
use crate::seal::{
    Event as SealEvent, EventView as SealEventView, Phase as SealPhase,
    PhaseView as SealPhaseView,
};
use crate::views::ok_view;
use vstd::prelude::*;
use vstd::utf8::{decode_utf8, decode_utf8_encode_utf8, valid_utf8};

verus! {

/// Whether the header at `i` is the last one with a name.
pub open spec fn is_last_named(headers: Seq<HeaderView>, name: Seq<char>, i: int) -> bool {
    &&& 0 <= i < headers.len()
    &&& headers[i].name == name
    &&& forall|j: int| i < j < headers.len() ==> (#[trigger] headers[j]).name != name
}

/// Whether no header has a name.
pub open spec fn is_unnamed(headers: Seq<HeaderView>, name: Seq<char>) -> bool {
    forall|j: int| 0 <= j < headers.len() ==> (#[trigger] headers[j]).name != name
}

/// Whether `value` is what the headers say under a name: the value of the last header with the
/// name, and nothing where there is none.
pub open spec fn says(headers: Seq<HeaderView>, name: Seq<char>, value: Option<Seq<u8>>) -> bool {
    match value {
        Some(bytes) => said_by_last(headers, name, bytes),
        None => is_unnamed(headers, name),
    }
}

/// Whether the last header with a name has a value.
pub open spec fn said_by_last(headers: Seq<HeaderView>, name: Seq<char>, bytes: Seq<u8>) -> bool {
    exists|i: int| #[trigger] is_last_named(headers, name, i) && headers[i].value == bytes
}

/// The last header with a name gives the value, however many headers there are and in whatever
/// order; without one there is no value.
pub proof fn law_last_header_counts(headers: Seq<HeaderView>, name: Seq<char>, i: int)
    ensures
        is_last_named(headers, name, i) ==> last_value(headers, name) == Some(headers[i].value),
        is_unnamed(headers, name) ==> last_value(headers, name) is None,
    decreases headers.len(),
{
    if headers.len() > 0 {
        let before = headers.drop_last();
        law_last_header_counts(before, name, i);
        assert(headers[headers.len() - 1] == headers.last());
        if is_last_named(headers, name, i) && i < headers.len() - 1 {
            assert(headers.last().name != name);
            assert(before[i] == headers[i]);
            assert forall|j: int| i < j < before.len() implies (#[trigger] before[j]).name
                != name by {
                assert(before[j] == headers[j]);
            }
            assert(is_last_named(before, name, i));
        }
        if is_unnamed(headers, name) {
            assert forall|j: int| 0 <= j < before.len() implies (#[trigger] before[j]).name
                != name by {
                assert(before[j] == headers[j]);
            }
        }
    }
}

/// What the headers say under a name is the last value.
proof fn lemma_says(headers: Seq<HeaderView>, name: Seq<char>, value: Option<Seq<u8>>)
    requires
        says(headers, name, value),
    ensures
        last_value(headers, name) == value,
{
    match value {
        Some(bytes) => {
            let i = choose|i: int| #[trigger]
                is_last_named(headers, name, i) && headers[i].value == bytes;
            law_last_header_counts(headers, name, i);
        },
        None => {
            law_last_header_counts(headers, name, 0);
        },
    }
}

/// Whether a header can be read as a report's response is read.
pub open spec fn can_be_read(h: HeaderView) -> bool {
    &&& h.name == "content-length"@ ==> u32_number(h.value) is Some
    &&& h.name == "x-iasreport-signature"@ ==> valid_utf8(h.value)
    &&& h.name == "x-iasreport-signing-certificate"@ ==> valid_utf8(h.value)
}

/// The text of a value; empty without one.
pub open spec fn text_said(value: Option<Seq<u8>>) -> Seq<char> {
    match value {
        Some(bytes) => decode_utf8(bytes),
        None => Seq::empty(),
    }
}

/// The number that a value spells; zero without one.
pub open spec fn number_said(value: Option<Seq<u8>>) -> int {
    match value {
        Some(bytes) => u32_number(bytes)->0 as int,
        None => 0,
    }
}

/// A response to a quote that has a status code and whose headers can all be read gives the
/// certificate in the chain that its headers say, the signature that they say, and, where they
/// announce a body, the whole body behind the head; each thing that is missing has its error.
pub proof fn law_report_is_read(
    head: HeadView,
    resp: Seq<u8>,
    length: Option<Seq<u8>>,
    signature: Option<Seq<u8>>,
    chain: Option<Seq<u8>>,
)
    requires
        head.code is Some,
        forall|i: int| 0 <= i < head.headers.len() ==> can_be_read(#[trigger] head.headers[i]),
        says(head.headers, "content-length"@, length),
        says(head.headers, "x-iasreport-signature"@, signature),
        says(head.headers, "x-iasreport-signing-certificate"@, chain),
    ensures
        match signing_cert(text_said(chain)) {
            Err(CertError::Encoding) => attn_report(head, resp) matches Err(e) && e
                == ResponseError::CertEncoding,
            Err(CertError::Missing) => attn_report(head, resp) matches Err(e) && e
                == ResponseError::CertMissing,
            Ok(cert) => {
                &&& number_said(length) == 0 ==> (attn_report(head, resp) matches Ok(said)
                    && said.0.len() == 0 && said.1 == text_said(signature) && said.2 == cert)
                &&& number_said(length) != 0 ==> match head.status {
                    HeadStatus::Complete(n) => {
                        &&& n <= resp.len() && valid_utf8(resp.skip(n as int)) ==> (attn_report(
                            head,
                            resp,
                        ) matches Ok(said) && said.0 == decode_utf8(resp.skip(n as int)) && said.1
                            == text_said(signature) && said.2 == cert)
                        &&& n <= resp.len() && !valid_utf8(resp.skip(n as int)) ==> (attn_report(
                            head,
                            resp,
                        ) matches Err(e) && e == ResponseError::BodyText)
                        &&& n > resp.len() ==> (attn_report(head, resp) matches Err(e) && e
                            == ResponseError::HeadIncomplete)
                    },
                    _ => attn_report(head, resp) matches Err(e) && e
                        == ResponseError::HeadIncomplete,
                }
            },
        },
{
    lemma_says(head.headers, "content-length"@, length);
    lemma_says(head.headers, "x-iasreport-signature"@, signature);
    lemma_says(head.headers, "x-iasreport-signing-certificate"@, chain);
    assert forall|i: int|
        0 <= i < head.headers.len() implies crate::ias::report_header_readable(
        #[trigger] head.headers[i],
    ) by {
        assert(can_be_read(head.headers[i]));
    }
    if let Some(bytes) = length {
        let i = choose|i: int| #[trigger]
            is_last_named(head.headers, "content-length"@, i) && head.headers[i].value == bytes;
        assert(can_be_read(head.headers[i]));
    }
}

/// However many headers a response has, and in whatever order, the signature that it gives is
/// the text of the last header named for it, and the certificate that of the last header named
/// for the chain; without the one the signature is empty.
pub proof fn law_signature_and_certificate_are_of_last_headers(
    head: HeadView,
    resp: Seq<u8>,
    i: int,
    j: int,
)
    ensures
        attn_report(head, resp) matches Ok(said) ==> {
            &&& is_last_named(head.headers, "x-iasreport-signature"@, i) ==> said.1 == decode_utf8(
                head.headers[i].value,
            )
            &&& is_unnamed(head.headers, "x-iasreport-signature"@) ==> said.1.len() == 0
            &&& is_last_named(head.headers, "x-iasreport-signing-certificate"@, j) ==> (
            signing_cert(decode_utf8(head.headers[j].value)) matches Ok(cert) && cert == said.2)
            &&& is_unnamed(head.headers, "x-iasreport-signing-certificate"@) ==> (signing_cert(
                Seq::empty(),
            ) matches Ok(cert) && cert == said.2)
        },
{
    law_last_header_counts(head.headers, "x-iasreport-signature"@, i);
    law_last_header_counts(head.headers, "x-iasreport-signing-certificate"@, j);
}

/// A response to a quote without a status code is refused, and one with a header that cannot
/// be read.
pub proof fn law_unreadable_report(head: HeadView, resp: Seq<u8>, i: int)
    ensures
        head.code is None ==> (attn_report(head, resp) matches Err(e) && e
            == ResponseError::NoStatusCode),
        head.code is Some && 0 <= i < head.headers.len() && !can_be_read(head.headers[i]) ==> (
        attn_report(head, resp) matches Err(e) && e == ResponseError::BadHeader),
{
    if 0 <= i < head.headers.len() && !can_be_read(head.headers[i]) {
        assert(!crate::ias::report_header_readable(head.headers[i]));
    }
}

/// A response for a revocation list whose lengths can all be read gives the whole body behind
/// the head as text where a body is announced, whatever its status code; each thing that is
/// missing has its error.
pub proof fn law_list_is_read(head: HeadView, resp: Seq<u8>, length: Option<Seq<u8>>)
    requires
        forall|i: int|
            0 <= i < head.headers.len() && (#[trigger] head.headers[i]).name == "content-length"@
                ==> u32_number(head.headers[i].value) is Some,
        says(head.headers, "content-length"@, length),
    ensures
        number_said(length) == 0 ==> (sigrl_text(head, resp) matches Ok(text) && text is None),
        number_said(length) != 0 ==> match head.status {
            HeadStatus::Complete(n) => {
                let body = resp.skip(n as int);
                &&& n <= resp.len() && valid_utf8(body) && 4 * body.len() <= usize::MAX ==> (
                sigrl_text(head, resp) matches Ok(text) && text == Some(decode_utf8(body)))
                &&& n <= resp.len() && valid_utf8(body) && 4 * body.len() > usize::MAX ==> (
                sigrl_text(head, resp) matches Err(e) && e == ResponseError::BodyTooLong)
                &&& n <= resp.len() && !valid_utf8(body) ==> (sigrl_text(head, resp) matches Err(e)
                    && e == ResponseError::BodyText)
                &&& n > resp.len() ==> (sigrl_text(head, resp) matches Err(e) && e
                    == ResponseError::HeadIncomplete)
            },
            _ => sigrl_text(head, resp) matches Err(e) && e == ResponseError::HeadIncomplete,
        },
{
    lemma_says(head.headers, "content-length"@, length);
    if let Some(bytes) = length {
        let i = choose|i: int| #[trigger]
            is_last_named(head.headers, "content-length"@, i) && head.headers[i].value == bytes;
        assert(head.headers[i].name == "content-length"@);
    }
    assert forall|i: int| 0 <= i < head.headers.len() implies crate::ias::length_readable(
        #[trigger] head.headers[i],
    ) by {}
    if let HeadStatus::Complete(n) = head.status {
        if n <= resp.len() && valid_utf8(resp.skip(n as int)) {
            decode_utf8_encode_utf8(resp.skip(n as int));
        }
    }
}

/// A response for a revocation list with a length that cannot be read is refused.
pub proof fn law_unreadable_list(head: HeadView, resp: Seq<u8>, i: int)
    requires
        0 <= i < head.headers.len(),
        head.headers[i].name == "content-length"@,
        u32_number(head.headers[i].value) is None,
    ensures
        sigrl_text(head, resp) matches Err(e) && e == ResponseError::BadHeader,
{
    assert(!crate::ias::length_readable(head.headers[i]));
}

/// No text is an empty list; text is the list that its Base64 gives, and no Base64 is an
/// error; an error stays.
pub proof fn law_list_is_decoded(text: Seq<char>, e: ResponseError)
    ensures
        decoded_sigrl(Err(e)) matches Err(same) && same == e,
        decoded_sigrl(Ok(None)) matches Ok(list) && list.len() == 0,
        match base64_decoded(text) {
            Some(bytes) => decoded_sigrl(Ok(Some(text))) matches Ok(list) && list == bytes,
            None => decoded_sigrl(Ok(Some(text))) matches Err(wrong) && wrong
                == ResponseError::BodyEncoding,
        },
{
}

/// The first PKCS#8 key is chosen, whatever RSA keys there are; without one the first RSA key;
/// without either, none.
pub proof fn law_key_choice(first: Seq<u8>, rest: Seq<Seq<u8>>, others: Seq<Seq<u8>>)
    ensures
        key_chosen(Some(others), Some(seq![first] + rest)) matches Ok(key) && key == first,
        key_chosen(Some(seq![first] + rest), Some(Seq::empty())) matches Ok(key) && key == first,
        key_chosen(Some(Seq::empty()), Some(Seq::empty())) matches Err(e) && e
            == IdentityError::NoKey,
        key_chosen(None, Some(others)) matches Err(e) && e == IdentityError::RsaKeys,
        key_chosen(None, None) matches Err(e) && e == IdentityError::RsaKeys,
        key_chosen(Some(others), None) matches Err(e) && e == IdentityError::Pkcs8Keys,
{
}

/// All certificates are taken, in their order; a file that cannot be read gives an error.
pub proof fn law_certificates_are_taken(certs: Seq<Seq<u8>>)
    ensures
        certs_read(Some(certs)) matches Ok(taken) && taken == certs,
        certs_read(None) matches Err(e) && e == IdentityError::Certificates,
{
}

/// A result is seen as what it holds.
pub proof fn law_results_are_seen<T: DeepView, E>(value: T, e: E)
    ensures
        ok_view(Ok::<T, E>(value)) == Ok::<T::V, E>(value.deep_view()),
        ok_view(Err::<T, E>(e)) == Err::<T::V, E>(e),
{
}

/// A head is seen with all that was read of it.
pub proof fn law_head_is_seen(head: HttpHead, i: int)
    ensures
        head@.code == head.code,
        head@.status == head.status,
        head@.headers.len() == head.headers@.len(),
        0 <= i < head.headers@.len() ==> head@.headers[i].name == head.headers@[i].name@
            && head@.headers[i].value == head.headers@[i].value@,
{
}

/// A phase of an attestation is seen with all that it holds.
pub proof fn law_attestation_phase_is_seen(phase: AttestationPhase)
    ensures
        match phase {
            AttestationPhase::InitQuote => phase@ is InitQuote,
            AttestationPhase::SigrlSocket { target, gid } => phase@ == (
            AttestationPhaseView::SigrlSocket { target, gid }),
            AttestationPhase::FetchSigrl { target, fd, request } => phase@ == (
            AttestationPhaseView::FetchSigrl { target, fd, request: request@ }),
            AttestationPhase::CreateReport { target, sigrl, report_data } => phase@ == (
            AttestationPhaseView::CreateReport {
                target,
                sigrl: sigrl@,
                report_data: report_data@,
            }),
            AttestationPhase::DrawNonce { target, sigrl, report } => phase@ == (
            AttestationPhaseView::DrawNonce { target, sigrl: sigrl@, report }),
            AttestationPhase::LoadSpid { target, sigrl, report, nonce } => phase@ == (
            AttestationPhaseView::LoadSpid { target, sigrl: sigrl@, report, nonce: nonce@ }),
            AttestationPhase::GetQuote {
                target,
                report,
                sigrl_given,
                sigrl_len,
                sign_type,
                spid,
                nonce,
                max_len,
            } => {
                &&& phase@ matches AttestationPhaseView::GetQuote {
                    target: t,
                    report: r,
                    sigrl_given: g,
                    sigrl_len: l,
                    sign_type: k,
                    spid: s,
                    nonce: n,
                    max_len: m,
                }
                &&& t == target && r == report && l == sigrl_len && k == sign_type && s == spid@
                    && n == nonce@ && m == max_len
                &&& g is Some <==> sigrl_given is Some
                &&& sigrl_given matches Some(list) ==> g == Some(list@)
            },
            AttestationPhase::VerifyReport { target, nonce, qe_report, buffer, quote_len } => phase@
                == (AttestationPhaseView::VerifyReport {
                target,
                nonce: nonce@,
                qe_report,
                buffer: buffer@,
                quote_len,
            }),
            AttestationPhase::HashQuote { nonce, qe_report, quote } => phase@ == (
            AttestationPhaseView::HashQuote { nonce: nonce@, qe_report, quote: quote@ }),
            AttestationPhase::ReportSocket { quote } => phase@ == (
            AttestationPhaseView::ReportSocket { quote: quote@ }),
            AttestationPhase::FetchReport { fd, request } => phase@ == (
            AttestationPhaseView::FetchReport { fd, request: request@ }),
            AttestationPhase::Done { attn_report, signature, certificate } => phase@ == (
            AttestationPhaseView::Done {
                attn_report: attn_report@,
                signature: signature@,
                certificate: certificate@,
            }),
            AttestationPhase::Failed { status } => phase@ == (AttestationPhaseView::Failed {
                status,
            }),
            AttestationPhase::Aborted { cause } => phase@ == (AttestationPhaseView::Aborted {
                cause,
            }),
        },
{
}

/// An event of an attestation is seen with all that it tells.
pub proof fn law_attestation_event_is_seen(event: AttestationEvent)
    ensures
        match event {
            AttestationEvent::QuoteInit { res, rt, target, gid } => event@ == (
            AttestationEventView::QuoteInit { res, rt, target, gid: gid@ }),
            AttestationEvent::Socket { res, rt, fd } => event@ == (AttestationEventView::Socket {
                res,
                rt,
                fd,
            }),
            AttestationEvent::Reply(reply) => event@ == AttestationEventView::Reply(reply@),
            AttestationEvent::ReportCreated(created) => event@
                == AttestationEventView::ReportCreated(created),
            AttestationEvent::Nonce(nonce) => event@ == AttestationEventView::Nonce(nonce@),
            AttestationEvent::SpidText(text) => event@ == AttestationEventView::SpidText(text@),
            AttestationEvent::Quote { res, rt, qe_report, buffer, quote_len } => event@ == (
            AttestationEventView::Quote { res, rt, qe_report, buffer: buffer@, quote_len }),
            AttestationEvent::ReportVerified { failure } => event@ == (
            AttestationEventView::ReportVerified { failure }),
            AttestationEvent::Digest(Ok(digest)) => event@ == AttestationEventView::Digest(
                Ok(digest@),
            ),
            AttestationEvent::Digest(Err(e)) => event@ == AttestationEventView::Digest(Err(e)),
        },
{
}

/// A phase of a provisioning is seen with all that it holds.
pub proof fn law_provision_phase_is_seen(phase: ProvisionPhase)
    ensures
        match phase {
            ProvisionPhase::CreateKeyPair => phase@ is CreateKeyPair,
            ProvisionPhase::Attest { public, private, attestation } => phase@ == (
            ProvisionPhaseView::Attest { public, private, attestation: attestation@ }),
            ProvisionPhase::MakeCert { payload, public, private } => phase@ == (
            ProvisionPhaseView::MakeCert { payload: payload@, public, private }),
            ProvisionPhase::ReceiveKey { key_der, cert_der } => phase@ == (
            ProvisionPhaseView::ReceiveKey { key_der: key_der@, cert_der: cert_der@ }),
            ProvisionPhase::Acknowledge { key } => phase@ == (ProvisionPhaseView::Acknowledge {
                key: key@,
            }),
            ProvisionPhase::StoreKey { key } => phase@ == (ProvisionPhaseView::StoreKey {
                key: key@,
            }),
            ProvisionPhase::Finished { status } => phase@ == (ProvisionPhaseView::Finished {
                status,
            }),
            ProvisionPhase::Aborted { cause } => phase@ == (ProvisionPhaseView::Aborted { cause }),
        },
{
}

/// An event of a provisioning is seen with all that it tells.
pub proof fn law_provision_event_is_seen(event: ProvisionEvent)
    ensures
        match event {
            ProvisionEvent::KeyPair(made) => event@ == ProvisionEventView::KeyPair(made),
            ProvisionEvent::Attestation(came) => event@ == ProvisionEventView::Attestation(came@),
            ProvisionEvent::CertMade(Ok(ders)) => event@ == ProvisionEventView::CertMade(
                Ok((ders.0@, ders.1@)),
            ),
            ProvisionEvent::CertMade(Err(e)) => event@ == ProvisionEventView::CertMade(Err(e)),
            ProvisionEvent::KeyReceived(Some(key)) => event@ == ProvisionEventView::KeyReceived(
                Some(key@),
            ),
            ProvisionEvent::KeyReceived(None) => event@ == ProvisionEventView::KeyReceived(None),
            ProvisionEvent::Acknowledged => event@ is Acknowledged,
            ProvisionEvent::KeyStored { written } => event@ == (ProvisionEventView::KeyStored {
                written,
            }),
        },
{
}

/// The phases and the events of a sealing are seen with all that they hold.
pub proof fn law_sealing_is_seen(phase: SealPhase, event: SealEvent)
    ensures
        match phase {
            SealPhase::ReadKeyFile => phase@ is ReadKeyFile,
            SealPhase::Seal { aad, key } => phase@ == (SealPhaseView::Seal {
                aad: aad@,
                key: key@,
            }),
            SealPhase::Export { room } => phase@ == (SealPhaseView::Export { room }),
            SealPhase::Finished { status } => phase@ == (SealPhaseView::Finished { status }),
        },
        match event {
            SealEvent::FileRead(Some(contents)) => event@ == SealEventView::FileRead(
                Some(contents@),
            ),
            SealEvent::FileRead(None) => event@ == SealEventView::FileRead(None),
            SealEvent::Sealed { failure } => event@ == (SealEventView::Sealed { failure }),
            SealEvent::Exported { written } => event@ == (SealEventView::Exported { written }),
        },
{
}

} // verus!
