//! What holds of every provisioning, and of the key from its arrival to its sealing.

use crate::attestation::{
    begun, hashed, reported, stepped, verified, Abort, AttestationView, EcPublicKey,
    EventView as AttestationEventView, PhaseView as AttestationPhaseView,
};
use crate::attestation_laws::{
    digest_is_true, digests_are_true, law_creating_takes_an_answer, law_done_means_vouched,
    law_failure_is_no_success, law_hashing_takes_true_digests, law_verifying_takes_an_answer, run,
    vouched_report_came,
};
use crate::platform::key_pair_came;
use crate::provision::{
    after_attestation, paired, payload_text, provision_begun, provision_hashed,
    provision_reported, provision_stepped, provision_verified, EcPrivateKey, EventView, PhaseView,
    ProvisionView, SGX_AESGCM_KEY_SIZE,
};
use crate::seal::{
    sealing_begun, sealing_stepped, EventView as SealEventView, PhaseView as SealPhaseView,
    SGX_PCL_GUID,
};
use crate::seqs::lemma_push_contains;
use crate::status::{SgxStatus, SGX_ERROR_UNEXPECTED, SGX_SUCCESS};
use sgx_tcrypto::SgxEccHandle;
use sgx_types::sgx_report_t;
use vstd::prelude::*;

verus! {

/// A provisioning after some events, in their order.
pub open spec fn provision_run(sign_type: u32, events: Seq<EventView>) -> ProvisionView
    decreases events.len(),
{
    if events.len() == 0 {
        provision_begun(sign_type)
    } else {
        provision_stepped(provision_run(sign_type, events.drop_last()), events.last())
    }
}

/// The events that the attestation of a provisioning was given.
pub open spec fn attestation_events(sign_type: u32, events: Seq<EventView>) -> Seq<
    AttestationEventView,
>
    decreases events.len(),
{
    if events.len() == 0 {
        Seq::empty()
    } else {
        let before = attestation_events(sign_type, events.drop_last());
        match (provision_run(sign_type, events.drop_last()).phase, events.last()) {
            (PhaseView::Attest { .. }, EventView::Attestation(came)) => before.push(came),
            _ => before,
        }
    }
}

/// The attestation of a key after some events.
#[verifier::opaque]
pub open spec fn attestation_after(
    sign_type: u32,
    key: EcPublicKey,
    given: Seq<AttestationEventView>,
) -> AttestationView {
    run(begun(key, sign_type), given)
}

/// The attestation of the key pair begins when the key pair was made, and takes one event at
/// a time.
proof fn lemma_attestation_after(
    sign_type: u32,
    key: EcPublicKey,
    given: Seq<AttestationEventView>,
    came: AttestationEventView,
)
    ensures
        attestation_after(sign_type, key, Seq::empty()) == begun(key, sign_type),
        attestation_after(sign_type, key, given.push(came)) == stepped(
            attestation_after(sign_type, key, given),
            came,
        ),
{
    reveal(attestation_after);
    assert(given.push(came).drop_last() == given);
}

/// Whether, in the course of a provisioning, `event` answered `phase`.
#[verifier::opaque]
pub open spec fn provision_answered(
    sign_type: u32,
    events: Seq<EventView>,
    phase: PhaseView,
    event: EventView,
) -> bool {
    exists|i: int|
        0 <= i < events.len() && #[trigger] events[i] == event && provision_run(
            sign_type,
            events.take(i),
        ).phase == phase
}

/// Whether a key pair was made when one was asked for.
pub open spec fn pair_made(
    sign_type: u32,
    events: Seq<EventView>,
    public: EcPublicKey,
    private: EcPrivateKey,
) -> bool {
    provision_answered(
        sign_type,
        events,
        PhaseView::CreateKeyPair,
        EventView::KeyPair(Ok((public, private))),
    )
}

/// Whether a key pair was made, its attestation came to an end with a report, and `payload`
/// is what the report, its signature and its certificate make.
pub open spec fn payload_attested(
    sign_type: u32,
    events: Seq<EventView>,
    public: EcPublicKey,
    private: EcPrivateKey,
    payload: Seq<char>,
) -> bool {
    &&& pair_made(sign_type, events, public, private)
    &&& attestation_after(
        sign_type,
        public,
        attestation_events(sign_type, events),
    ).phase matches AttestationPhaseView::Done { attn_report, signature, certificate }
    &&& payload == payload_text(attn_report, signature, certificate)
}

/// Whether a certificate was made for an attested key pair, with what its attestation gave.
pub open spec fn certified(
    sign_type: u32,
    events: Seq<EventView>,
    public: EcPublicKey,
    private: EcPrivateKey,
    payload: Seq<char>,
    key_der: Seq<u8>,
    cert_der: Seq<u8>,
) -> bool {
    &&& payload_attested(sign_type, events, public, private, payload)
    &&& provision_answered(
        sign_type,
        events,
        PhaseView::MakeCert { payload, public, private },
        EventView::CertMade(Ok((key_der, cert_der))),
    )
}

/// Whether a certificate was made for some attested key pair.
pub open spec fn some_certified(
    sign_type: u32,
    events: Seq<EventView>,
    key_der: Seq<u8>,
    cert_der: Seq<u8>,
) -> bool {
    exists|public: EcPublicKey, private: EcPrivateKey, payload: Seq<char>| #[trigger]
        certified(sign_type, events, public, private, payload, key_der, cert_der)
}

/// Whether the key server, when it was shown a certificate, sent a key of the right size.
pub open spec fn sent_for(
    sign_type: u32,
    events: Seq<EventView>,
    key_der: Seq<u8>,
    cert_der: Seq<u8>,
    key: Seq<u8>,
) -> bool {
    &&& some_certified(sign_type, events, key_der, cert_der)
    &&& provision_answered(
        sign_type,
        events,
        PhaseView::ReceiveKey { key_der, cert_der },
        EventView::KeyReceived(Some(key)),
    )
    &&& key.len() == SGX_AESGCM_KEY_SIZE
}

/// Whether the key server, when it was shown some certificate of an attested key pair, sent a
/// key of the right size.
pub open spec fn delivered(sign_type: u32, events: Seq<EventView>, key: Seq<u8>) -> bool {
    exists|key_der: Seq<u8>, cert_der: Seq<u8>| #[trigger]
        sent_for(sign_type, events, key_der, cert_der, key)
}

/// Whether the key server was told that a key has arrived.
pub open spec fn acknowledged(sign_type: u32, events: Seq<EventView>, key: Seq<u8>) -> bool {
    provision_answered(
        sign_type,
        events,
        PhaseView::Acknowledge { key },
        EventView::Acknowledged,
    )
}

/// Whether a key was delivered, acknowledged and stored.
pub open spec fn key_stored(sign_type: u32, events: Seq<EventView>, key: Seq<u8>) -> bool {
    &&& delivered(sign_type, events, key)
    &&& acknowledged(sign_type, events, key)
    &&& provision_answered(
        sign_type,
        events,
        PhaseView::StoreKey { key },
        EventView::KeyStored { written: true },
    )
}

/// Whether some key was delivered, acknowledged and stored.
pub open spec fn provisioned(sign_type: u32, events: Seq<EventView>) -> bool {
    exists|key: Seq<u8>| #[trigger] key_stored(sign_type, events, key)
}

/// Whether no failure was reported with the status of success.
pub open spec fn failures_are_failures(events: Seq<EventView>) -> bool {
    &&& !events.contains(EventView::CertMade(Err(SGX_SUCCESS)))
    &&& !events.contains(
        EventView::Attestation(
            AttestationEventView::ReportVerified { failure: Some(SGX_SUCCESS) },
        ),
    )
}

/// What the events say of a phase that they led to.
spec fn accounted(sign_type: u32, events: Seq<EventView>, phase: PhaseView) -> bool {
    match phase {
        PhaseView::CreateKeyPair => attestation_events(sign_type, events).len() == 0,
        PhaseView::Attest { public, private, attestation } => {
            &&& pair_made(sign_type, events, public, private)
            &&& attestation == attestation_after(
                sign_type,
                public,
                attestation_events(sign_type, events),
            )
        },
        PhaseView::MakeCert { payload, public, private } => payload_attested(
            sign_type,
            events,
            public,
            private,
            payload,
        ),
        PhaseView::ReceiveKey { key_der, cert_der } => some_certified(
            sign_type,
            events,
            key_der,
            cert_der,
        ),
        PhaseView::Acknowledge { key } => delivered(sign_type, events, key),
        PhaseView::StoreKey { key } => delivered(sign_type, events, key) && acknowledged(
            sign_type,
            events,
            key,
        ),
        PhaseView::Finished { status } => status == SGX_SUCCESS && failures_are_failures(events)
            ==> provisioned(sign_type, events),
        PhaseView::Aborted { .. } => true,
    }
}

/// What the attestation was given, the provisioning was given.
proof fn lemma_attestation_events_are_events(
    sign_type: u32,
    events: Seq<EventView>,
    came: AttestationEventView,
)
    requires
        attestation_events(sign_type, events).contains(came),
    ensures
        events.contains(EventView::Attestation(came)),
    decreases events.len(),
{
    if events.len() > 0 {
        let before = events.drop_last();
        lemma_push_contains(before, events.last());
        assert(before.push(events.last()) == events);
        let given = attestation_events(sign_type, before);
        if given.contains(came) {
            lemma_attestation_events_are_events(sign_type, before, came);
        } else {
            let all = attestation_events(sign_type, events);
            let i = choose|i: int| 0 <= i < all.len() && all[i] == came;
            if i < given.len() {
                assert(given[i] == came);
            }
        }
    }
}

/// What was answered in the course of a provisioning stays answered, and the last event
/// answered the phase before it.
proof fn lemma_answered_grows(sign_type: u32, events: Seq<EventView>, event: EventView)
    ensures
        forall|phase: PhaseView, e: EventView| #[trigger]
            provision_answered(sign_type, events, phase, e) ==> provision_answered(
                sign_type,
                events.push(event),
                phase,
                e,
            ),
        provision_answered(
            sign_type,
            events.push(event),
            provision_run(sign_type, events).phase,
            event,
        ),
{
    reveal(provision_answered);
    let more = events.push(event);
    assert forall|phase: PhaseView, e: EventView| #[trigger]
        provision_answered(sign_type, events, phase, e) implies provision_answered(
        sign_type,
        more,
        phase,
        e,
    ) by {
        let i = choose|i: int|
            0 <= i < events.len() && #[trigger] events[i] == e && provision_run(
                sign_type,
                events.take(i),
            ).phase == phase;
        assert(more[i] == e && more.take(i) == events.take(i));
    }
    assert(more[events.len() as int] == event && more.take(events.len() as int) == events);
}

/// What the events of a provisioning say stays said when one more comes that the attestation
/// is not given.
proof fn lemma_said_stays(sign_type: u32, events: Seq<EventView>, event: EventView)
    requires
        attestation_events(sign_type, events.push(event)) == attestation_events(
            sign_type,
            events,
        ),
    ensures
        forall|key_der: Seq<u8>, cert_der: Seq<u8>| #[trigger]
            some_certified(sign_type, events, key_der, cert_der) ==> some_certified(
                sign_type,
                events.push(event),
                key_der,
                cert_der,
            ),
        forall|key: Seq<u8>| #[trigger]
            delivered(sign_type, events, key) ==> delivered(sign_type, events.push(event), key),
        provisioned(sign_type, events) ==> provisioned(sign_type, events.push(event)),
{
    let more = events.push(event);
    lemma_answered_grows(sign_type, events, event);
    assert forall|key_der: Seq<u8>, cert_der: Seq<u8>| #[trigger]
        some_certified(sign_type, events, key_der, cert_der) implies some_certified(
        sign_type,
        more,
        key_der,
        cert_der,
    ) by {
        let (public, private, payload) = choose|
            public: EcPublicKey,
            private: EcPrivateKey,
            payload: Seq<char>,
        | #[trigger]
            certified(sign_type, events, public, private, payload, key_der, cert_der);
        assert(certified(sign_type, more, public, private, payload, key_der, cert_der));
    }
    assert forall|key: Seq<u8>| #[trigger] delivered(sign_type, events, key) implies delivered(
        sign_type,
        more,
        key,
    ) by {
        let (key_der, cert_der) = choose|key_der: Seq<u8>, cert_der: Seq<u8>| #[trigger]
            sent_for(sign_type, events, key_der, cert_der, key);
        assert(sent_for(sign_type, more, key_der, cert_der, key));
    }
    if provisioned(sign_type, events) {
        let key = choose|key: Seq<u8>| #[trigger] key_stored(sign_type, events, key);
        assert(key_stored(sign_type, more, key));
    }
}

/// An event that the attestation is given.
proof fn lemma_attestation_step(
    sign_type: u32,
    before: Seq<EventView>,
    public: EcPublicKey,
    private: EcPrivateKey,
    attestation: AttestationView,
    came: AttestationEventView,
)
    requires
        provision_run(sign_type, before).phase == (PhaseView::Attest {
            public,
            private,
            attestation,
        }),
        accounted(sign_type, before, provision_run(sign_type, before).phase),
    ensures
        accounted(
            sign_type,
            before.push(EventView::Attestation(came)),
            after_attestation(public, private, stepped(attestation, came)),
        ),
{
    let event = EventView::Attestation(came);
    let events = before.push(event);
    assert(events.drop_last() == before);
    lemma_answered_grows(sign_type, before, event);
    let given = attestation_events(sign_type, before);
    let all = given.push(came);
    assert(attestation_events(sign_type, events) == all);
    let next = stepped(attestation, came);
    lemma_attestation_after(sign_type, public, given, came);
    if let AttestationPhaseView::Failed { status } = next.phase {
        if failures_are_failures(events) {
            let refusal = AttestationEventView::ReportVerified { failure: Some(SGX_SUCCESS) };
            if all.contains(refusal) {
                lemma_attestation_events_are_events(sign_type, events, refusal);
            }
            law_failure_is_no_success(public, sign_type, all);
            reveal(attestation_after);
        }
    }
}

/// An event that the attestation is not given.
proof fn lemma_other_step(sign_type: u32, before: Seq<EventView>, event: EventView)
    requires
        provision_run(sign_type, before).sign_type == sign_type,
        accounted(sign_type, before, provision_run(sign_type, before).phase),
        !(provision_run(sign_type, before).phase is Attest && event is Attestation),
    ensures
        accounted(
            sign_type,
            before.push(event),
            provision_stepped(provision_run(sign_type, before), event).phase,
        ),
{
    let events = before.push(event);
    assert(events.drop_last() == before);
    let given = attestation_events(sign_type, before);
    assert(attestation_events(sign_type, events) == given);
    lemma_answered_grows(sign_type, before, event);
    lemma_said_stays(sign_type, before, event);
    lemma_push_contains(before, event);
    match (provision_run(sign_type, before).phase, event) {
        (PhaseView::CreateKeyPair, EventView::KeyPair(Ok((public, _)))) => {
            assert(given == Seq::<AttestationEventView>::empty());
            lemma_attestation_after(sign_type, public, given, arbitrary());
        },
        (
            PhaseView::MakeCert { payload, public, private },
            EventView::CertMade(Ok((key_der, cert_der))),
        ) => {
            assert(certified(sign_type, events, public, private, payload, key_der, cert_der));
        },
        (PhaseView::ReceiveKey { key_der, cert_der }, EventView::KeyReceived(Some(key))) => {
            if key.len() == SGX_AESGCM_KEY_SIZE {
                assert(sent_for(sign_type, events, key_der, cert_der, key));
            }
        },
        (PhaseView::StoreKey { key }, EventView::KeyStored { written: true }) => {
            assert(key_stored(sign_type, events, key));
        },
        _ => {},
    }
}

proof fn lemma_run_accounted(sign_type: u32, events: Seq<EventView>)
    ensures
        provision_run(sign_type, events).sign_type == sign_type,
        accounted(sign_type, events, provision_run(sign_type, events).phase),
    decreases events.len(),
{
    if events.len() > 0 {
        let before = events.drop_last();
        let event = events.last();
        lemma_run_accounted(sign_type, before);
        assert(before.push(event) == events);
        match (provision_run(sign_type, before).phase, event) {
            (
                PhaseView::Attest { public, private, attestation },
                EventView::Attestation(came),
            ) => {
                lemma_attestation_step(sign_type, before, public, private, attestation, came);
            },
            _ => {
                lemma_other_step(sign_type, before, event);
            },
        }
    }
}

/// Letting the platform make a key pair is taking its answer: a provisioning that went on so
/// went on by an event that tells what the platform made.
pub proof fn law_pairing_takes_an_answer(
    handle: SgxEccHandle,
    p: ProvisionView,
    next: ProvisionView,
)
    requires
        paired(handle, p, next),
    ensures
        exists|made: Result<(EcPublicKey, EcPrivateKey), SgxStatus>|
            (made matches Err(e) ==> e != SGX_SUCCESS) && (p.phase is CreateKeyPair
                ==> key_pair_came(handle, made)) && next == #[trigger] provision_stepped(
                p,
                EventView::KeyPair(made),
            ),
{
    let made = match (p.phase, next.phase) {
        (PhaseView::CreateKeyPair, PhaseView::Attest { public, private, .. }) => Ok(
            (public, private),
        ),
        (PhaseView::CreateKeyPair, PhaseView::Aborted { cause: Abort::KeyPair(e) }) => Err(e),
        _ => Err(SGX_ERROR_UNEXPECTED),
    };
    assert(next == provision_stepped(p, EventView::KeyPair(made)));
}

/// What the platform does for the attestation of a provisioning is an event of the
/// attestation, with a true digest if it is a digest.
pub proof fn law_platform_answers_attestation(
    p: ProvisionView,
    next: ProvisionView,
    attestation: AttestationView,
)
    requires
        p.phase matches PhaseView::Attest { attestation: under_way, .. } && under_way
            == attestation,
        provision_reported(p, next) || provision_verified(p, next) || provision_hashed(p, next),
    ensures
        exists|came: AttestationEventView| #[trigger]
            digest_is_true(attestation.phase, came) && next == provision_stepped(
                p,
                EventView::Attestation(came),
            ),
{
    if let PhaseView::Attest { public, private, .. } = p.phase {
        let came = if provision_reported(p, next) {
            let after = choose|after: AttestationView| #[trigger]
                reported(attestation, after) && next.phase == after_attestation(
                    public,
                    private,
                    after,
                );
            law_creating_takes_an_answer(attestation, after);
            let created = choose|created: Result<sgx_report_t, SgxStatus>|
                after == #[trigger] stepped(
                    attestation,
                    AttestationEventView::ReportCreated(created),
                );
            AttestationEventView::ReportCreated(created)
        } else if provision_verified(p, next) {
            let after = choose|after: AttestationView| #[trigger]
                verified(attestation, after) && next.phase == after_attestation(
                    public,
                    private,
                    after,
                );
            law_verifying_takes_an_answer(attestation, after);
            let failure = choose|failure: Option<SgxStatus>|
                after == #[trigger] stepped(
                    attestation,
                    AttestationEventView::ReportVerified { failure },
                );
            AttestationEventView::ReportVerified { failure }
        } else {
            let after = choose|after: AttestationView| #[trigger]
                hashed(attestation, after) && next.phase == after_attestation(
                    public,
                    private,
                    after,
                );
            law_hashing_takes_true_digests(attestation, after);
            choose|event: AttestationEventView| #[trigger]
                digest_is_true(attestation.phase, event) && after == stepped(attestation, event)
        };
        assert(digest_is_true(attestation.phase, came));
        assert(next == provision_stepped(p, EventView::Attestation(came)));
    }
}

/// The certificate is made for the key pair that was attested, and carries what its
/// attestation gave.
pub proof fn law_certificate_carries_attestation(sign_type: u32, events: Seq<EventView>)
    ensures
        provision_run(sign_type, events).phase matches PhaseView::MakeCert {
            payload,
            public,
            private,
        } ==> payload_attested(sign_type, events, public, private, payload),
{
    lemma_run_accounted(sign_type, events);
}

/// A key is only waited for with a certificate that was made for an attested key pair.
pub proof fn law_key_waits_for_attestation(sign_type: u32, events: Seq<EventView>)
    ensures
        provision_run(sign_type, events).phase matches PhaseView::ReceiveKey { key_der, cert_der }
            ==> some_certified(sign_type, events, key_der, cert_der),
{
    lemma_run_accounted(sign_type, events);
}

/// What a certificate carries is what the service said of a quote that was vouched for, if
/// the digests that were handed in are true.
pub proof fn law_attested_key_has_vouched_quote(
    sign_type: u32,
    events: Seq<EventView>,
    public: EcPublicKey,
    private: EcPrivateKey,
    payload: Seq<char>,
)
    requires
        payload_attested(sign_type, events, public, private, payload),
        digests_are_true(begun(public, sign_type), attestation_events(sign_type, events)),
    ensures
        exists|said: (Seq<char>, Seq<char>, Seq<char>)| #[trigger]
            vouched_report_came(
                begun(public, sign_type),
                attestation_events(sign_type, events),
                said,
            ) && payload == payload_text(said.0, said.1, said.2),
{
    reveal(attestation_after);
    let given = attestation_events(sign_type, events);
    law_done_means_vouched(public, sign_type, given);
    if let AttestationPhaseView::Done { attn_report, signature, certificate } = run(
        begun(public, sign_type),
        given,
    ).phase {
        let said = (attn_report, signature, certificate);
        assert(vouched_report_came(begun(public, sign_type), given, said));
    }
}

/// The key that is stored is the key that the key server sent for a certificate of an
/// attested key pair, has the size of a key, and was acknowledged.
pub proof fn law_stored_key_was_delivered(sign_type: u32, events: Seq<EventView>)
    ensures
        provision_run(sign_type, events).phase matches PhaseView::StoreKey { key } ==> delivered(
            sign_type,
            events,
            key,
        ) && acknowledged(sign_type, events, key),
{
    lemma_run_accounted(sign_type, events);
}

/// A provisioning that ends with success had a key delivered, acknowledged and stored, as
/// long as no failure is reported with the status of success.
pub proof fn law_success_means_provisioned(sign_type: u32, events: Seq<EventView>)
    requires
        failures_are_failures(events),
    ensures
        provision_run(sign_type, events).phase == (PhaseView::Finished { status: SGX_SUCCESS })
            ==> provisioned(sign_type, events),
{
    lemma_run_accounted(sign_type, events);
}

/// The key that a provisioning stores is the key that is sealed when its file is read back.
pub proof fn law_stored_key_is_sealed(
    sign_type: u32,
    events: Seq<EventView>,
    key: Seq<u8>,
    room: u32,
)
    requires
        provision_run(sign_type, events).phase == (PhaseView::StoreKey { key }),
    ensures
        sealing_stepped(sealing_begun(room), SealEventView::FileRead(Some(key))).phase == (
        SealPhaseView::Seal { aad: SGX_PCL_GUID@, key }),
{
    lemma_run_accounted(sign_type, events);
    let (key_der, cert_der) = choose|key_der: Seq<u8>, cert_der: Seq<u8>| #[trigger]
        sent_for(sign_type, events, key_der, cert_der, key);
    assert(key.len() == SGX_AESGCM_KEY_SIZE);
}

} // verus!
