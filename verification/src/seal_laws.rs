//! What holds of every sealing of the key.

use crate::provision::SGX_AESGCM_KEY_SIZE;
use crate::seal::{
    sealing_begun, sealing_stepped, EventView, PhaseView, SealedKeyView, SGX_PCL_GUID,
};
use crate::seqs::lemma_push_contains;
use crate::status::{SGX_ERROR_UNEXPECTED, SGX_SUCCESS};
use vstd::prelude::*;

verus! {

/// The sealing of a key after some events, in their order.
pub open spec fn sealing_run(room: u32, events: Seq<EventView>) -> SealedKeyView
    decreases events.len(),
{
    if events.len() == 0 {
        sealing_begun(room)
    } else {
        sealing_stepped(sealing_run(room, events.drop_last()), events.last())
    }
}

/// Whether, in the course of a sealing, `event` answered `phase`.
pub open spec fn sealing_answered(
    room: u32,
    events: Seq<EventView>,
    phase: PhaseView,
    event: EventView,
) -> bool {
    exists|i: int|
        0 <= i < events.len() && #[trigger] events[i] == event && sealing_run(
            room,
            events.take(i),
        ).phase == phase
}

/// Whether the file was read when it was asked for, and held a key.
pub open spec fn key_read(room: u32, events: Seq<EventView>, key: Seq<u8>) -> bool {
    &&& sealing_answered(
        room,
        events,
        PhaseView::ReadKeyFile,
        EventView::FileRead(Some(key)),
    )
    &&& key.len() == SGX_AESGCM_KEY_SIZE
}

/// Whether a key was read, and sealed with the identifier beside it.
pub open spec fn key_sealed(room: u32, events: Seq<EventView>, key: Seq<u8>) -> bool {
    &&& key_read(room, events, key)
    &&& sealing_answered(
        room,
        events,
        PhaseView::Seal { aad: SGX_PCL_GUID@, key },
        EventView::Sealed { failure: None },
    )
}

/// Whether a key was read and sealed, and its sealed form was written to the caller's buffer.
pub open spec fn handed_out(room: u32, events: Seq<EventView>) -> bool {
    &&& some_sealed(room, events)
    &&& sealing_answered(
        room,
        events,
        PhaseView::Export { room },
        EventView::Exported { written: true },
    )
}

/// Whether some key was read and sealed.
pub open spec fn some_sealed(room: u32, events: Seq<EventView>) -> bool {
    exists|key: Seq<u8>| #[trigger] key_sealed(room, events, key)
}

/// What the events say of a phase that they led to.
spec fn accounted(room: u32, events: Seq<EventView>, phase: PhaseView) -> bool {
    match phase {
        PhaseView::ReadKeyFile => true,
        PhaseView::Seal { aad, key } => aad == SGX_PCL_GUID@ && key_read(room, events, key),
        PhaseView::Export { room: given } => given == room && some_sealed(room, events),
        PhaseView::Finished { status } => status == SGX_SUCCESS && !events.contains(
            EventView::Sealed { failure: Some(SGX_SUCCESS) },
        ) ==> handed_out(room, events),
    }
}

proof fn lemma_run_accounted(room: u32, events: Seq<EventView>)
    ensures
        sealing_run(room, events).room == room,
        accounted(room, events, sealing_run(room, events).phase),
    decreases events.len(),
{
    if events.len() > 0 {
        let before = events.drop_last();
        let event = events.last();
        lemma_run_accounted(room, before);
        assert forall|phase: PhaseView, e: EventView| #[trigger]
            sealing_answered(room, before, phase, e) implies sealing_answered(
            room,
            events,
            phase,
            e,
        ) by {
            let i = choose|i: int|
                0 <= i < before.len() && #[trigger] before[i] == e && sealing_run(
                    room,
                    before.take(i),
                ).phase == phase;
            assert(events[i] == e && events.take(i) == before.take(i));
        }
        assert(sealing_answered(room, events, sealing_run(room, before).phase, event)) by {
            assert(events[events.len() - 1] == event && events.take(events.len() - 1) == before);
        }
        assert(before.push(event) == events);
        lemma_push_contains(before, event);
        if some_sealed(room, before) {
            let key = choose|key: Seq<u8>| #[trigger] key_sealed(room, before, key);
            assert(key_sealed(room, events, key));
        }
        if let PhaseView::Seal { key, .. } = sealing_run(room, before).phase {
            if event == (EventView::Sealed { failure: None }) {
                assert(key_sealed(room, events, key));
            }
        }
    }
}

/// What is sealed is the key that was read from its file, with the identifier beside it.
pub proof fn law_read_key_is_sealed(room: u32, events: Seq<EventView>)
    ensures
        sealing_run(room, events).phase matches PhaseView::Seal { aad, key } ==> aad
            == SGX_PCL_GUID@ && key_read(room, events, key),
{
    lemma_run_accounted(room, events);
}

/// A key is only handed out with success when it was read whole, sealed, and written to the
/// caller's buffer, as long as the platform never fails to seal with the status of success.
pub proof fn law_success_means_handed_out(room: u32, events: Seq<EventView>)
    requires
        !events.contains(EventView::Sealed { failure: Some(SGX_SUCCESS) }),
    ensures
        sealing_run(room, events).phase == (PhaseView::Finished { status: SGX_SUCCESS })
            ==> handed_out(room, events),
{
    lemma_run_accounted(room, events);
}

/// A file that does not hold a key of the right size is refused.
pub proof fn law_other_files_are_refused(room: u32, contents: Seq<u8>)
    requires
        contents.len() != SGX_AESGCM_KEY_SIZE,
    ensures
        sealing_stepped(sealing_begun(room), EventView::FileRead(Some(contents))).phase == (
        PhaseView::Finished { status: SGX_ERROR_UNEXPECTED }),
{
}

} // verus!
