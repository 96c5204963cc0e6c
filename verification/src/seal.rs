//! Handing out the key, sealed to the platform.
//!
//! A [`SealedKey`] says by its phase what the caller has to do next, and takes what came of
//! it.

use crate::provision::SGX_AESGCM_KEY_SIZE;
use crate::status::{
    SgxStatus, SGX_ERROR_INVALID_PARAMETER, SGX_ERROR_UNEXPECTED, SGX_SUCCESS,
};
use vstd::prelude::*;

verus! {

/// The size of the identifier that is sealed in with the key.
pub const SGX_PCL_GUID_SIZE: usize = 16;

/// The size of sealed data beside the text that is sealed.
pub const SEALED_DATA_SIZE: u32 = 560;

/// The size of the sealed key.
pub const PCL_SEALED_KEY_SIZE: usize = 560 + SGX_AESGCM_KEY_SIZE + SGX_PCL_GUID_SIZE;

/// The identifier that is sealed in with the key.
pub const SGX_PCL_GUID: [u8; 16] = [
    0x95, 0x48, 0x6e, 0x8f, 0x8f, 0x4a, 0x41, 0x4f, 0xb1, 0x27, 0x46, 0x21, 0xa8, 0x59, 0xa8, 0xac,
];

/// The size of the sealed form of an encrypted text and of a text beside it that is only
/// authenticated; the greatest number where there is no such size.
pub open spec fn sealed_size(add_mac_txt_size: u32, encrypt_txt_size: u32) -> u32 {
    if SEALED_DATA_SIZE + add_mac_txt_size + encrypt_txt_size <= u32::MAX {
        (SEALED_DATA_SIZE + add_mac_txt_size + encrypt_txt_size) as u32
    } else {
        u32::MAX
    }
}

/// The size of the sealed form of an encrypted text and of a text beside it.
pub fn calc_raw_sealed_data_size(add_mac_txt_size: u32, encrypt_txt_size: u32) -> (size: u32)
    ensures
        size == sealed_size(add_mac_txt_size, encrypt_txt_size),
{
    if add_mac_txt_size > u32::MAX - encrypt_txt_size {
        return u32::MAX;
    }
    let payload_size: u32 = add_mac_txt_size + encrypt_txt_size;
    if payload_size > u32::MAX - SEALED_DATA_SIZE {
        return u32::MAX;
    }
    SEALED_DATA_SIZE + payload_size
}

/// The room that the sealed key takes.
pub fn get_sealed_pcl_key_len() -> (len: u32)
    ensures
        len == PCL_SEALED_KEY_SIZE,
        len == sealed_size(SGX_PCL_GUID_SIZE as u32, SGX_AESGCM_KEY_SIZE as u32),
{
    calc_raw_sealed_data_size(SGX_PCL_GUID_SIZE as u32, SGX_AESGCM_KEY_SIZE as u32)
}

/// What has to be done next.
pub enum Phase {
    /// Read the key file.
    ReadKeyFile,
    /// Seal `key`, with `aad` authenticated beside it.
    Seal { aad: [u8; 16], key: [u8; 16] },
    /// Write the sealed key to the caller's buffer of `room` bytes.
    Export { room: u32 },
    /// Nothing: this is the status to return.
    Finished { status: SgxStatus },
}

/// What came of the last thing that was done.
pub enum Event {
    /// The key file was read, or could not be.
    FileRead(Option<Vec<u8>>),
    /// The key was sealed, or not.
    Sealed { failure: Option<SgxStatus> },
    /// The sealed key was written, or did not fit.
    Exported { written: bool },
}

/// The mathematical form of a [`Phase`].
#[verifier::ext_equal]
pub enum PhaseView {
    ReadKeyFile,
    Seal { aad: Seq<u8>, key: Seq<u8> },
    Export { room: u32 },
    Finished { status: SgxStatus },
}

/// The mathematical form of an [`Event`].
#[verifier::ext_equal]
pub enum EventView {
    FileRead(Option<Seq<u8>>),
    Sealed { failure: Option<SgxStatus> },
    Exported { written: bool },
}

impl View for Phase {
    type V = PhaseView;

    open spec fn view(&self) -> PhaseView {
        match *self {
            Phase::ReadKeyFile => PhaseView::ReadKeyFile,
            Phase::Seal { aad, key } => PhaseView::Seal { aad: aad@, key: key@ },
            Phase::Export { room } => PhaseView::Export { room },
            Phase::Finished { status } => PhaseView::Finished { status },
        }
    }
}

impl View for Event {
    type V = EventView;

    open spec fn view(&self) -> EventView {
        match *self {
            Event::FileRead(contents) => EventView::FileRead(
                match contents {
                    Some(bytes) => Some(bytes@),
                    None => None,
                },
            ),
            Event::Sealed { failure } => EventView::Sealed { failure },
            Event::Exported { written } => EventView::Exported { written },
        }
    }
}

/// What has to be done after `phase`, given what came of it, for a buffer of `room` bytes.
/// An event that does not answer the phase changes nothing.
pub open spec fn next_phase(room: u32, phase: PhaseView, event: EventView) -> PhaseView {
    match (phase, event) {
        (PhaseView::ReadKeyFile, EventView::FileRead(contents)) => match contents {
            Some(key) if key.len() == SGX_AESGCM_KEY_SIZE => PhaseView::Seal {
                aad: SGX_PCL_GUID@,
                key,
            },
            _ => PhaseView::Finished { status: SGX_ERROR_UNEXPECTED },
        },
        (PhaseView::Seal { .. }, EventView::Sealed { failure }) => match failure {
            Some(status) => PhaseView::Finished { status },
            None => PhaseView::Export { room },
        },
        (PhaseView::Export { .. }, EventView::Exported { written }) => PhaseView::Finished {
            status: if written {
                SGX_SUCCESS
            } else {
                SGX_ERROR_INVALID_PARAMETER
            },
        },
        (unanswered, _) => unanswered,
    }
}

/// The key in the contents of its file: all of them, if they are as long as a key.
pub fn key_from_file(contents: &[u8]) -> (key: Option<[u8; 16]>)
    ensures
        match key {
            Some(k) => contents@.len() == SGX_AESGCM_KEY_SIZE && k@ == contents@,
            None => contents@.len() != SGX_AESGCM_KEY_SIZE,
        },
{
    if contents.len() != SGX_AESGCM_KEY_SIZE {
        return None;
    }
    let mut key: [u8; 16] = [0u8;16];
    let mut i: usize = 0;
    while i < SGX_AESGCM_KEY_SIZE
        invariant
            i <= SGX_AESGCM_KEY_SIZE == contents@.len(),
            forall|j: int| 0 <= j < i ==> key@[j] == contents@[j],
        decreases SGX_AESGCM_KEY_SIZE - i,
    {
        key[i] = contents[i];
        i += 1;
    }
    assert(key@ == contents@);
    Some(key)
}

/// A sealed key on its way to a caller's buffer.
pub struct SealedKey {
    room: u32,
    phase: Phase,
}

/// The mathematical form of a [`SealedKey`].
#[verifier::ext_equal]
pub struct SealedKeyView {
    pub room: u32,
    pub phase: PhaseView,
}

impl View for SealedKey {
    type V = SealedKeyView;

    closed spec fn view(&self) -> SealedKeyView {
        SealedKeyView { room: self.room, phase: self.phase@ }
    }
}

/// A sealed key that nothing was done for yet, for a buffer of `room` bytes.
pub open spec fn sealing_begun(room: u32) -> SealedKeyView {
    SealedKeyView { room, phase: PhaseView::ReadKeyFile }
}

/// A sealed key on its way, after an event.
pub open spec fn sealing_stepped(s: SealedKeyView, event: EventView) -> SealedKeyView {
    SealedKeyView { phase: next_phase(s.room, s.phase, event), ..s }
}

impl SealedKey {
    /// Begins to seal the key for a caller's buffer of `room` bytes.
    pub fn new(room: u32) -> (s: SealedKey)
        ensures
            s@ == sealing_begun(room),
    {
        SealedKey { room, phase: Phase::ReadKeyFile }
    }

    /// What has to be done next.
    pub fn phase(&self) -> (phase: &Phase)
        ensures
            phase@ == self@.phase,
    {
        &self.phase
    }

    /// Takes what came of the last thing that was done.
    pub fn step(self, event: Event) -> (next: SealedKey)
        ensures
            next@ == sealing_stepped(self@, event@),
    {
        let SealedKey { room, phase } = self;
        let next = match (phase, event) {
            (Phase::ReadKeyFile, Event::FileRead(Some(contents))) => {
                match key_from_file(contents.as_slice()) {
                    Some(key) => Phase::Seal { aad: SGX_PCL_GUID, key },
                    None => Phase::Finished { status: SGX_ERROR_UNEXPECTED },
                }
            },
            (Phase::ReadKeyFile, Event::FileRead(None)) => Phase::Finished {
                status: SGX_ERROR_UNEXPECTED,
            },
            (Phase::Seal { .. }, Event::Sealed { failure: Some(status) }) => {
                Phase::Finished { status }
            },
            (Phase::Seal { .. }, Event::Sealed { failure: None }) => Phase::Export { room },
            (Phase::Export { .. }, Event::Exported { written }) => Phase::Finished {
                status: if written {
                    SGX_SUCCESS
                } else {
                    SGX_ERROR_INVALID_PARAMETER
                },
            },
            (unanswered, _) => unanswered,
        };
        SealedKey { room, phase: next }
    }
}

} // verus!
