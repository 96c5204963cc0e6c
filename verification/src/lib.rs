//! Provisioning of the key that unseals protected enclave code.
//!
//! An enclave proves to a key server what it is, receives the key, and hands it out
//! sealed. The modules hold every decision on that path; the caller performs the calls
//! to the platform, the network and the disk, and reports what came back.

pub mod attestation;
pub mod attestation_laws;
pub mod cert;
pub mod digest;
pub mod digits;
pub mod encoding;
pub mod hex;
pub mod http;
pub mod ias;
pub mod identity;
pub mod outside;
pub mod platform;
pub mod provision;
pub mod provision_laws;
pub mod reading_laws;
pub mod response_laws;
pub mod seal;
pub mod seal_laws;
pub mod seqs;
pub mod status;
pub mod step_laws;
pub mod text;
pub mod text_laws;
pub mod views;
pub mod writing_laws;
