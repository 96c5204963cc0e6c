//! The platform at work: each outcome with what it is the outcome of.

use crate::attestation::{EcPublicKey, Report, TargetInfo};
use crate::outside;
use crate::outside::sha256;
use crate::provision::EcPrivateKey;
use crate::status::{SgxStatus, SGX_ERROR_INVALID_PARAMETER, SGX_SUCCESS};
use sgx_tcrypto::SgxEccHandle;
use sgx_types::sgx_report_t;
use vstd::prelude::*;

verus! {

/// Calls a function with one argument, and tells that it was called.
fn call<A, R, F: Fn(A) -> R>(f: F, a: A) -> (r: R)
    requires
        call_requires(f, (a,)),
    ensures
        call_ensures(f, (a,), r),
{
    f(a)
}

/// Calls a function with two arguments, and tells that it was called.
fn call_with<A, B, R, F: Fn(A, B) -> R>(f: F, a: A, b: B) -> (r: R)
    requires
        call_requires(f, (a, b)),
    ensures
        call_ensures(f, (a, b), r),
{
    f(a, b)
}

/// Whether `outcome` is what came of hashing `bytes`: an outcome of [`outside::sha256_slice`] on
/// them.
pub closed spec fn hash_came(bytes: Seq<u8>, outcome: Result<[u8; 32], SgxStatus>) -> bool {
    exists|s: &[u8]| #[trigger] s@ == bytes && call_ensures(outside::sha256_slice, (s,), outcome)
}

/// Has the platform hash some bytes.
pub(crate) fn hash_bytes(bytes: &[u8]) -> (outcome: Result<[u8; 32], SgxStatus>)
    ensures
        hash_came(bytes@, outcome),
        outcome matches Ok(d) ==> d@ == sha256(bytes@),
        outcome matches Ok(_) ==> 0 < bytes@.len() <= u32::MAX,
        outcome matches Err(e) ==> e != SGX_SUCCESS,
        !(0 < bytes@.len() <= u32::MAX) ==> (outcome matches Err(e) && e
            == SGX_ERROR_INVALID_PARAMETER),
{
    call(outside::sha256_slice, bytes)
}

/// Whether `failure` is what came of verifying `report`: an outcome of
/// [`outside::verify_report`] on it.
pub closed spec fn verification_came(report: Report, failure: Option<SgxStatus>) -> bool {
    call_ensures(outside::verify_report, (&report,), failure)
}

/// Has the platform verify a report.
pub(crate) fn verify_report(report: &Report) -> (failure: Option<SgxStatus>)
    ensures
        verification_came(*report, failure),
        failure != Some(SGX_SUCCESS),
{
    call(outside::verify_report, report)
}

/// Whether `created` is what came of creating a report for `target` over `data`: an outcome of
/// [`outside::create_report`] on them.
pub closed spec fn report_came_for(
    target: TargetInfo,
    data: Seq<u8>,
    created: Result<sgx_report_t, SgxStatus>,
) -> bool {
    exists|d: [u8; 64]| #[trigger]
        d@ == data && call_ensures(outside::create_report, (&target, &d), created)
}

/// Has the platform create a report for a target over some data.
pub(crate) fn create_report(target: &TargetInfo, data: &[u8; 64]) -> (created: Result<
    sgx_report_t,
    SgxStatus,
>)
    ensures
        report_came_for(*target, data@, created),
        created matches Err(e) ==> e != SGX_SUCCESS,
{
    call_with(outside::create_report, target, data)
}

/// Whether `made` is what came of making a key pair with `handle`: an outcome of
/// [`outside::create_key_pair`] on it.
pub closed spec fn key_pair_came(
    handle: SgxEccHandle,
    made: Result<(EcPublicKey, EcPrivateKey), SgxStatus>,
) -> bool {
    call_ensures(outside::create_key_pair, (&handle,), made)
}

/// Has the platform make a key pair.
pub(crate) fn create_key_pair(handle: &SgxEccHandle) -> (made: Result<
    (EcPublicKey, EcPrivateKey),
    SgxStatus,
>)
    ensures
        key_pair_came(*handle, made),
        made matches Err(e) ==> e != SGX_SUCCESS,
{
    call(outside::create_key_pair, handle)
}

/// What came of the platform came of a call with the very arguments.
pub(crate) proof fn law_outcomes_are_of_calls(
    report: Report,
    failure: Option<SgxStatus>,
    handle: SgxEccHandle,
    made: Result<(EcPublicKey, EcPrivateKey), SgxStatus>,
    target: TargetInfo,
    data: [u8; 64],
    created: Result<sgx_report_t, SgxStatus>,
    bytes: &[u8],
    outcome: Result<[u8; 32], SgxStatus>,
)
    ensures
        verification_came(report, failure) <==> call_ensures(
            outside::verify_report,
            (&report,),
            failure,
        ),
        key_pair_came(handle, made) <==> call_ensures(outside::create_key_pair, (&handle,), made),
        report_came_for(target, data@, created) ==> exists|d: [u8; 64]| #[trigger]
            d@ == data@ && call_ensures(outside::create_report, (&target, &d), created),
        hash_came(bytes@, outcome) ==> exists|s: &[u8]| #[trigger]
            s@ == bytes@ && call_ensures(outside::sha256_slice, (s,), outcome),
{
}

} // verus!
