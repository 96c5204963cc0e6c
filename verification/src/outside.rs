//! The calls into other crates and into std, each with what is relied on.

use crate::attestation::{EcPublicKey, Report, TargetInfo};
use crate::encoding::base64_text;
use crate::http::{
    plain_head_view, plain_header, plain_response, HeadStatus, HeadView, HeaderView, HttpHead,
    HttpHeader,
};
use crate::provision::EcPrivateKey;
use crate::status::{SgxStatus, SGX_ERROR_INVALID_PARAMETER, SGX_SUCCESS};
use sgx_tcrypto::SgxEccHandle;
use sgx_types::{
    sgx_attributes_t, sgx_cpu_svn_t, sgx_key_id_t, sgx_measurement_t, sgx_report_body_t,
    sgx_report_data_t, sgx_report_t, sgx_target_info_t,
};
use vstd::prelude::*;
use vstd::utf8::{decode_utf8, encode_utf8, valid_utf8};

verus! {

/// `String::push` adds one character at the end.
pub assume_specification[ String::push ](s: &mut String, c: char)
    ensures
        final(s)@ == old(s)@.push(c),
;

/// `std::str::from_utf8` gives the text that the bytes encode, and fails exactly where they
/// are no UTF-8.
#[verifier::external_body]
pub(crate) fn utf8_text(bytes: &[u8]) -> (text: Option<String>)
    ensures
        text is Some <==> valid_utf8(bytes@),
        text matches Some(t) ==> t@ == decode_utf8(bytes@),
{
    match std::str::from_utf8(bytes) {
        Ok(t) => Some(t.to_string()),
        Err(_) => None,
    }
}

/// What `httparse::Response::parse` leaves in a response with room for `max_headers`
/// headers, and what it returns.
pub uninterp spec fn http_head(resp: Seq<u8>, max_headers: nat) -> HeadView;

/// `httparse::Response::parse` on a response with room for `max_headers` headers. Its outcome
/// depends on the bytes and on the room alone, and it never reads past the end. Of a successful
/// response with plain headers, as many as there is room for at most, it reads these headers,
/// and the head ends where the body begins.
#[verifier::external_body]
pub(crate) fn parse_http_head(resp: &[u8], max_headers: usize) -> (head: HttpHead)
    requires
        max_headers <= 0x100,
    ensures
        head@ == http_head(resp@, max_headers as nat),
        head.status matches HeadStatus::Complete(n) ==> n <= resp@.len(),
        forall|headers: Seq<HeaderView>, body: Seq<u8>|
            resp@ == #[trigger] plain_response(headers, body) && headers.len() <= max_headers && (
            forall|i: int| 0 <= i < headers.len() ==> plain_header(#[trigger] headers[i]))
                ==> head@ == plain_head_view(headers),
{
    let mut room = vec![httparse::EMPTY_HEADER; max_headers];
    let mut parsed = httparse::Response::new(&mut room);
    let status = match parsed.parse(resp) {
        Ok(httparse::Status::Complete(n)) => HeadStatus::Complete(n),
        Ok(httparse::Status::Partial) => HeadStatus::Partial,
        Err(_) => HeadStatus::Invalid,
    };
    let mut headers = Vec::new();
    headers.extend(parsed.headers.iter().map(
        |h| HttpHeader { name: h.name.to_string(), value: h.value.to_vec() }));
    HttpHead { code: parsed.code, headers, status }
}

/// What `base64::decode` reads from some text, where it reads anything.
pub uninterp spec fn base64_decoded(text: Seq<char>) -> Option<Seq<u8>>;

/// `base64::encode` writes four characters of the standard alphabet for every three bytes,
/// padded with equals signs; `base64::decode` reads the same bytes back. It panics where the
/// text would be longer than a `String` can be.
#[verifier::external_body]
pub(crate) fn base64_encode(bytes: &[u8]) -> (text: String)
    requires
        4 * ((bytes@.len() + 2) / 3) <= isize::MAX,
    ensures
        text@ == base64_text(bytes@),
        base64_decoded(text@) == Some(bytes@),
{
    base64::encode(bytes)
}

/// `base64::decode` fails or succeeds, and what it gives, by the text alone; of the Base64 text
/// of some bytes it gives these bytes. It computes with four times the length of the text, which
/// has to fit.
#[verifier::external_body]
pub(crate) fn base64_decode(text: &str) -> (bytes: Option<Vec<u8>>)
    requires
        4 * encode_utf8(text@).len() <= usize::MAX,
    ensures
        bytes.deep_view() == base64_decoded(text@),
        forall|data: Seq<u8>|
            text@ == #[trigger] base64_text(data) ==> bytes.deep_view() == Some(data),
{
    match base64::decode(text) {
        Ok(b) => Some(b),
        Err(_) => None,
    }
}

/// The certificates that `rustls::internal::pemfile::certs` finds in a file.
pub uninterp spec fn pem_certs(file: Seq<u8>) -> Option<Seq<Seq<u8>>>;

/// `rustls::internal::pemfile::certs` finds certificates, or fails, by the bytes alone. It
/// reads lines lossily, which may make three bytes of one, and decodes them as Base64, which
/// computes with four times their length: twelve times the length of the file has to fit.
#[verifier::external_body]
pub(crate) fn read_pem_certs(file: &[u8]) -> (certs: Option<Vec<Vec<u8>>>)
    requires
        12 * file@.len() <= usize::MAX,
    ensures
        certs.deep_view() == pem_certs(file@),
{
    let mut reader = file;
    match rustls::internal::pemfile::certs(&mut reader) {
        Ok(found) => Some(found.into_iter().map(|c| c.0).collect()),
        Err(()) => None,
    }
}

/// The RSA keys that `rustls::internal::pemfile::rsa_private_keys` finds in a file.
pub uninterp spec fn pem_rsa_keys(file: Seq<u8>) -> Option<Seq<Seq<u8>>>;

/// `rustls::internal::pemfile::rsa_private_keys` finds keys, or fails, by the bytes alone; the
/// file is bounded as in [`read_pem_certs`].
#[verifier::external_body]
pub(crate) fn read_pem_rsa_keys(file: &[u8]) -> (keys: Option<Vec<Vec<u8>>>)
    requires
        12 * file@.len() <= usize::MAX,
    ensures
        keys.deep_view() == pem_rsa_keys(file@),
{
    let mut reader = file;
    match rustls::internal::pemfile::rsa_private_keys(&mut reader) {
        Ok(found) => Some(found.into_iter().map(|k| k.0).collect()),
        Err(()) => None,
    }
}

/// The PKCS#8 keys that `rustls::internal::pemfile::pkcs8_private_keys` finds in a file.
pub uninterp spec fn pem_pkcs8_keys(file: Seq<u8>) -> Option<Seq<Seq<u8>>>;

/// `rustls::internal::pemfile::pkcs8_private_keys` finds keys, or fails, by the bytes alone;
/// the file is bounded as in [`read_pem_certs`].
#[verifier::external_body]
pub(crate) fn read_pem_pkcs8_keys(file: &[u8]) -> (keys: Option<Vec<Vec<u8>>>)
    requires
        12 * file@.len() <= usize::MAX,
    ensures
        keys.deep_view() == pem_pkcs8_keys(file@),
{
    let mut reader = file;
    match rustls::internal::pemfile::pkcs8_private_keys(&mut reader) {
        Ok(found) => Some(found.into_iter().map(|k| k.0).collect()),
        Err(()) => None,
    }
}

/// What SHA-256 makes of some bytes, as `sgx_tcrypto::rsgx_sha256_slice` computes it.
pub uninterp spec fn sha256(bytes: Seq<u8>) -> Seq<u8>;

/// `sgx_tcrypto::rsgx_sha256_slice` refuses to hash nothing and more than a `u32` can count;
/// whether it fails otherwise, and with which status but that of success, rests on the platform
/// and is not said. Where it succeeds it gives the SHA-256 digest of the bytes.
#[verifier::external_body]
pub(crate) fn sha256_slice(bytes: &[u8]) -> (digest: Result<[u8; 32], SgxStatus>)
    ensures
        digest matches Ok(d) ==> d@ == sha256(bytes@),
        digest is Ok || 0 < bytes@.len() <= u32::MAX || digest->Err_0
            == SGX_ERROR_INVALID_PARAMETER,
        digest is Ok ==> 0 < bytes@.len() <= u32::MAX,
        digest is Ok || digest->Err_0 != SGX_SUCCESS,
{
    match sgx_tcrypto::rsgx_sha256_slice(bytes) {
        Ok(d) => Ok(d),
        Err(e) => Err(e as u32),
    }
}

/// `sgx_tse::rsgx_verify_report` lets the processor check that a report was made on this
/// platform, for this enclave. Whether it was rests on the processor's key and is not said;
/// where it was not, the status is not that of success.
#[verifier::external_body]
pub(crate) fn verify_report(report: &Report) -> (failure: Option<SgxStatus>)
    ensures
        failure != Some(SGX_SUCCESS),
{
    let Report { cpu_svn: svn, misc_select, reserved1, isv_ext_prod_id, flags, xfrm, mr_enclave,
        reserved2, mr_signer, reserved3, config_id, isv_prod_id, isv_svn, config_svn, reserved4,
        isv_family_id, report_data: d, key_id: id, mac } = *report;
    let attributes = sgx_attributes_t { flags, xfrm };
    let body = sgx_report_body_t { cpu_svn: sgx_cpu_svn_t { svn }, misc_select, reserved1,
        isv_ext_prod_id, attributes, mr_enclave: sgx_measurement_t { m: mr_enclave }, reserved2,
        mr_signer: sgx_measurement_t { m: mr_signer }, reserved3, config_id, isv_prod_id, isv_svn,
        config_svn, reserved4, isv_family_id, report_data: sgx_report_data_t { d } };
    match sgx_tse::rsgx_verify_report(&sgx_report_t { body, key_id: sgx_key_id_t { id }, mac }) {
        Ok(()) => None,
        Err(e) => Some(e as u32),
    }
}

/// A report of the enclave, as the processor made it; it is carried through unread.
#[verifier::external_type_specification]
#[verifier::external_body]
pub struct ExSgxReport(sgx_types::sgx_report_t);

/// `sgx_tse::rsgx_create_report` lets the processor report on the enclave, to a target and over
/// some data. What it reports, and whether it fails, rests on the processor and is not said;
/// where it fails, the status is not that of success.
#[verifier::external_body]
pub(crate) fn create_report(target: &TargetInfo, data: &[u8; 64]) -> (created: Result<
    sgx_report_t,
    SgxStatus,
>)
    ensures
        created is Ok || created->Err_0 != SGX_SUCCESS,
{
    let TargetInfo { mr_enclave: m, flags, xfrm, reserved1, config_svn, misc_select, reserved2,
        config_id, reserved3 } = *target;
    let (mr_enclave, attributes) = (sgx_measurement_t { m }, sgx_attributes_t { flags, xfrm });
    let target = sgx_target_info_t { mr_enclave, attributes, reserved1, config_svn, misc_select,
        reserved2, config_id, reserved3 };
    match sgx_tse::rsgx_create_report(&target, &sgx_report_data_t { d: *data }) {
        Ok(report) => Ok(report),
        Err(e) => Err(e as u32),
    }
}

/// The platform's state for computing on the curve P-256.
#[verifier::external_type_specification]
#[verifier::external_body]
pub struct ExSgxEccHandle(sgx_tcrypto::SgxEccHandle);

/// `sgx_tcrypto::SgxEccHandle::create_key_pair` makes a key pair. Which one it makes rests on
/// chance, and whether it fails on the platform; neither is said. Where it fails, the status is
/// not that of success.
#[verifier::external_body]
pub(crate) fn create_key_pair(handle: &SgxEccHandle) -> (made: Result<
    (EcPublicKey, EcPrivateKey),
    SgxStatus,
>)
    ensures
        made is Ok || made->Err_0 != SGX_SUCCESS,
{
    match handle.create_key_pair() {
        Ok((private, public)) => Ok(
            (EcPublicKey { gx: public.gx, gy: public.gy }, EcPrivateKey { r: private.r }),
        ),
        Err(e) => Err(e as u32),
    }
}

} // verus!
