//! The certificate and the key with which the enclave shows itself to the attestation
//! service.

use crate::outside::{
    pem_certs, pem_pkcs8_keys, pem_rsa_keys, read_pem_certs, read_pem_pkcs8_keys,
    read_pem_rsa_keys,
};
use crate::views::ok_view;
use vstd::prelude::*;
use vstd::slice::slice_to_vec;

verus! {

/// Why a file gives no certificate or no key.
#[derive(Clone, Copy, Debug, PartialEq, Eq, Structural)]
pub enum IdentityError {
    /// The certificate file holds an invalid section.
    Certificates,
    /// The key file holds an invalid RSA section.
    RsaKeys,
    /// The key file holds an invalid PKCS#8 section.
    Pkcs8Keys,
    /// The key file holds no key.
    NoKey,
}

/// The certificates in a file, where the file can be read.
pub open spec fn certs_read(found: Option<Seq<Seq<u8>>>) -> Result<Seq<Seq<u8>>, IdentityError> {
    match found {
        Some(certs) => Ok(certs),
        None => Err(IdentityError::Certificates),
    }
}

/// The key to use of those in a file: the first PKCS#8 key, or else the first RSA key.
pub open spec fn key_chosen(
    rsa: Option<Seq<Seq<u8>>>,
    pkcs8: Option<Seq<Seq<u8>>>,
) -> Result<Seq<u8>, IdentityError> {
    match (rsa, pkcs8) {
        (None, _) => Err(IdentityError::RsaKeys),
        (_, None) => Err(IdentityError::Pkcs8Keys),
        (Some(rsa_keys), Some(pkcs8_keys)) => if pkcs8_keys.len() > 0 {
            Ok(pkcs8_keys[0])
        } else if rsa_keys.len() > 0 {
            Ok(rsa_keys[0])
        } else {
            Err(IdentityError::NoKey)
        },
    }
}

/// Chooses the key to use of those in a file, as [`key_chosen`] says.
pub fn choose_key(rsa: &Option<Vec<Vec<u8>>>, pkcs8: &Option<Vec<Vec<u8>>>) -> (key: Result<
    Vec<u8>,
    IdentityError,
>)
    ensures
        ok_view(key) == key_chosen(rsa.deep_view(), pkcs8.deep_view()),
{
    let rsa_keys = match rsa {
        Some(keys) => keys,
        None => {
            return Err(IdentityError::RsaKeys);
        },
    };
    let pkcs8_keys = match pkcs8 {
        Some(keys) => keys,
        None => {
            return Err(IdentityError::Pkcs8Keys);
        },
    };
    if pkcs8_keys.len() > 0 {
        let key = slice_to_vec(pkcs8_keys[0].as_slice());
        assert(key.deep_view() == pkcs8_keys.deep_view()[0]);
        Ok(key)
    } else if rsa_keys.len() > 0 {
        let key = slice_to_vec(rsa_keys[0].as_slice());
        assert(key.deep_view() == rsa_keys.deep_view()[0]);
        Ok(key)
    } else {
        Err(IdentityError::NoKey)
    }
}

/// The certificates in a PEM file.
pub fn load_certs(file: &[u8]) -> (certs: Result<Vec<Vec<u8>>, IdentityError>)
    requires
        12 * file@.len() <= usize::MAX,
    ensures
        ok_view(certs) == certs_read(pem_certs(file@)),
{
    match read_pem_certs(file) {
        Some(certs) => Ok(certs),
        None => Err(IdentityError::Certificates),
    }
}

/// The key to use of those in a PEM file.
pub fn load_private_key(file: &[u8]) -> (key: Result<Vec<u8>, IdentityError>)
    requires
        12 * file@.len() <= usize::MAX,
    ensures
        ok_view(key) == key_chosen(pem_rsa_keys(file@), pem_pkcs8_keys(file@)),
{
    let rsa = read_pem_rsa_keys(file);
    let pkcs8 = read_pem_pkcs8_keys(file);
    choose_key(&rsa, &pkcs8)
}

/// How the enclave shows itself to the attestation service.
pub struct IasClientConfig {
    pub certs: Vec<Vec<u8>>,
    pub key: Vec<u8>,
}

/// Reads how the enclave shows itself to the attestation service from its certificate file
/// and its key file.
pub fn make_ias_client_config(cert_file: &[u8], key_file: &[u8]) -> (config: Result<
    IasClientConfig,
    IdentityError,
>)
    requires
        12 * cert_file@.len() <= usize::MAX,
        12 * key_file@.len() <= usize::MAX,
    ensures
        match config {
            Ok(c) => {
                &&& certs_read(pem_certs(cert_file@)) matches Ok(certs)
                &&& key_chosen(pem_rsa_keys(key_file@), pem_pkcs8_keys(key_file@)) matches Ok(key)
                &&& c.certs.deep_view() == certs
                &&& c.key@ == key
            },
            Err(e) => match certs_read(pem_certs(cert_file@)) {
                Err(certs_error) => e == certs_error,
                Ok(_) => key_chosen(pem_rsa_keys(key_file@), pem_pkcs8_keys(key_file@)) matches Err(
                    key_error,
                ) && e == key_error,
            },
        },
{
    let certs = match load_certs(cert_file) {
        Ok(certs) => certs,
        Err(e) => {
            return Err(e);
        },
    };
    let key = match load_private_key(key_file) {
        Ok(key) => key,
        Err(e) => {
            return Err(e);
        },
    };
    assert(key.deep_view() == key@);
    Ok(IasClientConfig { certs, key })
}

} // verus!
