//! Byte strings against each other, and the digest that ties a quote to its nonce.

use crate::outside::sha256;
use crate::platform::{hash_bytes, hash_came};
use crate::status::{SgxStatus, SGX_ERROR_INVALID_PARAMETER, SGX_SUCCESS};
use vstd::prelude::*;

verus! {

/// Whether two byte strings are the same.
pub fn same_bytes(a: &[u8], b: &[u8]) -> (same: bool)
    ensures
        same == (a@ == b@),
{
    if a.len() != b.len() {
        return false;
    }
    let mut i: usize = 0;
    while i < a.len()
        invariant
            i <= a@.len() == b@.len(),
            forall|j: int| 0 <= j < i ==> a@[j] == b@[j],
        decreases a@.len() - i,
    {
        if a[i] != b[i] {
            return false;
        }
        i += 1;
    }
    assert(a@ == b@);
    true
}

/// What the digest of a quote and its nonce is taken over.
pub fn quote_preimage(nonce: &[u8; 16], quote: &[u8]) -> (bytes: Vec<u8>)
    requires
        16 + quote@.len() <= usize::MAX,
    ensures
        bytes@ == nonce@ + quote@,
{
    let mut bytes: Vec<u8> = Vec::new();
    let mut i: usize = 0;
    while i < 16
        invariant
            i <= 16,
            bytes@ == nonce@.take(i as int),
        decreases 16 - i,
    {
        bytes.push(nonce[i]);
        assert(nonce@.take(i as int).push(nonce@[i as int]) == nonce@.take(i + 1));
        i += 1;
    }
    assert(nonce@.take(16) == nonce@);
    let mut j: usize = 0;
    while j < quote.len()
        invariant
            j <= quote@.len(),
            bytes@ == nonce@ + quote@.take(j as int),
        decreases quote@.len() - j,
    {
        bytes.push(quote[j]);
        assert(quote@.take(j as int).push(quote@[j as int]) == quote@.take(j + 1));
        j += 1;
    }
    assert(quote@.take(j as int) == quote@);
    bytes
}

/// The digest of a quote and its nonce. It fails where both together are longer than a `u32`
/// can count; what else it fails on is the platform's affair.
pub fn quote_digest(nonce: &[u8; 16], quote: &[u8]) -> (digest: Result<[u8; 32], SgxStatus>)
    requires
        16 + quote@.len() <= usize::MAX,
    ensures
        digest matches Ok(d) ==> d@ == sha256(nonce@ + quote@),
        digest is Ok ==> 16 + quote@.len() <= u32::MAX,
        16 + quote@.len() > u32::MAX ==> (digest matches Err(e) && e
            == SGX_ERROR_INVALID_PARAMETER),
        digest matches Err(e) ==> e != SGX_SUCCESS,
        hash_came(nonce@ + quote@, digest),
{
    hash_bytes(quote_preimage(nonce, quote).as_slice())
}

} // verus!
