//! The status codes of the platform that decisions are made by.

use vstd::prelude::*;

verus! {

/// A status code of the SGX SDK, by its number.
pub type SgxStatus = u32;

/// The call succeeded.
pub const SGX_SUCCESS: SgxStatus = 0;

/// Unexpected error.
pub const SGX_ERROR_UNEXPECTED: SgxStatus = 1;

/// The parameter is incorrect.
pub const SGX_ERROR_INVALID_PARAMETER: SgxStatus = 2;

} // verus!
