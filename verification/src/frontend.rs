//! The decisions behind the two GET routes: the canonical layout body and
//! the validation of a distfile request.  The HTTP server itself lives
//! outside the library and only serves what these functions decide.

use vstd::prelude::*;

use crate::strutil::str_eq;
use crate::utils::filename_hash_dir_blake2b;
use crate::utils::spec_digest_dir;

verus! {

/// The canonical layout body a standards-compliant mirror publishes.
pub open spec fn layout_body() -> Seq<char> {
    "[structure]\n0=filename-hash BLAKE2B 8\n"@
}

/// The body served for the layout route, exactly the canonical string.
pub fn layout_conf() -> (r: &'static str)
    ensures
        r@ == layout_body(),
{
    "[structure]\n0=filename-hash BLAKE2B 8\n"
}

/// Whether a distfile request is well-formed: the caller-supplied digest
/// path segment must be exactly the digest directory of the requested
/// file.  Anything else is answered with a client error and no fetch is
/// attempted.
pub fn validate_request(digest: &str, file: &str) -> (r: bool)
    ensures
        r == (digest@ == spec_digest_dir(file@)),
{
    let expected = filename_hash_dir_blake2b(file);
    str_eq(digest, expected.as_str())
}

} // verus!
