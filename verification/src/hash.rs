//! The MD5 digest that identifies a chart file and seals a cache file.

use vstd::prelude::*;

verus! {

/// What `md5::compute` returns for the given bytes: their MD5 digest.
pub uninterp spec fn md5_digest(data: Seq<u8>) -> [u8; 16];

/// `compute` of the md5 crate. Trusted: the result is only named.
#[verifier::external_body]
pub(crate) fn md5_of(data: &[u8]) -> (digest: [u8; 16])
    ensures
        digest == md5_digest(data@),
{
    md5::compute(data).0
}

} // verus!
