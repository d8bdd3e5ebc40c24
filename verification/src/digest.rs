//! Message digests used by the request signatures (MD5 and SM3), and the
//! lowercase hexadecimal form in which MD5 digests are sent.
use vstd::prelude::*;

use crate::text::{hex_lower, hex_lower_spec};

use sm3::Digest as _;

verus! {

/// The MD5 digest of a byte string (the value of `md5::compute`).
pub uninterp spec fn md5_digest(data: Seq<u8>) -> Seq<u8>;

/// The SM3 digest of a byte string.
pub uninterp spec fn sm3_digest(data: Seq<u8>) -> Seq<u8>;

/// `md5::compute(data)`: the sixteen digest bytes, named by `md5_digest`.
#[verifier::external_body]
fn md5_compute(data: &[u8]) -> (res: [u8; 16])
    ensures
        res@ == md5_digest(data@),
{
    md5::compute(data).0
}

/// `format!("{:x}", md5::compute(data))`: the digest in lowercase hexadecimal,
/// two digits per byte.
pub fn md5_hex(data: &[u8]) -> (res: String)
    ensures
        res@ == hex_lower_spec(md5_digest(data@)),
        res@.len() == 32,
{
    let digest = md5_compute(data);
    hex_lower(digest.as_slice())
}

/// `Sm3::new()`, `update(data)`, `finalize()`: the 32-byte SM3 digest, named by
/// `sm3_digest`.
#[verifier::external_body]
pub(crate) fn sm3(data: &[u8]) -> (res: [u8; 32])
    ensures
        res@ == sm3_digest(data@),
{
    let mut hasher = sm3::Sm3::new();
    hasher.update(data);
    hasher.finalize().into()
}

} // verus!
