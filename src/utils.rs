//! Small helpers over outside crates.

use vstd::prelude::*;

verus! {

/// The lowercase hexadecimal MD5 digest of a string's UTF-8 bytes.
pub uninterp spec fn md5_hex_of(s: Seq<char>) -> Seq<char>;

/// Relies on `md5::compute` and the digest's `LowerHex` format: two hex digits per byte of
/// the 16-byte digest.
#[verifier::external_body]
fn md5_hex(s: &str) -> (r: String)
    ensures
        r@ == md5_hex_of(s@),
        r@.len() == 32,
{
    format!("{:x}", md5::compute(s))
}

/// A stable identifier for a string: its MD5 digest in lowercase hexadecimal.
pub fn get_md5(s: &str) -> (r: String)
    ensures
        r@ == md5_hex_of(s@),
        r@.len() == 32,
{
    md5_hex(s)
}

} // verus!
