use vstd::prelude::*;
use vstd::string::StringSliceAdditionalSpecFns;

verus! {

/// The 64-digit lower-case hex form of the BLAKE3 digest of a byte string.
/// The digest is a function of the input alone, so it only gets a name here;
/// the wrappers below are the sole source of facts about it.
pub uninterp spec fn blake3_hex(s: Seq<u8>) -> Seq<char>;

/// Relies on blake3::hash and blake3::Hash::to_hex: a 32-byte digest of the
/// input alone, rendered as 64 lower-case hex characters.
#[verifier::external_body]
pub fn content_hash_hex(content: &str) -> (r: String)
    ensures
        r@ == blake3_hex(content.spec_bytes()),
        r@.len() == 64,
{
    blake3::hash(content.as_bytes()).to_hex().as_str().to_string()
}

} // verus!
