//! Hash of a VLAD: SHA-256 of its canonical multibase text.

use crate::convert;
use crate::plog::Vlad;
use vstd::prelude::*;

verus! {

/// Length of a VLAD hash.
pub const VLAD_HASH_LEN: usize = 32;

/// The hash of a multibase VLAD text: SHA-256 of its UTF-8 bytes.
pub open spec fn vlad_text_hash(vlad: Seq<char>) -> Seq<u8> {
    convert::sha256(vstd::utf8::encode_utf8(vlad))
}

/// Computes the hash of a multibase VLAD text.
pub fn vlad_hash_from_multibase(vlad_multibase: &str) -> (r: [u8; 32])
    ensures
        r@ == vlad_text_hash(vlad_multibase@),
{
    convert::sha256_prehash(vlad_multibase.as_bytes())
}

/// Computes the hash of a [`Vlad`].
pub fn vlad_hash(vlad: &Vlad) -> (r: [u8; 32])
    ensures
        r@ == vlad_text_hash(vlad@),
{
    vlad_hash_from_multibase(vlad.encoded.as_str())
}

/// The hash of a VLAD is the SHA-256 of the UTF-8 bytes of its text, of thirty-two bytes.
pub proof fn law_vlad_hash(vlad: Seq<char>)
    ensures
        vlad_text_hash(vlad) == convert::sha256(vstd::utf8::encode_utf8(vlad)),
        VLAD_HASH_LEN == 32,
{
}

}
