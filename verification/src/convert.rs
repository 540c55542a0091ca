//! Digests, and the admission rules for key and signature material.

use crate::error;
use crate::error::{Error, ErrorView};
use crate::model;
use crate::plog::{Codec, CodecView, Multikey, MultikeyView, Multisig, MultisigView};
use crate::text;
use vstd::prelude::*;
use vstd::string::*;

verus! {

/// SHA-256 digest length.
pub const PREHASH_LEN: usize = 32;

/// Length of a compressed SEC1 public key.
pub const SEC1_LEN: usize = 33;

/// Length of an ECDSA signature, both halves together.
pub const SIGNATURE_LEN: usize = 64;

/// The SHA-256 digest of `data`, as `sha2::Sha256` computes it.
pub uninterp spec fn sha256(data: Seq<u8>) -> Seq<u8>;

/// `sha2::Sha256::digest`: the SHA-256 digest, a function of the data alone.
#[verifier::external_body]
fn sha256_digest(data: &[u8]) -> (r: [u8; 32])
    ensures
        r@ == sha256(data@),
{
    <sha2::Sha256 as sha2::Digest>::digest(data).into()
}

/// Computes SHA-256 of `data`.
pub fn sha256_prehash(data: &[u8]) -> (r: [u8; 32])
    ensures
        r@ == sha256(data@),
{
    sha256_digest(data)
}

/// The text of a length complaint: what was expected, the length found, `" bytes"`.
pub open spec fn length_complaint(expected: Seq<char>, found: nat) -> Seq<char> {
    expected + text::decimal(found) + " bytes"@
}

fn length_message(expected: &str, found: usize) -> (r: String)
    ensures
        r@ == length_complaint(expected@, found as nat),
{
    let mut m: String = expected.to_owned();
    m.append(text::decimal_text(found).as_str());
    m.append(" bytes");
    m
}

/// The Multikey of compressed SEC1 bytes: a wrong length is rejected before a key is built, and
/// a failure to build it is a Multikey error.
pub open spec fn sec1_key(
    sec1: Seq<u8>,
    built: Result<MultikeyView, Seq<char>>,
) -> Result<MultikeyView, ErrorView> {
    if sec1.len() != SEC1_LEN {
        Err(
            ErrorView::Message(
                length_complaint("expected 33-byte compressed SEC1 public key, got "@, sec1.len()),
            ),
        )
    } else {
        multikey_result(built)
    }
}

/// A Multikey failure as an error of the library.
pub open spec fn multikey_result(
    built: Result<MultikeyView, Seq<char>>,
) -> Result<MultikeyView, ErrorView> {
    match built {
        Ok(k) => Ok(k),
        Err(reason) => Err(ErrorView::Multikey(reason)),
    }
}

/// Admits compressed SEC1 bytes as a public Multikey. `built` is the key that the Multikey
/// implementation builds from them.
pub fn sec1_to_multikey(sec1: &[u8], built: Result<Multikey, String>) -> (r: Result<
    Multikey,
    Error,
>)
    ensures
        error::outcome(r) == sec1_key(sec1@, model::fallible(built)),
{
    if sec1.len() != SEC1_LEN {
        return Err(
            Error::Message(
                length_message("expected 33-byte compressed SEC1 public key, got ", sec1.len()),
            ),
        );
    }
    match built {
        Ok(k) => Ok(k),
        Err(reason) => Err(Error::Multikey(reason)),
    }
}

/// The Multisig of raw signature bytes: a wrong length is rejected before a signature is built,
/// and a failure to build it is a Multisig error.
pub open spec fn signature_multisig(
    sig_rs: Seq<u8>,
    built: Result<MultisigView, Seq<char>>,
) -> Result<MultisigView, ErrorView> {
    if sig_rs.len() != SIGNATURE_LEN {
        Err(
            ErrorView::Message(
                length_complaint("expected 64-byte ECDSA signature (r||s), got "@, sig_rs.len()),
            ),
        )
    } else {
        match built {
            Ok(sig) => Ok(sig),
            Err(reason) => Err(ErrorView::Multisig(reason)),
        }
    }
}

/// Admits a raw ECDSA signature as a Multisig. `built` is the Multisig that the Multisig
/// implementation builds from it.
pub fn signature_bytes_to_multisig(sig_rs: &[u8], built: Result<Multisig, String>) -> (r: Result<
    Multisig,
    Error,
>)
    ensures
        error::outcome(r) == signature_multisig(sig_rs@, model::fallible(built)),
{
    if sig_rs.len() != SIGNATURE_LEN {
        return Err(
            Error::Message(
                length_message("expected 64-byte ECDSA signature (r||s), got ", sig_rs.len()),
            ),
        );
    }
    match built {
        Ok(sig) => Ok(sig),
        Err(reason) => Err(Error::Multisig(reason)),
    }
}

/// The public form of a key: a secret key gives way to the public key that was derived from it.
pub open spec fn public_form(
    mk: MultikeyView,
    derived: Result<MultikeyView, Seq<char>>,
) -> Result<MultikeyView, ErrorView> {
    if mk.secret {
        multikey_result(derived)
    } else {
        Ok(mk)
    }
}

/// Replaces a secret key by the public key derived from it; keeps a public key.
pub fn ensure_public_multikey(mk: Multikey, derived: Result<Multikey, String>) -> (r: Result<
    Multikey,
    Error,
>)
    ensures
        error::outcome(r) == public_form(mk@, model::fallible(derived)),
{
    if mk.secret {
        match derived {
            Ok(k) => Ok(k),
            Err(reason) => Err(Error::Multikey(reason)),
        }
    } else {
        Ok(mk)
    }
}

/// The raw bytes of a key's public form, or the Multikey failure that stands in the way.
pub open spec fn public_key_bytes(
    mk: MultikeyView,
    derived: Result<MultikeyView, Seq<char>>,
    key_bytes: Result<Seq<u8>, Seq<char>>,
) -> Result<Seq<u8>, ErrorView> {
    match public_form(mk, derived) {
        Err(e) => Err(e),
        Ok(_) => match key_bytes {
            Ok(b) => Ok(b),
            Err(reason) => Err(ErrorView::Multikey(reason)),
        },
    }
}

/// Compressed SEC1 bytes of a key. `derived` is the public key derived from a secret one, and
/// `key_bytes` the raw bytes that the Multikey implementation reads from the public form.
pub fn multikey_to_sec1(
    mk: Multikey,
    derived: Result<Multikey, String>,
    key_bytes: Result<Vec<u8>, String>,
) -> (r: Result<Vec<u8>, Error>)
    ensures
        error::outcome(r) == public_key_bytes(
            mk@,
            model::fallible(derived),
            model::fallible(key_bytes),
        ),
{
    match ensure_public_multikey(mk, derived) {
        Err(e) => Err(e),
        Ok(_) => match key_bytes {
            Ok(b) => Ok(b),
            Err(reason) => Err(Error::Multikey(reason)),
        },
    }
}

/// Why a codec is refused for key generation, if it is: only secp256k1 private keys are
/// generated.
pub open spec fn codec_fault(codec: CodecView) -> Option<ErrorView> {
    match codec {
        CodecView::Secp256K1Priv => None,
        CodecView::Other(name) => Some(ErrorView::UnsupportedCodec(name)),
    }
}

/// Refuses every codec but secp256k1 private keys.
pub fn require_secp256k1_priv(codec: &Codec) -> (r: Result<(), Error>)
    ensures
        match r {
            Ok(()) => codec_fault(codec@) is None,
            Err(e) => codec_fault(codec@) == Some(e@),
        },
{
    match codec {
        Codec::Secp256K1Priv => Ok(()),
        Codec::Other(name) => Err(Error::UnsupportedCodec(name.clone())),
    }
}

/// Takes over what the Multikey implementation says of a signature: it verifies, or it does not,
/// and why.
pub fn verify_multikey(verified: Result<(), String>) -> (r: Result<(), Error>)
    ensures
        match verified {
            Ok(()) => r is Ok,
            Err(reason) => r is Err && r->Err_0@ == ErrorView::Multikey(reason@),
        },
{
    match verified {
        Ok(()) => Ok(()),
        Err(reason) => Err(Error::Multikey(reason)),
    }
}

/// Lengths of a digest, of a compressed public key and of a signature.
pub proof fn law_lengths()
    ensures
        PREHASH_LEN == 32,
        SEC1_LEN == 33,
        SIGNATURE_LEN == 64,
{
}

/// A public key is admitted exactly if it has thirty-three bytes and can be built, as it was
/// built. A wrong length is told before anything that building it says.
pub proof fn law_public_keys_are_admitted(
    sec1: Seq<u8>,
    built: Result<MultikeyView, Seq<char>>,
    mk: MultikeyView,
    reason: Seq<char>,
)
    ensures
        sec1.len() == 33 ==> sec1_key(sec1, Ok(mk)) == Ok::<MultikeyView, ErrorView>(mk),
        sec1.len() == 33 ==> sec1_key(sec1, Err(reason)) == Err::<MultikeyView, ErrorView>(
            ErrorView::Multikey(reason),
        ),
        sec1.len() != 33 ==> sec1_key(sec1, built) == Err::<MultikeyView, ErrorView>(
            ErrorView::Message(
                "expected 33-byte compressed SEC1 public key, got "@ + text::decimal(sec1.len())
                    + " bytes"@,
            ),
        ),
        multikey_result(Ok(mk)) == Ok::<MultikeyView, ErrorView>(mk),
        multikey_result(Err(reason)) == Err::<MultikeyView, ErrorView>(
            ErrorView::Multikey(reason),
        ),
{
}

/// A signature is admitted exactly if it has sixty-four bytes and can be built, as it was built.
/// A wrong length is told before anything that building it says.
pub proof fn law_signatures_are_admitted(
    sig_rs: Seq<u8>,
    built: Result<MultisigView, Seq<char>>,
    sig: MultisigView,
    reason: Seq<char>,
)
    ensures
        sig_rs.len() == 64 ==> signature_multisig(sig_rs, Ok(sig)) == Ok::<
            MultisigView,
            ErrorView,
        >(sig),
        sig_rs.len() == 64 ==> signature_multisig(sig_rs, Err(reason)) == Err::<
            MultisigView,
            ErrorView,
        >(ErrorView::Multisig(reason)),
        sig_rs.len() != 64 ==> signature_multisig(sig_rs, built) == Err::<MultisigView, ErrorView>(
            ErrorView::Message(
                "expected 64-byte ECDSA signature (r||s), got "@ + text::decimal(sig_rs.len())
                    + " bytes"@,
            ),
        ),
{
}

/// A length complaint says what was expected, then the length in decimal.
pub proof fn law_length_complaint(expected: Seq<char>, found: nat)
    ensures
        length_complaint(expected, found) == expected + text::decimal(found) + " bytes"@,
{
}

/// A public key stays as it is, whatever else was derived; a secret key is never handed out, but
/// the public key derived from it, or the complaint that there is none.
pub proof fn law_public_forms(
    mk: MultikeyView,
    derived: Result<MultikeyView, Seq<char>>,
    pk: MultikeyView,
    reason: Seq<char>,
    key_bytes: Result<Seq<u8>, Seq<char>>,
    bytes: Seq<u8>,
)
    ensures
        !mk.secret ==> public_form(mk, derived) == Ok::<MultikeyView, ErrorView>(mk),
        mk.secret ==> public_form(mk, Ok(pk)) == Ok::<MultikeyView, ErrorView>(pk),
        mk.secret ==> public_form(mk, Err(reason)) == Err::<MultikeyView, ErrorView>(
            ErrorView::Multikey(reason),
        ),
        mk.secret && derived == Err::<MultikeyView, Seq<char>>(reason) ==> public_key_bytes(
            mk,
            derived,
            key_bytes,
        ) == Err::<Seq<u8>, ErrorView>(ErrorView::Multikey(reason)),
        !mk.secret || derived is Ok ==> public_key_bytes(mk, derived, Ok(bytes)) == Ok::<
            Seq<u8>,
            ErrorView,
        >(bytes),
        !mk.secret || derived is Ok ==> public_key_bytes(mk, derived, Err(reason)) == Err::<
            Seq<u8>,
            ErrorView,
        >(ErrorView::Multikey(reason)),
{
}

/// Keys are generated for secp256k1 and for nothing else.
pub proof fn law_supported_codecs(name: Seq<char>)
    ensures
        codec_fault(CodecView::Secp256K1Priv) is None,
        codec_fault(CodecView::Other(name)) == Some(ErrorView::UnsupportedCodec(name)),
{
}

}
