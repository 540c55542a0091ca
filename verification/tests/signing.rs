use k256::ecdsa::signature::{Signer, Verifier};
use k256::ecdsa::{Signature, SigningKey, VerifyingKey};
use logos_accounts::convert::{
    ensure_public_multikey, multikey_to_sec1, require_secp256k1_priv, sec1_to_multikey,
    signature_bytes_to_multisig, verify_multikey,
};
use logos_accounts::encoding::{
    decode_bytes_multibase, decode_multikey, encode_bytes_multibase, encode_multikey,
};
use logos_accounts::plog::{Codec, Multikey, Multisig};
use logos_accounts::wallet::prepare_ephemeral;
use logos_accounts::Error;
use rand_core::OsRng;

/// Codes that mark secret and public key material here.
const SECRET: u8 = 0x26;
const PUBLIC: u8 = 0xe7;

fn multikey(code: u8, key_bytes: &[u8]) -> Multikey {
    let mut bytes = vec![code];
    bytes.extend_from_slice(key_bytes);
    Multikey { encoded: encode_bytes_multibase(&bytes), bytes, secret: code == SECRET }
}

fn secret_key(sk: &SigningKey) -> Multikey {
    multikey(SECRET, &sk.to_bytes())
}

/// The public key derived from a secret one.
fn to_public_key(mk: &Multikey) -> Result<Multikey, String> {
    let sk = SigningKey::from_slice(&mk.bytes[1..]).map_err(|e| e.to_string())?;
    Ok(multikey(PUBLIC, sk.verifying_key().to_encoded_point(true).as_bytes()))
}

fn key_bytes(mk: &Multikey) -> Result<Vec<u8>, String> {
    match mk.bytes.split_first() {
        Some((_, rest)) => Ok(rest.to_vec()),
        None => Err("no key".to_string()),
    }
}

fn decode(text: &str) -> Result<Multikey, String> {
    let bytes = decode_bytes_multibase(text).map_err(|e| e.message())?;
    match bytes.split_first() {
        Some((code, rest)) => Ok(multikey(*code, rest)),
        None => Err("no key".to_string()),
    }
}

fn sign(sk: &SigningKey, data: &[u8]) -> Multisig {
    let sig: Signature = sk.sign(data);
    let raw = sig.to_bytes().to_vec();
    let built = Multisig { encoded: encode_bytes_multibase(&raw), bytes: raw.clone() };
    signature_bytes_to_multisig(&raw, Ok(built)).unwrap()
}

fn verify(mk: &Multikey, data: &[u8], sig: &Multisig) -> Result<(), Error> {
    let checked = VerifyingKey::from_sec1_bytes(&mk.bytes[1..])
        .and_then(|vk| Signature::from_slice(&sig.bytes).and_then(|s| vk.verify(data, &s)))
        .map_err(|e| e.to_string());
    verify_multikey(checked)
}

fn sec1_of(mk: &Multikey) -> Vec<u8> {
    multikey_to_sec1(mk.clone(), Err("public already".to_string()), key_bytes(mk)).unwrap()
}

#[test]
fn multikey_sec1_roundtrip() {
    let sk = secret_key(&SigningKey::random(&mut OsRng));
    let pk = to_public_key(&sk).unwrap();
    let sec1 = sec1_of(&pk);
    assert_eq!(sec1.len(), 33);
    let mk2 = sec1_to_multikey(&sec1, Ok(multikey(PUBLIC, &sec1))).unwrap();
    assert_eq!(sec1_of(&mk2), sec1);
    assert_eq!(multikey_to_sec1(sk, Ok(pk.clone()), key_bytes(&pk)).unwrap(), sec1);
}

#[test]
fn multikey_roundtrip() {
    let sk = secret_key(&SigningKey::random(&mut OsRng));
    let pk = to_public_key(&sk).unwrap();
    let s = encode_multikey(&pk);
    let pk2 = decode_multikey(decode(&s)).unwrap();
    assert_eq!(sec1_of(&pk), sec1_of(&pk2));
}

#[test]
fn software_sign_verify_roundtrip() {
    let secret = SigningKey::random(&mut OsRng);
    let public = to_public_key(&secret_key(&secret)).unwrap();
    let data = b"verify roundtrip";
    let signature = sign(&secret, data);

    verify(&public, data, &signature).expect("verify should succeed");

    let bad = verify(&public, b"tampered", &signature);
    assert!(bad.is_err());
}

#[test]
fn ephemeral_signing_roundtrip_no_card() {
    let codec = Codec::Secp256K1Priv;
    require_secp256k1_priv(&codec).unwrap();
    let secret = SigningKey::random(&mut OsRng);
    let public_key = prepare_ephemeral(&codec, to_public_key(&secret_key(&secret))).unwrap();
    let data = b"ephemeral plog open";
    let signature = sign(&secret, data);

    verify(&public_key, data, &signature).unwrap();
    assert!(!public_key.secret);
    let again = ensure_public_multikey(public_key.clone(), Err("unused".to_string())).unwrap();
    assert_eq!(again, public_key);
}
