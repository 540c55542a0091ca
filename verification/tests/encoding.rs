use logos_accounts::convert::{
    multikey_to_sec1, sec1_to_multikey, sha256_prehash, signature_bytes_to_multisig, verify_multikey,
    PREHASH_LEN,
};
use logos_accounts::encoding::{
    bytes_from_multibase, can_decode_hex, decode_bytes_multibase, decode_hex, decode_hex32,
    decode_multikey, decode_multisig, decode_plog, decode_vlad, encode_bytes_multibase, encode_cid,
    encode_hex, encode_multikey, encode_multisig, encode_vlad, plog_from_bytes,
};
use logos_accounts::plog::{Cid, Log, Multikey, Multisig, Vlad};
use logos_accounts::values::PlogPathValue;
use logos_accounts::Error;

fn multikey(text: &str, bytes: &[u8], secret: bool) -> Multikey {
    Multikey { encoded: text.to_string(), bytes: bytes.to_vec(), secret }
}

#[test]
fn hex_roundtrip() {
    let raw = [0u8, 1, 2, 254, 255];
    let h = encode_hex(&raw);
    assert_eq!(decode_hex(&h).unwrap(), raw);
    assert_eq!(decode_hex(&format!("0x{h}")).unwrap(), raw);
}

#[test]
fn hex_exact_values() {
    assert_eq!(encode_hex(&[0, 1, 2, 254, 255]), "000102feff");
    assert_eq!(encode_hex(&[]), "");
    assert_eq!(decode_hex("").unwrap(), Vec::<u8>::new());
    assert_eq!(decode_hex(" 0xAbCd ").unwrap(), vec![0xab, 0xcd]);
    assert_eq!(
        decode_hex("+f").unwrap_err(),
        Error::Encoding("invalid hex: invalid digit found in string".to_string())
    );
}

#[test]
fn hex_errors() {
    assert_eq!(
        decode_hex("abc").unwrap_err(),
        Error::Encoding("hex string has odd length".to_string())
    );
    assert!(matches!(decode_hex("zz"), Err(Error::Encoding(_))));
    assert!(can_decode_hex("zz"));
    assert!(!can_decode_hex("a\u{e9}b"));
}

#[test]
fn hex32_wants_32_bytes() {
    let key = [7u8; 32];
    assert_eq!(decode_hex32(&encode_hex(&key)).unwrap(), key);
    assert_eq!(
        decode_hex32("aabb").unwrap_err(),
        Error::Encoding("expected 32 bytes, got 2".to_string())
    );
}

#[test]
fn multibase_bytes_roundtrip() {
    let raw = b"hello domain api";
    let enc = encode_bytes_multibase(raw);
    assert_eq!(decode_bytes_multibase(&enc).unwrap(), raw);
}

#[test]
fn multibase_exact_values() {
    assert_eq!(encode_bytes_multibase(&[1, 2, 3]), "uAQID");
    assert_eq!(encode_bytes_multibase(&[]), "u");
    assert_eq!(encode_bytes_multibase(&[0xff]), "u_w");
    assert_eq!(encode_bytes_multibase(&[0xfb, 0xf0]), "u-_A");
    assert_eq!(decode_bytes_multibase("uAQID").unwrap(), vec![1, 2, 3]);
}

#[test]
fn multibase_rejects_unknown_base() {
    assert!(matches!(decode_bytes_multibase("~~"), Err(Error::Encoding(_))));
    assert!(matches!(decode_bytes_multibase(""), Err(Error::Encoding(_))));
    assert_eq!(
        bytes_from_multibase(Err("no such base".to_string())).unwrap_err(),
        Error::Encoding("no such base".to_string())
    );
    assert_eq!(bytes_from_multibase(Ok(vec![9])).unwrap(), vec![9]);
}

#[test]
fn sha256_prehash_is_32_bytes() {
    let h = sha256_prehash(b"hello");
    assert_eq!(h.len(), 32);
    assert_eq!(PREHASH_LEN, 32);
}

#[test]
fn sha256_exact_values() {
    assert_eq!(
        encode_hex(&sha256_prehash(b"hello")),
        "2cf24dba5fb0a30e26e83b2ac5b9e29e1b161e5c1fa7425e73043362938b9824"
    );
    assert_eq!(
        encode_hex(&sha256_prehash(b"")),
        "e3b0c44298fc1c149afbf4c8996fb92427ae41e4649b934ca495991b7852b855"
    );
}

#[test]
fn sec1_keys_have_33_bytes() {
    let built = multikey("zKey", &[1, 2], false);
    assert_eq!(sec1_to_multikey(&[2u8; 33], Ok(built.clone())).unwrap(), built);
    assert_eq!(
        sec1_to_multikey(&[2u8; 32], Ok(built.clone())).unwrap_err(),
        Error::Message("expected 33-byte compressed SEC1 public key, got 32 bytes".to_string())
    );
    assert_eq!(
        sec1_to_multikey(&[2u8; 33], Err("bad point".to_string())).unwrap_err(),
        Error::Multikey("bad point".to_string())
    );
}

#[test]
fn sec1_bytes_come_from_the_public_form() {
    let public = multikey("zPub", &[1], false);
    let secret = multikey("zSec", &[2], true);
    assert_eq!(
        multikey_to_sec1(public.clone(), Err("unused".to_string()), Ok(vec![3; 33])).unwrap(),
        vec![3; 33]
    );
    assert_eq!(
        multikey_to_sec1(secret, Err("no view".to_string()), Ok(vec![3; 33])).unwrap_err(),
        Error::Multikey("no view".to_string())
    );
    assert_eq!(
        multikey_to_sec1(public, Err("unused".to_string()), Err("no data".to_string())).unwrap_err(),
        Error::Multikey("no data".to_string())
    );
}

#[test]
fn signatures_have_64_bytes() {
    let built = Multisig { encoded: "zSig".to_string(), bytes: vec![5] };
    assert_eq!(signature_bytes_to_multisig(&[0u8; 64], Ok(built)).unwrap().bytes, vec![5]);
    assert_eq!(
        signature_bytes_to_multisig(&[0u8; 65], Err("unused".to_string())).unwrap_err(),
        Error::Message("expected 64-byte ECDSA signature (r||s), got 65 bytes".to_string())
    );
    assert_eq!(
        signature_bytes_to_multisig(&[0u8; 64], Err("bad".to_string())).unwrap_err(),
        Error::Multisig("bad".to_string())
    );
}

#[test]
fn verification_outcome_is_reported() {
    assert!(verify_multikey(Ok(())).is_ok());
    assert_eq!(
        verify_multikey(Err("tampered".to_string())).unwrap_err(),
        Error::Multikey("tampered".to_string())
    );
}

#[test]
fn decoders_report_encoding_errors() {
    let why = || "broken".to_string();
    assert_eq!(decode_vlad(Err(why())).unwrap_err(), Error::Encoding(why()));
    assert_eq!(decode_multikey(Err(why())).unwrap_err(), Error::Encoding(why()));
    assert_eq!(decode_multisig(Err(why())).unwrap_err(), Error::Encoding(why()));
    assert_eq!(decode_plog(Err(why())).unwrap_err(), Error::Encoding(why()));
    let from_bytes: Result<Log, String> = Err(why());
    assert_eq!(plog_from_bytes(from_bytes).unwrap_err(), Error::Plog(why()));
}

#[test]
fn encoders_hand_out_the_canonical_text() {
    assert_eq!(encode_vlad(&Vlad { encoded: "zVlad".to_string() }), "zVlad");
    assert_eq!(encode_cid(&Cid { encoded: "zCid".to_string(), bytes: vec![] }), "zCid");
    assert_eq!(encode_multikey(&multikey("zKey", &[], false)), "zKey");
    assert_eq!(
        encode_multisig(&Multisig { encoded: "zSig".to_string(), bytes: vec![] }),
        "zSig"
    );
}

#[test]
fn path_values_as_json() {
    assert_eq!(
        PlogPathValue::Str("alice".to_string()).to_json_string(),
        r#"{"type":"str","value":"alice"}"#
    );
    assert_eq!(
        PlogPathValue::Bin("uAQID".to_string()).to_json_string(),
        r#"{"type":"bin","value":"uAQID"}"#
    );
}

#[test]
fn json_strings_are_escaped() {
    let v = PlogPathValue::Str("a\"b\\c\n\t\r\u{8}\u{c}\u{1}\u{1f}\u{7f}\u{e9}/".to_string());
    assert_eq!(
        v.to_json_string(),
        "{\"type\":\"str\",\"value\":\"a\\\"b\\\\c\\n\\t\\r\\b\\f\\u0001\\u001f\u{7f}\u{e9}/\"}"
    );
}

#[test]
fn error_texts() {
    assert_eq!(
        Error::PathEscape("/a/".to_string(), "/b".to_string()).message(),
        "operation path escapes delegated branch /a/: /b"
    );
    assert_eq!(
        Error::HeadMismatch("x".to_string(), "y".to_string()).message(),
        "p-log head changed since prepare (expected x, current y)"
    );
    assert_eq!(
        Error::NoAccount.message(),
        "no account loaded: call create_account or import_plog first"
    );
    assert_eq!(Error::Encoding("e".to_string()).message(), "encoding error: e");
    assert_eq!(Error::Message("m".to_string()).message(), "m");
}
