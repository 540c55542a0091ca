use logos_accounts::convert::require_secp256k1_priv;
use logos_accounts::ephemeral_open::EphemeralOpenHelper;
use logos_accounts::keycard_lifecycle::{
    build_secrets, is_virgin_app_info, verify_vlad_binding, vlad_binding_record, ApplicationInfo,
    CardReply, CardSetup, KeycardCreateSecrets, PairingInfo, Secrets, SetupStep,
};
use logos_accounts::path_map::{
    derivation_from, parse_derivation_path, DerivationPath, PathMap, DEFAULT_PUBKEY_PATH, HARDENED,
};
use logos_accounts::plog::{Codec, Multikey, Multisig, Vlad};
use logos_accounts::storage::{parse_storage_json, CreateAccountResult, StorageConfig};
use logos_accounts::values::AccountSummary;
use logos_accounts::wallet::{
    default_pubkey_derivation, default_pubkey_key, exported_public_key, prepare_ephemeral, KeyRequest,
    KeycardWallet,
};
use logos_accounts::{Error, Key};

fn key(s: &str) -> Key {
    Key::new(s.to_string())
}

fn multikey(text: &str, secret: bool) -> Multikey {
    Multikey { encoded: text.to_string(), bytes: text.as_bytes().to_vec(), secret }
}

fn text_of(v: &serde_json::Value, name: &str) -> Option<String> {
    v.get(name).and_then(|s| s.as_str()).map(|s| s.to_string())
}

/// Decodes a storage selection from the trimmed text.
fn decoded(s: &str) -> Result<StorageConfig, String> {
    let v: serde_json::Value = serde_json::from_str(s.trim()).map_err(|e| e.to_string())?;
    match text_of(&v, "method").as_deref() {
        Some("local") => Ok(StorageConfig::Local),
        Some("keycard") => Ok(StorageConfig::Keycard {
            pin: text_of(&v, "pin"),
            puk: text_of(&v, "puk"),
            pairing_password: text_of(&v, "pairing_password"),
            pairing_key_hex: text_of(&v, "pairing_key_hex"),
            pairing_index: v.get("pairing_index").and_then(|n| n.as_u64()).map(|n| n as u8),
            derivation_path: text_of(&v, "derivation_path"),
        }),
        _ => Err("unknown method".to_string()),
    }
}

#[test]
fn parse_local() {
    let s = r#"{"method":"local"}"#;
    let c = parse_storage_json(s, decoded(s)).unwrap();
    assert!(c.is_local());
    assert_eq!(c.derivation_path(), DEFAULT_PUBKEY_PATH);
}

#[test]
fn parse_keycard_create_partial() {
    let s = r#"{"method":"keycard","pin":"123456","derivation_path":"m/44'/60'/0'/0/1"}"#;
    let c = parse_storage_json(s, decoded(s)).unwrap();
    assert_eq!(c.derivation_path(), "m/44'/60'/0'/0/1");
    match c {
        StorageConfig::Keycard {
            pin,
            pairing_key_hex,
            derivation_path,
            ..
        } => {
            assert_eq!(pin.as_deref(), Some("123456"));
            assert!(pairing_key_hex.is_none());
            assert_eq!(derivation_path.as_deref(), Some("m/44'/60'/0'/0/1"));
        }
        _ => panic!("expected keycard"),
    }
}

#[test]
fn parse_keycard_load() {
    let s = r#"{"method":"keycard","pin":"123456","pairing_key_hex":"aa","pairing_index":1}"#;
    let c = parse_storage_json(s, decoded(s)).unwrap();
    assert!(c.is_keycard());
    assert!(!c.is_local());
}

#[test]
fn parse_empty_fails() {
    assert!(parse_storage_json("", decoded("")).is_err());
}

#[test]
fn storage_errors() {
    assert_eq!(
        parse_storage_json(" \n", Ok(StorageConfig::Local)).unwrap_err(),
        Error::Encoding(
            "storage_json is empty; expected {\"method\":\"local\"} or keycard object".to_string()
        )
    );
    assert_eq!(
        parse_storage_json("{}", Err("no method".to_string())).unwrap_err(),
        Error::Encoding("storage_json: no method".to_string())
    );
}

#[test]
fn default_pubkey_mapping() {
    let map = PathMap::with_default_pubkey(None).unwrap_or_else(|e| panic!("{e:?}"));
    let key = Key::new("/pubkey".to_string());
    let path = map.require(&key).unwrap();
    assert_eq!(path.text(), DEFAULT_PUBKEY_PATH);
}

#[test]
fn unmapped_path_errors() {
    let map = PathMap::new();
    let key = Key::new("/unknown".to_string());
    let err = map.require(&key).unwrap_err();
    assert!(matches!(err, Error::PathNotRegistered(_)));
}

#[test]
fn register_and_remove() {
    let mut map = PathMap::new();
    let key = Key::new("/recoverykey".to_string());
    map.register_str(key.clone(), "m/44'/60'/0'/0/1").unwrap();
    assert_eq!(
        map.require(&key).unwrap().text(),
        "m/44'/60'/0'/0/1"
    );
    assert_eq!(map.len(), 1);
    map.remove(&key);
    assert!(map.get(&key).is_none());
    assert!(map.is_empty());
}

#[test]
fn derivation_paths_parse_to_components() {
    let p = parse_derivation_path("m/44'/60'/0'/0/7").unwrap();
    assert_eq!(p.components, vec![HARDENED + 44, HARDENED + 60, HARDENED, 0, 7]);
    assert_eq!(parse_derivation_path("m").unwrap().components, Vec::<u32>::new());
    assert_eq!(parse_derivation_path("m/1h").unwrap().text(), "m/1'");
    let top = DerivationPath { components: vec![0xffff_ffff, 0x7fff_ffff] };
    assert_eq!(top.text(), "m/2147483647'/2147483647");
    assert_eq!(parse_derivation_path(&top.text()).unwrap(), top);
}

#[test]
fn derivation_path_errors() {
    assert_eq!(
        parse_derivation_path("44'/60'").unwrap_err(),
        Error::Derivation("decoding error".to_string())
    );
    assert_eq!(
        parse_derivation_path("m/x").unwrap_err(),
        Error::Derivation("invalid child number".to_string())
    );
    assert_eq!(
        derivation_from(Err("why".to_string())).unwrap_err(),
        Error::Derivation("why".to_string())
    );
    let mut map = PathMap::new();
    assert!(map.register_str(key("/a"), "nonsense").is_err());
    assert!(map.is_empty());
    assert!(PathMap::with_default_pubkey(Some("nonsense")).is_err());
}

#[test]
fn ephemeral_rejects_ed25519() {
    let err = require_secp256k1_priv(&Codec::Other("Ed25519Priv".to_string())).unwrap_err();
    assert!(matches!(err, Error::UnsupportedCodec(_)));
    assert!(require_secp256k1_priv(&Codec::Secp256K1Priv).is_ok());
}

#[test]
fn ephemerals_are_made_for_supported_codecs() {
    let made = multikey("zEphemeral", false);
    assert_eq!(prepare_ephemeral(&Codec::Secp256K1Priv, Ok(made.clone())).unwrap(), made);
    assert_eq!(
        prepare_ephemeral(&Codec::Secp256K1Priv, Err("no entropy".to_string())).unwrap_err(),
        Error::Multikey("no entropy".to_string())
    );
    assert_eq!(
        prepare_ephemeral(&Codec::Other("Ed25519Priv".to_string()), Ok(made)).unwrap_err(),
        Error::UnsupportedCodec("Ed25519Priv".to_string())
    );
}

#[test]
fn default_pubkey_key_is_pubkey() {
    assert_eq!(default_pubkey_key().as_str(), "/pubkey");
    assert_eq!(default_pubkey_derivation(), "m/44'/60'/0'/0/0");
}

#[test]
fn exported_keys_are_cached_until_rebound() {
    let mut w = match KeycardWallet::new("session", None) {
        Ok(w) => w,
        Err(e) => panic!("{e:?}"),
    };
    assert_eq!(*w.session(), "session");
    let pubkey = default_pubkey_key();
    let path = match w.get_key(&pubkey, &Codec::Secp256K1Priv).unwrap() {
        KeyRequest::Export(path) => path,
        other => panic!("unexpected {other:?}"),
    };
    assert_eq!(path.text(), DEFAULT_PUBKEY_PATH);

    let exported = multikey("zCardKey", false);
    assert_eq!(
        w.accept_export(&pubkey, Ok(exported.clone()), Ok(vec![1])).unwrap(),
        exported
    );
    assert_eq!(
        w.get_key(&pubkey, &Codec::Secp256K1Priv).unwrap(),
        KeyRequest::Cached(exported.clone())
    );
    assert_eq!(w.cached_public_key(&pubkey), Some(exported));

    w.rebind_path(pubkey.clone(), "m/44'/60'/0'/0/1").unwrap();
    match w.get_key(&pubkey, &Codec::Secp256K1Priv).unwrap() {
        KeyRequest::Export(path) => assert_eq!(path.text(), "m/44'/60'/0'/0/1"),
        other => panic!("unexpected {other:?}"),
    }
}

#[test]
fn wallet_refuses_what_it_cannot_do() {
    let mut w = KeycardWallet::new((), None).unwrap_or_else(|e| panic!("{e:?}"));
    let other = key("/other");
    assert_eq!(
        w.get_key(&other, &Codec::Secp256K1Priv).unwrap_err(),
        Error::PathNotRegistered("/other".to_string())
    );
    assert_eq!(
        w.get_key(&default_pubkey_key(), &Codec::Other("Ed25519Priv".to_string())).unwrap_err(),
        Error::UnsupportedCodec("Ed25519Priv".to_string())
    );
    assert_eq!(
        w.signing_request(&other, b"x").unwrap_err(),
        Error::PathNotRegistered("/other".to_string())
    );
    let failed = w.accept_export(&other, Ok(multikey("zKey", false)), Err(Error::Multihash("h".to_string())));
    assert_eq!(failed.unwrap_err(), Error::Multihash("h".to_string()));
    assert_eq!(w.cached_public_key(&other), None);
    assert!(KeycardWallet::new((), Some("nonsense")).is_err());
}

#[test]
fn card_signs_a_digest_and_is_checked() {
    let mut w = KeycardWallet::new((), None).unwrap_or_else(|e| panic!("{e:?}"));
    let pubkey = default_pubkey_key();
    let request = w.signing_request(&pubkey, b"hello").unwrap();
    assert_eq!(request.prehash, logos_accounts::convert::sha256_prehash(b"hello"));
    assert_eq!(request.path.text(), DEFAULT_PUBKEY_PATH);

    let sig = || Multisig { encoded: "zSig".to_string(), bytes: vec![8] };
    // Without a cached key the check is not consulted.
    assert!(w.accept_signature(&pubkey, Ok(sig()), Err("unchecked".to_string())).is_ok());
    w.cache_public(&pubkey, multikey("zKey", false), Ok(vec![1])).unwrap();
    assert_eq!(
        w.accept_signature(&pubkey, Ok(sig()), Err("does not verify".to_string())).unwrap_err(),
        Error::Multikey("does not verify".to_string())
    );
    assert_eq!(w.accept_signature(&pubkey, Ok(sig()), Ok(())).unwrap(), sig());
    w.register_path(key("/recoverykey"), "m/1").unwrap();
    w.register_derivation(key("/third"), DerivationPath { components: vec![3] });
    assert_eq!(w.path_map().len(), 3);
}

#[test]
fn helper_hands_out_the_root_only() {
    let helper = EphemeralOpenHelper::new(multikey("zRoot", true), Ok(multikey("zPub", false))).unwrap();
    assert_eq!(helper.get_root_or_err(&key("/pubkey")).unwrap(), multikey("zPub", false));
    assert_eq!(
        helper.get_root_or_err(&key("/vlad/key")).unwrap_err(),
        Error::InvalidOp(
            "ephemeral open helper has no long-lived key for /vlad/key (only /pubkey is injected)"
                .to_string()
        )
    );
    assert_eq!(
        helper.try_sign(&key("/pubkey")).unwrap_err(),
        Error::InvalidOp(
            "ephemeral open helper cannot try_sign(/pubkey); long-lived keys are external".to_string()
        )
    );
    let kept = EphemeralOpenHelper::new(multikey("zPublic", false), Err("unused".to_string())).unwrap();
    assert_eq!(kept.get_root_or_err(&key("/pubkey")).unwrap(), multikey("zPublic", false));
    assert_eq!(
        EphemeralOpenHelper::new(multikey("zRoot", true), Err("no view".to_string())).unwrap_err(),
        Error::Multikey("no view".to_string())
    );
}

fn generated() -> Secrets {
    Secrets {
        pin: "111111".to_string(),
        puk: "222222222222".to_string(),
        pairing_password: "generated".to_string(),
    }
}

fn virgin() -> ApplicationInfo {
    ApplicationInfo { key_uid: None, instance_uid: [0; 16] }
}

#[test]
fn missing_secrets_are_generated() {
    let opts = KeycardCreateSecrets {
        pin: Some("123456".to_string()),
        puk: None,
        pairing_password: None,
    };
    let s = build_secrets(&opts, &generated());
    assert_eq!(s.pin, "123456");
    assert_eq!(s.puk, "222222222222");
    assert_eq!(s.pairing_password, "generated");
    assert_eq!(build_secrets(&KeycardCreateSecrets::default(), &generated()), generated());
}

#[test]
fn prompts_are_answered() {
    let s = generated();
    assert_eq!(s.answer("Enter PAIRING password:"), "generated");
    assert_eq!(s.answer("Enter PIN"), "111111");
    assert_eq!(s.answer_lowercase("pairing"), "generated");
    assert_eq!(s.answer_lowercase("PAIRING"), "111111");
}

fn drive(setup: CardSetup, replies: Vec<CardReply>) -> Result<CardSetup, Error> {
    let mut state = setup;
    for reply in replies {
        state = state.advance(reply)?;
    }
    Ok(state)
}

#[test]
fn virgin_card_is_set_up() {
    let setup = CardSetup::start(&KeycardCreateSecrets::default(), &generated(), None);
    assert_eq!(setup.step, SetupStep::Connect);
    let done = drive(
        setup,
        vec![
            CardReply::Done,
            CardReply::Selected(virgin()),
            CardReply::Done,
            CardReply::Done,
            CardReply::Paired(PairingInfo { key: [0xab; 32], index: 4 }),
            CardReply::Done,
            CardReply::Done,
        ],
    )
    .unwrap();
    let card = done.finish("session").unwrap_or_else(|e| panic!("{e:?}"));
    assert_eq!(card.credentials.pin, "111111");
    assert_eq!(card.credentials.puk, "222222222222");
    assert_eq!(card.credentials.pairing_password, "generated");
    assert_eq!(card.credentials.pairing_key_hex, "ab".repeat(32));
    assert_eq!(card.credentials.pairing_index, 4);
    assert_eq!(card.derivation_path, DEFAULT_PUBKEY_PATH);
    let (wallet, credentials) = card.into_wallet().unwrap_or_else(|e| panic!("{e:?}"));
    assert_eq!(*wallet.session(), "session");
    assert_eq!(credentials.pairing_index, 4);
}

#[test]
fn used_card_is_refused() {
    let start = || CardSetup::start(&KeycardCreateSecrets::default(), &generated(), Some("m/1"));
    let used = ApplicationInfo { key_uid: Some(vec![1]), instance_uid: [0; 16] };
    assert!(!is_virgin_app_info(&used));
    assert!(is_virgin_app_info(&virgin()));
    assert_eq!(
        drive(start(), vec![CardReply::Done, CardReply::Selected(used)]).unwrap_err(),
        Error::KeycardNotVirgin(
            "card already initialized or has keys (key_uid present: true, instance_uid non-zero: false)"
                .to_string()
        )
    );
    let mut uid = [0u8; 16];
    uid[15] = 1;
    let used = ApplicationInfo { key_uid: None, instance_uid: uid };
    assert_eq!(
        drive(start(), vec![CardReply::Done, CardReply::Selected(used)]).unwrap_err(),
        Error::KeycardNotVirgin(
            "card already initialized or has keys (key_uid present: false, instance_uid non-zero: true)"
                .to_string()
        )
    );
    assert_eq!(
        drive(
            start(),
            vec![
                CardReply::Done,
                CardReply::Selected(virgin()),
                CardReply::AlreadyInitialized("card is initialized".to_string()),
            ],
        )
        .unwrap_err(),
        Error::KeycardNotVirgin("card is initialized".to_string())
    );
}

#[test]
fn card_failures_end_the_setup() {
    let start = || CardSetup::start(&KeycardCreateSecrets::default(), &generated(), None);
    assert_eq!(
        drive(start(), vec![CardReply::Failed("no reader".to_string())]).unwrap_err(),
        Error::Keycard("no reader".to_string())
    );
    assert_eq!(
        drive(start(), vec![CardReply::AlreadyInitialized("odd".to_string())]).unwrap_err(),
        Error::Keycard("odd".to_string())
    );
    assert_eq!(
        drive(start(), vec![CardReply::Selected(virgin())]).unwrap_err(),
        Error::Keycard("card reply does not belong to this step".to_string())
    );
    assert!(start().finish(()).is_err());
}

#[test]
fn binding_record_verifies() {
    let vlad = Vlad { encoded: "uAQID".to_string() };
    let record = vlad_binding_record(&vlad);
    assert!(verify_vlad_binding(Ok(record.to_vec()), &vlad).is_ok());
    assert!(matches!(
        verify_vlad_binding(Ok(vec![]), &vlad),
        Err(Error::CardBindingMismatch(_))
    ));
    assert_eq!(
        verify_vlad_binding(Err(Error::Keycard("gone".to_string())), &vlad).unwrap_err(),
        Error::Keycard("gone".to_string())
    );
}

#[test]
fn create_results() {
    let summary = || AccountSummary {
        vlad: "zVlad".to_string(),
        head_cid: "zHead".to_string(),
        pubkey: Some("zKey".to_string()),
    };
    let plain = CreateAccountResult::from_summary(summary());
    assert_eq!(plain.vlad, "zVlad");
    assert_eq!(plain.head_cid, "zHead");
    assert_eq!(plain.pubkey.as_deref(), Some("zKey"));
    assert!(plain.keycard.is_none());
}

#[test]
fn exports_hold_a_public_key() {
    assert_eq!(exported_public_key(Ok(Some(vec![2; 33]))).unwrap(), vec![2; 33]);
    assert_eq!(
        exported_public_key(Ok(None)).unwrap_err(),
        Error::UnexpectedExport("missing public key in export".to_string())
    );
    assert_eq!(
        exported_public_key(Err("gone".to_string())).unwrap_err(),
        Error::Keycard("gone".to_string())
    );
}
