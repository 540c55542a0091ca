use logos_accounts::account_ops::{parse_ops_json, AccountOp};
use logos_accounts::config::{
    default_open_config, default_update_config, delegate_pubkey_key, delegated_branch_lock_script,
    key_under_branch, parse_branch_path, parse_key, pubkey_key_path, update_config_with_ops,
    update_config_with_signing_key, DEFAULT_ENTRY_LOCK, DEFAULT_ENTRY_UNLOCK,
};
use logos_accounts::delegation::ensure_ops_under_branch;
use logos_accounts::entry_update::{
    head_cid, locks_replacing_path, next_seqno, op_from_params, prepare_next_entry, use_key_op,
    LongHop, NextEntrySpec,
};
use logos_accounts::key::KeyText;
use logos_accounts::ops::OpParams;
use logos_accounts::plog::{
    Cid, Codec, Entry, KvpItem, Log, Multikey, Op, Script, Value, VerifiedEntry, VerifyStep, Vlad,
};
use logos_accounts::values::{ensure_plog_verified, get_plog_value, PlogPathValue};
use logos_accounts::{Error, Key};

fn key(s: &str) -> Key {
    Key::new(s.to_string())
}

/// A stand-in for a log's key parser: a key path starts at the root.
fn at(text: &str) -> KeyText {
    let parsed = match text.strip_prefix('/') {
        Some(_) => Ok(Key::new(text.to_string())),
        None => Err("key path has no root".to_string()),
    };
    KeyText { text: text.to_string(), parsed }
}

fn code(path: &str, text: &str) -> Script {
    Script::Code(key(path), text.to_string())
}

fn cid(n: u64) -> Cid {
    Cid { encoded: format!("zCid{n}"), bytes: vec![n as u8] }
}

fn entry(seqno: u64, locks: Vec<Script>) -> Entry {
    Entry { vlad: Vlad { encoded: "zVlad".to_string() }, cid: cid(seqno), seqno, locks }
}

fn log_of(steps: Vec<VerifyStep>) -> Log {
    Log {
        vlad: Vlad { encoded: "zVlad".to_string() },
        head: cid(9),
        steps,
        encoded: "zLog".to_string(),
        bytes: vec![1, 2],
    }
}

fn verified(seqno: u64, kvp: Vec<KvpItem>) -> VerifyStep {
    VerifyStep::Verified(VerifiedEntry {
        entry: entry(seqno, vec![code("/", DEFAULT_ENTRY_LOCK)]),
        kvp,
    })
}

#[test]
fn config_open_config_is_secp256k1() {
    let cfg = default_open_config();
    assert!(matches!(
        cfg.lock_script(),
        Script::Code(_, s) if s == DEFAULT_ENTRY_LOCK
    ));
    assert!(matches!(
        cfg.unlock(),
        Script::Code(_, s) if s == DEFAULT_ENTRY_UNLOCK
    ));
    assert_eq!(pubkey_key_path().as_str(), "/pubkey");
    assert_eq!(cfg.vlad_key, Codec::Secp256K1Priv);
    assert_eq!(cfg.first_entry_codec, Codec::Secp256K1Priv);
    assert_eq!(cfg.pubkey_codec, Codec::Secp256K1Priv);
}

#[test]
fn default_scripts() {
    assert_eq!(DEFAULT_ENTRY_LOCK, r#"check_signature("/pubkey", "/entry/")"#);
    assert_eq!(DEFAULT_ENTRY_UNLOCK, r#"push("/entry/"); push("/entry/proof")"#);
}

#[test]
fn update_configs() {
    let d = default_update_config();
    assert_eq!(d.entry_signing_key.as_str(), "/pubkey");
    assert!(d.additional_ops.is_empty());
    assert_eq!(d.unlock, code("/", DEFAULT_ENTRY_UNLOCK));
    let w = update_config_with_ops(vec![OpParams::Noop { key: key("/a") }]);
    assert_eq!(w.entry_signing_key.as_str(), "/pubkey");
    assert_eq!(w.additional_ops, vec![OpParams::Noop { key: key("/a") }]);
    let s = update_config_with_signing_key(key("/apps/chat/pubkey"), vec![]);
    assert_eq!(s.entry_signing_key.as_str(), "/apps/chat/pubkey");
}

#[test]
fn branch_path_validation() {
    assert!(parse_branch_path(&at("/apps/chat/")).is_ok());
    assert!(parse_branch_path(&at("/apps/chat")).is_err());
    assert!(parse_branch_path(&at("/")).is_err());
    let b = parse_branch_path(&at("/apps/chat/")).unwrap();
    assert_eq!(delegate_pubkey_key(&b).unwrap().as_str(), "/apps/chat/pubkey");
    assert!(key_under_branch(
        &Key::new("/apps/chat/rooms/1".to_string()),
        &b
    ));
    assert!(!key_under_branch(
        &Key::new("/other".to_string()),
        &b
    ));
}

#[test]
fn branch_path_errors() {
    assert_eq!(
        parse_branch_path(&at("/apps/chat")).unwrap_err(),
        Error::InvalidOp(
            "delegation path must be a branch ending with '/', got /apps/chat".to_string()
        )
    );
    assert_eq!(
        parse_branch_path(&at("/")).unwrap_err(),
        Error::InvalidOp("cannot delegate the root path '/'".to_string())
    );
    assert_eq!(
        parse_branch_path(&at("apps/")).unwrap_err(),
        Error::InvalidOp("invalid key path apps/: key path has no root".to_string())
    );
    assert_eq!(
        delegate_pubkey_key(&key("/apps")).unwrap_err(),
        Error::InvalidOp("delegation path must be a branch (trailing '/'), got /apps".to_string())
    );
}

#[test]
fn key_paths_are_checked() {
    assert_eq!(parse_key(&at("/a")).unwrap(), key("/a"));
    assert_eq!(
        parse_key(&at("a")).unwrap_err(),
        Error::InvalidOp("invalid key path a: key path has no root".to_string())
    );
    let respelled = KeyText { text: "/a//b/".to_string(), parsed: Ok(key("/a/b/")) };
    assert_eq!(parse_branch_path(&respelled).unwrap(), key("/a/b/"));
    assert!(key("/").is_branch());
    assert!(!key("/a").is_branch());
    assert!(key("/a/").parent_of(&key("/a/")));
    assert!(!key("/a").parent_of(&key("/a/b")));
}

#[test]
fn delegated_lock_uses_absolute_pubkey_path() {
    let lock = delegated_branch_lock_script(Key::new("/delegated/".to_string()));
    match lock {
        Script::Code(path, code) => {
            assert_eq!(path.as_str(), "/delegated/");
            assert!(code.contains(r#"check_signature("/delegated/pubkey", "/entry/")"#));
        }
        other => panic!("unexpected script {other:?}"),
    }
}

#[test]
fn replacing_locks_at_a_path() {
    let head = entry(0, vec![code("/", "root"), code("/a/", "old"), code("/b/", "b"), code("/a/", "older")]);
    let replaced = locks_replacing_path(&head, &key("/a/"), Some(code("/a/", "new")));
    assert_eq!(replaced, vec![code("/", "root"), code("/b/", "b"), code("/a/", "new")]);
    let dropped = locks_replacing_path(&head, &key("/a/"), None);
    assert_eq!(dropped, vec![code("/", "root"), code("/b/", "b")]);
}

#[test]
fn operations_become_mutations() {
    let mk = Multikey { encoded: "zKey".to_string(), bytes: vec![4, 5], secret: false };
    assert_eq!(
        op_from_params(&OpParams::Noop { key: key("/a") }).unwrap(),
        Op::Noop(key("/a"))
    );
    assert_eq!(
        op_from_params(&OpParams::Delete { key: key("/a") }).unwrap(),
        Op::Delete(key("/a"))
    );
    assert_eq!(
        op_from_params(&OpParams::UseStr { key: key("/a"), s: "x".to_string() }).unwrap(),
        Op::Update(key("/a"), Value::Str("x".to_string()))
    );
    assert_eq!(
        op_from_params(&OpParams::UseBin { key: key("/a"), data: vec![1] }).unwrap(),
        Op::Update(key("/a"), Value::Data(vec![1]))
    );
    assert_eq!(
        op_from_params(&use_key_op(key("/a"), mk)).unwrap(),
        Op::Update(key("/a"), Value::Data(vec![4, 5]))
    );
    assert_eq!(
        op_from_params(&OpParams::UseCid { key: key("/a"), cid: cid(3) }).unwrap(),
        Op::Update(key("/a"), Value::Data(vec![3]))
    );
    assert_eq!(
        op_from_params(&OpParams::CidGen { key: key("/a"), rest: vec![1] }).unwrap_err(),
        Error::InvalidOp(
            "KeyGen/CidGen must be resolved by BetterSign before entry assembly".to_string()
        )
    );
}

/// A long hop to a position.
fn hop(seqno: u64) -> Option<LongHop> {
    Some(LongHop { seqno, missing: "no such entry".to_string() })
}

#[test]
fn next_entry_continues_the_head() {
    let log = log_of(vec![verified(0, vec![]), verified(1, vec![])]);
    assert_eq!(next_seqno(&log).unwrap(), 2);
    assert_eq!(head_cid(&log).encoded, "zCid9");
    let next = prepare_next_entry(&log, NextEntrySpec::default(), hop(0)).unwrap();
    assert_eq!(next.seqno, 2);
    assert_eq!(next.prev, cid(1));
    assert_eq!(next.vlad.encoded, "zVlad");
    assert_eq!(next.locks, vec![code("/", DEFAULT_ENTRY_LOCK)]);
    assert_eq!(next.unlock, code("/", DEFAULT_ENTRY_UNLOCK));
    assert_eq!(next.lipmaa, Some(cid(0)));
    assert!(next.ops.is_empty());
    let unlinked = prepare_next_entry(&log, NextEntrySpec::default(), None).unwrap();
    assert_eq!(unlinked.lipmaa, None);
    let near = prepare_next_entry(&log, NextEntrySpec::default(), hop(1)).unwrap();
    assert_eq!(near.lipmaa, Some(cid(1)));
}

#[test]
fn next_entry_needs_a_verified_head() {
    let spec = || NextEntrySpec::default();
    assert_eq!(
        prepare_next_entry(&log_of(vec![]), spec(), None).unwrap_err(),
        Error::PlogVerifyFailed("empty provenance log".to_string())
    );
    let bad = log_of(vec![verified(0, vec![]), VerifyStep::Rejected("bad proof".to_string())]);
    assert_eq!(
        prepare_next_entry(&bad, spec(), None).unwrap_err(),
        Error::Plog("bad proof".to_string())
    );
    let good = log_of(vec![verified(0, vec![])]);
    assert_eq!(
        prepare_next_entry(&good, spec(), hop(5)).unwrap_err(),
        Error::Plog("no such entry".to_string())
    );
}

#[test]
fn values_are_read_from_the_verified_head() {
    let item = |path: &str, value: Value, multikey: Option<&str>| KvpItem {
        key: key(path),
        value,
        multikey: multikey.map(|s| s.to_string()),
    };
    let log = log_of(vec![verified(
        0,
        vec![
            item("/name", Value::Str("alice".to_string()), None),
            item("/bin", Value::Data(vec![1, 2, 3]), None),
            item("/pubkey", Value::Data(vec![7]), Some("zKey")),
            item("/nil", Value::Nil, None),
        ],
    )]);
    assert_eq!(get_plog_value(&log, &at("/name")).unwrap(), PlogPathValue::Str("alice".to_string()));
    assert_eq!(get_plog_value(&log, &at("/bin")).unwrap(), PlogPathValue::Bin("uAQID".to_string()));
    assert_eq!(get_plog_value(&log, &at("/pubkey")).unwrap(), PlogPathValue::Bin("zKey".to_string()));
    assert_eq!(get_plog_value(&log, &at("/nil")).unwrap(), PlogPathValue::Bin("u".to_string()));
    assert_eq!(
        get_plog_value(&log, &at("/none")).unwrap_err(),
        Error::PathNotFound("/none".to_string())
    );
    assert!(matches!(get_plog_value(&log, &at("none")), Err(Error::InvalidOp(_))));
}

#[test]
fn rejected_logs_are_not_read() {
    let bad = log_of(vec![
        VerifyStep::Rejected("first".to_string()),
        VerifyStep::Rejected("second".to_string()),
        verified(2, vec![]),
    ]);
    let why = Error::PlogVerifyFailed("first".to_string());
    assert_eq!(ensure_plog_verified(&bad).unwrap_err(), why);
    assert_eq!(get_plog_value(&bad, &at("/name")).unwrap_err(), why);
    assert_eq!(
        ensure_plog_verified(&log_of(vec![])).unwrap_err(),
        Error::PlogVerifyFailed("empty provenance log".to_string())
    );
}

#[test]
fn path_updates_stay_in_their_branch() {
    let branch = key("/apps/chat/");
    let put = |path: &str| OpParams::UseStr { key: key(path), s: "x".to_string() };
    assert!(ensure_ops_under_branch(&vec![put("/apps/chat/rooms/1")], &branch).is_ok());
    assert_eq!(
        ensure_ops_under_branch(&vec![], &branch).unwrap_err(),
        Error::InvalidOp("path update requires at least one operation".to_string())
    );
    assert_eq!(
        ensure_ops_under_branch(&vec![put("/apps/chat/a"), put("/other")], &branch).unwrap_err(),
        Error::PathEscape("/apps/chat/".to_string(), "/other".to_string())
    );
    assert_eq!(
        ensure_ops_under_branch(&vec![put("/apps/chat/pubkey")], &branch).unwrap_err(),
        Error::InvalidOp(
            "cannot modify delegation key /apps/chat/pubkey via path update; use revoke_path / delegate_path"
                .to_string()
        )
    );
}

#[test]
fn blank_ops_ask_for_nothing() {
    assert!(parse_ops_json("  ", Err("unused".to_string())).unwrap().is_empty());
    assert!(parse_ops_json(" [] ", Err("unused".to_string())).unwrap().is_empty());
    assert_eq!(
        parse_ops_json("{", Err("EOF".to_string())).unwrap_err(),
        Error::Encoding("EOF".to_string())
    );
}

#[test]
fn the_first_refused_operation_decides() {
    let ops = vec![
        AccountOp::Noop { key: at("/ok") },
        AccountOp::UseBin { key: at("/bin"), data_multibase: "~".to_string() },
        AccountOp::Delete { key: at("bad") },
    ];
    assert!(matches!(parse_ops_json("[..]", Ok(ops)), Err(Error::Encoding(_))));
    let op = AccountOp::UseBin { key: at("/bin"), data_multibase: "uAQID".to_string() };
    assert_eq!(
        op.into_op_params().unwrap(),
        OpParams::UseBin { key: key("/bin"), data: vec![1, 2, 3] }
    );
}

#[test]
fn branches_cover_transitively() {
    let (a, b, c) = (key("/a/"), key("/a/b/"), key("/a/b/c"));
    assert!(a.parent_of(&b) && b.parent_of(&c) && a.parent_of(&c));
    assert!(!b.parent_of(&a));
    assert!(!key("/a/").parent_of(&key("/ab/c")));
}

#[test]
fn delegate_keys_lie_in_their_branches() {
    for path in ["/a/", "/apps/chat/", "/pubkey/"] {
        let branch = parse_branch_path(&at(path)).unwrap();
        let delegate = delegate_pubkey_key(&branch).unwrap();
        assert!(key_under_branch(&delegate, &branch));
        assert_eq!(delegate.as_str(), format!("{path}pubkey"));
    }
}

#[test]
fn operations_keep_their_order() {
    let ops = vec![
        AccountOp::UseStr { key: at("/a"), value: "b".to_string() },
        AccountOp::Delete { key: at("/old") },
    ];
    assert_eq!(
        parse_ops_json("[..]", Ok(ops)).unwrap(),
        vec![
            OpParams::UseStr { key: key("/a"), s: "b".to_string() },
            OpParams::Delete { key: key("/old") },
        ]
    );
}
