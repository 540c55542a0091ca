use logos_accounts::account_ops::{parse_ops_json, AccountOp};
use logos_accounts::api::{created_on_keycard, AccountsApi, CommitRequest, RootSigning};
use logos_accounts::challenge::{
    challenge_id_from, new_challenge_id, still_live, PathUpdateChallenge, CHALLENGE_TTL,
};
use logos_accounts::config::{UpdateConfig, DEFAULT_ENTRY_LOCK};
use logos_accounts::encoding::{decode_bytes_multibase, decode_multikey, encode_bytes_multibase};
use logos_accounts::entry_update::{op_from_params, LongHop, NextEntry};
use logos_accounts::ephemeral_open::EphemeralOpenHelper;
use logos_accounts::key::KeyText;
use logos_accounts::keycard_lifecycle::InitializedKeycard;
use logos_accounts::module::{AccountsModule, Event, UpdateKind};
use logos_accounts::ops::OpParams;
use logos_accounts::path_map::DEFAULT_PUBKEY_PATH;
use logos_accounts::plog::{
    Cid, Entry, KvpItem, Log, Multikey, Multisig, Op, Script, Value, VerifiedEntry, VerifyStep, Vlad,
};
use logos_accounts::storage::KeycardCredentials;
use logos_accounts::values::{ensure_plog_verified, get_plog_value, AccountSummary, PlogPathValue};
use logos_accounts::vlad_hash::vlad_hash;
use logos_accounts::wallet::{default_pubkey_key, KeyRequest, KeycardWallet};
use logos_accounts::{Error, Key};

const SEC: u64 = 1_000_000_000;

fn key(s: &str) -> Key {
    Key::new(s.to_string())
}

/// A stand-in for a log's key parser: a key path starts at the root.
fn at(text: &str) -> KeyText {
    let parsed = match text.strip_prefix('/') {
        Some(_) => Ok(Key::new(text.to_string())),
        None => Err("key path has no root".to_string()),
    };
    KeyText { text: text.to_string(), parsed }
}

/// A stand-in for a Multikey decoder: a text that starts with `zSecret` is a secret key.
fn multikey(text: &str) -> Multikey {
    Multikey {
        encoded: text.to_string(),
        bytes: text.as_bytes().to_vec(),
        secret: text.starts_with("zSecret"),
    }
}

fn signature(text: &str) -> Multisig {
    Multisig { encoded: text.to_string(), bytes: text.as_bytes().to_vec() }
}

/// A stand-in for a provenance log: it appends entries and applies their mutations.
struct Chain {
    vlad: String,
    entries: Vec<(u64, Vec<Script>, Vec<(Key, Value)>)>,
}

impl Chain {
    fn open(vlad: &str, pubkey: &str) -> Chain {
        let locks = vec![Script::Code(Key::root(), DEFAULT_ENTRY_LOCK.to_string())];
        let state = vec![(key("/pubkey"), Value::Data(pubkey.as_bytes().to_vec()))];
        Chain { vlad: vlad.to_string(), entries: vec![(0, locks, state)] }
    }

    fn cid(n: u64) -> Cid {
        Cid { encoded: format!("zCid{n}"), bytes: vec![n as u8] }
    }

    fn copy_value(v: &Value) -> Value {
        match v {
            Value::Nil => Value::Nil,
            Value::Str(s) => Value::Str(s.clone()),
            Value::Data(b) => Value::Data(b.clone()),
        }
    }

    /// Data that starts with `z` counts as a Multikey.
    fn multikey_text(v: &Value) -> Option<String> {
        match v {
            Value::Data(b) if b.first() == Some(&b'z') => String::from_utf8(b.clone()).ok(),
            _ => None,
        }
    }

    fn log(&self) -> Log {
        let mut steps = Vec::new();
        for (seqno, locks, state) in &self.entries {
            let mut kvp = Vec::new();
            for (k, v) in state {
                kvp.push(KvpItem {
                    key: k.clone(),
                    value: Chain::copy_value(v),
                    multikey: Chain::multikey_text(v),
                });
            }
            steps.push(VerifyStep::Verified(VerifiedEntry {
                entry: Entry {
                    vlad: Vlad { encoded: self.vlad.clone() },
                    cid: Chain::cid(*seqno),
                    seqno: *seqno,
                    locks: locks.clone(),
                },
                kvp,
            }));
        }
        let head = self.entries.len() as u64 - 1;
        Log {
            vlad: Vlad { encoded: self.vlad.clone() },
            head: Chain::cid(head),
            steps,
            encoded: format!("zLog{head}"),
            bytes: vec![head as u8],
        }
    }

    fn apply(&mut self, locks: Vec<Script>, ops: &[Op]) {
        let (seqno, _, state) = self.entries.last().unwrap();
        let mut next: Vec<(Key, Value)> =
            state.iter().map(|(k, v)| (k.clone(), Chain::copy_value(v))).collect();
        let seqno = seqno + 1;
        for op in ops {
            match op {
                Op::Noop(_) => {}
                Op::Delete(k) => next.retain(|(other, _)| other != k),
                Op::Update(k, v) => {
                    next.retain(|(other, _)| other != k);
                    next.push((k.clone(), Chain::copy_value(v)));
                }
            }
        }
        self.entries.push((seqno, locks, next));
    }

    fn append(&mut self, entry: &NextEntry) {
        assert_eq!(entry.prev, Chain::cid(self.entries.len() as u64 - 1));
        assert_eq!(entry.seqno, self.entries.len() as u64);
        self.apply(entry.locks.clone(), &entry.ops);
    }

    fn update(&mut self, cfg: &UpdateConfig) {
        let ops: Vec<Op> = cfg.additional_ops.iter().map(|p| op_from_params(p).unwrap()).collect();
        let locks = self.entries.last().unwrap().1.clone();
        self.apply(locks, &ops);
    }
}

/// A long hop to a position.
fn hop(seqno: u64) -> Option<LongHop> {
    Some(LongHop { seqno, missing: "no entry".to_string() })
}

fn serialize(entry: &NextEntry) -> Vec<u8> {
    format!("{entry:?}").into_bytes()
}

fn text_of(v: &serde_json::Value, name: &str) -> Result<String, String> {
    match v.get(name).and_then(|s| s.as_str()) {
        Some(s) => Ok(s.to_string()),
        None => Err(format!("missing field `{name}`")),
    }
}

fn decode_ops(s: &str) -> Result<Vec<AccountOp>, String> {
    let v: serde_json::Value = serde_json::from_str(s).map_err(|e| e.to_string())?;
    let mut out = Vec::new();
    for op in v.as_array().ok_or("expected an array".to_string())? {
        let key = at(&text_of(op, "key")?);
        out.push(match text_of(op, "op")?.as_str() {
            "noop" => AccountOp::Noop { key },
            "delete" => AccountOp::Delete { key },
            "use_str" => AccountOp::UseStr { key, value: text_of(op, "value")? },
            "use_bin" => AccountOp::UseBin { key, data_multibase: text_of(op, "data_multibase")? },
            other => return Err(format!("unknown variant `{other}`")),
        });
    }
    Ok(out)
}

/// A service with the software wallet `"wallet"` and a new account.
fn account(chain: &Chain) -> (AccountsApi<&'static str>, AccountSummary) {
    let mut api = AccountsApi::software("wallet");
    let created = api.create_account(Ok(chain.log())).expect("create_account");
    (api, created)
}

fn update(api: &mut AccountsApi<&'static str>, chain: &mut Chain, ops: &str) -> AccountSummary {
    let cfg = api.update_account(ops, decode_ops(ops)).unwrap();
    chain.update(&cfg);
    api.accept_update(Ok(chain.log())).unwrap()
}

fn append_signed(
    api: &mut AccountsApi<&'static str>,
    chain: &mut Chain,
    entry: NextEntry,
) -> AccountSummary {
    let message = serialize(&entry);
    let signing: RootSigning = api.root_signing_request(entry, Ok(message.clone())).unwrap();
    assert_eq!(signing.key.as_str(), "/pubkey");
    assert_eq!(signing.update.message, message);
    chain.append(&signing.update.entry);
    api.accept_update(Ok(chain.log())).unwrap()
}

fn delegate(api: &mut AccountsApi<&'static str>, chain: &mut Chain, path: &str, pk: &str) -> AccountSummary {
    let entry = api.delegate_path(&at(path), Ok(multikey(pk)), None).expect("delegate");
    append_signed(api, chain, entry)
}

fn prepare(
    api: &mut AccountsApi<&'static str>,
    path: &str,
    ops: &str,
    now: u64,
) -> Result<PathUpdateChallenge, Error> {
    let plan = api.prepare_path_update(&at(path), ops, decode_ops(ops), None, now)?;
    let message = serialize(&plan.entry);
    api.issue_challenge(plan, Ok(message), now)
}

#[test]
fn create_update_export_import_get_value() {
    let mut chain = Chain::open("zVlad", "zRootKey");
    let mut api = AccountsApi::software("wallet");
    assert!(api.is_connected());
    assert!(!api.has_account());

    let created = api.create_account(Ok(chain.log())).expect("create_account");
    assert!(!created.vlad.is_empty());
    assert!(!created.head_cid.is_empty());
    assert!(created.pubkey.is_some());

    let pk = api.get_value(&at("/pubkey")).expect("get /pubkey");
    assert!(matches!(pk, PlogPathValue::Bin(_)));
    assert_eq!(
        match &pk {
            PlogPathValue::Bin(s) => s.as_str(),
            _ => unreachable!(),
        },
        created.pubkey.as_deref().unwrap()
    );

    let ops = r#"[{"op":"use_str","key":"/profile/name","value":"alice"}]"#;
    let updated = update(&mut api, &mut chain, ops);
    assert_ne!(updated.head_cid, created.head_cid);

    assert_eq!(
        api.get_value(&at("/profile/name")).unwrap(),
        PlogPathValue::Str("alice".into())
    );

    let exported = api.export_plog().expect("export");
    let exported_bytes = api.export_plog_bytes().expect("export bytes");
    assert_eq!(exported, chain.log().encoded);
    assert_eq!(exported_bytes, chain.log().bytes);

    let mut api2 = AccountsApi::software("wallet");
    let loaded = api2.load_account(Ok(chain.log())).expect("load multibase");
    assert_eq!(loaded.vlad, created.vlad);
    assert_eq!(loaded.head_cid, updated.head_cid);
    assert_eq!(
        api2.get_value(&at("/profile/name")).unwrap(),
        PlogPathValue::Str("alice".into())
    );

    let loaded_b = {
        let mut api3 = AccountsApi::software("wallet");
        api3.load_account_bytes(Ok(chain.log())).expect("load bytes")
    };
    assert_eq!(loaded_b.vlad, created.vlad);
}

#[test]
fn load_rejects_unverified_plog() {
    let chain = Chain::open("zVlad", "zRootKey");
    let mut corrupt = chain.log();
    corrupt.steps.push(VerifyStep::Rejected("bad proof".to_string()));
    let mut api2 = AccountsApi::software("wallet");
    let err = api2.load_account(Ok(corrupt));
    assert!(err.is_err(), "corrupt plog should not load; got {err:?}");
    assert_eq!(err.unwrap_err(), Error::PlogVerifyFailed("bad proof".to_string()));
    assert!(!api2.has_account());
    let undecodable = api2.load_account(Err("bad multibase".to_string()));
    assert_eq!(undecodable.unwrap_err(), Error::Encoding("bad multibase".to_string()));
    let raw = api2.load_account_bytes(Err("bad bytes".to_string()));
    assert_eq!(raw.unwrap_err(), Error::Plog("bad bytes".to_string()));
    let loaded = api2.load_account(Ok(chain.log())).unwrap();
    assert_eq!(loaded.vlad, "zVlad");
}

#[test]
fn get_value_missing_path() {
    let chain = Chain::open("zVlad", "zRootKey");
    let (api, _) = account(&chain);
    let err = api.get_value(&at("/does/not/exist")).unwrap_err();
    assert!(matches!(err, Error::PathNotFound(_)), "{err:?}");
}

#[test]
fn ops_json_and_not_connected() {
    let chain = Chain::open("zVlad", "zRootKey");
    let mut api: AccountsApi<u8> = AccountsApi::new();
    assert!(matches!(
        api.create_account(Ok(chain.log())).err(),
        Some(Error::NotConnected)
    ));
    assert!(matches!(api.open_request().err(), Some(Error::NotConnected)));

    let text = r#"[
              {"op":"use_str","key":"/a","value":"b"},
              {"op":"delete","key":"/old"},
              {"op":"use_bin","key":"/bin","data_multibase":"uAQID"}
            ]"#;
    let ops = parse_ops_json(text, decode_ops(text)).expect("parse ops");
    assert_eq!(ops.len(), 3);
}

#[test]
fn entry_proofs_pubkey_from_plog() {
    let helper = EphemeralOpenHelper::new(multikey("zSecretRoot"), Ok(multikey("zRootKey"))).unwrap();
    let root = helper.get_root_or_err(&key("/pubkey")).unwrap();
    let mut chain = Chain::open("zVlad", &root.encoded);
    let (mut api, created) = account(&chain);
    let pubkey_mb = created.pubkey.expect("pubkey");
    let pk = decode_multikey(Ok(multikey(&pubkey_mb))).unwrap();
    assert!(!pk.secret);

    update(&mut api, &mut chain, "[]");
    match api.get_value(&at("/pubkey")).unwrap() {
        PlogPathValue::Bin(s) => assert_eq!(s, pubkey_mb),
        other => panic!("expected bin pubkey, got {other:?}"),
    }
}

#[test]
fn path_delegation_prepare_commit_external_key() {
    let mut chain = Chain::open("zVlad", "zRootKey");
    let (mut api, created) = account(&chain);
    let pk_mb = "zPeerKey";

    let del = delegate(&mut api, &mut chain, "/apps/chat/", pk_mb);
    assert_ne!(del.head_cid, created.head_cid);

    let list = api.list_delegations().expect("list");
    assert_eq!(list.len(), 1);
    assert_eq!(list[0].path, "/apps/chat/");
    assert_eq!(list[0].pubkey, pk_mb);

    let err = prepare(
        &mut api,
        "/apps/chat/",
        r#"[{"op":"use_str","key":"/other","value":"x"}]"#,
        0,
    )
    .unwrap_err();
    assert!(matches!(err, Error::PathEscape(_, _)), "{err:?}");

    let challenge = prepare(
        &mut api,
        "/apps/chat/",
        r#"[{"op":"use_str","key":"/apps/chat/rooms/1","value":"general"}]"#,
        0,
    )
    .expect("prepare");
    assert_eq!(challenge.signing_key_path, "/apps/chat/pubkey");
    assert_eq!(challenge.message_encoding, "entry-bytes");
    assert_eq!(challenge.path, "/apps/chat/");
    assert_eq!(challenge.vlad, "zVlad");
    assert_eq!(challenge.head_cid, del.head_cid);

    let message = decode_bytes_multibase(&challenge.message_multibase).unwrap();
    let commit: CommitRequest =
        api.commit_path_update(&challenge.challenge_id, Ok(signature("zSig")), 1).expect("commit");
    assert_eq!(serialize(&commit.entry), message);
    assert_eq!(commit.proof, b"zSig".to_vec());
    chain.append(&commit.entry);
    let committed = api.accept_update(Ok(chain.log())).unwrap();
    assert_ne!(committed.head_cid, del.head_cid);
    assert_eq!(
        api.get_value(&at("/apps/chat/rooms/1")).unwrap(),
        PlogPathValue::Str("general".into())
    );

    let root_up = update(
        &mut api,
        &mut chain,
        r#"[{"op":"use_str","key":"/profile/name","value":"alice"}]"#,
    );
    assert_ne!(root_up.head_cid, committed.head_cid);

    let entry = api.revoke_path(&at("/apps/chat/"), None).expect("revoke");
    append_signed(&mut api, &mut chain, entry);
    assert!(api.list_delegations().unwrap().is_empty());
    let err = prepare(
        &mut api,
        "/apps/chat/",
        r#"[{"op":"use_str","key":"/apps/chat/rooms/1","value":"x"}]"#,
        2,
    )
    .unwrap_err();
    assert!(matches!(err, Error::PathNotDelegated(_)), "{err:?}");
}

#[test]
fn path_update_with_wallet_held_delegate_key() {
    let mut chain = Chain::open("zVlad", "zRootKey");
    let (mut api, _) = account(&chain);
    delegate(&mut api, &mut chain, "/apps/chat/", "zPeerKey");

    let ops = r#"[{"op":"use_str","key":"/apps/chat/title","value":"Chat"}]"#;
    let cfg = api.update_path(&at("/apps/chat/"), ops, decode_ops(ops)).expect("update_path");
    assert_eq!(cfg.entry_signing_key.as_str(), "/apps/chat/pubkey");
    chain.update(&cfg);
    let updated = api.accept_update(Ok(chain.log())).unwrap();
    assert!(!updated.head_cid.is_empty());
    assert_eq!(
        api.get_value(&at("/apps/chat/title")).unwrap(),
        PlogPathValue::Str("Chat".into())
    );
}

#[test]
fn head_mismatch_invalidates_challenge() {
    let mut chain = Chain::open("zVlad", "zRootKey");
    let (mut api, _) = account(&chain);
    delegate(&mut api, &mut chain, "/apps/chat/", "zPeerKey");

    let challenge = prepare(
        &mut api,
        "/apps/chat/",
        r#"[{"op":"use_str","key":"/apps/chat/x","value":"1"}]"#,
        0,
    )
    .unwrap();

    update(&mut api, &mut chain, "[]");

    let err = api
        .commit_path_update(&challenge.challenge_id, Ok(signature("zSig")), 1)
        .unwrap_err();
    assert!(
        matches!(err, Error::ChallengeNotFound(_) | Error::HeadMismatch(_, _)),
        "{err:?}"
    );
    assert_eq!(err, Error::ChallengeNotFound(challenge.challenge_id));
}

#[test]
fn challenge_survives_a_reload_only_if_the_head_did_not_move() {
    let mut chain = Chain::open("zVlad", "zRootKey");
    let (mut api, _) = account(&chain);
    delegate(&mut api, &mut chain, "/apps/chat/", "zPeerKey");
    let challenge = prepare(
        &mut api,
        "/apps/chat/",
        r#"[{"op":"use_str","key":"/apps/chat/x","value":"1"}]"#,
        0,
    )
    .unwrap();
    // Another copy of the log is loaded, whose head moved.
    chain.apply(chain.entries[1].1.clone(), &[]);
    api.load_account(Ok(chain.log())).unwrap();
    assert_eq!(
        api.commit_path_update(&challenge.challenge_id, Ok(signature("zSig")), 1).unwrap_err(),
        Error::HeadMismatch("zCid1".to_string(), "zCid2".to_string())
    );
    // It was used up by the attempt.
    assert_eq!(
        api.commit_path_update(&challenge.challenge_id, Ok(signature("zSig")), 1).unwrap_err(),
        Error::ChallengeNotFound(challenge.challenge_id)
    );
}

#[test]
fn challenges_expire() {
    let mut chain = Chain::open("zVlad", "zRootKey");
    let (mut api, _) = account(&chain);
    delegate(&mut api, &mut chain, "/apps/chat/", "zPeerKey");
    let ops = r#"[{"op":"use_str","key":"/apps/chat/x","value":"1"}]"#;
    let first = prepare(&mut api, "/apps/chat/", ops, 100 * SEC).unwrap();
    let second = prepare(&mut api, "/apps/chat/", ops, 200 * SEC).unwrap();
    assert_ne!(first.challenge_id, second.challenge_id);
    assert_eq!(api.pending_challenges(), 2);
    assert_eq!(
        api.commit_path_update(&first.challenge_id, Ok(signature("zSig")), 1000 * SEC).unwrap_err(),
        Error::ChallengeNotFound(first.challenge_id)
    );
    assert_eq!(api.pending_challenges(), 1);
    assert!(api
        .commit_path_update(&second.challenge_id, Ok(signature("zSig")), 1000 * SEC)
        .is_ok());
    assert_eq!(CHALLENGE_TTL, 15 * 60 * SEC);
    assert!(still_live(0, CHALLENGE_TTL - 1));
    assert!(!still_live(0, CHALLENGE_TTL));
    assert!(still_live(5, 0));
}

#[test]
fn challenges_can_be_cancelled() {
    let mut chain = Chain::open("zVlad", "zRootKey");
    let (mut api, _) = account(&chain);
    delegate(&mut api, &mut chain, "/apps/chat/", "zPeerKey");
    let ops = r#"[{"op":"use_str","key":"/apps/chat/x","value":"1"}]"#;
    let challenge = prepare(&mut api, "/apps/chat/", ops, 0).unwrap();
    api.cancel_path_update(&challenge.challenge_id, 1).unwrap();
    assert_eq!(
        api.cancel_path_update(&challenge.challenge_id, 1).unwrap_err(),
        Error::ChallengeNotFound(challenge.challenge_id.clone())
    );
    assert_eq!(
        api.commit_path_update(&challenge.challenge_id, Ok(signature("zSig")), 1).unwrap_err(),
        Error::ChallengeNotFound(challenge.challenge_id)
    );
}

#[test]
fn unreadable_signature_uses_the_challenge_up() {
    let mut chain = Chain::open("zVlad", "zRootKey");
    let (mut api, _) = account(&chain);
    delegate(&mut api, &mut chain, "/apps/chat/", "zPeerKey");
    let ops = r#"[{"op":"use_str","key":"/apps/chat/x","value":"1"}]"#;
    let plan = api.prepare_path_update(&at("/apps/chat/"), ops, decode_ops(ops), None, 0).unwrap();
    let c = api.register_challenge("uId".to_string(), plan, vec![1, 2, 3], 0);
    assert_eq!(c.message_multibase, "uAQID");
    assert_eq!(
        api.commit_path_update("uId", Err("not a multisig".to_string()), 1).unwrap_err(),
        Error::Encoding("not a multisig".to_string())
    );
    assert_eq!(api.pending_challenges(), 0);
}

#[test]
fn challenge_ids_are_sixteen_bytes() {
    let id = new_challenge_id().unwrap();
    assert_eq!(decode_bytes_multibase(&id).unwrap().len(), 16);
    assert_ne!(new_challenge_id().unwrap(), new_challenge_id().unwrap());
    assert_eq!(challenge_id_from(Ok([1; 16])).unwrap(), encode_bytes_multibase(&[1; 16]));
    assert_eq!(
        challenge_id_from(Err("no entropy".to_string())).unwrap_err(),
        Error::Randomness("no entropy".to_string())
    );
}

#[test]
fn delegations_are_sorted_and_independent() {
    let mut chain = Chain::open("zVlad", "zRootKey");
    let (mut api, _) = account(&chain);
    delegate(&mut api, &mut chain, "/b/", "zB");
    delegate(&mut api, &mut chain, "/a/", "zA");
    delegate(&mut api, &mut chain, "/b/", "zB2");
    let paths: Vec<(String, String)> =
        api.list_delegations().unwrap().into_iter().map(|d| (d.path, d.pubkey)).collect();
    assert_eq!(
        paths,
        vec![("/a/".to_string(), "zA".to_string()), ("/b/".to_string(), "zB2".to_string())]
    );
    let entry = api.revoke_path(&at("/b/"), None).unwrap();
    append_signed(&mut api, &mut chain, entry);
    let list = api.list_delegations().unwrap();
    assert_eq!(list.len(), 1);
    assert_eq!(list[0].path, "/a/");
}

#[test]
fn delegation_requests_are_checked() {
    let chain = Chain::open("zVlad", "zRootKey");
    let (api, _) = account(&chain);
    assert!(matches!(
        api.delegate_path(&at("/"), Ok(multikey("zA")), None),
        Err(Error::InvalidOp(_))
    ));
    assert_eq!(
        api.delegate_path(&at("/a/"), Err("bad key".to_string()), None).unwrap_err(),
        Error::Encoding("bad key".to_string())
    );
    assert_eq!(
        api.revoke_path(&at("/a/"), hop(7)).unwrap_err(),
        Error::Plog("no entry".to_string())
    );
    let empty: AccountsApi<u8> = AccountsApi::new();
    assert_eq!(
        empty.delegate_path(&at("/a/"), Ok(multikey("zA")), None).unwrap_err(),
        Error::NoAccount
    );
    assert_eq!(empty.list_delegations().unwrap_err(), Error::NoAccount);
    let entry = api.delegate_path(&at("/a/"), Ok(multikey("zA")), None).unwrap();
    assert_eq!(
        empty.root_signing_request(entry, Ok(vec![])).unwrap_err(),
        Error::NotConnected
    );
    let entry = api.delegate_path(&at("/a/"), Ok(multikey("zA")), None).unwrap();
    assert_eq!(
        api.root_signing_request(entry, Err("unserializable".to_string())).unwrap_err(),
        Error::Plog("unserializable".to_string())
    );
}

#[test]
fn failed_updates_change_nothing() {
    let mut chain = Chain::open("zVlad", "zRootKey");
    let (mut api, _) = account(&chain);
    let del = delegate(&mut api, &mut chain, "/a/", "zA");
    prepare(&mut api, "/a/", r#"[{"op":"noop","key":"/a/x"}]"#, 0).unwrap();
    assert_eq!(
        api.accept_update(Err(Error::Update("card removed".to_string()))).unwrap_err(),
        Error::Update("card removed".to_string())
    );
    assert_eq!(api.current_head_cid().unwrap(), del.head_cid);
    assert_eq!(api.pending_challenges(), 1);
    let mut empty: AccountsApi<u8> = AccountsApi::new();
    assert_eq!(empty.accept_update(Ok(chain.log())).unwrap_err(), Error::NoAccount);
}

#[test]
fn last_operation_on_a_key_decides() {
    let mut chain = Chain::open("zVlad", "zRootKey");
    let (mut api, created) = account(&chain);
    let updated = update(
        &mut api,
        &mut chain,
        r#"[
            {"op":"use_str","key":"/a","value":"first"},
            {"op":"use_bin","key":"/b","data_multibase":"uAQID"},
            {"op":"use_str","key":"/a","value":"second"},
            {"op":"use_str","key":"/c","value":"gone"},
            {"op":"delete","key":"/c"}
        ]"#,
    );
    assert_eq!(updated.vlad, created.vlad);
    assert_ne!(updated.head_cid, created.head_cid);
    assert_eq!(api.get_value(&at("/a")).unwrap(), PlogPathValue::Str("second".to_string()));
    assert_eq!(api.get_value(&at("/b")).unwrap(), PlogPathValue::Bin("uAQID".to_string()));
    assert_eq!(api.get_value(&at("/c")).unwrap_err(), Error::PathNotFound("/c".to_string()));
    assert_eq!(api.get_value(&at("/pubkey")).unwrap(), PlogPathValue::Bin("zRootKey".to_string()));

    let cfg = api
        .update_account_ops(vec![
            OpParams::UseKey { key: key("/k"), mk: multikey("zOther") },
            OpParams::UseCid { key: key("/d"), cid: Chain::cid(1) },
        ])
        .unwrap();
    chain.update(&cfg);
    api.accept_update(Ok(chain.log())).unwrap();
    assert_eq!(api.get_value(&at("/k")).unwrap(), PlogPathValue::Bin("zOther".to_string()));
    assert_eq!(api.get_value(&at("/d")).unwrap(), PlogPathValue::Bin("uAQ".to_string()));
}

#[test]
fn typed_updates_are_handed_on_whole() {
    let chain = Chain::open("zVlad", "zRootKey");
    let (api, _) = account(&chain);
    let cfg = api
        .update_account_ops(vec![OpParams::CidGen { key: key("/a"), rest: vec![1, 2] }])
        .unwrap();
    assert_eq!(cfg.additional_ops, vec![OpParams::CidGen { key: key("/a"), rest: vec![1, 2] }]);
}

#[test]
fn prepared_entries_are_linked_by_their_long_hop() {
    let mut chain = Chain::open("zVlad", "zRootKey");
    let (mut api, _) = account(&chain);
    update(&mut api, &mut chain, "[]");
    let entry = api.delegate_path(&at("/a/"), Ok(multikey("zA")), hop(0)).unwrap();
    assert_eq!(entry.lipmaa, Some(Chain::cid(0)));
    assert_eq!(api.revoke_path(&at("/a/"), None).unwrap().lipmaa, None);
}

#[test]
fn key_complaints_are_the_logs_own() {
    let chain = Chain::open("zVlad", "zRootKey");
    let (api, _) = account(&chain);
    let complaint = Error::InvalidOp("invalid key path a: key path has no root".to_string());
    assert_eq!(api.get_value(&at("a")).unwrap_err(), complaint);
    let ops = r#"[{"op":"noop","key":"a"}]"#;
    assert_eq!(api.update_account(ops, decode_ops(ops)).unwrap_err(), complaint);
    assert_eq!(api.revoke_path(&at("a"), None).unwrap_err(), complaint);
}

#[test]
fn unverified_update_is_refused_and_voids_challenges() {
    let mut chain = Chain::open("zVlad", "zRootKey");
    let (mut api, _) = account(&chain);
    let del = delegate(&mut api, &mut chain, "/a/", "zA");
    let challenge = prepare(&mut api, "/a/", r#"[{"op":"noop","key":"/a/x"}]"#, 0).unwrap();
    let mut corrupt = chain.log();
    corrupt.steps.push(VerifyStep::Rejected("bad proof".to_string()));
    assert_eq!(
        api.accept_update(Ok(corrupt)).unwrap_err(),
        Error::PlogVerifyFailed("bad proof".to_string())
    );
    assert_eq!(api.current_head_cid().unwrap(), del.head_cid);
    assert_eq!(api.pending_challenges(), 0);
    assert_eq!(
        api.commit_path_update(&challenge.challenge_id, Ok(signature("zSig")), 1).unwrap_err(),
        Error::ChallengeNotFound(challenge.challenge_id)
    );
}

#[test]
fn redelegation_replaces_the_only_grant() {
    let mut chain = Chain::open("zVlad", "zRootKey");
    let (mut api, _) = account(&chain);
    delegate(&mut api, &mut chain, "/a/", "zA");
    delegate(&mut api, &mut chain, "/a/", "zA2");
    let list = api.list_delegations().unwrap();
    assert_eq!(list.len(), 1);
    assert_eq!((list[0].path.as_str(), list[0].pubkey.as_str()), ("/a/", "zA2"));
    assert_eq!(chain.log().steps.len(), 3);
}

#[test]
fn revocation_drops_one_branch_and_keeps_its_values() {
    let mut chain = Chain::open("zVlad", "zRootKey");
    let (mut api, _) = account(&chain);
    for (path, pk) in [("/c/", "zC"), ("/a/", "zA"), ("/b/", "zB")] {
        delegate(&mut api, &mut chain, path, pk);
    }
    let ops = r#"[{"op":"use_str","key":"/b/x","value":"1"}]"#;
    let challenge = prepare(&mut api, "/b/", ops, 0).unwrap();
    let commit =
        api.commit_path_update(&challenge.challenge_id, Ok(signature("zSig")), 1).unwrap();
    chain.append(&commit.entry);
    api.accept_update(Ok(chain.log())).unwrap();

    let before: Vec<String> = api.list_delegations().unwrap().into_iter().map(|d| d.path).collect();
    assert_eq!(before, vec!["/a/", "/b/", "/c/"]);
    let entry = api.revoke_path(&at("/b/"), None).unwrap();
    append_signed(&mut api, &mut chain, entry);
    let after: Vec<String> = api.list_delegations().unwrap().into_iter().map(|d| d.path).collect();
    assert_eq!(after, vec!["/a/", "/c/"]);
    assert_eq!(
        api.get_value(&at("/b/pubkey")).unwrap_err(),
        Error::PathNotFound("/b/pubkey".to_string())
    );
    assert_eq!(api.get_value(&at("/b/x")).unwrap(), PlogPathValue::Str("1".to_string()));
    assert_eq!(
        prepare(&mut api, "/b/", ops, 2).unwrap_err(),
        Error::PathNotDelegated("/b/".to_string())
    );
}

#[test]
fn exported_account_loads_elsewhere() {
    let mut chain = Chain::open("zVlad", "zRootKey");
    let (mut api, _) = account(&chain);
    let ops = r#"[{"op":"use_str","key":"/profile/name","value":"alice"}]"#;
    let updated = update(&mut api, &mut chain, ops);
    assert_eq!(api.export_plog().unwrap(), "zLog1");
    let mut other = AccountsApi::software("other wallet");
    let loaded = other.load_account(Ok(chain.log())).unwrap();
    assert_eq!(loaded, updated);
    assert_eq!(
        other.get_value(&at("/profile/name")).unwrap(),
        api.get_value(&at("/profile/name")).unwrap()
    );
    assert_eq!(other.export_plog().unwrap(), "zLog1");
}

#[test]
fn attaching_and_disconnecting_drop_the_account() {
    let chain = Chain::open("zVlad", "zRootKey");
    let (mut api, _) = account(&chain);
    assert_eq!(api.vlad().unwrap(), "zVlad");
    assert_eq!(*api.wallet().unwrap(), "wallet");
    *api.wallet_mut().unwrap() = "changed";
    assert_eq!(api.plog().unwrap().head.encoded, "zCid0");
    api.attach_wallet("other", Some("m/1"));
    assert!(!api.has_account());
    assert_eq!(api.pubkey_derivation(), "m/1");
    assert_eq!(api.get_value(&at("/pubkey")).unwrap_err(), Error::NoAccount);
    assert_eq!(api.disconnect(), Some("other"));
    assert!(!api.is_connected());
    assert_eq!(api.disconnect(), None);
    assert_eq!(api.wallet().unwrap_err(), Error::NotConnected);
    let api = api.with_persistence_path(std::path::PathBuf::from("/data"));
    assert_eq!(api.persistence_path(), Some(&std::path::PathBuf::from("/data")));
}

#[test]
fn empty_service() {
    let api: AccountsApi<u8> = AccountsApi::default();
    assert_eq!(api.pubkey_derivation(), DEFAULT_PUBKEY_PATH);
    assert!(api.persistence_path().is_none());
    assert_eq!(api.pending_challenges(), 0);
    assert_eq!(api.export_plog().unwrap_err(), Error::NoAccount);
    assert_eq!(api.update_account_ops(vec![]).unwrap_err(), Error::NoAccount);
    assert_eq!(api.update_account("{", Err("EOF".to_string())).unwrap_err(), Error::Encoding("EOF".to_string()));
}

fn credentials() -> KeycardCredentials {
    KeycardCredentials {
        pin: "123456".to_string(),
        puk: "123456789012".to_string(),
        pairing_password: "pass".to_string(),
        pairing_key_hex: "ab".repeat(32),
        pairing_index: 1,
    }
}

#[test]
fn account_is_created_on_a_card() {
    let chain = Chain::open("zVlad", "zRootKey");
    let card = InitializedKeycard {
        session: "session",
        credentials: credentials(),
        derivation_path: "m/44'/60'/0'/0/2".to_string(),
    };
    let (mut api, creds) = match AccountsApi::create_account_on_virgin_keycard(card) {
        Ok(found) => found,
        Err(e) => panic!("{e:?}"),
    };
    assert_eq!(api.pubkey_derivation(), "m/44'/60'/0'/0/2");
    let summary = api.create_account(Ok(chain.log())).unwrap();
    let result = created_on_keycard(summary.clone(), Ok(()), creds).unwrap();
    assert_eq!(result.vlad, "zVlad");
    assert_eq!(result.keycard, Some(credentials()));
    assert_eq!(
        created_on_keycard(summary, Err(Error::Keycard("write failed".to_string())), credentials())
            .unwrap_err(),
        Error::Keycard("write failed".to_string())
    );
    let broken = InitializedKeycard {
        session: (),
        credentials: credentials(),
        derivation_path: "nonsense".to_string(),
    };
    assert!(AccountsApi::create_account_on_virgin_keycard(broken).is_err());
}

#[test]
fn account_is_loaded_on_its_own_card_only() {
    let chain = Chain::open("zVlad", "zRootKey");
    let wallet = || KeycardWallet::new((), None);
    let record = vlad_hash(&Vlad { encoded: "zVlad".to_string() }).to_vec();

    let (log, pairing) =
        AccountsApi::<KeycardWallet<()>>::card_load_request(Ok(chain.log()), &"ab".repeat(32)).unwrap();
    assert_eq!(pairing, [0xab; 32]);
    let api = match AccountsApi::load_account_on_keycard(log, wallet(), Ok(record), None) {
        Ok(api) => api,
        Err(e) => panic!("{e:?}"),
    };
    assert_eq!(api.vlad().unwrap(), "zVlad");

    let wrong = AccountsApi::load_account_on_keycard(chain.log(), wallet(), Ok(vec![1; 32]), None);
    assert_eq!(
        wrong.err(),
        Some(Error::CardBindingMismatch("VLAD hash on card does not match this p-log".to_string()))
    );
    assert_eq!(
        AccountsApi::<KeycardWallet<()>>::card_load_request(Ok(chain.log()), "abcd").unwrap_err(),
        Error::Encoding("expected 32 bytes, got 2".to_string())
    );
    assert_eq!(
        AccountsApi::<KeycardWallet<()>>::card_load_request(Err("no log".to_string()), "\u{e9}")
            .unwrap_err(),
        Error::Encoding("no log".to_string())
    );
}

#[test]
fn pubkey_rotation() {
    let chain = Chain::open("zVlad", "zRootKey");
    let mut api = AccountsApi::new();
    assert_eq!(api.rotate_pubkey("m/1").unwrap_err(), Error::NoAccount);
    let wallet = KeycardWallet::new((), None).unwrap_or_else(|e| panic!("{e:?}"));
    api.attach_wallet(wallet, None);
    api.create_account(Ok(chain.log())).unwrap();
    let cfg = api.rotate_pubkey("m/44'/60'/0'/0/1").unwrap();
    assert_eq!(cfg.entry_signing_key.as_str(), "/pubkey");
    assert_eq!(cfg.additional_ops.len(), 1);
    assert_eq!(api.pubkey_derivation(), "m/44'/60'/0'/0/1");
    let request = api
        .wallet()
        .map(|w| w.get_key(&default_pubkey_key(), &logos_accounts::plog::Codec::Secp256K1Priv));
    match request {
        Ok(Ok(KeyRequest::Export(path))) => assert_eq!(path.text(), "m/44'/60'/0'/0/1"),
        _ => panic!("expected an export"),
    }
    assert!(matches!(api.rotate_pubkey("nonsense"), Err(Error::Derivation(_))));
    assert_eq!(api.pubkey_derivation(), "m/44'/60'/0'/0/1");
}

#[test]
fn create_and_export_via_module() {
    let helper = EphemeralOpenHelper::new(multikey("zRootKey"), Err("unused".to_string())).unwrap();
    let root = helper.get_root_or_err(&key("/pubkey")).unwrap();
    let (api, summary) = account(&Chain::open("zVlad", &root.encoded));
    let mut m = AccountsModule::new();
    let created = m.create_account(Ok((api, summary)), Ok(Vlad { encoded: "zVlad".to_string() }));
    assert!(!created.text.contains("\"error\""), "{}", created.text);
    let back: serde_json::Value = serde_json::from_str(&created.text).unwrap();
    let vlad = text_of(&back, "vlad").unwrap();
    let exported = m.export_plog(Ok(Vlad { encoded: vlad.clone() }));
    assert!(!exported.text.contains("\"error\""), "{}", exported.text);
    assert_eq!(exported.text, "zLog0");
    let removed = m.remove_plog(Ok(Vlad { encoded: vlad }));
    assert!(removed.text.contains("\"removed\""));
}

#[test]
fn module_updates_delegates_and_revokes() {
    let mut chain = Chain::open("zVlad", "zRootKey");
    let (api, summary) = account(&chain);
    let vlad = || Ok(Vlad { encoded: "zVlad".to_string() });
    let missing = || Ok(Vlad { encoded: "zNone".to_string() });
    let mut m = AccountsModule::new();
    m.create_account(Ok((api, summary)), vlad());

    let ops = r#"[{"op":"use_str","key":"/profile/name","value":"alice"}]"#;
    let cfg = m.update_account(vlad(), ops, decode_ops(ops)).unwrap();
    assert_eq!(cfg.entry_signing_key.as_str(), "/pubkey");
    chain.update(&cfg);
    let done = m.accept_update(vlad(), Ok(chain.log()), UpdateKind::Other, None);
    assert_eq!(done.events, vec![Event::AccountUpdated("zCid1".to_string())]);

    let entry = m.delegate_path(vlad(), &at("/a/"), Ok(multikey("zA")), None).unwrap();
    chain.append(&entry);
    let path = Some("/a/".to_string());
    let done = m.accept_update(vlad(), Ok(chain.log()), UpdateKind::Delegate, path.clone());
    assert_eq!(
        done.events,
        vec![
            Event::AccountUpdated("zCid2".to_string()),
            Event::PathDelegated("zVlad".to_string(), "/a/".to_string()),
        ]
    );
    let ops = r#"[{"op":"use_str","key":"/a/x","value":"1"}]"#;
    let cfg = m.update_path(vlad(), &at("/a/"), ops, decode_ops(ops)).unwrap();
    assert_eq!(cfg.entry_signing_key.as_str(), "/a/pubkey");

    let entry = m.revoke_path(vlad(), &at("/a/"), None).unwrap();
    chain.append(&entry);
    let done = m.accept_update(vlad(), Ok(chain.log()), UpdateKind::Revoke, path);
    assert_eq!(
        done.events,
        vec![
            Event::AccountUpdated("zCid3".to_string()),
            Event::PathRevoked("zVlad".to_string(), "/a/".to_string()),
        ]
    );
    assert_eq!(m.list_delegations(vlad()).text, "[]");
    let refused = m.update_path(vlad(), &at("/a/"), ops, decode_ops(ops)).unwrap_err();
    assert_eq!(refused.text, r#"{"error":"path not delegated: /a/"}"#);

    assert!(m.update_account(vlad(), "{", Err("EOF".to_string())).is_err());
    assert!(m.update_account(missing(), "[]", decode_ops("[]")).is_err());
    assert!(m.delegate_path(missing(), &at("/a/"), Ok(multikey("zA")), None).is_err());
    assert!(m.revoke_path(missing(), &at("/a/"), None).is_err());
    let bad = m.delegate_path(vlad(), &at("/a/"), Err("bad key".to_string()), None).unwrap_err();
    assert_eq!(bad.events, vec![Event::Failed("encoding error: bad key".to_string())]);
}

#[test]
fn module_serves_an_account() {
    let mut chain = Chain::open("zVlad", "zRootKey");
    let (mut api, _) = account(&chain);
    let summary = delegate(&mut api, &mut chain, "/apps/chat/", "zPeerKey");
    let vlad = || Ok(Vlad { encoded: "zVlad".to_string() });
    let mut m = AccountsModule::new();
    m.create_account(Ok((api, summary)), vlad());

    assert_eq!(m.export_plog(vlad()).text, "zLog1");
    assert_eq!(m.get_value(vlad(), &at("/pubkey")).text, r#"{"type":"bin","value":"zRootKey"}"#);
    assert_eq!(
        m.list_delegations(vlad()).text,
        r#"[{"path":"/apps/chat/","pubkey":"zPeerKey"}]"#
    );

    let ops = r#"[{"op":"use_str","key":"/apps/chat/x","value":"1"}]"#;
    let plan = m.prepare_update(vlad(), &at("/apps/chat/"), ops, decode_ops(ops), None, 0).unwrap();
    let message = serialize(&plan.entry);
    let issued = m.issue_challenge(vlad(), plan, Ok(message), 0);
    let back: serde_json::Value = serde_json::from_str(&issued.text).unwrap();
    let id = text_of(&back, "challenge_id").unwrap();
    let request = m.commit_update(vlad(), &id, Ok(signature("zSig")), 1).unwrap();
    chain.append(&request.entry);
    let done = m.accept_update(vlad(), Ok(chain.log()), UpdateKind::Other, None);
    assert_eq!(done.events, vec![Event::AccountUpdated("zCid2".to_string())]);
    assert_eq!(m.get_value(vlad(), &at("/apps/chat/x")).text, r#"{"type":"str","value":"1"}"#);

    let again = m.commit_update(vlad(), &id, Ok(signature("zSig")), 1).unwrap_err();
    assert!(again.text.contains("unknown or expired"));
    assert!(m.cancel_update(vlad(), &id, 1).text.contains("error"));
    let escaping = r#"[{"op":"delete","key":"/pubkey"}]"#;
    let refused = m
        .prepare_update(vlad(), &at("/apps/chat/"), escaping, decode_ops(escaping), None, 0)
        .unwrap_err();
    assert_eq!(
        refused.text,
        r#"{"error":"operation path escapes delegated branch /apps/chat/: /pubkey"}"#
    );
    let missing = Ok(Vlad { encoded: "zNone".to_string() });
    assert!(m.get_value(missing, &at("/pubkey")).text.contains("no cached p-log"));
}

#[test]
fn open_produces_verified_log_with_pubkey() {
    let helper = EphemeralOpenHelper::new(multikey("zRootKey"), Err("unused".to_string())).unwrap();
    let root = helper.get_root_or_err(&key("/pubkey")).expect("open");
    let log = Chain::open("zVlad", &root.encoded).log();
    ensure_plog_verified(&log).expect("verify");
    let v = get_plog_value(&log, &at("/pubkey")).expect("pubkey path");
    match v {
        PlogPathValue::Bin(s) => assert_eq!(s, "zRootKey"),
        other => panic!("expected bin pubkey, got {other:?}"),
    }
}
