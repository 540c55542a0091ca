use logos_accounts::challenge::PathUpdateChallenge;
use logos_accounts::delegation::PathDelegation;
use logos_accounts::module::{
    cancel_reply, commit_reply, delegations_reply, err_json, export_reply, prepare_reply,
    summary_json, value_reply, AccountsModule, Committed, Event, UpdateKind,
};
use logos_accounts::plog::Vlad;
use logos_accounts::values::{AccountSummary, PlogPathValue};
use logos_accounts::Error;

fn summary(vlad: &str) -> AccountSummary {
    AccountSummary {
        vlad: vlad.to_string(),
        head_cid: "zHead".to_string(),
        pubkey: Some("zKey".to_string()),
    }
}

fn vlad(text: &str) -> Result<Vlad, String> {
    Ok(Vlad { encoded: text.to_string() })
}

#[test]
fn created_accounts_are_found_and_removed() {
    let mut m: AccountsModule<String> = AccountsModule::new();
    let created = m.create_account(Ok(("account".to_string(), summary("zVlad"))), vlad("zVlad"));
    assert_eq!(created.events, vec![Event::AccountCreated("zVlad".to_string())]);
    assert_eq!(m.entry(vlad("zVlad")).unwrap(), "account");
    assert_eq!(m.remove_plog(vlad("zVlad")).text, r#"{"removed":true}"#);
    assert!(m.entry(vlad("zVlad")).is_err());
}

#[test]
fn failures_are_replies_and_events() {
    let r = err_json("it \"broke\"");
    assert_eq!(r.text, r#"{"error":"it \"broke\""}"#);
    assert_eq!(r.events, vec![Event::Failed("it \"broke\"".to_string())]);

    let mut m: AccountsModule<u8> = AccountsModule::new();
    let failed = m.create_account(Err(Error::NotConnected), vlad("zVlad"));
    assert_eq!(failed.events, vec![Event::Failed(Error::NotConnected.message())]);
    let undecodable = m.create_account(Ok((1, summary("zVlad"))), Err("no vlad".to_string()));
    assert_eq!(undecodable.text, r#"{"error":"encoding error: no vlad"}"#);
    assert_eq!(
        undecodable.events,
        vec![
            Event::AccountCreated("zVlad".to_string()),
            Event::Failed("encoding error: no vlad".to_string()),
        ]
    );
    assert!(m.entry(vlad("zVlad")).is_err());
    assert_eq!(
        m.remove_plog(vlad("hello")).text,
        "{\"error\":\"no cached p-log for this VLAD (hash 2cf24dba5fb0a30e): call create_account or import_plog first\"}"
    );
}

#[test]
fn imports_replace_and_clear_counts() {
    let mut m: AccountsModule<u8> = AccountsModule::new();
    let first = m.import_plog(Ok((1, summary("zVlad"))), vlad("zVlad"));
    assert!(first.events.is_empty());
    m.import_plog(Ok((2, summary("zVlad"))), vlad("zVlad"));
    assert_eq!(*m.entry(vlad("zVlad")).unwrap(), 2);
    m.import_plog(Ok((3, summary("zOther"))), vlad("zOther"));
    let failed = m.import_plog(Err(Error::Encoding("bad".to_string())), vlad("zThird"));
    assert_eq!(failed.text, r#"{"error":"encoding error: bad"}"#);
    assert_eq!(m.clear_cache().text, r#"{"cleared":2}"#);
    assert_eq!(m.clear_cache().text, r#"{"cleared":0}"#);
}

#[test]
fn summaries_as_json() {
    assert_eq!(
        summary_json(&summary("zVlad")),
        r#"{"vlad":"zVlad","head_cid":"zHead","pubkey":"zKey"}"#
    );
    let bare = AccountSummary { pubkey: None, ..summary("zVlad") };
    assert_eq!(
        summary_json(&bare),
        r#"{"vlad":"zVlad","head_cid":"zHead","pubkey":null}"#
    );
}

#[test]
fn commits_emit_their_kind() {
    let commit = |kind: UpdateKind, path: Option<&str>| {
        commit_reply(Ok(Committed {
            summary: summary("zVlad"),
            kind,
            path: path.map(|s| s.to_string()),
        }))
    };
    let updated = || Event::AccountUpdated("zHead".to_string());
    assert_eq!(
        commit(UpdateKind::Delegate, Some("/a/")).events,
        vec![updated(), Event::PathDelegated("zVlad".to_string(), "/a/".to_string())]
    );
    assert_eq!(
        commit(UpdateKind::Revoke, Some("/a/")).events,
        vec![updated(), Event::PathRevoked("zVlad".to_string(), "/a/".to_string())]
    );
    assert_eq!(commit(UpdateKind::Delegate, None).events, vec![updated()]);
    assert_eq!(commit(UpdateKind::Other, Some("/a/")).events, vec![updated()]);
    assert_eq!(commit(UpdateKind::Other, None).text, summary_json(&summary("zVlad")));
    assert_eq!(
        commit_reply(Err(Error::ChallengeNotFound("uX".to_string()))).text,
        r#"{"error":"unknown or expired path-update challenge: uX"}"#
    );
}

#[test]
fn other_replies() {
    let item = |p: &str, k: &str| PathDelegation { path: p.to_string(), pubkey: k.to_string() };
    assert_eq!(delegations_reply(Ok(vec![])).text, "[]");
    assert_eq!(
        delegations_reply(Ok(vec![item("/a/", "zA"), item("/b/", "zB")])).text,
        r#"[{"path":"/a/","pubkey":"zA"},{"path":"/b/","pubkey":"zB"}]"#
    );
    assert!(delegations_reply(Err(Error::NoAccount)).text.contains("error"));
    assert_eq!(cancel_reply(Ok(())).text, r#"{"cancelled":true}"#);
    assert_eq!(cancel_reply(Err(Error::NoAccount)).events.len(), 1);
    assert_eq!(export_reply(Ok("zLog".to_string())).text, "zLog");
    assert_eq!(
        value_reply(Ok(PlogPathValue::Str("x".to_string()))).text,
        r#"{"type":"str","value":"x"}"#
    );
    assert_eq!(
        value_reply(Err(Error::PathNotFound("/x".to_string()))).text,
        r#"{"error":"no value at path /x"}"#
    );
}

#[test]
fn challenges_as_json() {
    let c = PathUpdateChallenge {
        challenge_id: "uId".to_string(),
        vlad: "zVlad".to_string(),
        path: "/a/".to_string(),
        signing_key_path: "/a/pubkey".to_string(),
        head_cid: "zHead".to_string(),
        message_multibase: "uAQID".to_string(),
        message_encoding: "entry-bytes".to_string(),
    };
    assert_eq!(
        prepare_reply(Ok(c)).text,
        "{\"challenge_id\":\"uId\",\"vlad\":\"zVlad\",\"path\":\"/a/\",\"signing_key_path\":\"/a/pubkey\",\
         \"head_cid\":\"zHead\",\"message_multibase\":\"uAQID\",\"message_encoding\":\"entry-bytes\"}"
    );
}
