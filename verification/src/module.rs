//! Module surface: many accounts in a cache, addressed by VLAD, with JSON replies and events.

use crate::account_ops;
use crate::account_ops::AccountOp;
use crate::api::{AccountsApi, AccountsApiView, CommitRequest};
use crate::cache;
use crate::cache::{AccountCache, VladHash};
use crate::challenge;
use crate::challenge::{PathUpdateChallenge, PathUpdateChallengeView, PathUpdatePlan};
use crate::config::UpdateConfig;
use crate::delegation;
use crate::delegation::{PathDelegation, PathDelegationView};
use crate::entry_update;
use crate::entry_update::{LongHop, NextEntry};
use crate::error;
use crate::error::{Error, ErrorView};
use crate::json;
use crate::key::KeyText;
use crate::model;
use crate::plog::{Log, Multikey, Multisig, Vlad};
use crate::text;
use crate::values;
use crate::values::{AccountSummary, AccountSummaryView, PlogPathValue};
use vstd::prelude::*;
use vstd::string::*;

verus! {

/// Event that the module emits.
#[derive(Debug, PartialEq, Eq)]
pub enum Event {
    /// An account was created: its VLAD.
    AccountCreated(String),
    /// An account was updated: its new head.
    AccountUpdated(String),
    /// A branch was delegated: VLAD, then path.
    PathDelegated(String, String),
    /// A branch was revoked: VLAD, then path.
    PathRevoked(String, String),
    /// A call failed: the message.
    Failed(String),
}

/// An [`Event`] as a mathematical value.
#[verifier::ext_equal]
pub enum EventView {
    AccountCreated(Seq<char>),
    AccountUpdated(Seq<char>),
    PathDelegated(Seq<char>, Seq<char>),
    PathRevoked(Seq<char>, Seq<char>),
    Failed(Seq<char>),
}

impl View for Event {
    type V = EventView;

    open spec fn view(&self) -> EventView {
        match self {
            Event::AccountCreated(v) => EventView::AccountCreated(v@),
            Event::AccountUpdated(h) => EventView::AccountUpdated(h@),
            Event::PathDelegated(v, p) => EventView::PathDelegated(v@, p@),
            Event::PathRevoked(v, p) => EventView::PathRevoked(v@, p@),
            Event::Failed(m) => EventView::Failed(m@),
        }
    }
}

/// Reply to a call: its text, and the events to emit before it.
#[derive(Debug, PartialEq, Eq)]
pub struct Reply {
    /// Text for the caller.
    pub text: String,
    /// Events, in order.
    pub events: Vec<Event>,
}

/// A [`Reply`] as a mathematical value.
#[verifier::ext_equal]
pub struct ReplyView {
    pub text: Seq<char>,
    pub events: Seq<EventView>,
}

impl View for Reply {
    type V = ReplyView;

    open spec fn view(&self) -> ReplyView {
        ReplyView { text: self.text@, events: model::views(self.events@) }
    }
}

/// Kind of a committed update.
#[derive(Debug, PartialEq, Eq)]
pub enum UpdateKind {
    /// A branch was delegated.
    Delegate,
    /// A branch was revoked.
    Revoke,
    /// Anything else.
    Other,
}

/// A committed update.
#[derive(Debug, PartialEq, Eq)]
pub struct Committed {
    /// Account after the update.
    pub summary: AccountSummary,
    /// Kind of the update.
    pub kind: UpdateKind,
    /// Branch that it was about, if it was about one.
    pub path: Option<String>,
}

/// A [`Committed`] as a mathematical value.
#[verifier::ext_equal]
pub struct CommittedView {
    pub summary: AccountSummaryView,
    pub kind: UpdateKind,
    pub path: Option<Seq<char>>,
}

impl View for Committed {
    type V = CommittedView;

    open spec fn view(&self) -> CommittedView {
        CommittedView { summary: self.summary@, kind: self.kind, path: model::opt(self.path) }
    }
}

/// The JSON text of an error.
pub open spec fn error_text(message: Seq<char>) -> Seq<char> {
    "{"@ + json::text_field("error"@, message) + "}"@
}

/// The JSON text of a summary.
pub open spec fn summary_text(summary: AccountSummaryView) -> Seq<char> {
    "{"@ + json::text_field("vlad"@, summary.vlad) + ","@ + json::text_field(
        "head_cid"@,
        summary.head_cid,
    ) + ",\"pubkey\":"@ + json::quoted_or_null(summary.pubkey) + "}"@
}

/// The JSON text of one delegation.
pub open spec fn delegation_text(d: PathDelegationView) -> Seq<char> {
    "{"@ + json::text_field("path"@, d.path) + ","@ + json::text_field("pubkey"@, d.pubkey) + "}"@
}

/// The JSON texts of delegations, separated by commas.
pub open spec fn delegation_texts(list: Seq<PathDelegationView>) -> Seq<char>
    decreases list.len(),
{
    if list.len() == 0 {
        Seq::empty()
    } else if list.len() == 1 {
        delegation_text(list[0])
    } else {
        delegation_texts(list.drop_last()) + ","@ + delegation_text(list.last())
    }
}

/// The JSON text of a challenge.
pub open spec fn challenge_text(c: PathUpdateChallengeView) -> Seq<char> {
    "{"@ + json::text_field("challenge_id"@, c.challenge_id) + ","@ + json::text_field(
        "vlad"@,
        c.vlad,
    ) + ","@ + json::text_field("path"@, c.path) + ","@ + json::text_field(
        "signing_key_path"@,
        c.signing_key_path,
    ) + ","@ + json::text_field("head_cid"@, c.head_cid) + ","@ + json::text_field(
        "message_multibase"@,
        c.message_multibase,
    ) + ","@ + json::text_field("message_encoding"@, c.message_encoding) + "}"@
}

/// A reply without events.
pub open spec fn plain(text: Seq<char>) -> ReplyView {
    ReplyView { text, events: Seq::empty() }
}

/// The reply to a failed call: the message as JSON, and as an event.
pub open spec fn failure(message: Seq<char>) -> ReplyView {
    ReplyView { text: error_text(message), events: seq![EventView::Failed(message)] }
}

/// The events of a committed update: the new head, then the branch that was delegated or
/// revoked.
pub open spec fn commit_events(c: CommittedView) -> Seq<EventView> {
    let updated = EventView::AccountUpdated(c.summary.head_cid);
    match (c.kind, c.path) {
        (UpdateKind::Delegate, Some(p)) => seq![
            updated,
            EventView::PathDelegated(c.summary.vlad, p),
        ],
        (UpdateKind::Revoke, Some(p)) => seq![updated, EventView::PathRevoked(c.summary.vlad, p)],
        _ => seq![updated],
    }
}

fn plain_reply(text: String) -> (r: Reply)
    ensures
        r@ == plain(text@),
{
    let events: Vec<Event> = Vec::new();
    assert(model::views(events@) =~= Seq::<EventView>::empty());
    Reply { text, events }
}

/// The reply to a failed call.
pub fn err_json(message: &str) -> (r: Reply)
    ensures
        r@ == failure(message@),
{
    let mut out: String = "{".to_owned();
    json::push_text_field(&mut out, "error", message);
    out.append("}");
    let mut events: Vec<Event> = Vec::new();
    events.push(Event::Failed(message.to_owned()));
    assert(model::views(events@) =~= seq![EventView::Failed(message@)]);
    Reply { text: out, events }
}

fn error_reply(e: &Error) -> (r: Reply)
    ensures
        r@ == failure(e@.text()),
{
    let m: String = e.message();
    err_json(m.as_str())
}

/// A summary as JSON.
pub fn summary_json(summary: &AccountSummary) -> (r: String)
    ensures
        r@ == summary_text(summary@),
{
    let mut out: String = "{".to_owned();
    json::push_text_field(&mut out, "vlad", summary.vlad.as_str());
    out.append(",");
    json::push_text_field(&mut out, "head_cid", summary.head_cid.as_str());
    out.append(",\"pubkey\":");
    json::push_quoted_or_null(&mut out, &summary.pubkey);
    out.append("}");
    out
}

/// The module: a cache of accounts.
pub struct AccountsModule<A> {
    cache: AccountCache<A>,
}

impl<A> View for AccountsModule<A> {
    type V = Map<Seq<u8>, A>;

    closed spec fn view(&self) -> Map<Seq<u8>, A> {
        self.cache@
    }
}

/// The reply to creating or importing an account, before it is cached: `events` are emitted
/// first.
pub open spec fn stored_reply(
    events: Seq<EventView>,
    summary: AccountSummaryView,
    vlad: Result<Seq<char>, Seq<char>>,
) -> ReplyView {
    match cache::cache_key(vlad) {
        Ok(_) => ReplyView { text: summary_text(summary), events },
        Err(e) => ReplyView {
            text: error_text(e.text()),
            events: events.push(EventView::Failed(e.text())),
        },
    }
}

/// The reply to creating an account.
pub open spec fn create_reply(
    created: Result<AccountSummaryView, ErrorView>,
    vlad: Result<Seq<char>, Seq<char>>,
) -> ReplyView {
    match created {
        Ok(summary) => stored_reply(
            seq![EventView::AccountCreated(summary.vlad)],
            summary,
            vlad,
        ),
        Err(e) => failure(e.text()),
    }
}

/// The reply to importing an account.
pub open spec fn import_reply(
    imported: Result<AccountSummaryView, ErrorView>,
    vlad: Result<Seq<char>, Seq<char>>,
) -> ReplyView {
    match imported {
        Ok(summary) => stored_reply(Seq::empty(), summary, vlad),
        Err(e) => failure(e.text()),
    }
}

/// The cache after an account was created or imported.
pub open spec fn stored<A>(
    accounts: Map<Seq<u8>, A>,
    vlad: Result<Seq<char>, Seq<char>>,
    account: A,
) -> Map<Seq<u8>, A> {
    match cache::cache_key(vlad) {
        Ok(hash) => accounts.insert(hash, account),
        Err(_) => accounts,
    }
}

/// The summary of an account with the account.
pub open spec fn summary_of<A>(r: Result<(A, AccountSummary), Error>) -> Result<
    AccountSummaryView,
    ErrorView,
> {
    match r {
        Ok(found) => Ok(found.1@),
        Err(e) => Err(e@),
    }
}

impl<A> AccountsModule<A> {
    /// The module with an empty cache.
    pub fn new() -> (r: AccountsModule<A>)
        ensures
            r@ == Map::<Seq<u8>, A>::empty(),
    {
        AccountsModule { cache: AccountCache::new() }
    }

    /// Stores an account and replies with its summary, after the given events.
    fn store(
        &mut self,
        account: A,
        summary: &AccountSummary,
        vlad: Result<Vlad, String>,
        events: Vec<Event>,
    ) -> (r: Reply)
        ensures
            r@ == stored_reply(model::views(events@), summary@, model::fallible(vlad)),
            final(self)@ == stored(old(self)@, model::fallible(vlad), account),
    {
        match self.cache.insert(vlad, account) {
            Ok(()) => Reply { text: summary_json(summary), events },
            Err(e) => {
                let m: String = e.message();
                let reply: Reply = err_json(m.as_str());
                let mut all: Vec<Event> = events;
                let ghost before = all@;
                let failed: Event = Event::Failed(m);
                all.push(failed);
                proof {
                    model::lemma_views_push(before, failed);
                }
                Reply { text: reply.text, events: all }
            },
        }
    }

    /// Caches a created account. `created` is what creating it gave, `vlad` what the summary's
    /// VLAD text decodes to.
    pub fn create_account(
        &mut self,
        created: Result<(A, AccountSummary), Error>,
        vlad: Result<Vlad, String>,
    ) -> (r: Reply)
        ensures
            r@ == create_reply(summary_of(created), model::fallible(vlad)),
            final(self)@ == (match created {
                Ok(found) => stored(old(self)@, model::fallible(vlad), found.0),
                Err(_) => old(self)@,
            }),
    {
        match created {
            Ok((account, summary)) => {
                let mut events: Vec<Event> = Vec::new();
                events.push(Event::AccountCreated(summary.vlad.clone()));
                assert(model::views(events@) =~= seq![EventView::AccountCreated(summary@.vlad)]);
                self.store(account, &summary, vlad, events)
            },
            Err(e) => error_reply(&e),
        }
    }

    /// Caches an imported account. `imported` is what importing it gave, `vlad` what the
    /// summary's VLAD text decodes to.
    pub fn import_plog(
        &mut self,
        imported: Result<(A, AccountSummary), Error>,
        vlad: Result<Vlad, String>,
    ) -> (r: Reply)
        ensures
            r@ == import_reply(summary_of(imported), model::fallible(vlad)),
            final(self)@ == (match imported {
                Ok(found) => stored(old(self)@, model::fallible(vlad), found.0),
                Err(_) => old(self)@,
            }),
    {
        match imported {
            Ok((account, summary)) => {
                let events: Vec<Event> = Vec::new();
                assert(model::views(events@) =~= Seq::<EventView>::empty());
                self.store(account, &summary, vlad, events)
            },
            Err(e) => error_reply(&e),
        }
    }

    /// The cached account of a VLAD, or the reply for a missing one.
    pub fn entry(&self, vlad: Result<Vlad, String>) -> (r: Result<&A, Reply>)
        ensures
            match (r, cache::lookup_vlad(self@, model::fallible(vlad))) {
                (Ok(a), Ok(account)) => *a == account,
                (Err(reply), Err(e)) => reply@ == failure(e.text()),
                _ => false,
            },
    {
        match self.cache.get(vlad) {
            Ok(a) => Ok(a),
            Err(e) => Err(error_reply(&e)),
        }
    }

    /// Removes the account of a VLAD.
    pub fn remove_plog(&mut self, vlad: Result<Vlad, String>) -> (r: Reply)
        ensures
            match cache::lookup_vlad(old(self)@, model::fallible(vlad)) {
                Ok(_) => r@ == plain("{\"removed\":true}"@) && final(self)@ == old(self)@.remove(
                    cache::cache_key(model::fallible(vlad))->Ok_0,
                ),
                Err(e) => r@ == failure(e.text()) && final(self)@ == old(self)@,
            },
    {
        match self.cache.remove(vlad) {
            Ok(()) => plain_reply("{\"removed\":true}".to_owned()),
            Err(e) => error_reply(&e),
        }
    }

    /// Removes all accounts.
    pub fn clear_cache(&mut self) -> (r: Reply)
        ensures
            r@ == plain("{\"cleared\":"@ + text::decimal(old(self)@.dom().len()) + "}"@),
            final(self)@ == Map::<Seq<u8>, A>::empty(),
    {
        let n: usize = self.cache.clear();
        let count: String = text::decimal_text(n);
        plain_reply(text::concat3("{\"cleared\":", count.as_str(), "}"))
    }
}

/// The reply to a read.
pub fn value_reply(value: Result<PlogPathValue, Error>) -> (r: Reply)
    ensures
        r@ == (match error::outcome(value) {
            Ok(v) => plain(v.json()),
            Err(e) => failure(e.text()),
        }),
{
    match value {
        Ok(v) => plain_reply(v.to_json_string()),
        Err(e) => error_reply(&e),
    }
}

/// The reply to an export.
pub fn export_reply(exported: Result<String, Error>) -> (r: Reply)
    ensures
        r@ == (match error::outcome(exported) {
            Ok(s) => plain(s),
            Err(e) => failure(e.text()),
        }),
{
    match exported {
        Ok(s) => plain_reply(s),
        Err(e) => error_reply(&e),
    }
}

impl<W> AccountsModule<AccountsApi<W>> {
    /// The log of an account in multibase.
    pub fn export_plog(&self, vlad: Result<Vlad, String>) -> (r: Reply)
        ensures
            r@ == (match cache::lookup_vlad(self@, model::fallible(vlad)) {
                Err(e) => failure(e.text()),
                Ok(account) => match account@.log() {
                    Ok(log) => plain(log.encoded),
                    Err(e) => failure(e.text()),
                },
            }),
    {
        match self.entry(vlad) {
            Ok(account) => export_reply(account.export_plog()),
            Err(reply) => reply,
        }
    }

    /// The value at a key path of an account.
    pub fn get_value(&self, vlad: Result<Vlad, String>, path: &KeyText) -> (r: Reply)
        ensures
            r@ == (match cache::lookup_vlad(self@, model::fallible(vlad)) {
                Err(e) => failure(e.text()),
                Ok(account) => match account@.log() {
                    Ok(log) => match values::plog_value(log, path@) {
                        Ok(v) => plain(v.json()),
                        Err(e) => failure(e.text()),
                    },
                    Err(e) => failure(e.text()),
                },
            }),
    {
        match self.entry(vlad) {
            Ok(account) => value_reply(account.get_value(path)),
            Err(reply) => reply,
        }
    }

    /// The delegations of an account, sorted by path.
    pub fn list_delegations(&self, vlad: Result<Vlad, String>) -> (r: Reply)
        ensures
            match cache::lookup_vlad(self@, model::fallible(vlad)) {
                Err(e) => r@ == failure(e.text()),
                Ok(account) => match account@.log() {
                    Err(e) => r@ == failure(e.text()),
                    Ok(log) => match values::verify_fault(log.steps) {
                        Some(e) => r@ == failure(e.text()),
                        None => exists|list: Seq<PathDelegationView>|
                            delegation::lists(list, delegation::head_delegations(log)) && r@
                                == plain("["@ + #[trigger] delegation_texts(list) + "]"@),
                    },
                },
            },
    {
        match self.entry(vlad) {
            Ok(account) => {
                let list: Result<Vec<PathDelegation>, Error> = account.list_delegations();
                delegations_reply(list)
            },
            Err(reply) => reply,
        }
    }
}

/// In the cache, exactly the account under `hash` changed, to one with the given value.
pub open spec fn entry_changed<W>(
    before: Map<Seq<u8>, AccountsApi<W>>,
    after: Map<Seq<u8>, AccountsApi<W>>,
    hash: Seq<u8>,
    value: AccountsApiView<W>,
) -> bool {
    &&& after.contains_key(hash) && after[hash]@ == value
    &&& after == before.insert(hash, after[hash])
}

/// The cached accounts of a module under a decoded VLAD text.
pub open spec fn entry_at<W>(
    accounts: Map<Seq<u8>, AccountsApi<W>>,
    vlad: Result<Seq<char>, Seq<char>>,
) -> Result<(Seq<u8>, AccountsApiView<W>), ErrorView> {
    match cache::lookup_vlad(accounts, vlad) {
        Ok(account) => Ok((cache::cache_key(vlad)->Ok_0, account@)),
        Err(e) => Err(e),
    }
}

impl<W> AccountsModule<AccountsApi<W>> {
    /// Takes an account out, to be put back under its hash.
    fn take(&mut self, vlad: Result<Vlad, String>) -> (r: Result<
        (VladHash, AccountsApi<W>),
        Reply,
    >)
        ensures
            match (r, entry_at(old(self)@, model::fallible(vlad))) {
                (Ok(taken), Ok((hash, value))) => {
                    &&& taken.0@ == hash && taken.1@ == value
                    &&& old(self)@.contains_key(hash)
                    &&& final(self)@ == old(self)@.remove(hash)
                },
                (Err(reply), Err(e)) => {
                    &&& reply@ == failure(e.text())
                    &&& final(self)@ == old(self)@
                },
                _ => false,
            },
    {
        let hash: VladHash = match AccountCache::<AccountsApi<W>>::key_from_multibase(vlad) {
            Ok(h) => h,
            Err(e) => {
                return Err(error_reply(&e));
            },
        };
        match self.cache.take_by_hash(&hash) {
            Ok(account) => Ok((hash, account)),
            Err(e) => Err(error_reply(&e)),
        }
    }

    /// How an update of an account is made with its `/pubkey`.
    pub fn update_account(
        &self,
        vlad: Result<Vlad, String>,
        ops_json: &str,
        decoded: Result<Vec<AccountOp>, String>,
    ) -> (r: Result<UpdateConfig, Reply>)
        ensures
            match cache::lookup_vlad(self@, model::fallible(vlad)) {
                Err(e) => r is Err && r->Err_0@ == failure(e.text()),
                Ok(account) => match account_ops::parsed_ops(
                    ops_json@,
                    model::fallible_list(decoded),
                ) {
                    Err(e) => r is Err && r->Err_0@ == failure(e.text()),
                    Ok(ops) => match account@.update_request(ops) {
                        Ok(config) => r is Ok && r->Ok_0@ == config,
                        Err(e) => r is Err && r->Err_0@ == failure(e.text()),
                    },
                },
            },
    {
        match self.entry(vlad) {
            Ok(account) => match account.update_account(ops_json, decoded) {
                Ok(config) => Ok(config),
                Err(e) => Err(error_reply(&e)),
            },
            Err(reply) => Err(reply),
        }
    }

    /// How an update of a delegated branch of an account is made that its wallet can sign.
    pub fn update_path(
        &self,
        vlad: Result<Vlad, String>,
        path: &KeyText,
        ops_json: &str,
        decoded: Result<Vec<AccountOp>, String>,
    ) -> (r: Result<UpdateConfig, Reply>)
        ensures
            match cache::lookup_vlad(self@, model::fallible(vlad)) {
                Err(e) => r is Err && r->Err_0@ == failure(e.text()),
                Ok(account) => match account@.path_update_request(
                    path@,
                    account_ops::parsed_ops(ops_json@, model::fallible_list(decoded)),
                ) {
                    Ok(config) => r is Ok && r->Ok_0@ == config,
                    Err(e) => r is Err && r->Err_0@ == failure(e.text()),
                },
            },
    {
        match self.entry(vlad) {
            Ok(account) => match account.update_path(path, ops_json, decoded) {
                Ok(config) => Ok(config),
                Err(e) => Err(error_reply(&e)),
            },
            Err(reply) => Err(reply),
        }
    }

    /// The entry that delegates a branch of an account.
    pub fn delegate_path(
        &self,
        vlad: Result<Vlad, String>,
        path: &KeyText,
        mk: Result<Multikey, String>,
        longhop: Option<LongHop>,
    ) -> (r: Result<NextEntry, Reply>)
        requires
            cache::lookup_vlad(self@, model::fallible(vlad)) is Ok ==> cache::lookup_vlad(
                self@,
                model::fallible(vlad),
            )->Ok_0@.can_grow(),
        ensures
            match cache::lookup_vlad(self@, model::fallible(vlad)) {
                Err(e) => r is Err && r->Err_0@ == failure(e.text()),
                Ok(account) => match account@.delegating_entry(
                    path@,
                    model::fallible(mk),
                    model::opt(longhop),
                ) {
                    Ok(entry) => r is Ok && r->Ok_0@ == entry,
                    Err(e) => r is Err && r->Err_0@ == failure(e.text()),
                },
            },
    {
        match self.entry(vlad) {
            Ok(account) => match account.delegate_path(path, mk, longhop) {
                Ok(entry) => Ok(entry),
                Err(e) => Err(error_reply(&e)),
            },
            Err(reply) => Err(reply),
        }
    }

    /// The entry that revokes a branch of an account.
    pub fn revoke_path(
        &self,
        vlad: Result<Vlad, String>,
        path: &KeyText,
        longhop: Option<LongHop>,
    ) -> (r: Result<NextEntry, Reply>)
        requires
            cache::lookup_vlad(self@, model::fallible(vlad)) is Ok ==> cache::lookup_vlad(
                self@,
                model::fallible(vlad),
            )->Ok_0@.can_grow(),
        ensures
            match cache::lookup_vlad(self@, model::fallible(vlad)) {
                Err(e) => r is Err && r->Err_0@ == failure(e.text()),
                Ok(account) => match account@.revoking_entry(
                    path@,
                    model::opt(longhop),
                ) {
                    Ok(entry) => r is Ok && r->Ok_0@ == entry,
                    Err(e) => r is Err && r->Err_0@ == failure(e.text()),
                },
            },
    {
        match self.entry(vlad) {
            Ok(account) => match account.revoke_path(path, longhop) {
                Ok(entry) => Ok(entry),
                Err(e) => Err(error_reply(&e)),
            },
            Err(reply) => Err(reply),
        }
    }

    /// Prepares an update of a delegated branch of an account, for a signer elsewhere.
    pub fn prepare_update(
        &mut self,
        vlad: Result<Vlad, String>,
        path: &KeyText,
        ops_json: &str,
        decoded: Result<Vec<AccountOp>, String>,
        longhop: Option<LongHop>,
        now: u64,
    ) -> (r: Result<PathUpdatePlan, Reply>)
        requires
            entry_at(old(self)@, model::fallible(vlad)) is Ok ==> entry_at(
                old(self)@,
                model::fallible(vlad),
            )->Ok_0.1.can_grow(),
        ensures
            match entry_at(old(self)@, model::fallible(vlad)) {
                Err(e) => r is Err && r->Err_0@ == failure(e.text()) && final(self)@ == old(self)@,
                Ok((hash, value)) => {
                    &&& entry_changed(old(self)@, final(self)@, hash, value.purged(now))
                    &&& match value.path_update_plan(
                        path@,
                        account_ops::parsed_ops(ops_json@, model::fallible_list(decoded)),
                        model::opt(longhop),
                    ) {
                        Ok(plan) => r is Ok && r->Ok_0@ == plan,
                        Err(e) => r is Err && r->Err_0@ == failure(e.text()),
                    }
                },
            },
    {
        let (hash, mut account): (VladHash, AccountsApi<W>) = match self.take(vlad) {
            Ok(taken) => taken,
            Err(reply) => {
                return Err(reply);
            },
        };
        let prepared: Result<PathUpdatePlan, Error> = account.prepare_path_update(
            path,
            ops_json,
            decoded,
            longhop,
            now,
        );
        self.cache.insert_by_hash(hash, account);
        assert(self@ =~= old(self)@.insert(hash@, self@[hash@]));
        match prepared {
            Ok(plan) => Ok(plan),
            Err(e) => Err(error_reply(&e)),
        }
    }

    /// Issues the challenge for a prepared update, once its entry was serialized.
    pub fn issue_challenge(
        &mut self,
        vlad: Result<Vlad, String>,
        plan: PathUpdatePlan,
        serialized: Result<Vec<u8>, String>,
        now: u64,
    ) -> (r: Reply)
        ensures
            match entry_at(old(self)@, model::fallible(vlad)) {
                Err(e) => r@ == failure(e.text()) && final(self)@ == old(self)@,
                Ok((hash, value)) => match model::fallible(serialized) {
                    Err(reason) => r@ == failure(ErrorView::Plog(reason).text()) && entry_changed(
                        old(self)@,
                        final(self)@,
                        hash,
                        value,
                    ),
                    Ok(message) => {
                        ||| exists|id: Seq<char>|
                            {
                                &&& challenge::is_challenge_id(id)
                                &&& r@ == plain(
                                    challenge_text(
                                        #[trigger] challenge::challenge_for(id, plan@, message),
                                    ),
                                )
                                &&& entry_changed(
                                    old(self)@,
                                    final(self)@,
                                    hash,
                                    value.with_pending(
                                        id,
                                        challenge::pending_for(plan@, message, now),
                                    ),
                                )
                            }
                        ||| exists|e: ErrorView|
                            #![trigger e.text()]
                            e is Randomness && r@ == failure(e.text()) && entry_changed(
                                old(self)@,
                                final(self)@,
                                hash,
                                value,
                            )
                    },
                },
            },
    {
        let (hash, mut account): (VladHash, AccountsApi<W>) = match self.take(vlad) {
            Ok(taken) => taken,
            Err(reply) => {
                return reply;
            },
        };
        let issued: Result<PathUpdateChallenge, Error> = account.issue_challenge(
            plan,
            serialized,
            now,
        );
        self.cache.insert_by_hash(hash, account);
        assert(self@ =~= old(self)@.insert(hash@, self@[hash@]));
        proof {
            if issued is Ok {
                let c = issued->Ok_0@;
                assert(c == challenge::challenge_for(
                    c.challenge_id,
                    plan@,
                    model::fallible(serialized)->Ok_0,
                ));
            }
        }
        prepare_reply(issued)
    }

    /// What committing a challenge of an account asks for.
    pub fn commit_update(
        &mut self,
        vlad: Result<Vlad, String>,
        challenge_id: &str,
        signature: Result<Multisig, String>,
        now: u64,
    ) -> (r: Result<CommitRequest, Reply>)
        ensures
            match entry_at(old(self)@, model::fallible(vlad)) {
                Err(e) => r is Err && r->Err_0@ == failure(e.text()) && final(self)@ == old(self)@,
                Ok((hash, value)) => {
                    &&& entry_changed(
                        old(self)@,
                        final(self)@,
                        hash,
                        value.purged(now).without(challenge_id@),
                    )
                    &&& match value.commit_request(
                        challenge_id@,
                        model::fallible(signature),
                        now,
                    ) {
                        Ok(request) => r is Ok && r->Ok_0@ == request,
                        Err(e) => r is Err && r->Err_0@ == failure(e.text()),
                    }
                },
            },
    {
        let (hash, mut account): (VladHash, AccountsApi<W>) = match self.take(vlad) {
            Ok(taken) => taken,
            Err(reply) => {
                return Err(reply);
            },
        };
        let request: Result<CommitRequest, Error> = account.commit_path_update(
            challenge_id,
            signature,
            now,
        );
        self.cache.insert_by_hash(hash, account);
        assert(self@ =~= old(self)@.insert(hash@, self@[hash@]));
        match request {
            Ok(request) => Ok(request),
            Err(e) => Err(error_reply(&e)),
        }
    }

    /// Takes over the log that a commit or an update of an account gave, and replies with the
    /// summary and the events of its kind.
    pub fn accept_update(
        &mut self,
        vlad: Result<Vlad, String>,
        updated: Result<Log, Error>,
        kind: UpdateKind,
        path: Option<String>,
    ) -> (r: Reply)
        ensures
            match entry_at(old(self)@, model::fallible(vlad)) {
                Err(e) => r@ == failure(e.text()) && final(self)@ == old(self)@,
                Ok((hash, value)) => match value.accepted(error::outcome(updated)) {
                    Ok(summary) => {
                        let committed = CommittedView { summary, kind, path: model::opt(path) };
                        &&& r@ == (ReplyView {
                            text: summary_text(summary),
                            events: commit_events(committed),
                        })
                        &&& entry_changed(
                            old(self)@,
                            final(self)@,
                            hash,
                            value.after_update(error::outcome(updated)),
                        )
                    },
                    Err(e) => r@ == failure(e.text()) && entry_changed(
                        old(self)@,
                        final(self)@,
                        hash,
                        value.after_update(error::outcome(updated)),
                    ),
                },
            },
    {
        let (hash, mut account): (VladHash, AccountsApi<W>) = match self.take(vlad) {
            Ok(taken) => taken,
            Err(reply) => {
                return reply;
            },
        };
        let accepted: Result<AccountSummary, Error> = account.accept_update(updated);
        self.cache.insert_by_hash(hash, account);
        assert(self@ =~= old(self)@.insert(hash@, self@[hash@]));
        match accepted {
            Ok(summary) => commit_reply(Ok(Committed { summary, kind, path })),
            Err(e) => error_reply(&e),
        }
    }

    /// Drops a challenge of an account.
    pub fn cancel_update(&mut self, vlad: Result<Vlad, String>, challenge_id: &str, now: u64) -> (r:
        Reply)
        ensures
            match entry_at(old(self)@, model::fallible(vlad)) {
                Err(e) => r@ == failure(e.text()) && final(self)@ == old(self)@,
                Ok((hash, value)) => {
                    &&& entry_changed(
                        old(self)@,
                        final(self)@,
                        hash,
                        value.purged(now).without(challenge_id@),
                    )
                    &&& r@ == (if challenge::live(value.pending, now).contains_key(challenge_id@) {
                        plain("{\"cancelled\":true}"@)
                    } else {
                        failure(ErrorView::ChallengeNotFound(challenge_id@).text())
                    })
                },
            },
    {
        let (hash, mut account): (VladHash, AccountsApi<W>) = match self.take(vlad) {
            Ok(taken) => taken,
            Err(reply) => {
                return reply;
            },
        };
        let cancelled: Result<(), Error> = account.cancel_path_update(challenge_id, now);
        self.cache.insert_by_hash(hash, account);
        assert(self@ =~= old(self)@.insert(hash@, self@[hash@]));
        cancel_reply(cancelled)
    }
}

fn push_delegation(out: &mut String, d: &PathDelegation)
    ensures
        final(out)@ == old(out)@ + delegation_text(d@),
{
    let mut item: String = "{".to_owned();
    json::push_text_field(&mut item, "path", d.path.as_str());
    item.append(",");
    json::push_text_field(&mut item, "pubkey", d.pubkey.as_str());
    item.append("}");
    out.append(item.as_str());
}

/// Delegations as a JSON array.
pub fn delegations_json(list: &Vec<PathDelegation>) -> (r: String)
    ensures
        r@ == "["@ + delegation_texts(model::views(list@)) + "]"@,
{
    let ghost items = model::views(list@);
    let mut inner: String = "".to_owned();
    let mut i: usize = 0;
    proof {
        reveal_strlit("");
        assert(items.take(0) =~= Seq::<PathDelegationView>::empty());
        assert(inner@ =~= Seq::<char>::empty());
    }
    while i < list.len()
        invariant
            i <= list.len(),
            items == model::views(list@),
            inner@ == delegation_texts(items.take(i as int)),
        decreases list.len() - i,
    {
        proof {
            assert(items.take(i + 1).drop_last() =~= items.take(i as int));
            assert(items.take(i + 1).last() == list@[i as int]@);
        }
        if i > 0 {
            inner.append(",");
        }
        push_delegation(&mut inner, &list[i]);
        proof {
            if i == 0 {
                assert(items.take(1)[0] == list@[0]@);
                assert(inner@ =~= delegation_text(list@[0]@));
            }
        }
        i = i + 1;
    }
    assert(items.take(i as int) =~= items);
    text::concat3("[", inner.as_str(), "]")
}

/// The reply to listing delegations.
pub fn delegations_reply(list: Result<Vec<PathDelegation>, Error>) -> (r: Reply)
    ensures
        r@ == (match error::outcome_list(list) {
            Ok(l) => plain("["@ + delegation_texts(l) + "]"@),
            Err(e) => failure(e.text()),
        }),
{
    match list {
        Ok(l) => plain_reply(delegations_json(&l)),
        Err(e) => error_reply(&e),
    }
}

/// A challenge as JSON.
pub fn challenge_json(c: &PathUpdateChallenge) -> (r: String)
    ensures
        r@ == challenge_text(c@),
{
    let mut out: String = "{".to_owned();
    json::push_text_field(&mut out, "challenge_id", c.challenge_id.as_str());
    out.append(",");
    json::push_text_field(&mut out, "vlad", c.vlad.as_str());
    out.append(",");
    json::push_text_field(&mut out, "path", c.path.as_str());
    out.append(",");
    json::push_text_field(&mut out, "signing_key_path", c.signing_key_path.as_str());
    out.append(",");
    json::push_text_field(&mut out, "head_cid", c.head_cid.as_str());
    out.append(",");
    json::push_text_field(&mut out, "message_multibase", c.message_multibase.as_str());
    out.append(",");
    json::push_text_field(&mut out, "message_encoding", c.message_encoding.as_str());
    out.append("}");
    out
}

/// The reply to preparing an update.
pub fn prepare_reply(prepared: Result<PathUpdateChallenge, Error>) -> (r: Reply)
    ensures
        r@ == (match error::outcome(prepared) {
            Ok(c) => plain(challenge_text(c)),
            Err(e) => failure(e.text()),
        }),
{
    match prepared {
        Ok(c) => plain_reply(challenge_json(&c)),
        Err(e) => error_reply(&e),
    }
}

/// The reply to committing an update, with its events.
pub fn commit_reply(committed: Result<Committed, Error>) -> (r: Reply)
    ensures
        r@ == (match error::outcome(committed) {
            Ok(c) => ReplyView { text: summary_text(c.summary), events: commit_events(c) },
            Err(e) => failure(e.text()),
        }),
{
    match committed {
        Ok(c) => {
            let text: String = summary_json(&c.summary);
            let mut events: Vec<Event> = Vec::new();
            events.push(Event::AccountUpdated(c.summary.head_cid.clone()));
            match (&c.kind, &c.path) {
                (UpdateKind::Delegate, Some(p)) => {
                    events.push(Event::PathDelegated(c.summary.vlad.clone(), p.clone()));
                },
                (UpdateKind::Revoke, Some(p)) => {
                    events.push(Event::PathRevoked(c.summary.vlad.clone(), p.clone()));
                },
                _ => {},
            }
            assert(model::views(events@) =~= commit_events(c@));
            Reply { text, events }
        },
        Err(e) => error_reply(&e),
    }
}

/// The reply to cancelling an update.
pub fn cancel_reply(cancelled: Result<(), Error>) -> (r: Reply)
    ensures
        r@ == (match cancelled {
            Ok(()) => plain("{\"cancelled\":true}"@),
            Err(e) => failure(e@.text()),
        }),
{
    match cancelled {
        Ok(()) => plain_reply("{\"cancelled\":true}".to_owned()),
        Err(e) => error_reply(&e),
    }
}

/// A failed call is told from a successful one by its text: the text of an error starts with
/// the field `error`, that of a summary does not.
pub proof fn law_errors_are_recognisable(message: Seq<char>, summary: AccountSummaryView)
    ensures
        text::begins_with(error_text(message), "{\"error\":"@),
        !text::begins_with(summary_text(summary), "{\"error\":"@),
{
    reveal_strlit("{");
    reveal_strlit("\"");
    reveal_strlit("\":");
    reveal_strlit("error");
    reveal_strlit("vlad");
    reveal_strlit("{\"error\":");
    let prefix = "{\"error\":"@;
    assert(error_text(message).subrange(0, 9) =~= prefix);
    let s = summary_text(summary);
    assert(s[2] == 'v');
    if text::begins_with(s, prefix) {
        assert(s.subrange(0, 9)[2] == prefix[2]);
    }
}

/// An account that was created or imported is found under its VLAD, and only that entry of the
/// cache changed.
pub proof fn law_stored_account_is_found<A>(
    accounts: Map<Seq<u8>, A>,
    vlad: Seq<char>,
    account: A,
    other: Seq<u8>,
)
    requires
        other != crate::vlad_hash::vlad_text_hash(vlad),
    ensures
        cache::lookup_vlad(stored(accounts, Ok(vlad), account), Ok(vlad)) == Ok::<A, ErrorView>(
            account,
        ),
        cache::lookup(stored(accounts, Ok(vlad), account), other) == cache::lookup(
            accounts,
            other,
        ),
{
}

/// A failed call is answered with the message as JSON, and reported as an event once. A plain
/// answer reports nothing.
pub proof fn law_failures_and_answers(message: Seq<char>)
    ensures
        error_text(message) == "{\"error\":"@ + json::quoted(message) + "}"@,
        failure(message).text == "{\"error\":"@ + json::quoted(message) + "}"@,
        failure(message).events == seq![EventView::Failed(message)],
        plain(message).text == message,
        plain(message).events == Seq::<EventView>::empty(),
{
    reveal_strlit("{");
    reveal_strlit("\"");
    reveal_strlit("error");
    reveal_strlit("\":");
    reveal_strlit("{\"error\":");
    assert("{"@ + ("\""@ + "error"@ + "\":"@) =~= "{\"error\":"@);
    assert(error_text(message) =~= ("{"@ + ("\""@ + "error"@ + "\":"@)) + json::quoted(message)
        + "}"@);
}

/// A summary is told as a JSON object of the account, its head and its public key or `null`.
pub proof fn law_summary_json(s: AccountSummaryView)
    ensures
        summary_text(s) == "{\"vlad\":"@ + json::quoted(s.vlad) + ",\"head_cid\":"@
            + json::quoted(s.head_cid) + ",\"pubkey\":"@ + (match s.pubkey {
            Some(pk) => json::quoted(pk),
            None => "null"@,
        }) + "}"@,
{
    lemma_field("vlad"@, s.vlad);
    lemma_field("head_cid"@, s.head_cid);
    reveal_strlit("{");
    reveal_strlit(",");
    reveal_strlit("\"");
    reveal_strlit("\":");
    reveal_strlit("vlad");
    reveal_strlit("head_cid");
    reveal_strlit("{\"vlad\":");
    reveal_strlit(",\"head_cid\":");
    assert("{"@ + ("\""@ + "vlad"@ + "\":"@) =~= "{\"vlad\":"@);
    assert(","@ + ("\""@ + "head_cid"@ + "\":"@) =~= ",\"head_cid\":"@);
    let tail = ",\"pubkey\":"@ + json::quoted_or_null(s.pubkey) + "}"@;
    assert(summary_text(s) =~= ("{"@ + ("\""@ + "vlad"@ + "\":"@)) + json::quoted(s.vlad) + (","@
        + ("\""@ + "head_cid"@ + "\":"@)) + json::quoted(s.head_cid) + tail);
    assert("{\"vlad\":"@ + json::quoted(s.vlad) + ",\"head_cid\":"@ + json::quoted(s.head_cid)
        + tail =~= "{\"vlad\":"@ + json::quoted(s.vlad) + ",\"head_cid\":"@ + json::quoted(
        s.head_cid,
    ) + ",\"pubkey\":"@ + json::quoted_or_null(s.pubkey) + "}"@);
}

proof fn lemma_field(name: Seq<char>, value: Seq<char>)
    ensures
        json::text_field(name, value) == ("\""@ + name + "\":"@) + json::quoted(value),
{
}

/// Delegations are told as a JSON array of objects of the branch and its key, in their order.
pub proof fn law_delegations_json(
    list: Seq<PathDelegationView>,
    d: PathDelegationView,
)
    ensures
        delegation_text(d) == "{\"path\":"@ + json::quoted(d.path) + ",\"pubkey\":"@
            + json::quoted(d.pubkey) + "}"@,
        delegation_texts(Seq::empty()) == Seq::<char>::empty(),
        delegation_texts(seq![d]) == delegation_text(d),
        list.len() > 0 ==> delegation_texts(list.push(d)) == delegation_texts(list) + seq![',']
            + delegation_text(d),
{
    reveal_strlit("{");
    reveal_strlit(",");
    reveal_strlit("\"");
    reveal_strlit("\":");
    reveal_strlit("path");
    reveal_strlit("pubkey");
    reveal_strlit("{\"path\":");
    reveal_strlit(",\"pubkey\":");
    assert("{"@ + ("\""@ + "path"@ + "\":"@) =~= "{\"path\":"@);
    assert(","@ + ("\""@ + "pubkey"@ + "\":"@) =~= ",\"pubkey\":"@);
    assert(delegation_text(d) =~= ("{"@ + ("\""@ + "path"@ + "\":"@)) + json::quoted(d.path) + (
    ","@ + ("\""@ + "pubkey"@ + "\":"@)) + json::quoted(d.pubkey) + "}"@);
    assert(","@ =~= seq![',']);
    if list.len() > 0 {
        assert(list.push(d).drop_last() =~= list);
    }
}

/// A challenge is told as a JSON object of its seven fields.
pub proof fn law_challenge_json(c: PathUpdateChallengeView)
    ensures
        challenge_text(c) == "{\"challenge_id\":"@ + json::quoted(c.challenge_id) + ",\"vlad\":"@
            + json::quoted(c.vlad) + ",\"path\":"@ + json::quoted(c.path)
            + ",\"signing_key_path\":"@ + json::quoted(c.signing_key_path) + ",\"head_cid\":"@
            + json::quoted(c.head_cid) + ",\"message_multibase\":"@ + json::quoted(
            c.message_multibase,
        ) + ",\"message_encoding\":"@ + json::quoted(c.message_encoding) + "}"@,
{
    reveal_strlit("{");
    reveal_strlit(",");
    reveal_strlit("\"");
    reveal_strlit("\":");
    reveal_strlit("challenge_id");
    reveal_strlit("vlad");
    reveal_strlit("path");
    reveal_strlit("signing_key_path");
    reveal_strlit("head_cid");
    reveal_strlit("message_multibase");
    reveal_strlit("message_encoding");
    reveal_strlit("{\"challenge_id\":");
    reveal_strlit(",\"vlad\":");
    reveal_strlit(",\"path\":");
    reveal_strlit(",\"signing_key_path\":");
    reveal_strlit(",\"head_cid\":");
    reveal_strlit(",\"message_multibase\":");
    reveal_strlit(",\"message_encoding\":");
    let t1 = "{"@ + json::text_field("challenge_id"@, c.challenge_id);
    let u1 = "{\"challenge_id\":"@ + json::quoted(c.challenge_id);
    assert("{"@ + ("\""@ + "challenge_id"@ + "\":"@) =~= "{\"challenge_id\":"@);
    assert(t1 =~= ("{"@ + ("\""@ + "challenge_id"@ + "\":"@)) + json::quoted(c.challenge_id));
    assert(","@ + ("\""@ + "vlad"@ + "\":"@) =~= ",\"vlad\":"@);
    lemma_next_field(t1, "vlad"@, ",\"vlad\":"@, c.vlad);
    let t2 = t1 + ","@ + json::text_field("vlad"@, c.vlad);
    assert(","@ + ("\""@ + "path"@ + "\":"@) =~= ",\"path\":"@);
    lemma_next_field(t2, "path"@, ",\"path\":"@, c.path);
    let t3 = t2 + ","@ + json::text_field("path"@, c.path);
    assert(","@ + ("\""@ + "signing_key_path"@ + "\":"@) =~= ",\"signing_key_path\":"@);
    lemma_next_field(t3, "signing_key_path"@, ",\"signing_key_path\":"@, c.signing_key_path);
    let t4 = t3 + ","@ + json::text_field("signing_key_path"@, c.signing_key_path);
    assert(","@ + ("\""@ + "head_cid"@ + "\":"@) =~= ",\"head_cid\":"@);
    lemma_next_field(t4, "head_cid"@, ",\"head_cid\":"@, c.head_cid);
    let t5 = t4 + ","@ + json::text_field("head_cid"@, c.head_cid);
    assert(","@ + ("\""@ + "message_multibase"@ + "\":"@) =~= ",\"message_multibase\":"@);
    lemma_next_field(t5, "message_multibase"@, ",\"message_multibase\":"@, c.message_multibase);
    let t6 = t5 + ","@ + json::text_field("message_multibase"@, c.message_multibase);
    assert(","@ + ("\""@ + "message_encoding"@ + "\":"@) =~= ",\"message_encoding\":"@);
    lemma_next_field(t6, "message_encoding"@, ",\"message_encoding\":"@, c.message_encoding);
}

proof fn lemma_next_field(before: Seq<char>, name: Seq<char>, start: Seq<char>, value: Seq<char>)
    requires
        start == ","@ + ("\""@ + name + "\":"@),
    ensures
        before + ","@ + json::text_field(name, value) == before + start + json::quoted(value),
{
    assert(before + ","@ + json::text_field(name, value) =~= before + start + json::quoted(value));
}

/// A committed update is reported with the new head, and after it with the branch that was
/// delegated or revoked, where the update was about one.
pub proof fn law_update_events(
    summary: AccountSummaryView,
    path: Option<Seq<char>>,
    p: Seq<char>,
)
    ensures
        commit_events(CommittedView { summary, kind: UpdateKind::Delegate, path: Some(p) }) == seq![
            EventView::AccountUpdated(summary.head_cid),
            EventView::PathDelegated(summary.vlad, p),
        ],
        commit_events(CommittedView { summary, kind: UpdateKind::Revoke, path: Some(p) }) == seq![
            EventView::AccountUpdated(summary.head_cid),
            EventView::PathRevoked(summary.vlad, p),
        ],
        commit_events(CommittedView { summary, kind: UpdateKind::Other, path }) == seq![
            EventView::AccountUpdated(summary.head_cid),
        ],
        commit_events(CommittedView { summary, kind: UpdateKind::Delegate, path: None }) == seq![
            EventView::AccountUpdated(summary.head_cid),
        ],
        commit_events(CommittedView { summary, kind: UpdateKind::Revoke, path: None }) == seq![
            EventView::AccountUpdated(summary.head_cid),
        ],
{
}

/// Creating reports the new account and answers with its summary, importing answers without a
/// report; where the VLAD text does not decode, or nothing was created, the failure is told and
/// reported. The account is kept under the hash of its VLAD, and nothing else changes.
pub proof fn law_creating_and_importing<A>(
    accounts: Map<Seq<u8>, A>,
    account: A,
    summary: AccountSummaryView,
    v: Seq<char>,
    vlad: Result<Seq<char>, Seq<char>>,
    reason: Seq<char>,
    e: ErrorView,
)
    ensures
        create_reply(Ok(summary), Ok(v)).text == summary_text(summary),
        create_reply(Ok(summary), Ok(v)).events == seq![EventView::AccountCreated(summary.vlad)],
        create_reply(Ok(summary), Err(reason)).text == error_text("encoding error: "@ + reason),
        create_reply(Ok(summary), Err(reason)).events == seq![
            EventView::AccountCreated(summary.vlad),
            EventView::Failed("encoding error: "@ + reason),
        ],
        create_reply(Err(e), vlad) == failure(e.text()),
        import_reply(Ok(summary), Ok(v)).text == summary_text(summary),
        import_reply(Ok(summary), Ok(v)).events == Seq::<EventView>::empty(),
        import_reply(Ok(summary), Err(reason)) == failure("encoding error: "@ + reason),
        import_reply(Err(e), vlad) == failure(e.text()),
        stored(accounts, Ok(v), account) == accounts.insert(
            crate::convert::sha256(vstd::utf8::encode_utf8(v)),
            account,
        ),
        stored(accounts, Err(reason), account) == accounts,
{
    assert(create_reply(Ok(summary), Err(reason)).events =~= seq![
        EventView::AccountCreated(summary.vlad),
        EventView::Failed("encoding error: "@ + reason),
    ]);
    assert(import_reply(Ok(summary), Err(reason)).events =~= seq![
        EventView::Failed("encoding error: "@ + reason),
    ]);
}

/// The reply to storing carries the events that were to be emitted first.
pub proof fn law_stored_replies(
    events: Seq<EventView>,
    summary: AccountSummaryView,
    v: Seq<char>,
    reason: Seq<char>,
)
    ensures
        stored_reply(events, summary, Ok(v)).text == summary_text(summary),
        stored_reply(events, summary, Ok(v)).events == events,
        stored_reply(events, summary, Err(reason)).text == error_text(
            "encoding error: "@ + reason,
        ),
        stored_reply(events, summary, Err(reason)).events == events.push(
            EventView::Failed("encoding error: "@ + reason),
        ),
{
}

/// The summary of a result is the one that it holds.
pub proof fn law_summaries_of_results<A>(account: A, summary: AccountSummary, e: Error)
    ensures
        summary_of(Ok::<(A, AccountSummary), Error>((account, summary))) == Ok::<
            AccountSummaryView,
            ErrorView,
        >(summary@),
        summary_of(Err::<(A, AccountSummary), Error>(e)) == Err::<AccountSummaryView, ErrorView>(
            e@,
        ),
{
}

/// An account is found under the hash of its VLAD, with its value. When one changes, it has its
/// new value, and all others are there as they were.
pub proof fn law_accounts_change_alone<W>(
    before: Map<Seq<u8>, AccountsApi<W>>,
    after: Map<Seq<u8>, AccountsApi<W>>,
    hash: Seq<u8>,
    value: AccountsApiView<W>,
    v: Seq<char>,
    reason: Seq<char>,
)
    ensures
        entry_changed(before, after, hash, value) <==> {
            &&& after.contains_key(hash) && after[hash]@ == value
            &&& forall|other: Seq<u8>|
                other != hash ==> (#[trigger] after.contains_key(other) <==> before.contains_key(
                    other,
                ))
            &&& forall|other: Seq<u8>|
                other != hash && #[trigger] before.contains_key(other) ==> after[other]
                    == before[other]
        },
        hash == crate::convert::sha256(vstd::utf8::encode_utf8(v)) && before.contains_key(hash)
            ==> entry_at(before, Ok(v)) == Ok::<(Seq<u8>, AccountsApiView<W>), ErrorView>(
            (hash, before[hash]@),
        ),
        hash == crate::convert::sha256(vstd::utf8::encode_utf8(v)) && !before.contains_key(hash)
            ==> entry_at(before, Ok(v)) == Err::<(Seq<u8>, AccountsApiView<W>), ErrorView>(
            ErrorView::AccountNotCached(crate::encoding::hex_text(hash).subrange(0, 16)),
        ),
        entry_at(before, Err(reason)) == Err::<(Seq<u8>, AccountsApiView<W>), ErrorView>(
            ErrorView::Encoding(reason),
        ),
{
    if after.contains_key(hash) && after[hash]@ == value && (forall|other: Seq<u8>|
        other != hash ==> (#[trigger] after.contains_key(other) <==> before.contains_key(other)))
        && (forall|other: Seq<u8>|
        other != hash && #[trigger] before.contains_key(other) ==> after[other] == before[other]) {
        let all = before.insert(hash, after[hash]);
        assert forall|k: Seq<u8>| #[trigger] after.contains_key(k) == all.contains_key(k) by {}
        assert forall|k: Seq<u8>| #[trigger] after.contains_key(k) implies after[k] == all[k] by {
            if k != hash {
                assert(before.contains_key(k));
            }
        }
        assert(after =~= all);
    }
}

/// The fields of a reply, of an event and of a committed update are their values.
pub proof fn law_reply_values(r: Reply, c: Committed, a: String, b: String)
    ensures
        r@.text == r.text@ && r@.events == model::views(r.events@),
        c@.summary == c.summary@ && c@.kind == c.kind && c@.path == model::opt(c.path),
        Event::AccountCreated(a)@ == EventView::AccountCreated(a@),
        Event::AccountUpdated(a)@ == EventView::AccountUpdated(a@),
        Event::PathDelegated(a, b)@ == EventView::PathDelegated(a@, b@),
        Event::PathRevoked(a, b)@ == EventView::PathRevoked(a@, b@),
        Event::Failed(a)@ == EventView::Failed(a@),
{
}

}
