//! Service surface of one account: a wallet, a loaded log, and pending challenges.
//!
//! The service decides; opening, signing, serializing and appending are done by the wallet and
//! the log implementation. A call that needs them comes in two parts: the first checks the
//! request and says what is to be done, the second takes over what came of it.

use crate::account_ops;
use crate::account_ops::AccountOp;
use crate::binding;
use crate::challenge;
use crate::challenge::{
    PathUpdateChallenge, PathUpdatePlan, PathUpdatePlanView, PendingPathUpdate,
    PendingPathUpdateView,
};
use crate::config;
use crate::config::{OpenConfig, UpdateConfig, UpdateConfigView};
use crate::delegation;
use crate::delegation::PathDelegation;
use crate::encoding;
use crate::entry_update;
use crate::entry_update::{
    LongHop, LongHopView, NextEntry, NextEntrySpec, NextEntrySpecView, NextEntryView,
    UnsignedUpdate, UnsignedUpdateView,
};
use crate::error;
use crate::error::{Error, ErrorView};
use crate::key::{Key, KeyText, KeyTextView};
use crate::keycard_lifecycle;
use crate::keycard_lifecycle::InitializedKeycard;
use crate::model;
use crate::ops::{OpParams, OpParamsView};
use crate::path_map;
use crate::path_map::DEFAULT_PUBKEY_PATH;
use crate::plog::{
    Codec, CodecView, Entry, EntryView, Log, LogView, Multikey, MultikeyView,
    Multisig, MultisigView, Script, ScriptView,
};
use crate::storage;
use crate::storage::{CreateAccountResult, KeycardCredentials};
use crate::table;
use crate::table::Table;
use crate::values;
use crate::values::{AccountSummary, AccountSummaryView, PlogPathValue};
use crate::vlad_hash;
use crate::wallet;
use crate::wallet::{KeycardWallet, KeycardWalletView};
use vstd::prelude::*;
use vstd::string::*;

verus! {

/// Declares `std::path::PathBuf`: a path is carried, and nothing is claimed of it.
#[verifier::external_type_specification]
#[verifier::external_body]
pub struct ExPathBuf(std::path::PathBuf);

/// Service of one account. `W` is the wallet.
pub struct AccountsApi<W> {
    wallet: Option<W>,
    account: Option<Log>,
    persistence_path: Option<std::path::PathBuf>,
    pubkey_derivation: String,
    pending: Table<String, PendingPathUpdate>,
}

/// An [`AccountsApi`] as a mathematical value.
#[verifier::ext_equal]
pub struct AccountsApiView<W> {
    /// The attached wallet.
    pub wallet: Option<W>,
    /// The loaded log.
    pub account: Option<LogView>,
    /// Directory hint for callers that persist something.
    pub persistence_path: Option<std::path::PathBuf>,
    /// BIP32 path meant for `/pubkey`.
    pub pubkey_derivation: Seq<char>,
    /// Challenges by their identifiers.
    pub pending: Map<Seq<char>, PendingPathUpdateView>,
}

impl<W> View for AccountsApi<W> {
    type V = AccountsApiView<W>;

    closed spec fn view(&self) -> AccountsApiView<W> {
        AccountsApiView {
            wallet: self.wallet,
            account: model::opt(self.account),
            persistence_path: self.persistence_path,
            pubkey_derivation: self.pubkey_derivation@,
            pending: table::item_views(self.pending@),
        }
    }
}

impl<W> AccountsApiView<W> {
    /// The service without wallet and account.
    pub open spec fn fresh() -> AccountsApiView<W> {
        AccountsApiView {
            wallet: None,
            account: None,
            persistence_path: None,
            pubkey_derivation: DEFAULT_PUBKEY_PATH@,
            pending: Map::empty(),
        }
    }

    /// The service with a wallet attached, and no account.
    pub open spec fn attached(self, wallet: W, derivation: Option<Seq<char>>) -> AccountsApiView<
        W,
    > {
        AccountsApiView {
            wallet: Some(wallet),
            account: None,
            pubkey_derivation: match derivation {
                Some(d) => d,
                None => self.pubkey_derivation,
            },
            ..self
        }
    }

    /// The service without wallet, account and challenges.
    pub open spec fn disconnected(self) -> AccountsApiView<W> {
        AccountsApiView { wallet: None, account: None, pending: Map::empty(), ..self }
    }

    /// The service with a log loaded.
    pub open spec fn with_account(self, log: LogView) -> AccountsApiView<W> {
        AccountsApiView { account: Some(log), ..self }
    }

    /// The service with an updated log: all challenges are void.
    pub open spec fn updated(self, log: LogView) -> AccountsApiView<W> {
        AccountsApiView { account: Some(log), pending: Map::empty(), ..self }
    }

    /// The service without challenges.
    pub open spec fn voided(self) -> AccountsApiView<W> {
        AccountsApiView { pending: Map::empty(), ..self }
    }

    /// The service without the challenges that expired by `now`.
    pub open spec fn purged(self, now: u64) -> AccountsApiView<W> {
        AccountsApiView { pending: challenge::live(self.pending, now), ..self }
    }

    /// The service without a challenge.
    pub open spec fn without(self, id: Seq<char>) -> AccountsApiView<W> {
        AccountsApiView { pending: self.pending.remove(id), ..self }
    }

    /// The service with a challenge issued.
    pub open spec fn with_pending(self, id: Seq<char>, p: PendingPathUpdateView) -> AccountsApiView<
        W,
    > {
        AccountsApiView { pending: self.pending.insert(id, p), ..self }
    }

    /// The loaded log, or the error for a missing one.
    pub open spec fn log(self) -> Result<LogView, ErrorView> {
        match self.account {
            Some(log) => Ok(log),
            None => Err(ErrorView::NoAccount),
        }
    }

    /// The loaded log has a position for a further entry.
    pub open spec fn can_grow(self) -> bool {
        self.account is Some ==> entry_update::can_grow(self.account->Some_0.steps)
    }

    /// What creating an account with an opened log gives.
    pub open spec fn created(self, opened: Result<LogView, ErrorView>) -> Result<
        AccountSummaryView,
        ErrorView,
    > {
        if self.wallet is None {
            Err(ErrorView::NotConnected)
        } else {
            match opened {
                Err(e) => Err(e),
                Ok(log) => values::plog_summary(log),
            }
        }
    }

    /// What loading a log gives.
    pub open spec fn loaded(self, log: LogView) -> Result<AccountSummaryView, ErrorView> {
        match values::plog_summary(log) {
            Err(e) => Err(e),
            Ok(summary) => if self.wallet is None {
                Err(ErrorView::NotConnected)
            } else {
                Ok(summary)
            },
        }
    }

    /// What taking over an updated log gives.
    pub open spec fn accepted(self, updated: Result<LogView, ErrorView>) -> Result<
        AccountSummaryView,
        ErrorView,
    > {
        match self.log() {
            Err(e) => Err(e),
            Ok(_) => match updated {
                Err(e) => Err(e),
                Ok(log) => values::plog_summary(log),
            },
        }
    }

    /// The service after an updated log came in: challenges become void in any case, the log is
    /// retained if it verifies.
    pub open spec fn after_update(self, updated: Result<LogView, ErrorView>) -> AccountsApiView<W> {
        match (self.account, updated) {
            (Some(_), Ok(log)) => if values::verify_fault(log.steps) is None {
                self.updated(log)
            } else {
                self.voided()
            },
            _ => self,
        }
    }

    /// The loaded log, if there is one, passes full-chain verification.
    pub open spec fn retains_verified(self) -> bool {
        self.account is Some ==> values::verify_fault(self.account->Some_0.steps) is None
    }

    /// How an update with root-signed operations is made.
    pub open spec fn update_request(self, ops: Seq<OpParamsView>) -> Result<
        UpdateConfigView,
        ErrorView,
    > {
        if self.account is None {
            Err(ErrorView::NoAccount)
        } else {
            Ok(config::update_config("/pubkey"@, ops))
        }
    }

    /// The head entry of the loaded log.
    pub open spec fn head(self) -> Result<EntryView, ErrorView> {
        match self.log() {
            Err(e) => Err(e),
            Ok(log) => entry_update::head_entry(log.steps),
        }
    }

    /// The root-signed entry with the given locks and operations.
    pub open spec fn root_entry(
        self,
        locks: Seq<ScriptView>,
        ops: Seq<OpParamsView>,
        longhop: Option<LongHopView>,
    ) -> Result<NextEntryView, ErrorView> {
        match self.log() {
            Err(e) => Err(e),
            Ok(log) => entry_update::next_entry(
                log.steps,
                NextEntrySpecView { unlock: config::unlock_script(), locks: Some(locks), ops },
                longhop,
            ),
        }
    }

    /// The entry that delegates a branch: it stores the delegate's key and puts the delegated
    /// lock in place of the branch's locks.
    pub open spec fn delegating_entry(
        self,
        path: KeyTextView,
        mk: Result<MultikeyView, Seq<char>>,
        longhop: Option<LongHopView>,
    ) -> Result<NextEntryView, ErrorView> {
        match config::branch_path(path) {
            Err(e) => Err(e),
            Ok(branch) => match encoding::or_encoding_error(mk) {
                Err(e) => Err(e),
                Ok(mk) => match self.head() {
                    Err(e) => Err(e),
                    Ok(head) => self.root_entry(
                        entry_update::replaced_locks(
                            head.locks,
                            branch,
                            Some(ScriptView::Code(branch, config::delegated_code(branch))),
                        ),
                        seq![OpParamsView::UseKey { key: branch + "pubkey"@, mk }],
                        longhop,
                    ),
                },
            },
        }
    }

    /// The entry that revokes a branch: it deletes the delegate's key and the branch's locks.
    pub open spec fn revoking_entry(
        self,
        path: KeyTextView,
        longhop: Option<LongHopView>,
    ) -> Result<NextEntryView, ErrorView> {
        match config::branch_path(path) {
            Err(e) => Err(e),
            Ok(branch) => match self.head() {
                Err(e) => Err(e),
                Ok(head) => self.root_entry(
                    entry_update::replaced_locks(head.locks, branch, None),
                    seq![OpParamsView::Delete { key: branch + "pubkey"@ }],
                    longhop,
                ),
            },
        }
    }

    /// The branch and the operations of a path update, or why it is refused: the path has to
    /// name a delegated branch, and the operations have to stay in it.
    pub open spec fn path_update(
        self,
        path: KeyTextView,
        ops: Result<Seq<OpParamsView>, ErrorView>,
    ) -> Result<(Seq<char>, Seq<OpParamsView>), ErrorView> {
        match config::branch_path(path) {
            Err(e) => Err(e),
            Ok(branch) => match self.log() {
                Err(e) => Err(e),
                Ok(log) => match delegation::delegation_fault(log, branch) {
                    Some(e) => Err(e),
                    None => match ops {
                        Err(e) => Err(e),
                        Ok(list) => match delegation::ops_fault(list, branch) {
                            Some(e) => Err(e),
                            None => Ok((branch, list)),
                        },
                    },
                },
            },
        }
    }

    /// How a path update signed by this wallet is made.
    pub open spec fn path_update_request(
        self,
        path: KeyTextView,
        ops: Result<Seq<OpParamsView>, ErrorView>,
    ) -> Result<UpdateConfigView, ErrorView> {
        match self.path_update(path, ops) {
            Err(e) => Err(e),
            Ok((branch, list)) => Ok(config::update_config(branch + "pubkey"@, list)),
        }
    }

    /// The plan of a path update that is signed elsewhere.
    pub open spec fn path_update_plan(
        self,
        path: KeyTextView,
        ops: Result<Seq<OpParamsView>, ErrorView>,
        longhop: Option<LongHopView>,
    ) -> Result<PathUpdatePlanView, ErrorView> {
        match self.path_update(path, ops) {
            Err(e) => Err(e),
            Ok((branch, list)) => {
                let log = self.account->Some_0;
                match entry_update::next_entry(
                    log.steps,
                    NextEntrySpecView { unlock: config::unlock_script(), locks: None, ops: list },
                    longhop,
                ) {
                    Err(e) => Err(e),
                    Ok(entry) => Ok(
                        PathUpdatePlanView {
                            vlad: log.vlad,
                            branch,
                            signing_key: branch + "pubkey"@,
                            head_cid: log.head.encoded,
                            entry,
                        },
                    ),
                }
            },
        }
    }

    /// What committing a challenge at `now` asks for: the challenge has to be known and valid,
    /// an account loaded, the head unchanged since it was issued, and the signature readable.
    pub open spec fn commit_request(
        self,
        id: Seq<char>,
        signature: Result<MultisigView, Seq<char>>,
        now: u64,
    ) -> Result<CommitRequestView, ErrorView> {
        let pending = challenge::live(self.pending, now);
        if !pending.contains_key(id) {
            Err(ErrorView::ChallengeNotFound(id))
        } else {
            let p = pending[id];
            match self.log() {
                Err(e) => Err(e),
                Ok(log) => if log.head.encoded != p.head_cid {
                    Err(ErrorView::HeadMismatch(p.head_cid, log.head.encoded))
                } else {
                    match encoding::or_encoding_error(signature) {
                        Err(e) => Err(e),
                        Ok(sig) => Ok(
                            CommitRequestView { entry: p.unsigned.entry, proof: sig.bytes },
                        ),
                    }
                },
            }
        }
    }
}

/// Entry to be appended with its proof.
#[derive(Debug, PartialEq, Eq)]
pub struct CommitRequest {
    /// Entry without proof.
    pub entry: NextEntry,
    /// Proof: the binary form of the signature.
    pub proof: Vec<u8>,
}

/// A [`CommitRequest`] as a mathematical value.
#[verifier::ext_equal]
pub struct CommitRequestView {
    pub entry: NextEntryView,
    pub proof: Seq<u8>,
}

impl View for CommitRequest {
    type V = CommitRequestView;

    open spec fn view(&self) -> CommitRequestView {
        CommitRequestView { entry: self.entry@, proof: self.proof@ }
    }
}

/// Finalizes an unsigned entry with a signature, ready to be appended.
pub fn commit_with_multisig(unsigned: NextEntry, signature: Multisig) -> (r: CommitRequest)
    ensures
        r@ == (CommitRequestView { entry: unsigned@, proof: signature@.bytes }),
{
    CommitRequest { entry: unsigned, proof: signature.bytes }
}

/// Message that the wallet has to sign.
#[derive(Debug, PartialEq, Eq)]
pub struct RootSigning {
    /// Key path of the signing key.
    pub key: Key,
    /// Entry with the bytes to sign.
    pub update: UnsignedUpdate,
}

/// A [`RootSigning`] as a mathematical value.
#[verifier::ext_equal]
pub struct RootSigningView {
    pub key: Seq<char>,
    pub update: UnsignedUpdateView,
}

impl View for RootSigning {
    type V = RootSigningView;

    open spec fn view(&self) -> RootSigningView {
        RootSigningView { key: self.key@, update: self.update@ }
    }
}

impl<W> Default for AccountsApi<W> {
    fn default() -> (r: AccountsApi<W>)
        ensures
            r@ == AccountsApiView::<W>::fresh(),
    {
        AccountsApi::new()
    }
}

impl<W> AccountsApi<W> {
    /// The service without wallet and account.
    pub fn new() -> (r: AccountsApi<W>)
        ensures
            r@ == AccountsApiView::<W>::fresh(),
    {
        proof {
            table::lemma_views_empty::<Seq<char>, PendingPathUpdate>();
        }
        AccountsApi {
            wallet: None,
            account: None,
            persistence_path: None,
            pubkey_derivation: DEFAULT_PUBKEY_PATH.to_owned(),
            pending: Table::new(),
        }
    }

    /// The service with a persistence directory hint.
    pub fn with_persistence_path(self, path: std::path::PathBuf) -> (r: AccountsApi<W>)
        ensures
            r@ == (AccountsApiView { persistence_path: Some(path), ..self@ }),
    {
        AccountsApi {
            wallet: self.wallet,
            account: self.account,
            persistence_path: Some(path),
            pubkey_derivation: self.pubkey_derivation,
            pending: self.pending,
        }
    }

    /// Persistence directory hint, if there is one.
    pub fn persistence_path(&self) -> (r: Option<&std::path::PathBuf>)
        ensures
            match r {
                Some(p) => self@.persistence_path == Some(*p),
                None => self@.persistence_path is None,
            },
    {
        match &self.persistence_path {
            Some(p) => Some(p),
            None => None,
        }
    }

    /// BIP32 path meant for `/pubkey`.
    pub fn pubkey_derivation(&self) -> (r: &str)
        ensures
            r@ == self@.pubkey_derivation,
    {
        self.pubkey_derivation.as_str()
    }

    /// Whether a wallet is attached.
    pub fn is_connected(&self) -> (r: bool)
        ensures
            r == (self@.wallet is Some),
    {
        self.wallet.is_some()
    }

    /// Whether an account is loaded.
    pub fn has_account(&self) -> (r: bool)
        ensures
            r == (self@.account is Some),
    {
        self.account.is_some()
    }

    /// The number of challenges, expired ones not yet dropped included.
    pub fn pending_challenges(&self) -> (r: usize)
        ensures
            self@.pending.dom().finite(),
            r == self@.pending.dom().len(),
    {
        assert(self@.pending.dom() =~= self.pending@.dom());
        self.pending.len()
    }

    /// Attaches a wallet. A loaded account is dropped.
    pub fn attach_wallet(&mut self, wallet: W, pubkey_derivation: Option<&str>)
        ensures
            final(self)@ == old(self)@.attached(wallet, model::opt(pubkey_derivation)),
    {
        match pubkey_derivation {
            Some(d) => {
                self.pubkey_derivation = d.to_owned();
            },
            None => {},
        }
        self.wallet = Some(wallet);
        self.account = None;
    }

    /// Takes the wallet out. A loaded account and all challenges are dropped.
    pub fn disconnect(&mut self) -> (r: Option<W>)
        ensures
            r == old(self)@.wallet,
            final(self)@ == old(self)@.disconnected(),
    {
        self.account = None;
        self.clear_pending();
        let mut wallet: Option<W> = None;
        std::mem::swap(&mut wallet, &mut self.wallet);
        wallet
    }

    fn clear_pending(&mut self)
        ensures
            final(self)@ == old(self)@.voided(),
    {
        proof {
            table::lemma_views_empty::<Seq<char>, PendingPathUpdate>();
        }
        self.pending.clear();
    }

    fn require_account_ref(&self) -> (r: Result<&Log, Error>)
        ensures
            match r {
                Ok(log) => self@.account == Some(log@),
                Err(e) => self@.account is None && e@ == ErrorView::NoAccount,
            },
    {
        match &self.account {
            Some(log) => Ok(log),
            None => Err(Error::NoAccount),
        }
    }

    /// Drops the challenges that expired by `now`.
    pub fn purge_expired_challenges(&mut self, now: u64)
        ensures
            final(self)@ == old(self)@.purged(now),
    {
        let ghost keep = |p: PendingPathUpdate| challenge::is_live(p.created_at, now);
        let ghost keep_view = |p: PendingPathUpdateView| challenge::is_live(p.created_at, now);
        proof {
            table::lemma_views_kept(self.pending@, keep, keep_view);
        }
        let valid = |p: &PendingPathUpdate| -> (b: bool)
            ensures
                b == challenge::is_live(p.created_at, now),
        {
            challenge::still_live(p.created_at, now)
        };
        self.pending.retain(valid, Ghost(keep));
    }

    /// Head of the loaded account, in multibase.
    pub fn current_head_cid(&self) -> (r: Result<String, Error>)
        ensures
            match r {
                Ok(s) => self@.account is Some && s@ == self@.account->Some_0.head.encoded,
                Err(e) => self@.account is None && e@ == ErrorView::NoAccount,
            },
    {
        match self.require_account_ref() {
            Ok(log) => Ok(encoding::encode_cid(&log.head)),
            Err(e) => Err(e),
        }
    }

    /// How a new account is opened: with the default configuration, and the attached wallet.
    pub fn open_request(&self) -> (r: Result<OpenConfig, Error>)
        ensures
            error::outcome(r) == (if self@.wallet is None {
                Err(ErrorView::NotConnected)
            } else {
                Ok(config::open_config())
            }),
    {
        match &self.wallet {
            Some(_) => Ok(config::default_open_config()),
            None => Err(Error::NotConnected),
        }
    }

    /// Creates an account with the log that was opened. The log has to verify; otherwise nothing
    /// changes.
    pub fn create_account(&mut self, opened: Result<Log, Error>) -> (r: Result<
        AccountSummary,
        Error,
    >)
        ensures
            error::outcome(r) == old(self)@.created(error::outcome(opened)),
            final(self)@ == (match r {
                Ok(_) => old(self)@.with_account(error::outcome(opened)->Ok_0),
                Err(_) => old(self)@,
            }),
    {
        if self.wallet.is_none() {
            return Err(Error::NotConnected);
        }
        let log: Log = match opened {
            Ok(log) => log,
            Err(e) => {
                return Err(e);
            },
        };
        let summary: AccountSummary = match values::summary_from_verified_plog(&log) {
            Ok(s) => s,
            Err(e) => {
                return Err(e);
            },
        };
        self.account = Some(log);
        Ok(summary)
    }

    /// Loads an account from the log that a multibase text decodes to. The log has to verify;
    /// otherwise nothing changes.
    pub fn load_account(&mut self, decoded: Result<Log, String>) -> (r: Result<
        AccountSummary,
        Error,
    >)
        ensures
            match encoding::or_encoding_error(model::fallible(decoded)) {
                Ok(log) => {
                    &&& error::outcome(r) == old(self)@.loaded(log)
                    &&& final(self)@ == (match r {
                        Ok(_) => old(self)@.with_account(log),
                        Err(_) => old(self)@,
                    })
                },
                Err(e) => r is Err && r->Err_0@ == e && final(self)@ == old(self)@,
            },
    {
        match encoding::decode_plog(decoded) {
            Ok(log) => self.load_account_log(log),
            Err(e) => Err(e),
        }
    }

    /// Loads an account from the log that raw bytes decode to. The log has to verify; otherwise
    /// nothing changes.
    pub fn load_account_bytes(&mut self, decoded: Result<Log, String>) -> (r: Result<
        AccountSummary,
        Error,
    >)
        ensures
            match model::fallible(decoded) {
                Ok(log) => {
                    &&& error::outcome(r) == old(self)@.loaded(log)
                    &&& final(self)@ == (match r {
                        Ok(_) => old(self)@.with_account(log),
                        Err(_) => old(self)@,
                    })
                },
                Err(reason) => r is Err && r->Err_0@ == ErrorView::Plog(reason) && final(self)@
                    == old(self)@,
            },
    {
        match encoding::plog_from_bytes(decoded) {
            Ok(log) => self.load_account_log(log),
            Err(e) => Err(e),
        }
    }

    /// Loads an account from a log. The log has to verify and a wallet to be attached; otherwise
    /// nothing changes.
    pub fn load_account_log(&mut self, log: Log) -> (r: Result<AccountSummary, Error>)
        ensures
            error::outcome(r) == old(self)@.loaded(log@),
            final(self)@ == (match r {
                Ok(_) => old(self)@.with_account(log@),
                Err(_) => old(self)@,
            }),
    {
        let summary: AccountSummary = match values::summary_from_verified_plog(&log) {
            Ok(s) => s,
            Err(e) => {
                return Err(e);
            },
        };
        if self.wallet.is_none() {
            return Err(Error::NotConnected);
        }
        self.account = Some(log);
        Ok(summary)
    }

    /// How an update with operations given as JSON is made. `decoded` is what the JSON decoder
    /// makes of the text.
    pub fn update_account(&self, ops_json: &str, decoded: Result<Vec<AccountOp>, String>) -> (r:
        Result<UpdateConfig, Error>)
        ensures
            error::outcome(r) == (match account_ops::parsed_ops(
                ops_json@,
                model::fallible_list(decoded),
            ) {
                Ok(ops) => self@.update_request(ops),
                Err(e) => Err(e),
            }),
    {
        match account_ops::parse_ops_json(ops_json, decoded) {
            Ok(ops) => self.update_account_ops(ops),
            Err(e) => Err(e),
        }
    }

    /// How an update with operations is made: signed with `/pubkey`.
    pub fn update_account_ops(&self, ops: Vec<OpParams>) -> (r: Result<UpdateConfig, Error>)
        ensures
            error::outcome(r) == self@.update_request(model::views(ops@)),
    {
        let cfg: UpdateConfig = if ops.len() == 0 {
            assert(model::views(ops@) =~= Seq::<OpParamsView>::empty());
            config::default_update_config()
        } else {
            config::update_config_with_ops(ops)
        };
        match &self.account {
            Some(_) => Ok(cfg),
            None => Err(Error::NoAccount),
        }
    }

    /// Takes over the log that an update or a commit gave. All challenges become void, even if
    /// the log does not verify; such a log is not retained. A failed update changes nothing.
    pub fn accept_update(&mut self, updated: Result<Log, Error>) -> (r: Result<
        AccountSummary,
        Error,
    >)
        ensures
            error::outcome(r) == old(self)@.accepted(error::outcome(updated)),
            final(self)@ == old(self)@.after_update(error::outcome(updated)),
    {
        if self.account.is_none() {
            return Err(Error::NoAccount);
        }
        let log: Log = match updated {
            Ok(log) => log,
            Err(e) => {
                return Err(e);
            },
        };
        self.clear_pending();
        let summary: AccountSummary = match values::summary_from_verified_plog(&log) {
            Ok(s) => s,
            Err(e) => {
                return Err(e);
            },
        };
        self.account = Some(log);
        Ok(summary)
    }

    /// The entry that grants write authority over a branch to the holder of a key. `mk` is what
    /// the key's multibase text decodes to; `longhop` is where the long hop of the next
    /// position leads, if it has one.
    pub fn delegate_path(
        &self,
        path: &KeyText,
        mk: Result<Multikey, String>,
        longhop: Option<LongHop>,
    ) -> (r: Result<NextEntry, Error>)
        requires
            self@.can_grow(),
        ensures
            error::outcome(r) == self@.delegating_entry(
                path@,
                model::fallible(mk),
                model::opt(longhop),
            ),
    {
        let branch: Key = match config::parse_branch_path(path) {
            Ok(b) => b,
            Err(e) => {
                return Err(e);
            },
        };
        let mk: Multikey = match encoding::decode_multikey(mk) {
            Ok(mk) => mk,
            Err(e) => {
                return Err(e);
            },
        };
        let pk_key: Key = match config::delegate_pubkey_key(&branch) {
            Ok(k) => k,
            Err(e) => {
                return Err(e);
            },
        };
        let log: &Log = match self.require_account_ref() {
            Ok(log) => log,
            Err(e) => {
                return Err(e);
            },
        };
        let head: &Entry = match entry_update::verified_head(log) {
            Ok(head) => head,
            Err(e) => {
                return Err(e);
            },
        };
        let lock: Script = config::delegated_branch_lock_script(branch.clone());
        let locks: Vec<Script> = entry_update::locks_replacing_path(head, &branch, Some(lock));
        let mut ops: Vec<OpParams> = Vec::new();
        ops.push(entry_update::use_key_op(pk_key, mk));
        assert(model::views(ops@) =~= seq![
            OpParamsView::UseKey { key: branch@ + "pubkey"@, mk: mk@ },
        ]);
        entry_update::prepare_next_entry(
            log,
            NextEntrySpec { unlock: config::default_unlock_script(), locks: Some(locks), ops },
            longhop,
        )
    }

    /// The entry that revokes a branch. `longhop` is where the long hop of the next
    /// position leads, if it has one.
    pub fn revoke_path(&self, path: &KeyText, longhop: Option<LongHop>) -> (r: Result<
        NextEntry,
        Error,
    >)
        requires
            self@.can_grow(),
        ensures
            error::outcome(r) == self@.revoking_entry(path@, model::opt(longhop)),
    {
        let branch: Key = match config::parse_branch_path(path) {
            Ok(b) => b,
            Err(e) => {
                return Err(e);
            },
        };
        let pk_key: Key = match config::delegate_pubkey_key(&branch) {
            Ok(k) => k,
            Err(e) => {
                return Err(e);
            },
        };
        let log: &Log = match self.require_account_ref() {
            Ok(log) => log,
            Err(e) => {
                return Err(e);
            },
        };
        let head: &Entry = match entry_update::verified_head(log) {
            Ok(head) => head,
            Err(e) => {
                return Err(e);
            },
        };
        let locks: Vec<Script> = entry_update::locks_replacing_path(head, &branch, None);
        let mut ops: Vec<OpParams> = Vec::new();
        ops.push(OpParams::Delete { key: pk_key });
        assert(model::views(ops@) =~= seq![OpParamsView::Delete { key: branch@ + "pubkey"@ }]);
        entry_update::prepare_next_entry(
            log,
            NextEntrySpec { unlock: config::default_unlock_script(), locks: Some(locks), ops },
            longhop,
        )
    }

    /// What the wallet has to sign for a root-signed entry, once the entry was serialized: its
    /// bytes, with `/pubkey`.
    pub fn root_signing_request(&self, entry: NextEntry, serialized: Result<Vec<u8>, String>) -> (r:
        Result<RootSigning, Error>)
        ensures
            error::outcome(r) == (match entry_update::serialized_update(
                entry@,
                model::fallible(serialized),
            ) {
                Err(e) => Err(e),
                Ok(update) => if self@.wallet is None {
                    Err(ErrorView::NotConnected)
                } else {
                    Ok(RootSigningView { key: "/pubkey"@, update })
                },
            }),
    {
        let update: UnsignedUpdate = match entry_update::unsigned_update(entry, serialized) {
            Ok(u) => u,
            Err(e) => {
                return Err(e);
            },
        };
        match &self.wallet {
            Some(_) => Ok(RootSigning { key: config::pubkey_key_path(), update }),
            None => Err(Error::NotConnected),
        }
    }

    /// The delegations in force at the verified head, sorted by path.
    pub fn list_delegations(&self) -> (r: Result<Vec<PathDelegation>, Error>)
        ensures
            match (r, self@.log()) {
                (Err(e), Err(fault)) => e@ == fault,
                (Ok(list), Ok(log)) => values::verify_fault(log.steps) is None && delegation::lists(
                    model::views(list@),
                    delegation::head_delegations(log),
                ),
                (Err(e), Ok(log)) => values::verify_fault(log.steps) == Some(e@),
                (Ok(_), Err(_)) => false,
            },
    {
        match self.require_account_ref() {
            Ok(log) => delegation::list_delegations_of(log),
            Err(e) => Err(e),
        }
    }

    /// Checks a path update: its branch, and its operations.
    fn check_path_update(
        &self,
        path: &KeyText,
        ops_json: &str,
        decoded: Result<Vec<AccountOp>, String>,
    ) -> (r: Result<(Key, Vec<OpParams>), Error>)
        ensures
            match (
                r,
                self@.path_update(
                    path@,
                    account_ops::parsed_ops(ops_json@, model::fallible_list(decoded)),
                ),
            ) {
                (Ok(found), Ok((branch, list))) => found.0@ == branch && model::views(found.1@)
                    == list,
                (Err(e), Err(fault)) => e@ == fault,
                _ => false,
            },
    {
        let branch: Key = match config::parse_branch_path(path) {
            Ok(b) => b,
            Err(e) => {
                return Err(e);
            },
        };
        let log: &Log = match self.require_account_ref() {
            Ok(log) => log,
            Err(e) => {
                return Err(e);
            },
        };
        match delegation::ensure_path_delegated(log, &branch) {
            Ok(()) => {},
            Err(e) => {
                return Err(e);
            },
        }
        let ops: Vec<OpParams> = match account_ops::parse_ops_json(ops_json, decoded) {
            Ok(ops) => ops,
            Err(e) => {
                return Err(e);
            },
        };
        match delegation::ensure_ops_under_branch(&ops, &branch) {
            Ok(()) => {},
            Err(e) => {
                return Err(e);
            },
        }
        Ok((branch, ops))
    }

    /// How an update of a delegated branch is made that the wallet can sign with the branch's
    /// key.
    pub fn update_path(
        &self,
        path: &KeyText,
        ops_json: &str,
        decoded: Result<Vec<AccountOp>, String>,
    ) -> (r: Result<UpdateConfig, Error>)
        ensures
            error::outcome(r) == self@.path_update_request(
                path@,
                account_ops::parsed_ops(ops_json@, model::fallible_list(decoded)),
            ),
    {
        let (branch, ops): (Key, Vec<OpParams>) = match self.check_path_update(
            path,
            ops_json,
            decoded,
        ) {
            Ok(found) => found,
            Err(e) => {
                return Err(e);
            },
        };
        match config::delegate_pubkey_key(&branch) {
            Ok(signing_key) => Ok(config::update_config_with_signing_key(signing_key, ops)),
            Err(e) => Err(e),
        }
    }

    /// Prepares an update of a delegated branch for a signer elsewhere. `longhop` is where
    /// the long hop of the next position leads, if it has one. Expired challenges are dropped.
    pub fn prepare_path_update(
        &mut self,
        path: &KeyText,
        ops_json: &str,
        decoded: Result<Vec<AccountOp>, String>,
        longhop: Option<LongHop>,
        now: u64,
    ) -> (r: Result<PathUpdatePlan, Error>)
        requires
            old(self)@.can_grow(),
        ensures
            error::outcome(r) == old(self)@.path_update_plan(
                path@,
                account_ops::parsed_ops(ops_json@, model::fallible_list(decoded)),
                model::opt(longhop),
            ),
            final(self)@ == old(self)@.purged(now),
    {
        self.purge_expired_challenges(now);
        let (branch, ops): (Key, Vec<OpParams>) = match self.check_path_update(
            path,
            ops_json,
            decoded,
        ) {
            Ok(found) => found,
            Err(e) => {
                return Err(e);
            },
        };
        let log: &Log = match self.require_account_ref() {
            Ok(log) => log,
            Err(e) => {
                return Err(e);
            },
        };
        let signing_key: Key = match config::delegate_pubkey_key(&branch) {
            Ok(k) => k,
            Err(e) => {
                return Err(e);
            },
        };
        let entry: NextEntry = match entry_update::prepare_next_entry(
            log,
            NextEntrySpec { unlock: config::default_unlock_script(), locks: None, ops },
            longhop,
        ) {
            Ok(entry) => entry,
            Err(e) => {
                return Err(e);
            },
        };
        Ok(
            PathUpdatePlan {
                vlad: encoding::encode_vlad(&log.vlad),
                branch,
                signing_key,
                head_cid: encoding::encode_cid(&log.head),
                entry,
            },
        )
    }

    /// Issues a challenge for a prepared path update, once its entry was serialized. The
    /// identifier is random.
    pub fn issue_challenge(
        &mut self,
        plan: PathUpdatePlan,
        serialized: Result<Vec<u8>, String>,
        now: u64,
    ) -> (r: Result<PathUpdateChallenge, Error>)
        ensures
            match (r, model::fallible(serialized)) {
                (Ok(c), Ok(message)) => {
                    &&& challenge::is_challenge_id(c@.challenge_id)
                    &&& c@ == challenge::challenge_for(c@.challenge_id, plan@, message)
                    &&& final(self)@ == old(self)@.with_pending(
                        c@.challenge_id,
                        challenge::pending_for(plan@, message, now),
                    )
                },
                (Err(e), Err(reason)) => {
                    &&& e@ == ErrorView::Plog(reason)
                    &&& final(self)@ == old(self)@
                },
                (Err(e), Ok(_)) => e@ is Randomness && final(self)@ == old(self)@,
                (Ok(_), Err(_)) => false,
            },
    {
        let message: Vec<u8> = match serialized {
            Ok(m) => m,
            Err(reason) => {
                return Err(Error::Plog(reason));
            },
        };
        match challenge::new_challenge_id() {
            Ok(id) => Ok(self.register_challenge(id, plan, message, now)),
            Err(e) => Err(e),
        }
    }

    /// Issues a challenge under the given identifier.
    pub fn register_challenge(
        &mut self,
        challenge_id: String,
        plan: PathUpdatePlan,
        message: Vec<u8>,
        now: u64,
    ) -> (r: PathUpdateChallenge)
        ensures
            r@ == challenge::challenge_for(challenge_id@, plan@, message@),
            final(self)@ == old(self)@.with_pending(
                challenge_id@,
                challenge::pending_for(plan@, message@, now),
            ),
    {
        let message_multibase: String = encoding::encode_bytes_multibase(message.as_slice());
        let pending: PendingPathUpdate = PendingPathUpdate {
            head_cid: plan.head_cid.clone(),
            unsigned: UnsignedUpdate { entry: plan.entry, message },
            created_at: now,
        };
        proof {
            table::lemma_views_insert(self.pending@, challenge_id@, pending);
        }
        self.pending.insert(challenge_id.clone(), pending);
        PathUpdateChallenge {
            challenge_id,
            vlad: plan.vlad,
            path: plan.branch.as_str().to_owned(),
            signing_key_path: plan.signing_key.as_str().to_owned(),
            head_cid: plan.head_cid,
            message_multibase,
            message_encoding: "entry-bytes".to_owned(),
        }
    }

    /// What committing a challenge asks for. `signature` is what the signature's multibase text
    /// decodes to. The challenge is used up, whatever comes of it; expired ones are dropped.
    pub fn commit_path_update(
        &mut self,
        challenge_id: &str,
        signature: Result<Multisig, String>,
        now: u64,
    ) -> (r: Result<CommitRequest, Error>)
        ensures
            error::outcome(r) == old(self)@.commit_request(
                challenge_id@,
                model::fallible(signature),
                now,
            ),
            final(self)@ == old(self)@.purged(now).without(challenge_id@),
    {
        self.purge_expired_challenges(now);
        let id: String = challenge_id.to_owned();
        proof {
            table::lemma_views_remove(self.pending@, id@);
        }
        let pending: PendingPathUpdate = match self.pending.remove(&id) {
            Some(p) => p,
            None => {
                return Err(Error::ChallengeNotFound(id));
            },
        };
        let current_head: String = match self.current_head_cid() {
            Ok(h) => h,
            Err(e) => {
                return Err(e);
            },
        };
        if !(current_head == pending.head_cid) {
            return Err(Error::HeadMismatch(pending.head_cid, current_head));
        }
        match encoding::decode_multisig(signature) {
            Ok(sig) => Ok(commit_with_multisig(pending.unsigned.entry, sig)),
            Err(e) => Err(e),
        }
    }

    /// Drops a challenge without committing it. Expired ones are dropped too.
    pub fn cancel_path_update(&mut self, challenge_id: &str, now: u64) -> (r: Result<(), Error>)
        ensures
            match r {
                Ok(()) => challenge::live(old(self)@.pending, now).contains_key(challenge_id@),
                Err(e) => !challenge::live(old(self)@.pending, now).contains_key(challenge_id@)
                    && e@ == ErrorView::ChallengeNotFound(challenge_id@),
            },
            final(self)@ == old(self)@.purged(now).without(challenge_id@),
    {
        self.purge_expired_challenges(now);
        let id: String = challenge_id.to_owned();
        proof {
            table::lemma_views_remove(self.pending@, id@);
        }
        match self.pending.remove(&id) {
            Some(_) => Ok(()),
            None => Err(Error::ChallengeNotFound(id)),
        }
    }

    /// Multibase VLAD of the loaded account.
    pub fn vlad(&self) -> (r: Result<String, Error>)
        ensures
            error::outcome(r) == (match self@.log() {
                Ok(log) => Ok(log.vlad),
                Err(e) => Err(e),
            }),
    {
        match self.require_account_ref() {
            Ok(log) => Ok(encoding::encode_vlad(&log.vlad)),
            Err(e) => Err(e),
        }
    }

    /// Reads a key path from the loaded log's verified state.
    pub fn get_value(&self, path: &KeyText) -> (r: Result<PlogPathValue, Error>)
        ensures
            error::outcome(r) == (match self@.log() {
                Ok(log) => values::plog_value(log, path@),
                Err(e) => Err(e),
            }),
    {
        match self.require_account_ref() {
            Ok(log) => values::get_plog_value(log, path),
            Err(e) => Err(e),
        }
    }

    /// The loaded log in multibase.
    pub fn export_plog(&self) -> (r: Result<String, Error>)
        ensures
            error::outcome(r) == (match self@.log() {
                Ok(log) => Ok(log.encoded),
                Err(e) => Err(e),
            }),
    {
        match self.require_account_ref() {
            Ok(log) => Ok(encoding::encode_plog(log)),
            Err(e) => Err(e),
        }
    }

    /// The loaded log in binary.
    pub fn export_plog_bytes(&self) -> (r: Result<Vec<u8>, Error>)
        ensures
            error::outcome(r) == (match self@.log() {
                Ok(log) => Ok(log.bytes),
                Err(e) => Err(e),
            }),
    {
        match self.require_account_ref() {
            Ok(log) => Ok(encoding::plog_to_bytes(log)),
            Err(e) => Err(e),
        }
    }

    /// The loaded log.
    pub fn plog(&self) -> (r: Result<&Log, Error>)
        ensures
            match r {
                Ok(log) => self@.log() == Ok::<LogView, ErrorView>(log@),
                Err(e) => self@.log() == Err::<LogView, ErrorView>(e@),
            },
    {
        self.require_account_ref()
    }

    /// The attached wallet.
    pub fn wallet(&self) -> (r: Result<&W, Error>)
        ensures
            match r {
                Ok(w) => self@.wallet == Some(*w),
                Err(e) => self@.wallet is None && e@ == ErrorView::NotConnected,
            },
    {
        match &self.wallet {
            Some(w) => Ok(w),
            None => Err(Error::NotConnected),
        }
    }

    /// The attached wallet, to be changed.
    pub fn wallet_mut(&mut self) -> (r: Result<&mut W, Error>)
        ensures
            match r {
                Ok(w) => old(self)@.wallet == Some(*w) && final(self)@ == (AccountsApiView {
                    wallet: Some(*final(w)),
                    ..old(self)@
                }),
                Err(e) => {
                    &&& old(self)@.wallet is None
                    &&& e@ == ErrorView::NotConnected
                    &&& final(self)@ == old(self)@
                },
            },
    {
        match &mut self.wallet {
            Some(w) => Ok(w),
            None => Err(Error::NotConnected),
        }
    }
}

impl<W> AccountsApi<W> {
    /// A service with a software wallet attached, at the default derivation path.
    pub fn software(wallet: W) -> (r: AccountsApi<W>)
        ensures
            r@ == AccountsApiView::fresh().attached(wallet, Some(DEFAULT_PUBKEY_PATH@)),
    {
        let mut api: AccountsApi<W> = AccountsApi::new();
        api.attach_wallet(wallet, Some(DEFAULT_PUBKEY_PATH));
        api
    }
}

/// The operation that rotates `/pubkey`: a fresh secp256k1 key from the wallet, the previous one
/// revoked.
pub open spec fn rotation() -> OpParamsView {
    OpParamsView::KeyGen {
        key: "/pubkey"@,
        codec: CodecView::Secp256K1Priv,
        threshold: 1,
        limit: 1,
        revoke: true,
    }
}

/// Why a card's log cannot be loaded, if it cannot: its public record has to be readable and to
/// bind the card to the log's account, and the log has to verify.
pub open spec fn card_load_fault(log: LogView, record: Result<Seq<u8>, ErrorView>) -> Option<
    ErrorView,
> {
    match record {
        Err(e) => Some(e),
        Ok(data) => match binding::binding_fault(data, vlad_hash::vlad_text_hash(log.vlad)) {
            Some(e) => Some(e),
            None => values::verify_fault(log.steps),
        },
    }
}

impl<S> AccountsApi<KeycardWallet<S>> {
    /// A service on a card that was just initialized, with the card's credentials. The account
    /// is then created with [`AccountsApi::open_request`] and [`AccountsApi::create_account`],
    /// and bound to the card.
    pub fn create_account_on_virgin_keycard(initialized: InitializedKeycard<S>) -> (r: Result<
        (AccountsApi<KeycardWallet<S>>, KeycardCredentials),
        Error,
    >)
        ensures
            match path_map::derivation(path_map::bip32_parsed(initialized@.derivation_path)) {
                Ok(path) => {
                    &&& r is Ok
                    &&& r->Ok_0.0@.wallet is Some
                    &&& r->Ok_0.0@.wallet->Some_0@ == KeycardWalletView::fresh(
                        initialized@.session,
                        Map::empty().insert("/pubkey"@, path),
                    )
                    &&& r->Ok_0.0@ == AccountsApiView::fresh().attached(
                        r->Ok_0.0@.wallet->Some_0,
                        Some(initialized@.derivation_path),
                    )
                    &&& r->Ok_0.1@ == initialized@.credentials
                },
                Err(e) => r is Err && r->Err_0@ == e,
            },
    {
        let derivation: String = initialized.derivation_path.clone();
        match initialized.into_wallet() {
            Ok((wallet, credentials)) => {
                let mut api: AccountsApi<KeycardWallet<S>> = AccountsApi::new();
                api.attach_wallet(wallet, Some(derivation.as_str()));
                Ok((api, credentials))
            },
            Err(e) => Err(e),
        }
    }

    /// The log and the pairing key that loading an account on a card starts from. `decoded` is
    /// what the log's multibase text decodes to.
    pub fn card_load_request(decoded: Result<Log, String>, pairing_key_hex: &str) -> (r: Result<
        (Log, [u8; 32]),
        Error,
    >)
        requires
            decoded is Ok ==> encoding::hex_splits(pairing_key_hex@),
        ensures
            match encoding::or_encoding_error(model::fallible(decoded)) {
                Err(e) => r is Err && r->Err_0@ == e,
                Ok(log) => match encoding::hex32_bytes(pairing_key_hex@) {
                    Err(e) => r is Err && r->Err_0@ == e,
                    Ok(key) => r is Ok && r->Ok_0.0@ == log && r->Ok_0.1@ == key,
                },
            },
    {
        let log: Log = match encoding::decode_plog(decoded) {
            Ok(log) => log,
            Err(e) => {
                return Err(e);
            },
        };
        match encoding::decode_hex32(pairing_key_hex) {
            Ok(key) => Ok((log, key)),
            Err(e) => Err(e),
        }
    }

    /// A service with a log loaded on the card that it is bound to. `opened` is the wallet over
    /// the card, `record` what was read of the card's public record.
    pub fn load_account_on_keycard(
        log: Log,
        opened: Result<KeycardWallet<S>, Error>,
        record: Result<Vec<u8>, Error>,
        pubkey_derivation: Option<&str>,
    ) -> (r: Result<AccountsApi<KeycardWallet<S>>, Error>)
        ensures
            match opened {
                Err(e) => r is Err && r->Err_0@ == e@,
                Ok(wallet) => match card_load_fault(log@, error::outcome(record)) {
                    Some(e) => r is Err && r->Err_0@ == e,
                    None => r is Ok && r->Ok_0@ == AccountsApiView::fresh().attached(
                        wallet,
                        model::opt(pubkey_derivation),
                    ).with_account(log@),
                },
            },
    {
        let wallet: KeycardWallet<S> = match opened {
            Ok(w) => w,
            Err(e) => {
                return Err(e);
            },
        };
        match keycard_lifecycle::verify_vlad_binding(record, &log.vlad) {
            Ok(()) => {},
            Err(e) => {
                return Err(e);
            },
        }
        let mut api: AccountsApi<KeycardWallet<S>> = AccountsApi::new();
        api.attach_wallet(wallet, pubkey_derivation);
        match api.load_account_log(log) {
            Ok(_) => Ok(api),
            Err(e) => Err(e),
        }
    }

    /// Rebinds `/pubkey` to a new derivation path, and says how the log is updated with a fresh
    /// key from there. If the path does not parse, only the cached public key is dropped.
    pub fn rotate_pubkey(&mut self, new_derivation: &str) -> (r: Result<UpdateConfig, Error>)
        ensures
            match (old(self)@.account, old(self)@.wallet) {
                (None, _) => {
                    &&& r is Err && r->Err_0@ == ErrorView::NoAccount
                    &&& final(self)@ == old(self)@
                },
                (Some(_), None) => {
                    &&& r is Err && r->Err_0@ == ErrorView::NotConnected
                    &&& final(self)@ == old(self)@
                },
                (Some(_), Some(wallet)) => {
                    &&& final(self)@.wallet is Some
                    &&& match path_map::derivation(path_map::bip32_parsed(new_derivation@)) {
                        Ok(path) => {
                            &&& error::outcome(r) == old(self)@.update_request(seq![rotation()])
                            &&& final(self)@.wallet->Some_0@ == wallet@.cleared(
                                "/pubkey"@,
                            ).registered("/pubkey"@, path)
                            &&& final(self)@ == (AccountsApiView {
                                wallet: final(self)@.wallet,
                                pubkey_derivation: new_derivation@,
                                ..old(self)@
                            })
                        },
                        Err(e) => {
                            &&& r is Err && r->Err_0@ == e
                            &&& final(self)@.wallet->Some_0@ == wallet@.cleared("/pubkey"@)
                            &&& final(self)@ == (AccountsApiView {
                                wallet: final(self)@.wallet,
                                ..old(self)@
                            })
                        },
                    }
                },
            },
    {
        if self.account.is_none() {
            return Err(Error::NoAccount);
        }
        let wallet: &mut KeycardWallet<S> = match self.wallet_mut() {
            Ok(w) => w,
            Err(e) => {
                return Err(e);
            },
        };
        match wallet.rebind_path(wallet::default_pubkey_key(), new_derivation) {
            Ok(()) => {},
            Err(e) => {
                return Err(e);
            },
        }
        self.pubkey_derivation = new_derivation.to_owned();
        let mut ops: Vec<OpParams> = Vec::new();
        ops.push(
            OpParams::KeyGen {
                key: wallet::default_pubkey_key(),
                codec: Codec::Secp256K1Priv,
                threshold: 1,
                limit: 1,
                revoke: true,
            },
        );
        assert(model::views(ops@) =~= seq![rotation()]);
        self.update_account_ops(ops)
    }
}

/// The result of creating an account on a card, once the binding was stored. A failure to store
/// it fails the whole operation.
pub fn created_on_keycard(
    summary: AccountSummary,
    stored: Result<(), Error>,
    credentials: KeycardCredentials,
) -> (r: Result<CreateAccountResult, Error>)
    ensures
        match stored {
            Ok(()) => r is Ok && r->Ok_0@ == storage::create_result(
                summary@,
                Some(credentials@),
            ),
            Err(e) => r is Err && r->Err_0@ == e@,
        },
{
    match stored {
        Ok(()) => Ok(CreateAccountResult::with_keycard(summary, credentials)),
        Err(e) => Err(e),
    }
}

/// Only verified logs are retained: the service starts without a log, a log comes in only by
/// creating, loading or taking over an update that gave a summary, and nothing else touches it.
pub proof fn law_only_verified_logs_are_retained<W>(
    api: AccountsApiView<W>,
    wallet: W,
    derivation: Option<Seq<char>>,
    log: LogView,
    now: u64,
    id: Seq<char>,
    p: PendingPathUpdateView,
)
    requires
        api.retains_verified(),
    ensures
        AccountsApiView::<W>::fresh().retains_verified(),
        api.attached(wallet, derivation).retains_verified(),
        api.disconnected().retains_verified(),
        api.purged(now).retains_verified(),
        api.without(id).retains_verified(),
        api.with_pending(id, p).retains_verified(),
        api.created(Ok(log)) is Ok ==> api.with_account(log).retains_verified(),
        api.loaded(log) is Ok ==> api.with_account(log).retains_verified(),
        api.after_update(Ok(log)).retains_verified(),
{
}

/// A challenge is used up by committing or cancelling it: after that it is unknown for good.
pub proof fn law_challenge_is_used_once<W>(
    api: AccountsApiView<W>,
    id: Seq<char>,
    signature: Result<MultisigView, Seq<char>>,
    now: u64,
    later: u64,
)
    ensures
        api.purged(now).without(id).commit_request(id, signature, later) == Err::<
            CommitRequestView,
            ErrorView,
        >(ErrorView::ChallengeNotFound(id)),
{
}

/// An update of the log makes every challenge void, whether the updated log verifies or not.
pub proof fn law_update_voids_challenges<W>(
    api: AccountsApiView<W>,
    log: LogView,
    id: Seq<char>,
    signature: Result<MultisigView, Seq<char>>,
    now: u64,
)
    requires
        api.account is Some,
    ensures
        api.after_update(Ok(log)).commit_request(id, signature, now) == Err::<
            CommitRequestView,
            ErrorView,
        >(ErrorView::ChallengeNotFound(id)),
{
}

/// An expired challenge cannot be committed.
pub proof fn law_expired_challenge_is_refused<W>(
    api: AccountsApiView<W>,
    id: Seq<char>,
    signature: Result<MultisigView, Seq<char>>,
    now: u64,
)
    requires
        api.pending.contains_key(id),
        api.pending[id].created_at + challenge::CHALLENGE_TTL <= now,
    ensures
        api.commit_request(id, signature, now) == Err::<CommitRequestView, ErrorView>(
            ErrorView::ChallengeNotFound(id),
        ),
{
}

/// A challenge cannot be committed once the head moved, whatever the signature.
pub proof fn law_moved_head_refuses_commit<W>(
    api: AccountsApiView<W>,
    log: LogView,
    id: Seq<char>,
    signature: Result<MultisigView, Seq<char>>,
    now: u64,
)
    requires
        api.account == Some(log),
        challenge::live(api.pending, now).contains_key(id),
        log.head.encoded != api.pending[id].head_cid,
    ensures
        api.commit_request(id, signature, now) == Err::<CommitRequestView, ErrorView>(
            ErrorView::HeadMismatch(api.pending[id].head_cid, log.head.encoded),
        ),
{
}

/// Prepare, sign, commit: a challenge that was issued for a prepared update, and is committed in
/// time with nothing done in between, asks for exactly the prepared entry with the signature as
/// its proof.
pub proof fn law_prepared_update_can_be_committed<W>(
    api: AccountsApiView<W>,
    path: KeyTextView,
    ops: Result<Seq<OpParamsView>, ErrorView>,
    longhop: Option<LongHopView>,
    id: Seq<char>,
    message: Seq<u8>,
    signature: MultisigView,
    now: u64,
    later: u64,
)
    requires
        api.path_update_plan(path, ops, longhop) is Ok,
        later - now < challenge::CHALLENGE_TTL,
    ensures
        ({
            let plan = api.path_update_plan(path, ops, longhop)->Ok_0;
            let issued = api.purged(now).with_pending(
                id,
                challenge::pending_for(plan, message, now),
            );
            issued.commit_request(id, Ok(signature), later) == Ok::<CommitRequestView, ErrorView>(
                CommitRequestView { entry: plan.entry, proof: signature.bytes },
            )
        }),
{
}

/// The key path that a mutation is about.
pub open spec fn mutated_key(op: crate::plog::OpView) -> Seq<char> {
    match op {
        crate::plog::OpView::Noop(key) => key,
        crate::plog::OpView::Delete(key) => key,
        crate::plog::OpView::Update(key, _) => key,
    }
}

/// What a delegate can prepare stays in its branch: every mutation of the prepared entry is on a
/// key of the branch and none on the delegate's own key, the locks are the head's, and the entry
/// is to be signed with the delegate's key.
pub proof fn law_path_update_is_confined<W>(
    api: AccountsApiView<W>,
    path: KeyTextView,
    ops: Result<Seq<OpParamsView>, ErrorView>,
    longhop: Option<LongHopView>,
    i: int,
)
    requires
        api.path_update_plan(path, ops, longhop) is Ok,
        0 <= i < api.path_update_plan(path, ops, longhop)->Ok_0.entry.ops.len(),
    ensures
        ({
            let plan = api.path_update_plan(path, ops, longhop)->Ok_0;
            let branch = config::branch_path(path)->Ok_0;
            &&& config::branch_path(path) is Ok
            &&& crate::key::branch_covers(branch, mutated_key(plan.entry.ops[i]))
            &&& mutated_key(plan.entry.ops[i]) != branch + "pubkey"@
            &&& plan.entry.locks == api.head()->Ok_0.locks
            &&& plan.signing_key == branch + "pubkey"@
        }),
{
    let list = api.path_update(path, ops)->Ok_0.1;
    delegation::law_path_update_stays_in_branch(list, config::branch_path(path)->Ok_0, i);
    assert(entry_update::mutation(list[i]) is Ok);
}

/// A branch that is not delegated cannot be updated: nothing is prepared for it.
pub proof fn law_undelegated_branch_is_refused<W>(
    api: AccountsApiView<W>,
    path: KeyTextView,
    branch: Seq<char>,
    ops: Result<Seq<OpParamsView>, ErrorView>,
    longhop: Option<LongHopView>,
)
    requires
        config::branch_path(path) == Ok::<Seq<char>, ErrorView>(branch),
        api.account is Some,
        values::verify_fault(api.account->Some_0.steps) is None,
        !delegation::is_delegated(api.account->Some_0, branch),
    ensures
        api.path_update_plan(path, ops, longhop) == Err::<PathUpdatePlanView, ErrorView>(
            ErrorView::PathNotDelegated(branch),
        ),
        api.path_update_request(path, ops) == Err::<UpdateConfigView, ErrorView>(
            ErrorView::PathNotDelegated(branch),
        ),
{
}

/// A delegated branch can be updated: where the delegation is in force at the head of a verified
/// log, operations that callers can write down and that stay in the branch are prepared, if the
/// log has the entry that the long hop leads to.
pub proof fn law_delegated_branch_can_be_updated<W>(
    api: AccountsApiView<W>,
    log: LogView,
    path: KeyTextView,
    d: delegation::PathDelegationView,
    list: Seq<account_ops::AccountOpView>,
    longhop: Option<LongHopView>,
)
    requires
        api.account == Some(log),
        values::verify_fault(log.steps) is None,
        config::branch_path(path) == Ok::<Seq<char>, ErrorView>(d.path),
        delegation::head_delegations(log).contains(d),
        account_ops::all_op_params(list) is Ok,
        delegation::ops_fault(account_ops::all_op_params(list)->Ok_0, d.path) is None,
        entry_update::longhop_link(log.steps, longhop) is Ok,
    ensures
        api.path_update_plan(path, account_ops::all_op_params(list), longhop) is Ok,
        api.path_update_request(path, account_ops::all_op_params(list)) is Ok,
{
    let found = delegation::head_delegations(log);
    let k = choose|k: int| 0 <= k < found.len() && found[k] == d;
    assert(found[k].path == d.path);
    assert(delegation::is_delegated(log, d.path));
    account_ops::law_parsed_ops_have_mutations(list);
}

/// Delegating a branch has effect: once the entry's locks and the delegate's key are in the log,
/// the delegation is in force.
pub proof fn law_delegating_entry_puts_in_force<W>(
    api: AccountsApiView<W>,
    path: KeyTextView,
    mk: MultikeyView,
    longhop: Option<LongHopView>,
    kvp: Seq<crate::plog::KvpItemView>,
)
    requires
        api.delegating_entry(path, Ok(mk), longhop) is Ok,
        delegation::delegate_of(kvp, config::branch_path(path)->Ok_0) == Some(mk.encoded),
    ensures
        delegation::in_force(api.delegating_entry(path, Ok(mk), longhop)->Ok_0.locks, kvp).contains(
            (delegation::PathDelegationView {
                path: config::branch_path(path)->Ok_0,
                pubkey: mk.encoded,
            }),
        ),
{
    delegation::law_delegated_branch_is_in_force(
        api.head()->Ok_0.locks,
        kvp,
        config::branch_path(path)->Ok_0,
        mk.encoded,
    );
}

/// Revoking a branch has effect: under the entry's locks no delegation of the branch is in force,
/// whatever keys the state still holds.
pub proof fn law_revoking_entry_ends_delegation<W>(
    api: AccountsApiView<W>,
    path: KeyTextView,
    longhop: Option<LongHopView>,
    kvp: Seq<crate::plog::KvpItemView>,
    d: delegation::PathDelegationView,
)
    requires
        api.revoking_entry(path, longhop) is Ok,
        delegation::in_force(api.revoking_entry(path, longhop)->Ok_0.locks, kvp).contains(d),
    ensures
        d.path != config::branch_path(path)->Ok_0,
{
    let branch = config::branch_path(path)->Ok_0;
    delegation::law_revoked_branch_is_not_in_force(api.head()->Ok_0.locks, kvp, branch, d);
}

/// A log is loaded on a card only if the card is bound to the log's account.
pub proof fn law_wrong_card_is_refused(log: LogView, data: Seq<u8>)
    requires
        data != vlad_hash::vlad_text_hash(log.vlad),
    ensures
        card_load_fault(log, Ok(data)) is Some,
{
}

/// An update is made with all of its operations, in order, signed with `/pubkey`. It needs an
/// account, and nothing else.
pub proof fn law_updates_carry_all_operations<W>(
    api: AccountsApiView<W>,
    ops: Seq<OpParamsView>,
)
    ensures
        api.account is None ==> api.update_request(ops) == Err::<UpdateConfigView, ErrorView>(
            ErrorView::NoAccount,
        ),
        api.account is Some ==> {
            &&& api.update_request(ops) is Ok
            &&& api.update_request(ops)->Ok_0.additional_ops == ops
            &&& api.update_request(ops)->Ok_0.entry_signing_key == "/pubkey"@
            &&& api.update_request(ops)->Ok_0.unlock == ScriptView::Code(
                "/"@,
                "push(\"/entry/\"); push(\"/entry/proof\")"@,
            )
        },
{
}

/// A path update is accepted exactly if the path names a branch that is delegated at the verified
/// head, and the operations, at least one, all stay in the branch and leave the delegate key
/// alone. It is then made with all of its operations, in order, signed with the delegate key.
pub proof fn law_path_updates_carry_all_operations<W>(
    api: AccountsApiView<W>,
    path: KeyTextView,
    branch: Seq<char>,
    list: Seq<OpParamsView>,
)
    requires
        config::branch_path(path) == Ok::<Seq<char>, ErrorView>(branch),
    ensures
        api.path_update_request(path, Ok(list)) is Ok <==> {
            &&& api.account is Some
            &&& values::verify_fault(api.account->Some_0.steps) is None
            &&& delegation::is_delegated(api.account->Some_0, branch)
            &&& list.len() > 0
            &&& forall|i: int|
                0 <= i < list.len() ==> crate::key::branch_covers(
                    branch,
                    (#[trigger] list[i]).key(),
                ) && list[i].key() != branch + "pubkey"@
        },
        api.path_update_request(path, Ok(list)) matches Ok(config) ==> {
            &&& config.additional_ops == list
            &&& config.entry_signing_key == branch + "pubkey"@
            &&& config.unlock == ScriptView::Code(
                "/"@,
                "push(\"/entry/\"); push(\"/entry/proof\")"@,
            )
        },
        api.path_update_request(path, Ok(list)) is Ok <==> api.path_update(path, Ok(list)) == Ok::<
            (Seq<char>, Seq<OpParamsView>),
            ErrorView,
        >((branch, list)),
{
    delegation::law_delegate_rules_its_branch(list, branch);
}

/// Where a path update is refused, the path is at fault first, then the missing account, then the
/// log or the missing delegation, then the text of the operations, then the operations.
pub proof fn law_path_update_refusals<W>(
    api: AccountsApiView<W>,
    path: KeyTextView,
    ops: Result<Seq<OpParamsView>, ErrorView>,
    longhop: Option<LongHopView>,
)
    ensures
        ({
            let fault = if config::branch_path(path) is Err {
                Some(config::branch_path(path)->Err_0)
            } else if api.account is None {
                Some(ErrorView::NoAccount)
            } else if values::verify_fault(api.account->Some_0.steps) is Some {
                values::verify_fault(api.account->Some_0.steps)
            } else if !delegation::is_delegated(
                api.account->Some_0,
                config::branch_path(path)->Ok_0,
            ) {
                Some(ErrorView::PathNotDelegated(config::branch_path(path)->Ok_0))
            } else if ops is Err {
                Some(ops->Err_0)
            } else {
                delegation::ops_fault(ops->Ok_0, config::branch_path(path)->Ok_0)
            };
            fault matches Some(e) ==> {
                &&& api.path_update(path, ops) == Err::<
                    (Seq<char>, Seq<OpParamsView>),
                    ErrorView,
                >(e)
                &&& api.path_update_request(path, ops) == Err::<UpdateConfigView, ErrorView>(e)
                &&& api.path_update_plan(path, ops, longhop) == Err::<
                    PathUpdatePlanView,
                    ErrorView,
                >(e)
            }
        }),
{
}

/// An accepted path update that is signed elsewhere is planned for the loaded account and its
/// head: the entry that follows the head with one mutation for each operation, under the head's
/// own locks, to be signed with the delegate key.
pub proof fn law_path_update_plans<W>(
    api: AccountsApiView<W>,
    path: KeyTextView,
    branch: Seq<char>,
    list: Seq<OpParamsView>,
    longhop: Option<LongHopView>,
)
    requires
        api.path_update(path, Ok(list)) == Ok::<(Seq<char>, Seq<OpParamsView>), ErrorView>(
            (branch, list),
        ),
    ensures
        ({
            let log = api.account->Some_0;
            let wanted = NextEntrySpecView {
                unlock: ScriptView::Code("/"@, "push(\"/entry/\"); push(\"/entry/proof\")"@),
                locks: None,
                ops: list,
            };
            match entry_update::next_entry(log.steps, wanted, longhop) {
                Err(e) => api.path_update_plan(path, Ok(list), longhop) == Err::<
                    PathUpdatePlanView,
                    ErrorView,
                >(e),
                Ok(entry) => {
                    &&& api.path_update_plan(path, Ok(list), longhop) is Ok
                    &&& api.path_update_plan(path, Ok(list), longhop)->Ok_0.vlad == log.vlad
                    &&& api.path_update_plan(path, Ok(list), longhop)->Ok_0.branch == branch
                    &&& api.path_update_plan(path, Ok(list), longhop)->Ok_0.signing_key == branch
                        + "pubkey"@
                    &&& api.path_update_plan(path, Ok(list), longhop)->Ok_0.head_cid
                        == log.head.encoded
                    &&& api.path_update_plan(path, Ok(list), longhop)->Ok_0.entry == entry
                },
            }
        }),
{
}

/// Delegating a branch appends one entry to the loaded account: it stores the delegate's key, as
/// its bytes, at the `pubkey` leaf of the branch, and in place of the locks at the branch it puts
/// one that the delegate's signature alone satisfies. All other locks stay.
pub proof fn law_delegating_entry<W>(
    api: AccountsApiView<W>,
    path: KeyTextView,
    branch: Seq<char>,
    mk: MultikeyView,
    longhop: Option<LongHopView>,
)
    requires
        config::branch_path(path) == Ok::<Seq<char>, ErrorView>(branch),
    ensures
        api.delegating_entry(path, Ok(mk), longhop) is Ok <==> {
            &&& api.account is Some
            &&& entry_update::head_entry(api.account->Some_0.steps) is Ok
            &&& longhop is Some ==> entry_update::entry_at(
                api.account->Some_0.steps,
                longhop->Some_0.seqno,
            ) is Some
        },
        api.delegating_entry(path, Ok(mk), longhop) matches Ok(entry) ==> {
            let head = entry_update::head_entry(api.account->Some_0.steps)->Ok_0;
            &&& entry.vlad == head.vlad
            &&& entry.prev == head.cid
            &&& entry.seqno == head.seqno as int + 1
            &&& entry.unlock == ScriptView::Code(
                "/"@,
                "push(\"/entry/\"); push(\"/entry/proof\")"@,
            )
            &&& entry.locks == entry_update::replaced_locks(head.locks, branch, None).push(
                ScriptView::Code(
                    branch,
                    "check_signature(\""@ + branch + "pubkey\", \"/entry/\")"@,
                ),
            )
            &&& entry.ops == seq![
                crate::plog::OpView::Update(
                    branch + "pubkey"@,
                    crate::plog::ValueView::Data(mk.bytes),
                ),
            ]
            &&& longhop is None ==> entry.lipmaa is None
            &&& longhop is Some ==> entry.lipmaa == Some(
                entry_update::entry_at(
                    api.account->Some_0.steps,
                    longhop->Some_0.seqno,
                )->Some_0.cid,
            )
        },
{
    config::law_delegate_alone_unlocks(branch);
    let ops = seq![OpParamsView::UseKey { key: branch + "pubkey"@, mk }];
    assert(entry_update::mutation(ops[0]) is Ok);
    assert(entry_update::all_resolved(ops));
    assert(entry_update::mutations(ops) =~= seq![
        crate::plog::OpView::Update(branch + "pubkey"@, crate::plog::ValueView::Data(mk.bytes)),
    ]);
}

/// Revoking a branch appends one entry to the loaded account: it deletes the key at the `pubkey`
/// leaf of the branch, and takes the locks at the branch away. All other locks stay.
pub proof fn law_revoking_entry<W>(
    api: AccountsApiView<W>,
    path: KeyTextView,
    branch: Seq<char>,
    longhop: Option<LongHopView>,
)
    requires
        config::branch_path(path) == Ok::<Seq<char>, ErrorView>(branch),
    ensures
        api.revoking_entry(path, longhop) is Ok <==> {
            &&& api.account is Some
            &&& entry_update::head_entry(api.account->Some_0.steps) is Ok
            &&& longhop is Some ==> entry_update::entry_at(
                api.account->Some_0.steps,
                longhop->Some_0.seqno,
            ) is Some
        },
        api.revoking_entry(path, longhop) matches Ok(entry) ==> {
            let head = entry_update::head_entry(api.account->Some_0.steps)->Ok_0;
            &&& entry.vlad == head.vlad
            &&& entry.prev == head.cid
            &&& entry.seqno == head.seqno as int + 1
            &&& entry.unlock == ScriptView::Code(
                "/"@,
                "push(\"/entry/\"); push(\"/entry/proof\")"@,
            )
            &&& entry.locks == entry_update::replaced_locks(head.locks, branch, None)
            &&& entry.ops == seq![crate::plog::OpView::Delete(branch + "pubkey"@)]
            &&& longhop is None ==> entry.lipmaa is None
            &&& longhop is Some ==> entry.lipmaa == Some(
                entry_update::entry_at(
                    api.account->Some_0.steps,
                    longhop->Some_0.seqno,
                )->Some_0.cid,
            )
        },
{
    let ops = seq![OpParamsView::Delete { key: branch + "pubkey"@ }];
    assert(entry_update::mutation(ops[0]) is Ok);
    assert(entry_update::all_resolved(ops));
    assert(entry_update::mutations(ops) =~= seq![
        crate::plog::OpView::Delete(branch + "pubkey"@),
    ]);
}

/// Where a delegation or a revocation is refused, the path is at fault first, then the key, then
/// the missing account, then the head, then the long hop.
pub proof fn law_root_entry_refusals<W>(
    api: AccountsApiView<W>,
    path: KeyTextView,
    mk: Result<MultikeyView, Seq<char>>,
    longhop: Option<LongHopView>,
)
    ensures
        ({
            let later = if api.account is None {
                Some(ErrorView::NoAccount)
            } else if entry_update::head_entry(api.account->Some_0.steps) is Err {
                Some(entry_update::head_entry(api.account->Some_0.steps)->Err_0)
            } else if longhop is Some && entry_update::entry_at(
                api.account->Some_0.steps,
                longhop->Some_0.seqno,
            ) is None {
                Some(ErrorView::Plog(longhop->Some_0.missing))
            } else {
                None
            };
            let revoking = if config::branch_path(path) is Err {
                Some(config::branch_path(path)->Err_0)
            } else {
                later
            };
            let delegating = if config::branch_path(path) is Err {
                Some(config::branch_path(path)->Err_0)
            } else if mk is Err {
                Some(ErrorView::Encoding(mk->Err_0))
            } else {
                later
            };
            &&& revoking matches Some(e) ==> api.revoking_entry(path, longhop) == Err::<
                NextEntryView,
                ErrorView,
            >(e)
            &&& delegating matches Some(e) ==> api.delegating_entry(path, mk, longhop) == Err::<
                NextEntryView,
                ErrorView,
            >(e)
        }),
{
    if config::branch_path(path) is Ok {
        let branch = config::branch_path(path)->Ok_0;
        let revoke = seq![OpParamsView::Delete { key: branch + "pubkey"@ }];
        assert(entry_update::mutation(revoke[0]) is Ok);
        assert(entry_update::all_resolved(revoke));
        if mk is Ok {
            let grant = seq![OpParamsView::UseKey { key: branch + "pubkey"@, mk: mk->Ok_0 }];
            assert(entry_update::mutation(grant[0]) is Ok);
            assert(entry_update::all_resolved(grant));
        }
    }
}

/// A root-signed entry is the one that follows the head with the given locks and operations.
pub proof fn law_root_entries<W>(
    api: AccountsApiView<W>,
    locks: Seq<ScriptView>,
    ops: Seq<OpParamsView>,
    longhop: Option<LongHopView>,
)
    ensures
        api.account is None ==> api.root_entry(locks, ops, longhop) == Err::<
            NextEntryView,
            ErrorView,
        >(ErrorView::NoAccount),
        api.account matches Some(log) ==> api.root_entry(locks, ops, longhop)
            == entry_update::next_entry(
            log.steps,
            NextEntrySpecView {
                unlock: ScriptView::Code("/"@, "push(\"/entry/\"); push(\"/entry/proof\")"@),
                locks: Some(locks),
                ops,
            },
            longhop,
        ),
        api.account is None ==> api.head() == Err::<EntryView, ErrorView>(ErrorView::NoAccount),
        api.account matches Some(log) ==> api.head() == entry_update::head_entry(log.steps),
        api.account is None ==> api.log() == Err::<LogView, ErrorView>(ErrorView::NoAccount),
        api.account matches Some(log) ==> api.log() == Ok::<LogView, ErrorView>(log),
        api.can_grow() <==> (api.account matches Some(log) ==> entry_update::can_grow(log.steps)),
{
}

/// A challenge can be committed exactly if it is known, less than fifteen minutes old, and an
/// account is loaded whose head is the one that it was prepared for, with a signature that can be
/// read. Committing asks for the entry that was prepared, with the bytes of the signature.
pub proof fn law_committing<W>(
    api: AccountsApiView<W>,
    id: Seq<char>,
    signature: Result<MultisigView, Seq<char>>,
    now: u64,
)
    ensures
        ({
            let p = api.pending[id];
            let known = api.pending.contains_key(id) && now < p.created_at + 900_000_000_000;
            &&& !known ==> api.commit_request(id, signature, now) == Err::<
                CommitRequestView,
                ErrorView,
            >(ErrorView::ChallengeNotFound(id))
            &&& known && api.account is None ==> api.commit_request(id, signature, now) == Err::<
                CommitRequestView,
                ErrorView,
            >(ErrorView::NoAccount)
            &&& known && api.account is Some ==> {
                let head = api.account->Some_0.head.encoded;
                &&& head != p.head_cid ==> api.commit_request(id, signature, now) == Err::<
                    CommitRequestView,
                    ErrorView,
                >(ErrorView::HeadMismatch(p.head_cid, head))
                &&& head == p.head_cid && signature is Err ==> api.commit_request(
                    id,
                    signature,
                    now,
                ) == Err::<CommitRequestView, ErrorView>(ErrorView::Encoding(signature->Err_0))
                &&& head == p.head_cid && signature is Ok ==> {
                    &&& api.commit_request(id, signature, now) is Ok
                    &&& api.commit_request(id, signature, now)->Ok_0.entry == p.unsigned.entry
                    &&& api.commit_request(id, signature, now)->Ok_0.proof == signature->Ok_0.bytes
                }
            }
        }),
{
    challenge::law_live_challenges(api.pending, id, now);
}

/// Creating needs a wallet and a log that opened and verifies; loading needs a log that verifies,
/// then a wallet; taking over an update needs an account, then an update that worked and
/// verifies. Each is answered with the summary of the log.
pub proof fn law_accounts_come_in<W>(
    api: AccountsApiView<W>,
    log: LogView,
    e: ErrorView,
    outcome: Result<LogView, ErrorView>,
)
    ensures
        api.wallet is None ==> api.created(outcome) == Err::<AccountSummaryView, ErrorView>(
            ErrorView::NotConnected,
        ),
        api.wallet is Some ==> api.created(Err(e)) == Err::<AccountSummaryView, ErrorView>(e),
        api.wallet is Some ==> api.created(Ok(log)) == values::plog_summary(log),
        values::plog_summary(log) is Err ==> api.loaded(log) == values::plog_summary(log),
        values::plog_summary(log) is Ok && api.wallet is None ==> api.loaded(log) == Err::<
            AccountSummaryView,
            ErrorView,
        >(ErrorView::NotConnected),
        values::plog_summary(log) is Ok && api.wallet is Some ==> api.loaded(log)
            == values::plog_summary(log),
        api.account is None ==> api.accepted(outcome) == Err::<AccountSummaryView, ErrorView>(
            ErrorView::NoAccount,
        ),
        api.account is Some ==> api.accepted(Err(e)) == Err::<AccountSummaryView, ErrorView>(e),
        api.account is Some ==> api.accepted(Ok(log)) == values::plog_summary(log),
{
}

/// After an update the account is the updated log if it verifies, and the old one if it does not;
/// the challenges are gone either way. A failed update, or one without an account, changes
/// nothing.
pub proof fn law_after_an_update<W>(api: AccountsApiView<W>, log: LogView, e: ErrorView)
    ensures
        api.after_update(Err(e)) == api,
        api.account is None ==> api.after_update(Ok(log)) == api,
        api.account is Some ==> {
            let after = api.after_update(Ok(log));
            &&& after.pending == Map::<Seq<char>, PendingPathUpdateView>::empty()
            &&& after.wallet == api.wallet
            &&& after.persistence_path == api.persistence_path
            &&& after.pubkey_derivation == api.pubkey_derivation
            &&& values::verify_fault(log.steps) is None ==> after.account == Some(log)
            &&& values::verify_fault(log.steps) is Some ==> after.account == api.account
        },
        api.retains_verified() <==> (api.account matches Some(l) ==> values::verify_fault(
            l.steps,
        ) is None),
{
}

/// A new service has neither wallet nor account, and the default derivation. Attaching a wallet
/// takes the account away and sets the derivation that was given; disconnecting takes wallet,
/// account and challenges away. Nothing else changes.
pub proof fn law_wallets_come_and_go<W>(api: AccountsApiView<W>, wallet: W, d: Seq<char>)
    ensures
        AccountsApiView::<W>::fresh().wallet is None,
        AccountsApiView::<W>::fresh().account is None,
        AccountsApiView::<W>::fresh().persistence_path is None,
        AccountsApiView::<W>::fresh().pubkey_derivation == "m/44'/60'/0'/0/0"@,
        AccountsApiView::<W>::fresh().pending == Map::<Seq<char>, PendingPathUpdateView>::empty(),
        api.attached(wallet, Some(d)).wallet == Some(wallet),
        api.attached(wallet, Some(d)).account is None,
        api.attached(wallet, Some(d)).persistence_path == api.persistence_path,
        api.attached(wallet, Some(d)).pubkey_derivation == d,
        api.attached(wallet, Some(d)).pending == api.pending,
        api.attached(wallet, None).wallet == Some(wallet),
        api.attached(wallet, None).account is None,
        api.attached(wallet, None).persistence_path == api.persistence_path,
        api.attached(wallet, None).pubkey_derivation == api.pubkey_derivation,
        api.attached(wallet, None).pending == api.pending,
        api.disconnected().wallet is None,
        api.disconnected().account is None,
        api.disconnected().persistence_path == api.persistence_path,
        api.disconnected().pubkey_derivation == api.pubkey_derivation,
        api.disconnected().pending == Map::<Seq<char>, PendingPathUpdateView>::empty(),
{
}

/// Loading changes the account; issuing, using up and expiring change the challenges. Nothing
/// else changes.
pub proof fn law_service_changes<W>(
    api: AccountsApiView<W>,
    log: LogView,
    id: Seq<char>,
    p: PendingPathUpdateView,
    now: u64,
)
    ensures
        ({
            let same = |a: AccountsApiView<W>|
                a.wallet == api.wallet && a.persistence_path == api.persistence_path
                    && a.pubkey_derivation == api.pubkey_derivation;
            &&& same(api.with_account(log)) && same(api.updated(log)) && same(api.voided())
            &&& same(api.purged(now)) && same(api.without(id)) && same(api.with_pending(id, p))
            &&& api.with_account(log).account == Some(log)
            &&& api.with_account(log).pending == api.pending
            &&& api.updated(log).account == Some(log)
            &&& api.updated(log).pending == Map::<Seq<char>, PendingPathUpdateView>::empty()
            &&& api.voided().account == api.account
            &&& api.voided().pending == Map::<Seq<char>, PendingPathUpdateView>::empty()
            &&& api.purged(now).account == api.account
            &&& api.purged(now).pending.contains_key(id) <==> api.pending.contains_key(id) && now
                < api.pending[id].created_at + 900_000_000_000
            &&& api.purged(now).pending.contains_key(id) ==> api.purged(now).pending[id]
                == api.pending[id]
            &&& api.without(id).account == api.account
            &&& api.without(id).pending == api.pending.remove(id)
            &&& api.with_pending(id, p).account == api.account
            &&& api.with_pending(id, p).pending == api.pending.insert(id, p)
        }),
{
    challenge::law_live_challenges(api.pending, id, now);
}

/// Rotating asks for a fresh secp256k1 key at `/pubkey`, and revokes the previous one.
pub proof fn law_rotation()
    ensures
        rotation() == (OpParamsView::KeyGen {
            key: "/pubkey"@,
            codec: CodecView::Secp256K1Priv,
            threshold: 1,
            limit: 1,
            revoke: true,
        }),
{
}

/// A log is loaded on a card exactly if the card's record can be read and is the hash of the
/// log's account, and the log verifies; what is at fault is told in this order.
pub proof fn law_loading_on_a_card(
    log: LogView,
    data: Seq<u8>,
    e: ErrorView,
)
    ensures
        card_load_fault(log, Err(e)) == Some(e),
        card_load_fault(log, Ok(data)) is None <==> data.len() == 32 && data
            == crate::convert::sha256(vstd::utf8::encode_utf8(log.vlad)) && values::verify_fault(
            log.steps,
        ) is None,
        ({
            let hash = crate::convert::sha256(vstd::utf8::encode_utf8(log.vlad));
            card_load_fault(log, Ok(data)) == (match binding::binding_fault(data, hash) {
                Some(fault) => Some(fault),
                None => values::verify_fault(log.steps),
            })
        }),
{
}

/// A mutation is about the key path that it was made with.
pub proof fn law_mutation_keys(key: Seq<char>, v: crate::plog::ValueView)
    ensures
        mutated_key(crate::plog::OpView::Noop(key)) == key,
        mutated_key(crate::plog::OpView::Delete(key)) == key,
        mutated_key(crate::plog::OpView::Update(key, v)) == key,
{
}

/// The fields of a request are its values.
pub proof fn law_service_request_values(c: CommitRequest, r: RootSigning)
    ensures
        c@.entry == c.entry@ && c@.proof == c.proof@,
        r@.key == r.key@ && r@.update == r.update@,
{
}

}
