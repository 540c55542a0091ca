//! Default configurations for opening and updating secp256k1 accounts, and the lock scripts and
//! key paths of branch delegation.

use crate::error;
use crate::error::{Error, ErrorView};
use crate::key;
use crate::key::{Key, KeyText, KeyTextView};
use crate::model;
use crate::ops::{OpParams, OpParamsView};
use crate::plog::{Codec, CodecView, Script, ScriptView};
use crate::text;
use vstd::prelude::*;
use vstd::string::*;

verus! {

/// Lock script used for entry verification after open.
pub const DEFAULT_ENTRY_LOCK: &'static str = "check_signature(\"/pubkey\", \"/entry/\")";

/// Unlock script pushed when creating a new entry.
pub const DEFAULT_ENTRY_UNLOCK: &'static str = "push(\"/entry/\"); push(\"/entry/proof\")";

/// Configuration for opening a provenance log.
#[derive(Debug, PartialEq, Eq)]
pub struct OpenConfig {
    /// Algorithm of the key that signs the VLAD.
    pub vlad_key: Codec,
    /// Algorithm of the key that signs the first entry.
    pub first_entry_codec: Codec,
    /// Algorithm of the advertised public key.
    pub pubkey_codec: Codec,
    /// Lock script of the first entry.
    pub lock: Script,
    /// Unlock script of the first entry.
    pub unlock: Script,
}

/// An [`OpenConfig`] as a mathematical value.
#[verifier::ext_equal]
pub struct OpenConfigView {
    pub vlad_key: CodecView,
    pub first_entry_codec: CodecView,
    pub pubkey_codec: CodecView,
    pub lock: ScriptView,
    pub unlock: ScriptView,
}

impl View for OpenConfig {
    type V = OpenConfigView;

    open spec fn view(&self) -> OpenConfigView {
        OpenConfigView {
            vlad_key: self.vlad_key@,
            first_entry_codec: self.first_entry_codec@,
            pubkey_codec: self.pubkey_codec@,
            lock: self.lock@,
            unlock: self.unlock@,
        }
    }
}

impl OpenConfig {
    /// Lock script of the first entry.
    pub fn lock_script(&self) -> (r: &Script)
        ensures
            r@ == self@.lock,
    {
        &self.lock
    }

    /// Unlock script of the first entry.
    pub fn unlock(&self) -> (r: &Script)
        ensures
            r@ == self@.unlock,
    {
        &self.unlock
    }
}

/// Configuration for appending an entry to a provenance log.
#[derive(Debug, PartialEq, Eq)]
pub struct UpdateConfig {
    /// Unlock script of the new entry.
    pub unlock: Script,
    /// Key path of the key that signs the new entry.
    pub entry_signing_key: Key,
    /// Operations of the new entry.
    pub additional_ops: Vec<OpParams>,
}

/// An [`UpdateConfig`] as a mathematical value.
#[verifier::ext_equal]
pub struct UpdateConfigView {
    pub unlock: ScriptView,
    pub entry_signing_key: Seq<char>,
    pub additional_ops: Seq<OpParamsView>,
}

impl View for UpdateConfig {
    type V = UpdateConfigView;

    open spec fn view(&self) -> UpdateConfigView {
        UpdateConfigView {
            unlock: self.unlock@,
            entry_signing_key: self.entry_signing_key@,
            additional_ops: model::views(self.additional_ops@),
        }
    }
}

/// The default open configuration: secp256k1 keys throughout, and the default scripts at the
/// root.
pub open spec fn open_config() -> OpenConfigView {
    OpenConfigView {
        vlad_key: CodecView::Secp256K1Priv,
        first_entry_codec: CodecView::Secp256K1Priv,
        pubkey_codec: CodecView::Secp256K1Priv,
        lock: ScriptView::Code("/"@, DEFAULT_ENTRY_LOCK@),
        unlock: unlock_script(),
    }
}

/// The default unlock script.
pub open spec fn unlock_script() -> ScriptView {
    ScriptView::Code("/"@, DEFAULT_ENTRY_UNLOCK@)
}

/// An update configuration with the default unlock script.
pub open spec fn update_config(
    signing_key: Seq<char>,
    ops: Seq<OpParamsView>,
) -> UpdateConfigView {
    UpdateConfigView {
        unlock: unlock_script(),
        entry_signing_key: signing_key,
        additional_ops: ops,
    }
}

/// Builds the default secp256k1 open configuration.
pub fn default_open_config() -> (r: OpenConfig)
    ensures
        r@ == open_config(),
{
    OpenConfig {
        vlad_key: Codec::Secp256K1Priv,
        first_entry_codec: Codec::Secp256K1Priv,
        pubkey_codec: Codec::Secp256K1Priv,
        lock: Script::Code(Key::root(), DEFAULT_ENTRY_LOCK.to_owned()),
        unlock: default_unlock_script(),
    }
}

/// Default unlock script.
pub fn default_unlock_script() -> (r: Script)
    ensures
        r@ == unlock_script(),
{
    Script::Code(Key::root(), DEFAULT_ENTRY_UNLOCK.to_owned())
}

/// Default update configuration: signed with `/pubkey`, without operations.
pub fn default_update_config() -> (r: UpdateConfig)
    ensures
        r@ == update_config("/pubkey"@, Seq::empty()),
{
    update_config_with_ops(Vec::new())
}

/// Update configuration signed with `/pubkey`.
pub fn update_config_with_ops(additional_ops: Vec<OpParams>) -> (r: UpdateConfig)
    ensures
        r@ == update_config("/pubkey"@, model::views(additional_ops@)),
{
    update_config_with_signing_key(pubkey_key_path(), additional_ops)
}

/// Update configuration signed with the key at an arbitrary key path.
pub fn update_config_with_signing_key(
    entry_signing_key: Key,
    additional_ops: Vec<OpParams>,
) -> (r: UpdateConfig)
    ensures
        r@ == update_config(entry_signing_key@, model::views(additional_ops@)),
{
    UpdateConfig { unlock: default_unlock_script(), entry_signing_key, additional_ops }
}

/// Key path of the long-lived advertised public key.
pub fn pubkey_key_path() -> (r: Key)
    ensures
        r@ == "/pubkey"@,
{
    Key::new("/pubkey".to_owned())
}

/// The check that marks a lock script as delegated: it starts a `check_signature` call on the
/// `pubkey` leaf of the branch.
pub open spec fn delegated_check(branch: Seq<char>) -> Seq<char> {
    "check_signature(\""@ + branch + "pubkey\""@
}

/// The code of a delegated-branch lock script.
pub open spec fn delegated_code(branch: Seq<char>) -> Seq<char> {
    delegated_check(branch) + ", \"/entry/\")"@
}

/// Computes [`delegated_check`].
pub fn delegated_check_text(branch: &Key) -> (r: String)
    ensures
        r@ == delegated_check(branch@),
{
    text::concat3("check_signature(\"", branch.as_str(), "pubkey\"")
}

/// Code of the lock script for a delegated branch.
///
/// It names the key by its absolute path, not by `branch("pubkey")`: log verification runs lock
/// scripts without setting the domain to the lock's path, so the relative form would resolve to
/// `/pubkey`.
pub fn delegated_lock_code(branch: &Key) -> (r: String)
    ensures
        r@ == delegated_code(branch@),
{
    let mut code: String = delegated_check_text(branch);
    code.append(", \"/entry/\")");
    code
}

/// Lock script bound to `branch` that accepts signatures from `{branch}pubkey`.
pub fn delegated_branch_lock_script(branch: Key) -> (r: Script)
    ensures
        r@ == ScriptView::Code(branch@, delegated_code(branch@)),
{
    let code: String = delegated_lock_code(&branch);
    Script::Code(branch, code)
}

/// The key path of the delegate's Multikey under a branch, or the error for a path that is no
/// branch.
pub open spec fn delegate_key(branch: Seq<char>) -> Result<Seq<char>, ErrorView> {
    if key::is_branch_path(branch) {
        Ok(branch + "pubkey"@)
    } else {
        Err(
            ErrorView::InvalidOp(
                "delegation path must be a branch (trailing '/'), got "@ + branch,
            ),
        )
    }
}

/// Key path of the delegate's Multikey under a branch (`{branch}pubkey`).
pub fn delegate_pubkey_key(branch: &Key) -> (r: Result<Key, Error>)
    ensures
        error::outcome(r) == delegate_key(branch@),
{
    if !branch.is_branch() {
        return Err(
            Error::InvalidOp(
                text::concat(
                    "delegation path must be a branch (trailing '/'), got ",
                    branch.as_str(),
                ),
            ),
        );
    }
    Ok(branch.leaf("pubkey"))
}

/// The error for a text that is no key path.
pub open spec fn invalid_key_path(path: Seq<char>, reason: Seq<char>) -> ErrorView {
    ErrorView::InvalidOp("invalid key path "@ + path + ": "@ + reason)
}

/// The key path that a text names, or the error for a text that names none.
pub open spec fn parsed_key(path: KeyTextView) -> Result<Seq<char>, ErrorView> {
    match path.parsed {
        Ok(key) => Ok(key),
        Err(reason) => Err(invalid_key_path(path.text, reason)),
    }
}

/// A branch that can be delegated: any but the root.
pub open spec fn can_be_delegated(branch: Seq<char>) -> bool {
    key::is_branch_path(branch) && branch != "/"@
}

/// The branch that a text names, or the error for a text that names none that can be delegated.
pub open spec fn branch_path(path: KeyTextView) -> Result<Seq<char>, ErrorView> {
    match parsed_key(path) {
        Err(e) => Err(e),
        Ok(key) => if !key::is_branch_path(key) {
            Err(
                ErrorView::InvalidOp(
                    "delegation path must be a branch ending with '/', got "@ + path.text,
                ),
            )
        } else if key == "/"@ {
            Err(ErrorView::InvalidOp("cannot delegate the root path '/'"@))
        } else {
            Ok(key)
        },
    }
}

/// The key path that a text names.
pub fn parse_key(s: &KeyText) -> (r: Result<Key, Error>)
    ensures
        error::outcome(r) == parsed_key(s@),
{
    match &s.parsed {
        Ok(k) => Ok(k.clone()),
        Err(reason) => {
            let mut m: String = text::concat3("invalid key path ", s.text.as_str(), ": ");
            m.append(reason.as_str());
            Err(Error::InvalidOp(m))
        },
    }
}

/// Parses the path of a branch to delegate.
pub fn parse_branch_path(path: &KeyText) -> (r: Result<Key, Error>)
    ensures
        error::outcome(r) == branch_path(path@),
{
    let key: Key = match parse_key(path) {
        Ok(k) => k,
        Err(e) => {
            return Err(e);
        },
    };
    if !key.is_branch() {
        return Err(
            Error::InvalidOp(
                text::concat(
                    "delegation path must be a branch ending with '/', got ",
                    path.text.as_str(),
                ),
            ),
        );
    }
    if text::same_text(key.as_str(), "/") {
        return Err(Error::InvalidOp("cannot delegate the root path '/'".to_owned()));
    }
    Ok(key)
}

/// Whether an operation's key path lies in the delegated branch.
pub fn key_under_branch(op_key: &Key, branch: &Key) -> (r: bool)
    ensures
        r == key::branch_covers(branch@, op_key@),
{
    branch.parent_of(op_key)
}

/// The delegate's key lies in the branch it is delegated for.
pub proof fn law_delegate_key_lies_in_its_branch(branch: Seq<char>)
    requires
        key::is_branch_path(branch),
    ensures
        delegate_key(branch) is Ok,
        key::branch_covers(branch, delegate_key(branch)->Ok_0),
{
    assert((branch + "pubkey"@).subrange(0, branch.len() as int) =~= branch);
}

/// Branches with the same delegate key are the same branch.
pub proof fn law_delegate_keys_are_distinct(a: Seq<char>, b: Seq<char>)
    requires
        key::is_branch_path(a),
        key::is_branch_path(b),
        delegate_key(a) == delegate_key(b),
    ensures
        a == b,
{
    let ka = a + "pubkey"@;
    let kb = b + "pubkey"@;
    assert(ka == kb);
    assert(ka.len() == kb.len());
    assert(a =~= ka.take(a.len() as int));
    assert(b =~= kb.take(b.len() as int));
}

/// The lock script of a delegated branch carries the check that marks it as delegated.
pub proof fn law_delegated_lock_is_recognised(branch: Seq<char>)
    ensures
        text::occurs_in(delegated_code(branch), delegated_check(branch)),
{
    let code = delegated_code(branch);
    let check = delegated_check(branch);
    assert(code.subrange(0, check.len() as int) =~= check);
    assert(text::occurs_at(code, check, 0));
}

/// The lock of a delegated branch is, as a whole, one check of the signature of the key at the
/// branch's `pubkey` leaf, by its absolute path: that key alone satisfies it.
pub proof fn law_delegate_alone_unlocks(branch: Seq<char>)
    ensures
        delegated_code(branch) == "check_signature(\""@ + branch + "pubkey\", \"/entry/\")"@,
        delegated_check(branch) == "check_signature(\""@ + branch + "pubkey\""@,
{
    reveal_strlit("check_signature(\"");
    reveal_strlit("pubkey\"");
    reveal_strlit(", \"/entry/\")");
    reveal_strlit("pubkey\", \"/entry/\")");
    assert("pubkey\""@ + ", \"/entry/\")"@ =~= "pubkey\", \"/entry/\")"@);
    assert(delegated_code(branch) =~= "check_signature(\""@ + branch + ("pubkey\""@
        + ", \"/entry/\")"@));
}

/// Accounts are opened with secp256k1 keys throughout; the first entry is locked to `/pubkey`,
/// and every entry is unlocked with its own bytes and proof.
pub proof fn law_default_configuration()
    ensures
        open_config().vlad_key == CodecView::Secp256K1Priv,
        open_config().first_entry_codec == CodecView::Secp256K1Priv,
        open_config().pubkey_codec == CodecView::Secp256K1Priv,
        open_config().lock == ScriptView::Code(
            "/"@,
            "check_signature(\"/pubkey\", \"/entry/\")"@,
        ),
        open_config().unlock == ScriptView::Code(
            "/"@,
            "push(\"/entry/\"); push(\"/entry/proof\")"@,
        ),
        unlock_script() == ScriptView::Code(
            "/"@,
            "push(\"/entry/\"); push(\"/entry/proof\")"@,
        ),
        DEFAULT_ENTRY_LOCK@ == "check_signature(\"/pubkey\", \"/entry/\")"@,
        DEFAULT_ENTRY_UNLOCK@ == "push(\"/entry/\"); push(\"/entry/proof\")"@,
{
}

/// An update is made with all of its operations, in order, and is signed with the key that was
/// named for it.
pub proof fn law_update_configuration(signing_key: Seq<char>, ops: Seq<OpParamsView>)
    ensures
        update_config(signing_key, ops).additional_ops == ops,
        update_config(signing_key, ops).entry_signing_key == signing_key,
        update_config(signing_key, ops).unlock == ScriptView::Code(
            "/"@,
            "push(\"/entry/\"); push(\"/entry/proof\")"@,
        ),
{
}

/// The delegate's key of a branch is at its `pubkey` leaf; a path that is no branch has none.
pub proof fn law_delegate_key(branch: Seq<char>)
    ensures
        key::is_branch_path(branch) ==> delegate_key(branch) == Ok::<Seq<char>, ErrorView>(
            branch + "pubkey"@,
        ),
        !key::is_branch_path(branch) ==> delegate_key(branch) == Err::<Seq<char>, ErrorView>(
            ErrorView::InvalidOp(
                "delegation path must be a branch (trailing '/'), got "@ + branch,
            ),
        ),
{
}

/// A text names the key path that it parses to, and is refused in the parser's words if it does
/// not parse. As a branch to delegate it is refused too if it names a leaf, or the root.
pub proof fn law_named_paths(path: KeyTextView, key: Seq<char>, reason: Seq<char>)
    ensures
        path.parsed == Ok::<Seq<char>, Seq<char>>(key) ==> {
            &&& parsed_key(path) == Ok::<Seq<char>, ErrorView>(key)
            &&& key::is_branch_path(key) && key != seq!['/'] ==> branch_path(path) == Ok::<
                Seq<char>,
                ErrorView,
            >(key) && can_be_delegated(key)
            &&& !key::is_branch_path(key) ==> branch_path(path) == Err::<Seq<char>, ErrorView>(
                ErrorView::InvalidOp(
                    "delegation path must be a branch ending with '/', got "@ + path.text,
                ),
            ) && !can_be_delegated(key)
            &&& key == seq!['/'] ==> branch_path(path) == Err::<Seq<char>, ErrorView>(
                ErrorView::InvalidOp("cannot delegate the root path '/'"@),
            ) && !can_be_delegated(key)
        },
        path.parsed == Err::<Seq<char>, Seq<char>>(reason) ==> {
            let refused = ErrorView::InvalidOp(
                "invalid key path "@ + path.text + ": "@ + reason,
            );
            &&& parsed_key(path) == Err::<Seq<char>, ErrorView>(refused)
            &&& branch_path(path) == Err::<Seq<char>, ErrorView>(refused)
            &&& invalid_key_path(path.text, reason) == refused
        },
{
    reveal_strlit("/");
    assert("/"@ =~= seq!['/']);
}

/// The fields of a configuration are its values.
pub proof fn law_configuration_values(o: OpenConfig, u: UpdateConfig)
    ensures
        o@.vlad_key == o.vlad_key@ && o@.first_entry_codec == o.first_entry_codec@,
        o@.pubkey_codec == o.pubkey_codec@ && o@.lock == o.lock@ && o@.unlock == o.unlock@,
        u@.unlock == u.unlock@ && u@.entry_signing_key == u.entry_signing_key@,
        u@.additional_ops == model::views(u.additional_ops@),
{
}

}
