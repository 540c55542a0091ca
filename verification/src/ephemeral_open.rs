//! Helper for opening a log whose root key is held elsewhere.
//!
//! The helper stands in for a wallet while a log is opened: the root's public key is injected,
//! and the keys that are used once are made in software. It holds no secret.

use crate::config;
use crate::convert;
use crate::error;
use crate::error::{Error, ErrorView};
use crate::key::Key;
use crate::model;
use crate::plog::{Multikey, MultikeyView, Multisig, MultisigView};
use crate::text;
use vstd::prelude::*;
use vstd::string::*;

verus! {

/// Wallet stand-in that knows the root's public key.
#[derive(Debug, PartialEq, Eq)]
pub struct EphemeralOpenHelper {
    root_pubkey: Multikey,
}

impl View for EphemeralOpenHelper {
    type V = MultikeyView;

    closed spec fn view(&self) -> MultikeyView {
        self.root_pubkey@
    }
}

impl Clone for EphemeralOpenHelper {
    fn clone(&self) -> (r: EphemeralOpenHelper)
        ensures
            r@ == self@,
    {
        EphemeralOpenHelper { root_pubkey: self.root_pubkey.clone() }
    }
}

/// The key that the helper has for a key path: the root's public key at `/pubkey`, none
/// elsewhere.
pub open spec fn root_or_error(root: MultikeyView, key: Seq<char>) -> Result<
    MultikeyView,
    ErrorView,
> {
    if key == "/pubkey"@ {
        Ok(root)
    } else {
        Err(
            ErrorView::InvalidOp(
                "ephemeral open helper has no long-lived key for "@ + key
                    + " (only /pubkey is injected)"@,
            ),
        )
    }
}

/// The answer to a request to sign with a long-lived key: always a refusal.
pub open spec fn refused_signature(key: Seq<char>) -> ErrorView {
    ErrorView::InvalidOp(
        "ephemeral open helper cannot try_sign("@ + key + "); long-lived keys are external"@,
    )
}

impl EphemeralOpenHelper {
    /// A helper that hands out `root_pubkey`. A secret key is replaced by `derived`, the public
    /// key derived from it.
    pub fn new(root_pubkey: Multikey, derived: Result<Multikey, String>) -> (r: Result<
        EphemeralOpenHelper,
        Error,
    >)
        ensures
            error::outcome(r) == convert::public_form(root_pubkey@, model::fallible(derived)),
    {
        match convert::ensure_public_multikey(root_pubkey, derived) {
            Ok(root_pubkey) => Ok(EphemeralOpenHelper { root_pubkey }),
            Err(e) => Err(e),
        }
    }

    /// The key that the helper has for a key path.
    pub fn get_root_or_err(&self, key_path: &Key) -> (r: Result<Multikey, Error>)
        ensures
            error::outcome(r) == root_or_error(self@, key_path@),
    {
        let pubkey: Key = config::pubkey_key_path();
        if key_path.same(&pubkey) {
            return Ok(self.root_pubkey.clone());
        }
        Err(
            Error::InvalidOp(
                text::concat3(
                    "ephemeral open helper has no long-lived key for ",
                    key_path.as_str(),
                    " (only /pubkey is injected)",
                ),
            ),
        )
    }

    /// Refuses to sign with a long-lived key.
    pub fn try_sign(&self, key_path: &Key) -> (r: Result<Multisig, Error>)
        ensures
            error::outcome(r) == Err::<MultisigView, ErrorView>(refused_signature(key_path@)),
    {
        Err(
            Error::InvalidOp(
                text::concat3(
                    "ephemeral open helper cannot try_sign(",
                    key_path.as_str(),
                    "); long-lived keys are external",
                ),
            ),
        )
    }
}

/// A helper never hands out a secret key, where the key derived from a secret one is public.
pub proof fn law_helper_holds_no_secret(
    root: MultikeyView,
    derived: Result<MultikeyView, Seq<char>>,
    key: Seq<char>,
)
    requires
        derived is Ok ==> !derived->Ok_0.secret,
        convert::public_form(root, derived) is Ok,
        root_or_error(convert::public_form(root, derived)->Ok_0, key) is Ok,
    ensures
        !root_or_error(convert::public_form(root, derived)->Ok_0, key)->Ok_0.secret,
{
}

/// The helper hands out the injected root key at `/pubkey` and nothing anywhere else, and never
/// signs.
pub proof fn law_helper_answers(root: MultikeyView, key: Seq<char>)
    ensures
        root_or_error(root, "/pubkey"@) == Ok::<MultikeyView, ErrorView>(root),
        key != "/pubkey"@ ==> root_or_error(root, key) == Err::<MultikeyView, ErrorView>(
            ErrorView::InvalidOp(
                "ephemeral open helper has no long-lived key for "@ + key
                    + " (only /pubkey is injected)"@,
            ),
        ),
        refused_signature(key) == ErrorView::InvalidOp(
            "ephemeral open helper cannot try_sign("@ + key
                + "); long-lived keys are external"@,
        ),
{
}

}
