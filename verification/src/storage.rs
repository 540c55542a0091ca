//! Where the long-lived keys of an account are stored, chosen when it is created or loaded.

use crate::error;
use crate::error::{Error, ErrorView};
use crate::model;
use crate::path_map;
use crate::path_map::DEFAULT_PUBKEY_PATH;
use crate::text;
use crate::values::{AccountSummary, AccountSummaryView};
use vstd::prelude::*;
use vstd::string::*;

verus! {

/// Storage of long-lived key material.
#[derive(Debug, PartialEq, Eq)]
pub enum StorageConfig {
    /// In-process software wallet.
    Local,
    /// Keycard. Creating an account needs a virgin card, loading one needs its credentials.
    Keycard {
        /// PIN (6 digits): optional on create, required on load.
        pin: Option<String>,
        /// PUK (12 digits): optional on create, not used on load.
        puk: Option<String>,
        /// Pairing password: optional on create.
        pairing_password: Option<String>,
        /// Pairing key in hexadecimal (64 digits): required on load, returned by create.
        pairing_key_hex: Option<String>,
        /// Pairing slot: required on load, returned by create.
        pairing_index: Option<u8>,
        /// BIP32 path of `/pubkey`.
        derivation_path: Option<String>,
    },
}

/// A [`StorageConfig`] as a mathematical value.
#[verifier::ext_equal]
pub enum StorageConfigView {
    Local,
    Keycard {
        pin: Option<Seq<char>>,
        puk: Option<Seq<char>>,
        pairing_password: Option<Seq<char>>,
        pairing_key_hex: Option<Seq<char>>,
        pairing_index: Option<u8>,
        derivation_path: Option<Seq<char>>,
    },
}

impl View for StorageConfig {
    type V = StorageConfigView;

    open spec fn view(&self) -> StorageConfigView {
        match self {
            StorageConfig::Local => StorageConfigView::Local,
            StorageConfig::Keycard {
                pin,
                puk,
                pairing_password,
                pairing_key_hex,
                pairing_index,
                derivation_path,
            } => StorageConfigView::Keycard {
                pin: model::opt(*pin),
                puk: model::opt(*puk),
                pairing_password: model::opt(*pairing_password),
                pairing_key_hex: model::opt(*pairing_key_hex),
                pairing_index: *pairing_index,
                derivation_path: model::opt(*derivation_path),
            },
        }
    }
}

impl Clone for StorageConfig {
    fn clone(&self) -> (r: StorageConfig)
        ensures
            r@ == self@,
    {
        match self {
            StorageConfig::Local => StorageConfig::Local,
            StorageConfig::Keycard {
                pin,
                puk,
                pairing_password,
                pairing_key_hex,
                pairing_index,
                derivation_path,
            } => StorageConfig::Keycard {
                pin: model::copy_opt_text(pin),
                puk: model::copy_opt_text(puk),
                pairing_password: model::copy_opt_text(pairing_password),
                pairing_key_hex: model::copy_opt_text(pairing_key_hex),
                pairing_index: *pairing_index,
                derivation_path: model::copy_opt_text(derivation_path),
            },
        }
    }
}

impl StorageConfig {
    /// BIP32 derivation path of `/pubkey`: the configured one, or the default.
    pub fn derivation_path(&self) -> (r: &str)
        ensures
            r@ == path_map::derivation_or_default(
                match self@ {
                    StorageConfigView::Local => None,
                    StorageConfigView::Keycard { derivation_path, .. } => derivation_path,
                },
            ),
    {
        match self {
            StorageConfig::Local => DEFAULT_PUBKEY_PATH,
            StorageConfig::Keycard { derivation_path, .. } => match derivation_path {
                Some(p) => p.as_str(),
                None => DEFAULT_PUBKEY_PATH,
            },
        }
    }

    /// Whether software storage is selected.
    pub fn is_local(&self) -> (r: bool)
        ensures
            r == (self@ is Local),
    {
        match self {
            StorageConfig::Local => true,
            StorageConfig::Keycard { .. } => false,
        }
    }

    /// Whether Keycard storage is selected.
    pub fn is_keycard(&self) -> (r: bool)
        ensures
            r == (self@ is Keycard),
    {
        match self {
            StorageConfig::Local => false,
            StorageConfig::Keycard { .. } => true,
        }
    }
}

/// The storage that a JSON text selects; `decoded` is what the trimmed text decodes to.
pub open spec fn selected_storage(
    s: Seq<char>,
    decoded: Result<StorageConfigView, Seq<char>>,
) -> Result<StorageConfigView, ErrorView> {
    if text::trimmed(s).len() == 0 {
        Err(
            ErrorView::Encoding(
                "storage_json is empty; expected {\"method\":\"local\"} or keycard object"@,
            ),
        )
    } else {
        match decoded {
            Ok(c) => Ok(c),
            Err(reason) => Err(ErrorView::Encoding("storage_json: "@ + reason)),
        }
    }
}

/// Parses a storage selection. `decoded` is what the JSON decoder makes of the trimmed text.
pub fn parse_storage_json(s: &str, decoded: Result<StorageConfig, String>) -> (r: Result<
    StorageConfig,
    Error,
>)
    ensures
        error::outcome(r) == selected_storage(s@, model::fallible(decoded)),
{
    let trimmed: &str = text::trim(s);
    proof {
        reveal_strlit("");
        assert(trimmed@.len() == 0 ==> trimmed@ =~= ""@);
    }
    if text::same_text(trimmed, "") {
        return Err(
            Error::Encoding(
                "storage_json is empty; expected {\"method\":\"local\"} or keycard object".to_owned(),
            ),
        );
    }
    match decoded {
        Ok(c) => Ok(c),
        Err(reason) => Err(Error::Encoding(text::concat("storage_json: ", reason.as_str()))),
    }
}

/// Credentials of a Keycard on which an account was created. They are secret.
#[derive(Debug, PartialEq, Eq)]
pub struct KeycardCredentials {
    /// PIN.
    pub pin: String,
    /// PUK for unblocking.
    pub puk: String,
    /// Pairing password that was used to initialize the card.
    pub pairing_password: String,
    /// Pairing key in hexadecimal (64 lower-case digits).
    pub pairing_key_hex: String,
    /// Pairing slot.
    pub pairing_index: u8,
}

/// [`KeycardCredentials`] as a mathematical value.
#[verifier::ext_equal]
pub struct KeycardCredentialsView {
    pub pin: Seq<char>,
    pub puk: Seq<char>,
    pub pairing_password: Seq<char>,
    pub pairing_key_hex: Seq<char>,
    pub pairing_index: u8,
}

impl View for KeycardCredentials {
    type V = KeycardCredentialsView;

    open spec fn view(&self) -> KeycardCredentialsView {
        KeycardCredentialsView {
            pin: self.pin@,
            puk: self.puk@,
            pairing_password: self.pairing_password@,
            pairing_key_hex: self.pairing_key_hex@,
            pairing_index: self.pairing_index,
        }
    }
}

impl Clone for KeycardCredentials {
    fn clone(&self) -> (r: KeycardCredentials)
        ensures
            r@ == self@,
    {
        KeycardCredentials {
            pin: self.pin.clone(),
            puk: self.puk.clone(),
            pairing_password: self.pairing_password.clone(),
            pairing_key_hex: self.pairing_key_hex.clone(),
            pairing_index: self.pairing_index,
        }
    }
}

/// Account summary, with the credentials of the Keycard that the account was created on.
#[derive(Debug, PartialEq, Eq)]
pub struct CreateAccountResult {
    /// Multibase VLAD identity.
    pub vlad: String,
    /// Multibase head entry CID.
    pub head_cid: String,
    /// Multibase Multikey public key at `/pubkey`.
    pub pubkey: Option<String>,
    /// Credentials, where the account was created on a Keycard.
    pub keycard: Option<KeycardCredentials>,
}

/// A [`CreateAccountResult`] as a mathematical value.
#[verifier::ext_equal]
pub struct CreateAccountResultView {
    pub vlad: Seq<char>,
    pub head_cid: Seq<char>,
    pub pubkey: Option<Seq<char>>,
    pub keycard: Option<KeycardCredentialsView>,
}

impl View for CreateAccountResult {
    type V = CreateAccountResultView;

    open spec fn view(&self) -> CreateAccountResultView {
        CreateAccountResultView {
            vlad: self.vlad@,
            head_cid: self.head_cid@,
            pubkey: model::opt(self.pubkey),
            keycard: model::opt(self.keycard),
        }
    }
}

/// The result for a summary and, where there are some, Keycard credentials.
pub open spec fn create_result(
    summary: AccountSummaryView,
    keycard: Option<KeycardCredentialsView>,
) -> CreateAccountResultView {
    CreateAccountResultView {
        vlad: summary.vlad,
        head_cid: summary.head_cid,
        pubkey: summary.pubkey,
        keycard,
    }
}

impl CreateAccountResult {
    /// The result for an account in software storage.
    pub fn from_summary(summary: AccountSummary) -> (r: CreateAccountResult)
        ensures
            r@ == create_result(summary@, None),
    {
        CreateAccountResult {
            vlad: summary.vlad,
            head_cid: summary.head_cid,
            pubkey: summary.pubkey,
            keycard: None,
        }
    }

    /// The result for an account on a Keycard.
    pub fn with_keycard(summary: AccountSummary, credentials: KeycardCredentials) -> (r:
        CreateAccountResult)
        ensures
            r@ == create_result(summary@, Some(credentials@)),
    {
        CreateAccountResult {
            vlad: summary.vlad,
            head_cid: summary.head_cid,
            pubkey: summary.pubkey,
            keycard: Some(credentials),
        }
    }
}

/// A storage selection is what its text decodes to. A blank text is refused as such, and one
/// that does not decode in the decoder's words.
pub proof fn law_storage_selection(
    s: Seq<char>,
    decoded: Result<StorageConfigView, Seq<char>>,
    config: StorageConfigView,
    reason: Seq<char>,
)
    ensures
        text::trimmed(s) == Seq::<char>::empty() ==> selected_storage(s, decoded) == Err::<
            StorageConfigView,
            ErrorView,
        >(
            ErrorView::Encoding(
                "storage_json is empty; expected {\"method\":\"local\"} or keycard object"@,
            ),
        ),
        text::trimmed(s) != Seq::<char>::empty() ==> selected_storage(s, Ok(config)) == Ok::<
            StorageConfigView,
            ErrorView,
        >(config),
        text::trimmed(s) != Seq::<char>::empty() ==> selected_storage(s, Err(reason)) == Err::<
            StorageConfigView,
            ErrorView,
        >(ErrorView::Encoding("storage_json: "@ + reason)),
{
    if text::trimmed(s).len() == 0 {
        assert(text::trimmed(s) =~= Seq::<char>::empty());
    }
}

/// The result of creating an account repeats its summary, with exactly the credentials of the
/// card that it was created on.
pub proof fn law_creation_result(
    summary: AccountSummaryView,
    keycard: Option<KeycardCredentialsView>,
)
    ensures
        create_result(summary, keycard).vlad == summary.vlad,
        create_result(summary, keycard).head_cid == summary.head_cid,
        create_result(summary, keycard).pubkey == summary.pubkey,
        create_result(summary, keycard).keycard == keycard,
{
}

/// The fields of credentials and of a result are their values.
pub proof fn law_storage_values(c: KeycardCredentials, r: CreateAccountResult)
    ensures
        c@.pin == c.pin@ && c@.puk == c.puk@ && c@.pairing_password == c.pairing_password@,
        c@.pairing_key_hex == c.pairing_key_hex@ && c@.pairing_index == c.pairing_index,
        r@.vlad == r.vlad@ && r@.head_cid == r.head_cid@,
        r@.pubkey == model::opt(r.pubkey) && r@.keycard == model::opt(r.keycard),
{
}

/// The value of a storage selection is of its kind, and holds the same.
pub proof fn law_selection_values(
    pin: Option<String>,
    puk: Option<String>,
    pairing_password: Option<String>,
    pairing_key_hex: Option<String>,
    pairing_index: Option<u8>,
    derivation_path: Option<String>,
)
    ensures
        StorageConfig::Local@ is Local,
        (StorageConfig::Keycard {
            pin,
            puk,
            pairing_password,
            pairing_key_hex,
            pairing_index,
            derivation_path,
        })@ == (StorageConfigView::Keycard {
            pin: model::opt(pin),
            puk: model::opt(puk),
            pairing_password: model::opt(pairing_password),
            pairing_key_hex: model::opt(pairing_key_hex),
            pairing_index,
            derivation_path: model::opt(derivation_path),
        }),
{
}

}
