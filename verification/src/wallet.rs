//! Keycard-backed wallet: which key a key path stands for, and what the card has to do for it.
//!
//! Long-lived keys stay on the card, at the derivation path registered for their key path. The
//! wallet keeps their public halves once they were exported. Keys that are used once, to open a
//! log, are made in software.
//!
//! The wallet decides and records; the card session it carries does the card's work. A key is
//! obtained by [`KeycardWallet::get_key`] and, where that asks for an export,
//! [`KeycardWallet::accept_export`]; a signature by [`KeycardWallet::signing_request`] and
//! [`KeycardWallet::accept_signature`].

use crate::config;
use crate::convert;
use crate::error;
use crate::error::{Error, ErrorView};
use crate::key::Key;
use crate::model;
use crate::path_map;
use crate::path_map::{DerivationPath, PathMap, DEFAULT_PUBKEY_PATH};
use crate::plog::{Codec, CodecView, Multikey, MultikeyView, Multisig, MultisigView};
use crate::table;
use crate::table::Table;
use vstd::prelude::*;
use vstd::string::*;

verus! {

/// Key path of the advertised long-lived public key.
pub fn default_pubkey_key() -> (r: Key)
    ensures
        r@ == "/pubkey"@,
{
    config::pubkey_key_path()
}

/// Derivation path used when none is supplied.
pub fn default_pubkey_derivation() -> (r: &'static str)
    ensures
        r@ == DEFAULT_PUBKEY_PATH@,
{
    DEFAULT_PUBKEY_PATH
}

/// Keycard-backed wallet over a card session.
pub struct KeycardWallet<S> {
    session: S,
    path_map: PathMap,
    /// Public keys exported so far.
    pub_cache: Table<Key, Multikey>,
    /// Fingerprints of the public keys exported so far.
    fingerprints: Table<Key, Vec<u8>>,
}

/// A [`KeycardWallet`] as a mathematical value.
#[verifier::ext_equal]
pub struct KeycardWalletView<S> {
    pub session: S,
    pub paths: Map<Seq<char>, Seq<u32>>,
    pub cached: Map<Seq<char>, MultikeyView>,
    pub fingerprints: Map<Seq<char>, Seq<u8>>,
}

impl<S> View for KeycardWallet<S> {
    type V = KeycardWalletView<S>;

    closed spec fn view(&self) -> KeycardWalletView<S> {
        KeycardWalletView {
            session: self.session,
            paths: self.path_map@,
            cached: table::item_views(self.pub_cache@),
            fingerprints: table::item_views(self.fingerprints@),
        }
    }
}

impl<S> KeycardWalletView<S> {
    /// A wallet that exported no key yet.
    pub open spec fn fresh(session: S, paths: Map<Seq<char>, Seq<u32>>) -> KeycardWalletView<S> {
        KeycardWalletView { session, paths, cached: Map::empty(), fingerprints: Map::empty() }
    }

    /// Fingerprints are known of exactly the cached keys.
    pub open spec fn consistent(self) -> bool {
        self.cached.dom() == self.fingerprints.dom()
    }

    /// The wallet with `key` registered at `path`.
    pub open spec fn registered(self, key: Seq<char>, path: Seq<u32>) -> KeycardWalletView<S> {
        KeycardWalletView { paths: self.paths.insert(key, path), ..self }
    }

    /// The wallet with the cached public key of `key` dropped.
    pub open spec fn cleared(self, key: Seq<char>) -> KeycardWalletView<S> {
        KeycardWalletView {
            cached: self.cached.remove(key),
            fingerprints: self.fingerprints.remove(key),
            ..self
        }
    }

    /// The wallet with a public key and its fingerprint cached for `key`.
    pub open spec fn with_cached(
        self,
        key: Seq<char>,
        mk: MultikeyView,
        fingerprint: Seq<u8>,
    ) -> KeycardWalletView<S> {
        KeycardWalletView {
            cached: self.cached.insert(key, mk),
            fingerprints: self.fingerprints.insert(key, fingerprint),
            ..self
        }
    }

    /// The cached public key of `key`.
    pub open spec fn cached_key(self, key: Seq<char>) -> Option<MultikeyView> {
        if self.cached.contains_key(key) {
            Some(self.cached[key])
        } else {
            None
        }
    }

    /// How the public key of `key` is obtained, or why it cannot be: the codec has to be
    /// supported, then a cached key is used, then the key has to be registered.
    pub open spec fn key_request(self, key: Seq<char>, codec: CodecView) -> Result<
        KeyRequestView,
        ErrorView,
    > {
        match convert::codec_fault(codec) {
            Some(e) => Err(e),
            None => match self.cached_key(key) {
                Some(mk) => Ok(KeyRequestView::Cached(mk)),
                None => match path_map::required_path(self.paths, key) {
                    Ok(path) => Ok(KeyRequestView::Export(path)),
                    Err(e) => Err(e),
                },
            },
        }
    }

    /// What the card has to sign for `key` to sign `data`, or why it cannot.
    pub open spec fn sign_request(self, key: Seq<char>, data: Seq<u8>) -> Result<
        SignRequestView,
        ErrorView,
    > {
        match path_map::required_path(self.paths, key) {
            Ok(path) => Ok(SignRequestView { path, prehash: convert::sha256(data) }),
            Err(e) => Err(e),
        }
    }
}

/// How a public key is obtained.
#[derive(Debug, PartialEq, Eq)]
pub enum KeyRequest {
    /// It was exported before.
    Cached(Multikey),
    /// The card has to export it from this derivation path.
    Export(DerivationPath),
}

/// A [`KeyRequest`] as a mathematical value.
#[verifier::ext_equal]
pub enum KeyRequestView {
    Cached(MultikeyView),
    Export(Seq<u32>),
}

impl View for KeyRequest {
    type V = KeyRequestView;

    open spec fn view(&self) -> KeyRequestView {
        match self {
            KeyRequest::Cached(mk) => KeyRequestView::Cached(mk@),
            KeyRequest::Export(path) => KeyRequestView::Export(path@),
        }
    }
}

/// What the card has to sign.
#[derive(Debug, PartialEq, Eq)]
pub struct SignRequest {
    /// Derivation path of the signing key.
    pub path: DerivationPath,
    /// Digest to sign.
    pub prehash: [u8; 32],
}

/// A [`SignRequest`] as a mathematical value.
#[verifier::ext_equal]
pub struct SignRequestView {
    pub path: Seq<u32>,
    pub prehash: Seq<u8>,
}

impl View for SignRequest {
    type V = SignRequestView;

    open spec fn view(&self) -> SignRequestView {
        SignRequestView { path: self.path@, prehash: self.prehash@ }
    }
}

/// The signature that is handed out: where the public key is cached, the signature has to verify
/// with it.
pub open spec fn checked_signature(
    cached: Option<MultikeyView>,
    signature: Result<MultisigView, ErrorView>,
    verified: Result<(), Seq<char>>,
) -> Result<MultisigView, ErrorView> {
    match signature {
        Err(e) => Err(e),
        Ok(sig) => match (cached, verified) {
            (Some(_), Err(reason)) => Err(ErrorView::Multikey(reason)),
            _ => Ok(sig),
        },
    }
}

/// The exported key that is handed out, if the export and the fingerprint succeed.
pub open spec fn exported_key(
    exported: Result<MultikeyView, ErrorView>,
    fingerprint: Result<Seq<u8>, ErrorView>,
) -> Result<MultikeyView, ErrorView> {
    match exported {
        Err(e) => Err(e),
        Ok(mk) => match fingerprint {
            Err(e) => Err(e),
            Ok(_) => Ok(mk),
        },
    }
}

/// The value of a check that carries no data.
pub open spec fn check_view(r: Result<(), String>) -> Result<(), Seq<char>> {
    match r {
        Ok(()) => Ok(()),
        Err(reason) => Err(reason@),
    }
}

impl<S> KeycardWallet<S> {
    /// A wallet over a session, with `/pubkey` registered at the given derivation, or at the
    /// default one.
    pub fn new(session: S, pubkey_derivation: Option<&str>) -> (r: Result<KeycardWallet<S>, Error>)
        ensures
            match path_map::derivation(
                path_map::bip32_parsed(
                    path_map::derivation_or_default(model::opt(pubkey_derivation)),
                ),
            ) {
                Ok(path) => r is Ok && r->Ok_0@ == KeycardWalletView::fresh(
                    session,
                    Map::empty().insert("/pubkey"@, path),
                ),
                Err(e) => r is Err && r->Err_0@ == e,
            },
            pubkey_derivation is None ==> r is Ok && r->Ok_0@ == KeycardWalletView::fresh(
                session,
                Map::empty().insert("/pubkey"@, path_map::default_path()),
            ),
    {
        let path_map: PathMap = match PathMap::with_default_pubkey(pubkey_derivation) {
            Ok(m) => m,
            Err(e) => {
                return Err(e);
            },
        };
        proof {
            table::lemma_views_empty::<Seq<char>, Multikey>();
            table::lemma_views_empty::<Seq<char>, Vec<u8>>();
        }
        Ok(
            KeycardWallet {
                session,
                path_map,
                pub_cache: Table::new(),
                fingerprints: Table::new(),
            },
        )
    }

    /// Registers a derivation path for a key. A text that does not parse changes nothing.
    pub fn register_path(&mut self, key: Key, derivation: &str) -> (r: Result<(), Error>)
        ensures
            match path_map::derivation(path_map::bip32_parsed(derivation@)) {
                Ok(path) => r is Ok && final(self)@ == old(self)@.registered(key@, path),
                Err(e) => r is Err && r->Err_0@ == e && final(self)@ == old(self)@,
            },
            forall|path: Seq<u32>| #[trigger]
                path_map::path_text(path) == derivation@ ==> {
                    &&& r is Ok
                    &&& final(self)@ == old(self)@.registered(key@, path)
                },
    {
        match path_map::parse_derivation_path(derivation) {
            Ok(path) => {
                self.path_map.register(key, path);
                Ok(())
            },
            Err(e) => Err(e),
        }
    }

    /// Registers a parsed derivation path for a key.
    pub fn register_derivation(&mut self, key: Key, path: DerivationPath)
        ensures
            final(self)@ == old(self)@.registered(key@, path@),
    {
        self.path_map.register(key, path);
    }

    /// The card session.
    pub fn session(&self) -> (r: &S)
        ensures
            *r == self@.session,
    {
        &self.session
    }

    /// The registered derivation paths.
    pub fn path_map(&self) -> (r: &PathMap)
        ensures
            r@ == self@.paths,
    {
        &self.path_map
    }

    /// The cached public key of a key path, if there is one.
    pub fn cached_public_key(&self, key: &Key) -> (r: Option<Multikey>)
        ensures
            model::opt(r) == self@.cached_key(key@),
    {
        match self.pub_cache.get(key) {
            Some(mk) => Some(mk.clone()),
            None => None,
        }
    }

    /// Drops the cached public key of a key path, so that it is exported again.
    pub fn clear_cached_public_key(&mut self, key: &Key)
        ensures
            final(self)@ == old(self)@.cleared(key@),
    {
        proof {
            table::lemma_views_remove(self.pub_cache@, key@);
            table::lemma_views_remove(self.fingerprints@, key@);
        }
        let _ = self.pub_cache.remove(key);
        let _ = self.fingerprints.remove(key);
    }

    /// Replaces the derivation path of a key and drops its cached public key. The public key is
    /// dropped even if the text does not parse.
    pub fn rebind_path(&mut self, key: Key, derivation: &str) -> (r: Result<(), Error>)
        ensures
            match path_map::derivation(path_map::bip32_parsed(derivation@)) {
                Ok(path) => r is Ok && final(self)@ == old(self)@.cleared(key@).registered(
                    key@,
                    path,
                ),
                Err(e) => r is Err && r->Err_0@ == e && final(self)@ == old(self)@.cleared(key@),
            },
            forall|path: Seq<u32>| #[trigger]
                path_map::path_text(path) == derivation@ ==> {
                    &&& r is Ok
                    &&& final(self)@ == old(self)@.cleared(key@).registered(key@, path)
                },
    {
        self.clear_cached_public_key(&key);
        self.register_path(key, derivation)
    }

    /// Caches a public key with its fingerprint. Without a fingerprint nothing changes.
    pub fn cache_public(
        &mut self,
        key: &Key,
        mk: Multikey,
        fingerprint: Result<Vec<u8>, Error>,
    ) -> (r: Result<(), Error>)
        ensures
            match error::outcome(fingerprint) {
                Ok(fp) => r is Ok && final(self)@ == old(self)@.with_cached(key@, mk@, fp),
                Err(e) => r is Err && r->Err_0@ == e && final(self)@ == old(self)@,
            },
    {
        let fp: Vec<u8> = match fingerprint {
            Ok(fp) => fp,
            Err(e) => {
                return Err(e);
            },
        };
        proof {
            table::lemma_views_insert(self.pub_cache@, key@, mk);
            table::lemma_views_insert(self.fingerprints@, key@, fp);
        }
        self.fingerprints.insert(key.clone(), fp);
        self.pub_cache.insert(key.clone(), mk);
        Ok(())
    }

    /// How the public key of a key path is obtained.
    pub fn get_key(&self, key: &Key, codec: &Codec) -> (r: Result<KeyRequest, Error>)
        ensures
            error::outcome(r) == self@.key_request(key@, codec@),
    {
        match convert::require_secp256k1_priv(codec) {
            Ok(()) => {},
            Err(e) => {
                return Err(e);
            },
        }
        match self.cached_public_key(key) {
            Some(mk) => Ok(KeyRequest::Cached(mk)),
            None => match self.path_map.require(key) {
                Ok(path) => Ok(KeyRequest::Export(path)),
                Err(e) => Err(e),
            },
        }
    }

    /// Takes over the public key that the card exported for a key path, and caches it.
    pub fn accept_export(
        &mut self,
        key: &Key,
        exported: Result<Multikey, Error>,
        fingerprint: Result<Vec<u8>, Error>,
    ) -> (r: Result<Multikey, Error>)
        ensures
            error::outcome(r) == exported_key(error::outcome(exported), error::outcome(fingerprint)),
            match r {
                Ok(mk) => final(self)@ == old(self)@.with_cached(
                    key@,
                    mk@,
                    error::outcome(fingerprint)->Ok_0,
                ),
                Err(_) => final(self)@ == old(self)@,
            },
    {
        let mk: Multikey = match exported {
            Ok(mk) => mk,
            Err(e) => {
                return Err(e);
            },
        };
        match self.cache_public(key, mk.clone(), fingerprint) {
            Ok(()) => Ok(mk),
            Err(e) => Err(e),
        }
    }

    /// What the card has to sign for `key` to sign `data`.
    pub fn signing_request(&self, key: &Key, data: &[u8]) -> (r: Result<SignRequest, Error>)
        ensures
            error::outcome(r) == self@.sign_request(key@, data@),
    {
        match self.path_map.require(key) {
            Ok(path) => Ok(SignRequest { path, prehash: convert::sha256_prehash(data) }),
            Err(e) => Err(e),
        }
    }

    /// Takes over a signature that the card made for `key`. `verified` is whether it verifies
    /// with the cached public key; without one it is not consulted.
    pub fn accept_signature(
        &self,
        key: &Key,
        signature: Result<Multisig, Error>,
        verified: Result<(), String>,
    ) -> (r: Result<Multisig, Error>)
        ensures
            error::outcome(r) == checked_signature(
                self@.cached_key(key@),
                error::outcome(signature),
                check_view(verified),
            ),
    {
        let sig: Multisig = match signature {
            Ok(sig) => sig,
            Err(e) => {
                return Err(e);
            },
        };
        match self.pub_cache.get(key) {
            Some(_) => match verified {
                Ok(()) => Ok(sig),
                Err(reason) => Err(Error::Multikey(reason)),
            },
            None => Ok(sig),
        }
    }
}

/// The public key that a card's export holds, or why there is none.
pub open spec fn export_bytes(exported: Result<Option<Seq<u8>>, Seq<char>>) -> Result<
    Seq<u8>,
    ErrorView,
> {
    match exported {
        Ok(Some(bytes)) => Ok(bytes),
        Ok(None) => Err(ErrorView::UnexpectedExport("missing public key in export"@)),
        Err(reason) => Err(ErrorView::Keycard(reason)),
    }
}

/// Takes over a card's export, which has to hold a public key.
pub fn exported_public_key(exported: Result<Option<Vec<u8>>, String>) -> (r: Result<
    Vec<u8>,
    Error,
>)
    ensures
        error::outcome(r) == export_bytes(
            match exported {
                Ok(bytes) => Ok(model::opt(bytes)),
                Err(reason) => Err(reason@),
            },
        ),
{
    match exported {
        Ok(Some(bytes)) => Ok(bytes),
        Ok(None) => Err(Error::UnexpectedExport("missing public key in export".to_owned())),
        Err(reason) => Err(Error::Keycard(reason)),
    }
}

/// The public key of a software ephemeral, or why there is none: the codec has to be supported,
/// then the key has to be generated.
pub open spec fn ephemeral_key(
    codec: CodecView,
    generated: Result<MultikeyView, Seq<char>>,
) -> Result<MultikeyView, ErrorView> {
    match convert::codec_fault(codec) {
        Some(e) => Err(e),
        None => convert::multikey_result(generated),
    }
}

/// Admits a software ephemeral. `generated` is the public key of the key pair that was generated
/// for the codec.
pub fn prepare_ephemeral(codec: &Codec, generated: Result<Multikey, String>) -> (r: Result<
    Multikey,
    Error,
>)
    ensures
        error::outcome(r) == ephemeral_key(codec@, model::fallible(generated)),
{
    match convert::require_secp256k1_priv(codec) {
        Ok(()) => match generated {
            Ok(mk) => Ok(mk),
            Err(reason) => Err(Error::Multikey(reason)),
        },
        Err(e) => Err(e),
    }
}

/// A rebound key is exported anew, from the path it was rebound to.
pub proof fn law_rebound_key_is_exported_anew<S>(
    wallet: KeycardWalletView<S>,
    key: Seq<char>,
    path: Seq<u32>,
)
    ensures
        wallet.cleared(key).registered(key, path).key_request(key, CodecView::Secp256K1Priv) == Ok::<
            KeyRequestView,
            ErrorView,
        >(KeyRequestView::Export(path)),
{
}

/// An exported key is handed out from then on, without the card.
pub proof fn law_exported_key_is_cached<S>(
    wallet: KeycardWalletView<S>,
    key: Seq<char>,
    mk: MultikeyView,
    fingerprint: Seq<u8>,
)
    ensures
        wallet.with_cached(key, mk, fingerprint).key_request(key, CodecView::Secp256K1Priv) == Ok::<
            KeyRequestView,
            ErrorView,
        >(KeyRequestView::Cached(mk)),
{
}

/// What is done to one key leaves all other keys as they were.
pub proof fn law_other_keys_are_untouched<S>(
    wallet: KeycardWalletView<S>,
    key: Seq<char>,
    path: Seq<u32>,
    mk: MultikeyView,
    fingerprint: Seq<u8>,
    other: Seq<char>,
    codec: CodecView,
)
    requires
        other != key,
    ensures
        wallet.registered(key, path).key_request(other, codec) == wallet.key_request(other, codec),
        wallet.cleared(key).key_request(other, codec) == wallet.key_request(other, codec),
        wallet.with_cached(key, mk, fingerprint).key_request(other, codec) == wallet.key_request(
            other,
            codec,
        ),
{
}

/// A key that is not registered is neither exported nor signed with, whatever is asked.
pub proof fn law_unregistered_key_is_refused<S>(
    wallet: KeycardWalletView<S>,
    key: Seq<char>,
    data: Seq<u8>,
)
    requires
        !wallet.paths.contains_key(key),
        !wallet.cached.contains_key(key),
    ensures
        wallet.key_request(key, CodecView::Secp256K1Priv) == Err::<KeyRequestView, ErrorView>(
            ErrorView::PathNotRegistered(key),
        ),
        wallet.sign_request(key, data) == Err::<SignRequestView, ErrorView>(
            ErrorView::PathNotRegistered(key),
        ),
{
}

/// Every operation keeps fingerprints and cached keys together.
pub proof fn law_cache_stays_consistent<S>(
    wallet: KeycardWalletView<S>,
    key: Seq<char>,
    path: Seq<u32>,
    mk: MultikeyView,
    fingerprint: Seq<u8>,
)
    requires
        wallet.consistent(),
    ensures
        KeycardWalletView::fresh(wallet.session, wallet.paths).consistent(),
        wallet.registered(key, path).consistent(),
        wallet.cleared(key).consistent(),
        wallet.with_cached(key, mk, fingerprint).consistent(),
{
    assert(KeycardWalletView::fresh(wallet.session, wallet.paths).cached.dom() =~= Set::empty());
    assert(wallet.cleared(key).cached.dom() =~= wallet.cleared(key).fingerprints.dom());
    assert(wallet.with_cached(key, mk, fingerprint).cached.dom() =~= wallet.with_cached(
        key,
        mk,
        fingerprint,
    ).fingerprints.dom());
}

/// Only secp256k1 keys are handed out or made, cached ones included.
pub proof fn law_other_codecs_are_refused<S>(
    wallet: KeycardWalletView<S>,
    key: Seq<char>,
    name: Seq<char>,
    generated: Result<MultikeyView, Seq<char>>,
)
    ensures
        wallet.key_request(key, CodecView::Other(name)) == Err::<KeyRequestView, ErrorView>(
            ErrorView::UnsupportedCodec(name),
        ),
        ephemeral_key(CodecView::Other(name), generated) == Err::<MultikeyView, ErrorView>(
            ErrorView::UnsupportedCodec(name),
        ),
{
}

/// The card is asked to sign the SHA-256 digest of the data, once, at the path that is registered
/// for the key. Nothing else that the wallet holds has a say in it, cached keys least of all.
pub proof fn law_card_signs_the_digest<S>(
    wallet: KeycardWalletView<S>,
    other: KeycardWalletView<S>,
    key: Seq<char>,
    data: Seq<u8>,
)
    ensures
        wallet.paths.contains_key(key) ==> {
            &&& wallet.sign_request(key, data) is Ok
            &&& wallet.sign_request(key, data)->Ok_0.path == wallet.paths[key]
            &&& wallet.sign_request(key, data)->Ok_0.prehash == convert::sha256(data)
        },
        !wallet.paths.contains_key(key) ==> wallet.sign_request(key, data) == Err::<
            SignRequestView,
            ErrorView,
        >(ErrorView::PathNotRegistered(key)),
        wallet.paths == other.paths ==> wallet.sign_request(key, data) == other.sign_request(
            key,
            data,
        ),
{
}

/// A public key comes from the cache if it is there, whether or not it is registered; else from
/// the card, at the registered path; else not at all. Only secp256k1 is served.
pub proof fn law_where_keys_come_from<S>(
    wallet: KeycardWalletView<S>,
    key: Seq<char>,
    name: Seq<char>,
)
    ensures
        wallet.cached.contains_key(key) ==> wallet.key_request(
            key,
            CodecView::Secp256K1Priv,
        ) == Ok::<KeyRequestView, ErrorView>(KeyRequestView::Cached(wallet.cached[key])),
        !wallet.cached.contains_key(key) && wallet.paths.contains_key(key) ==> wallet.key_request(
            key,
            CodecView::Secp256K1Priv,
        ) == Ok::<KeyRequestView, ErrorView>(KeyRequestView::Export(wallet.paths[key])),
        !wallet.cached.contains_key(key) && !wallet.paths.contains_key(key) ==> wallet.key_request(
            key,
            CodecView::Secp256K1Priv,
        ) == Err::<KeyRequestView, ErrorView>(ErrorView::PathNotRegistered(key)),
        wallet.key_request(key, CodecView::Other(name)) == Err::<KeyRequestView, ErrorView>(
            ErrorView::UnsupportedCodec(name),
        ),
        wallet.cached.contains_key(key) ==> wallet.cached_key(key) == Some(wallet.cached[key]),
        !wallet.cached.contains_key(key) ==> wallet.cached_key(key) is None,
{
}

/// Registering changes the path of one key, clearing drops one public key with its fingerprint,
/// caching stores one of each; whatever is not named stays as it is.
pub proof fn law_wallet_changes<S>(
    wallet: KeycardWalletView<S>,
    key: Seq<char>,
    path: Seq<u32>,
    mk: MultikeyView,
    fingerprint: Seq<u8>,
)
    ensures
        wallet.registered(key, path).session == wallet.session,
        wallet.registered(key, path).paths == wallet.paths.insert(key, path),
        wallet.registered(key, path).cached == wallet.cached,
        wallet.registered(key, path).fingerprints == wallet.fingerprints,
        wallet.cleared(key).session == wallet.session,
        wallet.cleared(key).paths == wallet.paths,
        wallet.cleared(key).cached == wallet.cached.remove(key),
        wallet.cleared(key).fingerprints == wallet.fingerprints.remove(key),
        wallet.with_cached(key, mk, fingerprint).session == wallet.session,
        wallet.with_cached(key, mk, fingerprint).paths == wallet.paths,
        wallet.with_cached(key, mk, fingerprint).cached == wallet.cached.insert(key, mk),
        wallet.with_cached(key, mk, fingerprint).fingerprints == wallet.fingerprints.insert(
            key,
            fingerprint,
        ),
        KeycardWalletView::fresh(wallet.session, wallet.paths).session == wallet.session,
        KeycardWalletView::fresh(wallet.session, wallet.paths).paths == wallet.paths,
        KeycardWalletView::fresh(wallet.session, wallet.paths).cached == Map::<
            Seq<char>,
            MultikeyView,
        >::empty(),
        KeycardWalletView::fresh(wallet.session, wallet.paths).fingerprints == Map::<
            Seq<char>,
            Seq<u8>,
        >::empty(),
        wallet.consistent() <==> wallet.cached.dom() == wallet.fingerprints.dom(),
{
}

/// A signature is handed out as the card made it, unless it failed, or the cached public key does
/// not verify it. Without a cached key it is not checked.
pub proof fn law_signatures_are_checked(
    cached: Option<MultikeyView>,
    mk: MultikeyView,
    sig: MultisigView,
    verified: Result<(), Seq<char>>,
    e: ErrorView,
    reason: Seq<char>,
)
    ensures
        checked_signature(cached, Err(e), verified) == Err::<MultisigView, ErrorView>(e),
        checked_signature(Some(mk), Ok(sig), Ok(())) == Ok::<MultisigView, ErrorView>(sig),
        checked_signature(Some(mk), Ok(sig), Err(reason)) == Err::<MultisigView, ErrorView>(
            ErrorView::Multikey(reason),
        ),
        checked_signature(None, Ok(sig), verified) == Ok::<MultisigView, ErrorView>(sig),
{
}

/// An export hands out the key that the card exported, if both the export and its fingerprint
/// succeed; the export's failure comes first. A card that exports nothing, or fails, is told.
pub proof fn law_exports(
    mk: MultikeyView,
    fingerprint: Result<Seq<u8>, ErrorView>,
    fp: Seq<u8>,
    e: ErrorView,
    bytes: Seq<u8>,
    reason: Seq<char>,
)
    ensures
        exported_key(Ok(mk), Ok(fp)) == Ok::<MultikeyView, ErrorView>(mk),
        exported_key(Ok(mk), Err(e)) == Err::<MultikeyView, ErrorView>(e),
        exported_key(Err(e), fingerprint) == Err::<MultikeyView, ErrorView>(e),
        export_bytes(Ok(Some(bytes))) == Ok::<Seq<u8>, ErrorView>(bytes),
        export_bytes(Ok(None)) == Err::<Seq<u8>, ErrorView>(
            ErrorView::UnexpectedExport("missing public key in export"@),
        ),
        export_bytes(Err(reason)) == Err::<Seq<u8>, ErrorView>(ErrorView::Keycard(reason)),
{
}

/// A software ephemeral is the key that was generated for secp256k1, or the failure to generate
/// it.
pub proof fn law_ephemerals(mk: MultikeyView, reason: Seq<char>, verdict: String)
    ensures
        ephemeral_key(CodecView::Secp256K1Priv, Ok(mk)) == Ok::<MultikeyView, ErrorView>(mk),
        ephemeral_key(CodecView::Secp256K1Priv, Err(reason)) == Err::<MultikeyView, ErrorView>(
            ErrorView::Multikey(reason),
        ),
        check_view(Ok(())) is Ok,
        check_view(Err(verdict)) == Err::<(), Seq<char>>(verdict@),
{
}

/// The fields of a request are its values.
pub proof fn law_request_values(r: SignRequest, mk: Multikey, path: DerivationPath)
    ensures
        r@.path == r.path@ && r@.prehash == r.prehash@,
        KeyRequest::Cached(mk)@ == KeyRequestView::Cached(mk@),
        KeyRequest::Export(path)@ == KeyRequestView::Export(path@),
        path@ == path.components@,
{
}

}
