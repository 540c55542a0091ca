//! Key paths of the log, mapped to BIP32 derivation paths on the card.

use crate::config;
use crate::error;
use crate::error::{Error, ErrorView};
use crate::key::Key;
use crate::model;
use crate::table;
use crate::table::Table;
use crate::text;
use vstd::prelude::*;
use vstd::string::*;

verus! {

/// Default BIP32 path of the long-lived advertised `/pubkey` on a Keycard.
pub const DEFAULT_PUBKEY_PATH: &'static str = "m/44'/60'/0'/0/0";

/// The components from which on a component is hardened.
pub const HARDENED: u32 = 0x8000_0000;

/// BIP32 derivation path.
#[derive(Debug, PartialEq, Eq)]
pub struct DerivationPath {
    /// Child numbers from the root; hardened ones have the highest bit set.
    pub components: Vec<u32>,
}

impl View for DerivationPath {
    type V = Seq<u32>;

    open spec fn view(&self) -> Seq<u32> {
        self.components@
    }
}

impl Clone for DerivationPath {
    fn clone(&self) -> (r: DerivationPath)
        ensures
            r@ == self@,
    {
        let mut components: Vec<u32> = Vec::new();
        let mut i: usize = 0;
        while i < self.components.len()
            invariant
                i <= self.components.len(),
                components@ == self.components@.take(i as int),
            decreases self.components.len() - i,
        {
            components.push(self.components[i]);
            i = i + 1;
        }
        assert(self.components@.take(i as int) =~= self.components@);
        DerivationPath { components }
    }
}

/// A path component as text: its index, and an apostrophe if it is hardened.
pub open spec fn component_text(c: u32) -> Seq<char> {
    if c >= HARDENED {
        text::decimal((c - HARDENED) as nat) + "'"@
    } else {
        text::decimal(c as nat)
    }
}

/// The canonical text of a derivation path.
pub open spec fn path_text(path: Seq<u32>) -> Seq<char>
    decreases path.len(),
{
    if path.len() == 0 {
        "m"@
    } else {
        path_text(path.drop_last()) + "/"@ + component_text(path.last())
    }
}

/// What `bip32::DerivationPath::from_str` makes of a text: the child numbers, or the text of its
/// error.
pub uninterp spec fn bip32_parsed(s: Seq<char>) -> Result<Seq<u32>, Seq<char>>;

/// Calls `bip32::DerivationPath::from_str`. Its result depends on the text alone, and the
/// canonical text of a path parses to that path; which other texts parse, and to what, is left
/// to the name.
#[verifier::external_body]
fn bip32_parse(s: &str) -> (r: Result<DerivationPath, String>)
    ensures
        model::fallible(r) == bip32_parsed(s@),
        forall|path: Seq<u32>| #[trigger]
            path_text(path) == s@ ==> r is Ok && r->Ok_0@ == path,
{
    match s.parse::<bip32::DerivationPath>() {
        Ok(p) => Ok(DerivationPath { components: p.iter().map(u32::from).collect() }),
        Err(e) => Err(e.to_string()),
    }
}

/// Calls the `Display` impl of `bip32::DerivationPath`, which writes `m` and, for each child
/// number, a slash, its index in decimal and an apostrophe if it is hardened.
#[verifier::external_body]
fn bip32_text(path: &DerivationPath) -> (r: String)
    ensures
        r@ == path_text(path@),
{
    let mut p = bip32::DerivationPath::default();
    p.extend(path.components.iter().copied().map(bip32::ChildNumber));
    p.to_string()
}

impl DerivationPath {
    /// The canonical text of the path.
    pub fn text(&self) -> (r: String)
        ensures
            r@ == path_text(self@),
    {
        bip32_text(self)
    }
}

/// A parsed derivation path, or the error for a text that is none.
pub open spec fn derivation(parsed: Result<Seq<u32>, Seq<char>>) -> Result<Seq<u32>, ErrorView> {
    match parsed {
        Ok(p) => Ok(p),
        Err(reason) => Err(ErrorView::Derivation(reason)),
    }
}

/// Parses a BIP32 derivation path.
pub fn parse_derivation_path(s: &str) -> (r: Result<DerivationPath, Error>)
    ensures
        error::outcome(r) == derivation(bip32_parsed(s@)),
        forall|path: Seq<u32>| #[trigger]
            path_text(path) == s@ ==> r is Ok && r->Ok_0@ == path,
{
    derivation_from(bip32_parse(s))
}

/// Takes over a parsed derivation path; a failure becomes a derivation error.
pub fn derivation_from(parsed: Result<DerivationPath, String>) -> (r: Result<DerivationPath, Error>)
    ensures
        error::outcome(r) == derivation(model::fallible(parsed)),
{
    match parsed {
        Ok(p) => Ok(p),
        Err(reason) => Err(Error::Derivation(reason)),
    }
}

/// The child numbers of the default derivation path.
pub open spec fn default_path() -> Seq<u32> {
    seq![
        (HARDENED + 44) as u32,
        (HARDENED + 60) as u32,
        HARDENED,
        0u32,
        0u32,
    ]
}

/// The text of the default derivation path is canonical.
pub proof fn lemma_default_path_text()
    ensures
        path_text(default_path()) == DEFAULT_PUBKEY_PATH@,
{
    reveal_strlit("m/44'/60'/0'/0/0");
    reveal_strlit("m");
    reveal_strlit("/");
    reveal_strlit("'");
    reveal_with_fuel(path_text, 6);
    reveal_with_fuel(text::decimal, 3);
    let p = default_path();
    assert(p.drop_last() =~= seq![
        (HARDENED + 44) as u32,
        (HARDENED + 60) as u32,
        HARDENED,
        0u32,
    ]);
    assert(p.drop_last().drop_last() =~= seq![
        (HARDENED + 44) as u32,
        (HARDENED + 60) as u32,
        HARDENED,
    ]);
    assert(p.drop_last().drop_last().drop_last() =~= seq![
        (HARDENED + 44) as u32,
        (HARDENED + 60) as u32,
    ]);
    assert(p.drop_last().drop_last().drop_last().drop_last() =~= seq![(HARDENED + 44) as u32]);
    assert(p.drop_last().drop_last().drop_last().drop_last().drop_last() =~= Seq::<u32>::empty());
    assert(text::digit_char(0) == '0');
    assert(text::digit_char(4) == '4');
    assert(text::digit_char(6) == '6');
    assert(text::decimal(44) =~= seq!['4', '4']);
    assert(text::decimal(60) =~= seq!['6', '0']);
    assert(text::decimal(0) =~= seq!['0']);
    assert(path_text(p) =~= DEFAULT_PUBKEY_PATH@);
}

/// Map from key paths of the log to BIP32 derivation paths.
pub struct PathMap {
    inner: Table<Key, DerivationPath>,
}

impl View for PathMap {
    type V = Map<Seq<char>, Seq<u32>>;

    closed spec fn view(&self) -> Map<Seq<char>, Seq<u32>> {
        table::item_views(self.inner@)
    }
}

/// The path that a map holds for a key, or the error for an unregistered key.
pub open spec fn required_path(
    paths: Map<Seq<char>, Seq<u32>>,
    key: Seq<char>,
) -> Result<Seq<u32>, ErrorView> {
    if paths.contains_key(key) {
        Ok(paths[key])
    } else {
        Err(ErrorView::PathNotRegistered(key))
    }
}

/// The derivation text that is meant when `chosen` is given, or is not.
pub open spec fn derivation_or_default(chosen: Option<Seq<char>>) -> Seq<char> {
    match chosen {
        Some(s) => s,
        None => DEFAULT_PUBKEY_PATH@,
    }
}

impl PathMap {
    /// The empty map.
    pub fn new() -> (r: PathMap)
        ensures
            r@ == Map::<Seq<char>, Seq<u32>>::empty(),
    {
        proof {
            table::lemma_views_empty::<Seq<char>, DerivationPath>();
        }
        PathMap { inner: Table::new() }
    }

    /// A map with `/pubkey` registered at the given derivation, or at the default one.
    pub fn with_default_pubkey(default_derivation: Option<&str>) -> (r: Result<PathMap, Error>)
        ensures
            match derivation(bip32_parsed(derivation_or_default(model::opt(default_derivation)))) {
                Ok(path) => r is Ok && r->Ok_0@ == Map::<Seq<char>, Seq<u32>>::empty().insert(
                    "/pubkey"@,
                    path,
                ),
                Err(e) => r is Err && r->Err_0@ == e,
            },
            default_derivation is None ==> r is Ok && r->Ok_0@ == Map::<
                Seq<char>,
                Seq<u32>,
            >::empty().insert("/pubkey"@, default_path()),
    {
        let chosen: &str = match default_derivation {
            Some(s) => s,
            None => DEFAULT_PUBKEY_PATH,
        };
        proof {
            lemma_default_path_text();
        }
        let path: DerivationPath = match parse_derivation_path(chosen) {
            Ok(p) => p,
            Err(e) => {
                return Err(e);
            },
        };
        let mut map: PathMap = PathMap::new();
        map.register(config::pubkey_key_path(), path);
        Ok(map)
    }

    /// Registers a derivation path for a key, in place of one that was there.
    pub fn register(&mut self, key: Key, path: DerivationPath)
        ensures
            final(self)@ == old(self)@.insert(key@, path@),
    {
        proof {
            table::lemma_views_insert(self.inner@, key@, path);
        }
        self.inner.insert(key, path);
    }

    /// Registers a derivation path given as text. A text that does not parse changes nothing.
    pub fn register_str(&mut self, key: Key, path: &str) -> (r: Result<(), Error>)
        ensures
            match derivation(bip32_parsed(path@)) {
                Ok(p) => r is Ok && final(self)@ == old(self)@.insert(key@, p),
                Err(e) => r is Err && r->Err_0@ == e && final(self)@ == old(self)@,
            },
            forall|p: Seq<u32>| #[trigger]
                path_text(p) == path@ ==> r is Ok && final(self)@ == old(self)@.insert(key@, p),
    {
        match parse_derivation_path(path) {
            Ok(p) => {
                self.register(key, p);
                Ok(())
            },
            Err(e) => Err(e),
        }
    }

    /// The derivation path of a key, if one is registered.
    pub fn get(&self, key: &Key) -> (r: Option<DerivationPath>)
        ensures
            model::opt(r) == (if self@.contains_key(key@) {
                Some(self@[key@])
            } else {
                None
            }),
    {
        match self.inner.get(key) {
            Some(p) => Some(p.clone()),
            None => None,
        }
    }

    /// The derivation path of a key, which has to be registered.
    pub fn require(&self, key: &Key) -> (r: Result<DerivationPath, Error>)
        ensures
            error::outcome(r) == required_path(self@, key@),
    {
        match self.get(key) {
            Some(p) => Ok(p),
            None => Err(Error::PathNotRegistered(key.as_str().to_owned())),
        }
    }

    /// Removes the registration of a key; returns the path that was registered.
    pub fn remove(&mut self, key: &Key) -> (r: Option<DerivationPath>)
        ensures
            final(self)@ == old(self)@.remove(key@),
            model::opt(r) == (if old(self)@.contains_key(key@) {
                Some(old(self)@[key@])
            } else {
                None
            }),
    {
        proof {
            table::lemma_views_remove(self.inner@, key@);
        }
        self.inner.remove(key)
    }

    /// The number of registered keys.
    pub fn len(&self) -> (r: usize)
        ensures
            self@.dom().finite(),
            r == self@.dom().len(),
    {
        assert(self@.dom() =~= self.inner@.dom());
        self.inner.len()
    }

    /// Whether no key is registered.
    pub fn is_empty(&self) -> (r: bool)
        ensures
            r == (self@ == Map::<Seq<char>, Seq<u32>>::empty()),
    {
        let n: usize = self.len();
        proof {
            if n == 0 {
                assert(self@.dom() =~= Set::empty());
                assert(self@ =~= Map::<Seq<char>, Seq<u32>>::empty());
            }
        }
        n == 0
    }
}

/// A registered path is found, a removed one is not, and neither touches other keys.
pub proof fn law_registration(
    paths: Map<Seq<char>, Seq<u32>>,
    key: Seq<char>,
    path: Seq<u32>,
    other: Seq<char>,
)
    requires
        other != key,
    ensures
        required_path(paths.insert(key, path), key) == Ok::<Seq<u32>, ErrorView>(path),
        required_path(paths.remove(key), key) == Err::<Seq<u32>, ErrorView>(
            ErrorView::PathNotRegistered(key),
        ),
        required_path(paths.insert(key, path), other) == required_path(paths, other),
        required_path(paths.remove(key), other) == required_path(paths, other),
{
}

/// The text of a derivation path is `m`, then for each child number a slash and its index in
/// decimal, with an apostrophe behind it if the number is hardened.
pub proof fn law_path_texts(path: Seq<u32>, index: u32)
    requires
        index < 2147483648,
    ensures
        HARDENED == 2147483648,
        path_text(Seq::empty()) == seq!['m'],
        path_text(path.push(index)) == path_text(path) + seq!['/'] + text::decimal(index as nat),
        path_text(path.push((index + 2147483648) as u32)) == path_text(path) + seq!['/']
            + text::decimal(index as nat) + seq!['\''],
        component_text(index) == text::decimal(index as nat),
        component_text((index + 2147483648) as u32) == text::decimal(index as nat) + seq!['\''],
{
    reveal_strlit("m");
    reveal_strlit("/");
    reveal_strlit("'");
    assert("m"@ =~= seq!['m']);
    assert("/"@ =~= seq!['/']);
    assert("'"@ =~= seq!['\'']);
    let hard = (index + 2147483648) as u32;
    assert(path.push(index).drop_last() =~= path);
    assert(path.push(hard).drop_last() =~= path);
    assert(path_text(path.push(hard)) =~= path_text(path) + seq!['/'] + text::decimal(
        index as nat,
    ) + seq!['\'']);
}

/// The default derivation path is that of the first Ethereum account.
pub proof fn law_default_derivation()
    ensures
        DEFAULT_PUBKEY_PATH@ == "m/44'/60'/0'/0/0"@,
        default_path() == seq![2147483692u32, 2147483708u32, 2147483648u32, 0u32, 0u32],
        derivation_or_default(None) == "m/44'/60'/0'/0/0"@,
{
    assert(default_path() =~= seq![2147483692u32, 2147483708u32, 2147483648u32, 0u32, 0u32]);
}

/// A chosen derivation is used, a parsed path passes, and a failure to parse keeps its words. A
/// key has the path that is registered for it, and no other.
pub proof fn law_derivations(
    chosen: Seq<char>,
    path: Seq<u32>,
    reason: Seq<char>,
    paths: Map<Seq<char>, Seq<u32>>,
    key: Seq<char>,
)
    ensures
        derivation_or_default(Some(chosen)) == chosen,
        derivation(Ok(path)) == Ok::<Seq<u32>, ErrorView>(path),
        derivation(Err(reason)) == Err::<Seq<u32>, ErrorView>(ErrorView::Derivation(reason)),
        paths.contains_key(key) ==> required_path(paths, key) == Ok::<Seq<u32>, ErrorView>(
            paths[key],
        ),
        !paths.contains_key(key) ==> required_path(paths, key) == Err::<Seq<u32>, ErrorView>(
            ErrorView::PathNotRegistered(key),
        ),
{
}

}
