//! In-process cache of accounts, keyed by VLAD hash.
//!
//! Callers address an account by the VLAD that its text decodes to. Two texts of the same VLAD
//! address the same account, because the key is the hash of the canonical text.

use crate::encoding;
use crate::error;
use crate::error::{Error, ErrorView};
use crate::model;
use crate::plog::Vlad;
use crate::table::Table;
use crate::vlad_hash;
use vstd::prelude::*;
use vstd::string::*;

verus! {

/// Cache key: SHA-256 of the canonical multibase VLAD.
pub type VladHash = [u8; 32];

/// Cache of accounts keyed by [`VladHash`].
pub struct AccountCache<A> {
    entries: Table<VladHash, A>,
}

/// The first sixteen hexadecimal digits of a hash.
pub open spec fn short_hex(hash: Seq<u8>) -> Seq<char> {
    encoding::hex_text(hash).take(16)
}

/// The cache key of a decoded VLAD text, or why the text was rejected.
pub open spec fn cache_key(vlad: Result<Seq<char>, Seq<char>>) -> Result<Seq<u8>, ErrorView> {
    match vlad {
        Ok(v) => Ok(vlad_hash::vlad_text_hash(v)),
        Err(reason) => Err(ErrorView::Encoding(reason)),
    }
}

/// The error for an account that the cache does not hold.
pub open spec fn not_cached(hash: Seq<u8>) -> ErrorView {
    ErrorView::AccountNotCached(short_hex(hash))
}

/// The account under a hash, or the error for a missing one.
pub open spec fn lookup<A>(accounts: Map<Seq<u8>, A>, hash: Seq<u8>) -> Result<A, ErrorView> {
    if accounts.contains_key(hash) {
        Ok(accounts[hash])
    } else {
        Err(not_cached(hash))
    }
}

/// The account of a decoded VLAD text, or why there is none.
pub open spec fn lookup_vlad<A>(
    accounts: Map<Seq<u8>, A>,
    vlad: Result<Seq<char>, Seq<char>>,
) -> Result<A, ErrorView> {
    match cache_key(vlad) {
        Ok(hash) => lookup(accounts, hash),
        Err(e) => Err(e),
    }
}

impl<A> View for AccountCache<A> {
    type V = Map<Seq<u8>, A>;

    closed spec fn view(&self) -> Map<Seq<u8>, A> {
        self.entries@
    }
}

impl<A> AccountCache<A> {
    /// An empty cache.
    pub fn new() -> (r: AccountCache<A>)
        ensures
            r@ == Map::<Seq<u8>, A>::empty(),
    {
        AccountCache { entries: Table::new() }
    }

    /// The number of cached accounts.
    pub fn len(&self) -> (r: usize)
        ensures
            self@.dom().finite(),
            r == self@.dom().len(),
    {
        self.entries.len()
    }

    /// Whether the cache holds no account.
    pub fn is_empty(&self) -> (r: bool)
        ensures
            r == (self@ == Map::<Seq<u8>, A>::empty()),
    {
        let n: usize = self.len();
        proof {
            if n == 0 {
                assert(self@.dom() =~= Set::empty());
                assert(self@ =~= Map::<Seq<u8>, A>::empty());
            }
        }
        n == 0
    }

    /// The cache key of a VLAD text; `vlad` is what the text decodes to.
    pub fn key_from_multibase(vlad: Result<Vlad, String>) -> (r: Result<VladHash, Error>)
        ensures
            error::outcome(r) == cache_key(model::fallible(vlad)),
    {
        match vlad {
            Ok(v) => Ok(Self::key_from_vlad(&v)),
            Err(reason) => Err(Error::Encoding(reason)),
        }
    }

    /// The cache key of a VLAD.
    pub fn key_from_vlad(vlad: &Vlad) -> (r: VladHash)
        ensures
            r@ == vlad_hash::vlad_text_hash(vlad@),
    {
        vlad_hash::vlad_hash(vlad)
    }

    /// Short hex prefix of a hash, for error messages.
    pub fn hash_hex_short(key: &VladHash) -> (r: String)
        ensures
            r@ == short_hex(key@),
    {
        let full: String = encoding::encode_hex(key.as_slice());
        let short: &str = full.as_str().substring_char(0, 16);
        assert(short@ == full@.take(16));
        short.to_owned()
    }

    /// Stores an account under its VLAD, in place of one that was there.
    pub fn insert(&mut self, vlad: Result<Vlad, String>, account: A) -> (r: Result<(), Error>)
        ensures
            match (r, cache_key(model::fallible(vlad))) {
                (Ok(()), Ok(hash)) => final(self)@ == old(self)@.insert(hash, account),
                (Err(e), Err(fault)) => e@ == fault && final(self)@ == old(self)@,
                _ => false,
            },
    {
        match Self::key_from_multibase(vlad) {
            Ok(key) => {
                self.insert_by_hash(key, account);
                Ok(())
            },
            Err(e) => Err(e),
        }
    }

    /// Stores an account under a hash, in place of one that was there.
    pub fn insert_by_hash(&mut self, key: VladHash, account: A)
        ensures
            final(self)@ == old(self)@.insert(key@, account),
    {
        self.entries.insert(key, account);
    }

    /// The account of a VLAD.
    pub fn get(&self, vlad: Result<Vlad, String>) -> (r: Result<&A, Error>)
        ensures
            match (r, lookup_vlad(self@, model::fallible(vlad))) {
                (Ok(a), Ok(account)) => *a == account,
                (Err(e), Err(fault)) => e@ == fault,
                _ => false,
            },
    {
        match Self::key_from_multibase(vlad) {
            Ok(key) => self.get_by_hash(&key),
            Err(e) => Err(e),
        }
    }

    /// The account under a hash.
    pub fn get_by_hash(&self, key: &VladHash) -> (r: Result<&A, Error>)
        ensures
            match (r, lookup(self@, key@)) {
                (Ok(a), Ok(account)) => *a == account,
                (Err(e), Err(fault)) => e@ == fault,
                _ => false,
            },
    {
        match self.entries.get(key) {
            Some(a) => Ok(a),
            None => Err(Error::AccountNotCached(Self::hash_hex_short(key))),
        }
    }

    /// Whether the account of a VLAD is cached.
    pub fn contains(&self, vlad: Result<Vlad, String>) -> (r: Result<bool, Error>)
        ensures
            match (r, cache_key(model::fallible(vlad))) {
                (Ok(b), Ok(hash)) => b == self@.contains_key(hash),
                (Err(e), Err(fault)) => e@ == fault,
                _ => false,
            },
    {
        match Self::key_from_multibase(vlad) {
            Ok(key) => Ok(self.entries.contains(&key)),
            Err(e) => Err(e),
        }
    }

    /// Removes the account of a VLAD.
    pub fn remove(&mut self, vlad: Result<Vlad, String>) -> (r: Result<(), Error>)
        ensures
            match (r, lookup_vlad(old(self)@, model::fallible(vlad))) {
                (Ok(()), Ok(_)) => final(self)@ == old(self)@.remove(
                    cache_key(model::fallible(vlad))->Ok_0,
                ),
                (Err(e), Err(fault)) => e@ == fault && final(self)@ == old(self)@,
                _ => false,
            },
    {
        match Self::key_from_multibase(vlad) {
            Ok(key) => match self.take_by_hash(&key) {
                Ok(_) => Ok(()),
                Err(e) => Err(e),
            },
            Err(e) => Err(e),
        }
    }

    /// Takes the account under a hash out of the cache.
    pub fn take_by_hash(&mut self, key: &VladHash) -> (r: Result<A, Error>)
        ensures
            match (r, lookup(old(self)@, key@)) {
                (Ok(a), Ok(account)) => a == account && final(self)@ == old(self)@.remove(key@),
                (Err(e), Err(fault)) => e@ == fault && final(self)@ == old(self)@,
                _ => false,
            },
    {
        match self.entries.remove(key) {
            Some(a) => Ok(a),
            None => {
                assert(self@ =~= old(self)@);
                Err(Error::AccountNotCached(Self::hash_hex_short(key)))
            },
        }
    }

    /// Removes every account; returns how many there were.
    pub fn clear(&mut self) -> (r: usize)
        ensures
            r == old(self)@.dom().len(),
            final(self)@ == Map::<Seq<u8>, A>::empty(),
    {
        let n: usize = self.len();
        self.entries.clear();
        n
    }
}

/// An account that was stored is found, and a later one under the same VLAD takes its place.
pub proof fn law_stored_account_is_found<A>(
    accounts: Map<Seq<u8>, A>,
    vlad: Seq<char>,
    first: A,
    second: A,
)
    ensures
        ({
            let hash = vlad_hash::vlad_text_hash(vlad);
            let stored = accounts.insert(hash, first);
            &&& lookup_vlad(stored, Ok(vlad)) == Ok::<A, ErrorView>(first)
            &&& lookup_vlad(stored.insert(hash, second), Ok(vlad)) == Ok::<A, ErrorView>(second)
        }),
{
}

/// An account that was removed is not found, and removing it again fails the same way.
pub proof fn law_removed_account_is_missing<A>(accounts: Map<Seq<u8>, A>, vlad: Seq<char>)
    ensures
        ({
            let hash = vlad_hash::vlad_text_hash(vlad);
            lookup_vlad(accounts.remove(hash), Ok(vlad)) == Err::<A, ErrorView>(not_cached(hash))
        }),
{
}

/// Storing or removing one account leaves every account with another hash as it was.
pub proof fn law_other_accounts_are_untouched<A>(
    accounts: Map<Seq<u8>, A>,
    hash: Seq<u8>,
    account: A,
    other: Seq<u8>,
)
    requires
        other != hash,
    ensures
        lookup(accounts.insert(hash, account), other) == lookup(accounts, other),
        lookup(accounts.remove(hash), other) == lookup(accounts, other),
{
}

/// A cleared cache finds no account.
pub proof fn law_cleared_cache_is_empty<A>(hash: Seq<u8>)
    ensures
        lookup(Map::<Seq<u8>, A>::empty(), hash) == Err::<A, ErrorView>(not_cached(hash)),
{
}

/// Accounts are addressed by the SHA-256 of the canonical VLAD text: a text that decodes to a
/// VLAD finds what is stored under that hash, and a missing account is told by the first eight
/// bytes of the hash. A text that does not decode is refused in the decoder's words.
pub proof fn law_addressing<A>(
    accounts: Map<Seq<u8>, A>,
    vlad: Seq<char>,
    hash: Seq<u8>,
    reason: Seq<char>,
)
    requires
        hash == crate::convert::sha256(vstd::utf8::encode_utf8(vlad)),
    ensures
        cache_key(Ok(vlad)) == Ok::<Seq<u8>, ErrorView>(hash),
        cache_key(Err(reason)) == Err::<Seq<u8>, ErrorView>(ErrorView::Encoding(reason)),
        accounts.contains_key(hash) ==> lookup_vlad(accounts, Ok(vlad)) == Ok::<A, ErrorView>(
            accounts[hash],
        ),
        !accounts.contains_key(hash) ==> lookup_vlad(accounts, Ok(vlad)) == Err::<A, ErrorView>(
            ErrorView::AccountNotCached(encoding::hex_text(hash).subrange(0, 16)),
        ),
        lookup_vlad(accounts, Err(reason)) == Err::<A, ErrorView>(ErrorView::Encoding(reason)),
{
}

/// Under a hash there is what the cache holds, or the error that names the hash.
pub proof fn law_lookup<A>(accounts: Map<Seq<u8>, A>, hash: Seq<u8>)
    ensures
        accounts.contains_key(hash) ==> lookup(accounts, hash) == Ok::<A, ErrorView>(
            accounts[hash],
        ),
        !accounts.contains_key(hash) ==> lookup(accounts, hash) == Err::<A, ErrorView>(
            ErrorView::AccountNotCached(short_hex(hash)),
        ),
        not_cached(hash) == ErrorView::AccountNotCached(short_hex(hash)),
        short_hex(hash) == encoding::hex_text(hash).subrange(0, 16),
{
}

}
