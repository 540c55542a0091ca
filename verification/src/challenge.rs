//! Challenges of path updates that are signed elsewhere.

use crate::encoding;
use crate::entry_update::{NextEntry, NextEntryView, UnsignedUpdate, UnsignedUpdateView};
use crate::error::{Error, ErrorView};
use crate::key::Key;
use crate::table;
use vstd::prelude::*;
use vstd::string::*;

verus! {

/// How long a challenge remains valid: 15 minutes, in nanoseconds.
pub const CHALLENGE_TTL: u64 = 900_000_000_000;

/// Path update that awaits a signature.
#[derive(Debug, PartialEq, Eq)]
pub struct PendingPathUpdate {
    /// Head at the time it was prepared.
    pub head_cid: String,
    /// Entry to be signed.
    pub unsigned: UnsignedUpdate,
    /// When it was prepared, in nanoseconds of a monotonic clock.
    pub created_at: u64,
}

/// A [`PendingPathUpdate`] as a mathematical value.
#[verifier::ext_equal]
pub struct PendingPathUpdateView {
    pub head_cid: Seq<char>,
    pub unsigned: UnsignedUpdateView,
    pub created_at: u64,
}

impl View for PendingPathUpdate {
    type V = PendingPathUpdateView;

    open spec fn view(&self) -> PendingPathUpdateView {
        PendingPathUpdateView {
            head_cid: self.head_cid@,
            unsigned: self.unsigned@,
            created_at: self.created_at,
        }
    }
}

/// What was prepared at `created_at` is still valid at `now`.
pub open spec fn is_live(created_at: u64, now: u64) -> bool {
    now - created_at < CHALLENGE_TTL
}

/// The challenges that are still valid at `now`.
pub open spec fn live(
    pending: Map<Seq<char>, PendingPathUpdateView>,
    now: u64,
) -> Map<Seq<char>, PendingPathUpdateView> {
    table::kept(pending, |p: PendingPathUpdateView| is_live(p.created_at, now))
}

/// Whether what was prepared at `created_at` is still valid at `now`.
pub fn still_live(created_at: u64, now: u64) -> (r: bool)
    ensures
        r == is_live(created_at, now),
{
    now < created_at || now - created_at < CHALLENGE_TTL
}

/// Path update that was checked and assembled, before it is serialized.
#[derive(Debug, PartialEq, Eq)]
pub struct PathUpdatePlan {
    /// Account, in multibase.
    pub vlad: String,
    /// Delegated branch.
    pub branch: Key,
    /// Key path of the key that has to sign.
    pub signing_key: Key,
    /// Head that the entry follows, in multibase.
    pub head_cid: String,
    /// Entry to be signed.
    pub entry: NextEntry,
}

/// A [`PathUpdatePlan`] as a mathematical value.
#[verifier::ext_equal]
pub struct PathUpdatePlanView {
    pub vlad: Seq<char>,
    pub branch: Seq<char>,
    pub signing_key: Seq<char>,
    pub head_cid: Seq<char>,
    pub entry: NextEntryView,
}

impl View for PathUpdatePlan {
    type V = PathUpdatePlanView;

    open spec fn view(&self) -> PathUpdatePlanView {
        PathUpdatePlanView {
            vlad: self.vlad@,
            branch: self.branch@,
            signing_key: self.signing_key@,
            head_cid: self.head_cid@,
            entry: self.entry@,
        }
    }
}

/// Challenge for an external signer.
#[derive(Debug, PartialEq, Eq)]
pub struct PathUpdateChallenge {
    /// Identifier to commit or cancel it by.
    pub challenge_id: String,
    /// Account, in multibase.
    pub vlad: String,
    /// Delegated branch.
    pub path: String,
    /// Key path that the signer must sign as.
    pub signing_key_path: String,
    /// Head when it was prepared; commit fails if the head moved.
    pub head_cid: String,
    /// Message to sign, in multibase.
    pub message_multibase: String,
    /// What the message is (`entry-bytes`).
    pub message_encoding: String,
}

/// A [`PathUpdateChallenge`] as a mathematical value.
#[verifier::ext_equal]
pub struct PathUpdateChallengeView {
    pub challenge_id: Seq<char>,
    pub vlad: Seq<char>,
    pub path: Seq<char>,
    pub signing_key_path: Seq<char>,
    pub head_cid: Seq<char>,
    pub message_multibase: Seq<char>,
    pub message_encoding: Seq<char>,
}

impl View for PathUpdateChallenge {
    type V = PathUpdateChallengeView;

    open spec fn view(&self) -> PathUpdateChallengeView {
        PathUpdateChallengeView {
            challenge_id: self.challenge_id@,
            vlad: self.vlad@,
            path: self.path@,
            signing_key_path: self.signing_key_path@,
            head_cid: self.head_cid@,
            message_multibase: self.message_multibase@,
            message_encoding: self.message_encoding@,
        }
    }
}

impl Clone for PathUpdateChallenge {
    fn clone(&self) -> (r: PathUpdateChallenge)
        ensures
            r@ == self@,
    {
        PathUpdateChallenge {
            challenge_id: self.challenge_id.clone(),
            vlad: self.vlad.clone(),
            path: self.path.clone(),
            signing_key_path: self.signing_key_path.clone(),
            head_cid: self.head_cid.clone(),
            message_multibase: self.message_multibase.clone(),
            message_encoding: self.message_encoding.clone(),
        }
    }
}

/// The challenge for a plan, under an identifier.
pub open spec fn challenge_for(
    id: Seq<char>,
    plan: PathUpdatePlanView,
    message: Seq<u8>,
) -> PathUpdateChallengeView {
    PathUpdateChallengeView {
        challenge_id: id,
        vlad: plan.vlad,
        path: plan.branch,
        signing_key_path: plan.signing_key,
        head_cid: plan.head_cid,
        message_multibase: encoding::multibase_base64url(message),
        message_encoding: "entry-bytes"@,
    }
}

/// What is kept of a plan until its signature arrives.
pub open spec fn pending_for(
    plan: PathUpdatePlanView,
    message: Seq<u8>,
    now: u64,
) -> PendingPathUpdateView {
    PendingPathUpdateView {
        head_cid: plan.head_cid,
        unsigned: UnsignedUpdateView { entry: plan.entry, message },
        created_at: now,
    }
}

/// An identifier of the form that challenges get: sixteen bytes in multibase.
pub open spec fn is_challenge_id(id: Seq<char>) -> bool {
    exists|bytes: Seq<u8>|
        bytes.len() == 16 && id == #[trigger] encoding::multibase_base64url(bytes)
}

/// Calls `rand_core::OsRng::try_fill_bytes` on sixteen bytes. Nothing is claimed of the bytes,
/// nor of when the system provides them.
#[verifier::external_body]
fn os_random() -> (r: Result<[u8; 16], String>) {
    let mut buf = [0u8; 16];
    match rand_core::RngCore::try_fill_bytes(&mut rand_core::OsRng, &mut buf) {
        Ok(()) => Ok(buf),
        Err(e) => Err(e.to_string()),
    }
}

/// A challenge identifier made of the given bytes.
pub fn challenge_id_from(random: Result<[u8; 16], String>) -> (r: Result<String, Error>)
    ensures
        match random {
            Ok(bytes) => r is Ok && r->Ok_0@ == encoding::multibase_base64url(bytes@),
            Err(reason) => r is Err && r->Err_0@ == ErrorView::Randomness(reason@),
        },
{
    match random {
        Ok(bytes) => Ok(encoding::encode_bytes_multibase(bytes.as_slice())),
        Err(reason) => Err(Error::Randomness(reason)),
    }
}

/// A random challenge identifier.
pub fn new_challenge_id() -> (r: Result<String, Error>)
    ensures
        match r {
            Ok(id) => is_challenge_id(id@),
            Err(e) => e@ is Randomness,
        },
{
    challenge_id_from(os_random())
}

/// A challenge is valid from the moment it was prepared, and no longer once its time is up.
pub proof fn law_challenge_lifetime(created_at: u64, now: u64)
    ensures
        is_live(created_at, created_at),
        now >= created_at + CHALLENGE_TTL <==> !is_live(created_at, now),
{
}

/// What has expired stays expired.
pub proof fn law_expiry_is_final(
    pending: Map<Seq<char>, PendingPathUpdateView>,
    id: Seq<char>,
    now: u64,
    later: u64,
)
    requires
        now <= later,
        !live(pending, now).contains_key(id),
    ensures
        !live(pending, later).contains_key(id),
{
}

/// A challenge lives for fifteen minutes.
pub proof fn law_fifteen_minutes()
    ensures
        CHALLENGE_TTL == 15 * 60 * 1_000_000_000,
{
}

/// The challenges that are left at a time are exactly those prepared less than fifteen minutes
/// before it, as they were.
pub proof fn law_live_challenges(
    pending: Map<Seq<char>, PendingPathUpdateView>,
    id: Seq<char>,
    now: u64,
)
    ensures
        live(pending, now).contains_key(id) <==> pending.contains_key(id) && now
            < pending[id].created_at + 900_000_000_000,
        live(pending, now).contains_key(id) ==> live(pending, now)[id] == pending[id],
{
}

/// A challenge tells its signer the account, the branch, the key to sign with, the head and the
/// bytes to sign; the same entry, bytes and head are kept until the signature arrives.
pub proof fn law_challenge_tells_the_plan(
    id: Seq<char>,
    plan: PathUpdatePlanView,
    message: Seq<u8>,
    now: u64,
)
    ensures
        challenge_for(id, plan, message).challenge_id == id,
        challenge_for(id, plan, message).vlad == plan.vlad,
        challenge_for(id, plan, message).path == plan.branch,
        challenge_for(id, plan, message).signing_key_path == plan.signing_key,
        challenge_for(id, plan, message).head_cid == plan.head_cid,
        challenge_for(id, plan, message).message_multibase == encoding::multibase_base64url(
            message,
        ),
        challenge_for(id, plan, message).message_encoding == "entry-bytes"@,
        pending_for(plan, message, now).head_cid == plan.head_cid,
        pending_for(plan, message, now).unsigned.entry == plan.entry,
        pending_for(plan, message, now).unsigned.message == message,
        pending_for(plan, message, now).created_at == now,
{
}

/// The identifier of a challenge is the base64url text of sixteen bytes: twenty-three
/// characters, the first of them `u`.
pub proof fn law_challenge_identifiers(id: Seq<char>)
    ensures
        is_challenge_id(id) <==> exists|bytes: Seq<u8>|
            bytes.len() == 16 && #[trigger] encoding::multibase_base64url(bytes) == id,
        is_challenge_id(id) ==> id.len() == 23 && id[0] == 'u',
{
    if is_challenge_id(id) {
        let bytes = choose|bytes: Seq<u8>|
            bytes.len() == 16 && #[trigger] encoding::multibase_base64url(bytes) == id;
        encoding::law_base64url_letters(bytes, 0);
    }
}

/// The fields of a plan, of a challenge and of what is pending are their values.
pub proof fn law_challenge_values(
    p: PendingPathUpdate,
    plan: PathUpdatePlan,
    c: PathUpdateChallenge,
)
    ensures
        p@.head_cid == p.head_cid@ && p@.unsigned == p.unsigned@ && p@.created_at == p.created_at,
        plan@.vlad == plan.vlad@ && plan@.branch == plan.branch@,
        plan@.signing_key == plan.signing_key@ && plan@.head_cid == plan.head_cid@,
        plan@.entry == plan.entry@,
        c@.challenge_id == c.challenge_id@ && c@.vlad == c.vlad@ && c@.path == c.path@,
        c@.signing_key_path == c.signing_key_path@ && c@.head_cid == c.head_cid@,
        c@.message_multibase == c.message_multibase@,
        c@.message_encoding == c.message_encoding@,
{
}

}
