//! What holds across calls, where the log implementation appends entries as it should.
//!
//! Appending is not done here. [`applied`] and [`appended`] say what a log holds after mutations
//! or an entry were appended to it, and the laws of this module take that as their premise.

use crate::api;
use crate::api::{AccountsApiView, CommitRequestView};
use crate::challenge;
use crate::config;
use crate::delegation;
use crate::delegation::PathDelegationView;
use crate::encoding;
use crate::entry_update;
use crate::entry_update::{LongHopView, NextEntryView};
use crate::error::ErrorView;
use crate::key::KeyTextView;
use crate::ops::OpParamsView;
use crate::plog::{KvpItemView, LogView, MultikeyView, MultisigView, OpView, ValueView};
use crate::values;
use crate::values::PlogPathValueView;
use vstd::prelude::*;
use vstd::string::*;

verus! {

/// A state is what a log implementation keeps: each key path has one value, and the Multikey text
/// of binary data is what `reads` makes of the data.
pub open spec fn is_state(
    kvp: Seq<KvpItemView>,
    reads: spec_fn(Seq<u8>) -> Option<Seq<char>>,
) -> bool {
    &&& forall|i: int, j: int|
        0 <= i < j < kvp.len() ==> (#[trigger] kvp[i]).key != (#[trigger] kvp[j]).key
    &&& forall|i: int|
        0 <= i < kvp.len() ==> ((#[trigger] kvp[i]).value matches ValueView::Data(b)
            ==> kvp[i].multikey == reads(b))
}

/// The value that a state holds at a key path.
pub open spec fn value_at(kvp: Seq<KvpItemView>, key: Seq<char>) -> Option<ValueView> {
    match values::find_item(kvp, key) {
        Some(item) => Some(item.value),
        None => None,
    }
}

/// The value at a key path after mutations.
pub open spec fn value_after(
    ops: Seq<OpView>,
    key: Seq<char>,
    before: Option<ValueView>,
) -> Option<ValueView>
    decreases ops.len(),
{
    if ops.len() == 0 {
        before
    } else {
        let prior = value_after(ops.drop_last(), key, before);
        match ops.last() {
            OpView::Noop(_) => prior,
            OpView::Delete(k) => if k == key {
                None
            } else {
                prior
            },
            OpView::Update(k, v) => if k == key {
                Some(v)
            } else {
                prior
            },
        }
    }
}

/// The log `after` is `before` with one more verified entry, and a new head.
pub open spec fn grown(before: LogView, after: LogView) -> bool {
    &&& after.vlad == before.vlad
    &&& after.head.encoded != before.head.encoded
    &&& after.steps.len() == before.steps.len() + 1
    &&& after.steps.drop_last() == before.steps
    &&& after.steps.last() is Verified
}

/// The log `after` is `before` with the mutations `done` appended in one entry: each was applied
/// to the state, in order.
pub open spec fn applied(
    before: LogView,
    done: Seq<OpView>,
    after: LogView,
    reads: spec_fn(Seq<u8>) -> Option<Seq<char>>,
) -> bool {
    &&& grown(before, after)
    &&& is_state(values::head_kvp(after.steps), reads)
    &&& forall|key: Seq<char>| #[trigger]
        value_at(values::head_kvp(after.steps), key) == value_after(
            done,
            key,
            value_at(values::head_kvp(before.steps), key),
        )
}

/// The log `after` is `before` with `entry` appended: its mutations were applied, and its locks
/// are those of the entry.
pub open spec fn appended(
    before: LogView,
    entry: NextEntryView,
    after: LogView,
    reads: spec_fn(Seq<u8>) -> Option<Seq<char>>,
) -> bool {
    &&& applied(before, entry.ops, after, reads)
    &&& after.steps.last()->Verified_0.entry.locks == entry.locks
}

/// The mutations `done` carry out `ops`, one for one: an operation that stands for a mutation is
/// carried out by it, and one that is left to a key manager by some mutation of its key.
pub open spec fn carried_out(ops: Seq<OpParamsView>, done: Seq<OpView>) -> bool {
    &&& done.len() == ops.len()
    &&& forall|i: int|
        0 <= i < ops.len() ==> {
            &&& api::mutated_key(#[trigger] done[i]) == ops[i].key()
            &&& entry_update::mutation(ops[i]) is Ok ==> done[i] == entry_update::mutation(
                ops[i],
            )->Ok_0
        }
}

/// Operation `i` is the last one on its key.
pub open spec fn last_on_its_key(ops: Seq<OpParamsView>, i: int) -> bool {
    &&& 0 <= i < ops.len()
    &&& forall|j: int| i < j < ops.len() ==> (#[trigger] ops[j]).key() != ops[i].key()
}

/// What a read gives after an update whose last operation on the key is `op`, if the operation
/// says so: what was stored, as it is handed out, or nothing after a deletion.
pub open spec fn read_after(
    op: OpParamsView,
    path: KeyTextView,
    reads: spec_fn(Seq<u8>) -> Option<Seq<char>>,
) -> Option<Result<PlogPathValueView, ErrorView>> {
    match entry_update::mutation(op) {
        Ok(OpView::Update(_, v)) => Some(Ok(handed_out(v, reads))),
        Ok(OpView::Delete(_)) => Some(Err(ErrorView::PathNotFound(path.text))),
        _ => None,
    }
}

/// The key that a value advertises.
pub open spec fn advertised_value(
    value: Option<ValueView>,
    reads: spec_fn(Seq<u8>) -> Option<Seq<char>>,
) -> Option<Seq<char>> {
    match value {
        Some(ValueView::Data(b)) => reads(b),
        Some(ValueView::Str(s)) => Some(s),
        _ => None,
    }
}

/// How a value is handed out.
pub open spec fn handed_out(
    value: ValueView,
    reads: spec_fn(Seq<u8>) -> Option<Seq<char>>,
) -> PlogPathValueView {
    match value {
        ValueView::Str(s) => PlogPathValueView::Str(s),
        ValueView::Data(b) => PlogPathValueView::Bin(values::bin_text(b, reads(b))),
        ValueView::Nil => PlogPathValueView::Bin(
            encoding::multibase_base64url(Seq::<u8>::empty()),
        ),
    }
}

proof fn lemma_found_in_state(
    kvp: Seq<KvpItemView>,
    key: Seq<char>,
    reads: spec_fn(Seq<u8>) -> Option<Seq<char>>,
)
    requires
        is_state(kvp, reads),
    ensures
        delegation::advertised_at(kvp, key) == advertised_value(value_at(kvp, key), reads),
        values::find_item(kvp, key) is None ==> forall|i: int|
            0 <= i < kvp.len() ==> (#[trigger] kvp[i]).key != key,
        values::find_item(kvp, key) is Some ==> values::path_value(
            values::find_item(kvp, key)->Some_0,
        ) == handed_out(value_at(kvp, key)->Some_0, reads),
    decreases kvp.len(),
{
    if kvp.len() > 0 {
        let rest = kvp.drop_last();
        let last = kvp[kvp.len() - 1];
        assert forall|i: int, j: int| 0 <= i < j < rest.len() implies (#[trigger] rest[i]).key != (
        #[trigger] rest[j]).key by {
            assert(kvp[i].key != kvp[j].key);
        }
        assert forall|i: int| 0 <= i < rest.len() implies ((
        #[trigger] rest[i]).value matches ValueView::Data(b) ==> rest[i].multikey == reads(b)) by {
            assert(kvp[i] == rest[i]);
        }
        lemma_found_in_state(rest, key, reads);
        assert(kvp.last() == last);
        if values::find_item(rest, key) is Some {
            lemma_item_occurs(rest, key);
            let i = choose|i: int| 0 <= i < rest.len() && (#[trigger] rest[i]).key == key;
            assert(kvp[i].key != last.key);
        } else {
            assert forall|i: int|
                values::find_item(kvp, key) is None && 0 <= i < kvp.len() implies (
            #[trigger] kvp[i]).key != key by {
                if i < rest.len() {
                    assert(rest[i].key != key);
                }
            }
        }
    }
}

proof fn lemma_item_occurs(kvp: Seq<KvpItemView>, key: Seq<char>)
    requires
        values::find_item(kvp, key) is Some,
    ensures
        exists|i: int| 0 <= i < kvp.len() && (#[trigger] kvp[i]).key == key,
    decreases kvp.len(),
{
    let rest = kvp.drop_last();
    if values::find_item(rest, key) is Some {
        lemma_item_occurs(rest, key);
        let i = choose|i: int| 0 <= i < rest.len() && (#[trigger] rest[i]).key == key;
        assert(kvp[i].key == key);
    } else {
        assert(kvp[kvp.len() - 1].key == key);
    }
}

/// An update is taken over: where the log grew, the summary is of the same account at another
/// head, the log is retained, and no challenge is left.
pub proof fn law_grown_log_is_taken_over<W>(
    service: AccountsApiView<W>,
    before: LogView,
    after: LogView,
    id: Seq<char>,
    signature: Result<MultisigView, Seq<char>>,
    now: u64,
)
    requires
        service.account == Some(before),
        service.retains_verified(),
        grown(before, after),
    ensures
        service.accepted(Ok(after)) is Ok,
        service.accepted(Ok(after))->Ok_0.vlad == before.vlad,
        service.accepted(Ok(after))->Ok_0.head_cid != before.head.encoded,
        values::verify_fault(after.steps) is None,
        service.after_update(Ok(after)) == service.updated(after),
        service.after_update(Ok(after)).pending == Map::<
            Seq<char>,
            challenge::PendingPathUpdateView,
        >::empty(),
        service.after_update(Ok(after)).commit_request(id, signature, now) == Err::<
            CommitRequestView,
            ErrorView,
        >(ErrorView::ChallengeNotFound(id)),
{
}

/// What a read gives in a verified log with a proper state: the value that the state holds.
proof fn lemma_read(
    log: LogView,
    path: KeyTextView,
    reads: spec_fn(Seq<u8>) -> Option<Seq<char>>,
)
    requires
        values::verify_fault(log.steps) is None,
        is_state(values::head_kvp(log.steps), reads),
        path.parsed is Ok,
    ensures
        values::plog_value(log, path) == (match value_at(
            values::head_kvp(log.steps),
            path.parsed->Ok_0,
        ) {
            Some(v) => Ok::<PlogPathValueView, ErrorView>(handed_out(v, reads)),
            None => Err::<PlogPathValueView, ErrorView>(ErrorView::PathNotFound(path.text)),
        }),
{
    lemma_found_in_state(values::head_kvp(log.steps), path.parsed->Ok_0, reads);
}

proof fn lemma_agreement(
    before: LogView,
    entry: NextEntryView,
    after: LogView,
    reads: spec_fn(Seq<u8>) -> Option<Seq<char>>,
    branch: Seq<char>,
)
    requires
        is_state(values::head_kvp(before.steps), reads),
        appended(before, entry, after, reads),
        entry.ops.len() == 1,
        api::mutated_key(entry.ops[0]) == branch + "pubkey"@,
    ensures
        delegation::agree_but_for(
            values::head_kvp(before.steps),
            values::head_kvp(after.steps),
            branch,
        ),
        forall|k: Seq<char>|
            k != branch + "pubkey"@ ==> #[trigger] value_at(values::head_kvp(after.steps), k)
                == value_at(values::head_kvp(before.steps), k),
{
    let old_state = values::head_kvp(before.steps);
    let new_state = values::head_kvp(after.steps);
    let own = branch + "pubkey"@;
    reveal_with_fuel(value_after, 2);
    assert(entry.ops.drop_last().len() == 0);
    assert forall|k: Seq<char>| k != own implies #[trigger] value_at(new_state, k) == value_at(
        old_state,
        k,
    ) by {}
    assert forall|other: Seq<char>| other != branch implies #[trigger] delegation::delegate_of(
        new_state,
        other,
    ) == delegation::delegate_of(old_state, other) by {
        let k = other + "pubkey"@;
        if k == own {
            assert(other =~= k.take(other.len() as int));
            assert(branch =~= own.take(branch.len() as int));
            assert(other.len() == branch.len());
        }
        lemma_found_in_state(new_state, k, reads);
        lemma_found_in_state(old_state, k, reads);
        assert(value_at(new_state, k) == value_at(old_state, k));
    }
}

/// Delegating a branch, for the first time or again, leaves it listed once, with the latest key;
/// the other branches are listed as before. On an account without other delegations that one
/// grant is the whole list.
pub proof fn law_latest_grant_wins<W>(
    service: AccountsApiView<W>,
    path: KeyTextView,
    branch: Seq<char>,
    mk: MultikeyView,
    longhop: Option<LongHopView>,
    before: LogView,
    after: LogView,
    reads: spec_fn(Seq<u8>) -> Option<Seq<char>>,
    old_list: Seq<PathDelegationView>,
    new_list: Seq<PathDelegationView>,
)
    requires
        service.account == Some(before),
        service.retains_verified(),
        is_state(values::head_kvp(before.steps), reads),
        reads(mk.bytes) == Some(mk.encoded),
        config::branch_path(path) == Ok::<Seq<char>, ErrorView>(branch),
        service.delegating_entry(path, Ok(mk), longhop) is Ok,
        appended(before, service.delegating_entry(path, Ok(mk), longhop)->Ok_0, after, reads),
        delegation::lists(old_list, delegation::head_delegations(before)),
        delegation::lists(new_list, delegation::head_delegations(after)),
    ensures
        delegation::of_branch(new_list, branch) == seq![
            PathDelegationView { path: branch, pubkey: mk.encoded },
        ],
        delegation::of_others(new_list, branch) == delegation::of_others(old_list, branch),
        delegation::of_others(old_list, branch).len() == 0 ==> new_list == seq![
            PathDelegationView { path: branch, pubkey: mk.encoded },
        ],
{
    let entry = service.delegating_entry(path, Ok(mk), longhop)->Ok_0;
    let old_state = values::head_kvp(before.steps);
    let new_state = values::head_kvp(after.steps);
    let own = branch + "pubkey"@;
    let op = OpParamsView::UseKey { key: own, mk };
    assert(entry_update::mutations(seq![op])[0] == OpView::Update(own, ValueView::Data(mk.bytes)));
    assert(entry.ops[0] == OpView::Update(own, ValueView::Data(mk.bytes)));
    lemma_agreement(before, entry, after, reads, branch);
    reveal_with_fuel(value_after, 2);
    assert(value_at(new_state, own) == Some(ValueView::Data(mk.bytes)));
    lemma_found_in_state(new_state, own, reads);
    assert(delegation::delegate_of(new_state, branch) == Some(mk.encoded));
    delegation::law_delegated_branch_is_listed_once(
        service.head()->Ok_0.locks,
        old_state,
        new_state,
        branch,
        mk.encoded,
        old_list,
        new_list,
    );
}

/// Revoking a branch takes exactly that branch off the list, the others keep their order; the
/// delegate's key is gone, nothing can be prepared for the branch any more, and all other values
/// read as before.
pub proof fn law_revocation_takes_effect<W>(
    service: AccountsApiView<W>,
    path: KeyTextView,
    branch: Seq<char>,
    longhop: Option<LongHopView>,
    before: LogView,
    after: LogView,
    reads: spec_fn(Seq<u8>) -> Option<Seq<char>>,
    old_list: Seq<PathDelegationView>,
    new_list: Seq<PathDelegationView>,
    ops: Result<Seq<OpParamsView>, ErrorView>,
    hop: Option<LongHopView>,
    own: KeyTextView,
    other: KeyTextView,
)
    requires
        service.account == Some(before),
        service.retains_verified(),
        is_state(values::head_kvp(before.steps), reads),
        config::branch_path(path) == Ok::<Seq<char>, ErrorView>(branch),
        service.revoking_entry(path, longhop) is Ok,
        appended(before, service.revoking_entry(path, longhop)->Ok_0, after, reads),
        delegation::lists(old_list, delegation::head_delegations(before)),
        delegation::lists(new_list, delegation::head_delegations(after)),
        own.parsed == Ok::<Seq<char>, Seq<char>>(branch + "pubkey"@),
        other.parsed != Ok::<Seq<char>, Seq<char>>(branch + "pubkey"@),
    ensures
        new_list == delegation::of_others(old_list, branch),
        values::plog_value(after, own) == Err::<PlogPathValueView, ErrorView>(
            ErrorView::PathNotFound(own.text),
        ),
        service.updated(after).path_update_plan(path, ops, hop) == Err::<
            challenge::PathUpdatePlanView,
            ErrorView,
        >(ErrorView::PathNotDelegated(branch)),
        values::plog_value(after, other) == values::plog_value(before, other),
{
    let entry = service.revoking_entry(path, longhop)->Ok_0;
    let old_state = values::head_kvp(before.steps);
    let new_state = values::head_kvp(after.steps);
    let gone = branch + "pubkey"@;
    let op = OpParamsView::Delete { key: gone };
    let locks = service.head()->Ok_0.locks;
    assert(entry_update::mutations(seq![op])[0] == OpView::Delete(gone));
    assert(entry.ops[0] == OpView::Delete(gone));
    lemma_agreement(before, entry, after, reads, branch);
    delegation::law_revoked_branch_leaves_the_list(
        locks,
        old_state,
        new_state,
        branch,
        old_list,
        new_list,
    );
    reveal_with_fuel(value_after, 2);
    assert(value_at(new_state, gone) is None);
    lemma_read(after, own, reads);
    if other.parsed is Ok {
        let k = other.parsed->Ok_0;
        assert(value_at(new_state, k) == value_at(old_state, k));
        lemma_read(after, other, reads);
        lemma_read(before, other, reads);
    }
    let found = delegation::head_delegations(after);
    if delegation::is_delegated(after, branch) {
        let k = choose|k: int| 0 <= k < found.len() && #[trigger] found[k].path == branch;
        assert(found.contains(found[k]));
        delegation::law_revoked_branch_is_not_in_force(locks, new_state, branch, found[k]);
    }
    api::law_undelegated_branch_is_refused(service.updated(after), path, branch, ops, hop);
}

proof fn lemma_last_mutation_decides(done: Seq<OpView>, i: int, before: Option<ValueView>)
    requires
        0 <= i < done.len(),
        forall|j: int|
            i < j < done.len() ==> api::mutated_key(#[trigger] done[j]) != api::mutated_key(
                done[i],
            ),
    ensures
        done[i] matches OpView::Update(key, v) ==> value_after(done, key, before) == Some(v),
        done[i] matches OpView::Delete(key) ==> value_after(done, key, before) is None,
    decreases done.len(),
{
    if i < done.len() - 1 {
        assert(api::mutated_key(done[done.len() - 1]) != api::mutated_key(done[i]));
        lemma_last_mutation_decides(done.drop_last(), i, before);
    }
}

proof fn lemma_untouched(done: Seq<OpView>, key: Seq<char>, before: Option<ValueView>)
    requires
        forall|j: int| 0 <= j < done.len() ==> api::mutated_key(#[trigger] done[j]) != key,
    ensures
        value_after(done, key, before) == before,
    decreases done.len(),
{
    if done.len() > 0 {
        assert(api::mutated_key(done[done.len() - 1]) != key);
        lemma_untouched(done.drop_last(), key, before);
    }
}

proof fn lemma_read_after(
    before: LogView,
    ops: Seq<OpParamsView>,
    done: Seq<OpView>,
    after: LogView,
    reads: spec_fn(Seq<u8>) -> Option<Seq<char>>,
    i: int,
    path: KeyTextView,
)
    requires
        values::verify_fault(after.steps) is None,
        carried_out(ops, done),
        applied(before, done, after, reads),
        last_on_its_key(ops, i),
        path.parsed == Ok::<Seq<char>, Seq<char>>(ops[i].key()),
    ensures
        read_after(ops[i], path, reads) matches Some(read) ==> values::plog_value(after, path)
            == read,
{
    let key = ops[i].key();
    let old_value = value_at(values::head_kvp(before.steps), key);
    assert(api::mutated_key(done[i]) == key);
    assert forall|j: int| i < j < done.len() implies api::mutated_key(#[trigger] done[j])
        != api::mutated_key(done[i]) by {
        assert(ops[j].key() != key);
    }
    lemma_last_mutation_decides(done, i, old_value);
    assert(value_at(values::head_kvp(after.steps), key) == value_after(done, key, old_value));
    lemma_read(after, path, reads);
}

/// A root-signed update reads back. The update asks for the operations to be signed with
/// `/pubkey`; once they are carried out, the account is the same at another head, the log
/// verifies, no challenge is left, and for each key the last operation decides: what it stored
/// reads back as it is handed out (a text as that text, binary data as base64url or as the
/// Multikey that it is), and what it deleted is not found.
pub proof fn law_account_update_takes_effect<W>(
    service: AccountsApiView<W>,
    before: LogView,
    ops: Seq<OpParamsView>,
    done: Seq<OpView>,
    after: LogView,
    reads: spec_fn(Seq<u8>) -> Option<Seq<char>>,
    i: int,
    path: KeyTextView,
)
    requires
        service.account == Some(before),
        service.retains_verified(),
        carried_out(ops, done),
        applied(before, done, after, reads),
        last_on_its_key(ops, i),
        path.parsed == Ok::<Seq<char>, Seq<char>>(ops[i].key()),
    ensures
        service.update_request(ops) == Ok::<config::UpdateConfigView, ErrorView>(
            config::update_config("/pubkey"@, ops),
        ),
        service.accepted(Ok(after)) is Ok,
        service.accepted(Ok(after))->Ok_0.vlad == before.vlad,
        service.accepted(Ok(after))->Ok_0.head_cid != before.head.encoded,
        values::verify_fault(after.steps) is None,
        service.after_update(Ok(after)) == service.updated(after),
        service.after_update(Ok(after)).log() == Ok::<LogView, ErrorView>(after),
        service.after_update(Ok(after)).pending == Map::<
            Seq<char>,
            challenge::PendingPathUpdateView,
        >::empty(),
        read_after(ops[i], path, reads) matches Some(read) ==> values::plog_value(after, path)
            == read,
{
    lemma_read_after(before, ops, done, after, reads, i, path);
}

/// An update leaves alone what it does not mention: a key that no operation is on reads as
/// before.
pub proof fn law_update_touches_only_its_keys(
    before: LogView,
    ops: Seq<OpParamsView>,
    done: Seq<OpView>,
    after: LogView,
    reads: spec_fn(Seq<u8>) -> Option<Seq<char>>,
    path: KeyTextView,
)
    requires
        values::verify_fault(before.steps) is None,
        is_state(values::head_kvp(before.steps), reads),
        carried_out(ops, done),
        applied(before, done, after, reads),
        forall|i: int|
            0 <= i < ops.len() ==> Ok::<Seq<char>, Seq<char>>((#[trigger] ops[i]).key())
                != path.parsed,
    ensures
        values::plog_value(after, path) == values::plog_value(before, path),
{
    if path.parsed is Ok {
        let key = path.parsed->Ok_0;
        let old_value = value_at(values::head_kvp(before.steps), key);
        assert forall|j: int| 0 <= j < done.len() implies api::mutated_key(#[trigger] done[j])
            != key by {
            assert(ops[j].key() != key);
        }
        lemma_untouched(done, key, old_value);
        assert(value_at(values::head_kvp(after.steps), key) == old_value);
        lemma_read(before, path, reads);
        lemma_read(after, path, reads);
    }
}

/// Prepare, sign, commit, append: what was prepared is what is committed, and once it is appended
/// the account is the same at another head, the log verifies, no challenge is left, and for each
/// key the last operation decides what a read gives, as after a root-signed update.
pub proof fn law_committed_update_takes_effect<W>(
    service: AccountsApiView<W>,
    branch_text: KeyTextView,
    ops: Result<Seq<OpParamsView>, ErrorView>,
    longhop: Option<LongHopView>,
    id: Seq<char>,
    message: Seq<u8>,
    signature: MultisigView,
    now: u64,
    later: u64,
    after: LogView,
    reads: spec_fn(Seq<u8>) -> Option<Seq<char>>,
    i: int,
    path: KeyTextView,
)
    requires
        service.retains_verified(),
        service.path_update_plan(branch_text, ops, longhop) is Ok,
        later - now < challenge::CHALLENGE_TTL,
        appended(
            service.account->Some_0,
            service.path_update_plan(branch_text, ops, longhop)->Ok_0.entry,
            after,
            reads,
        ),
        last_on_its_key(ops->Ok_0, i),
        path.parsed == Ok::<Seq<char>, Seq<char>>(ops->Ok_0[i].key()),
    ensures
        ({
            let plan = service.path_update_plan(branch_text, ops, longhop)->Ok_0;
            let issued = service.purged(now).with_pending(
                id,
                challenge::pending_for(plan, message, now),
            );
            let used = issued.purged(later).without(id);
            &&& issued.commit_request(id, Ok(signature), later) == Ok::<
                CommitRequestView,
                ErrorView,
            >(CommitRequestView { entry: plan.entry, proof: signature.bytes })
            &&& used.accepted(Ok(after)) is Ok
            &&& used.accepted(Ok(after))->Ok_0.vlad == plan.vlad
            &&& used.accepted(Ok(after))->Ok_0.head_cid != plan.head_cid
            &&& values::verify_fault(after.steps) is None
            &&& used.after_update(Ok(after)).account == Some(after)
            &&& used.after_update(Ok(after)).pending == Map::<
                Seq<char>,
                challenge::PendingPathUpdateView,
            >::empty()
            &&& read_after(ops->Ok_0[i], path, reads) matches Some(read) ==> values::plog_value(
                after,
                path,
            ) == read
        }),
{
    let before = service.account->Some_0;
    let plan = service.path_update_plan(branch_text, ops, longhop)->Ok_0;
    let issued = service.purged(now).with_pending(id, challenge::pending_for(plan, message, now));
    let used = issued.purged(later).without(id);
    let list = ops->Ok_0;
    api::law_prepared_update_can_be_committed(
        service,
        branch_text,
        ops,
        longhop,
        id,
        message,
        signature,
        now,
        later,
    );
    law_grown_log_is_taken_over(used, before, after, id, Ok(signature), later);
    let done = plan.entry.ops;
    assert(done == entry_update::mutations(list));
    assert forall|j: int| 0 <= j < list.len() implies {
        &&& api::mutated_key(#[trigger] done[j]) == list[j].key()
        &&& entry_update::mutation(list[j]) is Ok ==> done[j] == entry_update::mutation(
            list[j],
        )->Ok_0
    } by {
        assert(entry_update::mutation(list[j]) is Ok);
    }
    lemma_read_after(before, list, done, after, reads, i, path);
}

/// A log that was exported and decodes to what it was loads elsewhere: the summary is of the same
/// account at the same head, and every path reads the same.
pub proof fn law_exported_log_loads_alike<V, W>(
    from: AccountsApiView<V>,
    into: AccountsApiView<W>,
    log: LogView,
    path: KeyTextView,
)
    requires
        from.account == Some(log),
        from.retains_verified(),
        into.wallet is Some,
    ensures
        into.loaded(log) is Ok,
        into.loaded(log)->Ok_0.vlad == log.vlad,
        into.loaded(log)->Ok_0.head_cid == log.head.encoded,
        into.with_account(log).log() == from.log(),
        into.with_account(log).log() is Ok,
        values::plog_value(into.with_account(log).log()->Ok_0, path) == values::plog_value(
            from.log()->Ok_0,
            path,
        ),
{
}

/// A no-op changes nothing: a key that an update names in no-ops alone reads as before, like one
/// that it does not name at all.
pub proof fn law_noop_changes_nothing(
    before: LogView,
    ops: Seq<OpParamsView>,
    done: Seq<OpView>,
    after: LogView,
    reads: spec_fn(Seq<u8>) -> Option<Seq<char>>,
    path: KeyTextView,
)
    requires
        values::verify_fault(before.steps) is None,
        is_state(values::head_kvp(before.steps), reads),
        carried_out(ops, done),
        applied(before, done, after, reads),
        forall|i: int|
            0 <= i < ops.len() && Ok::<Seq<char>, Seq<char>>((#[trigger] ops[i]).key())
                == path.parsed ==> ops[i] is Noop,
    ensures
        values::plog_value(after, path) == values::plog_value(before, path),
{
    if path.parsed is Ok {
        let key = path.parsed->Ok_0;
        let old_value = value_at(values::head_kvp(before.steps), key);
        assert forall|j: int| 0 <= j < done.len() && api::mutated_key(
            #[trigger] done[j],
        ) == key implies done[j] is Noop by {
            assert(ops[j].key() == key);
            assert(entry_update::mutation(ops[j]) is Ok);
        }
        lemma_noops(done, key, old_value);
        assert(value_at(values::head_kvp(after.steps), key) == old_value);
        lemma_read(before, path, reads);
        lemma_read(after, path, reads);
    }
}

proof fn lemma_noops(done: Seq<OpView>, key: Seq<char>, before: Option<ValueView>)
    requires
        forall|j: int|
            0 <= j < done.len() && api::mutated_key(#[trigger] done[j]) == key ==> done[j] is Noop,
    ensures
        value_after(done, key, before) == before,
    decreases done.len(),
{
    if done.len() > 0 {
        let last = done[done.len() - 1];
        assert(api::mutated_key(last) == key ==> last is Noop);
        lemma_noops(done.drop_last(), key, before);
    }
}

/// From the operation that a caller writes down to what a later read gives. After an update whose
/// last operation on a key path is the given one: a text that was written reads back as that
/// text, data as the Multikey that it is or in base64url, and a deleted key path is not found.
/// Where every operation on the key path is a no-op, it reads as before.
pub proof fn law_written_operations_take_effect(
    before: LogView,
    list: Seq<crate::account_ops::AccountOpView>,
    done: Seq<OpView>,
    after: LogView,
    reads: spec_fn(Seq<u8>) -> Option<Seq<char>>,
    i: int,
    path: KeyTextView,
    key: Seq<char>,
)
    requires
        values::verify_fault(before.steps) is None,
        is_state(values::head_kvp(before.steps), reads),
        crate::account_ops::all_op_params(list) is Ok,
        carried_out(crate::account_ops::all_op_params(list)->Ok_0, done),
        applied(before, done, after, reads),
        path.parsed == Ok::<Seq<char>, Seq<char>>(key),
        0 <= i < list.len(),
        list[i].key().parsed == Ok::<Seq<char>, Seq<char>>(key),
        forall|j: int|
            i < j < list.len() ==> (#[trigger] list[j]).key().parsed != Ok::<
                Seq<char>,
                Seq<char>,
            >(key),
    ensures
        list[i] matches crate::account_ops::AccountOpView::UseStr { value, .. }
            ==> values::plog_value(after, path) == Ok::<PlogPathValueView, ErrorView>(
            PlogPathValueView::Str(value),
        ),
        list[i] matches crate::account_ops::AccountOpView::UseBin { data_multibase, .. } ==> {
            let data = encoding::multibase_decoded(data_multibase)->Ok_0;
            values::plog_value(after, path) == Ok::<PlogPathValueView, ErrorView>(
                PlogPathValueView::Bin(
                    match reads(data) {
                        Some(mk) => mk,
                        None => encoding::multibase_base64url(data),
                    },
                ),
            )
        },
        list[i] is Delete ==> values::plog_value(after, path) == Err::<
            PlogPathValueView,
            ErrorView,
        >(ErrorView::PathNotFound(path.text)),
        (forall|j: int|
            0 <= j < list.len() && (#[trigger] list[j]).key().parsed == Ok::<
                Seq<char>,
                Seq<char>,
            >(key) ==> list[j] is Noop) ==> values::plog_value(after, path) == values::plog_value(
            before,
            path,
        ),
{
    let ops = crate::account_ops::all_op_params(list)->Ok_0;
    assert forall|j: int| 0 <= j < list.len() implies {
        &&& ops.len() == list.len()
        &&& crate::account_ops::op_params(list[j]) == Ok::<OpParamsView, ErrorView>(
            #[trigger] ops[j],
        )
        &&& list[j].key().parsed == Ok::<Seq<char>, Seq<char>>(ops[j].key())
    } by {
        crate::account_ops::law_parsing_is_positional(list, j);
    }
    assert(ops[i].key() == key);
    assert forall|j: int| i < j < ops.len() implies (#[trigger] ops[j]).key() != ops[i].key() by {
        assert(list[j].key().parsed != Ok::<Seq<char>, Seq<char>>(key));
    }
    let grown_verifies = values::verify_fault(after.steps) is None;
    assert(grown_verifies) by {
        values::law_verification(before.steps, 0, Seq::empty());
        values::law_verification(after.steps, 0, Seq::empty());
        assert forall|j: int| 0 <= j < after.steps.len() implies (
        #[trigger] after.steps[j]) is Verified by {
            if j < before.steps.len() {
                assert(after.steps.drop_last()[j] == before.steps[j]);
            }
        }
    }
    lemma_read_after(before, ops, done, after, reads, i, path);
    if forall|j: int|
        0 <= j < list.len() && (#[trigger] list[j]).key().parsed == Ok::<Seq<char>, Seq<char>>(key)
            ==> list[j] is Noop {
        assert forall|j: int|
            0 <= j < ops.len() && Ok::<Seq<char>, Seq<char>>((#[trigger] ops[j]).key())
                == path.parsed implies ops[j] is Noop by {
            assert(list[j].key().parsed == Ok::<Seq<char>, Seq<char>>(key));
            assert(list[j] is Noop);
        }
        law_noop_changes_nothing(before, ops, done, after, reads, path);
    }
}

}
