//! Delegated branches: who may write where.
//!
//! A branch is delegated when the head entry holds a lock script at the branch that checks the
//! signature of the branch's own `pubkey` leaf, and the state holds a key at that leaf.

use crate::config;
use crate::entry_update;
use crate::error::{Error, ErrorView};
use crate::key;
use crate::key::Key;
use crate::model;
use crate::ops;
use crate::ops::{OpParams, OpParamsView};
use crate::plog::{
    KvpItem, KvpItemView, Log, LogView, Script, ScriptView, Value, ValueView, VerifyStep,
};
use crate::text;
use crate::values;
use vstd::prelude::*;
use vstd::string::*;

verus! {

/// One delegated branch at the verified head.
#[derive(Debug, PartialEq, Eq)]
pub struct PathDelegation {
    /// Branch path, with its trailing `/`.
    pub path: String,
    /// Multibase Multikey at `{path}pubkey`.
    pub pubkey: String,
}

/// A [`PathDelegation`] as a mathematical value.
#[verifier::ext_equal]
pub struct PathDelegationView {
    pub path: Seq<char>,
    pub pubkey: Seq<char>,
}

impl View for PathDelegation {
    type V = PathDelegationView;

    open spec fn view(&self) -> PathDelegationView {
        PathDelegationView { path: self.path@, pubkey: self.pubkey@ }
    }
}

impl Clone for PathDelegation {
    fn clone(&self) -> (r: PathDelegation)
        ensures
            r@ == self@,
    {
        PathDelegation { path: self.path.clone(), pubkey: self.pubkey.clone() }
    }
}

/// The lock hands a branch below the root to the branch's own key. Code counts that checks the
/// signature of the absolute or of the relative key path.
pub open spec fn delegates(lock: ScriptView) -> bool {
    &&& key::is_branch_path(lock.path())
    &&& lock.path() != "/"@
    &&& match lock {
        ScriptView::Code(p, code) => text::occurs_in(code, config::delegated_check(p))
            || text::occurs_in(code, "branch(\"pubkey\")"@),
        _ => false,
    }
}

/// The key that an item advertises, if its value is one.
pub open spec fn advertised(item: KvpItemView) -> Option<Seq<char>> {
    match item.value {
        ValueView::Data(_) => item.multikey,
        ValueView::Str(s) => Some(s),
        ValueView::Nil => None,
    }
}

/// The first key that the state advertises at a key path.
pub open spec fn advertised_at(kvp: Seq<KvpItemView>, key: Seq<char>) -> Option<Seq<char>>
    decreases kvp.len(),
{
    if kvp.len() == 0 {
        None
    } else {
        match advertised_at(kvp.drop_last(), key) {
            Some(pk) => Some(pk),
            None => if kvp.last().key == key {
                advertised(kvp.last())
            } else {
                None
            },
        }
    }
}

/// The key of the delegate for a branch.
pub open spec fn delegate_of(kvp: Seq<KvpItemView>, branch: Seq<char>) -> Option<Seq<char>> {
    advertised_at(kvp, branch + "pubkey"@)
}

/// The delegations in force, in the order of their locks.
pub open spec fn in_force(locks: Seq<ScriptView>, kvp: Seq<KvpItemView>) -> Seq<PathDelegationView>
    decreases locks.len(),
{
    if locks.len() == 0 {
        Seq::empty()
    } else {
        let before = in_force(locks.drop_last(), kvp);
        let lock = locks.last();
        if delegates(lock) && delegate_of(kvp, lock.path()) is Some {
            before.push(
                PathDelegationView {
                    path: lock.path(),
                    pubkey: delegate_of(kvp, lock.path())->Some_0,
                },
            )
        } else {
            before
        }
    }
}

/// The delegations in force at the head of a verified log, in the order of their locks.
pub open spec fn head_delegations(log: LogView) -> Seq<PathDelegationView> {
    in_force(log.steps.last()->Verified_0.entry.locks, values::head_kvp(log.steps))
}

/// The list is sorted by path.
pub open spec fn sorted_by_path(list: Seq<PathDelegationView>) -> bool {
    forall|i: int, j: int|
        0 <= i < j < list.len() ==> text::text_le(#[trigger] list[i].path, #[trigger] list[j].path)
}

/// `list` holds the delegations `found`, each as often as it was found, sorted by path.
pub open spec fn lists(list: Seq<PathDelegationView>, found: Seq<PathDelegationView>) -> bool {
    sorted_by_path(list) && list.to_multiset() == found.to_multiset()
}

/// The branch is delegated at the head of a verified log.
pub open spec fn is_delegated(log: LogView, branch: Seq<char>) -> bool {
    exists|i: int|
        0 <= i < head_delegations(log).len() && #[trigger] head_delegations(log)[i].path == branch
}

/// Why a branch does not count as delegated, if it does not.
pub open spec fn delegation_fault(log: LogView, branch: Seq<char>) -> Option<ErrorView> {
    match values::verify_fault(log.steps) {
        Some(e) => Some(e),
        None => if is_delegated(log, branch) {
            None
        } else {
            Some(ErrorView::PathNotDelegated(branch))
        },
    }
}

/// Whether the lock hands its branch to the branch's own key.
fn is_delegated_lock(lock: &Script) -> (r: bool)
    ensures
        r == delegates(lock@),
{
    let path: &Key = lock.path();
    if !path.is_branch() || text::same_text(path.as_str(), "/") {
        return false;
    }
    match lock {
        Script::Code(p, code) => {
            let check: String = config::delegated_check_text(p);
            text::contains(code.as_str(), check.as_str()) || text::contains(
                code.as_str(),
                "branch(\"pubkey\")",
            )
        },
        _ => false,
    }
}

/// The key that an item advertises.
fn advertised_key(item: &KvpItem) -> (r: Option<String>)
    ensures
        model::opt(r) == advertised(item@),
{
    match &item.value {
        Value::Data(_) => model::copy_opt_text(&item.multikey),
        Value::Str(s) => Some(s.clone()),
        Value::Nil => None,
    }
}

proof fn lemma_advertised_stays(kvp: Seq<KvpItemView>, key: Seq<char>, n: int)
    requires
        0 <= n <= kvp.len(),
        advertised_at(kvp.take(n), key) is Some,
    ensures
        advertised_at(kvp, key) == advertised_at(kvp.take(n), key),
    decreases kvp.len(),
{
    if n < kvp.len() {
        assert(kvp.drop_last().take(n) =~= kvp.take(n));
        lemma_advertised_stays(kvp.drop_last(), key, n);
    } else {
        assert(kvp.take(n) =~= kvp);
    }
}

/// The first key that the state advertises at a key path.
fn find_advertised(kvp: &Vec<KvpItem>, key: &Key) -> (r: Option<String>)
    ensures
        model::opt(r) == advertised_at(model::views(kvp@), key@),
{
    let ghost items = model::views(kvp@);
    let mut i: usize = 0;
    while i < kvp.len()
        invariant
            i <= kvp.len(),
            items == model::views(kvp@),
            advertised_at(items.take(i as int), key@) is None,
        decreases kvp.len() - i,
    {
        proof {
            assert(items.take(i + 1).drop_last() =~= items.take(i as int));
            assert(items.take(i + 1).last() == kvp@[i as int]@);
        }
        if kvp[i].key.same(key) {
            let found: Option<String> = advertised_key(&kvp[i]);
            if found.is_some() {
                proof {
                    lemma_advertised_stays(items, key@, i + 1);
                }
                return found;
            }
        }
        i = i + 1;
    }
    assert(items.take(i as int) =~= items);
    None
}

/// Inserts a delegation behind all whose path is not greater.
fn insert_sorted(list: &mut Vec<PathDelegation>, item: PathDelegation)
    requires
        sorted_by_path(model::views(old(list)@)),
    ensures
        sorted_by_path(model::views(final(list)@)),
        model::views(final(list)@).to_multiset() == model::views(old(list)@).to_multiset().insert(
            item@,
        ),
{
    let ghost before = list@;
    let ghost old_views = model::views(before);
    let mut at: usize = list.len();
    while at > 0 && !text::text_at_most(list[at - 1].path.as_str(), item.path.as_str())
        invariant
            at <= list.len(),
            list@ == before,
            forall|k: int|
                at <= k < list.len() ==> !text::text_le(#[trigger] before[k].path@, item.path@),
        decreases at,
    {
        at = at - 1;
    }
    list.insert(at, item);
    proof {
        let new_views = model::views(list@);
        assert(new_views =~= old_views.insert(at as int, item@));
        vstd::seq_lib::to_multiset_insert(old_views, at as int, item@);
        assert forall|i: int, j: int| 0 <= i < j < new_views.len() implies text::text_le(
            #[trigger] new_views[i].path,
            #[trigger] new_views[j].path,
        ) by {
            let oi = if i < at {
                i
            } else {
                i - 1
            };
            let oj = if j < at {
                j
            } else {
                j - 1
            };
            if i != at && j != at {
                assert(new_views[i] == old_views[oi]);
                assert(new_views[j] == old_views[oj]);
            } else if j == at {
                // Everything up to the last one before `at` is at most that one.
                assert(new_views[i] == old_views[i]);
                if i < at - 1 {
                    assert(text::text_le(old_views[i].path, old_views[at - 1].path));
                    text::lemma_text_le_transitive(
                        old_views[i].path,
                        old_views[at - 1].path,
                        item@.path,
                    );
                }
            } else {
                assert(new_views[j] == old_views[oj]);
                assert(!text::text_le(before[oj].path@, item.path@));
                text::lemma_text_le_total(before[oj].path@, item.path@);
            }
        }
    }
}

/// The delegations in force at the head of a log, sorted by path.
pub fn list_delegations_of(log: &Log) -> (r: Result<Vec<PathDelegation>, Error>)
    ensures
        match r {
            Ok(list) => values::verify_fault(log@.steps) is None && lists(
                model::views(list@),
                head_delegations(log@),
            ),
            Err(e) => values::verify_fault(log@.steps) == Some(e@),
        },
{
    let kvp: &Vec<KvpItem> = match values::verified_kvp(log) {
        Ok(kvp) => kvp,
        Err(e) => {
            return Err(e);
        },
    };
    let n: usize = log.steps.len();
    assert(log@.steps.last() == log.steps@[n - 1]@);
    let mut out: Vec<PathDelegation> = Vec::new();
    assert(model::views(out@) =~= Seq::<PathDelegationView>::empty());
    match &log.steps[n - 1] {
        VerifyStep::Verified(v) => {
            let ghost locks = v.entry@.locks;
            let ghost items = model::views(kvp@);
            let mut i: usize = 0;
            assert(locks.take(0) =~= Seq::<ScriptView>::empty());
            while i < v.entry.locks.len()
                invariant
                    i <= v.entry.locks.len(),
                    locks == v.entry@.locks,
                    items == model::views(kvp@),
                    sorted_by_path(model::views(out@)),
                    model::views(out@).to_multiset() == in_force(
                        locks.take(i as int),
                        items,
                    ).to_multiset(),
                decreases v.entry.locks.len() - i,
            {
                let lock: &Script = &v.entry.locks[i];
                let ghost found = in_force(locks.take(i as int), items);
                proof {
                    assert(locks.take(i + 1).drop_last() =~= locks.take(i as int));
                    assert(locks.take(i + 1).last() == lock@);
                }
                if is_delegated_lock(lock) {
                    let path: &Key = lock.path();
                    if let Ok(pk_key) = config::delegate_pubkey_key(path) {
                        if let Some(pubkey) = find_advertised(kvp, &pk_key) {
                            let item: PathDelegation = PathDelegation {
                                path: path.as_str().to_owned(),
                                pubkey,
                            };
                            insert_sorted(&mut out, item);
                            proof {
                                vstd::seq_lib::to_multiset_build(found, item@);
                            }
                        }
                    }
                }
                i = i + 1;
            }
            assert(locks.take(i as int) =~= locks);
        },
        VerifyStep::Rejected(_) => {},
    }
    Ok(out)
}

/// Fails unless the branch is delegated at the head of the log.
pub fn ensure_path_delegated(log: &Log, branch: &Key) -> (r: Result<(), Error>)
    ensures
        match r {
            Ok(()) => delegation_fault(log@, branch@) is None,
            Err(e) => delegation_fault(log@, branch@) == Some(e@),
        },
{
    let list: Vec<PathDelegation> = match list_delegations_of(log) {
        Ok(list) => list,
        Err(e) => {
            return Err(e);
        },
    };
    let ghost listed = model::views(list@);
    let ghost found = head_delegations(log@);
    let mut i: usize = 0;
    while i < list.len()
        invariant
            i <= list.len(),
            listed == model::views(list@),
            found == head_delegations(log@),
            lists(listed, found),
            values::verify_fault(log@.steps) is None,
            forall|k: int| 0 <= k < i ==> (#[trigger] listed[k]).path != branch@,
        decreases list.len() - i,
    {
        if text::same_text(list[i].path.as_str(), branch.as_str()) {
            proof {
                assert(listed.contains(listed[i as int]));
                lemma_same_members(listed, found, listed[i as int]);
                let k = choose|k: int| 0 <= k < found.len() && found[k] == listed[i as int];
                assert(head_delegations(log@)[k].path == branch@);
            }
            return Ok(());
        }
        i = i + 1;
    }
    proof {
        if is_delegated(log@, branch@) {
            let k = choose|k: int| 0 <= k < found.len() && #[trigger] found[k].path == branch@;
            assert(found.contains(found[k]));
            lemma_same_members(listed, found, found[k]);
            let j = choose|j: int| 0 <= j < listed.len() && listed[j] == found[k];
            assert(listed[j].path != branch@);
        }
    }
    Err(Error::PathNotDelegated(branch.as_str().to_owned()))
}

proof fn lemma_same_members(
    a: Seq<PathDelegationView>,
    b: Seq<PathDelegationView>,
    d: PathDelegationView,
)
    requires
        a.to_multiset() == b.to_multiset(),
    ensures
        a.contains(d) == b.contains(d),
{
    a.to_multiset_ensures();
    b.to_multiset_ensures();
    assert(a.contains(d) == (a.to_multiset().count(d) > 0));
    assert(b.contains(d) == (b.to_multiset().count(d) > 0));
}

/// Why an operation may not be part of a path update of `branch`, whose delegate key is at
/// `delegate`.
pub open spec fn op_fault(
    op: OpParamsView,
    branch: Seq<char>,
    delegate: Seq<char>,
) -> Option<ErrorView> {
    if op.key() == delegate {
        Some(
            ErrorView::InvalidOp(
                "cannot modify delegation key "@ + delegate
                    + " via path update; use revoke_path / delegate_path"@,
            ),
        )
    } else if !key::branch_covers(branch, op.key()) {
        Some(ErrorView::PathEscape(branch, op.key()))
    } else {
        None
    }
}

/// The fault of the first operation that has one.
pub open spec fn first_op_fault(
    list: Seq<OpParamsView>,
    branch: Seq<char>,
    delegate: Seq<char>,
) -> Option<ErrorView>
    decreases list.len(),
{
    if list.len() == 0 {
        None
    } else {
        match first_op_fault(list.drop_last(), branch, delegate) {
            Some(e) => Some(e),
            None => op_fault(list.last(), branch, delegate),
        }
    }
}

/// Why the operations may not form a path update of `branch`, if they may not.
pub open spec fn ops_fault(list: Seq<OpParamsView>, branch: Seq<char>) -> Option<ErrorView> {
    if list.len() == 0 {
        Some(ErrorView::InvalidOp("path update requires at least one operation"@))
    } else {
        match config::delegate_key(branch) {
            Err(e) => Some(e),
            Ok(delegate) => first_op_fault(list, branch, delegate),
        }
    }
}

proof fn lemma_op_fault_stays(
    list: Seq<OpParamsView>,
    branch: Seq<char>,
    delegate: Seq<char>,
    n: int,
)
    requires
        0 <= n <= list.len(),
        first_op_fault(list.take(n), branch, delegate) is Some,
    ensures
        first_op_fault(list, branch, delegate) == first_op_fault(list.take(n), branch, delegate),
    decreases list.len(),
{
    if n < list.len() {
        assert(list.drop_last().take(n) =~= list.take(n));
        lemma_op_fault_stays(list.drop_last(), branch, delegate, n);
    } else {
        assert(list.take(n) =~= list);
    }
}

/// Fails unless there are operations, all in the branch, none on the delegate's key.
pub fn ensure_ops_under_branch(list: &Vec<OpParams>, branch: &Key) -> (r: Result<(), Error>)
    ensures
        match r {
            Ok(()) => ops_fault(model::views(list@), branch@) is None,
            Err(e) => ops_fault(model::views(list@), branch@) == Some(e@),
        },
{
    if list.len() == 0 {
        return Err(Error::InvalidOp("path update requires at least one operation".to_owned()));
    }
    let delegate: Key = match config::delegate_pubkey_key(branch) {
        Ok(k) => k,
        Err(e) => {
            return Err(e);
        },
    };
    let ghost items = model::views(list@);
    let mut i: usize = 0;
    while i < list.len()
        invariant
            i <= list.len(),
            list.len() > 0,
            items == model::views(list@),
            config::delegate_key(branch@) == Ok::<Seq<char>, ErrorView>(delegate@),
            first_op_fault(items.take(i as int), branch@, delegate@) is None,
        decreases list.len() - i,
    {
        proof {
            assert(items.take(i + 1).drop_last() =~= items.take(i as int));
            assert(items.take(i + 1).last() == list@[i as int]@);
        }
        let k: &Key = ops::op_key(&list[i]);
        if k.same(&delegate) {
            proof {
                lemma_op_fault_stays(items, branch@, delegate@, i + 1);
            }
            return Err(
                Error::InvalidOp(
                    text::concat3(
                        "cannot modify delegation key ",
                        delegate.as_str(),
                        " via path update; use revoke_path / delegate_path",
                    ),
                ),
            );
        }
        if !config::key_under_branch(k, branch) {
            proof {
                lemma_op_fault_stays(items, branch@, delegate@, i + 1);
            }
            return Err(
                Error::PathEscape(branch.as_str().to_owned(), k.as_str().to_owned()),
            );
        }
        i = i + 1;
    }
    assert(items.take(i as int) =~= items);
    Ok(())
}

/// Operations that may form a path update all lie in the branch, and none is on the delegate's
/// key.
pub proof fn law_path_update_stays_in_branch(list: Seq<OpParamsView>, branch: Seq<char>, i: int)
    requires
        ops_fault(list, branch) is None,
        0 <= i < list.len(),
    ensures
        key::branch_covers(branch, list[i].key()),
        list[i].key() != branch + "pubkey"@,
{
    lemma_no_op_fault(list, branch, branch + "pubkey"@, i);
}

proof fn lemma_no_op_fault(
    list: Seq<OpParamsView>,
    branch: Seq<char>,
    delegate: Seq<char>,
    i: int,
)
    requires
        first_op_fault(list, branch, delegate) is None,
        0 <= i < list.len(),
    ensures
        op_fault(list[i], branch, delegate) is None,
    decreases list.len(),
{
    if i < list.len() - 1 {
        lemma_no_op_fault(list.drop_last(), branch, delegate, i);
    }
}

/// A delegation is in force exactly if a lock delegates its branch and the state advertises its
/// key there.
pub proof fn law_in_force(
    locks: Seq<ScriptView>,
    kvp: Seq<KvpItemView>,
    d: PathDelegationView,
)
    ensures
        in_force(locks, kvp).contains(d) <==> (exists|i: int|
            0 <= i < locks.len() && delegates(#[trigger] locks[i]) && locks[i].path() == d.path)
            && delegate_of(kvp, d.path) == Some(d.pubkey),
    decreases locks.len(),
{
    if locks.len() > 0 {
        let before = locks.drop_last();
        let lock = locks.last();
        law_in_force(before, kvp, d);
        let list = in_force(locks, kvp);
        let shorter = in_force(before, kvp);
        if shorter.contains(d) {
            let k = choose|k: int| 0 <= k < shorter.len() && shorter[k] == d;
            assert(list[k] == d);
            let i = choose|i: int|
                0 <= i < before.len() && delegates(#[trigger] before[i]) && before[i].path()
                    == d.path;
            assert(locks[i] == before[i]);
        } else {
            if list.contains(d) {
                let k = choose|k: int| 0 <= k < list.len() && list[k] == d;
                assert(k == shorter.len()) by {
                    if k < shorter.len() {
                        assert(shorter[k] == d);
                    }
                }
                assert(locks[locks.len() - 1] == lock);
            }
            if exists|i: int|
                0 <= i < locks.len() && delegates(#[trigger] locks[i]) && locks[i].path()
                    == d.path {
                let i = choose|i: int|
                    0 <= i < locks.len() && delegates(#[trigger] locks[i]) && locks[i].path()
                        == d.path;
                if i < before.len() {
                    assert(before[i] == locks[i]);
                } else if delegate_of(kvp, d.path) == Some(d.pubkey) {
                    assert(list[shorter.len() as int] == d);
                }
            }
        }
    }
}

proof fn lemma_replaced_members(
    locks: Seq<ScriptView>,
    path: Seq<char>,
    add: Option<ScriptView>,
    lock: ScriptView,
)
    ensures
        entry_update::replaced_locks(locks, path, add).contains(lock) <==> (locks.contains(lock)
            && lock.path() != path) || add == Some(lock),
{
    let off = |s: ScriptView| s.path() != path;
    let kept = entry_update::locks_off(locks, path);
    if kept.contains(lock) {
        locks.lemma_filter_contains_rev(off, lock);
        let k = choose|k: int| 0 <= k < kept.len() && kept[k] == lock;
        locks.lemma_filter_pred(off, k);
    }
    if locks.contains(lock) && off(lock) {
        let i = choose|i: int| 0 <= i < locks.len() && locks[i] == lock;
        locks.lemma_filter_contains(off, i);
    }
    match add {
        Some(s) => {
            let all = kept.push(s);
            if kept.contains(lock) {
                let k = choose|k: int| 0 <= k < kept.len() && kept[k] == lock;
                assert(all[k] == lock);
            }
            if s == lock {
                assert(all[kept.len() as int] == lock);
            }
            if all.contains(lock) {
                let k = choose|k: int| 0 <= k < all.len() && all[k] == lock;
                if k < kept.len() {
                    assert(kept[k] == lock);
                }
            }
        },
        None => {},
    }
}

/// Delegating a branch puts it in force: with the delegated lock in place of the branch's old
/// locks, and the delegate's key in the state, the delegation is listed.
pub proof fn law_delegated_branch_is_in_force(
    locks: Seq<ScriptView>,
    kvp: Seq<KvpItemView>,
    branch: Seq<char>,
    pubkey: Seq<char>,
)
    requires
        config::can_be_delegated(branch),
        delegate_of(kvp, branch) == Some(pubkey),
    ensures
        in_force(
            entry_update::replaced_locks(
                locks,
                branch,
                Some(ScriptView::Code(branch, config::delegated_code(branch))),
            ),
            kvp,
        ).contains(PathDelegationView { path: branch, pubkey }),
{
    let lock = ScriptView::Code(branch, config::delegated_code(branch));
    let replaced = entry_update::replaced_locks(locks, branch, Some(lock));
    config::law_delegated_lock_is_recognised(branch);
    assert(delegates(lock));
    lemma_replaced_members(locks, branch, Some(lock), lock);
    let i = choose|i: int| 0 <= i < replaced.len() && replaced[i] == lock;
    assert(delegates(replaced[i]));
    law_in_force(replaced, kvp, PathDelegationView { path: branch, pubkey });
}

/// Revoking a branch ends its delegation: whatever the state holds, none is in force for it.
pub proof fn law_revoked_branch_is_not_in_force(
    locks: Seq<ScriptView>,
    kvp: Seq<KvpItemView>,
    branch: Seq<char>,
    d: PathDelegationView,
)
    requires
        in_force(entry_update::replaced_locks(locks, branch, None), kvp).contains(d),
    ensures
        d.path != branch,
{
    let replaced = entry_update::replaced_locks(locks, branch, None);
    law_in_force(replaced, kvp, d);
    let i = choose|i: int|
        0 <= i < replaced.len() && delegates(#[trigger] replaced[i]) && replaced[i].path()
            == d.path;
    assert(replaced.contains(replaced[i]));
    lemma_replaced_members(locks, branch, None, replaced[i]);
}

/// Delegating or revoking a branch leaves the delegations of all other branches as they were,
/// where the state changes at most at the branch's own delegate key.
pub proof fn law_other_delegations_are_kept(
    locks: Seq<ScriptView>,
    before: Seq<KvpItemView>,
    after: Seq<KvpItemView>,
    branch: Seq<char>,
    add: Option<ScriptView>,
    d: PathDelegationView,
)
    requires
        add is Some ==> add->Some_0.path() == branch,
        d.path != branch,
        delegate_of(after, d.path) == delegate_of(before, d.path),
    ensures
        in_force(entry_update::replaced_locks(locks, branch, add), after).contains(d) == in_force(
            locks,
            before,
        ).contains(d),
{
    let replaced = entry_update::replaced_locks(locks, branch, add);
    law_in_force(replaced, after, d);
    law_in_force(locks, before, d);
    if exists|i: int|
        0 <= i < locks.len() && delegates(#[trigger] locks[i]) && locks[i].path() == d.path {
        let i = choose|i: int|
            0 <= i < locks.len() && delegates(#[trigger] locks[i]) && locks[i].path() == d.path;
        assert(locks.contains(locks[i]));
        lemma_replaced_members(locks, branch, add, locks[i]);
        let k = choose|k: int| 0 <= k < replaced.len() && replaced[k] == locks[i];
        assert(delegates(replaced[k]) && replaced[k].path() == d.path);
    }
    if exists|i: int|
        0 <= i < replaced.len() && delegates(#[trigger] replaced[i]) && replaced[i].path()
            == d.path {
        let i = choose|i: int|
            0 <= i < replaced.len() && delegates(#[trigger] replaced[i]) && replaced[i].path()
                == d.path;
        assert(replaced.contains(replaced[i]));
        lemma_replaced_members(locks, branch, add, replaced[i]);
        let k = choose|k: int| 0 <= k < locks.len() && locks[k] == replaced[i];
        assert(delegates(locks[k]) && locks[k].path() == d.path);
    }
}

/// The list of delegations in force is fixed by the locks and the state: there is only one.
pub proof fn law_listing_is_unique(
    a: Seq<PathDelegationView>,
    b: Seq<PathDelegationView>,
    locks: Seq<ScriptView>,
    kvp: Seq<KvpItemView>,
)
    requires
        lists(a, in_force(locks, kvp)),
        lists(b, in_force(locks, kvp)),
    ensures
        a == b,
{
    let found = in_force(locks, kvp);
    assert forall|i: int, j: int|
        0 <= i < a.len() && 0 <= j < a.len() && a[i].path == a[j].path implies a[i] == a[j] by {
        assert(a.contains(a[i]) && a.contains(a[j]));
        lemma_same_members(a, found, a[i]);
        lemma_same_members(a, found, a[j]);
        law_in_force(locks, kvp, a[i]);
        law_in_force(locks, kvp, a[j]);
    }
    lemma_sorted_unique(a, b);
}

proof fn lemma_sorted_unique(a: Seq<PathDelegationView>, b: Seq<PathDelegationView>)
    requires
        sorted_by_path(a),
        sorted_by_path(b),
        a.to_multiset() == b.to_multiset(),
        forall|i: int, j: int|
            0 <= i < a.len() && 0 <= j < a.len() && a[i].path == a[j].path ==> a[i] == a[j],
    ensures
        a == b,
    decreases a.len(),
{
    a.to_multiset_ensures();
    b.to_multiset_ensures();
    assert(a.len() == b.len());
    if a.len() == 0 {
        assert(a =~= b);
    } else {
        let n = a.len() - 1;
        let last_a = a[n];
        let last_b = b[n];
        assert(a.contains(last_a) && b.contains(last_b));
        lemma_same_members(a, b, last_a);
        lemma_same_members(a, b, last_b);
        let i = choose|i: int| 0 <= i < b.len() && b[i] == last_a;
        let j = choose|j: int| 0 <= j < a.len() && a[j] == last_b;
        text::lemma_text_le_total(last_a.path, last_a.path);
        text::lemma_text_le_total(last_b.path, last_b.path);
        assert(text::text_le(b[i].path, b[n].path));
        assert(text::text_le(a[j].path, a[n].path));
        text::lemma_text_le_antisymmetric(last_a.path, last_b.path);
        assert(a[n] == a[j]);
        let rest_a = a.drop_last();
        let rest_b = b.drop_last();
        assert(a.remove(n) =~= rest_a);
        assert(b.remove(n) =~= rest_b);
        lemma_sorted_unique(rest_a, rest_b);
        assert(a =~= rest_a.push(last_a));
        assert(b =~= rest_b.push(last_b));
    }
}

/// The delegations of a branch.
pub open spec fn of_branch(list: Seq<PathDelegationView>, branch: Seq<char>) -> Seq<
    PathDelegationView,
> {
    list.filter(|d: PathDelegationView| d.path == branch)
}

/// The delegations of all other branches, in their order.
pub open spec fn of_others(list: Seq<PathDelegationView>, branch: Seq<char>) -> Seq<
    PathDelegationView,
> {
    list.filter(|d: PathDelegationView| d.path != branch)
}

/// The states advertise the same key for every branch but one.
pub open spec fn agree_but_for(
    before: Seq<KvpItemView>,
    after: Seq<KvpItemView>,
    branch: Seq<char>,
) -> bool {
    forall|other: Seq<char>|
        other != branch ==> #[trigger] delegate_of(after, other) == delegate_of(before, other)
}

/// After a revocation the delegations in force are the old ones without the branch, in the same
/// order.
pub proof fn law_revocation_drops_one_branch(
    locks: Seq<ScriptView>,
    before: Seq<KvpItemView>,
    after: Seq<KvpItemView>,
    branch: Seq<char>,
)
    requires
        agree_but_for(before, after, branch),
    ensures
        in_force(entry_update::replaced_locks(locks, branch, None), after) == of_others(
            in_force(locks, before),
            branch,
        ),
    decreases locks.len(),
{
    reveal(Seq::filter);
    let found = in_force(locks, before);
    let kept = entry_update::locks_off(locks, branch);
    if locks.len() == 0 {
        assert(in_force(kept, after) =~= of_others(found, branch));
    } else {
        let rest = locks.drop_last();
        let lock = locks.last();
        let found_rest = in_force(rest, before);
        let kept_rest = entry_update::locks_off(rest, branch);
        law_revocation_drops_one_branch(rest, before, after, branch);
        if lock.path() != branch {
            assert(kept == kept_rest.push(lock));
            assert(kept.drop_last() =~= kept_rest);
            assert(delegate_of(after, lock.path()) == delegate_of(before, lock.path()));
        }
        if delegates(lock) && delegate_of(before, lock.path()) is Some {
            assert(found.drop_last() =~= found_rest);
        }
        assert(in_force(kept, after) =~= of_others(found, branch));
    }
}

/// A delegated branch is in force once, with the key that the state holds, and the delegations
/// of all other branches are the old ones, in the same order.
pub proof fn law_delegation_is_in_force_once(
    locks: Seq<ScriptView>,
    before: Seq<KvpItemView>,
    after: Seq<KvpItemView>,
    branch: Seq<char>,
    pubkey: Seq<char>,
)
    requires
        config::can_be_delegated(branch),
        delegate_of(after, branch) == Some(pubkey),
        agree_but_for(before, after, branch),
    ensures
        ({
            let found = in_force(
                entry_update::replaced_locks(
                    locks,
                    branch,
                    Some(ScriptView::Code(branch, config::delegated_code(branch))),
                ),
                after,
            );
            &&& of_branch(found, branch) == seq![PathDelegationView { path: branch, pubkey }]
            &&& of_others(found, branch) == of_others(in_force(locks, before), branch)
        }),
{
    let lock = ScriptView::Code(branch, config::delegated_code(branch));
    let kept = entry_update::locks_off(locks, branch);
    let others = in_force(kept, after);
    let d = PathDelegationView { path: branch, pubkey };
    let found = in_force(kept.push(lock), after);
    law_revocation_drops_one_branch(locks, before, after, branch);
    config::law_delegated_lock_is_recognised(branch);
    assert(delegates(lock));
    assert(kept.push(lock).drop_last() =~= kept);
    assert(found == others.push(d));
    let here = |x: PathDelegationView| x.path == branch;
    let away = |x: PathDelegationView| x.path != branch;
    model::lemma_filtered(in_force(locks, before), away);
    model::lemma_filter_none(others, here);
    model::lemma_filter_all(others, away);
    reveal(Seq::filter);
    assert(found.drop_last() =~= others);
    assert(found.filter(here) =~= seq![d]);
    assert(found.filter(away) =~= others);
}

proof fn lemma_filter_sorted(
    list: Seq<PathDelegationView>,
    pred: spec_fn(PathDelegationView) -> bool,
)
    requires
        sorted_by_path(list),
    ensures
        sorted_by_path(list.filter(pred)),
        forall|i: int|
            0 <= i < list.filter(pred).len() ==> list.contains(#[trigger] list.filter(pred)[i]),
    decreases list.len(),
{
    reveal(Seq::filter);
    if list.len() > 0 {
        let rest = list.drop_last();
        let part = rest.filter(pred);
        let whole = list.filter(pred);
        lemma_filter_sorted(rest, pred);
        assert forall|i: int| 0 <= i < whole.len() implies list.contains(#[trigger] whole[i]) by {
            if i < part.len() {
                assert(rest.contains(part[i]));
                let k = choose|k: int| 0 <= k < rest.len() && rest[k] == part[i];
                assert(list[k] == whole[i]);
            } else {
                assert(list[list.len() - 1] == whole[i]);
            }
        }
        assert forall|i: int, j: int| 0 <= i < j < whole.len() implies text::text_le(
            #[trigger] whole[i].path,
            #[trigger] whole[j].path,
        ) by {
            assert(rest.contains(part[i]));
            if j < part.len() {
                assert(text::text_le(part[i].path, part[j].path));
            } else {
                let k = choose|k: int| 0 <= k < rest.len() && rest[k] == part[i];
                assert(text::text_le(list[k].path, list[list.len() - 1].path));
            }
        }
    }
}

/// A part of a listing, taken by a condition, lists the part of what was found.
proof fn lemma_part_of_listing(
    list: Seq<PathDelegationView>,
    found: Seq<PathDelegationView>,
    pred: spec_fn(PathDelegationView) -> bool,
)
    requires
        lists(list, found),
    ensures
        lists(list.filter(pred), found.filter(pred)),
{
    lemma_filter_sorted(list, pred);
    model::lemma_filter_multiset(list, pred);
    model::lemma_filter_multiset(found, pred);
}

/// After a revocation the list is the old one without the branch: the others are kept, in the
/// same order.
pub proof fn law_revoked_branch_leaves_the_list(
    locks: Seq<ScriptView>,
    before: Seq<KvpItemView>,
    after: Seq<KvpItemView>,
    branch: Seq<char>,
    old_list: Seq<PathDelegationView>,
    new_list: Seq<PathDelegationView>,
)
    requires
        agree_but_for(before, after, branch),
        lists(old_list, in_force(locks, before)),
        lists(new_list, in_force(entry_update::replaced_locks(locks, branch, None), after)),
    ensures
        new_list == of_others(old_list, branch),
{
    let away = |d: PathDelegationView| d.path != branch;
    law_revocation_drops_one_branch(locks, before, after, branch);
    lemma_part_of_listing(old_list, in_force(locks, before), away);
    law_listing_is_unique(
        new_list,
        old_list.filter(away),
        entry_update::replaced_locks(locks, branch, None),
        after,
    );
}

/// After a delegation the branch is listed once, with the delegate's key, whether it was
/// delegated before or not; the others are listed as before.
pub proof fn law_delegated_branch_is_listed_once(
    locks: Seq<ScriptView>,
    before: Seq<KvpItemView>,
    after: Seq<KvpItemView>,
    branch: Seq<char>,
    pubkey: Seq<char>,
    old_list: Seq<PathDelegationView>,
    new_list: Seq<PathDelegationView>,
)
    requires
        config::can_be_delegated(branch),
        delegate_of(after, branch) == Some(pubkey),
        agree_but_for(before, after, branch),
        lists(old_list, in_force(locks, before)),
        lists(
            new_list,
            in_force(
                entry_update::replaced_locks(
                    locks,
                    branch,
                    Some(ScriptView::Code(branch, config::delegated_code(branch))),
                ),
                after,
            ),
        ),
    ensures
        of_branch(new_list, branch) == seq![PathDelegationView { path: branch, pubkey }],
        of_others(new_list, branch) == of_others(old_list, branch),
        of_others(old_list, branch).len() == 0 ==> new_list == seq![
            PathDelegationView { path: branch, pubkey },
        ],
{
    let lock = ScriptView::Code(branch, config::delegated_code(branch));
    let found = in_force(entry_update::replaced_locks(locks, branch, Some(lock)), after);
    let here = |d: PathDelegationView| d.path == branch;
    let away = |d: PathDelegationView| d.path != branch;
    let d = PathDelegationView { path: branch, pubkey };
    law_delegation_is_in_force_once(locks, before, after, branch, pubkey);
    lemma_part_of_listing(new_list, found, here);
    lemma_part_of_listing(new_list, found, away);
    lemma_part_of_listing(old_list, in_force(locks, before), away);
    law_revocation_drops_one_branch(locks, before, after, branch);
    law_listing_is_unique(
        new_list.filter(away),
        old_list.filter(away),
        entry_update::locks_off(locks, branch),
        after,
    );
    let own = new_list.filter(here);
    own.to_multiset_ensures();
    seq![d].to_multiset_ensures();
    assert(own.len() == 1);
    assert(own.contains(own[0]));
    lemma_same_members(own, seq![d], own[0]);
    assert(own =~= seq![d]);
    if of_others(old_list, branch).len() == 0 {
        assert forall|i: int| 0 <= i < new_list.len() implies here(#[trigger] new_list[i]) by {
            if away(new_list[i]) {
                new_list.lemma_filter_contains(away, i);
            }
        }
        model::lemma_filter_all(new_list, here);
    }
}

/// A delegate may do anything in its branch, by operations of every kind, but touch the delegate
/// key: operations form a path update exactly if there are some, each is on a key that the branch
/// covers, and none is on the `pubkey` leaf of the branch.
pub proof fn law_delegate_rules_its_branch(list: Seq<OpParamsView>, branch: Seq<char>)
    requires
        key::is_branch_path(branch),
    ensures
        ops_fault(list, branch) is None <==> list.len() > 0 && forall|i: int|
            0 <= i < list.len() ==> key::branch_covers(branch, (#[trigger] list[i]).key())
                && list[i].key() != branch + "pubkey"@,
{
    let delegate = branch + "pubkey"@;
    if ops_fault(list, branch) is None {
        assert forall|i: int| 0 <= i < list.len() implies key::branch_covers(
            branch,
            (#[trigger] list[i]).key(),
        ) && list[i].key() != delegate by {
            law_path_update_stays_in_branch(list, branch, i);
        }
    } else if list.len() > 0 {
        if forall|i: int|
            0 <= i < list.len() ==> key::branch_covers(branch, (#[trigger] list[i]).key())
                && list[i].key() != delegate {
            lemma_all_admitted(list, branch, delegate);
        }
    }
}

proof fn lemma_all_admitted(list: Seq<OpParamsView>, branch: Seq<char>, delegate: Seq<char>)
    requires
        forall|i: int|
            0 <= i < list.len() ==> key::branch_covers(branch, (#[trigger] list[i]).key())
                && list[i].key() != delegate,
    ensures
        first_op_fault(list, branch, delegate) is None,
    decreases list.len(),
{
    if list.len() > 0 {
        let before = list.drop_last();
        assert forall|i: int| 0 <= i < before.len() implies key::branch_covers(
            branch,
            (#[trigger] before[i]).key(),
        ) && before[i].key() != delegate by {
            assert(before[i] == list[i]);
        }
        lemma_all_admitted(before, branch, delegate);
        assert(list[list.len() - 1].key() != delegate);
    }
}

/// Where operations do not form a path update, the first offending one decides the error: a
/// change of the delegate key, or a key outside the branch. No operations are refused as such,
/// and so is a path that is no branch.
pub proof fn law_first_offence_decides(list: Seq<OpParamsView>, branch: Seq<char>, i: int)
    requires
        0 <= i < list.len(),
        key::is_branch_path(branch),
        forall|j: int|
            0 <= j < i ==> key::branch_covers(branch, (#[trigger] list[j]).key()) && list[j].key()
                != branch + "pubkey"@,
    ensures
        list[i].key() == branch + "pubkey"@ ==> ops_fault(list, branch) == Some(
            ErrorView::InvalidOp(
                "cannot modify delegation key "@ + (branch + "pubkey"@)
                    + " via path update; use revoke_path / delegate_path"@,
            ),
        ),
        list[i].key() != branch + "pubkey"@ && !key::branch_covers(branch, list[i].key())
            ==> ops_fault(list, branch) == Some(ErrorView::PathEscape(branch, list[i].key())),
{
    let delegate = branch + "pubkey"@;
    let head = list.take(i);
    assert forall|j: int| 0 <= j < head.len() implies key::branch_covers(
        branch,
        (#[trigger] head[j]).key(),
    ) && head[j].key() != delegate by {
        assert(head[j] == list[j]);
    }
    lemma_all_admitted(head, branch, delegate);
    assert(list.take(i + 1).drop_last() =~= head);
    assert(list.take(i + 1).last() == list[i]);
    if first_op_fault(list.take(i + 1), branch, delegate) is Some {
        lemma_op_fault_stays(list, branch, delegate, i + 1);
    }
}

/// Without operations there is no path update, and none of a path that is no branch.
pub proof fn law_path_update_needs_operations(list: Seq<OpParamsView>, branch: Seq<char>)
    ensures
        ops_fault(Seq::empty(), branch) == Some(
            ErrorView::InvalidOp("path update requires at least one operation"@),
        ),
        list.len() > 0 && !key::is_branch_path(branch) ==> ops_fault(list, branch) == Some(
            ErrorView::InvalidOp(
                "delegation path must be a branch (trailing '/'), got "@ + branch,
            ),
        ),
{
}

/// A lock delegates its branch exactly if it is source code, bound to a branch below the root,
/// that checks the signature of the key at the branch's `pubkey` leaf, by its absolute or by its
/// relative path.
pub proof fn law_delegating_locks(
    path: Seq<char>,
    code: Seq<char>,
    bytes: Seq<u8>,
    cid: crate::plog::CidView,
)
    ensures
        delegates(ScriptView::Code(path, code)) <==> {
            &&& key::is_branch_path(path) && path != seq!['/']
            &&& text::occurs_in(code, "check_signature(\""@ + path + "pubkey\""@)
                || text::occurs_in(code, "branch(\"pubkey\")"@)
        },
        !delegates(ScriptView::Bin(path, bytes)),
        !delegates(ScriptView::Cid(path, cid)),
{
    reveal_strlit("/");
    assert("/"@ =~= seq!['/']);
}

/// An item advertises its text, or the Multikey that its data is; nothing else is a key.
pub proof fn law_advertised_keys(item: KvpItemView, s: Seq<char>, data: Seq<u8>)
    ensures
        item.value == ValueView::Str(s) ==> advertised(item) == Some(s),
        item.value == ValueView::Data(data) ==> advertised(item) == item.multikey,
        item.value is Nil ==> advertised(item) is None,
{
}

/// The key at a path is that of the first item there which advertises one.
pub proof fn law_first_advertised_key(kvp: Seq<KvpItemView>, key: Seq<char>, i: int)
    requires
        0 <= i <= kvp.len(),
        forall|j: int|
            0 <= j < i ==> (#[trigger] kvp[j]).key != key || advertised(kvp[j]) is None,
    ensures
        i == kvp.len() ==> advertised_at(kvp, key) is None,
        i < kvp.len() && kvp[i].key == key && advertised(kvp[i]) is Some ==> advertised_at(kvp, key)
            == advertised(kvp[i]),
    decreases kvp.len(),
{
    if kvp.len() > 0 {
        let before = kvp.drop_last();
        let last = kvp[kvp.len() - 1];
        assert forall|j: int| 0 <= j < i && j < before.len() implies (#[trigger] before[j]).key
            != key || advertised(before[j]) is None by {
            assert(before[j] == kvp[j]);
        }
        if i == kvp.len() {
            law_first_advertised_key(before, key, before.len() as int);
            assert(last.key != key || advertised(last) is None);
        } else {
            law_first_advertised_key(before, key, i);
            if i < before.len() {
                assert(before[i] == kvp[i]);
            }
        }
    }
}

/// The delegations in force follow the locks one by one: a delegating lock whose branch has a key
/// adds that branch with the key at its `pubkey` leaf, and every other lock adds none.
pub proof fn law_delegations_follow_locks(
    locks: Seq<ScriptView>,
    lock: ScriptView,
    kvp: Seq<KvpItemView>,
)
    ensures
        in_force(Seq::empty(), kvp) == Seq::<PathDelegationView>::empty(),
        ({
            let pubkey = advertised_at(kvp, lock.path() + "pubkey"@);
            in_force(locks.push(lock), kvp) == if delegates(lock) && pubkey is Some {
                in_force(locks, kvp).push(
                    PathDelegationView { path: lock.path(), pubkey: pubkey->Some_0 },
                )
            } else {
                in_force(locks, kvp)
            }
        }),
        delegate_of(kvp, lock.path()) == advertised_at(kvp, lock.path() + "pubkey"@),
{
    assert(locks.push(lock).drop_last() =~= locks);
}

/// The delegations of a log are those of the locks and the state of its last entry.
pub proof fn law_delegations_of_the_head(log: LogView, v: crate::plog::VerifiedEntryView)
    requires
        log.steps.len() > 0,
        log.steps[log.steps.len() - 1] == crate::plog::VerifyStepView::Verified(v),
    ensures
        head_delegations(log) == in_force(v.entry.locks, v.kvp),
{
}

/// A listing holds every delegation as often as it was found, and nothing else, in the order of
/// the paths.
pub proof fn law_listing(list: Seq<PathDelegationView>, found: Seq<PathDelegationView>)
    ensures
        lists(list, found) <==> {
            &&& forall|d: PathDelegationView| #[trigger]
                list.to_multiset().count(d) == found.to_multiset().count(d)
            &&& forall|i: int, j: int|
                0 <= i < j < list.len() ==> text::text_le(
                    (#[trigger] list[i]).path,
                    (#[trigger] list[j]).path,
                )
        },
{
    if forall|d: PathDelegationView| #[trigger]
        list.to_multiset().count(d) == found.to_multiset().count(d) {
        assert(list.to_multiset() =~= found.to_multiset());
    }
    if forall|i: int, j: int|
        0 <= i < j < list.len() ==> text::text_le(
            (#[trigger] list[i]).path,
            (#[trigger] list[j]).path,
        ) {
        assert forall|i: int, j: int| 0 <= i < j < list.len() implies text::text_le(
            #[trigger] list[i].path,
            #[trigger] list[j].path,
        ) by {
            assert(text::text_le((list[i]).path, (list[j]).path));
        }
    }
}

/// A branch counts as delegated exactly if the log verifies and a delegation of the branch is in
/// force at its head; otherwise the log's fault is told, or that the branch is not delegated.
pub proof fn law_delegated_branches(log: LogView, branch: Seq<char>)
    ensures
        delegation_fault(log, branch) is None <==> values::verify_fault(log.steps) is None
            && exists|d: PathDelegationView|
            head_delegations(log).contains(d) && #[trigger] d.path == branch,
        values::verify_fault(log.steps) is Some ==> delegation_fault(log, branch)
            == values::verify_fault(log.steps),
        values::verify_fault(log.steps) is None && delegation_fault(log, branch) is Some
            ==> delegation_fault(log, branch) == Some(ErrorView::PathNotDelegated(branch)),
        is_delegated(log, branch) <==> exists|d: PathDelegationView|
            head_delegations(log).contains(d) && #[trigger] d.path == branch,
{
    let found = head_delegations(log);
    if is_delegated(log, branch) {
        let i = choose|i: int| 0 <= i < found.len() && #[trigger] found[i].path == branch;
        assert(found.contains(found[i]) && found[i].path == branch);
    }
    if exists|d: PathDelegationView| found.contains(d) && #[trigger] d.path == branch {
        let d = choose|d: PathDelegationView| found.contains(d) && #[trigger] d.path == branch;
        let i = choose|i: int| 0 <= i < found.len() && found[i] == d;
        assert(found[i].path == branch);
    }
}

/// The fields of a delegation are its values.
pub proof fn law_delegation_values(d: PathDelegation)
    ensures
        d@.path == d.path@ && d@.pubkey == d.pubkey@,
{
}

}
