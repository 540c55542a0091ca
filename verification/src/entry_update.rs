//! Assembly of the next log entry, for signatures that are made elsewhere.
//!
//! An entry is assembled from the verified head, serialized and signed outside, and then appended
//! with its proof. Assembling it here makes it possible to replace lock scripts, not only to add
//! to them.

use crate::config;
use crate::error;
use crate::error::{Error, ErrorView};
use crate::key::Key;
use crate::model;
use crate::ops::{OpParams, OpParamsView};
use crate::plog::{
    Cid, CidView, Entry, EntryView, Log, Multikey, Op, OpView, Script, ScriptView,
    Value, ValueView, VerifyStep, VerifyStepView, Vlad,
};
use vstd::prelude::*;
use vstd::string::*;

verus! {

/// Entry that follows the head, complete but for its proof.
#[derive(Debug, PartialEq, Eq)]
pub struct NextEntry {
    /// Account the entry belongs to.
    pub vlad: Vlad,
    /// Content identifier of the entry before it.
    pub prev: Cid,
    /// Position in the log.
    pub seqno: u64,
    /// Lock scripts that the entry after it has to satisfy.
    pub locks: Vec<Script>,
    /// Unlock script.
    pub unlock: Script,
    /// Mutations.
    pub ops: Vec<Op>,
    /// Content identifier of the entry that the long hop leads back to, where the position has
    /// one.
    pub lipmaa: Option<Cid>,
}

/// A [`NextEntry`] as a mathematical value.
#[verifier::ext_equal]
pub struct NextEntryView {
    pub vlad: Seq<char>,
    pub prev: CidView,
    pub seqno: int,
    pub locks: Seq<ScriptView>,
    pub unlock: ScriptView,
    pub ops: Seq<OpView>,
    pub lipmaa: Option<CidView>,
}

impl View for NextEntry {
    type V = NextEntryView;

    open spec fn view(&self) -> NextEntryView {
        NextEntryView {
            vlad: self.vlad@,
            prev: self.prev@,
            seqno: self.seqno as int,
            locks: model::views(self.locks@),
            unlock: self.unlock@,
            ops: model::views(self.ops@),
            lipmaa: model::opt(self.lipmaa),
        }
    }
}

/// A fully assembled unsigned entry, with the bytes to sign.
#[derive(Debug, PartialEq, Eq)]
pub struct UnsignedUpdate {
    /// Entry without proof.
    pub entry: NextEntry,
    /// Canonical serialized form that signers sign over.
    pub message: Vec<u8>,
}

/// An [`UnsignedUpdate`] as a mathematical value.
#[verifier::ext_equal]
pub struct UnsignedUpdateView {
    pub entry: NextEntryView,
    pub message: Seq<u8>,
}

impl View for UnsignedUpdate {
    type V = UnsignedUpdateView;

    open spec fn view(&self) -> UnsignedUpdateView {
        UnsignedUpdateView { entry: self.entry@, message: self.message@ }
    }
}

/// Where the long hop of a position leads.
#[derive(Debug, PartialEq, Eq)]
pub struct LongHop {
    /// Position of the entry that the hop leads back to.
    pub seqno: u64,
    /// What the log implementation says if it has no entry there.
    pub missing: String,
}

/// A [`LongHop`] as a mathematical value.
#[verifier::ext_equal]
pub struct LongHopView {
    pub seqno: int,
    pub missing: Seq<char>,
}

impl View for LongHop {
    type V = LongHopView;

    open spec fn view(&self) -> LongHopView {
        LongHopView { seqno: self.seqno as int, missing: self.missing@ }
    }
}

/// What the next entry is to contain.
#[derive(Debug, PartialEq, Eq)]
pub struct NextEntrySpec {
    /// Unlock script of the new entry.
    pub unlock: Script,
    /// Complete set of lock scripts for the entry after it; without one, the head's are kept.
    pub locks: Option<Vec<Script>>,
    /// Operations of the new entry.
    pub ops: Vec<OpParams>,
}

/// A [`NextEntrySpec`] as a mathematical value.
#[verifier::ext_equal]
pub struct NextEntrySpecView {
    pub unlock: ScriptView,
    pub locks: Option<Seq<ScriptView>>,
    pub ops: Seq<OpParamsView>,
}

impl View for NextEntrySpec {
    type V = NextEntrySpecView;

    open spec fn view(&self) -> NextEntrySpecView {
        NextEntrySpecView {
            unlock: self.unlock@,
            locks: match self.locks {
                Some(l) => Some(model::views(l@)),
                None => None,
            },
            ops: model::views(self.ops@),
        }
    }
}

impl Default for NextEntrySpec {
    fn default() -> (r: NextEntrySpec)
        ensures
            r@ == (NextEntrySpecView {
                unlock: config::unlock_script(),
                locks: None,
                ops: Seq::empty(),
            }),
    {
        NextEntrySpec { unlock: config::default_unlock_script(), locks: None, ops: Vec::new() }
    }
}

/// The error for a log without entries.
pub open spec fn empty_log() -> ErrorView {
    ErrorView::PlogVerifyFailed("empty provenance log"@)
}

/// The head entry, or why there is none to build on: the log has no entry, or the last one was
/// rejected.
pub open spec fn head_entry(steps: Seq<VerifyStepView>) -> Result<EntryView, ErrorView> {
    if steps.len() == 0 {
        Err(empty_log())
    } else {
        match steps.last() {
            VerifyStepView::Verified(v) => Ok(v.entry),
            VerifyStepView::Rejected(reason) => Err(ErrorView::Plog(reason)),
        }
    }
}

/// The head has a position that a following entry can take.
pub open spec fn can_grow(steps: Seq<VerifyStepView>) -> bool {
    head_entry(steps) is Ok ==> head_entry(steps)->Ok_0.seqno < u64::MAX
}

/// The error for an operation that only a key manager can carry out.
pub open spec fn unresolved_op() -> ErrorView {
    ErrorView::InvalidOp(
        "KeyGen/CidGen must be resolved by BetterSign before entry assembly"@,
    )
}

/// The mutation that an operation stands for.
pub open spec fn mutation(op: OpParamsView) -> Result<OpView, ErrorView> {
    match op {
        OpParamsView::Noop { key } => Ok(OpView::Noop(key)),
        OpParamsView::Delete { key } => Ok(OpView::Delete(key)),
        OpParamsView::UseCid { key, cid } => Ok(OpView::Update(key, ValueView::Data(cid.bytes))),
        OpParamsView::UseKey { key, mk } => Ok(OpView::Update(key, ValueView::Data(mk.bytes))),
        OpParamsView::UseStr { key, s } => Ok(OpView::Update(key, ValueView::Str(s))),
        OpParamsView::UseBin { key, data } => Ok(OpView::Update(key, ValueView::Data(data))),
        OpParamsView::KeyGen { .. } => Err(unresolved_op()),
        OpParamsView::CidGen { .. } => Err(unresolved_op()),
    }
}

/// Every operation can be turned into a mutation.
pub open spec fn all_resolved(ops: Seq<OpParamsView>) -> bool {
    forall|i: int| 0 <= i < ops.len() ==> (#[trigger] mutation(ops[i])) is Ok
}

/// The mutations that the operations stand for, in the same order.
pub open spec fn mutations(ops: Seq<OpParamsView>) -> Seq<OpView> {
    Seq::new(ops.len(), |i: int| mutation(ops[i])->Ok_0)
}

/// The verified entry of a log at a position.
pub open spec fn entry_at(steps: Seq<VerifyStepView>, seqno: int) -> Option<EntryView>
    decreases steps.len(),
{
    if steps.len() == 0 {
        None
    } else {
        match steps.last() {
            VerifyStepView::Verified(v) if v.entry.seqno == seqno => Some(v.entry),
            _ => entry_at(steps.drop_last(), seqno),
        }
    }
}

/// The link of an entry whose long hop leads to `longhop`: the content identifier of the log's
/// entry there, or the log's complaint that it has none. A position without a long hop has no
/// link.
pub open spec fn longhop_link(steps: Seq<VerifyStepView>, longhop: Option<LongHopView>) -> Result<
    Option<CidView>,
    ErrorView,
> {
    match longhop {
        None => Ok(None),
        Some(hop) => match entry_at(steps, hop.seqno) {
            Some(entry) => Ok(Some(entry.cid)),
            None => Err(ErrorView::Plog(hop.missing)),
        },
    }
}

/// The entry that follows the head of a log, or why there is none. `longhop` is where the new
/// position's long hop leads, if it has one.
pub open spec fn next_entry(
    steps: Seq<VerifyStepView>,
    wanted: NextEntrySpecView,
    longhop: Option<LongHopView>,
) -> Result<NextEntryView, ErrorView> {
    match head_entry(steps) {
        Err(e) => Err(e),
        Ok(head) => if !all_resolved(wanted.ops) {
            Err(unresolved_op())
        } else {
            match longhop_link(steps, longhop) {
                Err(e) => Err(e),
                Ok(lipmaa) => Ok(
                    NextEntryView {
                        vlad: head.vlad,
                        prev: head.cid,
                        seqno: head.seqno + 1,
                        locks: match wanted.locks {
                            Some(l) => l,
                            None => head.locks,
                        },
                        unlock: wanted.unlock,
                        ops: mutations(wanted.ops),
                        lipmaa,
                    },
                ),
            }
        },
    }
}

/// The head entry of a log.
pub fn verified_head(plog: &Log) -> (r: Result<&Entry, Error>)
    ensures
        match r {
            Ok(e) => head_entry(plog@.steps) == Ok::<EntryView, ErrorView>(e@),
            Err(e) => head_entry(plog@.steps) == Err::<EntryView, ErrorView>(e@),
        },
{
    let n: usize = plog.steps.len();
    if n == 0 {
        return Err(Error::PlogVerifyFailed("empty provenance log".to_owned()));
    }
    assert(plog@.steps.last() == plog.steps@[n - 1]@);
    match &plog.steps[n - 1] {
        VerifyStep::Verified(v) => Ok(&v.entry),
        VerifyStep::Rejected(reason) => Err(Error::Plog(reason.clone())),
    }
}

/// Whether the head has a position that a following entry can take.
pub fn has_next_position(plog: &Log) -> (r: bool)
    ensures
        r == can_grow(plog@.steps),
{
    match verified_head(plog) {
        Ok(head) => head.seqno < u64::MAX,
        Err(_) => true,
    }
}

/// The position of the entry that follows the head.
pub fn next_seqno(plog: &Log) -> (r: Result<u64, Error>)
    requires
        can_grow(plog@.steps),
    ensures
        match r {
            Ok(n) => head_entry(plog@.steps) is Ok && n == head_entry(plog@.steps)->Ok_0.seqno + 1,
            Err(e) => head_entry(plog@.steps) == Err::<EntryView, ErrorView>(e@),
        },
{
    match verified_head(plog) {
        Ok(head) => Ok(head.seqno + 1),
        Err(e) => Err(e),
    }
}

/// A copy of lock scripts.
fn copy_scripts(scripts: &Vec<Script>) -> (r: Vec<Script>)
    ensures
        model::views(r@) == model::views(scripts@),
{
    let mut out: Vec<Script> = Vec::new();
    let mut i: usize = 0;
    while i < scripts.len()
        invariant
            i <= scripts.len(),
            model::views(out@) == model::views(scripts@).take(i as int),
        decreases scripts.len() - i,
    {
        let ghost before = out@;
        let script: Script = scripts[i].clone();
        out.push(script);
        proof {
            model::lemma_views_push(before, script);
            assert(model::views(scripts@).take(i as int).push(script@) =~= model::views(
                scripts@,
            ).take(i + 1));
        }
        i = i + 1;
    }
    assert(model::views(out@) =~= model::views(scripts@));
    out
}

/// The content identifier of the log's verified entry at a position.
fn cid_at(plog: &Log, seqno: u64) -> (r: Option<Cid>)
    ensures
        match (r, entry_at(plog@.steps, seqno as int)) {
            (Some(cid), Some(entry)) => cid@ == entry.cid,
            (None, None) => true,
            _ => false,
        },
{
    let ghost steps = plog@.steps;
    let mut i: usize = plog.steps.len();
    assert(steps.take(i as int) =~= steps);
    while i > 0
        invariant
            i <= plog.steps.len(),
            steps == plog@.steps,
            entry_at(steps, seqno as int) == entry_at(steps.take(i as int), seqno as int),
        decreases i,
    {
        proof {
            assert(steps.take(i as int).last() == plog.steps@[i - 1]@);
            assert(steps.take(i as int).drop_last() =~= steps.take(i - 1));
        }
        i = i - 1;
        match &plog.steps[i] {
            VerifyStep::Verified(v) => {
                if v.entry.seqno == seqno {
                    return Some(v.entry.cid.clone());
                }
            },
            VerifyStep::Rejected(_) => {},
        }
    }
    None
}

/// Builds the next unsigned entry from the log's verified head. `longhop` is where the long hop
/// of [`next_seqno`] leads, if that position has one; the entry is linked to the log's entry
/// there.
pub fn prepare_next_entry(
    plog: &Log,
    wanted: NextEntrySpec,
    longhop: Option<LongHop>,
) -> (r: Result<NextEntry, Error>)
    requires
        can_grow(plog@.steps),
    ensures
        error::outcome(r) == next_entry(plog@.steps, wanted@, model::opt(longhop)),
{
    let head: &Entry = match verified_head(plog) {
        Ok(h) => h,
        Err(e) => {
            return Err(e);
        },
    };
    let mut ops: Vec<Op> = Vec::new();
    let mut i: usize = 0;
    while i < wanted.ops.len()
        invariant
            i <= wanted.ops.len(),
            head_entry(plog@.steps) == Ok::<EntryView, ErrorView>(head@),
            forall|j: int| 0 <= j < i ==> (#[trigger] mutation(wanted@.ops[j])) is Ok,
            model::views(ops@) == mutations(wanted@.ops).take(i as int),
        decreases wanted.ops.len() - i,
    {
        assert(wanted@.ops[i as int] == wanted.ops@[i as int]@);
        match op_from_params(&wanted.ops[i]) {
            Ok(op) => {
                let ghost before = ops@;
                ops.push(op);
                proof {
                    model::lemma_views_push(before, op);
                    assert(mutations(wanted@.ops).take(i as int).push(op@) =~= mutations(
                        wanted@.ops,
                    ).take(i + 1));
                }
            },
            Err(e) => {
                return Err(e);
            },
        }
        i = i + 1;
    }
    assert(model::views(ops@) =~= mutations(wanted@.ops));
    let lipmaa: Option<Cid> = match longhop {
        None => None,
        Some(hop) => match cid_at(plog, hop.seqno) {
            Some(cid) => Some(cid),
            None => {
                return Err(Error::Plog(hop.missing));
            },
        },
    };
    let locks: Vec<Script> = match wanted.locks {
        Some(l) => l,
        None => copy_scripts(&head.locks),
    };
    Ok(
        NextEntry {
            vlad: head.vlad.clone(),
            prev: head.cid.clone(),
            seqno: head.seqno + 1,
            locks,
            unlock: wanted.unlock,
            ops,
            lipmaa,
        },
    )
}

/// The assembled entry with its serialized form, or the log's complaint about it.
pub open spec fn serialized_update(
    entry: NextEntryView,
    serialized: Result<Seq<u8>, Seq<char>>,
) -> Result<UnsignedUpdateView, ErrorView> {
    match serialized {
        Ok(message) => Ok(UnsignedUpdateView { entry, message }),
        Err(reason) => Err(ErrorView::Plog(reason)),
    }
}

/// Joins an assembled entry with the outcome of serializing it.
pub fn unsigned_update(entry: NextEntry, serialized: Result<Vec<u8>, String>) -> (r: Result<
    UnsignedUpdate,
    Error,
>)
    ensures
        error::outcome(r) == serialized_update(entry@, model::fallible(serialized)),
{
    match serialized {
        Ok(message) => Ok(UnsignedUpdate { entry, message }),
        Err(reason) => Err(Error::Plog(reason)),
    }
}

/// The locks that are bound to another path than `path`, in their order.
pub open spec fn locks_off(locks: Seq<ScriptView>, path: Seq<char>) -> Seq<ScriptView> {
    locks.filter(|s: ScriptView| s.path() != path)
}

/// The locks with those at `path` replaced by `add`.
pub open spec fn replaced_locks(
    locks: Seq<ScriptView>,
    path: Seq<char>,
    add: Option<ScriptView>,
) -> Seq<ScriptView> {
    match add {
        Some(s) => locks_off(locks, path).push(s),
        None => locks_off(locks, path),
    }
}

/// Inherits the head's locks, drops those whose path is `drop_path`, and adds `add` if given.
pub fn locks_replacing_path(head: &Entry, drop_path: &Key, add: Option<Script>) -> (r: Vec<Script>)
    ensures
        model::views(r@) == replaced_locks(head@.locks, drop_path@, model::opt(add)),
{
    let ghost off = |s: ScriptView| s.path() != drop_path@;
    let mut out: Vec<Script> = Vec::new();
    let mut i: usize = 0;
    while i < head.locks.len()
        invariant
            i <= head.locks.len(),
            off == (|s: ScriptView| s.path() != drop_path@),
            model::views(out@) == head@.locks.take(i as int).filter(off),
        decreases head.locks.len() - i,
    {
        let lock: &Script = &head.locks[i];
        proof {
            reveal(Seq::filter);
            assert(head@.locks.take(i + 1).drop_last() =~= head@.locks.take(i as int));
            assert(head@.locks.take(i + 1).last() == lock@);
        }
        if !lock.path().same(drop_path) {
            let ghost before = out@;
            out.push(lock.clone());
            assert(model::views(out@) =~= model::views(before).push(lock@));
        }
        i = i + 1;
    }
    assert(head@.locks.take(i as int) =~= head@.locks);
    match add {
        Some(script) => {
            let ghost before = out@;
            out.push(script);
            assert(model::views(out@) =~= model::views(before).push(script@));
        },
        None => {},
    }
    out
}

/// The operation that stores a Multikey public key at `key`.
pub fn use_key_op(key: Key, mk: Multikey) -> (r: OpParams)
    ensures
        r@ == (OpParamsView::UseKey { key: key@, mk: mk@ }),
{
    OpParams::UseKey { key, mk }
}

/// The mutation that an operation stands for.
pub fn op_from_params(params: &OpParams) -> (r: Result<Op, Error>)
    ensures
        error::outcome(r) == mutation(params@),
{
    match params {
        OpParams::Noop { key } => Ok(Op::Noop(key.clone())),
        OpParams::Delete { key } => Ok(Op::Delete(key.clone())),
        OpParams::UseCid { key, cid } => Ok(
            Op::Update(key.clone(), Value::Data(model::copy_bytes(cid.bytes.as_slice()))),
        ),
        OpParams::UseKey { key, mk } => Ok(
            Op::Update(key.clone(), Value::Data(model::copy_bytes(mk.bytes.as_slice()))),
        ),
        OpParams::UseStr { key, s } => Ok(Op::Update(key.clone(), Value::Str(s.clone()))),
        OpParams::UseBin { key, data } => Ok(
            Op::Update(key.clone(), Value::Data(model::copy_bytes(data.as_slice()))),
        ),
        OpParams::KeyGen { .. } => Err(
            Error::InvalidOp(
                "KeyGen/CidGen must be resolved by BetterSign before entry assembly".to_owned(),
            ),
        ),
        OpParams::CidGen { .. } => Err(
            Error::InvalidOp(
                "KeyGen/CidGen must be resolved by BetterSign before entry assembly".to_owned(),
            ),
        ),
    }
}

/// Content identifier of the log's head entry.
pub fn head_cid(plog: &Log) -> (r: Cid)
    ensures
        r@ == plog@.head,
{
    plog.head.clone()
}

/// Replacing the locks at a path leaves none there but the replacement.
pub proof fn law_replacement_is_the_only_lock(
    locks: Seq<ScriptView>,
    path: Seq<char>,
    add: Option<ScriptView>,
)
    requires
        add is Some ==> add->Some_0.path() == path,
    ensures
        replaced_locks(locks, path, add).filter(|s: ScriptView| s.path() == path) == (match add {
            Some(s) => seq![s],
            None => Seq::<ScriptView>::empty(),
        }),
{
    let kept = locks_off(locks, path);
    let at = |s: ScriptView| s.path() == path;
    model::lemma_filtered(locks, |s: ScriptView| s.path() != path);
    model::lemma_filter_none(kept, at);
    match add {
        Some(s) => {
            reveal(Seq::filter);
            assert(kept.push(s).drop_last() =~= kept);
            assert(kept.push(s).filter(at) =~= seq![s]);
        },
        None => {},
    }
}

/// Replacing the locks at a path leaves the locks at all other paths as they are, in order.
pub proof fn law_other_locks_are_kept(
    locks: Seq<ScriptView>,
    path: Seq<char>,
    add: Option<ScriptView>,
)
    requires
        add is Some ==> add->Some_0.path() == path,
    ensures
        locks_off(replaced_locks(locks, path, add), path) == locks_off(locks, path),
{
    let kept = locks_off(locks, path);
    let off = |s: ScriptView| s.path() != path;
    model::lemma_filtered(locks, off);
    model::lemma_filter_all(kept, off);
    match add {
        Some(s) => {
            reveal(Seq::filter);
            assert(kept.push(s).drop_last() =~= kept);
        },
        None => {},
    }
}

/// The next entry continues the head: same account, next position, linked to the head, and to
/// the entry that its long hop leads to, exactly where its position has one.
pub proof fn law_next_entry_continues_head(
    steps: Seq<VerifyStepView>,
    wanted: NextEntrySpecView,
    longhop: Option<LongHopView>,
)
    requires
        next_entry(steps, wanted, longhop) is Ok,
    ensures
        head_entry(steps) is Ok,
        ({
            let head = head_entry(steps)->Ok_0;
            let entry = next_entry(steps, wanted, longhop)->Ok_0;
            &&& entry.vlad == head.vlad && entry.prev == head.cid && entry.seqno == head.seqno + 1
            &&& match longhop {
                None => entry.lipmaa is None,
                Some(hop) => entry_at(steps, hop.seqno) is Some && entry.lipmaa == Some(
                    entry_at(steps, hop.seqno)->Some_0.cid,
                ),
            }
        }),
{
}

/// Each operation becomes the mutation of its own kind on its own key: texts are stored as texts,
/// everything binary by its bytes. Operations that need a key manager become none.
pub proof fn law_mutations_follow_operations(
    key: Seq<char>,
    s: Seq<char>,
    data: Seq<u8>,
    mk: crate::plog::MultikeyView,
    cid: CidView,
    codec: crate::plog::CodecView,
    threshold: usize,
    limit: usize,
    revoke: bool,
)
    ensures
        mutation(OpParamsView::Noop { key }) == Ok::<OpView, ErrorView>(OpView::Noop(key)),
        mutation(OpParamsView::Delete { key }) == Ok::<OpView, ErrorView>(OpView::Delete(key)),
        mutation(OpParamsView::UseStr { key, s }) == Ok::<OpView, ErrorView>(
            OpView::Update(key, ValueView::Str(s)),
        ),
        mutation(OpParamsView::UseBin { key, data }) == Ok::<OpView, ErrorView>(
            OpView::Update(key, ValueView::Data(data)),
        ),
        mutation(OpParamsView::UseKey { key, mk }) == Ok::<OpView, ErrorView>(
            OpView::Update(key, ValueView::Data(mk.bytes)),
        ),
        mutation(OpParamsView::UseCid { key, cid }) == Ok::<OpView, ErrorView>(
            OpView::Update(key, ValueView::Data(cid.bytes)),
        ),
        mutation(OpParamsView::KeyGen { key, codec, threshold, limit, revoke }) == Err::<
            OpView,
            ErrorView,
        >(
            ErrorView::InvalidOp(
                "KeyGen/CidGen must be resolved by BetterSign before entry assembly"@,
            ),
        ),
        mutation(OpParamsView::CidGen { key, rest: data }) == Err::<OpView, ErrorView>(
            ErrorView::InvalidOp(
                "KeyGen/CidGen must be resolved by BetterSign before entry assembly"@,
            ),
        ),
{
}

/// The head is the last entry, if it was verified. A log without entries has none, and a rejected
/// last entry is none, in the log's words. A following entry fits unless the head's position is
/// the highest there is.
pub proof fn law_head(
    steps: Seq<VerifyStepView>,
    v: crate::plog::VerifiedEntryView,
    reason: Seq<char>,
)
    ensures
        head_entry(Seq::empty()) == Err::<EntryView, ErrorView>(
            ErrorView::PlogVerifyFailed("empty provenance log"@),
        ),
        head_entry(steps.push(VerifyStepView::Verified(v))) == Ok::<EntryView, ErrorView>(v.entry),
        head_entry(steps.push(VerifyStepView::Rejected(reason))) == Err::<EntryView, ErrorView>(
            ErrorView::Plog(reason),
        ),
        can_grow(Seq::empty()),
        can_grow(steps.push(VerifyStepView::Rejected(reason))),
        can_grow(steps.push(VerifyStepView::Verified(v))) <==> v.entry.seqno
            < 18446744073709551615,
{
}

/// The entry at a position is a verified one with that position, the last of them; there is none
/// exactly if no verified entry has it.
pub proof fn law_entry_at_a_position(steps: Seq<VerifyStepView>, seqno: int, i: int)
    requires
        -1 <= i < steps.len(),
        forall|j: int|
            i < j < steps.len() ==> ((#[trigger] steps[j]) matches VerifyStepView::Verified(v)
                ==> v.entry.seqno != seqno),
    ensures
        i >= 0 ==> (steps[i] matches VerifyStepView::Verified(v) ==> v.entry.seqno == seqno
            ==> entry_at(steps, seqno) == Some(v.entry)),
        i == -1 ==> entry_at(steps, seqno) is None,
    decreases steps.len(),
{
    if steps.len() > 0 && i < steps.len() - 1 {
        let before = steps.drop_last();
        let last = steps[steps.len() - 1];
        assert forall|j: int| i < j < before.len() implies ((
        #[trigger] before[j]) matches VerifyStepView::Verified(v) ==> v.entry.seqno != seqno) by {
            assert(before[j] == steps[j]);
        }
        law_entry_at_a_position(before, seqno, i);
    }
}

/// A new entry is assembled exactly if there is a verified head, every operation has a mutation,
/// and the log has the entry that a long hop leads to. It belongs to the head's account, follows
/// it, carries the wanted unlock script, the wanted locks or else the head's, and one mutation
/// for each operation, in order.
pub proof fn law_assembled_entry(
    steps: Seq<VerifyStepView>,
    wanted: NextEntrySpecView,
    longhop: Option<LongHopView>,
)
    ensures
        next_entry(steps, wanted, longhop) is Ok <==> {
            &&& head_entry(steps) is Ok
            &&& forall|i: int|
                0 <= i < wanted.ops.len() ==> (#[trigger] mutation(wanted.ops[i])) is Ok
            &&& longhop is Some ==> entry_at(steps, longhop->Some_0.seqno) is Some
        },
        next_entry(steps, wanted, longhop) matches Ok(entry) ==> {
            let head = head_entry(steps)->Ok_0;
            &&& entry.vlad == head.vlad
            &&& entry.prev == head.cid
            &&& entry.seqno == head.seqno as int + 1
            &&& entry.unlock == wanted.unlock
            &&& wanted.locks is None ==> entry.locks == head.locks
            &&& wanted.locks is Some ==> entry.locks == wanted.locks->Some_0
            &&& entry.ops.len() == wanted.ops.len()
            &&& forall|i: int|
                0 <= i < wanted.ops.len() ==> mutation(wanted.ops[i]) == Ok::<OpView, ErrorView>(
                    #[trigger] entry.ops[i],
                )
            &&& longhop is None ==> entry.lipmaa is None
            &&& longhop is Some ==> entry.lipmaa == Some(
                entry_at(steps, longhop->Some_0.seqno)->Some_0.cid,
            )
        },
{
    if next_entry(steps, wanted, longhop) is Ok {
        let entry = next_entry(steps, wanted, longhop)->Ok_0;
        assert forall|i: int| 0 <= i < wanted.ops.len() implies mutation(wanted.ops[i]) == Ok::<
            OpView,
            ErrorView,
        >(#[trigger] entry.ops[i]) by {
            assert(mutation(wanted.ops[i]) is Ok);
        }
    }
}

/// Where no entry is assembled, the head is at fault first, then the operations, then the long
/// hop.
pub proof fn law_assembly_faults(
    steps: Seq<VerifyStepView>,
    wanted: NextEntrySpecView,
    longhop: Option<LongHopView>,
    i: int,
)
    ensures
        head_entry(steps) is Err ==> next_entry(steps, wanted, longhop) == Err::<
            NextEntryView,
            ErrorView,
        >(head_entry(steps)->Err_0),
        head_entry(steps) is Ok && 0 <= i < wanted.ops.len() && mutation(wanted.ops[i]) is Err
            ==> next_entry(steps, wanted, longhop) == Err::<NextEntryView, ErrorView>(
            mutation(wanted.ops[i])->Err_0,
        ),
        head_entry(steps) is Ok && (forall|k: int|
            0 <= k < wanted.ops.len() ==> (#[trigger] mutation(wanted.ops[k])) is Ok) && longhop
            is Some && entry_at(steps, longhop->Some_0.seqno) is None ==> next_entry(
            steps,
            wanted,
            longhop,
        ) == Err::<NextEntryView, ErrorView>(ErrorView::Plog(longhop->Some_0.missing)),
{
}

/// Serializing joins the entry with its bytes, or fails in the log's words.
pub proof fn law_serialized_entry(entry: NextEntryView, message: Seq<u8>, reason: Seq<char>)
    ensures
        serialized_update(entry, Ok(message)) is Ok,
        serialized_update(entry, Ok(message))->Ok_0.entry == entry,
        serialized_update(entry, Ok(message))->Ok_0.message == message,
        serialized_update(entry, Err(reason)) == Err::<UnsignedUpdateView, ErrorView>(
            ErrorView::Plog(reason),
        ),
{
}

/// Replacing the locks at a path goes lock by lock, in order: those at the path go, all others
/// stay, whatever their form, and the replacement comes last.
pub proof fn law_lock_replacement(
    locks: Seq<ScriptView>,
    lock: ScriptView,
    path: Seq<char>,
    add: ScriptView,
)
    ensures
        replaced_locks(Seq::empty(), path, None) == Seq::<ScriptView>::empty(),
        lock.path() == path ==> replaced_locks(locks.push(lock), path, None) == replaced_locks(
            locks,
            path,
            None,
        ),
        lock.path() != path ==> replaced_locks(locks.push(lock), path, None) == replaced_locks(
            locks,
            path,
            None,
        ).push(lock),
        replaced_locks(locks, path, Some(add)) == replaced_locks(locks, path, None).push(add),
        locks_off(locks, path) == replaced_locks(locks, path, None),
{
    reveal(Seq::filter);
    assert(locks.push(lock).drop_last() =~= locks);
}

/// A long hop, its position and its complaint are what they were given as; the fields of an
/// entry, of an update and of a wish for an entry are their values.
pub proof fn law_entry_values(
    e: NextEntry,
    u: UnsignedUpdate,
    w: NextEntrySpec,
    h: LongHop,
)
    ensures
        e@.vlad == e.vlad@ && e@.prev == e.prev@ && e@.seqno == e.seqno as int,
        e@.locks == model::views(e.locks@) && e@.unlock == e.unlock@,
        e@.ops == model::views(e.ops@) && e@.lipmaa == model::opt(e.lipmaa),
        u@.entry == u.entry@ && u@.message == u.message@,
        w@.unlock == w.unlock@ && w@.ops == model::views(w.ops@),
        w.locks is None ==> w@.locks is None,
        w.locks is Some ==> w@.locks == Some(model::views(w.locks->Some_0@)),
        h@.seqno == h.seqno as int && h@.missing == h.missing@,
{
}

}
