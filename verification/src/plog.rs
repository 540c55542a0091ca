//! Provenance-log data as plain values.
//!
//! A [`Log`] holds what full-chain verification of a provenance log yields: one step per entry,
//! either the verified entry with the key-value state it leaves, or the reason it was rejected.

use crate::key::Key;
use crate::model;
use vstd::prelude::*;

verus! {

/// Verifiable long-lived address: the identity of an account, in canonical multibase.
#[derive(Debug, PartialEq, Eq)]
pub struct Vlad {
    /// Canonical multibase text.
    pub encoded: String,
}

impl View for Vlad {
    type V = Seq<char>;

    open spec fn view(&self) -> Seq<char> {
        self.encoded@
    }
}

impl Clone for Vlad {
    fn clone(&self) -> (r: Vlad)
        ensures
            r@ == self@,
    {
        Vlad { encoded: self.encoded.clone() }
    }
}

/// Content identifier of an entry.
#[derive(Debug, PartialEq, Eq)]
pub struct Cid {
    /// Multibase text.
    pub encoded: String,
    /// Binary form.
    pub bytes: Vec<u8>,
}

/// A [`Cid`] as a mathematical value.
#[verifier::ext_equal]
pub struct CidView {
    pub encoded: Seq<char>,
    pub bytes: Seq<u8>,
}

impl View for Cid {
    type V = CidView;

    open spec fn view(&self) -> CidView {
        CidView { encoded: self.encoded@, bytes: self.bytes@ }
    }
}

impl Clone for Cid {
    fn clone(&self) -> (r: Cid)
        ensures
            r@ == self@,
    {
        Cid { encoded: self.encoded.clone(), bytes: model::copy_bytes(self.bytes.as_slice()) }
    }
}

/// Self-describing key material.
#[derive(Debug, PartialEq, Eq)]
pub struct Multikey {
    /// Multibase text.
    pub encoded: String,
    /// Binary form.
    pub bytes: Vec<u8>,
    /// Whether this is a secret key.
    pub secret: bool,
}

/// A [`Multikey`] as a mathematical value.
#[verifier::ext_equal]
pub struct MultikeyView {
    pub encoded: Seq<char>,
    pub bytes: Seq<u8>,
    pub secret: bool,
}

impl View for Multikey {
    type V = MultikeyView;

    open spec fn view(&self) -> MultikeyView {
        MultikeyView { encoded: self.encoded@, bytes: self.bytes@, secret: self.secret }
    }
}

impl Clone for Multikey {
    fn clone(&self) -> (r: Multikey)
        ensures
            r@ == self@,
    {
        Multikey {
            encoded: self.encoded.clone(),
            bytes: model::copy_bytes(self.bytes.as_slice()),
            secret: self.secret,
        }
    }
}

/// Self-describing signature.
#[derive(Debug, PartialEq, Eq)]
pub struct Multisig {
    /// Multibase text.
    pub encoded: String,
    /// Binary form.
    pub bytes: Vec<u8>,
}

/// A [`Multisig`] as a mathematical value.
#[verifier::ext_equal]
pub struct MultisigView {
    pub encoded: Seq<char>,
    pub bytes: Seq<u8>,
}

impl View for Multisig {
    type V = MultisigView;

    open spec fn view(&self) -> MultisigView {
        MultisigView { encoded: self.encoded@, bytes: self.bytes@ }
    }
}

/// Key algorithm of generated keys.
#[derive(Debug, PartialEq, Eq)]
pub enum Codec {
    /// secp256k1 private key.
    Secp256K1Priv,
    /// Any other codec, by its name.
    Other(String),
}

/// A [`Codec`] as a mathematical value.
#[verifier::ext_equal]
pub enum CodecView {
    Secp256K1Priv,
    Other(Seq<char>),
}

impl View for Codec {
    type V = CodecView;

    open spec fn view(&self) -> CodecView {
        match self {
            Codec::Secp256K1Priv => CodecView::Secp256K1Priv,
            Codec::Other(name) => CodecView::Other(name@),
        }
    }
}

impl Clone for Codec {
    fn clone(&self) -> (r: Codec)
        ensures
            r@ == self@,
    {
        match self {
            Codec::Secp256K1Priv => Codec::Secp256K1Priv,
            Codec::Other(name) => Codec::Other(name.clone()),
        }
    }
}

/// Value stored at a key path.
#[derive(Debug, PartialEq, Eq)]
pub enum Value {
    /// No value.
    Nil,
    /// UTF-8 text.
    Str(String),
    /// Binary data.
    Data(Vec<u8>),
}

/// A [`Value`] as a mathematical value.
#[verifier::ext_equal]
pub enum ValueView {
    Nil,
    Str(Seq<char>),
    Data(Seq<u8>),
}

impl View for Value {
    type V = ValueView;

    open spec fn view(&self) -> ValueView {
        match self {
            Value::Nil => ValueView::Nil,
            Value::Str(s) => ValueView::Str(s@),
            Value::Data(b) => ValueView::Data(b@),
        }
    }
}

/// Lock or unlock script, bound to a key path.
#[derive(Debug, PartialEq, Eq)]
pub enum Script {
    /// Source code.
    Code(Key, String),
    /// Compiled code.
    Bin(Key, Vec<u8>),
    /// Code referenced by content identifier.
    Cid(Key, Cid),
}

/// A [`Script`] as a mathematical value.
#[verifier::ext_equal]
pub enum ScriptView {
    Code(Seq<char>, Seq<char>),
    Bin(Seq<char>, Seq<u8>),
    Cid(Seq<char>, CidView),
}

impl ScriptView {
    /// The key path that the script is bound to.
    pub open spec fn path(self) -> Seq<char> {
        match self {
            ScriptView::Code(p, _) => p,
            ScriptView::Bin(p, _) => p,
            ScriptView::Cid(p, _) => p,
        }
    }
}

impl View for Script {
    type V = ScriptView;

    open spec fn view(&self) -> ScriptView {
        match self {
            Script::Code(p, c) => ScriptView::Code(p@, c@),
            Script::Bin(p, b) => ScriptView::Bin(p@, b@),
            Script::Cid(p, c) => ScriptView::Cid(p@, c@),
        }
    }
}

impl Clone for Script {
    fn clone(&self) -> (r: Script)
        ensures
            r@ == self@,
    {
        match self {
            Script::Code(p, c) => Script::Code(p.clone(), c.clone()),
            Script::Bin(p, b) => Script::Bin(p.clone(), model::copy_bytes(b.as_slice())),
            Script::Cid(p, c) => Script::Cid(p.clone(), c.clone()),
        }
    }
}

impl Script {
    /// The key path that the script is bound to.
    pub fn path(&self) -> (r: &Key)
        ensures
            r@ == self@.path(),
    {
        match self {
            Script::Code(p, _) => p,
            Script::Bin(p, _) => p,
            Script::Cid(p, _) => p,
        }
    }
}

/// Mutation recorded by an entry.
#[derive(Debug, PartialEq, Eq)]
pub enum Op {
    /// Leaves the key path as it is.
    Noop(Key),
    /// Deletes the key path.
    Delete(Key),
    /// Stores a value at the key path.
    Update(Key, Value),
}

/// An [`Op`] as a mathematical value.
#[verifier::ext_equal]
pub enum OpView {
    Noop(Seq<char>),
    Delete(Seq<char>),
    Update(Seq<char>, ValueView),
}

impl View for Op {
    type V = OpView;

    open spec fn view(&self) -> OpView {
        match self {
            Op::Noop(k) => OpView::Noop(k@),
            Op::Delete(k) => OpView::Delete(k@),
            Op::Update(k, v) => OpView::Update(k@, v@),
        }
    }
}

/// Entry of a log, as far as later entries depend on it.
#[derive(Debug, PartialEq, Eq)]
pub struct Entry {
    /// Account the entry belongs to.
    pub vlad: Vlad,
    /// Content identifier of the entry.
    pub cid: Cid,
    /// Position in the log.
    pub seqno: u64,
    /// Lock scripts that the next entry has to satisfy.
    pub locks: Vec<Script>,
}

/// An [`Entry`] as a mathematical value.
#[verifier::ext_equal]
pub struct EntryView {
    pub vlad: Seq<char>,
    pub cid: CidView,
    pub seqno: u64,
    pub locks: Seq<ScriptView>,
}

impl View for Entry {
    type V = EntryView;

    open spec fn view(&self) -> EntryView {
        EntryView {
            vlad: self.vlad@,
            cid: self.cid@,
            seqno: self.seqno,
            locks: model::views(self.locks@),
        }
    }
}

/// One key path with its value.
#[derive(Debug, PartialEq, Eq)]
pub struct KvpItem {
    /// Key path.
    pub key: Key,
    /// Value at the key path.
    pub value: Value,
    /// Multibase text of the Multikey that the value's data is the binary form of, if it is one.
    pub multikey: Option<String>,
}

/// A [`KvpItem`] as a mathematical value.
#[verifier::ext_equal]
pub struct KvpItemView {
    pub key: Seq<char>,
    pub value: ValueView,
    pub multikey: Option<Seq<char>>,
}

impl View for KvpItem {
    type V = KvpItemView;

    open spec fn view(&self) -> KvpItemView {
        KvpItemView { key: self.key@, value: self.value@, multikey: model::opt(self.multikey) }
    }
}

/// A verified entry with the key-value state that it leaves.
#[derive(Debug, PartialEq, Eq)]
pub struct VerifiedEntry {
    /// The entry.
    pub entry: Entry,
    /// Key-value state after the entry, in the order of the state's own iteration.
    pub kvp: Vec<KvpItem>,
}

/// A [`VerifiedEntry`] as a mathematical value.
#[verifier::ext_equal]
pub struct VerifiedEntryView {
    pub entry: EntryView,
    pub kvp: Seq<KvpItemView>,
}

impl View for VerifiedEntry {
    type V = VerifiedEntryView;

    open spec fn view(&self) -> VerifiedEntryView {
        VerifiedEntryView { entry: self.entry@, kvp: model::views(self.kvp@) }
    }
}

/// Outcome of verifying one entry: the verified entry, or why it was rejected.
#[derive(Debug, PartialEq, Eq)]
pub enum VerifyStep {
    /// The entry verified.
    Verified(VerifiedEntry),
    /// The entry was rejected.
    Rejected(String),
}

/// A [`VerifyStep`] as a mathematical value.
#[verifier::ext_equal]
pub enum VerifyStepView {
    Verified(VerifiedEntryView),
    Rejected(Seq<char>),
}

impl View for VerifyStep {
    type V = VerifyStepView;

    open spec fn view(&self) -> VerifyStepView {
        match self {
            VerifyStep::Verified(v) => VerifyStepView::Verified(v@),
            VerifyStep::Rejected(reason) => VerifyStepView::Rejected(reason@),
        }
    }
}

/// Provenance log with the outcome of its full-chain verification.
#[derive(Debug, PartialEq, Eq)]
pub struct Log {
    /// Account identity.
    pub vlad: Vlad,
    /// Content identifier of the head entry.
    pub head: Cid,
    /// Verification outcome, entry by entry from the first.
    pub steps: Vec<VerifyStep>,
    /// Multibase text of the whole log.
    pub encoded: String,
    /// Binary form of the whole log.
    pub bytes: Vec<u8>,
}

/// A [`Log`] as a mathematical value.
#[verifier::ext_equal]
pub struct LogView {
    pub vlad: Seq<char>,
    pub head: CidView,
    pub steps: Seq<VerifyStepView>,
    pub encoded: Seq<char>,
    pub bytes: Seq<u8>,
}

impl View for Log {
    type V = LogView;

    open spec fn view(&self) -> LogView {
        LogView {
            vlad: self.vlad@,
            head: self.head@,
            steps: model::views(self.steps@),
            encoded: self.encoded@,
            bytes: self.bytes@,
        }
    }
}

/// A script is bound to the key path that it was made with, whatever form its code has.
pub proof fn law_script_paths(path: Seq<char>, code: Seq<char>, bytes: Seq<u8>, cid: CidView)
    ensures
        ScriptView::Code(path, code).path() == path,
        ScriptView::Bin(path, bytes).path() == path,
        ScriptView::Cid(path, cid).path() == path,
{
}

/// The fields of what a log is made of are its values.
pub proof fn law_log_values(
    vlad: Vlad,
    cid: Cid,
    mk: Multikey,
    sig: Multisig,
    entry: Entry,
    item: KvpItem,
    verified: VerifiedEntry,
    log: Log,
)
    ensures
        vlad@ == vlad.encoded@,
        cid@.encoded == cid.encoded@ && cid@.bytes == cid.bytes@,
        mk@.encoded == mk.encoded@ && mk@.bytes == mk.bytes@ && mk@.secret == mk.secret,
        sig@.encoded == sig.encoded@ && sig@.bytes == sig.bytes@,
        entry@.vlad == entry.vlad@ && entry@.cid == entry.cid@ && entry@.seqno == entry.seqno,
        entry@.locks == model::views(entry.locks@),
        item@.key == item.key@ && item@.value == item.value@,
        item@.multikey == model::opt(item.multikey),
        verified@.entry == verified.entry@ && verified@.kvp == model::views(verified.kvp@),
        log@.vlad == log.vlad@ && log@.head == log.head@ && log@.encoded == log.encoded@,
        log@.bytes == log.bytes@ && log@.steps == model::views(log.steps@),
{
}

/// The value of each alternative is of its kind, and holds the same.
pub proof fn law_alternatives(
    key: Key,
    s: String,
    b: Vec<u8>,
    cid: Cid,
    v: Value,
    verified: VerifiedEntry,
)
    ensures
        Codec::Secp256K1Priv@ == CodecView::Secp256K1Priv,
        Codec::Other(s)@ == CodecView::Other(s@),
        Value::Nil@ == ValueView::Nil,
        Value::Str(s)@ == ValueView::Str(s@),
        Value::Data(b)@ == ValueView::Data(b@),
        Script::Code(key, s)@ == ScriptView::Code(key@, s@),
        Script::Bin(key, b)@ == ScriptView::Bin(key@, b@),
        Script::Cid(key, cid)@ == ScriptView::Cid(key@, cid@),
        Op::Noop(key)@ == OpView::Noop(key@),
        Op::Delete(key)@ == OpView::Delete(key@),
        Op::Update(key, v)@ == OpView::Update(key@, v@),
        VerifyStep::Verified(verified)@ == VerifyStepView::Verified(verified@),
        VerifyStep::Rejected(s)@ == VerifyStepView::Rejected(s@),
{
}

}
