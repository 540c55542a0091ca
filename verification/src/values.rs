//! Values and summaries read from a verified provenance log.

use crate::config;
use crate::encoding;
use crate::entry_update;
use crate::error;
use crate::error::{Error, ErrorView};
use crate::json;
use crate::key;
use crate::key::{Key, KeyText, KeyTextView};
use crate::model;
use crate::ops::OpParamsView;
use crate::plog::{
    KvpItem, KvpItemView, Log, LogView, OpView, Value, ValueView, VerifyStep, VerifyStepView,
};
use vstd::prelude::*;
use vstd::string::*;

verus! {

/// Summary of an account, as texts.
#[derive(Debug, PartialEq, Eq)]
pub struct AccountSummary {
    /// Multibase VLAD identity.
    pub vlad: String,
    /// Multibase head entry CID.
    pub head_cid: String,
    /// Multibase Multikey public key at `/pubkey`, where the log has one.
    pub pubkey: Option<String>,
}

/// An [`AccountSummary`] as a mathematical value.
#[verifier::ext_equal]
pub struct AccountSummaryView {
    pub vlad: Seq<char>,
    pub head_cid: Seq<char>,
    pub pubkey: Option<Seq<char>>,
}

impl View for AccountSummary {
    type V = AccountSummaryView;

    open spec fn view(&self) -> AccountSummaryView {
        AccountSummaryView {
            vlad: self.vlad@,
            head_cid: self.head_cid@,
            pubkey: model::opt(self.pubkey),
        }
    }
}

impl Clone for AccountSummary {
    fn clone(&self) -> (r: AccountSummary)
        ensures
            r@ == self@,
    {
        AccountSummary {
            vlad: self.vlad.clone(),
            head_cid: self.head_cid.clone(),
            pubkey: model::copy_opt_text(&self.pubkey),
        }
    }
}

/// Value at a key path after full-chain verification.
#[derive(Debug, PartialEq, Eq)]
pub enum PlogPathValue {
    /// UTF-8 text.
    Str(String),
    /// Binary data in multibase; a Multikey in its own multibase form.
    Bin(String),
}

/// A [`PlogPathValue`] as a mathematical value.
#[verifier::ext_equal]
pub enum PlogPathValueView {
    Str(Seq<char>),
    Bin(Seq<char>),
}

impl PlogPathValueView {
    /// The text of the value.
    pub open spec fn text(self) -> Seq<char> {
        match self {
            PlogPathValueView::Str(s) => s,
            PlogPathValueView::Bin(s) => s,
        }
    }

    /// The value as JSON: its type and its text.
    pub open spec fn json(self) -> Seq<char> {
        "{"@ + json::text_field(
            "type"@,
            match self {
                PlogPathValueView::Str(_) => "str"@,
                PlogPathValueView::Bin(_) => "bin"@,
            },
        ) + ","@ + json::text_field("value"@, self.text()) + "}"@
    }
}

impl View for PlogPathValue {
    type V = PlogPathValueView;

    open spec fn view(&self) -> PlogPathValueView {
        match self {
            PlogPathValue::Str(s) => PlogPathValueView::Str(s@),
            PlogPathValue::Bin(s) => PlogPathValueView::Bin(s@),
        }
    }
}

impl Clone for PlogPathValue {
    fn clone(&self) -> (r: PlogPathValue)
        ensures
            r@ == self@,
    {
        match self {
            PlogPathValue::Str(s) => PlogPathValue::Str(s.clone()),
            PlogPathValue::Bin(s) => PlogPathValue::Bin(s.clone()),
        }
    }
}

impl PlogPathValue {
    /// The value as JSON: `{"type":"str","value":"..."}` or `{"type":"bin","value":"..."}`.
    pub fn to_json_string(&self) -> (r: String)
        ensures
            r@ == self@.json(),
    {
        let mut out: String = "{".to_owned();
        match self {
            PlogPathValue::Str(s) => {
                json::push_text_field(&mut out, "type", "str");
                out.append(",");
                json::push_text_field(&mut out, "value", s.as_str());
            },
            PlogPathValue::Bin(s) => {
                json::push_text_field(&mut out, "type", "bin");
                out.append(",");
                json::push_text_field(&mut out, "value", s.as_str());
            },
        }
        out.append("}");
        out
    }
}

/// Why the first rejected entry was rejected, if one was.
pub open spec fn first_rejection(steps: Seq<VerifyStepView>) -> Option<Seq<char>>
    decreases steps.len(),
{
    if steps.len() == 0 {
        None
    } else {
        match first_rejection(steps.drop_last()) {
            Some(reason) => Some(reason),
            None => match steps.last() {
                VerifyStepView::Rejected(reason) => Some(reason),
                VerifyStepView::Verified(_) => None,
            },
        }
    }
}

/// Why a log fails full-chain verification, if it does.
pub open spec fn verify_fault(steps: Seq<VerifyStepView>) -> Option<ErrorView> {
    if steps.len() == 0 {
        Some(entry_update::empty_log())
    } else {
        match first_rejection(steps) {
            Some(reason) => Some(ErrorView::PlogVerifyFailed(reason)),
            None => None,
        }
    }
}

/// The key-value state at the head of a verified log.
pub open spec fn head_kvp(steps: Seq<VerifyStepView>) -> Seq<KvpItemView> {
    steps.last()->Verified_0.kvp
}

/// The first item at a key path.
pub open spec fn find_item(kvp: Seq<KvpItemView>, key: Seq<char>) -> Option<KvpItemView>
    decreases kvp.len(),
{
    if kvp.len() == 0 {
        None
    } else {
        match find_item(kvp.drop_last(), key) {
            Some(item) => Some(item),
            None => if kvp.last().key == key {
                Some(kvp.last())
            } else {
                None
            },
        }
    }
}

/// How the value of an item is handed out.
pub open spec fn path_value(item: KvpItemView) -> PlogPathValueView {
    match item.value {
        ValueView::Str(s) => PlogPathValueView::Str(s),
        ValueView::Data(b) => PlogPathValueView::Bin(bin_text(b, item.multikey)),
        ValueView::Nil => PlogPathValueView::Bin(
            encoding::multibase_base64url(Seq::<u8>::empty()),
        ),
    }
}

/// The text of binary data: the Multikey text where the data is a Multikey, else base64url.
pub open spec fn bin_text(data: Seq<u8>, multikey: Option<Seq<char>>) -> Seq<char> {
    match multikey {
        Some(t) => t,
        None => encoding::multibase_base64url(data),
    }
}

/// The value at a path of a log, or why there is none to hand out.
pub open spec fn plog_value(log: LogView, path: KeyTextView) -> Result<
    PlogPathValueView,
    ErrorView,
> {
    match config::parsed_key(path) {
        Err(e) => Err(e),
        Ok(key) => match verify_fault(log.steps) {
            Some(e) => Err(e),
            None => match find_item(head_kvp(log.steps), key) {
                Some(item) => Ok(path_value(item)),
                None => Err(ErrorView::PathNotFound(path.text)),
            },
        },
    }
}

/// The summary of a log, or why it fails verification.
pub open spec fn plog_summary(log: LogView) -> Result<AccountSummaryView, ErrorView> {
    match verify_fault(log.steps) {
        Some(e) => Err(e),
        None => Ok(
            AccountSummaryView {
                vlad: log.vlad,
                head_cid: log.head.encoded,
                pubkey: match find_item(head_kvp(log.steps), "/pubkey"@) {
                    Some(item) => Some(path_value(item).text()),
                    None => None,
                },
            },
        ),
    }
}

proof fn lemma_rejection_stays(steps: Seq<VerifyStepView>, n: int)
    requires
        0 <= n <= steps.len(),
        first_rejection(steps.take(n)) is Some,
    ensures
        first_rejection(steps) == first_rejection(steps.take(n)),
    decreases steps.len(),
{
    if n < steps.len() {
        assert(steps.drop_last().take(n) =~= steps.take(n));
        lemma_rejection_stays(steps.drop_last(), n);
    } else {
        assert(steps.take(n) =~= steps);
    }
}

/// Full-chain verification: fails if any entry was rejected or the log has none.
pub fn ensure_plog_verified(log: &Log) -> (r: Result<(), Error>)
    ensures
        match r {
            Ok(()) => verify_fault(log@.steps) is None,
            Err(e) => verify_fault(log@.steps) == Some(e@),
        },
{
    if log.steps.len() == 0 {
        return Err(Error::PlogVerifyFailed("empty provenance log".to_owned()));
    }
    let mut i: usize = 0;
    while i < log.steps.len()
        invariant
            i <= log.steps.len(),
            first_rejection(log@.steps.take(i as int)) is None,
        decreases log.steps.len() - i,
    {
        proof {
            assert(log@.steps.take(i + 1).drop_last() =~= log@.steps.take(i as int));
            assert(log@.steps.take(i + 1).last() == log.steps@[i as int]@);
        }
        match &log.steps[i] {
            VerifyStep::Verified(_) => {},
            VerifyStep::Rejected(reason) => {
                proof {
                    lemma_rejection_stays(log@.steps, i + 1);
                }
                return Err(Error::PlogVerifyFailed(reason.clone()));
            },
        }
        i = i + 1;
    }
    assert(log@.steps.take(i as int) =~= log@.steps);
    Ok(())
}

/// The key-value state at the head, after full-chain verification.
pub fn verified_kvp(log: &Log) -> (r: Result<&Vec<KvpItem>, Error>)
    ensures
        match r {
            Ok(kvp) => verify_fault(log@.steps) is None && model::views(kvp@) == head_kvp(
                log@.steps,
            ),
            Err(e) => verify_fault(log@.steps) == Some(e@),
        },
{
    match ensure_plog_verified(log) {
        Ok(()) => {},
        Err(e) => {
            return Err(e);
        },
    }
    let n: usize = log.steps.len();
    assert(log@.steps.last() == log.steps@[n - 1]@);
    match &log.steps[n - 1] {
        VerifyStep::Verified(v) => Ok(&v.kvp),
        VerifyStep::Rejected(reason) => Err(Error::PlogVerifyFailed(reason.clone())),
    }
}

proof fn lemma_found_stays(kvp: Seq<KvpItemView>, key: Seq<char>, n: int)
    requires
        0 <= n <= kvp.len(),
        find_item(kvp.take(n), key) is Some,
    ensures
        find_item(kvp, key) == find_item(kvp.take(n), key),
    decreases kvp.len(),
{
    if n < kvp.len() {
        assert(kvp.drop_last().take(n) =~= kvp.take(n));
        lemma_found_stays(kvp.drop_last(), key, n);
    } else {
        assert(kvp.take(n) =~= kvp);
    }
}

/// The value of an item as it is handed out.
fn item_value(item: &KvpItem) -> (r: PlogPathValue)
    ensures
        r@ == path_value(item@),
{
    match &item.value {
        Value::Str(s) => PlogPathValue::Str(s.clone()),
        Value::Data(b) => PlogPathValue::Bin(encode_bin_value(b.as_slice(), &item.multikey)),
        Value::Nil => {
            let nothing: Vec<u8> = Vec::new();
            assert(nothing@ =~= Seq::<u8>::empty());
            PlogPathValue::Bin(encoding::encode_bytes_multibase(nothing.as_slice()))
        },
    }
}

/// Text of binary data; `multikey` is the Multikey text where the data is a Multikey.
fn encode_bin_value(data: &[u8], multikey: &Option<String>) -> (r: String)
    ensures
        r@ == bin_text(data@, model::opt(*multikey)),
{
    match multikey {
        Some(t) => t.clone(),
        None => encoding::encode_bytes_multibase(data),
    }
}

/// Reads a path from the verified head state of a log.
pub fn get_plog_value(log: &Log, path: &KeyText) -> (r: Result<PlogPathValue, Error>)
    ensures
        error::outcome(r) == plog_value(log@, path@),
{
    let key: Key = match config::parse_key(path) {
        Ok(k) => k,
        Err(e) => {
            return Err(e);
        },
    };
    let kvp: &Vec<KvpItem> = match verified_kvp(log) {
        Ok(kvp) => kvp,
        Err(e) => {
            return Err(e);
        },
    };
    let ghost items = model::views(kvp@);
    let mut i: usize = 0;
    while i < kvp.len()
        invariant
            i <= kvp.len(),
            items == model::views(kvp@),
            items == head_kvp(log@.steps),
            verify_fault(log@.steps) is None,
            config::parsed_key(path@) == Ok::<Seq<char>, ErrorView>(key@),
            find_item(items.take(i as int), key@) is None,
        decreases kvp.len() - i,
    {
        proof {
            assert(items.take(i + 1).drop_last() =~= items.take(i as int));
            assert(items.take(i + 1).last() == kvp@[i as int]@);
        }
        if kvp[i].key.same(&key) {
            proof {
                lemma_found_stays(items, key@, i + 1);
            }
            return Ok(item_value(&kvp[i]));
        }
        i = i + 1;
    }
    assert(items.take(i as int) =~= items);
    Err(Error::PathNotFound(path.text.clone()))
}

/// Summary of a log that passes full-chain verification.
pub fn summary_from_verified_plog(log: &Log) -> (r: Result<AccountSummary, Error>)
    ensures
        error::outcome(r) == plog_summary(log@),
{
    match ensure_plog_verified(log) {
        Ok(()) => {},
        Err(e) => {
            return Err(e);
        },
    }
    let advertised: KeyText = KeyText {
        text: "/pubkey".to_owned(),
        parsed: Ok(config::pubkey_key_path()),
    };
    let pubkey: Option<String> = match get_plog_value(log, &advertised) {
        Ok(PlogPathValue::Bin(s)) => Some(s),
        Ok(PlogPathValue::Str(s)) => Some(s),
        Err(Error::PathNotFound(_)) => None,
        Err(e) => {
            return Err(e);
        },
    };
    Ok(
        AccountSummary {
            vlad: encoding::encode_vlad(&log.vlad),
            head_cid: encoding::encode_cid(&log.head),
            pubkey,
        },
    )
}

/// The summary advertises what a read of `/pubkey` hands out, and nothing where the read finds
/// nothing.
pub proof fn law_summary_agrees_with_read(log: LogView)
    requires
        plog_summary(log) is Ok,
    ensures
        plog_summary(log)->Ok_0.pubkey == (match plog_value(log, key::text_of("/pubkey"@)) {
            Ok(v) => Some(v.text()),
            Err(_) => None,
        }),
{
}

/// Nothing is read from a log that fails verification: every path gives the same kind of error.
pub proof fn law_unverified_log_is_unreadable(log: LogView, path: KeyTextView)
    requires
        verify_fault(log.steps) is Some,
    ensures
        plog_value(log, path) is Err,
        plog_summary(log) is Err,
{
}

/// A read gives back what was stored: where the state holds, at the key of an operation, the
/// value that the operation's mutation stores, a text reads as that text, and binary data as its
/// base64url form, or as the Multikey text where it is a Multikey.
pub proof fn law_read_gives_back_what_was_stored(
    log: LogView,
    path: KeyTextView,
    op: OpParamsView,
    item: KvpItemView,
)
    requires
        verify_fault(log.steps) is None,
        path.parsed == Ok::<Seq<char>, Seq<char>>(op.key()),
        find_item(head_kvp(log.steps), op.key()) == Some(item),
        entry_update::mutation(op) == Ok::<OpView, ErrorView>(
            OpView::Update(op.key(), item.value),
        ),
    ensures
        plog_value(log, path) == Ok::<PlogPathValueView, ErrorView>(
            match op {
                OpParamsView::UseStr { s, .. } => PlogPathValueView::Str(s),
                OpParamsView::UseBin { data, .. } => PlogPathValueView::Bin(
                    bin_text(data, item.multikey),
                ),
                OpParamsView::UseKey { mk, .. } => PlogPathValueView::Bin(
                    bin_text(mk.bytes, item.multikey),
                ),
                OpParamsView::UseCid { cid, .. } => PlogPathValueView::Bin(
                    bin_text(cid.bytes, item.multikey),
                ),
                _ => plog_value(log, path)->Ok_0,
            },
        ),
{
}

/// A log passes verification exactly if it has entries and all of them were verified. Otherwise
/// it is empty, or its first rejected entry says why.
pub proof fn law_verification(steps: Seq<VerifyStepView>, i: int, reason: Seq<char>)
    ensures
        verify_fault(steps) is None <==> steps.len() > 0 && forall|j: int|
            0 <= j < steps.len() ==> (#[trigger] steps[j]) is Verified,
        verify_fault(Seq::empty()) == Some(ErrorView::PlogVerifyFailed("empty provenance log"@)),
        0 <= i < steps.len() && steps[i] == VerifyStepView::Rejected(reason) && (forall|j: int|
            0 <= j < i ==> (#[trigger] steps[j]) is Verified) ==> verify_fault(steps) == Some(
            ErrorView::PlogVerifyFailed(reason),
        ),
{
    lemma_first_rejection(steps, i, reason);
}

proof fn lemma_first_rejection(steps: Seq<VerifyStepView>, i: int, reason: Seq<char>)
    ensures
        first_rejection(steps) is None <==> forall|j: int|
            0 <= j < steps.len() ==> (#[trigger] steps[j]) is Verified,
        0 <= i < steps.len() && steps[i] == VerifyStepView::Rejected(reason) && (forall|j: int|
            0 <= j < i ==> (#[trigger] steps[j]) is Verified) ==> first_rejection(steps) == Some(
            reason,
        ),
    decreases steps.len(),
{
    if steps.len() > 0 {
        let before = steps.drop_last();
        let last = steps[steps.len() - 1];
        lemma_first_rejection(before, i, reason);
        if forall|j: int| 0 <= j < steps.len() ==> (#[trigger] steps[j]) is Verified {
            assert forall|j: int| 0 <= j < before.len() implies (
            #[trigger] before[j]) is Verified by {
                assert(before[j] == steps[j]);
            }
        }
        if first_rejection(steps) is None {
            assert forall|j: int| 0 <= j < steps.len() implies (
            #[trigger] steps[j]) is Verified by {
                if j < before.len() {
                    assert(before[j] == steps[j]);
                }
            }
        }
        if 0 <= i < steps.len() && steps[i] == VerifyStepView::Rejected(reason) && (forall|j: int|
            0 <= j < i ==> (#[trigger] steps[j]) is Verified) {
            assert forall|j: int| 0 <= j < i && j < before.len() implies (
            #[trigger] before[j]) is Verified by {
                assert(before[j] == steps[j]);
            }
            if i < before.len() {
                assert(before[i] == steps[i]);
            }
        }
    }
}

/// The state that is read is the one that the last entry leaves.
pub proof fn law_state_of_the_head(
    steps: Seq<VerifyStepView>,
    v: crate::plog::VerifiedEntryView,
)
    ensures
        head_kvp(steps.push(VerifyStepView::Verified(v))) == v.kvp,
{
}

/// The item at a key path is the first one with that key path; there is none exactly if no item
/// has it.
pub proof fn law_first_item(kvp: Seq<KvpItemView>, key: Seq<char>, i: int)
    requires
        0 <= i <= kvp.len(),
        forall|j: int| 0 <= j < i ==> (#[trigger] kvp[j]).key != key,
    ensures
        i == kvp.len() ==> find_item(kvp, key) is None,
        i < kvp.len() && kvp[i].key == key ==> find_item(kvp, key) == Some(kvp[i]),
    decreases kvp.len(),
{
    if kvp.len() > 0 {
        let before = kvp.drop_last();
        assert forall|j: int| 0 <= j < i && j < before.len() implies (#[trigger] before[j]).key
            != key by {
            assert(before[j] == kvp[j]);
        }
        if i == kvp.len() {
            law_first_item(before, key, before.len() as int);
            assert(kvp[kvp.len() - 1].key != key);
        } else {
            law_first_item(before, key, i);
            if i < before.len() {
                assert(before[i] == kvp[i]);
            }
        }
    }
}

/// A text is handed out as that text. Binary data is handed out as the Multikey that it is, or
/// else in base64url; a missing value as empty data.
pub proof fn law_handed_out_values(
    key: Seq<char>,
    s: Seq<char>,
    data: Seq<u8>,
    mk: Seq<char>,
    any: Option<Seq<char>>,
)
    ensures
        path_value(KvpItemView { key, value: ValueView::Str(s), multikey: any })
            == PlogPathValueView::Str(s),
        path_value(KvpItemView { key, value: ValueView::Data(data), multikey: Some(mk) })
            == PlogPathValueView::Bin(mk),
        path_value(KvpItemView { key, value: ValueView::Data(data), multikey: None })
            == PlogPathValueView::Bin(encoding::multibase_base64url(data)),
        path_value(KvpItemView { key, value: ValueView::Nil, multikey: any })
            == PlogPathValueView::Bin(seq!['u']),
{
    encoding::law_base64url_of_nothing();
}

/// A read gives the value at the key path that the text names, in the state of a verified log.
/// What is at fault first is the text, then the log, then that nothing is there.
pub proof fn law_reading(log: LogView, path: KeyTextView, key: Seq<char>, reason: Seq<char>)
    ensures
        path.parsed == Err::<Seq<char>, Seq<char>>(reason) ==> plog_value(log, path) == Err::<
            PlogPathValueView,
            ErrorView,
        >(ErrorView::InvalidOp("invalid key path "@ + path.text + ": "@ + reason)),
        path.parsed == Ok::<Seq<char>, Seq<char>>(key) ==> plog_value(log, path) == (
        match verify_fault(log.steps) {
            Some(e) => Err::<PlogPathValueView, ErrorView>(e),
            None => match find_item(head_kvp(log.steps), key) {
                None => Err::<PlogPathValueView, ErrorView>(ErrorView::PathNotFound(path.text)),
                Some(item) => Ok::<PlogPathValueView, ErrorView>(path_value(item)),
            },
        }),
{
}

/// The summary of a verified log names its account and its head, and advertises the text at
/// `/pubkey`, if there is one. A log that fails verification has none.
pub proof fn law_summary(log: LogView)
    ensures
        verify_fault(log.steps) is Some ==> plog_summary(log) == Err::<
            AccountSummaryView,
            ErrorView,
        >(verify_fault(log.steps)->Some_0),
        verify_fault(log.steps) is None ==> plog_summary(log) is Ok,
        plog_summary(log) matches Ok(s) ==> {
            &&& s.vlad == log.vlad
            &&& s.head_cid == log.head.encoded
            &&& s.pubkey == (match find_item(head_kvp(log.steps), "/pubkey"@) {
                None => None,
                Some(item) => Some(
                    match path_value(item) {
                        PlogPathValueView::Str(t) => t,
                        PlogPathValueView::Bin(t) => t,
                    },
                ),
            })
        },
{
}

/// A value as JSON tells its type and its text.
pub proof fn law_value_json(s: Seq<char>)
    ensures
        PlogPathValueView::Str(s).json() == "{\"type\":\"str\",\"value\":"@ + json::quoted(s)
            + "}"@,
        PlogPathValueView::Bin(s).json() == "{\"type\":\"bin\",\"value\":"@ + json::quoted(s)
            + "}"@,
        PlogPathValueView::Str(s).text() == s,
        PlogPathValueView::Bin(s).text() == s,
{
    lemma_type_field("str"@, "{\"type\":\"str\",\"value\":"@);
    lemma_type_field("bin"@, "{\"type\":\"bin\",\"value\":"@);
    assert(PlogPathValueView::Str(s).json() =~= "{\"type\":\"str\",\"value\":"@ + json::quoted(s)
        + "}"@);
    assert(PlogPathValueView::Bin(s).json() =~= "{\"type\":\"bin\",\"value\":"@ + json::quoted(s)
        + "}"@);
}

proof fn lemma_type_field(kind: Seq<char>, text: Seq<char>)
    requires
        kind == "str"@ && text == "{\"type\":\"str\",\"value\":"@ || kind == "bin"@ && text
            == "{\"type\":\"bin\",\"value\":"@,
    ensures
        "{"@ + json::text_field("type"@, kind) + ","@ + ("\""@ + "value"@ + "\":"@) == text,
{
    reveal_strlit("{");
    reveal_strlit("type");
    reveal_strlit("value");
    reveal_strlit(",");
    reveal_strlit("\"");
    reveal_strlit("\":");
    reveal_strlit("str");
    reveal_strlit("bin");
    reveal_strlit("{\"type\":\"str\",\"value\":");
    reveal_strlit("{\"type\":\"bin\",\"value\":");
    reveal_with_fuel(json::escaped, 4);
    assert(kind.drop_last().drop_last().drop_last() =~= Seq::<char>::empty());
    assert(json::escaped(kind) =~= kind);
    assert("{"@ + json::text_field("type"@, kind) + ","@ + ("\""@ + "value"@ + "\":"@) =~= text);
}

/// The fields of a summary and the text of a value are their values.
pub proof fn law_summary_values(s: AccountSummary, t: String)
    ensures
        s@.vlad == s.vlad@ && s@.head_cid == s.head_cid@ && s@.pubkey == model::opt(s.pubkey),
        PlogPathValue::Str(t)@ == PlogPathValueView::Str(t@),
        PlogPathValue::Bin(t)@ == PlogPathValueView::Bin(t@),
{
}

}
