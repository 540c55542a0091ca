//! Account operations as callers write them.

use crate::config;
use crate::encoding;
use crate::entry_update;
use crate::error;
use crate::error::{Error, ErrorView};
use crate::key::{KeyText, KeyTextView};
use crate::model;
use crate::ops::{OpParams, OpParamsView};
use crate::text;
use vstd::prelude::*;
use vstd::string::*;

verus! {

/// One account operation, with its key path and its data as they were written.
#[derive(Debug, PartialEq, Eq)]
pub enum AccountOp {
    /// No-op at a key path.
    Noop {
        /// Key path.
        key: KeyText,
    },
    /// Delete a key path.
    Delete {
        /// Key path.
        key: KeyText,
    },
    /// Store a UTF-8 text.
    UseStr {
        /// Key path.
        key: KeyText,
        /// Text.
        value: String,
    },
    /// Store binary data.
    UseBin {
        /// Key path.
        key: KeyText,
        /// Data in multibase.
        data_multibase: String,
    },
}

/// An [`AccountOp`] as a mathematical value.
#[verifier::ext_equal]
pub enum AccountOpView {
    Noop { key: KeyTextView },
    Delete { key: KeyTextView },
    UseStr { key: KeyTextView, value: Seq<char> },
    UseBin { key: KeyTextView, data_multibase: Seq<char> },
}

impl AccountOpView {
    /// The text of the key path.
    pub open spec fn key(self) -> KeyTextView {
        match self {
            AccountOpView::Noop { key } => key,
            AccountOpView::Delete { key } => key,
            AccountOpView::UseStr { key, .. } => key,
            AccountOpView::UseBin { key, .. } => key,
        }
    }
}

impl View for AccountOp {
    type V = AccountOpView;

    open spec fn view(&self) -> AccountOpView {
        match self {
            AccountOp::Noop { key } => AccountOpView::Noop { key: key@ },
            AccountOp::Delete { key } => AccountOpView::Delete { key: key@ },
            AccountOp::UseStr { key, value } => AccountOpView::UseStr { key: key@, value: value@ },
            AccountOp::UseBin { key, data_multibase } => AccountOpView::UseBin {
                key: key@,
                data_multibase: data_multibase@,
            },
        }
    }
}

impl Clone for AccountOp {
    fn clone(&self) -> (r: AccountOp)
        ensures
            r@ == self@,
    {
        match self {
            AccountOp::Noop { key } => AccountOp::Noop { key: key.clone() },
            AccountOp::Delete { key } => AccountOp::Delete { key: key.clone() },
            AccountOp::UseStr { key, value } => AccountOp::UseStr {
                key: key.clone(),
                value: value.clone(),
            },
            AccountOp::UseBin { key, data_multibase } => AccountOp::UseBin {
                key: key.clone(),
                data_multibase: data_multibase.clone(),
            },
        }
    }
}

/// The operation that an account operation asks for, or why it is refused: the key path is
/// checked first, then the data.
pub open spec fn op_params(op: AccountOpView) -> Result<OpParamsView, ErrorView> {
    match config::parsed_key(op.key()) {
        Err(e) => Err(e),
        Ok(key) => match op {
            AccountOpView::Noop { .. } => Ok(OpParamsView::Noop { key }),
            AccountOpView::Delete { .. } => Ok(OpParamsView::Delete { key }),
            AccountOpView::UseStr { value, .. } => Ok(OpParamsView::UseStr { key, s: value }),
            AccountOpView::UseBin { data_multibase, .. } => match encoding::or_encoding_error(
                encoding::multibase_decoded(data_multibase),
            ) {
                Ok(data) => Ok(OpParamsView::UseBin { key, data }),
                Err(e) => Err(e),
            },
        },
    }
}

/// The operations that the account operations ask for, or why the first refused one is refused.
pub open spec fn all_op_params(list: Seq<AccountOpView>) -> Result<Seq<OpParamsView>, ErrorView>
    decreases list.len(),
{
    if list.len() == 0 {
        Ok(Seq::empty())
    } else {
        match all_op_params(list.drop_last()) {
            Err(e) => Err(e),
            Ok(before) => match op_params(list.last()) {
                Err(e) => Err(e),
                Ok(p) => Ok(before.push(p)),
            },
        }
    }
}

/// The operations that a JSON text asks for; `decoded` is what the text decodes to. A text that
/// is blank or an empty array asks for none.
pub open spec fn parsed_ops(
    ops_json: Seq<char>,
    decoded: Result<Seq<AccountOpView>, Seq<char>>,
) -> Result<Seq<OpParamsView>, ErrorView> {
    if text::trimmed(ops_json).len() == 0 || text::trimmed(ops_json) == "[]"@ {
        Ok(Seq::empty())
    } else {
        match decoded {
            Err(reason) => Err(ErrorView::Encoding(reason)),
            Ok(list) => all_op_params(list),
        }
    }
}

impl AccountOp {
    /// The operation that this account operation asks for.
    pub fn into_op_params(self) -> (r: Result<OpParams, Error>)
        ensures
            error::outcome(r) == op_params(self@),
    {
        match self {
            AccountOp::Noop { key } => match config::parse_key(&key) {
                Ok(key) => Ok(OpParams::Noop { key }),
                Err(e) => Err(e),
            },
            AccountOp::Delete { key } => match config::parse_key(&key) {
                Ok(key) => Ok(OpParams::Delete { key }),
                Err(e) => Err(e),
            },
            AccountOp::UseStr { key, value } => match config::parse_key(&key) {
                Ok(key) => Ok(OpParams::UseStr { key, s: value }),
                Err(e) => Err(e),
            },
            AccountOp::UseBin { key, data_multibase } => match config::parse_key(&key) {
                Ok(key) => match encoding::decode_bytes_multibase(data_multibase.as_str()) {
                    Ok(data) => Ok(OpParams::UseBin { key, data }),
                    Err(e) => Err(e),
                },
                Err(e) => Err(e),
            },
        }
    }
}

proof fn lemma_refusal_stays(list: Seq<AccountOpView>, n: int)
    requires
        0 <= n <= list.len(),
        all_op_params(list.take(n)) is Err,
    ensures
        all_op_params(list) is Err,
        all_op_params(list)->Err_0 == all_op_params(list.take(n))->Err_0,
    decreases list.len(),
{
    if n < list.len() {
        assert(list.drop_last().take(n) =~= list.take(n));
        lemma_refusal_stays(list.drop_last(), n);
    } else {
        assert(list.take(n) =~= list);
    }
}

/// Parses a JSON array of account operations. `decoded` is what the JSON decoder makes of the
/// text.
pub fn parse_ops_json(ops_json: &str, decoded: Result<Vec<AccountOp>, String>) -> (r: Result<
    Vec<OpParams>,
    Error,
>)
    ensures
        error::outcome_list(r) == parsed_ops(ops_json@, model::fallible_list(decoded)),
{
    let trimmed: &str = text::trim(ops_json);
    let mut out: Vec<OpParams> = Vec::new();
    assert(model::views(out@) =~= Seq::<OpParamsView>::empty());
    proof {
        reveal_strlit("");
        assert(trimmed@.len() == 0 ==> trimmed@ =~= ""@);
    }
    if text::same_text(trimmed, "") || text::same_text(trimmed, "[]") {
        return Ok(out);
    }
    let list: Vec<AccountOp> = match decoded {
        Ok(list) => list,
        Err(reason) => {
            return Err(Error::Encoding(reason));
        },
    };
    let ghost items = model::views(list@);
    let mut i: usize = 0;
    assert(items.take(0) =~= Seq::<AccountOpView>::empty());
    while i < list.len()
        invariant
            i <= list.len(),
            items == model::views(list@),
            parsed_ops(ops_json@, model::fallible_list(decoded)) == all_op_params(items),
            all_op_params(items.take(i as int)) is Ok,
            all_op_params(items.take(i as int))->Ok_0 == model::views(out@),
        decreases list.len() - i,
    {
        proof {
            assert(items.take(i + 1).drop_last() =~= items.take(i as int));
            assert(items.take(i + 1).last() == list@[i as int]@);
        }
        let op: AccountOp = list[i].clone();
        match op.into_op_params() {
            Ok(p) => {
                let ghost before = out@;
                out.push(p);
                proof {
                    model::lemma_views_push(before, p);
                }
            },
            Err(e) => {
                proof {
                    lemma_refusal_stays(items, i + 1);
                }
                return Err(e);
            },
        }
        i = i + 1;
    }
    assert(items.take(i as int) =~= items);
    Ok(out)
}

/// Parsing keeps the number of operations and their order: the operation at each position is the
/// one that the account operation there asks for.
pub proof fn law_parsing_is_positional(list: Seq<AccountOpView>, i: int)
    requires
        all_op_params(list) is Ok,
        0 <= i < list.len(),
    ensures
        all_op_params(list)->Ok_0.len() == list.len(),
        op_params(list[i]) is Ok,
        all_op_params(list)->Ok_0[i] == op_params(list[i])->Ok_0,
    decreases list.len(),
{
    lemma_parsed_len(list);
    if i < list.len() - 1 {
        law_parsing_is_positional(list.drop_last(), i);
    } else {
        lemma_parsed_len(list.drop_last());
    }
}

proof fn lemma_parsed_len(list: Seq<AccountOpView>)
    requires
        all_op_params(list) is Ok,
    ensures
        all_op_params(list)->Ok_0.len() == list.len(),
    decreases list.len(),
{
    if list.len() > 0 {
        lemma_parsed_len(list.drop_last());
    }
}

/// Operations that callers can write down never need a key manager: each has a mutation.
pub proof fn law_parsed_ops_have_mutations(list: Seq<AccountOpView>)
    requires
        all_op_params(list) is Ok,
    ensures
        entry_update::all_resolved(all_op_params(list)->Ok_0),
{
    let ops = all_op_params(list)->Ok_0;
    lemma_parsed_len(list);
    assert forall|i: int| 0 <= i < ops.len() implies (#[trigger] entry_update::mutation(
        ops[i],
    )) is Ok by {
        law_parsing_is_positional(list, i);
    }
}

/// An account operation whose key path is good asks for the operation of its own kind on that
/// key path, with the data that was written: a no-op for a no-op, a deletion for a deletion, the
/// text as it is, binary data as it decodes.
pub proof fn law_operations_keep_their_kind(
    key: KeyTextView,
    k: Seq<char>,
    value: Seq<char>,
    data_multibase: Seq<char>,
)
    requires
        key.parsed == Ok::<Seq<char>, Seq<char>>(k),
    ensures
        op_params(AccountOpView::Noop { key }) == Ok::<OpParamsView, ErrorView>(
            OpParamsView::Noop { key: k },
        ),
        op_params(AccountOpView::Delete { key }) == Ok::<OpParamsView, ErrorView>(
            OpParamsView::Delete { key: k },
        ),
        op_params(AccountOpView::UseStr { key, value }) == Ok::<OpParamsView, ErrorView>(
            OpParamsView::UseStr { key: k, s: value },
        ),
        op_params(AccountOpView::UseBin { key, data_multibase }) == (
        match encoding::multibase_decoded(data_multibase) {
            Ok(data) => Ok::<OpParamsView, ErrorView>(OpParamsView::UseBin { key: k, data }),
            Err(reason) => Err::<OpParamsView, ErrorView>(ErrorView::Encoding(reason)),
        }),
{
}

/// An account operation on a text that is no key path is refused, whatever its kind, in the words
/// of the parser.
pub proof fn law_operations_need_a_key(op: AccountOpView, reason: Seq<char>)
    requires
        op.key().parsed == Err::<Seq<char>, Seq<char>>(reason),
    ensures
        op_params(op) == Err::<OpParamsView, ErrorView>(
            ErrorView::InvalidOp("invalid key path "@ + op.key().text + ": "@ + reason),
        ),
{
}

/// Every account operation is about the key path that it was written with.
pub proof fn law_account_operation_keys(key: KeyTextView, text: Seq<char>)
    ensures
        (AccountOpView::Noop { key }).key() == key,
        (AccountOpView::Delete { key }).key() == key,
        (AccountOpView::UseStr { key, value: text }).key() == key,
        (AccountOpView::UseBin { key, data_multibase: text }).key() == key,
{
}

/// A list of account operations is taken exactly if each of them is; otherwise the first refused
/// one decides the error.
pub proof fn law_first_refusal_decides(list: Seq<AccountOpView>, i: int)
    requires
        forall|j: int| 0 <= j < i ==> (#[trigger] op_params(list[j])) is Ok,
        0 <= i <= list.len(),
    ensures
        i == list.len() ==> all_op_params(list) is Ok,
        i < list.len() && op_params(list[i]) is Err ==> all_op_params(list) == Err::<
            Seq<OpParamsView>,
            ErrorView,
        >(op_params(list[i])->Err_0),
    decreases list.len(),
{
    if list.len() > 0 {
        let before = list.drop_last();
        assert forall|j: int| 0 <= j < i && j < before.len() implies (#[trigger] op_params(
            before[j],
        )) is Ok by {
            assert(before[j] == list[j]);
        }
        if i == list.len() {
            law_first_refusal_decides(before, before.len() as int);
            assert(op_params(list[list.len() - 1]) is Ok);
        } else {
            law_first_refusal_decides(before, i);
            if i < before.len() {
                assert(before[i] == list[i]);
            }
        }
    }
}

/// A text that is blank, or an empty array, asks for nothing; any other text asks for what it
/// decodes to, or is refused in the decoder's words.
pub proof fn law_operation_texts(
    ops_json: Seq<char>,
    decoded: Result<Seq<AccountOpView>, Seq<char>>,
)
    ensures
        text::trimmed(ops_json) == Seq::<char>::empty() || text::trimmed(ops_json) == seq!['[', ']']
            ==> parsed_ops(ops_json, decoded) == Ok::<Seq<OpParamsView>, ErrorView>(Seq::empty()),
        text::trimmed(ops_json) != Seq::<char>::empty() && text::trimmed(ops_json) != seq!['[', ']']
            ==> parsed_ops(ops_json, decoded) == (match decoded {
            Ok(list) => all_op_params(list),
            Err(reason) => Err::<Seq<OpParamsView>, ErrorView>(ErrorView::Encoding(reason)),
        }),
{
    reveal_strlit("[]");
    assert("[]"@ =~= seq!['[', ']']);
    if text::trimmed(ops_json).len() == 0 {
        assert(text::trimmed(ops_json) =~= Seq::<char>::empty());
    }
}

/// The value of an account operation is of its kind, and holds the same.
pub proof fn law_account_operation_values(key: KeyText, text: String)
    ensures
        (AccountOp::Noop { key })@ == (AccountOpView::Noop { key: key@ }),
        (AccountOp::Delete { key })@ == (AccountOpView::Delete { key: key@ }),
        (AccountOp::UseStr { key, value: text })@ == (AccountOpView::UseStr {
            key: key@,
            value: text@,
        }),
        (AccountOp::UseBin { key, data_multibase: text })@ == (AccountOpView::UseBin {
            key: key@,
            data_multibase: text@,
        }),
{
}

}
