//! Operations that an update asks for.

use crate::key::Key;
use crate::plog::{Cid, CidView, Codec, CodecView, Multikey, MultikeyView};
use vstd::prelude::*;

verus! {

/// One requested operation.
#[derive(Debug, PartialEq, Eq)]
pub enum OpParams {
    /// Leave a key path as it is.
    Noop {
        /// Key path.
        key: Key,
    },
    /// Delete a key path.
    Delete {
        /// Key path.
        key: Key,
    },
    /// Store a text.
    UseStr {
        /// Key path.
        key: Key,
        /// Text to store.
        s: String,
    },
    /// Store binary data.
    UseBin {
        /// Key path.
        key: Key,
        /// Data to store.
        data: Vec<u8>,
    },
    /// Store a Multikey.
    UseKey {
        /// Key path.
        key: Key,
        /// Multikey to store.
        mk: Multikey,
    },
    /// Store a content identifier.
    UseCid {
        /// Key path.
        key: Key,
        /// Content identifier to store.
        cid: Cid,
    },
    /// Have the key manager provide a key, and store its public part.
    KeyGen {
        /// Key path.
        key: Key,
        /// Key algorithm.
        codec: Codec,
        /// Signature threshold.
        threshold: usize,
        /// Number of key shares.
        limit: usize,
        /// Whether the previous key is revoked.
        revoke: bool,
    },
    /// Have a content identifier computed, and store it.
    CidGen {
        /// Key path.
        key: Key,
        /// What else the log implementation needs for it, in its own encoding; carried unread.
        rest: Vec<u8>,
    },
}

/// An [`OpParams`] as a mathematical value.
#[verifier::ext_equal]
pub enum OpParamsView {
    Noop { key: Seq<char> },
    Delete { key: Seq<char> },
    UseStr { key: Seq<char>, s: Seq<char> },
    UseBin { key: Seq<char>, data: Seq<u8> },
    UseKey { key: Seq<char>, mk: MultikeyView },
    UseCid { key: Seq<char>, cid: CidView },
    KeyGen { key: Seq<char>, codec: CodecView, threshold: usize, limit: usize, revoke: bool },
    CidGen { key: Seq<char>, rest: Seq<u8> },
}

impl OpParamsView {
    /// The key path that the operation is about.
    pub open spec fn key(self) -> Seq<char> {
        match self {
            OpParamsView::Noop { key } => key,
            OpParamsView::Delete { key } => key,
            OpParamsView::UseStr { key, .. } => key,
            OpParamsView::UseBin { key, .. } => key,
            OpParamsView::UseKey { key, .. } => key,
            OpParamsView::UseCid { key, .. } => key,
            OpParamsView::KeyGen { key, .. } => key,
            OpParamsView::CidGen { key, .. } => key,
        }
    }
}

impl View for OpParams {
    type V = OpParamsView;

    open spec fn view(&self) -> OpParamsView {
        match self {
            OpParams::Noop { key } => OpParamsView::Noop { key: key@ },
            OpParams::Delete { key } => OpParamsView::Delete { key: key@ },
            OpParams::UseStr { key, s } => OpParamsView::UseStr { key: key@, s: s@ },
            OpParams::UseBin { key, data } => OpParamsView::UseBin { key: key@, data: data@ },
            OpParams::UseKey { key, mk } => OpParamsView::UseKey { key: key@, mk: mk@ },
            OpParams::UseCid { key, cid } => OpParamsView::UseCid { key: key@, cid: cid@ },
            OpParams::KeyGen { key, codec, threshold, limit, revoke } => OpParamsView::KeyGen {
                key: key@,
                codec: codec@,
                threshold: *threshold,
                limit: *limit,
                revoke: *revoke,
            },
            OpParams::CidGen { key, rest } => OpParamsView::CidGen { key: key@, rest: rest@ },
        }
    }
}

/// The key path that an operation is about.
pub fn op_key(op: &OpParams) -> (r: &Key)
    ensures
        r@ == op@.key(),
{
    match op {
        OpParams::Noop { key } => key,
        OpParams::Delete { key } => key,
        OpParams::UseStr { key, .. } => key,
        OpParams::UseBin { key, .. } => key,
        OpParams::UseKey { key, .. } => key,
        OpParams::UseCid { key, .. } => key,
        OpParams::KeyGen { key, .. } => key,
        OpParams::CidGen { key, .. } => key,
    }
}

/// Every operation is about the key path that it was made with.
pub proof fn law_operation_keys(
    key: Seq<char>,
    s: Seq<char>,
    data: Seq<u8>,
    mk: MultikeyView,
    cid: CidView,
    codec: CodecView,
    threshold: usize,
    limit: usize,
    revoke: bool,
)
    ensures
        (OpParamsView::Noop { key }).key() == key,
        (OpParamsView::Delete { key }).key() == key,
        (OpParamsView::UseStr { key, s }).key() == key,
        (OpParamsView::UseBin { key, data }).key() == key,
        (OpParamsView::UseKey { key, mk }).key() == key,
        (OpParamsView::UseCid { key, cid }).key() == key,
        (OpParamsView::KeyGen { key, codec, threshold, limit, revoke }).key() == key,
        (OpParamsView::CidGen { key, rest: data }).key() == key,
{
}

/// The value of an operation is of its kind, and holds the same.
pub proof fn law_operation_values(
    key: Key,
    s: String,
    data: Vec<u8>,
    mk: Multikey,
    cid: Cid,
    codec: Codec,
    threshold: usize,
    limit: usize,
    revoke: bool,
)
    ensures
        (OpParams::Noop { key })@ == (OpParamsView::Noop { key: key@ }),
        (OpParams::Delete { key })@ == (OpParamsView::Delete { key: key@ }),
        (OpParams::UseStr { key, s })@ == (OpParamsView::UseStr { key: key@, s: s@ }),
        (OpParams::UseBin { key, data })@ == (OpParamsView::UseBin { key: key@, data: data@ }),
        (OpParams::UseKey { key, mk })@ == (OpParamsView::UseKey { key: key@, mk: mk@ }),
        (OpParams::UseCid { key, cid })@ == (OpParamsView::UseCid { key: key@, cid: cid@ }),
        (OpParams::KeyGen { key, codec, threshold, limit, revoke })@ == (OpParamsView::KeyGen {
            key: key@,
            codec: codec@,
            threshold,
            limit,
            revoke,
        }),
        (OpParams::CidGen { key, rest: data })@ == (OpParamsView::CidGen {
            key: key@,
            rest: data@,
        }),
{
}

}
