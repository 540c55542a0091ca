//! Errors of the library, and the text each one is reported with.

use vstd::prelude::*;
use vstd::string::*;

verus! {

/// Errors of the library.
#[derive(Debug, PartialEq, Eq)]
pub enum Error {
    /// BetterSign failure, as reported by it.
    Bs(String),
    /// Failure to open a provenance log.
    Open(String),
    /// Failure to update a provenance log.
    Update(String),
    /// Provenance-log failure.
    Plog(String),
    /// Multikey failure.
    Multikey(String),
    /// Multisig failure.
    Multisig(String),
    /// CID or VLAD failure.
    Multicid(String),
    /// Multihash failure.
    Multihash(String),
    /// Multicodec failure.
    Multicodec(String),
    /// Input or output failure.
    Io(String),
    /// Keycard failure, as reported by the card session.
    Keycard(String),
    /// Malformed BIP32 derivation path.
    Derivation(String),
    /// The system gave no random bytes.
    Randomness(String),
    /// Codec that software ephemerals do not support.
    UnsupportedCodec(String),
    /// Generic message.
    Message(String),
    /// No wallet is attached.
    NotConnected,
    /// No account is loaded.
    NoAccount,
    /// No account in the cache for this VLAD; holds a hash prefix.
    AccountNotCached(String),
    /// The log failed full-chain verification.
    PlogVerifyFailed(String),
    /// No value at the requested key path.
    PathNotFound(String),
    /// No derivation path is registered for the key.
    PathNotRegistered(String),
    /// Encoding or decoding failure (multibase, hex, JSON).
    Encoding(String),
    /// Invalid account operation or policy.
    InvalidOp(String),
    /// The branch has no delegation.
    PathNotDelegated(String),
    /// An operation leaves the delegated branch: branch, then key.
    PathEscape(String, String),
    /// Unknown or expired challenge.
    ChallengeNotFound(String),
    /// The head moved since prepare: expected head, then current head.
    HeadMismatch(String, String),
    /// The card is bound to another account, or to none.
    CardBindingMismatch(String),
    /// The card was initialized before.
    KeycardNotVirgin(String),
    /// The card exported no public key.
    UnexpectedExport(String),
}

/// The error as a mathematical value.
#[verifier::ext_equal]
pub enum ErrorView {
    Bs(Seq<char>),
    Open(Seq<char>),
    Update(Seq<char>),
    Plog(Seq<char>),
    Multikey(Seq<char>),
    Multisig(Seq<char>),
    Multicid(Seq<char>),
    Multihash(Seq<char>),
    Multicodec(Seq<char>),
    Io(Seq<char>),
    Keycard(Seq<char>),
    Derivation(Seq<char>),
    Randomness(Seq<char>),
    UnsupportedCodec(Seq<char>),
    Message(Seq<char>),
    NotConnected,
    NoAccount,
    AccountNotCached(Seq<char>),
    PlogVerifyFailed(Seq<char>),
    PathNotFound(Seq<char>),
    PathNotRegistered(Seq<char>),
    Encoding(Seq<char>),
    InvalidOp(Seq<char>),
    PathNotDelegated(Seq<char>),
    PathEscape(Seq<char>, Seq<char>),
    ChallengeNotFound(Seq<char>),
    HeadMismatch(Seq<char>, Seq<char>),
    CardBindingMismatch(Seq<char>),
    KeycardNotVirgin(Seq<char>),
    UnexpectedExport(Seq<char>),
}

impl View for Error {
    type V = ErrorView;

    open spec fn view(&self) -> ErrorView {
        match self {
            Error::Bs(a) => ErrorView::Bs(a@),
            Error::Open(a) => ErrorView::Open(a@),
            Error::Update(a) => ErrorView::Update(a@),
            Error::Plog(a) => ErrorView::Plog(a@),
            Error::Multikey(a) => ErrorView::Multikey(a@),
            Error::Multisig(a) => ErrorView::Multisig(a@),
            Error::Multicid(a) => ErrorView::Multicid(a@),
            Error::Multihash(a) => ErrorView::Multihash(a@),
            Error::Multicodec(a) => ErrorView::Multicodec(a@),
            Error::Io(a) => ErrorView::Io(a@),
            Error::Keycard(a) => ErrorView::Keycard(a@),
            Error::Derivation(a) => ErrorView::Derivation(a@),
            Error::Randomness(a) => ErrorView::Randomness(a@),
            Error::UnsupportedCodec(a) => ErrorView::UnsupportedCodec(a@),
            Error::Message(a) => ErrorView::Message(a@),
            Error::NotConnected => ErrorView::NotConnected,
            Error::NoAccount => ErrorView::NoAccount,
            Error::AccountNotCached(a) => ErrorView::AccountNotCached(a@),
            Error::PlogVerifyFailed(a) => ErrorView::PlogVerifyFailed(a@),
            Error::PathNotFound(a) => ErrorView::PathNotFound(a@),
            Error::PathNotRegistered(a) => ErrorView::PathNotRegistered(a@),
            Error::Encoding(a) => ErrorView::Encoding(a@),
            Error::InvalidOp(a) => ErrorView::InvalidOp(a@),
            Error::PathNotDelegated(a) => ErrorView::PathNotDelegated(a@),
            Error::PathEscape(a, b) => ErrorView::PathEscape(a@, b@),
            Error::ChallengeNotFound(a) => ErrorView::ChallengeNotFound(a@),
            Error::HeadMismatch(a, b) => ErrorView::HeadMismatch(a@, b@),
            Error::CardBindingMismatch(a) => ErrorView::CardBindingMismatch(a@),
            Error::KeycardNotVirgin(a) => ErrorView::KeycardNotVirgin(a@),
            Error::UnexpectedExport(a) => ErrorView::UnexpectedExport(a@),
        }
    }
}

impl ErrorView {
    /// The text the error is reported with.
    pub open spec fn text(self) -> Seq<char> {
        match self {
            ErrorView::Bs(a) => a,
            ErrorView::Open(a) => a,
            ErrorView::Update(a) => a,
            ErrorView::Plog(a) => a,
            ErrorView::Multikey(a) => a,
            ErrorView::Multisig(a) => a,
            ErrorView::Multicid(a) => a,
            ErrorView::Multihash(a) => a,
            ErrorView::Multicodec(a) => a,
            ErrorView::Io(a) => a,
            ErrorView::Keycard(a) => a,
            ErrorView::Derivation(a) => a,
            ErrorView::Randomness(a) => a,
            ErrorView::UnsupportedCodec(a) => "Unsupported codec: "@ + a + " (secp256k1 only for ephemeral open)"@,
            ErrorView::Message(a) => a,
            ErrorView::NotConnected => "no wallet attached: create or load an account first"@,
            ErrorView::NoAccount => "no account loaded: call create_account or import_plog first"@,
            ErrorView::AccountNotCached(a) => "no cached p-log for this VLAD (hash "@ + a + "): call create_account or import_plog first"@,
            ErrorView::PlogVerifyFailed(a) => "p-log verification failed: "@ + a,
            ErrorView::PathNotFound(a) => "no value at path "@ + a,
            ErrorView::PathNotRegistered(a) => "no derivation path registered for "@ + a,
            ErrorView::Encoding(a) => "encoding error: "@ + a,
            ErrorView::InvalidOp(a) => "invalid operation: "@ + a,
            ErrorView::PathNotDelegated(a) => "path not delegated: "@ + a,
            ErrorView::PathEscape(a, b) => "operation path escapes delegated branch "@ + a + ": "@ + b,
            ErrorView::ChallengeNotFound(a) => "unknown or expired path-update challenge: "@ + a,
            ErrorView::HeadMismatch(a, b) => "p-log head changed since prepare (expected "@ + a + ", current "@ + b + ")"@,
            ErrorView::CardBindingMismatch(a) => "card binding mismatch: "@ + a,
            ErrorView::KeycardNotVirgin(a) => "keycard is not virgin: "@ + a,
            ErrorView::UnexpectedExport(a) => "unexpected key export: "@ + a,
        }
    }
}

impl Error {
    /// The text the error is reported with.
    pub fn message(&self) -> (r: String)
        ensures
            r@ == self@.text(),
    {
        match self {
            Error::Bs(a) => a.clone(),
            Error::Open(a) => a.clone(),
            Error::Update(a) => a.clone(),
            Error::Plog(a) => a.clone(),
            Error::Multikey(a) => a.clone(),
            Error::Multisig(a) => a.clone(),
            Error::Multicid(a) => a.clone(),
            Error::Multihash(a) => a.clone(),
            Error::Multicodec(a) => a.clone(),
            Error::Io(a) => a.clone(),
            Error::Keycard(a) => a.clone(),
            Error::Derivation(a) => a.clone(),
            Error::Randomness(a) => a.clone(),
            Error::UnsupportedCodec(a) => {
                let mut m: String = "Unsupported codec: ".to_owned();
                m.append(a.as_str());
                m.append(" (secp256k1 only for ephemeral open)");
                m
            },
            Error::Message(a) => a.clone(),
            Error::NotConnected => "no wallet attached: create or load an account first".to_owned(),
            Error::NoAccount => "no account loaded: call create_account or import_plog first".to_owned(),
            Error::AccountNotCached(a) => {
                let mut m: String = "no cached p-log for this VLAD (hash ".to_owned();
                m.append(a.as_str());
                m.append("): call create_account or import_plog first");
                m
            },
            Error::PlogVerifyFailed(a) => {
                let mut m: String = "p-log verification failed: ".to_owned();
                m.append(a.as_str());
                m
            },
            Error::PathNotFound(a) => {
                let mut m: String = "no value at path ".to_owned();
                m.append(a.as_str());
                m
            },
            Error::PathNotRegistered(a) => {
                let mut m: String = "no derivation path registered for ".to_owned();
                m.append(a.as_str());
                m
            },
            Error::Encoding(a) => {
                let mut m: String = "encoding error: ".to_owned();
                m.append(a.as_str());
                m
            },
            Error::InvalidOp(a) => {
                let mut m: String = "invalid operation: ".to_owned();
                m.append(a.as_str());
                m
            },
            Error::PathNotDelegated(a) => {
                let mut m: String = "path not delegated: ".to_owned();
                m.append(a.as_str());
                m
            },
            Error::PathEscape(a, b) => {
                let mut m: String = "operation path escapes delegated branch ".to_owned();
                m.append(a.as_str());
                m.append(": ");
                m.append(b.as_str());
                m
            },
            Error::ChallengeNotFound(a) => {
                let mut m: String = "unknown or expired path-update challenge: ".to_owned();
                m.append(a.as_str());
                m
            },
            Error::HeadMismatch(a, b) => {
                let mut m: String = "p-log head changed since prepare (expected ".to_owned();
                m.append(a.as_str());
                m.append(", current ");
                m.append(b.as_str());
                m.append(")");
                m
            },
            Error::CardBindingMismatch(a) => {
                let mut m: String = "card binding mismatch: ".to_owned();
                m.append(a.as_str());
                m
            },
            Error::KeycardNotVirgin(a) => {
                let mut m: String = "keycard is not virgin: ".to_owned();
                m.append(a.as_str());
                m
            },
            Error::UnexpectedExport(a) => {
                let mut m: String = "unexpected key export: ".to_owned();
                m.append(a.as_str());
                m
            },
        }
    }
}

/// A result as a mathematical value.
pub open spec fn outcome<T: View>(r: Result<T, Error>) -> Result<T::V, ErrorView> {
    match r {
        Ok(v) => Ok(v@),
        Err(e) => Err(e@),
    }
}

/// A result that holds a list, as a mathematical value.
pub open spec fn outcome_list<T: View>(r: Result<Vec<T>, Error>) -> Result<Seq<T::V>, ErrorView> {
    match r {
        Ok(v) => Ok(crate::model::views(v@)),
        Err(e) => Err(e@),
    }
}

/// Failures that come from outside are reported in their own words.
pub proof fn law_outside_failures_keep_their_words(a: Seq<char>)
    ensures
        ErrorView::Bs(a).text() == a,
        ErrorView::Open(a).text() == a,
        ErrorView::Update(a).text() == a,
        ErrorView::Plog(a).text() == a,
        ErrorView::Multikey(a).text() == a,
        ErrorView::Multisig(a).text() == a,
        ErrorView::Multicid(a).text() == a,
        ErrorView::Multihash(a).text() == a,
        ErrorView::Multicodec(a).text() == a,
        ErrorView::Io(a).text() == a,
        ErrorView::Keycard(a).text() == a,
        ErrorView::Derivation(a).text() == a,
        ErrorView::Randomness(a).text() == a,
        ErrorView::Message(a).text() == a,
{
}

/// The library's own errors are reported with these texts, around what they are about.
pub proof fn law_error_texts(a: Seq<char>, b: Seq<char>)
    ensures
        ErrorView::UnsupportedCodec(a).text() == "Unsupported codec: "@ + a
            + " (secp256k1 only for ephemeral open)"@,
        ErrorView::NotConnected.text() == "no wallet attached: create or load an account first"@,
        ErrorView::NoAccount.text()
            == "no account loaded: call create_account or import_plog first"@,
        ErrorView::AccountNotCached(a).text() == "no cached p-log for this VLAD (hash "@ + a
            + "): call create_account or import_plog first"@,
        ErrorView::PlogVerifyFailed(a).text() == "p-log verification failed: "@ + a,
        ErrorView::PathNotFound(a).text() == "no value at path "@ + a,
        ErrorView::PathNotRegistered(a).text() == "no derivation path registered for "@ + a,
        ErrorView::Encoding(a).text() == "encoding error: "@ + a,
        ErrorView::InvalidOp(a).text() == "invalid operation: "@ + a,
        ErrorView::PathNotDelegated(a).text() == "path not delegated: "@ + a,
        ErrorView::PathEscape(a, b).text() == "operation path escapes delegated branch "@ + a
            + ": "@ + b,
        ErrorView::ChallengeNotFound(a).text() == "unknown or expired path-update challenge: "@
            + a,
        ErrorView::HeadMismatch(a, b).text() == "p-log head changed since prepare (expected "@ + a
            + ", current "@ + b + ")"@,
        ErrorView::CardBindingMismatch(a).text() == "card binding mismatch: "@ + a,
        ErrorView::KeycardNotVirgin(a).text() == "keycard is not virgin: "@ + a,
        ErrorView::UnexpectedExport(a).text() == "unexpected key export: "@ + a,
{
}

/// A result succeeds or fails as its value does, and with the same.
pub proof fn law_outcomes<T: View>(x: T, list: Vec<T>, e: Error, i: int)
    requires
        0 <= i < list@.len(),
    ensures
        outcome(Ok::<T, Error>(x)) == Ok::<T::V, ErrorView>(x@),
        outcome(Err::<T, Error>(e)) == Err::<T::V, ErrorView>(e@),
        outcome_list(Err::<Vec<T>, Error>(e)) == Err::<Seq<T::V>, ErrorView>(e@),
        outcome_list(Ok::<Vec<T>, Error>(list)) is Ok,
        outcome_list(Ok::<Vec<T>, Error>(list))->Ok_0.len() == list@.len(),
        outcome_list(Ok::<Vec<T>, Error>(list))->Ok_0[i] == list@[i]@,
{
}

/// The value of an error is of its kind, and about the same.
pub proof fn law_error_values(a: String, b: String)
    ensures
        Error::Bs(a)@ == ErrorView::Bs(a@),
        Error::Open(a)@ == ErrorView::Open(a@),
        Error::Update(a)@ == ErrorView::Update(a@),
        Error::Plog(a)@ == ErrorView::Plog(a@),
        Error::Multikey(a)@ == ErrorView::Multikey(a@),
        Error::Multisig(a)@ == ErrorView::Multisig(a@),
        Error::Multicid(a)@ == ErrorView::Multicid(a@),
        Error::Multihash(a)@ == ErrorView::Multihash(a@),
        Error::Multicodec(a)@ == ErrorView::Multicodec(a@),
        Error::Io(a)@ == ErrorView::Io(a@),
        Error::Keycard(a)@ == ErrorView::Keycard(a@),
        Error::Derivation(a)@ == ErrorView::Derivation(a@),
        Error::Randomness(a)@ == ErrorView::Randomness(a@),
        Error::UnsupportedCodec(a)@ == ErrorView::UnsupportedCodec(a@),
        Error::Message(a)@ == ErrorView::Message(a@),
        Error::NotConnected@ == ErrorView::NotConnected,
        Error::NoAccount@ == ErrorView::NoAccount,
        Error::AccountNotCached(a)@ == ErrorView::AccountNotCached(a@),
        Error::PlogVerifyFailed(a)@ == ErrorView::PlogVerifyFailed(a@),
        Error::PathNotFound(a)@ == ErrorView::PathNotFound(a@),
        Error::PathNotRegistered(a)@ == ErrorView::PathNotRegistered(a@),
        Error::Encoding(a)@ == ErrorView::Encoding(a@),
        Error::InvalidOp(a)@ == ErrorView::InvalidOp(a@),
        Error::PathNotDelegated(a)@ == ErrorView::PathNotDelegated(a@),
        Error::PathEscape(a, b)@ == ErrorView::PathEscape(a@, b@),
        Error::ChallengeNotFound(a)@ == ErrorView::ChallengeNotFound(a@),
        Error::HeadMismatch(a, b)@ == ErrorView::HeadMismatch(a@, b@),
        Error::CardBindingMismatch(a)@ == ErrorView::CardBindingMismatch(a@),
        Error::KeycardNotVirgin(a)@ == ErrorView::KeycardNotVirgin(a@),
        Error::UnexpectedExport(a)@ == ErrorView::UnexpectedExport(a@),
{
}

}
