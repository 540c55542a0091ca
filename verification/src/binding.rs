//! Binding of a Keycard to an account.
//!
//! After an account was created on a card, the card's public record holds the hash of the
//! account's VLAD. The log itself does not name the card.

use crate::error;
use crate::error::{Error, ErrorView};
use crate::model;
use crate::plog::Vlad;
use crate::text;
use crate::vlad_hash;
pub use crate::vlad_hash::{vlad_hash, vlad_hash_from_multibase, VLAD_HASH_LEN};
use vstd::prelude::*;
use vstd::string::*;

verus! {

/// The VLAD hash in a card's public record, or why the record holds none.
pub open spec fn card_hash(data: Seq<u8>) -> Result<Seq<u8>, ErrorView> {
    if data.len() == 0 {
        Err(
            ErrorView::CardBindingMismatch(
                "card has no account binding (empty public data)"@,
            ),
        )
    } else if data.len() != VLAD_HASH_LEN {
        Err(
            ErrorView::CardBindingMismatch(
                "card public data length "@ + text::decimal(data.len()) + " (expected 32)"@,
            ),
        )
    } else {
        Ok(data)
    }
}

/// Reads a card's public record as a VLAD hash.
pub fn parse_card_vlad_hash(data: &[u8]) -> (r: Result<[u8; 32], Error>)
    ensures
        error::outcome(r) == card_hash(data@),
{
    if data.len() == 0 {
        return Err(
            Error::CardBindingMismatch(
                "card has no account binding (empty public data)".to_owned(),
            ),
        );
    }
    if data.len() != VLAD_HASH_LEN {
        let mut m: String = "card public data length ".to_owned();
        m.append(text::decimal_text(data.len()).as_str());
        m.append(" (expected 32)");
        return Err(Error::CardBindingMismatch(m));
    }
    Ok(model::to_array32(data))
}

/// Why a card's public record does not bind it to the account whose VLAD hashes to `expected`,
/// if it does not.
pub open spec fn binding_fault(data: Seq<u8>, expected: Seq<u8>) -> Option<ErrorView> {
    match card_hash(data) {
        Err(e) => Some(e),
        Ok(on_card) => if on_card != expected {
            Some(
                ErrorView::CardBindingMismatch("VLAD hash on card does not match this p-log"@),
            )
        } else {
            None
        },
    }
}

/// Checks a card's public record against the hash that it should hold.
pub fn check_binding(card_public_data: &[u8], expected: &[u8; 32]) -> (r: Result<(), Error>)
    ensures
        match r {
            Ok(()) => binding_fault(card_public_data@, expected@) is None,
            Err(e) => binding_fault(card_public_data@, expected@) == Some(e@),
        },
{
    let on_card: [u8; 32] = match parse_card_vlad_hash(card_public_data) {
        Ok(h) => h,
        Err(e) => return Err(e),
    };
    if !model::same_array32(&on_card, expected) {
        return Err(
            Error::CardBindingMismatch(
                "VLAD hash on card does not match this p-log".to_owned(),
            ),
        );
    }
    Ok(())
}

/// Checks that a card's public record binds it to the account `vlad`.
pub fn verify_card_vlad_binding(card_public_data: &[u8], vlad: &Vlad) -> (r: Result<(), Error>)
    ensures
        match r {
            Ok(()) => binding_fault(
                card_public_data@,
                vlad_hash::vlad_text_hash(vlad@),
            ) is None,
            Err(e) => binding_fault(card_public_data@, vlad_hash::vlad_text_hash(vlad@)) == Some(
                e@,
            ),
        },
{
    let expected: [u8; 32] = vlad_hash(vlad);
    check_binding(card_public_data, &expected)
}

/// The record written for an account binds the card to that account, and to no account whose
/// VLAD has another hash.
pub proof fn law_stored_hash_binds(hash: Seq<u8>, other: Seq<u8>)
    requires
        hash.len() == VLAD_HASH_LEN,
    ensures
        binding_fault(hash, hash) is None,
        binding_fault(hash, other) is None <==> other == hash,
{
}

/// A card with an empty record is bound to no account.
pub proof fn law_empty_record_binds_nothing(expected: Seq<u8>)
    ensures
        binding_fault(Seq::<u8>::empty(), expected) is Some,
{
}

/// A card is bound to an account exactly if its public record is the account's hash, thirty-two
/// bytes long. An empty record, one of another length and one with another hash are told apart.
pub proof fn law_binding(data: Seq<u8>, expected: Seq<u8>)
    ensures
        binding_fault(data, expected) is None <==> data.len() == 32 && data == expected,
        data.len() == 0 ==> binding_fault(data, expected) == Some(
            ErrorView::CardBindingMismatch("card has no account binding (empty public data)"@),
        ),
        data.len() != 0 && data.len() != 32 ==> binding_fault(data, expected) == Some(
            ErrorView::CardBindingMismatch(
                "card public data length "@ + text::decimal(data.len()) + " (expected 32)"@,
            ),
        ),
        data.len() == 32 && data != expected ==> binding_fault(data, expected) == Some(
            ErrorView::CardBindingMismatch("VLAD hash on card does not match this p-log"@),
        ),
        data.len() == 32 ==> card_hash(data) == Ok::<Seq<u8>, ErrorView>(data),
        data.len() != 32 ==> card_hash(data) == Err::<Seq<u8>, ErrorView>(
            binding_fault(data, expected)->Some_0,
        ),
{
}

}
