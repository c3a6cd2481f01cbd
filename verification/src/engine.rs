//! What the miniscript engine computes for a fragment given as text.

use vstd::prelude::*;

verus! {

/// The script that the engine encodes a segwit fragment to, by the
/// fragment's text; `None` where the engine rejects the text.
pub uninterp spec fn segwit_encoding(text: Seq<char>) -> Option<Seq<u8>>;

/// The engine's bound on the size of a satisfying witness of a segwit
/// fragment, by the fragment's text; `None` where the engine rejects the
/// text or the fragment cannot be satisfied.
pub uninterp spec fn segwit_max_satisfaction_size(text: Seq<char>) -> Option<nat>;

/// The engine's bound on the number of witness elements of a segwit
/// fragment, by the fragment's text; `None` where the engine rejects the
/// text or the fragment cannot be satisfied.
pub uninterp spec fn segwit_max_witness_elements(text: Seq<char>) -> Option<nat>;

/// Whether the engine accepts the text as a segwit fragment that passes its
/// sanity check.
pub uninterp spec fn segwit_is_sane(text: Seq<char>) -> bool;

/// Encodes a segwit fragment.
///
/// Trusted: parses the text with `miniscript::Miniscript::from_str_insane`
/// over `bitcoin::PublicKey` and `Segwitv0`, and takes the bytes of
/// `Miniscript::encode`. The contract names the outcome.
#[verifier::external_body]
pub(crate) fn segwit_encode(text: &str) -> (r: Option<Vec<u8>>)
    ensures
        r matches Some(b) ==> segwit_encoding(text@) == Some(b@),
        r is None ==> segwit_encoding(text@) is None,
{
    match miniscript::Miniscript::<bitcoin::PublicKey, miniscript::Segwitv0>::from_str_insane(text) {
        Ok(ms) => Some(ms.encode().into_bytes()),
        Err(_) => None,
    }
}

/// The engine's bound on the size of a satisfying witness.
///
/// Trusted: parses the text with `Miniscript::from_str_insane` and calls
/// `Miniscript::max_satisfaction_size`. The contract names the outcome.
#[verifier::external_body]
pub(crate) fn segwit_satisfaction_size(text: &str) -> (r: Option<usize>)
    ensures
        r matches Some(n) ==> segwit_max_satisfaction_size(text@) == Some(n as nat),
        r is None ==> segwit_max_satisfaction_size(text@) is None,
{
    match miniscript::Miniscript::<bitcoin::PublicKey, miniscript::Segwitv0>::from_str_insane(text) {
        Ok(ms) => ms.max_satisfaction_size().ok(),
        Err(_) => None,
    }
}

/// The engine's bound on the number of witness elements.
///
/// Trusted: parses the text with `Miniscript::from_str_insane` and calls
/// `Miniscript::max_satisfaction_witness_elements`. The contract names the
/// outcome.
#[verifier::external_body]
pub(crate) fn segwit_witness_elements(text: &str) -> (r: Option<usize>)
    ensures
        r matches Some(n) ==> segwit_max_witness_elements(text@) == Some(n as nat),
        r is None ==> segwit_max_witness_elements(text@) is None,
{
    match miniscript::Miniscript::<bitcoin::PublicKey, miniscript::Segwitv0>::from_str_insane(text) {
        Ok(ms) => ms.max_satisfaction_witness_elements().ok(),
        Err(_) => None,
    }
}

/// The engine's sanity check of a segwit fragment.
///
/// Trusted: parses the text with `Miniscript::from_str_insane` and calls
/// `Miniscript::sanity_check`. The contract names the outcome.
#[verifier::external_body]
pub(crate) fn segwit_sanity_check(text: &str) -> (r: bool)
    ensures
        r == segwit_is_sane(text@),
{
    match miniscript::Miniscript::<bitcoin::PublicKey, miniscript::Segwitv0>::from_str_insane(text) {
        Ok(ms) => ms.sanity_check().is_ok(),
        Err(_) => false,
    }
}

/// The engine's verdict on a text as the fragment of a bare descriptor:
/// `None` where it does not parse as a fragment of the base type under the
/// bare context, else whether it passes the context's top-level check.
pub uninterp spec fn bare_top_level_verdict(text: Seq<char>) -> Option<bool>;

/// The text in which the engine writes the bare fragment that a text reads
/// as; `None` where the engine rejects the text.
pub uninterp spec fn bare_canonical_text(text: Seq<char>) -> Option<Seq<char>>;

/// Writes a bare fragment in the engine's own text.
///
/// Trusted: parses the text with `Miniscript::from_str_insane` over
/// `bitcoin::PublicKey` and `BareCtx`, and writes the fragment with its
/// `Display`. The contract names the outcome.
#[verifier::external_body]
pub(crate) fn bare_canonical(text: &str) -> (r: Option<String>)
    ensures
        r matches Some(c) ==> bare_canonical_text(text@) == Some(c@),
        r is None ==> bare_canonical_text(text@) is None,
{
    match miniscript::Miniscript::<bitcoin::PublicKey, miniscript::BareCtx>::from_str_insane(text) {
        Ok(ms) => Some(ms.to_string()),
        Err(_) => None,
    }
}

/// The script that the engine encodes a bare fragment to, by the fragment's
/// text; `None` where the engine rejects the text.
pub uninterp spec fn bare_encoding(text: Seq<char>) -> Option<Seq<u8>>;

/// The engine's bound on the size of the script-sig of a bare fragment, by
/// the fragment's text; `None` where the engine rejects the text or the
/// fragment cannot be satisfied.
pub uninterp spec fn bare_max_satisfaction_size(text: Seq<char>) -> Option<nat>;

/// Whether the engine accepts the text as a bare fragment that passes its
/// sanity check.
pub uninterp spec fn bare_is_sane(text: Seq<char>) -> bool;

/// Checks a fragment for use at the top level of a bare descriptor.
///
/// Trusted: parses the text with `Miniscript::from_str_insane` over
/// `bitcoin::PublicKey` and `BareCtx`, and calls
/// `BareCtx::top_level_checks`. The contract names the outcome.
#[verifier::external_body]
pub(crate) fn bare_top_level_checks(text: &str) -> (r: Option<bool>)
    ensures
        r == bare_top_level_verdict(text@),
{
    match miniscript::Miniscript::<bitcoin::PublicKey, miniscript::BareCtx>::from_str_insane(text) {
        Ok(ms) => Some(<miniscript::BareCtx as miniscript::ScriptContext>::top_level_checks(&ms).is_ok()),
        Err(_) => None,
    }
}

/// Encodes a bare fragment.
///
/// Trusted: parses the text with `Miniscript::from_str_insane` over
/// `bitcoin::PublicKey` and `BareCtx`, and takes the bytes of
/// `Miniscript::encode`. The contract names the outcome, and says that a
/// text with a top-level verdict, which parses, has an encoding.
#[verifier::external_body]
pub(crate) fn bare_encode(text: &str) -> (r: Option<Vec<u8>>)
    ensures
        r matches Some(b) ==> bare_encoding(text@) == Some(b@),
        r is None ==> bare_encoding(text@) is None,
        bare_top_level_verdict(text@) is Some ==> r is Some,
{
    match miniscript::Miniscript::<bitcoin::PublicKey, miniscript::BareCtx>::from_str_insane(text) {
        Ok(ms) => Some(ms.encode().into_bytes()),
        Err(_) => None,
    }
}

/// The engine's bound on the size of the script-sig of a bare fragment.
///
/// Trusted: parses the text with `Miniscript::from_str_insane` and calls
/// `Miniscript::max_satisfaction_size`. The contract names the outcome.
#[verifier::external_body]
pub(crate) fn bare_satisfaction_size(text: &str) -> (r: Option<usize>)
    ensures
        r matches Some(n) ==> bare_max_satisfaction_size(text@) == Some(n as nat),
        r is None ==> bare_max_satisfaction_size(text@) is None,
{
    match miniscript::Miniscript::<bitcoin::PublicKey, miniscript::BareCtx>::from_str_insane(text) {
        Ok(ms) => ms.max_satisfaction_size().ok(),
        Err(_) => None,
    }
}

/// The engine's sanity check of a bare fragment.
///
/// Trusted: parses the text with `Miniscript::from_str_insane` and calls
/// `Miniscript::sanity_check`. The contract names the outcome.
#[verifier::external_body]
pub(crate) fn bare_sanity_check(text: &str) -> (r: bool)
    ensures
        r == bare_is_sane(text@),
{
    match miniscript::Miniscript::<bitcoin::PublicKey, miniscript::BareCtx>::from_str_insane(text) {
        Ok(ms) => ms.sanity_check().is_ok(),
        Err(_) => false,
    }
}

} // verus!
