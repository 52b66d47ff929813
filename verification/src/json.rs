//! The two things this crate asks of `serde_json`: to read a payload and write
//! it back out, and to quote a text as a JSON string.

use vstd::prelude::*;

verus! {

/// What `serde_json` makes of a payload: the same value written back in its
/// compact form, or the parser's complaint about the text.
pub uninterp spec fn json_echo(text: Seq<char>) -> Result<Seq<char>, Seq<char>>;

/// The text as the JSON string literal that `serde_json` writes for it,
/// quotes and escapes included.
pub uninterp spec fn json_quoted(text: Seq<char>) -> Seq<char>;

/// Parses `text` with `serde_json::from_str` into a `serde_json::Value` and
/// renders that value with `serde_json::to_string`.
///
/// Trusted: both calls depend on the text alone, so the outcome is the one
/// that `json_echo` names. A text that is no JSON value, or that nests deeper
/// than the parser allows, comes back as `Err` with the parser's message.
#[verifier::external_body]
pub(crate) fn reencode(text: &str) -> (outcome: Result<String, String>)
    ensures
        match outcome {
            Ok(rendered) => json_echo(text@) == Ok::<Seq<char>, Seq<char>>(rendered@),
            Err(complaint) => json_echo(text@) == Err::<Seq<char>, Seq<char>>(complaint@),
        },
{
    match serde_json::from_str::<serde_json::Value>(text) {
        Ok(value) => match serde_json::to_string(&value) {
            Ok(rendered) => Ok(rendered),
            Err(e) => Err(e.to_string()),
        },
        Err(e) => Err(e.to_string()),
    }
}

/// Renders `text` as a JSON string literal with `serde_json::to_string`.
///
/// Trusted: a literal always comes back, since the call writes a string into
/// memory, which cannot fail. It depends on the text alone and is the one
/// that `json_quoted` names.
#[verifier::external_body]
pub(crate) fn quote(text: &str) -> (outcome: Option<String>)
    ensures
        outcome is Some,
        outcome matches Some(literal) ==> literal@ == json_quoted(text@),
{
    serde_json::to_string(text).ok()
}

} // verus!
