//! What the library reads of a JSON document, which it holds as text.

use vstd::prelude::*;

verus! {

/// Whether bytes spell a JSON document.
pub uninterp spec fn json_document(body: Seq<u8>) -> bool;

/// Whether the value that a JSON pointer selects in a document is the value that
/// another document spells.
pub uninterp spec fn json_selects(
    body: Seq<u8>,
    pointer: Seq<char>,
    expected: Seq<char>,
) -> bool;

/// `serde_json::from_slice` into `serde_json::Value`: whether it accepts the bytes.
/// Which bytes those are is not stated.
#[verifier::external_body]
pub(crate) fn is_json(body: &[u8]) -> (answer: bool)
    ensures
        answer == json_document(body@),
{
    serde_json::from_slice::<serde_json::Value>(body).is_ok()
}

/// `serde_json::Value::pointer` on the document `body`: whether it selects a value
/// equal to the document `expected`. It is false where either text is not a JSON
/// document. How a pointer selects and when two values are equal is not stated.
#[verifier::external_body]
pub(crate) fn json_pointer_is(body: &[u8], pointer: &str, expected: &str) -> (answer: bool)
    ensures
        answer == json_selects(body@, pointer@, expected@),
        answer ==> json_document(body@),
{
    let json = serde_json::from_slice::<serde_json::Value>(body);
    let wanted = serde_json::from_str::<serde_json::Value>(expected);
    match (json, wanted) {
        (Ok(json), Ok(wanted)) => json.pointer(pointer) == Some(&wanted),
        _ => false,
    }
}

} // verus!
