//! JSON error envelopes. Handler-level failures carry a body of the shape
//! `{"error": <message>}` with the store's message quoted as a JSON string;
//! routing misses carry the canonical `{"message": "not found"}` envelope.
//! The quoting itself is done by serde_json; everything around it is
//! verified against the name `json_string_of`.

use vstd::prelude::*;
use vstd::string::StringExecFns;

verus! {

/// The JSON string literal (opening quote, escaped characters, closing
/// quote) that serde_json produces for the given character sequence.
pub uninterp spec fn json_string_of(s: Seq<char>) -> Seq<char>;

/// A character that JSON string encoding passes through unescaped: not a
/// quote, not a backslash, not a control character.
pub open spec fn plain_json_char(c: char) -> bool {
    c != '"' && c != '\\' && c as u32 >= 0x20
}

/// Relies on serde_json::to_string for &str: the output is the quoted,
/// escaped JSON encoding of the characters alone, and characters that
/// need no escape are passed through verbatim between the quotes. For
/// &str the call never fails (serde_json documents failure only for
/// faulty Serialize impls and non-string map keys).
#[verifier::external_body]
fn json_quote(s: &str) -> (r: String)
    ensures
        r@ == json_string_of(s@),
        (forall|i: int| 0 <= i < s@.len() ==> plain_json_char(s@[i])) ==> r@ == seq!['"'] + s@
            + seq!['"'],
{
    serde_json::to_string(s).unwrap()
}

/// The body of a handler-level failure response for the given message.
pub open spec fn error_body_of(msg: Seq<char>) -> Seq<char> {
    "{\"error\":"@ + json_string_of(msg) + "}"@
}

/// Wrap a store or parse message in the `{"error": <message>}` envelope,
/// quoting the message as a JSON string.
pub fn error_body(msg: &str) -> (r: String)
    ensures
        r@ == error_body_of(msg@),
{
    let quoted = json_quote(msg);
    let mut r = "{\"error\":".to_owned();
    r.append(quoted.as_str());
    r.append("}");
    r
}

/// The canonical envelope for a routing miss.
pub open spec fn not_found_body_of() -> Seq<char> {
    "{\"message\":\"not found\"}"@
}

/// The one generic error body: a request no route matches is answered
/// with this envelope.
pub fn not_found_body() -> (r: String)
    ensures
        r@ == not_found_body_of(),
{
    "{\"message\":\"not found\"}".to_owned()
}

} // verus!
