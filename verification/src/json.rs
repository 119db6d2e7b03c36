use vstd::prelude::*;

verus! {

/// The JSON string literal that encodes a sequence of characters: an opening
/// quote, the characters with JSON escaping applied, a closing quote. The
/// exact escaping rules are the encoder's; the result depends on the
/// characters alone.
pub uninterp spec fn json_string_of(s: Seq<char>) -> Seq<char>;

/// Relies on serde_json::to_string on a str: it writes a quote, the escaped
/// characters, and a quote into an in-memory buffer, an infallible pure
/// function of the input characters.
#[verifier::external_body]
pub fn json_quote(s: &str) -> (r: String)
    ensures
        r@ == json_string_of(s@),
{
    match serde_json::to_string(s) {
        Ok(r) => r,
        Err(_) => String::new(),
    }
}

} // verus!
