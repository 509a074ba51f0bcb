//! Opaque identifiers.

use vstd::prelude::*;

verus! {

/// Whether a character is a digit of a hexadecimal number in lower case.
pub open spec fn is_hex_digit(c: char) -> bool {
    '0' <= c <= '9' || 'a' <= c <= 'f'
}

/// Whether a text has the form of a random identifier: five groups of
/// hexadecimal digits, the third of which starts with its version, four, and
/// the fourth with its variant.
pub open spec fn is_token(text: Seq<char>) -> bool {
    &&& text.len() == 36
    &&& forall|i: int|
        0 <= i < 36 ==> if i == 8 || i == 13 || i == 18 || i == 23 {
            #[trigger] text[i] == '-'
        } else {
            is_hex_digit(text[i])
        }
    &&& text[14] == '4'
    &&& text[19] == '8' || text[19] == '9' || text[19] == 'a' || text[19] == 'b'
}

/// Draws a random identifier with `uuid::Uuid::new_v4` and writes it down. The
/// contract claims its form, which holds of every identifier drawn: lower-case
/// hexadecimal digits in groups of eight, four, four, four and twelve, with the
/// marks of version four. Which one is drawn is left to chance, so nothing is
/// said of two of them being different.
#[verifier::external_body]
pub(crate) fn new_token() -> (token: String)
    ensures
        is_token(token@),
{
    uuid::Uuid::new_v4().to_string()
}

/// As many random identifiers as asked for.
pub fn fresh_tokens(count: usize) -> (tokens: Vec<String>)
    ensures
        tokens@.len() == count,
        forall|i: int| 0 <= i < count ==> is_token((#[trigger] tokens@[i])@),
{
    let mut tokens: Vec<String> = Vec::new();
    while tokens.len() < count
        invariant
            tokens@.len() <= count,
            forall|i: int| 0 <= i < tokens@.len() ==> is_token((#[trigger] tokens@[i])@),
        decreases count - tokens@.len(),
    {
        tokens.push(new_token());
    }
    tokens
}

} // verus!
