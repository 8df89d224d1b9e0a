//! Short codes: their alphabet, their length, and how a fresh candidate
//! is drawn.

use vstd::prelude::*;

verus! {

/// The number of characters in a code.
pub const CODE_LEN: usize = 6;

/// Whether `c` is one of the 64 URL-safe symbols that codes are drawn
/// from: `_`, `-`, a digit, or an ASCII letter of either case.
pub open spec fn is_code_char(c: char) -> bool {
    c == '_' || c == '-' || ('0' <= c && c <= '9') || ('a' <= c && c <= 'z') || ('A' <= c && c
        <= 'Z')
}

/// Whether `text` has the shape of a generated code: [`CODE_LEN`]
/// characters, each of them a code character.
pub open spec fn is_code(text: Seq<char>) -> bool {
    &&& text.len() == CODE_LEN
    &&& forall|i: int| 0 <= i < text.len() ==> is_code_char(#[trigger] text[i])
}

/// A random string of `size` URL-safe symbols.
///
/// Trusted: this is `nanoid::format` with the generator
/// `nanoid::rngs::default` and the alphabet `nanoid::alphabet::SAFE`. The
/// contract claims what holds of every draw: `format` pushes symbols of
/// the alphabet, one per random byte that indexes into it, and returns
/// as soon as `size` of them are there. Which symbols come out is left
/// open. A `size` of zero would never return, hence the lower bound; the
/// upper bound keeps `8 * size` inside `usize`.
#[verifier::external_body]
fn random_text(size: usize) -> (text: String)
    requires
        0 < size <= usize::MAX / 8,
    ensures
        text@.len() == size,
        forall|i: int| 0 <= i < text@.len() ==> is_code_char(#[trigger] text@[i]),
{
    nanoid::format(nanoid::rngs::default, &nanoid::alphabet::SAFE, size)
}

/// Draws a fresh candidate code at random.
///
/// Two draws may or may not differ; nothing is promised beyond the shape.
pub fn generate() -> (code: String)
    ensures
        is_code(code@),
{
    random_text(CODE_LEN)
}

} // verus!
