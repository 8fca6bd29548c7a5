//! Text to tokens.

use crate::text::chars_of;
use vstd::prelude::*;
use vstd::utf8::{encode_utf8, is_char_boundary};

verus! {

/// The tokenizer of the `tokenizers` crate. Nothing is known of what it
/// holds.
#[verifier::external_type_specification]
#[verifier::external_body]
pub struct ExTokenizer(tokenizers::Tokenizer);

/// Encodes `data` with `tokenizers::Tokenizer::encode`, special tokens
/// added, and gives the identifiers of `Encoding::get_ids`, or the text of
/// the tokenizer's error. What comes out depends on the tokenizer: nothing
/// is claimed of it.
#[verifier::external_body]
pub(crate) fn encode_ids(tokenizer: &tokenizers::Tokenizer, data: String) -> Result<Vec<u32>, String> {
    match tokenizer.encode(data, true) {
        Ok(encoding) => Ok(encoding.get_ids().to_vec()),
        Err(e) => Err(e.to_string()),
    }
}


/// Whether `char::is_alphanumeric` counts a character as a letter or a
/// number.
pub uninterp spec fn alphanumeric(c: char) -> bool;

/// `char::is_alphanumeric` is a function of the character alone.
pub assume_specification[ char::is_alphanumeric ](c: char) -> (b: bool)
    ensures
        b == alphanumeric(c),
;

/// Whether the text decoded from some tokens, after the text `prev` decoded
/// from fewer of them, holds a fragment to pass on: it is longer in bytes,
/// it ends in a letter or a number, and `prev` ends where a character of it
/// ends.
pub open spec fn grown(prev: Seq<char>, text: Seq<char>) -> bool {
    &&& encode_utf8(text).len() > encode_utf8(prev).len()
    &&& text.len() > 0
    &&& alphanumeric(text.last())
    &&& is_char_boundary(encode_utf8(text), encode_utf8(prev).len() as int)
}

/// The fragment that decoded text adds to the text decoded before: what
/// stands behind the length of the earlier text, once the text has grown
/// and ends in a letter or a number; nothing until then, so that no
/// character is passed on in pieces.
pub fn next_fragment(prev_text: &str, text: &str) -> (fragment: Option<String>)
    ensures
        fragment is Some <==> grown(prev_text@, text@),
        fragment is Some ==> encode_utf8(fragment->0@) == encode_utf8(text@).skip(
            encode_utf8(prev_text@).len() as int,
        ),
{
    let cut = prev_text.as_bytes().len();
    let len = text.as_bytes().len();
    if len <= cut {
        return None;
    }
    let chars = chars_of(text);
    if chars.len() == 0 {
        return None;
    }
    if !chars[chars.len() - 1].is_alphanumeric() {
        return None;
    }
    if !text.is_char_boundary(cut) {
        return None;
    }
    let (_, fresh) = text.split_at(cut);
    let fragment = fresh.to_owned();
    assert(encode_utf8(text@).subrange(cut as int, encode_utf8(text@).len() as int) =~= encode_utf8(
        text@,
    ).skip(cut as int));
    Some(fragment)
}

} // verus!
