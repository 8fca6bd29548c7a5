//! The version of a backend installed on the machine.

use crate::text::{chars_of, span_texts, split_on, split_spans, string_of, trim, trim_span};
use vstd::prelude::*;

verus! {

/// The version in what the backend prints when asked for it: the last of
/// the pieces that single spaces part, white space around the text aside.
pub open spec fn printed_version(output: Seq<char>) -> Seq<char> {
    split_on(trim(output), ' ').last()
}

/// The pieces of a text are never none.
pub proof fn lemma_split_on_nonempty(s: Seq<char>, c: char)
    ensures
        split_on(s, c).len() > 0,
    decreases s.len(),
{
}

/// The version of the backend installed on the machine, given what it
/// printed when asked: `Unknown` where it could not be asked.
pub fn get_ollama_version(output: Option<&str>) -> (version: String)
    ensures
        version@ == (match output {
            Some(text) => printed_version(text@),
            None => "Unknown"@,
        }),
{
    let text = match output {
        Some(t) => t,
        None => {
            return "Unknown".to_owned();
        },
    };
    let chars = chars_of(text);
    let (from, to) = trim_span(&chars, 0, chars.len());
    assert(chars@.subrange(0, chars.len() as int) =~= chars@);
    let pieces = split_spans(&chars, from, to, ' ');
    proof {
        lemma_split_on_nonempty(chars@.subrange(from as int, to as int), ' ');
    }
    let (a, b) = pieces[pieces.len() - 1];
    assert(span_texts(chars@, pieces@).last() == chars@.subrange(a as int, b as int));
    string_of(&chars, a, b)
}

} // verus!
