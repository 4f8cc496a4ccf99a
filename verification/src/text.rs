//! Texts that may be missing, as sequences of characters.

use vstd::prelude::*;

verus! {

/// A text that may be missing, as characters.
pub open spec fn text_of(text: Option<String>) -> Option<Seq<char>> {
    match text {
        Some(text) => Some(text@),
        None => None,
    }
}

/// Each of the texts, as characters.
pub open spec fn texts_of(texts: Seq<Option<String>>) -> Seq<Option<Seq<char>>> {
    texts.map_values(|text: Option<String>| text_of(text))
}

} // verus!
