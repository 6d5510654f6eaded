//! Views of optional and listed texts.

use vstd::prelude::*;

verus! {

/// The text inside an optional string.
pub open spec fn opt_text(text: Option<String>) -> Option<Seq<char>> {
    match text {
        Some(s) => Some(s@),
        None => None,
    }
}

/// The texts of a list of strings.
pub open spec fn texts(list: Seq<String>) -> Seq<Seq<char>> {
    list.map_values(|s: String| s@)
}

/// The text inside an optional string is the whole text, and there is one
/// exactly if there is a string.
pub proof fn law_optional_text_is_whole(text: Option<String>)
    ensures
        text is None <==> opt_text(text) is None,
        text matches Some(s) ==> opt_text(text) == Some(s@),
{
}

/// The texts of a list are those of its strings, all of them, in order.
pub proof fn law_texts_are_all_texts(list: Seq<String>)
    ensures
        texts(list).len() == list.len(),
        forall|i: int| 0 <= i < list.len() ==> #[trigger] texts(list)[i] == list[i]@,
{
}

} // verus!
