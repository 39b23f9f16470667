//! The script transliterator and the grapheme segmenter that automatic
//! syllabification rests on. Both are outside this library: what is stated of
//! them here is taken on trust.

use crate::text::texts_of;
use vstd::prelude::*;

verus! {

/// The transliterator of the `shlesha` crate. Nothing is known of what a
/// value of it holds.
#[verifier::external_type_specification]
#[verifier::external_body]
pub struct ExShlesha(shlesha::Shlesha);

/// `Shlesha::new`: a transliterator with the built-in scripts. It looks for
/// schema and template files under the working directory, so nothing is
/// claimed of the value.
#[verifier::external_body]
pub(crate) fn new_transliterator() -> shlesha::Shlesha {
    shlesha::Shlesha::new()
}

/// `Shlesha::transliterate`: the text written in the script `to`, read as the
/// script `from`; `None` where the transliterator reports an error. The
/// outcome depends on what the transliterator loaded, so nothing is claimed
/// of it.
#[verifier::external_body]
pub(crate) fn transliterate(engine: &shlesha::Shlesha, text: &str, from: &str, to: &str) -> (r:
    Option<String>) {
    engine.transliterate(text, from, to).ok()
}

/// The extended grapheme clusters of a text, in order, as Unicode Standard
/// Annex #29 defines them.
pub uninterp spec fn grapheme_clusters(text: Seq<char>) -> Seq<Seq<char>>;

/// `UnicodeSegmentation::graphemes(text, true)`: the extended grapheme
/// clusters of the text, in order.
#[verifier::external_body]
pub(crate) fn graphemes(text: &str) -> (r: Vec<String>)
    ensures
        texts_of(r@) == grapheme_clusters(text@),
{
    unicode_segmentation::UnicodeSegmentation::graphemes(text, true)
        .map(|g| g.to_string())
        .collect()
}

} // verus!
