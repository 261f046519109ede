//! Boundary to the `unicode-segmentation` crate.

use unicode_segmentation::UnicodeSegmentation;
use vstd::prelude::*;

verus! {

/// The extended grapheme clusters of `text`, in the order in which they occur.
///
/// Which characters form one cluster is decided by the Unicode tables of the
/// segmentation crate; nothing more is assumed of it here.
pub uninterp spec fn grapheme_clusters(text: Seq<char>) -> Seq<Seq<char>>;

/// Splits `text` with `UnicodeSegmentation::graphemes(text, true)` and copies
/// each cluster into an owned string.
///
/// Trusted: the clusters handed back are the ones that
/// [`grapheme_clusters`] names for this text.
#[verifier::external_body]
pub(crate) fn graphemes(text: &str) -> (clusters: Vec<String>)
    ensures
        clusters.deep_view() == grapheme_clusters(text@),
{
    UnicodeSegmentation::graphemes(text, true).map(|cluster| cluster.to_owned()).collect()
}

} // verus!
