//! Grapheme-cluster segmentation, the one piece of text shape this library
//! takes from outside: everything the editor counts and slices is counted in
//! the clusters named here.

use unicode_segmentation::UnicodeSegmentation;
use vstd::prelude::*;

verus! {

/// The sequence of extended grapheme clusters of a string, as the
/// `unicode_segmentation` crate segments it (UAX #29). The clusters are
/// nonempty and partition the string in order; beyond that, where one
/// cluster ends and the next begins is known only to the segmenter.
pub uninterp spec fn graphemes_of(s: Seq<char>) -> Seq<Seq<char>>;

/// Relies on `unicode_segmentation::UnicodeSegmentation::graphemes` with
/// `is_extended = true`: it yields the extended grapheme clusters of `s`,
/// in order; each cluster is nonempty and their concatenation is `s`.
#[verifier::external_body]
pub(crate) fn grapheme_clusters(s: &str) -> (v: Vec<String>)
    ensures
        v@.len() == graphemes_of(s@).len(),
        forall|i: int| 0 <= i < v@.len() ==> #[trigger] v@[i]@ == graphemes_of(s@)[i],
        forall|i: int| 0 <= i < v@.len() ==> #[trigger] v@[i]@.len() >= 1,
        v@.map_values(|g: String| g@).flatten() == s@,
{
    s.graphemes(true).map(|g| g.to_string()).collect()
}

/// Relies on `String::push`: appends the character to the end of the string.
#[verifier::external_body]
pub(crate) fn push_char(s: &mut String, c: char)
    ensures
        final(s)@ == old(s)@.push(c),
{
    s.push(c);
}

/// The grapheme clusters of a string concatenate back to the string itself;
/// callers that hold the clusters in hand get the fact at the level of
/// `graphemes_of` as well.
pub(crate) fn grapheme_clusters_exact(s: &str) -> (v: Vec<String>)
    ensures
        v@.len() == graphemes_of(s@).len(),
        forall|i: int| 0 <= i < v@.len() ==> #[trigger] v@[i]@ == graphemes_of(s@)[i],
        forall|i: int| 0 <= i < v@.len() ==> #[trigger] v@[i]@.len() >= 1,
        graphemes_of(s@).flatten() == s@,
{
    let v = grapheme_clusters(s);
    proof {
        assert(graphemes_of(s@) =~= v@.map_values(|g: String| g@));
    }
    v
}

/// The number of grapheme clusters in a string.
pub(crate) fn grapheme_count(s: &str) -> (n: usize)
    ensures
        n == graphemes_of(s@).len(),
{
    let v = grapheme_clusters(s);
    v.len()
}

} // verus!
