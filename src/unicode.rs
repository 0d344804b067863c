//! The Unicode data this library consults: grapheme cluster boundaries and
//! character names.
use unicode_segmentation::UnicodeSegmentation;
use vstd::prelude::*;

verus! {

/// The extended grapheme clusters of a text, in order.
pub uninterp spec fn graphemes_of(s: Seq<char>) -> Seq<Seq<char>>;

/// The name that the Unicode name tables give a character, if any.
pub uninterp spec fn unicode_name(c: char) -> Option<Seq<char>>;

/// The characters of each string in `v`.
pub open spec fn texts(v: Seq<String>) -> Seq<Seq<char>> {
    v.map_values(|g: String| g@)
}

/// The concatenation of a sequence of texts.
pub open spec fn joined(gs: Seq<Seq<char>>) -> Seq<char>
    decreases gs.len(),
{
    if gs.len() == 0 {
        seq![]
    } else {
        joined(gs.drop_last()) + gs.last()
    }
}

/// The view of an optional string.
pub open spec fn opt_view(o: Option<String>) -> Option<Seq<char>> {
    match o {
        Some(s) => Some(s@),
        None => None,
    }
}

/// Relies on `UnicodeSegmentation::graphemes` with extended clusters: it yields
/// non-empty slices of `t`, each starting where the one before ended, from the
/// start of `t` to its end.
#[verifier::external_body]
pub(crate) fn grapheme_clusters(t: &str) -> (r: Vec<String>)
    ensures
        texts(r@) == graphemes_of(t@),
        joined(texts(r@)) == t@,
        forall|i: int| 0 <= i < r@.len() ==> #[trigger] r@[i]@.len() > 0,
{
    t.graphemes(true).map(|g| g.to_string()).collect()
}

/// Relies on `unicode_names2::name`, written out through its `Display`: the
/// name of `c`, or `None` where the tables have none.
#[verifier::external_body]
pub(crate) fn name_of(c: char) -> (r: Option<String>)
    ensures
        opt_view(r) == unicode_name(c),
{
    match unicode_names2::name(c) {
        Some(n) => Some(n.to_string()),
        None => None,
    }
}

/// Relies on `unicode_segmentation::UNICODE_VERSION`: the edition of the
/// Unicode standard that the segmentation tables follow, 17.0.0 in the
/// version of the crate that this library is built against.
#[verifier::external_body]
pub(crate) fn unicode_version() -> (r: (u64, u64, u64))
    ensures
        r == (17u64, 0u64, 0u64),
{
    unicode_segmentation::UNICODE_VERSION
}

} // verus!
