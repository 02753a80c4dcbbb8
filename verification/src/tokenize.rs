//! Splitting a text into tokens is delegated to the `unicode-segmentation`
//! crate; the rest of the pipeline only consumes the resulting ordered token
//! sequence. The two split functions are deterministic functions of the text
//! alone, so their results are given names that the contracts downstream
//! speak of.
use vstd::prelude::*;

verus! {

/// The grapheme clusters of a text, in order, as character sequences.
pub uninterp spec fn graphemes_of(s: Seq<char>) -> Seq<Seq<char>>;

/// The word-bounded segments of a text, in order, as character sequences.
pub uninterp spec fn word_bounds_of(s: Seq<char>) -> Seq<Seq<char>>;

/// Relies on `UnicodeSegmentation::graphemes` (extended grapheme clusters):
/// it splits the text into consecutive non-empty substrings whose
/// concatenation is the text again; a Rust string holds at most
/// `isize::MAX` bytes, so there are at most that many clusters.
#[verifier::external_body]
pub(crate) fn split_graphemes(s: &str) -> (r: Vec<String>)
    ensures
        r@.map_values(|t: String| t@) == graphemes_of(s@),
        r@.map_values(|t: String| t@).flatten() == s@,
        forall|i: int| 0 <= i < r@.len() ==> r@[i]@.len() > 0,
        r@.len() <= usize::MAX / 2,
{
    unicode_segmentation::UnicodeSegmentation::graphemes(s, true)
        .map(|t: &str| t.to_owned())
        .collect()
}

/// Relies on `UnicodeSegmentation::split_word_bounds`: it splits the text on
/// word boundaries into consecutive non-empty substrings, and its
/// documentation states that their concatenation is just the input string;
/// a Rust string holds at most `isize::MAX` bytes, so there are at most
/// that many segments.
#[verifier::external_body]
pub(crate) fn split_words(s: &str) -> (r: Vec<String>)
    ensures
        r@.map_values(|t: String| t@) == word_bounds_of(s@),
        r@.map_values(|t: String| t@).flatten() == s@,
        forall|i: int| 0 <= i < r@.len() ==> r@[i]@.len() > 0,
        r@.len() <= usize::MAX / 2,
{
    unicode_segmentation::UnicodeSegmentation::split_word_bounds(s)
        .map(|t: &str| t.to_owned())
        .collect()
}

} // verus!
