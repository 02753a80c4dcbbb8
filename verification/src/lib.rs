//! Token-level Levenshtein edit distance with a visual edit script.
//!
//! A [`Levenshtein`] calculator splits two texts into Unicode tokens
//! (grapheme clusters or word-bounded segments), builds the full cost matrix,
//! and can then report the edit distance, the raw per-token edit operations,
//! the run-length-grouped edits, or a rendered diff string produced by a
//! caller-supplied encoder.

pub mod edits;
pub mod grouping;
pub mod laws;
pub mod matrix;
pub mod model;
pub mod tokenize;

pub use edits::{t_delta, t_min_3, Edit, Transformation};
pub use matrix::Levenshtein;

use vstd::prelude::*;

verus! {

/// A calculator over the grapheme clusters of the two texts: each token is
/// one extended grapheme cluster.
pub fn levenshtein(origin: &str, dest: &str) -> (r: Levenshtein)
    ensures
        r.wf(),
        r.all_init(),
        r.origin_toks() == tokenize::graphemes_of(origin@),
        r.dest_toks() == tokenize::graphemes_of(dest@),
{
    Levenshtein::new(origin, dest)
}

/// A calculator over the word-bounded segments of the two texts: each token
/// is one segment between word boundaries (words, spaces and punctuation).
pub fn levenshtein_words(origin: &str, dest: &str) -> (r: Levenshtein)
    ensures
        r.wf(),
        r.all_init(),
        r.origin_toks() == tokenize::word_bounds_of(origin@),
        r.dest_toks() == tokenize::word_bounds_of(dest@),
{
    Levenshtein::new_words(origin, dest)
}

} // verus!
