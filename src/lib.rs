use vstd::prelude::*;

pub mod characterize;
pub mod syllables;

pub use characterize::{characterize_sentences, count_total, syllable_total, Characterization};
pub use syllables::{get_syllable_count, syllable_count_lowercase};

verus! {

/// Number of words in a list, as the signed 32-bit count that callers expect.
pub fn wordcount_list(word_list: Vec<String>) -> (r: i32)
    ensures
        r == word_list@.len() as i32,
{
    word_list.len() as i32
}

} // verus!
