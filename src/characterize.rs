use unicode_segmentation::UnicodeSegmentation;
use vstd::prelude::*;

use crate::syllables::{get_syllable_count, syllable_count};

verus! {

/// What `UnicodeSegmentation::unicode_words` finds in a sequence of characters.
pub uninterp spec fn unicode_words_of(s: Seq<char>) -> Seq<Seq<char>>;

/// The characters of each string of a list.
pub open spec fn views(v: Seq<&str>) -> Seq<Seq<char>> {
    v.map_values(|s: &str| s@)
}

/// Relies on `UnicodeSegmentation::unicode_words`: the words of a string by the
/// Unicode word-boundary rules, in order; the empty string has none.
#[verifier::external_body]
fn unicode_words<'a>(s: &'a str) -> (r: Vec<&'a str>)
    ensures
        views(r@) == unicode_words_of(s@),
        s@.len() == 0 ==> r@.len() == 0,
{
    s.unicode_words().collect()
}

/// The word and syllable statistics of a document.
pub struct Characterization<'a> {
    pub sentences: Vec<&'a str>,
    pub sentence_lengths: Vec<usize>,
    pub words: Vec<&'a str>,
    pub word_syllable_lengths: Vec<u8>,
}

impl<'a> Characterization<'a> {
    /// The record's own invariant: one length per sentence, the number of words
    /// in it, and one syllable count per word.
    pub open spec fn wf(&self) -> bool {
        &&& self.sentence_lengths@.len() == self.sentences@.len()
        &&& forall|i: int|
            0 <= i < self.sentences@.len() ==> #[trigger] self.sentence_lengths@[i] as int
                == unicode_words_of(self.sentences@[i]@).len()
        &&& self.word_syllable_lengths@.len() == self.words@.len()
        &&& forall|j: int|
            0 <= j < self.words@.len() ==> #[trigger] self.word_syllable_lengths@[j]
                == syllable_count(self.words@[j]@)
    }

    /// The record is the characterization of `document` split into `sentences`.
    pub open spec fn describes(&self, document: Seq<char>, sentences: Seq<Seq<char>>) -> bool {
        &&& self.wf()
        &&& views(self.sentences@) == sentences
        &&& views(self.words@) == unicode_words_of(document)
    }
}

/// Characterizes a document, given the sentences that a sentence splitter
/// found in it.
pub fn characterize_sentences<'a>(document: &'a str, sentences: Vec<&'a str>) -> (r:
    Characterization<'a>)
    ensures
        r.describes(document@, views(sentences@)),
        r.sentences@ == sentences@,
{
    let mut sentence_lengths: Vec<usize> = Vec::new();
    let mut i: usize = 0;
    while i < sentences.len()
        invariant
            0 <= i <= sentences@.len(),
            sentence_lengths@.len() == i,
            forall|k: int|
                0 <= k < i ==> #[trigger] sentence_lengths@[k] as int == unicode_words_of(
                    sentences@[k]@,
                ).len(),
        decreases sentences@.len() - i,
    {
        let in_sentence = unicode_words(sentences[i]);
        assert(views(in_sentence@).len() == in_sentence@.len());
        sentence_lengths.push(in_sentence.len());
        i = i + 1;
    }
    let words = unicode_words(document);
    let mut word_syllable_lengths: Vec<u8> = Vec::new();
    let mut j: usize = 0;
    while j < words.len()
        invariant
            0 <= j <= words@.len(),
            word_syllable_lengths@.len() == j,
            forall|k: int|
                0 <= k < j ==> #[trigger] word_syllable_lengths@[k] == syllable_count(
                    words@[k]@,
                ),
        decreases words@.len() - j,
    {
        word_syllable_lengths.push(get_syllable_count(words[j]));
        j = j + 1;
    }
    Characterization { sentences, sentence_lengths, words, word_syllable_lengths }
}

/// The sum of a sequence of counts.
pub open spec fn total(s: Seq<int>) -> int
    decreases s.len(),
{
    if s.len() == 0 {
        0
    } else {
        total(s.drop_last()) + s.last()
    }
}

proof fn lemma_total_step(s: Seq<int>, i: int)
    requires
        0 <= i < s.len(),
    ensures
        total(s.take(i + 1)) == total(s.take(i)) + s[i],
{
    assert(s.take(i + 1).drop_last() =~= s.take(i));
}

/// The number of words over all sentences, summed from their lengths.
pub fn count_total(s: &[usize]) -> (r: u128)
    ensures
        r as int == total(s@.map_values(|n: usize| n as int)),
{
    let ghost t = s@.map_values(|n: usize| n as int);
    let mut sum: u128 = 0;
    let mut i: usize = 0;
    while i < s.len()
        invariant
            0 <= i <= s@.len(),
            t == s@.map_values(|n: usize| n as int),
            sum as int == total(t.take(i as int)),
            sum <= i as u128 * (usize::MAX as u128),
        decreases s@.len() - i,
    {
        proof {
            lemma_total_step(t, i as int);
            assert((i as u128 + 1) * (usize::MAX as u128) <= usize::MAX as u128 * (
            usize::MAX as u128)) by (nonlinear_arith)
                requires
                    i < usize::MAX,
            ;
            assert((i as u128 + 1) * (usize::MAX as u128) == i as u128 * (usize::MAX as u128)
                + usize::MAX as u128) by (nonlinear_arith);
        }
        sum = sum + s[i] as u128;
        i = i + 1;
    }
    assert(t.take(s@.len() as int) =~= t);
    sum
}

/// The number of syllables over all words, summed from their counts.
pub fn syllable_total(s: &[u8]) -> (r: u128)
    ensures
        r as int == total(s@.map_values(|n: u8| n as int)),
{
    let ghost t = s@.map_values(|n: u8| n as int);
    let mut sum: u128 = 0;
    let mut i: usize = 0;
    while i < s.len()
        invariant
            0 <= i <= s@.len(),
            t == s@.map_values(|n: u8| n as int),
            sum as int == total(t.take(i as int)),
            sum <= i as u128 * 255,
        decreases s@.len() - i,
    {
        proof {
            lemma_total_step(t, i as int);
        }
        sum = sum + s[i] as u128;
        i = i + 1;
    }
    assert(t.take(s@.len() as int) =~= t);
    sum
}

/// Characterizing a document twice with the same sentence split gives the same
/// sentences, lengths, words and syllable counts.
pub proof fn lemma_characterization_deterministic(
    document: Seq<char>,
    sentences: Seq<Seq<char>>,
    first: Characterization,
    second: Characterization,
)
    requires
        first.describes(document, sentences),
        second.describes(document, sentences),
    ensures
        views(first.sentences@) == views(second.sentences@),
        first.sentence_lengths@ == second.sentence_lengths@,
        views(first.words@) == views(second.words@),
        first.word_syllable_lengths@ == second.word_syllable_lengths@,
{
    assert(views(first.sentences@).len() == first.sentences@.len());
    assert(views(second.sentences@).len() == second.sentences@.len());
    assert(views(first.words@).len() == first.words@.len());
    assert(views(second.words@).len() == second.words@.len());
    assert forall|i: int| 0 <= i < first.sentences@.len() implies first.sentence_lengths@[i]
        == second.sentence_lengths@[i] by {
        assert(views(first.sentences@)[i] == first.sentences@[i]@);
        assert(views(second.sentences@)[i] == second.sentences@[i]@);
    }
    assert(first.sentence_lengths@ =~= second.sentence_lengths@);
    assert forall|j: int| 0 <= j < first.words@.len() implies first.word_syllable_lengths@[j]
        == second.word_syllable_lengths@[j] by {
        assert(views(first.words@)[j] == first.words@[j]@);
        assert(views(second.words@)[j] == second.words@[j]@);
    }
    assert(first.word_syllable_lengths@ =~= second.word_syllable_lengths@);
}

} // verus!
