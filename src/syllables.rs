use itertools::Itertools;
use vstd::prelude::*;

verus! {

/// The largest count that a `u8` result can carry; longer estimates saturate here.
pub const MAX_SYLLABLE_COUNT: u8 = 255;

/// The character placed before a word so that its first letter is read as
/// following a non-vowel.
pub const SENTINEL: char = ' ';

pub open spec fn is_vowel_spec(c: char) -> bool {
    c == 'a' || c == 'e' || c == 'i' || c == 'o' || c == 'u' || c == 'y'
}

/// Two vowels that are split into separate syllables, as in "Breanne".
pub open spec fn is_vowel_override_pair_spec(previous: char, current: char) -> bool {
    (previous == 'i' && current == 'a') || (previous == 'e' && current == 'a')
}

/// Pairs that split syllables, except at the very end of a word.
pub open spec fn is_end_sensitive_pair_spec(previous: char, current: char) -> bool {
    (previous == 'i' && current == 'e') || (previous == 'y' && current == 'a') || (previous
        == 'e' && current == 's') || (previous == 'e' && current == 'd')
}

/// Whether `current`, read after `previous`, opens a new syllable.
pub open spec fn starts_syllable(previous: char, current: char) -> bool {
    is_vowel_spec(current) && (!is_vowel_spec(previous) || is_vowel_override_pair_spec(
        previous,
        current,
    ) || is_end_sensitive_pair_spec(previous, current))
}

/// The character before position `i` of `w`, the sentinel before the first.
pub open spec fn previous_char(w: Seq<char>, i: int) -> char {
    if i == 0 {
        SENTINEL
    } else {
        w[i - 1]
    }
}

/// Number of positions of `w` that open a syllable.
pub open spec fn syllable_starts(w: Seq<char>) -> nat
    decreases w.len(),
{
    if w.len() == 0 {
        0
    } else {
        syllable_starts(w.drop_last()) + if starts_syllable(
            previous_char(w, w.len() - 1),
            w.last(),
        ) {
            1nat
        } else {
            0nat
        }
    }
}

/// The word "the", the one word ending in a single `e` whose `e` is voiced.
pub open spec fn is_the(w: Seq<char>) -> bool {
    w.len() == 3 && w[0] == 't' && w[1] == 'h' && w[2] == 'e'
}

/// Whether the ending of `w` takes one syllable back: an end-sensitive pair, or
/// a silent final `e` that is neither doubled nor the `e` of "the".
pub open spec fn has_retracted_ending(w: Seq<char>) -> bool {
    w.len() > 2 && (is_end_sensitive_pair_spec(w[w.len() - 2], w[w.len() - 1]) || (w[w.len()
        - 1] == 'e' && w[w.len() - 2] != 'e' && !is_the(w)))
}

/// The estimated number of syllables of an already lowercased word; a
/// retraction below zero stops at zero.
pub open spec fn syllable_estimate(w: Seq<char>) -> nat {
    if has_retracted_ending(w) {
        if syllable_starts(w) > 0 {
            (syllable_starts(w) - 1) as nat
        } else {
            0
        }
    } else {
        syllable_starts(w)
    }
}

/// An estimate as a `u8`, saturating at `MAX_SYLLABLE_COUNT`.
pub open spec fn saturate(n: nat) -> u8 {
    if n > MAX_SYLLABLE_COUNT as nat {
        MAX_SYLLABLE_COUNT
    } else {
        n as u8
    }
}

/// What `str::to_lowercase` makes of a sequence of characters.
pub uninterp spec fn lower_of(s: Seq<char>) -> Seq<char>;

/// The syllable count of any word: the estimate of its lowercase form.
pub open spec fn syllable_count(word: Seq<char>) -> u8 {
    saturate(syllable_estimate(lower_of(word)))
}

/// Relies on `str::to_lowercase`: the lowercase form depends on the characters
/// alone, and the empty string stays empty.
#[verifier::external_body]
fn lowercase(s: &str) -> (r: String)
    ensures
        r@ == lower_of(s@),
        s@.len() == 0 ==> r@.len() == 0,
{
    s.to_lowercase()
}

/// Relies on `Itertools::tuple_windows` over two-element tuples: each pair of
/// neighbouring characters, in order.
#[verifier::external_body]
fn adjacent_pairs(s: &str) -> (r: Vec<(char, char)>)
    ensures
        s@.len() == 0 ==> r@.len() == 0,
        s@.len() > 0 ==> r@.len() == s@.len() - 1,
        forall|i: int| 0 <= i < r@.len() ==> #[trigger] r@[i] == (s@[i], s@[i + 1]),
{
    s.chars().tuple_windows().collect()
}

fn is_vowel(c: char) -> (r: bool)
    ensures
        r == is_vowel_spec(c),
{
    c == 'a' || c == 'e' || c == 'i' || c == 'o' || c == 'u' || c == 'y'
}

fn is_vowel_override_pair(previous: char, current: char) -> (r: bool)
    ensures
        r == is_vowel_override_pair_spec(previous, current),
{
    (previous == 'i' && current == 'a') || (previous == 'e' && current == 'a')
}

fn is_end_sensitive_pair(previous: char, current: char) -> (r: bool)
    ensures
        r == is_end_sensitive_pair_spec(previous, current),
{
    (previous == 'i' && current == 'e') || (previous == 'y' && current == 'a') || (previous
        == 'e' && current == 's') || (previous == 'e' && current == 'd')
}

proof fn lemma_syllable_starts_step(w: Seq<char>, i: int)
    requires
        0 <= i < w.len(),
    ensures
        syllable_starts(w.take(i + 1)) == syllable_starts(w.take(i)) + if starts_syllable(
            previous_char(w, i),
            w[i],
        ) {
            1nat
        } else {
            0nat
        },
{
    assert(w.take(i + 1).drop_last() =~= w.take(i));
}

proof fn lemma_syllable_starts_bound(w: Seq<char>)
    ensures
        syllable_starts(w) <= w.len(),
    decreases w.len(),
{
    if w.len() > 0 {
        lemma_syllable_starts_bound(w.drop_last());
    }
}

/// Estimates the syllables of a word that is already in lowercase.
pub fn syllable_count_lowercase(normalized: &str) -> (r: u8)
    ensures
        r == saturate(syllable_estimate(normalized@)),
{
    let ghost w = normalized@;
    let mut padded = String::from_str(" ");
    padded.append(normalized);
    proof {
        reveal_strlit(" ");
    }
    assert(padded@ =~= seq![SENTINEL] + w);
    let pairs = adjacent_pairs(padded.as_str());
    let mut count: usize = 0;
    let mut i: usize = 0;
    while i < pairs.len()
        invariant
            pairs@.len() == w.len(),
            padded@ == seq![SENTINEL] + w,
            forall|k: int| 0 <= k < pairs@.len() ==> #[trigger] pairs@[k] == (padded@[k], padded@[k + 1]),
            0 <= i <= w.len(),
            count == syllable_starts(w.take(i as int)),
            count <= i,
        decreases w.len() - i,
    {
        let (previous, current) = pairs[i];
        assert(previous == previous_char(w, i as int));
        assert(current == w[i as int]);
        proof {
            lemma_syllable_starts_step(w, i as int);
        }
        if is_vowel(current) && (!is_vowel(previous) || is_vowel_override_pair(previous, current)
            || is_end_sensitive_pair(previous, current)) {
            count = count + 1;
        }
        i = i + 1;
    }
    assert(w.take(w.len() as int) =~= w);
    let n = normalized.unicode_len();
    let mut estimate = count;
    if n > 2 {
        let s0 = normalized.get_char(n - 2);
        let s1 = normalized.get_char(n - 1);
        let the = n == 3 && normalized.get_char(0) == 't' && normalized.get_char(1) == 'h' && s1
            == 'e';
        if is_end_sensitive_pair(s0, s1) || (s1 == 'e' && s0 != 'e' && !the) {
            if estimate > 0 {
                estimate = estimate - 1;
            }
        }
    }
    if estimate > MAX_SYLLABLE_COUNT as usize {
        MAX_SYLLABLE_COUNT
    } else {
        estimate as u8
    }
}

/// Estimates the number of syllables in a word, whatever its case.
pub fn get_syllable_count(word: &str) -> (r: u8)
    ensures
        r == syllable_count(word@),
{
    let normalized = lowercase(word);
    syllable_count_lowercase(normalized.as_str())
}

/// Case-insensitivity: two words with the same lowercase form have the same
/// syllable count; the count is a function of that form alone.
pub proof fn lemma_case_insensitive(a: Seq<char>, b: Seq<char>)
    requires
        lower_of(a) == lower_of(b),
    ensures
        syllable_count(a) == syllable_count(b),
{
}

/// A word counts as many syllables as its lowercase form, wherever lowercasing
/// that form changes nothing more.
pub proof fn lemma_count_of_lowercase(w: Seq<char>)
    requires
        lower_of(lower_of(w)) == lower_of(w),
    ensures
        syllable_count(w) == syllable_count(lower_of(w)),
{
}

} // verus!
