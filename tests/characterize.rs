use readability::{characterize_sentences, count_total, syllable_total, wordcount_list};

const SAMPLE: &str = "I just thought it was strange. I've asked to be assigned to \
    your security detail--I just wanted you to know that. This coat was tailor-made for \
    me by my tailor, Chadwick, in Beverly Hills. Check it out: it's $17.50 a couple.";

fn sample_sentences() -> Vec<&'static str> {
    let first = SAMPLE.find("I've").unwrap();
    let second = SAMPLE.find("This").unwrap();
    let third = SAMPLE.find("Check").unwrap();
    vec![
        &SAMPLE[..first],
        &SAMPLE[first..second],
        &SAMPLE[second..third],
        &SAMPLE[third..],
    ]
}

#[test]
fn sentence_lengths_of_sample_text() {
    let c = characterize_sentences(SAMPLE, sample_sentences());
    assert_eq!(c.sentence_lengths, vec![6, 16, 14, 7]);
    assert_eq!(c.sentences, sample_sentences());
}

#[test]
fn syllables_of_genesis() {
    let text = "In the beginning, God created the heaven and the earth.";
    let c = characterize_sentences(text, vec![text]);
    assert_eq!(c.words.len(), 10);
    assert_eq!(c.word_syllable_lengths, vec![1, 1, 3, 1, 2, 1, 3, 1, 1, 2]);
    assert_eq!(c.sentence_lengths, vec![10]);
}

#[test]
fn characterizing_twice_agrees() {
    let a = characterize_sentences(SAMPLE, sample_sentences());
    let b = characterize_sentences(SAMPLE, sample_sentences());
    assert_eq!(a.sentences, b.sentences);
    assert_eq!(a.sentence_lengths, b.sentence_lengths);
    assert_eq!(a.words, b.words);
    assert_eq!(a.word_syllable_lengths, b.word_syllable_lengths);
}

#[test]
fn sentence_words_match_document_words() {
    let c = characterize_sentences(SAMPLE, sample_sentences());
    let per_sentence = count_total(&c.sentence_lengths) as i128;
    let whole = c.words.len() as i128;
    assert!((per_sentence - whole).abs() <= 1);
    assert_eq!(per_sentence, 43);
}

#[test]
fn empty_document() {
    let c = characterize_sentences("", vec![]);
    assert!(c.sentences.is_empty());
    assert!(c.sentence_lengths.is_empty());
    assert!(c.words.is_empty());
    assert!(c.word_syllable_lengths.is_empty());
}

#[test]
fn totals_of_counts() {
    assert_eq!(count_total(&[5, 7, 4, 12]), 28);
    assert_eq!(count_total(&[]), 0);
    assert_eq!(count_total(&[usize::MAX, usize::MAX]), 2 * (usize::MAX as u128));
    assert_eq!(syllable_total(&[1, 1, 3, 1, 2, 1, 3, 1, 1, 2]), 16);
    assert_eq!(syllable_total(&[255, 255, 255]), 765);
}

#[test]
fn counts_words_in_a_list() {
    let words = vec!["a".to_string(), "b".to_string(), "c".to_string()];
    assert_eq!(wordcount_list(words), 3);
    assert_eq!(wordcount_list(Vec::new()), 0);
}
