use readability::{get_syllable_count, syllable_count_lowercase};

#[test]
fn correct_syllable_count() {
    assert_eq!(1, get_syllable_count("the"));
    assert_eq!(3, get_syllable_count("lucozade"));
    assert_eq!(1, get_syllable_count("love"));
    assert_eq!(2, get_syllable_count("dodo"));
    assert_eq!(1, get_syllable_count("world"));
    assert_eq!(2, get_syllable_count("atom"));
    assert_eq!(3, get_syllable_count("energy"));
    assert_eq!(4, get_syllable_count("combination"));
}

#[test]
fn uppercase_words_count_like_lowercase() {
    for word in ["the", "lucozade", "love", "dodo", "world", "atom", "energy", "combination"] {
        let upper = word.to_uppercase();
        assert_eq!(get_syllable_count(word), get_syllable_count(&upper));
    }
    assert_eq!(1, get_syllable_count("LOVE"));
    assert_eq!(1, get_syllable_count("The"));
}

#[test]
fn repeated_estimates_agree() {
    for word in ["heaven", "created", "Breanne", "bread"] {
        assert_eq!(get_syllable_count(word), get_syllable_count(word));
    }
}

#[test]
fn vowel_override_pairs_split() {
    assert_eq!(2, syllable_count_lowercase("bea"));
    assert_eq!(3, syllable_count_lowercase("piano"));
}

#[test]
fn end_sensitive_pairs_retract_at_the_end() {
    assert_eq!(1, syllable_count_lowercase("pies"));
    assert_eq!(2, syllable_count_lowercase("created"));
    assert_eq!(2, syllable_count_lowercase("quiet"));
}

#[test]
fn silent_final_e() {
    assert_eq!(1, syllable_count_lowercase("make"));
    assert_eq!(1, syllable_count_lowercase("free"));
    assert_eq!(1, syllable_count_lowercase("the"));
    assert_eq!(1, syllable_count_lowercase("be"));
}

#[test]
fn degenerate_words() {
    assert_eq!(0, syllable_count_lowercase(""));
    assert_eq!(0, syllable_count_lowercase("hmm"));
    assert_eq!(0, get_syllable_count("17"));
}

#[test]
fn very_long_words_saturate() {
    let word = "ba".repeat(300);
    assert_eq!(255, syllable_count_lowercase(&word));
}
