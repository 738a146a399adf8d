use philosophy_ai::nlp::{NLPProcessor, Sentiment};

#[test]
fn positive_keyword_with_exclamation_is_positive() {
    let nlp = NLPProcessor::new();
    assert_eq!(nlp.analyze_sentiment("楽しい！"), "positive");
}

#[test]
fn problem_text_is_negative() {
    let nlp = NLPProcessor::new();
    assert_eq!(nlp.analyze_sentiment("問題が発生した"), "negative");
}

#[test]
fn empty_text_is_neutral_and_general() {
    let nlp = NLPProcessor::new();
    assert_eq!(nlp.analyze_sentiment(""), "neutral");
    assert_eq!(nlp.extract_themes(""), vec!["general".to_string()]);
}

#[test]
fn equal_hits_are_neutral() {
    let nlp = NLPProcessor::new();
    assert_eq!(nlp.analyze_sentiment("好きだけど嫌い"), "neutral");
    assert_eq!(nlp.sentiment("好きだけど嫌い"), Sentiment::Neutral);
}

#[test]
fn exclamations_tip_the_balance() {
    let nlp = NLPProcessor::new();
    assert_eq!(nlp.analyze_sentiment("嫌い!!"), "positive");
    assert_eq!(nlp.analyze_sentiment("嫌い！"), "neutral");
    assert_eq!(nlp.analyze_sentiment("悲しい孤独"), "negative");
}

#[test]
fn repeated_keyword_counts_once() {
    let nlp = NLPProcessor::new();
    assert_eq!(nlp.analyze_sentiment("好き好き好き嫌い悲しい"), "negative");
}

#[test]
fn themes_follow_lexicon_order() {
    let nlp = NLPProcessor::new();
    assert_eq!(
        nlp.extract_themes("人生と哲学"),
        vec!["philosophy".to_string(), "life".to_string()]
    );
}

#[test]
fn uppercase_keyword_matches_lowercased_text() {
    let nlp = NLPProcessor::new();
    assert_eq!(nlp.extract_themes("AIの話"), vec!["technology".to_string()]);
}

#[test]
fn technology_terms_are_found_in_any_case() {
    let nlp = NLPProcessor::new();
    assert_eq!(nlp.extract_themes("I love RUST"), vec!["technology".to_string()]);
    assert_eq!(nlp.extract_themes("javascript"), vec!["technology".to_string()]);
}

#[test]
fn technology_is_not_repeated() {
    let nlp = NLPProcessor::new();
    assert_eq!(
        nlp.extract_themes("Pythonの技術と友情"),
        vec!["technology".to_string(), "connection".to_string()]
    );
}

#[test]
fn unmatched_text_is_general() {
    let nlp = NLPProcessor::new();
    assert_eq!(nlp.extract_themes("こんにちは"), vec!["general".to_string()]);
}

fn strings(v: &[&str]) -> Vec<String> {
    v.iter().map(|s| s.to_string()).collect()
}

#[test]
fn keywords_are_sorted_distinct_and_trimmed() {
    let nlp = NLPProcessor::new();
    assert_eq!(
        nlp.extract_keywords("Hello, world! hello (--rust--)"),
        strings(&["hello", "rust", "world"])
    );
}

#[test]
fn keywords_skip_stop_words_and_short_words() {
    let nlp = NLPProcessor::new();
    assert_eq!(
        nlp.extract_keywords("The cat is on the mat and a dog"),
        strings(&["cat", "dog", "mat"])
    );
    assert_eq!(nlp.extract_keywords("これ の ab !!! AI"), Vec::<String>::new());
    assert_eq!(nlp.extract_keywords("éa é これは哲学です"), strings(&["éa", "これは哲学です"]));
}

#[test]
fn keywords_keep_the_ten_smallest() {
    let nlp = NLPProcessor::new();
    let text = "lll kkk jjj iii hhh ggg fff eee ddd ccc bbb aaa aaa";
    assert_eq!(
        nlp.extract_keywords(text),
        strings(&["aaa", "bbb", "ccc", "ddd", "eee", "fff", "ggg", "hhh", "iii", "jjj"])
    );
}

#[test]
fn empty_text_has_no_keywords() {
    let nlp = NLPProcessor::new();
    assert!(nlp.extract_keywords("").is_empty());
    assert!(nlp.extract_keywords(" \t\n ").is_empty());
}
