use tantivy_tokenizers::analyzers::{
    kapiche_analyzer, kapiche_analyzer_lower, kapiche_analyzer_lower_with_stopwords,
};
use tantivy_tokenizers::filters::{
    contains_apostrophe, expand_stopwords_with_apostrophe_variants, get_stopwords_filter_en,
    replace_apostrophes,
};
use tantivy_tokenizers::outer_punctuation::OuterPunctuationFilter;
use tantivy_tokenizers::possessive_contraction::PossessiveContractionFilter;
use tantivy_tokenizers::token::TokenState;
use tantivy_tokenizers::utils::count_tokens;

#[test]
fn test_contains_apostrophe_with_standard_apostrophe() {
    assert!(contains_apostrophe("don't"));
}

#[test]
fn test_contains_apostrophe_with_right_single_quotation() {
    assert!(contains_apostrophe("don\u{2019}t"));
}

#[test]
fn test_contains_apostrophe_without_apostrophe() {
    assert!(!contains_apostrophe("hello"));
}

#[test]
fn test_contains_apostrophe_with_modifier_letter_apostrophe() {
    assert!(contains_apostrophe("don\u{02BC}t"));
}

#[test]
fn test_replace_apostrophes_with_standard_apostrophe() {
    assert_eq!(replace_apostrophes("don't", '\''), "don't");
}

#[test]
fn test_replace_apostrophes_replaces_right_single_quotation() {
    assert_eq!(replace_apostrophes("don\u{2019}t", '\''), "don't");
}

#[test]
fn test_replace_apostrophes_replaces_modifier_letter() {
    assert_eq!(replace_apostrophes("don\u{02BC}t", '\''), "don't");
}

#[test]
fn test_replace_apostrophes_no_apostrophe() {
    assert_eq!(replace_apostrophes("hello", '\''), "hello");
}

#[test]
fn test_replace_apostrophes_multiple_apostrophes() {
    assert_eq!(replace_apostrophes("don't can't", '\''), "don't can't");
}

#[test]
fn test_expand_stopwords_with_no_apostrophes() {
    let base = vec!["hello", "world"];
    let expanded = expand_stopwords_with_apostrophe_variants(&base);
    assert_eq!(expanded, vec!["hello", "world"]);
}

#[test]
fn test_expand_stopwords_with_single_apostrophe_word() {
    let base = vec!["don't"];
    let expanded = expand_stopwords_with_apostrophe_variants(&base);
    assert_eq!(expanded.len(), 8);
    assert!(expanded.contains(&"don't".to_string()));
    assert!(expanded.contains(&"don\u{2019}t".to_string()));
    assert!(expanded.contains(&"don\u{02BC}t".to_string()));
}

#[test]
fn test_expand_stopwords_with_mixed_words() {
    let base = vec!["hello", "don't", "world"];
    let expanded = expand_stopwords_with_apostrophe_variants(&base);
    assert_eq!(expanded.len(), 10);
    assert!(expanded.contains(&"hello".to_string()));
    assert!(expanded.contains(&"world".to_string()));
    assert!(expanded.contains(&"don't".to_string()));
}

#[test]
fn test_expand_stopwords_preserves_order() {
    let base = vec!["can't", "hello", "don't"];
    let expanded = expand_stopwords_with_apostrophe_variants(&base);
    assert_eq!(expanded.len(), 17);
    assert_eq!(expanded[0], "can't");
    assert_eq!(expanded[8], "hello");
    assert_eq!(expanded[9], "don't");
}

#[test]
fn test_expand_stopwords_variant_order() {
    let base = vec!["don't"];
    let expanded = expand_stopwords_with_apostrophe_variants(&base);
    assert_eq!(
        expanded,
        vec![
            "don\u{0027}t",
            "don\u{2019}t",
            "don\u{02BC}t",
            "don\u{02BB}t",
            "don\u{055A}t",
            "don\u{A78B}t",
            "don\u{A78C}t",
            "don\u{FF07}t",
        ]
    );
}

#[test]
fn test_get_stopwords_filter_en_contains_apostrophe_variants() {
    let stopwords = get_stopwords_filter_en();
    assert!(stopwords.contains(&"don't".to_string()));
    assert!(stopwords.contains(&"don\u{2019}t".to_string()));
    assert!(stopwords.contains(&"don\u{02BC}t".to_string()));
    assert!(stopwords.contains(&"can't".to_string()));
    assert!(stopwords.contains(&"can\u{2019}t".to_string()));
}

#[test]
fn test_get_stopwords_filter_en_expanded_count() {
    let base = tantivy_tokenizers::stopwords_en_base();
    assert_eq!(base.len(), 152);
    let stopwords = get_stopwords_filter_en();
    assert_eq!(stopwords.len(), 334);
}

#[test]
fn test_get_stopwords_filter_en_contains_common_contractions() {
    let stopwords = get_stopwords_filter_en();
    assert!(stopwords.contains(&"i'm".to_string()));
    assert!(stopwords.contains(&"it's".to_string()));
    assert!(stopwords.contains(&"you're".to_string()));
    assert!(stopwords.contains(&"that's".to_string()));
    assert!(stopwords.contains(&"let's".to_string()));
    assert!(stopwords.contains(&"you\u{2019}re".to_string()));
}

#[test]
fn test_tokenizer_splits_on_ascii_whitespace_only() {
    let analyzer = kapiche_analyzer();
    assert_eq!(analyzer.token_texts("a\tb\nc d"), vec!["a", "b", "c", "d"]);
    assert_eq!(analyzer.token_texts("a\u{00A0}b"), vec!["a\u{00A0}b"]);
}

#[test]
fn test_kapiche_analyzer() {
    let analyzer = kapiche_analyzer();
    let tokens = analyzer.token_texts("#HashTag @mention test's");
    assert_eq!(tokens, vec!["#HashTag", "@mention", "test"]);
}

#[test]
fn test_kapiche_analyzer_lower() {
    let analyzer = kapiche_analyzer_lower();
    let tokens = analyzer.token_texts("#HashTag @Mention Test's");
    assert_eq!(tokens, vec!["#hashtag", "@mention", "test"]);
}

#[test]
fn test_kapiche_analyzer_lower_with_stopwords_english() {
    let analyzer = kapiche_analyzer_lower_with_stopwords();
    let tokens = analyzer.token_texts("The quick brown fox");
    assert_eq!(tokens, vec!["quick", "brown", "fox"]);
}

#[test]
fn test_stopwords_removed_after_lowercasing() {
    let analyzer = kapiche_analyzer_lower_with_stopwords();
    let tokens = analyzer.token_texts("THE QUICK");
    assert_eq!(tokens, vec!["quick"]);
}

#[test]
fn test_punctuation_and_possessive_with_stopwords() {
    let analyzer = kapiche_analyzer_lower_with_stopwords();
    let tokens = analyzer.token_texts("John's the best!");
    assert_eq!(tokens, vec!["john", "best"]);
}

#[test]
fn test_count_tokens_basic() {
    let analyzer = kapiche_analyzer();
    assert_eq!(count_tokens(&analyzer, "hello world"), 2);
    assert_eq!(count_tokens(&analyzer, ""), 0);
    assert_eq!(count_tokens(&analyzer, "single"), 1);
}

#[test]
fn test_count_tokens_with_stopwords() {
    let analyzer = kapiche_analyzer_lower_with_stopwords();
    assert_eq!(count_tokens(&analyzer, "the cat"), 1);
    assert_eq!(count_tokens(&analyzer, "a dog"), 1);
    assert_eq!(count_tokens(&analyzer, "the quick brown fox"), 3);
}

#[test]
fn test_count_tokens_with_kapiche_analyzer() {
    let analyzer = kapiche_analyzer();
    assert_eq!(count_tokens(&analyzer, "test's example"), 2);
    assert_eq!(count_tokens(&analyzer, "#hashtag @mention"), 2);
    assert_eq!(count_tokens(&analyzer, "...word..."), 1);
}

#[test]
fn test_outer_punctuation_keeps_leading_marker() {
    let filter = OuterPunctuationFilter::new(vec!['#', '@']);
    assert_eq!(filter.apply("#HashTag"), "#HashTag");
    assert_eq!(filter.apply("...word..."), "word");
}

#[test]
fn test_outer_punctuation_idempotent() {
    let filter = OuterPunctuationFilter::new(vec!['#', '@']);
    let once = filter.apply("...#word!?");
    let twice = filter.apply(&once);
    assert_eq!(once, "word");
    assert_eq!(twice, once);
    let once = filter.apply("#@...mention...");
    let twice = filter.apply(&once);
    assert_eq!(once, "#mention");
    assert_eq!(twice, once);
}

#[test]
fn test_outer_punctuation_beyond_ascii() {
    let filter = OuterPunctuationFilter::new(vec!['#', '@']);
    assert_eq!(filter.apply("\u{201C}word\u{201D}"), "word");
    assert_eq!(filter.apply("\u{00BF}que\u{00BF}"), "que");
}

#[test]
fn test_outer_punctuation_internal_untouched() {
    let filter = OuterPunctuationFilter::new(vec!['#', '@']);
    assert_eq!(filter.apply("co-op."), "co-op");
    assert_eq!(filter.apply("!a.b!"), "a.b");
}

#[test]
fn test_empty_after_strip_passes_through() {
    let filter = OuterPunctuationFilter::new(vec!['#', '@']);
    assert_eq!(filter.apply("..."), "");
    let analyzer = kapiche_analyzer();
    assert_eq!(analyzer.token_texts("... word"), vec!["", "word"]);
    assert_eq!(count_tokens(&analyzer, "... word"), 2);
}

#[test]
fn test_possessive_contraction_filter() {
    let filter = PossessiveContractionFilter;
    assert_eq!(filter.apply("John's"), "John");
    assert_eq!(filter.apply("Jones'"), "Jones");
    assert_eq!(filter.apply("can't"), "can't");
}

#[test]
fn test_possessive_contraction_unicode_variants() {
    let filter = PossessiveContractionFilter;
    assert_eq!(filter.apply("John\u{2019}s"), "John");
    assert_eq!(filter.apply("CHRIS\u{02BC}S"), "CHRIS");
    assert_eq!(filter.apply("Jones\u{02BC}"), "Jones");
    assert_eq!(filter.apply("s"), "s");
    assert_eq!(filter.apply(""), "");
}

#[test]
fn test_stopword_removed_whatever_apostrophe_glyph() {
    let analyzer = kapiche_analyzer_lower_with_stopwords();
    assert_eq!(analyzer.token_texts("don\u{2019}t stop"), vec!["stop"]);
    assert_eq!(analyzer.token_texts("don't stop"), vec!["stop"]);
}

#[test]
fn test_analyze_marks_removed_tokens() {
    let analyzer = kapiche_analyzer_lower_with_stopwords();
    let tokens = analyzer.analyze("the cat");
    assert_eq!(tokens.len(), 2);
    assert!(matches!(tokens[0].state, TokenState::Removed));
    assert!(matches!(tokens[1].state, TokenState::Live(1)));
    assert_eq!(tokens[1].text, "cat");
}
