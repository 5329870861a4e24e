//! Token-normalization filters and analyzers for whitespace-tokenized text.
//!
//! The crate provides:
//!
//! - [`OuterPunctuationFilter`]: removes leading and trailing punctuation
//!   from tokens, with configurable exceptions for leading marker characters
//!   (e.g. `#`, `@`)
//! - [`PossessiveContractionFilter`]: removes a trailing possessive suffix
//!   (an apostrophe, or an apostrophe followed by `s`/`S`), recognizing every
//!   Unicode apostrophe variant
//! - stopword-list expansion that makes stopword matching independent of
//!   which apostrophe glyph the input used
//! - ready-made analyzers combining a whitespace tokenizer with these
//!   filters
//! - [`count_tokens`]: a streaming pass that counts surviving tokens

pub mod analyzers;
pub mod filters;
pub mod outer_punctuation;
pub mod possessive_contraction;
pub mod text;
pub mod token;
pub mod tokenizer;
pub mod unicode;
pub mod utils;

pub use analyzers::{
    kapiche_analyzer, kapiche_analyzer_lower, kapiche_analyzer_lower_with_stopwords, Analyzer,
};
pub use filters::{
    contains_apostrophe, expand_stopwords_with_apostrophe_variants, get_stopwords_filter_en,
    replace_apostrophes, stopwords_en_base,
};
pub use outer_punctuation::OuterPunctuationFilter;
pub use possessive_contraction::PossessiveContractionFilter;
pub use token::{Token, TokenState};
pub use utils::count_tokens;
