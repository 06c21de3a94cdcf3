//! A pluggable token-normalization pipeline for a multilingual tokenizer.
//!
//! A tokenizer hands each segmented unit of text over as a [`token::Token`]:
//! a lemma (its canonical text) together with offset metadata and a detected
//! script and optional language. Normalizer stages rewrite the lemma while
//! keeping the offsets consistent; the pipeline chains the stages, applying
//! each one only where its gate holds.

pub mod decomposition;
pub mod pipeline;
pub mod token;
pub mod unicode;
