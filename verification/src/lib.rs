//! Inference session engine for a local language model, together with the
//! commit-message rules built around it.

pub mod attempts;
pub mod chars;
pub mod choices;
pub mod commit;
pub mod digest;
pub mod error;
pub mod fallback;
pub mod inference;
pub mod language;
pub mod mlx;
pub mod models;
pub mod prompt;
pub mod ranking;
pub mod sampler;
pub mod scope;
pub mod session;
pub mod summary;
pub mod text;
pub mod tokenizer;
pub mod window;
