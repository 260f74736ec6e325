//! Verified core of the liter-llm bindings: identifier case conversion,
//! JSON configuration parsing, provider routing and error labelling.

pub mod text;
pub mod case;
pub mod case_laws;
pub mod json;
pub mod config;
pub mod error;
pub mod provider;
pub mod client;
pub mod cache;
pub mod format;
pub mod types;
