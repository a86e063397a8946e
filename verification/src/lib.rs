//! Analyzes a Rust project's public function signatures and synthesizes
//! skeleton test files: plausible parameter values and type-appropriate
//! assertions, derived purely from each type's textual shape.

pub mod analyzer;
pub mod cli;
pub mod config;
pub mod models;
pub mod rust_gen;
pub mod strutil;
pub mod v_gen;
pub mod v_lang;
