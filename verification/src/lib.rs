//! A parser for a small language of plane transformations.
//!
//! A text such as
//! `iter(translation(12.0, 0.4); rotation(0.2, 0.3, 0.5)); translation(8, 15)`
//! describes translations, rotations, chains, alternatives and iterations.
//! [`parser::expression`] turns it into a [`language::Expression`].
//!
//! - [`language`]: the syntax tree.
//! - [`outcome`]: what a production hands back, and how it fails.
//! - [`tokens`]: blank space, characters, words and numbers, as `nom` reads
//!   them.
//! - [`grammar`]: what parsing a text gives, as mathematical functions.
//! - [`parser`]: the parser, proved to compute what the grammar says.
//! - [`progress`], [`laws`], [`layout`]: what holds of the grammar on every
//!   text.

pub mod language;
pub mod outcome;
pub mod tokens;
pub mod grammar;
pub mod progress;
pub mod parser;
pub mod laws;
pub mod layout;
