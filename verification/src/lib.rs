//! Derivation-tree synthesis for a small expression language with big-step
//! operational semantics.
//!
//! Given an expression — optionally judged under an environment of named
//! bindings — the library evaluates it, builds the full derivation tree of
//! inference-rule instances that justifies the resulting judgment, and renders
//! that tree in the indented textbook notation
//! (`env |- expr evalto value by Rule { premises }`).

pub mod ast;
pub mod evaluator;
pub mod format;
pub mod rule;
pub mod solver;
