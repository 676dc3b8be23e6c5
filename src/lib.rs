//! An interpreter kernel for a small imperative language with first-class
//! functions, pairs and mutable variables, run either by a big-step
//! evaluator or by a small-step reducer driven by a machine.

pub mod completeness;
pub mod environment;
pub mod evaluate;
pub mod lemmas;
pub mod machine;
pub mod pretty;
pub mod reduce;
pub mod soundness;
pub mod syntax;
pub mod theorems;
