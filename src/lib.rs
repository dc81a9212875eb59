//! An expression parser driven by a pairwise precedence relation between
//! operators, in which some pairs may be declared incomparable.
pub mod parser;
pub mod precedence;
