//! The execution engine: a stack machine that runs a script against a context, one
//! instruction at a time, and ends in a verdict and the outputs that the script staged.

pub mod action;
pub mod arrays;
pub mod bitwise;
pub mod bytes;
pub mod casts;
pub mod context;
pub mod laws;
pub mod machine;
pub mod moves;
pub mod program;
pub mod random;
pub mod semantics;
pub mod stack;
pub mod values;
