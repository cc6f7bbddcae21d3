//! Scripts of labelled phases: parsing, ordering by dependency, and interpretation
//! into a sequence of representational effects.

pub mod text;
pub mod command;
pub mod parser;
pub mod facts;
pub mod interp;
pub mod resolver;
pub mod tree;
