//! Checks on what a partial-curve-matching engine hands back: the corner
//! markers of a free-space diagram, the witness path of a match, the steps of
//! one trial, and the corpus of failing cases.

pub mod scalar;
pub mod diagram;
pub mod path;
pub mod text;
pub mod case;
pub mod codec;
pub mod corpus;
pub mod trial;
pub mod driver;
