//! What follows the parser: the typed middle representation.

pub mod mir;
