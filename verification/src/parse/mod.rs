//! What the query parser shares with the storage and network layers: the
//! comparison operators of its syntax tree, and its error type.

pub mod ast;
pub mod parser;
