//! Turning the nodes of a parse tree into commands.

pub mod add;
pub mod from;
