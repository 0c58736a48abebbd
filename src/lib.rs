//! A runtime's value model, type registry and argument checking, with the
//! immutable byte-sequence type built on top of them.

pub mod bigint;
pub mod object;
pub mod args;
pub mod bytes;
