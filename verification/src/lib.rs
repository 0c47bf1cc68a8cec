//! Front end of an ahead-of-time compiler for Kernel Erlang.
//!
//! Text in term syntax is read by the [`lexer`] and the [`parser`] into a
//! term ([`fterm`]); a term that describes a module is lowered by
//! [`kernel::parse`] into the typed tree of [`kernel`], function by
//! function, into a module of [`kernel::registry`]. What each step yields
//! is defined by spec functions, and the executable functions are proved
//! to compute exactly that.

pub mod text;
pub mod types;
pub mod position;
pub mod token;
pub mod lexer;
pub mod fterm;
pub mod parser;
pub mod roundtrip;
pub mod erl_types;
pub mod kernel;
