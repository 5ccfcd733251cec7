//! The core of Yatima: content-addressed terms, packages and primitive
//! operations, with their canonical IPLD forms.
//!
//! Every type has a mathematical view (`@`); the canonical forms are spec
//! functions over those views, and the executable encoders and decoders are
//! proved against them.

pub mod address;
pub mod anon;
pub mod bignum;
pub mod bytes;
pub mod cbor;
pub mod codec;
pub mod defs;
pub mod error;
pub mod eval;
pub mod ipfs;
pub mod ipld;
pub mod literal;
pub mod meta;
pub mod number;
pub mod package;
pub mod position;
pub mod prim;
pub mod split;
pub mod term;
pub mod uses;
