//! A schema compiler for slot-indexed table layouts.
//!
//! A declaration `Kind => Name [(attributes)] [fields]` arrives as a token
//! tree. It is parsed, each field's textual type is resolved into a
//! `FieldType`, and the output is a list of backend-agnostic items: one
//! accessor plan per field of a table or struct, or a variant set with its
//! decoder for an enum or a union. Every stage is stated as a spec function over the
//! token sequence, and the executable code is proved to compute it.
pub mod accessor;
pub mod compile;
pub mod enums;
pub mod error;
pub mod fields;
pub mod object;
pub mod text;
pub mod token;
pub mod types;
