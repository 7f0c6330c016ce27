//! Typed support for PostgreSQL's `hstore` column type: a key/value container,
//! its binary wire codec, its literal renderer, and the operator and function
//! catalogs of the map algebra.
//!
//! A value of the column is a map from text keys to text values. SQL `NULL`
//! as a value has no place in the container: the codec drops such entries
//! when it decodes, and never writes one.

pub mod algebra;
pub mod bytes;
pub mod container;
pub mod dsl;
pub mod expr;
pub mod functions;
pub mod literal;
pub mod text;
pub mod wire;

pub use crate::container::Hstore;
pub use crate::dsl::{HstoreOpExtensions, Operator, SqlType};
pub use crate::expr::{BoolExpr, Expr, MapExpr, NullableTextExpr, TextArrayExpr, TextExpr};
pub use crate::functions::{
    hstore_defined, hstore_delete_array, hstore_delete_key, hstore_delete_matching, hstore_exist,
    hstore_from_array, hstore_from_kv, hstore_from_kv_array, hstore_slice, hstore_to_array,
    hstore_to_keys, hstore_to_values, Function,
};
pub use crate::literal::{has_injection_hazard, render_literal, render_literal_strict, RenderError};
pub use crate::wire::{decode, decode_nullable, encode, DecodeError, Entries};
