//! Structural validation of JSON-like documents against compiled schemas.
//!
//! A schema document is compiled once, keyword by keyword, into an ordered
//! list of validators owned by a [`json_schema::scope::Scope`]. The compiled
//! schema is then applied to any number of values, and every violation is
//! reported, not only the first.
//!
//! * [`value`] holds the document model that schemas are compiled from and
//!   applied to, and [`number`] its numbers.
//! * [`json_schema`] holds the keywords, the validators, the scope, and the
//!   laws that hold of them.
//!
//! Every function is verified against a contract over the mathematical
//! content of its arguments: a [`value::Value`] is seen as a
//! [`value::Json`], a number as its exact value, a string as its characters.

pub mod json_schema;
pub mod number;
pub mod text;
pub mod value;
