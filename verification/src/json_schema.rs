//! Schemas: their compilation from documents and their application to values.
//!
//! A [`scope::Scope`] compiles with a list of [`keywords::Keyword`]s. Each
//! keyword turns what a schema document declares into at most one
//! [`validators::Validator`], or into a [`errors::SchemaError`] where the
//! document is ill-formed. A caller adds keywords of its own, and, as
//! [`validators::Constraint`]s, kinds of validators of its own.
//!
//! [`compiler`] says what compiling a whole document gives, and
//! [`validators`] what a compiled schema reports of a value, as a sequence
//! of [`errors::ErrorRecord`]s in a [`state::ValidationState`].

pub mod compiler;
pub mod errors;
pub mod keywords;
pub mod laws;
pub mod schema;
pub mod scope;
pub mod state;
pub mod validators;
