//! The keywords: the compilers that turn the members of a schema document
//! into validators.

pub mod format;
pub mod maxmin;
pub mod ref_;

use crate::json_schema::errors::{SchemaError, SchemaErrorView};
use crate::json_schema::keywords::format::{format_compiled, Format};
use crate::json_schema::keywords::maxmin::{
    maximum_compiled, minimum_compiled, Maximum, Minimum,
};
use crate::json_schema::keywords::ref_::{reference_compiled, Ref};
use crate::json_schema::schema::{WalkContext, WalkContextView};
use crate::json_schema::validators::{Constraint, Validator, ValidatorView};
use crate::text::joined;
use crate::value::{Json, Value};
use vstd::prelude::*;

verus! {

/// What compiling one keyword gives: no validator where the document does
/// not use the keyword, a validator where it uses it well, an error where
/// it uses it badly.
pub type KeywordResult<C> = Result<Option<Validator<C>>, SchemaError>;

/// The content of a [`KeywordResult`].
pub open spec fn keyword_result_view<C>(result: KeywordResult<C>) -> Result<
    Option<ValidatorView<C>>,
    SchemaErrorView,
> {
    match result {
        Ok(Some(validator)) => Ok(Some(validator@)),
        Ok(None) => Ok(None),
        Err(error) => Err(error@),
    }
}

/// The error of a document that is ill-formed at the schema that stands at
/// `fragment`.
pub open spec fn malformed(fragment: Seq<Seq<char>>, detail: Seq<char>) -> SchemaErrorView {
    SchemaErrorView::Malformed { path: joined(fragment, "/"@), detail }
}

/// The compiler of one keyword. A scope holds a list of them, to which
/// more can be added. A keyword gives validators of the library's kinds
/// or of the caller's own kind `C`.
pub trait Keyword<C: Constraint> {
    /// What the keyword makes of the schema document `def` in the context
    /// `ctx`.
    spec fn compiled(&self, def: Json, ctx: WalkContextView) -> Result<
        Option<ValidatorView<C>>,
        SchemaErrorView,
    >;

    /// Compiles the keyword from the schema document `def`, which is the
    /// whole schema and not the keyword's own value. A reference that it
    /// gives points into the directory of the context.
    fn compile(&self, def: &Value, ctx: &WalkContext) -> (result: KeywordResult<C>)
        ensures
            keyword_result_view(result) == self.compiled(def@, ctx@),
            result matches Ok(Some(validator)) ==> validator@.fits(ctx@.directory.len()),
    ;
}

/// The keywords that every scope starts with.
#[derive(Clone, Copy, Debug, PartialEq, Eq, Structural)]
pub enum StandardKeyword {
    Ref,
    Maximum,
    Minimum,
    Format,
}

impl<C: Constraint> Keyword<C> for StandardKeyword {
    open spec fn compiled(&self, def: Json, ctx: WalkContextView) -> Result<
        Option<ValidatorView<C>>,
        SchemaErrorView,
    > {
        match self {
            StandardKeyword::Ref => reference_compiled(def, ctx),
            StandardKeyword::Maximum => maximum_compiled(def, ctx.fragment),
            StandardKeyword::Minimum => minimum_compiled(def, ctx.fragment),
            StandardKeyword::Format => format_compiled(def, ctx.fragment),
        }
    }

    fn compile(&self, def: &Value, ctx: &WalkContext) -> (result: KeywordResult<C>) {
        match self {
            StandardKeyword::Ref => Ref.compile(def, ctx),
            StandardKeyword::Maximum => Maximum.compile(def, ctx),
            StandardKeyword::Minimum => Minimum.compile(def, ctx),
            StandardKeyword::Format => Format.compile(def, ctx),
        }
    }
}

/// The standard keywords together with keywords of the type `K`: the
/// keywords of a scope to which a caller adds its own.
#[derive(Clone, Copy, Debug)]
pub enum Extended<K> {
    Standard(StandardKeyword),
    Custom(K),
}

impl<C: Constraint, K: Keyword<C>> Keyword<C> for Extended<K> {
    open spec fn compiled(&self, def: Json, ctx: WalkContextView) -> Result<
        Option<ValidatorView<C>>,
        SchemaErrorView,
    > {
        match self {
            Extended::Standard(keyword) => keyword.compiled(def, ctx),
            Extended::Custom(keyword) => keyword.compiled(def, ctx),
        }
    }

    fn compile(&self, def: &Value, ctx: &WalkContext) -> (result: KeywordResult<C>) {
        match self {
            Extended::Standard(keyword) => keyword.compile(def, ctx),
            Extended::Custom(keyword) => keyword.compile(def, ctx),
        }
    }
}

} // verus!
