//! The keyword `$ref`.

use crate::json_schema::errors::{SchemaError, SchemaErrorView};
use crate::json_schema::keywords::{malformed, Keyword, KeywordResult};
use crate::json_schema::schema::{
    lemma_locate_in_range, named_from, reference_base, reference_pointer, resolve_reference,
    WalkContext, WalkContextView,
};
use crate::json_schema::validators::ref_;
use crate::json_schema::validators::{Constraint, Validator, ValidatorView};
use crate::text::join;
use crate::value::{Json, Value};
use vstd::prelude::*;

verus! {

/// What is said of a reference that is not a string.
pub open spec fn reference_detail() -> Seq<char> {
    "The value of $ref must be a string"@
}

/// What is said of a reference that names no schema.
pub open spec fn unresolved_detail() -> Seq<char> {
    "The value of $ref names no schema of the scope"@
}

/// What the keyword `$ref` makes of `def`: no constraint where the
/// document has no member `$ref`; a reference to the schema that the
/// member names, be that schema compiled or still under way; an error
/// where the member is not a string or names no schema.
pub open spec fn reference_compiled<C>(def: Json, ctx: WalkContextView) -> Result<
    Option<ValidatorView<C>>,
    SchemaErrorView,
> {
    match def.member("$ref"@) {
        None => Ok(None),
        Some(Json::String(reference)) => match resolve_reference(
            ctx.directory,
            ctx.root,
            reference,
        ) {
            Some(target) => Ok(Some(ValidatorView::Ref { target })),
            None => Err(malformed(ctx.fragment, unresolved_detail())),
        },
        Some(_) => Err(malformed(ctx.fragment, reference_detail())),
    }
}

/// A reference that compiles points at a schema of the directory that it
/// was compiled against: at exactly one, the first that it names.
pub proof fn law_reference_points_into_directory<C>(def: Json, ctx: WalkContextView)
    ensures
        reference_compiled::<C>(def, ctx) matches Ok(Some(validator)) ==> validator.fits(
            ctx.directory.len(),
        ),
{
    match def.member("$ref"@) {
        Some(Json::String(reference)) => {
            let pointer = reference_pointer(reference);
            lemma_locate_in_range(ctx.directory, ctx.root, pointer, 0);
            match named_from(ctx.directory, reference_base(reference), 0) {
                Some(named) => {
                    lemma_locate_in_range(ctx.directory, named, pointer, 0);
                },
                None => {},
            }
        },
        _ => {},
    }
}

/// The keyword `$ref`.
#[derive(Clone, Copy, Debug)]
pub struct Ref;

impl<C: Constraint> Keyword<C> for Ref {
    open spec fn compiled(&self, def: Json, ctx: WalkContextView) -> Result<
        Option<ValidatorView<C>>,
        SchemaErrorView,
    > {
        reference_compiled(def, ctx)
    }

    fn compile(&self, def: &Value, ctx: &WalkContext) -> (result: KeywordResult<C>) {
        let declared: &Value = match def.find("$ref") {
            Some(declared) => declared,
            None => {
                return Ok(None);
            },
        };
        let reference: &str = match declared.as_str() {
            Some(reference) => reference,
            None => {
                return Err(
                    SchemaError::Malformed {
                        path: join(&ctx.fragment, "/"),
                        detail: "The value of $ref must be a string".to_owned(),
                    },
                );
            },
        };
        match ctx.directory.resolve(ctx.root, reference) {
            Some(target) => Ok(Some(Validator::Ref(ref_::Ref { target }))),
            None => Err(
                SchemaError::Malformed {
                    path: join(&ctx.fragment, "/"),
                    detail: "The value of $ref names no schema of the scope".to_owned(),
                },
            ),
        }
    }
}

} // verus!
