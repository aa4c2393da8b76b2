//! The keywords `minimum` and `maximum`, each with its exclusivity flag.

use crate::json_schema::errors::{SchemaError, SchemaErrorView};
use crate::json_schema::keywords::{malformed, Keyword, KeywordResult};
use crate::json_schema::schema::{WalkContext, WalkContextView};
use crate::json_schema::validators::maxmin;
use crate::json_schema::validators::{Constraint, Validator, ValidatorView};
use crate::number::Number;
use crate::text::join;
use crate::value::{Json, Value};
use vstd::prelude::*;

verus! {

/// What is said of a flag that stands without its bound.
pub open spec fn unpaired_detail() -> Seq<char> {
    "`exclusiveMinimum/exclusiveMaximum` can't go without minimum/maximum"@
}

/// What is said of a flag that is not a boolean.
pub open spec fn flag_detail() -> Seq<char> {
    "`exclusiveMaximum/exclusiveMaximum` must be boolean"@
}

/// What is said of a bound that is not a number.
pub open spec fn bound_detail() -> Seq<char> {
    "the `minimum/maximum` value must be a number"@
}

/// The threshold and the exclusivity that the schema document `def`
/// declares under the member names `keyword` and `flag`.
///
/// A flag without a bound is an error, whatever else the document holds.
/// Without a bound there is no constraint. A bound must be a number; its
/// flag, where there is one, must be a boolean; without a flag the bound is
/// not exclusive.
pub open spec fn bound_compiled(
    def: Json,
    fragment: Seq<Seq<char>>,
    keyword: Seq<char>,
    flag: Seq<char>,
) -> Result<Option<(int, bool)>, SchemaErrorView> {
    match (def.member(keyword), def.member(flag)) {
        (None, Some(_)) => Err(malformed(fragment, unpaired_detail())),
        (None, None) => Ok(None),
        (Some(Json::Number(threshold)), None) => Ok(Some((threshold, false))),
        (Some(Json::Number(threshold)), Some(Json::Bool(exclusive))) => Ok(
            Some((threshold, exclusive)),
        ),
        (Some(Json::Number(_)), Some(_)) => Err(malformed(fragment, flag_detail())),
        (Some(_), _) => Err(malformed(fragment, bound_detail())),
    }
}

/// The content of what [`compile_bound`] gives.
pub open spec fn bound_result_view(result: Result<Option<(Number, bool)>, SchemaError>) -> Result<
    Option<(int, bool)>,
    SchemaErrorView,
> {
    match result {
        Ok(Some((number, exclusive))) => Ok(Some((number@, exclusive))),
        Ok(None) => Ok(None),
        Err(error) => Err(error@),
    }
}

/// Compiles a bound and its flag; the one compiler behind both
/// [`Minimum`] and [`Maximum`].
pub fn compile_bound(def: &Value, ctx: &WalkContext, keyword: &str, flag: &str) -> (result: Result<
    Option<(Number, bool)>,
    SchemaError,
>)
    ensures
        bound_result_view(result) == bound_compiled(def@, ctx@.fragment, keyword@, flag@),
{
    let maybe_value: Option<&Value> = def.find(keyword);
    let exclusive: Option<&Value> = def.find(flag);
    let value: &Value = match maybe_value {
        Some(value) => value,
        None => {
            if exclusive.is_some() {
                let detail: &str =
                    "`exclusiveMinimum/exclusiveMaximum` can't go without minimum/maximum";
                return Err(
                    SchemaError::Malformed {
                        path: join(&ctx.fragment, "/"),
                        detail: detail.to_owned(),
                    },
                );
            }
            return Ok(None);
        },
    };
    let number: Number = match value.as_number() {
        Some(number) => number,
        None => {
            return Err(
                SchemaError::Malformed {
                    path: join(&ctx.fragment, "/"),
                    detail: "the `minimum/maximum` value must be a number".to_owned(),
                },
            );
        },
    };
    match exclusive {
        None => Ok(Some((number, false))),
        Some(declared) => match declared.as_boolean() {
            Some(is_exclusive) => Ok(Some((number, is_exclusive))),
            None => Err(
                SchemaError::Malformed {
                    path: join(&ctx.fragment, "/"),
                    detail: "`exclusiveMaximum/exclusiveMaximum` must be boolean".to_owned(),
                },
            ),
        },
    }
}

/// The keyword `minimum`, with its flag `exclusiveMinimum`.
#[derive(Clone, Copy, Debug)]
pub struct Minimum;

/// The keyword `maximum`, with its flag `exclusiveMaximum`.
#[derive(Clone, Copy, Debug)]
pub struct Maximum;

/// What the keyword `minimum` makes of `def`.
pub open spec fn minimum_compiled<C>(def: Json, fragment: Seq<Seq<char>>) -> Result<
    Option<ValidatorView<C>>,
    SchemaErrorView,
> {
    match bound_compiled(def, fragment, "minimum"@, "exclusiveMinimum"@) {
        Ok(Some((threshold, exclusive))) => Ok(
            Some(ValidatorView::Minimum { threshold, exclusive }),
        ),
        Ok(None) => Ok(None),
        Err(error) => Err(error),
    }
}

/// What the keyword `maximum` makes of `def`.
pub open spec fn maximum_compiled<C>(def: Json, fragment: Seq<Seq<char>>) -> Result<
    Option<ValidatorView<C>>,
    SchemaErrorView,
> {
    match bound_compiled(def, fragment, "maximum"@, "exclusiveMaximum"@) {
        Ok(Some((threshold, exclusive))) => Ok(
            Some(ValidatorView::Maximum { threshold, exclusive }),
        ),
        Ok(None) => Ok(None),
        Err(error) => Err(error),
    }
}

impl<C: Constraint> Keyword<C> for Minimum {
    open spec fn compiled(&self, def: Json, ctx: WalkContextView) -> Result<
        Option<ValidatorView<C>>,
        SchemaErrorView,
    > {
        minimum_compiled(def, ctx.fragment)
    }

    fn compile(&self, def: &Value, ctx: &WalkContext) -> (result: KeywordResult<C>) {
        match compile_bound(def, ctx, "minimum", "exclusiveMinimum") {
            Ok(Some((number, exclusive))) => Ok(
                Some(Validator::Minimum(maxmin::Minimum { number, exclusive })),
            ),
            Ok(None) => Ok(None),
            Err(error) => Err(error),
        }
    }
}

impl<C: Constraint> Keyword<C> for Maximum {
    open spec fn compiled(&self, def: Json, ctx: WalkContextView) -> Result<
        Option<ValidatorView<C>>,
        SchemaErrorView,
    > {
        maximum_compiled(def, ctx.fragment)
    }

    fn compile(&self, def: &Value, ctx: &WalkContext) -> (result: KeywordResult<C>) {
        match compile_bound(def, ctx, "maximum", "exclusiveMaximum") {
            Ok(Some((number, exclusive))) => Ok(
                Some(Validator::Maximum(maxmin::Maximum { number, exclusive })),
            ),
            Ok(None) => Ok(None),
            Err(error) => Err(error),
        }
    }
}

/// A document that declares the flag without the bound does not compile,
/// whatever the flag's value is.
pub proof fn law_flag_needs_bound(
    def: Json,
    fragment: Seq<Seq<char>>,
    keyword: Seq<char>,
    flag: Seq<char>,
)
    requires
        def.member(flag) is Some,
        def.member(keyword) is None,
    ensures
        bound_compiled(def, fragment, keyword, flag) == Err::<
            Option<(int, bool)>,
            SchemaErrorView,
        >(malformed(fragment, unpaired_detail())),
{
}

/// A document that declares a bound that is not a number does not compile.
pub proof fn law_bound_must_be_number(
    def: Json,
    fragment: Seq<Seq<char>>,
    keyword: Seq<char>,
    flag: Seq<char>,
)
    requires
        def.member(keyword) matches Some(bound) && !(bound is Number),
    ensures
        bound_compiled(def, fragment, keyword, flag) is Err,
{
}

/// A document that declares a flag that is not a boolean does not compile,
/// whether or not it declares the bound.
pub proof fn law_flag_must_be_boolean(
    def: Json,
    fragment: Seq<Seq<char>>,
    keyword: Seq<char>,
    flag: Seq<char>,
)
    requires
        def.member(flag) matches Some(declared) && !(declared is Bool),
    ensures
        bound_compiled(def, fragment, keyword, flag) is Err,
{
}

/// A document compiles to a bound exactly when it declares a number as
/// the bound and either no flag or a boolean one.
pub proof fn law_bound_compiles(
    def: Json,
    fragment: Seq<Seq<char>>,
    keyword: Seq<char>,
    flag: Seq<char>,
)
    ensures
        bound_compiled(def, fragment, keyword, flag) matches Ok(Some(_)) <==> (def.member(keyword)
            matches Some(Json::Number(_)) && (def.member(flag) matches Some(declared)
            ==> declared is Bool)),
        bound_compiled(def, fragment, keyword, flag) matches Ok(None) <==> (def.member(keyword)
            is None && def.member(flag) is None),
{
}

} // verus!
