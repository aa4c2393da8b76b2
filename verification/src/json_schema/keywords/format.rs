//! The keyword `format`.

use crate::json_schema::errors::{SchemaError, SchemaErrorView};
use crate::json_schema::keywords::{malformed, Keyword, KeywordResult};
use crate::json_schema::schema::{WalkContext, WalkContextView};
use crate::json_schema::validators::formats::{Ipv4, Ipv6, Uri, Uuid};
use crate::json_schema::validators::{Constraint, Validator, ValidatorView};
use crate::text::{copy_texts, join, same_text};
use crate::value::{Json, Value};
use vstd::prelude::*;

verus! {

/// What is said of a format that is not named by a string.
pub open spec fn format_detail() -> Seq<char> {
    "The value of format must be a string"@
}

/// The validator of the format called `name`, declared at `fragment`; no
/// validator for a name that is not one of `ipv4`, `ipv6`, `uuid`, `uri`.
pub open spec fn format_named<C>(name: Seq<char>, fragment: Seq<Seq<char>>) -> Option<
    ValidatorView<C>,
> {
    if name == "ipv4"@ {
        Some(ValidatorView::Ipv4 { fragment })
    } else if name == "ipv6"@ {
        Some(ValidatorView::Ipv6 { fragment })
    } else if name == "uuid"@ {
        Some(ValidatorView::Uuid { fragment })
    } else if name == "uri"@ {
        Some(ValidatorView::Uri { fragment })
    } else {
        None
    }
}

/// What the keyword `format` makes of `def`: no constraint where the
/// document has no member `format` or names a format that is not known,
/// the validator of the format that it names, an error where the member is
/// not a string.
pub open spec fn format_compiled<C>(def: Json, fragment: Seq<Seq<char>>) -> Result<
    Option<ValidatorView<C>>,
    SchemaErrorView,
> {
    match def.member("format"@) {
        None => Ok(None),
        Some(Json::String(name)) => Ok(format_named(name, fragment)),
        Some(_) => Err(malformed(fragment, format_detail())),
    }
}

/// The keyword `format`.
#[derive(Clone, Copy, Debug)]
pub struct Format;

impl<C: Constraint> Keyword<C> for Format {
    open spec fn compiled(&self, def: Json, ctx: WalkContextView) -> Result<
        Option<ValidatorView<C>>,
        SchemaErrorView,
    > {
        format_compiled(def, ctx.fragment)
    }

    fn compile(&self, def: &Value, ctx: &WalkContext) -> (result: KeywordResult<C>) {
        let declared: &Value = match def.find("format") {
            Some(declared) => declared,
            None => {
                return Ok(None);
            },
        };
        let name: &str = match declared.as_str() {
            Some(name) => name,
            None => {
                return Err(
                    SchemaError::Malformed {
                        path: join(&ctx.fragment, "/"),
                        detail: "The value of format must be a string".to_owned(),
                    },
                );
            },
        };
        if same_text(name, "ipv4") {
            Ok(Some(Validator::Ipv4(Ipv4 { fragment: copy_texts(&ctx.fragment) })))
        } else if same_text(name, "ipv6") {
            Ok(Some(Validator::Ipv6(Ipv6 { fragment: copy_texts(&ctx.fragment) })))
        } else if same_text(name, "uuid") {
            Ok(Some(Validator::Uuid(Uuid { fragment: copy_texts(&ctx.fragment) })))
        } else if same_text(name, "uri") {
            Ok(Some(Validator::Uri(Uri { fragment: copy_texts(&ctx.fragment) })))
        } else {
            Ok(None)
        }
    }
}

} // verus!
