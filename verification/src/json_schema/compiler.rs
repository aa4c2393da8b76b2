//! What compiling a document gives: the validators of each of its schemas,
//! or the first error.

use crate::json_schema::errors::{SchemaError, SchemaErrorView};
use crate::json_schema::keywords::{malformed, Keyword};
use crate::json_schema::schema::{
    document_units, named_from, SchemaIdView, UnitView, WalkContextView,
};
use crate::json_schema::scope::ScopeView;
use crate::json_schema::validators::{validators_view, Constraint, Validator, ValidatorView};
use crate::value::Json;
use vstd::prelude::*;

verus! {

/// What is said of a schema that is not an object.
pub open spec fn object_detail() -> Seq<char> {
    "The schema must be an object"@
}

/// What is said of definitions that are not an object.
pub open spec fn definitions_detail() -> Seq<char> {
    "The value of definitions must be an object"@
}

/// What is said of an identifier that the scope has already.
pub open spec fn duplicate_detail() -> Seq<char> {
    "The identifier is already registered in the scope"@
}

/// What the first `upto` keywords make of the schema `def`, each in its
/// turn: the validators that they give, in their order, or the error of
/// the first keyword that fails.
pub open spec fn node_compiled<K: Keyword<C>, C: Constraint>(
    keywords: Seq<K>,
    upto: int,
    def: Json,
    ctx: WalkContextView,
) -> Result<Seq<ValidatorView<C>>, SchemaErrorView>
    decreases upto,
{
    if upto <= 0 || upto > keywords.len() {
        Ok(Seq::empty())
    } else {
        match node_compiled(keywords, upto - 1, def, ctx) {
            Err(error) => Err(error),
            Ok(earlier) => match keywords[upto - 1].compiled(def, ctx) {
                Err(error) => Err(error),
                Ok(None) => Ok(earlier),
                Ok(Some(validator)) => Ok(earlier.push(validator)),
            },
        }
    }
}

/// What the keywords make of one schema of a document rooted at `root`.
/// The schema must be an object, and its member `definitions`, where it
/// has one, too.
pub open spec fn unit_compiled<K: Keyword<C>, C: Constraint>(
    keywords: Seq<K>,
    unit: UnitView,
    directory: Seq<SchemaIdView>,
    root: nat,
) -> Result<Seq<ValidatorView<C>>, SchemaErrorView> {
    if !(unit.document is Object) {
        Err(malformed(unit.fragment, object_detail()))
    } else if unit.document.member("definitions"@) matches Some(definitions) && !(definitions
        is Object) {
        Err(malformed(unit.fragment, definitions_detail()))
    } else {
        node_compiled(
            keywords,
            keywords.len() as int,
            unit.document,
            WalkContextView { fragment: unit.fragment, directory, root },
        )
    }
}

/// What the keywords make of the first `upto` schemas of a document: the
/// validators of each, or the error of the first schema that fails.
pub open spec fn units_compiled<K: Keyword<C>, C: Constraint>(
    keywords: Seq<K>,
    units: Seq<UnitView>,
    upto: int,
    directory: Seq<SchemaIdView>,
    root: nat,
) -> Result<Seq<Seq<ValidatorView<C>>>, SchemaErrorView>
    decreases upto,
{
    if upto <= 0 || upto > units.len() {
        Ok(Seq::empty())
    } else {
        match units_compiled(keywords, units, upto - 1, directory, root) {
            Err(error) => Err(error),
            Ok(earlier) => match unit_compiled(keywords, units[upto - 1], directory, root) {
                Err(error) => Err(error),
                Ok(validators) => Ok(earlier.push(validators)),
            },
        }
    }
}

/// The identities of the schemas of a document that is rooted at `root`
/// and registered as `name`: the root carries the name.
pub open spec fn unit_ids(units: Seq<UnitView>, root: nat, name: Option<Seq<char>>) -> Seq<
    SchemaIdView,
> {
    Seq::new(
        units.len(),
        |k: int|
            SchemaIdView {
                root,
                name: if k == 0 {
                    name
                } else {
                    None
                },
                pointer: units[k].pointer,
            },
    )
}

/// What compiling `document` in `scope` gives: the scope with the schemas
/// of the document behind those that it had, or the error for which
/// nothing is compiled.
///
/// A name that the scope has already is an error. Else every schema of
/// the document gets its identity before any is compiled, so that the
/// references of each find all of them, and the schemas are compiled in
/// their order.
pub open spec fn document_compiled<K: Keyword<C>, C: Constraint>(
    scope: ScopeView<K, C>,
    document: Json,
    name: Option<Seq<char>>,
) -> Result<ScopeView<K, C>, SchemaErrorView> {
    if name matches Some(identifier) && named_from(scope.directory, identifier, 0) is Some {
        Err(malformed(Seq::empty(), duplicate_detail()))
    } else {
        let root = scope.directory.len();
        let units = document_units(document, Seq::empty(), Seq::empty());
        let directory = scope.directory + unit_ids(units, root, name);
        with_schemas(
            scope,
            directory,
            units_compiled(scope.keywords, units, units.len() as int, directory, root),
        )
    }
}

/// The scope `scope` with the directory `directory` and with the schemas
/// `compiled` behind those that it had; the error where `compiled` is one.
pub open spec fn with_schemas<K: Keyword<C>, C: Constraint>(
    scope: ScopeView<K, C>,
    directory: Seq<SchemaIdView>,
    compiled: Result<Seq<Seq<ValidatorView<C>>>, SchemaErrorView>,
) -> Result<ScopeView<K, C>, SchemaErrorView> {
    match compiled {
        Err(error) => Err(error),
        Ok(schemas) => Ok(
            ScopeView { keywords: scope.keywords, directory, schemas: scope.schemas + schemas },
        ),
    }
}

/// Once a keyword has failed, the schema fails with its error.
pub proof fn lemma_node_error_persists<K: Keyword<C>, C: Constraint>(
    keywords: Seq<K>,
    failed: int,
    upto: int,
    def: Json,
    ctx: WalkContextView,
)
    requires
        0 <= failed <= upto <= keywords.len(),
        node_compiled(keywords, failed, def, ctx) is Err,
    ensures
        node_compiled(keywords, upto, def, ctx) == node_compiled(keywords, failed, def, ctx),
    decreases upto - failed,
{
    if failed < upto {
        lemma_node_error_persists(keywords, failed, upto - 1, def, ctx);
    }
}

/// Once a schema has failed, the document fails with its error.
pub proof fn lemma_units_error_persists<K: Keyword<C>, C: Constraint>(
    keywords: Seq<K>,
    units: Seq<UnitView>,
    failed: int,
    upto: int,
    directory: Seq<SchemaIdView>,
    root: nat,
)
    requires
        0 <= failed <= upto <= units.len(),
        units_compiled(keywords, units, failed, directory, root) is Err,
    ensures
        units_compiled(keywords, units, upto, directory, root) == units_compiled(
            keywords,
            units,
            failed,
            directory,
            root,
        ),
    decreases upto - failed,
{
    if failed < upto {
        lemma_units_error_persists(keywords, units, failed, upto - 1, directory, root);
    }
}

/// The content of the validators of a schema that is compiled, or of the
/// error.
pub open spec fn node_result_view<C>(result: Result<Vec<Validator<C>>, SchemaError>) -> Result<
    Seq<ValidatorView<C>>,
    SchemaErrorView,
> {
    match result {
        Ok(validators) => Ok(validators_view(validators@)),
        Err(error) => Err(error@),
    }
}

/// What is said of an identifier that is not a string.
pub open spec fn identifier_detail() -> Seq<char> {
    "The value of id must be a string"@
}

/// The name under which the document `def` asks to be registered: that of
/// its member `id`, where it is compiled as the root of a document and has
/// that member, which must be a string; none else.
pub open spec fn declared_name(def: Json, is_root: bool) -> Result<
    Option<Seq<char>>,
    SchemaErrorView,
> {
    if !is_root {
        Ok(None)
    } else {
        match def.member("id"@) {
            None => Ok(None),
            Some(Json::String(name)) => Ok(Some(name)),
            Some(_) => Err(malformed(Seq::empty(), identifier_detail())),
        }
    }
}

/// What compiling `def` in `scope` gives where the document names itself.
pub open spec fn entry_compiled<K: Keyword<C>, C: Constraint>(
    scope: ScopeView<K, C>,
    def: Json,
    is_root: bool,
) -> Result<ScopeView<K, C>, SchemaErrorView> {
    match declared_name(def, is_root) {
        Err(error) => Err(error),
        Ok(name) => document_compiled(scope, def, name),
    }
}

} // verus!
