//! What holds of every schema and of every validation.

use crate::json_schema::compiler::{
    declared_name, entry_compiled, lemma_node_error_persists, lemma_units_error_persists,
    node_compiled, unit_ids, units_compiled,
};
use crate::json_schema::errors::{ErrorKind, RecordView};
use crate::json_schema::keywords::{Keyword, StandardKeyword};
use crate::json_schema::schema::{document_units, SchemaIdView, UnitView, WalkContextView};
use crate::json_schema::scope::{standard_keywords, ScopeView};
use crate::json_schema::validators::{
    idle_count, leaf_outcome, lemma_mark_decreases, no_marks, outcome_upto, schema_outcome,
    Constraint, NoCustom, ValidatorView,
};
use crate::value::Json;
use vstd::prelude::*;

verus! {

/// A schema for which one keyword fails does not compile.
pub proof fn lemma_keyword_error_fails_schema<K: Keyword<C>, C: Constraint>(
    keywords: Seq<K>,
    failing: int,
    def: Json,
    ctx: WalkContextView,
)
    requires
        0 <= failing < keywords.len(),
        keywords[failing].compiled(def, ctx) is Err,
    ensures
        node_compiled(keywords, keywords.len() as int, def, ctx) is Err,
{
    lemma_node_error_persists(keywords, failing + 1, keywords.len() as int, def, ctx);
}

/// A document does not compile where one of its schemas, the document
/// itself or one of its definitions, fails for one keyword.
pub proof fn lemma_keyword_error_fails_document<K: Keyword<C>, C: Constraint>(
    scope: ScopeView<K, C>,
    failing: int,
    def: Json,
    is_root: bool,
    position: int,
)
    requires
        0 <= failing < scope.keywords.len(),
        0 <= position < document_units(def, Seq::empty(), Seq::empty()).len(),
        forall|ctx: WalkContextView|
            (#[trigger] scope.keywords[failing].compiled(
                document_units(def, Seq::empty(), Seq::empty())[position].document,
                ctx,
            )) is Err,
    ensures
        entry_compiled(scope, def, is_root) is Err,
{
    if declared_name(def, is_root) is Ok {
        let name = declared_name(def, is_root)->Ok_0;
        let root = scope.directory.len();
        let units = document_units(def, Seq::empty(), Seq::empty());
        let directory = scope.directory + unit_ids(units, root, name);
        let unit = units[position];
        let ctx = WalkContextView { fragment: unit.fragment, directory, root };
        lemma_keyword_error_fails_schema(scope.keywords, failing, unit.document, ctx);
        lemma_units_error_persists(
            scope.keywords,
            units,
            position + 1,
            units.len() as int,
            directory,
            root,
        );
    }
}

/// With the standard keywords, a document does not compile where one of
/// its schemas, be it the document itself (at position 0) or one of its
/// definitions, declares `exclusiveMaximum` without `maximum`, or
/// `exclusiveMinimum` without `minimum`, whatever the flag's value is.
pub proof fn law_flag_without_bound_does_not_compile<C: Constraint>(
    scope: ScopeView<StandardKeyword, C>,
    def: Json,
    is_root: bool,
    position: int,
)
    requires
        scope.keywords == standard_keywords(),
        0 <= position < document_units(def, Seq::empty(), Seq::empty()).len(),
        ({
            let schema = document_units(def, Seq::empty(), Seq::empty())[position].document;
            ||| schema.member("exclusiveMaximum"@) is Some && schema.member("maximum"@) is None
            ||| schema.member("exclusiveMinimum"@) is Some && schema.member("minimum"@) is None
        }),
    ensures
        entry_compiled(scope, def, is_root) is Err,
{
    let schema = document_units(def, Seq::empty(), Seq::empty())[position].document;
    if schema.member("exclusiveMaximum"@) is Some && schema.member("maximum"@) is None {
        assert(forall|ctx: WalkContextView|
            (#[trigger] Keyword::<C>::compiled(&scope.keywords[1], schema, ctx)) is Err);
        lemma_keyword_error_fails_document(scope, 1, def, is_root, position);
    } else {
        assert(forall|ctx: WalkContextView|
            (#[trigger] Keyword::<C>::compiled(&scope.keywords[2], schema, ctx)) is Err);
        lemma_keyword_error_fails_document(scope, 2, def, is_root, position);
    }
}

/// With the standard keywords, a document does not compile where one of
/// its schemas, be it the document itself (at position 0) or one of its
/// definitions, declares a bound that is not a number or an exclusivity
/// flag that is not a boolean.
pub proof fn law_wrong_kind_does_not_compile<C: Constraint>(
    scope: ScopeView<StandardKeyword, C>,
    def: Json,
    is_root: bool,
    position: int,
)
    requires
        scope.keywords == standard_keywords(),
        0 <= position < document_units(def, Seq::empty(), Seq::empty()).len(),
        ({
            let schema = document_units(def, Seq::empty(), Seq::empty())[position].document;
            ||| schema.member("maximum"@) matches Some(bound) && !(bound is Number)
            ||| schema.member("minimum"@) matches Some(bound) && !(bound is Number)
            ||| schema.member("exclusiveMaximum"@) matches Some(flag) && !(flag is Bool)
            ||| schema.member("exclusiveMinimum"@) matches Some(flag) && !(flag is Bool)
        }),
    ensures
        entry_compiled(scope, def, is_root) is Err,
{
    let schema = document_units(def, Seq::empty(), Seq::empty())[position].document;
    if (schema.member("maximum"@) matches Some(bound) && !(bound is Number)) || (schema.member(
        "exclusiveMaximum"@,
    ) matches Some(flag) && !(flag is Bool)) {
        assert(forall|ctx: WalkContextView|
            (#[trigger] Keyword::<C>::compiled(&scope.keywords[1], schema, ctx)) is Err);
        lemma_keyword_error_fails_document(scope, 1, def, is_root, position);
    } else {
        assert(forall|ctx: WalkContextView|
            (#[trigger] Keyword::<C>::compiled(&scope.keywords[2], schema, ctx)) is Err);
        lemma_keyword_error_fails_document(scope, 2, def, is_root, position);
    }
}

/// The validator of a format passes every value that is not a string,
/// whichever of the formats it is.
pub proof fn law_formats_pass_other_values<C: Constraint>(
    validator: ValidatorView<C>,
    value: Json,
    path: Seq<char>,
)
    requires
        validator is Ipv4 || validator is Ipv6 || validator is Uuid || validator is Uri,
        !(value is String),
    ensures
        leaf_outcome(validator, value, path).len() == 0,
{
}

/// The validator of a bound passes every value that is not a number.
pub proof fn law_bounds_pass_other_values<C: Constraint>(
    validator: ValidatorView<C>,
    value: Json,
    path: Seq<char>,
)
    requires
        validator is Maximum || validator is Minimum,
        !(value is Number),
    ensures
        leaf_outcome(validator, value, path).len() == 0,
{
}

/// Compilation is determined by the document and by what the scope holds:
/// two scopes that hold the same compile the same document alike, both to
/// the same error or both to schemas that report the same of every value
/// at every path.
pub proof fn law_compilation_is_deterministic<K: Keyword<C>, C: Constraint>(
    first: ScopeView<K, C>,
    second: ScopeView<K, C>,
    def: Json,
    is_root: bool,
)
    requires
        first.keywords == second.keywords,
        first.directory == second.directory,
        first.schemas == second.schemas,
    ensures
        entry_compiled(first, def, is_root) is Err ==> entry_compiled(second, def, is_root)
            == entry_compiled(first, def, is_root),
        entry_compiled(first, def, is_root) matches Ok(compiled) ==> {
            &&& entry_compiled(second, def, is_root) matches Ok(again)
            &&& again.schemas == compiled.schemas
            &&& forall|index: int, value: Json, path: Seq<char>| #[trigger]
                schema_outcome(again.schemas, index, value, path) == schema_outcome(
                    compiled.schemas,
                    index,
                    value,
                    path,
                )
        },
{
}

/// Compiling adds schemas and changes none: what the scope held stays at
/// its position, and the keywords stay.
pub proof fn law_compiled_schemas_stay<K: Keyword<C>, C: Constraint>(
    scope: ScopeView<K, C>,
    def: Json,
    is_root: bool,
)
    requires
        scope.directory.len() == scope.schemas.len(),
    ensures
        entry_compiled(scope, def, is_root) matches Ok(compiled) ==> {
            &&& compiled.keywords == scope.keywords
            &&& compiled.schemas.len() == compiled.directory.len()
            &&& compiled.schemas.len() > scope.schemas.len()
            &&& forall|i: int|
                0 <= i < scope.schemas.len() ==> #[trigger] compiled.schemas[i] == scope.schemas[i]
            &&& forall|i: int|
                0 <= i < scope.directory.len() ==> #[trigger] compiled.directory[i]
                    == scope.directory[i]
        },
{
    if declared_name(def, is_root) is Ok {
        let name = declared_name(def, is_root)->Ok_0;
        let root = scope.directory.len();
        let units = document_units(def, Seq::empty(), Seq::empty());
        let directory = scope.directory + unit_ids(units, root, name);
        lemma_units_compiled_length(scope.keywords, units, units.len() as int, directory, root);
    }
}

/// A document that compiles gives one schema for each of its units.
pub proof fn lemma_units_compiled_length<K: Keyword<C>, C: Constraint>(
    keywords: Seq<K>,
    units: Seq<UnitView>,
    upto: int,
    directory: Seq<SchemaIdView>,
    root: nat,
)
    requires
        0 <= upto <= units.len(),
    ensures
        units_compiled(keywords, units, upto, directory, root) matches Ok(schemas) ==> schemas.len()
            == upto,
    decreases upto,
{
    if upto > 0 {
        lemma_units_compiled_length(keywords, units, upto - 1, directory, root);
    }
}

/// Whether every record is a violation found at `path` or below it: its
/// path starts with `path`, and its kind is not [`ErrorKind::Malformed`].
pub open spec fn found_under(records: Seq<RecordView>, path: Seq<char>) -> bool {
    forall|i: int|
        0 <= i < records.len() ==> {
            &&& path.is_prefix_of((#[trigger] records[i]).path)
            &&& records[i].kind != ErrorKind::Malformed
        }
}

/// Whether the constraints of the kind `C` report, of `value` at `path`,
/// violations found at `path` or below it. The library's own validators
/// do; this asks the same of the caller's.
pub open spec fn constraints_report_under<C: Constraint>(value: Json, path: Seq<char>) -> bool {
    forall|constraint: C| found_under(#[trigger] constraint.outcome(value, path), path)
}

/// What a validator reports by itself is found at the path of the value.
pub proof fn lemma_leaf_found_under<C: Constraint>(
    validator: ValidatorView<C>,
    value: Json,
    path: Seq<char>,
)
    requires
        constraints_report_under::<C>(value, path),
    ensures
        found_under(leaf_outcome(validator, value, path), path),
{
}

/// What the validators of a schema report is found at the path of the
/// value, also where they follow references.
pub proof fn lemma_outcome_found_under<C: Constraint>(
    schemas: Seq<Seq<ValidatorView<C>>>,
    index: int,
    upto: int,
    value: Json,
    path: Seq<char>,
    marks: Seq<bool>,
)
    requires
        constraints_report_under::<C>(value, path),
    ensures
        found_under(outcome_upto(schemas, index, upto, value, path, marks), path),
    decreases idle_count(marks), upto,
{
    if 0 <= index < schemas.len() && 0 < upto <= schemas[index].len() {
        lemma_outcome_found_under(schemas, index, upto - 1, value, path, marks);
        let validator = schemas[index][upto - 1];
        match validator {
            ValidatorView::Ref { target } => {
                if target < schemas.len() && target < marks.len() && !marks[target as int] {
                    lemma_mark_decreases(marks, target as int);
                    lemma_outcome_found_under(
                        schemas,
                        target as int,
                        schemas[target as int].len() as int,
                        value,
                        path,
                        marks.update(target as int, true),
                    );
                }
            },
            _ => {
                lemma_leaf_found_under(validator, value, path);
            },
        }
    }
}

/// Validation reports violations of the value and nothing else: the path
/// of every record starts with the path of the value, also where the
/// record was found through a reference, and none is of the kind
/// [`ErrorKind::Malformed`], which is kept for errors of schemas. This
/// holds of the library's validators, and of a scope with constraints of
/// the caller where those report so themselves.
pub proof fn law_validation_reports_violations<C: Constraint>(
    schemas: Seq<Seq<ValidatorView<C>>>,
    index: int,
    value: Json,
    path: Seq<char>,
)
    requires
        constraints_report_under::<C>(value, path),
    ensures
        found_under(schema_outcome(schemas, index, value, path), path),
{
    if 0 <= index < schemas.len() {
        lemma_outcome_found_under(
            schemas,
            index,
            schemas[index].len() as int,
            value,
            path,
            no_marks(schemas.len()).update(index, true),
        );
    }
}

/// A scope without constraints of the caller reports every record at the
/// very path of the value.
pub proof fn law_standard_validation_reports_at_path(
    schemas: Seq<Seq<ValidatorView<NoCustom>>>,
    index: int,
    upto: int,
    value: Json,
    path: Seq<char>,
    marks: Seq<bool>,
)
    ensures
        forall|i: int|
            0 <= i < outcome_upto(schemas, index, upto, value, path, marks).len() ==> (
            #[trigger] outcome_upto(schemas, index, upto, value, path, marks)[i]).path == path,
    decreases idle_count(marks), upto,
{
    if 0 <= index < schemas.len() && 0 < upto <= schemas[index].len() {
        law_standard_validation_reports_at_path(schemas, index, upto - 1, value, path, marks);
        match schemas[index][upto - 1] {
            ValidatorView::Ref { target } => {
                if target < schemas.len() && target < marks.len() && !marks[target as int] {
                    lemma_mark_decreases(marks, target as int);
                    law_standard_validation_reports_at_path(
                        schemas,
                        target as int,
                        schemas[target as int].len() as int,
                        value,
                        path,
                        marks.update(target as int, true),
                    );
                }
            },
            _ => {},
        }
    }
}

/// Validation applies every validator: what the first validators of a
/// schema report stays, in its order, when the next one is applied.
pub proof fn law_validation_does_not_stop<C: Constraint>(
    schemas: Seq<Seq<ValidatorView<C>>>,
    index: int,
    upto: int,
    value: Json,
    path: Seq<char>,
    marks: Seq<bool>,
)
    requires
        0 <= index < schemas.len(),
        0 < upto <= schemas[index].len(),
    ensures
        outcome_upto(schemas, index, upto - 1, value, path, marks).is_prefix_of(
            outcome_upto(schemas, index, upto, value, path, marks),
        ),
        !(schemas[index][upto - 1] is Ref) ==> outcome_upto(
            schemas,
            index,
            upto,
            value,
            path,
            marks,
        ) == outcome_upto(schemas, index, upto - 1, value, path, marks) + leaf_outcome(
            schemas[index][upto - 1],
            value,
            path,
        ),
{
}

} // verus!
