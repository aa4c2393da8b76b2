//! The scope: the owner of every compiled schema of one session.

use crate::json_schema::compiler::{
    document_compiled, entry_compiled, lemma_node_error_persists, lemma_units_error_persists,
    node_compiled, node_result_view, unit_compiled, unit_ids, units_compiled, with_schemas,
};
use crate::json_schema::errors::{SchemaError, SchemaErrorView};
use crate::json_schema::keywords::{Extended, Keyword, StandardKeyword};
use crate::json_schema::schema::{
    collect_units, lemma_first_index_in_range, reference_base, resolve_reference, units_view,
    Directory, Schema, SchemaId, SchemaIdView, Unit, WalkContext, WalkContextView,
};
use crate::json_schema::state::ValidationState;
use crate::json_schema::validators::{
    idle_count, lemma_mark_decreases, no_marks, outcome_upto, schema_outcome, validators_view,
    Constraint, NoCustom, Validator, ValidatorView,
};
use crate::text::{chars_of, copy_texts, join, joined, optional_text, texts};
use crate::value::Value;
use vstd::prelude::*;

verus! {

/// The content of a [`Scope`].
pub struct ScopeView<K, C> {
    /// The keywords, in the order in which they are compiled.
    pub keywords: Seq<K>,
    /// The identity of each schema, by position.
    pub directory: Seq<SchemaIdView>,
    /// The validators of each schema, by position.
    pub schemas: Seq<Seq<ValidatorView<C>>>,
}

impl<K, C> ScopeView<K, C> {
    /// Every schema has its identity, and every reference points at a
    /// schema of the scope.
    pub open spec fn complete(self) -> bool {
        &&& self.directory.len() == self.schemas.len()
        &&& forall|i: int, j: int|
            0 <= i < self.schemas.len() && 0 <= j < self.schemas[i].len() ==> (
            #[trigger] self.schemas[i][j]).fits(self.schemas.len())
    }
}

/// The keywords that a new scope has: `$ref`, `maximum`, `minimum` and
/// `format`, in this order.
pub open spec fn standard_keywords() -> Seq<StandardKeyword> {
    seq![
        StandardKeyword::Ref,
        StandardKeyword::Maximum,
        StandardKeyword::Minimum,
        StandardKeyword::Format,
    ]
}

/// The position of the schema that the identifier `identifier` names from
/// outside any document: the identifier must name a document.
pub open spec fn resolved(directory: Seq<SchemaIdView>, identifier: Seq<char>) -> Option<nat> {
    if reference_base(identifier).len() == 0 {
        None
    } else {
        resolve_reference(directory, 0, identifier)
    }
}

/// The content of each schema of `schemas`.
pub open spec fn schemas_view<C>(schemas: Seq<Schema<C>>) -> Seq<Seq<ValidatorView<C>>> {
    Seq::new(schemas.len(), |i: int| schemas[i]@.validators)
}

/// The registry of one session: the keywords that it compiles with and
/// every schema that it has compiled, each at a position that never
/// changes. Schemas refer to each other by position, so the scope alone
/// owns them, also where they refer to each other in a cycle.
///
/// The scope compiles with keywords of the type `K`, which may be any
/// implementation of [`Keyword`]: the standard ones, or a type of the
/// caller that adds its own. Its schemas hold validators of the library's
/// kinds and of the kind `C`, which may be any implementation of
/// [`Constraint`]: [`NoCustom`], or a type of the caller.
pub struct Scope<K: Keyword<C>, C: Constraint> {
    keywords: Vec<K>,
    directory: Directory,
    schemas: Vec<Schema<C>>,
}

impl<K: Keyword<C>, C: Constraint> View for Scope<K, C> {
    type V = ScopeView<K, C>;

    closed spec fn view(&self) -> ScopeView<K, C> {
        ScopeView {
            keywords: self.keywords@,
            directory: self.directory@,
            schemas: schemas_view(self.schemas@),
        }
    }
}

impl Scope<StandardKeyword, NoCustom> {
    /// A scope without schemas, with the standard keywords.
    pub fn new() -> (scope: Scope<StandardKeyword, NoCustom>)
        ensures
            scope.wf(),
            scope@.keywords == standard_keywords(),
            scope@.schemas.len() == 0,
    {
        let mut keywords: Vec<StandardKeyword> = Vec::new();
        keywords.push(StandardKeyword::Ref);
        keywords.push(StandardKeyword::Maximum);
        keywords.push(StandardKeyword::Minimum);
        keywords.push(StandardKeyword::Format);
        Scope { keywords, directory: Directory { ids: Vec::new() }, schemas: Vec::new() }
    }
}

impl<K: Keyword<C>, C: Constraint> Scope<Extended<K>, C> {
    /// A scope without schemas, with the standard keywords, to which
    /// keywords of the type `K` can be added.
    pub fn extensible() -> (scope: Scope<Extended<K>, C>)
        ensures
            scope.wf(),
            scope@.keywords == standard_keywords().map_values(
                |keyword: StandardKeyword| Extended::<K>::Standard(keyword),
            ),
            scope@.schemas.len() == 0,
    {
        let mut keywords: Vec<Extended<K>> = Vec::new();
        keywords.push(Extended::Standard(StandardKeyword::Ref));
        keywords.push(Extended::Standard(StandardKeyword::Maximum));
        keywords.push(Extended::Standard(StandardKeyword::Minimum));
        keywords.push(Extended::Standard(StandardKeyword::Format));
        proof {
            assert(keywords@ =~= standard_keywords().map_values(
                |keyword: StandardKeyword| Extended::<K>::Standard(keyword),
            ));
        }
        Scope { keywords, directory: Directory { ids: Vec::new() }, schemas: Vec::new() }
    }
}

impl<K: Keyword<C>, C: Constraint> Scope<K, C> {
    /// The invariant of a scope between two compilations: no schema is
    /// under way, every reference points at a schema of the scope, and
    /// every schema carries the identity that the scope has for it.
    pub open spec fn wf(&self) -> bool {
        self@.complete() && self.identified()
    }

    /// Whether every schema carries the identity that the scope has for
    /// its position.
    pub closed spec fn identified(&self) -> bool {
        forall|i: int|
            0 <= i < self.schemas.len() ==> i < self.directory.ids.len() && (
            #[trigger] self.schemas[i]).id@ == self.directory.ids[i]@
    }

    /// A scope without schemas, with the given keywords.
    pub fn with_keywords(keywords: Vec<K>) -> (scope: Scope<K, C>)
        ensures
            scope.wf(),
            scope@.keywords == keywords@,
            scope@.schemas.len() == 0,
    {
        Scope { keywords, directory: Directory { ids: Vec::new() }, schemas: Vec::new() }
    }

    /// Adds a keyword, to be compiled after those that the scope has.
    pub fn add_keyword(&mut self, keyword: K)
        requires
            old(self).wf(),
        ensures
            final(self).wf(),
            final(self)@ == (ScopeView {
                keywords: old(self)@.keywords.push(keyword),
                ..old(self)@
            }),
    {
        self.keywords.push(keyword);
    }

    /// Compiles one schema of a document rooted at `root`.
    fn compile_unit(&self, unit: &Unit, root: usize) -> (result: Result<
        Vec<Validator<C>>,
        SchemaError,
    >)
        ensures
            node_result_view(result) == unit_compiled(
                self@.keywords,
                unit@,
                self@.directory,
                root as nat,
            ),
            result matches Ok(validators) ==> forall|j: int|
                0 <= j < validators.len() ==> (#[trigger] validators@[j])@.fits(
                    self@.directory.len(),
                ),
    {
        if !unit.document.is_object() {
            return Err(
                SchemaError::Malformed {
                    path: join(&unit.fragment, "/"),
                    detail: "The schema must be an object".to_owned(),
                },
            );
        }
        match unit.document.find("definitions") {
            Some(definitions) => {
                if !definitions.is_object() {
                    return Err(
                        SchemaError::Malformed {
                            path: join(&unit.fragment, "/"),
                            detail: "The value of definitions must be an object".to_owned(),
                        },
                    );
                }
            },
            None => {},
        }
        let ctx: WalkContext = WalkContext {
            fragment: copy_texts(&unit.fragment),
            directory: &self.directory,
            root,
        };
        let ghost keywords = self@.keywords;
        let ghost context = ctx@;
        let mut validators: Vec<Validator<C>> = Vec::new();
        let mut i: usize = 0;
        proof {
            assert(validators_view(validators@) =~= Seq::<ValidatorView<C>>::empty());
        }
        while i < self.keywords.len()
            invariant
                i <= self.keywords.len(),
                keywords == self.keywords@,
                context == ctx@,
                context == (WalkContextView {
                    fragment: unit@.fragment,
                    directory: self@.directory,
                    root: root as nat,
                }),
                unit_compiled(keywords, unit@, self@.directory, root as nat) == node_compiled(
                    keywords,
                    keywords.len() as int,
                    unit.document@,
                    context,
                ),
                node_compiled(keywords, i as int, unit.document@, context) == Ok::<
                    Seq<ValidatorView<C>>,
                    SchemaErrorView,
                >(validators_view(validators@)),
                forall|j: int|
                    0 <= j < validators.len() ==> (#[trigger] validators@[j])@.fits(
                        context.directory.len(),
                    ),
            decreases self.keywords.len() - i,
        {
            let compiled = self.keywords[i].compile(unit.document, &ctx);
            match compiled {
                Ok(Some(validator)) => {
                    let ghost earlier = validators_view(validators@);
                    validators.push(validator);
                    proof {
                        assert(validators_view(validators@) =~= earlier.push(validator@));
                    }
                },
                Ok(None) => {},
                Err(error) => {
                    proof {
                        assert(node_compiled(keywords, i + 1, unit.document@, context) == Err::<
                            Seq<ValidatorView<C>>,
                            SchemaErrorView,
                        >(error@));
                        lemma_node_error_persists(
                            keywords,
                            i + 1,
                            keywords.len() as int,
                            unit.document@,
                            context,
                        );
                    }
                    return Err(error);
                },
            }
            i += 1;
        }
        Ok(validators)
    }

    /// Compiles `document` and registers its schemas, the root as `name`
    /// where that is given. Either all schemas of the document are
    /// compiled, or none is and the scope stays as it was.
    fn compile_document(&mut self, document: &Value, name: Option<String>) -> (result: Result<
        usize,
        SchemaError,
    >)
        requires
            old(self).wf(),
        ensures
            final(self).wf(),
            match result {
                Ok(index) => {
                    &&& index == old(self)@.schemas.len()
                    &&& document_compiled(old(self)@, document@, optional_text(name)) == Ok::<
                        ScopeView<K, C>,
                        SchemaErrorView,
                    >(final(self)@)
                },
                Err(error) => {
                    &&& final(self)@ == old(self)@
                    &&& document_compiled(old(self)@, document@, optional_text(name)) == Err::<
                        ScopeView<K, C>,
                        SchemaErrorView,
                    >(error@)
                },
            },
    {
        let ghost before = self@;
        let ghost label = optional_text(name);
        let taken: bool = match &name {
            Some(identifier) => self.directory.named(identifier.as_str()).is_some(),
            None => false,
        };
        if taken {
            proof {
                reveal_strlit("");
                assert(""@ =~= joined(Seq::<Seq<char>>::empty(), "/"@));
            }
            return Err(
                SchemaError::Malformed {
                    path: "".to_owned(),
                    detail: "The identifier is already registered in the scope".to_owned(),
                },
            );
        }
        let base: usize = self.schemas.len();
        let mut units: Vec<Unit> = Vec::new();
        let no_names: Vec<String> = Vec::new();
        proof {
            assert(texts(no_names@) =~= Seq::<Seq<char>>::empty());
        }
        collect_units(document, String::new(), no_names, &mut units);
        let ghost parts = units_view(units@);
        let ghost ids = unit_ids(parts, base as nat, label);
        let ghost directory = before.directory + ids;
        let ghost goal = document_compiled(before, document@, label);
        proof {
            assert(goal == with_schemas(
                before,
                directory,
                units_compiled(before.keywords, parts, parts.len() as int, directory, base as nat),
            ));
        }
        let root_id: SchemaId = SchemaId { root: base, name, pointer: units[0].pointer.clone() };
        self.directory.ids.push(root_id);
        let mut k: usize = 1;
        while k < units.len()
            invariant
                1 <= k <= units.len(),
                before.directory.len() == base,
                parts == units_view(units@),
                ids == unit_ids(parts, base as nat, label),
                self.directory@ == before.directory + ids.take(k as int),
                self.keywords@ == before.keywords,
                schemas_view(self.schemas@) == before.schemas,
                self.identified(),
            decreases units.len() - k,
        {
            let ghost earlier = self.directory@;
            let id: SchemaId = SchemaId {
                root: base,
                name: None,
                pointer: units[k].pointer.clone(),
            };
            self.directory.ids.push(id);
            proof {
                assert(self.directory@ =~= earlier.push(id@));
            }
            k += 1;
        }
        let mut k: usize = 0;
        proof {
            assert(schemas_view(self.schemas@) =~= before.schemas + Seq::<
                Seq<ValidatorView<C>>,
            >::empty());
        }
        let ghost mut compiled: Seq<Seq<ValidatorView<C>>> = Seq::empty();
        while k < units.len()
            invariant
                k <= units.len(),
                before.complete(),
                base == before.schemas.len(),
                base == before.directory.len(),
                goal == with_schemas(
                    before,
                    directory,
                    units_compiled(
                        before.keywords,
                        parts,
                        parts.len() as int,
                        directory,
                        base as nat,
                    ),
                ),
                goal == document_compiled(before, document@, label),
                before == old(self)@,
                label == optional_text(name),
                self.schemas@.len() == base + k,
                self.directory.ids@.len() == base + units.len(),
                self.identified(),
                parts == units_view(units@),
                directory == before.directory + ids,
                ids.len() == units.len(),
                self.directory@ == directory,
                self.keywords@ == before.keywords,
                compiled.len() == k,
                schemas_view(self.schemas@) == before.schemas + compiled,
                units_compiled(before.keywords, parts, k as int, directory, base as nat) == Ok::<
                    Seq<Seq<ValidatorView<C>>>,
                    SchemaErrorView,
                >(compiled),
                forall|i: int, j: int|
                    0 <= i < compiled.len() && 0 <= j < compiled[i].len() ==> (
                    #[trigger] compiled[i][j]).fits(directory.len()),
            decreases units.len() - k,
        {
            let outcome = self.compile_unit(&units[k], base);
            match outcome {
                Ok(validators) => {
                    let ghost added = validators_view(validators@);
                    let ghost earlier = schemas_view(self.schemas@);
                    assert(base + k < self.directory.ids.len());
                    let schema: Schema<C> = Schema {
                        id: self.directory.ids[base + k].duplicate(),
                        validators,
                    };
                    self.schemas.push(schema);
                    proof {
                        assert(schemas_view(self.schemas@) =~= earlier.push(added));
                        assert(schemas_view(self.schemas@) =~= before.schemas + compiled.push(
                            added,
                        ));
                        compiled = compiled.push(added);
                    }
                },
                Err(error) => {
                    proof {
                        assert(units_compiled(
                            before.keywords,
                            parts,
                            k + 1,
                            directory,
                            base as nat,
                        ) == Err::<Seq<Seq<ValidatorView<C>>>, SchemaErrorView>(error@));
                        lemma_units_error_persists(
                            before.keywords,
                            parts,
                            k + 1,
                            parts.len() as int,
                            directory,
                            base as nat,
                        );
                    }
                    let ghost full_schemas = self.schemas@;
                    self.directory.ids.truncate(base);
                    self.schemas.truncate(base);
                    proof {
                        assert(schemas_view(self.schemas@) =~= schemas_view(full_schemas).take(
                            base as int,
                        ));
                        assert(self.directory@ =~= directory.take(base as int));
                        assert(self.directory@ =~= before.directory);
                        assert(schemas_view(self.schemas@) =~= before.schemas);
                    }
                    return Err(error);
                },
            }
            k += 1;
        }
        Ok(base)
    }

    /// Compiles `document` and registers it as `identifier`. The schemas
    /// of the document stand behind those that the scope had, the root
    /// first, at the position that is handed back.
    ///
    /// An identifier that the scope has already, and any error of the
    /// document, leave the scope as it was.
    pub fn compile_and_register(&mut self, document: &Value, identifier: &str) -> (result: Result<
        usize,
        SchemaError,
    >)
        requires
            old(self).wf(),
        ensures
            final(self).wf(),
            match result {
                Ok(index) => {
                    &&& index == old(self)@.schemas.len()
                    &&& document_compiled(old(self)@, document@, Some(identifier@)) == Ok::<
                        ScopeView<K, C>,
                        SchemaErrorView,
                    >(final(self)@)
                },
                Err(error) => {
                    &&& final(self)@ == old(self)@
                    &&& document_compiled(old(self)@, document@, Some(identifier@)) == Err::<
                        ScopeView<K, C>,
                        SchemaErrorView,
                    >(error@)
                },
            },
    {
        self.compile_document(document, Some(identifier.to_owned()))
    }

    /// Compiles the schema document `def` and hands back the compiled
    /// schema. Where `is_root` is set, the document is the root of a
    /// document: it is registered under the name of its member `id`, if it
    /// has one. Else it is compiled without a name.
    ///
    /// Any error of the document leaves the scope as it was.
    pub fn compile_and_return(&mut self, def: &Value, is_root: bool) -> (result: Result<
        ScopedSchema<'_, K, C>,
        SchemaError,
    >)
        requires
            old(self).wf(),
        ensures
            final(self).wf(),
            match result {
                Ok(schema) => {
                    &&& schema.index == old(self)@.schemas.len()
                    &&& schema.scope@ == final(self)@
                    &&& entry_compiled(old(self)@, def@, is_root) == Ok::<
                        ScopeView<K, C>,
                        SchemaErrorView,
                    >(final(self)@)
                },
                Err(error) => {
                    &&& final(self)@ == old(self)@
                    &&& entry_compiled(old(self)@, def@, is_root) == Err::<
                        ScopeView<K, C>,
                        SchemaErrorView,
                    >(error@)
                },
            },
    {
        let name: Option<String> = if is_root {
            match def.find("id") {
                None => None,
                Some(declared) => match declared.as_str() {
                    Some(name) => Some(name.to_owned()),
                    None => {
                        proof {
                            reveal_strlit("");
                            assert(""@ =~= joined(Seq::<Seq<char>>::empty(), "/"@));
                        }
                        return Err(
                            SchemaError::Malformed {
                                path: "".to_owned(),
                                detail: "The value of id must be a string".to_owned(),
                            },
                        );
                    },
                },
            }
        } else {
            None
        };
        match self.compile_document(def, name) {
            Ok(index) => Ok(ScopedSchema { scope: &*self, index }),
            Err(error) => Err(error),
        }
    }

    /// The schema that `identifier` names: a document by the name under
    /// which it is registered, or, behind a `#`, one of its definitions.
    /// Nothing is compiled for it.
    pub fn resolve(&self, identifier: &str) -> (found: Option<ScopedSchema<'_, K, C>>)
        requires
            self.wf(),
        ensures
            match found {
                Some(schema) => {
                    &&& resolved(self@.directory, identifier@) == Some(schema.index as nat)
                    &&& schema.index < self@.schemas.len()
                    &&& schema.scope@ == self@
                },
                None => resolved(self@.directory, identifier@) is None,
            },
    {
        let chars: Vec<char> = chars_of(identifier);
        if chars.len() == 0 || chars[0] == '#' {
            return None;
        }
        proof {
            lemma_first_index_in_range(identifier@, '#', 1);
        }
        match self.directory.resolve(0, identifier) {
            Some(index) => Some(ScopedSchema { scope: self, index }),
            None => None,
        }
    }

    /// The schema at `index`, if the scope has one there.
    pub fn schema_at(&self, index: usize) -> (found: Option<&Schema<C>>)
        ensures
            match found {
                Some(schema) => {
                    &&& index < self@.schemas.len()
                    &&& schema@.validators == self@.schemas[index as int]
                    &&& self.wf() ==> schema@.id == self@.directory[index as int]
                },
                None => index >= self@.schemas.len(),
            },
    {
        if index < self.schemas.len() {
            Some(&self.schemas[index])
        } else {
            None
        }
    }

    /// The identity of the schema at `index`, if the scope has one there.
    pub fn identity_at(&self, index: usize) -> (found: Option<&SchemaId>)
        ensures
            match found {
                Some(id) => index < self@.directory.len() && id@ == self@.directory[index as int],
                None => index >= self@.directory.len(),
            },
    {
        if index < self.directory.ids.len() {
            Some(&self.directory.ids[index])
        } else {
            None
        }
    }

    /// The number of schemas of the scope.
    pub fn len(&self) -> (size: usize)
        ensures
            size == self@.schemas.len(),
    {
        self.schemas.len()
    }

    /// The marks of `marks`, with the schema at `target` marked too.
    fn marked(marks: &Vec<bool>, target: usize) -> (result: Vec<bool>)
        requires
            target < marks.len(),
        ensures
            result@ == marks@.update(target as int, true),
    {
        let mut result: Vec<bool> = Vec::new();
        let mut i: usize = 0;
        while i < marks.len()
            invariant
                i <= marks.len(),
                target < marks.len(),
                result@ == marks@.update(target as int, true).take(i as int),
            decreases marks.len() - i,
        {
            result.push(i == target || marks[i]);
            i += 1;
        }
        result
    }

    /// No schema marked.
    fn unmarked(size: usize) -> (result: Vec<bool>)
        ensures
            result@ == no_marks(size as nat),
    {
        let mut result: Vec<bool> = Vec::new();
        let mut i: usize = 0;
        while i < size
            invariant
                i <= size,
                result@ == no_marks(size as nat).take(i as int),
            decreases size - i,
        {
            result.push(false);
            i += 1;
        }
        result
    }

    /// Applies the schema at `index` to `val` while the schemas marked in
    /// `marks`, this one among them, are being applied to it.
    fn apply(&self, index: usize, val: &Value, path: &str, marks: &Vec<bool>) -> (state:
        ValidationState)
        requires
            index < self@.schemas.len(),
            marks.len() == self@.schemas.len(),
        ensures
            state@ == outcome_upto(
                self@.schemas,
                index as int,
                self@.schemas[index as int].len() as int,
                val@,
                path@,
                marks@,
            ),
        decreases idle_count(marks@),
    {
        let schema: &Schema<C> = &self.schemas[index];
        let size: usize = self.schemas.len();
        let count: usize = schema.validators.len();
        let ghost schemas = self@.schemas;
        let mut state: ValidationState = ValidationState::new();
        let mut j: usize = 0;
        while j < count
            invariant
                j <= count == schema.validators.len(),
                index < size == schemas.len(),
                marks.len() == size,
                schemas == self@.schemas,
                schemas[index as int] == schema@.validators,
                state@ == outcome_upto(schemas, index as int, j as int, val@, path@, marks@),
            decreases count - j,
        {
            let found: ValidationState = match &schema.validators[j] {
                Validator::Ref(reference) => {
                    let target: usize = reference.target;
                    if target < size && !marks[target] {
                        let inner: Vec<bool> = Self::marked(marks, target);
                        proof {
                            lemma_mark_decreases(marks@, target as int);
                        }
                        self.apply(target, val, path, &inner)
                    } else {
                        ValidationState::new()
                    }
                },
                leaf => leaf.check(val, path, self),
            };
            state.append(found);
            j += 1;
        }
        state
    }

    /// Validates `val`, which stands at `path` in its document, against
    /// the schema at `index`: every validator of the schema is applied,
    /// in order, and all that they report is put together.
    pub fn validate_at(&self, index: usize, val: &Value, path: &str) -> (state: ValidationState)
        ensures
            state@ == schema_outcome(self@.schemas, index as int, val@, path@),
    {
        if index < self.schemas.len() {
            let none: Vec<bool> = Self::unmarked(self.schemas.len());
            let marks: Vec<bool> = Self::marked(&none, index);
            self.apply(index, val, path, &marks)
        } else {
            ValidationState::new()
        }
    }
}

/// A compiled schema together with the scope that owns it.
pub struct ScopedSchema<'a, K: Keyword<C>, C: Constraint> {
    /// The scope that owns the schema.
    pub scope: &'a Scope<K, C>,
    /// The position of the schema in the scope.
    pub index: usize,
}

impl<'a, K: Keyword<C>, C: Constraint> ScopedSchema<'a, K, C> {
    /// Validates `data` as a whole document: every validator of the
    /// schema is applied, and all that they report is handed back.
    pub fn validate(&self, data: &Value) -> (state: ValidationState)
        ensures
            state@ == schema_outcome(self.scope@.schemas, self.index as int, data@, Seq::empty()),
    {
        proof {
            reveal_strlit("");
            assert(""@ =~= Seq::<char>::empty());
        }
        self.scope.validate_at(self.index, data, "")
    }

    /// Validates `data`, which stands at `path` in its document.
    pub fn validate_in(&self, data: &Value, path: &str) -> (state: ValidationState)
        ensures
            state@ == schema_outcome(self.scope@.schemas, self.index as int, data@, path@),
    {
        self.scope.validate_at(self.index, data, path)
    }
}

} // verus!
