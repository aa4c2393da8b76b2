//! The validators: the runtime checks that compiled schemas are made of.

pub mod address;
pub mod formats;
pub mod maxmin;
pub mod ref_;

use crate::json_schema::errors::RecordView;
use crate::json_schema::keywords::Keyword;
use crate::json_schema::scope::Scope;
use crate::json_schema::state::ValidationState;
use crate::json_schema::validators::formats::{
    format_outcome, ipv4_failure, ipv6_failure, uri_failure, uuid_failure, Ipv4, Ipv6, Uri, Uuid,
};
use crate::json_schema::validators::maxmin::{bound_outcome, Maximum, Minimum};
use crate::json_schema::validators::ref_::Ref;
use crate::text::texts;
use crate::value::{Json, Value};
use vstd::prelude::*;

verus! {

/// A validator of the caller's own: a kind of constraint that the library
/// does not have. It is applied to a value and to the path at which the
/// value stands, and reports what it finds as the library's validators do.
pub trait Constraint {
    /// What the constraint reports of `value` at `path`.
    spec fn outcome(&self, value: Json, path: Seq<char>) -> Seq<RecordView>;

    /// Checks `val`, which stands at `path` in its document.
    fn validate(&self, val: &Value, path: &str) -> (state: ValidationState)
        ensures
            state@ == self.outcome(val@, path@),
    ;
}

/// The constraint of a scope whose caller adds no kind of its own. It
/// reports nothing.
#[derive(Clone, Copy, Debug, PartialEq, Eq)]
pub struct NoCustom;

impl Constraint for NoCustom {
    open spec fn outcome(&self, value: Json, path: Seq<char>) -> Seq<RecordView> {
        Seq::empty()
    }

    fn validate(&self, _val: &Value, _path: &str) -> (state: ValidationState) {
        ValidationState::new()
    }
}

/// The content of a [`Validator`]: its kind and the parameters that were
/// fixed when it was compiled.
pub enum ValidatorView<C> {
    Maximum { threshold: int, exclusive: bool },
    Minimum { threshold: int, exclusive: bool },
    Ipv4 { fragment: Seq<Seq<char>> },
    Ipv6 { fragment: Seq<Seq<char>> },
    Uuid { fragment: Seq<Seq<char>> },
    Uri { fragment: Seq<Seq<char>> },
    /// A reference to the schema at position `target` of the scope.
    Ref { target: nat },
    /// A constraint of the caller's own kind.
    Custom { constraint: C },
}

impl<C> ValidatorView<C> {
    /// Whether the validator can stand in a scope of `size` schemas: a
    /// reference must point at one of them.
    pub open spec fn fits(self, size: nat) -> bool {
        self matches ValidatorView::Ref { target } ==> target < size
    }
}

/// One compiled constraint of a schema: one of the kinds that the library
/// has, or one of the caller's own kind `C`.
#[derive(Debug)]
pub enum Validator<C> {
    Maximum(Maximum),
    Minimum(Minimum),
    Ipv4(Ipv4),
    Ipv6(Ipv6),
    Uuid(Uuid),
    Uri(Uri),
    Ref(Ref),
    Custom(C),
}

impl<C> View for Validator<C> {
    type V = ValidatorView<C>;

    open spec fn view(&self) -> ValidatorView<C> {
        match self {
            Validator::Maximum(v) => ValidatorView::Maximum {
                threshold: v.number@,
                exclusive: v.exclusive,
            },
            Validator::Minimum(v) => ValidatorView::Minimum {
                threshold: v.number@,
                exclusive: v.exclusive,
            },
            Validator::Ipv4(v) => ValidatorView::Ipv4 { fragment: texts(v.fragment@) },
            Validator::Ipv6(v) => ValidatorView::Ipv6 { fragment: texts(v.fragment@) },
            Validator::Uuid(v) => ValidatorView::Uuid { fragment: texts(v.fragment@) },
            Validator::Uri(v) => ValidatorView::Uri { fragment: texts(v.fragment@) },
            Validator::Ref(v) => ValidatorView::Ref { target: v.target as nat },
            Validator::Custom(v) => ValidatorView::Custom { constraint: *v },
        }
    }
}

/// The content of each validator of `validators`.
pub open spec fn validators_view<C>(validators: Seq<Validator<C>>) -> Seq<ValidatorView<C>> {
    Seq::new(validators.len(), |i: int| validators[i]@)
}

/// What a validator reports of `value` at `path` by itself, without
/// following references: a reference reports nothing here.
pub open spec fn leaf_outcome<C: Constraint>(
    validator: ValidatorView<C>,
    value: Json,
    path: Seq<char>,
) -> Seq<RecordView> {
    match validator {
        ValidatorView::Maximum { threshold, exclusive } => bound_outcome(
            true,
            threshold,
            exclusive,
            value,
            path,
        ),
        ValidatorView::Minimum { threshold, exclusive } => bound_outcome(
            false,
            threshold,
            exclusive,
            value,
            path,
        ),
        ValidatorView::Ipv4 { .. } => format_outcome(
            |text: Seq<char>| ipv4_failure(text),
            value,
            path,
        ),
        ValidatorView::Ipv6 { .. } => format_outcome(
            |text: Seq<char>| ipv6_failure(text),
            value,
            path,
        ),
        ValidatorView::Uuid { .. } => format_outcome(
            |text: Seq<char>| uuid_failure(text),
            value,
            path,
        ),
        ValidatorView::Uri { .. } => format_outcome(
            |text: Seq<char>| uri_failure(text),
            value,
            path,
        ),
        ValidatorView::Ref { .. } => Seq::empty(),
        ValidatorView::Custom { constraint } => constraint.outcome(value, path),
    }
}

/// How many schemas are not marked as being applied.
pub open spec fn idle_count(marks: Seq<bool>) -> nat
    decreases marks.len(),
{
    if marks.len() == 0 {
        0
    } else {
        idle_count(marks.drop_last()) + if marks.last() {
            0nat
        } else {
            1nat
        }
    }
}

/// Marking an idle schema leaves one idle schema fewer.
pub proof fn lemma_mark_decreases(marks: Seq<bool>, target: int)
    requires
        0 <= target < marks.len(),
        !marks[target],
    ensures
        idle_count(marks.update(target, true)) + 1 == idle_count(marks),
    decreases marks.len(),
{
    let marked = marks.update(target, true);
    if target == marks.len() - 1 {
        assert(marked.drop_last() =~= marks.drop_last());
    } else {
        assert(marked.drop_last() =~= marks.drop_last().update(target, true));
        lemma_mark_decreases(marks.drop_last(), target);
    }
}

/// What the first `upto` validators of the schema at `index` report of
/// `value` at `path`, one after the other, while the schemas marked in
/// `marks` are being applied to this same value.
///
/// A reference reports what the whole schema it points at reports, with
/// that schema marked; a reference to a schema that is already marked
/// reports nothing, which is what ends a cycle of references.
pub open spec fn outcome_upto<C: Constraint>(
    schemas: Seq<Seq<ValidatorView<C>>>,
    index: int,
    upto: int,
    value: Json,
    path: Seq<char>,
    marks: Seq<bool>,
) -> Seq<RecordView>
    decreases idle_count(marks), upto,
{
    if !(0 <= index < schemas.len()) || upto <= 0 || upto > schemas[index].len() {
        Seq::empty()
    } else {
        let earlier = outcome_upto(schemas, index, upto - 1, value, path, marks);
        let validator = schemas[index][upto - 1];
        let this = match validator {
            ValidatorView::Ref { target } => if target < schemas.len() && target < marks.len()
                && !marks[target as int] {
                proof {
                    lemma_mark_decreases(marks, target as int);
                }
                outcome_upto(
                    schemas,
                    target as int,
                    schemas[target as int].len() as int,
                    value,
                    path,
                    marks.update(target as int, true),
                )
            } else {
                Seq::empty()
            },
            _ => leaf_outcome(validator, value, path),
        };
        earlier + this
    }
}

/// No schema marked, among `size` schemas.
pub open spec fn no_marks(size: nat) -> Seq<bool> {
    Seq::new(size, |i: int| false)
}

/// What the schema at `index` reports of `value` at `path`.
pub open spec fn schema_outcome<C: Constraint>(
    schemas: Seq<Seq<ValidatorView<C>>>,
    index: int,
    value: Json,
    path: Seq<char>,
) -> Seq<RecordView> {
    if 0 <= index < schemas.len() {
        outcome_upto(
            schemas,
            index,
            schemas[index].len() as int,
            value,
            path,
            no_marks(schemas.len()).update(index, true),
        )
    } else {
        Seq::empty()
    }
}

/// What a validator reports of `value` at `path` within the schemas of
/// its scope: a reference reports what the schema it points at reports.
pub open spec fn validator_outcome<C: Constraint>(
    schemas: Seq<Seq<ValidatorView<C>>>,
    validator: ValidatorView<C>,
    value: Json,
    path: Seq<char>,
) -> Seq<RecordView> {
    match validator {
        ValidatorView::Ref { target } => schema_outcome(schemas, target as int, value, path),
        _ => leaf_outcome(validator, value, path),
    }
}

impl<C: Constraint> Validator<C> {
    /// Applies the validator to `val` by itself, without following
    /// references: a reference reports nothing here.
    pub fn check<K: Keyword<C>>(&self, val: &Value, path: &str, scope: &Scope<K, C>) -> (state:
        ValidationState)
        ensures
            state@ == leaf_outcome(self@, val@, path@),
    {
        match self {
            Validator::Maximum(v) => v.validate(val, path, scope),
            Validator::Minimum(v) => v.validate(val, path, scope),
            Validator::Ipv4(v) => v.validate(val, path, scope),
            Validator::Ipv6(v) => v.validate(val, path, scope),
            Validator::Uuid(v) => v.validate(val, path, scope),
            Validator::Uri(v) => v.validate(val, path, scope),
            Validator::Ref(_) => ValidationState::new(),
            Validator::Custom(v) => v.validate(val, path),
        }
    }

    /// Applies the validator to `val`, which stands at `path` in its
    /// document; `scope` is the scope that owns the validator's schema.
    pub fn validate<K: Keyword<C>>(&self, val: &Value, path: &str, scope: &Scope<K, C>) -> (state:
        ValidationState)
        ensures
            state@ == validator_outcome(scope@.schemas, self@, val@, path@),
    {
        match self {
            Validator::Ref(v) => v.validate(val, path, scope),
            _ => self.check(val, path, scope),
        }
    }
}

} // verus!
