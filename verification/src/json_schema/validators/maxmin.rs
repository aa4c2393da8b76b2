//! Numeric bounds. A bound governs numbers only: any other value is
//! outside its jurisdiction and passes.

use crate::json_schema::errors::{ErrorKind, ErrorRecord, RecordView};
use crate::json_schema::keywords::Keyword;
use crate::json_schema::scope::Scope;
use crate::json_schema::state::ValidationState;
use crate::json_schema::validators::Constraint;
use crate::number::Number;
use crate::value::{Json, Value};
use vstd::prelude::*;

verus! {

/// Whether `value` respects the bound `threshold`. An upper bound admits
/// what lies below it, a lower bound what lies above it; the threshold
/// itself is admitted unless the bound is exclusive.
pub open spec fn within_bound(upper: bool, threshold: int, exclusive: bool, value: int) -> bool {
    if upper {
        if exclusive {
            value < threshold
        } else {
            value <= threshold
        }
    } else {
        if exclusive {
            value > threshold
        } else {
            value >= threshold
        }
    }
}

/// The description that a violated bound reports.
pub open spec fn bound_detail(upper: bool) -> Seq<char> {
    if upper {
        "Maximum condition is not met"@
    } else {
        "Minimum condition is not met"@
    }
}

/// What a bound reports of `value` at `path`: nothing for a value that is
/// not a number or that respects the bound, else one record of kind
/// [`ErrorKind::Range`].
pub open spec fn bound_outcome(
    upper: bool,
    threshold: int,
    exclusive: bool,
    value: Json,
    path: Seq<char>,
) -> Seq<RecordView> {
    match value {
        Json::Number(number) => if within_bound(upper, threshold, exclusive, number) {
            Seq::empty()
        } else {
            seq![RecordView { kind: ErrorKind::Range, path, detail: bound_detail(upper) }]
        },
        _ => Seq::empty(),
    }
}

/// Checks `val` against a bound; the one check behind both [`Maximum`]
/// and [`Minimum`].
pub fn check_bound(
    upper: bool,
    threshold: &Number,
    exclusive: bool,
    val: &Value,
    path: &str,
) -> (state: ValidationState)
    ensures
        state@ == bound_outcome(upper, threshold@, exclusive, val@, path@),
{
    let number: Number = match val.as_number() {
        Some(number) => number,
        None => {
            return ValidationState::new();
        },
    };
    let valid: bool = if upper {
        if exclusive {
            number.lt(threshold)
        } else {
            number.le(threshold)
        }
    } else {
        if exclusive {
            threshold.lt(&number)
        } else {
            threshold.le(&number)
        }
    };
    if valid {
        ValidationState::new()
    } else {
        let detail: String = if upper {
            "Maximum condition is not met".to_owned()
        } else {
            "Minimum condition is not met".to_owned()
        };
        ValidationState::error(
            ErrorRecord { kind: ErrorKind::Range, path: path.to_owned(), detail },
        )
    }
}

/// An upper bound on numbers.
#[derive(Clone, Copy, Debug)]
pub struct Maximum {
    pub number: Number,
    pub exclusive: bool,
}

/// A lower bound on numbers.
#[derive(Clone, Copy, Debug)]
pub struct Minimum {
    pub number: Number,
    pub exclusive: bool,
}

impl Maximum {
    /// Checks that `val`, if it is a number, does not exceed the bound.
    pub fn validate<K: Keyword<C>, C: Constraint>(
        &self,
        val: &Value,
        path: &str,
        _scope: &Scope<K, C>,
    ) -> (state: ValidationState)
        ensures
            state@ == bound_outcome(true, self.number@, self.exclusive, val@, path@),
    {
        check_bound(true, &self.number, self.exclusive, val, path)
    }
}

impl Minimum {
    /// Checks that `val`, if it is a number, does not fall below the bound.
    pub fn validate<K: Keyword<C>, C: Constraint>(
        &self,
        val: &Value,
        path: &str,
        _scope: &Scope<K, C>,
    ) -> (state: ValidationState)
        ensures
            state@ == bound_outcome(false, self.number@, self.exclusive, val@, path@),
    {
        check_bound(false, &self.number, self.exclusive, val, path)
    }
}

/// A bound that is not exclusive admits its own threshold, and reports
/// exactly one record, of kind [`ErrorKind::Range`], of every number that
/// lies strictly beyond it.
pub proof fn law_inclusive_bound(upper: bool, threshold: int, value: int, path: Seq<char>)
    ensures
        bound_outcome(upper, threshold, false, Json::Number(threshold), path).len() == 0,
        (if upper {
            value > threshold
        } else {
            value < threshold
        }) ==> {
            let records = bound_outcome(upper, threshold, false, Json::Number(value), path);
            &&& records.len() == 1
            &&& records[0].kind == ErrorKind::Range
            &&& records[0].path == path
        },
{
}

/// An exclusive bound reports exactly one record of its own threshold, and
/// the threshold is all that exclusivity takes away: every other value
/// gets the same outcome from the exclusive bound as from the inclusive one.
pub proof fn law_exclusive_bound(upper: bool, threshold: int, value: Json, path: Seq<char>)
    ensures
        bound_outcome(upper, threshold, true, Json::Number(threshold), path).len() == 1,
        bound_outcome(upper, threshold, false, Json::Number(threshold), path).len() == 0,
        value != Json::Number(threshold) ==> bound_outcome(upper, threshold, true, value, path)
            == bound_outcome(upper, threshold, false, value, path),
{
}

/// A bound passes every value that is not a number.
pub proof fn law_bound_jurisdiction(
    upper: bool,
    threshold: int,
    exclusive: bool,
    value: Json,
    path: Seq<char>,
)
    requires
        !(value is Number),
    ensures
        bound_outcome(upper, threshold, exclusive, value, path).len() == 0,
{
}

} // verus!
