//! References from one schema to another of the same scope.

use crate::json_schema::keywords::Keyword;
use crate::json_schema::scope::Scope;
use crate::json_schema::state::ValidationState;
use crate::json_schema::validators::{schema_outcome, Constraint};
use crate::value::Value;
use vstd::prelude::*;

verus! {

/// A reference to another schema: the value must satisfy that schema too.
///
/// The schema is named by its position in the scope, which owns it; the
/// position is fixed when the reference is compiled and stays good while
/// the schema it names is still being compiled.
#[derive(Clone, Copy, Debug)]
pub struct Ref {
    pub target: usize,
}

impl Ref {
    /// Validates `val` against the schema that the reference points at.
    /// What that schema reports is reported at the paths at which it
    /// found it, which start where the reference stands.
    pub fn validate<K: Keyword<C>, C: Constraint>(
        &self,
        val: &Value,
        path: &str,
        scope: &Scope<K, C>,
    ) -> (state: ValidationState)
        ensures
            state@ == schema_outcome(scope@.schemas, self.target as int, val@, path@),
    {
        scope.validate_at(self.target, val, path)
    }
}

} // verus!
