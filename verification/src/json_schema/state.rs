//! The outcome of validation: every violation found, in the order found.

use crate::json_schema::errors::{ErrorRecord, RecordView};
use vstd::prelude::*;

verus! {

/// The content of each record of `records`.
pub open spec fn records_view(records: Seq<ErrorRecord>) -> Seq<RecordView> {
    Seq::new(records.len(), |i: int| records[i]@)
}

/// The violations that validation found. A value is valid when there are
/// none.
#[derive(Debug)]
pub struct ValidationState {
    pub errors: Vec<ErrorRecord>,
}

impl View for ValidationState {
    type V = Seq<RecordView>;

    open spec fn view(&self) -> Seq<RecordView> {
        records_view(self.errors@)
    }
}

impl ValidationState {
    /// The state without violations.
    pub fn new() -> (state: ValidationState)
        ensures
            state@ == Seq::<RecordView>::empty(),
    {
        ValidationState { errors: Vec::new() }
    }

    /// The state with the one violation `record`.
    pub fn error(record: ErrorRecord) -> (state: ValidationState)
        ensures
            state@ == seq![record@],
    {
        let mut errors: Vec<ErrorRecord> = Vec::new();
        errors.push(record);
        ValidationState { errors }
    }

    /// Whether no violation was found.
    pub fn is_valid(&self) -> (valid: bool)
        ensures
            valid == (self@.len() == 0),
    {
        self.errors.len() == 0
    }

    /// Moves the violations of `second` behind those of this state, in
    /// their order.
    pub fn append(&mut self, second: ValidationState)
        ensures
            final(self)@ == old(self)@ + second@,
    {
        let mut rest: Vec<ErrorRecord> = second.errors;
        self.errors.append(&mut rest);
    }
}

/// Merging is associative: how three states are grouped does not change
/// the merged sequence.
pub proof fn law_merge_associative(a: Seq<RecordView>, b: Seq<RecordView>, c: Seq<RecordView>)
    ensures
        (a + b) + c == a + (b + c),
{
}

/// Merging preserves order: every record of the first state stands where
/// it stood, and every record of the second follows all of the first.
pub proof fn law_merge_preserves_order(a: Seq<RecordView>, b: Seq<RecordView>)
    ensures
        (a + b).len() == a.len() + b.len(),
        forall|i: int| 0 <= i < a.len() ==> (a + b)[i] == a[i],
        forall|i: int| 0 <= i < b.len() ==> (a + b)[a.len() + i] == b[i],
{
}

} // verus!
