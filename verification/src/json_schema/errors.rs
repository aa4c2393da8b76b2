//! The two families of errors: those of a schema document, found while it is
//! compiled, and those of a value, found while it is validated.

use vstd::prelude::*;

verus! {

/// What an error record reports.
#[derive(Clone, Copy, Debug, PartialEq, Eq, Structural)]
pub enum ErrorKind {
    /// The schema document itself is ill-formed. Only [`SchemaError`] is of
    /// this kind; no validator reports it.
    Malformed,
    /// A string is not of the format that the schema names.
    Format,
    /// A number lies beyond a bound of the schema.
    Range,
    /// A value is not of the type that the schema asks for. No validator
    /// of the library reports this; it is for constraints of the caller.
    Type,
    /// A member that the schema asks for is missing. No validator of the
    /// library reports this; it is for constraints of the caller.
    Required,
}

/// The content of an [`ErrorRecord`].
pub struct RecordView {
    pub kind: ErrorKind,
    pub path: Seq<char>,
    pub detail: Seq<char>,
}

/// One violation that validation found: what kind it is, where in the
/// validated document the offending value stands, and a description.
#[derive(Debug)]
pub struct ErrorRecord {
    pub kind: ErrorKind,
    pub path: String,
    pub detail: String,
}

impl View for ErrorRecord {
    type V = RecordView;

    open spec fn view(&self) -> RecordView {
        RecordView { kind: self.kind, path: self.path@, detail: self.detail@ }
    }
}

/// The content of a [`SchemaError`].
pub enum SchemaErrorView {
    Malformed { path: Seq<char>, detail: Seq<char> },
}

/// Why a schema document could not be compiled.
#[derive(Debug)]
pub enum SchemaError {
    /// The document is ill-formed at `path`, the `/`-joined location of the
    /// schema in its document.
    Malformed { path: String, detail: String },
}

impl View for SchemaError {
    type V = SchemaErrorView;

    open spec fn view(&self) -> SchemaErrorView {
        match self {
            SchemaError::Malformed { path, detail } => SchemaErrorView::Malformed {
                path: path@,
                detail: detail@,
            },
        }
    }
}

impl SchemaError {
    /// The error in the shape of a record, for consumers that report both
    /// families alike.
    pub fn record(&self) -> (record: ErrorRecord)
        ensures
            record@.kind == ErrorKind::Malformed,
            self@ == (SchemaErrorView::Malformed {
                path: record@.path,
                detail: record@.detail,
            }),
    {
        match self {
            SchemaError::Malformed { path, detail } => ErrorRecord {
                kind: ErrorKind::Malformed,
                path: path.clone(),
                detail: detail.clone(),
            },
        }
    }
}

} // verus!
