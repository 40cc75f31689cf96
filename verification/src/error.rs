//! The single error type that every operation of the pipeline reports.
//!
//! A failure carries a kind, which callers can branch on, and a detail text,
//! which is shown to a person. Failures raised by the columnar, engine and
//! file-format crates are folded into the same type, one conversion per
//! source, keeping the text their own `Display` produced.

use datafusion::arrow::error::ArrowError;
use datafusion::error::DataFusionError;
use parquet::errors::ParquetError;
use vstd::prelude::*;
use vstd::string::*;

verus! {

/// `arrow`'s error type, carried through unopened.
#[verifier::external_type_specification]
#[verifier::external_body]
pub struct ExArrowError(ArrowError);

/// `datafusion`'s error type, carried through unopened.
#[verifier::external_type_specification]
#[verifier::external_body]
pub struct ExDataFusionError(DataFusionError);

/// `parquet`'s error type, carried through unopened.
#[verifier::external_type_specification]
#[verifier::external_body]
pub struct ExParquetError(ParquetError);

/// What went wrong, without the text.
#[derive(Clone, Copy, Debug, PartialEq, Eq, Structural)]
pub enum ErrorKind {
    /// A batch and a schema, or two schemas, disagree in shape.
    SchemaMismatch,
    /// A referenced column is not in the schema.
    ColumnNotFound,
    /// A referenced column name occurs more than once in the schema.
    AmbiguousColumn,
    /// A path does not exist.
    NotFound,
    /// The file system refused a read or a write.
    IOError,
    /// A file is not a readable columnar file.
    DecodeError,
    /// The query engine rejected a plan.
    EngineError,
    /// An operation was used outside the state it is valid in.
    InvalidState,
    /// The asynchronous task ended abnormally.
    InternalFault,
}

/// The host-side exception family a failure is reported as.
#[derive(Clone, Copy, Debug, PartialEq, Eq, Structural)]
pub enum ExceptionClass {
    /// Input/output failures.
    Io,
    /// Everything else.
    Value,
}

/// A failure of the pipeline: one variant per kind, each with its detail text.
#[derive(Debug)]
pub enum Error {
    /// A batch and a schema, or two schemas, disagree in shape.
    SchemaMismatch(String),
    /// A referenced column is not in the schema; the detail is its name.
    ColumnNotFound(String),
    /// A referenced column name occurs more than once in the schema; the
    /// detail is the name.
    AmbiguousColumn(String),
    /// A path does not exist.
    NotFound(String),
    /// The file system or the file writer refused a read or a write.
    IOError(String),
    /// A file is not a readable columnar file.
    DecodeError(String),
    /// The query engine rejected a plan.
    EngineError(String),
    /// An operation was used outside the state it is valid in.
    InvalidState(String),
    /// The asynchronous task ended abnormally.
    InternalFault(String),
}

/// The words that open the rendering of a failure of the given kind.
pub open spec fn kind_label(kind: ErrorKind) -> Seq<char> {
    match kind {
        ErrorKind::SchemaMismatch => "schema mismatch"@,
        ErrorKind::ColumnNotFound => "column not found"@,
        ErrorKind::AmbiguousColumn => "ambiguous column"@,
        ErrorKind::NotFound => "not found"@,
        ErrorKind::IOError => "io error"@,
        ErrorKind::DecodeError => "decode error"@,
        ErrorKind::EngineError => "engine error"@,
        ErrorKind::InvalidState => "invalid state"@,
        ErrorKind::InternalFault => "internal fault"@,
    }
}

/// The exception family of a kind: the two file-system kinds are I/O
/// failures, all others are value failures.
pub open spec fn class_of(kind: ErrorKind) -> ExceptionClass {
    if kind == ErrorKind::IOError || kind == ErrorKind::NotFound {
        ExceptionClass::Io
    } else {
        ExceptionClass::Value
    }
}

impl Error {
    /// The kind of this failure.
    pub open spec fn spec_kind(&self) -> ErrorKind {
        match self {
            Error::SchemaMismatch(_) => ErrorKind::SchemaMismatch,
            Error::ColumnNotFound(_) => ErrorKind::ColumnNotFound,
            Error::AmbiguousColumn(_) => ErrorKind::AmbiguousColumn,
            Error::NotFound(_) => ErrorKind::NotFound,
            Error::IOError(_) => ErrorKind::IOError,
            Error::DecodeError(_) => ErrorKind::DecodeError,
            Error::EngineError(_) => ErrorKind::EngineError,
            Error::InvalidState(_) => ErrorKind::InvalidState,
            Error::InternalFault(_) => ErrorKind::InternalFault,
        }
    }

    /// The detail text of this failure.
    pub open spec fn spec_detail(&self) -> Seq<char> {
        match self {
            Error::SchemaMismatch(d) => d@,
            Error::ColumnNotFound(d) => d@,
            Error::AmbiguousColumn(d) => d@,
            Error::NotFound(d) => d@,
            Error::IOError(d) => d@,
            Error::DecodeError(d) => d@,
            Error::EngineError(d) => d@,
            Error::InvalidState(d) => d@,
            Error::InternalFault(d) => d@,
        }
    }

    /// The rendering of this failure: label, a colon, and the detail between
    /// backticks.
    pub open spec fn spec_message(&self) -> Seq<char> {
        kind_label(self.spec_kind()) + ": `"@ + self.spec_detail() + "`"@
    }

    /// Builds the failure of the given kind with the given detail.
    pub fn new(kind: ErrorKind, detail: String) -> (e: Error)
        ensures
            e.spec_kind() == kind,
            e.spec_detail() == detail@,
    {
        match kind {
            ErrorKind::SchemaMismatch => Error::SchemaMismatch(detail),
            ErrorKind::ColumnNotFound => Error::ColumnNotFound(detail),
            ErrorKind::AmbiguousColumn => Error::AmbiguousColumn(detail),
            ErrorKind::NotFound => Error::NotFound(detail),
            ErrorKind::IOError => Error::IOError(detail),
            ErrorKind::DecodeError => Error::DecodeError(detail),
            ErrorKind::EngineError => Error::EngineError(detail),
            ErrorKind::InvalidState => Error::InvalidState(detail),
            ErrorKind::InternalFault => Error::InternalFault(detail),
        }
    }

    /// The kind of this failure, for callers that branch on it.
    pub fn kind(&self) -> (k: ErrorKind)
        ensures
            k == self.spec_kind(),
    {
        match self {
            Error::SchemaMismatch(_) => ErrorKind::SchemaMismatch,
            Error::ColumnNotFound(_) => ErrorKind::ColumnNotFound,
            Error::AmbiguousColumn(_) => ErrorKind::AmbiguousColumn,
            Error::NotFound(_) => ErrorKind::NotFound,
            Error::IOError(_) => ErrorKind::IOError,
            Error::DecodeError(_) => ErrorKind::DecodeError,
            Error::EngineError(_) => ErrorKind::EngineError,
            Error::InvalidState(_) => ErrorKind::InvalidState,
            Error::InternalFault(_) => ErrorKind::InternalFault,
        }
    }

    /// The detail text of this failure.
    pub fn detail(&self) -> (d: &String)
        ensures
            d@ == self.spec_detail(),
    {
        match self {
            Error::SchemaMismatch(d) => d,
            Error::ColumnNotFound(d) => d,
            Error::AmbiguousColumn(d) => d,
            Error::NotFound(d) => d,
            Error::IOError(d) => d,
            Error::DecodeError(d) => d,
            Error::EngineError(d) => d,
            Error::InvalidState(d) => d,
            Error::InternalFault(d) => d,
        }
    }

    /// Renders this failure as one line of text.
    pub fn message(&self) -> (text: String)
        ensures
            text@ == self.spec_message(),
    {
        let label = match self.kind() {
            ErrorKind::SchemaMismatch => "schema mismatch",
            ErrorKind::ColumnNotFound => "column not found",
            ErrorKind::AmbiguousColumn => "ambiguous column",
            ErrorKind::NotFound => "not found",
            ErrorKind::IOError => "io error",
            ErrorKind::DecodeError => "decode error",
            ErrorKind::EngineError => "engine error",
            ErrorKind::InvalidState => "invalid state",
            ErrorKind::InternalFault => "internal fault",
        };
        let mut text = String::from_str(label);
        text.append(": `");
        text.append(self.detail().as_str());
        text.append("`");
        text
    }

    /// The exception family under which the host reports this failure.
    pub fn exception_class(&self) -> (class: ExceptionClass)
        ensures
            class == class_of(self.spec_kind()),
    {
        match self {
            Error::IOError(_) => ExceptionClass::Io,
            Error::NotFound(_) => ExceptionClass::Io,
            _ => ExceptionClass::Value,
        }
    }

    /// A copy of this failure.
    pub fn duplicate(&self) -> (e: Error)
        ensures
            e == *self,
    {
        match self {
            Error::SchemaMismatch(d) => Error::SchemaMismatch(d.clone()),
            Error::ColumnNotFound(d) => Error::ColumnNotFound(d.clone()),
            Error::AmbiguousColumn(d) => Error::AmbiguousColumn(d.clone()),
            Error::NotFound(d) => Error::NotFound(d.clone()),
            Error::IOError(d) => Error::IOError(d.clone()),
            Error::DecodeError(d) => Error::DecodeError(d.clone()),
            Error::EngineError(d) => Error::EngineError(d.clone()),
            Error::InvalidState(d) => Error::InvalidState(d.clone()),
            Error::InternalFault(d) => Error::InternalFault(d.clone()),
        }
    }

    /// A failure of the columnar crate while a batch is assembled: a shape
    /// disagreement, with the crate's own text.
    pub fn from_arrow(source: &ArrowError) -> (e: Error)
        ensures
            e matches Error::SchemaMismatch(d) && to_string_from_display_ensures(source, d),
    {
        Error::SchemaMismatch(source.to_string())
    }

    /// A plan that the query engine rejected, with the engine's own text.
    pub fn from_engine(source: &DataFusionError) -> (e: Error)
        ensures
            e matches Error::EngineError(d) && to_string_from_display_ensures(source, d),
    {
        Error::EngineError(source.to_string())
    }

    /// A failure of the file-format writer, with the writer's own text.
    pub fn from_writer(source: &ParquetError) -> (e: Error)
        ensures
            e matches Error::IOError(d) && to_string_from_display_ensures(source, d),
    {
        Error::IOError(source.to_string())
    }

    /// A file that the file-format reader could not make sense of, with the
    /// reader's own text.
    pub fn from_reader(source: &ParquetError) -> (e: Error)
        ensures
            e matches Error::DecodeError(d) && to_string_from_display_ensures(source, d),
    {
        Error::DecodeError(source.to_string())
    }

    /// A failure of the file system: `NotFound` where the path was absent,
    /// `IOError` otherwise.
    pub fn from_io(path_absent: bool, detail: String) -> (e: Error)
        ensures
            e.spec_detail() == detail@,
            e.spec_kind() == if path_absent {
                ErrorKind::NotFound
            } else {
                ErrorKind::IOError
            },
    {
        if path_absent {
            Error::NotFound(detail)
        } else {
            Error::IOError(detail)
        }
    }
}

} // verus!
