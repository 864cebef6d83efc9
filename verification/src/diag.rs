//! Spans and the recoverable diagnostics of the core.
use vstd::prelude::*;

verus! {

/// A location in an authored source file, carried on diagnostics.
#[derive(Clone, Copy, PartialEq, Eq, Structural, Hash, Debug)]
pub struct Span(pub u64);

/// A value together with the source location it came from.
#[derive(Debug)]
pub struct Spanned<T> {
    pub v: T,
    pub span: Span,
}

/// The recoverable failures the core reports to the calling script context.
/// None of them is process-fatal.
#[derive(PartialEq, Debug)]
pub enum Error {
    /// A type declares no constructor; carries the type's long name.
    ConstructorMissing { ty: String },
    /// A type's scope has no member of the requested name.
    FieldMissing { ty: String, field: String },
    /// A label pattern string ran out before a counter-kind character was found.
    InvalidPattern { pattern: String },
    /// A script value could not be coerced to the expected shape.
    Cast { expected: String, found: String },
    /// A label callback failed; the failure is attributed to the call site.
    LabelCallbackFailure { inner: Box<SourceError>, location: Span },
    /// Laying out one item aborted the enclosing list's layout.
    ItemLayoutFailure { inner: Box<SourceError> },
    /// A failure propagated out of the surrounding engine (evaluation,
    /// cancellation, or the grid primitive).
    Eval { message: String },
}

/// A diagnostic together with the source location it is reported at.
#[derive(PartialEq, Debug)]
pub struct SourceError {
    pub span: Span,
    pub error: Error,
}

/// Mathematical model of an [`Error`].
pub enum ErrorV {
    ConstructorMissing { ty: Seq<char> },
    FieldMissing { ty: Seq<char>, field: Seq<char> },
    InvalidPattern { pattern: Seq<char> },
    Cast { expected: Seq<char>, found: Seq<char> },
    LabelCallbackFailure { inner: Box<SourceErrorV>, location: Span },
    ItemLayoutFailure { inner: Box<SourceErrorV> },
    Eval { message: Seq<char> },
}

/// Mathematical model of a [`SourceError`].
pub struct SourceErrorV {
    pub span: Span,
    pub error: ErrorV,
}

impl View for Error {
    type V = ErrorV;

    open spec fn view(&self) -> ErrorV
        decreases self,
    {
        match self {
            Error::ConstructorMissing { ty } => ErrorV::ConstructorMissing { ty: ty@ },
            Error::FieldMissing { ty, field } => ErrorV::FieldMissing {
                ty: ty@,
                field: field@,
            },
            Error::InvalidPattern { pattern } => ErrorV::InvalidPattern { pattern: pattern@ },
            Error::Cast { expected, found } => ErrorV::Cast {
                expected: expected@,
                found: found@,
            },
            Error::LabelCallbackFailure { inner, location } => ErrorV::LabelCallbackFailure {
                inner: Box::new((**inner)@),
                location: *location,
            },
            Error::ItemLayoutFailure { inner } => ErrorV::ItemLayoutFailure { inner: Box::new((**inner)@) },
            Error::Eval { message } => ErrorV::Eval { message: message@ },
        }
    }
}

impl View for SourceError {
    type V = SourceErrorV;

    open spec fn view(&self) -> SourceErrorV
        decreases self,
    {
        SourceErrorV { span: self.span, error: self.error@ }
    }
}

impl SourceError {
    /// Attach a span to a bare error.
    pub fn at(span: Span, error: Error) -> (r: SourceError)
        ensures
            r.span == span,
            r.error == error,
    {
        SourceError { span, error }
    }
}

} // verus!
