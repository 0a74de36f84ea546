//! The error taxonomy of the compiler.
//!
//! Every error is fatal to the run: the first one encountered aborts
//! interpretation and is surfaced to the caller together with its source
//! span (where one is known) and a human-readable message.

use vstd::prelude::*;

verus! {

/// What went wrong.  `Arity` carries the declared parameter count and the
/// count of positional arguments that were supplied.
#[derive(Clone, Copy, PartialEq, Eq, Structural, Debug)]
pub enum ErrorKind {
    /// The script text does not match the grammar.
    Syntax,
    /// An identifier or builtin name is unknown.
    Name,
    /// A value of the wrong variant, or a coercion failure.
    Type,
    /// A missing or forbidden unit on a dimensioned argument.
    Unit,
    /// A required builtin parameter was not supplied.
    Argument,
    /// More positional arguments than declared parameters.
    Arity { expected: usize, actual: usize },
    /// A named argument matching no declared parameter.
    UnknownArgument,
    /// Geometrically or arithmetically invalid parameters.
    Domain,
    /// A value left the machine-representable range.
    Overflow,
}

/// A fatal compilation error: kind, message, the identifier involved
/// (parameter, builtin or variable name) where one exists, and the source
/// span (character offsets) where one is known.
#[derive(Debug)]
pub struct GcadError {
    pub kind: ErrorKind,
    pub msg: String,
    pub ident: Option<String>,
    pub span: Option<(usize, usize)>,
}

impl GcadError {
    /// An error with no span and no identifier.
    pub fn new(kind: ErrorKind, msg: String) -> (r: GcadError)
        ensures
            r.kind == kind,
            r.msg@ == msg@,
            r.ident is None,
            r.span is None,
    {
        GcadError { kind, msg, ident: None, span: None }
    }

    /// An error naming the identifier it is about.
    pub fn named(kind: ErrorKind, msg: String, ident: String) -> (r: GcadError)
        ensures
            r.kind == kind,
            r.msg@ == msg@,
            r.ident matches Some(i) && i@ == ident@,
            r.span is None,
    {
        GcadError { kind, msg, ident: Some(ident), span: None }
    }

    /// Attach a source span, keeping everything else.
    pub fn at(self, lo: usize, hi: usize) -> (r: GcadError)
        ensures
            r.kind == self.kind,
            r.msg@ == self.msg@,
            r.ident == self.ident,
            r.span == Some((lo, hi)),
    {
        GcadError { span: Some((lo, hi)), ..self }
    }

    /// Attach a source span only if none is present yet.
    pub fn at_if_unset(self, lo: usize, hi: usize) -> (r: GcadError)
        ensures
            r.kind == self.kind,
            r.msg@ == self.msg@,
            r.ident == self.ident,
            self.span is Some ==> r.span == self.span,
            self.span is None ==> r.span == Some((lo, hi)),
    {
        if self.span.is_some() {
            self
        } else {
            GcadError { span: Some((lo, hi)), ..self }
        }
    }

    /// The human-readable message.
    pub fn message(&self) -> (r: String)
        ensures
            r@ == self.msg@,
    {
        self.msg.clone()
    }
}

} // verus!
