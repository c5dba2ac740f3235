//! Diagnostics of the semantic checker.

use vstd::prelude::*;
use crate::span::Span;

verus! {

/// What kind of rule a diagnostic reports as broken.
#[derive(Debug, Clone, Copy, PartialEq, Eq, Structural)]
pub enum AnalyserErrorKind {
    Type,
    Name,
    Argument,
    IllegalDeclaration,
}

impl AnalyserErrorKind {
    /// The tag that opens a rendered diagnostic of this kind.
    pub open spec fn spec_label(self) -> Seq<char> {
        match self {
            AnalyserErrorKind::Type => "[Type Error]"@,
            AnalyserErrorKind::Name => "[Name Error]"@,
            AnalyserErrorKind::Argument => "[Argument Error]"@,
            AnalyserErrorKind::IllegalDeclaration => "[Illegal Declaration]"@,
        }
    }

    pub fn label(&self) -> (text: &'static str)
        ensures
            text@ == self.spec_label(),
    {
        match self {
            AnalyserErrorKind::Type => "[Type Error]",
            AnalyserErrorKind::Name => "[Name Error]",
            AnalyserErrorKind::Argument => "[Argument Error]",
            AnalyserErrorKind::IllegalDeclaration => "[Illegal Declaration]",
        }
    }
}

/// One diagnostic: the kind of the broken rule, a message and the place in the source.
#[derive(Debug, PartialEq, Eq)]
pub struct AnalyserError {
    pub kind: AnalyserErrorKind,
    pub msg: String,
    pub span: Span,
}

/// The mathematical content of a diagnostic.
pub struct AnalyserErrorView {
    pub kind: AnalyserErrorKind,
    pub msg: Seq<char>,
    pub span: Span,
}

impl View for AnalyserError {
    type V = AnalyserErrorView;

    open spec fn view(&self) -> AnalyserErrorView {
        AnalyserErrorView { kind: self.kind, msg: self.msg@, span: self.span }
    }
}

/// The diagnostic of kind `Type` with that message and place.
pub open spec fn type_error_at(msg: Seq<char>, span: Span) -> AnalyserErrorView {
    AnalyserErrorView { kind: AnalyserErrorKind::Type, msg, span }
}

/// The diagnostic of kind `Name` with that message and place.
pub open spec fn name_error_at(msg: Seq<char>, span: Span) -> AnalyserErrorView {
    AnalyserErrorView { kind: AnalyserErrorKind::Name, msg, span }
}

/// The diagnostic of kind `Argument` with that message and place.
pub open spec fn arg_error_at(msg: Seq<char>, span: Span) -> AnalyserErrorView {
    AnalyserErrorView { kind: AnalyserErrorKind::Argument, msg, span }
}

/// The diagnostic of kind `IllegalDeclaration` with that message and place.
pub open spec fn illegal_decl_at(msg: Seq<char>, span: Span) -> AnalyserErrorView {
    AnalyserErrorView { kind: AnalyserErrorKind::IllegalDeclaration, msg, span }
}

impl AnalyserError {
    /// A type diagnostic without a place.
    pub fn type_error(msg: String) -> (error: Self)
        ensures
            error@ == type_error_at(msg@, Span::empty()),
    {
        Self { kind: AnalyserErrorKind::Type, msg, span: Span::default() }
    }

    /// A name diagnostic without a place.
    pub fn name_error(msg: String) -> (error: Self)
        ensures
            error@ == name_error_at(msg@, Span::empty()),
    {
        Self { kind: AnalyserErrorKind::Name, msg, span: Span::default() }
    }

    /// An argument diagnostic without a place.
    pub fn arg_error(msg: String) -> (error: Self)
        ensures
            error@ == arg_error_at(msg@, Span::empty()),
    {
        Self { kind: AnalyserErrorKind::Argument, msg, span: Span::default() }
    }

    /// An illegal-declaration diagnostic without a place.
    pub fn illegal_decl(msg: String) -> (error: Self)
        ensures
            error@ == illegal_decl_at(msg@, Span::empty()),
    {
        Self { kind: AnalyserErrorKind::IllegalDeclaration, msg, span: Span::default() }
    }

    /// The same diagnostic at the given place.
    pub fn at(self, span: Span) -> (error: Self)
        ensures
            error@ == (AnalyserErrorView { kind: self.kind, msg: self.msg@, span }),
    {
        Self { kind: self.kind, msg: self.msg, span }
    }
}

impl Clone for AnalyserError {
    fn clone(&self) -> (res: Self)
        ensures
            res == *self,
    {
        Self { kind: self.kind, msg: self.msg.clone(), span: self.span }
    }
}

pub type AnalyserErrors = Vec<AnalyserError>;

/// The contents of a list of diagnostics, in order.
pub open spec fn errors_view(errors: Seq<AnalyserError>) -> Seq<AnalyserErrorView> {
    errors.map_values(|e: AnalyserError| e@)
}

} // verus!
