//! Diagnostics of the semantic checks: warnings and errors, each pointing
//! at spans of the source, and what a report of each one says.
use crate::span::Span;
use vstd::prelude::*;

verus! {

#[derive(Debug, PartialEq, Eq, Clone, Copy)]
pub enum SemanticWarning {
    // LocalResolver
    UnusedEntity(Span),
}

#[derive(Debug, PartialEq, Eq, Clone, Copy)]
pub enum SemanticError {
    // LocalResolver
    DuplicatedDef(Span, Span),
    UnresolvedRef(Span),
    // TypeResolver
    DuplicatedType(Span, Span),
    UnresolvedType(Span),
    // TypeTable::semantic_check
    RecursiveTypeDef(Span, Span),
    // DereferenceChecker
    NotConstant(Span),
    NotCallable(Span),
}

/// Warnings and errors, each in the order they were found.
#[derive(Debug, PartialEq, Clone)]
pub struct Diagnostics<W, E> {
    pub warnings: Vec<W>,
    pub errors: Vec<E>,
}

pub type SemanticDiag = Diagnostics<SemanticWarning, SemanticError>;

impl<W, E> Diagnostics<W, E> {
    pub fn new() -> (r: Self)
        ensures
            r.warnings@ == Seq::<W>::empty(),
            r.errors@ == Seq::<E>::empty(),
    {
        Diagnostics { warnings: Vec::new(), errors: Vec::new() }
    }

    /// Whether there is an error; warnings do not count.
    pub fn has_err(&self) -> (r: bool)
        ensures
            r == (self.errors@.len() > 0),
    {
        self.errors.len() != 0
    }

    pub fn push_warn(&mut self, warn: W)
        ensures
            final(self).warnings@ == old(self).warnings@.push(warn),
            final(self).errors@ == old(self).errors@,
    {
        self.warnings.push(warn);
    }

    pub fn push_err(&mut self, err: E)
        ensures
            final(self).errors@ == old(self).errors@.push(err),
            final(self).warnings@ == old(self).warnings@,
    {
        self.errors.push(err);
    }

    /// How many diagnostics count: the errors; warnings are ignored.
    pub fn count(&self) -> (r: usize)
        ensures
            r == self.errors@.len(),
    {
        self.errors.len()
    }
}

/// The color a label of a report is drawn in.
#[derive(Debug, PartialEq, Eq, Clone, Copy)]
pub enum LabelColor {
    Default,
    Blue,
    Red,
    Yellow,
    Green,
}

/// Whether a report is an error or a warning.
#[derive(Debug, PartialEq, Eq, Clone, Copy)]
pub enum ReportKind {
    Error,
    Warning,
}

/// A label of a report: a span, an optional message, and a color.
pub struct Label {
    pub span: Span,
    pub message: Option<String>,
    pub color: LabelColor,
}

/// A note of a report, with its color.
pub struct Note {
    pub text: String,
    pub color: LabelColor,
}

/// What a report of a diagnostic says: its kind, the span it is reported
/// at, its message, its labels and its notes.
pub struct Report {
    pub kind: ReportKind,
    pub span: Span,
    pub message: String,
    pub labels: Vec<Label>,
    pub notes: Vec<Note>,
}

pub open spec fn label_v(l: Label) -> (Span, Option<Seq<char>>, LabelColor) {
    (l.span, match l.message {
        Some(m) => Some(m@),
        None => None,
    }, l.color)
}

fn label(span: Span, message: &str, color: LabelColor) -> (r: Label)
    ensures
        label_v(r) == (span, Some(message@), color),
{
    Label { span, message: Some(String::from_str(message)), color }
}

fn report(kind: ReportKind, span: Span, message: &str, labels: Vec<Label>) -> (r: Report)
    ensures
        r.kind == kind,
        r.span == span,
        r.message@ == message@,
        r.labels == labels,
        r.notes@.len() == 0,
{
    Report { kind, span, message: String::from_str(message), labels, notes: Vec::new() }
}

impl SemanticWarning {
    /// The report of the warning.
    pub fn report(&self) -> (r: Report)
        ensures
            match *self {
                SemanticWarning::UnusedEntity(span) => {
                    &&& r.kind == ReportKind::Warning
                    &&& r.span == span
                    &&& r.message@ == "Unused entity"@
                    &&& r.labels@.len() == 1
                    &&& label_v(r.labels@[0]) == (span, None::<Seq<char>>, LabelColor::Yellow)
                    &&& r.notes@.len() == 0
                },
            },
    {
        match *self {
            SemanticWarning::UnusedEntity(span) => {
                let mut labels = Vec::new();
                labels.push(Label { span, message: None, color: LabelColor::Yellow });
                report(ReportKind::Warning, span, "Unused entity", labels)
            },
        }
    }
}

/// A report whose labels mark a previous definition and a redefinition.
fn redefinition(pre_span: Span, span: Span, message: &str) -> (r: Report)
    ensures
        r.kind == ReportKind::Error,
        r.span == span,
        r.message@ == message@,
        r.labels@.len() == 2,
        label_v(r.labels@[0]) == (pre_span, Some("previous definition"@), LabelColor::Blue),
        label_v(r.labels@[1]) == (span, Some("redefined here"@), LabelColor::Red),
        r.notes@.len() == 0,
{
    let mut labels = Vec::new();
    labels.push(label(pre_span, "previous definition", LabelColor::Blue));
    labels.push(label(span, "redefined here", LabelColor::Red));
    report(ReportKind::Error, span, message, labels)
}

/// A report with one red label.
fn single(span: Span, message: &str, label_message: &str) -> (r: Report)
    ensures
        r.kind == ReportKind::Error,
        r.span == span,
        r.message@ == message@,
        r.labels@.len() == 1,
        label_v(r.labels@[0]) == (span, Some(label_message@), LabelColor::Red),
        r.notes@.len() == 0,
{
    let mut labels = Vec::new();
    labels.push(label(span, label_message, LabelColor::Red));
    report(ReportKind::Error, span, message, labels)
}

impl SemanticError {
    /// The span the error is reported at.
    pub open spec fn main_span(self) -> Span {
        match self {
            SemanticError::DuplicatedDef(_, s) => s,
            SemanticError::UnresolvedRef(s) => s,
            SemanticError::DuplicatedType(_, s) => s,
            SemanticError::UnresolvedType(s) => s,
            SemanticError::RecursiveTypeDef(_, s) => s,
            SemanticError::NotConstant(s) => s,
            SemanticError::NotCallable(s) => s,
        }
    }

    /// The message of the error's report.
    pub open spec fn message(self) -> Seq<char> {
        match self {
            SemanticError::DuplicatedDef(..) => "Duplicated definition"@,
            SemanticError::UnresolvedRef(..) => "Unresolved reference"@,
            SemanticError::DuplicatedType(..) => "Duplicated type"@,
            SemanticError::UnresolvedType(..) => "Unresolved type"@,
            SemanticError::RecursiveTypeDef(..) => "Recursive type definition"@,
            SemanticError::NotConstant(..) => "Not a constant"@,
            SemanticError::NotCallable(..) => "Not callable"@,
        }
    }

    /// The report of the error: errors about two definitions label the
    /// previous one in blue and the new one in red; the others label their
    /// span in red; `NotConstant` adds a note.
    pub fn report(&self) -> (r: Report)
        ensures
            r.kind == ReportKind::Error,
            r.span == self.main_span(),
            r.message@ == self.message(),
            match *self {
                SemanticError::DuplicatedDef(pre, span) | SemanticError::DuplicatedType(pre, span)
                | SemanticError::RecursiveTypeDef(pre, span) => {
                    &&& r.labels@.len() == 2
                    &&& label_v(r.labels@[0]) == (pre, Some("previous definition"@), LabelColor::Blue)
                    &&& label_v(r.labels@[1]) == (span, Some("redefined here"@), LabelColor::Red)
                    &&& r.notes@.len() == 0
                },
                SemanticError::UnresolvedRef(span) | SemanticError::UnresolvedType(span) => {
                    &&& r.labels@.len() == 1
                    &&& label_v(r.labels@[0]) == (span, Some("undefined ident"@), LabelColor::Red)
                    &&& r.notes@.len() == 0
                },
                SemanticError::NotConstant(span) => {
                    &&& r.labels@.len() == 1
                    &&& label_v(r.labels@[0]) == (span, Some("this is not a constant"@), LabelColor::Red)
                    &&& r.notes@.len() == 1
                    &&& r.notes@[0].text@ == "toplevel definitions should be constants"@
                    &&& r.notes@[0].color == LabelColor::Blue
                },
                SemanticError::NotCallable(span) => {
                    &&& r.labels@.len() == 1
                    &&& label_v(r.labels@[0]) == (span, Some("this is not a function"@), LabelColor::Red)
                    &&& r.notes@.len() == 0
                },
            },
    {
        proof {
            reveal_strlit("Duplicated definition");
            reveal_strlit("Unresolved reference");
            reveal_strlit("Duplicated type");
            reveal_strlit("Unresolved type");
            reveal_strlit("Recursive type definition");
            reveal_strlit("Not a constant");
            reveal_strlit("Not callable");
        }
        match *self {
            SemanticError::DuplicatedDef(pre, span) => redefinition(pre, span, "Duplicated definition"),
            SemanticError::UnresolvedRef(span) => single(span, "Unresolved reference", "undefined ident"),
            SemanticError::DuplicatedType(pre, span) => redefinition(pre, span, "Duplicated type"),
            SemanticError::UnresolvedType(span) => single(span, "Unresolved type", "undefined ident"),
            SemanticError::RecursiveTypeDef(pre, span) => redefinition(
                pre,
                span,
                "Recursive type definition",
            ),
            SemanticError::NotConstant(span) => {
                let mut r = single(span, "Not a constant", "this is not a constant");
                r.notes.push(
                    Note {
                        text: String::from_str("toplevel definitions should be constants"),
                        color: LabelColor::Blue,
                    },
                );
                r
            },
            SemanticError::NotCallable(span) => single(span, "Not callable", "this is not a function"),
        }
    }
}

} // verus!
