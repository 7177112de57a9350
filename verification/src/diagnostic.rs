use vstd::prelude::*;
use crate::span::Span;

verus! {

/// How severe a diagnostic is.
#[derive(Clone, Copy, Debug, PartialEq, Eq)]
pub enum DiagnosticKind {
    Error,
}

/// Whether a label marks the main place of a diagnostic or a related one.
#[derive(Clone, Copy, Debug, PartialEq, Eq)]
pub enum LabelKind {
    Primary,
    Secondary,
}

/// A message attached to a span.
#[derive(Debug)]
pub struct Label {
    pub kind: LabelKind,
    pub span: Span,
    pub message: String,
}

/// A compiler diagnostic: a kind, an optional message, labels and notes.
#[derive(Debug)]
pub struct Diagnostic {
    pub kind: DiagnosticKind,
    pub message: Option<String>,
    pub labels: Vec<Label>,
    pub notes: Vec<String>,
}

impl Label {
    pub fn primary(span: Span, message: String) -> (l: Label)
        ensures
            l.kind == LabelKind::Primary,
            l.span == span,
            l.message@ == message@,
    {
        Label { kind: LabelKind::Primary, span, message }
    }

    pub fn secondary(span: Span, message: String) -> (l: Label)
        ensures
            l.kind == LabelKind::Secondary,
            l.span == span,
            l.message@ == message@,
    {
        Label { kind: LabelKind::Secondary, span, message }
    }
}

impl Diagnostic {
    /// An error with no message, label or note yet.
    pub fn error() -> (d: Diagnostic)
        ensures
            d.kind == DiagnosticKind::Error,
            d.message is None,
            d.labels@.len() == 0,
            d.notes@.len() == 0,
    {
        Diagnostic { kind: DiagnosticKind::Error, message: None, labels: Vec::new(), notes: Vec::new() }
    }

    pub fn with_message(self, message: String) -> (d: Diagnostic)
        ensures
            d.kind == self.kind,
            d.message matches Some(m) && m@ == message@,
            d.labels == self.labels,
            d.notes == self.notes,
    {
        Diagnostic { message: Some(message), ..self }
    }

    pub fn with_label(self, label: Label) -> (d: Diagnostic)
        ensures
            d.kind == self.kind,
            d.message == self.message,
            d.labels@ == self.labels@.push(label),
            d.notes == self.notes,
    {
        let mut d = self;
        d.labels.push(label);
        d
    }

    pub fn with_note(self, note: String) -> (d: Diagnostic)
        ensures
            d.kind == self.kind,
            d.message == self.message,
            d.labels == self.labels,
            d.notes@ == self.notes@.push(note),
    {
        let mut d = self;
        d.notes.push(note);
        d
    }
}


/// `d` is an error with this message, these labels (kind, span and text of
/// each, in order) and these notes.
pub open spec fn error_shape(
    d: Diagnostic,
    message: Seq<char>,
    labels: Seq<(LabelKind, Span, Seq<char>)>,
    notes: Seq<Seq<char>>,
) -> bool {
    &&& d.kind == DiagnosticKind::Error
    &&& d.message matches Some(m) && m@ == message
    &&& d.labels@.len() == labels.len()
    &&& forall|i: int| 0 <= i < labels.len() ==> {
        &&& (#[trigger] d.labels@[i]).kind == labels[i].0
        &&& d.labels@[i].span == labels[i].1
        &&& d.labels@[i].message@ == labels[i].2
    }
    &&& d.notes@.len() == notes.len()
    &&& forall|i: int| 0 <= i < notes.len() ==> (#[trigger] d.notes@[i])@ == notes[i]
}

/// An error with a message and one primary label.
pub fn simple_error(message: &str, span: Span, label: &str) -> (d: Diagnostic)
    ensures
        error_shape(d, message@, seq![(LabelKind::Primary, span, label@)], seq![]),
{
    Diagnostic::error().with_message(message.to_owned()).with_label(Label::primary(span, label.to_owned()))
}

} // verus!
