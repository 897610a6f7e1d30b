//! Diagnostics reported while lowering: errors and warnings with labelled
//! source spans and notes.

use vstd::prelude::*;
use crate::hir::Span;

verus! {

#[derive(Clone, Copy, Debug, PartialEq, Eq, Structural)]
pub enum Severity {
    Error,
    Warning,
}

/// A message attached to a span of the source.
#[derive(Debug)]
pub struct DiagLabel {
    pub span: Span,
    pub message: String,
}

/// One diagnostic: its severity, headline, labels (the first is the primary
/// one) and notes.
#[derive(Debug)]
pub struct Diag {
    pub severity: Severity,
    pub message: String,
    pub labels: Vec<DiagLabel>,
    pub notes: Vec<String>,
}

/// The abstract content of a diagnostic.
pub struct DiagView {
    pub severity: Severity,
    pub message: Seq<char>,
    pub labels: Seq<(Span, Seq<char>)>,
    pub notes: Seq<Seq<char>>,
}

impl View for Diag {
    type V = DiagView;

    open spec fn view(&self) -> DiagView {
        DiagView {
            severity: self.severity,
            message: self.message@,
            labels: self.labels@.map_values(|l: DiagLabel| (l.span, l.message@)),
            notes: self.notes@.map_values(|n: String| n@),
        }
    }
}

/// A diagnostic with a headline and one primary label.
pub open spec fn spec_diag(severity: Severity, message: Seq<char>, span: Span, label: Seq<char>) -> DiagView {
    DiagView { severity, message, labels: seq![(span, label)], notes: seq![] }
}

/// The same diagnostic with one more label.
pub open spec fn spec_with_label(d: DiagView, span: Span, label: Seq<char>) -> DiagView {
    DiagView { labels: d.labels.push((span, label)), ..d }
}

/// The same diagnostic with one more note.
pub open spec fn spec_with_note(d: DiagView, note: Seq<char>) -> DiagView {
    DiagView { notes: d.notes.push(note), ..d }
}

/// Make a diagnostic with a headline and one primary label.
pub fn diag(severity: Severity, message: String, span: Span, label: String) -> (d: Diag)
    ensures
        d@ == spec_diag(severity, message@, span, label@),
{
    let mut labels = Vec::new();
    labels.push(DiagLabel { span, message: label });
    let d = Diag { severity, message, labels, notes: Vec::new() };
    proof {
        assert(d@.labels =~= seq![(span, label@)]);
        assert(d@.notes =~= Seq::<Seq<char>>::empty());
    }
    d
}

impl Diag {
    /// Add a secondary label.
    pub fn label(self, span: Span, message: String) -> (d: Diag)
        ensures
            d@ == spec_with_label(self@, span, message@),
    {
        let Diag { severity, message: headline, labels, notes } = self;
        let mut labels = labels;
        let ghost old_labels = labels@;
        labels.push(DiagLabel { span, message });
        let d = Diag { severity, message: headline, labels, notes };
        proof {
            assert(d@.labels =~= old_labels.map_values(|l: DiagLabel| (l.span, l.message@)).push((span, message@)));
        }
        d
    }

    /// Add a note.
    pub fn note(self, note: String) -> (d: Diag)
        ensures
            d@ == spec_with_note(self@, note@),
    {
        let Diag { severity, message, labels, notes } = self;
        let mut notes = notes;
        let ghost old_notes = notes@;
        notes.push(note);
        let d = Diag { severity, message, labels, notes };
        proof {
            assert(d@.notes =~= old_notes.map_values(|n: String| n@).push(note@));
        }
        d
    }
}

/// The abstract content of a list of diagnostics.
pub open spec fn spec_diag_views(ds: Seq<Diag>) -> Seq<DiagView> {
    ds.map_values(|d: Diag| d@)
}

/// Errors and warnings accumulated while lowering.
#[derive(Debug)]
pub struct Diagnostics {
    pub errors: Vec<Diag>,
    pub warnings: Vec<Diag>,
}

impl Diagnostics {
    pub fn new() -> (d: Self)
        ensures
            d.errors@.len() == 0,
            d.warnings@.len() == 0,
    {
        Diagnostics { errors: Vec::new(), warnings: Vec::new() }
    }

    /// Report an error with a headline and one primary label.
    pub fn error(&mut self, message: String, span: Span, label: String)
        ensures
            final(self).errors@.len() == old(self).errors@.len() + 1,
            final(self).errors@.last()@ == spec_diag(Severity::Error, message@, span, label@),
            final(self).errors@.drop_last() == old(self).errors@,
            final(self).warnings@ == old(self).warnings@,
    {
        let d = diag(Severity::Error, message, span, label);
        self.errors.push(d);
    }

    /// Record an error.
    pub fn push_error(&mut self, d: Diag)
        ensures
            spec_diag_views(final(self).errors@) == spec_diag_views(old(self).errors@).push(d@),
            final(self).warnings@ == old(self).warnings@,
    {
        let ghost before = self.errors@;
        self.errors.push(d);
        assert(spec_diag_views(self.errors@) =~= spec_diag_views(before).push(d@));
    }

    /// Record a warning.
    pub fn push_warning(&mut self, d: Diag)
        ensures
            spec_diag_views(final(self).warnings@) == spec_diag_views(old(self).warnings@).push(d@),
            final(self).errors@ == old(self).errors@,
    {
        let ghost before = self.warnings@;
        self.warnings.push(d);
        assert(spec_diag_views(self.warnings@) =~= spec_diag_views(before).push(d@));
    }
}

} // verus!
