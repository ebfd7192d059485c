//! Findings: what analysis and the rules report.

use crate::span::Span;
use vstd::prelude::*;

verus! {

/// How much a finding weighs.
#[derive(Debug, Clone, Copy, PartialEq, Eq, Structural)]
pub enum Severity {
    Warning,
    Error,
}

/// A finding: what is wrong, where, and which rule found it.
#[derive(Debug, PartialEq)]
pub struct Diagnostic {
    pub severity: Severity,
    pub message: String,
    /// The source text that the finding is about.
    pub span: Span,
    /// The name of the rule that made the finding; empty for a finding
    /// that no rule made.
    pub rule: &'static str,
}

impl Diagnostic {
    /// A warning about `span`.
    pub fn warn(message: String, span: Span) -> (diagnostic: Diagnostic)
        ensures
            diagnostic.severity == Severity::Warning,
            diagnostic.message == message,
            diagnostic.span == span,
            diagnostic.rule@ == Seq::<char>::empty(),
    {
        proof {
            reveal_strlit("");
        }
        Diagnostic { severity: Severity::Warning, message, span, rule: "" }
    }

    /// An error about `span`.
    pub fn error(message: String, span: Span) -> (diagnostic: Diagnostic)
        ensures
            diagnostic.severity == Severity::Error,
            diagnostic.message == message,
            diagnostic.span == span,
            diagnostic.rule@ == Seq::<char>::empty(),
    {
        proof {
            reveal_strlit("");
        }
        Diagnostic { severity: Severity::Error, message, span, rule: "" }
    }

    /// The same finding, made by the rule called `rule`.
    pub fn with_rule(self, rule: &'static str) -> (diagnostic: Diagnostic)
        ensures
            diagnostic.severity == self.severity,
            diagnostic.message == self.message,
            diagnostic.span == self.span,
            diagnostic.rule@ == rule@,
    {
        Diagnostic { severity: self.severity, message: self.message, span: self.span, rule }
    }
}

} // verus!
