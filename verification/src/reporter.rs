//! The diagnostic reporter: builds the one fixed warning record that a
//! matched node produces.

use vstd::prelude::*;

use crate::tree::Span;

verus! {

/// Diagnostic severity. The rule always emits warnings; the single
/// variant records that there is no configuration surface to change it.
#[derive(Clone, Copy, Debug, PartialEq, Eq)]
pub enum Severity {
    Warning,
}

/// One diagnostic record, handed to the host's sink and never read
/// back: severity, the span of the whole flagged expression, a fixed
/// primary message and a fixed help text. No suggested fix.
#[derive(Debug)]
pub struct Diagnostic {
    pub severity: Severity,
    pub span: Span,
    pub message: String,
    pub help: String,
}

/// The fixed primary message of every diagnostic this rule emits.
pub open spec fn primary_message() -> Seq<char> {
    "bitwise NOT operator is not allowed on integral types"@
}

/// The fixed help text of every diagnostic this rule emits.
pub open spec fn help_message() -> Seq<char> {
    "consider using explicit bitwise operations or alternative approaches"@
}

/// What a well-formed report for span `s` looks like: Warning severity,
/// that very span, and the two fixed texts.
pub open spec fn is_report_for(d: Diagnostic, s: Span) -> bool {
    &&& d.severity == Severity::Warning
    &&& d.span == s
    &&& d.message@ == primary_message()
    &&& d.help@ == help_message()
}

/// Two diagnostics that carry the same severity, span and texts: all a
/// sink can tell apart.
pub open spec fn diag_equiv(a: Diagnostic, b: Diagnostic) -> bool {
    &&& a.severity == b.severity
    &&& a.span == b.span
    &&& a.message@ == b.message@
    &&& a.help@ == b.help@
}

/// Build the diagnostic for one matched expression. The texts do not
/// depend on which integer type triggered the match.
pub fn report(span: Span) -> (d: Diagnostic)
    ensures
        is_report_for(d, span),
{
    Diagnostic {
        severity: Severity::Warning,
        span,
        message: String::from_str("bitwise NOT operator is not allowed on integral types"),
        help: String::from_str("consider using explicit bitwise operations or alternative approaches"),
    }
}

} // verus!
