//! The findings that the parsers report.

use vstd::prelude::*;

verus! {

/// How serious a finding is.
#[derive(Clone, Copy, Debug, PartialEq, Eq, Structural)]
pub enum Severity {
    Warning,
    Error,
}

/// The name of a severity, in lower case.
pub open spec fn severity_name(s: Severity) -> Seq<char> {
    match s {
        Severity::Warning => "warning"@,
        Severity::Error => "error"@,
    }
}

impl Severity {
    /// The severity's name in lower case: `warning` or `error`.
    pub fn name(&self) -> (r: &'static str)
        ensures
            r@ == severity_name(*self),
    {
        match self {
            Severity::Warning => "warning",
            Severity::Error => "error",
        }
    }
}

/// One problem found in a migration file by a parser.
#[derive(Debug)]
pub struct Finding {
    pub rule_id: &'static str,
    pub severity: Severity,
    pub message: String,
    pub file: String,
    /// 1-based line when known
    pub line: Option<u32>,
    pub parser_id: &'static str,
}

/// The mathematical value of a [`Finding`].
pub struct FindingView {
    pub rule_id: Seq<char>,
    pub severity: Severity,
    pub message: Seq<char>,
    pub file: Seq<char>,
    pub line: Option<u32>,
    pub parser_id: Seq<char>,
}

impl View for Finding {
    type V = FindingView;

    open spec fn view(&self) -> FindingView {
        FindingView {
            rule_id: self.rule_id@,
            severity: self.severity,
            message: self.message@,
            file: self.file@,
            line: self.line,
            parser_id: self.parser_id@,
        }
    }
}

/// The views of a sequence of findings.
pub open spec fn findings_view(v: Seq<Finding>) -> Seq<FindingView> {
    v.map_values(|f: Finding| f@)
}

} // verus!
