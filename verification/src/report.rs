//! What the command line reports of findings, and whether a run fails.

use vstd::prelude::*;
use crate::model::{findings_view, severity_name, Finding, FindingView, Severity};
use crate::text::{concat, owned};

verus! {

/// A run fails when some finding is an error, or, with `deny_warnings`, a warning.
pub open spec fn spec_run_fails(fs: Seq<FindingView>, deny_warnings: bool) -> bool {
    (exists|i: int| 0 <= i < fs.len() && #[trigger] fs[i].severity == Severity::Error)
        || (deny_warnings && exists|i: int| 0 <= i < fs.len() && #[trigger] fs[i].severity == Severity::Warning)
}

/// Whether a run with these findings exits with failure.
pub fn run_fails(findings: &[Finding], deny_warnings: bool) -> (r: bool)
    ensures
        r == spec_run_fails(findings_view(findings@), deny_warnings),
{
    let ghost fs = findings_view(findings@);
    let mut has_error = false;
    let mut has_warning = false;
    let mut i: usize = 0;
    while i < findings.len()
        invariant
            i <= findings@.len(),
            fs == findings_view(findings@),
            has_error == exists|j: int| 0 <= j < i && #[trigger] fs[j].severity == Severity::Error,
            has_warning == exists|j: int| 0 <= j < i && #[trigger] fs[j].severity == Severity::Warning,
        decreases findings@.len() - i,
    {
        match findings[i].severity {
            Severity::Error => { has_error = true; },
            Severity::Warning => { has_warning = true; },
        }
        assert(fs[i as int].severity == findings@[i as int].severity);
        i = i + 1;
    }
    has_error || (deny_warnings && has_warning)
}

/// The decimal digit `d`.
pub open spec fn digit_char(d: nat) -> char {
    (d + 48) as char
}

/// The decimal representation of `n`, without leading zeros.
pub open spec fn decimal(n: nat) -> Seq<char>
    decreases n,
{
    if n < 10 {
        seq![digit_char(n)]
    } else {
        decimal(n / 10).push(digit_char(n % 10))
    }
}

fn digit_str(d: u32) -> (r: &'static str)
    requires
        d < 10,
    ensures
        r@ == seq![digit_char(d as nat)],
{
    proof {
        reveal_strlit("0");
        reveal_strlit("1");
        reveal_strlit("2");
        reveal_strlit("3");
        reveal_strlit("4");
        reveal_strlit("5");
        reveal_strlit("6");
        reveal_strlit("7");
        reveal_strlit("8");
        reveal_strlit("9");
    }
    let r = if d == 0 {
        "0"
    } else if d == 1 {
        "1"
    } else if d == 2 {
        "2"
    } else if d == 3 {
        "3"
    } else if d == 4 {
        "4"
    } else if d == 5 {
        "5"
    } else if d == 6 {
        "6"
    } else if d == 7 {
        "7"
    } else if d == 8 {
        "8"
    } else {
        "9"
    };
    assert(r@ =~= seq![digit_char(d as nat)]);
    r
}

/// The decimal representation of `n`.
pub fn decimal_string(n: u32) -> (r: String)
    ensures
        r@ == decimal(n as nat),
    decreases n,
{
    if n < 10 {
        owned(digit_str(n))
    } else {
        let mut r = decimal_string(n / 10);
        r.append(digit_str(n % 10));
        assert(r@ =~= decimal(n as nat));
        r
    }
}

/// Where a finding stands: `:<line>:` when its line is known, `:` otherwise.
pub open spec fn location(line: Option<u32>) -> Seq<char> {
    match line {
        Some(l) => seq![':'] + decimal(l as nat) + seq![':'],
        None => seq![':'],
    }
}

/// The line that reports a finding: `<severity> [<rule>] <file><location> <message>`.
pub open spec fn finding_line(f: FindingView) -> Seq<char> {
    severity_name(f.severity) + seq![' ', '['] + f.rule_id + seq![']', ' '] + f.file + location(f.line)
        + seq![' '] + f.message
}

/// The line that reports a finding to the user.
pub fn render_finding(f: &Finding) -> (r: String)
    ensures
        r@ == finding_line(f@),
{
    proof {
        reveal_strlit(" [");
        reveal_strlit("] ");
        reveal_strlit(":");
        reveal_strlit(" ");
    }
    let mut r = concat(f.severity.name(), " [");
    r.append(f.rule_id);
    r.append("] ");
    r.append(f.file.as_str());
    match f.line {
        Some(l) => {
            r.append(":");
            let d = decimal_string(l);
            r.append(d.as_str());
            r.append(":");
        },
        None => {
            r.append(":");
        },
    }
    r.append(" ");
    r.append(f.message.as_str());
    assert(r@ =~= finding_line(f@));
    r
}

} // verus!

verus! {

/// Whether a run fails does not hang on where a finding stands: an error anywhere fails
/// the run; with `deny_warnings` a warning anywhere fails it too; and a run fails only for
/// such a finding, so no findings, or warnings only without `deny_warnings`, pass.
pub proof fn run_fails_on_any_error_or_denied_warning(fs: Seq<FindingView>, deny_warnings: bool)
    ensures
        forall|i: int| 0 <= i < fs.len() && fs[i].severity == Severity::Error ==> spec_run_fails(fs, deny_warnings),
        forall|i: int| 0 <= i < fs.len() && deny_warnings && fs[i].severity == Severity::Warning
            ==> spec_run_fails(fs, deny_warnings),
        spec_run_fails(fs, deny_warnings) ==> exists|i: int| 0 <= i < fs.len() && (fs[i].severity == Severity::Error
            || (deny_warnings && fs[i].severity == Severity::Warning)),
        fs.len() == 0 ==> !spec_run_fails(fs, deny_warnings),
        !deny_warnings && (forall|i: int| 0 <= i < fs.len() ==> fs[i].severity == Severity::Warning)
            ==> !spec_run_fails(fs, deny_warnings),
{
    assert forall|i: int| 0 <= i < fs.len() && fs[i].severity == Severity::Error implies spec_run_fails(fs, deny_warnings) by {
        assert(fs[i].severity == Severity::Error);
    }
    assert forall|i: int| 0 <= i < fs.len() && deny_warnings && fs[i].severity == Severity::Warning implies spec_run_fails(fs, deny_warnings) by {
        assert(fs[i].severity == Severity::Warning);
    }
}

} // verus!
