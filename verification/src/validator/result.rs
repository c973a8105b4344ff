use vstd::prelude::*;
use crate::utils::text::{decimal, decimal_string};

verus! {

/// The outcome of a validation: whether it passed, and every finding.
#[derive(Debug)]
pub struct ValidationResult {
    pub is_valid: bool,
    pub errors: Vec<ValidationError>,
}

/// One finding of a validation rule.
#[derive(Debug)]
pub struct ValidationError {
    pub code: String,
    pub rule: String,
    pub message: String,
    pub severity: Severity,
    pub location: Option<String>,
}

/// How serious a finding is.
#[derive(Debug, Clone, Copy, PartialEq, Eq, Structural)]
pub enum Severity {
    Error,
    Warning,
    Info,
}

/// A finding, as characters.
pub struct Finding {
    pub code: Seq<char>,
    pub rule: Seq<char>,
    pub message: Seq<char>,
    pub severity: Severity,
    pub location: Option<Seq<char>>,
}

/// The characters of a finding.
pub open spec fn finding_of(e: ValidationError) -> Finding {
    Finding {
        code: e.code@,
        rule: e.rule@,
        message: e.message@,
        severity: e.severity,
        location: match e.location {
            Some(l) => Some(l@),
            None => None,
        },
    }
}

/// The characters of all findings of a result, in order.
pub open spec fn findings_of(errors: Seq<ValidationError>) -> Seq<Finding> {
    errors.map_values(|e: ValidationError| finding_of(e))
}

/// A finding built from its parts.
pub open spec fn finding(code: Seq<char>, rule: Seq<char>, message: Seq<char>, severity: Severity, location: Option<Seq<char>>) -> Finding {
    Finding { code, rule, message, severity, location }
}

/// How many findings have the given severity.
pub open spec fn count_severity(s: Seq<Finding>, sev: Severity) -> nat
    decreases s.len(),
{
    if s.len() == 0 {
        0
    } else {
        count_severity(s.drop_last(), sev) + if s.last().severity == sev { 1nat } else { 0nat }
    }
}

/// Whether some finding has severity `Error`.
pub open spec fn has_error(s: Seq<Finding>) -> bool {
    exists|i: int| 0 <= i < s.len() && #[trigger] s[i].severity == Severity::Error
}

impl ValidationResult {
    /// The result holds together: it is valid exactly when no finding is an error.
    pub open spec fn wf(self) -> bool {
        self.is_valid == !has_error(findings_of(self.errors@))
    }

    /// A passing result without findings.
    pub fn new() -> (r: Self)
        ensures
            r.is_valid,
            r.errors@.len() == 0,
            r.wf(),
    {
        ValidationResult { is_valid: true, errors: Vec::new() }
    }

    /// Records a finding; an error makes the result fail.
    pub fn add_error(&mut self, error: ValidationError)
        ensures
            final(self).errors@ == old(self).errors@.push(error),
            final(self).is_valid == (old(self).is_valid && error.severity != Severity::Error),
            old(self).wf() ==> final(self).wf(),
    {
        let ghost prev = findings_of(self.errors@);
        if error.severity == Severity::Error {
            self.is_valid = false;
        }
        self.errors.push(error);
        proof {
            let now = findings_of(self.errors@);
            assert(now =~= prev.push(finding_of(error)));
            if has_error(prev) {
                let i = choose|i: int| 0 <= i < prev.len() && #[trigger] prev[i].severity == Severity::Error;
                assert(now[i].severity == Severity::Error);
            }
            if error.severity == Severity::Error {
                assert(now[prev.len() as int].severity == Severity::Error);
            }
            if has_error(now) {
                let i = choose|i: int| 0 <= i < now.len() && #[trigger] now[i].severity == Severity::Error;
                if i < prev.len() {
                    assert(prev[i].severity == Severity::Error);
                }
            }
        }
    }

    /// Appends the findings of another result; a failing one makes this fail.
    pub fn merge(&mut self, other: ValidationResult)
        ensures
            final(self).errors@ == old(self).errors@ + other.errors@,
            final(self).is_valid == (old(self).is_valid && other.is_valid),
            old(self).wf() && other.wf() ==> final(self).wf(),
    {
        let ghost prev = findings_of(self.errors@);
        let ghost more = findings_of(other.errors@);
        if !other.is_valid {
            self.is_valid = false;
        }
        let mut rest = other.errors;
        let ghost orig_rest = rest@;
        let ghost base = self.errors@;
        // move the other findings over, keeping their order
        while rest.len() > 0
            invariant
                self.errors@ + rest@ == base + orig_rest,
                self.is_valid == (old(self).is_valid && other.is_valid),
            decreases rest@.len(),
        {
            let ghost before = self.errors@;
            let ghost left = rest@;
            let e = rest.remove(0);
            self.errors.push(e);
            assert(self.errors@ + rest@ =~= before + left);
        }
        assert(self.errors@ =~= base + orig_rest);
        proof {
            let now = findings_of(self.errors@);
            assert(now =~= prev + more);
            if has_error(now) {
                let i = choose|i: int| 0 <= i < now.len() && #[trigger] now[i].severity == Severity::Error;
                if i < prev.len() {
                    assert(prev[i].severity == Severity::Error);
                } else {
                    assert(more[i - prev.len()].severity == Severity::Error);
                }
            }
            if has_error(prev) {
                let i = choose|i: int| 0 <= i < prev.len() && #[trigger] prev[i].severity == Severity::Error;
                assert(now[i].severity == Severity::Error);
            }
            if has_error(more) {
                let i = choose|i: int| 0 <= i < more.len() && #[trigger] more[i].severity == Severity::Error;
                assert(now[prev.len() + i].severity == Severity::Error);
            }
        }
    }

    fn count(&self, sev: Severity) -> (n: usize)
        ensures
            n == count_severity(findings_of(self.errors@), sev),
    {
        let ghost all = findings_of(self.errors@);
        let mut n: usize = 0;
        let mut i: usize = 0;
        while i < self.errors.len()
            invariant
                i <= self.errors.len(),
                all == findings_of(self.errors@),
                n == count_severity(all.take(i as int), sev),
                n <= i,
            decreases self.errors.len() - i,
        {
            assert(all.take(i + 1).drop_last() =~= all.take(i as int));
            if self.errors[i].severity == sev {
                n = n + 1;
            }
            i = i + 1;
        }
        assert(all.take(self.errors@.len() as int) =~= all);
        n
    }

    /// How many findings are errors.
    pub fn error_count(&self) -> (n: usize)
        ensures
            n == count_severity(findings_of(self.errors@), Severity::Error),
    {
        self.count(Severity::Error)
    }

    /// How many findings are warnings.
    pub fn warning_count(&self) -> (n: usize)
        ensures
            n == count_severity(findings_of(self.errors@), Severity::Warning),
    {
        self.count(Severity::Warning)
    }

    /// How many findings are informational.
    pub fn info_count(&self) -> (n: usize)
        ensures
            n == count_severity(findings_of(self.errors@), Severity::Info),
    {
        self.count(Severity::Info)
    }
}

impl Default for ValidationResult {
    fn default() -> (r: Self)
        ensures
            r.is_valid,
            r.errors@.len() == 0,
    {
        ValidationResult::new()
    }
}

/// Every finding has exactly one severity: the three counts add up to the
/// number of findings.
pub proof fn lemma_counts_sum(s: Seq<Finding>)
    ensures
        count_severity(s, Severity::Error) + count_severity(s, Severity::Warning)
            + count_severity(s, Severity::Info) == s.len(),
    decreases s.len(),
{
    if s.len() > 0 {
        lemma_counts_sum(s.drop_last());
    }
}

/// The positions of the findings with severity `sev`.
pub open spec fn positions_with(s: Seq<Finding>, sev: Severity) -> Set<int> {
    Set::new(|i: int| 0 <= i < s.len() && s[i].severity == sev)
}

/// A count of findings is the number of positions holding that severity.
pub proof fn lemma_count_is_positions(s: Seq<Finding>, sev: Severity)
    ensures
        positions_with(s, sev).finite(),
        count_severity(s, sev) == positions_with(s, sev).len(),
    decreases s.len(),
{
    if s.len() == 0 {
        assert(positions_with(s, sev) =~= Set::<int>::empty());
    } else {
        let t = s.drop_last();
        lemma_count_is_positions(t, sev);
        let n = s.len() - 1;
        if s.last().severity == sev {
            assert(positions_with(s, sev) =~= positions_with(t, sev).insert(n));
            assert(!positions_with(t, sev).contains(n));
        } else {
            assert(positions_with(s, sev) =~= positions_with(t, sev));
        }
    }
}

/// A result is valid exactly when it counts no errors (for a well-formed result).
pub proof fn lemma_valid_iff_no_errors(r: ValidationResult)
    requires
        r.wf(),
    ensures
        r.is_valid <==> count_severity(findings_of(r.errors@), Severity::Error) == 0,
{
    lemma_count_zero(findings_of(r.errors@));
}

proof fn lemma_count_zero(s: Seq<Finding>)
    ensures
        count_severity(s, Severity::Error) == 0 <==> !has_error(s),
    decreases s.len(),
{
    if s.len() > 0 {
        lemma_count_zero(s.drop_last());
        let d = s.drop_last();
        if has_error(d) {
            let i = choose|i: int| 0 <= i < d.len() && #[trigger] d[i].severity == Severity::Error;
            assert(s[i].severity == Severity::Error);
        }
        if has_error(s) {
            let i = choose|i: int| 0 <= i < s.len() && #[trigger] s[i].severity == Severity::Error;
            if i < d.len() {
                assert(d[i].severity == Severity::Error);
            }
        }
    }
}

/// The tag printed for a severity.
pub open spec fn severity_tag(s: Severity) -> Seq<char> {
    match s {
        Severity::Error => "ERROR"@,
        Severity::Warning => "WARN"@,
        Severity::Info => "INFO"@,
    }
}

/// The lines printed for one finding.
pub open spec fn finding_lines(f: Finding) -> Seq<char> {
    "  ["@ + severity_tag(f.severity) + "] "@ + f.code + ": "@ + f.message + "\n"@ + match f.location {
        Some(l) => "         Location: "@ + l + "\n"@,
        None => Seq::empty(),
    }
}

/// The lines printed for some findings, in order.
pub open spec fn findings_text(s: Seq<Finding>) -> Seq<char>
    decreases s.len(),
{
    if s.len() == 0 {
        Seq::empty()
    } else {
        findings_text(s.drop_last()) + finding_lines(s.last())
    }
}

/// The printed form of a result: a header with the counts, a line (and a
/// location line) per finding, and the verdict.
pub open spec fn result_text(r: ValidationResult) -> Seq<char> {
    let fs = findings_of(r.errors@);
    "Validation Result:\n"@
        + "  Errors: "@ + decimal(count_severity(fs, Severity::Error))
        + ", Warnings: "@ + decimal(count_severity(fs, Severity::Warning))
        + ", Info: "@ + decimal(count_severity(fs, Severity::Info)) + "\n"@
        + findings_text(fs)
        + if r.is_valid { "\nValidation passed!\n"@ } else { "\nValidation failed.\n"@ }
}

fn severity_text(s: Severity) -> (r: &'static str)
    ensures
        r@ == severity_tag(s),
{
    match s {
        Severity::Error => "ERROR",
        Severity::Warning => "WARN",
        Severity::Info => "INFO",
    }
}

impl ValidationResult {
    /// The printed form of the result (see `result_text`).
    pub fn to_text(&self) -> (t: String)
        ensures
            t@ == result_text(*self),
    {
        let ghost fs = findings_of(self.errors@);
        let mut out = String::from_str("Validation Result:\n");
        out.append("  Errors: ");
        out.append(decimal_string(self.error_count() as u64).as_str());
        out.append(", Warnings: ");
        out.append(decimal_string(self.warning_count() as u64).as_str());
        out.append(", Info: ");
        out.append(decimal_string(self.info_count() as u64).as_str());
        out.append("\n");
        let ghost head = out@;
        let mut i: usize = 0;
        while i < self.errors.len()
            invariant
                i <= self.errors.len(),
                fs == findings_of(self.errors@),
                out@ == head + findings_text(fs.take(i as int)),
            decreases self.errors.len() - i,
        {
            assert(fs.take(i + 1).drop_last() =~= fs.take(i as int));
            let e = &self.errors[i];
            let ghost before = out@;
            out.append("  [");
            out.append(severity_text(e.severity));
            out.append("] ");
            out.append(e.code.as_str());
            out.append(": ");
            out.append(e.message.as_str());
            out.append("\n");
            match &e.location {
                Some(l) => {
                    out.append("         Location: ");
                    out.append(l.as_str());
                    out.append("\n");
                },
                None => {},
            }
            assert(out@ =~= before + finding_lines(fs[i as int]));
            i = i + 1;
        }
        assert(fs.take(self.errors@.len() as int) =~= fs);
        if self.is_valid {
            out.append("\nValidation passed!\n");
        } else {
            out.append("\nValidation failed.\n");
        }
        out
    }
}

} // verus!
