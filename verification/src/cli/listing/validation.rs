use vstd::prelude::*;
use crate::cli::report::{Tone, Line, LineView, report_view, p, lines_for, lemma_lines_for_step, lemma_lines_for_all, emit};
use crate::validator::result::{ValidationResult, ValidationError, Severity, Finding, findings_of, count_severity, severity_tag};
use crate::utils::text::{decimal, decimal_string};

verus! {

/// The tone in which a severity tag is shown.
pub open spec fn severity_tone(s: Severity) -> Tone {
    match s {
        Severity::Error => Tone::Alert,
        Severity::Warning => Tone::Accent,
        Severity::Info => Tone::Note,
    }
}

/// The lines of one finding: tag, code and message, then its location if any.
pub open spec fn finding_report() -> spec_fn(Finding) -> Seq<LineView> {
    |f: Finding| seq![seq![p("  ["@), (severity_tone(f.severity), severity_tag(f.severity)), p("] "@),
        (Tone::Key, f.code), p(": "@), p(f.message)]]
        + match f.location {
            Some(l) => seq![seq![p("         Location: "@), (Tone::Faint, l)]],
            None => Seq::empty(),
        }
}

/// What `validate` prints for a result in text form: the counts, each
/// finding (or that there are none), and the verdict.
pub open spec fn validation_report(r: ValidationResult) -> Seq<LineView> {
    let fs = findings_of(r.errors@);
    seq![Seq::empty(), seq![(Tone::Title, "Validation Result:"@)],
        seq![p("  Errors: "@), (Tone::Alert, decimal(count_severity(fs, Severity::Error))), p(", Warnings: "@),
            (Tone::Accent, decimal(count_severity(fs, Severity::Warning))), p(", Info: "@),
            (Tone::Note, decimal(count_severity(fs, Severity::Info)))],
        Seq::empty()]
        + (if fs.len() == 0 { seq![seq![(Tone::Mark, "No issues found."@)]] } else { lines_for(fs, finding_report()) })
        + seq![Seq::empty(), if r.is_valid {
            seq![(Tone::Mark, "Validation passed!"@)]
        } else {
            seq![(Tone::Alert, "Validation failed. Please fix the errors above."@)]
        }]
}

fn severity_word(s: Severity) -> (r: &'static str)
    ensures
        r@ == severity_tag(s),
{
    match s {
        Severity::Error => "ERROR",
        Severity::Warning => "WARN",
        Severity::Info => "INFO",
    }
}

fn severity_tone_of(s: Severity) -> (t: Tone)
    ensures
        t == severity_tone(s),
{
    match s {
        Severity::Error => Tone::Alert,
        Severity::Warning => Tone::Accent,
        Severity::Info => Tone::Note,
    }
}

fn write_finding(out: &mut Vec<Line>, e: &ValidationError)
    ensures
        report_view(final(out)@) == report_view(old(out)@) + finding_report()(findings_of(seq![*e])[0]),
{
    let ghost before = report_view(out@);
    let ghost f = findings_of(seq![*e])[0];
    let mut l = Line::new();
    l.plain("  [");
    l.add(severity_tone_of(e.severity), severity_word(e.severity));
    l.plain("] ");
    l.add(Tone::Key, e.code.as_str());
    l.plain(": ");
    l.plain(e.message.as_str());
    assert(l@ =~= seq![p("  ["@), (severity_tone(f.severity), severity_tag(f.severity)), p("] "@),
        (Tone::Key, f.code), p(": "@), p(f.message)]);
    emit(out, l);
    match &e.location {
        Some(loc) => {
            let mut m = Line::new();
            m.plain("         Location: ");
            m.add(Tone::Faint, loc.as_str());
            assert(m@ =~= seq![p("         Location: "@), (Tone::Faint, loc@)]);
            emit(out, m);
        },
        None => {},
    }
    assert(report_view(out@) =~= before + finding_report()(f));
}

/// The lines that `validate` prints for a result in text form (see `validation_report`).
pub fn report_validation(r: &ValidationResult) -> (out: Vec<Line>)
    ensures
        report_view(out@) == validation_report(*r),
{
    let ghost fs = findings_of(r.errors@);
    let mut out: Vec<Line> = Vec::new();
    emit(&mut out, Line::new());
    let mut l = Line::new();
    l.add(Tone::Title, "Validation Result:");
    assert(l@ =~= seq![(Tone::Title, "Validation Result:"@)]);
    emit(&mut out, l);
    let ec = decimal_string(r.error_count() as u64);
    let wc = decimal_string(r.warning_count() as u64);
    let ic = decimal_string(r.info_count() as u64);
    let mut c = Line::new();
    c.plain("  Errors: ");
    c.add(Tone::Alert, ec.as_str());
    c.plain(", Warnings: ");
    c.add(Tone::Accent, wc.as_str());
    c.plain(", Info: ");
    c.add(Tone::Note, ic.as_str());
    assert(c@ =~= seq![p("  Errors: "@), (Tone::Alert, decimal(count_severity(fs, Severity::Error))),
        p(", Warnings: "@), (Tone::Accent, decimal(count_severity(fs, Severity::Warning))), p(", Info: "@),
        (Tone::Note, decimal(count_severity(fs, Severity::Info)))]);
    emit(&mut out, c);
    emit(&mut out, Line::new());
    let ghost head = report_view(out@);
    assert(head =~= seq![Seq::empty(), seq![(Tone::Title, "Validation Result:"@)],
        seq![p("  Errors: "@), (Tone::Alert, decimal(count_severity(fs, Severity::Error))), p(", Warnings: "@),
            (Tone::Accent, decimal(count_severity(fs, Severity::Warning))), p(", Info: "@),
            (Tone::Note, decimal(count_severity(fs, Severity::Info)))],
        Seq::empty()]);
    assert(fs.len() == r.errors@.len());
    if r.errors.len() == 0 {
        let mut n = Line::new();
        n.add(Tone::Mark, "No issues found.");
        assert(n@ =~= seq![(Tone::Mark, "No issues found."@)]);
        emit(&mut out, n);
    } else {
        let ghost f = finding_report();
        let mut i: usize = 0;
        while i < r.errors.len()
            invariant
                i <= r.errors.len(),
                f == finding_report(),
                fs == findings_of(r.errors@),
                report_view(out@) == head + lines_for(fs.take(i as int), f),
            decreases r.errors.len() - i,
        {
            proof {
                lemma_lines_for_step(fs, f, i as int);
                assert(findings_of(seq![r.errors@[i as int]])[0] == fs[i as int]);
                assert(head + lines_for(fs.take(i as int), f) + f(fs[i as int])
                    =~= head + (lines_for(fs.take(i as int), f) + f(fs[i as int])));
            }
            write_finding(&mut out, &r.errors[i]);
            i = i + 1;
        }
        proof {
            lemma_lines_for_all(fs, f);
        }
    }
    let ghost body = report_view(out@);
    assert(body =~= head
        + (if fs.len() == 0 { seq![seq![(Tone::Mark, "No issues found."@)]] } else { lines_for(fs, finding_report()) }));
    emit(&mut out, Line::new());
    let mut v = Line::new();
    if r.is_valid {
        v.add(Tone::Mark, "Validation passed!");
        assert(v@ =~= seq![(Tone::Mark, "Validation passed!"@)]);
    } else {
        v.add(Tone::Alert, "Validation failed. Please fix the errors above.");
        assert(v@ =~= seq![(Tone::Alert, "Validation failed. Please fix the errors above."@)]);
    }
    emit(&mut out, v);
    assert(report_view(out@) =~= validation_report(*r));
    out
}

} // verus!
