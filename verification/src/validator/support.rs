use vstd::prelude::*;
use crate::validator::result::{ValidationResult, ValidationError, Severity, Finding, finding, findings_of, finding_of};
use crate::utils::text::{opt_view, decimal, decimal_string, concat3};

verus! {

/// The findings of applying a check to each item of a sequence, in order;
/// the check sees the item's index and the item.
pub open spec fn gather<T>(items: Seq<T>, check: spec_fn(int, T) -> Seq<Finding>) -> Seq<Finding>
    decreases items.len(),
{
    if items.len() == 0 {
        Seq::empty()
    } else {
        gather(items.drop_last(), check) + check(items.len() - 1, items.last())
    }
}

/// One more item gathered.
pub proof fn lemma_gather_step<T>(items: Seq<T>, check: spec_fn(int, T) -> Seq<Finding>, i: int)
    requires
        0 <= i < items.len(),
    ensures
        gather(items.take(i + 1), check) == gather(items.take(i), check) + check(i, items[i]),
{
    assert(items.take(i + 1).drop_last() =~= items.take(i));
}

/// All items gathered.
pub proof fn lemma_gather_all<T>(items: Seq<T>, check: spec_fn(int, T) -> Seq<Finding>)
    ensures
        gather(items.take(items.len() as int), check) == gather(items, check),
{
    assert(items.take(items.len() as int) =~= items);
}

/// A sequence of no finding or of one.
pub open spec fn finding_if(c: bool, f: Finding) -> Seq<Finding> {
    if c {
        seq![f]
    } else {
        Seq::empty()
    }
}

/// An ASCII capital letter.
pub open spec fn is_upper(c: char) -> bool {
    'A' <= c && c <= 'Z'
}

/// An ASCII decimal digit.
pub open spec fn is_digit(c: char) -> bool {
    '0' <= c && c <= '9'
}

/// Upper snake case: a capital letter, then capitals, digits or underscores.
pub open spec fn upper_snake(s: Seq<char>) -> bool {
    &&& s.len() > 0
    &&& is_upper(s[0])
    &&& forall|k: int| 1 <= k < s.len() ==> is_upper(#[trigger] s[k]) || is_digit(s[k]) || s[k] == '_'
}

/// Calls `Regex::new(pattern)` and `Regex::is_match(text)`. Only the pattern
/// of the ID convention is admitted: it compiles, and it is anchored at the
/// start and the end of the text (`$` matches only at the end without
/// multi-line mode), so a match is exactly the character class test that
/// `upper_snake` states.
#[verifier::external_body]
fn regex_is_match(pattern: &str, text: &str) -> (r: bool)
    requires
        pattern@ == "^[A-Z][A-Z0-9_]*$"@,
    ensures
        r == upper_snake(text@),
{
    regex::Regex::new(pattern).unwrap().is_match(text)
}

/// Whether an ID follows the upper snake case convention.
pub fn is_upper_snake(text: &str) -> (r: bool)
    ensures
        r == upper_snake(text@),
{
    regex_is_match("^[A-Z][A-Z0-9_]*$", text)
}

/// Records a finding built from its parts.
pub fn report(
    result: &mut ValidationResult,
    code: &str,
    rule: &str,
    message: String,
    severity: Severity,
    location: Option<String>,
)
    ensures
        findings_of(final(result).errors@) == findings_of(old(result).errors@).push(
            finding(code@, rule@, message@, severity, opt_view(location)),
        ),
        final(result).is_valid == (old(result).is_valid && severity != Severity::Error),
        old(result).wf() ==> final(result).wf(),
{
    let ghost before = result.errors@;
    let e = ValidationError {
        code: String::from_str(code),
        rule: String::from_str(rule),
        message,
        severity,
        location,
    };
    result.add_error(e);
    assert(findings_of(result.errors@) =~= findings_of(before).push(finding_of(e)));
}

/// `prefix`, the decimal digits of `n`, then `suffix`.
pub fn numbered(prefix: &str, n: usize, suffix: &str) -> (r: String)
    ensures
        r@ == prefix@ + decimal(n as nat) + suffix@,
{
    let digits = decimal_string(n as u64);
    concat3(prefix, digits.as_str(), suffix)
}

/// The length in bytes of the UTF-8 encoding of a text, as `str::len` reports it.
pub open spec fn byte_count(s: Seq<char>) -> usize {
    vstd::utf8::encode_utf8(s).len() as usize
}

/// The length of a text in bytes.
pub fn name_bytes(s: &String) -> (n: usize)
    ensures
        n == byte_count(s@),
{
    s.as_str().len()
}

/// A finding that the check reports on one item is among those gathered
/// from all the items.
pub proof fn lemma_gather_contains<T>(items: Seq<T>, check: spec_fn(int, T) -> Seq<Finding>, i: int, f: Finding)
    requires
        0 <= i < items.len(),
        check(i, items[i]).contains(f),
    ensures
        gather(items, check).contains(f),
    decreases items.len(),
{
    let t = items.drop_last();
    let g = gather(t, check);
    let c = check(items.len() - 1, items.last());
    assert(gather(items, check) == g + c);
    if i == items.len() - 1 {
        let k = choose|k: int| 0 <= k < c.len() && c[k] == f;
        assert((g + c)[g.len() + k] == f);
    } else {
        assert(t[i] == items[i]);
        lemma_gather_contains(t, check, i, f);
        let k = choose|k: int| 0 <= k < g.len() && g[k] == f;
        assert((g + c)[k] == f);
    }
}

/// A finding in the middle part of three is in the whole.
pub proof fn lemma_contains_mid(a: Seq<Finding>, b: Seq<Finding>, c: Seq<Finding>, f: Finding)
    requires
        b.contains(f),
    ensures
        (a + b + c).contains(f),
{
    let k = choose|k: int| 0 <= k < b.len() && b[k] == f;
    assert((a + b + c)[a.len() + k] == f);
}

/// A result that holds an error finding is invalid.
pub proof fn lemma_error_invalidates(r: ValidationResult, f: Finding)
    requires
        r.wf(),
        findings_of(r.errors@).contains(f),
        f.severity == Severity::Error,
    ensures
        !r.is_valid,
{
    let s = findings_of(r.errors@);
    let k = choose|k: int| 0 <= k < s.len() && s[k] == f;
    assert(s[k].severity == Severity::Error);
}

} // verus!
