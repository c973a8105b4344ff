use vstd::prelude::*;
use crate::model::delivery::delivery_model::{DeliveryModel, DeliveryPackage};
use crate::validator::result::{ValidationResult, Severity, Finding, finding, findings_of};
use crate::validator::support::{gather, finding_if, report, lemma_gather_step, lemma_gather_all, upper_snake, is_upper_snake};
use crate::utils::keyed::{Keyed, has_key};
use crate::utils::text::{concat2, concat3, is_blank, same_text};

verus! {

/// The findings on package `i`.
pub open spec fn package_findings(ps: Seq<DeliveryPackage>) -> spec_fn(int, DeliveryPackage) -> Seq<Finding> {
    |i: int, p: DeliveryPackage| {
        let loc = "packages."@ + p.id@;
        finding_if(p.id@.len() == 0, finding("DM001"@, "PackageRequiredFields"@, "Package ID cannot be empty"@,
            Severity::Error, Some(loc)))
        + finding_if(p.name@.len() == 0, finding("DM001"@, "PackageRequiredFields"@,
            "Package '"@ + p.id@ + "' name cannot be empty"@, Severity::Error, Some(loc + ".name"@)))
        + finding_if(p.id@.len() != 0 && has_key(ps.take(i), p.id@), finding("DM002"@, "PackageIdUniqueness"@,
            "Duplicate package ID: "@ + p.id@, Severity::Error, Some(loc)))
        + finding_if(p.id@.len() != 0 && !upper_snake(p.id@), finding("DM003"@, "PackageIdNaming"@,
            "Package ID '"@ + p.id@ + "' does not follow UPPER_SNAKE_CASE convention"@, Severity::Warning,
            Some(loc + ".id"@)))
        + finding_if(p.version is None, finding("DM004"@, "VersionRequired"@,
            "Package '"@ + p.id@ + "' should have a version specified"@, Severity::Warning, Some(loc + ".version"@)))
    }
}

/// All findings on a delivery model, in the order they are checked.
pub open spec fn delivery_model_findings(m: DeliveryModel) -> Seq<Finding> {
    gather(m.packages@, package_findings(m.packages@))
        + finding_if(m.packages@.len() == 0, finding("DM005"@, "MinPackages"@,
            "Delivery model should have at least 1 package"@, Severity::Warning, None))
}

/// Whether a package before position `i` has ID `id`.
fn seen_before(ps: &Vec<DeliveryPackage>, i: usize, id: &String) -> (r: bool)
    requires
        i <= ps@.len(),
    ensures
        r == has_key(ps@.take(i as int), id@),
{
    let mut k: usize = 0;
    while k < i
        invariant
            k <= i <= ps@.len(),
            forall|q: int| 0 <= q < k ==> #[trigger] ps@[q].id@ != id@,
        decreases i - k,
    {
        if same_text(&ps[k].id, id) {
            assert(ps@.take(i as int)[k as int].key() == id@);
            return true;
        }
        k = k + 1;
    }
    assert forall|q: int| 0 <= q < ps@.take(i as int).len() implies #[trigger] ps@.take(i as int)[q].id@ != id@ by {
        assert(ps@.take(i as int)[q] == ps@[q]);
    }
    false
}

/// Checks package `i`.
fn check_package(result: &mut ValidationResult, ps: &Vec<DeliveryPackage>, i: usize)
    requires
        i < ps@.len(),
    ensures
        old(result).wf() ==> final(result).wf(),
        findings_of(final(result).errors@) == findings_of(old(result).errors@) + package_findings(ps@)(i as int, ps@[i as int]),
{
    let p = &ps[i];
    let ghost before = findings_of(result.errors@);
    let location = concat2("packages.", p.id.as_str());
    if is_blank(&p.id) {
        report(result, "DM001", "PackageRequiredFields", String::from_str("Package ID cannot be empty"),
            Severity::Error, Some(location.clone()));
    }
    if is_blank(&p.name) {
        report(result, "DM001", "PackageRequiredFields", concat3("Package '", p.id.as_str(), "' name cannot be empty"),
            Severity::Error, Some(concat2(location.as_str(), ".name")));
    }
    if !is_blank(&p.id) && seen_before(ps, i, &p.id) {
        report(result, "DM002", "PackageIdUniqueness", concat2("Duplicate package ID: ", p.id.as_str()),
            Severity::Error, Some(location.clone()));
    }
    if !is_blank(&p.id) && !is_upper_snake(p.id.as_str()) {
        report(result, "DM003", "PackageIdNaming",
            concat3("Package ID '", p.id.as_str(), "' does not follow UPPER_SNAKE_CASE convention"),
            Severity::Warning, Some(concat2(location.as_str(), ".id")));
    }
    if p.version.is_none() {
        report(result, "DM004", "VersionRequired",
            concat3("Package '", p.id.as_str(), "' should have a version specified"), Severity::Warning,
            Some(concat2(location.as_str(), ".version")));
    }
    assert(findings_of(result.errors@) =~= before + package_findings(ps@)(i as int, ps@[i as int]));
}

/// Checks a delivery model: package fields, unique IDs, naming and versions,
/// and that there is a package.
pub fn validate(model: &DeliveryModel) -> (r: ValidationResult)
    ensures
        r.wf(),
        findings_of(r.errors@) == delivery_model_findings(*model),
{
    let mut result = ValidationResult::new();
    assert(findings_of(result.errors@) =~= Seq::<Finding>::empty());
    let ps = &model.packages;
    let ghost check = package_findings(ps@);
    let ghost base = findings_of(result.errors@);
    let mut i: usize = 0;
    while i < ps.len()
        invariant
            i <= ps.len(),
            result.wf(),
            check == package_findings(ps@),
            findings_of(result.errors@) == base + gather(ps@.take(i as int), check),
        decreases ps.len() - i,
    {
        proof {
            lemma_gather_step(ps@, check, i as int);
        }
        check_package(&mut result, ps, i);
        i = i + 1;
    }
    proof {
        lemma_gather_all(ps@, check);
    }
    let ghost before = findings_of(result.errors@);
    if ps.len() == 0 {
        report(&mut result, "DM005", "MinPackages", String::from_str("Delivery model should have at least 1 package"),
            Severity::Warning, None);
    }
    assert(findings_of(result.errors@) =~= before + finding_if(ps@.len() == 0, finding("DM005"@, "MinPackages"@,
        "Delivery model should have at least 1 package"@, Severity::Warning, None)));
    result
}

} // verus!
