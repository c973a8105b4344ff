use vstd::prelude::*;
use crate::model::code::code_model::{CodeModel, CodePackage, PackageDependency};
use crate::validator::result::{ValidationResult, Severity, Finding, finding, findings_of};
use crate::validator::support::{
    gather, finding_if, report, lemma_gather_step, lemma_gather_all, upper_snake, is_upper_snake, lemma_gather_contains,
    lemma_contains_mid, lemma_error_invalidates,
};
use crate::validator::cycles::{Edge, cycle_from, walks, lemma_cycle_iff_long_walk};
use crate::utils::keyed::{Keyed, has_key, contains_key};
use crate::utils::text::{concat2, concat3, is_blank, same_text};

verus! {

/// The dependencies as edges between package IDs.
pub open spec fn dependency_edges(ds: Seq<PackageDependency>) -> Seq<Edge> {
    ds.map_values(|d: PackageDependency| (d.from@, d.to@))
}

/// The IDs of the packages, in order.
pub open spec fn package_ids(ps: Seq<CodePackage>) -> Seq<Seq<char>> {
    ps.map_values(|p: CodePackage| p.id@)
}

/// Whether `id` is the non-empty ID of some package.
pub open spec fn known_package(ps: Seq<CodePackage>, id: Seq<char>) -> bool {
    id.len() != 0 && has_key(ps, id)
}

/// The findings on package `i`.
pub open spec fn package_findings(ps: Seq<CodePackage>) -> spec_fn(int, CodePackage) -> Seq<Finding> {
    |i: int, p: CodePackage| {
        let loc = "packages."@ + p.id@;
        finding_if(p.id@.len() == 0, finding("CM001"@, "PackageRequiredFields"@, "Package ID cannot be empty"@,
            Severity::Error, Some(loc)))
        + finding_if(p.name@.len() == 0, finding("CM001"@, "PackageRequiredFields"@,
            "Package '"@ + p.id@ + "' name cannot be empty"@, Severity::Error, Some(loc + ".name"@)))
        + finding_if(p.id@.len() != 0 && has_key(ps.take(i), p.id@), finding("CM002"@, "PackageIdUniqueness"@,
            "Duplicate package ID: "@ + p.id@, Severity::Error, Some(loc)))
        + finding_if(p.id@.len() != 0 && !upper_snake(p.id@), finding("CM003"@, "PackageIdNaming"@,
            "Package ID '"@ + p.id@ + "' does not follow UPPER_SNAKE_CASE convention"@, Severity::Warning,
            Some(loc + ".id"@)))
        + finding_if(p.path is None, finding("CM004"@, "PackagePathRequired"@,
            "Package '"@ + p.id@ + "' should specify a source path"@, Severity::Warning, Some(loc + ".path"@)))
    }
}

/// The findings on a dependency whose ends are not packages.
pub open spec fn dependency_findings(ps: Seq<CodePackage>) -> spec_fn(int, PackageDependency) -> Seq<Finding> {
    |i: int, d: PackageDependency|
        finding_if(!known_package(ps, d.from@), finding("CM005"@, "DependencyReferencesValid"@,
            "Dependency 'from' references non-existent package: "@ + d.from@, Severity::Error,
            Some("dependencies."@ + d.from@)))
        + finding_if(!known_package(ps, d.to@), finding("CM005"@, "DependencyReferencesValid"@,
            "Dependency 'to' references non-existent package: "@ + d.to@, Severity::Error,
            Some("dependencies."@ + d.to@)))
}

/// The finding on a dependency cycle that some package reaches.
pub open spec fn cycle_findings(m: CodeModel) -> Seq<Finding> {
    finding_if(
        m.dependencies@.len() > 0 && m.packages@.len() > 0
            && cycle_from(dependency_edges(m.dependencies@), package_ids(m.packages@)),
        finding("CM006"@, "CircularDependency"@, "Circular dependency detected among packages"@, Severity::Warning, None),
    )
}

/// All findings on a code model, in the order they are checked.
pub open spec fn code_model_findings(m: CodeModel) -> Seq<Finding> {
    gather(m.packages@, package_findings(m.packages@))
        + gather(m.dependencies@, dependency_findings(m.packages@))
        + cycle_findings(m)
}

/// Whether some dependency starts at `node` and ends where a chain of the
/// current length starts (`alive` tells, per dependency, for its end).
fn steps_on(deps: &Vec<PackageDependency>, alive: &Vec<bool>, node: &String, Ghost(k): Ghost<nat>) -> (r: bool)
    requires
        alive@.len() == deps@.len(),
        forall|m: int| 0 <= m < deps@.len() ==> #[trigger] alive@[m] == walks(dependency_edges(deps@), deps@[m].to@, k),
    ensures
        r == walks(dependency_edges(deps@), node@, k + 1),
{
    let ghost es = dependency_edges(deps@);
    let mut m: usize = 0;
    while m < deps.len()
        invariant
            m <= deps.len(),
            es == dependency_edges(deps@),
            alive@.len() == deps@.len(),
            forall|q: int| 0 <= q < deps@.len() ==> #[trigger] alive@[q] == walks(es, deps@[q].to@, k),
            forall|q: int| 0 <= q < m ==> !((#[trigger] es[q]).0 == node@ && walks(es, es[q].1, k)),
        decreases deps.len() - m,
    {
        assert(es[m as int] == (deps@[m as int].from@, deps@[m as int].to@));
        if same_text(&deps[m].from, node) && alive[m] {
            assert(es[m as int].0 == node@ && walks(es, es[m as int].1, k));
            return true;
        }
        m = m + 1;
    }
    false
}

/// Whether some package reaches a dependency cycle.
fn has_cycle(packages: &Vec<CodePackage>, deps: &Vec<PackageDependency>) -> (r: bool)
    ensures
        r == cycle_from(dependency_edges(deps@), package_ids(packages@)),
{
    let ghost es = dependency_edges(deps@);
    let ghost roots = package_ids(packages@);
    let mut alive: Vec<bool> = Vec::new();
    let mut j: usize = 0;
    while j < deps.len()
        invariant
            j <= deps.len(),
            alive@.len() == j,
            forall|m: int| 0 <= m < j ==> #[trigger] alive@[m] == walks(es, deps@[m].to@, 0),
        decreases deps.len() - j,
    {
        alive.push(true);
        j = j + 1;
    }
    let mut k: usize = 0;
    while k < deps.len()
        invariant
            k <= deps.len(),
            es == dependency_edges(deps@),
            alive@.len() == deps@.len(),
            forall|m: int| 0 <= m < deps@.len() ==> #[trigger] alive@[m] == walks(es, deps@[m].to@, k as nat),
        decreases deps.len() - k,
    {
        let mut next: Vec<bool> = Vec::new();
        let mut j: usize = 0;
        while j < deps.len()
            invariant
                j <= deps.len(),
                es == dependency_edges(deps@),
                alive@.len() == deps@.len(),
                forall|m: int| 0 <= m < deps@.len() ==> #[trigger] alive@[m] == walks(es, deps@[m].to@, k as nat),
                next@.len() == j,
                forall|m: int| 0 <= m < j ==> #[trigger] next@[m] == walks(es, deps@[m].to@, (k + 1) as nat),
            decreases deps.len() - j,
        {
            let b = steps_on(deps, &alive, &deps[j].to, Ghost(k as nat));
            next.push(b);
            j = j + 1;
        }
        alive = next;
        k = k + 1;
    }
    let mut x: usize = 0;
    while x < packages.len()
        invariant
            x <= packages.len(),
            es == dependency_edges(deps@),
            roots == package_ids(packages@),
            alive@.len() == deps@.len(),
            forall|m: int| 0 <= m < deps@.len() ==> #[trigger] alive@[m] == walks(es, deps@[m].to@, deps@.len() as nat),
            forall|r: int| 0 <= r < x ==> !walks(es, #[trigger] roots[r], (es.len() + 1) as nat),
        decreases packages.len() - x,
    {
        assert(roots[x as int] == packages@[x as int].id@);
        if steps_on(deps, &alive, &packages[x].id, Ghost(deps@.len() as nat)) {
            proof {
                lemma_cycle_iff_long_walk(es, roots);
            }
            return true;
        }
        x = x + 1;
    }
    proof {
        lemma_cycle_iff_long_walk(es, roots);
    }
    false
}

/// Whether `id` is the non-empty ID of some package.
fn is_known_package(packages: &Vec<CodePackage>, id: &String) -> (r: bool)
    ensures
        r == known_package(packages@, id@),
{
    !is_blank(id) && contains_key(packages, id)
}

/// Checks a code model: package fields, unique IDs, naming and source paths,
/// the ends of every dependency, and dependency cycles.
pub fn validate(model: &CodeModel) -> (r: ValidationResult)
    ensures
        r.wf(),
        findings_of(r.errors@) == code_model_findings(*model),
{
    let mut result = ValidationResult::new();
    assert(findings_of(result.errors@) =~= Seq::<Finding>::empty());
    let ps = &model.packages;
    let ghost check = package_findings(ps@);
    let ghost base = findings_of(result.errors@);
    let mut i: usize = 0;
    while i < ps.len()
        invariant
            i <= ps.len(),
            result.wf(),
            check == package_findings(ps@),
            findings_of(result.errors@) == base + gather(ps@.take(i as int), check),
        decreases ps.len() - i,
    {
        proof {
            lemma_gather_step(ps@, check, i as int);
        }
        check_package(&mut result, ps, i);
        i = i + 1;
    }
    proof {
        lemma_gather_all(ps@, check);
    }
    let ds = &model.dependencies;
    let ghost check = dependency_findings(ps@);
    let ghost base = findings_of(result.errors@);
    let mut i: usize = 0;
    while i < ds.len()
        invariant
            i <= ds.len(),
            result.wf(),
            check == dependency_findings(ps@),
            findings_of(result.errors@) == base + gather(ds@.take(i as int), check),
        decreases ds.len() - i,
    {
        proof {
            lemma_gather_step(ds@, check, i as int);
        }
        let d = &ds[i];
        let ghost before = findings_of(result.errors@);
        if !is_known_package(ps, &d.from) {
            report(&mut result, "CM005", "DependencyReferencesValid",
                concat2("Dependency 'from' references non-existent package: ", d.from.as_str()), Severity::Error,
                Some(concat2("dependencies.", d.from.as_str())));
        }
        if !is_known_package(ps, &d.to) {
            report(&mut result, "CM005", "DependencyReferencesValid",
                concat2("Dependency 'to' references non-existent package: ", d.to.as_str()), Severity::Error,
                Some(concat2("dependencies.", d.to.as_str())));
        }
        assert(findings_of(result.errors@) =~= before + check(i as int, ds@[i as int]));
        i = i + 1;
    }
    proof {
        lemma_gather_all(ds@, check);
    }
    let ghost before = findings_of(result.errors@);
    if ds.len() > 0 && ps.len() > 0 {
        detect_cycles(model, &mut result);
    }
    assert(findings_of(result.errors@) =~= before + cycle_findings(*model));
    result
}

/// Checks package `i`.
fn check_package(result: &mut ValidationResult, ps: &Vec<CodePackage>, i: usize)
    requires
        i < ps@.len(),
    ensures
        old(result).wf() ==> final(result).wf(),
        findings_of(final(result).errors@) == findings_of(old(result).errors@) + package_findings(ps@)(i as int, ps@[i as int]),
{
    let p = &ps[i];
    let ghost before = findings_of(result.errors@);
    let location = concat2("packages.", p.id.as_str());
    if is_blank(&p.id) {
        report(result, "CM001", "PackageRequiredFields", String::from_str("Package ID cannot be empty"),
            Severity::Error, Some(location.clone()));
    }
    if is_blank(&p.name) {
        report(result, "CM001", "PackageRequiredFields",
            concat3("Package '", p.id.as_str(), "' name cannot be empty"), Severity::Error,
            Some(concat2(location.as_str(), ".name")));
    }
    if !is_blank(&p.id) && seen_before(ps, i, &p.id) {
        report(result, "CM002", "PackageIdUniqueness", concat2("Duplicate package ID: ", p.id.as_str()),
            Severity::Error, Some(location.clone()));
    }
    if !is_blank(&p.id) && !is_upper_snake(p.id.as_str()) {
        report(result, "CM003", "PackageIdNaming",
            concat3("Package ID '", p.id.as_str(), "' does not follow UPPER_SNAKE_CASE convention"),
            Severity::Warning, Some(concat2(location.as_str(), ".id")));
    }
    if p.path.is_none() {
        report(result, "CM004", "PackagePathRequired",
            concat3("Package '", p.id.as_str(), "' should specify a source path"), Severity::Warning,
            Some(concat2(location.as_str(), ".path")));
    }
    assert(findings_of(result.errors@) =~= before + package_findings(ps@)(i as int, ps@[i as int]));
}

/// Whether a package before position `i` has ID `id`.
fn seen_before(ps: &Vec<CodePackage>, i: usize, id: &String) -> (r: bool)
    requires
        i <= ps@.len(),
    ensures
        r == has_key(ps@.take(i as int), id@),
{
    let mut k: usize = 0;
    while k < i
        invariant
            k <= i <= ps@.len(),
            forall|q: int| 0 <= q < k ==> #[trigger] ps@[q].id@ != id@,
        decreases i - k,
    {
        if same_text(&ps[k].id, id) {
            assert(ps@.take(i as int)[k as int].key() == id@);
            return true;
        }
        k = k + 1;
    }
    assert forall|q: int| 0 <= q < ps@.take(i as int).len() implies #[trigger] ps@.take(i as int)[q].id@ != id@ by {
        assert(ps@.take(i as int)[q] == ps@[q]);
    }
    false
}

/// Reports, once, a dependency cycle that some package reaches.
fn detect_cycles(model: &CodeModel, result: &mut ValidationResult)
    ensures
        old(result).wf() ==> final(result).wf(),
        findings_of(final(result).errors@) == findings_of(old(result).errors@) + finding_if(
            cycle_from(dependency_edges(model.dependencies@), package_ids(model.packages@)),
            finding("CM006"@, "CircularDependency"@, "Circular dependency detected among packages"@, Severity::Warning, None),
        ),
{
    let ghost before = findings_of(result.errors@);
    if has_cycle(&model.packages, &model.dependencies) {
        report(result, "CM006", "CircularDependency", String::from_str("Circular dependency detected among packages"),
            Severity::Warning, None);
    }
    assert(findings_of(result.errors@) =~= before + finding_if(
        cycle_from(dependency_edges(model.dependencies@), package_ids(model.packages@)),
        finding("CM006"@, "CircularDependency"@, "Circular dependency detected among packages"@, Severity::Warning, None),
    ));
}

/// Whether `id` is the ID of some package and not empty.
pub open spec fn names_package(ps: Seq<CodePackage>, id: Seq<char>) -> bool {
    id.len() > 0 && exists|j: int| 0 <= j < ps.len() && #[trigger] ps[j].id@ == id
}

/// Every dependency whose `from` or `to` end names no package (or is empty)
/// is reported as a CM005 error located at `dependencies.<end>`, and a model
/// with such a dependency is invalid.
pub proof fn lemma_unknown_dependency_end_reported(m: CodeModel, r: ValidationResult, i: int)
    requires
        r.wf(),
        findings_of(r.errors@) == code_model_findings(m),
        0 <= i < m.dependencies@.len(),
    ensures
        !names_package(m.packages@, m.dependencies@[i].from@) ==> {
            &&& findings_of(r.errors@).contains(Finding {
                code: "CM005"@,
                rule: "DependencyReferencesValid"@,
                message: "Dependency 'from' references non-existent package: "@ + m.dependencies@[i].from@,
                severity: Severity::Error,
                location: Some("dependencies."@ + m.dependencies@[i].from@),
            })
            &&& !r.is_valid
        },
        !names_package(m.packages@, m.dependencies@[i].to@) ==> {
            &&& findings_of(r.errors@).contains(Finding {
                code: "CM005"@,
                rule: "DependencyReferencesValid"@,
                message: "Dependency 'to' references non-existent package: "@ + m.dependencies@[i].to@,
                severity: Severity::Error,
                location: Some("dependencies."@ + m.dependencies@[i].to@),
            })
            &&& !r.is_valid
        },
{
    let ps = m.packages@;
    let d = m.dependencies@[i];
    let check = dependency_findings(ps);
    let a = gather(ps, package_findings(ps));
    let c = cycle_findings(m);
    let local = check(i, d);
    let from_f = Finding {
        code: "CM005"@,
        rule: "DependencyReferencesValid"@,
        message: "Dependency 'from' references non-existent package: "@ + d.from@,
        severity: Severity::Error,
        location: Some("dependencies."@ + d.from@),
    };
    let to_f = Finding {
        code: "CM005"@,
        rule: "DependencyReferencesValid"@,
        message: "Dependency 'to' references non-existent package: "@ + d.to@,
        severity: Severity::Error,
        location: Some("dependencies."@ + d.to@),
    };
    if !names_package(ps, d.from@) {
        if known_package(ps, d.from@) {
            let j = choose|j: int| 0 <= j < ps.len() && #[trigger] ps[j].key() == d.from@;
            assert(ps[j].id@ == d.from@);
        }
        assert(local[0] == from_f);
        lemma_gather_contains(m.dependencies@, check, i, from_f);
        lemma_contains_mid(a, gather(m.dependencies@, check), c, from_f);
        lemma_error_invalidates(r, from_f);
    }
    if !names_package(ps, d.to@) {
        if known_package(ps, d.to@) {
            let j = choose|j: int| 0 <= j < ps.len() && #[trigger] ps[j].key() == d.to@;
            assert(ps[j].id@ == d.to@);
        }
        let first = finding_if(!known_package(ps, d.from@), from_f);
        assert(local[first.len() as int] == to_f);
        lemma_gather_contains(m.dependencies@, check, i, to_f);
        lemma_contains_mid(a, gather(m.dependencies@, check), c, to_f);
        lemma_error_invalidates(r, to_f);
    }
}

/// Each package is checked: an empty ID or name is a CM001 error, a
/// non-empty ID outside upper snake case a CM003 warning, and a package
/// without a path a CM004 warning, each located at the package.
pub proof fn lemma_package_checks_reported(m: CodeModel, r: ValidationResult, i: int)
    requires
        findings_of(r.errors@) == code_model_findings(m),
        0 <= i < m.packages@.len(),
    ensures
        m.packages@[i].id@.len() == 0 ==> findings_of(r.errors@).contains(Finding {
            code: "CM001"@,
            rule: "PackageRequiredFields"@,
            message: "Package ID cannot be empty"@,
            severity: Severity::Error,
            location: Some("packages."@ + m.packages@[i].id@),
        }),
        m.packages@[i].name@.len() == 0 ==> findings_of(r.errors@).contains(Finding {
            code: "CM001"@,
            rule: "PackageRequiredFields"@,
            message: "Package '"@ + m.packages@[i].id@ + "' name cannot be empty"@,
            severity: Severity::Error,
            location: Some("packages."@ + m.packages@[i].id@ + ".name"@),
        }),
        m.packages@[i].id@.len() > 0 && !upper_snake(m.packages@[i].id@) ==> findings_of(r.errors@).contains(Finding {
            code: "CM003"@,
            rule: "PackageIdNaming"@,
            message: "Package ID '"@ + m.packages@[i].id@ + "' does not follow UPPER_SNAKE_CASE convention"@,
            severity: Severity::Warning,
            location: Some("packages."@ + m.packages@[i].id@ + ".id"@),
        }),
        m.packages@[i].path is None ==> findings_of(r.errors@).contains(Finding {
            code: "CM004"@,
            rule: "PackagePathRequired"@,
            message: "Package '"@ + m.packages@[i].id@ + "' should specify a source path"@,
            severity: Severity::Warning,
            location: Some("packages."@ + m.packages@[i].id@ + ".path"@),
        }),
{
    let ps = m.packages@;
    let p = ps[i];
    let loc = "packages."@ + p.id@;
    let check = package_findings(ps);
    let local = check(i, p);
    let rest = gather(m.dependencies@, dependency_findings(ps)) + cycle_findings(m);
    assert(code_model_findings(m) =~= Seq::<Finding>::empty() + gather(ps, check) + rest);
    let f1 = finding("CM001"@, "PackageRequiredFields"@, "Package ID cannot be empty"@, Severity::Error, Some(loc));
    let f2 = finding("CM001"@, "PackageRequiredFields"@, "Package '"@ + p.id@ + "' name cannot be empty"@,
        Severity::Error, Some(loc + ".name"@));
    let f3 = finding("CM002"@, "PackageIdUniqueness"@, "Duplicate package ID: "@ + p.id@, Severity::Error, Some(loc));
    let f4 = finding("CM003"@, "PackageIdNaming"@,
        "Package ID '"@ + p.id@ + "' does not follow UPPER_SNAKE_CASE convention"@, Severity::Warning,
        Some(loc + ".id"@));
    let f5 = finding("CM004"@, "PackagePathRequired"@, "Package '"@ + p.id@ + "' should specify a source path"@,
        Severity::Warning, Some(loc + ".path"@));
    let a1 = finding_if(p.id@.len() == 0, f1);
    let a2 = finding_if(p.name@.len() == 0, f2);
    let a3 = finding_if(p.id@.len() != 0 && has_key(ps.take(i), p.id@), f3);
    let a4 = finding_if(p.id@.len() != 0 && !upper_snake(p.id@), f4);
    let a5 = finding_if(p.path is None, f5);
    assert(local == a1 + a2 + a3 + a4 + a5);
    if p.id@.len() == 0 {
        assert(local[0] == f1);
        lemma_gather_contains(ps, check, i, f1);
        lemma_contains_mid(Seq::empty(), gather(ps, check), rest, f1);
    }
    if p.name@.len() == 0 {
        assert(local[a1.len() as int] == f2);
        lemma_gather_contains(ps, check, i, f2);
        lemma_contains_mid(Seq::empty(), gather(ps, check), rest, f2);
    }
    if p.id@.len() > 0 && !upper_snake(p.id@) {
        assert(local[(a1.len() + a2.len() + a3.len()) as int] == f4);
        lemma_gather_contains(ps, check, i, f4);
        lemma_contains_mid(Seq::empty(), gather(ps, check), rest, f4);
    }
    if p.path is None {
        assert(local[(a1.len() + a2.len() + a3.len() + a4.len()) as int] == f5);
        lemma_gather_contains(ps, check, i, f5);
        lemma_contains_mid(Seq::empty(), gather(ps, check), rest, f5);
    }
}

} // verus!
