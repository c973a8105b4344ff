use vstd::prelude::*;
use crate::model::c4::context::{
    Actor, ContextDiagram, ExternalSystem, Interface, InterfaceProvider, InterfaceUsage, element_ids,
};
use crate::validator::result::{ValidationResult, Severity, Finding, finding, findings_of};
use crate::validator::support::{gather, finding_if, report, numbered, lemma_gather_step, lemma_gather_all};
use crate::utils::keyed::{has_key, contains_key};
use crate::utils::text::{decimal, is_blank, concat2, concat3, has_text, contains_text, same_text};

verus! {

/// The findings on the system's required fields.
pub open spec fn system_fields(d: ContextDiagram) -> Seq<Finding> {
    finding_if(
        d.system.id@.len() == 0,
        finding("C001"@, "SystemRequiredFields"@, "System ID cannot be empty"@, Severity::Error, Some("system.id"@)),
    ) + finding_if(
        d.system.name@.len() == 0,
        finding("C001"@, "SystemRequiredFields"@, "System name cannot be empty"@, Severity::Error, Some("system.name"@)),
    )
}

/// The findings on an actor's required fields.
pub open spec fn actor_fields() -> spec_fn(int, Actor) -> Seq<Finding> {
    |i: int, a: Actor|
        finding_if(
            a.id@.len() == 0,
            finding(
                "C002"@,
                "ActorRequiredFields"@,
                "Actor at index "@ + decimal(i as nat) + " has empty ID"@,
                Severity::Error,
                Some("actors["@ + decimal(i as nat) + "].id"@),
            ),
        ) + finding_if(
            a.name@.len() == 0,
            finding(
                "C002"@,
                "ActorRequiredFields"@,
                "Actor '"@ + a.id@ + "' has empty name"@,
                Severity::Error,
                Some("actors["@ + decimal(i as nat) + "].name"@),
            ),
        )
}

/// The findings on an external system's required fields.
pub open spec fn external_fields() -> spec_fn(int, ExternalSystem) -> Seq<Finding> {
    |i: int, e: ExternalSystem|
        finding_if(
            e.id@.len() == 0,
            finding(
                "C003"@,
                "ExternalSystemRequiredFields"@,
                "External system at index "@ + decimal(i as nat) + " has empty ID"@,
                Severity::Error,
                Some("external_systems["@ + decimal(i as nat) + "].id"@),
            ),
        ) + finding_if(
            e.name@.len() == 0,
            finding(
                "C003"@,
                "ExternalSystemRequiredFields"@,
                "External system '"@ + e.id@ + "' has empty name"@,
                Severity::Error,
                Some("external_systems["@ + decimal(i as nat) + "].name"@),
            ),
        )
}

/// The findings on an interface's required fields.
pub open spec fn interface_fields() -> spec_fn(int, Interface) -> Seq<Finding> {
    |i: int, f: Interface|
        finding_if(
            f.id@.len() == 0,
            finding(
                "C004"@,
                "InterfaceRequiredFields"@,
                "Interface at index "@ + decimal(i as nat) + " has empty ID"@,
                Severity::Error,
                Some("interfaces["@ + decimal(i as nat) + "].id"@),
            ),
        ) + finding_if(
            f.name@.len() == 0,
            finding(
                "C004"@,
                "InterfaceRequiredFields"@,
                "Interface '"@ + f.id@ + "' has empty name"@,
                Severity::Error,
                Some("interfaces["@ + decimal(i as nat) + "].name"@),
            ),
        )
}

/// Whether some provider entry lists interface `id`.
pub open spec fn is_provided(ps: Seq<InterfaceProvider>, id: Seq<char>) -> bool {
    exists|k: int| 0 <= k < ps.len() && has_text(#[trigger] ps[k].interfaces@, id)
}

/// The finding for an interface that no provider lists.
pub open spec fn unprovided(ps: Seq<InterfaceProvider>) -> spec_fn(int, Interface) -> Seq<Finding> {
    |i: int, f: Interface|
        finding_if(
            !is_provided(ps, f.id@),
            finding(
                "C005"@,
                "InterfaceMustHaveProvider"@,
                "Interface '"@ + f.id@ + "' has no provider defined"@,
                Severity::Warning,
                Some("interfaces.id="@ + f.id@),
            ),
        )
}

/// The findings for the interface IDs of usage entry `i` (or provider entry
/// `i`) that name no interface.
pub open spec fn unknown_interfaces(d: ContextDiagram, i: int, for_usage: bool) -> spec_fn(int, String) -> Seq<Finding> {
    |j: int, x: String|
        finding_if(
            !has_key(d.interfaces@, x@),
            finding(
                if for_usage { "C006"@ } else { "C007"@ },
                if for_usage { "InterfaceUsageInterfaceExists"@ } else { "InterfaceProviderInterfaceExists"@ },
                (if for_usage { "Interface usage"@ } else { "Interface provider"@ })
                    + " references non-existent interface: "@ + x@,
                Severity::Error,
                Some(
                    (if for_usage { "interface_usages["@ } else { "interface_providers["@ })
                        + decimal(i as nat) + "].interfaces"@,
                ),
            ),
        )
}

/// The findings on an interface usage: its actor and its interfaces must exist.
pub open spec fn usage_refs(d: ContextDiagram) -> spec_fn(int, InterfaceUsage) -> Seq<Finding> {
    |i: int, u: InterfaceUsage|
        finding_if(
            !element_ids(d).contains(u.actor@),
            finding(
                "C006"@,
                "InterfaceUsageActorExists"@,
                "Interface usage references non-existent actor: "@ + u.actor@,
                Severity::Error,
                Some("interface_usages["@ + decimal(i as nat) + "].actor"@),
            ),
        ) + gather(
            u.interfaces@,
            unknown_interfaces(d, i, true),
        )
}

/// The findings on an interface provider: its system and its interfaces must exist.
pub open spec fn provider_refs(d: ContextDiagram) -> spec_fn(int, InterfaceProvider) -> Seq<Finding> {
    |i: int, p: InterfaceProvider|
        finding_if(
            p.system@ != d.system.id@ && !has_key(d.external_systems@, p.system@),
            finding(
                "C007"@,
                "InterfaceProviderSystemExists"@,
                "Interface provider references non-existent system: "@ + p.system@,
                Severity::Error,
                Some("interface_providers["@ + decimal(i as nat) + "].system"@),
            ),
        ) + gather(
            p.interfaces@,
            unknown_interfaces(d, i, false),
        )
}

/// All completeness findings of a context diagram, in the order they are checked.
pub open spec fn completeness_findings(d: ContextDiagram) -> Seq<Finding> {
    system_fields(d)
        + gather(d.actors@, actor_fields())
        + gather(d.external_systems@, external_fields())
        + gather(d.interfaces@, interface_fields())
        + gather(d.interfaces@, unprovided(d.interface_providers@))
        + gather(d.interface_usages@, usage_refs(d))
        + gather(d.interface_providers@, provider_refs(d))
}

fn provided(ps: &Vec<InterfaceProvider>, id: &String) -> (r: bool)
    ensures
        r == is_provided(ps@, id@),
{
    let mut k: usize = 0;
    while k < ps.len()
        invariant
            k <= ps.len(),
            forall|j: int| 0 <= j < k ==> !has_text(#[trigger] ps@[j].interfaces@, id@),
        decreases ps.len() - k,
    {
        if contains_text(&ps[k].interfaces, id) {
            return true;
        }
        k = k + 1;
    }
    false
}

/// Checks the interface IDs of one usage or provider entry.
fn check_interface_refs(d: &ContextDiagram, ids: &Vec<String>, i: usize, for_usage: bool, result: &mut ValidationResult)
    ensures
        old(result).wf() ==> final(result).wf(),
        findings_of(final(result).errors@) == findings_of(old(result).errors@)
            + gather(ids@, unknown_interfaces(*d, i as int, for_usage)),
{
    let ghost was_wf = result.wf();
    let ghost base = findings_of(result.errors@);
    let ghost check = unknown_interfaces(*d, i as int, for_usage);
    let mut j: usize = 0;
    while j < ids.len()
        invariant
            j <= ids.len(),
            was_wf ==> result.wf(),
            check == unknown_interfaces(*d, i as int, for_usage),
            findings_of(result.errors@) == base + gather(ids@.take(j as int), check),
        decreases ids.len() - j,
    {
        proof {
            lemma_gather_step(ids@, check, j as int);
        }
        if !contains_key(&d.interfaces, &ids[j]) {
            if for_usage {
                report(
                    result,
                    "C006",
                    "InterfaceUsageInterfaceExists",
                    concat3("Interface usage", " references non-existent interface: ", ids[j].as_str()),
                    Severity::Error,
                    Some(numbered("interface_usages[", i, "].interfaces")),
                );
            } else {
                report(
                    result,
                    "C007",
                    "InterfaceProviderInterfaceExists",
                    concat3("Interface provider", " references non-existent interface: ", ids[j].as_str()),
                    Severity::Error,
                    Some(numbered("interface_providers[", i, "].interfaces")),
                );
            }
        }
        j = j + 1;
    }
    proof {
        lemma_gather_all(ids@, check);
    }
}

/// Checks that required fields are set and that every reference of the
/// interface usages and providers names an existing element.
pub fn validate(diagram: &ContextDiagram) -> (r: ValidationResult)
    ensures
        r.wf(),
        findings_of(r.errors@) == completeness_findings(*diagram),
{
    let d = diagram;
    let mut result = ValidationResult::new();
    assert(findings_of(result.errors@) =~= Seq::<Finding>::empty());
    if is_blank(&d.system.id) {
        report(&mut result, "C001", "SystemRequiredFields", String::from_str("System ID cannot be empty"),
            Severity::Error, Some(String::from_str("system.id")));
    }
    if is_blank(&d.system.name) {
        report(&mut result, "C001", "SystemRequiredFields", String::from_str("System name cannot be empty"),
            Severity::Error, Some(String::from_str("system.name")));
    }
    assert(findings_of(result.errors@) =~= system_fields(*d));

    let ghost base = findings_of(result.errors@);
    let mut i: usize = 0;
    while i < d.actors.len()
        invariant
            i <= d.actors.len(),
            result.wf(),
            findings_of(result.errors@) == base + gather(d.actors@.take(i as int), actor_fields()),
        decreases d.actors.len() - i,
    {
        proof {
            lemma_gather_step(d.actors@, actor_fields(), i as int);
        }
        let a = &d.actors[i];
        let ghost before = findings_of(result.errors@);
        if is_blank(&a.id) {
            report(&mut result, "C002", "ActorRequiredFields", numbered("Actor at index ", i, " has empty ID"),
                Severity::Error, Some(numbered("actors[", i, "].id")));
        }
        if is_blank(&a.name) {
            report(&mut result, "C002", "ActorRequiredFields", concat3("Actor '", a.id.as_str(), "' has empty name"),
                Severity::Error, Some(numbered("actors[", i, "].name")));
        }
        assert(findings_of(result.errors@) =~= before + actor_fields()(i as int, d.actors@[i as int]));
        i = i + 1;
    }
    proof {
        lemma_gather_all(d.actors@, actor_fields());
    }

    let ghost base = findings_of(result.errors@);
    let mut i: usize = 0;
    while i < d.external_systems.len()
        invariant
            i <= d.external_systems.len(),
            result.wf(),
            findings_of(result.errors@) == base + gather(d.external_systems@.take(i as int), external_fields()),
        decreases d.external_systems.len() - i,
    {
        proof {
            lemma_gather_step(d.external_systems@, external_fields(), i as int);
        }
        let e = &d.external_systems[i];
        let ghost before = findings_of(result.errors@);
        if is_blank(&e.id) {
            report(&mut result, "C003", "ExternalSystemRequiredFields",
                numbered("External system at index ", i, " has empty ID"), Severity::Error,
                Some(numbered("external_systems[", i, "].id")));
        }
        if is_blank(&e.name) {
            report(&mut result, "C003", "ExternalSystemRequiredFields",
                concat3("External system '", e.id.as_str(), "' has empty name"), Severity::Error,
                Some(numbered("external_systems[", i, "].name")));
        }
        assert(findings_of(result.errors@) =~= before + external_fields()(i as int, d.external_systems@[i as int]));
        i = i + 1;
    }
    proof {
        lemma_gather_all(d.external_systems@, external_fields());
    }

    let ghost base = findings_of(result.errors@);
    let mut i: usize = 0;
    while i < d.interfaces.len()
        invariant
            i <= d.interfaces.len(),
            result.wf(),
            findings_of(result.errors@) == base + gather(d.interfaces@.take(i as int), interface_fields()),
        decreases d.interfaces.len() - i,
    {
        proof {
            lemma_gather_step(d.interfaces@, interface_fields(), i as int);
        }
        let f = &d.interfaces[i];
        let ghost before = findings_of(result.errors@);
        if is_blank(&f.id) {
            report(&mut result, "C004", "InterfaceRequiredFields", numbered("Interface at index ", i, " has empty ID"),
                Severity::Error, Some(numbered("interfaces[", i, "].id")));
        }
        if is_blank(&f.name) {
            report(&mut result, "C004", "InterfaceRequiredFields",
                concat3("Interface '", f.id.as_str(), "' has empty name"), Severity::Error,
                Some(numbered("interfaces[", i, "].name")));
        }
        assert(findings_of(result.errors@) =~= before + interface_fields()(i as int, d.interfaces@[i as int]));
        i = i + 1;
    }
    proof {
        lemma_gather_all(d.interfaces@, interface_fields());
    }

    let ghost base = findings_of(result.errors@);
    let ghost check = unprovided(d.interface_providers@);
    let mut i: usize = 0;
    while i < d.interfaces.len()
        invariant
            i <= d.interfaces.len(),
            result.wf(),
            check == unprovided(d.interface_providers@),
            findings_of(result.errors@) == base + gather(d.interfaces@.take(i as int), check),
        decreases d.interfaces.len() - i,
    {
        proof {
            lemma_gather_step(d.interfaces@, check, i as int);
        }
        let f = &d.interfaces[i];
        let ghost before = findings_of(result.errors@);
        if !provided(&d.interface_providers, &f.id) {
            report(&mut result, "C005", "InterfaceMustHaveProvider",
                concat3("Interface '", f.id.as_str(), "' has no provider defined"), Severity::Warning,
                Some(concat2("interfaces.id=", f.id.as_str())));
        }
        assert(findings_of(result.errors@) =~= before + check(i as int, d.interfaces@[i as int]));
        i = i + 1;
    }
    proof {
        lemma_gather_all(d.interfaces@, check);
    }

    let ghost base = findings_of(result.errors@);
    let ghost check = usage_refs(*d);
    let known = d.all_element_ids();
    assert(known@.map_values(|s: &str| s@) =~= element_ids(*d));
    let mut i: usize = 0;
    while i < d.interface_usages.len()
        invariant
            i <= d.interface_usages.len(),
            result.wf(),
            check == usage_refs(*d),
            known@.map_values(|s: &str| s@) == element_ids(*d),
            findings_of(result.errors@) == base + gather(d.interface_usages@.take(i as int), check),
        decreases d.interface_usages.len() - i,
    {
        proof {
            lemma_gather_step(d.interface_usages@, check, i as int);
        }
        let u = &d.interface_usages[i];
        let ghost before = findings_of(result.errors@);
        if !holds(&known, u.actor.as_str()) {
            report(&mut result, "C006", "InterfaceUsageActorExists",
                concat2("Interface usage references non-existent actor: ", u.actor.as_str()), Severity::Error,
                Some(numbered("interface_usages[", i, "].actor")));
        }
        let ghost mid = findings_of(result.errors@);
        check_interface_refs(d, &u.interfaces, i, true, &mut result);
        assert(findings_of(result.errors@) =~= before + check(i as int, d.interface_usages@[i as int]));
        i = i + 1;
    }
    proof {
        lemma_gather_all(d.interface_usages@, check);
    }

    let ghost base = findings_of(result.errors@);
    let ghost check = provider_refs(*d);
    let mut i: usize = 0;
    while i < d.interface_providers.len()
        invariant
            i <= d.interface_providers.len(),
            result.wf(),
            check == provider_refs(*d),
            findings_of(result.errors@) == base + gather(d.interface_providers@.take(i as int), check),
        decreases d.interface_providers.len() - i,
    {
        proof {
            lemma_gather_step(d.interface_providers@, check, i as int);
        }
        let p = &d.interface_providers[i];
        let ghost before = findings_of(result.errors@);
        if !same_text(&p.system, &d.system.id) && !contains_key(&d.external_systems, &p.system) {
            report(&mut result, "C007", "InterfaceProviderSystemExists",
                concat2("Interface provider references non-existent system: ", p.system.as_str()), Severity::Error,
                Some(numbered("interface_providers[", i, "].system")));
        }
        check_interface_refs(d, &p.interfaces, i, false, &mut result);
        assert(findings_of(result.errors@) =~= before + check(i as int, d.interface_providers@[i as int]));
        i = i + 1;
    }
    proof {
        lemma_gather_all(d.interface_providers@, check);
    }
    result
}

/// Whether some text of `v` equals `x`.
fn holds(v: &Vec<&str>, x: &str) -> (r: bool)
    ensures
        r == v@.map_values(|s: &str| s@).contains(x@),
{
    let ghost views = v@.map_values(|s: &str| s@);
    let key = String::from_str(x);
    let mut k: usize = 0;
    while k < v.len()
        invariant
            k <= v.len(),
            key@ == x@,
            views == v@.map_values(|s: &str| s@),
            forall|j: int| 0 <= j < k ==> views[j] != x@,
        decreases v.len() - k,
    {
        let item = String::from_str(v[k]);
        if same_text(&item, &key) {
            assert(views[k as int] == x@);
            return true;
        }
        k = k + 1;
    }
    false
}

} // verus!
