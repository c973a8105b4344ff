use vstd::prelude::*;
use crate::model::c4::context::{Actor, ContextDiagram, ExternalSystem, Interface, InterfaceUsage};
use crate::validator::result::{ValidationResult, Severity, Finding, finding, findings_of};
use crate::validator::support::{gather, finding_if, report, lemma_gather_step, lemma_gather_all};
use crate::utils::keyed::{has_key, contains_key};
use crate::utils::text::{concat2, concat3, concat4, has_text, contains_text};

verus! {

/// Each element ID with the kind of element it names: the system, the
/// actors, the external systems and the interfaces, in that order.
pub open spec fn id_entries(d: ContextDiagram) -> Seq<(Seq<char>, Seq<char>)> {
    seq![(d.system.id@, "system"@)]
        + d.actors@.map_values(|a: Actor| (a.id@, "actor"@))
        + d.external_systems@.map_values(|e: ExternalSystem| (e.id@, "external_system"@))
        + d.interfaces@.map_values(|f: Interface| (f.id@, "interface"@))
}

/// The IDs of some entries.
pub open spec fn entry_ids(es: Seq<(Seq<char>, Seq<char>)>) -> Seq<Seq<char>> {
    es.map_values(|e: (Seq<char>, Seq<char>)| e.0)
}

/// A finding for each entry whose ID an earlier entry already has.
pub open spec fn duplicate_check(es: Seq<(Seq<char>, Seq<char>)>) -> spec_fn(int, (Seq<char>, Seq<char>)) -> Seq<Finding> {
    |k: int, e: (Seq<char>, Seq<char>)|
        finding_if(
            entry_ids(es.take(k)).contains(e.0),
            finding(
                "S001"@,
                "IdUniqueness"@,
                "Duplicate ID '"@ + e.0 + "' found in "@ + e.1,
                Severity::Error,
                Some("elements.id="@ + e.0),
            ),
        )
}

/// Whether some usage entry lists interface `id`.
pub open spec fn is_used(us: Seq<InterfaceUsage>, id: Seq<char>) -> bool {
    exists|k: int| 0 <= k < us.len() && has_text(#[trigger] us[k].interfaces@, id)
}

/// A finding for an interface that no usage lists.
pub open spec fn unused_interface(us: Seq<InterfaceUsage>) -> spec_fn(int, Interface) -> Seq<Finding> {
    |i: int, f: Interface|
        finding_if(
            !is_used(us, f.id@),
            finding(
                "S002"@,
                "OrphanInterface"@,
                "Interface '"@ + f.id@ + "' is defined but not used by any actor"@,
                Severity::Warning,
                Some("interfaces.id="@ + f.id@),
            ),
        )
}

/// A finding for an actor without a usage entry.
pub open spec fn idle_actor(d: ContextDiagram) -> spec_fn(int, Actor) -> Seq<Finding> {
    |i: int, a: Actor|
        finding_if(
            !has_key(d.interface_usages@, a.id@),
            finding(
                "S003"@,
                "OrphanActor"@,
                "Actor '"@ + a.id@ + "' has no interface usage defined"@,
                Severity::Warning,
                Some("actors.id="@ + a.id@),
            ),
        )
}

/// A finding for an external system that neither provides nor uses an interface.
pub open spec fn idle_external(d: ContextDiagram) -> spec_fn(int, ExternalSystem) -> Seq<Finding> {
    |i: int, e: ExternalSystem|
        finding_if(
            !has_key(d.interface_providers@, e.id@) && !has_key(d.interface_usages@, e.id@),
            finding(
                "S003"@,
                "OrphanExternalSystem"@,
                "External system '"@ + e.id@ + "' neither provides nor uses any interfaces"@,
                Severity::Warning,
                Some("external_systems.id="@ + e.id@),
            ),
        )
}

/// All consistency findings of a context diagram, in the order they are checked.
pub open spec fn consistency_findings(d: ContextDiagram) -> Seq<Finding> {
    gather(id_entries(d), duplicate_check(id_entries(d)))
        + gather(d.interfaces@, unused_interface(d.interface_usages@))
        + gather(d.actors@, idle_actor(d))
        + gather(d.external_systems@, idle_external(d))
}

/// The characters of an ID entry.
pub open spec fn entry_view(e: (&str, &str)) -> (Seq<char>, Seq<char>) {
    (e.0@, e.1@)
}

/// The element IDs with their kinds, in the order of `id_entries`.
fn collect_entries(d: &ContextDiagram) -> (r: Vec<(&str, &str)>)
    ensures
        r@.map_values(|e: (&str, &str)| entry_view(e)) == id_entries(*d),
{
    let mut out: Vec<(&str, &str)> = Vec::new();
    out.push((d.system.id.as_str(), "system"));
    let ghost part = seq![(d.system.id@, "system"@)];
    assert(out@.map_values(|e: (&str, &str)| entry_view(e)) =~= part);
    let mut i: usize = 0;
    while i < d.actors.len()
        invariant
            i <= d.actors.len(),
            out@.map_values(|e: (&str, &str)| entry_view(e))
                == part + d.actors@.take(i as int).map_values(|a: Actor| (a.id@, "actor"@)),
        decreases d.actors.len() - i,
    {
        let ghost old_out = out@;
        out.push((d.actors[i].id.as_str(), "actor"));
        assert(out@.map_values(|e: (&str, &str)| entry_view(e))
            =~= old_out.map_values(|e: (&str, &str)| entry_view(e)).push((d.actors@[i as int].id@, "actor"@)));
        assert(d.actors@.take(i + 1).map_values(|a: Actor| (a.id@, "actor"@))
            =~= d.actors@.take(i as int).map_values(|a: Actor| (a.id@, "actor"@)).push((d.actors@[i as int].id@, "actor"@)));
        i = i + 1;
    }
    assert(d.actors@.take(d.actors@.len() as int) =~= d.actors@);
    let ghost part = part + d.actors@.map_values(|a: Actor| (a.id@, "actor"@));
    let mut i: usize = 0;
    while i < d.external_systems.len()
        invariant
            i <= d.external_systems.len(),
            out@.map_values(|e: (&str, &str)| entry_view(e)) == part + d.external_systems@.take(i as int).map_values(
                |e: ExternalSystem| (e.id@, "external_system"@),
            ),
        decreases d.external_systems.len() - i,
    {
        let ghost old_out = out@;
        out.push((d.external_systems[i].id.as_str(), "external_system"));
        assert(out@.map_values(|e: (&str, &str)| entry_view(e))
            =~= old_out.map_values(|e: (&str, &str)| entry_view(e)).push(
            (d.external_systems@[i as int].id@, "external_system"@),
        ));
        assert(d.external_systems@.take(i + 1).map_values(|e: ExternalSystem| (e.id@, "external_system"@))
            =~= d.external_systems@.take(i as int).map_values(|e: ExternalSystem| (e.id@, "external_system"@)).push(
            (d.external_systems@[i as int].id@, "external_system"@),
        ));
        i = i + 1;
    }
    assert(d.external_systems@.take(d.external_systems@.len() as int) =~= d.external_systems@);
    let ghost part = part + d.external_systems@.map_values(|e: ExternalSystem| (e.id@, "external_system"@));
    let mut i: usize = 0;
    while i < d.interfaces.len()
        invariant
            i <= d.interfaces.len(),
            out@.map_values(|e: (&str, &str)| entry_view(e)) == part + d.interfaces@.take(i as int).map_values(
                |f: Interface| (f.id@, "interface"@),
            ),
        decreases d.interfaces.len() - i,
    {
        let ghost old_out = out@;
        out.push((d.interfaces[i].id.as_str(), "interface"));
        assert(out@.map_values(|e: (&str, &str)| entry_view(e))
            =~= old_out.map_values(|e: (&str, &str)| entry_view(e)).push((d.interfaces@[i as int].id@, "interface"@)));
        assert(d.interfaces@.take(i + 1).map_values(|f: Interface| (f.id@, "interface"@))
            =~= d.interfaces@.take(i as int).map_values(|f: Interface| (f.id@, "interface"@)).push(
            (d.interfaces@[i as int].id@, "interface"@),
        ));
        i = i + 1;
    }
    assert(d.interfaces@.take(d.interfaces@.len() as int) =~= d.interfaces@);
    out
}

fn used(us: &Vec<InterfaceUsage>, id: &String) -> (r: bool)
    ensures
        r == is_used(us@, id@),
{
    let mut k: usize = 0;
    while k < us.len()
        invariant
            k <= us.len(),
            forall|j: int| 0 <= j < k ==> !has_text(#[trigger] us@[j].interfaces@, id@),
        decreases us.len() - k,
    {
        if contains_text(&us[k].interfaces, id) {
            return true;
        }
        k = k + 1;
    }
    false
}

/// Checks that element IDs are unique and that interfaces, actors and
/// external systems take part in some relation.
pub fn validate(diagram: &ContextDiagram) -> (r: ValidationResult)
    ensures
        r.wf(),
        findings_of(r.errors@) == consistency_findings(*diagram),
{
    let d = diagram;
    let mut result = ValidationResult::new();
    assert(findings_of(result.errors@) =~= Seq::<Finding>::empty());
    check_id_uniqueness(d, &mut result);
    check_orphan_interfaces(d, &mut result);
    check_orphan_actors(d, &mut result);
    result
}

/// Reports each element ID (system, actors, external systems, interfaces)
/// that an earlier element already has.
fn check_id_uniqueness(d: &ContextDiagram, result: &mut ValidationResult)
    ensures
        old(result).wf() ==> final(result).wf(),
        findings_of(final(result).errors@) == findings_of(old(result).errors@)
            + gather(id_entries(*d), duplicate_check(id_entries(*d))),
{
    let ghost was_wf = result.wf();
    let entries = collect_entries(d);
    let ghost es = id_entries(*d);
    let ghost check = duplicate_check(es);
    let ghost base = findings_of(result.errors@);
    let mut seen: Vec<String> = Vec::new();
    let mut k: usize = 0;
    assert(es.len() == entries@.len()) by {
        assert(entries@.map_values(|e: (&str, &str)| entry_view(e)).len() == entries@.len());
    }
    while k < entries.len()
        invariant
            k <= entries.len(),
            es.len() == entries@.len(),
            es == id_entries(*d),
            check == duplicate_check(es),
            entries@.map_values(|e: (&str, &str)| entry_view(e)) == es,
            was_wf ==> result.wf(),
            forall|x: Seq<char>| has_text(seen@, x) <==> #[trigger] entry_ids(es.take(k as int)).contains(x),
            findings_of(result.errors@) == base + gather(es.take(k as int), check),
        decreases entries.len() - k,
    {
        proof {
            lemma_gather_step(es, check, k as int);
        }
        let (id, kind) = entries[k];
        assert(es[k as int] == entry_view(entries@[k as int]));
        let ghost before = findings_of(result.errors@);
        let ghost old_seen = seen@;
        let ghost ids_now = entry_ids(es.take(k as int));
        let ghost ids_next = entry_ids(es.take(k + 1));
        assert(ids_next =~= ids_now.push(id@));
        let key = String::from_str(id);
        if contains_text(&seen, &key) {
            report(result, "S001", "IdUniqueness", concat4("Duplicate ID '", id, "' found in ", kind), Severity::Error,
                Some(concat2("elements.id=", id)));
            assert forall|x: Seq<char>| has_text(seen@, x) <==> #[trigger] ids_next.contains(x) by {
                if ids_next.contains(x) && !ids_now.contains(x) {
                    let j = choose|j: int| 0 <= j < ids_next.len() && ids_next[j] == x;
                    if j < ids_now.len() {
                        assert(ids_now[j] == x);
                    }
                }
                if ids_now.contains(x) {
                    let j = choose|j: int| 0 <= j < ids_now.len() && ids_now[j] == x;
                    assert(ids_next[j] == x);
                }
            }
        } else {
            seen.push(key);
            assert forall|x: Seq<char>| has_text(seen@, x) <==> #[trigger] ids_next.contains(x) by {
                if has_text(seen@, x) {
                    let j = choose|j: int| 0 <= j < seen@.len() && #[trigger] seen@[j]@ == x;
                    if j < old_seen.len() {
                        assert(old_seen[j]@ == x);
                        assert(ids_now.contains(x));
                        let t = choose|t: int| 0 <= t < ids_now.len() && ids_now[t] == x;
                        assert(ids_next[t] == x);
                    } else {
                        assert(ids_next[ids_now.len() as int] == x);
                    }
                }
                if ids_next.contains(x) {
                    let j = choose|j: int| 0 <= j < ids_next.len() && ids_next[j] == x;
                    if j < ids_now.len() {
                        assert(ids_now[j] == x);
                        assert(entry_ids(es.take(k as int)).contains(x));
                        assert(has_text(old_seen, x));
                        let t = choose|t: int| 0 <= t < old_seen.len() && #[trigger] old_seen[t]@ == x;
                        assert(seen@[t]@ == x);
                    } else {
                        assert(seen@[old_seen.len() as int]@ == x);
                    }
                }
            }
        }
        assert(findings_of(result.errors@) =~= before + check(k as int, es[k as int]));
        k = k + 1;
    }
    proof {
        lemma_gather_all(es, check);
    }
}

/// Reports each interface that no usage lists.
fn check_orphan_interfaces(d: &ContextDiagram, result: &mut ValidationResult)
    ensures
        old(result).wf() ==> final(result).wf(),
        findings_of(final(result).errors@) == findings_of(old(result).errors@)
            + gather(d.interfaces@, unused_interface(d.interface_usages@)),
{
    let ghost was_wf = result.wf();
    let ghost base = findings_of(result.errors@);
    let ghost check = unused_interface(d.interface_usages@);
    let mut i: usize = 0;
    while i < d.interfaces.len()
        invariant
            i <= d.interfaces.len(),
            was_wf ==> result.wf(),
            check == unused_interface(d.interface_usages@),
            findings_of(result.errors@) == base + gather(d.interfaces@.take(i as int), check),
        decreases d.interfaces.len() - i,
    {
        proof {
            lemma_gather_step(d.interfaces@, check, i as int);
        }
        let f = &d.interfaces[i];
        let ghost before = findings_of(result.errors@);
        if !used(&d.interface_usages, &f.id) {
            report(result, "S002", "OrphanInterface",
                concat3("Interface '", f.id.as_str(), "' is defined but not used by any actor"), Severity::Warning,
                Some(concat2("interfaces.id=", f.id.as_str())));
        }
        assert(findings_of(result.errors@) =~= before + check(i as int, d.interfaces@[i as int]));
        i = i + 1;
    }
    proof {
        lemma_gather_all(d.interfaces@, check);
    }
}

/// Reports each actor without a usage entry, and each external system that
/// neither provides nor uses an interface.
fn check_orphan_actors(d: &ContextDiagram, result: &mut ValidationResult)
    ensures
        old(result).wf() ==> final(result).wf(),
        findings_of(final(result).errors@) == findings_of(old(result).errors@)
            + gather(d.actors@, idle_actor(*d)) + gather(d.external_systems@, idle_external(*d)),
{
    let ghost was_wf = result.wf();
    let ghost base = findings_of(result.errors@);
    let ghost check = idle_actor(*d);
    let mut i: usize = 0;
    while i < d.actors.len()
        invariant
            i <= d.actors.len(),
            was_wf ==> result.wf(),
            check == idle_actor(*d),
            findings_of(result.errors@) == base + gather(d.actors@.take(i as int), check),
        decreases d.actors.len() - i,
    {
        proof {
            lemma_gather_step(d.actors@, check, i as int);
        }
        let a = &d.actors[i];
        let ghost before = findings_of(result.errors@);
        if !contains_key(&d.interface_usages, &a.id) {
            report(result, "S003", "OrphanActor", concat3("Actor '", a.id.as_str(), "' has no interface usage defined"),
                Severity::Warning, Some(concat2("actors.id=", a.id.as_str())));
        }
        assert(findings_of(result.errors@) =~= before + check(i as int, d.actors@[i as int]));
        i = i + 1;
    }
    proof {
        lemma_gather_all(d.actors@, check);
    }
    let ghost base = findings_of(result.errors@);
    let ghost check = idle_external(*d);
    let mut i: usize = 0;
    while i < d.external_systems.len()
        invariant
            i <= d.external_systems.len(),
            was_wf ==> result.wf(),
            check == idle_external(*d),
            findings_of(result.errors@) == base + gather(d.external_systems@.take(i as int), check),
        decreases d.external_systems.len() - i,
    {
        proof {
            lemma_gather_step(d.external_systems@, check, i as int);
        }
        let e = &d.external_systems[i];
        let ghost before = findings_of(result.errors@);
        if !contains_key(&d.interface_providers, &e.id) && !contains_key(&d.interface_usages, &e.id) {
            report(result, "S003", "OrphanExternalSystem",
                concat3("External system '", e.id.as_str(), "' neither provides nor uses any interfaces"),
                Severity::Warning, Some(concat2("external_systems.id=", e.id.as_str())));
        }
        assert(findings_of(result.errors@) =~= before + check(i as int, d.external_systems@[i as int]));
        i = i + 1;
    }
    proof {
        lemma_gather_all(d.external_systems@, check);
    }
}

} // verus!
