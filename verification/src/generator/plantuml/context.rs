use vstd::prelude::*;
use crate::model::c4::context::{ActorType, Actor, ContextDiagram, ExternalSystem, Interface, InterfaceProvider, InterfaceUsage};
use crate::generator::plantuml::support::{
    concat_map, text_if, lemma_concat_map_step, lemma_concat_map_all, holds_text, lemma_concat_map_holds,
    lemma_holds_left, lemma_holds_right, lemma_holds_trans,
};

verus! {

/// The stereotype of an actor.
pub open spec fn actor_stereotype(t: ActorType) -> Seq<char> {
    match t {
        ActorType::External => "EXTERNAL_ACTOR"@,
        ActorType::Internal => "INTERNAL_ACTOR"@,
    }
}

/// The line declaring an external system.
pub open spec fn external_line() -> spec_fn(ExternalSystem) -> Seq<char> {
    |e: ExternalSystem| "rectangle \"<<EXTERNAL_SYSTEM>>\\n"@ + e.name@ + "\" as "@ + e.id@ + "\n"@
}

/// The line declaring an actor.
pub open spec fn actor_line() -> spec_fn(Actor) -> Seq<char> {
    |a: Actor| "actor \"<<"@ + actor_stereotype(a.actor_type) + ">>\\n"@ + a.name@ + "\" as "@ + a.id@ + "\n"@
}

/// The line declaring an interface.
pub open spec fn interface_line() -> spec_fn(Interface) -> Seq<char> {
    |f: Interface| "interface "@ + f.id@ + "\n"@
}

/// The lines of one usage entry: `actor ..> interface`.
pub open spec fn usage_lines() -> spec_fn(InterfaceUsage) -> Seq<char> {
    |u: InterfaceUsage| concat_map(u.interfaces@, |x: String| u.actor@ + " ..> "@ + x@ + "\n"@)
}

/// The lines of one provider entry: `interface --- system`.
pub open spec fn provider_lines() -> spec_fn(InterfaceProvider) -> Seq<char> {
    |p: InterfaceProvider| concat_map(p.interfaces@, |x: String| x@ + " --- "@ + p.system@ + "\n"@)
}

/// The PlantUML text of a context diagram.
pub open spec fn context_plantuml(d: ContextDiagram) -> Seq<char> {
    "@startuml\n\n"@ + "skinparam defaultTextAlignment center\n\n"@
        + text_if(d.external_systems@.len() > 0, concat_map(d.external_systems@, external_line()) + "\n"@)
        + text_if(d.actors@.len() > 0, concat_map(d.actors@, actor_line()) + "\n"@)
        + concat_map(d.interfaces@, interface_line()) + "\n"@
        + "rectangle \"<<SYSTEM>>\\n"@ + d.system.name@ + "\" as "@ + d.system.id@ + "\n"@ + "\n"@
        + concat_map(d.interface_usages@, usage_lines()) + "\n"@
        + concat_map(d.interface_providers@, provider_lines()) + "\n"@
        + "@enduml\n"@
}

fn write_usage(out: &mut String, u: &InterfaceUsage)
    ensures
        final(out)@ == old(out)@ + usage_lines()(*u),
{
    let ghost start = out@;
    let ghost f = |x: String| u.actor@ + " ..> "@ + x@ + "\n"@;
    let mut j: usize = 0;
    while j < u.interfaces.len()
        invariant
            j <= u.interfaces.len(),
            f == (|x: String| u.actor@ + " ..> "@ + x@ + "\n"@),
            out@ == start + concat_map(u.interfaces@.take(j as int), f),
        decreases u.interfaces.len() - j,
    {
        proof {
            lemma_concat_map_step(u.interfaces@, f, j as int);
        }
        out.append(u.actor.as_str());
        out.append(" ..> ");
        out.append(u.interfaces[j].as_str());
        out.append("\n");
        j = j + 1;
    }
    proof {
        lemma_concat_map_all(u.interfaces@, f);
    }
}

fn write_provider(out: &mut String, p: &InterfaceProvider)
    ensures
        final(out)@ == old(out)@ + provider_lines()(*p),
{
    let ghost start = out@;
    let ghost f = |x: String| x@ + " --- "@ + p.system@ + "\n"@;
    let mut j: usize = 0;
    while j < p.interfaces.len()
        invariant
            j <= p.interfaces.len(),
            f == (|x: String| x@ + " --- "@ + p.system@ + "\n"@),
            out@ == start + concat_map(p.interfaces@.take(j as int), f),
        decreases p.interfaces.len() - j,
    {
        proof {
            lemma_concat_map_step(p.interfaces@, f, j as int);
        }
        out.append(p.interfaces[j].as_str());
        out.append(" --- ");
        out.append(p.system.as_str());
        out.append("\n");
        j = j + 1;
    }
    proof {
        lemma_concat_map_all(p.interfaces@, f);
    }
}

fn write_externals(out: &mut String, d: &ContextDiagram)
    ensures
        final(out)@ == old(out)@
            + text_if(d.external_systems@.len() > 0, concat_map(d.external_systems@, external_line()) + "\n"@),
{
    let ghost s0 = out@;
    if d.external_systems.len() > 0 {
        let mut i: usize = 0;
        while i < d.external_systems.len()
            invariant
                i <= d.external_systems.len(),
                out@ == s0 + concat_map(d.external_systems@.take(i as int), external_line()),
            decreases d.external_systems.len() - i,
        {
            proof {
                lemma_concat_map_step(d.external_systems@, external_line(), i as int);
            }
            let e = &d.external_systems[i];
            out.append("rectangle \"<<EXTERNAL_SYSTEM>>\\n");
            out.append(e.name.as_str());
            out.append("\" as ");
            out.append(e.id.as_str());
            out.append("\n");
            i = i + 1;
        }
        proof {
            lemma_concat_map_all(d.external_systems@, external_line());
        }
        out.append("\n");
    }
}

#[verifier::spinoff_prover]
fn write_actors(out: &mut String, d: &ContextDiagram)
    ensures
        final(out)@ == old(out)@ + text_if(d.actors@.len() > 0, concat_map(d.actors@, actor_line()) + "\n"@),
{
    let ghost s1 = out@;
    if d.actors.len() > 0 {
        let mut i: usize = 0;
        while i < d.actors.len()
            invariant
                i <= d.actors.len(),
                out@ == s1 + concat_map(d.actors@.take(i as int), actor_line()),
            decreases d.actors.len() - i,
        {
            proof {
                lemma_concat_map_step(d.actors@, actor_line(), i as int);
            }
            let a = &d.actors[i];
            let stereotype = match a.actor_type {
                ActorType::External => "EXTERNAL_ACTOR",
                ActorType::Internal => "INTERNAL_ACTOR",
            };
            out.append("actor \"<<");
            out.append(stereotype);
            out.append(">>\\n");
            out.append(a.name.as_str());
            out.append("\" as ");
            out.append(a.id.as_str());
            out.append("\n");
            i = i + 1;
        }
        proof {
            lemma_concat_map_all(d.actors@, actor_line());
        }
        out.append("\n");
    }
}

fn write_interfaces(out: &mut String, d: &ContextDiagram)
    ensures
        final(out)@ == old(out)@ + concat_map(d.interfaces@, interface_line()),
{
    let ghost s2 = out@;
    let mut i: usize = 0;
    while i < d.interfaces.len()
        invariant
            i <= d.interfaces.len(),
            out@ == s2 + concat_map(d.interfaces@.take(i as int), interface_line()),
        decreases d.interfaces.len() - i,
    {
        proof {
            lemma_concat_map_step(d.interfaces@, interface_line(), i as int);
        }
        out.append("interface ");
        out.append(d.interfaces[i].id.as_str());
        out.append("\n");
        i = i + 1;
    }
    proof {
        lemma_concat_map_all(d.interfaces@, interface_line());
    }
}

fn write_usages(out: &mut String, d: &ContextDiagram)
    ensures
        final(out)@ == old(out)@ + concat_map(d.interface_usages@, usage_lines()),
{
    let ghost s3 = out@;
    let mut i: usize = 0;
    while i < d.interface_usages.len()
        invariant
            i <= d.interface_usages.len(),
            out@ == s3 + concat_map(d.interface_usages@.take(i as int), usage_lines()),
        decreases d.interface_usages.len() - i,
    {
        proof {
            lemma_concat_map_step(d.interface_usages@, usage_lines(), i as int);
        }
        write_usage(out, &d.interface_usages[i]);
        i = i + 1;
    }
    proof {
        lemma_concat_map_all(d.interface_usages@, usage_lines());
    }
}

fn write_providers(out: &mut String, d: &ContextDiagram)
    ensures
        final(out)@ == old(out)@ + concat_map(d.interface_providers@, provider_lines()),
{
    let ghost s4 = out@;
    let mut i: usize = 0;
    while i < d.interface_providers.len()
        invariant
            i <= d.interface_providers.len(),
            out@ == s4 + concat_map(d.interface_providers@.take(i as int), provider_lines()),
        decreases d.interface_providers.len() - i,
    {
        proof {
            lemma_concat_map_step(d.interface_providers@, provider_lines(), i as int);
        }
        write_provider(out, &d.interface_providers[i]);
        i = i + 1;
    }
    proof {
        lemma_concat_map_all(d.interface_providers@, provider_lines());
    }
}

/// Generates the PlantUML text of a context diagram.
pub fn generate_plantuml(diagram: &ContextDiagram) -> (r: String)
    ensures
        r@ == context_plantuml(*diagram),
{
    let d = diagram;
    let mut out = String::new();
    out.append("@startuml\n\n");
    out.append("skinparam defaultTextAlignment center\n\n");
    write_externals(&mut out, d);
    write_actors(&mut out, d);
    write_interfaces(&mut out, d);
    out.append("\n");
    out.append("rectangle \"<<SYSTEM>>\\n");
    out.append(d.system.name.as_str());
    out.append("\" as ");
    out.append(d.system.id.as_str());
    out.append("\n");
    out.append("\n");
    write_usages(&mut out, d);
    out.append("\n");
    write_providers(&mut out, d);
    out.append("\n");
    out.append("@enduml\n");
    out
}

/// Every actor is declared on a line of its own, and the stereotype on it
/// follows the actor's type: `<<INTERNAL_ACTOR>>` for an internal actor,
/// `<<EXTERNAL_ACTOR>>` for an external one.
pub proof fn lemma_actor_declared_by_type(d: ContextDiagram, i: int)
    requires
        0 <= i < d.actors@.len(),
    ensures
        ({
            let a = d.actors@[i];
            let kind = if a.actor_type == ActorType::Internal { "INTERNAL_ACTOR"@ } else { "EXTERNAL_ACTOR"@ };
            holds_text(context_plantuml(d), "actor \"<<"@ + kind + ">>\\n"@ + a.name@ + "\" as "@ + a.id@ + "\n"@)
        }),
{
    let a = d.actors@[i];
    let line = actor_line()(a);
    lemma_concat_map_holds(d.actors@, actor_line(), i);
    let cm = concat_map(d.actors@, actor_line());
    lemma_holds_left(cm, "\n"@, line);
    let t = cm + "\n"@;
    assert(text_if(d.actors@.len() > 0, t) == t);
    let x = "@startuml\n\n"@ + "skinparam defaultTextAlignment center\n\n"@
        + text_if(d.external_systems@.len() > 0, concat_map(d.external_systems@, external_line()) + "\n"@);
    let y = concat_map(d.interfaces@, interface_line()) + "\n"@
        + "rectangle \"<<SYSTEM>>\\n"@ + d.system.name@ + "\" as "@ + d.system.id@ + "\n"@ + "\n"@
        + concat_map(d.interface_usages@, usage_lines()) + "\n"@
        + concat_map(d.interface_providers@, provider_lines()) + "\n"@
        + "@enduml\n"@;
    lemma_holds_right(x, t, line);
    lemma_holds_left(x + t, y, line);
    assert(context_plantuml(d) =~= x + t + y);
}

/// The parts of a context diagram's text around one of its sections.
spec fn context_before_externals() -> Seq<char> {
    "@startuml\n\n"@ + "skinparam defaultTextAlignment center\n\n"@
}

/// Every external system is declared on a line of its own, as a rectangle
/// with the `<<EXTERNAL_SYSTEM>>` stereotype, its name and its ID.
#[verifier::spinoff_prover]
#[verifier::rlimit(40)]
pub proof fn lemma_external_system_declared(d: ContextDiagram, i: int)
    requires
        0 <= i < d.external_systems@.len(),
    ensures
        holds_text(context_plantuml(d), "rectangle \"<<EXTERNAL_SYSTEM>>\\n"@ + d.external_systems@[i].name@ + "\" as "@
            + d.external_systems@[i].id@ + "\n"@),
{
    let line = external_line()(d.external_systems@[i]);
    lemma_concat_map_holds(d.external_systems@, external_line(), i);
    let cm = concat_map(d.external_systems@, external_line());
    lemma_holds_left(cm, "\n"@, line);
    let t = cm + "\n"@;
    assert(text_if(d.external_systems@.len() > 0, t) == t);
    let x = context_before_externals();
    let y = text_if(d.actors@.len() > 0, concat_map(d.actors@, actor_line()) + "\n"@)
        + concat_map(d.interfaces@, interface_line()) + "\n"@
        + "rectangle \"<<SYSTEM>>\\n"@ + d.system.name@ + "\" as "@ + d.system.id@ + "\n"@ + "\n"@
        + concat_map(d.interface_usages@, usage_lines()) + "\n"@
        + concat_map(d.interface_providers@, provider_lines()) + "\n"@
        + "@enduml\n"@;
    lemma_holds_right(x, t, line);
    lemma_holds_left(x + t, y, line);
    assert(context_plantuml(d) =~= x + t + y);
}

/// Every interface is declared on a line of its own.
#[verifier::spinoff_prover]
#[verifier::rlimit(40)]
pub proof fn lemma_interface_declared(d: ContextDiagram, i: int)
    requires
        0 <= i < d.interfaces@.len(),
    ensures
        holds_text(context_plantuml(d), "interface "@ + d.interfaces@[i].id@ + "\n"@),
{
    let line = interface_line()(d.interfaces@[i]);
    lemma_concat_map_holds(d.interfaces@, interface_line(), i);
    let t = concat_map(d.interfaces@, interface_line());
    let x = context_before_externals()
        + text_if(d.external_systems@.len() > 0, concat_map(d.external_systems@, external_line()) + "\n"@)
        + text_if(d.actors@.len() > 0, concat_map(d.actors@, actor_line()) + "\n"@);
    let y = "\n"@
        + "rectangle \"<<SYSTEM>>\\n"@ + d.system.name@ + "\" as "@ + d.system.id@ + "\n"@ + "\n"@
        + concat_map(d.interface_usages@, usage_lines()) + "\n"@
        + concat_map(d.interface_providers@, provider_lines()) + "\n"@
        + "@enduml\n"@;
    lemma_holds_right(x, t, line);
    lemma_holds_left(x + t, y, line);
    assert(context_plantuml(d) =~= x + t + y);
}

/// Every interface that an actor uses is drawn as a dotted arrow from the
/// actor to the interface.
#[verifier::spinoff_prover]
#[verifier::rlimit(40)]
pub proof fn lemma_usage_drawn(d: ContextDiagram, i: int, j: int)
    requires
        0 <= i < d.interface_usages@.len(),
        0 <= j < d.interface_usages@[i].interfaces@.len(),
    ensures
        holds_text(context_plantuml(d), d.interface_usages@[i].actor@ + " ..> "@
            + d.interface_usages@[i].interfaces@[j]@ + "\n"@),
{
    let u = d.interface_usages@[i];
    let f = |x: String| u.actor@ + " ..> "@ + x@ + "\n"@;
    let line = f(u.interfaces@[j]);
    lemma_concat_map_holds(u.interfaces@, f, j);
    assert(usage_lines()(u) == concat_map(u.interfaces@, f));
    lemma_concat_map_holds(d.interface_usages@, usage_lines(), i);
    let t = concat_map(d.interface_usages@, usage_lines());
    lemma_holds_trans(t, usage_lines()(u), line);
    let x = context_before_externals()
        + text_if(d.external_systems@.len() > 0, concat_map(d.external_systems@, external_line()) + "\n"@)
        + text_if(d.actors@.len() > 0, concat_map(d.actors@, actor_line()) + "\n"@)
        + concat_map(d.interfaces@, interface_line()) + "\n"@
        + "rectangle \"<<SYSTEM>>\\n"@ + d.system.name@ + "\" as "@ + d.system.id@ + "\n"@ + "\n"@;
    let y = "\n"@ + concat_map(d.interface_providers@, provider_lines()) + "\n"@ + "@enduml\n"@;
    lemma_holds_right(x, t, line);
    lemma_holds_left(x + t, y, line);
    assert(context_plantuml(d) =~= x + t + y);
}

/// Every interface that a system provides is drawn as a solid line from the
/// interface to the system.
#[verifier::spinoff_prover]
#[verifier::rlimit(40)]
pub proof fn lemma_provider_drawn(d: ContextDiagram, i: int, j: int)
    requires
        0 <= i < d.interface_providers@.len(),
        0 <= j < d.interface_providers@[i].interfaces@.len(),
    ensures
        holds_text(context_plantuml(d), d.interface_providers@[i].interfaces@[j]@ + " --- "@
            + d.interface_providers@[i].system@ + "\n"@),
{
    let p = d.interface_providers@[i];
    let f = |x: String| x@ + " --- "@ + p.system@ + "\n"@;
    let line = f(p.interfaces@[j]);
    lemma_concat_map_holds(p.interfaces@, f, j);
    assert(provider_lines()(p) == concat_map(p.interfaces@, f));
    lemma_concat_map_holds(d.interface_providers@, provider_lines(), i);
    let t = concat_map(d.interface_providers@, provider_lines());
    lemma_holds_trans(t, provider_lines()(p), line);
    let x = context_before_externals()
        + text_if(d.external_systems@.len() > 0, concat_map(d.external_systems@, external_line()) + "\n"@)
        + text_if(d.actors@.len() > 0, concat_map(d.actors@, actor_line()) + "\n"@)
        + concat_map(d.interfaces@, interface_line()) + "\n"@
        + "rectangle \"<<SYSTEM>>\\n"@ + d.system.name@ + "\" as "@ + d.system.id@ + "\n"@ + "\n"@
        + concat_map(d.interface_usages@, usage_lines()) + "\n"@;
    let y = "\n"@ + "@enduml\n"@;
    lemma_holds_right(x, t, line);
    lemma_holds_left(x + t, y, line);
    assert(context_plantuml(d) =~= x + t + y);
}

} // verus!
