use vstd::prelude::*;
use crate::cli::args::ListElement;
use crate::cli::report::{
    Tone, Line, LineView, report_view, p, plain_line, lines_for, lines_if, lemma_lines_for_step, lemma_lines_for_all,
    emit, emit_plain,
};
use crate::model::c4::context::{
    ContextDiagram, Actor, ActorType, ExternalSystem, Interface, InterfaceProvider, InterfaceUsage, Protocol, DerivedRelationship,
    RelationView, lists_text, element_name, derived_relations, relation_view, list_contains,
};
use crate::utils::error::{AppError, ErrorKind, Result, fails_with};
use crate::utils::keyed::{Keyed, has_key, is_first_key, position_of, lemma_first_key_unique};
use crate::utils::text::to_owned_string;

verus! {

/// The element with key `k` that comes first.
pub open spec fn first_with<T: Keyed>(s: Seq<T>, k: Seq<char>) -> T {
    s[choose|i: int| is_first_key(s, k, i)]
}

/// How a protocol is written in listings.
pub open spec fn protocol_name(pr: Protocol) -> Seq<char> {
    match pr {
        Protocol::Rest => "REST"@,
        Protocol::Grpc => "gRPC"@,
        Protocol::Graphql => "GraphQL"@,
        Protocol::WebSocket => "WebSocket"@,
        Protocol::Mqtt => "MQTT"@,
        Protocol::Amqp => "AMQP"@,
        Protocol::Custom(s) => s@,
    }
}

/// How an actor type is written in listings.
pub open spec fn actor_type_name(t: ActorType) -> Seq<char> {
    match t {
        ActorType::External => "external"@,
        ActorType::Internal => "internal"@,
    }
}

/// A line `<label>: <id>` with the label in the label tone.
pub open spec fn head_line(label: Seq<char>, id: Seq<char>) -> LineView {
    seq![(Tone::Label, label), p(": "@), p(id)]
}

/// A line `<key><value>`, both plain.
pub open spec fn field_line(key: Seq<char>, value: Seq<char>) -> LineView {
    seq![p(key), p(value)]
}

/// A field line when the value is there, nothing otherwise.
pub open spec fn opt_field(key: Seq<char>, value: Option<String>) -> Seq<LineView> {
    match value {
        Some(v) => seq![field_line(key, v@)],
        None => Seq::empty(),
    }
}

/// A line `<indent>- <id> (<name>)`.
pub open spec fn entry_line(indent: Seq<char>, id: Seq<char>, name: Seq<char>) -> LineView {
    seq![p(indent), p("- "@), p(id), p(" ("@), p(name), p(")"@)]
}

/// The line of the interface named `x`, when the diagram defines it.
pub open spec fn interface_ref(d: ContextDiagram) -> spec_fn(String) -> Seq<LineView> {
    |x: String| lines_if(has_key(d.interfaces@, x@), seq![entry_line("    "@,
        first_with(d.interfaces@, x@).id@, first_with(d.interfaces@, x@).name@)])
}

/// The interfaces named by `ids` that the diagram defines, one line each.
pub open spec fn interface_entries(d: ContextDiagram, ids: Seq<String>) -> Seq<LineView> {
    lines_for(ids, interface_ref(d))
}

/// The interfaces that element `id` provides, by its first provider entry.
pub open spec fn provided_section(d: ContextDiagram, id: Seq<char>) -> Seq<LineView> {
    lines_if(has_key(d.interface_providers@, id), seq![plain_line("  Provides interfaces:"@)]
        + interface_entries(d, first_with(d.interface_providers@, id).interfaces@))
}

/// The interfaces that element `id` uses, by its first usage entry.
pub open spec fn used_section(d: ContextDiagram, id: Seq<char>) -> Seq<LineView> {
    lines_if(has_key(d.interface_usages@, id), seq![plain_line("  Uses interfaces:"@)]
        + interface_entries(d, first_with(d.interface_usages@, id).interfaces@))
}

/// The line of an element that provides or uses an interface, when the
/// element has a name.
pub open spec fn named_entry(d: ContextDiagram, elem: Seq<char>) -> Seq<LineView> {
    match element_name(d, elem) {
        Some(n) => seq![entry_line("    "@, elem, n)],
        None => Seq::empty(),
    }
}

/// The line of a provider entry that lists interface `id`.
pub open spec fn provider_ref(d: ContextDiagram, id: Seq<char>) -> spec_fn(InterfaceProvider) -> Seq<LineView> {
    |q: InterfaceProvider| lines_if(lists_text(q.interfaces@, id), named_entry(d, q.system@))
}

/// The line of a usage entry that lists interface `id`.
pub open spec fn usage_ref(d: ContextDiagram, id: Seq<char>) -> spec_fn(InterfaceUsage) -> Seq<LineView> {
    |q: InterfaceUsage| lines_if(lists_text(q.interfaces@, id), named_entry(d, q.actor@))
}

/// The elements whose provider entries list interface `id`.
pub open spec fn providers_section(d: ContextDiagram, id: Seq<char>) -> Seq<LineView> {
    let ps = d.interface_providers@;
    lines_if(exists|j: int| 0 <= j < ps.len() && lists_text(#[trigger] ps[j].interfaces@, id),
        seq![plain_line("  Provided by:"@)] + lines_for(ps, provider_ref(d, id)))
}

/// The elements whose usage entries list interface `id`.
pub open spec fn users_section(d: ContextDiagram, id: Seq<char>) -> Seq<LineView> {
    let us = d.interface_usages@;
    lines_if(exists|j: int| 0 <= j < us.len() && lists_text(#[trigger] us[j].interfaces@, id),
        seq![plain_line("  Used by:"@)] + lines_for(us, usage_ref(d, id)))
}

/// What `show` prints for the system.
pub open spec fn system_show(d: ContextDiagram) -> Seq<LineView> {
    seq![head_line("System"@, d.system.id@), field_line("  Name: "@, d.system.name@)]
        + opt_field("  Description: "@, d.system.description) + provided_section(d, d.system.id@)
}

/// What `show` prints for an actor.
pub open spec fn actor_show(d: ContextDiagram, a: Actor) -> Seq<LineView> {
    seq![head_line("Actor"@, a.id@), field_line("  Name: "@, a.name@),
        field_line("  Type: "@, actor_type_name(a.actor_type))]
        + opt_field("  Description: "@, a.description) + used_section(d, a.id@)
}

/// What `show` prints for an external system.
pub open spec fn external_show(d: ContextDiagram, e: ExternalSystem) -> Seq<LineView> {
    seq![head_line("External System"@, e.id@), field_line("  Name: "@, e.name@)]
        + opt_field("  Description: "@, e.description) + opt_field("  Technology: "@, e.technology)
        + provided_section(d, e.id@) + used_section(d, e.id@)
}

/// What `show` prints for an interface.
pub open spec fn interface_show(d: ContextDiagram, i: Interface) -> Seq<LineView> {
    seq![head_line("Interface"@, i.id@), field_line("  Name: "@, i.name@),
        field_line("  Protocol: "@, protocol_name(i.protocol))]
        + opt_field("  Description: "@, i.description) + providers_section(d, i.id@) + users_section(d, i.id@)
}

/// What `show` prints for the element with ID `id`: the system, else the
/// first actor, external system or interface with it; `None` when there is none.
pub open spec fn context_show(d: ContextDiagram, id: Seq<char>) -> Option<Seq<LineView>> {
    if d.system.id@ == id {
        Some(system_show(d))
    } else if has_key(d.actors@, id) {
        Some(actor_show(d, first_with(d.actors@, id)))
    } else if has_key(d.external_systems@, id) {
        Some(external_show(d, first_with(d.external_systems@, id)))
    } else if has_key(d.interfaces@, id) {
        Some(interface_show(d, first_with(d.interfaces@, id)))
    } else {
        None
    }
}

/// A section title line and, when there are no items, a `(none)` line.
pub open spec fn titled(title: Seq<char>, empty: bool, body: Seq<LineView>) -> Seq<LineView> {
    seq![seq![(Tone::Label, title)]] + if empty { seq![plain_line("  (none)"@)] } else { body }
}

/// The listing line of an actor.
pub open spec fn actor_entry() -> spec_fn(Actor) -> Seq<LineView> {
    |a: Actor| seq![seq![p("  - "@), p(a.id@), p(" ("@), p(a.name@), p(") ["@), p(actor_type_name(a.actor_type)),
        p("]"@)]]
}

/// The listing lines of an external system.
pub open spec fn external_entry() -> spec_fn(ExternalSystem) -> Seq<LineView> {
    |e: ExternalSystem| seq![entry_line("  "@, e.id@, e.name@)] + opt_field("    Technology: "@, e.technology)
}

/// The listing line of an interface.
pub open spec fn interface_entry() -> spec_fn(Interface) -> Seq<LineView> {
    |i: Interface| seq![seq![p("  - "@), p(i.id@), p(" ("@), p(i.name@), p(") ["@), p(protocol_name(i.protocol)),
        p("]"@)]]
}

/// An element's name, or its ID when it has none.
pub open spec fn name_or_self(d: ContextDiagram, id: Seq<char>) -> Seq<char> {
    match element_name(d, id) {
        Some(n) => n,
        None => id,
    }
}

/// The listing line of a derived relationship.
pub open spec fn relation_entry(d: ContextDiagram) -> spec_fn(RelationView) -> Seq<LineView> {
    |r: RelationView| seq![seq![p("  - "@), p(r.0), p(" ("@), p(name_or_self(d, r.0)), p(") -> "@), p(r.1), p(" ("@),
        p(name_or_self(d, r.1)), p(") [via: "@), p(r.2), p("]"@)]]
}

/// What `list` prints for each kind of element.
pub open spec fn context_list(d: ContextDiagram, element: ListElement) -> Seq<LineView> {
    match element {
        ListElement::System => seq![head_line("System"@, d.system.id@), field_line("  Name: "@, d.system.name@)]
            + opt_field("  Description: "@, d.system.description),
        ListElement::Actors => titled("Actors:"@, d.actors@.len() == 0, lines_for(d.actors@, actor_entry())),
        ListElement::ExternalSystems => titled("External Systems:"@, d.external_systems@.len() == 0,
            lines_for(d.external_systems@, external_entry())),
        ListElement::Interfaces => titled("Interfaces:"@, d.interfaces@.len() == 0,
            lines_for(d.interfaces@, interface_entry())),
        ListElement::Relations => {
            let rs = derived_relations(d.interface_usages@, d.interface_providers@);
            titled("Derived Relations:"@, rs.len() == 0, lines_for(rs, relation_entry(d)))
        },
    }
}

fn protocol_text(pr: &Protocol) -> (r: &str)
    ensures
        r@ == protocol_name(*pr),
{
    match pr {
        Protocol::Rest => "REST",
        Protocol::Grpc => "gRPC",
        Protocol::Graphql => "GraphQL",
        Protocol::WebSocket => "WebSocket",
        Protocol::Mqtt => "MQTT",
        Protocol::Amqp => "AMQP",
        Protocol::Custom(s) => s.as_str(),
    }
}

fn actor_type_text(t: ActorType) -> (r: &'static str)
    ensures
        r@ == actor_type_name(t),
{
    match t {
        ActorType::External => "external",
        ActorType::Internal => "internal",
    }
}

/// Appends `extra` to the report, as the lines of a spec value.
proof fn lemma_append_assoc(a: Seq<LineView>, b: Seq<LineView>, c: Seq<LineView>)
    ensures
        a + b + c == a + (b + c),
{
    assert(a + b + c =~= a + (b + c));
}

pub(crate) fn emit_head(out: &mut Vec<Line>, label: &str, id: &str)
    ensures
        report_view(final(out)@) == report_view(old(out)@).push(head_line(label@, id@)),
{
    let mut l = Line::new();
    l.add(Tone::Label, label);
    l.plain(": ");
    l.plain(id);
    assert(l@ =~= head_line(label@, id@));
    emit(out, l);
}

pub(crate) fn emit_field(out: &mut Vec<Line>, key: &str, value: &str)
    ensures
        report_view(final(out)@) == report_view(old(out)@).push(field_line(key@, value@)),
{
    let mut l = Line::new();
    l.plain(key);
    l.plain(value);
    assert(l@ =~= field_line(key@, value@));
    emit(out, l);
}

pub(crate) fn emit_opt_field(out: &mut Vec<Line>, key: &str, value: &Option<String>)
    ensures
        report_view(final(out)@) == report_view(old(out)@) + opt_field(key@, *value),
{
    let ghost before = report_view(out@);
    match value {
        Some(v) => {
            emit_field(out, key, v.as_str());
        },
        None => {},
    }
    assert(report_view(out@) =~= before + opt_field(key@, *value));
}

pub(crate) fn emit_entry(out: &mut Vec<Line>, indent: &str, id: &str, name: &str)
    ensures
        report_view(final(out)@) == report_view(old(out)@).push(entry_line(indent@, id@, name@)),
{
    let mut l = Line::new();
    l.plain(indent);
    l.plain("- ");
    l.plain(id);
    l.plain(" (");
    l.plain(name);
    l.plain(")");
    assert(l@ =~= entry_line(indent@, id@, name@));
    emit(out, l);
}

fn write_interface_entries(out: &mut Vec<Line>, d: &ContextDiagram, ids: &Vec<String>)
    ensures
        report_view(final(out)@) == report_view(old(out)@) + interface_entries(*d, ids@),
{
    let ghost start = report_view(out@);
    let ghost f = interface_ref(*d);
    let mut j: usize = 0;
    while j < ids.len()
        invariant
            j <= ids.len(),
            f == interface_ref(*d),
            report_view(out@) == start + lines_for(ids@.take(j as int), f),
        decreases ids.len() - j,
    {
        proof {
            lemma_lines_for_step(ids@, f, j as int);
        }
        let ghost before = report_view(out@);
        match position_of(&d.interfaces, &ids[j]) {
            Some(k) => {
                proof {
                    lemma_first_key_unique(d.interfaces@, ids@[j as int]@, k as int);
                }
                emit_entry(out, "    ", d.interfaces[k].id.as_str(), d.interfaces[k].name.as_str());
            },
            None => {},
        }
        assert(report_view(out@) =~= before + f(ids@[j as int]));
        proof {
            lemma_append_assoc(start, lines_for(ids@.take(j as int), f), f(ids@[j as int]));
        }
        j = j + 1;
    }
    proof {
        lemma_lines_for_all(ids@, f);
    }
}

fn write_provided(out: &mut Vec<Line>, d: &ContextDiagram, id: &String)
    ensures
        report_view(final(out)@) == report_view(old(out)@) + provided_section(*d, id@),
{
    let ghost before = report_view(out@);
    match position_of(&d.interface_providers, id) {
        Some(k) => {
            proof {
                lemma_first_key_unique(d.interface_providers@, id@, k as int);
            }
            emit_plain(out, "  Provides interfaces:");
            write_interface_entries(out, d, &d.interface_providers[k].interfaces);
        },
        None => {},
    }
    assert(report_view(out@) =~= before + provided_section(*d, id@));
}

fn write_used(out: &mut Vec<Line>, d: &ContextDiagram, id: &String)
    ensures
        report_view(final(out)@) == report_view(old(out)@) + used_section(*d, id@),
{
    let ghost before = report_view(out@);
    match position_of(&d.interface_usages, id) {
        Some(k) => {
            proof {
                lemma_first_key_unique(d.interface_usages@, id@, k as int);
            }
            emit_plain(out, "  Uses interfaces:");
            write_interface_entries(out, d, &d.interface_usages[k].interfaces);
        },
        None => {},
    }
    assert(report_view(out@) =~= before + used_section(*d, id@));
}

fn write_named_entry(out: &mut Vec<Line>, d: &ContextDiagram, elem: &String)
    ensures
        report_view(final(out)@) == report_view(old(out)@) + named_entry(*d, elem@),
{
    let ghost before = report_view(out@);
    match d.get_element_name(elem.as_str()) {
        Some(n) => {
            emit_entry(out, "    ", elem.as_str(), n);
        },
        None => {},
    }
    assert(report_view(out@) =~= before + named_entry(*d, elem@));
}

fn write_providers(out: &mut Vec<Line>, d: &ContextDiagram, id: &String)
    ensures
        report_view(final(out)@) == report_view(old(out)@) + providers_section(*d, id@),
{
    let ps = &d.interface_providers;
    let mut any = false;
    let mut i: usize = 0;
    while i < ps.len()
        invariant
            i <= ps.len(),
            any == exists|j: int| 0 <= j < i && lists_text(#[trigger] ps@[j].interfaces@, id@),
        decreases ps.len() - i,
    {
        if list_contains(&ps[i].interfaces, id) {
            any = true;
        }
        i = i + 1;
    }
    if !any {
        assert(report_view(out@) =~= report_view(out@) + providers_section(*d, id@));
        return;
    }
    let ghost start = report_view(out@);
    emit_plain(out, "  Provided by:");
    let ghost head = report_view(out@);
    let ghost f = provider_ref(*d, id@);
    let mut j: usize = 0;
    while j < ps.len()
        invariant
            j <= ps.len(),
            ps == &d.interface_providers,
            f == provider_ref(*d, id@),
            report_view(out@) == head + lines_for(ps@.take(j as int), f),
        decreases ps.len() - j,
    {
        proof {
            lemma_lines_for_step(ps@, f, j as int);
        }
        let ghost before = report_view(out@);
        if list_contains(&ps[j].interfaces, id) {
            write_named_entry(out, d, &ps[j].system);
        }
        assert(report_view(out@) =~= before + f(ps@[j as int]));
        proof {
            lemma_append_assoc(head, lines_for(ps@.take(j as int), f), f(ps@[j as int]));
        }
        j = j + 1;
    }
    proof {
        lemma_lines_for_all(ps@, f);
    }
    assert(report_view(out@) =~= start + providers_section(*d, id@));
}

fn write_users(out: &mut Vec<Line>, d: &ContextDiagram, id: &String)
    ensures
        report_view(final(out)@) == report_view(old(out)@) + users_section(*d, id@),
{
    let us = &d.interface_usages;
    let mut any = false;
    let mut i: usize = 0;
    while i < us.len()
        invariant
            i <= us.len(),
            any == exists|j: int| 0 <= j < i && lists_text(#[trigger] us@[j].interfaces@, id@),
        decreases us.len() - i,
    {
        if list_contains(&us[i].interfaces, id) {
            any = true;
        }
        i = i + 1;
    }
    if !any {
        assert(report_view(out@) =~= report_view(out@) + users_section(*d, id@));
        return;
    }
    let ghost start = report_view(out@);
    emit_plain(out, "  Used by:");
    let ghost head = report_view(out@);
    let ghost f = usage_ref(*d, id@);
    let mut j: usize = 0;
    while j < us.len()
        invariant
            j <= us.len(),
            us == &d.interface_usages,
            f == usage_ref(*d, id@),
            report_view(out@) == head + lines_for(us@.take(j as int), f),
        decreases us.len() - j,
    {
        proof {
            lemma_lines_for_step(us@, f, j as int);
        }
        let ghost before = report_view(out@);
        if list_contains(&us[j].interfaces, id) {
            write_named_entry(out, d, &us[j].actor);
        }
        assert(report_view(out@) =~= before + f(us@[j as int]));
        proof {
            lemma_append_assoc(head, lines_for(us@.take(j as int), f), f(us@[j as int]));
        }
        j = j + 1;
    }
    proof {
        lemma_lines_for_all(us@, f);
    }
    assert(report_view(out@) =~= start + users_section(*d, id@));
}

/// The lines that `show` prints for the element with ID `id` (see
/// `context_show`); the element is not found when the diagram has none.
pub fn show_context(d: &ContextDiagram, id: &str) -> (r: Result<Vec<Line>>)
    ensures
        r is Err <==> context_show(*d, id@) is None,
        r is Err ==> fails_with(r, ErrorKind::ElementNotFound, id@),
        r is Ok ==> context_show(*d, id@) == Some(report_view(r->Ok_0@)),
{
    let key = to_owned_string(id);
    let mut out: Vec<Line> = Vec::new();
    assert(report_view(out@) =~= Seq::<LineView>::empty());
    if d.system.id.eq(&key) {
        emit_head(&mut out, "System", d.system.id.as_str());
        emit_field(&mut out, "  Name: ", d.system.name.as_str());
        emit_opt_field(&mut out, "  Description: ", &d.system.description);
        write_provided(&mut out, d, &key);
        assert(report_view(out@) =~= system_show(*d));
        return Ok(out);
    }
    match position_of(&d.actors, &key) {
        Some(k) => {
            proof {
                lemma_first_key_unique(d.actors@, id@, k as int);
            }
            let a = &d.actors[k];
            emit_head(&mut out, "Actor", a.id.as_str());
            emit_field(&mut out, "  Name: ", a.name.as_str());
            emit_field(&mut out, "  Type: ", actor_type_text(a.actor_type));
            emit_opt_field(&mut out, "  Description: ", &a.description);
            write_used(&mut out, d, &a.id);
            assert(report_view(out@) =~= actor_show(*d, *a));
            return Ok(out);
        },
        None => {},
    }
    match position_of(&d.external_systems, &key) {
        Some(k) => {
            proof {
                lemma_first_key_unique(d.external_systems@, id@, k as int);
            }
            let e = &d.external_systems[k];
            emit_head(&mut out, "External System", e.id.as_str());
            emit_field(&mut out, "  Name: ", e.name.as_str());
            emit_opt_field(&mut out, "  Description: ", &e.description);
            emit_opt_field(&mut out, "  Technology: ", &e.technology);
            write_provided(&mut out, d, &e.id);
            write_used(&mut out, d, &e.id);
            assert(report_view(out@) =~= external_show(*d, *e));
            return Ok(out);
        },
        None => {},
    }
    match position_of(&d.interfaces, &key) {
        Some(k) => {
            proof {
                lemma_first_key_unique(d.interfaces@, id@, k as int);
            }
            let i = &d.interfaces[k];
            emit_head(&mut out, "Interface", i.id.as_str());
            emit_field(&mut out, "  Name: ", i.name.as_str());
            emit_field(&mut out, "  Protocol: ", protocol_text(&i.protocol));
            emit_opt_field(&mut out, "  Description: ", &i.description);
            write_providers(&mut out, d, &i.id);
            write_users(&mut out, d, &i.id);
            assert(report_view(out@) =~= interface_show(*d, *i));
            return Ok(out);
        },
        None => {},
    }
    Err(AppError::ElementNotFound(key))
}

pub(crate) fn emit_title(out: &mut Vec<Line>, tone: Tone, title: &str)
    ensures
        report_view(final(out)@) == report_view(old(out)@).push(seq![(tone, title@)]),
{
    let mut l = Line::new();
    l.add(tone, title);
    emit(out, l);
}

fn write_actor_entry(out: &mut Vec<Line>, a: &Actor)
    ensures
        report_view(final(out)@) == report_view(old(out)@) + actor_entry()(*a),
{
    let ghost before = report_view(out@);
    let mut l = Line::new();
    l.plain("  - ");
    l.plain(a.id.as_str());
    l.plain(" (");
    l.plain(a.name.as_str());
    l.plain(") [");
    l.plain(actor_type_text(a.actor_type));
    l.plain("]");
    assert(l@ =~= seq![p("  - "@), p(a.id@), p(" ("@), p(a.name@), p(") ["@), p(actor_type_name(a.actor_type)),
        p("]"@)]);
    emit(out, l);
    assert(report_view(out@) =~= before + actor_entry()(*a));
}

fn write_external_entry(out: &mut Vec<Line>, e: &ExternalSystem)
    ensures
        report_view(final(out)@) == report_view(old(out)@) + external_entry()(*e),
{
    let ghost before = report_view(out@);
    emit_entry(out, "  ", e.id.as_str(), e.name.as_str());
    emit_opt_field(out, "    Technology: ", &e.technology);
    assert(report_view(out@) =~= before + external_entry()(*e));
}

fn write_interface_entry(out: &mut Vec<Line>, i: &Interface)
    ensures
        report_view(final(out)@) == report_view(old(out)@) + interface_entry()(*i),
{
    let ghost before = report_view(out@);
    let mut l = Line::new();
    l.plain("  - ");
    l.plain(i.id.as_str());
    l.plain(" (");
    l.plain(i.name.as_str());
    l.plain(") [");
    l.plain(protocol_text(&i.protocol));
    l.plain("]");
    assert(l@ =~= seq![p("  - "@), p(i.id@), p(" ("@), p(i.name@), p(") ["@), p(protocol_name(i.protocol)),
        p("]"@)]);
    emit(out, l);
    assert(report_view(out@) =~= before + interface_entry()(*i));
}

fn write_relation_entry(out: &mut Vec<Line>, d: &ContextDiagram, r: &DerivedRelationship)
    ensures
        report_view(final(out)@) == report_view(old(out)@) + relation_entry(*d)(relation_view(*r)),
{
    let ghost before = report_view(out@);
    let from_name = match d.get_element_name(r.from.as_str()) {
        Some(n) => n,
        None => r.from.as_str(),
    };
    let to_name = match d.get_element_name(r.to.as_str()) {
        Some(n) => n,
        None => r.to.as_str(),
    };
    let mut l = Line::new();
    l.plain("  - ");
    l.plain(r.from.as_str());
    l.plain(" (");
    l.plain(from_name);
    l.plain(") -> ");
    l.plain(r.to.as_str());
    l.plain(" (");
    l.plain(to_name);
    l.plain(") [via: ");
    l.plain(r.via_interface.as_str());
    l.plain("]");
    let ghost rv = relation_view(*r);
    assert(l@ =~= seq![p("  - "@), p(rv.0), p(" ("@), p(name_or_self(*d, rv.0)), p(") -> "@), p(rv.1), p(" ("@),
        p(name_or_self(*d, rv.1)), p(") [via: "@), p(rv.2), p("]"@)]);
    emit(out, l);
    assert(report_view(out@) =~= before + relation_entry(*d)(relation_view(*r)));
}

/// The lines that `list` prints for the chosen kind of element (see `context_list`).
pub fn list_context(d: &ContextDiagram, element: ListElement) -> (r: Vec<Line>)
    ensures
        report_view(r@) == context_list(*d, element),
{
    let mut out: Vec<Line> = Vec::new();
    assert(report_view(out@) =~= Seq::<LineView>::empty());
    match element {
        ListElement::System => {
            emit_head(&mut out, "System", d.system.id.as_str());
            emit_field(&mut out, "  Name: ", d.system.name.as_str());
            emit_opt_field(&mut out, "  Description: ", &d.system.description);
            assert(report_view(out@) =~= context_list(*d, element));
        },
        ListElement::Actors => {
            emit_title(&mut out, Tone::Label, "Actors:");
            if d.actors.len() == 0 {
                emit_plain(&mut out, "  (none)");
            } else {
                let ghost head = report_view(out@);
                let ghost f = actor_entry();
                let mut j: usize = 0;
                while j < d.actors.len()
                    invariant
                        j <= d.actors.len(),
                        f == actor_entry(),
                        report_view(out@) == head + lines_for(d.actors@.take(j as int), f),
                    decreases d.actors.len() - j,
                {
                    proof {
                        lemma_lines_for_step(d.actors@, f, j as int);
                        lemma_append_assoc(head, lines_for(d.actors@.take(j as int), f), f(d.actors@[j as int]));
                    }
                    write_actor_entry(&mut out, &d.actors[j]);
                    j = j + 1;
                }
                proof {
                    lemma_lines_for_all(d.actors@, f);
                }
            }
            assert(report_view(out@) =~= context_list(*d, element));
        },
        ListElement::ExternalSystems => {
            emit_title(&mut out, Tone::Label, "External Systems:");
            if d.external_systems.len() == 0 {
                emit_plain(&mut out, "  (none)");
            } else {
                let ghost head = report_view(out@);
                let ghost f = external_entry();
                let mut j: usize = 0;
                while j < d.external_systems.len()
                    invariant
                        j <= d.external_systems.len(),
                        f == external_entry(),
                        report_view(out@) == head + lines_for(d.external_systems@.take(j as int), f),
                    decreases d.external_systems.len() - j,
                {
                    proof {
                        lemma_lines_for_step(d.external_systems@, f, j as int);
                        lemma_append_assoc(head, lines_for(d.external_systems@.take(j as int), f),
                            f(d.external_systems@[j as int]));
                    }
                    write_external_entry(&mut out, &d.external_systems[j]);
                    j = j + 1;
                }
                proof {
                    lemma_lines_for_all(d.external_systems@, f);
                }
            }
            assert(report_view(out@) =~= context_list(*d, element));
        },
        ListElement::Interfaces => {
            emit_title(&mut out, Tone::Label, "Interfaces:");
            if d.interfaces.len() == 0 {
                emit_plain(&mut out, "  (none)");
            } else {
                let ghost head = report_view(out@);
                let ghost f = interface_entry();
                let mut j: usize = 0;
                while j < d.interfaces.len()
                    invariant
                        j <= d.interfaces.len(),
                        f == interface_entry(),
                        report_view(out@) == head + lines_for(d.interfaces@.take(j as int), f),
                    decreases d.interfaces.len() - j,
                {
                    proof {
                        lemma_lines_for_step(d.interfaces@, f, j as int);
                        lemma_append_assoc(head, lines_for(d.interfaces@.take(j as int), f), f(d.interfaces@[j as int]));
                    }
                    write_interface_entry(&mut out, &d.interfaces[j]);
                    j = j + 1;
                }
                proof {
                    lemma_lines_for_all(d.interfaces@, f);
                }
            }
            assert(report_view(out@) =~= context_list(*d, element));
        },
        ListElement::Relations => {
            emit_title(&mut out, Tone::Label, "Derived Relations:");
            let rels = d.derive_relationships();
            let ghost rs = derived_relations(d.interface_usages@, d.interface_providers@);
            assert(rels@.len() == rs.len()) by {
                assert(rels@.map_values(|x: DerivedRelationship| relation_view(x)).len() == rels@.len());
            }
            if rels.len() == 0 {
                emit_plain(&mut out, "  (none)");
            } else {
                let ghost head = report_view(out@);
                let ghost f = relation_entry(*d);
                let mut j: usize = 0;
                while j < rels.len()
                    invariant
                        j <= rels.len(),
                        f == relation_entry(*d),
                        rs == rels@.map_values(|x: DerivedRelationship| relation_view(x)),
                        report_view(out@) == head + lines_for(rs.take(j as int), f),
                    decreases rels.len() - j,
                {
                    proof {
                        lemma_lines_for_step(rs, f, j as int);
                        lemma_append_assoc(head, lines_for(rs.take(j as int), f), f(rs[j as int]));
                    }
                    write_relation_entry(&mut out, d, &rels[j]);
                    j = j + 1;
                }
                proof {
                    lemma_lines_for_all(rs, f);
                }
            }
            assert(report_view(out@) =~= context_list(*d, element));
        },
    }
    out
}

} // verus!
