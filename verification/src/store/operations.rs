use vstd::prelude::*;
use crate::model::c4::context::{
    Actor, ActorType, ContextDiagram, ExternalSystem, Interface, InterfaceProvider,
    InterfaceUsage, Protocol,
};
use crate::utils::error::{AppError, ErrorKind, Result, fails_with};
use crate::utils::keyed::{
    Keyed, has_key, is_first_key, position_of, contains_key, lemma_first_key_same, lemma_first_key_unique,
    keys_distinct, lemma_push_fresh_keeps_distinct, lemma_remove_keeps_distinct,
};
use crate::model::c4::context::{element_ids, element_name};
use crate::utils::text::{
    to_owned_string, opt_str_to_string, opt_str_view, opt_view, name_or_id, concat2, concat3,
    concat4, string_views, without, without_text, has_text, is_first_text, position_text,
    contains_text, is_blank, same_text,
};

verus! {

/// Operations that edit a context diagram.
pub struct Operations;

/// The parts of a diagram that an edit keeps, and the modification time that a
/// successful edit renews from the clock, which never reads before 1970.
pub open spec fn same_header(a: ContextDiagram, b: ContextDiagram) -> bool {
    &&& a.version == b.version
    &&& a.kind == b.kind
    &&& a.metadata.title == b.metadata.title
    &&& a.metadata.description == b.metadata.description
    &&& a.metadata.created_at == b.metadata.created_at
    &&& b.metadata.updated_at >= 0
}

/// `a` is an actor with exactly these fields.
pub open spec fn actor_is(a: Actor, id: Seq<char>, name: Seq<char>, description: Option<Seq<char>>, actor_type: ActorType) -> bool {
    &&& a.id@ == id
    &&& a.name@ == name
    &&& opt_view(a.description) == description
    &&& a.actor_type == actor_type
}

/// The message of an ID clash with the system.
pub open spec fn clash_with_system(id: Seq<char>) -> Seq<char> {
    "ID '"@ + id + "' conflicts with system ID"@
}

/// The message of an ID clash with an actor.
pub open spec fn clash_with_actor(id: Seq<char>) -> Seq<char> {
    "ID '"@ + id + "' conflicts with an existing actor"@
}

/// The message of an ID clash with an external system.
pub open spec fn clash_with_external(id: Seq<char>) -> Seq<char> {
    "ID '"@ + id + "' conflicts with an existing external system"@
}

/// Whether `id` is not yet the ID of the system, an actor or an external system.
pub open spec fn id_free(d: ContextDiagram, id: Seq<char>) -> bool {
    &&& d.system.id@ != id
    &&& !has_key(d.actors@, id)
    &&& !has_key(d.external_systems@, id)
}

/// What `add_actor` does.
pub open spec fn add_actor_post(
    d0: ContextDiagram,
    d1: ContextDiagram,
    id: Seq<char>,
    name: Seq<char>,
    description: Option<Seq<char>>,
    actor_type: ActorType,
    r: Result<()>,
) -> bool {
    &&& has_key(d0.actors@, id) ==> fails_with(r, ErrorKind::ElementAlreadyExists, "actor: "@ + id)
    &&& !has_key(d0.actors@, id) && d0.system.id@ == id
        ==> fails_with(r, ErrorKind::InvalidOperation, clash_with_system(id))
    &&& !has_key(d0.actors@, id) && d0.system.id@ != id && has_key(d0.external_systems@, id)
        ==> fails_with(r, ErrorKind::InvalidOperation, clash_with_external(id))
    &&& r is Ok <==> id_free(d0, id)
    &&& r is Err ==> d1 == d0
    &&& r is Ok ==> {
        &&& same_header(d0, d1)
        &&& d1.actors@.len() == d0.actors@.len() + 1
        &&& d1.actors@.drop_last() == d0.actors@
        &&& actor_is(d1.actors@.last(), id, name, description, actor_type)
        &&& d1.system == d0.system
        &&& d1.external_systems == d0.external_systems
        &&& d1.interfaces == d0.interfaces
        &&& d1.interface_providers == d0.interface_providers
        &&& d1.interface_usages == d0.interface_usages
    }
}

/// What `remove_actor` does: the first actor with the ID goes, and so does the
/// first usage entry of that ID.
pub open spec fn remove_actor_post(d0: ContextDiagram, d1: ContextDiagram, id: Seq<char>, r: Result<()>) -> bool {
    &&& !has_key(d0.actors@, id) ==> fails_with(r, ErrorKind::ElementNotFound, "actor: "@ + id)
    &&& r is Ok <==> has_key(d0.actors@, id)
    &&& r is Err ==> d1 == d0
    &&& r is Ok ==> {
        &&& same_header(d0, d1)
        &&& exists|i: int| is_first_key(d0.actors@, id, i) && d1.actors@ == d0.actors@.remove(i)
        &&& has_key(d0.interface_usages@, id) ==> exists|j: int|
            is_first_key(d0.interface_usages@, id, j) && d1.interface_usages@ == d0.interface_usages@.remove(j)
        &&& !has_key(d0.interface_usages@, id) ==> d1.interface_usages == d0.interface_usages
        &&& d1.system == d0.system
        &&& d1.external_systems == d0.external_systems
        &&& d1.interfaces == d0.interfaces
        &&& d1.interface_providers == d0.interface_providers
    }
}

/// `e` is an external system with exactly these fields.
pub open spec fn external_is(e: ExternalSystem, id: Seq<char>, name: Seq<char>, description: Option<Seq<char>>, technology: Option<Seq<char>>) -> bool {
    &&& e.id@ == id
    &&& e.name@ == name
    &&& opt_view(e.description) == description
    &&& opt_view(e.technology) == technology
}

/// `i` is an interface with exactly these fields and no endpoints.
pub open spec fn interface_is(i: Interface, id: Seq<char>, name: Seq<char>, description: Option<Seq<char>>, protocol: Protocol) -> bool {
    &&& i.id@ == id
    &&& i.name@ == name
    &&& opt_view(i.description) == description
    &&& i.protocol == protocol
    &&& i.endpoints@.len() == 0
}

/// An entry of an interface relation: its owner and the interface IDs it lists.
pub type Relation = (Seq<char>, Seq<Seq<char>>);

/// The provider entries, as characters.
pub open spec fn provider_relations(s: Seq<InterfaceProvider>) -> Seq<Relation> {
    s.map_values(|p: InterfaceProvider| (p.system@, string_views(p.interfaces@)))
}

/// The usage entries, as characters.
pub open spec fn usage_relations(s: Seq<InterfaceUsage>) -> Seq<Relation> {
    s.map_values(|u: InterfaceUsage| (u.actor@, string_views(u.interfaces@)))
}

/// The relation entries after `iface` was added for `owner`: the first entry
/// of `owner` (found at `i`, if `owner` has one) lists it last, or a new entry
/// is appended.
pub open spec fn relation_added(es: Seq<Relation>, found: bool, i: int, owner: Seq<char>, iface: Seq<char>) -> Seq<Relation> {
    if found {
        es.update(i, (owner, es[i].1.push(iface)))
    } else {
        es.push((owner, seq![iface]))
    }
}

/// Every entry without `x`, dropping the entries that become empty.
pub open spec fn strip_relations(es: Seq<Relation>, x: Seq<char>) -> Seq<Relation>
    decreases es.len(),
{
    if es.len() == 0 {
        es
    } else {
        let rest = strip_relations(es.drop_last(), x);
        let kept = without(es.last().1, x);
        if kept.len() == 0 {
            rest
        } else {
            rest.push((es.last().0, kept))
        }
    }
}

/// The entries without the empty ones of `owner`.
pub open spec fn drop_empty_of(es: Seq<Relation>, owner: Seq<char>) -> Seq<Relation>
    decreases es.len(),
{
    if es.len() == 0 {
        es
    } else {
        let rest = drop_empty_of(es.drop_last(), owner);
        if es.last().0 == owner && es.last().1.len() == 0 {
            rest
        } else {
            rest.push(es.last())
        }
    }
}

/// The entries without any entry of `owner`.
pub open spec fn drop_owner(es: Seq<Relation>, owner: Seq<char>) -> Seq<Relation>
    decreases es.len(),
{
    if es.len() == 0 {
        es
    } else {
        let rest = drop_owner(es.drop_last(), owner);
        if es.last().0 == owner {
            rest
        } else {
            rest.push(es.last())
        }
    }
}

/// Whether the first provider entry of `sys` already lists `iface`.
pub open spec fn provides(ps: Seq<InterfaceProvider>, sys: Seq<char>, iface: Seq<char>) -> bool {
    exists|i: int| is_first_key(ps, sys, i) && has_text(ps[i].interfaces@, iface)
}

/// Whether the first usage entry of `actor` already lists `iface`.
pub open spec fn uses(us: Seq<InterfaceUsage>, actor: Seq<char>, iface: Seq<char>) -> bool {
    exists|i: int| is_first_key(us, actor, i) && has_text(us[i].interfaces@, iface)
}

/// What `set_system` does.
pub open spec fn set_system_post(
    d0: ContextDiagram,
    d1: ContextDiagram,
    id: Seq<char>,
    name: Option<Seq<char>>,
    description: Option<Seq<char>>,
    r: Result<()>,
) -> bool {
    &&& d0.system.id@.len() != 0 && d0.system.id@ == id
        ==> fails_with(r, ErrorKind::ElementAlreadyExists, "system: "@ + id)
    &&& r is Ok <==> !(d0.system.id@.len() != 0 && d0.system.id@ == id)
    &&& r is Err ==> d1 == d0
    &&& r is Ok ==> {
        &&& same_header(d0, d1)
        &&& d1.system.id@ == id
        &&& d1.system.name@ == (match name { Some(n) => n, None => d0.system.name@ })
        &&& opt_view(d1.system.description) == (match description {
            Some(t) => Some(t),
            None => opt_view(d0.system.description),
        })
        &&& d1.actors == d0.actors
        &&& d1.external_systems == d0.external_systems
        &&& d1.interfaces == d0.interfaces
        &&& d1.interface_providers == d0.interface_providers
        &&& d1.interface_usages == d0.interface_usages
    }
}

/// What `add_external_system` does.
pub open spec fn add_external_system_post(
    d0: ContextDiagram,
    d1: ContextDiagram,
    id: Seq<char>,
    name: Seq<char>,
    description: Option<Seq<char>>,
    technology: Option<Seq<char>>,
    r: Result<()>,
) -> bool {
    &&& has_key(d0.external_systems@, id)
        ==> fails_with(r, ErrorKind::ElementAlreadyExists, "external_system: "@ + id)
    &&& !has_key(d0.external_systems@, id) && d0.system.id@ == id
        ==> fails_with(r, ErrorKind::InvalidOperation, clash_with_system(id))
    &&& !has_key(d0.external_systems@, id) && d0.system.id@ != id && has_key(d0.actors@, id)
        ==> fails_with(r, ErrorKind::InvalidOperation, clash_with_actor(id))
    &&& r is Ok <==> id_free(d0, id)
    &&& r is Err ==> d1 == d0
    &&& r is Ok ==> {
        &&& same_header(d0, d1)
        &&& d1.external_systems@.len() == d0.external_systems@.len() + 1
        &&& d1.external_systems@.drop_last() == d0.external_systems@
        &&& external_is(d1.external_systems@.last(), id, name, description, technology)
        &&& d1.system == d0.system
        &&& d1.actors == d0.actors
        &&& d1.interfaces == d0.interfaces
        &&& d1.interface_providers == d0.interface_providers
        &&& d1.interface_usages == d0.interface_usages
    }
}

/// What `add_interface` does.
pub open spec fn add_interface_post(
    d0: ContextDiagram,
    d1: ContextDiagram,
    id: Seq<char>,
    name: Seq<char>,
    description: Option<Seq<char>>,
    protocol: Protocol,
    r: Result<()>,
) -> bool {
    &&& has_key(d0.interfaces@, id) ==> fails_with(r, ErrorKind::ElementAlreadyExists, "interface: "@ + id)
    &&& r is Ok <==> !has_key(d0.interfaces@, id)
    &&& r is Err ==> d1 == d0
    &&& r is Ok ==> {
        &&& same_header(d0, d1)
        &&& d1.interfaces@.len() == d0.interfaces@.len() + 1
        &&& d1.interfaces@.drop_last() == d0.interfaces@
        &&& interface_is(d1.interfaces@.last(), id, name, description, protocol)
        &&& d1.system == d0.system
        &&& d1.actors == d0.actors
        &&& d1.external_systems == d0.external_systems
        &&& d1.interface_providers == d0.interface_providers
        &&& d1.interface_usages == d0.interface_usages
    }
}

/// Whether `sys` names the system or an external system.
pub open spec fn is_system(d: ContextDiagram, sys: Seq<char>) -> bool {
    d.system.id@ == sys || has_key(d.external_systems@, sys)
}

/// Whether `actor` names an actor, the system or an external system.
pub open spec fn is_user(d: ContextDiagram, actor: Seq<char>) -> bool {
    has_key(d.actors@, actor) || d.system.id@ == actor || has_key(d.external_systems@, actor)
}

/// The message of a relation between `a` and `b`.
pub open spec fn arrow(kind: Seq<char>, a: Seq<char>, b: Seq<char>) -> Seq<char> {
    kind + a + " -> "@ + b
}

/// What `add_provide_relation` does.
pub open spec fn add_provide_relation_post(d0: ContextDiagram, d1: ContextDiagram, sys: Seq<char>, iface: Seq<char>, r: Result<()>) -> bool {
    &&& !is_system(d0, sys) ==> fails_with(r, ErrorKind::ElementNotFound, "system or external_system: "@ + sys)
    &&& is_system(d0, sys) && !has_key(d0.interfaces@, iface)
        ==> fails_with(r, ErrorKind::ElementNotFound, "interface: "@ + iface)
    &&& is_system(d0, sys) && has_key(d0.interfaces@, iface) && provides(d0.interface_providers@, sys, iface)
        ==> fails_with(r, ErrorKind::ElementAlreadyExists, arrow("provide_relation: "@, sys, iface))
    &&& r is Ok <==> (is_system(d0, sys) && has_key(d0.interfaces@, iface) && !provides(d0.interface_providers@, sys, iface))
    &&& r is Err ==> d1 == d0
    &&& r is Ok ==> {
        &&& same_header(d0, d1)
        &&& has_key(d0.interface_providers@, sys) ==> exists|i: int|
            is_first_key(d0.interface_providers@, sys, i) && provider_relations(d1.interface_providers@)
                == relation_added(provider_relations(d0.interface_providers@), true, i, sys, iface)
        &&& !has_key(d0.interface_providers@, sys) ==> provider_relations(d1.interface_providers@)
            == relation_added(provider_relations(d0.interface_providers@), false, 0, sys, iface)
        &&& d1.system == d0.system
        &&& d1.actors == d0.actors
        &&& d1.external_systems == d0.external_systems
        &&& d1.interfaces == d0.interfaces
        &&& d1.interface_usages == d0.interface_usages
    }
}

/// What `add_interface_usage` does.
pub open spec fn add_interface_usage_post(d0: ContextDiagram, d1: ContextDiagram, actor: Seq<char>, iface: Seq<char>, r: Result<()>) -> bool {
    &&& !is_user(d0, actor) ==> fails_with(r, ErrorKind::ElementNotFound, "actor or system: "@ + actor)
    &&& is_user(d0, actor) && !has_key(d0.interfaces@, iface)
        ==> fails_with(r, ErrorKind::ElementNotFound, "interface: "@ + iface)
    &&& is_user(d0, actor) && has_key(d0.interfaces@, iface) && uses(d0.interface_usages@, actor, iface)
        ==> fails_with(r, ErrorKind::ElementAlreadyExists, arrow("interface_usage: "@, actor, iface))
    &&& r is Ok <==> (is_user(d0, actor) && has_key(d0.interfaces@, iface) && !uses(d0.interface_usages@, actor, iface))
    &&& r is Err ==> d1 == d0
    &&& r is Ok ==> {
        &&& same_header(d0, d1)
        &&& has_key(d0.interface_usages@, actor) ==> exists|i: int|
            is_first_key(d0.interface_usages@, actor, i) && usage_relations(d1.interface_usages@)
                == relation_added(usage_relations(d0.interface_usages@), true, i, actor, iface)
        &&& !has_key(d0.interface_usages@, actor) ==> usage_relations(d1.interface_usages@)
            == relation_added(usage_relations(d0.interface_usages@), false, 0, actor, iface)
        &&& d1.system == d0.system
        &&& d1.actors == d0.actors
        &&& d1.external_systems == d0.external_systems
        &&& d1.interfaces == d0.interfaces
        &&& d1.interface_providers == d0.interface_providers
    }
}

/// What `remove_external_system` does: the first external system with the ID
/// goes, and so do the first provider entry and the first usage entry of it.
pub open spec fn remove_external_system_post(d0: ContextDiagram, d1: ContextDiagram, id: Seq<char>, r: Result<()>) -> bool {
    &&& !has_key(d0.external_systems@, id) ==> fails_with(r, ErrorKind::ElementNotFound, "external_system: "@ + id)
    &&& r is Ok <==> has_key(d0.external_systems@, id)
    &&& r is Err ==> d1 == d0
    &&& r is Ok ==> {
        &&& same_header(d0, d1)
        &&& exists|i: int| is_first_key(d0.external_systems@, id, i)
            && d1.external_systems@ == d0.external_systems@.remove(i)
        &&& has_key(d0.interface_providers@, id) ==> exists|j: int|
            is_first_key(d0.interface_providers@, id, j) && d1.interface_providers@ == d0.interface_providers@.remove(j)
        &&& !has_key(d0.interface_providers@, id) ==> d1.interface_providers == d0.interface_providers
        &&& has_key(d0.interface_usages@, id) ==> exists|j: int|
            is_first_key(d0.interface_usages@, id, j) && d1.interface_usages@ == d0.interface_usages@.remove(j)
        &&& !has_key(d0.interface_usages@, id) ==> d1.interface_usages == d0.interface_usages
        &&& d1.system == d0.system
        &&& d1.actors == d0.actors
        &&& d1.interfaces == d0.interfaces
    }
}

/// What `remove_interface` does: the first interface with the ID goes, and
/// every provider and usage entry forgets it (entries left empty go too).
pub open spec fn remove_interface_post(d0: ContextDiagram, d1: ContextDiagram, id: Seq<char>, r: Result<()>) -> bool {
    &&& !has_key(d0.interfaces@, id) ==> fails_with(r, ErrorKind::ElementNotFound, "interface: "@ + id)
    &&& r is Ok <==> has_key(d0.interfaces@, id)
    &&& r is Err ==> d1 == d0
    &&& r is Ok ==> {
        &&& same_header(d0, d1)
        &&& exists|i: int| is_first_key(d0.interfaces@, id, i) && d1.interfaces@ == d0.interfaces@.remove(i)
        &&& provider_relations(d1.interface_providers@) == strip_relations(provider_relations(d0.interface_providers@), id)
        &&& usage_relations(d1.interface_usages@) == strip_relations(usage_relations(d0.interface_usages@), id)
        &&& d1.system == d0.system
        &&& d1.actors == d0.actors
        &&& d1.external_systems == d0.external_systems
    }
}

/// What `remove_provide_relation` does: the first provider entry of `sys`
/// forgets the first occurrence of `iface`; if that leaves it empty, every
/// empty entry of `sys` goes.
pub open spec fn remove_provide_relation_post(d0: ContextDiagram, d1: ContextDiagram, sys: Seq<char>, iface: Seq<char>, r: Result<()>) -> bool {
    &&& !has_key(d0.interface_providers@, sys)
        ==> fails_with(r, ErrorKind::ElementNotFound, "provider for system: "@ + sys)
    &&& has_key(d0.interface_providers@, sys) && !provides(d0.interface_providers@, sys, iface)
        ==> fails_with(r, ErrorKind::ElementNotFound, arrow("provide_relation: "@, sys, iface))
    &&& r is Ok <==> provides(d0.interface_providers@, sys, iface)
    &&& r is Err ==> d1 == d0
    &&& r is Ok ==> {
        &&& same_header(d0, d1)
        &&& exists|i: int, k: int| {
            &&& is_first_key(d0.interface_providers@, sys, i)
            &&& is_first_text(d0.interface_providers@[i].interfaces@, iface, k)
            &&& ({
                let es = provider_relations(d0.interface_providers@);
                let left = es[i].1.remove(k);
                let changed = es.update(i, (sys, left));
                provider_relations(d1.interface_providers@)
                    == if left.len() == 0 { drop_empty_of(changed, sys) } else { changed }
            })
        }
        &&& d1.system == d0.system
        &&& d1.actors == d0.actors
        &&& d1.external_systems == d0.external_systems
        &&& d1.interfaces == d0.interfaces
        &&& d1.interface_usages == d0.interface_usages
    }
}

/// What `remove_interface_usage` does: the first usage entry of `actor`
/// forgets the first occurrence of `iface`; if that leaves it empty, every
/// entry of `actor` goes.
pub open spec fn remove_interface_usage_post(d0: ContextDiagram, d1: ContextDiagram, actor: Seq<char>, iface: Seq<char>, r: Result<()>) -> bool {
    &&& !has_key(d0.interface_usages@, actor)
        ==> fails_with(r, ErrorKind::ElementNotFound, "usage for actor: "@ + actor)
    &&& has_key(d0.interface_usages@, actor) && !uses(d0.interface_usages@, actor, iface)
        ==> fails_with(r, ErrorKind::ElementNotFound, arrow("interface_usage: "@, actor, iface))
    &&& r is Ok <==> uses(d0.interface_usages@, actor, iface)
    &&& r is Err ==> d1 == d0
    &&& r is Ok ==> {
        &&& same_header(d0, d1)
        &&& exists|i: int, k: int| {
            &&& is_first_key(d0.interface_usages@, actor, i)
            &&& is_first_text(d0.interface_usages@[i].interfaces@, iface, k)
            &&& ({
                let es = usage_relations(d0.interface_usages@);
                let left = es[i].1.remove(k);
                let changed = es.update(i, (actor, left));
                usage_relations(d1.interface_usages@)
                    == if left.len() == 0 { drop_owner(changed, actor) } else { changed }
            })
        }
        &&& d1.system == d0.system
        &&& d1.actors == d0.actors
        &&& d1.external_systems == d0.external_systems
        &&& d1.interfaces == d0.interfaces
        &&& d1.interface_providers == d0.interface_providers
    }
}

/// The providers without `x` in their lists, dropping those left empty.
fn strip_providers(ps: Vec<InterfaceProvider>, x: &str) -> (r: Vec<InterfaceProvider>)
    ensures
        provider_relations(r@) == strip_relations(provider_relations(ps@), x@),
{
    let ghost orig = provider_relations(ps@);
    let mut rest = ps;
    let mut out: Vec<InterfaceProvider> = Vec::new();
    let ghost mut n: int = 0;
    while rest.len() > 0
        invariant
            0 <= n <= orig.len(),
            provider_relations(rest@) == orig.skip(n),
            provider_relations(out@) == strip_relations(orig.take(n), x@),
        decreases rest@.len(),
    {
        let ghost rs = rest@;
        let p = rest.remove(0);
        assert(provider_relations(rs).len() == rs.len());
        assert(n < orig.len());
        assert(provider_relations(rs)[0] == orig.skip(n)[0]);
        assert(provider_relations(rest@) =~= provider_relations(rs).skip(1));
        assert(orig.skip(n).skip(1) =~= orig.skip(n + 1));
        assert(orig.take(n + 1).drop_last() =~= orig.take(n));
        let kept = without_text(&p.interfaces, x);
        if kept.len() > 0 {
            let ghost before = out@;
            out.push(InterfaceProvider { system: p.system, interfaces: kept });
            assert(provider_relations(out@) =~= provider_relations(before).push(
                (orig[n].0, without(orig[n].1, x@)),
            ));
        }
        proof {
            n = n + 1;
        }
    }
    assert(orig.take(n) =~= orig);
    out
}

/// The usages without `x` in their lists, dropping those left empty.
fn strip_usages(us: Vec<InterfaceUsage>, x: &str) -> (r: Vec<InterfaceUsage>)
    ensures
        usage_relations(r@) == strip_relations(usage_relations(us@), x@),
{
    let ghost orig = usage_relations(us@);
    let mut rest = us;
    let mut out: Vec<InterfaceUsage> = Vec::new();
    let ghost mut n: int = 0;
    while rest.len() > 0
        invariant
            0 <= n <= orig.len(),
            usage_relations(rest@) == orig.skip(n),
            usage_relations(out@) == strip_relations(orig.take(n), x@),
        decreases rest@.len(),
    {
        let ghost rs = rest@;
        let u = rest.remove(0);
        assert(usage_relations(rs).len() == rs.len());
        assert(n < orig.len());
        assert(usage_relations(rs)[0] == orig.skip(n)[0]);
        assert(usage_relations(rest@) =~= usage_relations(rs).skip(1));
        assert(orig.skip(n).skip(1) =~= orig.skip(n + 1));
        assert(orig.take(n + 1).drop_last() =~= orig.take(n));
        let kept = without_text(&u.interfaces, x);
        if kept.len() > 0 {
            let ghost before = out@;
            out.push(InterfaceUsage { actor: u.actor, interfaces: kept });
            assert(usage_relations(out@) =~= usage_relations(before).push(
                (orig[n].0, without(orig[n].1, x@)),
            ));
        }
        proof {
            n = n + 1;
        }
    }
    assert(orig.take(n) =~= orig);
    out
}

/// The providers without the empty entries of `sys`.
fn drop_empty_providers(ps: Vec<InterfaceProvider>, sys: &String) -> (r: Vec<InterfaceProvider>)
    ensures
        provider_relations(r@) == drop_empty_of(provider_relations(ps@), sys@),
{
    let ghost orig = provider_relations(ps@);
    let mut rest = ps;
    let mut out: Vec<InterfaceProvider> = Vec::new();
    let ghost mut n: int = 0;
    while rest.len() > 0
        invariant
            0 <= n <= orig.len(),
            provider_relations(rest@) == orig.skip(n),
            provider_relations(out@) == drop_empty_of(orig.take(n), sys@),
        decreases rest@.len(),
    {
        let ghost rs = rest@;
        let p = rest.remove(0);
        assert(provider_relations(rs).len() == rs.len());
        assert(n < orig.len());
        assert(provider_relations(rs)[0] == orig.skip(n)[0]);
        assert(provider_relations(rest@) =~= provider_relations(rs).skip(1));
        assert(orig.skip(n).skip(1) =~= orig.skip(n + 1));
        assert(orig.take(n + 1).drop_last() =~= orig.take(n));
        if !(same_text(&p.system, sys) && p.interfaces.len() == 0) {
            let ghost before = out@;
            out.push(p);
            assert(provider_relations(out@) =~= provider_relations(before).push(orig[n]));
        }
        proof {
            n = n + 1;
        }
    }
    assert(orig.take(n) =~= orig);
    out
}

/// The usages without any entry of `actor`.
fn drop_usages_of(us: Vec<InterfaceUsage>, actor: &String) -> (r: Vec<InterfaceUsage>)
    ensures
        usage_relations(r@) == drop_owner(usage_relations(us@), actor@),
{
    let ghost orig = usage_relations(us@);
    let mut rest = us;
    let mut out: Vec<InterfaceUsage> = Vec::new();
    let ghost mut n: int = 0;
    while rest.len() > 0
        invariant
            0 <= n <= orig.len(),
            usage_relations(rest@) == orig.skip(n),
            usage_relations(out@) == drop_owner(orig.take(n), actor@),
        decreases rest@.len(),
    {
        let ghost rs = rest@;
        let u = rest.remove(0);
        assert(usage_relations(rs).len() == rs.len());
        assert(n < orig.len());
        assert(usage_relations(rs)[0] == orig.skip(n)[0]);
        assert(usage_relations(rest@) =~= usage_relations(rs).skip(1));
        assert(orig.skip(n).skip(1) =~= orig.skip(n + 1));
        assert(orig.take(n + 1).drop_last() =~= orig.take(n));
        if !same_text(&u.actor, actor) {
            let ghost before = out@;
            out.push(u);
            assert(usage_relations(out@) =~= usage_relations(before).push(orig[n]));
        }
        proof {
            n = n + 1;
        }
    }
    assert(orig.take(n) =~= orig);
    out
}

impl Operations {
    /// Checks that `id` is not taken by the system, an actor or an external system.
    fn check_id_uniqueness(diagram: &ContextDiagram, id: &str) -> (r: Result<()>)
        ensures
            diagram.system.id@ == id@ ==> fails_with(r, ErrorKind::InvalidOperation, clash_with_system(id@)),
            diagram.system.id@ != id@ && has_key(diagram.actors@, id@)
                ==> fails_with(r, ErrorKind::InvalidOperation, clash_with_actor(id@)),
            diagram.system.id@ != id@ && !has_key(diagram.actors@, id@) && has_key(diagram.external_systems@, id@)
                ==> fails_with(r, ErrorKind::InvalidOperation, clash_with_external(id@)),
            r is Ok <==> id_free(*diagram, id@),
    {
        let key = to_owned_string(id);
        if same_text(&diagram.system.id, &key) {
            return Err(AppError::InvalidOperation(concat3("ID '", id, "' conflicts with system ID")));
        }
        if contains_key(&diagram.actors, &key) {
            return Err(AppError::InvalidOperation(concat3("ID '", id, "' conflicts with an existing actor")));
        }
        if contains_key(&diagram.external_systems, &key) {
            return Err(AppError::InvalidOperation(
                concat3("ID '", id, "' conflicts with an existing external system"),
            ));
        }
        Ok(())
    }

    /// Adds an actor; its name defaults to its ID.
    pub fn add_actor(
        diagram: &mut ContextDiagram,
        id: &str,
        name: Option<&str>,
        description: Option<&str>,
        actor_type: ActorType,
    ) -> (r: Result<()>)
        ensures
            add_actor_post(*old(diagram), *final(diagram), id@, name_or_id(name, id), opt_str_view(description), actor_type, r),
    {
        let key = to_owned_string(id);
        if contains_key(&diagram.actors, &key) {
            return Err(AppError::ElementAlreadyExists(concat2("actor: ", id)));
        }
        match Self::check_id_uniqueness(diagram, id) {
            Err(e) => {
                return Err(e);
            },
            Ok(()) => {},
        }
        let shown = match name {
            Some(n) => n,
            None => id,
        };
        let ghost before = diagram.actors@;
        diagram.actors.push(Actor {
            id: key,
            name: to_owned_string(shown),
            description: opt_str_to_string(description),
            actor_type,
        });
        assert(diagram.actors@.drop_last() =~= before);
        diagram.touch();
        Ok(())
    }

    /// Removes an actor and its interface usage entry.
    pub fn remove_actor(diagram: &mut ContextDiagram, id: &str) -> (r: Result<()>)
        ensures
            remove_actor_post(*old(diagram), *final(diagram), id@, r),
    {
        let key = to_owned_string(id);
        let i = match position_of(&diagram.actors, &key) {
            Some(i) => i,
            None => {
                return Err(AppError::ElementNotFound(concat2("actor: ", id)));
            },
        };
        diagram.actors.remove(i);
        match position_of(&diagram.interface_usages, &key) {
            Some(j) => {
                diagram.interface_usages.remove(j);
            },
            None => {},
        }
        diagram.touch();
        Ok(())
    }

    /// Sets the system's ID, and its name and description where given; fails
    /// when the system already has this (non-empty) ID.
    pub fn set_system(
        diagram: &mut ContextDiagram,
        id: &str,
        name: Option<&str>,
        description: Option<&str>,
    ) -> (r: Result<()>)
        ensures
            set_system_post(*old(diagram), *final(diagram), id@, opt_str_view(name), opt_str_view(description), r),
    {
        let key = to_owned_string(id);
        if !is_blank(&diagram.system.id) && same_text(&diagram.system.id, &key) {
            return Err(AppError::ElementAlreadyExists(concat2("system: ", id)));
        }
        diagram.system.id = key;
        match name {
            Some(n) => {
                diagram.system.name = to_owned_string(n);
            },
            None => {},
        }
        match description {
            Some(t) => {
                diagram.system.description = Some(to_owned_string(t));
            },
            None => {},
        }
        diagram.touch();
        Ok(())
    }

    /// Adds an external system; its name defaults to its ID.
    pub fn add_external_system(
        diagram: &mut ContextDiagram,
        id: &str,
        name: Option<&str>,
        description: Option<&str>,
        technology: Option<&str>,
    ) -> (r: Result<()>)
        ensures
            add_external_system_post(
                *old(diagram),
                *final(diagram),
                id@,
                name_or_id(name, id),
                opt_str_view(description),
                opt_str_view(technology),
                r,
            ),
    {
        let key = to_owned_string(id);
        if contains_key(&diagram.external_systems, &key) {
            return Err(AppError::ElementAlreadyExists(concat2("external_system: ", id)));
        }
        match Self::check_id_uniqueness(diagram, id) {
            Err(e) => {
                return Err(e);
            },
            Ok(()) => {},
        }
        let shown = match name {
            Some(n) => n,
            None => id,
        };
        let ghost before = diagram.external_systems@;
        diagram.external_systems.push(ExternalSystem {
            id: key,
            name: to_owned_string(shown),
            description: opt_str_to_string(description),
            technology: opt_str_to_string(technology),
        });
        assert(diagram.external_systems@.drop_last() =~= before);
        diagram.touch();
        Ok(())
    }

    /// Adds an interface without endpoints; its name defaults to its ID.
    pub fn add_interface(
        diagram: &mut ContextDiagram,
        id: &str,
        name: Option<&str>,
        description: Option<&str>,
        protocol: Protocol,
    ) -> (r: Result<()>)
        ensures
            add_interface_post(*old(diagram), *final(diagram), id@, name_or_id(name, id), opt_str_view(description), protocol, r),
            keys_distinct(old(diagram).interfaces@) ==> keys_distinct(final(diagram).interfaces@),
    {
        let key = to_owned_string(id);
        if contains_key(&diagram.interfaces, &key) {
            return Err(AppError::ElementAlreadyExists(concat2("interface: ", id)));
        }
        let shown = match name {
            Some(n) => n,
            None => id,
        };
        let ghost before = diagram.interfaces@;
        diagram.interfaces.push(Interface {
            id: key,
            name: to_owned_string(shown),
            description: opt_str_to_string(description),
            protocol,
            endpoints: Vec::new(),
        });
        assert(diagram.interfaces@.drop_last() =~= before);
        diagram.touch();
        proof {
            if keys_distinct(before) {
                lemma_push_fresh_keeps_distinct(before, diagram.interfaces@);
            }
        }
        Ok(())
    }

    /// Records that the system or an external system provides an interface.
    pub fn add_provide_relation(diagram: &mut ContextDiagram, system_id: &str, interface_id: &str) -> (r: Result<()>)
        ensures
            add_provide_relation_post(*old(diagram), *final(diagram), system_id@, interface_id@, r),
    {
        let sys = to_owned_string(system_id);
        let iface = to_owned_string(interface_id);
        if !same_text(&diagram.system.id, &sys) && !contains_key(&diagram.external_systems, &sys) {
            return Err(AppError::ElementNotFound(concat2("system or external_system: ", system_id)));
        }
        if !contains_key(&diagram.interfaces, &iface) {
            return Err(AppError::ElementNotFound(concat2("interface: ", interface_id)));
        }
        let ghost ps = diagram.interface_providers@;
        let ghost es = provider_relations(ps);
        match position_of(&diagram.interface_providers, &sys) {
            Some(i) => {
                if contains_text(&diagram.interface_providers[i].interfaces, &iface) {
                    return Err(AppError::ElementAlreadyExists(
                        concat4("provide_relation: ", system_id, " -> ", interface_id),
                    ));
                }
                proof {
                    assert forall|j: int| is_first_key(ps, system_id@, j) implies !has_text(
                        ps[j].interfaces@,
                        interface_id@,
                    ) by {
                        lemma_first_key_same(ps, system_id@, i as int, j);
                    }
                }
                let mut p = diagram.interface_providers.remove(i);
                let ghost old_ifaces = p.interfaces@;
                p.interfaces.push(iface);
                assert(string_views(p.interfaces@) =~= string_views(old_ifaces).push(interface_id@));
                diagram.interface_providers.insert(i, p);
                assert(diagram.interface_providers@ =~= ps.update(i as int, p));
                assert(provider_relations(diagram.interface_providers@) =~= relation_added(
                    es,
                    true,
                    i as int,
                    system_id@,
                    interface_id@,
                ));
            },
            None => {
                let mut listed: Vec<String> = Vec::new();
                listed.push(iface);
                assert(string_views(listed@) =~= seq![interface_id@]);
                diagram.interface_providers.push(InterfaceProvider { system: sys, interfaces: listed });
                assert(provider_relations(diagram.interface_providers@) =~= relation_added(
                    es,
                    false,
                    0,
                    system_id@,
                    interface_id@,
                ));
            },
        }
        diagram.touch();
        Ok(())
    }

    /// Records that an actor, the system or an external system uses an interface.
    pub fn add_interface_usage(diagram: &mut ContextDiagram, actor_id: &str, interface_id: &str) -> (r: Result<()>)
        ensures
            add_interface_usage_post(*old(diagram), *final(diagram), actor_id@, interface_id@, r),
    {
        let actor = to_owned_string(actor_id);
        let iface = to_owned_string(interface_id);
        let valid = contains_key(&diagram.actors, &actor) || same_text(&diagram.system.id, &actor)
            || contains_key(&diagram.external_systems, &actor);
        if !valid {
            return Err(AppError::ElementNotFound(concat2("actor or system: ", actor_id)));
        }
        if !contains_key(&diagram.interfaces, &iface) {
            return Err(AppError::ElementNotFound(concat2("interface: ", interface_id)));
        }
        let ghost us = diagram.interface_usages@;
        let ghost es = usage_relations(us);
        match position_of(&diagram.interface_usages, &actor) {
            Some(i) => {
                if contains_text(&diagram.interface_usages[i].interfaces, &iface) {
                    return Err(AppError::ElementAlreadyExists(
                        concat4("interface_usage: ", actor_id, " -> ", interface_id),
                    ));
                }
                proof {
                    assert forall|j: int| is_first_key(us, actor_id@, j) implies !has_text(
                        us[j].interfaces@,
                        interface_id@,
                    ) by {
                        lemma_first_key_same(us, actor_id@, i as int, j);
                    }
                }
                let mut u = diagram.interface_usages.remove(i);
                let ghost old_ifaces = u.interfaces@;
                u.interfaces.push(iface);
                assert(string_views(u.interfaces@) =~= string_views(old_ifaces).push(interface_id@));
                diagram.interface_usages.insert(i, u);
                assert(diagram.interface_usages@ =~= us.update(i as int, u));
                assert(usage_relations(diagram.interface_usages@) =~= relation_added(
                    es,
                    true,
                    i as int,
                    actor_id@,
                    interface_id@,
                ));
            },
            None => {
                let mut listed: Vec<String> = Vec::new();
                listed.push(iface);
                assert(string_views(listed@) =~= seq![interface_id@]);
                diagram.interface_usages.push(InterfaceUsage { actor, interfaces: listed });
                assert(usage_relations(diagram.interface_usages@) =~= relation_added(
                    es,
                    false,
                    0,
                    actor_id@,
                    interface_id@,
                ));
            },
        }
        diagram.touch();
        Ok(())
    }

    /// Removes an external system and its provider and usage entries.
    pub fn remove_external_system(diagram: &mut ContextDiagram, id: &str) -> (r: Result<()>)
        ensures
            remove_external_system_post(*old(diagram), *final(diagram), id@, r),
    {
        let key = to_owned_string(id);
        let i = match position_of(&diagram.external_systems, &key) {
            Some(i) => i,
            None => {
                return Err(AppError::ElementNotFound(concat2("external_system: ", id)));
            },
        };
        diagram.external_systems.remove(i);
        match position_of(&diagram.interface_providers, &key) {
            Some(j) => {
                diagram.interface_providers.remove(j);
            },
            None => {},
        }
        match position_of(&diagram.interface_usages, &key) {
            Some(j) => {
                diagram.interface_usages.remove(j);
            },
            None => {},
        }
        diagram.touch();
        Ok(())
    }

    /// Removes an interface and every relation entry that lists it.
    pub fn remove_interface(diagram: &mut ContextDiagram, id: &str) -> (r: Result<()>)
        ensures
            remove_interface_post(*old(diagram), *final(diagram), id@, r),
            keys_distinct(old(diagram).interfaces@) ==> keys_distinct(final(diagram).interfaces@),
    {
        let key = to_owned_string(id);
        let i = match position_of(&diagram.interfaces, &key) {
            Some(i) => i,
            None => {
                return Err(AppError::ElementNotFound(concat2("interface: ", id)));
            },
        };
        let ghost before = diagram.interfaces@;
        diagram.interfaces.remove(i);
        let mut providers: Vec<InterfaceProvider> = Vec::new();
        std::mem::swap(&mut providers, &mut diagram.interface_providers);
        diagram.interface_providers = strip_providers(providers, id);
        let mut usages: Vec<InterfaceUsage> = Vec::new();
        std::mem::swap(&mut usages, &mut diagram.interface_usages);
        diagram.interface_usages = strip_usages(usages, id);
        diagram.touch();
        proof {
            if keys_distinct(before) {
                lemma_remove_keeps_distinct(before, i as int);
            }
        }
        Ok(())
    }

    /// Removes one interface from the provider entry of a system.
    pub fn remove_provide_relation(diagram: &mut ContextDiagram, system_id: &str, interface_id: &str) -> (r: Result<()>)
        ensures
            remove_provide_relation_post(*old(diagram), *final(diagram), system_id@, interface_id@, r),
    {
        let sys = to_owned_string(system_id);
        let ghost ps = diagram.interface_providers@;
        let i = match position_of(&diagram.interface_providers, &sys) {
            Some(i) => i,
            None => {
                return Err(AppError::ElementNotFound(concat2("provider for system: ", system_id)));
            },
        };
        let iface = to_owned_string(interface_id);
        let k = match position_text(&diagram.interface_providers[i].interfaces, &iface) {
            Some(k) => k,
            None => {
                proof {
                    assert forall|j: int| is_first_key(ps, system_id@, j) implies !has_text(
                        ps[j].interfaces@,
                        interface_id@,
                    ) by {
                        lemma_first_key_same(ps, system_id@, i as int, j);
                    }
                }
                return Err(AppError::ElementNotFound(
                    concat4("provide_relation: ", system_id, " -> ", interface_id),
                ));
            },
        };
        let ghost es = provider_relations(ps);
        let mut p = diagram.interface_providers.remove(i);
        p.interfaces.remove(k);
        let left_empty = p.interfaces.len() == 0;
        let ghost left = es[i as int].1.remove(k as int);
        assert(string_views(p.interfaces@) =~= left);
        diagram.interface_providers.insert(i, p);
        assert(diagram.interface_providers@ =~= ps.update(i as int, p));
        assert(provider_relations(diagram.interface_providers@) =~= es.update(i as int, (system_id@, left)));
        if left_empty {
            let mut all: Vec<InterfaceProvider> = Vec::new();
            std::mem::swap(&mut all, &mut diagram.interface_providers);
            diagram.interface_providers = drop_empty_providers(all, &sys);
        }
        assert(has_text(ps[i as int].interfaces@, interface_id@));
        diagram.touch();
        Ok(())
    }

    /// Removes one interface from the usage entry of an actor.
    pub fn remove_interface_usage(diagram: &mut ContextDiagram, actor_id: &str, interface_id: &str) -> (r: Result<()>)
        ensures
            remove_interface_usage_post(*old(diagram), *final(diagram), actor_id@, interface_id@, r),
    {
        let actor = to_owned_string(actor_id);
        let ghost us = diagram.interface_usages@;
        let i = match position_of(&diagram.interface_usages, &actor) {
            Some(i) => i,
            None => {
                return Err(AppError::ElementNotFound(concat2("usage for actor: ", actor_id)));
            },
        };
        let iface = to_owned_string(interface_id);
        let k = match position_text(&diagram.interface_usages[i].interfaces, &iface) {
            Some(k) => k,
            None => {
                proof {
                    assert forall|j: int| is_first_key(us, actor_id@, j) implies !has_text(
                        us[j].interfaces@,
                        interface_id@,
                    ) by {
                        lemma_first_key_same(us, actor_id@, i as int, j);
                    }
                }
                return Err(AppError::ElementNotFound(
                    concat4("interface_usage: ", actor_id, " -> ", interface_id),
                ));
            },
        };
        let ghost es = usage_relations(us);
        let mut u = diagram.interface_usages.remove(i);
        u.interfaces.remove(k);
        let left_empty = u.interfaces.len() == 0;
        let ghost left = es[i as int].1.remove(k as int);
        assert(string_views(u.interfaces@) =~= left);
        diagram.interface_usages.insert(i, u);
        assert(diagram.interface_usages@ =~= us.update(i as int, u));
        assert(usage_relations(diagram.interface_usages@) =~= es.update(i as int, (actor_id@, left)));
        if left_empty {
            let mut all: Vec<InterfaceUsage> = Vec::new();
            std::mem::swap(&mut all, &mut diagram.interface_usages);
            diagram.interface_usages = drop_usages_of(all, &actor);
        }
        assert(has_text(us[i as int].interfaces@, interface_id@));
        diagram.touch();
        Ok(())
    }
}

/// Adding an actor and then removing it gives back the actors as they were.
pub proof fn lemma_add_then_remove_actor(
    d0: ContextDiagram,
    d1: ContextDiagram,
    d2: ContextDiagram,
    id: Seq<char>,
    name: Seq<char>,
    description: Option<Seq<char>>,
    actor_type: ActorType,
    r1: Result<()>,
    r2: Result<()>,
)
    requires
        add_actor_post(d0, d1, id, name, description, actor_type, r1),
        r1 is Ok,
        remove_actor_post(d1, d2, id, r2),
    ensures
        r2 is Ok,
        d2.actors@ == d0.actors@,
{
    let n = d0.actors@.len() as int;
    assert(d1.actors@[n].key() == id);
    assert(has_key(d1.actors@, id));
    let i = choose|i: int| is_first_key(d1.actors@, id, i) && d2.actors@ == d1.actors@.remove(i);
    if i < n {
        assert(d0.actors@[i] == d1.actors@[i]);
        assert(has_key(d0.actors@, id));
    }
    assert(i == n);
    assert(d2.actors@ =~= d0.actors@);
}

/// A successfully added actor is found again by its ID, under its name.
pub proof fn lemma_added_actor_found(
    d0: ContextDiagram,
    d1: ContextDiagram,
    id: Seq<char>,
    name: Seq<char>,
    description: Option<Seq<char>>,
    actor_type: ActorType,
    r: Result<()>,
)
    requires
        add_actor_post(d0, d1, id, name, description, actor_type, r),
        r is Ok,
    ensures
        element_name(d1, id) == Some(name),
{
    let n = d0.actors@.len() as int;
    assert(d1.actors@[n].key() == id);
    assert forall|j: int| 0 <= j < n implies #[trigger] d1.actors@[j].key() != id by {
        assert(d1.actors@[j] == d0.actors@[j]);
    }
    assert(is_first_key(d1.actors@, id, n));
    lemma_first_key_unique(d1.actors@, id, n);
}

/// Adding an actor keeps the element IDs (system, actors, external systems)
/// free of duplicates.
pub proof fn lemma_add_actor_keeps_ids_distinct(
    d0: ContextDiagram,
    d1: ContextDiagram,
    id: Seq<char>,
    name: Seq<char>,
    description: Option<Seq<char>>,
    actor_type: ActorType,
    r: Result<()>,
)
    requires
        add_actor_post(d0, d1, id, name, description, actor_type, r),
        element_ids(d0).no_duplicates(),
    ensures
        element_ids(d1).no_duplicates(),
{
    if r is Ok {
        let a0 = d0.actors@.map_values(|a: Actor| a.id@);
        let e0 = d0.external_systems@.map_values(|e: ExternalSystem| e.id@);
        let a1 = d1.actors@.map_values(|a: Actor| a.id@);
        let n = d0.actors@.len() as int;
        assert(a1 =~= a0.push(id)) by {
            assert forall|j: int| 0 <= j < n implies a1[j] == a0[j] by {
                assert(d1.actors@[j] == d0.actors@[j]);
            }
        }
        let old_ids = element_ids(d0);
        let new_ids = element_ids(d1);
        assert(old_ids =~= seq![d0.system.id@] + a0 + e0);
        assert(new_ids =~= seq![d0.system.id@] + a0 + seq![id] + e0);
        assert forall|j: int| 0 <= j < old_ids.len() implies #[trigger] old_ids[j] != id by {
            if 1 <= j < 1 + n {
                assert(d0.actors@[j - 1].key() == a0[j - 1]);
            } else if j >= 1 + n {
                assert(d0.external_systems@[j - 1 - n].key() == e0[j - 1 - n]);
            }
        }
        let m = 1 + n;
        assert forall|i: int, j: int| 0 <= i < new_ids.len() && 0 <= j < new_ids.len() && i != j
            implies new_ids[i] != new_ids[j] by {
            let oi = if i < m { i } else { i - 1 };
            let oj = if j < m { j } else { j - 1 };
            if i == m {
                assert(new_ids[j] == old_ids[oj]);
            } else if j == m {
                assert(new_ids[i] == old_ids[oi]);
            } else {
                assert(new_ids[i] == old_ids[oi]);
                assert(new_ids[j] == old_ids[oj]);
            }
        }
    }
}

/// An entry list without any entry of `owner` loses nothing to `drop_empty_of`.
proof fn lemma_drop_empty_of_absent(es: Seq<Relation>, owner: Seq<char>)
    requires
        forall|j: int| 0 <= j < es.len() ==> #[trigger] es[j].0 != owner,
    ensures
        drop_empty_of(es, owner) == es,
    decreases es.len(),
{
    if es.len() > 0 {
        lemma_drop_empty_of_absent(es.drop_last(), owner);
        assert(es.drop_last().push(es.last()) =~= es);
    }
}

/// Adding an external system keeps the element IDs (system, actors, external
/// systems) free of duplicates.
pub proof fn lemma_add_external_system_keeps_ids_distinct(
    d0: ContextDiagram,
    d1: ContextDiagram,
    id: Seq<char>,
    name: Seq<char>,
    description: Option<Seq<char>>,
    technology: Option<Seq<char>>,
    r: Result<()>,
)
    requires
        add_external_system_post(d0, d1, id, name, description, technology, r),
        element_ids(d0).no_duplicates(),
    ensures
        element_ids(d1).no_duplicates(),
{
    if r is Ok {
        let a0 = d0.actors@.map_values(|a: Actor| a.id@);
        let e0 = d0.external_systems@.map_values(|e: ExternalSystem| e.id@);
        let e1 = d1.external_systems@.map_values(|e: ExternalSystem| e.id@);
        let n = d0.external_systems@.len() as int;
        assert(e1 =~= e0.push(id)) by {
            assert forall|j: int| 0 <= j < n implies e1[j] == e0[j] by {
                assert(d1.external_systems@[j] == d0.external_systems@[j]);
            }
        }
        let old_ids = element_ids(d0);
        let new_ids = element_ids(d1);
        assert(old_ids =~= seq![d0.system.id@] + a0 + e0);
        assert(new_ids =~= old_ids.push(id));
        assert forall|j: int| 0 <= j < old_ids.len() implies #[trigger] old_ids[j] != id by {
            let na = a0.len() as int;
            if 1 <= j < 1 + na {
                assert(d0.actors@[j - 1].key() == a0[j - 1]);
            } else if j >= 1 + na {
                assert(d0.external_systems@[j - 1 - na].key() == e0[j - 1 - na]);
            }
        }
        let m = old_ids.len() as int;
        assert forall|i: int, j: int| 0 <= i < new_ids.len() && 0 <= j < new_ids.len() && i != j
            implies new_ids[i] != new_ids[j] by {
            if i == m {
                assert(new_ids[j] == old_ids[j]);
            } else if j == m {
                assert(new_ids[i] == old_ids[i]);
            } else {
                assert(new_ids[i] == old_ids[i]);
                assert(new_ids[j] == old_ids[j]);
            }
        }
    }
}

/// Dropping one entry keeps a sequence free of duplicates.
proof fn lemma_remove_no_duplicates(s: Seq<Seq<char>>, k: int)
    requires
        s.no_duplicates(),
        0 <= k < s.len(),
    ensures
        s.remove(k).no_duplicates(),
{
    let t = s.remove(k);
    assert forall|a: int, b: int| 0 <= a < t.len() && 0 <= b < t.len() && a != b implies t[a] != t[b] by {
        let a2 = if a < k { a } else { a + 1 };
        let b2 = if b < k { b } else { b + 1 };
        assert(t[a] == s[a2] && t[b] == s[b2]);
    }
}

/// Removing an actor keeps the element IDs free of duplicates.
pub proof fn lemma_remove_actor_keeps_ids_distinct(d0: ContextDiagram, d1: ContextDiagram, id: Seq<char>, r: Result<()>)
    requires
        remove_actor_post(d0, d1, id, r),
        element_ids(d0).no_duplicates(),
    ensures
        element_ids(d1).no_duplicates(),
{
    if r is Ok {
        let i = choose|i: int| is_first_key(d0.actors@, id, i) && d1.actors@ == d0.actors@.remove(i);
        let old_ids = element_ids(d0);
        assert(element_ids(d1) =~= old_ids.remove(1 + i));
        lemma_remove_no_duplicates(old_ids, 1 + i);
    }
}

/// Removing an external system keeps the element IDs free of duplicates.
pub proof fn lemma_remove_external_system_keeps_ids_distinct(
    d0: ContextDiagram,
    d1: ContextDiagram,
    id: Seq<char>,
    r: Result<()>,
)
    requires
        remove_external_system_post(d0, d1, id, r),
        element_ids(d0).no_duplicates(),
    ensures
        element_ids(d1).no_duplicates(),
{
    if r is Ok {
        let i = choose|i: int| is_first_key(d0.external_systems@, id, i)
            && d1.external_systems@ == d0.external_systems@.remove(i);
        let old_ids = element_ids(d0);
        let k = 1 + d0.actors@.len() + i;
        assert(element_ids(d1) =~= old_ids.remove(k));
        lemma_remove_no_duplicates(old_ids, k);
    }
}

/// Providing an interface and then withdrawing it gives back the provider
/// entries, unless the system's first entry was an empty one.
pub proof fn lemma_provide_then_withdraw(
    d0: ContextDiagram,
    d1: ContextDiagram,
    d2: ContextDiagram,
    sys: Seq<char>,
    iface: Seq<char>,
    r1: Result<()>,
    r2: Result<()>,
)
    requires
        add_provide_relation_post(d0, d1, sys, iface, r1),
        r1 is Ok,
        remove_provide_relation_post(d1, d2, sys, iface, r2),
        forall|i: int| is_first_key(d0.interface_providers@, sys, i) ==> d0.interface_providers@[i].interfaces@.len() > 0,
    ensures
        r2 is Ok,
        provider_relations(d2.interface_providers@) == provider_relations(d0.interface_providers@),
{
    let p0 = d0.interface_providers@;
    let p1 = d1.interface_providers@;
    let es0 = provider_relations(p0);
    let es1 = provider_relations(p1);
    assert(es1.len() == p1.len());
    if has_key(p0, sys) {
        let i = choose|i: int| is_first_key(p0, sys, i) && es1 == relation_added(es0, true, i, sys, iface);
        let l0 = es0[i].1;
        assert(es1[i] == (sys, l0.push(iface)));
        assert forall|j: int| 0 <= j < i implies #[trigger] p1[j].key() != sys by {
            assert(es1[j] == es0[j]);
            assert(p0[j].key() != sys);
        }
        assert(p1[i].key() == sys);
        assert(is_first_key(p1, sys, i));
        let kk = l0.len() as int;
        assert(string_views(p1[i].interfaces@) == l0.push(iface));
        assert(string_views(p1[i].interfaces@).len() == p1[i].interfaces@.len());
        assert(string_views(p1[i].interfaces@)[kk] == p1[i].interfaces@[kk]@);
        assert(p1[i].interfaces@[kk]@ == iface);
        assert(has_text(p1[i].interfaces@, iface));
        assert(provides(p1, sys, iface));
        let (i2, k) = choose|i2: int, k: int| {
            &&& is_first_key(p1, sys, i2)
            &&& is_first_text(p1[i2].interfaces@, iface, k)
            &&& ({
                let left = es1[i2].1.remove(k);
                let changed = es1.update(i2, (sys, left));
                provider_relations(d2.interface_providers@)
                    == if left.len() == 0 { drop_empty_of(changed, sys) } else { changed }
            })
        };
        lemma_first_key_same(p1, sys, i, i2);
        assert(!provides(p0, sys, iface));
        if k < kk {
            assert(p1[i].interfaces@[k]@ == string_views(p1[i].interfaces@)[k]);
            assert(string_views(p0[i].interfaces@)[k] == p0[i].interfaces@[k]@);
            assert(has_text(p0[i].interfaces@, iface));
        }
        assert(k == kk);
        assert(es1[i].1.remove(k) =~= l0);
        assert(p0[i].interfaces@.len() > 0);
        assert(es1.update(i, (sys, l0)) =~= es0);
    } else {
        let n = es0.len() as int;
        assert(es1 == es0.push((sys, seq![iface])));
        assert forall|j: int| 0 <= j < n implies #[trigger] p1[j].key() != sys by {
            assert(es1[j] == es0[j]);
            assert(p0[j].key() != sys);
        }
        assert(p1[n].key() == sys);
        assert(is_first_key(p1, sys, n));
        assert(string_views(p1[n].interfaces@) == seq![iface]);
        assert(string_views(p1[n].interfaces@).len() == p1[n].interfaces@.len());
        assert(string_views(p1[n].interfaces@)[0] == p1[n].interfaces@[0]@);
        assert(p1[n].interfaces@[0]@ == iface);
        assert(is_first_text(p1[n].interfaces@, iface, 0));
        assert(provides(p1, sys, iface));
        let (i2, k) = choose|i2: int, k: int| {
            &&& is_first_key(p1, sys, i2)
            &&& is_first_text(p1[i2].interfaces@, iface, k)
            &&& ({
                let left = es1[i2].1.remove(k);
                let changed = es1.update(i2, (sys, left));
                provider_relations(d2.interface_providers@)
                    == if left.len() == 0 { drop_empty_of(changed, sys) } else { changed }
            })
        };
        lemma_first_key_same(p1, sys, n, i2);
        assert(k == 0);
        assert(es1[n] == (sys, seq![iface]));
        assert(seq![iface].remove(0) =~= Seq::<Seq<char>>::empty());
        let changed = es1.update(n, (sys, es1[n].1.remove(0)));
        assert(changed =~= es0.push((sys, Seq::empty())));
        assert(changed.drop_last() =~= es0);
        assert forall|j: int| 0 <= j < es0.len() implies #[trigger] es0[j].0 != sys by {
            assert(p0[j].key() != sys);
        }
        lemma_drop_empty_of_absent(es0, sys);
    }
}

} // verus!
