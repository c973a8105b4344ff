use vstd::prelude::*;
use crate::model::c4::context::{Actor, ContextDiagram, ExternalSystem, Interface};
use crate::validator::result::{ValidationResult, Severity, Finding, finding, findings_of};
use crate::validator::support::{
    gather, finding_if, report, lemma_gather_step, lemma_gather_all, upper_snake, is_upper_snake, byte_count, name_bytes,
    lemma_gather_contains, lemma_contains_mid,
};
use crate::utils::text::{concat2, concat3, concat5, decimal, decimal_string, is_blank, same_text};

verus! {

/// The longest name that draws no finding, in bytes.
pub const MAX_NAME_LENGTH: usize = 50;

/// The IDs that must not be used.
pub open spec fn reserved_words() -> Seq<Seq<char>> {
    seq![
        "system"@, "actor"@, "interface"@, "external"@, "container"@, "component"@,
        "null"@, "undefined"@, "true"@, "false"@, "default"@,
    ]
}

/// A finding for an ID, named `what`, that is not in upper snake case.
pub open spec fn not_upper_snake(id: Seq<char>, rule: Seq<char>, message: Seq<char>, location: Seq<char>) -> Seq<Finding> {
    finding_if(!upper_snake(id) && id.len() != 0, finding("N001"@, rule, message, Severity::Warning, Some(location)))
}

/// The ID convention findings of the actors.
pub open spec fn actor_id_naming() -> spec_fn(int, Actor) -> Seq<Finding> {
    |i: int, a: Actor|
        not_upper_snake(a.id@, "ActorIdNaming"@, "Actor ID '"@ + a.id@ + "' does not follow UPPER_SNAKE_CASE convention"@,
            "actors.id="@ + a.id@)
}

/// The ID convention findings of the external systems.
pub open spec fn external_id_naming() -> spec_fn(int, ExternalSystem) -> Seq<Finding> {
    |i: int, e: ExternalSystem|
        not_upper_snake(e.id@, "ExternalSystemIdNaming"@,
            "External system ID '"@ + e.id@ + "' does not follow UPPER_SNAKE_CASE convention"@,
            "external_systems.id="@ + e.id@)
}

/// The ID convention findings of the interfaces.
pub open spec fn interface_id_naming() -> spec_fn(int, Interface) -> Seq<Finding> {
    |i: int, f: Interface|
        not_upper_snake(f.id@, "InterfaceIdNaming"@, "Interface ID '"@ + f.id@ + "' does not follow UPPER_SNAKE_CASE convention"@,
            "interfaces.id="@ + f.id@)
}

/// The name length findings of the actors.
pub open spec fn actor_name_length() -> spec_fn(int, Actor) -> Seq<Finding> {
    |i: int, a: Actor|
        finding_if(
            byte_count(a.name@) > MAX_NAME_LENGTH,
            finding("N002"@, "NameLength"@,
                "Actor '"@ + a.id@ + "' name is too long ("@ + decimal(byte_count(a.name@) as nat) + " chars)"@,
                Severity::Info, Some("actors.id="@ + a.id@)),
        )
}

/// The name length findings of the external systems.
pub open spec fn external_name_length() -> spec_fn(int, ExternalSystem) -> Seq<Finding> {
    |i: int, e: ExternalSystem|
        finding_if(
            byte_count(e.name@) > MAX_NAME_LENGTH,
            finding("N002"@, "NameLength"@,
                "External system '"@ + e.id@ + "' name is too long ("@ + decimal(byte_count(e.name@) as nat) + " chars)"@,
                Severity::Info, Some("external_systems.id="@ + e.id@)),
        )
}

/// The reserved word finding of an actor whose ID is `w`.
pub open spec fn reserved_actor(w: Seq<char>) -> spec_fn(int, Actor) -> Seq<Finding> {
    |i: int, a: Actor|
        finding_if(a.id@ == w,
            finding("N003"@, "ReservedWord"@, "Actor ID '"@ + w + "' is a reserved word"@, Severity::Error,
                Some("actors.id="@ + a.id@)))
}

/// The reserved word finding of an external system whose ID is `w`.
pub open spec fn reserved_external(w: Seq<char>) -> spec_fn(int, ExternalSystem) -> Seq<Finding> {
    |i: int, e: ExternalSystem|
        finding_if(e.id@ == w,
            finding("N003"@, "ReservedWord"@, "External system ID '"@ + w + "' is a reserved word"@, Severity::Error,
                Some("external_systems.id="@ + e.id@)))
}

/// The reserved word findings for word `w`: the system, then each actor, then
/// each external system that has it as its ID.
pub open spec fn reserved_use(d: ContextDiagram) -> spec_fn(int, Seq<char>) -> Seq<Finding> {
    |k: int, w: Seq<char>|
        finding_if(d.system.id@ == w,
            finding("N003"@, "ReservedWord"@, "System ID '"@ + w + "' is a reserved word"@, Severity::Error,
                Some("system.id"@)))
        + gather(d.actors@, reserved_actor(w))
        + gather(d.external_systems@, reserved_external(w))
}

/// All naming findings of a context diagram, in the order they are checked.
pub open spec fn naming_findings(d: ContextDiagram) -> Seq<Finding> {
    not_upper_snake(d.system.id@, "SystemIdNaming"@,
        "System ID '"@ + d.system.id@ + "' does not follow UPPER_SNAKE_CASE convention (uppercase letters, digits, underscores)"@,
        "system.id"@)
        + gather(d.actors@, actor_id_naming())
        + gather(d.external_systems@, external_id_naming())
        + gather(d.interfaces@, interface_id_naming())
        + finding_if(
            byte_count(d.system.name@) > MAX_NAME_LENGTH,
            finding("N002"@, "NameLength"@,
                "System name is too long ("@ + decimal(byte_count(d.system.name@) as nat)
                    + " chars). Consider keeping it under 50 chars"@,
                Severity::Info, Some("system.name"@)),
        )
        + gather(d.actors@, actor_name_length())
        + gather(d.external_systems@, external_name_length())
        + gather(reserved_words(), reserved_use(d))
}

/// The reserved words, in the order they are checked.
fn reserved_word_list() -> (r: Vec<&'static str>)
    ensures
        r@.map_values(|w: &str| w@) == reserved_words(),
{
    let mut v: Vec<&'static str> = Vec::new();
    v.push("system");
    v.push("actor");
    v.push("interface");
    v.push("external");
    v.push("container");
    v.push("component");
    v.push("null");
    v.push("undefined");
    v.push("true");
    v.push("false");
    v.push("default");
    assert(v@.map_values(|w: &str| w@) =~= reserved_words());
    v
}

/// Checks the ID conventions (upper snake case), the length of names and the use
/// of reserved words as IDs.
pub fn validate(diagram: &ContextDiagram) -> (r: ValidationResult)
    ensures
        r.wf(),
        findings_of(r.errors@) == naming_findings(*diagram),
{
    let d = diagram;
    let mut result = ValidationResult::new();
    assert(findings_of(result.errors@) =~= Seq::<Finding>::empty());
    if !is_upper_snake(d.system.id.as_str()) && !is_blank(&d.system.id) {
        report(&mut result, "N001", "SystemIdNaming",
            concat3("System ID '", d.system.id.as_str(),
                "' does not follow UPPER_SNAKE_CASE convention (uppercase letters, digits, underscores)"),
            Severity::Warning, Some(String::from_str("system.id")));
    }

    let ghost base = findings_of(result.errors@);
    let mut i: usize = 0;
    while i < d.actors.len()
        invariant
            i <= d.actors.len(),
            result.wf(),
            findings_of(result.errors@) == base + gather(d.actors@.take(i as int), actor_id_naming()),
        decreases d.actors.len() - i,
    {
        proof {
            lemma_gather_step(d.actors@, actor_id_naming(), i as int);
        }
        let a = &d.actors[i];
        let ghost before = findings_of(result.errors@);
        if !is_upper_snake(a.id.as_str()) && !is_blank(&a.id) {
            report(&mut result, "N001", "ActorIdNaming",
                concat3("Actor ID '", a.id.as_str(), "' does not follow UPPER_SNAKE_CASE convention"), Severity::Warning,
                Some(concat2("actors.id=", a.id.as_str())));
        }
        assert(findings_of(result.errors@) =~= before + actor_id_naming()(i as int, d.actors@[i as int]));
        i = i + 1;
    }
    proof {
        lemma_gather_all(d.actors@, actor_id_naming());
    }

    let ghost base = findings_of(result.errors@);
    let mut i: usize = 0;
    while i < d.external_systems.len()
        invariant
            i <= d.external_systems.len(),
            result.wf(),
            findings_of(result.errors@) == base + gather(d.external_systems@.take(i as int), external_id_naming()),
        decreases d.external_systems.len() - i,
    {
        proof {
            lemma_gather_step(d.external_systems@, external_id_naming(), i as int);
        }
        let e = &d.external_systems[i];
        let ghost before = findings_of(result.errors@);
        if !is_upper_snake(e.id.as_str()) && !is_blank(&e.id) {
            report(&mut result, "N001", "ExternalSystemIdNaming",
                concat3("External system ID '", e.id.as_str(), "' does not follow UPPER_SNAKE_CASE convention"),
                Severity::Warning, Some(concat2("external_systems.id=", e.id.as_str())));
        }
        assert(findings_of(result.errors@) =~= before + external_id_naming()(i as int, d.external_systems@[i as int]));
        i = i + 1;
    }
    proof {
        lemma_gather_all(d.external_systems@, external_id_naming());
    }

    let ghost base = findings_of(result.errors@);
    let mut i: usize = 0;
    while i < d.interfaces.len()
        invariant
            i <= d.interfaces.len(),
            result.wf(),
            findings_of(result.errors@) == base + gather(d.interfaces@.take(i as int), interface_id_naming()),
        decreases d.interfaces.len() - i,
    {
        proof {
            lemma_gather_step(d.interfaces@, interface_id_naming(), i as int);
        }
        let f = &d.interfaces[i];
        let ghost before = findings_of(result.errors@);
        if !is_upper_snake(f.id.as_str()) && !is_blank(&f.id) {
            report(&mut result, "N001", "InterfaceIdNaming",
                concat3("Interface ID '", f.id.as_str(), "' does not follow UPPER_SNAKE_CASE convention"), Severity::Warning,
                Some(concat2("interfaces.id=", f.id.as_str())));
        }
        assert(findings_of(result.errors@) =~= before + interface_id_naming()(i as int, d.interfaces@[i as int]));
        i = i + 1;
    }
    proof {
        lemma_gather_all(d.interfaces@, interface_id_naming());
    }

    let n = name_bytes(&d.system.name);
    if n > MAX_NAME_LENGTH {
        let digits = decimal_string(n as u64);
        report(&mut result, "N002", "NameLength",
            concat3("System name is too long (", digits.as_str(), " chars). Consider keeping it under 50 chars"),
            Severity::Info, Some(String::from_str("system.name")));
    }

    let ghost base = findings_of(result.errors@);
    let mut i: usize = 0;
    while i < d.actors.len()
        invariant
            i <= d.actors.len(),
            result.wf(),
            findings_of(result.errors@) == base + gather(d.actors@.take(i as int), actor_name_length()),
        decreases d.actors.len() - i,
    {
        proof {
            lemma_gather_step(d.actors@, actor_name_length(), i as int);
        }
        let a = &d.actors[i];
        let ghost before = findings_of(result.errors@);
        let n = name_bytes(&a.name);
        if n > MAX_NAME_LENGTH {
            let digits = decimal_string(n as u64);
            report(&mut result, "N002", "NameLength",
                concat5("Actor '", a.id.as_str(), "' name is too long (", digits.as_str(), " chars)"), Severity::Info,
                Some(concat2("actors.id=", a.id.as_str())));
        }
        assert(findings_of(result.errors@) =~= before + actor_name_length()(i as int, d.actors@[i as int]));
        i = i + 1;
    }
    proof {
        lemma_gather_all(d.actors@, actor_name_length());
    }

    let ghost base = findings_of(result.errors@);
    let mut i: usize = 0;
    while i < d.external_systems.len()
        invariant
            i <= d.external_systems.len(),
            result.wf(),
            findings_of(result.errors@) == base + gather(d.external_systems@.take(i as int), external_name_length()),
        decreases d.external_systems.len() - i,
    {
        proof {
            lemma_gather_step(d.external_systems@, external_name_length(), i as int);
        }
        let e = &d.external_systems[i];
        let ghost before = findings_of(result.errors@);
        let n = name_bytes(&e.name);
        if n > MAX_NAME_LENGTH {
            let digits = decimal_string(n as u64);
            report(&mut result, "N002", "NameLength",
                concat5("External system '", e.id.as_str(), "' name is too long (", digits.as_str(), " chars)"),
                Severity::Info, Some(concat2("external_systems.id=", e.id.as_str())));
        }
        assert(findings_of(result.errors@) =~= before + external_name_length()(i as int, d.external_systems@[i as int]));
        i = i + 1;
    }
    proof {
        lemma_gather_all(d.external_systems@, external_name_length());
    }

    let words = reserved_word_list();
    let ghost base = findings_of(result.errors@);
    let ghost check = reserved_use(*d);
    let mut k: usize = 0;
    while k < words.len()
        invariant
            k <= words.len(),
            result.wf(),
            check == reserved_use(*d),
            words@.map_values(|w: &str| w@) == reserved_words(),
            findings_of(result.errors@) == base + gather(reserved_words().take(k as int), check),
        decreases words.len() - k,
    {
        proof {
            lemma_gather_step(reserved_words(), check, k as int);
        }
        let w = words[k];
        assert(reserved_words()[k as int] == w@);
        let ghost before = findings_of(result.errors@);
        let word = String::from_str(w);
        if same_text(&d.system.id, &word) {
            report(&mut result, "N003", "ReservedWord", concat3("System ID '", w, "' is a reserved word"),
                Severity::Error, Some(String::from_str("system.id")));
        }
        let ghost mid = findings_of(result.errors@);
        let mut i: usize = 0;
        while i < d.actors.len()
            invariant
                i <= d.actors.len(),
                result.wf(),
                word@ == w@,
                findings_of(result.errors@) == mid + gather(d.actors@.take(i as int), reserved_actor(w@)),
            decreases d.actors.len() - i,
        {
            proof {
                lemma_gather_step(d.actors@, reserved_actor(w@), i as int);
            }
            let a = &d.actors[i];
            let ghost b2 = findings_of(result.errors@);
            if same_text(&a.id, &word) {
                report(&mut result, "N003", "ReservedWord", concat3("Actor ID '", w, "' is a reserved word"),
                    Severity::Error, Some(concat2("actors.id=", a.id.as_str())));
            }
            assert(findings_of(result.errors@) =~= b2 + reserved_actor(w@)(i as int, d.actors@[i as int]));
            i = i + 1;
        }
        proof {
            lemma_gather_all(d.actors@, reserved_actor(w@));
        }
        let ghost mid2 = findings_of(result.errors@);
        let mut i: usize = 0;
        while i < d.external_systems.len()
            invariant
                i <= d.external_systems.len(),
                result.wf(),
                word@ == w@,
                findings_of(result.errors@) == mid2 + gather(d.external_systems@.take(i as int), reserved_external(w@)),
            decreases d.external_systems.len() - i,
        {
            proof {
                lemma_gather_step(d.external_systems@, reserved_external(w@), i as int);
            }
            let e = &d.external_systems[i];
            let ghost b2 = findings_of(result.errors@);
            if same_text(&e.id, &word) {
                report(&mut result, "N003", "ReservedWord", concat3("External system ID '", w, "' is a reserved word"),
                    Severity::Error, Some(concat2("external_systems.id=", e.id.as_str())));
            }
            assert(findings_of(result.errors@)
                =~= b2 + reserved_external(w@)(i as int, d.external_systems@[i as int]));
            i = i + 1;
        }
        proof {
            lemma_gather_all(d.external_systems@, reserved_external(w@));
        }
        assert(findings_of(result.errors@) =~= before + check(k as int, reserved_words()[k as int]));
        k = k + 1;
    }
    proof {
        lemma_gather_all(reserved_words(), check);
    }
    result
}

/// The naming findings after those of the IDs.
spec fn later_naming_findings(d: ContextDiagram) -> Seq<Finding> {
    Seq::<Finding>::empty()
        + finding_if(
            byte_count(d.system.name@) > MAX_NAME_LENGTH,
            finding("N002"@, "NameLength"@,
                "System name is too long ("@ + decimal(byte_count(d.system.name@) as nat)
                    + " chars). Consider keeping it under 50 chars"@,
                Severity::Info, Some("system.name"@)),
        )
        + gather(d.actors@, actor_name_length())
        + gather(d.external_systems@, external_name_length())
        + gather(reserved_words(), reserved_use(d))
}

/// The naming findings on the system's ID.
spec fn system_id_findings(d: ContextDiagram) -> Seq<Finding> {
    not_upper_snake(d.system.id@, "SystemIdNaming"@,
        "System ID '"@ + d.system.id@ + "' does not follow UPPER_SNAKE_CASE convention (uppercase letters, digits, underscores)"@,
        "system.id"@)
}

/// The naming findings split around those of one kind of element.
proof fn lemma_naming_parts(d: ContextDiagram)
    ensures
        naming_findings(d) == system_id_findings(d) + gather(d.actors@, actor_id_naming())
            + gather(d.external_systems@, external_id_naming()) + (gather(d.interfaces@, interface_id_naming())
            + later_naming_findings(d)),
        naming_findings(d) == system_id_findings(d) + gather(d.actors@, actor_id_naming())
            + (gather(d.external_systems@, external_id_naming()) + gather(d.interfaces@, interface_id_naming())
            + later_naming_findings(d)),
        naming_findings(d) == system_id_findings(d) + gather(d.actors@, actor_id_naming())
            + gather(d.external_systems@, external_id_naming()) + gather(d.interfaces@, interface_id_naming())
            + later_naming_findings(d),
{
    assert(naming_findings(d) =~= system_id_findings(d) + gather(d.actors@, actor_id_naming())
        + gather(d.external_systems@, external_id_naming()) + gather(d.interfaces@, interface_id_naming())
        + later_naming_findings(d));
}

/// Every external system whose ID is not empty and not in upper snake case
/// is reported by an N001 warning located at `external_systems.id=<id>`.
pub proof fn lemma_external_id_convention_reported(d: ContextDiagram, r: ValidationResult, i: int)
    requires
        findings_of(r.errors@) == naming_findings(d),
        0 <= i < d.external_systems@.len(),
        d.external_systems@[i].id@.len() > 0,
        !upper_snake(d.external_systems@[i].id@),
    ensures
        findings_of(r.errors@).contains(Finding {
            code: "N001"@,
            rule: "ExternalSystemIdNaming"@,
            message: "External system ID '"@ + d.external_systems@[i].id@ + "' does not follow UPPER_SNAKE_CASE convention"@,
            severity: Severity::Warning,
            location: Some("external_systems.id="@ + d.external_systems@[i].id@),
        }),
{
    let id = d.external_systems@[i].id@;
    let f = Finding {
        code: "N001"@,
        rule: "ExternalSystemIdNaming"@,
        message: "External system ID '"@ + id + "' does not follow UPPER_SNAKE_CASE convention"@,
        severity: Severity::Warning,
        location: Some("external_systems.id="@ + id),
    };
    assert(external_id_naming()(i, d.external_systems@[i])[0] == f);
    lemma_gather_contains(d.external_systems@, external_id_naming(), i, f);
    lemma_naming_parts(d);
    lemma_contains_mid(system_id_findings(d) + gather(d.actors@, actor_id_naming()),
        gather(d.external_systems@, external_id_naming()),
        gather(d.interfaces@, interface_id_naming()) + later_naming_findings(d), f);
}

/// Every actor whose ID is not empty and not in upper snake case is reported
/// by an N001 warning located at `actors.id=<id>`.
pub proof fn lemma_actor_id_convention_reported(d: ContextDiagram, r: ValidationResult, i: int)
    requires
        findings_of(r.errors@) == naming_findings(d),
        0 <= i < d.actors@.len(),
        d.actors@[i].id@.len() > 0,
        !upper_snake(d.actors@[i].id@),
    ensures
        findings_of(r.errors@).contains(Finding {
            code: "N001"@,
            rule: "ActorIdNaming"@,
            message: "Actor ID '"@ + d.actors@[i].id@ + "' does not follow UPPER_SNAKE_CASE convention"@,
            severity: Severity::Warning,
            location: Some("actors.id="@ + d.actors@[i].id@),
        }),
{
    let id = d.actors@[i].id@;
    let f = Finding {
        code: "N001"@,
        rule: "ActorIdNaming"@,
        message: "Actor ID '"@ + id + "' does not follow UPPER_SNAKE_CASE convention"@,
        severity: Severity::Warning,
        location: Some("actors.id="@ + id),
    };
    assert(actor_id_naming()(i, d.actors@[i])[0] == f);
    lemma_gather_contains(d.actors@, actor_id_naming(), i, f);
    lemma_naming_parts(d);
    lemma_contains_mid(system_id_findings(d), gather(d.actors@, actor_id_naming()),
        gather(d.external_systems@, external_id_naming()) + gather(d.interfaces@, interface_id_naming())
            + later_naming_findings(d), f);
}

/// Every interface whose ID is not empty and not in upper snake case is
/// reported by an N001 warning located at `interfaces.id=<id>`.
pub proof fn lemma_interface_id_convention_reported(d: ContextDiagram, r: ValidationResult, i: int)
    requires
        findings_of(r.errors@) == naming_findings(d),
        0 <= i < d.interfaces@.len(),
        d.interfaces@[i].id@.len() > 0,
        !upper_snake(d.interfaces@[i].id@),
    ensures
        findings_of(r.errors@).contains(Finding {
            code: "N001"@,
            rule: "InterfaceIdNaming"@,
            message: "Interface ID '"@ + d.interfaces@[i].id@ + "' does not follow UPPER_SNAKE_CASE convention"@,
            severity: Severity::Warning,
            location: Some("interfaces.id="@ + d.interfaces@[i].id@),
        }),
{
    let id = d.interfaces@[i].id@;
    let f = Finding {
        code: "N001"@,
        rule: "InterfaceIdNaming"@,
        message: "Interface ID '"@ + id + "' does not follow UPPER_SNAKE_CASE convention"@,
        severity: Severity::Warning,
        location: Some("interfaces.id="@ + id),
    };
    assert(interface_id_naming()(i, d.interfaces@[i])[0] == f);
    lemma_gather_contains(d.interfaces@, interface_id_naming(), i, f);
    lemma_naming_parts(d);
    lemma_contains_mid(system_id_findings(d) + gather(d.actors@, actor_id_naming())
        + gather(d.external_systems@, external_id_naming()), gather(d.interfaces@, interface_id_naming()),
        later_naming_findings(d), f);
}

} // verus!
