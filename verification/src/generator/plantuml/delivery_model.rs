use vstd::prelude::*;
use crate::model::delivery::delivery_model::{DeliveryModel, DeliveryPackage, DeliveryType};
use crate::model::workspace::Workspace;
use crate::generator::plantuml::support::{concat_map, text_if, lemma_concat_map_step, lemma_concat_map_all};
use crate::utils::keyed::{has_key, is_first_key, lemma_first_key_unique};
use crate::utils::text::{join, join_strings, string_views, concat2};

verus! {

/// What the `Debug` format prints for a delivery type.
pub open spec fn delivery_type_name(t: DeliveryType) -> Seq<char> {
    match t {
        DeliveryType::ContainerImage => "ContainerImage"@,
        DeliveryType::Archive => "Archive"@,
        DeliveryType::Installer => "Installer"@,
        DeliveryType::HelmChart => "HelmChart"@,
        DeliveryType::NpmPackage => "NpmPackage"@,
        DeliveryType::Crate => "Crate"@,
    }
}

/// The name of build artifact `id`, if the workspace has a build model with it.
pub open spec fn artifact_name_of(w: Workspace, id: Seq<char>) -> Option<Seq<char>> {
    match w.build_model {
        Some(b) => if has_key(b.artifacts@, id) {
            Some(b.artifacts@[choose|i: int| is_first_key(b.artifacts@, id, i)].name@)
        } else {
            None
        },
        None => None,
    }
}

/// The names of the build artifacts among `ids` that the workspace knows, in order.
pub open spec fn artifact_names(w: Workspace, ids: Seq<String>) -> Seq<Seq<char>>
    decreases ids.len(),
{
    if ids.len() == 0 {
        Seq::empty()
    } else {
        let rest = artifact_names(w, ids.drop_last());
        match artifact_name_of(w, ids.last()@) {
            Some(n) => rest.push(n),
            None => rest,
        }
    }
}

/// The note lines of a package: its version, and its known artifacts.
pub open spec fn note_lines(w: Workspace, p: DeliveryPackage) -> Seq<Seq<char>> {
    let names = artifact_names(w, p.artifacts@);
    (match p.version {
        Some(v) => seq!["version: "@ + v@],
        None => Seq::empty(),
    }) + (if p.artifacts@.len() > 0 && names.len() > 0 {
        seq!["artifacts: "@ + join(names, ", "@)]
    } else {
        Seq::empty()
    })
}

/// The declaration line of a package.
pub open spec fn package_header(p: DeliveryPackage) -> Seq<char> {
    "rectangle \""@ + p.name@ + " <<"@ + delivery_type_name(p.delivery_type) + ">>\" as "@ + p.id@ + "\n"@
}

/// The note with a package's version and artifacts, when it has either.
pub open spec fn package_note(w: Workspace, p: DeliveryPackage) -> Seq<char> {
    let notes = note_lines(w, p);
    text_if(notes.len() > 0, "note right of "@ + p.id@ + "\n  "@ + join(notes, "\\n"@) + "\nend note\n"@)
}

/// The note with a package's registry, when it has one.
pub open spec fn registry_note(p: DeliveryPackage) -> Seq<char> {
    match p.registry {
        Some(r) => "note left of "@ + p.id@ + "\n  registry: "@ + r@ + "\nend note\n"@,
        None => Seq::empty(),
    }
}

/// The lines of one package: its declaration, a note with its version and
/// artifacts, a note with its registry, and a blank line.
pub open spec fn package_lines(w: Workspace) -> spec_fn(DeliveryPackage) -> Seq<char> {
    |p: DeliveryPackage| package_header(p) + package_note(w, p) + registry_note(p) + "\n"@
}

/// The PlantUML text of a delivery model.
pub open spec fn delivery_model_plantuml(w: Workspace, m: DeliveryModel) -> Seq<char> {
    "@startuml\n\n"@ + concat_map(m.packages@, package_lines(w)) + "@enduml\n"@
}

pub(crate) fn delivery_type_text(t: DeliveryType) -> (r: &'static str)
    ensures
        r@ == delivery_type_name(t),
{
    match t {
        DeliveryType::ContainerImage => "ContainerImage",
        DeliveryType::Archive => "Archive",
        DeliveryType::Installer => "Installer",
        DeliveryType::HelmChart => "HelmChart",
        DeliveryType::NpmPackage => "NpmPackage",
        DeliveryType::Crate => "Crate",
    }
}

/// The name of a build artifact, if the workspace has a build model with it.
fn resolve_artifact_name<'a>(workspace: &'a Workspace, artifact_id: &str) -> (r: Option<&'a str>)
    ensures
        match r {
            Some(n) => artifact_name_of(*workspace, artifact_id@) == Some(n@),
            None => artifact_name_of(*workspace, artifact_id@) is None,
        },
{
    match &workspace.build_model {
        Some(b) => {
            let r = b.get_artifact_name(artifact_id);
            proof {
                if let Some(n) = r {
                    let i = choose|i: int| is_first_key(b.artifacts@, artifact_id@, i) && n@ == b.artifacts@[i].name@;
                    lemma_first_key_unique(b.artifacts@, artifact_id@, i);
                }
            }
            r
        },
        None => None,
    }
}

/// The names of the known artifacts of a package.
fn known_artifact_names(workspace: &Workspace, ids: &Vec<String>) -> (r: Vec<String>)
    ensures
        string_views(r@) == artifact_names(*workspace, ids@),
{
    let mut out: Vec<String> = Vec::new();
    let mut i: usize = 0;
    while i < ids.len()
        invariant
            i <= ids.len(),
            string_views(out@) == artifact_names(*workspace, ids@.take(i as int)),
        decreases ids.len() - i,
    {
        assert(ids@.take(i + 1).drop_last() =~= ids@.take(i as int));
        let ghost before = out@;
        match resolve_artifact_name(workspace, ids[i].as_str()) {
            Some(n) => {
                out.push(String::from_str(n));
                assert(string_views(out@) =~= string_views(before).push(n@));
            },
            None => {},
        }
        i = i + 1;
    }
    assert(ids@.take(ids@.len() as int) =~= ids@);
    out
}

/// The note lines of a package (see `note_lines`).
fn package_notes(workspace: &Workspace, p: &DeliveryPackage) -> (r: Vec<String>)
    ensures
        string_views(r@) == note_lines(*workspace, *p),
{
    let mut notes: Vec<String> = Vec::new();
    match &p.version {
        Some(v) => {
            notes.push(concat2("version: ", v.as_str()));
        },
        None => {},
    }
    let ghost first = string_views(notes@);
    if p.artifacts.len() > 0 {
        let names = known_artifact_names(workspace, &p.artifacts);
        if names.len() > 0 {
            notes.push(concat2("artifacts: ", join_strings(&names, ", ").as_str()));
        }
    }
    assert(string_views(notes@) =~= note_lines(*workspace, *p));
    notes
}

fn write_header(out: &mut String, p: &DeliveryPackage)
    ensures
        final(out)@ == old(out)@ + package_header(*p),
{
    let ghost before = out@;
    out.append("rectangle \"");
    out.append(p.name.as_str());
    out.append(" <<");
    out.append(delivery_type_text(p.delivery_type));
    out.append(">>\" as ");
    out.append(p.id.as_str());
    out.append("\n");
    assert(out@ =~= before + package_header(*p));
}

fn write_note(out: &mut String, workspace: &Workspace, p: &DeliveryPackage)
    ensures
        final(out)@ == old(out)@ + package_note(*workspace, *p),
{
    let ghost before = out@;
    let notes = package_notes(workspace, p);
    if notes.len() > 0 {
        out.append("note right of ");
        out.append(p.id.as_str());
        out.append("\n  ");
        out.append(join_strings(&notes, "\\n").as_str());
        out.append("\nend note\n");
    }
    assert(out@ =~= before + package_note(*workspace, *p));
}

fn write_registry(out: &mut String, p: &DeliveryPackage)
    ensures
        final(out)@ == old(out)@ + registry_note(*p),
{
    let ghost before = out@;
    match &p.registry {
        Some(r) => {
            out.append("note left of ");
            out.append(p.id.as_str());
            out.append("\n  registry: ");
            out.append(r.as_str());
            out.append("\nend note\n");
        },
        None => {},
    }
    assert(out@ =~= before + registry_note(*p));
}

fn write_package(out: &mut String, workspace: &Workspace, p: &DeliveryPackage)
    ensures
        final(out)@ == old(out)@ + package_lines(*workspace)(*p),
{
    let ghost before = out@;
    write_header(out, p);
    write_note(out, workspace, p);
    write_registry(out, p);
    out.append("\n");
    assert(out@ =~= before + package_lines(*workspace)(*p));
}

/// Generates the PlantUML text of a delivery model: packages with their
/// delivery types, versions, artifacts and registries.
pub fn generate_delivery_model_plantuml(workspace: &Workspace, model: &DeliveryModel) -> (r: String)
    ensures
        r@ == delivery_model_plantuml(*workspace, *model),
{
    let mut out = String::new();
    out.append("@startuml\n\n");
    let ghost s0 = out@;
    let ghost f = package_lines(*workspace);
    let mut i: usize = 0;
    while i < model.packages.len()
        invariant
            i <= model.packages.len(),
            f == package_lines(*workspace),
            out@ == s0 + concat_map(model.packages@.take(i as int), f),
        decreases model.packages.len() - i,
    {
        proof {
            lemma_concat_map_step(model.packages@, f, i as int);
        }
        write_package(&mut out, workspace, &model.packages[i]);
        i = i + 1;
    }
    proof {
        lemma_concat_map_all(model.packages@, f);
    }
    out.append("@enduml\n");
    out
}

} // verus!
