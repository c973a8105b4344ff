use vstd::prelude::*;
use crate::model::builds::build_model::{BuildModel, BuildArtifact, ArtifactDependency, OutputType};
use crate::model::workspace::Workspace;
use crate::generator::plantuml::support::{concat_map, text_if, lemma_concat_map_step, lemma_concat_map_all};
use crate::utils::keyed::{has_key, is_first_key, lemma_first_key_unique};
use crate::utils::text::{join, join_strings, string_views};

verus! {

/// What the `Debug` format prints for an output type.
pub open spec fn output_type_name(t: OutputType) -> Seq<char> {
    match t {
        OutputType::Binary => "Binary"@,
        OutputType::Library => "Library"@,
        OutputType::DockerImage => "DockerImage"@,
        OutputType::Archive => "Archive"@,
        OutputType::Bundle => "Bundle"@,
    }
}

/// The name of code package `id`, if the workspace has a code model with it.
pub open spec fn package_name_of(w: Workspace, id: Seq<char>) -> Option<Seq<char>> {
    match w.code_model {
        Some(c) => if has_key(c.packages@, id) {
            Some(c.packages@[choose|i: int| is_first_key(c.packages@, id, i)].name@)
        } else {
            None
        },
        None => None,
    }
}

/// The names of the code packages among `ids` that the workspace knows, in order.
pub open spec fn package_names(w: Workspace, ids: Seq<String>) -> Seq<Seq<char>>
    decreases ids.len(),
{
    if ids.len() == 0 {
        Seq::empty()
    } else {
        let rest = package_names(w, ids.drop_last());
        match package_name_of(w, ids.last()@) {
            Some(n) => rest.push(n),
            None => rest,
        }
    }
}

/// The lines of one artifact: its declaration, a note naming its known
/// source packages, and a blank line.
pub open spec fn artifact_lines(w: Workspace) -> spec_fn(BuildArtifact) -> Seq<char> {
    |a: BuildArtifact| {
        let names = package_names(w, a.source_packages@);
        "artifact \""@ + a.name@ + "\" <<"@ + output_type_name(a.output_type) + ">> as "@ + a.id@ + "\n"@
            + text_if(a.source_packages@.len() > 0 && names.len() > 0,
                "note right of "@ + a.id@ + "\n  source: "@ + join(names, ", "@) + "\nend note\n"@)
            + "\n"@
    }
}

/// The line of one dependency.
pub open spec fn dependency_line() -> spec_fn(ArtifactDependency) -> Seq<char> {
    |d: ArtifactDependency| d.from@ + " --> "@ + d.to@ + "\n"@
}

/// The PlantUML text of a build model.
pub open spec fn build_model_plantuml(w: Workspace, m: BuildModel) -> Seq<char> {
    "@startuml\n\n"@ + concat_map(m.artifacts@, artifact_lines(w)) + concat_map(m.dependencies@, dependency_line())
        + "\n@enduml\n"@
}

pub(crate) fn output_type_text(t: OutputType) -> (r: &'static str)
    ensures
        r@ == output_type_name(t),
{
    match t {
        OutputType::Binary => "Binary",
        OutputType::Library => "Library",
        OutputType::DockerImage => "DockerImage",
        OutputType::Archive => "Archive",
        OutputType::Bundle => "Bundle",
    }
}

/// The name of a code package, if the workspace has a code model with it.
fn resolve_package_name<'a>(workspace: &'a Workspace, package_id: &str) -> (r: Option<&'a str>)
    ensures
        match r {
            Some(n) => package_name_of(*workspace, package_id@) == Some(n@),
            None => package_name_of(*workspace, package_id@) is None,
        },
{
    match &workspace.code_model {
        Some(c) => {
            let r = c.get_package_name(package_id);
            proof {
                if let Some(n) = r {
                    let i = choose|i: int| is_first_key(c.packages@, package_id@, i) && n@ == c.packages@[i].name@;
                    lemma_first_key_unique(c.packages@, package_id@, i);
                }
            }
            r
        },
        None => None,
    }
}

/// The names of the known source packages of an artifact.
fn source_names(workspace: &Workspace, ids: &Vec<String>) -> (r: Vec<String>)
    ensures
        string_views(r@) == package_names(*workspace, ids@),
{
    let mut out: Vec<String> = Vec::new();
    let mut i: usize = 0;
    while i < ids.len()
        invariant
            i <= ids.len(),
            string_views(out@) == package_names(*workspace, ids@.take(i as int)),
        decreases ids.len() - i,
    {
        assert(ids@.take(i + 1).drop_last() =~= ids@.take(i as int));
        let ghost before = out@;
        match resolve_package_name(workspace, ids[i].as_str()) {
            Some(n) => {
                out.push(String::from_str(n));
                assert(string_views(out@) =~= string_views(before).push(n@));
            },
            None => {},
        }
        i = i + 1;
    }
    assert(ids@.take(ids@.len() as int) =~= ids@);
    out
}

fn write_artifact(out: &mut String, workspace: &Workspace, a: &BuildArtifact)
    ensures
        final(out)@ == old(out)@ + artifact_lines(*workspace)(*a),
{
    let ghost before = out@;
    out.append("artifact \"");
    out.append(a.name.as_str());
    out.append("\" <<");
    out.append(output_type_text(a.output_type));
    out.append(">> as ");
    out.append(a.id.as_str());
    out.append("\n");
    if a.source_packages.len() > 0 {
        let names = source_names(workspace, &a.source_packages);
        if names.len() > 0 {
            out.append("note right of ");
            out.append(a.id.as_str());
            out.append("\n  source: ");
            out.append(join_strings(&names, ", ").as_str());
            out.append("\nend note\n");
        }
    }
    out.append("\n");
    assert(out@ =~= before + artifact_lines(*workspace)(*a));
}

/// Generates the PlantUML text of a build model: artifacts with their
/// output types and source packages, then dependencies.
pub fn generate_build_model_plantuml(workspace: &Workspace, model: &BuildModel) -> (r: String)
    ensures
        r@ == build_model_plantuml(*workspace, *model),
{
    let mut out = String::new();
    out.append("@startuml\n\n");
    let ghost s0 = out@;
    let ghost f = artifact_lines(*workspace);
    let mut i: usize = 0;
    while i < model.artifacts.len()
        invariant
            i <= model.artifacts.len(),
            f == artifact_lines(*workspace),
            out@ == s0 + concat_map(model.artifacts@.take(i as int), f),
        decreases model.artifacts.len() - i,
    {
        proof {
            lemma_concat_map_step(model.artifacts@, f, i as int);
        }
        write_artifact(&mut out, workspace, &model.artifacts[i]);
        i = i + 1;
    }
    proof {
        lemma_concat_map_all(model.artifacts@, f);
    }
    let ghost s1 = out@;
    let mut i: usize = 0;
    while i < model.dependencies.len()
        invariant
            i <= model.dependencies.len(),
            out@ == s1 + concat_map(model.dependencies@.take(i as int), dependency_line()),
        decreases model.dependencies.len() - i,
    {
        proof {
            lemma_concat_map_step(model.dependencies@, dependency_line(), i as int);
        }
        out.append(model.dependencies[i].from.as_str());
        out.append(" --> ");
        out.append(model.dependencies[i].to.as_str());
        out.append("\n");
        i = i + 1;
    }
    proof {
        lemma_concat_map_all(model.dependencies@, dependency_line());
    }
    out.append("\n@enduml\n");
    out
}

} // verus!
