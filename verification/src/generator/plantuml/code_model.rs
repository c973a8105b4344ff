use vstd::prelude::*;
use crate::model::code::code_model::{CodeModel, CodePackage, Language, PackageDependency};
use crate::model::logic::concept::system_name;
use crate::model::workspace::Workspace;
use crate::generator::plantuml::support::{concat_map, lemma_concat_map_step, lemma_concat_map_all};
use crate::utils::text::{replaced, replace_text, debug_quoted, debug_text, concat3};

verus! {

/// What the `Debug` format prints for a language.
pub open spec fn language_debug(l: Language) -> Seq<char> {
    match l {
        Language::Rust => "Rust"@,
        Language::Java => "Java"@,
        Language::Python => "Python"@,
        Language::Go => "Go"@,
        Language::TypeScript => "TypeScript"@,
        Language::Cpp => "Cpp"@,
        Language::CSharp => "CSharp"@,
        Language::JavaScript => "JavaScript"@,
        Language::Kotlin => "Kotlin"@,
        Language::Swift => "Swift"@,
        Language::Custom(s) => "Custom("@ + debug_quoted(s@) + ")"@,
    }
}

/// The language tag of a package: ` <<Debug form>>`, with `Custom(` and `)`
/// each replaced by a double quote; nothing without a language.
pub open spec fn language_tag(l: Option<Language>) -> Seq<char> {
    match l {
        Some(lang) => replaced(replaced(" <<"@ + language_debug(lang) + ">>"@, "Custom("@, "\""@), ")"@, "\""@),
        None => Seq::empty(),
    }
}

/// The name of logic view element `id`, if the workspace has a logic view naming it.
pub open spec fn logic_element_name(w: Workspace, id: Seq<char>) -> Option<Seq<char>> {
    match w.logic_view {
        Some(l) => if l.system.id@ == id { Some(l.system.name@) } else { system_name(l.system, id) },
        None => None,
    }
}

/// The lines of one package: its declaration, the note naming the logic
/// element it maps to (when the logic view names it), and a blank line.
pub open spec fn package_lines(w: Workspace) -> spec_fn(CodePackage) -> Seq<char> {
    |p: CodePackage|
        "package \""@ + p.name@ + "\""@ + language_tag(p.language) + " as "@ + p.id@ + "\n"@
        + (match p.element_id {
            Some(e) => match logic_element_name(w, e@) {
                Some(n) => "note right of "@ + p.id@ + "\n  maps to: "@ + n + "\nend note\n"@,
                None => Seq::empty(),
            },
            None => Seq::empty(),
        })
        + "\n"@
}

/// The line of one dependency.
pub open spec fn dependency_line() -> spec_fn(PackageDependency) -> Seq<char> {
    |d: PackageDependency| d.from@ + " --> "@ + d.to@ + "\n"@
}

/// The PlantUML text of a code model.
pub open spec fn code_model_plantuml(w: Workspace, m: CodeModel) -> Seq<char> {
    "@startuml\n\n"@ + concat_map(m.packages@, package_lines(w)) + concat_map(m.dependencies@, dependency_line())
        + "\n@enduml\n"@
}

pub(crate) fn language_text(l: &Language) -> (t: String)
    ensures
        t@ == language_debug(*l),
{
    match l {
        Language::Rust => String::from_str("Rust"),
        Language::Java => String::from_str("Java"),
        Language::Python => String::from_str("Python"),
        Language::Go => String::from_str("Go"),
        Language::TypeScript => String::from_str("TypeScript"),
        Language::Cpp => String::from_str("Cpp"),
        Language::CSharp => String::from_str("CSharp"),
        Language::JavaScript => String::from_str("JavaScript"),
        Language::Kotlin => String::from_str("Kotlin"),
        Language::Swift => String::from_str("Swift"),
        Language::Custom(s) => {
            let quoted = debug_text(s.as_str());
            concat3("Custom(", quoted.as_str(), ")")
        },
    }
}

/// The language tag of a package (see `language_tag`).
fn language_tag_text(l: &Option<Language>) -> (t: String)
    ensures
        t@ == language_tag(*l),
{
    match l {
        Some(lang) => {
            let debug = language_text(lang);
            let tagged = concat3(" <<", debug.as_str(), ">>");
            proof {
                reveal_strlit("Custom(");
                reveal_strlit(")");
            }
            let first = replace_text(tagged.as_str(), "Custom(", "\"");
            replace_text(first.as_str(), ")", "\"")
        },
        None => String::new(),
    }
}

/// The name of a logic view element, if the workspace has a logic view naming it.
fn resolve_logic_element_name<'a>(workspace: &'a Workspace, element_id: &str) -> (r: Option<&'a str>)
    ensures
        match r {
            Some(n) => logic_element_name(*workspace, element_id@) == Some(n@),
            None => logic_element_name(*workspace, element_id@) is None,
        },
{
    match &workspace.logic_view {
        Some(lv) => lv.get_element_name(element_id),
        None => None,
    }
}

fn write_package(out: &mut String, workspace: &Workspace, p: &CodePackage)
    ensures
        final(out)@ == old(out)@ + package_lines(*workspace)(*p),
{
    let ghost before = out@;
    out.append("package \"");
    out.append(p.name.as_str());
    out.append("\"");
    out.append(language_tag_text(&p.language).as_str());
    out.append(" as ");
    out.append(p.id.as_str());
    out.append("\n");
    match &p.element_id {
        Some(e) => match resolve_logic_element_name(workspace, e.as_str()) {
            Some(name) => {
                out.append("note right of ");
                out.append(p.id.as_str());
                out.append("\n  maps to: ");
                out.append(name);
                out.append("\nend note\n");
            },
            None => {},
        },
        None => {},
    }
    out.append("\n");
    assert(out@ =~= before + package_lines(*workspace)(*p));
}

/// Generates the PlantUML text of a code model: packages with their
/// languages and logic element mappings, then dependencies.
pub fn generate_code_model_plantuml(workspace: &Workspace, model: &CodeModel) -> (r: String)
    ensures
        r@ == code_model_plantuml(*workspace, *model),
{
    let mut out = String::new();
    out.append("@startuml\n\n");
    let ghost s0 = out@;
    let ghost f = package_lines(*workspace);
    let mut i: usize = 0;
    while i < model.packages.len()
        invariant
            i <= model.packages.len(),
            f == package_lines(*workspace),
            out@ == s0 + concat_map(model.packages@.take(i as int), f),
        decreases model.packages.len() - i,
    {
        proof {
            lemma_concat_map_step(model.packages@, f, i as int);
        }
        write_package(&mut out, workspace, &model.packages[i]);
        i = i + 1;
    }
    proof {
        lemma_concat_map_all(model.packages@, f);
    }
    let ghost s1 = out@;
    let mut i: usize = 0;
    while i < model.dependencies.len()
        invariant
            i <= model.dependencies.len(),
            out@ == s1 + concat_map(model.dependencies@.take(i as int), dependency_line()),
        decreases model.dependencies.len() - i,
    {
        proof {
            lemma_concat_map_step(model.dependencies@, dependency_line(), i as int);
        }
        out.append(model.dependencies[i].from.as_str());
        out.append(" --> ");
        out.append(model.dependencies[i].to.as_str());
        out.append("\n");
        i = i + 1;
    }
    proof {
        lemma_concat_map_all(model.dependencies@, dependency_line());
    }
    out.append("\n@enduml\n");
    out
}

} // verus!
