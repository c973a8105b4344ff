use vstd::prelude::*;
use crate::cli::args::{CodeModelListElement, BuildModelListElement, DeliveryModelListElement};
use crate::cli::report::{
    Tone, Line, LineView, report_view, p, plain_line, lines_for, lines_if, lemma_lines_for_step, lemma_lines_for_all,
    emit, emit_plain,
};
use crate::cli::listing::fields::{
    kv, opt_kv, keyed_entry, title_line, comma_list, emit_kv, emit_opt_kv, emit_keyed_entry, emit_title_line,
    comma_text,
};
use crate::cli::listing::context::{head_line, field_line, opt_field, emit_head, emit_field, emit_opt_field};
use crate::generator::plantuml::code_model::{language_debug, language_text};
use crate::generator::plantuml::build_model::{output_type_name, output_type_text};
use crate::generator::plantuml::delivery_model::{delivery_type_name, delivery_type_text};
use crate::model::code::code_model::{CodeModel, CodePackage, Language, PackageDependency};
use crate::model::builds::build_model::{BuildModel, BuildArtifact, BuildTool, BuildProfile, ArtifactDependency};
use crate::model::delivery::delivery_model::{DeliveryModel, DeliveryPackage};
use crate::model::logic::concept_model::{LogicArchitectureConceptModel, LevelDefinition, ElementTypeDefinition, level_of};
use crate::utils::error::{AppError, ErrorKind, Result, fails_with};
use crate::utils::keyed::{has_key, is_first_key, lemma_first_key_unique};
use crate::utils::text::{concat2, concat3, debug_quoted, debug_text};

verus! {

/// The element with key `k` that comes first.
pub open spec fn first_key_item<T: crate::utils::keyed::Keyed>(s: Seq<T>, k: Seq<char>) -> T {
    s[choose|i: int| is_first_key(s, k, i)]
}

/// A `kv` line with the `Debug` form of a language when there is one.
pub open spec fn opt_language(indent: Seq<char>, l: Option<Language>) -> Seq<LineView> {
    match l {
        Some(x) => seq![kv(indent, "language"@, language_debug(x))],
        None => Seq::empty(),
    }
}

/// What the `Debug` format prints for a build tool.
pub open spec fn build_tool_debug(t: BuildTool) -> Seq<char> {
    match t {
        BuildTool::Cargo => "Cargo"@,
        BuildTool::Maven => "Maven"@,
        BuildTool::Gradle => "Gradle"@,
        BuildTool::Npm => "Npm"@,
        BuildTool::Pip => "Pip"@,
        BuildTool::Make => "Make"@,
        BuildTool::Cmake => "Cmake"@,
        BuildTool::GoBuild => "GoBuild"@,
        BuildTool::Dotnet => "Dotnet"@,
        BuildTool::Bazel => "Bazel"@,
        BuildTool::Custom(s) => "Custom("@ + debug_quoted(s@) + ")"@,
    }
}

/// What the `Debug` format prints for a build profile.
pub open spec fn profile_debug(pr: BuildProfile) -> Seq<char> {
    match pr {
        BuildProfile::Debug => "Debug"@,
        BuildProfile::Release => "Release"@,
    }
}

/// A `kv` line with the `Debug` form of a build tool when there is one.
pub open spec fn opt_tool(indent: Seq<char>, t: Option<BuildTool>) -> Seq<LineView> {
    match t {
        Some(x) => seq![kv(indent, "build_tool"@, build_tool_debug(x))],
        None => Seq::empty(),
    }
}

/// A `kv` line listing some IDs, when there are any.
pub open spec fn opt_ids(indent: Seq<char>, key: Seq<char>, ids: Seq<String>) -> Seq<LineView> {
    lines_if(ids.len() > 0, seq![kv(indent, key, comma_list(ids))])
}

/// A list: a notice when there is nothing, else a title and the entries.
pub open spec fn listed<T>(items: Seq<T>, none: Seq<char>, title: Seq<char>, f: spec_fn(T) -> Seq<LineView>) -> Seq<LineView> {
    if items.len() == 0 {
        seq![plain_line(none)]
    } else {
        seq![title_line(title)] + lines_for(items, f)
    }
}

/// The line of a dependency: `  <from> -> <to>`.
pub open spec fn dependency_entry(from: Seq<char>, to: Seq<char>) -> Seq<LineView> {
    seq![seq![p("  "@), p(from), p(" -> "@), p(to)]]
}

// ----- code model -----

/// The listing lines of a code package.
pub open spec fn code_package_entry() -> spec_fn(CodePackage) -> Seq<LineView> {
    |k: CodePackage| seq![keyed_entry(k.id@, k.name@)] + opt_language("    "@, k.language)
        + opt_kv("    "@, "path"@, k.path)
}

/// The listing line of a code dependency.
pub open spec fn code_dependency_entry() -> spec_fn(PackageDependency) -> Seq<LineView> {
    |d: PackageDependency| dependency_entry(d.from@, d.to@)
}

/// What the code model's `list` prints.
pub open spec fn code_list(m: CodeModel, element: CodeModelListElement) -> Seq<LineView> {
    match element {
        CodeModelListElement::Packages => listed(m.packages@, "No packages found."@, "Packages:"@,
            code_package_entry()),
        CodeModelListElement::Dependencies => listed(m.dependencies@, "No dependencies found."@, "Dependencies:"@,
            code_dependency_entry()),
    }
}

/// What the code model's `show` prints for a package.
pub open spec fn code_package_show(k: CodePackage) -> Seq<LineView> {
    seq![title_line("Package: "@ + k.id@), kv("  "@, "name"@, k.name@)] + opt_kv("  "@, "description"@, k.description)
        + opt_language("  "@, k.language) + opt_kv("  "@, "framework"@, k.framework) + opt_kv("  "@, "path"@, k.path)
        + opt_kv("  "@, "element_id"@, k.element_id)
}

// ----- build model -----

/// The listing lines of an artifact.
pub open spec fn artifact_entry() -> spec_fn(BuildArtifact) -> Seq<LineView> {
    |a: BuildArtifact| seq![keyed_entry(a.id@, a.name@)] + opt_tool("    "@, a.build_tool)
        + seq![kv("    "@, "output_type"@, output_type_name(a.output_type))]
        + opt_ids("    "@, "source_packages"@, a.source_packages@)
}

/// The listing line of a build dependency.
pub open spec fn build_dependency_entry() -> spec_fn(ArtifactDependency) -> Seq<LineView> {
    |d: ArtifactDependency| dependency_entry(d.from@, d.to@)
}

/// What the build model's `list` prints.
pub open spec fn build_list(m: BuildModel, element: BuildModelListElement) -> Seq<LineView> {
    match element {
        BuildModelListElement::Artifacts => listed(m.artifacts@, "No artifacts found."@, "Artifacts:"@,
            artifact_entry()),
        BuildModelListElement::Dependencies => listed(m.dependencies@, "No dependencies found."@, "Dependencies:"@,
            build_dependency_entry()),
    }
}

/// What the build model's `show` prints for an artifact.
pub open spec fn artifact_show(a: BuildArtifact) -> Seq<LineView> {
    seq![title_line("Artifact: "@ + a.id@), kv("  "@, "name"@, a.name@)] + opt_kv("  "@, "description"@, a.description)
        + opt_tool("  "@, a.build_tool) + seq![kv("  "@, "output_type"@, output_type_name(a.output_type))]
        + opt_ids("  "@, "source_packages"@, a.source_packages@) + opt_kv("  "@, "build_file"@, a.build_file)
        + (match a.profile {
            Some(pr) => seq![kv("  "@, "profile"@, profile_debug(pr))],
            None => Seq::empty(),
        })
        + opt_kv("  "@, "build_args"@, a.build_args)
}

// ----- delivery model -----

/// The listing lines of a delivery package.
pub open spec fn delivery_package_entry() -> spec_fn(DeliveryPackage) -> Seq<LineView> {
    |k: DeliveryPackage| seq![keyed_entry(k.id@, k.name@), kv("    "@, "delivery_type"@,
        delivery_type_name(k.delivery_type))] + opt_kv("    "@, "version"@, k.version)
        + opt_ids("    "@, "artifacts"@, k.artifacts@) + opt_kv("    "@, "registry"@, k.registry)
}

/// What the delivery model's `list` prints.
pub open spec fn delivery_list(m: DeliveryModel, element: DeliveryModelListElement) -> Seq<LineView> {
    listed(m.packages@, "No packages found."@, "Packages:"@, delivery_package_entry())
}

/// What the delivery model's `show` prints for a package.
pub open spec fn delivery_package_show(k: DeliveryPackage) -> Seq<LineView> {
    seq![title_line("Package: "@ + k.id@), kv("  "@, "name"@, k.name@)] + opt_kv("  "@, "description"@, k.description)
        + opt_kv("  "@, "version"@, k.version) + seq![kv("  "@, "delivery_type"@, delivery_type_name(k.delivery_type))]
        + opt_ids("  "@, "artifacts"@, k.artifacts@) + opt_kv("  "@, "registry"@, k.registry)
}

// ----- concept model -----

/// The listing lines of a hierarchy level, ending with a blank line.
pub open spec fn level_entry() -> spec_fn(LevelDefinition) -> Seq<LineView> {
    |l: LevelDefinition| seq![seq![p("  "@), (Tone::Mark, l.id@), p(" ("@), p(l.name@), p(")"@)]]
        + opt_field("    Description: "@, l.description)
        + lines_if(l.can_contain@.len() > 0, seq![field_line("    Can contain: "@, comma_list(l.can_contain@))])
        + seq![Seq::empty()]
}

/// The listing line of an element type.
pub open spec fn element_type_entry() -> spec_fn(ElementTypeDefinition) -> Seq<LineView> {
    |t: ElementTypeDefinition| seq![seq![p("  "@), (Tone::Mark, t.id@), p(" ("@), p(t.name@), p(")"@)]]
}

/// What the concept model's `list` prints: the levels, then the element types when there are any.
pub open spec fn concept_list(m: LogicArchitectureConceptModel) -> Seq<LineView> {
    seq![title_line("Hierarchy Levels:"@), Seq::empty()] + lines_for(m.hierarchy.levels@, level_entry())
        + lines_if(m.element_types@.len() > 0, seq![title_line("Element Types:"@)]
            + lines_for(m.element_types@, element_type_entry()))
}

/// What the concept model's `show` prints for a level.
pub open spec fn level_show(l: LevelDefinition) -> Seq<LineView> {
    seq![head_line("Level"@, l.id@), field_line("  Name: "@, l.name@)] + opt_field("  Description: "@, l.description)
        + lines_if(l.can_contain@.len() > 0, seq![field_line("  Can contain: "@, comma_list(l.can_contain@))])
}

fn emit_opt_language(out: &mut Vec<Line>, indent: &str, l: &Option<Language>)
    ensures
        report_view(final(out)@) == report_view(old(out)@) + opt_language(indent@, *l),
{
    let ghost before = report_view(out@);
    match l {
        Some(x) => {
            let t = language_text(x);
            emit_kv(out, indent, "language", t.as_str());
        },
        None => {},
    }
    assert(report_view(out@) =~= before + opt_language(indent@, *l));
}

fn build_tool_text(t: &BuildTool) -> (r: String)
    ensures
        r@ == build_tool_debug(*t),
{
    match t {
        BuildTool::Cargo => String::from_str("Cargo"),
        BuildTool::Maven => String::from_str("Maven"),
        BuildTool::Gradle => String::from_str("Gradle"),
        BuildTool::Npm => String::from_str("Npm"),
        BuildTool::Pip => String::from_str("Pip"),
        BuildTool::Make => String::from_str("Make"),
        BuildTool::Cmake => String::from_str("Cmake"),
        BuildTool::GoBuild => String::from_str("GoBuild"),
        BuildTool::Dotnet => String::from_str("Dotnet"),
        BuildTool::Bazel => String::from_str("Bazel"),
        BuildTool::Custom(s) => {
            let quoted = debug_text(s.as_str());
            concat3("Custom(", quoted.as_str(), ")")
        },
    }
}

fn emit_opt_tool(out: &mut Vec<Line>, indent: &str, t: &Option<BuildTool>)
    ensures
        report_view(final(out)@) == report_view(old(out)@) + opt_tool(indent@, *t),
{
    let ghost before = report_view(out@);
    match t {
        Some(x) => {
            let text = build_tool_text(x);
            emit_kv(out, indent, "build_tool", text.as_str());
        },
        None => {},
    }
    assert(report_view(out@) =~= before + opt_tool(indent@, *t));
}

fn emit_opt_ids(out: &mut Vec<Line>, indent: &str, key: &str, ids: &Vec<String>)
    ensures
        report_view(final(out)@) == report_view(old(out)@) + opt_ids(indent@, key@, ids@),
{
    let ghost before = report_view(out@);
    if ids.len() > 0 {
        let t = comma_text(ids);
        emit_kv(out, indent, key, t.as_str());
    }
    assert(report_view(out@) =~= before + opt_ids(indent@, key@, ids@));
}

fn emit_dependency(out: &mut Vec<Line>, from: &str, to: &str)
    ensures
        report_view(final(out)@) == report_view(old(out)@) + dependency_entry(from@, to@),
{
    let ghost before = report_view(out@);
    let mut l = Line::new();
    l.plain("  ");
    l.plain(from);
    l.plain(" -> ");
    l.plain(to);
    assert(l@ =~= seq![p("  "@), p(from@), p(" -> "@), p(to@)]);
    emit(out, l);
    assert(report_view(out@) =~= before + dependency_entry(from@, to@));
}

/// The lines that the code model's `list` prints (see `code_list`).
pub fn list_code(m: &CodeModel, element: CodeModelListElement) -> (r: Vec<Line>)
    ensures
        report_view(r@) == code_list(*m, element),
{
    let mut out: Vec<Line> = Vec::new();
    assert(report_view(out@) =~= Seq::<LineView>::empty());
    match element {
        CodeModelListElement::Packages => {
            if m.packages.len() == 0 {
                emit_plain(&mut out, "No packages found.");
            } else {
                emit_title_line(&mut out, "Packages:");
                let ghost head = report_view(out@);
                let ghost f = code_package_entry();
                let mut j: usize = 0;
                while j < m.packages.len()
                    invariant
                        j <= m.packages.len(),
                        f == code_package_entry(),
                        report_view(out@) == head + lines_for(m.packages@.take(j as int), f),
                    decreases m.packages.len() - j,
                {
                    proof {
                        lemma_lines_for_step(m.packages@, f, j as int);
                    }
                    let k = &m.packages[j];
                    emit_keyed_entry(&mut out, k.id.as_str(), k.name.as_str());
                    emit_opt_language(&mut out, "    ", &k.language);
                    emit_opt_kv(&mut out, "    ", "path", &k.path);
                    assert(report_view(out@) =~= head + lines_for(m.packages@.take(j + 1), f));
                    j = j + 1;
                }
                proof {
                    lemma_lines_for_all(m.packages@, f);
                }
            }
        },
        CodeModelListElement::Dependencies => {
            if m.dependencies.len() == 0 {
                emit_plain(&mut out, "No dependencies found.");
            } else {
                emit_title_line(&mut out, "Dependencies:");
                let ghost head = report_view(out@);
                let ghost f = code_dependency_entry();
                let mut j: usize = 0;
                while j < m.dependencies.len()
                    invariant
                        j <= m.dependencies.len(),
                        f == code_dependency_entry(),
                        report_view(out@) == head + lines_for(m.dependencies@.take(j as int), f),
                    decreases m.dependencies.len() - j,
                {
                    proof {
                        lemma_lines_for_step(m.dependencies@, f, j as int);
                    }
                    emit_dependency(&mut out, m.dependencies[j].from.as_str(), m.dependencies[j].to.as_str());
                    assert(report_view(out@) =~= head + lines_for(m.dependencies@.take(j + 1), f));
                    j = j + 1;
                }
                proof {
                    lemma_lines_for_all(m.dependencies@, f);
                }
            }
        },
    }
    assert(report_view(out@) =~= code_list(*m, element));
    out
}

/// The lines that the code model's `show` prints for package `id`; the
/// package is not found when the model has none with that ID.
pub fn show_code(m: &CodeModel, id: &str) -> (r: Result<Vec<Line>>)
    ensures
        r is Ok <==> has_key(m.packages@, id@),
        !has_key(m.packages@, id@) ==> fails_with(r, ErrorKind::ElementNotFound, "package: "@ + id@),
        r is Ok ==> report_view(r->Ok_0@) == code_package_show(first_key_item(m.packages@, id@)),
{
    match m.find_package(id) {
        Some(k) => {
            proof {
                let i = choose|i: int| is_first_key(m.packages@, id@, i) && m.packages@[i] == *k;
                lemma_first_key_unique(m.packages@, id@, i);
            }
            let mut out: Vec<Line> = Vec::new();
            assert(report_view(out@) =~= Seq::<LineView>::empty());
            let t = concat2("Package: ", k.id.as_str());
            emit_title_line(&mut out, t.as_str());
            emit_kv(&mut out, "  ", "name", k.name.as_str());
            emit_opt_kv(&mut out, "  ", "description", &k.description);
            emit_opt_language(&mut out, "  ", &k.language);
            emit_opt_kv(&mut out, "  ", "framework", &k.framework);
            emit_opt_kv(&mut out, "  ", "path", &k.path);
            emit_opt_kv(&mut out, "  ", "element_id", &k.element_id);
            assert(report_view(out@) =~= code_package_show(*k));
            Ok(out)
        },
        None => Err(AppError::ElementNotFound(concat2("package: ", id))),
    }
}

/// The lines that the build model's `list` prints (see `build_list`).
pub fn list_build(m: &BuildModel, element: BuildModelListElement) -> (r: Vec<Line>)
    ensures
        report_view(r@) == build_list(*m, element),
{
    let mut out: Vec<Line> = Vec::new();
    assert(report_view(out@) =~= Seq::<LineView>::empty());
    match element {
        BuildModelListElement::Artifacts => {
            if m.artifacts.len() == 0 {
                emit_plain(&mut out, "No artifacts found.");
            } else {
                emit_title_line(&mut out, "Artifacts:");
                let ghost head = report_view(out@);
                let ghost f = artifact_entry();
                let mut j: usize = 0;
                while j < m.artifacts.len()
                    invariant
                        j <= m.artifacts.len(),
                        f == artifact_entry(),
                        report_view(out@) == head + lines_for(m.artifacts@.take(j as int), f),
                    decreases m.artifacts.len() - j,
                {
                    proof {
                        lemma_lines_for_step(m.artifacts@, f, j as int);
                    }
                    let a = &m.artifacts[j];
                    emit_keyed_entry(&mut out, a.id.as_str(), a.name.as_str());
                    emit_opt_tool(&mut out, "    ", &a.build_tool);
                    emit_kv(&mut out, "    ", "output_type", output_type_text(a.output_type));
                    emit_opt_ids(&mut out, "    ", "source_packages", &a.source_packages);
                    assert(report_view(out@) =~= head + lines_for(m.artifacts@.take(j + 1), f));
                    j = j + 1;
                }
                proof {
                    lemma_lines_for_all(m.artifacts@, f);
                }
            }
        },
        BuildModelListElement::Dependencies => {
            if m.dependencies.len() == 0 {
                emit_plain(&mut out, "No dependencies found.");
            } else {
                emit_title_line(&mut out, "Dependencies:");
                let ghost head = report_view(out@);
                let ghost f = build_dependency_entry();
                let mut j: usize = 0;
                while j < m.dependencies.len()
                    invariant
                        j <= m.dependencies.len(),
                        f == build_dependency_entry(),
                        report_view(out@) == head + lines_for(m.dependencies@.take(j as int), f),
                    decreases m.dependencies.len() - j,
                {
                    proof {
                        lemma_lines_for_step(m.dependencies@, f, j as int);
                    }
                    emit_dependency(&mut out, m.dependencies[j].from.as_str(), m.dependencies[j].to.as_str());
                    assert(report_view(out@) =~= head + lines_for(m.dependencies@.take(j + 1), f));
                    j = j + 1;
                }
                proof {
                    lemma_lines_for_all(m.dependencies@, f);
                }
            }
        },
    }
    assert(report_view(out@) =~= build_list(*m, element));
    out
}

/// The lines that the build model's `show` prints for artifact `id`; the
/// artifact is not found when the model has none with that ID.
pub fn show_build(m: &BuildModel, id: &str) -> (r: Result<Vec<Line>>)
    ensures
        r is Ok <==> has_key(m.artifacts@, id@),
        !has_key(m.artifacts@, id@) ==> fails_with(r, ErrorKind::ElementNotFound, "artifact: "@ + id@),
        r is Ok ==> report_view(r->Ok_0@) == artifact_show(first_key_item(m.artifacts@, id@)),
{
    match m.find_artifact(id) {
        Some(a) => {
            proof {
                let i = choose|i: int| is_first_key(m.artifacts@, id@, i) && m.artifacts@[i] == *a;
                lemma_first_key_unique(m.artifacts@, id@, i);
            }
            let mut out: Vec<Line> = Vec::new();
            assert(report_view(out@) =~= Seq::<LineView>::empty());
            let t = concat2("Artifact: ", a.id.as_str());
            emit_title_line(&mut out, t.as_str());
            emit_kv(&mut out, "  ", "name", a.name.as_str());
            emit_opt_kv(&mut out, "  ", "description", &a.description);
            emit_opt_tool(&mut out, "  ", &a.build_tool);
            emit_kv(&mut out, "  ", "output_type", output_type_text(a.output_type));
            emit_opt_ids(&mut out, "  ", "source_packages", &a.source_packages);
            emit_opt_kv(&mut out, "  ", "build_file", &a.build_file);
            let ghost before = report_view(out@);
            match a.profile {
                Some(BuildProfile::Debug) => emit_kv(&mut out, "  ", "profile", "Debug"),
                Some(BuildProfile::Release) => emit_kv(&mut out, "  ", "profile", "Release"),
                None => {},
            }
            assert(report_view(out@) =~= before + (match a.profile {
                Some(pr) => seq![kv("  "@, "profile"@, profile_debug(pr))],
                None => Seq::empty(),
            }));
            emit_opt_kv(&mut out, "  ", "build_args", &a.build_args);
            assert(report_view(out@) =~= artifact_show(*a));
            Ok(out)
        },
        None => Err(AppError::ElementNotFound(concat2("artifact: ", id))),
    }
}

/// The lines that the delivery model's `list` prints (see `delivery_list`).
pub fn list_delivery(m: &DeliveryModel, element: DeliveryModelListElement) -> (r: Vec<Line>)
    ensures
        report_view(r@) == delivery_list(*m, element),
{
    let mut out: Vec<Line> = Vec::new();
    assert(report_view(out@) =~= Seq::<LineView>::empty());
    if m.packages.len() == 0 {
        emit_plain(&mut out, "No packages found.");
    } else {
        emit_title_line(&mut out, "Packages:");
        let ghost head = report_view(out@);
        let ghost f = delivery_package_entry();
        let mut j: usize = 0;
        while j < m.packages.len()
            invariant
                j <= m.packages.len(),
                f == delivery_package_entry(),
                report_view(out@) == head + lines_for(m.packages@.take(j as int), f),
            decreases m.packages.len() - j,
        {
            proof {
                lemma_lines_for_step(m.packages@, f, j as int);
            }
            let k = &m.packages[j];
            emit_keyed_entry(&mut out, k.id.as_str(), k.name.as_str());
            emit_kv(&mut out, "    ", "delivery_type", delivery_type_text(k.delivery_type));
            emit_opt_kv(&mut out, "    ", "version", &k.version);
            emit_opt_ids(&mut out, "    ", "artifacts", &k.artifacts);
            emit_opt_kv(&mut out, "    ", "registry", &k.registry);
            assert(report_view(out@) =~= head + lines_for(m.packages@.take(j + 1), f));
            j = j + 1;
        }
        proof {
            lemma_lines_for_all(m.packages@, f);
        }
    }
    assert(report_view(out@) =~= delivery_list(*m, element));
    out
}

/// The lines that the delivery model's `show` prints for package `id`; the
/// package is not found when the model has none with that ID.
pub fn show_delivery(m: &DeliveryModel, id: &str) -> (r: Result<Vec<Line>>)
    ensures
        r is Ok <==> has_key(m.packages@, id@),
        !has_key(m.packages@, id@) ==> fails_with(r, ErrorKind::ElementNotFound, "package: "@ + id@),
        r is Ok ==> report_view(r->Ok_0@) == delivery_package_show(first_key_item(m.packages@, id@)),
{
    match m.find_package(id) {
        Some(k) => {
            proof {
                let i = choose|i: int| is_first_key(m.packages@, id@, i) && m.packages@[i] == *k;
                lemma_first_key_unique(m.packages@, id@, i);
            }
            let mut out: Vec<Line> = Vec::new();
            assert(report_view(out@) =~= Seq::<LineView>::empty());
            let t = concat2("Package: ", k.id.as_str());
            emit_title_line(&mut out, t.as_str());
            emit_kv(&mut out, "  ", "name", k.name.as_str());
            emit_opt_kv(&mut out, "  ", "description", &k.description);
            emit_opt_kv(&mut out, "  ", "version", &k.version);
            emit_kv(&mut out, "  ", "delivery_type", delivery_type_text(k.delivery_type));
            emit_opt_ids(&mut out, "  ", "artifacts", &k.artifacts);
            emit_opt_kv(&mut out, "  ", "registry", &k.registry);
            assert(report_view(out@) =~= delivery_package_show(*k));
            Ok(out)
        },
        None => Err(AppError::ElementNotFound(concat2("package: ", id))),
    }
}

fn write_level_entry(out: &mut Vec<Line>, l: &LevelDefinition)
    ensures
        report_view(final(out)@) == report_view(old(out)@) + level_entry()(*l),
{
    let ghost before = report_view(out@);
    let mut line = Line::new();
    line.plain("  ");
    line.add(Tone::Mark, l.id.as_str());
    line.plain(" (");
    line.plain(l.name.as_str());
    line.plain(")");
    assert(line@ =~= seq![p("  "@), (Tone::Mark, l.id@), p(" ("@), p(l.name@), p(")"@)]);
    emit(out, line);
    emit_opt_field(out, "    Description: ", &l.description);
    let ghost mid = report_view(out@);
    if l.can_contain.len() > 0 {
        let t = comma_text(&l.can_contain);
        emit_field(out, "    Can contain: ", t.as_str());
    }
    assert(report_view(out@) =~= mid
        + lines_if(l.can_contain@.len() > 0, seq![field_line("    Can contain: "@, comma_list(l.can_contain@))]));
    emit(out, Line::new());
    assert(report_view(out@) =~= before + level_entry()(*l));
}

/// The lines that the concept model's `list` prints (see `concept_list`).
pub fn list_concept(m: &LogicArchitectureConceptModel) -> (r: Vec<Line>)
    ensures
        report_view(r@) == concept_list(*m),
{
    let mut out: Vec<Line> = Vec::new();
    assert(report_view(out@) =~= Seq::<LineView>::empty());
    emit_title_line(&mut out, "Hierarchy Levels:");
    emit(&mut out, Line::new());
    let levels = &m.hierarchy.levels;
    let ghost head = report_view(out@);
    let ghost f = level_entry();
    let mut j: usize = 0;
    while j < levels.len()
        invariant
            j <= levels.len(),
            levels == &m.hierarchy.levels,
            f == level_entry(),
            report_view(out@) == head + lines_for(levels@.take(j as int), f),
        decreases levels.len() - j,
    {
        proof {
            lemma_lines_for_step(levels@, f, j as int);
            assert(head + lines_for(levels@.take(j as int), f) + f(levels@[j as int])
                =~= head + (lines_for(levels@.take(j as int), f) + f(levels@[j as int])));
        }
        write_level_entry(&mut out, &levels[j]);
        j = j + 1;
    }
    proof {
        lemma_lines_for_all(levels@, f);
    }
    let ghost mid = report_view(out@);
    if m.element_types.len() > 0 {
        emit_title_line(&mut out, "Element Types:");
        let ghost thead = report_view(out@);
        let ghost g = element_type_entry();
        let mut k: usize = 0;
        while k < m.element_types.len()
            invariant
                k <= m.element_types.len(),
                g == element_type_entry(),
                report_view(out@) == thead + lines_for(m.element_types@.take(k as int), g),
            decreases m.element_types.len() - k,
        {
            proof {
                lemma_lines_for_step(m.element_types@, g, k as int);
            }
            let t = &m.element_types[k];
            let mut line = Line::new();
            line.plain("  ");
            line.add(Tone::Mark, t.id.as_str());
            line.plain(" (");
            line.plain(t.name.as_str());
            line.plain(")");
            assert(line@ =~= seq![p("  "@), (Tone::Mark, t.id@), p(" ("@), p(t.name@), p(")"@)]);
            emit(&mut out, line);
            assert(report_view(out@) =~= thead + lines_for(m.element_types@.take(k + 1), g));
            k = k + 1;
        }
        proof {
            lemma_lines_for_all(m.element_types@, g);
        }
    }
    assert(report_view(out@) =~= concept_list(*m));
    out
}

/// The lines that the concept model's `show` prints for the first level with
/// ID `id`; the level is not found when there is none.
pub fn show_concept(m: &LogicArchitectureConceptModel, id: &str) -> (r: Result<Vec<Line>>)
    ensures
        r is Ok <==> level_of(m.hierarchy.levels@, id@) is Some,
        level_of(m.hierarchy.levels@, id@) is None ==> fails_with(r, ErrorKind::ElementNotFound, "level: "@ + id@),
        r is Ok ==> report_view(r->Ok_0@) == level_show(level_of(m.hierarchy.levels@, id@)->Some_0),
{
    match m.get_level(id) {
        Some(l) => {
            let mut out: Vec<Line> = Vec::new();
            assert(report_view(out@) =~= Seq::<LineView>::empty());
            emit_head(&mut out, "Level", l.id.as_str());
            emit_field(&mut out, "  Name: ", l.name.as_str());
            emit_opt_field(&mut out, "  Description: ", &l.description);
            let ghost mid = report_view(out@);
            if l.can_contain.len() > 0 {
                let t = comma_text(&l.can_contain);
                emit_field(&mut out, "  Can contain: ", t.as_str());
            }
            assert(report_view(out@) =~= level_show(*l));
            Ok(out)
        },
        None => Err(AppError::ElementNotFound(concat2("level: ", id))),
    }
}

} // verus!
