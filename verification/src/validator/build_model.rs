use vstd::prelude::*;
use crate::model::builds::build_model::{BuildModel, BuildArtifact, ArtifactDependency};
use crate::validator::result::{ValidationResult, Severity, Finding, finding, findings_of};
use crate::validator::support::{gather, finding_if, report, lemma_gather_step, lemma_gather_all, upper_snake, is_upper_snake};
use crate::utils::keyed::{Keyed, has_key, contains_key};
use crate::utils::text::{concat2, concat3, is_blank, same_text};

verus! {

/// Whether `id` is the non-empty ID of some artifact.
pub open spec fn known_artifact(arts: Seq<BuildArtifact>, id: Seq<char>) -> bool {
    id.len() != 0 && has_key(arts, id)
}

/// The findings on artifact `i`.
pub open spec fn artifact_findings(arts: Seq<BuildArtifact>) -> spec_fn(int, BuildArtifact) -> Seq<Finding> {
    |i: int, a: BuildArtifact| {
        let loc = "artifacts."@ + a.id@;
        finding_if(a.id@.len() == 0, finding("BM001"@, "ArtifactRequiredFields"@, "Artifact ID cannot be empty"@,
            Severity::Error, Some(loc)))
        + finding_if(a.name@.len() == 0, finding("BM001"@, "ArtifactRequiredFields"@,
            "Artifact '"@ + a.id@ + "' name cannot be empty"@, Severity::Error, Some(loc + ".name"@)))
        + finding_if(a.id@.len() != 0 && has_key(arts.take(i), a.id@), finding("BM002"@, "ArtifactIdUniqueness"@,
            "Duplicate artifact ID: "@ + a.id@, Severity::Error, Some(loc)))
        + finding_if(a.id@.len() != 0 && !upper_snake(a.id@), finding("BM003"@, "ArtifactIdNaming"@,
            "Artifact ID '"@ + a.id@ + "' does not follow UPPER_SNAKE_CASE convention"@, Severity::Warning,
            Some(loc + ".id"@)))
    }
}

/// The findings on a dependency whose ends are not artifacts.
pub open spec fn dependency_findings(arts: Seq<BuildArtifact>) -> spec_fn(int, ArtifactDependency) -> Seq<Finding> {
    |i: int, d: ArtifactDependency|
        finding_if(!known_artifact(arts, d.from@), finding("BM004"@, "DependencyReferencesValid"@,
            "Dependency 'from' references non-existent artifact: "@ + d.from@, Severity::Error,
            Some("dependencies."@ + d.from@)))
        + finding_if(!known_artifact(arts, d.to@), finding("BM004"@, "DependencyReferencesValid"@,
            "Dependency 'to' references non-existent artifact: "@ + d.to@, Severity::Error,
            Some("dependencies."@ + d.to@)))
}

/// All findings on a build model, in the order they are checked.
pub open spec fn build_model_findings(m: BuildModel) -> Seq<Finding> {
    gather(m.artifacts@, artifact_findings(m.artifacts@))
        + gather(m.dependencies@, dependency_findings(m.artifacts@))
        + finding_if(m.artifacts@.len() == 0, finding("BM005"@, "MinArtifacts"@,
            "Build model should have at least 1 artifact"@, Severity::Warning, None))
}

/// Whether an artifact before position `i` has ID `id`.
fn seen_before(arts: &Vec<BuildArtifact>, i: usize, id: &String) -> (r: bool)
    requires
        i <= arts@.len(),
    ensures
        r == has_key(arts@.take(i as int), id@),
{
    let mut k: usize = 0;
    while k < i
        invariant
            k <= i <= arts@.len(),
            forall|q: int| 0 <= q < k ==> #[trigger] arts@[q].id@ != id@,
        decreases i - k,
    {
        if same_text(&arts[k].id, id) {
            assert(arts@.take(i as int)[k as int].key() == id@);
            return true;
        }
        k = k + 1;
    }
    assert forall|q: int| 0 <= q < arts@.take(i as int).len() implies #[trigger] arts@.take(i as int)[q].id@ != id@ by {
        assert(arts@.take(i as int)[q] == arts@[q]);
    }
    false
}

/// Checks artifact `i`.
fn check_artifact(result: &mut ValidationResult, arts: &Vec<BuildArtifact>, i: usize)
    requires
        i < arts@.len(),
    ensures
        old(result).wf() ==> final(result).wf(),
        findings_of(final(result).errors@) == findings_of(old(result).errors@) + artifact_findings(arts@)(i as int, arts@[i as int]),
{
    let a = &arts[i];
    let ghost before = findings_of(result.errors@);
    let location = concat2("artifacts.", a.id.as_str());
    if is_blank(&a.id) {
        report(result, "BM001", "ArtifactRequiredFields", String::from_str("Artifact ID cannot be empty"),
            Severity::Error, Some(location.clone()));
    }
    if is_blank(&a.name) {
        report(result, "BM001", "ArtifactRequiredFields", concat3("Artifact '", a.id.as_str(), "' name cannot be empty"),
            Severity::Error, Some(concat2(location.as_str(), ".name")));
    }
    if !is_blank(&a.id) && seen_before(arts, i, &a.id) {
        report(result, "BM002", "ArtifactIdUniqueness", concat2("Duplicate artifact ID: ", a.id.as_str()),
            Severity::Error, Some(location.clone()));
    }
    if !is_blank(&a.id) && !is_upper_snake(a.id.as_str()) {
        report(result, "BM003", "ArtifactIdNaming",
            concat3("Artifact ID '", a.id.as_str(), "' does not follow UPPER_SNAKE_CASE convention"),
            Severity::Warning, Some(concat2(location.as_str(), ".id")));
    }
    assert(findings_of(result.errors@) =~= before + artifact_findings(arts@)(i as int, arts@[i as int]));
}

/// Checks a build model: artifact fields, unique IDs and naming, the ends of
/// every dependency, and that there is an artifact.
pub fn validate(model: &BuildModel) -> (r: ValidationResult)
    ensures
        r.wf(),
        findings_of(r.errors@) == build_model_findings(*model),
{
    let mut result = ValidationResult::new();
    assert(findings_of(result.errors@) =~= Seq::<Finding>::empty());
    let arts = &model.artifacts;
    let ghost check = artifact_findings(arts@);
    let ghost base = findings_of(result.errors@);
    let mut i: usize = 0;
    while i < arts.len()
        invariant
            i <= arts.len(),
            result.wf(),
            check == artifact_findings(arts@),
            findings_of(result.errors@) == base + gather(arts@.take(i as int), check),
        decreases arts.len() - i,
    {
        proof {
            lemma_gather_step(arts@, check, i as int);
        }
        check_artifact(&mut result, arts, i);
        i = i + 1;
    }
    proof {
        lemma_gather_all(arts@, check);
    }
    let ds = &model.dependencies;
    let ghost check = dependency_findings(arts@);
    let ghost base = findings_of(result.errors@);
    let mut i: usize = 0;
    while i < ds.len()
        invariant
            i <= ds.len(),
            result.wf(),
            check == dependency_findings(arts@),
            findings_of(result.errors@) == base + gather(ds@.take(i as int), check),
        decreases ds.len() - i,
    {
        proof {
            lemma_gather_step(ds@, check, i as int);
        }
        let d = &ds[i];
        let ghost before = findings_of(result.errors@);
        if !(!is_blank(&d.from) && contains_key(arts, &d.from)) {
            report(&mut result, "BM004", "DependencyReferencesValid",
                concat2("Dependency 'from' references non-existent artifact: ", d.from.as_str()), Severity::Error,
                Some(concat2("dependencies.", d.from.as_str())));
        }
        if !(!is_blank(&d.to) && contains_key(arts, &d.to)) {
            report(&mut result, "BM004", "DependencyReferencesValid",
                concat2("Dependency 'to' references non-existent artifact: ", d.to.as_str()), Severity::Error,
                Some(concat2("dependencies.", d.to.as_str())));
        }
        assert(findings_of(result.errors@) =~= before + check(i as int, ds@[i as int]));
        i = i + 1;
    }
    proof {
        lemma_gather_all(ds@, check);
    }
    let ghost before = findings_of(result.errors@);
    if arts.len() == 0 {
        report(&mut result, "BM005", "MinArtifacts", String::from_str("Build model should have at least 1 artifact"),
            Severity::Warning, None);
    }
    assert(findings_of(result.errors@) =~= before + finding_if(arts@.len() == 0, finding("BM005"@, "MinArtifacts"@,
        "Build model should have at least 1 artifact"@, Severity::Warning, None)));
    result
}

} // verus!
