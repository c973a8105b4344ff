use vstd::prelude::*;
use crate::model::logic::concept_model::{LogicArchitectureConceptModel, LevelDefinition};
use crate::validator::result::{ValidationResult, Severity, Finding, finding, findings_of};
use crate::validator::support::{
    gather, finding_if, report, lemma_gather_step, lemma_gather_all, upper_snake, is_upper_snake,
};
use crate::utils::keyed::{has_key, contains_key};
use crate::utils::text::{concat2, concat3, concat5, is_blank, same_text};

verus! {

/// The finding for an empty containment type of level `l`.
pub open spec fn empty_contain_type(l: LevelDefinition) -> spec_fn(int, String) -> Seq<Finding> {
    |j: int, c: String|
        finding_if(
            c@.len() == 0,
            finding("C002"@, "NonEmptyContainType"@, "Level '"@ + l.id@ + "' has empty containment type"@,
                Severity::Error, Some("hierarchy.levels."@ + l.id@ + ".can_contain"@)),
        )
}

/// The findings on one level: a non-empty ID in upper snake case, and no
/// empty containment type.
pub open spec fn level_findings() -> spec_fn(int, LevelDefinition) -> Seq<Finding> {
    |i: int, l: LevelDefinition|
        finding_if(
            l.id@.len() == 0,
            finding("C001"@, "NonEmptyId"@, "Level ID cannot be empty"@, Severity::Error, Some("hierarchy.levels"@)),
        ) + finding_if(
            !upper_snake(l.id@) && l.id@.len() != 0,
            finding("N001"@, "LevelIdNaming"@,
                "Level ID '"@ + l.id@ + "' does not follow UPPER_SNAKE_CASE convention"@, Severity::Warning,
                Some("hierarchy.levels."@ + l.id@)),
        ) + gather(l.can_contain@, empty_contain_type(l))
}

/// The finding for a containment type of level `l` that names no level
/// (the wildcard `*` names every level).
pub open spec fn unknown_contain_type(levels: Seq<LevelDefinition>, l: LevelDefinition) -> spec_fn(int, String) -> Seq<Finding> {
    |j: int, c: String|
        finding_if(
            c@ != "*"@ && !has_key(levels, c@),
            finding("S001"@, "ValidContainmentReference"@,
                "Level '"@ + l.id@ + "' contains unknown type '"@ + c@ + "'"@, Severity::Error,
                Some("hierarchy.levels."@ + l.id@ + ".can_contain"@)),
        )
}

/// The containment findings of each level.
pub open spec fn containment_findings(levels: Seq<LevelDefinition>) -> spec_fn(int, LevelDefinition) -> Seq<Finding> {
    |i: int, l: LevelDefinition| gather(l.can_contain@, unknown_contain_type(levels, l))
}

/// All findings on a concept model, in the order they are checked.
pub open spec fn concept_model_findings(m: LogicArchitectureConceptModel) -> Seq<Finding> {
    let levels = m.hierarchy.levels@;
    gather(levels, level_findings())
        + gather(levels, containment_findings(levels))
        + finding_if(
            levels.len() == 0,
            finding("C003"@, "NonEmptyHierarchy"@, "Hierarchy must have at least one level"@, Severity::Error,
                Some("hierarchy.levels"@)),
        )
}

/// Checks a concept model: level IDs, containment types and a non-empty hierarchy.
pub fn validate(model: &LogicArchitectureConceptModel) -> (r: ValidationResult)
    ensures
        r.wf(),
        findings_of(r.errors@) == concept_model_findings(*model),
{
    let mut result = ValidationResult::new();
    assert(findings_of(result.errors@) =~= Seq::<Finding>::empty());
    let levels = &model.hierarchy.levels;
    let ghost base = findings_of(result.errors@);
    let mut i: usize = 0;
    while i < levels.len()
        invariant
            i <= levels.len(),
            result.wf(),
            findings_of(result.errors@) == base + gather(levels@.take(i as int), level_findings()),
        decreases levels.len() - i,
    {
        proof {
            lemma_gather_step(levels@, level_findings(), i as int);
        }
        let ghost before = findings_of(result.errors@);
        validate_level(&mut result, &levels[i]);
        assert(findings_of(result.errors@) =~= before + level_findings()(i as int, levels@[i as int]));
        i = i + 1;
    }
    proof {
        lemma_gather_all(levels@, level_findings());
    }
    validate_containment_rules(&mut result, model);
    result
}

/// Checks one level.
fn validate_level(result: &mut ValidationResult, level: &LevelDefinition)
    ensures
        old(result).wf() ==> final(result).wf(),
        findings_of(final(result).errors@) == findings_of(old(result).errors@) + level_findings()(0, *level),
{
    let ghost was_wf = result.wf();
    let ghost start = findings_of(result.errors@);
    if is_blank(&level.id) {
        report(result, "C001", "NonEmptyId", String::from_str("Level ID cannot be empty"), Severity::Error,
            Some(String::from_str("hierarchy.levels")));
    }
    if !is_upper_snake(level.id.as_str()) && !is_blank(&level.id) {
        report(result, "N001", "LevelIdNaming",
            concat3("Level ID '", level.id.as_str(), "' does not follow UPPER_SNAKE_CASE convention"), Severity::Warning,
            Some(concat2("hierarchy.levels.", level.id.as_str())));
    }
    let ghost base = findings_of(result.errors@);
    let ghost check = empty_contain_type(*level);
    let mut j: usize = 0;
    while j < level.can_contain.len()
        invariant
            j <= level.can_contain.len(),
            was_wf ==> result.wf(),
            check == empty_contain_type(*level),
            findings_of(result.errors@) == base + gather(level.can_contain@.take(j as int), check),
        decreases level.can_contain.len() - j,
    {
        proof {
            lemma_gather_step(level.can_contain@, check, j as int);
        }
        let ghost before = findings_of(result.errors@);
        if is_blank(&level.can_contain[j]) {
            report(result, "C002", "NonEmptyContainType",
                concat3("Level '", level.id.as_str(), "' has empty containment type"), Severity::Error,
                Some(concat3("hierarchy.levels.", level.id.as_str(), ".can_contain")));
        }
        assert(findings_of(result.errors@) =~= before + check(j as int, level.can_contain@[j as int]));
        j = j + 1;
    }
    proof {
        lemma_gather_all(level.can_contain@, check);
    }
    assert(findings_of(result.errors@) =~= start + level_findings()(0, *level));
}

/// Checks that every containment type names a level, and that there is a level.
fn validate_containment_rules(result: &mut ValidationResult, model: &LogicArchitectureConceptModel)
    ensures
        old(result).wf() ==> final(result).wf(),
        findings_of(final(result).errors@) == findings_of(old(result).errors@)
            + gather(model.hierarchy.levels@, containment_findings(model.hierarchy.levels@))
            + finding_if(
                model.hierarchy.levels@.len() == 0,
                finding("C003"@, "NonEmptyHierarchy"@, "Hierarchy must have at least one level"@, Severity::Error,
                    Some("hierarchy.levels"@)),
            ),
{
    let ghost was_wf = result.wf();
    let levels = &model.hierarchy.levels;
    let ghost check = containment_findings(levels@);
    let ghost base = findings_of(result.errors@);
    let wildcard = String::from_str("*");
    let mut i: usize = 0;
    while i < levels.len()
        invariant
            i <= levels.len(),
            was_wf ==> result.wf(),
            wildcard@ == "*"@,
            check == containment_findings(levels@),
            findings_of(result.errors@) == base + gather(levels@.take(i as int), check),
        decreases levels.len() - i,
    {
        proof {
            lemma_gather_step(levels@, check, i as int);
        }
        let level = &levels[i];
        let ghost before = findings_of(result.errors@);
        let ghost inner = unknown_contain_type(levels@, *level);
        let mut j: usize = 0;
        while j < level.can_contain.len()
            invariant
                j <= level.can_contain.len(),
                was_wf ==> result.wf(),
                wildcard@ == "*"@,
                inner == unknown_contain_type(levels@, *level),
                findings_of(result.errors@) == before + gather(level.can_contain@.take(j as int), inner),
            decreases level.can_contain.len() - j,
        {
            proof {
                lemma_gather_step(level.can_contain@, inner, j as int);
            }
            let child = &level.can_contain[j];
            let ghost b2 = findings_of(result.errors@);
            if !same_text(child, &wildcard) && !contains_key(levels, child) {
                report(result, "S001", "ValidContainmentReference",
                    concat5("Level '", level.id.as_str(), "' contains unknown type '", child.as_str(), "'"),
                    Severity::Error, Some(concat3("hierarchy.levels.", level.id.as_str(), ".can_contain")));
            }
            assert(findings_of(result.errors@) =~= b2 + inner(j as int, level.can_contain@[j as int]));
            j = j + 1;
        }
        proof {
            lemma_gather_all(level.can_contain@, inner);
        }
        assert(findings_of(result.errors@) =~= before + check(i as int, levels@[i as int]));
        i = i + 1;
    }
    proof {
        lemma_gather_all(levels@, check);
    }
    let ghost mid = findings_of(result.errors@);
    if levels.len() == 0 {
        report(result, "C003", "NonEmptyHierarchy", String::from_str("Hierarchy must have at least one level"),
            Severity::Error, Some(String::from_str("hierarchy.levels")));
    }
    assert(findings_of(result.errors@) =~= mid + finding_if(
        levels@.len() == 0,
        finding("C003"@, "NonEmptyHierarchy"@, "Hierarchy must have at least one level"@, Severity::Error,
            Some("hierarchy.levels"@)),
    ));
}

} // verus!
