use vstd::prelude::*;
use crate::model::logic::concept_model::{LogicArchitectureConceptModel, LevelDefinition};
use crate::generator::plantuml::support::{concat_map, text_if, lemma_concat_map_step, lemma_concat_map_all};
use crate::utils::keyed::{has_key, is_first_key, position_of, lemma_first_key_unique};
use crate::utils::text::{has_text, contains_text, same_text};

verus! {

/// The line declaring a level.
pub open spec fn level_line() -> spec_fn(LevelDefinition) -> Seq<char> {
    |l: LevelDefinition| "rectangle "@ + l.id@ + "\n"@
}

/// The containment lines of a level, leaving out a level containing itself.
pub open spec fn containment_lines() -> spec_fn(LevelDefinition) -> Seq<char> {
    |l: LevelDefinition| concat_map(l.can_contain@, |c: String| text_if(c@ != l.id@, l.id@ + " o.. "@ + c@ + "\n"@))
}

/// Whether the first `SUBMODULE` level may contain submodules.
pub open spec fn recursive_submodules(levels: Seq<LevelDefinition>) -> bool {
    has_key(levels, "SUBMODULE"@)
        && has_text(levels[choose|i: int| is_first_key(levels, "SUBMODULE"@, i)].can_contain@, "SUBMODULE"@)
}

/// The PlantUML text of a concept model.
pub open spec fn concept_model_plantuml(m: LogicArchitectureConceptModel) -> Seq<char> {
    let levels = m.hierarchy.levels@;
    "@startuml\n\n"@ + "skinparam defaultTextAlignment center\n\n"@
        + concat_map(levels, level_line()) + "\n"@
        + concat_map(levels, containment_lines())
        + text_if(recursive_submodules(levels), "\n"@ + "SUBMODULE o.. SUBMODULE\n"@)
        + "\n@enduml\n"@
}

fn write_containments(out: &mut String, l: &LevelDefinition)
    ensures
        final(out)@ == old(out)@ + containment_lines()(*l),
{
    let ghost start = out@;
    let ghost f = |c: String| text_if(c@ != l.id@, l.id@ + " o.. "@ + c@ + "\n"@);
    let mut j: usize = 0;
    while j < l.can_contain.len()
        invariant
            j <= l.can_contain.len(),
            f == (|c: String| text_if(c@ != l.id@, l.id@ + " o.. "@ + c@ + "\n"@)),
            out@ == start + concat_map(l.can_contain@.take(j as int), f),
        decreases l.can_contain.len() - j,
    {
        proof {
            lemma_concat_map_step(l.can_contain@, f, j as int);
        }
        let c = &l.can_contain[j];
        let ghost before = out@;
        if !same_text(c, &l.id) {
            out.append(l.id.as_str());
            out.append(" o.. ");
            out.append(c.as_str());
            out.append("\n");
        }
        assert(out@ =~= before + f(l.can_contain@[j as int]));
        j = j + 1;
    }
    proof {
        lemma_concat_map_all(l.can_contain@, f);
    }
}

/// Generates the PlantUML text of a concept model: its levels and what each may contain.
pub fn generate_concept_model_plantuml(model: &LogicArchitectureConceptModel) -> (r: String)
    ensures
        r@ == concept_model_plantuml(*model),
{
    let levels = &model.hierarchy.levels;
    let mut out = String::new();
    out.append("@startuml\n\n");
    out.append("skinparam defaultTextAlignment center\n\n");
    let ghost s0 = out@;
    let mut i: usize = 0;
    while i < levels.len()
        invariant
            i <= levels.len(),
            out@ == s0 + concat_map(levels@.take(i as int), level_line()),
        decreases levels.len() - i,
    {
        proof {
            lemma_concat_map_step(levels@, level_line(), i as int);
        }
        out.append("rectangle ");
        out.append(levels[i].id.as_str());
        out.append("\n");
        i = i + 1;
    }
    proof {
        lemma_concat_map_all(levels@, level_line());
    }
    out.append("\n");
    let ghost s1 = out@;
    let mut i: usize = 0;
    while i < levels.len()
        invariant
            i <= levels.len(),
            out@ == s1 + concat_map(levels@.take(i as int), containment_lines()),
        decreases levels.len() - i,
    {
        proof {
            lemma_concat_map_step(levels@, containment_lines(), i as int);
        }
        write_containments(&mut out, &levels[i]);
        i = i + 1;
    }
    proof {
        lemma_concat_map_all(levels@, containment_lines());
    }
    let ghost s2 = out@;
    let sub = String::from_str("SUBMODULE");
    match position_of(levels, &sub) {
        Some(k) => {
            proof {
                lemma_first_key_unique(levels@, "SUBMODULE"@, k as int);
            }
            if contains_text(&levels[k].can_contain, &sub) {
                out.append("\n");
                out.append("SUBMODULE o.. SUBMODULE\n");
            }
        },
        None => {},
    }
    assert(out@ =~= s2 + text_if(recursive_submodules(levels@), "\n"@ + "SUBMODULE o.. SUBMODULE\n"@));
    out.append("\n@enduml\n");
    out
}

} // verus!
