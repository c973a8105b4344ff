use vstd::prelude::*;
use crate::model::runtime::runtime_view::{
    RuntimeView, Scenario, Participant, ParticipantType, Block, Step, StepType, Group, GroupType,
    GroupBranch, Note, NotePosition, Divider,
};
use crate::model::c4::context::element_name;
use crate::model::logic::concept::{LogicConceptDiagram, system_name};
use crate::model::workspace::Workspace;
use crate::generator::plantuml::support::{
    concat_map, text_if, lemma_concat_map_step, lemma_concat_map_all, holds_text, lemma_holds_self, lemma_holds_left,
    lemma_holds_right, lemma_holds_trans,
};
use crate::utils::keyed::{has_key, is_first_key, lemma_first_key_unique};
use crate::utils::text::{join, join_strings, string_views, copy_string, same_text};

verus! {

/// The name of an element in a logic view: the system's, else the first
/// element below it with that ID.
pub open spec fn logic_name_of(d: LogicConceptDiagram, id: Seq<char>) -> Option<Seq<char>> {
    if d.system.id@ == id {
        Some(d.system.name@)
    } else {
        system_name(d.system, id)
    }
}

/// The name of element `id`: from the context diagram, else from the logic view.
pub open spec fn resolved_element_name(w: Workspace, id: Seq<char>) -> Option<Seq<char>> {
    let from_context = match w.context_diagram {
        Some(c) => element_name(c, id),
        None => None,
    };
    match from_context {
        Some(n) => Some(n),
        None => match w.logic_view {
            Some(l) => logic_name_of(l, id),
            None => None,
        },
    }
}

/// The PlantUML keyword of a participant type.
pub open spec fn participant_keyword(t: ParticipantType) -> Seq<char> {
    match t {
        ParticipantType::Actor => "actor"@,
        ParticipantType::Participant => "participant"@,
        ParticipantType::Boundary => "boundary"@,
        ParticipantType::Control => "control"@,
        ParticipantType::Entity => "entity"@,
        ParticipantType::Database => "database"@,
        ParticipantType::Collections => "collections"@,
        ParticipantType::Queue => "queue"@,
    }
}

/// The PlantUML arrow of a step type.
pub open spec fn step_arrow(t: StepType) -> Seq<char> {
    match t {
        StepType::Sync => "->"@,
        StepType::Async => "->>"@,
        StepType::Return => "-->"@,
        StepType::Lost => "->o"@,
    }
}

/// The PlantUML keyword of a group type.
pub open spec fn group_keyword(t: GroupType) -> Seq<char> {
    match t {
        GroupType::Alt => "alt"@,
        GroupType::Opt => "opt"@,
        GroupType::Loop => "loop"@,
        GroupType::Par => "par"@,
        GroupType::Break => "break"@,
        GroupType::Critical => "critical"@,
        GroupType::Group => "group"@,
    }
}

/// The name shown for a participant: its alias, else the element's name,
/// else its element ID.
pub open spec fn participant_display(w: Workspace, p: Participant) -> Seq<char> {
    match p.alias {
        Some(a) => a@,
        None => match resolved_element_name(w, p.element_id@) {
            Some(n) => n,
            None => p.element_id@,
        },
    }
}

/// The line declaring a participant.
pub open spec fn participant_line(w: Workspace) -> spec_fn(Participant) -> Seq<char> {
    |p: Participant| participant_keyword(p.participant_type) + " \""@ + participant_display(w, p) + "\" as "@
        + p.element_id@
        + (match p.color {
            Some(c) => " #"@ + c@,
            None => Seq::empty(),
        })
        + "\n"@
}

/// The lines of a step: a plain arrow for a call to itself, else the
/// step's colour or its type's arrow; then the activation of the target.
pub open spec fn step_text(s: Step) -> Seq<char> {
    (if s.from@ == s.to@ {
        s.from@ + " -> "@ + s.to@ + " : "@ + s.message@ + "\n"@
    } else {
        match s.color {
            Some(c) => s.from@ + " -["@ + c@ + "]> "@ + s.to@ + " : "@ + s.message@ + "\n"@,
            None => s.from@ + " "@ + step_arrow(s.step_type) + " "@ + s.to@ + " : "@ + s.message@ + "\n"@,
        }
    }) + text_if(s.activate_target == Some(true), "activate "@ + s.to@ + "\n"@)
}

/// The text of a sequence of blocks, one after another.
pub open spec fn blocks_text(bs: Seq<Block>) -> Seq<char>
    decreases bs,
{
    if bs.len() == 0 {
        Seq::empty()
    } else {
        blocks_text(bs.drop_last()) + block_text(bs.last())
    }
}

/// The text of one block. An alt group with branches shows its branches;
/// any other group shows its own blocks.
pub open spec fn block_text(b: Block) -> Seq<char>
    decreases b,
{
    match b {
        Block::Step(s) => step_text(s),
        Block::Group(g) => group_keyword(g.group_type) + " "@ + g.label@ + "\n"@
            + (if g.group_type == GroupType::Alt && g.branches@.len() > 0 {
                branches_text(g.branches@)
            } else {
                blocks_text(g.blocks@)
            })
            + "end\n"@,
    }
}

/// The text of the branches of an alt group: every branch but the first
/// opens with an `else` line.
pub open spec fn branches_text(brs: Seq<GroupBranch>) -> Seq<char>
    decreases brs,
{
    if brs.len() == 0 {
        Seq::empty()
    } else {
        branches_text(brs.drop_last()) + text_if(brs.len() > 1, "else "@ + brs.last().label@ + "\n"@)
            + blocks_text(brs.last().blocks@)
    }
}

/// The PlantUML placement of a note.
pub open spec fn note_placement(p: NotePosition) -> Seq<char> {
    match p {
        NotePosition::Left => "left of"@,
        NotePosition::Right => "right of"@,
        NotePosition::Over => "over"@,
    }
}

/// The lines of a note.
pub open spec fn note_lines() -> spec_fn(Note) -> Seq<char> {
    |n: Note| "note "@ + note_placement(n.position) + " "@ + n.target@ + "\n"@ + "  "@ + n.text@ + "\n"@ + "end note\n"@
}

/// The line of a divider.
pub open spec fn divider_line() -> spec_fn(Divider) -> Seq<char> {
    |d: Divider| "== "@ + d.label@ + " ==\n"@
}

/// The PlantUML sequence diagram of one scenario.
pub open spec fn scenario_plantuml(w: Workspace, s: Scenario) -> Seq<char> {
    "@startuml\n\n"@ + "autonumber\n\n"@ + concat_map(s.participants@, participant_line(w)) + "\n"@
        + blocks_text(s.blocks@) + concat_map(s.notes@, note_lines()) + concat_map(s.dividers@, divider_line())
        + "\n@enduml\n"@
}

/// The IDs of some scenarios, in order.
pub open spec fn scenario_ids(ss: Seq<Scenario>) -> Seq<Seq<char>> {
    ss.map_values(|s: Scenario| s.id@)
}

/// The diagram given for a scenario that the view does not have: an error
/// comment naming it, and the scenarios there are.
pub open spec fn missing_scenario_plantuml(v: RuntimeView, id: Seq<char>) -> Seq<char> {
    "@startuml\n\n"@ + "' ERROR: Scenario '"@ + id + "' not found in runtime_view\n"@
        + "' Available scenarios: "@ + join(scenario_ids(v.scenarios@), ", "@) + "\n"@ + "\n@enduml\n"@
}

/// The PlantUML text for scenario `id` of a runtime view.
pub open spec fn runtime_plantuml(w: Workspace, v: RuntimeView, id: Seq<char>) -> Seq<char> {
    if has_key(v.scenarios@, id) {
        scenario_plantuml(w, v.scenarios@[choose|i: int| is_first_key(v.scenarios@, id, i)])
    } else {
        missing_scenario_plantuml(v, id)
    }
}

/// The PlantUML keyword of a participant type.
pub fn participant_type_to_plantuml(pt: &ParticipantType) -> (r: &'static str)
    ensures
        r@ == participant_keyword(*pt),
{
    match pt {
        ParticipantType::Actor => "actor",
        ParticipantType::Participant => "participant",
        ParticipantType::Boundary => "boundary",
        ParticipantType::Control => "control",
        ParticipantType::Entity => "entity",
        ParticipantType::Database => "database",
        ParticipantType::Collections => "collections",
        ParticipantType::Queue => "queue",
    }
}

/// The PlantUML arrow of a step type.
pub fn step_type_to_arrow(st: &StepType) -> (r: &'static str)
    ensures
        r@ == step_arrow(*st),
{
    match st {
        StepType::Sync => "->",
        StepType::Async => "->>",
        StepType::Return => "-->",
        StepType::Lost => "->o",
    }
}

/// The PlantUML keyword of a group type.
pub fn group_type_to_keyword(gt: &GroupType) -> (r: &'static str)
    ensures
        r@ == group_keyword(*gt),
{
    match gt {
        GroupType::Alt => "alt",
        GroupType::Opt => "opt",
        GroupType::Loop => "loop",
        GroupType::Par => "par",
        GroupType::Break => "break",
        GroupType::Critical => "critical",
        GroupType::Group => "group",
    }
}

/// The name of an element: from the context diagram, else from the logic view.
fn resolve_element_name<'a>(workspace: &'a Workspace, element_id: &str) -> (r: Option<&'a str>)
    ensures
        match r {
            Some(n) => resolved_element_name(*workspace, element_id@) == Some(n@),
            None => resolved_element_name(*workspace, element_id@) is None,
        },
{
    match &workspace.context_diagram {
        Some(ctx) => match ctx.get_element_name(element_id) {
            Some(name) => {
                return Some(name);
            },
            None => {},
        },
        None => {},
    }
    match &workspace.logic_view {
        Some(lv) => lv.get_element_name(element_id),
        None => None,
    }
}

fn write_participant(out: &mut String, workspace: &Workspace, p: &Participant)
    ensures
        final(out)@ == old(out)@ + participant_line(*workspace)(*p),
{
    let ghost before = out@;
    out.append(participant_type_to_plantuml(&p.participant_type));
    out.append(" \"");
    match &p.alias {
        Some(a) => out.append(a.as_str()),
        None => match resolve_element_name(workspace, p.element_id.as_str()) {
            Some(n) => out.append(n),
            None => out.append(p.element_id.as_str()),
        },
    }
    out.append("\" as ");
    out.append(p.element_id.as_str());
    match &p.color {
        Some(c) => {
            out.append(" #");
            out.append(c.as_str());
        },
        None => {},
    }
    out.append("\n");
    assert(out@ =~= before + participant_line(*workspace)(*p));
}

fn write_step(out: &mut String, s: &Step)
    ensures
        final(out)@ == old(out)@ + step_text(*s),
{
    let ghost before = out@;
    if same_text(&s.from, &s.to) {
        out.append(s.from.as_str());
        out.append(" -> ");
    } else {
        match &s.color {
            Some(c) => {
                out.append(s.from.as_str());
                out.append(" -[");
                out.append(c.as_str());
                out.append("]> ");
            },
            None => {
                out.append(s.from.as_str());
                out.append(" ");
                out.append(step_type_to_arrow(&s.step_type));
                out.append(" ");
            },
        }
    }
    out.append(s.to.as_str());
    out.append(" : ");
    out.append(s.message.as_str());
    out.append("\n");
    let activate = match s.activate_target {
        Some(a) => a,
        None => false,
    };
    if activate {
        out.append("activate ");
        out.append(s.to.as_str());
        out.append("\n");
    }
    assert(out@ =~= before + step_text(*s));
}

/// Writes the text of a sequence of blocks (see `blocks_text`).
pub fn generate_blocks(output: &mut String, blocks: &Vec<Block>)
    ensures
        final(output)@ == old(output)@ + blocks_text(blocks@),
    decreases blocks,
{
    let ghost start = output@;
    let mut i: usize = 0;
    while i < blocks.len()
        invariant
            i <= blocks.len(),
            output@ == start + blocks_text(blocks@.take(i as int)),
        decreases blocks.len() - i,
    {
        assert(blocks@.take(i + 1).drop_last() =~= blocks@.take(i as int));
        proof {
            assert(decreases_to!(*blocks => blocks@[i as int]));
        }
        write_block(output, &blocks[i]);
        i = i + 1;
    }
    assert(blocks@.take(blocks@.len() as int) =~= blocks@);
}

fn write_block(out: &mut String, b: &Block)
    ensures
        final(out)@ == old(out)@ + block_text(*b),
    decreases b,
{
    let ghost before = out@;
    match b {
        Block::Step(s) => write_step(out, s),
        Block::Group(g) => {
            out.append(group_type_to_keyword(&g.group_type));
            out.append(" ");
            out.append(g.label.as_str());
            out.append("\n");
            if g.group_type == GroupType::Alt && g.branches.len() > 0 {
                write_branches(out, &g.branches);
            } else {
                generate_blocks(out, &g.blocks);
            }
            out.append("end\n");
        },
    }
    assert(out@ =~= before + block_text(*b));
}

fn write_branch(out: &mut String, br: &GroupBranch, first: bool)
    ensures
        final(out)@ == old(out)@ + text_if(!first, "else "@ + br.label@ + "\n"@) + blocks_text(br.blocks@),
    decreases br,
{
    let ghost before = out@;
    if !first {
        out.append("else ");
        out.append(br.label.as_str());
        out.append("\n");
    }
    generate_blocks(out, &br.blocks);
    assert(out@ =~= before + text_if(!first, "else "@ + br.label@ + "\n"@) + blocks_text(br.blocks@));
}

fn write_branches(out: &mut String, brs: &Vec<GroupBranch>)
    ensures
        final(out)@ == old(out)@ + branches_text(brs@),
    decreases brs,
{
    let ghost start = out@;
    let mut k: usize = 0;
    while k < brs.len()
        invariant
            k <= brs.len(),
            out@ == start + branches_text(brs@.take(k as int)),
        decreases brs.len() - k,
    {
        assert(brs@.take(k + 1).drop_last() =~= brs@.take(k as int));
        proof {
            assert(decreases_to!(*brs => brs@[k as int]));
        }
        write_branch(out, &brs[k], k == 0);
        assert(out@ =~= start + branches_text(brs@.take(k + 1)));
        k = k + 1;
    }
    assert(brs@.take(brs@.len() as int) =~= brs@);
}

fn write_note(out: &mut String, n: &Note)
    ensures
        final(out)@ == old(out)@ + note_lines()(*n),
{
    let ghost before = out@;
    let placement = match n.position {
        NotePosition::Left => "left of",
        NotePosition::Right => "right of",
        NotePosition::Over => "over",
    };
    out.append("note ");
    out.append(placement);
    out.append(" ");
    out.append(n.target.as_str());
    out.append("\n");
    out.append("  ");
    out.append(n.text.as_str());
    out.append("\n");
    out.append("end note\n");
    assert(out@ =~= before + note_lines()(*n));
}

fn write_divider(out: &mut String, d: &Divider)
    ensures
        final(out)@ == old(out)@ + divider_line()(*d),
{
    let ghost before = out@;
    out.append("== ");
    out.append(d.label.as_str());
    out.append(" ==\n");
    assert(out@ =~= before + divider_line()(*d));
}

fn write_participants(out: &mut String, workspace: &Workspace, s: &Scenario)
    ensures
        final(out)@ == old(out)@ + concat_map(s.participants@, participant_line(*workspace)),
{
    let ghost s0 = out@;
    let ghost f = participant_line(*workspace);
    let mut i: usize = 0;
    while i < s.participants.len()
        invariant
            i <= s.participants.len(),
            f == participant_line(*workspace),
            out@ == s0 + concat_map(s.participants@.take(i as int), f),
        decreases s.participants.len() - i,
    {
        proof {
            lemma_concat_map_step(s.participants@, f, i as int);
        }
        write_participant(out, workspace, &s.participants[i]);
        i = i + 1;
    }
    proof {
        lemma_concat_map_all(s.participants@, f);
    }
}

fn write_notes(out: &mut String, s: &Scenario)
    ensures
        final(out)@ == old(out)@ + concat_map(s.notes@, note_lines()),
{
    let ghost s0 = out@;
    let ghost f = note_lines();
    let mut i: usize = 0;
    while i < s.notes.len()
        invariant
            i <= s.notes.len(),
            f == note_lines(),
            out@ == s0 + concat_map(s.notes@.take(i as int), f),
        decreases s.notes.len() - i,
    {
        proof {
            lemma_concat_map_step(s.notes@, f, i as int);
        }
        write_note(out, &s.notes[i]);
        i = i + 1;
    }
    proof {
        lemma_concat_map_all(s.notes@, f);
    }
}

fn write_dividers(out: &mut String, s: &Scenario)
    ensures
        final(out)@ == old(out)@ + concat_map(s.dividers@, divider_line()),
{
    let ghost s0 = out@;
    let ghost f = divider_line();
    let mut i: usize = 0;
    while i < s.dividers.len()
        invariant
            i <= s.dividers.len(),
            f == divider_line(),
            out@ == s0 + concat_map(s.dividers@.take(i as int), f),
        decreases s.dividers.len() - i,
    {
        proof {
            lemma_concat_map_step(s.dividers@, f, i as int);
        }
        write_divider(out, &s.dividers[i]);
        i = i + 1;
    }
    proof {
        lemma_concat_map_all(s.dividers@, f);
    }
}

fn scenario_text(workspace: &Workspace, s: &Scenario) -> (r: String)
    ensures
        r@ == scenario_plantuml(*workspace, *s),
{
    let mut out = String::new();
    out.append("@startuml\n\n");
    out.append("autonumber\n\n");
    write_participants(&mut out, workspace, s);
    out.append("\n");
    generate_blocks(&mut out, &s.blocks);
    write_notes(&mut out, s);
    write_dividers(&mut out, s);
    out.append("\n@enduml\n");
    assert(out@ =~= scenario_plantuml(*workspace, *s));
    out
}

fn missing_scenario_text(view: &RuntimeView, scenario_id: &str) -> (r: String)
    ensures
        r@ == missing_scenario_plantuml(*view, scenario_id@),
{
    let mut ids: Vec<String> = Vec::new();
    let mut i: usize = 0;
    while i < view.scenarios.len()
        invariant
            i <= view.scenarios.len(),
            string_views(ids@) == scenario_ids(view.scenarios@.take(i as int)),
        decreases view.scenarios.len() - i,
    {
        let ghost before = ids@;
        ids.push(copy_string(&view.scenarios[i].id));
        assert(string_views(before).len() == before.len());
        assert(scenario_ids(view.scenarios@.take(i as int)).len() == i);
        assert(before.len() == i);
        assert(ids@.len() == i + 1);
        assert forall|j: int| 0 <= j < i + 1 implies #[trigger] string_views(ids@)[j]
            == scenario_ids(view.scenarios@.take(i + 1))[j] by {
            if j < i {
                assert(ids@[j] == before[j]);
                assert(string_views(before)[j] == scenario_ids(view.scenarios@.take(i as int))[j]);
            } else {
                assert(ids@[j]@ == view.scenarios@[i as int].id@);
            }
        }
        assert(string_views(ids@) =~= scenario_ids(view.scenarios@.take(i + 1)));
        i = i + 1;
    }
    assert(view.scenarios@.take(view.scenarios@.len() as int) =~= view.scenarios@);
    let mut out = String::new();
    out.append("@startuml\n\n");
    out.append("' ERROR: Scenario '");
    out.append(scenario_id);
    out.append("' not found in runtime_view\n");
    out.append("' Available scenarios: ");
    out.append(join_strings(&ids, ", ").as_str());
    out.append("\n");
    out.append("\n@enduml\n");
    assert(out@ =~= missing_scenario_plantuml(*view, scenario_id@));
    out
}

/// Generates the PlantUML sequence diagram of one scenario of a runtime
/// view: participants (named from the context diagram or logic view unless
/// aliased), the blocks with their groups, notes and dividers. For a
/// scenario the view does not have, a diagram holding only an error comment
/// that lists the scenarios there are.
pub fn generate_runtime_plantuml(workspace: &Workspace, view: &RuntimeView, scenario_id: &str) -> (r: String)
    ensures
        r@ == runtime_plantuml(*workspace, *view, scenario_id@),
{
    match view.find_scenario(scenario_id) {
        Some(s) => {
            proof {
                let i = choose|i: int| is_first_key(view.scenarios@, scenario_id@, i) && view.scenarios@[i] == *s;
                lemma_first_key_unique(view.scenarios@, scenario_id@, i);
            }
            scenario_text(workspace, s)
        },
        None => missing_scenario_text(view, scenario_id),
    }
}

/// The text of each block is written into the text of the sequence.
pub proof fn lemma_blocks_text_holds(bs: Seq<Block>, i: int)
    requires
        0 <= i < bs.len(),
    ensures
        holds_text(blocks_text(bs), block_text(bs[i])),
    decreases bs.len(),
{
    let t = bs.drop_last();
    if i == bs.len() - 1 {
        lemma_holds_self(block_text(bs[i]));
        lemma_holds_right(blocks_text(t), block_text(bs.last()), block_text(bs[i]));
    } else {
        lemma_blocks_text_holds(t, i);
        assert(t[i] == bs[i]);
        lemma_holds_left(blocks_text(t), block_text(bs.last()), block_text(bs[i]));
    }
}

/// The text of each block of each branch is written into the text of the branches.
pub proof fn lemma_branches_text_holds(brs: Seq<GroupBranch>, j: int, i: int)
    requires
        0 <= j < brs.len(),
        0 <= i < brs[j].blocks@.len(),
    ensures
        holds_text(branches_text(brs), block_text(brs[j].blocks@[i])),
    decreases brs.len(),
{
    let t = brs.drop_last();
    let x = block_text(brs[j].blocks@[i]);
    let head = branches_text(t) + text_if(brs.len() > 1, "else "@ + brs.last().label@ + "\n"@);
    if j == brs.len() - 1 {
        lemma_blocks_text_holds(brs[j].blocks@, i);
        lemma_holds_right(head, blocks_text(brs.last().blocks@), x);
    } else {
        assert(t[j] == brs[j]);
        lemma_branches_text_holds(t, j, i);
        lemma_holds_left(branches_text(t), text_if(brs.len() > 1, "else "@ + brs.last().label@ + "\n"@), x);
        lemma_holds_left(head, blocks_text(brs.last().blocks@), x);
    }
}

/// The opening line of a group: its PlantUML keyword and its label.
pub open spec fn group_opening(g: Group) -> Seq<char> {
    (if g.group_type == GroupType::Loop {
        "loop"@
    } else if g.group_type == GroupType::Alt {
        "alt"@
    } else if g.group_type == GroupType::Opt {
        "opt"@
    } else if g.group_type == GroupType::Par {
        "par"@
    } else if g.group_type == GroupType::Break {
        "break"@
    } else if g.group_type == GroupType::Critical {
        "critical"@
    } else {
        "group"@
    }) + " "@ + g.label@ + "\n"@
}

/// A group is drawn as its opening line, then what it holds, then a closing
/// `end` line: the text of every block it holds (or, for an alt group with
/// branches, of every block of every branch) lies between the two, so the
/// opening and closing lines of nested groups come in balanced pairs.
pub proof fn lemma_group_framed(g: Group) -> (inner: Seq<char>)
    ensures
        block_text(Block::Group(g)) == group_opening(g) + inner + "end\n"@,
        !(g.group_type == GroupType::Alt && g.branches@.len() > 0) ==> forall|i: int|
            0 <= i < g.blocks@.len() ==> holds_text(inner, #[trigger] block_text(g.blocks@[i])),
        g.group_type == GroupType::Alt && g.branches@.len() > 0 ==> forall|j: int, i: int|
            0 <= j < g.branches@.len() && 0 <= i < g.branches@[j].blocks@.len()
                ==> holds_text(inner, #[trigger] block_text(g.branches@[j].blocks@[i])),
{
    let inner = if g.group_type == GroupType::Alt && g.branches@.len() > 0 {
        branches_text(g.branches@)
    } else {
        blocks_text(g.blocks@)
    };
    assert(group_keyword(g.group_type) + " "@ + g.label@ + "\n"@ == group_opening(g));
    if g.group_type == GroupType::Alt && g.branches@.len() > 0 {
        assert forall|j: int, i: int| 0 <= j < g.branches@.len() && 0 <= i < g.branches@[j].blocks@.len() implies
            holds_text(inner, #[trigger] block_text(g.branches@[j].blocks@[i])) by {
            lemma_branches_text_holds(g.branches@, j, i);
        }
    } else {
        assert forall|i: int| 0 <= i < g.blocks@.len() implies holds_text(inner, #[trigger] block_text(g.blocks@[i])) by {
            lemma_blocks_text_holds(g.blocks@, i);
        }
    }
    inner
}

/// The diagram of a scenario draws every block of the scenario: the text of
/// each top-level block (for a group, framed as `lemma_group_framed` states)
/// is written into it.
pub proof fn lemma_scenario_draws_blocks(w: Workspace, v: RuntimeView, id: Seq<char>, k: int, i: int)
    requires
        is_first_key(v.scenarios@, id, k),
        0 <= i < v.scenarios@[k].blocks@.len(),
    ensures
        holds_text(runtime_plantuml(w, v, id), block_text(v.scenarios@[k].blocks@[i])),
{
    lemma_first_key_unique(v.scenarios@, id, k);
    let s = v.scenarios@[k];
    let x = block_text(s.blocks@[i]);
    let pre = "@startuml\n\n"@ + "autonumber\n\n"@ + concat_map(s.participants@, participant_line(w)) + "\n"@;
    let post = concat_map(s.notes@, note_lines()) + concat_map(s.dividers@, divider_line()) + "\n@enduml\n"@;
    lemma_blocks_text_holds(s.blocks@, i);
    lemma_holds_right(pre, blocks_text(s.blocks@), x);
    lemma_holds_left(pre + blocks_text(s.blocks@), post, x);
    assert(scenario_plantuml(w, s) =~= pre + blocks_text(s.blocks@) + post);
}

/// The arrow that a step between two participants is drawn with: its colour
/// when it has one, else by its type a synchronous `->`, an asynchronous
/// `->>`, a returning `-->` or a lost `->o`.
pub open spec fn step_arrow_drawn(s: Step) -> Seq<char> {
    if s.color is Some {
        "-["@ + s.color->Some_0@ + "]>"@
    } else if s.step_type == StepType::Async {
        "->>"@
    } else if s.step_type == StepType::Return {
        "-->"@
    } else if s.step_type == StepType::Lost {
        "->o"@
    } else {
        "->"@
    }
}

/// A step is drawn as one line `from <arrow> to : message` (a call to itself
/// always with a plain `->`), followed by an `activate` line for its target
/// exactly when the step activates it.
pub proof fn lemma_step_drawn(s: Step)
    ensures
        block_text(Block::Step(s)) == s.from@ + " "@ + (if s.from@ == s.to@ { "->"@ } else { step_arrow_drawn(s) })
            + " "@ + s.to@ + " : "@ + s.message@ + "\n"@
            + (if s.activate_target == Some(true) { "activate "@ + s.to@ + "\n"@ } else { Seq::empty() }),
{
    reveal_strlit(" ");
    reveal_strlit(" -> ");
    reveal_strlit("->");
    reveal_strlit(" -[");
    reveal_strlit("-[");
    reveal_strlit("]> ");
    reveal_strlit("]>");
    let t = block_text(Block::Step(s));
    let tail = if s.activate_target == Some(true) { "activate "@ + s.to@ + "\n"@ } else { Seq::<char>::empty() };
    if s.from@ == s.to@ {
        assert(t =~= s.from@ + " "@ + "->"@ + " "@ + s.to@ + " : "@ + s.message@ + "\n"@ + tail);
    } else if s.color is Some {
        let c = s.color->Some_0@;
        assert(t =~= s.from@ + " "@ + ("-["@ + c + "]>"@) + " "@ + s.to@ + " : "@ + s.message@ + "\n"@ + tail);
    } else {
        assert(t =~= s.from@ + " "@ + step_arrow(s.step_type) + " "@ + s.to@ + " : "@ + s.message@ + "\n"@ + tail);
        assert(step_arrow(s.step_type) == step_arrow_drawn(s));
    }
}

} // verus!
