use vstd::prelude::*;
use crate::model::runtime::runtime_view::{
    Block, Divider, Group, GroupBranch, GroupType, Note, NotePosition, Participant, ParticipantType,
    RuntimeView, Scenario, Step, StepType, target_of, blocks_at, replaced_at, opt_text, max_order_blocks,
    steps_of_blocks, steps_of_block, steps_of_branches, is_first_group, has_group, group_position,
};
use crate::utils::error::{AppError, ErrorKind, Result, fails_with};
use crate::utils::keyed::{
    Keyed, has_key, is_first_key, position_of, contains_key, lemma_first_key_unique, keys_distinct,
    lemma_push_fresh_keeps_distinct, lemma_remove_keeps_distinct,
};
use crate::utils::text::{
    to_owned_string, opt_str_to_string, opt_view, name_or_id, concat2, concat4, concat5, string_views,
    same_text, decimal, decimal_string,
};

verus! {

/// Operations that edit a runtime view.
pub struct RuntimeOperations;

/// The parts of a view that an edit keeps, and the modification time that a
/// successful edit renews from the clock, which never reads before 1970.
pub open spec fn same_view_header(a: RuntimeView, b: RuntimeView) -> bool {
    &&& a.version == b.version
    &&& a.kind == b.kind
    &&& a.metadata.title == b.metadata.title
    &&& a.metadata.description == b.metadata.description
    &&& a.metadata.created_at == b.metadata.created_at
    &&& b.metadata.updated_at >= 0
}

/// `b` holds the same scenarios as `a`, under the same header.
pub open spec fn same_view(a: RuntimeView, b: RuntimeView) -> bool {
    &&& a.version == b.version
    &&& a.kind == b.kind
    &&& a.metadata.title == b.metadata.title
    &&& a.metadata.description == b.metadata.description
    &&& a.metadata.created_at == b.metadata.created_at
    &&& a.metadata.updated_at == b.metadata.updated_at
    &&& a.scenarios@ == b.scenarios@
}

/// The first scenario with ID `sid` (meaningful when there is one).
pub open spec fn the_scenario(v: RuntimeView, sid: Seq<char>) -> Scenario {
    v.scenarios@[choose|i: int| is_first_key(v.scenarios@, sid, i)]
}

/// `v1` is `v0` with only its first scenario `sid` replaced, by `s1`.
pub open spec fn edits_scenario(v0: RuntimeView, v1: RuntimeView, sid: Seq<char>, s1: Scenario) -> bool {
    &&& same_view_header(v0, v1)
    &&& exists|i: int| is_first_key(v0.scenarios@, sid, i) && v1.scenarios@ == v0.scenarios@.update(i, s1)
}

/// Two scenarios agree on everything but their blocks.
pub open spec fn same_but_blocks(a: Scenario, b: Scenario) -> bool {
    &&& a.id == b.id
    &&& a.name == b.name
    &&& a.description == b.description
    &&& a.participants == b.participants
    &&& a.notes == b.notes
    &&& a.dividers == b.dividers
}

/// Two scenarios agree on their ID, name and description.
pub open spec fn same_scenario_header(a: Scenario, b: Scenario) -> bool {
    &&& a.id == b.id
    &&& a.name == b.name
    &&& a.description == b.description
}

/// `st` is a step with exactly these fields.
pub open spec fn step_is(
    st: Step,
    order: int,
    from: Seq<char>,
    to: Seq<char>,
    message: Seq<char>,
    step_type: StepType,
    protocol: Option<Seq<char>>,
    color: Option<Seq<char>>,
    activate_target: Option<bool>,
) -> bool {
    &&& st.order == order
    &&& st.from@ == from
    &&& st.to@ == to
    &&& st.message@ == message
    &&& st.step_type == step_type
    &&& opt_view(st.protocol) == protocol
    &&& opt_view(st.color) == color
    &&& st.activate_target == activate_target
}

/// `g` is a group of this type and label, without blocks of its own and with
/// one empty branch per label, in order.
pub open spec fn group_is(g: Group, group_type: GroupType, label: Seq<char>, branches: Seq<Seq<char>>) -> bool {
    &&& g.group_type == group_type
    &&& g.label@ == label
    &&& g.blocks@.len() == 0
    &&& g.branches@.len() == branches.len()
    &&& forall|k: int| 0 <= k < branches.len() ==> {
        &&& #[trigger] g.branches@[k].label@ == branches[k]
        &&& g.branches@[k].blocks@.len() == 0
    }
}

/// The message when a step or group names a group or branch that cannot take it.
pub open spec fn placement_error(
    what: Seq<char>,
    sid: Seq<char>,
    group_label: Option<Seq<char>>,
    branch_label: Option<Seq<char>>,
    r: Result<()>,
) -> bool {
    match (group_label, branch_label) {
        (Some(gl), Some(bl)) => fails_with(
            r,
            ErrorKind::ElementNotFound,
            "group '"@ + gl + "' branch '"@ + bl + "' in scenario: "@ + sid,
        ),
        (Some(gl), None) => fails_with(
            r,
            ErrorKind::InvalidOperation,
            "cannot add "@ + what + " to alt group '"@ + gl + "' without specifying a branch"@,
        ),
        (None, _) => fails_with(r, ErrorKind::ElementNotFound, "scenario: "@ + sid),
    }
}

/// Whether a step sends from or to participant `e`.
pub open spec fn refers_to(s: Step, e: Seq<char>) -> bool {
    s.from@ == e || s.to@ == e
}

/// `bs1` is `bs0` without the steps that refer to `e`, at any depth; groups
/// keep their place, type and label.
pub open spec fn purged_blocks(bs0: Seq<Block>, bs1: Seq<Block>, e: Seq<char>) -> bool
    decreases bs0,
{
    if bs0.len() == 0 {
        bs1.len() == 0
    } else {
        match bs0.last() {
            Block::Step(s) => if refers_to(s, e) {
                purged_blocks(bs0.drop_last(), bs1, e)
            } else {
                &&& bs1.len() > 0
                &&& bs1.last() == bs0.last()
                &&& purged_blocks(bs0.drop_last(), bs1.drop_last(), e)
            },
            Block::Group(_) => {
                &&& bs1.len() > 0
                &&& purged_block(bs0.last(), bs1.last(), e)
                &&& purged_blocks(bs0.drop_last(), bs1.drop_last(), e)
            },
        }
    }
}

/// A group block `b1` is group `b0` with its steps that refer to `e` purged:
/// through its branches when it has some, through its own blocks otherwise.
pub open spec fn purged_block(b0: Block, b1: Block, e: Seq<char>) -> bool
    decreases b0,
{
    match b0 {
        Block::Step(_) => b1 == b0,
        Block::Group(g) => {
            &&& b1 is Group
            &&& ({
                let g2 = b1->Group_0;
                &&& g2.group_type == g.group_type
                &&& g2.label == g.label
                &&& if g.branches@.len() == 0 {
                    g2.branches == g.branches && purged_blocks(g.blocks@, g2.blocks@, e)
                } else {
                    g2.blocks == g.blocks && purged_branches(g.branches@, g2.branches@, e)
                }
            })
        },
    }
}

/// Branches `brs1` are `brs0` with their steps that refer to `e` purged.
pub open spec fn purged_branches(brs0: Seq<GroupBranch>, brs1: Seq<GroupBranch>, e: Seq<char>) -> bool
    decreases brs0,
{
    if brs0.len() == 0 {
        brs1.len() == 0
    } else {
        &&& brs1.len() > 0
        &&& brs1.last().label == brs0.last().label
        &&& purged_blocks(brs0.last().blocks@, brs1.last().blocks@, e)
        &&& purged_branches(brs0.drop_last(), brs1.drop_last(), e)
    }
}

/// Whether block `b` is a step with the given order.
pub open spec fn is_step_with_order(b: Block, order: u32) -> bool {
    b matches Block::Step(s) && s.order == order
}

/// `i` is the first block that is a step with the given order.
pub open spec fn is_first_step(bs: Seq<Block>, order: u32, i: int) -> bool {
    &&& 0 <= i < bs.len()
    &&& is_step_with_order(bs[i], order)
    &&& forall|j: int| 0 <= j < i ==> !is_step_with_order(#[trigger] bs[j], order)
}

/// Whether some block is a step with the given order.
pub open spec fn has_step(bs: Seq<Block>, order: u32) -> bool {
    exists|i: int| 0 <= i < bs.len() && is_step_with_order(#[trigger] bs[i], order)
}

/// The position of the first block that is a step with the given order.
fn step_position(blocks: &Vec<Block>, order: u32) -> (r: Option<usize>)
    ensures
        match r {
            Some(i) => is_first_step(blocks@, order, i as int),
            None => !has_step(blocks@, order),
        },
{
    let mut i: usize = 0;
    while i < blocks.len()
        invariant
            i <= blocks.len(),
            forall|j: int| 0 <= j < i ==> !is_step_with_order(#[trigger] blocks@[j], order),
        decreases blocks.len() - i,
    {
        match &blocks[i] {
            Block::Step(s) => {
                if s.order == order {
                    return Some(i);
                }
            },
            Block::Group(_) => {},
        }
        i = i + 1;
    }
    None
}

/// What `add_participant` does.
pub open spec fn add_participant_post(
    v0: RuntimeView,
    v1: RuntimeView,
    sid: Seq<char>,
    element_id: Seq<char>,
    participant_type: ParticipantType,
    alias: Option<Seq<char>>,
    color: Option<Seq<char>>,
    r: Result<()>,
) -> bool {
    let s0 = the_scenario(v0, sid);
    &&& !has_key(v0.scenarios@, sid) ==> fails_with(r, ErrorKind::ElementNotFound, "scenario: "@ + sid)
    &&& has_key(v0.scenarios@, sid) && has_key(s0.participants@, element_id) ==> fails_with(
        r,
        ErrorKind::ElementAlreadyExists,
        "participant: "@ + element_id + " in scenario: "@ + sid,
    )
    &&& r is Ok <==> has_key(v0.scenarios@, sid) && !has_key(s0.participants@, element_id)
    &&& r is Err ==> same_view(v0, v1)
    &&& r is Ok ==> exists|s1: Scenario| {
        &&& edits_scenario(v0, v1, sid, s1)
        &&& same_scenario_header(s0, s1)
        &&& s1.blocks == s0.blocks
        &&& s1.notes == s0.notes
        &&& s1.dividers == s0.dividers
        &&& s1.participants@.len() == s0.participants@.len() + 1
        &&& s1.participants@.drop_last() == s0.participants@
        &&& ({
            let p = s1.participants@.last();
            &&& p.element_id@ == element_id
            &&& p.participant_type == participant_type
            &&& opt_view(p.alias) == alias
            &&& opt_view(p.color) == color
        })
    }
}

/// No step of `steps` refers to participant `e`.
pub open spec fn no_step_refers(steps: Seq<Step>, e: Seq<char>) -> bool {
    forall|k: int| 0 <= k < steps.len() ==> !refers_to(#[trigger] steps[k], e)
}

/// What `add_scenario` does.
pub open spec fn add_scenario_post(
    v0: RuntimeView,
    v1: RuntimeView,
    id: Seq<char>,
    name: Seq<char>,
    description: Option<Seq<char>>,
    r: Result<()>,
) -> bool {
    &&& has_key(v0.scenarios@, id) ==> fails_with(r, ErrorKind::ElementAlreadyExists, "scenario: "@ + id)
    &&& r is Ok <==> !has_key(v0.scenarios@, id)
    &&& r is Err ==> v1 == v0
    &&& r is Ok ==> {
        &&& same_view_header(v0, v1)
        &&& v1.scenarios@.len() == v0.scenarios@.len() + 1
        &&& v1.scenarios@.drop_last() == v0.scenarios@
        &&& ({
            let s = v1.scenarios@.last();
            &&& s.id@ == id
            &&& s.name@ == name
            &&& opt_view(s.description) == description
            &&& s.participants@.len() == 0
            &&& s.blocks@.len() == 0
            &&& s.notes@.len() == 0
            &&& s.dividers@.len() == 0
        })
    }
}

/// What `remove_scenario` does.
pub open spec fn remove_scenario_post(v0: RuntimeView, v1: RuntimeView, id: Seq<char>, r: Result<()>) -> bool {
    &&& !has_key(v0.scenarios@, id) ==> fails_with(r, ErrorKind::ElementNotFound, "scenario: "@ + id)
    &&& r is Ok <==> has_key(v0.scenarios@, id)
    &&& r is Err ==> v1 == v0
    &&& r is Ok ==> {
        &&& same_view_header(v0, v1)
        &&& exists|i: int| is_first_key(v0.scenarios@, id, i) && v1.scenarios@ == v0.scenarios@.remove(i)
    }
}

/// What `add_step` does: the step gets the next order after the largest in
/// the scenario and goes last at the place its group and branch labels select.
pub open spec fn add_step_post(
    v0: RuntimeView,
    v1: RuntimeView,
    sid: Seq<char>,
    from: Seq<char>,
    to: Seq<char>,
    message: Seq<char>,
    step_type: StepType,
    protocol: Option<Seq<char>>,
    color: Option<Seq<char>>,
    activate_target: Option<bool>,
    group_label: Option<Seq<char>>,
    branch_label: Option<Seq<char>>,
    r: Result<()>,
) -> bool {
    let s0 = the_scenario(v0, sid);
    let t = target_of(s0.blocks@, group_label, branch_label);
    &&& !has_key(v0.scenarios@, sid) ==> fails_with(r, ErrorKind::ElementNotFound, "scenario: "@ + sid)
    &&& has_key(v0.scenarios@, sid) && t is Missing ==> placement_error("step"@, sid, group_label, branch_label, r)
    &&& r is Ok <==> has_key(v0.scenarios@, sid) && !(t is Missing)
    &&& r is Err ==> same_view(v0, v1)
    &&& r is Ok ==> exists|s1: Scenario, st: Step| {
        &&& edits_scenario(v0, v1, sid, s1)
        &&& same_but_blocks(s0, s1)
        &&& step_is(st, max_order_blocks(s0.blocks@) + 1, from, to, message, step_type, protocol, color, activate_target)
        &&& replaced_at(s0.blocks@, s1.blocks@, t, blocks_at(s0.blocks@, t).push(Block::Step(st)))
    }
}

/// What `add_group` does: the group goes last at the place its parent labels select.
pub open spec fn add_group_post(
    v0: RuntimeView,
    v1: RuntimeView,
    sid: Seq<char>,
    group_type: GroupType,
    label: Seq<char>,
    branches: Seq<Seq<char>>,
    parent_group_label: Option<Seq<char>>,
    parent_branch_label: Option<Seq<char>>,
    r: Result<()>,
) -> bool {
    let s0 = the_scenario(v0, sid);
    let t = target_of(s0.blocks@, parent_group_label, parent_branch_label);
    &&& !has_key(v0.scenarios@, sid) ==> fails_with(r, ErrorKind::ElementNotFound, "scenario: "@ + sid)
    &&& has_key(v0.scenarios@, sid) && t is Missing
        ==> placement_error("group"@, sid, parent_group_label, parent_branch_label, r)
    &&& r is Ok <==> has_key(v0.scenarios@, sid) && !(t is Missing)
    &&& r is Err ==> same_view(v0, v1)
    &&& r is Ok ==> exists|s1: Scenario, g: Group| {
        &&& edits_scenario(v0, v1, sid, s1)
        &&& same_but_blocks(s0, s1)
        &&& group_is(g, group_type, label, branches)
        &&& replaced_at(s0.blocks@, s1.blocks@, t, blocks_at(s0.blocks@, t).push(Block::Group(g)))
    }
}

/// What `add_note` does.
pub open spec fn add_note_post(
    v0: RuntimeView,
    v1: RuntimeView,
    sid: Seq<char>,
    position: NotePosition,
    target: Seq<char>,
    text: Seq<char>,
    r: Result<()>,
) -> bool {
    let s0 = the_scenario(v0, sid);
    &&& !has_key(v0.scenarios@, sid) ==> fails_with(r, ErrorKind::ElementNotFound, "scenario: "@ + sid)
    &&& r is Ok <==> has_key(v0.scenarios@, sid)
    &&& r is Err ==> v1 == v0
    &&& r is Ok ==> exists|s1: Scenario| {
        &&& edits_scenario(v0, v1, sid, s1)
        &&& same_scenario_header(s0, s1)
        &&& s1.participants == s0.participants
        &&& s1.blocks == s0.blocks
        &&& s1.dividers == s0.dividers
        &&& s1.notes@.len() == s0.notes@.len() + 1
        &&& s1.notes@.drop_last() == s0.notes@
        &&& s1.notes@.last().position == position
        &&& s1.notes@.last().target@ == target
        &&& s1.notes@.last().text@ == text
    }
}

/// What `add_divider` does.
pub open spec fn add_divider_post(
    v0: RuntimeView,
    v1: RuntimeView,
    sid: Seq<char>,
    label: Seq<char>,
    after_order: u32,
    r: Result<()>,
) -> bool {
    let s0 = the_scenario(v0, sid);
    &&& !has_key(v0.scenarios@, sid) ==> fails_with(r, ErrorKind::ElementNotFound, "scenario: "@ + sid)
    &&& r is Ok <==> has_key(v0.scenarios@, sid)
    &&& r is Err ==> v1 == v0
    &&& r is Ok ==> exists|s1: Scenario| {
        &&& edits_scenario(v0, v1, sid, s1)
        &&& same_scenario_header(s0, s1)
        &&& s1.participants == s0.participants
        &&& s1.blocks == s0.blocks
        &&& s1.notes == s0.notes
        &&& s1.dividers@.len() == s0.dividers@.len() + 1
        &&& s1.dividers@.drop_last() == s0.dividers@
        &&& s1.dividers@.last().label@ == label
        &&& s1.dividers@.last().after_order == after_order
    }
}

/// What `remove_participant` does: the first participant with the element ID
/// goes, and so does every step that sends from or to it.
pub open spec fn remove_participant_post(v0: RuntimeView, v1: RuntimeView, sid: Seq<char>, e: Seq<char>, r: Result<()>) -> bool {
    let s0 = the_scenario(v0, sid);
    &&& !has_key(v0.scenarios@, sid) ==> fails_with(r, ErrorKind::ElementNotFound, "scenario: "@ + sid)
    &&& has_key(v0.scenarios@, sid) && !has_key(s0.participants@, e) ==> fails_with(
        r,
        ErrorKind::ElementNotFound,
        "participant: "@ + e + " in scenario: "@ + sid,
    )
    &&& r is Ok <==> has_key(v0.scenarios@, sid) && has_key(s0.participants@, e)
    &&& r is Err ==> same_view(v0, v1)
    &&& r is Ok ==> exists|s1: Scenario| {
        &&& edits_scenario(v0, v1, sid, s1)
        &&& same_scenario_header(s0, s1)
        &&& s1.notes == s0.notes
        &&& s1.dividers == s0.dividers
        &&& exists|j: int| is_first_key(s0.participants@, e, j) && s1.participants@ == s0.participants@.remove(j)
        &&& purged_blocks(s0.blocks@, s1.blocks@, e)
        &&& no_step_refers(steps_of_blocks(s1.blocks@), e)
    }
}

/// What `remove_step` does: the first step with the order goes from the
/// place that the labels select.
pub open spec fn remove_step_post(
    v0: RuntimeView,
    v1: RuntimeView,
    sid: Seq<char>,
    order: u32,
    group_label: Option<Seq<char>>,
    branch_label: Option<Seq<char>>,
    r: Result<()>,
) -> bool {
    let s0 = the_scenario(v0, sid);
    let t = target_of(s0.blocks@, group_label, branch_label);
    let at = blocks_at(s0.blocks@, t);
    &&& !has_key(v0.scenarios@, sid) ==> fails_with(r, ErrorKind::ElementNotFound, "scenario: "@ + sid)
    &&& has_key(v0.scenarios@, sid) && t is Missing
        ==> fails_with(r, ErrorKind::ElementNotFound, "target location in scenario: "@ + sid)
    &&& has_key(v0.scenarios@, sid) && !(t is Missing) && !has_step(at, order) ==> fails_with(
        r,
        ErrorKind::ElementNotFound,
        "step with order "@ + decimal(order as nat) + " in scenario: "@ + sid,
    )
    &&& r is Ok <==> has_key(v0.scenarios@, sid) && !(t is Missing) && has_step(at, order)
    &&& r is Err ==> same_view(v0, v1)
    &&& r is Ok ==> exists|s1: Scenario, k: int| {
        &&& edits_scenario(v0, v1, sid, s1)
        &&& same_but_blocks(s0, s1)
        &&& is_first_step(at, order, k)
        &&& replaced_at(s0.blocks@, s1.blocks@, t, at.remove(k))
    }
}

/// What `remove_group` does: the first group with the label goes (with
/// everything in it) from the place that the parent labels select.
pub open spec fn remove_group_post(
    v0: RuntimeView,
    v1: RuntimeView,
    sid: Seq<char>,
    label: Seq<char>,
    parent_group_label: Option<Seq<char>>,
    parent_branch_label: Option<Seq<char>>,
    r: Result<()>,
) -> bool {
    let s0 = the_scenario(v0, sid);
    let t = target_of(s0.blocks@, parent_group_label, parent_branch_label);
    let at = blocks_at(s0.blocks@, t);
    &&& !has_key(v0.scenarios@, sid) ==> fails_with(r, ErrorKind::ElementNotFound, "scenario: "@ + sid)
    &&& has_key(v0.scenarios@, sid) && t is Missing
        ==> fails_with(r, ErrorKind::ElementNotFound, "target location in scenario: "@ + sid)
    &&& has_key(v0.scenarios@, sid) && !(t is Missing) && !has_group(at, label) ==> fails_with(
        r,
        ErrorKind::ElementNotFound,
        "group '"@ + label + "' in scenario: "@ + sid,
    )
    &&& r is Ok <==> has_key(v0.scenarios@, sid) && !(t is Missing) && has_group(at, label)
    &&& r is Err ==> same_view(v0, v1)
    &&& r is Ok ==> exists|s1: Scenario, k: int| {
        &&& edits_scenario(v0, v1, sid, s1)
        &&& same_but_blocks(s0, s1)
        &&& is_first_group(at, label, k)
        &&& replaced_at(s0.blocks@, s1.blocks@, t, at.remove(k))
    }
}

/// What `remove_note` does.
pub open spec fn remove_note_post(v0: RuntimeView, v1: RuntimeView, sid: Seq<char>, index: usize, r: Result<()>) -> bool {
    let s0 = the_scenario(v0, sid);
    &&& !has_key(v0.scenarios@, sid) ==> fails_with(r, ErrorKind::ElementNotFound, "scenario: "@ + sid)
    &&& has_key(v0.scenarios@, sid) && index >= s0.notes@.len() ==> fails_with(
        r,
        ErrorKind::ElementNotFound,
        "note index "@ + decimal(index as nat) + " in scenario: "@ + sid,
    )
    &&& r is Ok <==> has_key(v0.scenarios@, sid) && index < s0.notes@.len()
    &&& r is Err ==> same_view(v0, v1)
    &&& r is Ok ==> exists|s1: Scenario| {
        &&& edits_scenario(v0, v1, sid, s1)
        &&& same_scenario_header(s0, s1)
        &&& s1.participants == s0.participants
        &&& s1.blocks == s0.blocks
        &&& s1.dividers == s0.dividers
        &&& s1.notes@ == s0.notes@.remove(index as int)
    }
}

/// What `remove_divider` does.
pub open spec fn remove_divider_post(v0: RuntimeView, v1: RuntimeView, sid: Seq<char>, index: usize, r: Result<()>) -> bool {
    let s0 = the_scenario(v0, sid);
    &&& !has_key(v0.scenarios@, sid) ==> fails_with(r, ErrorKind::ElementNotFound, "scenario: "@ + sid)
    &&& has_key(v0.scenarios@, sid) && index >= s0.dividers@.len() ==> fails_with(
        r,
        ErrorKind::ElementNotFound,
        "divider index "@ + decimal(index as nat) + " in scenario: "@ + sid,
    )
    &&& r is Ok <==> has_key(v0.scenarios@, sid) && index < s0.dividers@.len()
    &&& r is Err ==> same_view(v0, v1)
    &&& r is Ok ==> exists|s1: Scenario| {
        &&& edits_scenario(v0, v1, sid, s1)
        &&& same_scenario_header(s0, s1)
        &&& s1.participants == s0.participants
        &&& s1.blocks == s0.blocks
        &&& s1.notes == s0.notes
        &&& s1.dividers@ == s0.dividers@.remove(index as int)
    }
}

/// Steps of a purged tree never refer to the purged participant.
proof fn lemma_purged_blocks_clean(bs0: Seq<Block>, bs1: Seq<Block>, e: Seq<char>)
    requires
        purged_blocks(bs0, bs1, e),
    ensures
        no_step_refers(steps_of_blocks(bs1), e),
    decreases bs0,
{
    if bs0.len() == 0 {
        assert(steps_of_blocks(bs1) =~= Seq::<Step>::empty());
    } else {
        match bs0.last() {
            Block::Step(st) => {
                if refers_to(st, e) {
                    lemma_purged_blocks_clean(bs0.drop_last(), bs1, e);
                } else {
                    lemma_purged_blocks_clean(bs0.drop_last(), bs1.drop_last(), e);
                    let a = steps_of_blocks(bs1.drop_last());
                    let b = steps_of_block(bs1.last());
                    assert(b =~= seq![st]);
                    assert(steps_of_blocks(bs1) == a + b);
                    assert forall|k: int| 0 <= k < (a + b).len() implies !refers_to(#[trigger] (a + b)[k], e) by {
                        if k < a.len() {
                            assert((a + b)[k] == a[k]);
                        } else {
                            assert((a + b)[k] == b[k - a.len()]);
                        }
                    }
                }
            },
            Block::Group(_) => {
                lemma_purged_blocks_clean(bs0.drop_last(), bs1.drop_last(), e);
                lemma_purged_block_clean(bs0.last(), bs1.last(), e);
                let a = steps_of_blocks(bs1.drop_last());
                let b = steps_of_block(bs1.last());
                assert(steps_of_blocks(bs1) == a + b);
                assert forall|k: int| 0 <= k < (a + b).len() implies !refers_to(#[trigger] (a + b)[k], e) by {
                    if k < a.len() {
                        assert((a + b)[k] == a[k]);
                    } else {
                        assert((a + b)[k] == b[k - a.len()]);
                    }
                }
            },
        }
    }
}

/// Steps of a purged group never refer to the purged participant.
proof fn lemma_purged_block_clean(b0: Block, b1: Block, e: Seq<char>)
    requires
        purged_block(b0, b1, e),
        b0 is Group,
    ensures
        no_step_refers(steps_of_block(b1), e),
    decreases b0,
{
    let g = b0->Group_0;
    let g2 = b1->Group_0;
    if g.branches@.len() == 0 {
        lemma_purged_blocks_clean(g.blocks@, g2.blocks@, e);
    } else {
        lemma_purged_branches_clean(g.branches@, g2.branches@, e);
    }
}

/// Steps of purged branches never refer to the purged participant.
proof fn lemma_purged_branches_clean(brs0: Seq<GroupBranch>, brs1: Seq<GroupBranch>, e: Seq<char>)
    requires
        purged_branches(brs0, brs1, e),
    ensures
        no_step_refers(steps_of_branches(brs1), e),
        brs1.len() == brs0.len(),
    decreases brs0,
{
    if brs0.len() == 0 {
        assert(steps_of_branches(brs1) =~= Seq::<Step>::empty());
    } else {
        lemma_purged_branches_clean(brs0.drop_last(), brs1.drop_last(), e);
        lemma_purged_blocks_clean(brs0.last().blocks@, brs1.last().blocks@, e);
        let a = steps_of_branches(brs1.drop_last());
        let b = steps_of_blocks(brs1.last().blocks@);
        assert(steps_of_branches(brs1) == a + b);
        assert forall|k: int| 0 <= k < (a + b).len() implies !refers_to(#[trigger] (a + b)[k], e) by {
            if k < a.len() {
                assert((a + b)[k] == a[k]);
            } else {
                assert((a + b)[k] == b[k - a.len()]);
            }
        }
    }
}

/// One empty branch per label, in order.
fn branches_from(labels: Vec<String>) -> (r: Vec<GroupBranch>)
    ensures
        r@.len() == labels@.len(),
        forall|k: int| 0 <= k < labels@.len() ==> {
            &&& #[trigger] r@[k].label@ == labels@[k]@
            &&& r@[k].blocks@.len() == 0
        },
{
    let ghost orig = labels@;
    let mut rest = labels;
    let mut out: Vec<GroupBranch> = Vec::new();
    while rest.len() > 0
        invariant
            out@.len() + rest@.len() == orig.len(),
            rest@ == orig.skip(out@.len() as int),
            forall|k: int| 0 <= k < out@.len() ==> {
                &&& #[trigger] out@[k].label@ == orig[k]@
                &&& out@[k].blocks@.len() == 0
            },
        decreases rest@.len(),
    {
        let ghost n = out@.len() as int;
        let ghost rs = rest@;
        let l = rest.remove(0);
        assert(l == orig[n]);
        assert(rest@ =~= orig.skip(n + 1));
        out.push(GroupBranch { label: l, blocks: Vec::new() });
    }
    out
}

impl RuntimeOperations {
    /// Adds a participant (a reference to a model element) to a scenario.
    pub fn add_participant(
        view: &mut RuntimeView,
        scenario_id: &str,
        element_id: &str,
        participant_type: ParticipantType,
        alias: Option<&str>,
        color: Option<&str>,
    ) -> (r: Result<()>)
        ensures
            add_participant_post(
                *old(view),
                *final(view),
                scenario_id@,
                element_id@,
                participant_type,
                opt_text(alias),
                opt_text(color),
                r,
            ),
    {
        let ghost v0 = *view;
        let scenario = match view.find_scenario_mut(scenario_id) {
            Some(s) => s,
            None => {
                return Err(AppError::ElementNotFound(concat2("scenario: ", scenario_id)));
            },
        };
        let ghost i = choose|i: int| is_first_key(v0.scenarios@, scenario_id@, i) && *scenario == v0.scenarios@[i]
            && after_borrow(view).scenarios@ == v0.scenarios@.update(i, *final(scenario));
        proof {
            lemma_first_key_unique(v0.scenarios@, scenario_id@, i);
            assert(v0.scenarios@.update(i, v0.scenarios@[i]) =~= v0.scenarios@);
        }
        let key = to_owned_string(element_id);
        if contains_key(&scenario.participants, &key) {
            return Err(AppError::ElementAlreadyExists(concat4(
                "participant: ",
                element_id,
                " in scenario: ",
                scenario_id,
            )));
        }
        let ghost before = scenario.participants@;
        scenario.participants.push(Participant {
            element_id: key,
            participant_type,
            alias: opt_str_to_string(alias),
            color: opt_str_to_string(color),
        });
        assert(scenario.participants@.drop_last() =~= before);
        view.touch();
        let ghost s1 = view.scenarios@[i];
        assert(edits_scenario(v0, *view, scenario_id@, s1));
        assert(same_scenario_header(v0.scenarios@[i], s1));
        assert(s1.blocks == v0.scenarios@[i].blocks);
        assert(s1.participants@.drop_last() == v0.scenarios@[i].participants@);
        Ok(())
    }

    /// Adds a scenario; its name defaults to its ID.
    pub fn add_scenario(
        view: &mut RuntimeView,
        id: &str,
        name: Option<&str>,
        description: Option<&str>,
    ) -> (r: Result<()>)
        ensures
            add_scenario_post(*old(view), *final(view), id@, name_or_id(name, id), opt_text(description), r),
            keys_distinct(old(view).scenarios@) ==> keys_distinct(final(view).scenarios@),
    {
        let key = to_owned_string(id);
        if contains_key(&view.scenarios, &key) {
            return Err(AppError::ElementAlreadyExists(concat2("scenario: ", id)));
        }
        let shown = match name {
            Some(n) => n,
            None => id,
        };
        let ghost before = view.scenarios@;
        view.scenarios.push(Scenario {
            id: key,
            name: to_owned_string(shown),
            description: opt_str_to_string(description),
            participants: Vec::new(),
            blocks: Vec::new(),
            notes: Vec::new(),
            dividers: Vec::new(),
        });
        assert(view.scenarios@.drop_last() =~= before);
        view.touch();
        proof {
            if keys_distinct(before) {
                lemma_push_fresh_keeps_distinct(before, view.scenarios@);
            }
        }
        Ok(())
    }

    /// Adds a step, numbered one past the largest step order of the scenario,
    /// at the top level or into a group (and, for an alt group, a branch).
    pub fn add_step(
        view: &mut RuntimeView,
        scenario_id: &str,
        from: &str,
        to: &str,
        message: &str,
        step_type: StepType,
        protocol: Option<&str>,
        color: Option<&str>,
        activate_target: Option<bool>,
        group_label: Option<&str>,
        branch_label: Option<&str>,
    ) -> (r: Result<()>)
        requires
            has_key(old(view).scenarios@, scenario_id@)
                ==> max_order_blocks(the_scenario(*old(view), scenario_id@).blocks@) < u32::MAX,
        ensures
            add_step_post(
                *old(view),
                *final(view),
                scenario_id@,
                from@,
                to@,
                message@,
                step_type,
                opt_text(protocol),
                opt_text(color),
                activate_target,
                opt_text(group_label),
                opt_text(branch_label),
                r,
            ),
    {
        let ghost v0 = *view;
        let scenario = match view.find_scenario_mut(scenario_id) {
            Some(s) => s,
            None => {
                return Err(AppError::ElementNotFound(concat2("scenario: ", scenario_id)));
            },
        };
        let ghost i = choose|i: int| is_first_key(v0.scenarios@, scenario_id@, i) && *scenario == v0.scenarios@[i]
            && after_borrow(view).scenarios@ == v0.scenarios@.update(i, *final(scenario));
        proof {
            lemma_first_key_unique(v0.scenarios@, scenario_id@, i);
            assert(v0.scenarios@.update(i, v0.scenarios@[i]) =~= v0.scenarios@);
        }
        let order = scenario.max_step_order() + 1;
        let step = Step {
            order,
            from: to_owned_string(from),
            to: to_owned_string(to),
            message: to_owned_string(message),
            step_type,
            protocol: opt_str_to_string(protocol),
            color: opt_str_to_string(color),
            activate_target,
        };
        let ghost st = step;
        match scenario.get_target_blocks_mut(group_label, branch_label) {
            Some(target) => {
                target.push(Block::Step(step));
            },
            None => {
                return Err(Self::placement_failure("step", scenario_id, group_label, branch_label));
            },
        }
        view.touch();
        let ghost s1 = view.scenarios@[i];
        assert(edits_scenario(v0, *view, scenario_id@, s1));
        assert(same_but_blocks(v0.scenarios@[i], s1));
        assert(step_is(st, max_order_blocks(v0.scenarios@[i].blocks@) + 1, from@, to@, message@, step_type,
            opt_text(protocol), opt_text(color), activate_target));
        Ok(())
    }

    /// The error for a group or branch that cannot take a new step or group.
    fn placement_failure(what: &str, scenario_id: &str, group_label: Option<&str>, branch_label: Option<&str>) -> (e: AppError)
        ensures
            placement_error(what@, scenario_id@, opt_text(group_label), opt_text(branch_label), Err(e)),
    {
        match group_label {
            Some(gl) => match branch_label {
                Some(bl) => {
                    let head = concat5("group '", gl, "' branch '", bl, "' in scenario: ");
                    AppError::ElementNotFound(concat2(head.as_str(), scenario_id))
                },
                None => {
                    let head = concat4("cannot add ", what, " to alt group '", gl);
                    AppError::InvalidOperation(concat2(head.as_str(), "' without specifying a branch"))
                },
            },
            None => AppError::ElementNotFound(concat2("scenario: ", scenario_id)),
        }
    }

    /// Adds a group (with one empty branch per label) at the top level or into
    /// a parent group (and, for an alt parent, a branch).
    pub fn add_group(
        view: &mut RuntimeView,
        scenario_id: &str,
        group_type: GroupType,
        label: &str,
        branches: Vec<String>,
        parent_group_label: Option<&str>,
        parent_branch_label: Option<&str>,
    ) -> (r: Result<()>)
        ensures
            add_group_post(
                *old(view),
                *final(view),
                scenario_id@,
                group_type,
                label@,
                string_views(branches@),
                opt_text(parent_group_label),
                opt_text(parent_branch_label),
                r,
            ),
    {
        let ghost v0 = *view;
        let ghost labels = string_views(branches@);
        let scenario = match view.find_scenario_mut(scenario_id) {
            Some(s) => s,
            None => {
                return Err(AppError::ElementNotFound(concat2("scenario: ", scenario_id)));
            },
        };
        let ghost i = choose|i: int| is_first_key(v0.scenarios@, scenario_id@, i) && *scenario == v0.scenarios@[i]
            && after_borrow(view).scenarios@ == v0.scenarios@.update(i, *final(scenario));
        proof {
            lemma_first_key_unique(v0.scenarios@, scenario_id@, i);
            assert(v0.scenarios@.update(i, v0.scenarios@[i]) =~= v0.scenarios@);
        }
        let group = Group {
            group_type,
            label: to_owned_string(label),
            blocks: Vec::new(),
            branches: branches_from(branches),
        };
        let ghost g = group;
        assert(group_is(g, group_type, label@, labels));
        match scenario.get_target_blocks_mut(parent_group_label, parent_branch_label) {
            Some(target) => {
                target.push(Block::Group(group));
            },
            None => {
                return Err(Self::placement_failure("group", scenario_id, parent_group_label, parent_branch_label));
            },
        }
        view.touch();
        let ghost s1 = view.scenarios@[i];
        assert(edits_scenario(v0, *view, scenario_id@, s1));
        assert(same_but_blocks(v0.scenarios@[i], s1));
        Ok(())
    }

    /// Adds a note to a scenario.
    pub fn add_note(
        view: &mut RuntimeView,
        scenario_id: &str,
        position: NotePosition,
        target: &str,
        text: &str,
    ) -> (r: Result<()>)
        ensures
            add_note_post(*old(view), *final(view), scenario_id@, position, target@, text@, r),
    {
        let ghost v0 = *view;
        let scenario = match view.find_scenario_mut(scenario_id) {
            Some(s) => s,
            None => {
                return Err(AppError::ElementNotFound(concat2("scenario: ", scenario_id)));
            },
        };
        let ghost i = choose|i: int| is_first_key(v0.scenarios@, scenario_id@, i) && *scenario == v0.scenarios@[i]
            && after_borrow(view).scenarios@ == v0.scenarios@.update(i, *final(scenario));
        proof {
            lemma_first_key_unique(v0.scenarios@, scenario_id@, i);
        }
        let ghost before = scenario.notes@;
        scenario.notes.push(Note { position, target: to_owned_string(target), text: to_owned_string(text) });
        assert(scenario.notes@.drop_last() =~= before);
        view.touch();
        let ghost s1 = view.scenarios@[i];
        assert(edits_scenario(v0, *view, scenario_id@, s1));
        assert(same_scenario_header(v0.scenarios@[i], s1));
        Ok(())
    }

    /// Adds a divider to a scenario.
    pub fn add_divider(view: &mut RuntimeView, scenario_id: &str, label: &str, after_order: u32) -> (r: Result<()>)
        ensures
            add_divider_post(*old(view), *final(view), scenario_id@, label@, after_order, r),
    {
        let ghost v0 = *view;
        let scenario = match view.find_scenario_mut(scenario_id) {
            Some(s) => s,
            None => {
                return Err(AppError::ElementNotFound(concat2("scenario: ", scenario_id)));
            },
        };
        let ghost i = choose|i: int| is_first_key(v0.scenarios@, scenario_id@, i) && *scenario == v0.scenarios@[i]
            && after_borrow(view).scenarios@ == v0.scenarios@.update(i, *final(scenario));
        proof {
            lemma_first_key_unique(v0.scenarios@, scenario_id@, i);
        }
        let ghost before = scenario.dividers@;
        scenario.dividers.push(Divider { label: to_owned_string(label), after_order });
        assert(scenario.dividers@.drop_last() =~= before);
        view.touch();
        let ghost s1 = view.scenarios@[i];
        assert(edits_scenario(v0, *view, scenario_id@, s1));
        assert(same_scenario_header(v0.scenarios@[i], s1));
        Ok(())
    }

    /// Removes a scenario.
    pub fn remove_scenario(view: &mut RuntimeView, id: &str) -> (r: Result<()>)
        ensures
            remove_scenario_post(*old(view), *final(view), id@, r),
            keys_distinct(old(view).scenarios@) ==> keys_distinct(final(view).scenarios@),
    {
        let key = to_owned_string(id);
        let i = match position_of(&view.scenarios, &key) {
            Some(i) => i,
            None => {
                return Err(AppError::ElementNotFound(concat2("scenario: ", id)));
            },
        };
        let ghost before = view.scenarios@;
        view.scenarios.remove(i);
        view.touch();
        proof {
            if keys_distinct(before) {
                lemma_remove_keeps_distinct(before, i as int);
            }
        }
        Ok(())
    }

    /// Removes a participant and every step that sends from or to it.
    pub fn remove_participant(view: &mut RuntimeView, scenario_id: &str, element_id: &str) -> (r: Result<()>)
        ensures
            remove_participant_post(*old(view), *final(view), scenario_id@, element_id@, r),
    {
        let ghost v0 = *view;
        let scenario = match view.find_scenario_mut(scenario_id) {
            Some(s) => s,
            None => {
                return Err(AppError::ElementNotFound(concat2("scenario: ", scenario_id)));
            },
        };
        let ghost i = choose|i: int| is_first_key(v0.scenarios@, scenario_id@, i) && *scenario == v0.scenarios@[i]
            && after_borrow(view).scenarios@ == v0.scenarios@.update(i, *final(scenario));
        proof {
            lemma_first_key_unique(v0.scenarios@, scenario_id@, i);
            assert(v0.scenarios@.update(i, v0.scenarios@[i]) =~= v0.scenarios@);
        }
        let key = to_owned_string(element_id);
        let j = match position_of(&scenario.participants, &key) {
            Some(j) => j,
            None => {
                return Err(AppError::ElementNotFound(concat4(
                    "participant: ",
                    element_id,
                    " in scenario: ",
                    scenario_id,
                )));
            },
        };
        scenario.participants.remove(j);
        Self::remove_steps_referencing_participant(&mut scenario.blocks, element_id);
        proof {
            lemma_purged_blocks_clean(v0.scenarios@[i].blocks@, scenario.blocks@, element_id@);
        }
        view.touch();
        let ghost s1 = view.scenarios@[i];
        assert(edits_scenario(v0, *view, scenario_id@, s1));
        assert(same_scenario_header(v0.scenarios@[i], s1));
        Ok(())
    }

    /// Removes the first step with the given order at the place that the
    /// labels select.
    pub fn remove_step(
        view: &mut RuntimeView,
        scenario_id: &str,
        order: u32,
        group_label: Option<&str>,
        branch_label: Option<&str>,
    ) -> (r: Result<()>)
        ensures
            remove_step_post(*old(view), *final(view), scenario_id@, order, opt_text(group_label), opt_text(branch_label), r),
    {
        let ghost v0 = *view;
        let scenario = match view.find_scenario_mut(scenario_id) {
            Some(s) => s,
            None => {
                return Err(AppError::ElementNotFound(concat2("scenario: ", scenario_id)));
            },
        };
        let ghost i = choose|i: int| is_first_key(v0.scenarios@, scenario_id@, i) && *scenario == v0.scenarios@[i]
            && after_borrow(view).scenarios@ == v0.scenarios@.update(i, *final(scenario));
        proof {
            lemma_first_key_unique(v0.scenarios@, scenario_id@, i);
            assert(v0.scenarios@.update(i, v0.scenarios@[i]) =~= v0.scenarios@);
        }
        let k = match scenario.target_blocks(group_label, branch_label) {
            Some(at) => match step_position(at, order) {
                Some(k) => k,
                None => {
                    let number = decimal_string(order as u64);
                    return Err(AppError::ElementNotFound(concat4(
                        "step with order ",
                        number.as_str(),
                        " in scenario: ",
                        scenario_id,
                    )));
                },
            },
            None => {
                return Err(AppError::ElementNotFound(concat2("target location in scenario: ", scenario_id)));
            },
        };
        let target = match scenario.get_target_blocks_mut(group_label, branch_label) {
            Some(t) => t,
            None => {
                return Err(AppError::ElementNotFound(concat2("target location in scenario: ", scenario_id)));
            },
        };
        let ghost at = target@;
        target.remove(k);
        assert(is_first_step(at, order, k as int));
        view.touch();
        let ghost s1 = view.scenarios@[i];
        assert(edits_scenario(v0, *view, scenario_id@, s1));
        assert(same_but_blocks(v0.scenarios@[i], s1));
        Ok(())
    }

    /// Removes the first group with the given label (with all it holds) at
    /// the place that the parent labels select.
    pub fn remove_group(
        view: &mut RuntimeView,
        scenario_id: &str,
        label: &str,
        parent_group_label: Option<&str>,
        parent_branch_label: Option<&str>,
    ) -> (r: Result<()>)
        ensures
            remove_group_post(
                *old(view),
                *final(view),
                scenario_id@,
                label@,
                opt_text(parent_group_label),
                opt_text(parent_branch_label),
                r,
            ),
    {
        let ghost v0 = *view;
        let scenario = match view.find_scenario_mut(scenario_id) {
            Some(s) => s,
            None => {
                return Err(AppError::ElementNotFound(concat2("scenario: ", scenario_id)));
            },
        };
        let ghost i = choose|i: int| is_first_key(v0.scenarios@, scenario_id@, i) && *scenario == v0.scenarios@[i]
            && after_borrow(view).scenarios@ == v0.scenarios@.update(i, *final(scenario));
        proof {
            lemma_first_key_unique(v0.scenarios@, scenario_id@, i);
            assert(v0.scenarios@.update(i, v0.scenarios@[i]) =~= v0.scenarios@);
        }
        let key = to_owned_string(label);
        let k = match scenario.target_blocks(parent_group_label, parent_branch_label) {
            Some(at) => match group_position(at, &key) {
                Some(k) => k,
                None => {
                    return Err(AppError::ElementNotFound(concat4("group '", label, "' in scenario: ", scenario_id)));
                },
            },
            None => {
                return Err(AppError::ElementNotFound(concat2("target location in scenario: ", scenario_id)));
            },
        };
        let target = match scenario.get_target_blocks_mut(parent_group_label, parent_branch_label) {
            Some(t) => t,
            None => {
                return Err(AppError::ElementNotFound(concat2("target location in scenario: ", scenario_id)));
            },
        };
        let ghost at = target@;
        target.remove(k);
        assert(is_first_group(at, label@, k as int));
        view.touch();
        let ghost s1 = view.scenarios@[i];
        assert(edits_scenario(v0, *view, scenario_id@, s1));
        assert(same_but_blocks(v0.scenarios@[i], s1));
        Ok(())
    }

    /// Removes the note at the given index.
    pub fn remove_note(view: &mut RuntimeView, scenario_id: &str, index: usize) -> (r: Result<()>)
        ensures
            remove_note_post(*old(view), *final(view), scenario_id@, index, r),
    {
        let ghost v0 = *view;
        let scenario = match view.find_scenario_mut(scenario_id) {
            Some(s) => s,
            None => {
                return Err(AppError::ElementNotFound(concat2("scenario: ", scenario_id)));
            },
        };
        let ghost i = choose|i: int| is_first_key(v0.scenarios@, scenario_id@, i) && *scenario == v0.scenarios@[i]
            && after_borrow(view).scenarios@ == v0.scenarios@.update(i, *final(scenario));
        proof {
            lemma_first_key_unique(v0.scenarios@, scenario_id@, i);
            assert(v0.scenarios@.update(i, v0.scenarios@[i]) =~= v0.scenarios@);
        }
        if index >= scenario.notes.len() {
            let number = decimal_string(index as u64);
            return Err(AppError::ElementNotFound(concat4("note index ", number.as_str(), " in scenario: ", scenario_id)));
        }
        scenario.notes.remove(index);
        view.touch();
        let ghost s1 = view.scenarios@[i];
        assert(edits_scenario(v0, *view, scenario_id@, s1));
        assert(same_scenario_header(v0.scenarios@[i], s1));
        Ok(())
    }

    /// Removes the divider at the given index.
    pub fn remove_divider(view: &mut RuntimeView, scenario_id: &str, index: usize) -> (r: Result<()>)
        ensures
            remove_divider_post(*old(view), *final(view), scenario_id@, index, r),
    {
        let ghost v0 = *view;
        let scenario = match view.find_scenario_mut(scenario_id) {
            Some(s) => s,
            None => {
                return Err(AppError::ElementNotFound(concat2("scenario: ", scenario_id)));
            },
        };
        let ghost i = choose|i: int| is_first_key(v0.scenarios@, scenario_id@, i) && *scenario == v0.scenarios@[i]
            && after_borrow(view).scenarios@ == v0.scenarios@.update(i, *final(scenario));
        proof {
            lemma_first_key_unique(v0.scenarios@, scenario_id@, i);
            assert(v0.scenarios@.update(i, v0.scenarios@[i]) =~= v0.scenarios@);
        }
        if index >= scenario.dividers.len() {
            let number = decimal_string(index as u64);
            return Err(AppError::ElementNotFound(concat4("divider index ", number.as_str(), " in scenario: ", scenario_id)));
        }
        scenario.dividers.remove(index);
        view.touch();
        let ghost s1 = view.scenarios@[i];
        assert(edits_scenario(v0, *view, scenario_id@, s1));
        assert(same_scenario_header(v0.scenarios@[i], s1));
        Ok(())
    }

    /// Removes, at any depth, the steps that send from or to a participant.
    fn remove_steps_referencing_participant(blocks: &mut Vec<Block>, element_id: &str)
        ensures
            purged_blocks(old(blocks)@, final(blocks)@, element_id@),
        decreases old(blocks)@,
    {
        let ghost orig = blocks@;
        let mut rest: Vec<Block> = Vec::new();
        std::mem::swap(&mut rest, blocks);
        let key = to_owned_string(element_id);
        let ghost mut n: int = 0;
        while rest.len() > 0
            invariant
                0 <= n <= orig.len(),
                rest@ == orig.skip(n),
                purged_blocks(orig.take(n), blocks@, element_id@),
                key@ == element_id@,
                orig == old(blocks)@,
            decreases rest@.len(),
        {
            let ghost rs = rest@;
            let b = rest.remove(0);
            assert(n < orig.len());
            assert(b == orig[n]);
            assert(rest@ =~= orig.skip(n + 1));
            assert(orig.take(n + 1).drop_last() =~= orig.take(n));
            assert(orig.take(n + 1).last() == orig[n]);
            let ghost before = blocks@;
            match b {
                Block::Step(st) => {
                    if !(same_text(&st.from, &key) || same_text(&st.to, &key)) {
                        blocks.push(Block::Step(st));
                        assert(blocks@.drop_last() =~= before);
                        assert(purged_blocks(orig.take(n + 1), blocks@, element_id@));
                    } else {
                        assert(refers_to(st, element_id@));
                        assert(purged_blocks(orig.take(n + 1), blocks@, element_id@));
                    }
                },
                Block::Group(g) => {
                    let ghost g0 = g;
                    let mut g = g;
                    proof {
                        assert(decreases_to!(orig => orig[n]));
                        assert(decreases_to!(orig[n] => g0));
                        assert(decreases_to!(g0 => g0.blocks));
                        assert(decreases_to!(g0.blocks => g0.blocks@));
                        assert(decreases_to!(g0 => g0.branches));
                        assert(decreases_to!(g0.branches => g0.branches@));
                    }
                    if g.branches.len() == 0 {
                        Self::remove_steps_referencing_participant(&mut g.blocks, element_id);
                    } else {
                        Self::remove_steps_in_branches(&mut g.branches, element_id);
                    }
                    let ghost g1 = g;
                    blocks.push(Block::Group(g));
                    assert(blocks@.drop_last() =~= before);
                    assert(purged_block(orig[n], Block::Group(g1), element_id@));
                    assert(purged_blocks(orig.take(n + 1), blocks@, element_id@));
                },
            }
            proof {
                n = n + 1;
            }
        }
        assert(orig.take(n) =~= orig);
    }

    /// Removes, at any depth, the steps of some branches that send from or to
    /// a participant.
    fn remove_steps_in_branches(branches: &mut Vec<GroupBranch>, element_id: &str)
        ensures
            purged_branches(old(branches)@, final(branches)@, element_id@),
        decreases old(branches)@,
    {
        let ghost orig = branches@;
        let mut rest: Vec<GroupBranch> = Vec::new();
        std::mem::swap(&mut rest, branches);
        let ghost mut n: int = 0;
        while rest.len() > 0
            invariant
                0 <= n <= orig.len(),
                rest@ == orig.skip(n),
                purged_branches(orig.take(n), branches@, element_id@),
                orig == old(branches)@,
            decreases rest@.len(),
        {
            let ghost rs = rest@;
            let br = rest.remove(0);
            assert(n < orig.len());
            assert(br == orig[n]);
            assert(rest@ =~= orig.skip(n + 1));
            assert(orig.take(n + 1).drop_last() =~= orig.take(n));
            assert(orig.take(n + 1).last() == orig[n]);
            let ghost before = branches@;
            let mut br = br;
            proof {
                assert(decreases_to!(orig => orig[n]));
                assert(decreases_to!(orig[n] => orig[n].blocks));
                assert(decreases_to!(orig[n].blocks => orig[n].blocks@));
            }
            Self::remove_steps_referencing_participant(&mut br.blocks, element_id);
            branches.push(br);
            assert(branches@.drop_last() =~= before);
            proof {
                n = n + 1;
            }
        }
        assert(orig.take(n) =~= orig);
    }
}

/// Adding a scenario and then removing it by the same ID succeeds and gives
/// back the scenarios of the view before.
pub proof fn lemma_add_then_remove_scenario(
    v0: RuntimeView,
    v1: RuntimeView,
    v2: RuntimeView,
    id: Seq<char>,
    name: Seq<char>,
    description: Option<Seq<char>>,
    r1: Result<()>,
    r2: Result<()>,
)
    requires
        add_scenario_post(v0, v1, id, name, description, r1),
        r1 is Ok,
        remove_scenario_post(v1, v2, id, r2),
    ensures
        r2 is Ok,
        v2.scenarios@ == v0.scenarios@,
{
    let n = v0.scenarios@.len() as int;
    assert(v1.scenarios@[n].key() == id);
    assert(has_key(v1.scenarios@, id));
    let i = choose|i: int| is_first_key(v1.scenarios@, id, i) && v2.scenarios@ == v1.scenarios@.remove(i);
    if i < n {
        assert(v0.scenarios@[i] == v1.scenarios@[i]);
        assert(has_key(v0.scenarios@, id));
    }
    assert(i == n);
    assert(v2.scenarios@ =~= v0.scenarios@);
}

} // verus!
