use vstd::prelude::*;
use crate::model::runtime::runtime_view::{
    Block, Group, GroupBranch, GroupType, Participant, RuntimeView, Scenario, Step, steps_of_blocks,
    steps_of_block, steps_of_branches,
};
use crate::validator::result::{ValidationResult, Severity, Finding, finding, findings_of};
use crate::validator::support::{
    gather, finding_if, report, lemma_gather_step, lemma_gather_all, upper_snake, is_upper_snake, byte_count,
    name_bytes,
};
use crate::utils::keyed::{has_key, contains_key};
use crate::utils::text::{concat2, concat3, concat4, concat5, decimal, decimal_string, is_blank};

verus! {

/// The location of a scenario in a report.
pub open spec fn scenario_location(s: Scenario) -> Seq<char> {
    "scenarios."@ + s.id@
}

/// The name `Debug` prints for a group type.
pub open spec fn group_type_name(t: GroupType) -> Seq<char> {
    match t {
        GroupType::Alt => "Alt"@,
        GroupType::Opt => "Opt"@,
        GroupType::Loop => "Loop"@,
        GroupType::Par => "Par"@,
        GroupType::Break => "Break"@,
        GroupType::Critical => "Critical"@,
        GroupType::Group => "Group"@,
    }
}

/// The findings on one step at `loc`: required fields, and references to
/// participants of the scenario.
pub open spec fn step_findings(st: Step, ps: Seq<Participant>, loc: Seq<char>) -> Seq<Finding> {
    let at = loc + ".step."@ + decimal(st.order as nat);
    let n = decimal(st.order as nat);
    finding_if(st.from@.len() == 0, finding("R003"@, "StepRequiredFields"@, "Step "@ + n + " has empty 'from'"@,
        Severity::Error, Some(at + ".from"@)))
    + finding_if(st.to@.len() == 0, finding("R003"@, "StepRequiredFields"@, "Step "@ + n + " has empty 'to'"@,
        Severity::Error, Some(at + ".to"@)))
    + finding_if(st.message@.len() == 0, finding("R003"@, "StepRequiredFields"@,
        "Step "@ + n + " has empty 'message'"@, Severity::Error, Some(at + ".message"@)))
    + finding_if(st.from@.len() != 0 && !has_key(ps, st.from@), finding("R006"@, "StepReferencesValid"@,
        "Step "@ + n + " 'from' references '"@ + st.from@ + "' which is not a participant in this scenario"@,
        Severity::Error, Some(at + ".from"@)))
    + finding_if(st.to@.len() != 0 && !has_key(ps, st.to@), finding("R006"@, "StepReferencesValid"@,
        "Step "@ + n + " 'to' references '"@ + st.to@ + "' which is not a participant in this scenario"@,
        Severity::Error, Some(at + ".to"@)))
}

/// The findings on a group's shape at `loc`: an alt group needs branches,
/// another group should have none.
pub open spec fn group_shape_findings(g: Group, loc: Seq<char>) -> Seq<Finding> {
    let at = loc + ".group."@ + g.label@;
    finding_if(g.group_type == GroupType::Alt && g.branches@.len() == 0, finding("R009"@, "AltRequiresBranches"@,
        "Alt group '"@ + g.label@ + "' must have at least one branch"@, Severity::Error, Some(at)))
    + finding_if(g.group_type != GroupType::Alt && g.branches@.len() != 0, finding("R010"@,
        "NonAltShouldNotHaveBranches"@,
        "Non-alt group '"@ + g.label@ + "' (type: "@ + group_type_name(g.group_type) + ") should not have branches"@,
        Severity::Warning, Some(at)))
}

/// The findings on a sequence of blocks at `loc`, depth first.
pub open spec fn blocks_findings(bs: Seq<Block>, ps: Seq<Participant>, loc: Seq<char>) -> Seq<Finding>
    decreases bs,
{
    if bs.len() == 0 {
        Seq::empty()
    } else {
        blocks_findings(bs.drop_last(), ps, loc) + block_findings(bs.last(), ps, loc)
    }
}

/// The findings on one block at `loc`: a group is searched through its
/// branches when it has some, through its own blocks otherwise.
pub open spec fn block_findings(b: Block, ps: Seq<Participant>, loc: Seq<char>) -> Seq<Finding>
    decreases b,
{
    match b {
        Block::Step(st) => step_findings(st, ps, loc),
        Block::Group(g) => {
            let at = loc + ".group."@ + g.label@;
            group_shape_findings(g, loc) + if g.branches@.len() == 0 {
                blocks_findings(g.blocks@, ps, at)
            } else {
                branches_findings(g.branches@, ps, at)
            }
        },
    }
}

/// The findings on the blocks of some branches of the group at `loc`.
pub open spec fn branches_findings(brs: Seq<GroupBranch>, ps: Seq<Participant>, loc: Seq<char>) -> Seq<Finding>
    decreases brs,
{
    if brs.len() == 0 {
        Seq::empty()
    } else {
        branches_findings(brs.drop_last(), ps, loc) + blocks_findings(brs.last().blocks@, ps, loc + "."@ + brs.last().label@)
    }
}

/// The orders of some steps, in order.
pub open spec fn orders_of(steps: Seq<Step>) -> Seq<u32> {
    steps.map_values(|s: Step| s.order)
}

/// Whether `v` occurs twice among `os`.
pub open spec fn repeats(os: Seq<u32>, v: u32) -> bool {
    exists|i: int, j: int| 0 <= i < j < os.len() && os[i] == v && os[j] == v
}

/// `v` is the smallest order that occurs twice.
pub open spec fn is_least_repeat(os: Seq<u32>, v: u32) -> bool {
    repeats(os, v) && forall|w: u32| repeats(os, w) ==> v <= w
}

/// The finding on a participant without an element ID.
pub open spec fn participant_findings(s: Scenario) -> spec_fn(int, Participant) -> Seq<Finding> {
    |i: int, p: Participant|
        finding_if(p.element_id@.len() == 0, finding("R002"@, "ParticipantRequiredFields"@,
            "Participant in scenario '"@ + s.id@ + "' has empty element_id"@, Severity::Error,
            Some(scenario_location(s) + ".participants."@ + p.element_id@)))
}

/// The findings on a scenario's required fields and participants.
pub open spec fn scenario_header_findings(s: Scenario) -> Seq<Finding> {
    let loc = scenario_location(s);
    finding_if(s.id@.len() == 0, finding("R001"@, "ScenarioRequiredFields"@, "Scenario ID cannot be empty"@,
        Severity::Error, Some(loc + ".id"@)))
    + finding_if(s.name@.len() == 0, finding("R001"@, "ScenarioRequiredFields"@,
        "Scenario '"@ + s.id@ + "' name cannot be empty"@, Severity::Error, Some(loc + ".name"@)))
    + gather(s.participants@, participant_findings(s))
    + finding_if(s.participants@.len() < 2, finding("R004"@, "MinParticipants"@,
        "Scenario '"@ + s.id@ + "' should have at least 2 participants (has "@ + decimal(s.participants@.len())
            + ")"@, Severity::Warning, Some(loc)))
}

/// The findings on a scenario's steps as a whole: there is one, and no
/// order occurs twice (the smallest repeated order is reported).
pub open spec fn scenario_order_findings(s: Scenario) -> Seq<Finding> {
    let loc = scenario_location(s);
    let orders = orders_of(steps_of_blocks(s.blocks@));
    finding_if(orders.len() == 0, finding("R005"@, "MinSteps"@,
        "Scenario '"@ + s.id@ + "' should have at least 1 step"@, Severity::Warning, Some(loc)))
    + (if exists|v: u32| repeats(orders, v) {
        let v = choose|v: u32| is_least_repeat(orders, v);
        seq![finding("R008"@, "StepOrderUnique"@,
            "Duplicate step order "@ + decimal(v as nat) + " in scenario '"@ + s.id@ + "'"@, Severity::Error, Some(loc))]
    } else {
        Seq::empty()
    })
}

/// The findings on a scenario's ID convention and name length.
pub open spec fn scenario_naming_findings(s: Scenario) -> Seq<Finding> {
    let loc = scenario_location(s);
    finding_if(!upper_snake(s.id@) && s.id@.len() != 0, finding("R011"@, "ScenarioIdNaming"@,
        "Scenario ID '"@ + s.id@ + "' does not follow UPPER_SNAKE_CASE convention"@, Severity::Warning,
        Some(loc + ".id"@)))
    + finding_if(byte_count(s.name@) > 50, finding("R012"@, "ScenarioNameLength"@,
        "Scenario '"@ + s.id@ + "' name exceeds 50 characters (has "@ + decimal(byte_count(s.name@) as nat) + ")"@,
        Severity::Info, Some(loc + ".name"@)))
}

/// All findings on one scenario, in the order they are checked.
pub open spec fn scenario_findings(s: Scenario) -> Seq<Finding> {
    scenario_header_findings(s)
        + blocks_findings(s.blocks@, s.participants@, scenario_location(s))
        + scenario_order_findings(s)
        + scenario_naming_findings(s)
}

/// The findings of every scenario of a view.
pub open spec fn each_scenario() -> spec_fn(int, Scenario) -> Seq<Finding> {
    |i: int, s: Scenario| scenario_findings(s)
}

/// All findings on a runtime view.
pub open spec fn runtime_view_findings(v: RuntimeView) -> Seq<Finding> {
    gather(v.scenarios@, each_scenario())
}

/// Checks a sequence of blocks at `location`, collecting step orders and
/// whether a step was seen.
fn validate_blocks(
    result: &mut ValidationResult,
    blocks: &Vec<Block>,
    participants: &Vec<Participant>,
    location: &String,
    all_orders: &mut Vec<u32>,
    has_steps: &mut bool,
)
    ensures
        old(result).wf() ==> final(result).wf(),
        findings_of(final(result).errors@) == findings_of(old(result).errors@)
            + blocks_findings(blocks@, participants@, location@),
        final(all_orders)@ == old(all_orders)@ + orders_of(steps_of_blocks(blocks@)),
        *final(has_steps) == (*old(has_steps) || steps_of_blocks(blocks@).len() > 0),
    decreases blocks,
{
    let ghost was_wf = result.wf();
    let ghost base = findings_of(result.errors@);
    let ghost orders0 = all_orders@;
    let ghost seen0 = *has_steps;
    let mut i: usize = 0;
    while i < blocks.len()
        invariant
            i <= blocks.len(),
            was_wf ==> result.wf(),
            findings_of(result.errors@) == base + blocks_findings(blocks@.take(i as int), participants@, location@),
            all_orders@ == orders0 + orders_of(steps_of_blocks(blocks@.take(i as int))),
            *has_steps == (seen0 || steps_of_blocks(blocks@.take(i as int)).len() > 0),
        decreases blocks.len() - i,
    {
        assert(blocks@.take(i + 1).drop_last() =~= blocks@.take(i as int));
        proof {
            assert(decreases_to!(*blocks => blocks@[i as int]));
        }
        let ghost f0 = findings_of(result.errors@);
        let ghost o0 = all_orders@;
        validate_block(result, &blocks[i], participants, location, all_orders, has_steps);
        assert(findings_of(result.errors@) =~= base + blocks_findings(blocks@.take(i + 1), participants@, location@));
        assert(orders_of(steps_of_blocks(blocks@.take(i + 1)))
            =~= orders_of(steps_of_blocks(blocks@.take(i as int))) + orders_of(steps_of_block(blocks@[i as int])));
        assert(all_orders@ =~= orders0 + orders_of(steps_of_blocks(blocks@.take(i + 1))));
        i = i + 1;
    }
    assert(blocks@.take(blocks@.len() as int) =~= blocks@);
}

/// Checks one block at `location`.
fn validate_block(
    result: &mut ValidationResult,
    block: &Block,
    participants: &Vec<Participant>,
    location: &String,
    all_orders: &mut Vec<u32>,
    has_steps: &mut bool,
)
    ensures
        old(result).wf() ==> final(result).wf(),
        findings_of(final(result).errors@) == findings_of(old(result).errors@)
            + block_findings(*block, participants@, location@),
        final(all_orders)@ == old(all_orders)@ + orders_of(steps_of_block(*block)),
        *final(has_steps) == (*old(has_steps) || steps_of_block(*block).len() > 0),
    decreases block,
{
    let ghost base = findings_of(result.errors@);
    match block {
        Block::Step(st) => {
            *has_steps = true;
            let n = decimal_string(st.order as u64);
            let at = concat3(location.as_str(), ".step.", n.as_str());
            if is_blank(&st.from) {
                report(result, "R003", "StepRequiredFields", concat3("Step ", n.as_str(), " has empty 'from'"),
                    Severity::Error, Some(concat2(at.as_str(), ".from")));
            }
            if is_blank(&st.to) {
                report(result, "R003", "StepRequiredFields", concat3("Step ", n.as_str(), " has empty 'to'"),
                    Severity::Error, Some(concat2(at.as_str(), ".to")));
            }
            if is_blank(&st.message) {
                report(result, "R003", "StepRequiredFields", concat3("Step ", n.as_str(), " has empty 'message'"),
                    Severity::Error, Some(concat2(at.as_str(), ".message")));
            }
            if !is_blank(&st.from) && !contains_key(participants, &st.from) {
                let head = concat4("Step ", n.as_str(), " 'from' references '", st.from.as_str());
                report(result, "R006", "StepReferencesValid",
                    concat2(head.as_str(), "' which is not a participant in this scenario"), Severity::Error,
                    Some(concat2(at.as_str(), ".from")));
            }
            if !is_blank(&st.to) && !contains_key(participants, &st.to) {
                let head = concat4("Step ", n.as_str(), " 'to' references '", st.to.as_str());
                report(result, "R006", "StepReferencesValid",
                    concat2(head.as_str(), "' which is not a participant in this scenario"), Severity::Error,
                    Some(concat2(at.as_str(), ".to")));
            }
            all_orders.push(st.order);
            assert(findings_of(result.errors@) =~= base + block_findings(*block, participants@, location@));
            assert(orders_of(steps_of_block(*block)) =~= seq![st.order]);
        },
        Block::Group(g) => {
            let at = concat3(location.as_str(), ".group.", g.label.as_str());
            if g.group_type == GroupType::Alt && g.branches.len() == 0 {
                report(result, "R009", "AltRequiresBranches",
                    concat3("Alt group '", g.label.as_str(), "' must have at least one branch"), Severity::Error,
                    Some(at.clone()));
            }
            if g.group_type != GroupType::Alt && g.branches.len() != 0 {
                let head = concat4("Non-alt group '", g.label.as_str(), "' (type: ", group_type_text(g.group_type));
                report(result, "R010", "NonAltShouldNotHaveBranches",
                    concat2(head.as_str(), ") should not have branches"), Severity::Warning, Some(at.clone()));
            }
            let ghost mid = findings_of(result.errors@);
            assert(mid =~= base + group_shape_findings(*g, location@));
            if g.branches.len() == 0 {
                validate_blocks(result, &g.blocks, participants, &at, all_orders, has_steps);
            } else {
                validate_branches(result, &g.branches, participants, &at, all_orders, has_steps);
            }
            assert(findings_of(result.errors@) =~= base + block_findings(*block, participants@, location@));
        },
    }
}

/// Checks the blocks of each branch of the group at `location`.
fn validate_branches(
    result: &mut ValidationResult,
    branches: &Vec<GroupBranch>,
    participants: &Vec<Participant>,
    location: &String,
    all_orders: &mut Vec<u32>,
    has_steps: &mut bool,
)
    ensures
        old(result).wf() ==> final(result).wf(),
        findings_of(final(result).errors@) == findings_of(old(result).errors@)
            + branches_findings(branches@, participants@, location@),
        final(all_orders)@ == old(all_orders)@ + orders_of(steps_of_branches(branches@)),
        *final(has_steps) == (*old(has_steps) || steps_of_branches(branches@).len() > 0),
    decreases branches,
{
    let ghost was_wf = result.wf();
    let ghost base = findings_of(result.errors@);
    let ghost orders0 = all_orders@;
    let ghost seen0 = *has_steps;
    let mut k: usize = 0;
    while k < branches.len()
        invariant
            k <= branches.len(),
            was_wf ==> result.wf(),
            findings_of(result.errors@) == base + branches_findings(branches@.take(k as int), participants@, location@),
            all_orders@ == orders0 + orders_of(steps_of_branches(branches@.take(k as int))),
            *has_steps == (seen0 || steps_of_branches(branches@.take(k as int)).len() > 0),
        decreases branches.len() - k,
    {
        assert(branches@.take(k + 1).drop_last() =~= branches@.take(k as int));
        proof {
            assert(decreases_to!(*branches => branches@[k as int]));
        }
        let br = &branches[k];
        let at = concat3(location.as_str(), ".", br.label.as_str());
        validate_blocks(result, &br.blocks, participants, &at, all_orders, has_steps);
        assert(findings_of(result.errors@) =~= base + branches_findings(branches@.take(k + 1), participants@, location@));
        assert(orders_of(steps_of_branches(branches@.take(k + 1)))
            =~= orders_of(steps_of_branches(branches@.take(k as int))) + orders_of(steps_of_blocks(br.blocks@)));
        assert(all_orders@ =~= orders0 + orders_of(steps_of_branches(branches@.take(k + 1))));
        k = k + 1;
    }
    assert(branches@.take(branches@.len() as int) =~= branches@);
}

/// The name `Debug` prints for a group type.
fn group_type_text(t: GroupType) -> (r: &'static str)
    ensures
        r@ == group_type_name(t),
{
    match t {
        GroupType::Alt => "Alt",
        GroupType::Opt => "Opt",
        GroupType::Loop => "Loop",
        GroupType::Par => "Par",
        GroupType::Break => "Break",
        GroupType::Critical => "Critical",
        GroupType::Group => "Group",
    }
}

/// The smallest order that occurs twice, if any.
fn least_repeat(os: &Vec<u32>) -> (r: Option<u32>)
    ensures
        match r {
            Some(v) => is_least_repeat(os@, v),
            None => forall|v: u32| !repeats(os@, v),
        },
{
    let mut best: Option<u32> = None;
    let mut i: usize = 0;
    while i < os.len()
        invariant
            i <= os.len(),
            match best {
                Some(v) => {
                    &&& repeats(os@, v)
                    &&& forall|a: int, b: int| 0 <= a < b < os@.len() && a < i && os@[a] == os@[b] ==> v <= os@[a]
                },
                None => forall|a: int, b: int| 0 <= a < b < os@.len() && a < i ==> os@[a] != os@[b],
            },
        decreases os.len() - i,
    {
        let mut j: usize = i + 1;
        let mut twice = false;
        while j < os.len()
            invariant
                i < j <= os.len(),
                twice ==> exists|b: int| i < b < os@.len() && os@[b] == os@[i as int],
                !twice ==> forall|b: int| i < b < j ==> os@[b] != os@[i as int],
            decreases os.len() - j,
        {
            if os[j] == os[i] {
                twice = true;
            }
            j = j + 1;
        }
        if twice {
            let better = match best {
                Some(v) => os[i] < v,
                None => true,
            };
            if better {
                best = Some(os[i]);
            }
        }
        i = i + 1;
    }
    proof {
        match best {
            Some(v) => {
                assert forall|w: u32| repeats(os@, w) implies v <= w by {
                    let (a, b) = choose|a: int, b: int| 0 <= a < b < os@.len() && os@[a] == w && os@[b] == w;
                    assert(os@[a] == os@[b]);
                }
            },
            None => {
                assert forall|w: u32| !repeats(os@, w) by {
                    if repeats(os@, w) {
                        let (a, b) = choose|a: int, b: int| 0 <= a < b < os@.len() && os@[a] == w && os@[b] == w;
                        assert(os@[a] == os@[b]);
                    }
                }
            },
        }
    }
    best
}

/// Checks a scenario's required fields and participants.
fn check_scenario_header(result: &mut ValidationResult, s: &Scenario, location: &String)
    requires
        location@ == scenario_location(*s),
    ensures
        old(result).wf() ==> final(result).wf(),
        findings_of(final(result).errors@) == findings_of(old(result).errors@) + scenario_header_findings(*s),
{
    let ghost was_wf = result.wf();
    let ghost base = findings_of(result.errors@);
    if is_blank(&s.id) {
        report(result, "R001", "ScenarioRequiredFields", String::from_str("Scenario ID cannot be empty"),
            Severity::Error, Some(concat2(location.as_str(), ".id")));
    }
    if is_blank(&s.name) {
        report(result, "R001", "ScenarioRequiredFields", concat3("Scenario '", s.id.as_str(), "' name cannot be empty"),
            Severity::Error, Some(concat2(location.as_str(), ".name")));
    }
    let ghost part1 = findings_of(result.errors@);
    let ghost check = participant_findings(*s);
    let mut i: usize = 0;
    while i < s.participants.len()
        invariant
            i <= s.participants.len(),
            was_wf ==> result.wf(),
            location@ == scenario_location(*s),
            check == participant_findings(*s),
            findings_of(result.errors@) == part1 + gather(s.participants@.take(i as int), check),
        decreases s.participants.len() - i,
    {
        proof {
            lemma_gather_step(s.participants@, check, i as int);
        }
        let p = &s.participants[i];
        let ghost before = findings_of(result.errors@);
        if is_blank(&p.element_id) {
            report(result, "R002", "ParticipantRequiredFields",
                concat3("Participant in scenario '", s.id.as_str(), "' has empty element_id"), Severity::Error,
                Some(concat3(location.as_str(), ".participants.", p.element_id.as_str())));
        }
        assert(findings_of(result.errors@) =~= before + check(i as int, s.participants@[i as int]));
        i = i + 1;
    }
    proof {
        lemma_gather_all(s.participants@, check);
    }
    let ghost part2 = findings_of(result.errors@);
    if s.participants.len() < 2 {
        let count = decimal_string(s.participants.len() as u64);
        report(result, "R004", "MinParticipants",
            concat5("Scenario '", s.id.as_str(), "' should have at least 2 participants (has ", count.as_str(), ")"),
            Severity::Warning, Some(location.clone()));
    }
    assert(findings_of(result.errors@) =~= base + scenario_header_findings(*s));
}

/// Checks that a scenario has a step and that no step order occurs twice.
fn check_step_orders(result: &mut ValidationResult, s: &Scenario, location: &String, all_orders: &Vec<u32>, has_steps: bool)
    requires
        location@ == scenario_location(*s),
        all_orders@ == orders_of(steps_of_blocks(s.blocks@)),
        has_steps == (steps_of_blocks(s.blocks@).len() > 0),
    ensures
        old(result).wf() ==> final(result).wf(),
        findings_of(final(result).errors@) == findings_of(old(result).errors@) + scenario_order_findings(*s),
{
    let ghost base = findings_of(result.errors@);
    if !has_steps {
        report(result, "R005", "MinSteps", concat3("Scenario '", s.id.as_str(), "' should have at least 1 step"),
            Severity::Warning, Some(location.clone()));
    }
    let ghost orders = orders_of(steps_of_blocks(s.blocks@));
    match least_repeat(all_orders) {
        Some(v) => {
            let n = decimal_string(v as u64);
            report(result, "R008", "StepOrderUnique",
                concat5("Duplicate step order ", n.as_str(), " in scenario '", s.id.as_str(), "'"), Severity::Error,
                Some(location.clone()));
            proof {
                assert(repeats(orders, v));
                let c = choose|w: u32| is_least_repeat(orders, w);
                assert(is_least_repeat(orders, c));
                assert(c <= v && v <= c);
            }
        },
        None => {},
    }
    assert(findings_of(result.errors@) =~= base + scenario_order_findings(*s));
}

/// Checks a scenario's ID convention and name length.
fn check_scenario_naming(result: &mut ValidationResult, s: &Scenario, location: &String)
    requires
        location@ == scenario_location(*s),
    ensures
        old(result).wf() ==> final(result).wf(),
        findings_of(final(result).errors@) == findings_of(old(result).errors@) + scenario_naming_findings(*s),
{
    let ghost base = findings_of(result.errors@);
    if !is_upper_snake(s.id.as_str()) && !is_blank(&s.id) {
        report(result, "R011", "ScenarioIdNaming",
            concat3("Scenario ID '", s.id.as_str(), "' does not follow UPPER_SNAKE_CASE convention"), Severity::Warning,
            Some(concat2(location.as_str(), ".id")));
    }
    let len = name_bytes(&s.name);
    if len > 50 {
        let n = decimal_string(len as u64);
        report(result, "R012", "ScenarioNameLength",
            concat5("Scenario '", s.id.as_str(), "' name exceeds 50 characters (has ", n.as_str(), ")"), Severity::Info,
            Some(concat2(location.as_str(), ".name")));
    }
    assert(findings_of(result.errors@) =~= base + scenario_naming_findings(*s));
}

/// Checks one scenario: required fields, participants, the block tree,
/// unique step orders and naming.
fn validate_scenario(result: &mut ValidationResult, scenario: &Scenario)
    ensures
        old(result).wf() ==> final(result).wf(),
        findings_of(final(result).errors@) == findings_of(old(result).errors@) + scenario_findings(*scenario),
{
    let s = scenario;
    let ghost base = findings_of(result.errors@);
    let location = concat2("scenarios.", s.id.as_str());
    check_scenario_header(result, s, &location);
    let mut all_orders: Vec<u32> = Vec::new();
    let mut has_steps = false;
    validate_blocks(result, &s.blocks, &s.participants, &location, &mut all_orders, &mut has_steps);
    assert(all_orders@ =~= orders_of(steps_of_blocks(s.blocks@)));
    check_step_orders(result, s, &location, &all_orders, has_steps);
    check_scenario_naming(result, s, &location);
    assert(findings_of(result.errors@) =~= base + scenario_findings(*s));
}

/// Checks every scenario of a runtime view.
pub fn validate(view: &RuntimeView) -> (r: ValidationResult)
    ensures
        r.wf(),
        findings_of(r.errors@) == runtime_view_findings(*view),
{
    let mut result = ValidationResult::new();
    assert(findings_of(result.errors@) =~= Seq::<Finding>::empty());
    let ghost base = findings_of(result.errors@);
    let mut i: usize = 0;
    while i < view.scenarios.len()
        invariant
            i <= view.scenarios.len(),
            result.wf(),
            findings_of(result.errors@) == base + gather(view.scenarios@.take(i as int), each_scenario()),
        decreases view.scenarios.len() - i,
    {
        proof {
            lemma_gather_step(view.scenarios@, each_scenario(), i as int);
        }
        validate_scenario(&mut result, &view.scenarios[i]);
        i = i + 1;
    }
    proof {
        lemma_gather_all(view.scenarios@, each_scenario());
    }
    result
}

} // verus!
