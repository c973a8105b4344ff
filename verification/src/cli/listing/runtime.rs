use vstd::prelude::*;
use crate::cli::args::RuntimeListElement;
use crate::cli::report::{
    Tone, Line, LineView, report_view, p, lines_for, lines_if, lemma_lines_for_step, lemma_lines_for_all, emit,
};
use crate::cli::listing::context::{field_line, opt_field, emit_field, emit_opt_field};
use crate::generator::plantuml::runtime_view::{step_arrow, step_type_to_arrow};
use crate::model::runtime::runtime_view::{
    RuntimeView, Scenario, Participant, ParticipantType, Block, Step, Group, GroupType, GroupBranch, Note,
    NotePosition, Divider, steps_of_blocks,
};
use crate::utils::error::{AppError, ErrorKind, Result, fails_with};
use crate::utils::keyed::{has_key, is_first_key, lemma_first_key_unique};
use crate::utils::text::{decimal, decimal_string, join, join_strings, string_views, copy_string, concat2};

verus! {

/// How a participant type is written in listings.
pub open spec fn participant_type_name(t: ParticipantType) -> Seq<char> {
    match t {
        ParticipantType::Participant => "Participant"@,
        ParticipantType::Actor => "Actor"@,
        ParticipantType::Boundary => "Boundary"@,
        ParticipantType::Control => "Control"@,
        ParticipantType::Entity => "Entity"@,
        ParticipantType::Database => "Database"@,
        ParticipantType::Collections => "Collections"@,
        ParticipantType::Queue => "Queue"@,
    }
}

/// How a group type is written in listings.
pub open spec fn group_type_name(t: GroupType) -> Seq<char> {
    match t {
        GroupType::Alt => "Alt"@,
        GroupType::Opt => "Opt"@,
        GroupType::Loop => "Loop"@,
        GroupType::Par => "Par"@,
        GroupType::Break => "Break"@,
        GroupType::Critical => "Critical"@,
        GroupType::Group => "Group"@,
    }
}

/// How a note position is written in listings.
pub open spec fn position_name(pos: NotePosition) -> Seq<char> {
    match pos {
        NotePosition::Left => "Left"@,
        NotePosition::Right => "Right"@,
        NotePosition::Over => "Over"@,
    }
}

/// `, alias: <alias>` when the participant has one.
pub open spec fn alias_info(a: Option<String>) -> Seq<char> {
    match a {
        Some(x) => ", alias: "@ + x@,
        None => Seq::empty(),
    }
}

/// The labels of some branches, in order.
pub open spec fn branch_labels(brs: Seq<GroupBranch>) -> Seq<Seq<char>> {
    brs.map_values(|b: GroupBranch| b.label@)
}

/// ` (branches: a, b)` for a group with branches, nothing otherwise.
pub open spec fn branches_info(brs: Seq<GroupBranch>) -> Seq<char> {
    if brs.len() == 0 {
        Seq::empty()
    } else {
        " (branches: "@ + join(branch_labels(brs), ", "@) + ")"@
    }
}

/// A step as `<prefix>[<order>] <from> <arrow> <to> : <message>`.
pub open spec fn step_line(prefix: Seq<char>, s: Step) -> LineView {
    seq![p(prefix), p("["@), p(decimal(s.order as nat)), p("] "@), p(s.from@), p(" "@), p(step_arrow(s.step_type)),
        p(" "@), p(s.to@), p(" : "@), p(s.message@)]
}

/// A group as `<prefix><type>: <label>` and its branch labels.
pub open spec fn group_line(prefix: Seq<char>, g: Group) -> LineView {
    seq![p(prefix), p(group_type_name(g.group_type)), p(": "@), p(g.label@), p(branches_info(g.branches@))]
}

/// The listing of blocks, depth first; nested blocks go two spaces further in.
pub open spec fn blocks_listing(bs: Seq<Block>, prefix: Seq<char>) -> Seq<LineView>
    decreases bs,
{
    if bs.len() == 0 {
        Seq::empty()
    } else {
        blocks_listing(bs.drop_last(), prefix) + block_listing(bs.last(), prefix)
    }
}

/// The listing of one block. A group with branches lists its branches only.
pub open spec fn block_listing(b: Block, prefix: Seq<char>) -> Seq<LineView>
    decreases b,
{
    match b {
        Block::Step(s) => seq![step_line(prefix, s)],
        Block::Group(g) => seq![group_line(prefix, g)] + if g.branches@.len() == 0 {
            blocks_listing(g.blocks@, prefix + "  "@)
        } else {
            branches_listing(g.branches@, prefix + "  "@)
        },
    }
}

/// The listing of some branches: each label, then its blocks, all two
/// spaces further in than `prefix`.
pub open spec fn branches_listing(brs: Seq<GroupBranch>, prefix: Seq<char>) -> Seq<LineView>
    decreases brs,
{
    if brs.len() == 0 {
        Seq::empty()
    } else {
        branches_listing(brs.drop_last(), prefix)
            + seq![seq![p(prefix + "  "@), p(brs.last().label@), p(":"@)]]
            + blocks_listing(brs.last().blocks@, prefix + "  "@)
    }
}

/// A sub-heading line `  <title> (<count><suffix>):`.
pub open spec fn count_line(title: Seq<char>, count: nat, suffix: Seq<char>) -> LineView {
    seq![p("  "@), (Tone::Strong, title), p(" ("@), p(decimal(count)), p(suffix), p("):"@)]
}

/// The line of a participant in `show`.
pub open spec fn participant_shown() -> spec_fn(Participant) -> Seq<LineView> {
    |x: Participant| seq![seq![p("    "@), p(x.element_id@), p(" ("@), p(participant_type_name(x.participant_type)),
        p(alias_info(x.alias)), p(")"@)]]
}

/// The line of a note in `show`.
pub open spec fn note_shown() -> spec_fn(Note) -> Seq<LineView> {
    |n: Note| seq![seq![p("    "@), p(position_name(n.position)), p(" "@), p(n.target@), p(": "@), p(n.text@)]]
}

/// The line of a divider in `show`.
pub open spec fn divider_shown() -> spec_fn(Divider) -> Seq<LineView> {
    |v: Divider| seq![seq![p("    == "@), p(v.label@), p(" == (after step "@), p(decimal(v.after_order as nat)),
        p(")"@)]]
}

/// What `show` prints for a scenario.
pub open spec fn scenario_show(s: Scenario) -> Seq<LineView> {
    seq![seq![(Tone::Title, "Scenario: "@ + s.id@)], field_line("  Name: "@, s.name@)]
        + opt_field("  Description: "@, s.description)
        + seq![Seq::empty(), count_line("Participants"@, s.participants@.len(), ""@)]
        + lines_for(s.participants@, participant_shown())
        + seq![Seq::empty(), count_line("Blocks"@, s.blocks@.len(), " blocks"@)]
        + blocks_listing(s.blocks@, "    "@)
        + lines_if(s.notes@.len() > 0, seq![Seq::empty(), count_line("Notes"@, s.notes@.len(), ""@)]
            + lines_for(s.notes@, note_shown()))
        + lines_if(s.dividers@.len() > 0, seq![Seq::empty(), count_line("Dividers"@, s.dividers@.len(), ""@)]
            + lines_for(s.dividers@, divider_shown()))
}

/// The scenario with ID `id` that comes first.
pub open spec fn scenario_with(v: RuntimeView, id: Seq<char>) -> Scenario {
    v.scenarios@[choose|i: int| is_first_key(v.scenarios@, id, i)]
}

/// The line of a scenario in the list of scenarios.
pub open spec fn scenario_entry() -> spec_fn(Scenario) -> Seq<LineView> {
    |s: Scenario| seq![seq![p("  "@), (Tone::Mark, "*"@), p(" "@), (Tone::Key, s.id@), p(" - "@), p(s.name@),
        p(" ("@), p(decimal(s.participants@.len())), p(" participants, "@),
        p(decimal(steps_of_blocks(s.blocks@).len())), p(" steps)"@)]]
}

/// The line of a participant in the list of participants.
pub open spec fn participant_entry() -> spec_fn(Participant) -> Seq<LineView> {
    |x: Participant| seq![seq![p("  "@), (Tone::Mark, "*"@), p(" "@), (Tone::Key, x.element_id@), p(" (type: "@),
        p(participant_type_name(x.participant_type)), p(alias_info(x.alias)), p(")"@)]]
}

/// The line of a step in the list of steps.
pub open spec fn step_entry() -> spec_fn(Step) -> Seq<LineView> {
    |st: Step| seq![seq![p("  "@), (Tone::Accent, "["@ + decimal(st.order as nat) + "]"@), p(" "@), p(st.from@),
        p(" "@), p(step_arrow(st.step_type)), p(" "@), p(st.to@), p(" : "@), p(st.message@)]]
}

/// The line of a top-level group in the list of groups; a step has none.
pub open spec fn group_entry() -> spec_fn(Block) -> Seq<LineView> {
    |b: Block| match b {
        Block::Group(g) => seq![seq![p("  "@), (Tone::Mark, "*"@), p(" "@), p(group_type_name(g.group_type)),
            p(": "@), (Tone::Key, g.label@), p(branches_info(g.branches@))]],
        Block::Step(_) => Seq::empty(),
    }
}

/// The heading of a per-scenario list.
pub open spec fn scenario_heading(title: Seq<char>, id: Seq<char>) -> LineView {
    seq![(Tone::Title, title), p(" "@), (Tone::Key, id), p(":"@)]
}

/// What the per-scenario lists print for scenario `s`, named `id`.
pub open spec fn scenario_list(s: Scenario, id: Seq<char>, element: RuntimeListElement) -> Seq<LineView> {
    match element {
        RuntimeListElement::Participants => seq![scenario_heading("Participants in scenario"@, id)]
            + lines_for(s.participants@, participant_entry()),
        RuntimeListElement::Steps => seq![scenario_heading("Steps in scenario"@, id)]
            + lines_for(steps_of_blocks(s.blocks@), step_entry()),
        _ => seq![scenario_heading("Groups in scenario"@, id)] + lines_for(s.blocks@, group_entry()),
    }
}

/// The word that the error for a missing `--scenario` uses.
pub open spec fn listed_things(element: RuntimeListElement) -> Seq<char> {
    match element {
        RuntimeListElement::Participants => "participants"@,
        RuntimeListElement::Steps => "steps"@,
        _ => "groups"@,
    }
}

fn participant_type_text(t: ParticipantType) -> (r: &'static str)
    ensures
        r@ == participant_type_name(t),
{
    match t {
        ParticipantType::Participant => "Participant",
        ParticipantType::Actor => "Actor",
        ParticipantType::Boundary => "Boundary",
        ParticipantType::Control => "Control",
        ParticipantType::Entity => "Entity",
        ParticipantType::Database => "Database",
        ParticipantType::Collections => "Collections",
        ParticipantType::Queue => "Queue",
    }
}

fn group_type_text(t: GroupType) -> (r: &'static str)
    ensures
        r@ == group_type_name(t),
{
    match t {
        GroupType::Alt => "Alt",
        GroupType::Opt => "Opt",
        GroupType::Loop => "Loop",
        GroupType::Par => "Par",
        GroupType::Break => "Break",
        GroupType::Critical => "Critical",
        GroupType::Group => "Group",
    }
}

fn position_text(pos: NotePosition) -> (r: &'static str)
    ensures
        r@ == position_name(pos),
{
    match pos {
        NotePosition::Left => "Left",
        NotePosition::Right => "Right",
        NotePosition::Over => "Over",
    }
}

fn alias_text(a: &Option<String>) -> (r: String)
    ensures
        r@ == alias_info(*a),
{
    match a {
        Some(x) => concat2(", alias: ", x.as_str()),
        None => {
            let e = String::new();
            assert(e@ =~= alias_info(*a));
            e
        },
    }
}

fn branches_text(brs: &Vec<GroupBranch>) -> (r: String)
    ensures
        r@ == branches_info(brs@),
{
    if brs.len() == 0 {
        let e = String::new();
        assert(e@ =~= branches_info(brs@));
        return e;
    }
    let mut labels: Vec<String> = Vec::new();
    let mut k: usize = 0;
    while k < brs.len()
        invariant
            k <= brs.len(),
            string_views(labels@) == branch_labels(brs@.take(k as int)),
        decreases brs.len() - k,
    {
        let ghost prev = labels@;
        labels.push(copy_string(&brs[k].label));
        assert(string_views(labels@) =~= string_views(prev).push(brs@[k as int].label@));
        assert(branch_labels(brs@.take(k + 1)) =~= branch_labels(brs@.take(k as int)).push(brs@[k as int].label@));
        k = k + 1;
    }
    assert(brs@.take(brs@.len() as int) =~= brs@);
    let joined = join_strings(&labels, ", ");
    let mut out = String::from_str(" (branches: ");
    out.append(joined.as_str());
    out.append(")");
    out
}

fn count_text(n: usize) -> (r: String)
    ensures
        r@ == decimal(n as nat),
{
    decimal_string(n as u64)
}

fn write_step_line(out: &mut Vec<Line>, prefix: &String, st: &Step)
    ensures
        report_view(final(out)@) == report_view(old(out)@).push(step_line(prefix@, *st)),
{
    let order = decimal_string(st.order as u64);
    let mut l = Line::new();
    l.plain(prefix.as_str());
    l.plain("[");
    l.plain(order.as_str());
    l.plain("] ");
    l.plain(st.from.as_str());
    l.plain(" ");
    l.plain(step_type_to_arrow(&st.step_type));
    l.plain(" ");
    l.plain(st.to.as_str());
    l.plain(" : ");
    l.plain(st.message.as_str());
    assert(l@ =~= step_line(prefix@, *st));
    emit(out, l);
}

fn write_group_line(out: &mut Vec<Line>, prefix: &String, g: &Group)
    ensures
        report_view(final(out)@) == report_view(old(out)@).push(group_line(prefix@, *g)),
{
    let info = branches_text(&g.branches);
    let mut l = Line::new();
    l.plain(prefix.as_str());
    l.plain(group_type_text(g.group_type));
    l.plain(": ");
    l.plain(g.label.as_str());
    l.plain(info.as_str());
    assert(l@ =~= group_line(prefix@, *g));
    emit(out, l);
}

fn write_blocks(out: &mut Vec<Line>, blocks: &Vec<Block>, prefix: &String)
    ensures
        report_view(final(out)@) == report_view(old(out)@) + blocks_listing(blocks@, prefix@),
    decreases blocks,
{
    let ghost start = report_view(out@);
    let mut i: usize = 0;
    while i < blocks.len()
        invariant
            i <= blocks.len(),
            report_view(out@) == start + blocks_listing(blocks@.take(i as int), prefix@),
        decreases blocks.len() - i,
    {
        assert(blocks@.take(i + 1).drop_last() =~= blocks@.take(i as int));
        proof {
            assert(decreases_to!(*blocks => blocks@[i as int]));
        }
        write_block(out, &blocks[i], prefix);
        assert(start + blocks_listing(blocks@.take(i + 1), prefix@)
            =~= start + blocks_listing(blocks@.take(i as int), prefix@) + block_listing(blocks@[i as int], prefix@));
        i = i + 1;
    }
    assert(blocks@.take(blocks@.len() as int) =~= blocks@);
}

fn write_block(out: &mut Vec<Line>, b: &Block, prefix: &String)
    ensures
        report_view(final(out)@) == report_view(old(out)@) + block_listing(*b, prefix@),
    decreases b,
{
    let ghost before = report_view(out@);
    match b {
        Block::Step(st) => {
            write_step_line(out, prefix, st);
        },
        Block::Group(g) => {
            write_group_line(out, prefix, g);
            let inner = concat2(prefix.as_str(), "  ");
            if g.branches.len() == 0 {
                write_blocks(out, &g.blocks, &inner);
            } else {
                write_branches(out, &g.branches, &inner);
            }
        },
    }
    assert(report_view(out@) =~= before + block_listing(*b, prefix@));
}

fn write_branches(out: &mut Vec<Line>, brs: &Vec<GroupBranch>, prefix: &String)
    ensures
        report_view(final(out)@) == report_view(old(out)@) + branches_listing(brs@, prefix@),
    decreases brs,
{
    let ghost start = report_view(out@);
    let inner = concat2(prefix.as_str(), "  ");
    let mut k: usize = 0;
    while k < brs.len()
        invariant
            k <= brs.len(),
            inner@ == prefix@ + "  "@,
            report_view(out@) == start + branches_listing(brs@.take(k as int), prefix@),
        decreases brs.len() - k,
    {
        assert(brs@.take(k + 1).drop_last() =~= brs@.take(k as int));
        proof {
            assert(decreases_to!(*brs => brs@[k as int]));
            assert(decreases_to!(brs@[k as int] => brs@[k as int].blocks));
        }
        let br = &brs[k];
        let mut l = Line::new();
        l.plain(inner.as_str());
        l.plain(br.label.as_str());
        l.plain(":");
        let ghost lv = l@;
        assert(lv =~= seq![p(prefix@ + "  "@), p(br.label@), p(":"@)]);
        emit(out, l);
        write_blocks(out, &br.blocks, &inner);
        assert(start + branches_listing(brs@.take(k + 1), prefix@)
            =~= start + branches_listing(brs@.take(k as int), prefix@) + seq![lv]
                + blocks_listing(brs@[k as int].blocks@, prefix@ + "  "@));
        k = k + 1;
    }
    assert(brs@.take(brs@.len() as int) =~= brs@);
}

fn emit_count_line(out: &mut Vec<Line>, title: &str, count: usize, suffix: &str)
    ensures
        report_view(final(out)@) == report_view(old(out)@).push(count_line(title@, count as nat, suffix@)),
{
    let n = count_text(count);
    let mut l = Line::new();
    l.plain("  ");
    l.add(Tone::Strong, title);
    l.plain(" (");
    l.plain(n.as_str());
    l.plain(suffix);
    l.plain("):");
    assert(l@ =~= count_line(title@, count as nat, suffix@));
    emit(out, l);
}

fn emit_blank(out: &mut Vec<Line>)
    ensures
        report_view(final(out)@) == report_view(old(out)@).push(Seq::empty()),
{
    emit(out, Line::new());
}

/// The lines of a scenario (see `scenario_show`).
pub fn show_scenario(s: &Scenario) -> (r: Vec<Line>)
    ensures
        report_view(r@) == scenario_show(*s),
{
    let mut out: Vec<Line> = Vec::new();
    assert(report_view(out@) =~= Seq::<LineView>::empty());
    let title = concat2("Scenario: ", s.id.as_str());
    let mut l = Line::new();
    l.add(Tone::Title, title.as_str());
    emit(&mut out, l);
    emit_field(&mut out, "  Name: ", s.name.as_str());
    emit_opt_field(&mut out, "  Description: ", &s.description);
    emit_blank(&mut out);
    emit_count_line(&mut out, "Participants", s.participants.len(), "");
    let ghost head = report_view(out@);
    let ghost f = participant_shown();
    let mut j: usize = 0;
    while j < s.participants.len()
        invariant
            j <= s.participants.len(),
            f == participant_shown(),
            report_view(out@) == head + lines_for(s.participants@.take(j as int), f),
        decreases s.participants.len() - j,
    {
        proof {
            lemma_lines_for_step(s.participants@, f, j as int);
        }
        let x = &s.participants[j];
        let alias = alias_text(&x.alias);
        let mut l = Line::new();
        l.plain("    ");
        l.plain(x.element_id.as_str());
        l.plain(" (");
        l.plain(participant_type_text(x.participant_type));
        l.plain(alias.as_str());
        l.plain(")");
        let ghost before = report_view(out@);
        assert(l@ =~= seq![p("    "@), p(x.element_id@), p(" ("@), p(participant_type_name(x.participant_type)),
            p(alias_info(x.alias)), p(")"@)]);
        assert(seq![l@] =~= f(*x));
        emit(&mut out, l);
        assert(before.push(f(*x)[0]) =~= before + f(*x));
        assert(head + lines_for(s.participants@.take(j as int), f) + f(*x)
            =~= head + (lines_for(s.participants@.take(j as int), f) + f(*x)));
        j = j + 1;
    }
    proof {
        lemma_lines_for_all(s.participants@, f);
    }
    emit_blank(&mut out);
    emit_count_line(&mut out, "Blocks", s.blocks.len(), " blocks");
    let prefix = String::from_str("    ");
    write_blocks(&mut out, &s.blocks, &prefix);
    let ghost mid = report_view(out@);
    if s.notes.len() > 0 {
        emit_blank(&mut out);
        emit_count_line(&mut out, "Notes", s.notes.len(), "");
        let ghost nhead = report_view(out@);
        let ghost g = note_shown();
        let mut k: usize = 0;
        while k < s.notes.len()
            invariant
                k <= s.notes.len(),
                g == note_shown(),
                report_view(out@) == nhead + lines_for(s.notes@.take(k as int), g),
            decreases s.notes.len() - k,
        {
            proof {
                lemma_lines_for_step(s.notes@, g, k as int);
            }
            let n = &s.notes[k];
            let mut l = Line::new();
            l.plain("    ");
            l.plain(position_text(n.position));
            l.plain(" ");
            l.plain(n.target.as_str());
            l.plain(": ");
            l.plain(n.text.as_str());
            let ghost before = report_view(out@);
            assert(l@ =~= seq![p("    "@), p(position_name(n.position)), p(" "@), p(n.target@), p(": "@), p(n.text@)]);
            assert(seq![l@] =~= g(*n));
            emit(&mut out, l);
            assert(before.push(g(*n)[0]) =~= before + g(*n));
            assert(nhead + lines_for(s.notes@.take(k as int), g) + g(*n)
                =~= nhead + (lines_for(s.notes@.take(k as int), g) + g(*n)));
            k = k + 1;
        }
        proof {
            lemma_lines_for_all(s.notes@, g);
        }
    }
    let ghost mid2 = report_view(out@);
    assert(mid2 =~= mid + lines_if(s.notes@.len() > 0, seq![Seq::empty(), count_line("Notes"@, s.notes@.len(), ""@)]
        + lines_for(s.notes@, note_shown())));
    if s.dividers.len() > 0 {
        emit_blank(&mut out);
        emit_count_line(&mut out, "Dividers", s.dividers.len(), "");
        let ghost dhead = report_view(out@);
        let ghost h = divider_shown();
        let mut k: usize = 0;
        while k < s.dividers.len()
            invariant
                k <= s.dividers.len(),
                h == divider_shown(),
                report_view(out@) == dhead + lines_for(s.dividers@.take(k as int), h),
            decreases s.dividers.len() - k,
        {
            proof {
                lemma_lines_for_step(s.dividers@, h, k as int);
            }
            let v = &s.dividers[k];
            let after = decimal_string(v.after_order as u64);
            let mut l = Line::new();
            l.plain("    == ");
            l.plain(v.label.as_str());
            l.plain(" == (after step ");
            l.plain(after.as_str());
            l.plain(")");
            let ghost before = report_view(out@);
            assert(l@ =~= seq![p("    == "@), p(v.label@), p(" == (after step "@), p(decimal(v.after_order as nat)),
                p(")"@)]);
            assert(seq![l@] =~= h(*v));
            emit(&mut out, l);
            assert(before.push(h(*v)[0]) =~= before + h(*v));
            assert(dhead + lines_for(s.dividers@.take(k as int), h) + h(*v)
                =~= dhead + (lines_for(s.dividers@.take(k as int), h) + h(*v)));
            k = k + 1;
        }
        proof {
            lemma_lines_for_all(s.dividers@, h);
        }
    }
    assert(report_view(out@) =~= mid2 + lines_if(s.dividers@.len() > 0,
        seq![Seq::empty(), count_line("Dividers"@, s.dividers@.len(), ""@)] + lines_for(s.dividers@, divider_shown())));
    assert(report_view(out@) =~= scenario_show(*s));
    out
}

/// The lines of the scenario with ID `id`; the scenario is not found when the
/// view has none with that ID.
pub fn show_runtime(view: &RuntimeView, id: &str) -> (r: Result<Vec<Line>>)
    ensures
        r is Ok <==> has_key(view.scenarios@, id@),
        !has_key(view.scenarios@, id@) ==> fails_with(r, ErrorKind::ElementNotFound, "scenario: "@ + id@),
        r is Ok ==> report_view(r->Ok_0@) == scenario_show(scenario_with(*view, id@)),
{
    match view.find_scenario(id) {
        Some(s) => {
            proof {
                let i = choose|i: int| is_first_key(view.scenarios@, id@, i) && view.scenarios@[i] == *s;
                lemma_first_key_unique(view.scenarios@, id@, i);
            }
            Ok(show_scenario(s))
        },
        None => Err(AppError::ElementNotFound(concat2("scenario: ", id))),
    }
}

fn write_scenario_entry(out: &mut Vec<Line>, s: &Scenario)
    ensures
        report_view(final(out)@) == report_view(old(out)@) + scenario_entry()(*s),
{
    let steps = s.collect_all_steps();
    assert(steps@.len() == steps_of_blocks(s.blocks@).len()) by {
        assert(steps@.map_values(|x: &Step| *x).len() == steps@.len());
    }
    let np = count_text(s.participants.len());
    let ns = count_text(steps.len());
    let mut l = Line::new();
    l.plain("  ");
    l.add(Tone::Mark, "*");
    l.plain(" ");
    l.add(Tone::Key, s.id.as_str());
    l.plain(" - ");
    l.plain(s.name.as_str());
    l.plain(" (");
    l.plain(np.as_str());
    l.plain(" participants, ");
    l.plain(ns.as_str());
    l.plain(" steps)");
    let ghost before = report_view(out@);
    assert(l@ =~= seq![p("  "@), (Tone::Mark, "*"@), p(" "@), (Tone::Key, s.id@), p(" - "@), p(s.name@),
        p(" ("@), p(decimal(s.participants@.len())), p(" participants, "@),
        p(decimal(steps_of_blocks(s.blocks@).len())), p(" steps)"@)]);
    emit(out, l);
    assert(report_view(out@) =~= before + scenario_entry()(*s));
}

fn write_participant_entry(out: &mut Vec<Line>, x: &Participant)
    ensures
        report_view(final(out)@) == report_view(old(out)@) + participant_entry()(*x),
{
    let alias = alias_text(&x.alias);
    let mut l = Line::new();
    l.plain("  ");
    l.add(Tone::Mark, "*");
    l.plain(" ");
    l.add(Tone::Key, x.element_id.as_str());
    l.plain(" (type: ");
    l.plain(participant_type_text(x.participant_type));
    l.plain(alias.as_str());
    l.plain(")");
    let ghost before = report_view(out@);
    assert(l@ =~= seq![p("  "@), (Tone::Mark, "*"@), p(" "@), (Tone::Key, x.element_id@), p(" (type: "@),
        p(participant_type_name(x.participant_type)), p(alias_info(x.alias)), p(")"@)]);
    emit(out, l);
    assert(report_view(out@) =~= before + participant_entry()(*x));
}

fn write_step_entry(out: &mut Vec<Line>, st: &Step)
    ensures
        report_view(final(out)@) == report_view(old(out)@) + step_entry()(*st),
{
    let order = decimal_string(st.order as u64);
    let mut tag = String::from_str("[");
    tag.append(order.as_str());
    tag.append("]");
    let mut l = Line::new();
    l.plain("  ");
    l.add(Tone::Accent, tag.as_str());
    l.plain(" ");
    l.plain(st.from.as_str());
    l.plain(" ");
    l.plain(step_type_to_arrow(&st.step_type));
    l.plain(" ");
    l.plain(st.to.as_str());
    l.plain(" : ");
    l.plain(st.message.as_str());
    let ghost before = report_view(out@);
    assert(l@ =~= seq![p("  "@), (Tone::Accent, "["@ + decimal(st.order as nat) + "]"@), p(" "@), p(st.from@),
        p(" "@), p(step_arrow(st.step_type)), p(" "@), p(st.to@), p(" : "@), p(st.message@)]);
    emit(out, l);
    assert(report_view(out@) =~= before + step_entry()(*st));
}

fn write_group_entry(out: &mut Vec<Line>, b: &Block)
    ensures
        report_view(final(out)@) == report_view(old(out)@) + group_entry()(*b),
{
    let ghost before = report_view(out@);
    match b {
        Block::Group(g) => {
            let info = branches_text(&g.branches);
            let mut l = Line::new();
            l.plain("  ");
            l.add(Tone::Mark, "*");
            l.plain(" ");
            l.plain(group_type_text(g.group_type));
            l.plain(": ");
            l.add(Tone::Key, g.label.as_str());
            l.plain(info.as_str());
            assert(l@ =~= seq![p("  "@), (Tone::Mark, "*"@), p(" "@), p(group_type_name(g.group_type)),
                p(": "@), (Tone::Key, g.label@), p(branches_info(g.branches@))]);
            emit(out, l);
        },
        Block::Step(_) => {},
    }
    assert(report_view(out@) =~= before + group_entry()(*b));
}

fn emit_scenario_heading(out: &mut Vec<Line>, title: &str, id: &str)
    ensures
        report_view(final(out)@) == report_view(old(out)@).push(scenario_heading(title@, id@)),
{
    let mut l = Line::new();
    l.add(Tone::Title, title);
    l.plain(" ");
    l.add(Tone::Key, id);
    l.plain(":");
    assert(l@ =~= scenario_heading(title@, id@));
    emit(out, l);
}

/// The lines of one of the per-scenario lists (see `scenario_list`).
pub fn list_in_scenario(s: &Scenario, id: &str, element: RuntimeListElement) -> (r: Vec<Line>)
    ensures
        report_view(r@) == scenario_list(*s, id@, element),
{
    let mut out: Vec<Line> = Vec::new();
    assert(report_view(out@) =~= Seq::<LineView>::empty());
    match element {
        RuntimeListElement::Participants => {
            emit_scenario_heading(&mut out, "Participants in scenario", id);
            let ghost head = report_view(out@);
            let ghost f = participant_entry();
            let mut j: usize = 0;
            while j < s.participants.len()
                invariant
                    j <= s.participants.len(),
                    f == participant_entry(),
                    report_view(out@) == head + lines_for(s.participants@.take(j as int), f),
                decreases s.participants.len() - j,
            {
                proof {
                    lemma_lines_for_step(s.participants@, f, j as int);
                    assert(head + lines_for(s.participants@.take(j as int), f) + f(s.participants@[j as int])
                        =~= head + (lines_for(s.participants@.take(j as int), f) + f(s.participants@[j as int])));
                }
                write_participant_entry(&mut out, &s.participants[j]);
                j = j + 1;
            }
            proof {
                lemma_lines_for_all(s.participants@, f);
            }
        },
        RuntimeListElement::Steps => {
            emit_scenario_heading(&mut out, "Steps in scenario", id);
            let steps = s.collect_all_steps();
            let ghost ss = steps_of_blocks(s.blocks@);
            let ghost head = report_view(out@);
            let ghost f = step_entry();
            assert(steps@.len() == ss.len()) by {
                assert(steps@.map_values(|x: &Step| *x).len() == steps@.len());
            }
            let mut j: usize = 0;
            while j < steps.len()
                invariant
                    j <= steps.len(),
                    f == step_entry(),
                    ss == steps@.map_values(|x: &Step| *x),
                    report_view(out@) == head + lines_for(ss.take(j as int), f),
                decreases steps.len() - j,
            {
                proof {
                    lemma_lines_for_step(ss, f, j as int);
                    assert(head + lines_for(ss.take(j as int), f) + f(ss[j as int])
                        =~= head + (lines_for(ss.take(j as int), f) + f(ss[j as int])));
                }
                write_step_entry(&mut out, steps[j]);
                j = j + 1;
            }
            proof {
                lemma_lines_for_all(ss, f);
            }
        },
        _ => {
            emit_scenario_heading(&mut out, "Groups in scenario", id);
            let ghost head = report_view(out@);
            let ghost f = group_entry();
            let mut j: usize = 0;
            while j < s.blocks.len()
                invariant
                    j <= s.blocks.len(),
                    f == group_entry(),
                    report_view(out@) == head + lines_for(s.blocks@.take(j as int), f),
                decreases s.blocks.len() - j,
            {
                proof {
                    lemma_lines_for_step(s.blocks@, f, j as int);
                    assert(head + lines_for(s.blocks@.take(j as int), f) + f(s.blocks@[j as int])
                        =~= head + (lines_for(s.blocks@.take(j as int), f) + f(s.blocks@[j as int])));
                }
                write_group_entry(&mut out, &s.blocks[j]);
                j = j + 1;
            }
            proof {
                lemma_lines_for_all(s.blocks@, f);
            }
        },
    }
    assert(report_view(out@) =~= scenario_list(*s, id@, element));
    out
}

/// The lines that the runtime model's `list` prints. The list of scenarios
/// needs no scenario; the other lists need one, which must exist.
pub fn list_runtime(view: &RuntimeView, element: RuntimeListElement, scenario: Option<&str>) -> (r: Result<Vec<Line>>)
    ensures
        element is Scenarios ==> r is Ok && report_view(r->Ok_0@)
            == seq![seq![(Tone::Title, "Scenarios:"@)]] + lines_for(view.scenarios@, scenario_entry()),
        !(element is Scenarios) && scenario is None ==> fails_with(r, ErrorKind::InvalidOperation,
            "--scenario is required for listing "@ + listed_things(element)),
        !(element is Scenarios) ==> match scenario {
            Some(id) => if has_key(view.scenarios@, id@) {
                r is Ok && report_view(r->Ok_0@) == scenario_list(scenario_with(*view, id@), id@, element)
            } else {
                fails_with(r, ErrorKind::ElementNotFound, "scenario: "@ + id@)
            },
            None => true,
        },
{
    match element {
        RuntimeListElement::Scenarios => {
            let mut out: Vec<Line> = Vec::new();
            assert(report_view(out@) =~= Seq::<LineView>::empty());
            let mut l = Line::new();
            l.add(Tone::Title, "Scenarios:");
            emit(&mut out, l);
            let ghost head = report_view(out@);
            let ghost f = scenario_entry();
            let mut j: usize = 0;
            while j < view.scenarios.len()
                invariant
                    j <= view.scenarios.len(),
                    f == scenario_entry(),
                    report_view(out@) == head + lines_for(view.scenarios@.take(j as int), f),
                decreases view.scenarios.len() - j,
            {
                proof {
                    lemma_lines_for_step(view.scenarios@, f, j as int);
                    assert(head + lines_for(view.scenarios@.take(j as int), f) + f(view.scenarios@[j as int])
                        =~= head + (lines_for(view.scenarios@.take(j as int), f) + f(view.scenarios@[j as int])));
                }
                write_scenario_entry(&mut out, &view.scenarios[j]);
                j = j + 1;
            }
            proof {
                lemma_lines_for_all(view.scenarios@, f);
            }
            Ok(out)
        },
        _ => {
            let what = match element {
                RuntimeListElement::Participants => "participants",
                RuntimeListElement::Steps => "steps",
                _ => "groups",
            };
            match scenario {
                None => Err(AppError::InvalidOperation(concat2("--scenario is required for listing ", what))),
                Some(id) => match view.find_scenario(id) {
                    Some(s) => {
                        proof {
                            let i = choose|i: int| is_first_key(view.scenarios@, id@, i) && view.scenarios@[i] == *s;
                            lemma_first_key_unique(view.scenarios@, id@, i);
                        }
                        Ok(list_in_scenario(s, id, element))
                    },
                    None => Err(AppError::ElementNotFound(concat2("scenario: ", id))),
                },
            }
        },
    }
}

} // verus!
