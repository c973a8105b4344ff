use vstd::prelude::*;
use crate::utils::clock::now_seconds;
use crate::utils::keyed::{Keyed, has_key, is_first_key, key_strs, position_of, keys};
use crate::utils::text::{to_owned_string, same_text};

verus! {

broadcast use {vstd::seq::group_seq_axioms, vstd::std_specs::vec::group_vec_axioms};

/// Root structure for a runtime view.
#[derive(Debug)]
pub struct RuntimeView {
    pub version: String,
    pub kind: DiagramKind,
    pub metadata: Metadata,
    pub scenarios: Vec<Scenario>,
}

impl RuntimeView {
    /// A new runtime view with no scenarios.
    pub fn new(title: &str) -> (v: Self)
        ensures
            v.metadata.created_at >= 0,
            v.metadata.updated_at >= 0,
            v.version@ == "1.0"@,
            v.kind == DiagramKind::RuntimeView,
            v.metadata.title@ == title@,
            v.metadata.description is None,
            v.scenarios@.len() == 0,
    {
        RuntimeView {
            version: String::from_str("1.0"),
            kind: DiagramKind::RuntimeView,
            metadata: Metadata {
                title: String::from_str(title),
                description: None,
                created_at: now_seconds(),
                updated_at: now_seconds(),
            },
            scenarios: Vec::new(),
        }
    }

    /// Updates the modification time; nothing else changes.
    pub fn touch(&mut self)
        ensures
            final(self).metadata.updated_at >= 0,
            final(self).version == old(self).version,
            final(self).kind == old(self).kind,
            final(self).metadata.title == old(self).metadata.title,
            final(self).metadata.description == old(self).metadata.description,
            final(self).metadata.created_at == old(self).metadata.created_at,
            final(self).scenarios == old(self).scenarios,
    {
        self.metadata.updated_at = now_seconds();
    }

    /// The first scenario with the given ID.
    pub fn find_scenario(&self, id: &str) -> (r: Option<&Scenario>)
        ensures
            match r {
                Some(s) => exists|i: int| is_first_key(self.scenarios@, id@, i) && self.scenarios@[i] == *s,
                None => !has_key(self.scenarios@, id@),
            },
    {
        let key = to_owned_string(id);
        match position_of(&self.scenarios, &key) {
            Some(i) => Some(&self.scenarios[i]),
            None => None,
        }
    }

    /// The first scenario with the given ID, for modification.
    pub fn find_scenario_mut(&mut self, id: &str) -> (r: Option<&mut Scenario>)
        ensures
            match r {
                Some(s) => exists|i: int| {
                    &&& is_first_key(old(self).scenarios@, id@, i)
                    &&& *s == old(self).scenarios@[i]
                    &&& final(self).scenarios@ == old(self).scenarios@.update(i, *final(s))
                },
                None => !has_key(old(self).scenarios@, id@) && *final(self) == *old(self),
            },
            final(self).version == old(self).version,
            final(self).kind == old(self).kind,
            final(self).metadata == old(self).metadata,
    {
        let key = to_owned_string(id);
        match position_of(&self.scenarios, &key) {
            Some(i) => Some(&mut self.scenarios[i]),
            None => None,
        }
    }
}

/// The kind tag of a runtime view.
#[derive(Debug, Clone, Copy, PartialEq, Eq, Structural)]
pub enum DiagramKind {
    RuntimeView,
}

/// Title, description and timestamps (seconds since the Unix epoch).
#[derive(Debug)]
pub struct Metadata {
    pub title: String,
    pub description: Option<String>,
    pub created_at: i64,
    pub updated_at: i64,
}

/// A single runtime scenario (use case, flow).
#[derive(Debug)]
pub struct Scenario {
    pub id: String,
    pub name: String,
    pub description: Option<String>,
    pub participants: Vec<Participant>,
    pub blocks: Vec<Block>,
    pub notes: Vec<Note>,
    pub dividers: Vec<Divider>,
}

impl Keyed for Scenario {
    open spec fn key(&self) -> Seq<char> {
        self.id@
    }

    fn key_text(&self) -> (r: &String) {
        &self.id
    }
}

/// The larger of two numbers.
pub open spec fn max_u32(a: u32, b: u32) -> u32 {
    if a >= b { a } else { b }
}

/// The largest step order in a sequence of blocks (0 when there is none).
/// A group with branches is searched through its branches only, a group
/// without branches through its own blocks.
pub open spec fn max_order_blocks(bs: Seq<Block>) -> u32
    decreases bs,
{
    if bs.len() == 0 {
        0
    } else {
        max_u32(max_order_blocks(bs.drop_last()), max_order_block(bs.last()))
    }
}

/// The largest step order in one block.
pub open spec fn max_order_block(b: Block) -> u32
    decreases b,
{
    match b {
        Block::Step(s) => s.order,
        Block::Group(g) => if g.branches@.len() == 0 {
            max_order_blocks(g.blocks@)
        } else {
            max_order_branches(g.branches@)
        },
    }
}

/// The largest step order over the blocks of some branches.
pub open spec fn max_order_branches(brs: Seq<GroupBranch>) -> u32
    decreases brs,
{
    if brs.len() == 0 {
        0
    } else {
        max_u32(max_order_branches(brs.drop_last()), max_order_blocks(brs.last().blocks@))
    }
}

/// All steps of a sequence of blocks, depth first, in order. A group with
/// branches contributes the steps of its branches only.
pub open spec fn steps_of_blocks(bs: Seq<Block>) -> Seq<Step>
    decreases bs,
{
    if bs.len() == 0 {
        Seq::empty()
    } else {
        steps_of_blocks(bs.drop_last()) + steps_of_block(bs.last())
    }
}

/// All steps of one block.
pub open spec fn steps_of_block(b: Block) -> Seq<Step>
    decreases b,
{
    match b {
        Block::Step(s) => seq![s],
        Block::Group(g) => if g.branches@.len() == 0 {
            steps_of_blocks(g.blocks@)
        } else {
            steps_of_branches(g.branches@)
        },
    }
}

/// All steps of the blocks of some branches.
pub open spec fn steps_of_branches(brs: Seq<GroupBranch>) -> Seq<Step>
    decreases brs,
{
    if brs.len() == 0 {
        Seq::empty()
    } else {
        steps_of_branches(brs.drop_last()) + steps_of_blocks(brs.last().blocks@)
    }
}

/// Every step reached by `steps_of_blocks` has an order no larger than
/// `max_order_blocks`. So the order that `add_step` gives a new step, one
/// above that largest order, belongs to no step the scenario held before.
pub proof fn lemma_step_orders_within_max(bs: Seq<Block>)
    ensures
        forall|k: int| 0 <= k < steps_of_blocks(bs).len() ==>
            (#[trigger] steps_of_blocks(bs)[k]).order <= max_order_blocks(bs),
    decreases bs,
{
    if bs.len() > 0 {
        lemma_step_orders_within_max(bs.drop_last());
        lemma_block_step_orders_within_max(bs.last());
        let a = steps_of_blocks(bs.drop_last());
        let b = steps_of_block(bs.last());
        assert(steps_of_blocks(bs) == a + b);
        assert forall|k: int| 0 <= k < (a + b).len() implies
            (#[trigger] (a + b)[k]).order <= max_order_blocks(bs) by {
            if k < a.len() {
                assert((a + b)[k] == a[k]);
            } else {
                assert((a + b)[k] == b[k - a.len()]);
            }
        }
    }
}

proof fn lemma_block_step_orders_within_max(b: Block)
    ensures
        forall|k: int| 0 <= k < steps_of_block(b).len() ==>
            (#[trigger] steps_of_block(b)[k]).order <= max_order_block(b),
    decreases b,
{
    match b {
        Block::Step(s) => {
            assert(steps_of_block(b) =~= seq![s]);
        },
        Block::Group(g) => {
            if g.branches@.len() == 0 {
                lemma_step_orders_within_max(g.blocks@);
            } else {
                lemma_branch_step_orders_within_max(g.branches@);
            }
        },
    }
}

proof fn lemma_branch_step_orders_within_max(brs: Seq<GroupBranch>)
    ensures
        forall|k: int| 0 <= k < steps_of_branches(brs).len() ==>
            (#[trigger] steps_of_branches(brs)[k]).order <= max_order_branches(brs),
    decreases brs,
{
    if brs.len() > 0 {
        lemma_branch_step_orders_within_max(brs.drop_last());
        lemma_step_orders_within_max(brs.last().blocks@);
        let a = steps_of_branches(brs.drop_last());
        let b = steps_of_blocks(brs.last().blocks@);
        assert(steps_of_branches(brs) == a + b);
        assert forall|k: int| 0 <= k < (a + b).len() implies
            (#[trigger] (a + b)[k]).order <= max_order_branches(brs) by {
            if k < a.len() {
                assert((a + b)[k] == a[k]);
            } else {
                assert((a + b)[k] == b[k - a.len()]);
            }
        }
    }
}

/// The largest step order is that of some step, or 0 when there is no step:
/// `max_order_blocks` is the largest order and is reached.
pub proof fn lemma_max_order_attained(bs: Seq<Block>)
    ensures
        steps_of_blocks(bs).len() == 0 ==> max_order_blocks(bs) == 0,
        steps_of_blocks(bs).len() > 0 ==> exists|k: int|
            0 <= k < steps_of_blocks(bs).len() && (#[trigger] steps_of_blocks(bs)[k]).order == max_order_blocks(bs),
    decreases bs,
{
    if bs.len() > 0 {
        lemma_max_order_attained(bs.drop_last());
        lemma_block_max_order_attained(bs.last());
        let a = steps_of_blocks(bs.drop_last());
        let b = steps_of_block(bs.last());
        assert(steps_of_blocks(bs) == a + b);
        lemma_pair_max_attained(a, b, max_order_blocks(bs.drop_last()), max_order_block(bs.last()));
    }
}

/// The larger of two maxima is reached in the concatenation.
proof fn lemma_pair_max_attained(a: Seq<Step>, b: Seq<Step>, ma: u32, mb: u32)
    requires
        a.len() == 0 ==> ma == 0,
        a.len() > 0 ==> exists|k: int| 0 <= k < a.len() && (#[trigger] a[k]).order == ma,
        b.len() == 0 ==> mb == 0,
        b.len() > 0 ==> exists|k: int| 0 <= k < b.len() && (#[trigger] b[k]).order == mb,
    ensures
        (a + b).len() == 0 ==> max_u32(ma, mb) == 0,
        (a + b).len() > 0 ==> exists|k: int| 0 <= k < (a + b).len() && (#[trigger] (a + b)[k]).order == max_u32(ma, mb),
{
    if ma >= mb && a.len() > 0 {
        let k = choose|k: int| 0 <= k < a.len() && (#[trigger] a[k]).order == ma;
        assert((a + b)[k] == a[k]);
    } else if b.len() > 0 && (mb > ma || a.len() == 0) {
        let k = choose|k: int| 0 <= k < b.len() && (#[trigger] b[k]).order == mb;
        assert((a + b)[a.len() + k] == b[k]);
    }
}

proof fn lemma_block_max_order_attained(b: Block)
    ensures
        steps_of_block(b).len() == 0 ==> max_order_block(b) == 0,
        steps_of_block(b).len() > 0 ==> exists|k: int|
            0 <= k < steps_of_block(b).len() && (#[trigger] steps_of_block(b)[k]).order == max_order_block(b),
    decreases b,
{
    match b {
        Block::Step(s) => {
            assert(steps_of_block(b) =~= seq![s]);
            assert(steps_of_block(b)[0].order == max_order_block(b));
        },
        Block::Group(g) => {
            if g.branches@.len() == 0 {
                lemma_max_order_attained(g.blocks@);
            } else {
                lemma_branch_max_order_attained(g.branches@);
            }
        },
    }
}

proof fn lemma_branch_max_order_attained(brs: Seq<GroupBranch>)
    ensures
        steps_of_branches(brs).len() == 0 ==> max_order_branches(brs) == 0,
        steps_of_branches(brs).len() > 0 ==> exists|k: int|
            0 <= k < steps_of_branches(brs).len() && (#[trigger] steps_of_branches(brs)[k]).order == max_order_branches(brs),
    decreases brs,
{
    if brs.len() > 0 {
        lemma_branch_max_order_attained(brs.drop_last());
        lemma_max_order_attained(brs.last().blocks@);
        let a = steps_of_branches(brs.drop_last());
        let b = steps_of_blocks(brs.last().blocks@);
        assert(steps_of_branches(brs) == a + b);
        lemma_pair_max_attained(a, b, max_order_branches(brs.drop_last()), max_order_blocks(brs.last().blocks@));
    }
}

/// Distinct IDs holding exactly the participants' IDs are as many as the
/// participants' distinct IDs.
proof fn lemma_distinct_ids_count(r: Seq<&str>, ps: Seq<Participant>)
    requires
        forall|x: Seq<char>| #[trigger] holds_text(r, x) <==> has_key(ps, x),
        forall|i: int, j: int| 0 <= i < r.len() && 0 <= j < r.len() && i != j ==> r[i]@ != r[j]@,
    ensures
        r.len() == keys(ps).to_set().len(),
{
    let v = r.map_values(|s: &str| s@);
    assert(v.no_duplicates()) by {
        assert forall|i: int, j: int| 0 <= i < v.len() && 0 <= j < v.len() && i != j implies v[i] != v[j] by {
            assert(v[i] == r[i]@);
            assert(v[j] == r[j]@);
        }
    }
    v.unique_seq_to_set();
    assert forall|x: Seq<char>| v.to_set().contains(x) <==> keys(ps).to_set().contains(x) by {
        if v.contains(x) {
            let k = choose|k: int| 0 <= k < v.len() && v[k] == x;
            assert(r[k]@ == x);
            assert(holds_text(r, x));
            let w = choose|w: int| 0 <= w < ps.len() && #[trigger] ps[w].key() == x;
            assert(keys(ps)[w] == x);
        }
        if keys(ps).contains(x) {
            let w = choose|w: int| 0 <= w < keys(ps).len() && keys(ps)[w] == x;
            assert(ps[w].key() == x);
            assert(has_key(ps, x));
            assert(holds_text(r, x));
            let k = choose|k: int| 0 <= k < r.len() && #[trigger] r[k]@ == x;
            assert(v[k] == x);
        }
    }
    assert(v.to_set() =~= keys(ps).to_set());
}

/// Whether block `b` is a group labelled `label`.
pub open spec fn is_group_labelled(b: Block, label: Seq<char>) -> bool {
    b matches Block::Group(g) && g.label@ == label
}

/// `i` is the first top-level block that is a group labelled `label`.
pub open spec fn is_first_group(bs: Seq<Block>, label: Seq<char>, i: int) -> bool {
    &&& 0 <= i < bs.len()
    &&& is_group_labelled(bs[i], label)
    &&& forall|j: int| 0 <= j < i ==> !is_group_labelled(#[trigger] bs[j], label)
}

/// Whether some top-level block is a group labelled `label`.
pub open spec fn has_group(bs: Seq<Block>, label: Seq<char>) -> bool {
    exists|i: int| 0 <= i < bs.len() && is_group_labelled(#[trigger] bs[i], label)
}

/// The group held by a block known to be a group.
pub open spec fn group_of(b: Block) -> Group {
    match b {
        Block::Group(g) => g,
        Block::Step(_) => arbitrary(),
    }
}

/// Where a step or group is placed: at the top level, inside a group, or
/// inside a branch of an alt group.
pub enum Target {
    Top,
    InGroup(int),
    InBranch(int, int),
    Missing,
}

/// The place that `get_target_blocks_mut` selects for a group label and a
/// branch label: the top level without a group label; otherwise the first
/// top-level group with that label, which for an alt group must be given a
/// branch label naming one of its branches (the first one of that name), and
/// for any other group must be given none.
pub open spec fn target_of(bs: Seq<Block>, group_label: Option<Seq<char>>, branch_label: Option<Seq<char>>) -> Target {
    match group_label {
        None => Target::Top,
        Some(gl) => if !has_group(bs, gl) {
            Target::Missing
        } else {
            let gi = choose|i: int| is_first_group(bs, gl, i);
            let g = group_of(bs[gi]);
            if g.group_type == GroupType::Alt {
                match branch_label {
                    Some(bl) => if has_key(g.branches@, bl) {
                        Target::InBranch(gi, choose|k: int| is_first_key(g.branches@, bl, k))
                    } else {
                        Target::Missing
                    },
                    None => Target::Missing,
                }
            } else {
                match branch_label {
                    Some(_) => Target::Missing,
                    None => Target::InGroup(gi),
                }
            }
        },
    }
}

/// The blocks at a target place.
pub open spec fn blocks_at(bs: Seq<Block>, t: Target) -> Seq<Block> {
    match t {
        Target::Top => bs,
        Target::InGroup(gi) => group_of(bs[gi]).blocks@,
        Target::InBranch(gi, k) => group_of(bs[gi]).branches@[k].blocks@,
        Target::Missing => bs,
    }
}

/// `new_bs` are the top-level blocks `bs` after the blocks at place `t` are
/// replaced by `nb`; everything else stays as it was.
pub open spec fn replaced_at(bs: Seq<Block>, new_bs: Seq<Block>, t: Target, nb: Seq<Block>) -> bool {
    match t {
        Target::Top => new_bs == nb,
        Target::InGroup(gi) => {
            let g = group_of(bs[gi]);
            &&& new_bs.len() == bs.len()
            &&& forall|j: int| 0 <= j < bs.len() && j != gi ==> new_bs[j] == bs[j]
            &&& new_bs[gi] matches Block::Group(g2)
            &&& g2.group_type == g.group_type
            &&& g2.label == g.label
            &&& g2.branches == g.branches
            &&& g2.blocks@ == nb
        },
        Target::InBranch(gi, k) => {
            let g = group_of(bs[gi]);
            &&& new_bs.len() == bs.len()
            &&& forall|j: int| 0 <= j < bs.len() && j != gi ==> new_bs[j] == bs[j]
            &&& new_bs[gi] matches Block::Group(g2)
            &&& g2.group_type == g.group_type
            &&& g2.label == g.label
            &&& g2.blocks == g.blocks
            &&& g2.branches@.len() == g.branches@.len()
            &&& forall|j: int| 0 <= j < g.branches@.len() && j != k ==> g2.branches@[j] == g.branches@[j]
            &&& g2.branches@[k].label == g.branches@[k].label
            &&& g2.branches@[k].blocks@ == nb
        },
        Target::Missing => new_bs == bs,
    }
}

/// The characters of an optional borrowed string.
pub open spec fn opt_text(o: Option<&str>) -> Option<Seq<char>> {
    match o {
        Some(s) => Some(s@),
        None => None,
    }
}

/// Whether some string of `v` holds the characters `x`.
pub open spec fn holds_text(v: Seq<&str>, x: Seq<char>) -> bool {
    exists|k: int| 0 <= k < v.len() && #[trigger] v[k]@ == x
}

fn holds_str(v: &Vec<&str>, x: &str) -> (r: bool)
    ensures
        r == holds_text(v@, x@),
{
    let key = to_owned_string(x);
    let mut k: usize = 0;
    while k < v.len()
        invariant
            k <= v.len(),
            forall|m: int| 0 <= m < k ==> #[trigger] v@[m]@ != x@,
            key@ == x@,
        decreases v.len() - k,
    {
        let item: &str = v[k];
        assert(item == v@[k as int]);
        let cand = to_owned_string(item);
        assert(cand@ == v@[k as int]@);
        assert(key@ == x@);
        if same_text(&cand, &key) {
            return true;
        }
        k = k + 1;
    }
    false
}

/// The position of the first top-level group labelled `label`.
pub fn group_position(blocks: &Vec<Block>, label: &String) -> (r: Option<usize>)
    ensures
        match r {
            Some(i) => is_first_group(blocks@, label@, i as int),
            None => !has_group(blocks@, label@),
        },
{
    let mut i: usize = 0;
    while i < blocks.len()
        invariant
            i <= blocks.len(),
            forall|j: int| 0 <= j < i ==> !is_group_labelled(#[trigger] blocks@[j], label@),
        decreases blocks.len() - i,
    {
        match &blocks[i] {
            Block::Group(g) => {
                if same_text(&g.label, label) {
                    return Some(i);
                }
            },
            Block::Step(_) => {},
        }
        i = i + 1;
    }
    None
}

/// The place selected by a group label and a branch label (see `target_of`).
fn locate_target(blocks: &Vec<Block>, group_label: Option<&str>, branch_label: Option<&str>) -> (r: (bool, usize, usize))
    ensures
        ({
            let t = target_of(blocks@, opt_text(group_label), opt_text(branch_label));
            match t {
                Target::Missing => !r.0,
                Target::Top => r.0 && group_label is None,
                Target::InGroup(gi) => r.0 && group_label is Some && branch_label is None && r.1 == gi,
                Target::InBranch(gi, k) => r.0 && group_label is Some && branch_label is Some && r.1 == gi && r.2 == k,
            }
        }),
        r.0 && group_label is Some ==> {
            &&& r.1 < blocks@.len()
            &&& blocks@[r.1 as int] is Group
            &&& branch_label is Some ==> r.2 < group_of(blocks@[r.1 as int]).branches@.len()
        },
{
    match group_label {
        None => (true, 0, 0),
        Some(label) => {
            let key = to_owned_string(label);
            match group_position(blocks, &key) {
                None => (false, 0, 0),
                Some(gi) => {
                    proof {
                        let c = choose|i: int| is_first_group(blocks@, label@, i);
                        assert(is_first_group(blocks@, label@, gi as int));
                        assert(c == gi) by {
                            if c < gi {
                                assert(!is_group_labelled(blocks@[c], label@));
                            } else if c > gi {
                                assert(!is_group_labelled(blocks@[gi as int], label@));
                            }
                        }
                    }
                    match &blocks[gi] {
                        Block::Group(g) => {
                            if g.group_type == GroupType::Alt {
                                match branch_label {
                                    Some(bl) => {
                                        let bkey = to_owned_string(bl);
                                        match position_of(&g.branches, &bkey) {
                                            Some(k) => {
                                                proof {
                                                    let c = choose|x: int| is_first_key(g.branches@, bl@, x);
                                                    assert(c == k) by {
                                                        if c < k {
                                                            assert(g.branches@[c].key() != bl@);
                                                        } else if c > k {
                                                            assert(g.branches@[k as int].key() != bl@);
                                                        }
                                                    }
                                                }
                                                (true, gi, k)
                                            },
                                            None => (false, 0, 0),
                                        }
                                    },
                                    None => (false, 0, 0),
                                }
                            } else {
                                match branch_label {
                                    Some(_) => (false, 0, 0),
                                    None => (true, gi, 0),
                                }
                            }
                        },
                        Block::Step(_) => (false, 0, 0),
                    }
                },
            }
        },
    }
}

fn max_in_branch(br: &GroupBranch) -> (m: u32)
    ensures
        m == max_order_blocks(br.blocks@),
    decreases br,
{
    Scenario::find_max_order(&br.blocks)
}

fn steps_in_branch<'a>(br: &'a GroupBranch, steps: &mut Vec<&'a Step>)
    ensures
        final(steps)@.map_values(|s: &Step| *s) == old(steps)@.map_values(|s: &Step| *s) + steps_of_blocks(br.blocks@),
    decreases br,
{
    Scenario::collect_steps_from_blocks(&br.blocks, steps);
}

fn max_of_branches(brs: &Vec<GroupBranch>) -> (m: u32)
    ensures
        m == max_order_branches(brs@),
    decreases brs,
{
    let mut m: u32 = 0;
    let mut k: usize = 0;
    while k < brs.len()
        invariant
            k <= brs.len(),
            m == max_order_branches(brs@.take(k as int)),
        decreases brs.len() - k,
    {
        assert(brs@.take(k + 1).drop_last() =~= brs@.take(k as int));
        proof {
            assert(decreases_to!(*brs => brs@[k as int]));
        }
        let inner = max_in_branch(&brs[k]);
        if inner > m {
            m = inner;
        }
        k = k + 1;
    }
    assert(brs@.take(brs@.len() as int) =~= brs@);
    m
}

fn max_of_block(b: &Block) -> (m: u32)
    ensures
        m == max_order_block(*b),
    decreases b,
{
    match b {
        Block::Step(s) => s.order,
        Block::Group(g) => {
            if g.branches.len() == 0 {
                Scenario::find_max_order(&g.blocks)
            } else {
                max_of_branches(&g.branches)
            }
        },
    }
}

fn steps_of_branch_list<'a>(brs: &'a Vec<GroupBranch>, steps: &mut Vec<&'a Step>)
    ensures
        final(steps)@.map_values(|s: &Step| *s) == old(steps)@.map_values(|s: &Step| *s) + steps_of_branches(brs@),
    decreases brs,
{
    let ghost start = steps@.map_values(|x: &Step| *x);
    let mut k: usize = 0;
    while k < brs.len()
        invariant
            k <= brs.len(),
            steps@.map_values(|x: &Step| *x) == start + steps_of_branches(brs@.take(k as int)),
        decreases brs.len() - k,
    {
        assert(brs@.take(k + 1).drop_last() =~= brs@.take(k as int));
        proof {
            assert(decreases_to!(*brs => brs@[k as int]));
        }
        steps_in_branch(&brs[k], steps);
        assert(start + steps_of_branches(brs@.take(k + 1))
            =~= start + steps_of_branches(brs@.take(k as int)) + steps_of_blocks(brs@[k as int].blocks@));
        k = k + 1;
    }
    assert(brs@.take(brs@.len() as int) =~= brs@);
}

fn steps_of<'a>(b: &'a Block, steps: &mut Vec<&'a Step>)
    ensures
        final(steps)@.map_values(|s: &Step| *s) == old(steps)@.map_values(|s: &Step| *s) + steps_of_block(*b),
    decreases b,
{
    match b {
        Block::Step(s) => {
            let ghost prev = steps@;
            steps.push(s);
            assert(steps@.map_values(|x: &Step| *x) =~= prev.map_values(|x: &Step| *x) + seq![*s]);
        },
        Block::Group(g) => {
            if g.branches.len() == 0 {
                Scenario::collect_steps_from_blocks(&g.blocks, steps);
            } else {
                steps_of_branch_list(&g.branches, steps);
            }
        },
    }
}

impl Scenario {
    /// A new scenario with no participants, blocks, notes or dividers.
    pub fn new(id: &str, name: &str) -> (s: Self)
        ensures
            s.id@ == id@,
            s.name@ == name@,
            s.description is None,
            s.participants@.len() == 0,
            s.blocks@.len() == 0,
            s.notes@.len() == 0,
            s.dividers@.len() == 0,
    {
        Scenario {
            id: String::from_str(id),
            name: String::from_str(name),
            description: None,
            participants: Vec::new(),
            blocks: Vec::new(),
            notes: Vec::new(),
            dividers: Vec::new(),
        }
    }

    /// The first participant with the given element ID.
    pub fn find_participant(&self, element_id: &str) -> (r: Option<&Participant>)
        ensures
            match r {
                Some(p) => exists|i: int| is_first_key(self.participants@, element_id@, i) && self.participants@[i] == *p,
                None => !has_key(self.participants@, element_id@),
            },
    {
        let key = to_owned_string(element_id);
        match position_of(&self.participants, &key) {
            Some(i) => Some(&self.participants[i]),
            None => None,
        }
    }

    /// The element IDs of all participants, in order.
    pub fn participant_ids(&self) -> (r: Vec<&str>)
        ensures
            r@.len() == self.participants@.len(),
            forall|i: int| 0 <= i < self.participants@.len() ==> #[trigger] r@[i]@ == self.participants@[i].element_id@,
    {
        key_strs(&self.participants)
    }

    /// The distinct element IDs of the participants (each once, in order of
    /// first appearance).
    pub fn participant_id_set(&self) -> (r: Vec<&str>)
        ensures
            forall|x: Seq<char>| #[trigger] holds_text(r@, x) <==> has_key(self.participants@, x),
            forall|i: int, j: int| 0 <= i < r@.len() && 0 <= j < r@.len() && i != j ==> r@[i]@ != r@[j]@,
            r@.len() == keys(self.participants@).to_set().len(),
    {
        let out = self.distinct_participant_ids();
        proof {
            lemma_distinct_ids_count(out@, self.participants@);
        }
        out
    }

    fn distinct_participant_ids(&self) -> (r: Vec<&str>)
        ensures
            forall|x: Seq<char>| #[trigger] holds_text(r@, x) <==> has_key(self.participants@, x),
            forall|i: int, j: int| 0 <= i < r@.len() && 0 <= j < r@.len() && i != j ==> r@[i]@ != r@[j]@,
    {
        let mut out: Vec<&str> = Vec::new();
        let mut i: usize = 0;
        while i < self.participants.len()
            invariant
                i <= self.participants.len(),
                forall|x: Seq<char>| #[trigger] holds_text(out@, x) <==> has_key(self.participants@.take(i as int), x),
                forall|a: int, b: int| 0 <= a < out@.len() && 0 <= b < out@.len() && a != b ==> out@[a]@ != out@[b]@,
            decreases self.participants.len() - i,
        {
            let id = self.participants[i].element_id.as_str();
            let found = holds_str(&out, id);
            let ghost pre = self.participants@.take(i as int);
            let ghost post = self.participants@.take(i + 1);
            assert(post =~= pre.push(self.participants@[i as int]));
            assert forall|x: Seq<char>| has_key(post, x) <==> (has_key(pre, x) || x == id@) by {
                if has_key(post, x) {
                    let w = choose|j: int| 0 <= j < post.len() && #[trigger] post[j].key() == x;
                    if w < pre.len() {
                        assert(pre[w].key() == x);
                    }
                }
                if x == id@ {
                    assert(post[i as int].key() == x);
                }
                if has_key(pre, x) {
                    let w = choose|j: int| 0 <= j < pre.len() && #[trigger] pre[j].key() == x;
                    assert(post[w].key() == x);
                }
            }
            if !found {
                let ghost prev = out@;
                out.push(id);
                assert forall|x: Seq<char>| #[trigger] holds_text(out@, x) <==> (holds_text(prev, x) || x == id@) by {
                    if holds_text(out@, x) {
                        let w = choose|k: int| 0 <= k < out@.len() && #[trigger] out@[k]@ == x;
                        if w < prev.len() {
                            assert(prev[w]@ == x);
                        }
                    }
                    if holds_text(prev, x) {
                        let w = choose|k: int| 0 <= k < prev.len() && #[trigger] prev[k]@ == x;
                        assert(out@[w]@ == x);
                    }
                    if x == id@ {
                        assert(out@[prev.len() as int]@ == x);
                    }
                }
            }
            i = i + 1;
        }
        assert(self.participants@.take(self.participants@.len() as int) =~= self.participants@);
        out
    }

    /// The first top-level group labelled `label`, for modification.
    pub fn find_group_mut(&mut self, label: &str) -> (r: Option<&mut Group>)
        ensures
            match r {
                Some(g) => exists|i: int| {
                    &&& is_first_group(old(self).blocks@, label@, i)
                    &&& old(self).blocks@[i] == Block::Group(*g)
                    &&& final(self).blocks@ == old(self).blocks@.update(i, Block::Group(*final(g)))
                },
                None => !has_group(old(self).blocks@, label@) && *final(self) == *old(self),
            },
            final(self).id == old(self).id,
            final(self).name == old(self).name,
            final(self).description == old(self).description,
            final(self).participants == old(self).participants,
            final(self).notes == old(self).notes,
            final(self).dividers == old(self).dividers,
    {
        let key = to_owned_string(label);
        match group_position(&self.blocks, &key) {
            Some(i) => match &mut self.blocks[i] {
                Block::Group(g) => Some(g),
                Block::Step(_) => None,
            },
            None => None,
        }
    }

    /// The first top-level group labelled `label`.
    pub fn find_group(&self, label: &str) -> (r: Option<&Group>)
        ensures
            match r {
                Some(g) => exists|i: int| is_first_group(self.blocks@, label@, i) && self.blocks@[i] == Block::Group(*g),
                None => !has_group(self.blocks@, label@),
            },
    {
        let key = to_owned_string(label);
        match group_position(&self.blocks, &key) {
            Some(i) => match &self.blocks[i] {
                Block::Group(g) => Some(g),
                Block::Step(_) => None,
            },
            None => None,
        }
    }

    /// All steps, depth first (see `steps_of_blocks`).
    pub fn collect_all_steps(&self) -> (r: Vec<&Step>)
        ensures
            r@.map_values(|s: &Step| *s) == steps_of_blocks(self.blocks@),
    {
        let mut steps: Vec<&Step> = Vec::new();
        assert(steps@.map_values(|s: &Step| *s) =~= Seq::<Step>::empty());
        Self::collect_steps_from_blocks(&self.blocks, &mut steps);
        assert(Seq::<Step>::empty() + steps_of_blocks(self.blocks@) =~= steps_of_blocks(self.blocks@));
        steps
    }

    /// The largest step order anywhere in the scenario (0 when there is none).
    pub fn max_step_order(&self) -> (m: u32)
        ensures
            m == max_order_blocks(self.blocks@),
    {
        Self::find_max_order(&self.blocks)
    }

    fn find_max_order(blocks: &Vec<Block>) -> (m: u32)
        ensures
            m == max_order_blocks(blocks@),
        decreases blocks,
    {
        let mut max_order: u32 = 0;
        let mut i: usize = 0;
        while i < blocks.len()
            invariant
                i <= blocks.len(),
                max_order == max_order_blocks(blocks@.take(i as int)),
            decreases blocks.len() - i,
        {
            assert(blocks@.take(i + 1).drop_last() =~= blocks@.take(i as int));
            proof {
                assert(decreases_to!(*blocks => blocks@[i as int]));
            }
            let inner = max_of_block(&blocks[i]);
            if inner > max_order {
                max_order = inner;
            }
            i = i + 1;
        }
        assert(blocks@.take(blocks@.len() as int) =~= blocks@);
        max_order
    }

    fn collect_steps_from_blocks<'a>(blocks: &'a Vec<Block>, steps: &mut Vec<&'a Step>)
        ensures
            final(steps)@.map_values(|s: &Step| *s) == old(steps)@.map_values(|s: &Step| *s) + steps_of_blocks(blocks@),
        decreases blocks,
    {
        let ghost start = steps@.map_values(|s: &Step| *s);
        let mut i: usize = 0;
        while i < blocks.len()
            invariant
                i <= blocks.len(),
                steps@.map_values(|s: &Step| *s) == start + steps_of_blocks(blocks@.take(i as int)),
            decreases blocks.len() - i,
        {
            assert(blocks@.take(i + 1).drop_last() =~= blocks@.take(i as int));
            proof {
                assert(decreases_to!(*blocks => blocks@[i as int]));
            }
            steps_of(&blocks[i], steps);
            assert(start + steps_of_blocks(blocks@.take(i + 1))
                =~= start + steps_of_blocks(blocks@.take(i as int)) + steps_of_block(blocks@[i as int]));
            i = i + 1;
        }
        assert(blocks@.take(blocks@.len() as int) =~= blocks@);
    }

    /// The blocks at the place that the labels select (see `target_of`), read only.
    pub(crate) fn target_blocks(&self, group_label: Option<&str>, branch_label: Option<&str>) -> (r: Option<&Vec<Block>>)
        ensures
            ({
                let t = target_of(self.blocks@, opt_text(group_label), opt_text(branch_label));
                match r {
                    Some(b) => !(t is Missing) && b@ == blocks_at(self.blocks@, t),
                    None => t is Missing,
                }
            }),
    {
        let (ok, gi, k) = locate_target(&self.blocks, group_label, branch_label);
        if !ok {
            return None;
        }
        match group_label {
            None => Some(&self.blocks),
            Some(_) => match &self.blocks[gi] {
                Block::Group(g) => match branch_label {
                    Some(_) => Some(&g.branches[k].blocks),
                    None => Some(&g.blocks),
                },
                Block::Step(_) => None,
            },
        }
    }

    /// The blocks into which a new step or group goes: the top-level blocks
    /// without a group label; otherwise the blocks of the first top-level
    /// group with that label, or, for an alt group, of its branch with the
    /// given branch label. `None` when the group or branch does not exist, when
    /// an alt group is given no branch label, or when another group is given
    /// one (see `target_of`).
    pub fn get_target_blocks_mut(
        &mut self,
        group_label: Option<&str>,
        branch_label: Option<&str>,
    ) -> (r: Option<&mut Vec<Block>>)
        ensures
            ({
                let t = target_of(old(self).blocks@, opt_text(group_label), opt_text(branch_label));
                match r {
                    Some(b) => {
                        &&& !(t is Missing)
                        &&& b@ == blocks_at(old(self).blocks@, t)
                        &&& replaced_at(old(self).blocks@, final(self).blocks@, t, final(b)@)
                    },
                    None => t is Missing && *final(self) == *old(self),
                }
            }),
            final(self).id == old(self).id,
            final(self).name == old(self).name,
            final(self).description == old(self).description,
            final(self).participants == old(self).participants,
            final(self).notes == old(self).notes,
            final(self).dividers == old(self).dividers,
    {
        let (ok, gi, k) = locate_target(&self.blocks, group_label, branch_label);
        if !ok {
            return None;
        }
        match group_label {
            None => Some(&mut self.blocks),
            Some(_) => match &mut self.blocks[gi] {
                Block::Group(g) => match branch_label {
                    Some(_) => Some(&mut g.branches[k].blocks),
                    None => Some(&mut g.blocks),
                },
                Block::Step(_) => None,
            },
        }
    }
}

/// A participant in a scenario (references a static model element).
#[derive(Debug)]
pub struct Participant {
    pub element_id: String,
    pub participant_type: ParticipantType,
    pub alias: Option<String>,
    pub color: Option<String>,
}

impl Keyed for Participant {
    open spec fn key(&self) -> Seq<char> {
        self.element_id@
    }

    fn key_text(&self) -> (r: &String) {
        &self.element_id
    }
}

/// The participant type used when none is given.
pub fn default_participant_type() -> (t: ParticipantType)
    ensures
        t == ParticipantType::Participant,
{
    ParticipantType::Participant
}

/// How a participant is drawn.
#[derive(Debug, Clone, Copy, PartialEq, Eq, Structural)]
pub enum ParticipantType {
    Participant,
    Actor,
    Boundary,
    Control,
    Entity,
    Database,
    Collections,
    Queue,
}

impl Default for ParticipantType {
    fn default() -> (r: Self)
        ensures
            r == ParticipantType::Participant,
    {
        ParticipantType::Participant
    }
}

/// A block in the scenario tree (recursive).
#[derive(Debug)]
pub enum Block {
    Step(Step),
    Group(Group),
}

/// An interaction step between participants.
#[derive(Debug)]
pub struct Step {
    pub order: u32,
    pub from: String,
    pub to: String,
    pub message: String,
    pub step_type: StepType,
    pub protocol: Option<String>,
    pub color: Option<String>,
    pub activate_target: Option<bool>,
}

/// The step type used when none is given.
pub fn default_step_type() -> (t: StepType)
    ensures
        t == StepType::Sync,
{
    StepType::Sync
}

/// The kind of message a step sends.
#[derive(Debug, Clone, Copy, PartialEq, Eq, Structural)]
pub enum StepType {
    Sync,
    Async,
    Return,
    Lost,
}

impl Default for StepType {
    fn default() -> (r: Self)
        ensures
            r == StepType::Sync,
    {
        StepType::Sync
    }
}

/// A group (UML combined fragment).
#[derive(Debug)]
pub struct Group {
    pub group_type: GroupType,
    pub label: String,
    pub blocks: Vec<Block>,
    pub branches: Vec<GroupBranch>,
}

/// The kind of a combined fragment.
#[derive(Debug, Clone, Copy, PartialEq, Eq, Structural)]
pub enum GroupType {
    Alt,
    Opt,
    Loop,
    Par,
    Break,
    Critical,
    Group,
}

/// A branch within an alt group.
#[derive(Debug)]
pub struct GroupBranch {
    pub label: String,
    pub blocks: Vec<Block>,
}

impl Keyed for GroupBranch {
    open spec fn key(&self) -> Seq<char> {
        self.label@
    }

    fn key_text(&self) -> (r: &String) {
        &self.label
    }
}

/// An annotation note.
#[derive(Debug)]
pub struct Note {
    pub position: NotePosition,
    pub target: String,
    pub text: String,
}

/// Where a note is placed relative to its target.
#[derive(Debug, Clone, Copy, PartialEq, Eq, Structural)]
pub enum NotePosition {
    Left,
    Right,
    Over,
}

/// A logical section divider.
#[derive(Debug)]
pub struct Divider {
    pub label: String,
    pub after_order: u32,
}

} // verus!
