use vstd::prelude::*;
use crate::utils::clock::now_seconds;
use crate::model::logic::concept::str_views;
use crate::utils::keyed::{Keyed, has_key, is_first_key, position_of, remove_all_with_key, key_differs, lemma_first_key_unique, lemma_first_key_exists};
use crate::utils::text::{to_owned_string, same_text, to_upper, uppercase, has_text, contains_text};

verus! {

/// Root structure for a logic architecture concept model: the hierarchy
/// rules of a logic view.
#[derive(Debug)]
pub struct LogicArchitectureConceptModel {
    pub version: String,
    pub kind: ConceptModelKind,
    pub metadata: ConceptMetadata,
    pub hierarchy: HierarchyDefinition,
    /// Element types allowed in this concept model.
    pub element_types: Vec<ElementTypeDefinition>,
}

/// Whether the level lists `child`, or the wildcard `*`, among what it can contain.
pub open spec fn level_admits(l: LevelDefinition, child: Seq<char>) -> bool {
    has_text(l.can_contain@, child) || has_text(l.can_contain@, "*"@)
}

/// The first level with ID `id`.
pub open spec fn level_of(levels: Seq<LevelDefinition>, id: Seq<char>) -> Option<LevelDefinition> {
    if has_key(levels, id) {
        Some(levels[choose|i: int| is_first_key(levels, id, i)])
    } else {
        None
    }
}

/// Whether some element type's uppercase ID is the uppercase of `name`.
pub open spec fn has_type(types: Seq<ElementTypeDefinition>, name: Seq<char>) -> bool {
    exists|i: int| 0 <= i < types.len() && uppercase(#[trigger] types[i].id@) == uppercase(name)
}

/// What `add_element_type` does to the element types: a type stored under
/// the uppercase of `label`, named `label`, is added unless one of that name
/// exists, in which case nothing changes.
pub open spec fn element_type_added(types: Vec<ElementTypeDefinition>, new_types: Vec<ElementTypeDefinition>, label: Seq<char>, r: bool) -> bool {
    &&& r == !has_type(types@, uppercase(label))
    &&& r ==> new_types@.len() == types@.len() + 1
        && new_types@.drop_last() == types@
        && new_types@.last().id@ == uppercase(label)
        && new_types@.last().name@ == label
        && new_types@.last().description is None
    &&& !r ==> new_types == types
}

/// What `add_containment` does to the levels: the level named by the
/// uppercase of `parent` gets the uppercase of `child` added to what it can
/// contain, unless it lists it already; a missing level is added, named `parent`.
pub open spec fn containment_added(levels: Seq<LevelDefinition>, new_levels: Seq<LevelDefinition>, parent: Seq<char>, child: Seq<char>, r: bool) -> bool {
    let pu = uppercase(parent);
    let cu = uppercase(child);
    if has_key(levels, pu) {
        let i = choose|i: int| is_first_key(levels, pu, i);
        if has_text(levels[i].can_contain@, cu) {
            !r && new_levels == levels
        } else {
            &&& r
            &&& new_levels.len() == levels.len()
            &&& forall|j: int| 0 <= j < levels.len() && j != i ==> new_levels[j] == levels[j]
            &&& new_levels[i].id == levels[i].id
            &&& new_levels[i].name == levels[i].name
            &&& new_levels[i].description == levels[i].description
            &&& new_levels[i].can_contain@.drop_last() == levels[i].can_contain@
            &&& new_levels[i].can_contain@.len() == levels[i].can_contain@.len() + 1
            &&& new_levels[i].can_contain@.last()@ == cu
        }
    } else {
        &&& r
        &&& new_levels.len() == levels.len() + 1
        &&& new_levels.drop_last() == levels
        &&& new_levels.last().id@ == pu
        &&& new_levels.last().name@ == parent
        &&& new_levels.last().description is None
        &&& new_levels.last().can_contain@.len() == 1
        &&& new_levels.last().can_contain@[0]@ == cu
    }
}

/// Whether some used type, uppercased, equals `id`.
pub open spec fn type_used(used: Seq<Seq<char>>, id: Seq<char>) -> bool {
    exists|i: int| 0 <= i < used.len() && uppercase(#[trigger] used[i]) == id
}


impl LogicArchitectureConceptModel {
    /// A new concept model with an empty hierarchy and no element types.
    pub fn new(title: &str) -> (m: Self)
        ensures
            m.metadata.created_at >= 0,
            m.metadata.updated_at >= 0,
            m.version@ == "1.0"@,
            m.kind == ConceptModelKind::LogicArchitectureConceptModel,
            m.metadata.title@ == title@,
            m.metadata.description is None,
            m.hierarchy.levels@.len() == 0,
            m.element_types@.len() == 0,
    {
        LogicArchitectureConceptModel {
            version: String::from_str("1.0"),
            kind: ConceptModelKind::LogicArchitectureConceptModel,
            metadata: ConceptMetadata {
                title: String::from_str(title),
                description: None,
                created_at: now_seconds(),
                updated_at: now_seconds(),
            },
            hierarchy: HierarchyDefinition::empty(),
            element_types: Vec::new(),
        }
    }

    /// Updates the modification time; nothing else changes.
    pub fn touch(&mut self)
        ensures
            final(self).metadata.updated_at >= 0,
            final(self).version == old(self).version,
            final(self).kind == old(self).kind,
            final(self).metadata.title == old(self).metadata.title,
            final(self).metadata.description == old(self).metadata.description,
            final(self).metadata.created_at == old(self).metadata.created_at,
            final(self).hierarchy == old(self).hierarchy,
            final(self).element_types == old(self).element_types,
    {
        self.metadata.updated_at = now_seconds();
    }

    /// The first level whose ID is exactly `level_id`.
    pub fn get_level(&self, level_id: &str) -> (r: Option<&LevelDefinition>)
        ensures
            match r {
                Some(l) => level_of(self.hierarchy.levels@, level_id@) == Some(*l),
                None => level_of(self.hierarchy.levels@, level_id@) is None,
            },
    {
        let key = to_owned_string(level_id);
        match position_of(&self.hierarchy.levels, &key) {
            Some(i) => {
                proof {
                    lemma_first_key_unique(self.hierarchy.levels@, level_id@, i as int);
                }
                Some(&self.hierarchy.levels[i])
            },
            None => None,
        }
    }

    /// Whether the level `parent_type` (exact ID) may contain `child_type`,
    /// directly or through the wildcard `*`.
    pub fn can_contain(&self, parent_type: &str, child_type: &str) -> (r: bool)
        ensures
            r == match level_of(self.hierarchy.levels@, parent_type@) {
                Some(l) => level_admits(l, child_type@),
                None => false,
            },
            forall|i: int| #[trigger] is_first_key(self.hierarchy.levels@, parent_type@, i)
                && has_text(self.hierarchy.levels@[i].can_contain@, "*"@) ==> r,
            forall|i: int| #[trigger] is_first_key(self.hierarchy.levels@, parent_type@, i)
                && has_text(self.hierarchy.levels@[i].can_contain@, child_type@) ==> r,
            !has_key(self.hierarchy.levels@, parent_type@) ==> !r,
    {
        proof {
            assert forall|i: int| #[trigger] is_first_key(self.hierarchy.levels@, parent_type@, i) implies
                level_of(self.hierarchy.levels@, parent_type@) == Some(self.hierarchy.levels@[i]) by {
                lemma_first_key_unique(self.hierarchy.levels@, parent_type@, i);
            }
        }
        match self.get_level(parent_type) {
            Some(level) => {
                let child = to_owned_string(child_type);
                let star = String::from_str("*");
                contains_text(&level.can_contain, &child) || contains_text(&level.can_contain, &star)
            },
            None => false,
        }
    }

    /// The root level (the first level of the hierarchy).
    pub fn root_level(&self) -> (r: Option<&LevelDefinition>)
        ensures
            match r {
                Some(l) => self.hierarchy.levels@.len() > 0 && *l == self.hierarchy.levels@[0],
                None => self.hierarchy.levels@.len() == 0,
            },
    {
        if self.hierarchy.levels.len() == 0 {
            None
        } else {
            Some(&self.hierarchy.levels[0])
        }
    }

    /// Whether an element type of this name is defined (case-insensitive:
    /// both sides are uppercased).
    pub fn has_element_type(&self, type_label: &str) -> (r: bool)
        ensures
            r == has_type(self.element_types@, type_label@),
    {
        let upper = to_upper(type_label);
        let mut i: usize = 0;
        while i < self.element_types.len()
            invariant
                i <= self.element_types.len(),
                upper@ == uppercase(type_label@),
                forall|j: int| 0 <= j < i ==> uppercase(#[trigger] self.element_types@[j].id@) != upper@,
            decreases self.element_types.len() - i,
        {
            let et_upper = to_upper(self.element_types[i].id.as_str());
            if same_text(&et_upper, &upper) {
                return true;
            }
            i = i + 1;
        }
        false
    }

    /// Adds an element type (stored under the uppercase of `type_label`, named
    /// `type_label`); `false`, with nothing changed, when one of that name exists.
    pub fn add_element_type(&mut self, type_label: &str) -> (r: bool)
        ensures
            element_type_added(old(self).element_types, final(self).element_types, type_label@, r),
            final(self).hierarchy == old(self).hierarchy,
            final(self).version == old(self).version,
            final(self).kind == old(self).kind,
    {
        let upper = to_upper(type_label);
        if self.has_element_type(upper.as_str()) {
            return false;
        }
        let ghost prev = self.element_types@;
        self.element_types.push(ElementTypeDefinition {
            id: upper,
            name: to_owned_string(type_label),
            description: None,
        });
        assert(self.element_types@.drop_last() =~= prev);
        self.touch();
        true
    }

    /// Removes every element type whose ID is the uppercase of `type_label`;
    /// `true` when one was removed.
    pub fn remove_element_type(&mut self, type_label: &str) -> (r: bool)
        ensures
            final(self).element_types@ == old(self).element_types@.filter(key_differs::<ElementTypeDefinition>(uppercase(type_label@))),
            r == has_key(old(self).element_types@, uppercase(type_label@)),
            final(self).hierarchy == old(self).hierarchy,
            final(self).version == old(self).version,
            final(self).kind == old(self).kind,
    {
        let upper = to_upper(type_label);
        let before = self.element_types.len();
        let present = position_of(&self.element_types, &upper).is_some();
        remove_all_with_key(&mut self.element_types, &upper);
        proof {
            let pred = key_differs::<ElementTypeDefinition>(upper@);
            let old_types = old(self).element_types@;
            old_types.lemma_filter_len(pred);
            if present {
                let i = choose|i: int| is_first_key(old_types, upper@, i);
                assert(is_first_key(old_types, upper@, i));
                lemma_filter_drops(old_types, pred, i);
            } else {
                lemma_filter_keeps(old_types, pred);
            }
        }
        if self.element_types.len() != before {
            self.touch();
            true
        } else {
            false
        }
    }

    /// The IDs of the element types that no used type names (comparing the
    /// uppercase of each used type with the stored ID), in order.
    pub fn get_unused_element_types(&self, used_types: &[&str]) -> (r: Vec<&str>)
        ensures
            r@.map_values(|s: &str| s@)
                == self.element_types@.filter(|et: ElementTypeDefinition| !type_used(str_views(used_types@), et.id@)).map_values(|et: ElementTypeDefinition| et.id@),
    {
        let mut out: Vec<&str> = Vec::new();
        let ghost pred = |et: ElementTypeDefinition| !type_used(str_views(used_types@), et.id@);
        let mut i: usize = 0;
        while i < self.element_types.len()
            invariant
                i <= self.element_types.len(),
                pred == |et: ElementTypeDefinition| !type_used(str_views(used_types@), et.id@),
                out@.map_values(|s: &str| s@)
                    == self.element_types@.take(i as int).filter(pred).map_values(|et: ElementTypeDefinition| et.id@),
            decreases self.element_types.len() - i,
        {
            proof {
                reveal_with_fuel(Seq::<_>::filter, 1);
            }
            assert(self.element_types@.take(i + 1).drop_last() =~= self.element_types@.take(i as int));
            let et = &self.element_types[i];
            let mut used = false;
            let mut k: usize = 0;
            while k < used_types.len()
                invariant
                    k <= used_types.len(),
                    used == (exists|m: int| 0 <= m < k && uppercase(#[trigger] used_types@[m]@) == et.id@),
                decreases used_types.len() - k,
            {
                let u = to_upper(used_types[k]);
                if same_text(&u, &et.id) {
                    used = true;
                }
                k = k + 1;
            }
            proof {
                let names = str_views(used_types@);
                if used {
                    let m = choose|m: int| 0 <= m < k && uppercase(#[trigger] used_types@[m]@) == et.id@;
                    assert(names[m] == used_types@[m]@);
                }
                if type_used(names, et.id@) {
                    let m = choose|m: int| 0 <= m < names.len() && uppercase(#[trigger] names[m]) == et.id@;
                    assert(names[m] == used_types@[m]@);
                }
            }
            assert(used == type_used(str_views(used_types@), et.id@));
            if !used {
                let ghost prev = out@;
                out.push(et.id.as_str());
                assert(out@.map_values(|s: &str| s@) =~= prev.map_values(|s: &str| s@).push(et.id@));
            }
            i = i + 1;
        }
        assert(self.element_types@.take(self.element_types@.len() as int) =~= self.element_types@);
        out
    }

    /// Whether a level with ID equal to the uppercase of `level_id` exists.
    pub fn has_level(&self, level_id: &str) -> (r: bool)
        ensures
            r == has_key(self.hierarchy.levels@, uppercase(level_id@)),
    {
        let upper = to_upper(level_id);
        position_of(&self.hierarchy.levels, &upper).is_some()
    }

    /// Whether the level named by the uppercase of `parent_type` lists the
    /// uppercase of `child_type` (the wildcard does not count here).
    pub fn has_containment(&self, parent_type: &str, child_type: &str) -> (r: bool)
        ensures
            r == match level_of(self.hierarchy.levels@, uppercase(parent_type@)) {
                Some(l) => has_text(l.can_contain@, uppercase(child_type@)),
                None => false,
            },
    {
        let parent_upper = to_upper(parent_type);
        let child_upper = to_upper(child_type);
        match self.get_level(parent_upper.as_str()) {
            Some(level) => contains_text(&level.can_contain, &child_upper),
            None => false,
        }
    }

    /// Records that the level named by the uppercase of `parent_type` may
    /// contain the uppercase of `child_type`, creating the level (named
    /// `parent_type`) when it does not exist. `false`, with nothing changed,
    /// when the containment is already listed.
    pub fn add_containment(&mut self, parent_type: &str, child_type: &str) -> (r: bool)
        ensures
            containment_added(old(self).hierarchy.levels@, final(self).hierarchy.levels@, parent_type@, child_type@, r),
            final(self).element_types == old(self).element_types,
            final(self).version == old(self).version,
            final(self).kind == old(self).kind,
    {
        let parent_upper = to_upper(parent_type);
        let child_upper = to_upper(child_type);
        match position_of(&self.hierarchy.levels, &parent_upper) {
            Some(i) => {
                proof {
                    lemma_first_key_unique(self.hierarchy.levels@, parent_upper@, i as int);
                }
                if contains_text(&self.hierarchy.levels[i].can_contain, &child_upper) {
                    return false;
                }
                let ghost prev_levels = self.hierarchy.levels@;
                let level = &mut self.hierarchy.levels[i];
                let ghost prev_cc = level.can_contain@;
                level.can_contain.push(child_upper);
                assert(level.can_contain@.drop_last() =~= prev_cc);
            },
            None => {
                let ghost prev_levels = self.hierarchy.levels@;
                let mut cc: Vec<String> = Vec::new();
                cc.push(child_upper);
                self.hierarchy.levels.push(LevelDefinition {
                    id: parent_upper,
                    name: to_owned_string(parent_type),
                    description: None,
                    can_contain: cc,
                });
                assert(self.hierarchy.levels@.drop_last() =~= prev_levels);
            },
        }
        self.touch();
        true
    }
}

/// After `add_containment(parent, child)`, whatever it returned,
/// `has_containment(parent, child)` holds: the level named by the uppercase
/// of `parent` lists the uppercase of `child`.
pub proof fn lemma_containment_recorded(
    levels: Seq<LevelDefinition>,
    new_levels: Seq<LevelDefinition>,
    parent: Seq<char>,
    child: Seq<char>,
    r: bool,
)
    requires
        containment_added(levels, new_levels, parent, child, r),
    ensures
        match level_of(new_levels, uppercase(parent)) {
            Some(l) => has_text(l.can_contain@, uppercase(child)),
            None => false,
        },
{
    let pu = uppercase(parent);
    let cu = uppercase(child);
    if has_key(levels, pu) {
        lemma_first_key_exists(levels, pu);
        let i = choose|i: int| is_first_key(levels, pu, i);
        if !has_text(levels[i].can_contain@, cu) {
            assert(new_levels[i].key() == levels[i].key());
            assert forall|j: int| 0 <= j < i implies #[trigger] new_levels[j].key() != pu by {
                assert(new_levels[j] == levels[j]);
                assert(levels[j].key() != pu);
            }
            assert(is_first_key(new_levels, pu, i));
            assert(has_key(new_levels, pu));
            lemma_first_key_unique(new_levels, pu, i);
            let cc = new_levels[i].can_contain@;
            assert(cc[cc.len() - 1]@ == cu);
        }
    } else {
        let n = new_levels.len() - 1;
        assert(new_levels[n].key() == pu);
        assert forall|j: int| 0 <= j < n implies #[trigger] new_levels[j].key() != pu by {
            assert(new_levels.drop_last()[j] == levels[j]);
        }
        assert(is_first_key(new_levels, pu, n));
        assert(has_key(new_levels, pu));
        lemma_first_key_unique(new_levels, pu, n);
        assert(new_levels[n].can_contain@[0]@ == cu);
    }
}

proof fn lemma_filter_keeps<T>(s: Seq<T>, pred: spec_fn(T) -> bool)
    requires
        forall|i: int| 0 <= i < s.len() ==> pred(#[trigger] s[i]),
    ensures
        s.filter(pred).len() == s.len(),
    decreases s.len(),
{
    reveal_with_fuel(Seq::<_>::filter, 1);
    if s.len() > 0 {
        lemma_filter_keeps(s.drop_last(), pred);
    }
}

proof fn lemma_filter_drops<T: Keyed>(s: Seq<T>, pred: spec_fn(T) -> bool, i: int)
    requires
        0 <= i < s.len(),
        !pred(s[i]),
    ensures
        s.filter(pred).len() < s.len(),
    decreases s.len(),
{
    reveal_with_fuel(Seq::<_>::filter, 1);
    s.drop_last().lemma_filter_len(pred);
    if i < s.len() - 1 {
        lemma_filter_drops(s.drop_last(), pred, i);
    }
}

/// The kind tag of a concept model.
#[derive(Debug, Clone, Copy, PartialEq, Eq, Structural)]
pub enum ConceptModelKind {
    LogicArchitectureConceptModel,
}

/// Title, description and timestamps (seconds since the Unix epoch).
#[derive(Debug)]
pub struct ConceptMetadata {
    pub title: String,
    pub description: Option<String>,
    pub created_at: i64,
    pub updated_at: i64,
}

/// The hierarchy: all levels.
#[derive(Debug)]
pub struct HierarchyDefinition {
    pub levels: Vec<LevelDefinition>,
}

impl HierarchyDefinition {
    /// A hierarchy without levels.
    pub fn empty() -> (h: Self)
        ensures
            h.levels@.len() == 0,
    {
        HierarchyDefinition { levels: Vec::new() }
    }
}

/// One level of the hierarchy and the types it can contain.
#[derive(Debug)]
pub struct LevelDefinition {
    pub id: String,
    pub name: String,
    pub description: Option<String>,
    /// Types that this level can contain.
    pub can_contain: Vec<String>,
}

impl Keyed for LevelDefinition {
    open spec fn key(&self) -> Seq<char> {
        self.id@
    }

    fn key_text(&self) -> (r: &String) {
        &self.id
    }
}

/// An element type that can be used in the logic view.
#[derive(Debug)]
pub struct ElementTypeDefinition {
    pub id: String,
    pub name: String,
    pub description: Option<String>,
}

impl Keyed for ElementTypeDefinition {
    open spec fn key(&self) -> Seq<char> {
        self.id@
    }

    fn key_text(&self) -> (r: &String) {
        &self.id
    }
}

/// The wildcard: a level that lists `*` among what it can contain admits
/// every type of child, whatever else it lists.
pub proof fn lemma_wildcard_admits_every_type(
    levels: Seq<LevelDefinition>, parent: Seq<char>, child: Seq<char>, i: int,
)
    requires
        is_first_key(levels, parent, i),
        has_text(levels[i].can_contain@, "*"@),
    ensures
        level_of(levels, parent) == Some(levels[i]),
        level_admits(levels[i], child),
{
    lemma_first_key_unique(levels, parent, i);
}

} // verus!
