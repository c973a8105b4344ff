use vstd::prelude::*;

verus! {

/// An element that is looked up by a textual key (its ID).
pub trait Keyed {
    /// The key, as characters.
    spec fn key(&self) -> Seq<char>;

    /// The key, as text.
    fn key_text(&self) -> (r: &String)
        ensures
            r@ == self.key(),
    ;
}

/// Whether some element of `s` has key `k`.
pub open spec fn has_key<T: Keyed>(s: Seq<T>, k: Seq<char>) -> bool {
    exists|i: int| 0 <= i < s.len() && #[trigger] s[i].key() == k
}

/// `i` is the first position of `s` whose element has key `k`.
pub open spec fn is_first_key<T: Keyed>(s: Seq<T>, k: Seq<char>, i: int) -> bool {
    &&& 0 <= i < s.len()
    &&& s[i].key() == k
    &&& forall|j: int| 0 <= j < i ==> #[trigger] s[j].key() != k
}

/// The position of the first element with key `k`, if any.
pub fn position_of<T: Keyed>(v: &Vec<T>, k: &String) -> (r: Option<usize>)
    ensures
        match r {
            Some(i) => is_first_key(v@, k@, i as int),
            None => !has_key(v@, k@),
        },
{
    let mut i: usize = 0;
    while i < v.len()
        invariant
            i <= v.len(),
            forall|j: int| 0 <= j < i ==> #[trigger] v@[j].key() != k@,
        decreases v.len() - i,
    {
        if v[i].key_text().eq(k) {
            return Some(i);
        }
        i = i + 1;
    }
    None
}

/// Whether some element of `v` has key `k`.
pub fn contains_key<T: Keyed>(v: &Vec<T>, k: &String) -> (r: bool)
    ensures
        r == has_key(v@, k@),
{
    match position_of(v, k) {
        Some(_) => true,
        None => false,
    }
}

/// The keys of a sequence of elements, in order.
pub open spec fn keys<T: Keyed>(s: Seq<T>) -> Seq<Seq<char>> {
    s.map_values(|e: T| e.key())
}

/// The keys of the elements of `v`, borrowed, in order.
pub fn key_strs<'a, T: Keyed>(v: &'a Vec<T>) -> (r: Vec<&'a str>)
    ensures
        r@.len() == v@.len(),
        forall|i: int| 0 <= i < v@.len() ==> #[trigger] r@[i]@ == v@[i].key(),
{
    let mut out: Vec<&'a str> = Vec::new();
    let mut i: usize = 0;
    while i < v.len()
        invariant
            i <= v.len(),
            out@.len() == i,
            forall|j: int| 0 <= j < i ==> #[trigger] out@[j]@ == v@[j].key(),
        decreases v.len() - i,
    {
        out.push(v[i].key_text().as_str());
        i = i + 1;
    }
    out
}

/// Whether all keys of `s` are pairwise distinct.
pub open spec fn keys_distinct<T: Keyed>(s: Seq<T>) -> bool {
    forall|i: int, j: int| 0 <= i < s.len() && 0 <= j < s.len() && i != j
        ==> #[trigger] s[i].key() != #[trigger] s[j].key()
}

/// Whether an element's key differs from `k`.
pub open spec fn key_differs<T: Keyed>(k: Seq<char>) -> spec_fn(T) -> bool {
    |e: T| e.key() != k
}

/// Removes, in place, every element whose key is `k`; the others keep their order.
pub fn remove_all_with_key<T: Keyed>(v: &mut Vec<T>, k: &String)
    ensures
        final(v)@ == old(v)@.filter(key_differs::<T>(k@)),
{
    let ghost orig = v@;
    let ghost pred = key_differs::<T>(k@);
    let mut i: usize = 0;
    let ghost mut j: int = 0;
    assert(orig.take(0) =~= Seq::<T>::empty());
    assert(orig.skip(0) =~= orig);
    while i < v.len()
        invariant
            0 <= j <= orig.len(),
            v@ == orig.take(j).filter(pred) + orig.skip(j),
            i == orig.take(j).filter(pred).len(),
            pred == key_differs::<T>(k@),
        decreases orig.len() - j,
    {
        let ghost pre = orig.take(j);
        proof {
            reveal_with_fuel(Seq::<_>::filter, 1);
        }
        assert(orig.take(j + 1).drop_last() =~= pre);
        assert(v@[i as int] == orig[j]);
        assert(orig.skip(j).drop_first() =~= orig.skip(j + 1));
        assert(orig.take(j + 1).last() == orig[j]);
        assert(pred(orig[j]) == (orig[j].key() != k@));
        if v[i].key_text().eq(k) {
            assert(!pred(orig[j]));
            assert(orig.take(j + 1).filter(pred) == pre.filter(pred));
            v.remove(i);
            assert(v@ =~= orig.take(j + 1).filter(pred) + orig.skip(j + 1));
        } else {
            assert(orig.take(j + 1).filter(pred) =~= pre.filter(pred).push(orig[j]));
            i = i + 1;
            assert(v@ =~= orig.take(j + 1).filter(pred) + orig.skip(j + 1));
        }
        proof {
            j = j + 1;
        }
    }
    assert(orig.take(j).filter(pred).len() <= j) by {
        orig.take(j).lemma_filter_len(pred);
    }
    assert(orig.skip(j).len() == 0);
    assert(orig.take(j) =~= orig);
    assert(v@ =~= orig.filter(pred));
}

/// Two first positions of the same key are the same position.
pub proof fn lemma_first_key_same<T: Keyed>(s: Seq<T>, k: Seq<char>, i: int, j: int)
    requires
        is_first_key(s, k, i),
        is_first_key(s, k, j),
    ensures
        i == j,
{
    if i < j {
        assert(s[i].key() != k);
    } else if j < i {
        assert(s[j].key() != k);
    }
}

/// A key that occurs has a first position.
pub proof fn lemma_first_key_exists<T: Keyed>(s: Seq<T>, k: Seq<char>)
    requires
        has_key(s, k),
    ensures
        exists|i: int| is_first_key(s, k, i),
    decreases s.len(),
{
    let w = choose|i: int| 0 <= i < s.len() && #[trigger] s[i].key() == k;
    if has_key(s.drop_last(), k) {
        lemma_first_key_exists(s.drop_last(), k);
        let i = choose|i: int| is_first_key(s.drop_last(), k, i);
        assert forall|j: int| 0 <= j < i implies #[trigger] s[j].key() != k by {
            assert(s.drop_last()[j].key() == s[j].key());
        }
        assert(is_first_key(s, k, i));
    } else {
        assert forall|j: int| 0 <= j < s.len() - 1 implies #[trigger] s[j].key() != k by {
            assert(s.drop_last()[j].key() == s[j].key());
        }
        assert(w == s.len() - 1);
        assert(is_first_key(s, k, w));
    }
}

/// The first position of a key is the one that `choose` picks.
pub proof fn lemma_first_key_unique<T: Keyed>(s: Seq<T>, k: Seq<char>, i: int)
    requires
        is_first_key(s, k, i),
    ensures
        (choose|x: int| is_first_key(s, k, x)) == i,
{
    let c = choose|x: int| is_first_key(s, k, x);
    lemma_first_key_same(s, k, i, c);
}

/// A key stays present when another position is removed.
pub proof fn lemma_has_key_remove<T: Keyed>(s: Seq<T>, i: int, k: Seq<char>)
    requires
        has_key(s, k),
        0 <= i < s.len(),
        s[i].key() != k,
    ensures
        has_key(s.remove(i), k),
{
    let w = choose|j: int| 0 <= j < s.len() && #[trigger] s[j].key() == k;
    if w < i {
        assert(s.remove(i)[w].key() == k);
    } else {
        assert(s.remove(i)[w - 1].key() == k);
    }
}

/// A key stays present when an element is appended.
pub proof fn lemma_has_key_push<T: Keyed>(s: Seq<T>, x: T, k: Seq<char>)
    requires
        has_key(s, k),
    ensures
        has_key(s.push(x), k),
{
    let w = choose|j: int| 0 <= j < s.len() && #[trigger] s[j].key() == k;
    assert(s.push(x)[w].key() == k);
}

/// Appending an element whose key is new keeps the keys distinct.
pub proof fn lemma_push_fresh_keeps_distinct<T: Keyed>(s: Seq<T>, t: Seq<T>)
    requires
        keys_distinct(s),
        t.len() == s.len() + 1,
        t.drop_last() == s,
        !has_key(s, t.last().key()),
    ensures
        keys_distinct(t),
{
    let n = s.len() as int;
    assert forall|i: int, j: int| 0 <= i < t.len() && 0 <= j < t.len() && i != j
        implies #[trigger] t[i].key() != #[trigger] t[j].key() by {
        if i < n && j < n {
            assert(t[i] == s[i] && t[j] == s[j]);
        } else if i < n {
            assert(t[i] == s[i]);
            assert(t[j] == t.last());
        } else {
            assert(t[j] == s[j]);
            assert(t[i] == t.last());
        }
    }
}

/// Removing an element keeps the keys distinct.
pub proof fn lemma_remove_keeps_distinct<T: Keyed>(s: Seq<T>, i: int)
    requires
        keys_distinct(s),
        0 <= i < s.len(),
    ensures
        keys_distinct(s.remove(i)),
{
    let t = s.remove(i);
    assert forall|a: int, b: int| 0 <= a < t.len() && 0 <= b < t.len() && a != b
        implies #[trigger] t[a].key() != #[trigger] t[b].key() by {
        let a2 = if a < i { a } else { a + 1 };
        let b2 = if b < i { b } else { b + 1 };
        assert(t[a] == s[a2] && t[b] == s[b2]);
    }
}

/// Whether an element before position `i` has key `k`.
pub fn key_before<T: Keyed>(v: &Vec<T>, i: usize, k: &String) -> (r: bool)
    requires
        i <= v@.len(),
    ensures
        r == has_key(v@.take(i as int), k@),
{
    let mut j: usize = 0;
    while j < i
        invariant
            j <= i <= v@.len(),
            forall|q: int| 0 <= q < j ==> #[trigger] v@[q].key() != k@,
        decreases i - j,
    {
        if v[j].key_text().eq(k) {
            assert(v@.take(i as int)[j as int].key() == k@);
            return true;
        }
        j = j + 1;
    }
    assert forall|q: int| 0 <= q < v@.take(i as int).len() implies #[trigger] v@.take(i as int)[q].key() != k@ by {
        assert(v@.take(i as int)[q] == v@[q]);
    }
    false
}

/// Every text of `ids` is the key of some element of `known`.
pub open spec fn all_known<T: Keyed>(known: Seq<T>, ids: Seq<String>) -> bool {
    forall|i: int| 0 <= i < ids.len() ==> has_key(known, #[trigger] ids[i]@)
}

/// `i` is the first position of `ids` whose text is no key of `known`.
pub open spec fn is_first_unknown<T: Keyed>(known: Seq<T>, ids: Seq<String>, i: int) -> bool {
    &&& 0 <= i < ids.len()
    &&& !has_key(known, ids[i]@)
    &&& forall|j: int| 0 <= j < i ==> has_key(known, #[trigger] ids[j]@)
}

/// The first position of `ids` whose text is no key of `known`, if any.
pub fn first_unknown<T: Keyed>(known: &Vec<T>, ids: &Vec<String>) -> (r: Option<usize>)
    ensures
        match r {
            Some(i) => is_first_unknown(known@, ids@, i as int),
            None => all_known(known@, ids@),
        },
{
    let mut i: usize = 0;
    while i < ids.len()
        invariant
            i <= ids.len(),
            forall|j: int| 0 <= j < i ==> has_key(known@, #[trigger] ids@[j]@),
        decreases ids.len() - i,
    {
        if !contains_key(known, &ids[i]) {
            return Some(i);
        }
        i = i + 1;
    }
    None
}

/// There is only one first unknown position.
pub proof fn lemma_first_unknown_unique<T: Keyed>(known: Seq<T>, ids: Seq<String>, i: int)
    requires
        is_first_unknown(known, ids, i),
    ensures
        (choose|x: int| is_first_unknown(known, ids, x)) == i,
{
    let c = choose|x: int| is_first_unknown(known, ids, x);
    assert(is_first_unknown(known, ids, c));
    if c < i {
        assert(has_key(known, ids[c]@));
    }
    if i < c {
        assert(has_key(known, ids[i]@));
    }
}

} // verus!
