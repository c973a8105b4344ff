use vstd::prelude::*;

verus! {

/// The texts of applying `f` to each item of a sequence, one after another.
pub open spec fn concat_map<T>(items: Seq<T>, f: spec_fn(T) -> Seq<char>) -> Seq<char>
    decreases items.len(),
{
    if items.len() == 0 {
        Seq::empty()
    } else {
        concat_map(items.drop_last(), f) + f(items.last())
    }
}

/// One more item written.
pub proof fn lemma_concat_map_step<T>(items: Seq<T>, f: spec_fn(T) -> Seq<char>, i: int)
    requires
        0 <= i < items.len(),
    ensures
        concat_map(items.take(i + 1), f) == concat_map(items.take(i), f) + f(items[i]),
{
    assert(items.take(i + 1).drop_last() =~= items.take(i));
}

/// All items written.
pub proof fn lemma_concat_map_all<T>(items: Seq<T>, f: spec_fn(T) -> Seq<char>)
    ensures
        concat_map(items.take(items.len() as int), f) == concat_map(items, f),
{
    assert(items.take(items.len() as int) =~= items);
}

/// `text` when `c` holds, nothing otherwise.
pub open spec fn text_if(c: bool, text: Seq<char>) -> Seq<char> {
    if c {
        text
    } else {
        Seq::empty()
    }
}

/// Whether `x` occurs in `t` as a run of consecutive characters.
pub open spec fn holds_text(t: Seq<char>, x: Seq<char>) -> bool {
    exists|k: int| 0 <= k && k + x.len() <= t.len() && #[trigger] t.subrange(k, k + x.len()) == x
}

/// A text holds itself.
pub proof fn lemma_holds_self(x: Seq<char>)
    ensures
        holds_text(x, x),
{
    let k: int = 0;
    assert(x.subrange(k, k + x.len()) =~= x);
}

/// What a text holds, the text with more after it holds too.
pub proof fn lemma_holds_left(a: Seq<char>, b: Seq<char>, x: Seq<char>)
    requires
        holds_text(a, x),
    ensures
        holds_text(a + b, x),
{
    let k = choose|k: int| 0 <= k && k + x.len() <= a.len() && #[trigger] a.subrange(k, k + x.len()) == x;
    assert((a + b).subrange(k, k + x.len()) =~= a.subrange(k, k + x.len()));
}

/// What a text holds, the text with more before it holds too.
pub proof fn lemma_holds_right(a: Seq<char>, b: Seq<char>, x: Seq<char>)
    requires
        holds_text(b, x),
    ensures
        holds_text(a + b, x),
{
    let k = choose|k: int| 0 <= k && k + x.len() <= b.len() && #[trigger] b.subrange(k, k + x.len()) == x;
    assert((a + b).subrange(a.len() + k, a.len() + k + x.len()) =~= b.subrange(k, k + x.len()));
}

/// Holding is transitive.
pub proof fn lemma_holds_trans(a: Seq<char>, b: Seq<char>, c: Seq<char>)
    requires
        holds_text(a, b),
        holds_text(b, c),
    ensures
        holds_text(a, c),
{
    let k1 = choose|k: int| 0 <= k && k + b.len() <= a.len() && #[trigger] a.subrange(k, k + b.len()) == b;
    let k2 = choose|k: int| 0 <= k && k + c.len() <= b.len() && #[trigger] b.subrange(k, k + c.len()) == c;
    assert(a.subrange(k1 + k2, k1 + k2 + c.len()) =~= b.subrange(k2, k2 + c.len()));
}

/// The text of each item is written into the text of them all.
pub proof fn lemma_concat_map_holds<T>(items: Seq<T>, f: spec_fn(T) -> Seq<char>, i: int)
    requires
        0 <= i < items.len(),
    ensures
        holds_text(concat_map(items, f), f(items[i])),
    decreases items.len(),
{
    let t = items.drop_last();
    if i == items.len() - 1 {
        lemma_holds_self(f(items[i]));
        lemma_holds_right(concat_map(t, f), f(items.last()), f(items[i]));
    } else {
        lemma_concat_map_holds(t, f, i);
        assert(t[i] == items[i]);
        lemma_holds_left(concat_map(t, f), f(items.last()), f(items[i]));
    }
}

} // verus!
