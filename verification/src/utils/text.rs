use vstd::prelude::*;

verus! {

/// The decimal digits of a natural number, most significant first.
pub open spec fn decimal(n: nat) -> Seq<char>
    decreases n,
{
    if n < 10 {
        seq![digit_char(n)]
    } else {
        decimal(n / 10).push(digit_char(n % 10))
    }
}

/// The character of a single decimal digit.
pub open spec fn digit_char(d: nat) -> char {
    if d == 0 { '0' }
    else if d == 1 { '1' }
    else if d == 2 { '2' }
    else if d == 3 { '3' }
    else if d == 4 { '4' }
    else if d == 5 { '5' }
    else if d == 6 { '6' }
    else if d == 7 { '7' }
    else if d == 8 { '8' }
    else { '9' }
}

fn digit_to_char(d: u64) -> (c: char)
    requires
        d < 10,
    ensures
        c == digit_char(d as nat),
{
    if d == 0 { '0' }
    else if d == 1 { '1' }
    else if d == 2 { '2' }
    else if d == 3 { '3' }
    else if d == 4 { '4' }
    else if d == 5 { '5' }
    else if d == 6 { '6' }
    else if d == 7 { '7' }
    else if d == 8 { '8' }
    else { '9' }
}

/// The decimal representation of `n`, as `n.to_string()` writes it.
pub fn decimal_string(n: u64) -> (s: String)
    ensures
        s@ == decimal(n as nat),
    decreases n,
{
    let mut out = if n < 10 {
        String::new()
    } else {
        decimal_string(n / 10)
    };
    let c = digit_to_char(n % 10);
    push_char(&mut out, c);
    proof {
        if n < 10 {
            assert(out@ =~= seq![digit_char(n as nat)]);
        }
    }
    out
}

/// Appends one character to a string.
#[verifier::external_body]
pub fn push_char(s: &mut String, c: char)
    ensures
        final(s)@ == old(s)@.push(c),
{
    s.push(c);
}

/// A new `String` holding the characters of `s`.
pub fn to_owned_string(s: &str) -> (r: String)
    ensures
        r@ == s@,
{
    String::from_str(s)
}

/// A copy of `s`.
pub fn copy_string(s: &String) -> (r: String)
    ensures
        r@ == s@,
{
    s.clone()
}

/// A copy of an optional string.
pub fn copy_opt_string(s: &Option<String>) -> (r: Option<String>)
    ensures
        opt_view(r) == opt_view(*s),
{
    match s {
        Some(v) => Some(v.clone()),
        None => None,
    }
}

/// An optional borrowed string, owned.
pub fn opt_str_to_string(s: Option<&str>) -> (r: Option<String>)
    ensures
        opt_view(r) == opt_str_view(s),
{
    match s {
        Some(v) => Some(String::from_str(v)),
        None => None,
    }
}

/// Borrows the text of an optional string.
pub fn as_opt_str(o: &Option<String>) -> (r: Option<&str>)
    ensures
        opt_str_view(r) == opt_view(*o),
        match *o {
            Some(s) => r matches Some(x) && x@ == s@,
            None => r is None,
        },
{
    match o {
        Some(s) => Some(s.as_str()),
        None => None,
    }
}

/// The characters of an optional string.
pub open spec fn opt_view(s: Option<String>) -> Option<Seq<char>> {
    match s {
        Some(v) => Some(v@),
        None => None,
    }
}

/// The characters of an optional borrowed string.
pub open spec fn opt_str_view(s: Option<&str>) -> Option<Seq<char>> {
    match s {
        Some(v) => Some(v@),
        None => None,
    }
}

/// `name` when given, `id` otherwise.
pub open spec fn name_or_id(name: Option<&str>, id: &str) -> Seq<char> {
    match name {
        Some(n) => n@,
        None => id@,
    }
}

/// Whether two strings hold the same characters.
pub fn same_text(a: &String, b: &String) -> (r: bool)
    ensures
        r == (a@ == b@),
{
    (*a).eq(b)
}

/// Whether a string is empty.
pub fn is_blank(s: &String) -> (r: bool)
    ensures
        r == (s@.len() == 0),
{
    s.as_str().is_empty()
}

/// Concatenation of two strings into a new one.
pub fn concat2(a: &str, b: &str) -> (r: String)
    ensures
        r@ == a@ + b@,
{
    let mut s = String::from_str(a);
    s.append(b);
    s
}

/// Concatenation of three strings into a new one.
pub fn concat3(a: &str, b: &str, c: &str) -> (r: String)
    ensures
        r@ == a@ + b@ + c@,
{
    let mut s = String::from_str(a);
    s.append(b);
    s.append(c);
    s
}

/// Concatenation of four strings into a new one.
pub fn concat4(a: &str, b: &str, c: &str, d: &str) -> (r: String)
    ensures
        r@ == a@ + b@ + c@ + d@,
{
    let mut s = String::from_str(a);
    s.append(b);
    s.append(c);
    s.append(d);
    s
}

/// Concatenation of five strings into a new one.
pub fn concat5(a: &str, b: &str, c: &str, d: &str, e: &str) -> (r: String)
    ensures
        r@ == a@ + b@ + c@ + d@ + e@,
{
    let mut s = String::from_str(a);
    s.append(b);
    s.append(c);
    s.append(d);
    s.append(e);
    s
}

/// The texts of `items` joined with `sep` between neighbours.
pub open spec fn join(items: Seq<Seq<char>>, sep: Seq<char>) -> Seq<char>
    decreases items.len(),
{
    if items.len() == 0 {
        Seq::empty()
    } else if items.len() == 1 {
        items[0]
    } else {
        join(items.drop_last(), sep) + sep + items.last()
    }
}

/// The characters of each string of a sequence.
pub open spec fn string_views(v: Seq<String>) -> Seq<Seq<char>> {
    v.map_values(|s: String| s@)
}

/// Joins strings with a separator.
pub fn join_strings(list: &Vec<String>, sep: &str) -> (r: String)
    ensures
        r@ == join(string_views(list@), sep@),
{
    let mut out = String::new();
    let ghost views = string_views(list@);
    let mut i: usize = 0;
    while i < list.len()
        invariant
            i <= list.len(),
            views == string_views(list@),
            out@ == join(views.take(i as int), sep@),
        decreases list.len() - i,
    {
        assert(views.take(i + 1).drop_last() =~= views.take(i as int));
        if i != 0 {
            out.append(sep);
        }
        out.append(list[i].as_str());
        proof {
            if i == 0 {
                assert(views.take(1) =~= seq![views[0]]);
            }
        }
        i = i + 1;
    }
    assert(views.take(list.len() as int) =~= views);
    out
}

/// The uppercase form of a text, as `str::to_uppercase` computes it.
pub uninterp spec fn uppercase(s: Seq<char>) -> Seq<char>;

/// Calls `str::to_uppercase`, which maps each character to its uppercase
/// equivalent by the Unicode `Uppercase` property. The contract names the
/// result `uppercase(s@)`: a function of the text alone. Nothing else is
/// stated of it (not even that it is idempotent).
#[verifier::external_body]
pub fn to_upper(s: &str) -> (r: String)
    ensures
        r@ == uppercase(s@),
{
    s.to_uppercase()
}

/// Whether some string of `v` holds the characters `x`.
pub open spec fn has_text(v: Seq<String>, x: Seq<char>) -> bool {
    exists|j: int| 0 <= j < v.len() && #[trigger] v[j]@ == x
}

/// Whether some string of `v` holds the characters `x`.
pub fn contains_text(v: &Vec<String>, x: &String) -> (r: bool)
    ensures
        r == has_text(v@, x@),
{
    let mut j: usize = 0;
    while j < v.len()
        invariant
            j <= v.len(),
            forall|k: int| 0 <= k < j ==> #[trigger] v@[k]@ != x@,
        decreases v.len() - j,
    {
        if same_text(&v[j], x) {
            return true;
        }
        j = j + 1;
    }
    false
}

/// `has_text` is membership among the strings' characters.
pub proof fn lemma_has_text_views(v: Seq<String>, x: Seq<char>)
    ensures
        has_text(v, x) == string_views(v).contains(x),
{
    if has_text(v, x) {
        let j = choose|j: int| 0 <= j < v.len() && #[trigger] v[j]@ == x;
        assert(string_views(v)[j] == x);
    }
    if string_views(v).contains(x) {
        let j = choose|j: int| 0 <= j < string_views(v).len() && string_views(v)[j] == x;
        assert(v[j]@ == x);
    }
}

/// The texts of `ids` other than `x`, in order.
pub open spec fn without(ids: Seq<Seq<char>>, x: Seq<char>) -> Seq<Seq<char>>
    decreases ids.len(),
{
    if ids.len() == 0 {
        ids
    } else {
        let rest = without(ids.drop_last(), x);
        if ids.last() == x {
            rest
        } else {
            rest.push(ids.last())
        }
    }
}

/// Copies of the strings of `v` other than `x`, in order.
pub fn without_text(v: &Vec<String>, x: &str) -> (r: Vec<String>)
    ensures
        string_views(r@) == without(string_views(v@), x@),
{
    let ghost views = string_views(v@);
    let key = to_owned_string(x);
    let mut out: Vec<String> = Vec::new();
    let mut i: usize = 0;
    while i < v.len()
        invariant
            i <= v.len(),
            views == string_views(v@),
            key@ == x@,
            string_views(out@) == without(views.take(i as int), x@),
        decreases v.len() - i,
    {
        assert(views.take(i + 1).drop_last() =~= views.take(i as int));
        let ghost before = out@;
        if !same_text(&v[i], &key) {
            out.push(v[i].clone());
            assert(string_views(out@) =~= string_views(before).push(views[i as int]));
        }
        i = i + 1;
    }
    assert(views.take(v.len() as int) =~= views);
    out
}

/// `j` is the first position of `v` holding the characters `x`.
pub open spec fn is_first_text(v: Seq<String>, x: Seq<char>, j: int) -> bool {
    &&& 0 <= j < v.len()
    &&& v[j]@ == x
    &&& forall|k: int| 0 <= k < j ==> #[trigger] v[k]@ != x
}

/// The first position of `v` holding the characters `x`, if any.
pub fn position_text(v: &Vec<String>, x: &String) -> (r: Option<usize>)
    ensures
        match r {
            Some(j) => is_first_text(v@, x@, j as int),
            None => !has_text(v@, x@),
        },
{
    let mut j: usize = 0;
    while j < v.len()
        invariant
            j <= v.len(),
            forall|k: int| 0 <= k < j ==> #[trigger] v@[k]@ != x@,
        decreases v.len() - j,
    {
        if same_text(&v[j], x) {
            return Some(j);
        }
        j = j + 1;
    }
    None
}

/// `s` with every match of `p` replaced by `r`, matches taken from the left
/// without overlap (an empty pattern replaces nothing).
pub open spec fn replaced(s: Seq<char>, p: Seq<char>, r: Seq<char>) -> Seq<char>
    decreases s.len(),
{
    if s.len() == 0 {
        s
    } else if p.len() > 0 && s.len() >= p.len() && s.take(p.len() as int) == p {
        r + replaced(s.skip(p.len() as int), p, r)
    } else {
        seq![s[0]] + replaced(s.skip(1), p, r)
    }
}

/// Whether `p` occurs in `s` at character position `i`.
fn occurs_at(s: &str, p: &str, i: usize, n: usize, m: usize) -> (b: bool)
    requires
        n == s@.len(),
        m == p@.len(),
        i <= n,
    ensures
        b == (i + m <= n && s@.skip(i as int).take(m as int) == p@),
{
    if m > n - i {
        return false;
    }
    let mut j: usize = 0;
    while j < m
        invariant
            n == s@.len(),
            m == p@.len(),
            i + m <= n,
            j <= m,
            forall|k: int| 0 <= k < j ==> s@[i + k] == p@[k],
        decreases m - j,
    {
        if s.get_char(i + j) != p.get_char(j) {
            assert(s@.skip(i as int).take(m as int)[j as int] != p@[j as int]);
            return false;
        }
        j = j + 1;
    }
    assert(s@.skip(i as int).take(m as int) =~= p@);
    true
}

/// `s` with every match of `p` replaced by `r`, as `str::replace` does it:
/// the matches are the non-overlapping ones found from the left.
pub fn replace_text(s: &str, p: &str, r: &str) -> (t: String)
    requires
        p@.len() > 0,
    ensures
        t@ == replaced(s@, p@, r@),
{
    let n = s.unicode_len();
    let m = p.unicode_len();
    let mut out = String::new();
    let mut i: usize = 0;
    assert(s@.skip(0) =~= s@);
    assert(out@ + replaced(s@, p@, r@) =~= replaced(s@, p@, r@));
    while i < n
        invariant
            n == s@.len(),
            m == p@.len(),
            m > 0,
            i <= n,
            out@ + replaced(s@.skip(i as int), p@, r@) == replaced(s@, p@, r@),
        decreases n - i,
    {
        let ghost rest = s@.skip(i as int);
        assert(rest.len() > 0);
        if occurs_at(s, p, i, n, m) {
            assert(rest.skip(m as int) =~= s@.skip(i + m));
            out.append(r);
            i = i + m;
        } else {
            let c = s.get_char(i);
            assert(rest[0] == c);
            assert(rest.skip(1) =~= s@.skip(i + 1));
            push_char(&mut out, c);
            i = i + 1;
        }
    }
    assert(s@.skip(n as int) =~= Seq::<char>::empty());
    out
}

/// The text that the `Debug` format prints for a string: quoted, with
/// special characters escaped.
pub uninterp spec fn debug_quoted(s: Seq<char>) -> Seq<char>;

/// Calls the `Debug` format of `str` (`format!("{:?}", s)`), which quotes the
/// text and escapes quotes, backslashes, control and some other characters.
/// The contract names the result `debug_quoted(s@)`, a function of the text
/// alone; which characters are escaped is left unsaid.
#[verifier::external_body]
pub fn debug_text(s: &str) -> (t: String)
    ensures
        t@ == debug_quoted(s@),
{
    format!("{:?}", s)
}

} // verus!
