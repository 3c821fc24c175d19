//! Character-level text utilities: splitting, substring search and
//! string building, all stated over `Seq<char>`.
use vstd::prelude::*;

verus! {

/// The views of a sequence of strings.
pub open spec fn views(v: Seq<String>) -> Seq<Seq<char>> {
    v.map_values(|s: String| s@)
}

/// Splits `s` at every occurrence of `sep`; an empty text gives one empty piece.
pub open spec fn split_on(s: Seq<char>, sep: char) -> Seq<Seq<char>>
    decreases s.len(),
{
    if s.len() == 0 {
        seq![Seq::<char>::empty()]
    } else if s.last() == sep {
        split_on(s.drop_last(), sep).push(Seq::<char>::empty())
    } else {
        let p = split_on(s.drop_last(), sep);
        p.update(p.len() - 1, p.last().push(s.last()))
    }
}

/// `s` with every occurrence of `c` removed.
pub open spec fn without(s: Seq<char>, c: char) -> Seq<char>
    decreases s.len(),
{
    if s.len() == 0 {
        s
    } else if s.last() == c {
        without(s.drop_last(), c)
    } else {
        without(s.drop_last(), c).push(s.last())
    }
}

/// `p` occurs in `s` starting at index `i`.
pub open spec fn occurs_at(s: Seq<char>, p: Seq<char>, i: int) -> bool {
    0 <= i && i + p.len() <= s.len() && s.subrange(i, i + p.len()) == p
}

/// `p` occurs somewhere in `s` at or after index `from`.
pub open spec fn occurs_from(s: Seq<char>, p: Seq<char>, from: int) -> bool {
    exists|i: int| from <= i && #[trigger] occurs_at(s, p, i)
}

/// `i` is the first occurrence of `p` in `s` at or after `from`.
pub open spec fn is_first_from(s: Seq<char>, p: Seq<char>, from: int, i: int) -> bool {
    from <= i && occurs_at(s, p, i) && forall|j: int| from <= j < i ==> !#[trigger] occurs_at(s, p, j)
}

/// `i` is the last occurrence of `p` in `s`.
pub open spec fn is_last(s: Seq<char>, p: Seq<char>, i: int) -> bool {
    occurs_at(s, p, i) && forall|j: int| i < j ==> !#[trigger] occurs_at(s, p, j)
}

/// The first occurrence of `p` in `s` at or after `from`, if any.
pub open spec fn first_from(s: Seq<char>, p: Seq<char>, from: int) -> Option<int> {
    if occurs_from(s, p, from) {
        Some(choose|i: int| is_first_from(s, p, from, i))
    } else {
        None
    }
}

/// The last occurrence of `p` in `s`, if any.
pub open spec fn last_of(s: Seq<char>, p: Seq<char>) -> Option<int> {
    if occurs_from(s, p, 0) {
        Some(choose|i: int| is_last(s, p, i))
    } else {
        None
    }
}

/// First occurrences are unique, and one exists whenever an occurrence does.
pub proof fn lemma_first_from(s: Seq<char>, p: Seq<char>, from: int, i: int)
    requires
        is_first_from(s, p, from, i),
    ensures
        first_from(s, p, from) == Some(i),
{
    assert(occurs_from(s, p, from)) by {
        assert(occurs_at(s, p, i));
    }
    let k = choose|k: int| is_first_from(s, p, from, k);
    assert(is_first_from(s, p, from, k));
    if k < i {
        assert(!occurs_at(s, p, k));
    } else if i < k {
        assert(!occurs_at(s, p, i));
    }
}

/// Last occurrences are unique.
pub proof fn lemma_last_of(s: Seq<char>, p: Seq<char>, i: int)
    requires
        is_last(s, p, i),
    ensures
        last_of(s, p) == Some(i),
{
    assert(occurs_from(s, p, 0)) by {
        assert(occurs_at(s, p, i));
    }
    let k = choose|k: int| is_last(s, p, k);
    assert(is_last(s, p, k));
    if k < i {
        assert(!occurs_at(s, p, i));
    } else if i < k {
        assert(!occurs_at(s, p, k));
    }
}

/// Relies on `String::push`: the character is appended at the end.
#[verifier::external_body]
pub(crate) fn push_char(s: &mut String, c: char)
    ensures
        final(s)@ == old(s)@.push(c),
{
    s.push(c)
}

/// Relies on `String::push_str`: the text is appended at the end.
#[verifier::external_body]
pub(crate) fn push_str(s: &mut String, t: &str)
    ensures
        final(s)@ == old(s)@ + t@,
{
    s.push_str(t)
}

/// The characters of `s`, in order.
pub fn chars_of(s: &str) -> (r: Vec<char>)
    ensures
        r@ == s@,
{
    let mut v: Vec<char> = Vec::new();
    for c in it: s.chars()
        invariant
            v@ == it.seq().take(it.index() as int),
    {
        v.push(c);
    }
    proof {
        vstd::string::axiom_spec_iter(s);
    }
    v
}

/// The string made of `v[lo..hi]`.
pub fn string_of(v: &Vec<char>, lo: usize, hi: usize) -> (r: String)
    requires
        lo <= hi <= v.len(),
    ensures
        r@ == v@.subrange(lo as int, hi as int),
{
    let mut s = String::new();
    let mut i: usize = lo;
    while i < hi
        invariant
            lo <= i <= hi <= v.len(),
            s@ == v@.subrange(lo as int, i as int),
        decreases hi - i,
    {
        push_char(&mut s, v[i]);
        proof {
            assert(v@.subrange(lo as int, i + 1) == v@.subrange(lo as int, i as int).push(v@[i as int]));
        }
        i = i + 1;
    }
    s
}

/// `a` followed by `sep` and `b`.
pub fn join_with(a: &str, sep: char, b: &str) -> (r: String)
    ensures
        r@ == a@.push(sep) + b@,
{
    let mut s = String::new();
    push_str(&mut s, a);
    push_char(&mut s, sep);
    push_str(&mut s, b);
    proof {
        assert(Seq::<char>::empty() + a@ == a@);
    }
    s
}

/// Whether `p` occurs in `s` at index `i`.
pub fn matches_at(s: &Vec<char>, p: &Vec<char>, i: usize) -> (r: bool)
    ensures
        r == occurs_at(s@, p@, i as int),
{
    if i > s.len() || p.len() > s.len() - i {
        return false;
    }
    let mut k: usize = 0;
    while k < p.len()
        invariant
            i + p.len() <= s.len(),
            k <= p.len(),
            forall|t: int| 0 <= t < k ==> s@[i + t] == p@[t],
        decreases p.len() - k,
    {
        if s[i + k] != p[k] {
            proof {
                assert(s@.subrange(i as int, i + p.len())[k as int] != p@[k as int]);
            }
            return false;
        }
        k = k + 1;
    }
    proof {
        assert(s@.subrange(i as int, i + p.len()) =~= p@);
    }
    true
}

/// The first occurrence of `p` in `s` at or after `from`.
pub fn find_from(s: &Vec<char>, p: &Vec<char>, from: usize) -> (r: Option<usize>)
    ensures
        r == match first_from(s@, p@, from as int) {
            Some(i) => Some(i as usize),
            None => None::<usize>,
        },
        r is Some ==> is_first_from(s@, p@, from as int, r->0 as int),
{
    let mut i: usize = from;
    while i < s.len()
        invariant
            from <= i,
            forall|j: int| from <= j < i ==> !#[trigger] occurs_at(s@, p@, j),
        decreases s.len() - i,
    {
        if matches_at(s, p, i) {
            proof {
                lemma_first_from(s@, p@, from as int, i as int);
            }
            return Some(i);
        }
        i = i + 1;
    }
    if matches_at(s, p, i) {
        proof {
            lemma_first_from(s@, p@, from as int, i as int);
        }
        return Some(i);
    }
    proof {
        assert(!occurs_from(s@, p@, from as int)) by {
            assert forall|j: int| from <= j implies !#[trigger] occurs_at(s@, p@, j) by {
                if j > i {
                    assert(j + p@.len() > s@.len());
                }
            }
        }
    }
    None
}

/// The last occurrence of `p` in `s`.
pub fn find_last(s: &Vec<char>, p: &Vec<char>) -> (r: Option<usize>)
    ensures
        r == match last_of(s@, p@) {
            Some(i) => Some(i as usize),
            None => None::<usize>,
        },
        r is Some ==> is_last(s@, p@, r->0 as int),
{
    let mut last: Option<usize> = None;
    let mut i: usize = 0;
    while i < s.len()
        invariant
            i <= s.len(),
            match last {
                Some(k) => k < i && occurs_at(s@, p@, k as int) && forall|j: int|
                    k < j < i ==> !#[trigger] occurs_at(s@, p@, j),
                None => forall|j: int| 0 <= j < i ==> !#[trigger] occurs_at(s@, p@, j),
            },
        decreases s.len() - i,
    {
        if matches_at(s, p, i) {
            last = Some(i);
        }
        i = i + 1;
    }
    if matches_at(s, p, i) {
        last = Some(i);
    }
    match last {
        Some(k) => {
            proof {
                assert forall|j: int| k < j implies !#[trigger] occurs_at(s@, p@, j) by {
                    if j > i {
                        assert(j + p@.len() > s@.len());
                    }
                }
                lemma_last_of(s@, p@, k as int);
            }
        },
        None => {
            proof {
                assert(!occurs_from(s@, p@, 0)) by {
                    assert forall|j: int| 0 <= j implies !#[trigger] occurs_at(s@, p@, j) by {
                        if j > i {
                            assert(j + p@.len() > s@.len());
                        }
                    }
                }
            }
        },
    }
    last
}

/// The pieces of `s` between occurrences of `sep`.
pub fn split_chars(s: &Vec<char>, sep: char) -> (r: Vec<String>)
    ensures
        views(r@) == split_on(s@, sep),
{
    let mut done: Vec<String> = Vec::new();
    let mut cur = String::new();
    let mut i: usize = 0;
    proof {
        assert(s@.take(0) =~= Seq::<char>::empty());
        assert(views(done@).push(cur@) =~= split_on(s@.take(0), sep));
    }
    while i < s.len()
        invariant
            i <= s.len(),
            views(done@).push(cur@) == split_on(s@.take(i as int), sep),
        decreases s.len() - i,
    {
        let c = s[i];
        proof {
            assert(s@.take(i + 1).drop_last() =~= s@.take(i as int));
            assert(s@.take(i + 1).last() == c);
        }
        if c == sep {
            let ghost before = views(done@);
            done.push(cur);
            cur = String::new();
            proof {
                assert(views(done@) =~= before.push(views(done@).last()));
                assert(views(done@).push(cur@) =~= split_on(s@.take(i + 1), sep));
            }
        } else {
            let ghost before = views(done@).push(cur@);
            push_char(&mut cur, c);
            proof {
                assert(views(done@).push(cur@) =~= before.update(before.len() - 1, before.last().push(c)));
            }
        }
        i = i + 1;
    }
    proof {
        assert(s@.take(s@.len() as int) =~= s@);
    }
    let ghost before = views(done@);
    done.push(cur);
    proof {
        assert(views(done@) =~= before.push(views(done@).last()));
    }
    done
}

/// `s` with every occurrence of `c` removed.
pub fn remove_char(s: &Vec<char>, c: char) -> (r: Vec<char>)
    ensures
        r@ == without(s@, c),
{
    let mut v: Vec<char> = Vec::new();
    let mut i: usize = 0;
    while i < s.len()
        invariant
            i <= s.len(),
            v@ == without(s@.take(i as int), c),
        decreases s.len() - i,
    {
        proof {
            assert(s@.take(i + 1).drop_last() =~= s@.take(i as int));
        }
        if s[i] != c {
            v.push(s[i]);
        }
        i = i + 1;
    }
    proof {
        assert(s@.take(s@.len() as int) =~= s@);
    }
    v
}

/// Whether `a` and `b` hold the same characters.
pub fn same_chars(a: &Vec<char>, b: &Vec<char>) -> (r: bool)
    ensures
        r == (a@ == b@),
{
    if a.len() != b.len() {
        return false;
    }
    let r = matches_at(a, b, 0);
    proof {
        assert(a@.subrange(0, b@.len() as int) =~= a@);
        if a@ == b@ {
            assert(occurs_at(a@, b@, 0));
        }
    }
    r
}

/// Whether `name` is one of the strings of `list`.
pub fn contains_name(list: &Vec<String>, name: &String) -> (r: bool)
    ensures
        r == views(list@).contains(name@),
{
    let mut i: usize = 0;
    while i < list.len()
        invariant
            i <= list.len(),
            forall|j: int| 0 <= j < i ==> list@[j]@ != name@,
        decreases list.len() - i,
    {
        if list[i] == *name {
            proof {
                assert(views(list@)[i as int] == name@);
            }
            return true;
        }
        i = i + 1;
    }
    proof {
        if views(list@).contains(name@) {
            let j = choose|j: int| 0 <= j < views(list@).len() && views(list@)[j] == name@;
            assert(list@[j]@ == name@);
        }
    }
    false
}

/// The entries of `c` whose flag is set, in order.
pub open spec fn kept(c: Seq<Seq<char>>, flags: Seq<bool>) -> Seq<Seq<char>>
    decreases c.len(),
{
    if c.len() == 0 || flags.len() != c.len() {
        Seq::empty()
    } else if flags.last() {
        kept(c.drop_last(), flags.drop_last()).push(c.last())
    } else {
        kept(c.drop_last(), flags.drop_last())
    }
}

/// Appends to `dest` the entries of `c` whose flag is set, in order.
pub fn append_kept(dest: &mut Vec<String>, c: &Vec<String>, flags: &Vec<bool>)
    requires
        flags.len() == c.len(),
    ensures
        views(final(dest)@) == views(old(dest)@) + kept(views(c@), flags@),
{
    let ghost start = views(dest@);
    let mut i: usize = 0;
    proof {
        assert(views(c@).take(0) =~= Seq::<Seq<char>>::empty());
        assert(start + kept(Seq::empty(), flags@.take(0)) =~= start);
    }
    while i < c.len()
        invariant
            i <= c.len() == flags.len(),
            views(dest@) == start + kept(views(c@).take(i as int), flags@.take(i as int)),
        decreases c.len() - i,
    {
        proof {
            assert(views(c@).take(i + 1).drop_last() =~= views(c@).take(i as int));
            assert(flags@.take(i + 1).drop_last() =~= flags@.take(i as int));
            assert(views(c@).take(i + 1).last() == c@[i as int]@);
        }
        if flags[i] {
            let ghost before = views(dest@);
            dest.push(c[i].clone());
            proof {
                assert(views(dest@) =~= before.push(c@[i as int]@));
            }
        }
        i = i + 1;
    }
    proof {
        assert(views(c@).take(c@.len() as int) =~= views(c@));
        assert(flags@.take(c@.len() as int) =~= flags@);
    }
}

} // verus!
