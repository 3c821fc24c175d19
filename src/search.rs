//! Choosing among candidate files for an unresolved library: the first
//! candidate, in search order, whose binary format is the root's.
use vstd::prelude::*;
use crate::text::join_with;

verus! {

/// The path of a library `name` directly inside `dir`.
pub open spec fn candidate_of(dir: Seq<char>, name: Seq<char>) -> Seq<char> {
    dir.push('/') + name
}

/// The view of a probed format: `None` where no file stands.
pub open spec fn format_view(f: Option<String>) -> Option<Seq<char>> {
    match f {
        Some(s) => Some(s@),
        None => None,
    }
}

/// The views of a sequence of probed formats.
pub open spec fn format_views(fs: Seq<Option<String>>) -> Seq<Option<Seq<char>>> {
    fs.map_values(|f: Option<String>| format_view(f))
}

/// A candidate is accepted when a file stands there and its format is the root's.
pub open spec fn accepts(format: Option<Seq<char>>, root: Seq<char>) -> bool {
    format == Some(root)
}

/// The index of the first accepted candidate.
pub open spec fn first_accepted(formats: Seq<Option<Seq<char>>>, root: Seq<char>) -> Option<int>
    decreases formats.len(),
{
    if formats.len() == 0 {
        None
    } else {
        match first_accepted(formats.drop_last(), root) {
            Some(i) => Some(i),
            None => if accepts(formats.last(), root) {
                Some(formats.len() - 1)
            } else {
                None
            },
        }
    }
}

/// `first_accepted` picks exactly the accepted candidate that no accepted one precedes.
pub proof fn lemma_first_accepted(formats: Seq<Option<Seq<char>>>, root: Seq<char>)
    ensures
        match first_accepted(formats, root) {
            Some(i) => 0 <= i < formats.len() && accepts(formats[i], root) && forall|j: int|
                0 <= j < i ==> !accepts(#[trigger] formats[j], root),
            None => forall|j: int| 0 <= j < formats.len() ==> !accepts(#[trigger] formats[j], root),
        },
    decreases formats.len(),
{
    if formats.len() > 0 {
        lemma_first_accepted(formats.drop_last(), root);
        let p = formats.drop_last();
        assert forall|j: int| 0 <= j < p.len() implies p[j] == formats[j] by {}
    }
}

/// The next step of a search over an ordered list of directories.
#[derive(Clone, Debug)]
pub enum SearchStep {
    /// This candidate is accepted.
    Found(String),
    /// This candidate is to be probed next.
    Probe(String),
    /// Every candidate was probed and none is accepted.
    NotFound,
}

/// Whether a probed candidate is accepted against the root format.
pub fn is_accepted(format: &Option<String>, root_format: &String) -> (r: bool)
    ensures
        r == accepts(format_view(*format), root_format@),
{
    match format {
        Some(f) => *f == *root_format,
        None => false,
    }
}

/// The path of library `name` directly inside `dir`.
pub fn candidate_path(dir: &String, name: &String) -> (r: String)
    ensures
        r@ == candidate_of(dir@, name@),
{
    join_with(dir.as_str(), '/', name.as_str())
}

/// The next step of the top-level search for `name` over `dirs`, where
/// `formats` holds what the first candidates were found to be, in order.
pub fn search_dll_shallow(name: &String, dirs: &Vec<String>, formats: &Vec<Option<String>>, root_format: &String) -> (r: SearchStep)
    requires
        formats.len() <= dirs.len(),
    ensures
        match first_accepted(format_views(formats@), root_format@) {
            Some(i) => r matches SearchStep::Found(p) && p@ == candidate_of(dirs@[i]@, name@),
            None => if formats.len() < dirs.len() {
                r matches SearchStep::Probe(p) && p@ == candidate_of(dirs@[formats.len() as int]@, name@)
            } else {
                r is NotFound
            },
        },
{
    let ghost fv = format_views(formats@);
    let mut i: usize = 0;
    proof {
        assert(fv.take(0) =~= Seq::<Option<Seq<char>>>::empty());
    }
    while i < formats.len()
        invariant
            i <= formats.len() <= dirs.len(),
            fv == format_views(formats@),
            first_accepted(fv.take(i as int), root_format@) is None,
        decreases formats.len() - i,
    {
        proof {
            assert(fv.take(i + 1).drop_last() =~= fv.take(i as int));
            assert(fv.take(i + 1).last() == format_view(formats@[i as int]));
        }
        if is_accepted(&formats[i], root_format) {
            proof {
                lemma_first_accepted_stays(fv, root_format@, i + 1);
            }
            return SearchStep::Found(candidate_path(&dirs[i], name));
        }
        i = i + 1;
    }
    proof {
        assert(fv.take(formats@.len() as int) =~= fv);
    }
    if i < dirs.len() {
        SearchStep::Probe(candidate_path(&dirs[i], name))
    } else {
        SearchStep::NotFound
    }
}

/// Once a prefix of the candidates holds an accepted one, so does every longer prefix.
proof fn lemma_first_accepted_stays(fs: Seq<Option<Seq<char>>>, root: Seq<char>, n: int)
    requires
        0 <= n <= fs.len(),
        first_accepted(fs.take(n), root) is Some,
    ensures
        first_accepted(fs, root) == first_accepted(fs.take(n), root),
    decreases fs.len() - n,
{
    if n < fs.len() {
        assert(fs.take(n + 1).drop_last() =~= fs.take(n));
        lemma_first_accepted_stays(fs, root, n + 1);
    } else {
        assert(fs.take(n) =~= fs);
    }
}

/// A candidate whose format differs from the root's, or where no file
/// stands, is never chosen; an accepted candidate preceded only by rejected
/// ones always is.
pub proof fn law_architecture_gate(formats: Seq<Option<Seq<char>>>, root: Seq<char>, k: int)
    requires
        0 <= k < formats.len(),
    ensures
        !accepts(formats[k], root) ==> first_accepted(formats, root) != Some(k),
        accepts(formats[k], root) && (forall|j: int| 0 <= j < k ==> !accepts(#[trigger] formats[j], root))
            ==> first_accepted(formats, root) == Some(k),
{
    lemma_first_accepted(formats, root);
    if accepts(formats[k], root) && (forall|j: int| 0 <= j < k ==> !accepts(#[trigger] formats[j], root)) {
        match first_accepted(formats, root) {
            Some(i) => {
                if i < k {
                    assert(!accepts(formats[i], root));
                } else if k < i {
                    assert(!accepts(formats[k], root));
                }
            },
            None => {
                assert(!accepts(formats[k], root));
            },
        }
    }
}

/// Of two accepted candidates, the later one in search order is never
/// chosen: the choice is the earlier one or a candidate before it.
pub proof fn law_search_precedence(formats: Seq<Option<Seq<char>>>, root: Seq<char>, i: int, j: int)
    requires
        0 <= i < j < formats.len(),
        accepts(formats[i], root),
        accepts(formats[j], root),
    ensures
        first_accepted(formats, root) is Some,
        first_accepted(formats, root)->0 <= i,
{
    lemma_first_accepted(formats, root);
    match first_accepted(formats, root) {
        Some(k) => {
            if k > i {
                assert(!accepts(formats[i], root));
            }
        },
        None => {
            assert(!accepts(formats[i], root));
        },
    }
}

} // verus!
