//! Deciding, for one imported library name, whether it needs to be found.
use vstd::prelude::*;
use crate::config::Args;
use crate::text::{chars_of, contains_name, matches_at, occurs_at, views};

verus! {

/// What is to be done about one imported library.
#[derive(Clone, Copy, Debug, PartialEq, Eq, Structural)]
pub enum Classification {
    /// A file of this name is already in the deployment directory.
    AlreadyPresent,
    /// The name is on the ignore list.
    Ignored,
    /// The library belongs to the operating system.
    SystemOwned,
    /// A runtime-redistributable shim that is not to be copied.
    Redistributable,
    /// The library has to be found and copied.
    Unresolved,
}

/// The name prefix of the operating system's compatibility shims.
pub open spec fn redist_prefix() -> Seq<char> {
    seq!['a', 'p', 'i', '-', 'm', 's', '-', 'w', 'i', 'n']
}

/// The name follows the naming convention of the compatibility shims.
pub open spec fn is_redist_name(name: Seq<char>) -> bool {
    redist_prefix().len() <= name.len() && name.subrange(0, redist_prefix().len() as int)
        == redist_prefix()
}

/// The lower-case form of a text, as `str::to_lowercase` gives it.
pub uninterp spec fn lower_of(s: Seq<char>) -> Seq<char>;

/// Relies on `str::to_lowercase`: the result depends on the characters alone.
#[verifier::external_body]
fn lowercase(s: &str) -> (r: String)
    ensures
        r@ == lower_of(s@),
{
    s.to_lowercase()
}

/// The name equals one of the known system library names, ignoring case.
pub open spec fn listed_as_system(name: Seq<char>, known: Seq<Seq<char>>) -> bool {
    exists|i: int| 0 <= i < known.len() && lower_of(#[trigger] known[i]) == lower_of(name)
}

/// The library belongs to the operating system: it is listed as such, or a
/// file of that name was found in one of the system directories.
pub open spec fn system_owned(name: Seq<char>, known: Seq<Seq<char>>, in_system_dir: bool) -> bool {
    in_system_dir || listed_as_system(name, known)
}

/// The class of `name`, tested in order: already deployed, ignored, system
/// owned, a skipped redistributable, else unresolved.
pub open spec fn classification_of(
    name: Seq<char>,
    ignore: Seq<Seq<char>>,
    copy_redist: bool,
    present: bool,
    system: bool,
) -> Classification {
    if present {
        Classification::AlreadyPresent
    } else if ignore.contains(name) {
        Classification::Ignored
    } else if system {
        Classification::SystemOwned
    } else if !copy_redist && is_redist_name(name) {
        Classification::Redistributable
    } else {
        Classification::Unresolved
    }
}

/// Whether `name` is a runtime-redistributable compatibility shim.
pub fn is_vc_redist_dll(name: &str) -> (r: bool)
    ensures
        r == is_redist_name(name@),
{
    let p = vec!['a', 'p', 'i', '-', 'm', 's', '-', 'w', 'i', 'n'];
    assert(p@ =~= redist_prefix());
    let r = matches_at(&chars_of(name), &p, 0);
    proof {
        if is_redist_name(name@) {
            assert(occurs_at(name@, p@, 0));
        }
    }
    r
}

/// Whether `name` belongs to the operating system: it matches one of `known`
/// ignoring case, or `in_system_dir` reports a file of that name in a system directory.
pub fn is_system_dll(name: &str, known: &Vec<String>, in_system_dir: bool) -> (r: bool)
    ensures
        r == system_owned(name@, views(known@), in_system_dir),
{
    if in_system_dir {
        return true;
    }
    let folded_name = lowercase(name);
    let mut folded: Vec<String> = Vec::new();
    let mut i: usize = 0;
    while i < known.len()
        invariant
            i <= known.len(),
            folded@.len() == i,
            forall|j: int| 0 <= j < i ==> #[trigger] folded@[j]@ == lower_of(known@[j]@),
        decreases known.len() - i,
    {
        folded.push(lowercase(known[i].as_str()));
        i = i + 1;
    }
    let r = contains_name(&folded, &folded_name);
    proof {
        if r {
            let j = choose|j: int| 0 <= j < views(folded@).len() && views(folded@)[j] == folded_name@;
            assert(views(known@)[j] == known@[j]@);
            assert(lower_of(views(known@)[j]) == lower_of(name@));
        }
        if listed_as_system(name@, views(known@)) {
            let j = choose|j: int| 0 <= j < views(known@).len() && lower_of(#[trigger] views(known@)[j]) == lower_of(name@);
            assert(folded@[j]@ == lower_of(known@[j]@));
            assert(views(folded@)[j] == folded_name@);
        }
    }
    r
}

/// Classifies the imported library `name`. `present` tells whether the
/// deployment directory already holds a file of that name, `known` lists the
/// system libraries and `in_system_dir` whether a system directory holds it.
pub fn classify(name: &String, args: &Args, present: bool, known: &Vec<String>, in_system_dir: bool) -> (r: Classification)
    ensures
        r == classification_of(
            name@,
            views(args.ignore@),
            args.copy_vc_redist,
            present,
            system_owned(name@, views(known@), in_system_dir),
        ),
{
    if present {
        Classification::AlreadyPresent
    } else if contains_name(&args.ignore, name) {
        Classification::Ignored
    } else if is_system_dll(name.as_str(), known, in_system_dir) {
        Classification::SystemOwned
    } else if !args.copy_vc_redist && is_vc_redist_dll(name.as_str()) {
        Classification::Redistributable
    } else {
        Classification::Unresolved
    }
}

/// A name on the ignore list that is not yet deployed is classed as ignored,
/// even where it is also a system library or a redistributable.
pub proof fn law_ignore_precedes_system(
    name: Seq<char>,
    ignore: Seq<Seq<char>>,
    copy_redist: bool,
    system: bool,
)
    requires
        ignore.contains(name),
    ensures
        classification_of(name, ignore, copy_redist, false, system) == Classification::Ignored,
{
}

/// A name already in the deployment directory is classed as present,
/// whatever else holds of it.
pub proof fn law_present_first(name: Seq<char>, ignore: Seq<Seq<char>>, copy_redist: bool, system: bool)
    ensures
        classification_of(name, ignore, copy_redist, true, system) == Classification::AlreadyPresent,
{
}

} // verus!
