//! Reading the text that the binary inspector prints: the imported library
//! names of a binary, and its binary format.
use vstd::prelude::*;
use crate::text::{
    chars_of, find_from, find_last, first_from, last_of, occurs_from, remove_char,
    split_chars, split_on, string_of, views, without,
};

verus! {

/// The token that precedes an imported library name on an inspector line.
pub open spec fn name_marker() -> Seq<char> {
    seq!['D', 'L', 'L', ' ', 'N', 'a', 'm', 'e', ':', ' ']
}

/// The token that marks a line as an import entry.
pub open spec fn entry_tag() -> Seq<char> {
    seq!['D', 'L', 'L', ' ', 'N', 'a', 'm', 'e', ':']
}

/// The standard suffix of a shared library name.
pub open spec fn library_suffix() -> Seq<char> {
    seq!['.', 'd', 'l', 'l']
}

/// The label that precedes the format tag in the inspector's header output.
pub open spec fn format_label() -> Seq<char> {
    seq!['f', 'i', 'l', 'e', ' ', 'f', 'o', 'r', 'm', 'a', 't', ' ']
}

/// Why an import line could not be read.
#[derive(Clone, Copy, Debug, PartialEq, Eq, Structural)]
pub enum ImportParseError {
    /// The line has no name marker.
    MissingMarker,
    /// No library suffix follows the marker.
    MissingSuffix,
    /// Fewer than two characters stand between the marker and the suffix.
    NameTooShort,
}

/// The stem of the library name on an import line: the text between the first
/// marker and the first suffix after it.
pub open spec fn name_stem_of(line: Seq<char>) -> Result<Seq<char>, ImportParseError> {
    match first_from(line, name_marker(), 0) {
        None => Err(ImportParseError::MissingMarker),
        Some(m) => {
            let start = m + name_marker().len();
            match first_from(line, library_suffix(), start) {
                None => Err(ImportParseError::MissingSuffix),
                Some(e) => if e < start + 2 {
                    Err(ImportParseError::NameTooShort)
                } else {
                    Ok(line.subrange(start, e))
                },
            }
        },
    }
}

/// The imported library names listed in `lines`, in order; the first line
/// that carries the entry tag but cannot be read decides the error.
pub open spec fn imports_in(lines: Seq<Seq<char>>) -> Result<Seq<Seq<char>>, ImportParseError>
    decreases lines.len(),
{
    if lines.len() == 0 {
        Ok(Seq::empty())
    } else {
        match imports_in(lines.drop_last()) {
            Err(e) => Err(e),
            Ok(v) => if !occurs_from(lines.last(), entry_tag(), 0) {
                Ok(v)
            } else {
                match name_stem_of(lines.last()) {
                    Ok(n) => Ok(v.push(n + library_suffix())),
                    Err(e) => Err(e),
                }
            },
        }
    }
}

/// The imported library names in the inspector's output.
pub open spec fn dependencies_of(output: Seq<char>) -> Result<Seq<Seq<char>>, ImportParseError> {
    imports_in(split_on(output, '\n'))
}

/// The format tag in `lines`: the rest of the first line holding the label,
/// after the label's last occurrence on it.
pub open spec fn format_in(lines: Seq<Seq<char>>) -> Option<Seq<char>>
    decreases lines.len(),
{
    if lines.len() == 0 {
        None
    } else {
        match format_in(lines.drop_last()) {
            Some(f) => Some(f),
            None => match last_of(lines.last(), format_label()) {
                Some(k) => Some(lines.last().subrange(k + format_label().len(), lines.last().len() as int)),
                None => None,
            },
        }
    }
}

/// The format tag in the inspector's header output, carriage returns removed.
pub open spec fn file_format_of(output: Seq<char>) -> Option<Seq<char>> {
    format_in(split_on(without(output, '\r'), '\n'))
}

fn name_marker_chars() -> (r: Vec<char>)
    ensures
        r@ == name_marker(),
{
    let r = vec!['D', 'L', 'L', ' ', 'N', 'a', 'm', 'e', ':', ' '];
    assert(r@ =~= name_marker());
    r
}

fn entry_tag_chars() -> (r: Vec<char>)
    ensures
        r@ == entry_tag(),
{
    let r = vec!['D', 'L', 'L', ' ', 'N', 'a', 'm', 'e', ':'];
    assert(r@ =~= entry_tag());
    r
}

fn library_suffix_chars() -> (r: Vec<char>)
    ensures
        r@ == library_suffix(),
{
    let r = vec!['.', 'd', 'l', 'l'];
    assert(r@ =~= library_suffix());
    r
}

fn format_label_chars() -> (r: Vec<char>)
    ensures
        r@ == format_label(),
{
    let r = vec!['f', 'i', 'l', 'e', ' ', 'f', 'o', 'r', 'm', 'a', 't', ' '];
    assert(r@ =~= format_label());
    r
}

/// Reads the stem of the library name on one import line.
pub fn parse_output_single_line(line: &str) -> (r: Result<String, ImportParseError>)
    ensures
        match r {
            Ok(s) => name_stem_of(line@) == Ok::<Seq<char>, ImportParseError>(s@),
            Err(e) => name_stem_of(line@) == Err::<Seq<char>, ImportParseError>(e),
        },
{
    let s = chars_of(line);
    let marker = name_marker_chars();
    let suffix = library_suffix_chars();
    let m = match find_from(&s, &marker, 0) {
        Some(m) => m,
        None => return Err(ImportParseError::MissingMarker),
    };
    proof {
        assert(crate::text::occurs_at(s@, marker@, m as int));
        assert(m + marker.len() <= s.len());
    }
    let start = m + marker.len();
    let e = match find_from(&s, &suffix, start) {
        Some(e) => e,
        None => return Err(ImportParseError::MissingSuffix),
    };
    if e < start || e - start < 2 {
        return Err(ImportParseError::NameTooShort);
    }
    Ok(string_of(&s, start, e))
}

/// Reads every imported library name, suffix included, from the inspector's
/// output, in the order listed.
pub fn parse_dependencies(output: &str) -> (r: Result<Vec<String>, ImportParseError>)
    ensures
        match r {
            Ok(v) => dependencies_of(output@) == Ok::<Seq<Seq<char>>, ImportParseError>(views(v@)),
            Err(e) => dependencies_of(output@) == Err::<Seq<Seq<char>>, ImportParseError>(e),
        },
{
    let text = chars_of(output);
    let lines = split_chars(&text, '\n');
    let tag = entry_tag_chars();
    let mut deps: Vec<String> = Vec::new();
    let mut i: usize = 0;
    proof {
        assert(views(lines@).take(0) =~= Seq::<Seq<char>>::empty());
        assert(views(deps@) =~= Seq::<Seq<char>>::empty());
    }
    while i < lines.len()
        invariant
            i <= lines.len(),
            views(lines@) == split_on(output@, '\n'),
            tag@ == entry_tag(),
            imports_in(views(lines@).take(i as int)) == Ok::<Seq<Seq<char>>, ImportParseError>(views(deps@)),
        decreases lines.len() - i,
    {
        let ghost ls = views(lines@);
        proof {
            assert(ls.take(i + 1).drop_last() =~= ls.take(i as int));
            assert(ls.take(i + 1).last() == lines@[i as int]@);
        }
        let line = lines[i].as_str();
        let lc = chars_of(line);
        if find_from(&lc, &tag, 0).is_some() {
            match parse_output_single_line(line) {
                Ok(stem) => {
                    let mut name = stem;
                    crate::text::push_str(&mut name, ".dll");
                    proof {
                        reveal_strlit(".dll");
                        assert(".dll"@ =~= library_suffix());
                    }
                    let ghost before = views(deps@);
                    deps.push(name);
                    proof {
                        assert(views(deps@) =~= before.push(name@));
                    }
                },
                Err(e) => {
                    proof {
                        assert(views(lines@).take(lines@.len() as int) =~= views(lines@));
                        lemma_imports_err_stays(views(lines@), i + 1);
                    }
                    return Err(e);
                },
            }
        }
        i = i + 1;
    }
    proof {
        assert(views(lines@).take(lines@.len() as int) =~= views(lines@));
    }
    Ok(deps)
}

/// Once a prefix of the lines fails to read, every longer prefix fails the same way.
proof fn lemma_imports_err_stays(lines: Seq<Seq<char>>, n: int)
    requires
        0 <= n <= lines.len(),
        imports_in(lines.take(n)) is Err,
    ensures
        imports_in(lines) == imports_in(lines.take(n)),
    decreases lines.len() - n,
{
    if n < lines.len() {
        assert(lines.take(n + 1).drop_last() =~= lines.take(n));
        lemma_imports_err_stays(lines, n + 1);
    } else {
        assert(lines.take(n) =~= lines);
    }
}

/// Reads the binary format tag from the inspector's header output.
pub fn parse_file_format(output: &str) -> (r: Option<String>)
    ensures
        match r {
            Some(s) => file_format_of(output@) == Some(s@),
            None => file_format_of(output@) is None,
        },
{
    let text = remove_char(&chars_of(output), '\r');
    let lines = split_chars(&text, '\n');
    let label = format_label_chars();
    let mut i: usize = 0;
    proof {
        assert(views(lines@).take(0) =~= Seq::<Seq<char>>::empty());
    }
    while i < lines.len()
        invariant
            i <= lines.len(),
            views(lines@) == split_on(without(output@, '\r'), '\n'),
            label@ == format_label(),
            format_in(views(lines@).take(i as int)) is None,
        decreases lines.len() - i,
    {
        let ghost ls = views(lines@);
        proof {
            assert(ls.take(i + 1).drop_last() =~= ls.take(i as int));
            assert(ls.take(i + 1).last() == lines@[i as int]@);
        }
        let lc = chars_of(lines[i].as_str());
        if let Some(k) = find_last(&lc, &label) {
            proof {
                assert(crate::text::occurs_at(lc@, label@, k as int));
                assert(k + label.len() <= lc.len());
            }
            let tag = string_of(&lc, k + label.len(), lc.len());
            proof {
                lemma_format_found_stays(ls, i + 1);
            }
            return Some(tag);
        }
        i = i + 1;
    }
    proof {
        assert(views(lines@).take(lines@.len() as int) =~= views(lines@));
    }
    None
}

/// Once a prefix of the lines yields a format tag, every longer prefix yields the same.
proof fn lemma_format_found_stays(lines: Seq<Seq<char>>, n: int)
    requires
        0 <= n <= lines.len(),
        format_in(lines.take(n)) is Some,
    ensures
        format_in(lines) == format_in(lines.take(n)),
    decreases lines.len() - n,
{
    if n < lines.len() {
        assert(lines.take(n + 1).drop_last() =~= lines.take(n));
        lemma_format_found_stays(lines, n + 1);
    } else {
        assert(lines.take(n) =~= lines);
    }
}

/// A line with a name marker but no library suffix after it cannot be read.
pub proof fn law_marker_without_suffix(line: Seq<char>)
    requires
        occurs_from(line, name_marker(), 0),
        !occurs_from(line, library_suffix(), first_from(line, name_marker(), 0)->0 + name_marker().len()),
    ensures
        name_stem_of(line) == Err::<Seq<char>, ImportParseError>(ImportParseError::MissingSuffix),
{
}

/// An import line that cannot be read makes the whole output unreadable:
/// it is never passed over.
pub proof fn law_malformed_line_fails(lines: Seq<Seq<char>>, i: int)
    requires
        0 <= i < lines.len(),
        occurs_from(lines[i], entry_tag(), 0),
        name_stem_of(lines[i]) is Err,
    ensures
        imports_in(lines) is Err,
    decreases lines.len(),
{
    if i == lines.len() - 1 {
    } else {
        law_malformed_line_fails(lines.drop_last(), i);
    }
}

/// The lines of a tool's output, carriage returns removed.
pub fn output_lines(output: &str) -> (r: Vec<String>)
    ensures
        views(r@) == split_on(without(output@, '\r'), '\n'),
{
    split_chars(&remove_char(&chars_of(output), '\r'), '\n')
}

} // verus!
