//! The run configuration and the search directories derived from it.
use vstd::prelude::*;
use crate::text::{
    append_kept, chars_of, kept, push_char, same_chars, split_chars, split_on, views,
};

verus! {

/// The options of one deployment run.
#[derive(Clone, Debug)]
pub struct Args {
    /// The binary (executable or library) to deploy libraries for.
    pub binary_file: String,
    /// Leave the process search path out of the search directories.
    pub skip_env_path: bool,
    /// Deploy the runtime-redistributable libraries too.
    pub copy_vc_redist: bool,
    /// Report each decision.
    pub verbose: bool,
    /// Directories whose top level is searched.
    pub shallow_search_dir: Vec<String>,
    /// Skip the top-level search entirely.
    pub no_shallow_search: bool,
    /// Directories whose whole subtree is searched.
    pub deep_search_dir: Vec<String>,
    /// Skip the subtree search entirely.
    pub no_deep_search: bool,
    /// Package prefixes, each a `;`-separated list, whose `bin` directories are searched.
    pub cmake_prefix_path: Vec<String>,
    /// Library names that are never deployed.
    pub ignore: Vec<String>,
    /// Where the binary inspector is: `[auto]`, `[system]`, `[builtin]` or a file.
    pub objdump_file: String,
    /// Go on when a library cannot be found.
    pub allow_missing: bool,
}

/// The directory of executables under a package prefix.
pub open spec fn bin_dir(prefix: Seq<char>) -> Seq<char> {
    prefix + seq!['/', 'b', 'i', 'n']
}

/// The `bin` directories of every `;`-separated entry of the package prefixes, in order.
pub open spec fn prefix_bin_dirs(paths: Seq<Seq<char>>) -> Seq<Seq<char>>
    decreases paths.len(),
{
    if paths.len() == 0 {
        Seq::empty()
    } else {
        prefix_bin_dirs(paths.drop_last()) + split_on(paths.last(), ';').map_values(
            |p: Seq<char>| bin_dir(p),
        )
    }
}

/// The entries of the process search path.
pub open spec fn path_entries_of(var: Seq<char>) -> Seq<Seq<char>> {
    split_on(var, ';')
}

/// The ordered search list: the configured directories, the package `bin`
/// directories that exist, then the search-path directories where they are used.
pub open spec fn search_dirs_of(
    configured: Seq<Seq<char>>,
    prefixes: Seq<Seq<char>>,
    prefix_exists: Seq<bool>,
    env_dirs: Seq<Seq<char>>,
    use_env: bool,
) -> Seq<Seq<char>> {
    configured + kept(prefix_bin_dirs(prefixes), prefix_exists) + if use_env {
        env_dirs
    } else {
        Seq::empty()
    }
}

/// The pieces of `s` between semicolons.
pub fn path_entries(s: &str) -> (r: Vec<String>)
    ensures
        views(r@) == path_entries_of(s@),
{
    split_chars(&chars_of(s), ';')
}

/// Appends to `dest` the search-path entries of `var` that exist as directories;
/// `exists` tells, entry by entry, which do.
pub fn existing_var_path(dest: &mut Vec<String>, var: &str, exists: &Vec<bool>)
    requires
        exists.len() == path_entries_of(var@).len(),
    ensures
        views(final(dest)@) == views(old(dest)@) + kept(path_entries_of(var@), exists@),
{
    let entries = path_entries(var);
    append_kept(dest, &entries, exists);
}

impl Args {
    /// Whether the search lists take in the process search path, on a host
    /// whose search path is `;`-separated when `windows` holds.
    pub open spec fn uses_env_path(&self, windows: bool) -> bool {
        windows && !self.skip_env_path
    }

    /// Whether the search lists take in the process search path.
    pub fn searches_env_path(&self, windows: bool) -> (r: bool)
        ensures
            r == self.uses_env_path(windows),
    {
        windows && !self.skip_env_path
    }

    /// The `bin` directory of each package prefix entry, whether it exists or not.
    pub fn prefix_bin_candidates(&self) -> (r: Vec<String>)
        ensures
            views(r@) == prefix_bin_dirs(views(self.cmake_prefix_path@)),
    {
        let paths = &self.cmake_prefix_path;
        let mut out: Vec<String> = Vec::new();
        let mut i: usize = 0;
        proof {
            assert(views(paths@).take(0) =~= Seq::<Seq<char>>::empty());
            assert(views(out@) =~= Seq::<Seq<char>>::empty());
        }
        while i < paths.len()
            invariant
                i <= paths.len(),
                views(out@) == prefix_bin_dirs(views(paths@).take(i as int)),
            decreases paths.len() - i,
        {
            let pieces = split_chars(&chars_of(paths[i].as_str()), ';');
            let ghost base = views(out@);
            let ghost mapped = split_on(paths@[i as int]@, ';').map_values(|p: Seq<char>| bin_dir(p));
            let mut j: usize = 0;
            while j < pieces.len()
                invariant
                    j <= pieces.len(),
                    views(pieces@) == split_on(paths@[i as int]@, ';'),
                    mapped == views(pieces@).map_values(|p: Seq<char>| bin_dir(p)),
                    views(out@) == base + mapped.take(j as int),
                decreases pieces.len() - j,
            {
                let mut d = pieces[j].clone();
                push_char(&mut d, '/');
                push_char(&mut d, 'b');
                push_char(&mut d, 'i');
                push_char(&mut d, 'n');
                let ghost before = views(out@);
                proof {
                    assert(d@ =~= bin_dir(pieces@[j as int]@));
                    assert(mapped.take(j + 1) =~= mapped.take(j as int).push(d@));
                }
                out.push(d);
                proof {
                    assert(views(out@) =~= before.push(d@));
                }
                j = j + 1;
            }
            proof {
                assert(mapped.take(pieces@.len() as int) =~= mapped);
                assert(views(paths@).take(i + 1).drop_last() =~= views(paths@).take(i as int));
                assert(views(out@) =~= prefix_bin_dirs(views(paths@).take(i + 1)));
            }
            i = i + 1;
        }
        proof {
            assert(views(paths@).take(paths@.len() as int) =~= views(paths@));
        }
        out
    }

    /// Appends to `dest` the package `bin` directories that exist; `exists`
    /// tells, candidate by candidate, which do.
    pub fn existing_cmake_prefix_path(&self, dest: &mut Vec<String>, exists: &Vec<bool>)
        requires
            exists.len() == prefix_bin_dirs(views(self.cmake_prefix_path@)).len(),
        ensures
            views(final(dest)@) == views(old(dest)@) + kept(
                prefix_bin_dirs(views(self.cmake_prefix_path@)),
                exists@,
            ),
    {
        let candidates = self.prefix_bin_candidates();
        append_kept(dest, &candidates, exists);
    }

    /// The directories whose top level is searched, in precedence order.
    pub fn shallow_search_dirs(&self, prefix_exists: &Vec<bool>, env_dirs: &Vec<String>, windows: bool) -> (r: Vec<String>)
        requires
            prefix_exists.len() == prefix_bin_dirs(views(self.cmake_prefix_path@)).len(),
        ensures
            views(r@) == search_dirs_of(
                views(self.shallow_search_dir@),
                views(self.cmake_prefix_path@),
                prefix_exists@,
                views(env_dirs@),
                self.uses_env_path(windows),
            ),
    {
        let mut v = self.shallow_search_dir.clone();
        self.add_derived_dirs(&mut v, prefix_exists, env_dirs, windows);
        v
    }

    /// The directories whose whole subtree is searched, in precedence order.
    pub fn deep_search_dirs(&self, prefix_exists: &Vec<bool>, env_dirs: &Vec<String>, windows: bool) -> (r: Vec<String>)
        requires
            prefix_exists.len() == prefix_bin_dirs(views(self.cmake_prefix_path@)).len(),
        ensures
            views(r@) == search_dirs_of(
                views(self.deep_search_dir@),
                views(self.cmake_prefix_path@),
                prefix_exists@,
                views(env_dirs@),
                self.uses_env_path(windows),
            ),
    {
        let mut v = self.deep_search_dir.clone();
        self.add_derived_dirs(&mut v, prefix_exists, env_dirs, windows);
        v
    }

    fn add_derived_dirs(&self, v: &mut Vec<String>, prefix_exists: &Vec<bool>, env_dirs: &Vec<String>, windows: bool)
        requires
            prefix_exists.len() == prefix_bin_dirs(views(self.cmake_prefix_path@)).len(),
        ensures
            views(final(v)@) == search_dirs_of(
                views(old(v)@),
                views(self.cmake_prefix_path@),
                prefix_exists@,
                views(env_dirs@),
                self.uses_env_path(windows),
            ),
    {
        let ghost start = views(v@);
        self.existing_cmake_prefix_path(v, prefix_exists);
        let ghost mid = views(v@);
        if self.searches_env_path(windows) {
            let mut i: usize = 0;
            while i < env_dirs.len()
                invariant
                    i <= env_dirs.len(),
                    views(v@) == mid + views(env_dirs@).take(i as int),
                decreases env_dirs.len() - i,
            {
                let ghost before = views(v@);
                v.push(env_dirs[i].clone());
                proof {
                    assert(views(v@) =~= before.push(env_dirs@[i as int]@));
                    assert(views(env_dirs@).take(i + 1) =~= views(env_dirs@).take(i as int).push(env_dirs@[i as int]@));
                }
                i = i + 1;
            }
            proof {
                assert(views(env_dirs@).take(env_dirs@.len() as int) =~= views(env_dirs@));
            }
        } else {
            proof {
                assert(mid + Seq::<Seq<char>>::empty() =~= mid);
            }
        }
    }
}

/// Why no binary inspector could be selected.
#[derive(Clone, Copy, Debug, PartialEq, Eq, Structural)]
pub enum ToolError {
    /// `[system]` was asked for and none is on the search path.
    SystemToolMissing,
    /// The inspector shipped beside this program is missing.
    BuiltinToolMissing,
    /// The inspector file given by path does not exist.
    ToolFileMissing,
}

/// The selector of the inspector found on the search path.
pub open spec fn system_word() -> Seq<char> {
    seq!['[', 's', 'y', 's', 't', 'e', 'm', ']']
}

/// The selector of the inspector shipped beside this program.
pub open spec fn builtin_word() -> Seq<char> {
    seq!['[', 'b', 'u', 'i', 'l', 't', 'i', 'n', ']']
}

/// The selector that prefers the search path and falls back to the shipped inspector.
pub open spec fn auto_word() -> Seq<char> {
    seq!['[', 'a', 'u', 't', 'o', ']']
}

/// The inspector that the selector `input` picks, given the one found on the
/// search path, the one beside this program and whether the named file exists.
pub open spec fn tool_choice(
    input: Seq<char>,
    system_tool: Option<Seq<char>>,
    builtin: Seq<char>,
    builtin_exists: bool,
    input_is_file: bool,
) -> Result<Seq<char>, ToolError> {
    if input == system_word() {
        match system_tool {
            Some(t) => Ok(t),
            None => Err(ToolError::SystemToolMissing),
        }
    } else if input == builtin_word() || (input == auto_word() && system_tool is None) {
        if builtin_exists {
            Ok(builtin)
        } else {
            Err(ToolError::BuiltinToolMissing)
        }
    } else if input == auto_word() {
        Ok(system_tool->0)
    } else if input_is_file {
        Ok(input)
    } else {
        Err(ToolError::ToolFileMissing)
    }
}

fn word_is(input: &str, word: Vec<char>) -> (r: bool)
    ensures
        r == (input@ == word@),
{
    same_chars(&chars_of(input), &word)
}

fn is_system_word(input: &str) -> (r: bool)
    ensures
        r == (input@ == system_word()),
{
    let w = vec!['[', 's', 'y', 's', 't', 'e', 'm', ']'];
    assert(w@ =~= system_word());
    word_is(input, w)
}

fn is_builtin_word(input: &str) -> (r: bool)
    ensures
        r == (input@ == builtin_word()),
{
    let w = vec!['[', 'b', 'u', 'i', 'l', 't', 'i', 'n', ']'];
    assert(w@ =~= builtin_word());
    word_is(input, w)
}

fn is_auto_word(input: &str) -> (r: bool)
    ensures
        r == (input@ == auto_word()),
{
    let w = vec!['[', 'a', 'u', 't', 'o', ']'];
    assert(w@ =~= auto_word());
    word_is(input, w)
}

/// Whether the selector needs the inspector found on the search path.
pub fn needs_system_lookup(input: &str) -> (r: bool)
    ensures
        r == (input@ == system_word() || input@ == auto_word()),
{
    is_system_word(input) || is_auto_word(input)
}

/// Whether the selector needs the inspector shipped beside this program.
pub fn needs_builtin_lookup(input: &str, system_found: bool) -> (r: bool)
    ensures
        r == (input@ == builtin_word() || (input@ == auto_word() && !system_found)),
{
    is_builtin_word(input) || (is_auto_word(input) && !system_found)
}

/// Selects the binary inspector named by `input`.
pub fn get_objdump_file(
    input: &str,
    system_tool: Option<String>,
    builtin_tool: String,
    builtin_exists: bool,
    input_is_file: bool,
) -> (r: Result<String, ToolError>)
    ensures
        match r {
            Ok(s) => tool_choice(input@, match system_tool { Some(t) => Some(t@), None => None }, builtin_tool@, builtin_exists, input_is_file)
                == Ok::<Seq<char>, ToolError>(s@),
            Err(e) => tool_choice(input@, match system_tool { Some(t) => Some(t@), None => None }, builtin_tool@, builtin_exists, input_is_file)
                == Err::<Seq<char>, ToolError>(e),
        },
{
    if is_system_word(input) {
        return match system_tool {
            Some(t) => Ok(t),
            None => Err(ToolError::SystemToolMissing),
        };
    }
    let auto = is_auto_word(input);
    if is_builtin_word(input) || (auto && system_tool.is_none()) {
        return if builtin_exists {
            Ok(builtin_tool)
        } else {
            Err(ToolError::BuiltinToolMissing)
        };
    }
    if auto {
        return match system_tool {
            Some(t) => Ok(t),
            None => Err(ToolError::SystemToolMissing),
        };
    }
    if input_is_file {
        Ok(input.to_owned())
    } else {
        Err(ToolError::ToolFileMissing)
    }
}

impl Args {
    /// Selects the binary inspector that this run's selector names.
    pub fn objdump_file(
        &self,
        system_tool: Option<String>,
        builtin_tool: String,
        builtin_exists: bool,
        input_is_file: bool,
    ) -> (r: Result<String, ToolError>)
        ensures
            match r {
                Ok(s) => tool_choice(self.objdump_file@, match system_tool { Some(t) => Some(t@), None => None }, builtin_tool@, builtin_exists, input_is_file)
                    == Ok::<Seq<char>, ToolError>(s@),
                Err(e) => tool_choice(self.objdump_file@, match system_tool { Some(t) => Some(t@), None => None }, builtin_tool@, builtin_exists, input_is_file)
                    == Err::<Seq<char>, ToolError>(e),
            },
    {
        get_objdump_file(self.objdump_file.as_str(), system_tool, builtin_tool, builtin_exists, input_is_file)
    }
}

} // verus!
