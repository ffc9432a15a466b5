//! Paths as text: what the scan decides from a path alone.

use crate::text::{
    chars_of, contains_string, matches_at, occurs_at, trim, trimmed,
};
use vstd::prelude::*;

verus! {

/// The file whose presence marks the root of a project.
pub const PROJECT_MARKER: &'static str = "Cargo.toml";

/// The name of the ignore file that is honoured at every level of the tree.
pub const CUSTOM_IGNORE_FILE: &'static str = ".contreeignore";

/// The directory of a version-control checkout, never scanned.
pub const GIT_DIR: &'static str = ".git";

/// What ends the name of a source file of a dependency.
pub const SOURCE_SUFFIX: &'static str = ".rs";

/// `name` stands in `path` at offset `i` as a whole component: between
/// separators or the ends of the path. `name` holds no separator.
pub open spec fn component_at(path: Seq<char>, name: Seq<char>, i: int) -> bool {
    &&& occurs_at(path, name, i)
    &&& (i == 0 || path[i - 1] == '/')
    &&& (i + name.len() == path.len() || path[i + name.len()] == '/')
}

/// One of the components of `path` is `name`.
pub open spec fn has_component(path: Seq<char>, name: Seq<char>) -> bool {
    exists|i: int| component_at(path, name, i)
}

/// Whether a file `depth` directories below the root is within the limit.
/// Files directly in the root are at depth 0.
pub open spec fn within_depth(depth: usize, max_depth: Option<usize>) -> bool {
    match max_depth {
        None => true,
        Some(limit) => depth <= limit,
    }
}

/// The limit for a walk that counts the root itself as level 0 and its
/// entries as level 1.
pub open spec fn walk_limit(max_depth: Option<usize>) -> Option<usize> {
    match max_depth {
        Some(limit) if limit < usize::MAX => Some((limit + 1) as usize),
        _ => None,
    }
}

/// Whether some directory of the chain holds the project marker.
pub open spec fn chain_has_marker(chain: Seq<bool>) -> bool {
    exists|i: int| 0 <= i < chain.len() && chain[i]
}

/// Whether `name` ends in `suffix` and has something before it.
pub open spec fn has_suffix_after_stem(name: Seq<char>, suffix: Seq<char>) -> bool {
    name.len() > suffix.len() && name.subrange(name.len() - suffix.len(), name.len() as int)
        == suffix
}

/// `rel` below `base`: `rel` itself if it starts at the root, else `base`
/// and `rel` with one separator between them unless `base` is empty or ends
/// in one.
pub open spec fn joined(base: Seq<char>, rel: Seq<char>) -> Seq<char> {
    if rel.len() > 0 && rel[0] == '/' {
        rel
    } else if base.len() == 0 || base.last() == '/' {
        base + rel
    } else {
        base + seq!['/'] + rel
    }
}

/// The directory that holds the sources of the downloaded packages: below
/// the package manager's home if that is known, else below `.cargo` in the
/// user's home.
pub open spec fn registry_dir(cargo_home: Option<Seq<char>>, home: Option<Seq<char>>) -> Option<
    Seq<char>,
> {
    match cargo_home {
        Some(dir) => Some(joined(joined(dir, "registry"@), "src"@)),
        None => match home {
            Some(dir) => Some(joined(joined(dir + "/.cargo"@, "registry"@), "src"@)),
            None => None,
        },
    }
}

/// How the tree below the root is walked.
#[derive(Debug, Clone, PartialEq, Eq)]
pub struct WalkSettings {
    /// Hidden files and directories are left out.
    pub skip_hidden: bool,
    /// Ignore files of parent directories count too.
    pub parents: bool,
    /// `.ignore` files are honoured.
    pub ignore_files: bool,
    /// `.gitignore` files are honoured.
    pub git_ignore: bool,
    /// The user's global ignore file is honoured.
    pub git_global: bool,
    /// `.git/info/exclude` is honoured.
    pub git_exclude: bool,
    /// An ignore file of this name is honoured at every level.
    pub custom_ignore_file: String,
    /// The deepest level walked, the root being level 0; `None` for no limit.
    pub level_limit: Option<usize>,
}

/// The level limit of the walk keeps exactly the files within the depth
/// limit: a file at level `level` of the walk, the root being level 0, lies
/// `level - 1` directories below the root.
pub proof fn lemma_walk_limit_keeps_depth(level: usize, max_depth: Option<usize>)
    requires
        level >= 1,
    ensures
        within_depth((level - 1) as usize, max_depth) <==> (walk_limit(max_depth) matches Some(
            limit,
        ) ==> level <= limit),
        walk_limit(Some(0usize)) == Some(1usize),
{
}

/// A path given on the command line: the text without the white space
/// around it.
pub fn parse_pathbuf(s: &str) -> (r: Result<String, String>)
    ensures
        r matches Ok(path) && path@ == trimmed(s@),
{
    Ok(trim(s).to_owned())
}

/// Whether one of the components of `path` is `name`.
pub fn path_has_component(path: &str, name: &str) -> (b: bool)
    ensures
        b == has_component(path@, name@),
{
    let p = chars_of(path);
    let m = chars_of(name);
    if m.len() > p.len() {
        return false;
    }
    let last = p.len() - m.len();
    let mut i: usize = 0;
    while i <= last
        invariant
            i <= last + 1,
            last == p.len() - m.len(),
            p@ == path@,
            m@ == name@,
            forall|j: int| 0 <= j < i ==> !component_at(path@, name@, j),
        decreases last + 1 - i,
    {
        if (i == 0 || p[i - 1] == '/') && (i == last || p[i + m.len()] == '/') && matches_at(
            &p,
            &m,
            i,
        ) {
            assert(component_at(path@, name@, i as int));
            return true;
        }
        if i == last {
            return false;
        }
        i += 1;
    }
    false
}

/// Whether `path` leads through a version-control directory.
pub fn has_git_component(path: &str) -> (b: bool)
    ensures
        b == has_component(path@, GIT_DIR@),
{
    path_has_component(path, GIT_DIR)
}

/// The level limit for the walk that keeps exactly the files within
/// `max_depth`.
pub fn walker_depth_limit(max_depth: &Option<usize>) -> (limit: Option<usize>)
    ensures
        limit == walk_limit(*max_depth),
{
    match max_depth {
        Some(m) => {
            if *m < usize::MAX {
                Some(*m + 1)
            } else {
                None
            }
        },
        None => None,
    }
}

/// The settings of the walk for a given depth limit.
pub fn walk_settings(max_depth: &Option<usize>) -> (s: WalkSettings)
    ensures
        s.skip_hidden,
        s.parents,
        s.ignore_files,
        s.git_ignore,
        s.git_global,
        !s.git_exclude,
        s.custom_ignore_file@ == CUSTOM_IGNORE_FILE@,
        s.level_limit == walk_limit(*max_depth),
{
    WalkSettings {
        skip_hidden: true,
        parents: true,
        ignore_files: true,
        git_ignore: true,
        git_global: true,
        git_exclude: false,
        custom_ignore_file: CUSTOM_IGNORE_FILE.to_owned(),
        level_limit: walker_depth_limit(max_depth),
    }
}

/// Whether the directory scanned, or one above it, is the root of a
/// project. `marker_chain` says of each directory of the chain, the scanned
/// one first, whether it holds the project marker.
pub fn is_rust_project(marker_chain: &Vec<bool>) -> (b: bool)
    ensures
        b == chain_has_marker(marker_chain@),
{
    let mut i: usize = 0;
    while i < marker_chain.len()
        invariant
            i <= marker_chain.len(),
            forall|k: int| 0 <= k < i ==> !marker_chain@[k],
        decreases marker_chain.len() - i,
    {
        if marker_chain[i] {
            return true;
        }
        i += 1;
    }
    false
}

/// Whether a file of this name is a source file of a dependency.
pub fn is_rust_source(file_name: &str) -> (b: bool)
    ensures
        b == has_suffix_after_stem(file_name@, SOURCE_SUFFIX@),
{
    let name = chars_of(file_name);
    let suffix = chars_of(SOURCE_SUFFIX);
    if name.len() <= suffix.len() {
        return false;
    }
    matches_at(&name, &suffix, name.len() - suffix.len())
}

/// Whether a directory of the package cache belongs to a package in use.
pub fn is_used_crate_dir(dir_name: &str, used: &Vec<String>) -> (b: bool)
    ensures
        b == used.deep_view().contains(dir_name@),
{
    contains_string(used, dir_name)
}

/// `rel` below `base`.
pub fn join_path(base: &str, rel: &str) -> (p: String)
    ensures
        p@ == joined(base@, rel@),
{
    let b = chars_of(base);
    let r = chars_of(rel);
    if r.len() > 0 && r[0] == '/' {
        return rel.to_owned();
    }
    let mut p = base.to_owned();
    if b.len() > 0 && b[b.len() - 1] != '/' {
        p.append("/");
        proof {
            reveal_strlit("/");
            assert("/"@ =~= seq!['/']);
        }
    }
    p.append(rel);
    p
}

/// The directory that holds the sources of the downloaded packages, if
/// either home is known.
pub fn registry_source_dir(cargo_home: &Option<String>, home: &Option<String>) -> (dir: Option<
    String,
>)
    ensures
        dir.deep_view() == registry_dir(cargo_home.deep_view(), home.deep_view()),
{
    let base = match cargo_home {
        Some(dir) => dir.clone(),
        None => match home {
            Some(dir) => {
                let mut base = dir.clone();
                base.append("/.cargo");
                base
            },
            None => {
                return None;
            },
        },
    };
    let registry = join_path(base.as_str(), "registry");
    Some(join_path(registry.as_str(), "src"))
}

} // verus!
