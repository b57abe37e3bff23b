//! Paths as sequences of component names, and what is read off a name.
//!
//! A path here is the list of the names that lead down to a place. What the
//! first name hangs from (a root, a drive, the directory one stands in) is
//! not part of it: the caller keeps that, and puts it in front again.

use vstd::prelude::*;

verus! {

/// The position of the last `.` in `name`, or `-1` where it has none.
pub open spec fn last_dot(name: Seq<char>) -> int
    decreases name.len(),
{
    if name.len() == 0 {
        -1
    } else if name.last() == '.' {
        name.len() - 1
    } else {
        last_dot(name.drop_last())
    }
}

/// The extension of a file name: what follows its last `.`, the dot left out.
///
/// A name without a dot has none, and neither has one whose only dot comes
/// first (`.profile`), nor the name `..`. A name that ends in a dot has the
/// empty extension.
pub open spec fn extension_of(name: Seq<char>) -> Option<Seq<char>> {
    let dot = last_dot(name);
    if dot <= 0 || name =~= seq!['.', '.'] {
        None
    } else {
        Some(name.skip(dot + 1))
    }
}

/// The extension of `name`, as `extension_of` defines it.
pub fn extension(name: &str) -> (ext: Option<String>)
    ensures
        ext is Some == extension_of(name@) is Some,
        ext matches Some(e) ==> Some(e@) == extension_of(name@),
{
    let len: usize = name.unicode_len();
    let mut dot: usize = len;
    assert(name@.take(len as int) =~= name@);
    while dot > 0 && name.get_char(dot - 1) != '.'
        invariant
            dot <= len == name@.len(),
            last_dot(name@) == last_dot(name@.take(dot as int)),
        decreases dot,
    {
        assert(name@.take(dot as int).drop_last() =~= name@.take(dot - 1));
        dot = dot - 1;
    }
    if dot <= 1 {
        return None;
    }
    if len == 2 && name.get_char(0) == '.' {
        return None;
    }
    let tail = name.substring_char(dot, len);
    Some(tail.to_owned())
}

/// The extension of a path: that of its last component.
pub open spec fn path_extension(path: Seq<Seq<char>>) -> Option<Seq<char>> {
    if path.len() == 0 {
        None
    } else {
        extension_of(path.last())
    }
}

/// `path` with the leading components `base` taken off, where it begins with them.
pub open spec fn stripped(path: Seq<Seq<char>>, base: Seq<Seq<char>>) -> Option<Seq<Seq<char>>> {
    if base.is_prefix_of(path) {
        Some(path.skip(base.len() as int))
    } else {
        None
    }
}

/// Whether the last component of `path` has the extension `wanted`, compared
/// letter for letter, the dot left out.
pub fn has_extension(path: &Vec<String>, wanted: &String) -> (yes: bool)
    ensures
        yes == (path_extension(path.deep_view()) == Some(wanted@)),
{
    if path.len() == 0 {
        return false;
    }
    let last = path.len() - 1;
    match extension(path[last].as_str()) {
        Some(found) => found == *wanted,
        None => false,
    }
}

/// Whether `path` begins with the components of `base`.
pub fn starts_with(path: &Vec<String>, base: &Vec<String>) -> (yes: bool)
    ensures
        yes == base.deep_view().is_prefix_of(path.deep_view()),
{
    if base.len() > path.len() {
        return false;
    }
    let mut i: usize = 0;
    while i < base.len()
        invariant
            i <= base.len() <= path.len(),
            forall|j: int| 0 <= j < i ==> base[j]@ == path[j]@,
        decreases base.len() - i,
    {
        if base[i] != path[i] {
            assert(base.deep_view()[i as int] != path.deep_view().subrange(
                0,
                base.len() as int,
            )[i as int]);
            return false;
        }
        i += 1;
    }
    true
}

/// Takes the leading components `base` off `path`; `None` where `path` does
/// not begin with them.
pub fn strip_prefix(path: Vec<String>, base: &Vec<String>) -> (rest: Option<Vec<String>>)
    ensures
        rest is Some == stripped(path.deep_view(), base.deep_view()) is Some,
        rest matches Some(r) ==> Some(r.deep_view()) == stripped(path.deep_view(), base.deep_view()),
{
    if !starts_with(&path, base) {
        return None;
    }
    let mut path = path;
    Some(path.split_off(base.len()))
}

/// A copy of `path`.
pub(crate) fn copy_path(path: &Vec<String>) -> (copy: Vec<String>)
    ensures
        copy.deep_view() == path.deep_view(),
{
    let mut copy: Vec<String> = Vec::new();
    let mut i: usize = 0;
    while i < path.len()
        invariant
            i <= path.len(),
            copy.len() == i,
            forall|j: int| 0 <= j < i ==> copy[j]@ == path[j]@,
        decreases path.len() - i,
    {
        copy.push(path[i].clone());
        i += 1;
    }
    copy
}

/// Appends `path` to `list`.
pub(crate) fn push_path(list: &mut Vec<Vec<String>>, path: Vec<String>)
    ensures
        final(list).deep_view() == old(list).deep_view().push(path.deep_view()),
{
    list.push(path);
}

/// A copy of `paths`.
pub(crate) fn copy_paths(paths: &Vec<Vec<String>>) -> (copy: Vec<Vec<String>>)
    ensures
        copy.deep_view() == paths.deep_view(),
{
    let mut copy: Vec<Vec<String>> = Vec::new();
    let mut i: usize = 0;
    while i < paths.len()
        invariant
            i <= paths.len(),
            copy.len() == i,
            forall|j: int| 0 <= j < i ==> copy[j].deep_view() == paths[j].deep_view(),
        decreases paths.len() - i,
    {
        copy.push(copy_path(&paths[i]));
        i += 1;
    }
    copy
}

/// The directory of the CUE sources in a project whose top is `root`.
pub open spec fn cue_dir_of(root: Seq<Seq<char>>) -> Seq<Seq<char>> {
    root.push(".github"@).push("cue"@)
}

/// The top of the project: the directory above `manifest_dir`, the one that
/// holds this tool's own manifest. A `manifest_dir` without a last name has
/// no directory above it.
pub fn project_root(manifest_dir: &Vec<String>) -> (root: Vec<String>)
    requires
        manifest_dir.len() > 0,
    ensures
        root.deep_view() == manifest_dir.deep_view().drop_last(),
{
    let mut root = copy_path(manifest_dir);
    root.pop();
    root
}

/// The directory of the CUE sources, `.github/cue` below `root`.
pub fn cue_dir(root: &Vec<String>) -> (dir: Vec<String>)
    ensures
        dir.deep_view() == cue_dir_of(root.deep_view()),
{
    let mut dir = copy_path(root);
    dir.push(".github".to_owned());
    dir.push("cue".to_owned());
    dir
}

/// The line that tells of a change of directory: an empty line, then
/// `$ cd `, the directory as it is shown, and the separator of path
/// components.
pub fn verbose_cd(dir: &str, separator: &str) -> (line: String)
    ensures
        line@ == "\n$ cd "@ + dir@ + separator@,
{
    let mut line = "\n$ cd ".to_owned();
    line.append(dir);
    line.append(separator);
    line
}

} // verus!
