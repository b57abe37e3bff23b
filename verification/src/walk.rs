//! Collecting the files of a directory tree by extension, one directory at a
//! time.
//!
//! A `Walk` never touches a file system. It names the directory it wants
//! listed next, takes the listing from its caller, and keeps two lists: the
//! directories it has seen and not yet asked for, and the files that matched.

use vstd::prelude::*;
use crate::paths::{copy_path, has_extension, path_extension, push_path, strip_prefix, stripped};

verus! {

/// What a directory entry is.
#[derive(Clone, Copy, Debug, PartialEq, Eq, Structural)]
pub enum EntryKind {
    /// A directory: the walk goes into it.
    Directory,
    /// A regular file: it is kept where its extension matches.
    File,
    /// Anything else; the walk passes over it.
    Other,
}

/// One entry of a directory listing: its whole path, and what it is.
#[derive(Debug)]
pub struct Entry {
    pub path: Vec<String>,
    pub kind: EntryKind,
}

/// An `Entry` as a plain value.
pub struct EntryView {
    pub path: Seq<Seq<char>>,
    pub kind: EntryKind,
}

impl DeepView for Entry {
    type V = EntryView;

    open spec fn deep_view(&self) -> EntryView {
        EntryView { path: self.path.deep_view(), kind: self.kind }
    }
}

impl EntryView {
    /// A regular file with the extension `wanted`.
    pub open spec fn matches(self, wanted: Seq<char>) -> bool {
        self.kind == EntryKind::File && path_extension(self.path) == Some(wanted)
    }
}

/// The paths of the directories among `entries`, in the order of the listing.
pub open spec fn directories(entries: Seq<EntryView>) -> Seq<Seq<Seq<char>>>
    decreases entries.len(),
{
    if entries.len() == 0 {
        Seq::empty()
    } else if entries.last().kind == EntryKind::Directory {
        directories(entries.drop_last()).push(entries.last().path)
    } else {
        directories(entries.drop_last())
    }
}

/// The paths of the regular files among `entries` that have the extension
/// `wanted`, in the order of the listing.
pub open spec fn matching(entries: Seq<EntryView>, wanted: Seq<char>) -> Seq<Seq<Seq<char>>>
    decreases entries.len(),
{
    if entries.len() == 0 {
        Seq::empty()
    } else if entries.last().matches(wanted) {
        matching(entries.drop_last(), wanted).push(entries.last().path)
    } else {
        matching(entries.drop_last(), wanted)
    }
}

/// Each of `paths` that begins with `base`, with `base` taken off; the others
/// are left out.
pub open spec fn relative_to(paths: Seq<Seq<Seq<char>>>, base: Seq<Seq<char>>) -> Seq<Seq<Seq<char>>>
    decreases paths.len(),
{
    if paths.len() == 0 {
        Seq::empty()
    } else {
        match stripped(paths.last(), base) {
            Some(rest) => relative_to(paths.drop_last(), base).push(rest),
            None => relative_to(paths.drop_last(), base),
        }
    }
}

/// A walk in progress.
pub struct Walk {
    root: Vec<String>,
    extension: String,
    pending: Vec<Vec<String>>,
    found: Vec<Vec<String>>,
}

/// A `Walk` as a plain value.
pub struct WalkView {
    /// The directory the walk started from.
    pub root: Seq<Seq<char>>,
    /// The extension looked for, without a dot.
    pub extension: Seq<char>,
    /// Directories seen and not yet listed; the last one is listed next.
    pub pending: Seq<Seq<Seq<char>>>,
    /// The matching files so far, by their whole paths.
    pub found: Seq<Seq<Seq<char>>>,
}

impl WalkView {
    /// A walk that has yet to list its root.
    pub open spec fn start(root: Seq<Seq<char>>, extension: Seq<char>) -> WalkView {
        WalkView { root, extension, pending: seq![root], found: Seq::empty() }
    }

    /// The directory to list next.
    pub open spec fn next_dir(self) -> Option<Seq<Seq<char>>> {
        if self.pending.len() == 0 {
            None
        } else {
            Some(self.pending.last())
        }
    }

    /// The walk after the listing of `next_dir` came back as `entries`: that
    /// directory is done, its subdirectories wait, its matching files are
    /// kept. A walk with nothing left to list stays as it is.
    pub open spec fn record(self, entries: Seq<EntryView>) -> WalkView {
        if self.pending.len() == 0 {
            self
        } else {
            WalkView {
                pending: self.pending.drop_last() + directories(entries),
                found: self.found + matching(entries, self.extension),
                ..self
            }
        }
    }

    /// What the walk hands out: the files found, each relative to the root.
    pub open spec fn result(self) -> Seq<Seq<Seq<char>>> {
        relative_to(self.found, self.root)
    }
}

impl View for Walk {
    type V = WalkView;

    closed spec fn view(&self) -> WalkView {
        WalkView {
            root: self.root.deep_view(),
            extension: self.extension@,
            pending: self.pending.deep_view(),
            found: self.found.deep_view(),
        }
    }
}

impl Walk {
    /// Starts a walk of `root` for files with the extension `extension`.
    pub fn new(root: Vec<String>, extension: &str) -> (walk: Walk)
        ensures
            walk@ == WalkView::start(root.deep_view(), extension@),
    {
        let mut pending: Vec<Vec<String>> = Vec::new();
        pending.push(copy_path(&root));
        let walk = Walk { root, extension: extension.to_owned(), pending, found: Vec::new() };
        assert(walk.pending.deep_view() =~= seq![root.deep_view()]);
        assert(walk.found.deep_view() =~= Seq::empty());
        walk
    }

    /// The directory whose listing the walk is waiting for; `None` once every
    /// directory has been listed.
    pub fn next_dir(&self) -> (dir: Option<Vec<String>>)
        ensures
            dir is Some == self@.next_dir() is Some,
            dir matches Some(d) ==> Some(d.deep_view()) == self@.next_dir(),
    {
        if self.pending.len() == 0 {
            None
        } else {
            let last = self.pending.len() - 1;
            Some(copy_path(&self.pending[last]))
        }
    }

    /// Takes the listing of the directory that `next_dir` named.
    pub fn record(&mut self, entries: Vec<Entry>)
        ensures
            final(self)@ == old(self)@.record(entries.deep_view()),
    {
        if self.pending.len() == 0 {
            return;
        }
        let ghost before = self@;
        let ghost listing = entries.deep_view();
        let ghost items = entries@;
        self.pending.pop();
        for entry in it: entries
            invariant
                it.seq() == items,
                listing.len() == items.len(),
                forall|j: int| 0 <= j < items.len() ==> listing[j] == items[j].deep_view(),
                self.root.deep_view() == before.root,
                self.extension@ == before.extension,
                self.pending.deep_view() == before.pending.drop_last() + directories(
                    listing.take(it.index() as int),
                ),
                self.found.deep_view() == before.found + matching(
                    listing.take(it.index() as int),
                    before.extension,
                ),
        {
            let ghost i = it.index() as int;
            assert(listing.take(i + 1).drop_last() =~= listing.take(i));
            match entry.kind {
                EntryKind::Directory => {
                    push_path(&mut self.pending, entry.path);
                },
                EntryKind::File => {
                    if has_extension(&entry.path, &self.extension) {
                        push_path(&mut self.found, entry.path);
                    }
                },
                EntryKind::Other => {},
            }
        }
        assert(listing.take(listing.len() as int) =~= listing);
    }

    /// Ends the walk and hands out the files found, each relative to the
    /// root. A path that does not begin with the root is left out.
    pub fn finish(self) -> (files: Vec<Vec<String>>)
        ensures
            files.deep_view() == self@.result(),
    {
        let ghost found = self.found.deep_view();
        let ghost root = self.root.deep_view();
        let ghost items = self.found@;
        let mut files: Vec<Vec<String>> = Vec::new();
        for path in it: self.found
            invariant
                it.seq() == items,
                found.len() == items.len(),
                forall|j: int| 0 <= j < items.len() ==> found[j] == items[j].deep_view(),
                self.root.deep_view() == root,
                files.deep_view() == relative_to(found.take(it.index() as int), root),
        {
            let ghost i = it.index() as int;
            assert(found.take(i + 1).drop_last() =~= found.take(i));
            match strip_prefix(path, &self.root) {
                Some(rest) => {
                    push_path(&mut files, rest);
                },
                None => {},
            }
        }
        assert(found.take(found.len() as int) =~= found);
        files
    }
}

} // verus!
