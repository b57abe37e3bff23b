//! A directory tree held in memory, and the files of it that a walk finds.

use vstd::prelude::*;
use vstd::multiset::Multiset;
use crate::paths::{copy_path, extension_of, path_extension};
use crate::walk::{directories, matching, relative_to, Entry, EntryKind, EntryView, Walk};

verus! {

/// What stands at a place in a directory tree.
#[derive(Debug)]
pub enum Node {
    /// A regular file.
    File,
    /// Neither a regular file nor a directory.
    Other,
    /// A directory whose entries cannot be read.
    Unreadable,
    /// A directory, with its entries in the order in which it lists them.
    Directory(Vec<Child>),
}

/// An entry of a directory: a name, and what stands under it.
#[derive(Debug)]
pub struct Child {
    pub name: String,
    pub node: Node,
}

/// A `Node` as a plain value.
pub enum NodeView {
    File,
    Other,
    Unreadable,
    Directory(Seq<ChildView>),
}

/// A `Child` as a plain value.
pub struct ChildView {
    pub name: Seq<char>,
    pub node: NodeView,
}

impl View for Node {
    type V = NodeView;

    open spec fn view(&self) -> NodeView
        decreases self,
    {
        match self {
            Node::File => NodeView::File,
            Node::Other => NodeView::Other,
            Node::Unreadable => NodeView::Unreadable,
            Node::Directory(children) => NodeView::Directory(
                Seq::new(
                    children.len() as nat,
                    |i: int|
                        if 0 <= i < children.len() {
                            ChildView { name: children[i].name@, node: children[i].node.view() }
                        } else {
                            ChildView { name: Seq::empty(), node: NodeView::Other }
                        },
                ),
            ),
        }
    }
}

impl NodeView {
    /// How a listing of the directory above reports this node: a directory
    /// is one whether or not it can be read.
    pub open spec fn kind(self) -> EntryKind {
        match self {
            NodeView::File => EntryKind::File,
            NodeView::Other => EntryKind::Other,
            NodeView::Unreadable => EntryKind::Directory,
            NodeView::Directory(_) => EntryKind::Directory,
        }
    }

    /// Every directory at or below this node can be read.
    pub open spec fn readable(self) -> bool
        decreases self,
    {
        match self {
            NodeView::Unreadable => false,
            NodeView::Directory(children) => forall|i: int|
                0 <= i < children.len() ==> (#[trigger] children[i]).node.readable(),
            _ => true,
        }
    }

    /// Whether `path`, taken from this node down, leads to a regular file.
    pub open spec fn file_at(self, path: Seq<Seq<char>>) -> bool
        decreases path.len(),
    {
        &&& self matches NodeView::Directory(children)
        &&& path.len() > 0
        &&& exists|i: int|
            0 <= i < children.len() && (#[trigger] children[i]).name == path[0] && if path.len()
                == 1 {
                children[i].node is File
            } else {
                children[i].node.file_at(path.skip(1))
            }
    }

    /// The regular files at or below this node that have the extension
    /// `wanted`, each as the path `at` of this node followed by the names
    /// that lead down to the file. A directory's files come in the order of
    /// its entries, those of a subdirectory in the place of its entry.
    pub open spec fn files(self, at: Seq<Seq<char>>, wanted: Seq<char>) -> Seq<Seq<Seq<char>>>
        decreases self,
    {
        match self {
            NodeView::Directory(children) => files_among(children, children.len(), at, wanted),
            _ => Seq::empty(),
        }
    }
}

/// The files that the first `n` entries of a directory at `at` contribute.
pub open spec fn files_among(
    children: Seq<ChildView>,
    n: nat,
    at: Seq<Seq<char>>,
    wanted: Seq<char>,
) -> Seq<Seq<Seq<char>>>
    decreases children, n,
{
    if n == 0 || n > children.len() {
        Seq::empty()
    } else {
        let child = children[n - 1];
        let before = files_among(children, (n - 1) as nat, at, wanted);
        match child.node {
            NodeView::File => if extension_of(child.name) == Some(wanted) {
                before.push(at.push(child.name))
            } else {
                before
            },
            NodeView::Directory(_) => before + child.node.files(at.push(child.name), wanted),
            _ => before,
        }
    }
}

/// What a directory at `at` lists for `children`: each entry by its whole
/// path, with the kind of what stands under it.
spec fn listing(children: Seq<ChildView>, at: Seq<Seq<char>>) -> Seq<EntryView> {
    Seq::new(
        children.len(),
        |i: int| EntryView { path: at.push(children[i].name), kind: children[i].node.kind() },
    )
}

/// The directories among the first `n` of `children`, in their order.
spec fn subdirectories(children: Seq<ChildView>, n: nat) -> Seq<NodeView>
    decreases n,
{
    if n == 0 || n > children.len() {
        Seq::empty()
    } else if children[n - 1].node.kind() == EntryKind::Directory {
        subdirectories(children, (n - 1) as nat).push(children[n - 1].node)
    } else {
        subdirectories(children, (n - 1) as nat)
    }
}

/// The files still to come from directories that wait to be listed, each
/// relative to `root`: `nodes[k]` stands at `dirs[k]`.
spec fn waiting(
    nodes: Seq<NodeView>,
    dirs: Seq<Seq<Seq<char>>>,
    root: Seq<Seq<char>>,
    wanted: Seq<char>,
) -> Multiset<Seq<Seq<char>>>
    decreases nodes.len(),
{
    if nodes.len() == 0 || dirs.len() != nodes.len() {
        Multiset::empty()
    } else {
        waiting(nodes.drop_last(), dirs.drop_last(), root, wanted).add(
            nodes.last().files(dirs.last().skip(root.len() as int), wanted).to_multiset(),
        )
    }
}

/// The number of nodes at or below `node`.
spec fn size(node: NodeView) -> nat
    decreases node,
{
    match node {
        NodeView::Directory(children) => 1 + size_among(children, children.len()),
        _ => 1,
    }
}

/// The number of nodes at or below the first `n` of `children`.
spec fn size_among(children: Seq<ChildView>, n: nat) -> nat
    decreases children, n,
{
    if n == 0 || n > children.len() {
        0
    } else {
        size_among(children, (n - 1) as nat) + size(children[n - 1].node)
    }
}

/// The number of nodes at or below `nodes`, all together.
spec fn weight(nodes: Seq<NodeView>) -> nat
    decreases nodes.len(),
{
    if nodes.len() == 0 {
        0
    } else {
        weight(nodes.drop_last()) + size(nodes.last())
    }
}

/// Every one of `nodes` can be read through.
spec fn all_readable(nodes: Seq<NodeView>) -> bool {
    forall|k: int| 0 <= k < nodes.len() ==> (#[trigger] nodes[k]).readable()
}

/// Every one of `dirs` lies at or below `root`.
spec fn all_below(dirs: Seq<Seq<Seq<char>>>, root: Seq<Seq<char>>) -> bool {
    forall|k: int| 0 <= k < dirs.len() ==> root.is_prefix_of(#[trigger] dirs[k])
}

proof fn lemma_nothing_listed<A>(s: Seq<A>)
    requires
        s.len() == 0,
    ensures
        s.to_multiset() == Multiset::<A>::empty(),
{
    s.to_multiset_ensures();
    vstd::multiset::lemma_multiset_empty_len(s.to_multiset());
}

proof fn lemma_relative_concat(a: Seq<Seq<Seq<char>>>, b: Seq<Seq<Seq<char>>>, root: Seq<Seq<char>>)
    ensures
        relative_to(a + b, root) == relative_to(a, root) + relative_to(b, root),
    decreases b.len(),
{
    if b.len() > 0 {
        lemma_relative_concat(a, b.drop_last(), root);
        assert((a + b).drop_last() =~= a + b.drop_last());
    }
}

proof fn lemma_waiting_concat(
    n1: Seq<NodeView>,
    d1: Seq<Seq<Seq<char>>>,
    n2: Seq<NodeView>,
    d2: Seq<Seq<Seq<char>>>,
    root: Seq<Seq<char>>,
    wanted: Seq<char>,
)
    requires
        n1.len() == d1.len(),
        n2.len() == d2.len(),
    ensures
        waiting(n1 + n2, d1 + d2, root, wanted) == waiting(n1, d1, root, wanted).add(
            waiting(n2, d2, root, wanted),
        ),
    decreases n2.len(),
{
    broadcast use vstd::multiset::group_multiset_axioms;

    if n2.len() > 0 {
        lemma_waiting_concat(n1, d1, n2.drop_last(), d2.drop_last(), root, wanted);
        assert((n1 + n2).drop_last() =~= n1 + n2.drop_last());
        assert((d1 + d2).drop_last() =~= d1 + d2.drop_last());
    }
}

proof fn lemma_weight_concat(a: Seq<NodeView>, b: Seq<NodeView>)
    ensures
        weight(a + b) == weight(a) + weight(b),
    decreases b.len(),
{
    if b.len() > 0 {
        lemma_weight_concat(a, b.drop_last());
        assert((a + b).drop_last() =~= a + b.drop_last());
    }
}

/// What listing one directory does to a walk: of the first `n` entries of a
/// directory at `dir`, the files that match and the subdirectories left to
/// list account together for exactly the files that those entries hold.
proof fn lemma_directory_step(
    children: Seq<ChildView>,
    n: nat,
    dir: Seq<Seq<char>>,
    root: Seq<Seq<char>>,
    wanted: Seq<char>,
)
    requires
        n <= children.len(),
        root.is_prefix_of(dir),
    ensures
        ({
            let entries = listing(children, dir).take(n as int);
            let subs = subdirectories(children, n);
            let dirs = directories(entries);
            let inner = dir.skip(root.len() as int);
            &&& dirs.len() == subs.len()
            &&& all_below(dirs, root)
            &&& forall|k: int| 0 <= k < subs.len() ==> (#[trigger] subs[k]).kind() == EntryKind::Directory
            &&& relative_to(matching(entries, wanted), root).to_multiset().add(
                waiting(subs, dirs, root, wanted),
            ) =~= files_among(children, n, inner, wanted).to_multiset()
            &&& all_readable(subs) <==> forall|i: int|
                0 <= i < n ==> (#[trigger] children[i]).node.readable()
            &&& weight(subs) <= size_among(children, n)
        }),
    decreases n,
{
    broadcast use vstd::multiset::group_multiset_axioms;

    let entries = listing(children, dir).take(n as int);
    let subs = subdirectories(children, n);
    let dirs = directories(entries);
    let inner = dir.skip(root.len() as int);
    if n > 0 {
        let m = (n - 1) as nat;
        lemma_directory_step(children, m, dir, root, wanted);
        let entries0 = listing(children, dir).take(m as int);
        let child = children[m as int];
        let path = dir.push(child.name);
        let within = inner.push(child.name);
        let found0 = relative_to(matching(entries0, wanted), root);
        let before = files_among(children, m, inner, wanted);
        assert(entries.drop_last() =~= entries0);
        assert(path.skip(root.len() as int) =~= within);
        match child.node {
            NodeView::File => {
                // A matching file goes from the entries to the files found.
                vstd::seq_lib::to_multiset_build(found0, within);
                vstd::seq_lib::to_multiset_build(before, within);
                assert(matching(entries0, wanted).push(path).drop_last() =~= matching(
                    entries0,
                    wanted,
                ));
            },
            NodeView::Other => {},
            _ => {
                // A directory waits, and with it the files below it.
                assert(subs.drop_last() =~= subdirectories(children, m));
                assert(dirs.drop_last() =~= directories(entries0));
                vstd::seq_lib::lemma_multiset_commutative(before, child.node.files(within, wanted));
            },
        }
    }
}

/// Whether `rest`, taken from the directory that holds `child`, leads through
/// `child` to a regular file.
spec fn reaches(child: ChildView, rest: Seq<Seq<char>>) -> bool {
    &&& rest.len() > 0
    &&& child.name == rest[0]
    &&& if rest.len() == 1 {
        child.node is File
    } else {
        child.node.file_at(rest.skip(1))
    }
}

/// Whether `rest` leads through one of the first `n` of `children` to a
/// regular file.
spec fn some_reaches(children: Seq<ChildView>, n: nat, rest: Seq<Seq<char>>) -> bool {
    exists|i: int| 0 <= i < n && reaches(#[trigger] children[i], rest)
}

proof fn lemma_files_among(
    children: Seq<ChildView>,
    n: nat,
    at: Seq<Seq<char>>,
    wanted: Seq<char>,
    path: Seq<Seq<char>>,
)
    requires
        n <= children.len(),
    ensures
        files_among(children, n, at, wanted).contains(path) <==> at.is_prefix_of(path)
            && path_extension(path) == Some(wanted) && some_reaches(
            children,
            n,
            path.skip(at.len() as int),
        ),
    decreases children, n,
{
    let rest = path.skip(at.len() as int);
    if n > 0 {
        let m = (n - 1) as nat;
        let child = children[m as int];
        let here = at.push(child.name);
        let before = files_among(children, m, at, wanted);
        let all = files_among(children, n, at, wanted);
        lemma_files_among(children, m, at, wanted, path);
        let below = match child.node {
            NodeView::File => if extension_of(child.name) == Some(wanted) {
                seq![here]
            } else {
                Seq::empty()
            },
            NodeView::Directory(_) => child.node.files(here, wanted),
            _ => Seq::empty(),
        };
        assert(all.contains(path) <==> before.contains(path) || below.contains(path)) by {
            if before.contains(path) {
                let i = choose|i: int| 0 <= i < before.len() && before[i] == path;
                assert(all[i] == path);
            }
            if below.contains(path) {
                let i = choose|i: int| 0 <= i < below.len() && below[i] == path;
                assert(all[before.len() + i] == path);
            }
            if all.contains(path) {
                let i = choose|i: int| 0 <= i < all.len() && all[i] == path;
                if i >= before.len() {
                    assert(below[i - before.len()] == path);
                }
            }
        }
        // The path of this entry begins a path exactly where the directory's
        // own path does and the next name is that of the entry.
        assert(here.is_prefix_of(path) <==> at.is_prefix_of(path) && rest.len() > 0 && rest[0]
            == child.name) by {
            if here.is_prefix_of(path) {
                assert(rest[0] == here[at.len() as int]);
            }
        }
        if here.is_prefix_of(path) {
            assert(path.skip(here.len() as int) =~= rest.skip(1));
        }
        match child.node {
            NodeView::File => {
                if extension_of(child.name) == Some(wanted) {
                    assert(below[0] == here);
                }
                if at.is_prefix_of(path) && reaches(child, rest) {
                    assert(path =~= here);
                }
            },
            NodeView::Directory(_) => {
                lemma_files(child.node, here, wanted, path);
            },
            _ => {},
        }
    }
}

proof fn lemma_files(node: NodeView, at: Seq<Seq<char>>, wanted: Seq<char>, path: Seq<Seq<char>>)
    ensures
        node.files(at, wanted).contains(path) <==> at.is_prefix_of(path) && path_extension(path)
            == Some(wanted) && node.file_at(path.skip(at.len() as int)),
    decreases node,
{
    if let NodeView::Directory(children) = node {
        lemma_files_among(children, children.len(), at, wanted, path);
    }
}

/// A walk finds the regular files with the wanted extension, and nothing
/// else: a path is among the files of `tree` exactly where it leads, from the
/// top of `tree`, to a regular file, and its last name has the extension.
pub proof fn lemma_found_exactly(tree: NodeView, wanted: Seq<char>, path: Seq<Seq<char>>)
    ensures
        tree.files(Seq::empty(), wanted).contains(path) <==> tree.file_at(path) && path_extension(
            path,
        ) == Some(wanted),
{
    lemma_files(tree, Seq::empty(), wanted, path);
    assert(path.skip(0) =~= path);
}

/// The order in which directories list their entries does not change which
/// files are found: two trees in which the same paths lead to regular files
/// give the same set of files.
pub proof fn lemma_order_does_not_matter(first: NodeView, second: NodeView, wanted: Seq<char>)
    requires
        forall|path: Seq<Seq<char>>| first.file_at(path) == second.file_at(path),
    ensures
        first.files(Seq::empty(), wanted).to_set() == second.files(Seq::empty(), wanted).to_set(),
{
    let a = first.files(Seq::empty(), wanted).to_set();
    let b = second.files(Seq::empty(), wanted).to_set();
    assert forall|path: Seq<Seq<char>>| a.contains(path) == b.contains(path) by {
        lemma_found_exactly(first, wanted, path);
        lemma_found_exactly(second, wanted, path);
    }
}

/// A tree in which no regular file has the wanted extension gives no files.
/// An empty directory is such a tree.
pub proof fn lemma_nothing_matches(tree: NodeView, wanted: Seq<char>)
    requires
        forall|path: Seq<Seq<char>>| tree.file_at(path) ==> path_extension(path) != Some(wanted),
    ensures
        tree.files(Seq::empty(), wanted) == Seq::<Seq<Seq<char>>>::empty(),
{
    let files = tree.files(Seq::empty(), wanted);
    if files.len() > 0 {
        lemma_found_exactly(tree, wanted, files[0]);
    }
}

/// Why the files of a tree could not be collected.
#[derive(Clone, Copy, Debug, PartialEq, Eq, Structural)]
pub enum WalkError {
    /// The place to walk from is no directory.
    NotADirectory,
    /// A directory at or below it cannot be read.
    Unreadable,
}

/// The plain values of `nodes`.
spec fn views(nodes: Seq<&Node>) -> Seq<NodeView> {
    Seq::new(nodes.len(), |k: int| nodes[k]@)
}

/// How a listing reports `node`.
fn kind_of(node: &Node) -> (kind: EntryKind)
    ensures
        kind == node@.kind(),
{
    match node {
        Node::File => EntryKind::File,
        Node::Other => EntryKind::Other,
        Node::Unreadable => EntryKind::Directory,
        Node::Directory(_) => EntryKind::Directory,
    }
}

/// Collects the files with the extension `extension` from the directory
/// `tree`, which stands at `root`, and names each by its path from there.
///
/// The walk lists one directory at a time, starting with `tree`; of the
/// directories that wait, the one seen last is listed next. So the files come
/// out in another order than `NodeView::files` gives them, but they are the
/// same files, each as often. The walk fails where `tree` is no directory, and
/// where any directory in it cannot be read, and then hands out nothing.
pub fn find_files<'a>(root: &Vec<String>, tree: &'a Node, extension: &str) -> (found: Result<
    Vec<Vec<String>>,
    WalkError,
>)
    ensures
        found is Ok <==> tree@ is Directory && tree@.readable(),
        found == Err::<Vec<Vec<String>>, WalkError>(WalkError::NotADirectory) <==> tree@.kind()
            != EntryKind::Directory,
        found == Err::<Vec<Vec<String>>, WalkError>(WalkError::Unreadable) <==> tree@.kind()
            == EntryKind::Directory && !tree@.readable(),
        found matches Ok(files) ==> files.deep_view().to_multiset() == tree@.files(
            Seq::empty(),
            extension@,
        ).to_multiset(),
        found matches Ok(files) ==> forall|path: Seq<Seq<char>>|
            files.deep_view().contains(path) <==> tree@.file_at(path) && path_extension(path)
                == Some(extension@),
{
    broadcast use vstd::multiset::group_multiset_axioms;

    if kind_of(tree) != EntryKind::Directory {
        return Err(WalkError::NotADirectory);
    }
    let ghost base = root.deep_view();
    let ghost wanted = extension@;
    let ghost target = tree@.files(Seq::empty(), wanted).to_multiset();
    let mut walk = Walk::new(copy_path(root), extension);
    let mut nodes: Vec<&'a Node> = Vec::new();
    nodes.push(tree);
    let mut next = walk.next_dir();
    proof {
        let v = views(nodes@);
        let p = walk@.pending;
        assert(base.skip(base.len() as int) =~= Seq::empty());
        lemma_nothing_listed(relative_to(walk@.found, base));
        assert(waiting(v.drop_last(), p.drop_last(), base, wanted) =~= Multiset::empty());
    }
    while next.is_some()
        invariant
            walk@.root == base,
            walk@.extension == wanted,
            next is Some == walk@.next_dir() is Some,
            next matches Some(d) ==> Some(d.deep_view()) == walk@.next_dir(),
            nodes.len() == walk@.pending.len(),
            all_below(walk@.pending, base),
            forall|k: int|
                0 <= k < nodes.len() ==> (#[trigger] views(nodes@)[k]).kind() == EntryKind::Directory,
            relative_to(walk@.found, base).to_multiset().add(
                waiting(views(nodes@), walk@.pending, base, wanted),
            ) == target,
            tree@.readable() <==> all_readable(views(nodes@)),
            tree@.kind() == EntryKind::Directory,
        decreases weight(views(nodes@)),
    {
        let dir = next.unwrap();
        let ghost before = walk@;
        let ghost stack = views(nodes@);
        let ghost rest = stack.drop_last();
        let ghost at = dir.deep_view();
        let node = nodes.pop().unwrap();
        match node {
            Node::Directory(children) => {
                let ghost kids = node@->Directory_0;
                let mut entries: Vec<Entry> = Vec::new();
                let mut i: usize = 0;
                while i < children.len()
                    invariant
                        i <= children.len() == kids.len(),
                        node@ == NodeView::Directory(kids),
                        *node == Node::Directory(*children),
                        at == dir.deep_view(),
                        entries.deep_view() == listing(kids, at).take(i as int),
                        views(nodes@) == rest + subdirectories(kids, i as nat),
                    decreases children.len() - i,
                {
                    let child = &children[i];
                    let mut path = copy_path(&dir);
                    path.push(child.name.clone());
                    assert(path.deep_view() =~= at.push(child.name@));
                    let kind = kind_of(&child.node);
                    let ghost stack_before = views(nodes@);
                    if kind == EntryKind::Directory {
                        nodes.push(&child.node);
                        assert(views(nodes@) =~= stack_before.push(child.node@));
                    }
                    entries.push(Entry { path, kind });
                    assert(listing(kids, at).take(i + 1) =~= listing(kids, at).take(i as int).push(
                        listing(kids, at)[i as int],
                    ));
                    i += 1;
                }
                assert(listing(kids, at).take(kids.len() as int) =~= listing(kids, at));
                walk.record(entries);
                next = walk.next_dir();
                proof {
                    // The directory is off the stack, its subdirectories are on
                    // it, and its matching files are found: what is found and
                    // what waits are together what they were.
                    let n = kids.len();
                    let subs = subdirectories(kids, n);
                    let dirs = directories(listing(kids, at));
                    let matched = matching(listing(kids, at), wanted);
                    lemma_directory_step(kids, n, at, base, wanted);
                    lemma_relative_concat(before.found, matched, base);
                    lemma_waiting_concat(rest, before.pending.drop_last(), subs, dirs, base, wanted);
                    lemma_weight_concat(rest, subs);
                    vstd::seq_lib::lemma_multiset_commutative(
                        relative_to(before.found, base),
                        relative_to(matched, base),
                    );
                    assert(all_readable(stack) <==> all_readable(rest + subs)) by {
                        if all_readable(rest + subs) {
                            assert forall|k: int| 0 <= k < subs.len() implies (
                            #[trigger] subs[k]).readable() by {
                                assert((rest + subs)[rest.len() + k].readable());
                            }
                            assert forall|k: int| 0 <= k < stack.len() implies (
                            #[trigger] stack[k]).readable() by {
                                if k < rest.len() {
                                    assert((rest + subs)[k].readable());
                                }
                            }
                        }
                    }
                }
            },
            _ => {
                return Err(WalkError::Unreadable);
            },
        }
    }
    let files = walk.finish();
    proof {
        // Nothing waits any more, so what was found is all there is.
        let listed = files.deep_view();
        let all = tree@.files(Seq::empty(), wanted);
        listed.to_multiset_ensures();
        all.to_multiset_ensures();
        assert forall|path: Seq<Seq<char>>|
            listed.contains(path) <==> tree@.file_at(path) && path_extension(path) == Some(
                wanted,
            ) by {
            lemma_found_exactly(tree@, wanted, path);
            assert(all.contains(path) <==> all.to_multiset().count(path) > 0);
        }
    }
    Ok(files)
}

} // verus!
