//! The units of work that workers share, and what a worker is doing.

use vstd::prelude::*;

use crate::path::{FsPath, dest_of, is_prefix_of};

verus! {

/// A pending unit of work: a file to copy or a directory to scan. The
/// first path is the source root that anchors destinations, the second
/// the place to act on.
#[derive(Debug, Clone, PartialEq, Eq)]
pub enum Entry {
    File(FsPath, FsPath),
    Dir(FsPath, FsPath),
}

/// What an entry is, over path components.
pub enum EntryView {
    File(Seq<Seq<char>>, Seq<Seq<char>>),
    Dir(Seq<Seq<char>>, Seq<Seq<char>>),
}

impl View for Entry {
    type V = EntryView;

    open spec fn view(&self) -> EntryView {
        match self {
            Entry::File(root, path) => EntryView::File(root@, path@),
            Entry::Dir(root, path) => EntryView::Dir(root@, path@),
        }
    }
}

impl EntryView {
    pub open spec fn root(self) -> Seq<Seq<char>> {
        match self {
            EntryView::File(root, _) => root,
            EntryView::Dir(root, _) => root,
        }
    }

    pub open spec fn path(self) -> Seq<Seq<char>> {
        match self {
            EntryView::File(_, path) => path,
            EntryView::Dir(_, path) => path,
        }
    }

    /// The entry's path lies under its source root, so its destination
    /// can be resolved.
    pub open spec fn wf(self) -> bool {
        is_prefix_of(self.root(), self.path())
    }

    /// Where the entry lands under the destination root `dest`.
    pub open spec fn dest(self, dest: Seq<Seq<char>>) -> Seq<Seq<char>> {
        dest_of(self.root(), dest, self.path())
    }
}

impl Entry {
    /// Whether the entry's path lies under its source root.
    pub fn resolvable(&self) -> (r: bool)
        ensures
            r == self@.wf(),
    {
        match self {
            Entry::File(root, path) => path.starts_with(root),
            Entry::Dir(root, path) => path.starts_with(root),
        }
    }

    /// A copy of the entry.
    pub fn clone_entry(&self) -> (r: Entry)
        ensures
            r@ == self@,
    {
        match self {
            Entry::File(root, path) => Entry::File(root.clone_path(), path.clone_path()),
            Entry::Dir(root, path) => Entry::Dir(root.clone_path(), path.clone_path()),
        }
    }
}

/// The views of a sequence of entries.
pub open spec fn views(s: Seq<Entry>) -> Seq<EntryView> {
    Seq::new(s.len(), |i: int| s[i]@)
}

/// What a worker is doing.
#[derive(Debug, Clone, PartialEq, Eq)]
pub enum Task {
    Initializing,
    Idle,
    Scanning(FsPath),
    Copying(FsPath),
}

/// A worker's status, over path components.
pub enum TaskView {
    Initializing,
    Idle,
    Scanning(Seq<Seq<char>>),
    Copying(Seq<Seq<char>>),
}

impl View for Task {
    type V = TaskView;

    open spec fn view(&self) -> TaskView {
        match self {
            Task::Initializing => TaskView::Initializing,
            Task::Idle => TaskView::Idle,
            Task::Scanning(dir) => TaskView::Scanning(dir@),
            Task::Copying(file) => TaskView::Copying(file@),
        }
    }
}

impl TaskView {
    /// The worker is scanning a directory or copying a file.
    pub open spec fn is_busy(self) -> bool {
        self is Scanning || self is Copying
    }
}

impl Task {
    /// A copy of the status.
    pub fn clone_task(&self) -> (r: Task)
        ensures
            r@ == self@,
    {
        match self {
            Task::Initializing => Task::Initializing,
            Task::Idle => Task::Idle,
            Task::Scanning(dir) => Task::Scanning(dir.clone_path()),
            Task::Copying(file) => Task::Copying(file.clone_path()),
        }
    }

    /// Whether the two statuses are the same.
    pub fn same_task(&self, other: &Task) -> (r: bool)
        ensures
            r == (self@ == other@),
    {
        match (self, other) {
            (Task::Initializing, Task::Initializing) => true,
            (Task::Idle, Task::Idle) => true,
            (Task::Scanning(a), Task::Scanning(b)) => a.same_path(b),
            (Task::Copying(a), Task::Copying(b)) => a.same_path(b),
            _ => false,
        }
    }
}

/// One pool thread's record: its status, and the source root of the entry
/// it works on.
#[derive(Debug, Clone, PartialEq, Eq)]
pub struct Worker {
    pub task: Task,
    pub root: FsPath,
}

impl Worker {
    /// A busy worker's path lies under its source root.
    pub open spec fn wf(&self) -> bool {
        match self.task@ {
            TaskView::Scanning(dir) => is_prefix_of(self.root@, dir),
            TaskView::Copying(file) => is_prefix_of(self.root@, file),
            _ => true,
        }
    }
}

/// What a directory listing says a child is.
#[derive(Debug, Clone, PartialEq, Eq)]
pub enum ChildKind {
    Dir,
    File,
    Other,
}

/// One child named in a directory listing.
#[derive(Debug, Clone, PartialEq, Eq)]
pub struct Child {
    pub name: String,
    pub kind: ChildKind,
}

/// The children of a listing that become entries: directories and regular
/// files, in listing order.
pub open spec fn kept(listing: Seq<Child>) -> Seq<Child>
    decreases listing.len(),
{
    if listing.len() == 0 {
        Seq::empty()
    } else if listing[0].kind is Other {
        kept(listing.drop_first())
    } else {
        seq![listing[0]] + kept(listing.drop_first())
    }
}

/// The entry for child `c` of directory `dir`, anchored at `root`.
pub open spec fn child_entry(root: Seq<Seq<char>>, dir: Seq<Seq<char>>, c: Child) -> EntryView {
    if c.kind is Dir {
        EntryView::Dir(root, dir.push(c.name@))
    } else {
        EntryView::File(root, dir.push(c.name@))
    }
}

/// The entries for a directory listing, in reverse listing order, so that
/// popping them from the end of a stack yields them in listing order.
pub open spec fn scan_entries(
    root: Seq<Seq<char>>,
    dir: Seq<Seq<char>>,
    listing: Seq<Child>,
) -> Seq<EntryView> {
    let k = kept(listing);
    Seq::new(k.len(), |i: int| child_entry(root, dir, k[k.len() - 1 - i]))
}

/// Turns the listing of `dir` into entries anchored at `src`: one for
/// each directory or regular file, in reverse listing order; anything
/// else in the listing is passed over.
pub fn read_dir(src: &FsPath, dir: &FsPath, listing: &Vec<Child>) -> (r: Vec<Entry>)
    ensures
        views(r@) == scan_entries(src@, dir@, listing@),
{
    let mut r: Vec<Entry> = Vec::new();
    let n = listing.len();
    let mut i: usize = n;
    while i > 0
        invariant
            n == listing.len(),
            i <= n,
            views(r@) == scan_entries(
                src@,
                dir@,
                listing@.subrange(i as int, n as int),
            ),
        decreases i,
    {
        let c = &listing[i - 1];
        let rest = Ghost(listing@.subrange(i as int, n as int));
        let now = Ghost(listing@.subrange(i - 1, n as int));
        assert(now@.drop_first() =~= rest@);
        assert(now@[0] == c);
        assert(now@ =~= seq![*c] + rest@);
        let ghost before = views(r@);
        assert(before == scan_entries(src@, dir@, rest@));
        match c.kind {
            ChildKind::Other => {
                assert(kept(now@) == kept(rest@));
            },
            ChildKind::Dir => {
                r.push(Entry::Dir(src.clone_path(), dir.join_name(&c.name)));
                assert(kept(now@) == seq![*c] + kept(rest@));
                assert(views(r@) =~= before.push(child_entry(src@, dir@, *c)));
                proof {
                    lemma_push_scan(src@, dir@, *c, rest@, before, views(r@));
                }
            },
            ChildKind::File => {
                r.push(Entry::File(src.clone_path(), dir.join_name(&c.name)));
                assert(kept(now@) == seq![*c] + kept(rest@));
                assert(views(r@) =~= before.push(child_entry(src@, dir@, *c)));
                proof {
                    lemma_push_scan(src@, dir@, *c, rest@, before, views(r@));
                }
            },
        }
        assert(views(r@) =~= scan_entries(src@, dir@, now@));
        i = i - 1;
    }
    assert(listing@.subrange(0, n as int) =~= listing@);
    r
}

/// Pushing the entry of a kept child `c` onto the entries of `rest` gives
/// the entries of `c` followed by `rest`.
proof fn lemma_push_scan(
    root: Seq<Seq<char>>,
    dir: Seq<Seq<char>>,
    c: Child,
    rest: Seq<Child>,
    before: Seq<EntryView>,
    after: Seq<EntryView>,
)
    requires
        !(c.kind is Other),
        before == scan_entries(root, dir, rest),
        after == before.push(child_entry(root, dir, c)),
    ensures
        after == scan_entries(root, dir, seq![c] + rest),
{
    let k0 = kept(rest);
    let k1 = kept(seq![c] + rest);
    assert((seq![c] + rest).drop_first() =~= rest);
    assert(k1 == seq![c] + k0);
    assert(after =~= scan_entries(root, dir, seq![c] + rest)) by {
        assert forall|j: int| 0 <= j < k1.len() implies after[j] == child_entry(
            root,
            dir,
            k1[k1.len() - 1 - j],
        ) by {
            if j < k0.len() {
                assert(k1[k1.len() - 1 - j] == k0[k0.len() - 1 - j]);
            }
        }
    }
}

/// Every entry that a scan of a directory under `root` yields lies under
/// `root`, one level below the directory, and lands under `dest` one level
/// below the directory's own destination.
pub proof fn lemma_scan_entries_wf(
    root: Seq<Seq<char>>,
    dir: Seq<Seq<char>>,
    dest: Seq<Seq<char>>,
    listing: Seq<Child>,
    i: int,
)
    requires
        is_prefix_of(root, dir),
        0 <= i < scan_entries(root, dir, listing).len(),
    ensures
        scan_entries(root, dir, listing)[i].wf(),
        scan_entries(root, dir, listing)[i].path().drop_last() == dir,
        scan_entries(root, dir, listing)[i].dest(dest) == dest_of(root, dest, dir).push(
            scan_entries(root, dir, listing)[i].path().last(),
        ),
{
    let k = kept(listing);
    let c = k[k.len() - 1 - i];
    crate::path::lemma_child_dest(root, dest, dir, c.name@);
    assert(dir.push(c.name@).drop_last() =~= dir);
}

} // verus!
