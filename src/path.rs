//! Paths as sequences of components, and where a source path lands
//! under a destination root.

use vstd::prelude::*;

verus! {

/// A path, held as its components in order. An absolute path starts
/// with the root component `"/"`.
#[derive(Debug, Clone, PartialEq, Eq)]
pub struct FsPath {
    pub parts: Vec<String>,
}

impl View for FsPath {
    type V = Seq<Seq<char>>;

    open spec fn view(&self) -> Seq<Seq<char>> {
        self.parts@.map_values(|s: String| s@)
    }
}

/// `p` is `q` or one of its ancestors.
pub open spec fn is_prefix_of(p: Seq<Seq<char>>, q: Seq<Seq<char>>) -> bool {
    p.len() <= q.len() && q.subrange(0, p.len() as int) == p
}

/// The destination of `path`: `dest` followed by what `path` has beyond
/// `src`.
pub open spec fn dest_of(
    src: Seq<Seq<char>>,
    dest: Seq<Seq<char>>,
    path: Seq<Seq<char>>,
) -> Seq<Seq<char>> {
    dest + path.subrange(src.len() as int, path.len() as int)
}

/// The root component of an absolute path.
pub open spec fn root_component() -> Seq<char> {
    seq!['/']
}

/// The parent of a path: none for the empty path and for the root alone.
pub open spec fn parent_of(p: Seq<Seq<char>>) -> Option<Seq<Seq<char>>> {
    if p.len() == 0 || p == seq![root_component()] {
        None
    } else {
        Some(p.drop_last())
    }
}

impl FsPath {
    pub fn new() -> (r: FsPath)
        ensures
            r@ == Seq::<Seq<char>>::empty(),
    {
        let r = FsPath { parts: Vec::new() };
        assert(r@ =~= Seq::<Seq<char>>::empty());
        r
    }

    /// A copy with the same components.
    pub fn clone_path(&self) -> (r: FsPath)
        ensures
            r@ == self@,
    {
        let mut parts: Vec<String> = Vec::new();
        let mut i: usize = 0;
        while i < self.parts.len()
            invariant
                i <= self.parts.len(),
                parts@ == self.parts@.subrange(0, i as int),
            decreases self.parts.len() - i,
        {
            parts.push(self.parts[i].clone());
            assert(parts@ =~= self.parts@.subrange(0, i + 1));
            i = i + 1;
        }
        assert(parts@ =~= self.parts@);
        FsPath { parts }
    }

    /// This path with one more component at its end.
    pub fn push_component(&mut self, name: String)
        ensures
            final(self)@ == old(self)@.push(name@),
    {
        self.parts.push(name);
        assert(final(self)@ =~= old(self)@.push(name@));
    }

    /// This path with `name` added as its last component.
    pub fn join_name(&self, name: &String) -> (r: FsPath)
        ensures
            r@ == self@.push(name@),
    {
        let mut r = self.clone_path();
        r.push_component(name.clone());
        r
    }

    /// Whether the two paths have the same components.
    pub fn same_path(&self, other: &FsPath) -> (r: bool)
        ensures
            r == (self@ == other@),
    {
        if self.parts.len() != other.parts.len() {
            return false;
        }
        let r = self.starts_with(other);
        assert(self@ =~= self@.subrange(0, other@.len() as int));
        r
    }

    /// Whether `prefix` is this path or one of its ancestors, compared
    /// component by component.
    pub fn starts_with(&self, prefix: &FsPath) -> (r: bool)
        ensures
            r == is_prefix_of(prefix@, self@),
    {
        if prefix.parts.len() > self.parts.len() {
            return false;
        }
        let mut i: usize = 0;
        while i < prefix.parts.len()
            invariant
                prefix.parts.len() <= self.parts.len(),
                i <= prefix.parts.len(),
                forall|j: int| 0 <= j < i ==> #[trigger] self@[j] == prefix@[j],
            decreases prefix.parts.len() - i,
        {
            if self.parts[i] != prefix.parts[i] {
                assert(self@.subrange(0, prefix@.len() as int)[i as int] != prefix@[i as int]);
                return false;
            }
            i = i + 1;
        }
        assert(self@.subrange(0, prefix@.len() as int) =~= prefix@);
        true
    }

    /// The parent of this path, as `Path::parent` gives it.
    pub fn parent(&self) -> (r: Option<FsPath>)
        ensures
            r matches Some(p) ==> parent_of(self@) == Some(p@),
            r is None ==> parent_of(self@) is None,
    {
        let n = self.parts.len();
        if n == 0 {
            return None;
        }
        if n == 1 {
            let root = root_string();
            if self.parts[0] == root {
                assert(self@ =~= seq![root_component()]);
                return None;
            }
            assert(self@ != seq![root_component()] ) by {
                assert(self@[0] == self.parts@[0]@);
            }
        }
        let mut parts: Vec<String> = Vec::new();
        let mut i: usize = 0;
        while i + 1 < n
            invariant
                n == self.parts.len(),
                n >= 1,
                i <= n - 1,
                parts@ == self.parts@.subrange(0, i as int),
            decreases n - i,
        {
            parts.push(self.parts[i].clone());
            assert(parts@ =~= self.parts@.subrange(0, i + 1));
            i = i + 1;
        }
        let p = FsPath { parts };
        assert(p@ =~= self@.drop_last());
        Some(p)
    }
}

/// The root component as a string.
fn root_string() -> (r: String)
    ensures
        r@ == root_component(),
{
    proof {
        reveal_strlit("/");
    }
    let r = "/".to_owned();
    assert(r@ =~= root_component());
    r
}

/// Where `file`, found under the source root `src`, is written under the
/// destination root `dest`.
pub fn get_dest(src: &FsPath, dest: &FsPath, file: &FsPath) -> (r: FsPath)
    requires
        is_prefix_of(src@, file@),
    ensures
        r@ == dest_of(src@, dest@, file@),
{
    let mut r = dest.clone_path();
    let mut i: usize = src.parts.len();
    while i < file.parts.len()
        invariant
            src.parts.len() <= i <= file.parts.len(),
            r@ == dest@ + file@.subrange(src@.len() as int, i as int),
        decreases file.parts.len() - i,
    {
        r.push_component(file.parts[i].clone());
        assert(dest@ + file@.subrange(src@.len() as int, i + 1) =~= (dest@ + file@.subrange(
            src@.len() as int,
            i as int,
        )).push(file@[i as int]));
        i = i + 1;
    }
    r
}

/// A path found inside a directory under `src` is itself under `src`,
/// and its destination is the directory's destination followed by the
/// same name: the source tree is reproduced under the destination root.
pub proof fn lemma_child_dest(
    src: Seq<Seq<char>>,
    dest: Seq<Seq<char>>,
    dir: Seq<Seq<char>>,
    name: Seq<char>,
)
    requires
        is_prefix_of(src, dir),
    ensures
        is_prefix_of(src, dir.push(name)),
        dest_of(src, dest, dir.push(name)) == dest_of(src, dest, dir).push(name),
{
    assert(dir.push(name).subrange(0, src.len() as int) =~= dir.subrange(0, src.len() as int));
    assert(dest_of(src, dest, dir.push(name)) =~= dest_of(src, dest, dir).push(name));
}

} // verus!
