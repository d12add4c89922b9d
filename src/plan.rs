//! The entries a run starts from, built from the source paths it is given.

use vstd::prelude::*;

use crate::entry::{Entry, EntryView, views};
use crate::path::{FsPath, dest_of, is_prefix_of, parent_of};

verus! {

/// What a source path names on disk.
#[derive(Debug, Clone, PartialEq, Eq)]
pub enum SourceKind {
    Dir,
    File,
    Other,
}

/// A source path as given, with whether it was written with a trailing
/// separator and what it names.
#[derive(Debug, Clone, PartialEq, Eq)]
pub struct Source {
    pub path: FsPath,
    pub trailing_separator: bool,
    pub kind: SourceKind,
}

/// Why a run cannot start.
#[derive(Debug, Clone, PartialEq, Eq)]
pub enum ConfigError {
    /// Several sources were given and the destination is a regular file.
    ManySourcesToFile,
    /// The source at this index is neither a directory nor a regular file.
    NotFileOrDir(usize),
    /// The source at this index has no parent to anchor it.
    NoParent(usize),
}

/// The entry a source starts as. A directory written with a trailing
/// separator is its own root, so only its contents are copied; any other
/// directory, and a regular file, is anchored at its parent, so its own
/// name is kept under the destination.
pub open spec fn entry_for(s: Source) -> Option<EntryView> {
    match s.kind {
        SourceKind::Dir => if s.trailing_separator {
            Some(EntryView::Dir(s.path@, s.path@))
        } else {
            match parent_of(s.path@) {
                Some(p) => Some(EntryView::Dir(p, s.path@)),
                None => None,
            }
        },
        SourceKind::File => match parent_of(s.path@) {
            Some(p) => Some(EntryView::File(p, s.path@)),
            None => None,
        },
        SourceKind::Other => None,
    }
}

/// The error for a source that yields no entry.
pub open spec fn error_for(s: Source, i: usize) -> ConfigError {
    if s.kind is Other {
        ConfigError::NotFileOrDir(i)
    } else {
        ConfigError::NoParent(i)
    }
}

/// The entry of a source.
fn entry_of_source(s: &Source) -> (r: Option<Entry>)
    ensures
        r is None <==> entry_for(*s) is None,
        r matches Some(e) ==> entry_for(*s) == Some(e@),
{
    match s.kind {
        SourceKind::Dir => {
            if s.trailing_separator {
                Some(Entry::Dir(s.path.clone_path(), s.path.clone_path()))
            } else {
                match s.path.parent() {
                    Some(p) => Some(Entry::Dir(p, s.path.clone_path())),
                    None => None,
                }
            }
        },
        SourceKind::File => match s.path.parent() {
            Some(p) => Some(Entry::File(p, s.path.clone_path())),
            None => None,
        },
        SourceKind::Other => None,
    }
}

/// Builds the entries a run starts from: one per source, in order. Fails
/// when several sources are given and the destination is a regular file,
/// and otherwise at the first source that yields no entry.
pub fn initial_entries(sources: &Vec<Source>, dest_is_file: bool) -> (r: Result<
    Vec<Entry>,
    ConfigError,
>)
    ensures
        sources@.len() > 1 && dest_is_file ==> r matches Err(ConfigError::ManySourcesToFile),
        !(sources@.len() > 1 && dest_is_file) ==> {
            &&& r is Ok <==> forall|i: int| 0 <= i < sources@.len() ==> (#[trigger] entry_for(
                sources@[i],
            )) is Some
            &&& r matches Ok(v) ==> views(v@) == Seq::new(
                sources@.len(),
                |i: int| entry_for(sources@[i])->Some_0,
            )
            &&& r matches Err(e) ==> exists|i: int|
                0 <= i < sources@.len() && entry_for(#[trigger] sources@[i]) is None && e
                    == error_for(sources@[i], i as usize) && forall|j: int|
                    0 <= j < i ==> (#[trigger] entry_for(sources@[j])) is Some
        },
{
    if sources.len() > 1 && dest_is_file {
        return Err(ConfigError::ManySourcesToFile);
    }
    let mut v: Vec<Entry> = Vec::new();
    let mut i: usize = 0;
    while i < sources.len()
        invariant
            !(sources@.len() > 1 && dest_is_file),
            i <= sources@.len(),
            forall|j: int| 0 <= j < i ==> (#[trigger] entry_for(sources@[j])) is Some,
            views(v@) == Seq::new(i as nat, |j: int| entry_for(sources@[j])->Some_0),
        decreases sources.len() - i,
    {
        match entry_of_source(&sources[i]) {
            Some(e) => {
                let ghost before = views(v@);
                v.push(e);
                assert(views(v@) =~= Seq::new(
                    (i + 1) as nat,
                    |j: int| entry_for(sources@[j])->Some_0,
                )) by {
                    assert(views(v@) =~= before.push(e@));
                }
            },
            None => {
                let err = if matches!(sources[i].kind, SourceKind::Other) {
                    ConfigError::NotFileOrDir(i)
                } else {
                    ConfigError::NoParent(i)
                };
                return Err(err);
            },
        }
        i = i + 1;
    }
    Ok(v)
}

/// Every entry a source starts as lies under its own source root.
pub proof fn lemma_entry_for_wf(s: Source)
    requires
        entry_for(s) is Some,
    ensures
        entry_for(s)->Some_0.wf(),
        entry_for(s)->Some_0.path() == s.path@,
{
    let p = s.path@;
    assert(p.subrange(0, p.len() as int) =~= p);
    if p.len() > 0 {
        assert(p.subrange(0, p.len() - 1) =~= p.drop_last());
    }
}

/// Where a source lands under the destination root `dest`: a directory
/// written with a trailing separator lands at `dest` itself, so only its
/// contents are copied; any other source lands at `dest` followed by its
/// own name.
pub proof fn lemma_source_dest(s: Source, dest: Seq<Seq<char>>)
    requires
        entry_for(s) is Some,
    ensures
        s.kind is Dir && s.trailing_separator ==> entry_for(s)->Some_0.dest(dest) == dest,
        !(s.kind is Dir && s.trailing_separator) ==> entry_for(s)->Some_0.dest(dest) == dest.push(
            s.path@.last(),
        ),
{
    let p = s.path@;
    if s.kind is Dir && s.trailing_separator {
        assert(dest_of(p, dest, p) =~= dest);
    } else {
        assert(p.len() > 0);
        assert(dest_of(p.drop_last(), dest, p) =~= dest.push(p.last()));
    }
}

} // verus!
