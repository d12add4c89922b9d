//! The run context that all workers share: the work stack, each worker's
//! status, the processed count and the error events; and the steps by
//! which a worker takes work, reports it done, and learns when to stop.

use vstd::prelude::*;

use crate::entry::{
    Child, Entry, EntryView, TaskView, Task, Worker, lemma_scan_entries_wf, read_dir, scan_entries,
    views,
};
use crate::path::{FsPath, dest_of, get_dest};

verus! {

/// What a worker does next.
#[derive(Debug, Clone, PartialEq, Eq)]
pub enum Action {
    /// Create `dest`, then list `dir` and report the listing.
    Scan { dir: FsPath, dest: FsPath },
    /// Copy `file` over `dest`.
    Copy { file: FsPath, dest: FsPath },
    /// No work is queued but some worker is still busy: back off and ask
    /// again.
    Wait,
    /// No work is queued and every worker is idle: no more work can ever
    /// appear, so leave the loop.
    Stop,
}

/// The state of one copy run.
pub struct State {
    pub sources: Vec<FsPath>,
    pub dest: FsPath,
    /// The work stack: the next entry taken is the last one.
    pub entries: Vec<Entry>,
    pub next_id: u16,
    /// Worker `i` has id `i`.
    pub workers: Vec<Worker>,
    pub entries_processed: u64,
    /// Error events, oldest first.
    pub errors: Vec<String>,
}

impl State {
    /// Ids match positions, every queued entry can be resolved, and every
    /// busy worker's path lies under its source root.
    pub open spec fn wf(&self) -> bool {
        &&& self.next_id as nat == self.workers@.len()
        &&& forall|i: int| 0 <= i < self.entries@.len() ==> (#[trigger] self.entries@[i])@.wf()
        &&& forall|i: int| 0 <= i < self.workers@.len() ==> (#[trigger] self.workers@[i]).wf()
    }

    /// Every worker is idle.
    pub open spec fn all_idle(&self) -> bool {
        forall|i: int| 0 <= i < self.workers@.len() ==> (#[trigger] self.workers@[i]).task@ is Idle
    }

    /// The stack is empty and every worker is idle.
    pub open spec fn quiescent(&self) -> bool {
        self.entries@.len() == 0 && self.all_idle()
    }

    /// A run over `entries`, with no workers yet.
    pub fn new(sources: Vec<FsPath>, dest: FsPath, entries: Vec<Entry>) -> (r: State)
        requires
            forall|i: int| 0 <= i < entries@.len() ==> (#[trigger] entries@[i])@.wf(),
        ensures
            r.wf(),
            r.sources == sources,
            r.dest == dest,
            r.entries == entries,
            r.workers@.len() == 0,
            r.entries_processed == 0,
            r.errors@.len() == 0,
    {
        State {
            sources,
            dest,
            entries,
            next_id: 0,
            workers: Vec::new(),
            entries_processed: 0,
            errors: Vec::new(),
        }
    }

    /// Registers a worker, initializing, and returns its id.
    pub fn add_worker(&mut self) -> (id: u16)
        requires
            old(self).wf(),
            old(self).next_id < u16::MAX,
        ensures
            final(self).wf(),
            id == old(self).next_id,
            final(self).next_id == old(self).next_id + 1,
            final(self).workers@.len() == old(self).workers@.len() + 1,
            final(self).workers@.subrange(0, id as int) == old(self).workers@,
            final(self).workers@[id as int].task@ is Initializing,
            final(self).entries == old(self).entries,
            final(self).dest == old(self).dest,
            final(self).sources == old(self).sources,
            final(self).entries_processed == old(self).entries_processed,
            final(self).errors == old(self).errors,
    {
        let id = self.next_id;
        self.workers.push(Worker { task: Task::Initializing, root: FsPath::new() });
        self.next_id = id + 1;
        assert(self.workers@.subrange(0, id as int) =~= old(self).workers@);
        id
    }

    /// Sets worker `id`'s status, with `root` as the source root of what it
    /// works on, and says whether the status changed.
    pub fn update_task(&mut self, id: u16, task: Task, root: FsPath) -> (changed: bool)
        requires
            old(self).wf(),
            id < old(self).workers@.len(),
            (Worker { task, root }).wf(),
        ensures
            final(self).wf(),
            final(self).workers@ == old(self).workers@.update(id as int, Worker { task, root }),
            changed == (old(self).workers@[id as int].task@ != task@),
            final(self).entries == old(self).entries,
            final(self).next_id == old(self).next_id,
            final(self).dest == old(self).dest,
            final(self).sources == old(self).sources,
            final(self).entries_processed == old(self).entries_processed,
            final(self).errors == old(self).errors,
    {
        let idx = id as usize;
        let changed = !self.workers[idx].task.same_task(&task);
        self.workers[idx] = Worker { task, root };
        changed
    }

    /// Whether every worker is idle.
    pub fn is_all_idle(&self) -> (r: bool)
        ensures
            r == self.all_idle(),
    {
        let mut i: usize = 0;
        while i < self.workers.len()
            invariant
                i <= self.workers@.len(),
                forall|j: int| 0 <= j < i ==> (#[trigger] self.workers@[j]).task@ is Idle,
            decreases self.workers.len() - i,
        {
            if !matches!(self.workers[i].task, Task::Idle) {
                return false;
            }
            i = i + 1;
        }
        true
    }

    /// One turn of worker `id`: takes the last entry of the stack and marks
    /// the worker busy with it, or, with the stack empty, marks the worker
    /// idle and tells it to stop exactly when every worker is idle. The flag
    /// says whether the worker's status changed.
    pub fn next_action(&mut self, id: u16) -> (r: (Action, bool))
        requires
            old(self).wf(),
            id < old(self).workers@.len(),
        ensures
            final(self).wf(),
            final(self).workers@.len() == old(self).workers@.len(),
            forall|j: int|
                0 <= j < old(self).workers@.len() && j != id ==> final(self).workers@[j]
                    == old(self).workers@[j],
            r.1 == (old(self).workers@[id as int].task@ != final(self).workers@[id as int].task@),
            old(self).entries@.len() > 0 ==> final(self).entries@ == old(self).entries@.drop_last(),
            old(self).entries@.len() > 0 ==> match old(self).entries@.last()@ {
                EntryView::Dir(root, dir) => {
                    &&& r.0 matches Action::Scan { dir: d, dest: t }
                    &&& d@ == dir
                    &&& t@ == dest_of(root, old(self).dest@, dir)
                    &&& final(self).workers@[id as int].task@ == TaskView::Scanning(dir)
                    &&& final(self).workers@[id as int].root@ == root
                },
                EntryView::File(root, file) => {
                    &&& r.0 matches Action::Copy { file: f, dest: t }
                    &&& f@ == file
                    &&& t@ == dest_of(root, old(self).dest@, file)
                    &&& final(self).workers@[id as int].task@ == TaskView::Copying(file)
                    &&& final(self).workers@[id as int].root@ == root
                },
            },
            old(self).entries@.len() == 0 ==> {
                &&& final(self).entries@ == old(self).entries@
                &&& final(self).workers@[id as int].task@ is Idle
                &&& (r.0 is Stop <==> final(self).quiescent())
                &&& (r.0 is Wait <==> !final(self).quiescent())
            },
            old(self).quiescent() ==> final(self).quiescent() && r.0 is Stop,
            old(self).entries@.len() == 0 && (forall|j: int|
                0 <= j < old(self).workers@.len() && j != id ==> (#[trigger] old(
                    self,
                ).workers@[j]).task@ is Idle) ==> r.0 is Stop,
            final(self).next_id == old(self).next_id,
            final(self).dest == old(self).dest,
            final(self).sources == old(self).sources,
            final(self).entries_processed == old(self).entries_processed,
            final(self).errors == old(self).errors,
    {
        let ghost e = self.entries@;
        proof {
            if e.len() > 0 {
                assert(e[e.len() - 1]@.wf());
            }
        }
        match self.entries.pop() {
            Some(Entry::Dir(root, dir)) => {
                let dest = get_dest(&root, &self.dest, &dir);
                let changed = self.update_task(id, Task::Scanning(dir.clone_path()), root);
                proof { self.lemma_entries_drop_last(e); }
                (Action::Scan { dir, dest }, changed)
            },
            Some(Entry::File(root, file)) => {
                let dest = get_dest(&root, &self.dest, &file);
                let changed = self.update_task(id, Task::Copying(file.clone_path()), root);
                proof { self.lemma_entries_drop_last(e); }
                (Action::Copy { file, dest }, changed)
            },
            None => {
                let root = self.workers[id as usize].root.clone_path();
                let changed = self.update_task(id, Task::Idle, root);
                if self.is_all_idle() {
                    (Action::Stop, changed)
                } else {
                    (Action::Wait, changed)
                }
            },
        }
    }

    /// Worker `id` has scanned its directory: pushes, in one batch, the
    /// entries of `listing` (see `read_dir`), records `failures` as error
    /// events, and counts the directory as processed. The worker stays busy
    /// until its next turn.
    pub fn finish_scan(&mut self, id: u16, listing: &Vec<Child>, failures: Vec<String>)
        requires
            old(self).wf(),
            id < old(self).workers@.len(),
            old(self).workers@[id as int].task@ is Scanning,
            old(self).entries_processed < u64::MAX,
        ensures
            final(self).wf(),
            views(final(self).entries@) == views(old(self).entries@) + scan_entries(
                old(self).workers@[id as int].root@,
                old(self).workers@[id as int].task@->Scanning_0,
                listing@,
            ),
            final(self).entries_processed == old(self).entries_processed + 1,
            final(self).errors@ == old(self).errors@ + failures@,
            final(self).workers == old(self).workers,
            final(self).next_id == old(self).next_id,
            final(self).dest == old(self).dest,
            final(self).sources == old(self).sources,
    {
        let idx = id as usize;
        let mut found = match &self.workers[idx].task {
            Task::Scanning(dir) => read_dir(&self.workers[idx].root, dir, listing),
            _ => Vec::new(),
        };
        let ghost before = self.entries@;
        let ghost added = found@;
        proof {
            let w = self.workers@[id as int];
            assert(w.wf());
            assert forall|i: int| 0 <= i < added.len() implies (#[trigger] added[i])@.wf() by {
                assert(views(added)[i] == added[i]@);
                lemma_scan_entries_wf(w.root@, w.task@->Scanning_0, self.dest@, listing@, i);
            }
        }
        self.entries.append(&mut found);
        assert(views(self.entries@) =~= views(before) + views(added));
        assert forall|i: int| 0 <= i < self.entries@.len() implies (
        #[trigger] self.entries@[i])@.wf() by {
            if i >= before.len() {
                assert(self.entries@[i] == added[i - before.len()]);
            } else {
                assert(self.entries@[i] == before[i]);
            }
        }
        let mut failures = failures;
        self.errors.append(&mut failures);
        self.entries_processed = self.entries_processed + 1;
    }

    /// Worker `id` has tried to copy its file: records the failure, if the
    /// copy failed, as exactly one error event, and counts the file as
    /// processed either way. The worker stays busy until its next turn.
    pub fn finish_copy(&mut self, id: u16, failure: Option<String>)
        requires
            old(self).wf(),
            id < old(self).workers@.len(),
            old(self).workers@[id as int].task@ is Copying,
            old(self).entries_processed < u64::MAX,
        ensures
            final(self).wf(),
            final(self).entries_processed == old(self).entries_processed + 1,
            failure is None ==> final(self).errors@ == old(self).errors@,
            failure matches Some(m) ==> final(self).errors@ == old(self).errors@.push(m),
            final(self).entries == old(self).entries,
            final(self).workers == old(self).workers,
            final(self).next_id == old(self).next_id,
            final(self).dest == old(self).dest,
            final(self).sources == old(self).sources,
    {
        if let Some(m) = failure {
            send_to_error(self, m);
        }
        self.entries_processed = self.entries_processed + 1;
    }

    /// The processed count and the number of entries still queued.
    pub fn totals(&self) -> (r: (u64, u64))
        ensures
            r.0 == self.entries_processed,
            r.1 == self.entries@.len() as u64,
    {
        (self.entries_processed, self.entries.len() as u64)
    }

    proof fn lemma_entries_drop_last(&self, e: Seq<Entry>)
        requires
            e.len() > 0,
            self.entries@ == e.drop_last(),
            forall|i: int| 0 <= i < e.len() ==> (#[trigger] e[i])@.wf(),
        ensures
            forall|i: int| 0 <= i < self.entries@.len() ==> (#[trigger] self.entries@[i])@.wf(),
    {
        assert forall|i: int| 0 <= i < self.entries@.len() implies (
        #[trigger] self.entries@[i])@.wf() by {
            assert(self.entries@[i] == e[i]);
        }
    }
}

/// In a quiescent run no worker is busy. Only a busy worker can report
/// work done and push entries, so once the stack is empty and every worker
/// is idle no entry can ever be queued again: a worker told to stop leaves
/// no work behind.
pub proof fn lemma_quiescent_has_no_producer(s: State, id: int)
    requires
        s.quiescent(),
        0 <= id < s.workers@.len(),
    ensures
        !s.workers@[id].task@.is_busy(),
        !(s.workers@[id].task@ is Scanning),
        !(s.workers@[id].task@ is Copying),
{
    assert(s.workers@[id].task@ is Idle);
}

/// Records an error event.
pub fn send_to_error(state: &mut State, msg: String)
    ensures
        final(state).errors@ == old(state).errors@.push(msg),
        final(state).entries == old(state).entries,
        final(state).workers == old(state).workers,
        final(state).next_id == old(state).next_id,
        final(state).dest == old(state).dest,
        final(state).sources == old(state).sources,
        final(state).entries_processed == old(state).entries_processed,
{
    state.errors.push(msg);
}

} // verus!
