//! The include worklist: sequences the files still to be parsed in the order
//! their includes were discovered, and never lets a path be scheduled twice.

use vstd::prelude::*;

verus! {

/// The worklist of files to parse. Paths keep their discovery order; a path
/// already scheduled once (taken or still pending) is never scheduled again,
/// so every file is parsed at most once even when several include chains
/// reach it.
pub struct FileStack {
    pub queue: Vec<String>,
    pub next: usize,
}

/// Scheduling a path: the queue grows by the path exactly when no path with
/// the same text was ever scheduled before.
pub open spec fn spec_schedule(queue: Seq<String>, path: String) -> Seq<String> {
    if exists|i: int| 0 <= i < queue.len() && (#[trigger] queue[i])@ == path@ {
        queue
    } else {
        queue.push(path)
    }
}

impl FileStack {
    /// Every path ever scheduled, in discovery order.
    pub open spec fn all_paths(self) -> Seq<String> {
        self.queue@
    }

    /// How many scheduled paths have already been taken.
    pub open spec fn cursor(self) -> int {
        self.next as int
    }

    /// The paths already taken for parsing, in the order they were taken.
    pub open spec fn taken(self) -> Seq<String> {
        self.queue@.subrange(0, self.next as int)
    }

    /// The paths still waiting to be parsed, in discovery order.
    pub open spec fn pending(self) -> Seq<String> {
        self.queue@.subrange(self.next as int, self.queue@.len() as int)
    }

    /// A path with this text was scheduled at some point.
    pub open spec fn scheduled(self, path: Seq<char>) -> bool {
        exists|i: int| 0 <= i < self.queue@.len() && (#[trigger] self.queue@[i])@ == path
    }

    /// The cursor stays within the queue and no two scheduled paths share
    /// their text.
    pub open spec fn wf(self) -> bool {
        &&& self.next <= self.queue@.len()
        &&& forall|i: int, j: int|
            0 <= i < j < self.queue@.len() ==> (#[trigger] self.queue@[i])@ != (
            #[trigger] self.queue@[j])@
    }

    /// A worklist holding only the entry file.
    pub fn new(entry: String) -> (r: Self)
        ensures
            r.wf(),
            r.all_paths() =~= seq![entry],
            r.cursor() == 0,
    {
        let mut queue: Vec<String> = Vec::new();
        queue.push(entry);
        FileStack { queue, next: 0 }
    }

    /// Takes the next pending path in discovery order, or reports the
    /// worklist drained.
    pub fn take_next(&mut self) -> (r: Option<String>)
        requires
            old(self).wf(),
        ensures
            final(self).wf(),
            final(self).all_paths() == old(self).all_paths(),
            (match r {
                Some(p) => {
                    &&& old(self).pending().len() > 0
                    &&& p == old(self).pending()[0]
                    &&& final(self).cursor() == old(self).cursor() + 1
                },
                None => {
                    &&& old(self).pending().len() == 0
                    &&& final(self).cursor() == old(self).cursor()
                },
            }),
    {
        if self.next < self.queue.len() {
            let p = self.queue[self.next].clone();
            self.next += 1;
            Some(p)
        } else {
            None
        }
    }

    /// Schedules a path unless a path with the same text was already
    /// scheduled. Scheduling never fails: whether the path can actually be
    /// read is discovered only when the driver opens it.
    pub fn schedule(&mut self, path: String)
        requires
            old(self).wf(),
        ensures
            final(self).wf(),
            final(self).cursor() == old(self).cursor(),
            final(self).all_paths() == spec_schedule(old(self).all_paths(), path),
    {
        let n = self.queue.len();
        let mut i: usize = 0;
        while i < n
            invariant
                self == old(self),
                old(self).wf(),
                n == self.queue@.len(),
                0 <= i <= n,
                forall|m: int| 0 <= m < i ==> (#[trigger] self.queue@[m])@ != path@,
            decreases n - i,
        {
            if self.queue[i] == path {
                assert(self.all_paths() == spec_schedule(self.all_paths(), path));
                return ;
            }
            i += 1;
        }
        assert(!self.scheduled(path@));
        self.queue.push(path);
    }
}

/// Law: no path leaves the worklist twice. Whatever mix of schedule and take
/// operations produced a well-formed worklist, the paths taken so far are
/// pairwise distinct, so each file is parsed at most once.
pub proof fn lemma_taken_paths_distinct(s: FileStack)
    requires
        s.wf(),
    ensures
        forall|i: int, j: int|
            0 <= i < j < s.taken().len() ==> (#[trigger] s.taken()[i])@ != (#[trigger] s.taken()[j])@,
{
}

} // verus!
