//! The task queue shared by the remote coordinator and the local
//! dispatcher.
//!
//! A `TasksContainer` holds the idle tasks (a LIFO stack), the succeeded
//! tasks (an accumulation bucket created lazily on first use and swapped
//! out whole when drained), and the monotonic task-id generator.  Both
//! modes of the cluster keep their tasks in one of these; the container is
//! generic in the task type because the queue discipline does not depend
//! on what a task carries.
//!
//! The caller is expected to guard a container with a lock and hold that
//! lock only across one of these operations, never across I/O; every
//! operation here is a single O(1) mutation.

use vstd::prelude::*;
use vstd::seq_lib::lemma_multiset_commutative;

verus! {

/// Thread-safe holder of the idle and succeeded task collections plus the
/// monotonic id generator.
pub struct TasksContainer<T> {
    idle_tasks: Vec<T>,
    succeeded_tasks: Option<Vec<T>>,
    id_max: usize,
    issued: Ghost<Seq<usize>>,
}

impl<T> TasksContainer<T> {
    /// The idle tasks, oldest first; `take_idle` pops from the back.
    pub closed spec fn idle(&self) -> Seq<T> {
        self.idle_tasks@
    }

    /// The succeeded bucket: nothing before the first success or right
    /// after a drain, otherwise every task completed since.
    pub closed spec fn succeeded(&self) -> Option<Seq<T>> {
        match self.succeeded_tasks {
            Some(v) => Some(v@),
            None => None,
        }
    }

    /// The succeeded tasks, with a missing bucket reading as empty.
    pub open spec fn succeeded_seq(&self) -> Seq<T> {
        match self.succeeded() {
            Some(s) => s,
            None => Seq::empty(),
        }
    }

    /// The next task id this container will issue.
    pub closed spec fn next_uid(&self) -> usize {
        self.id_max
    }

    /// Every id this container has issued, in order of issuance.
    pub closed spec fn issued_uids(&self) -> Seq<usize> {
        self.issued@
    }

    /// The id generator has issued exactly the ids below `next_uid`, in
    /// order: the source of id uniqueness.
    pub open spec fn wf(&self) -> bool {
        &&& self.issued_uids().len() == self.next_uid()
        &&& forall|i: int| 0 <= i < self.issued_uids().len() ==> self.issued_uids()[i] == i
    }

    /// A fresh container: no tasks, no succeeded bucket, ids start at 0.
    pub fn new() -> (r: Self)
        ensures
            r.idle() == Seq::<T>::empty(),
            r.succeeded() is None,
            r.next_uid() == 0,
            r.issued_uids() == Seq::<usize>::empty(),
            r.wf(),
    {
        TasksContainer {
            idle_tasks: Vec::new(),
            succeeded_tasks: None,
            id_max: 0,
            issued: Ghost(Seq::empty()),
        }
    }

    /// Push a task onto the idle stack.
    pub fn push_idle(&mut self, task: T)
        ensures
            final(self).idle() == old(self).idle().push(task),
            final(self).succeeded() == old(self).succeeded(),
            final(self).next_uid() == old(self).next_uid(),
            final(self).issued_uids() == old(self).issued_uids(),
    {
        self.idle_tasks.push(task);
    }

    /// Pop the most recently pushed idle task, if any: the idle collection
    /// is a LIFO stack, and a popped task leaves the container entirely —
    /// the caller takes sole possession of it.
    pub fn take_idle(&mut self) -> (r: Option<T>)
        ensures
            old(self).idle().len() == 0 ==> r is None && final(self).idle() == old(self).idle(),
            old(self).idle().len() > 0 ==> r == Some(old(self).idle().last()) && final(self).idle()
                == old(self).idle().drop_last(),
            final(self).succeeded() == old(self).succeeded(),
            final(self).next_uid() == old(self).next_uid(),
            final(self).issued_uids() == old(self).issued_uids(),
    {
        self.idle_tasks.pop()
    }

    /// Push a task into the succeeded bucket, creating the bucket on first
    /// use.
    pub fn push_succeeded(&mut self, task: T)
        ensures
            final(self).succeeded() == Some(old(self).succeeded_seq().push(task)),
            final(self).idle() == old(self).idle(),
            final(self).next_uid() == old(self).next_uid(),
            final(self).issued_uids() == old(self).issued_uids(),
    {
        let bucket = self.succeeded_tasks.take();
        let mut v = match bucket {
            None => Vec::new(),
            Some(v) => v,
        };
        v.push(task);
        self.succeeded_tasks = Some(v);
    }

    /// Atomically swap the succeeded bucket for nothing and hand back
    /// whatever had accumulated, or nothing if no task succeeded since the
    /// last drain.
    pub fn take_succeeded(&mut self) -> (r: Option<Vec<T>>)
        ensures
            r matches Some(v) ==> old(self).succeeded() == Some(v@),
            r is None ==> old(self).succeeded() is None,
            final(self).succeeded() is None,
            final(self).idle() == old(self).idle(),
            final(self).next_uid() == old(self).next_uid(),
            final(self).issued_uids() == old(self).issued_uids(),
    {
        self.succeeded_tasks.take()
    }

    /// Issue a fresh task id: ids are handed out in increasing order and
    /// never reused for the container's lifetime.
    pub fn get_new_uid(&mut self) -> (r: usize)
        requires
            old(self).next_uid() < usize::MAX,
        ensures
            r == old(self).next_uid(),
            final(self).next_uid() == old(self).next_uid() + 1,
            final(self).issued_uids() == old(self).issued_uids().push(r),
            final(self).idle() == old(self).idle(),
            final(self).succeeded() == old(self).succeeded(),
            old(self).wf() ==> final(self).wf(),
    {
        let r = self.id_max;
        self.id_max = self.id_max + 1;
        proof {
            self.issued@ = self.issued@.push(r);
        }
        r
    }
}

/// Id uniqueness: every id a container has issued is pairwise distinct
/// from every other, however many were handed out.
pub proof fn lemma_issued_uids_distinct<T>(c: TasksContainer<T>)
    requires
        c.wf(),
    ensures
        forall|i: int, j: int|
            0 <= i < c.issued_uids().len() && 0 <= j < c.issued_uids().len() && i != j
                ==> c.issued_uids()[i] != c.issued_uids()[j],
{
}

/// No loss and no duplication across one dispatch round: popping the task
/// at the top of the idle stack and pushing it into the succeeded bucket
/// leaves the multiset of tasks unchanged.  The caller instantiates `K`
/// with whatever identifies a task (its id and payload), which completion
/// does not touch, so `t` stands for the task both as popped and as
/// recorded on success.
pub proof fn lemma_dispatch_round_conserves_tasks<K>(
    idle0: Seq<K>,
    succ0: Seq<K>,
    idle1: Seq<K>,
    succ1: Seq<K>,
    t: K,
)
    requires
        idle0.len() > 0,
        t == idle0.last(),
        idle1 == idle0.drop_last(),
        succ1 == succ0.push(t),
    ensures
        (idle1 + succ1).to_multiset() =~= (idle0 + succ0).to_multiset(),
{
    broadcast use vstd::seq_lib::group_to_multiset_ensures;

    assert(idle0 =~= idle1.push(t));
    lemma_multiset_commutative(idle0, succ0);
    lemma_multiset_commutative(idle1, succ1);
    assert(idle0.to_multiset() =~= idle1.to_multiset().insert(t));
    assert(succ1.to_multiset() =~= succ0.to_multiset().insert(t));
}

/// Retry idempotence of a failed delivery: popping the top idle task and
/// returning it unmodified to the idle stack leaves the idle collection
/// exactly as it was, so however many times delivery fails, the task waits
/// with a byte-identical payload and the succeeded bucket is untouched.
pub proof fn lemma_failed_round_is_identity<K>(idle0: Seq<K>)
    requires
        idle0.len() > 0,
    ensures
        idle0.drop_last().push(idle0.last()) == idle0,
{
    assert(idle0.drop_last().push(idle0.last()) =~= idle0);
}

/// How many failed deliveries the top idle task has survived is invisible:
/// any number of pop-then-requeue rounds is the identity on the idle
/// collection.
pub open spec fn spec_failed_rounds<K>(idle: Seq<K>, k: nat) -> Seq<K>
    decreases k,
{
    if k == 0 || idle.len() == 0 {
        idle
    } else {
        spec_failed_rounds(idle.drop_last().push(idle.last()), (k - 1) as nat)
    }
}

/// Retry idempotence, iterated: after `k` failed deliveries the idle
/// collection — and with it the waiting task and its payload — is exactly
/// what it was before the first attempt.
pub proof fn lemma_retry_idempotence<K>(idle: Seq<K>, k: nat)
    ensures
        spec_failed_rounds(idle, k) == idle,
    decreases k,
{
    if k > 0 && idle.len() > 0 {
        lemma_failed_round_is_identity(idle);
        lemma_retry_idempotence(idle, (k - 1) as nat);
    }
}

} // verus!
