//! Local-mode dispatcher: the same queue, submit, drain and terminate
//! machinery as the remote coordinator, but each task carries a bound
//! callable that is run in-process instead of being shipped to a remote
//! worker for compilation.
//!
//! One dispatch step takes the callable out of the task, invokes it on the
//! task's payload, stores what it returns as the task's result, restores
//! the callable slot and records the task as succeeded.  A task that
//! somehow has no bound callable is returned, unmodified, to the idle
//! stack.  Spawning a thread per dispatched task and looping until
//! terminated are the caller's affair; the callable itself is trusted
//! in-process code, so nothing here recovers from it failing.

use crate::store::TasksContainer;
use vstd::prelude::*;

verus! {

/// The bound callable of a local-mode task: it is handed the task's
/// payload and returns the task's result.
pub struct Program<F> {
    pub program: F,
}

/// A unit of work for the local dispatcher: an opaque byte payload, the
/// ids of the remote-mode task model, result bytes (empty until the task
/// succeeds), and the callable bound at submission.
pub struct Task<F> {
    pub guid: usize,
    pub id: usize,
    pub data: Vec<u8>,
    pub result: Vec<u8>,
    pub program: Option<Program<F>>,
}

impl<F: Fn(&Vec<u8>) -> Vec<u8>> Task<F> {
    /// The task's globally unique id.
    pub open spec fn spec_guid(&self) -> usize {
        self.guid
    }

    /// The caller-facing id issued by the container that created the task.
    pub open spec fn spec_uid(&self) -> usize {
        self.id
    }

    /// The task's callable may be invoked on the task's own payload.
    pub open spec fn runnable(&self) -> bool {
        match self.program {
            Some(p) => call_requires(p.program, (&self.data,)),
            None => true,
        }
    }

    /// Wrap a payload and its callable in a fresh task with an empty
    /// result.  The caller supplies both ids; the dispatcher issues them
    /// from its own counters.
    pub fn new(data: Vec<u8>, id: usize, guid: usize, prog: F) -> (r: Self)
        ensures
            r.spec_guid() == guid,
            r.spec_uid() == id,
            r.data == data,
            r.result@ == Seq::<u8>::empty(),
            r.program matches Some(p) && p.program == prog,
    {
        Task { guid, id, data, result: Vec::new(), program: Some(Program { program: prog }) }
    }

    /// The task's globally unique id.
    pub fn get_guid(&self) -> (r: usize)
        ensures
            r == self.spec_guid(),
    {
        self.guid
    }

    /// The task's container-issued id.
    pub fn get_uid(&self) -> (r: usize)
        ensures
            r == self.spec_uid(),
    {
        self.id
    }
}

/// Every task in `s` has a globally unique id below `bound`.
pub open spec fn guids_below<F>(s: Seq<Task<F>>, bound: usize) -> bool {
    forall|i: int| 0 <= i < s.len() ==> s[i].guid < bound
}

/// No two tasks in `s` share a globally unique id.
pub open spec fn guids_distinct<F>(s: Seq<Task<F>>) -> bool {
    forall|i: int, j: int| 0 <= i < j < s.len() ==> s[i].guid != s[j].guid
}

/// No task in `a` shares a globally unique id with a task in `b`.
pub open spec fn guids_disjoint<F>(a: Seq<Task<F>>, b: Seq<Task<F>>) -> bool {
    forall|i: int, j: int| 0 <= i < a.len() && 0 <= j < b.len() ==> a[i].guid != b[j].guid
}

/// Every task in `s` can run its own callable.
pub open spec fn all_runnable<F: Fn(&Vec<u8>) -> Vec<u8>>(s: Seq<Task<F>>) -> bool {
    forall|i: int| 0 <= i < s.len() ==> s[i].runnable()
}

/// The local-mode coordinator: owns the task container and decides, one
/// step at a time, what the dispatch loop does next.
pub struct ClusterCoordinator<F> {
    tasks: TasksContainer<Task<F>>,
    is_terminated: bool,
    guid_next: usize,
}

impl<F: Fn(&Vec<u8>) -> Vec<u8>> ClusterCoordinator<F> {
    /// The coordinator's task container.
    pub closed spec fn store(&self) -> TasksContainer<Task<F>> {
        self.tasks
    }

    /// Whether `terminate` has been called.
    pub closed spec fn terminated(&self) -> bool {
        self.is_terminated
    }

    /// The next globally unique task id to issue.
    pub closed spec fn guid_next(&self) -> usize {
        self.guid_next
    }

    /// The coordinator's invariant: the id generator is sound, every held
    /// task was created here with a distinct globally unique id, and every
    /// idle task can run its own callable.
    pub open spec fn inv(&self) -> bool {
        &&& self.store().wf()
        &&& guids_below(self.store().idle(), self.guid_next())
        &&& guids_below(self.store().succeeded_seq(), self.guid_next())
        &&& guids_distinct(self.store().idle())
        &&& guids_distinct(self.store().succeeded_seq())
        &&& guids_disjoint(self.store().idle(), self.store().succeeded_seq())
        &&& all_runnable(self.store().idle())
    }

    /// A fresh dispatcher: empty container, not terminated.  Running the
    /// dispatch loop is the caller's affair.
    pub fn new() -> (r: Self)
        ensures
            r.inv(),
            r.store().idle() == Seq::<Task<F>>::empty(),
            r.store().succeeded() is None,
            r.store().next_uid() == 0,
            r.guid_next() == 0,
            !r.terminated(),
    {
        ClusterCoordinator { tasks: TasksContainer::new(), is_terminated: false, guid_next: 0 }
    }

    /// Whether `terminate` has been called.
    pub fn is_terminated(&self) -> (r: bool)
        ensures
            r == self.terminated(),
    {
        self.is_terminated
    }

    /// Submit a payload bound to a callable: wrap both in a task with
    /// fresh ids, push it onto the idle stack and return its
    /// container-issued id immediately.
    pub fn add_task(&mut self, task: Vec<u8>, prog: F) -> (uid: usize)
        requires
            old(self).inv(),
            old(self).store().next_uid() < usize::MAX,
            old(self).guid_next() < usize::MAX,
            call_requires(prog, (&task,)),
        ensures
            final(self).inv(),
            uid == old(self).store().next_uid(),
            final(self).store().next_uid() == old(self).store().next_uid() + 1,
            final(self).guid_next() == old(self).guid_next() + 1,
            final(self).store().idle().drop_last() == old(self).store().idle(),
            final(self).store().idle().len() == old(self).store().idle().len() + 1,
            final(self).store().idle().last().spec_uid() == uid,
            final(self).store().idle().last().spec_guid() == old(self).guid_next(),
            final(self).store().idle().last().data@ == task@,
            final(self).store().idle().last().result@ == Seq::<u8>::empty(),
            final(self).store().idle().last().program matches Some(p) && p.program == prog,
            final(self).store().succeeded() == old(self).store().succeeded(),
            final(self).store().issued_uids() == old(self).store().issued_uids().push(uid),
            final(self).terminated() == old(self).terminated(),
    {
        let uid = self.tasks.get_new_uid();
        let guid = self.guid_next;
        self.guid_next = guid + 1;
        let t = Task::new(task, uid, guid, prog);
        self.tasks.push_idle(t);
        proof {
            assert(self.store().idle().drop_last() =~= old(self).store().idle());
        }
        uid
    }

    /// One step of the dispatch loop.  Nothing happens once the dispatcher
    /// is terminated or when no task is idle.  Otherwise the top idle task
    /// is taken; if it has a bound callable, the callable is invoked on
    /// the task's payload, what it returns becomes the task's result, the
    /// callable slot is restored and the task is recorded as succeeded.  A
    /// task with no bound callable is returned to the idle stack
    /// unmodified.
    pub fn handle_client(&mut self)
        requires
            old(self).inv(),
        ensures
            final(self).inv(),
            old(self).terminated() ==> final(self).store().idle() == old(self).store().idle()
                && final(self).store().succeeded() == old(self).store().succeeded(),
            !old(self).terminated() && old(self).store().idle().len() == 0 ==> final(self).store().idle() == old(self).store().idle() && final(self).store().succeeded() == old(self).store().succeeded(),
            !old(self).terminated() && old(self).store().idle().len() > 0 && old(self).store().idle().last().program is Some ==> final(self).store().idle() == old(self).store().idle().drop_last() && final(self).store().succeeded() is Some && final(self).store().succeeded_seq().drop_last() == old(self).store().succeeded_seq() && final(self).store().succeeded_seq().len() == old(self).store().succeeded_seq().len() + 1
                && spec_completes(
                old(self).store().idle().last(),
                final(self).store().succeeded_seq().last(),
            ),
            !old(self).terminated() && old(self).store().idle().len() > 0 && old(self).store().idle().last().program is None ==> final(self).store().idle() == old(self).store().idle() && final(self).store().succeeded() == old(self).store().succeeded(),
            final(self).store().next_uid() == old(self).store().next_uid(),
            final(self).store().issued_uids() == old(self).store().issued_uids(),
            final(self).guid_next() == old(self).guid_next(),
            final(self).terminated() == old(self).terminated(),
    {
        if self.is_terminated {
            return ;
        }
        let mut task = match self.tasks.take_idle() {
            Some(t) => t,
            None => {
                return ;
            },
        };
        proof {
            let idle0 = old(self).store().idle();
            assert(idle0[idle0.len() - 1].runnable());
        }
        match task.program.take() {
            Some(p) => {
                let res = (p.program)(&task.data);
                task.result = res;
                task.program = Some(p);
                self.tasks.push_succeeded(task);
                proof {
                    assert(self.store().succeeded_seq().drop_last() =~= old(self).store().succeeded_seq());
                }
            },
            None => {
                task.program = None;
                self.tasks.push_idle(task);
                proof {
                    assert(self.store().idle() =~= old(self).store().idle());
                }
            },
        }
    }

    /// Poll the succeeded bucket: everything completed since the last
    /// drain, or nothing.  Every drained task carries a result its own
    /// callable could have produced from its own payload.
    pub fn extract_computed(&mut self) -> (r: Option<Vec<Task<F>>>)
        requires
            old(self).inv(),
        ensures
            final(self).inv(),
            r matches Some(v) ==> old(self).store().succeeded() == Some(v@),
            r is None ==> old(self).store().succeeded() is None,
            final(self).store().succeeded() is None,
            final(self).store().idle() == old(self).store().idle(),
            final(self).store().next_uid() == old(self).store().next_uid(),
            final(self).guid_next() == old(self).guid_next(),
            final(self).terminated() == old(self).terminated(),
    {
        self.tasks.take_succeeded()
    }

    /// Set the termination flag: the dispatch loop stops taking tasks from
    /// here on; a task already being run is not interrupted.
    pub fn terminate(&mut self)
        ensures
            final(self).terminated(),
            final(self).store() == old(self).store(),
            final(self).guid_next() == old(self).guid_next(),
            old(self).inv() ==> final(self).inv(),
    {
        self.is_terminated = true;
    }
}

/// Id uniqueness at the submission surface: however many tasks have been
/// submitted, the ids `add_task` returned are pairwise distinct.
pub proof fn lemma_submitted_ids_distinct<F: Fn(&Vec<u8>) -> Vec<u8>>(c: ClusterCoordinator<F>)
    requires
        c.inv(),
    ensures
        forall|i: int, j: int|
            0 <= i < c.store().issued_uids().len() && 0 <= j < c.store().issued_uids().len() && i
                != j ==> c.store().issued_uids()[i] != c.store().issued_uids()[j],
{
    crate::store::lemma_issued_uids_distinct(c.store());
}

/// How a dispatched task relates to its recorded, succeeded form: same
/// ids, same payload, same callable, and the result is an output the
/// task's own callable permits for that payload.
pub open spec fn spec_completes<F: Fn(&Vec<u8>) -> Vec<u8>>(t: Task<F>, done: Task<F>) -> bool {
    &&& done.spec_guid() == t.spec_guid()
    &&& done.spec_uid() == t.spec_uid()
    &&& done.data == t.data
    &&& done.program == t.program
    &&& t.program matches Some(p) ==> call_ensures(p.program, (&t.data,), done.result)
}

} // verus!
