//! Remote-mode coordinator: the task model and every dispatch decision of
//! the accept loop and its per-connection handlers.
//!
//! The coordinator owns a task container and a shared program source.  For
//! each accepted connection it decides `Wait`, `Execute` or `Terminate`
//! and, when dispatching, moves one task out of the container into the
//! sole possession of that connection's handler; the handler reports back
//! either a result (the task is recorded as succeeded) or a failure (the
//! task returns, untouched, to the idle stack and becomes re-dispatchable).
//!
//! The network itself — binding the port, accepting connections, the
//! framed request/response exchange with its timeout, and the thread
//! spawned per dispatch — is unverified plumbing around these decisions.

use crate::codec::HostCommand;
use crate::store::TasksContainer;
use vstd::prelude::*;

verus! {

/// A unit of work: an opaque byte payload, a container-issued id, a
/// globally unique task id, and the result bytes once a worker has
/// computed them.
pub struct Task {
    pub guid: usize,
    pub id: usize,
    pub result: Option<Vec<u8>>,
    pub data: Vec<u8>,
}

impl Task {
    /// The task's globally unique id.
    pub open spec fn spec_guid(&self) -> usize {
        self.guid
    }

    /// The caller-facing id issued by the container that created the task.
    pub open spec fn spec_uid(&self) -> usize {
        self.id
    }

    /// Wrap a payload in a fresh task with no result yet.  The caller
    /// supplies both ids; the coordinator issues them from its own
    /// counters.
    pub fn new(data: Vec<u8>, id: usize, guid: usize) -> (r: Self)
        ensures
            r.spec_guid() == guid,
            r.spec_uid() == id,
            r.data == data,
            r.result is None,
    {
        Task { guid, id, result: None, data }
    }

    /// The task's globally unique id.
    pub fn get_guid(&self) -> (r: usize)
        ensures
            r == self.spec_guid(),
    {
        self.guid
    }

    /// The task's container-issued id.
    pub fn get_uid(&self) -> (r: usize)
        ensures
            r == self.spec_uid(),
    {
        self.id
    }
}

/// Every task in `s` has a globally unique id below `bound`.
pub open spec fn guids_below(s: Seq<Task>, bound: usize) -> bool {
    forall|i: int| 0 <= i < s.len() ==> s[i].spec_guid() < bound
}

/// No two tasks in `s` share a globally unique id.
pub open spec fn guids_distinct(s: Seq<Task>) -> bool {
    forall|i: int, j: int|
        0 <= i < j < s.len() ==> s[i].spec_guid() != s[j].spec_guid()
}

/// No task in `a` shares a globally unique id with a task in `b`.
pub open spec fn guids_disjoint(a: Seq<Task>, b: Seq<Task>) -> bool {
    forall|i: int, j: int|
        0 <= i < a.len() && 0 <= j < b.len() ==> a[i].spec_guid() != b[j].spec_guid()
}

/// What identifies a task across its lifecycle: its globally unique id and
/// its payload, which completion never touches.
pub open spec fn task_keys(s: Seq<Task>) -> Seq<(usize, Seq<u8>)> {
    s.map_values(|t: Task| (t.spec_guid(), t.data@))
}

/// Owner of the task container and the shared program source; decides what
/// each accepted connection is told and what happens to a dispatched task
/// when its handler reports back.
pub struct ClusterCoordinator {
    tasks: TasksContainer<Task>,
    program: Vec<u8>,
    is_terminated: bool,
    guid_next: usize,
}

impl ClusterCoordinator {
    /// The coordinator's task container.
    pub closed spec fn store(&self) -> TasksContainer<Task> {
        self.tasks
    }

    /// The program source shared by all dispatches.
    pub closed spec fn program_view(&self) -> Seq<u8> {
        self.program@
    }

    /// Whether `terminate` has been called.
    pub closed spec fn terminated(&self) -> bool {
        self.is_terminated
    }

    /// The next globally unique task id to issue.
    pub closed spec fn guid_next(&self) -> usize {
        self.guid_next
    }

    /// The coordinator's invariant: the id generator is sound, every task
    /// it holds was created here (its globally unique id is below the
    /// counter), and no two tasks it holds share that id.
    pub open spec fn inv(&self) -> bool {
        &&& self.store().wf()
        &&& guids_below(self.store().idle(), self.guid_next())
        &&& guids_below(self.store().succeeded_seq(), self.guid_next())
        &&& guids_distinct(self.store().idle())
        &&& guids_distinct(self.store().succeeded_seq())
        &&& guids_disjoint(self.store().idle(), self.store().succeeded_seq())
    }

    /// What a freshly accepted connection is told: `Terminate` once the
    /// coordinator is terminated, otherwise `Execute` exactly when an idle
    /// task is available, else `Wait`.
    pub open spec fn spec_dispatch_decision(&self) -> HostCommand {
        if self.terminated() {
            HostCommand::Terminate
        } else if self.store().idle().len() == 0 {
            HostCommand::Wait
        } else {
            HostCommand::Execute
        }
    }

    /// A fresh coordinator around the given program source: empty
    /// container, not terminated.  Binding the port and starting the
    /// accept loop is the caller's affair.
    pub fn new(program: Vec<u8>) -> (r: Self)
        ensures
            r.inv(),
            r.store().idle() == Seq::<Task>::empty(),
            r.store().succeeded() is None,
            r.store().next_uid() == 0,
            r.guid_next() == 0,
            !r.terminated(),
            r.program_view() == program@,
    {
        ClusterCoordinator {
            tasks: TasksContainer::new(),
            program,
            is_terminated: false,
            guid_next: 0,
        }
    }

    /// The shared program source, for the handler that writes it onto a
    /// connection.
    pub fn program(&self) -> (r: &Vec<u8>)
        ensures
            r@ == self.program_view(),
    {
        &self.program
    }

    /// Whether `terminate` has been called.
    pub fn is_terminated(&self) -> (r: bool)
        ensures
            r == self.terminated(),
    {
        self.is_terminated
    }

    /// Submit a payload: wrap it in a task with fresh ids, push it onto
    /// the idle stack and return its container-issued id immediately.
    pub fn add_task(&mut self, task: Vec<u8>) -> (uid: usize)
        requires
            old(self).inv(),
            old(self).store().next_uid() < usize::MAX,
            old(self).guid_next() < usize::MAX,
        ensures
            final(self).inv(),
            uid == old(self).store().next_uid(),
            final(self).store().next_uid() == old(self).store().next_uid() + 1,
            final(self).guid_next() == old(self).guid_next() + 1,
            final(self).store().idle().drop_last() == old(self).store().idle(),
            final(self).store().idle().len() == old(self).store().idle().len() + 1,
            final(self).store().idle().last().spec_uid() == uid,
            final(self).store().idle().last().spec_guid() == old(self).guid_next(),
            final(self).store().idle().last().data@ == task@,
            final(self).store().idle().last().result is None,
            final(self).store().succeeded() == old(self).store().succeeded(),
            final(self).store().issued_uids() == old(self).store().issued_uids().push(uid),
            final(self).terminated() == old(self).terminated(),
            final(self).program_view() == old(self).program_view(),
    {
        let uid = self.tasks.get_new_uid();
        let guid = self.guid_next;
        self.guid_next = guid + 1;
        let t = Task::new(task, uid, guid);
        self.tasks.push_idle(t);
        proof {
            assert(self.store().idle().drop_last() =~= old(self).store().idle());
        }
        uid
    }

    /// Poll the succeeded bucket: everything completed since the last
    /// drain, or nothing.
    pub fn extract_computed(&mut self) -> (r: Option<Vec<Task>>)
        requires
            old(self).inv(),
        ensures
            final(self).inv(),
            r matches Some(v) ==> old(self).store().succeeded() == Some(v@),
            r is None ==> old(self).store().succeeded() is None,
            final(self).store().succeeded() is None,
            final(self).store().idle() == old(self).store().idle(),
            final(self).store().next_uid() == old(self).store().next_uid(),
            final(self).guid_next() == old(self).guid_next(),
            final(self).terminated() == old(self).terminated(),
            final(self).program_view() == old(self).program_view(),
    {
        self.tasks.take_succeeded()
    }

    /// Set the termination flag: newly accepted connections are told
    /// `Terminate` from here on; handlers already dispatched are not
    /// cancelled and run to their own completion or timeout.
    pub fn terminate(&mut self)
        ensures
            final(self).terminated(),
            final(self).store() == old(self).store(),
            final(self).guid_next() == old(self).guid_next(),
            final(self).program_view() == old(self).program_view(),
            old(self).inv() ==> final(self).inv(),
    {
        self.is_terminated = true;
    }

    /// Decide what one accepted connection is told, and take the task it
    /// will run if the answer is `Execute`.  A taken task leaves the
    /// container entirely: no other handler can reach it — at any instant
    /// a task is referenced by at most one handler.
    pub fn handle_client(&mut self) -> (r: (HostCommand, Option<Task>))
        requires
            old(self).inv(),
        ensures
            final(self).inv(),
            r.0 == old(self).spec_dispatch_decision(),
            r.1 is Some <==> r.0 == HostCommand::Execute,
            old(self).terminated() ==> final(self).store().idle() == old(self).store().idle(),
            !old(self).terminated() && old(self).store().idle().len() == 0 ==> final(self).store().idle() == old(self).store().idle(),
            !old(self).terminated() && old(self).store().idle().len() > 0 ==> r.1 == Some(
                old(self).store().idle().last(),
            ) && final(self).store().idle() == old(self).store().idle().drop_last(),
            r.1 matches Some(t) ==> forall|i: int|
                0 <= i < final(self).store().idle().len() ==> final(self).store().idle()[i].spec_guid()
                    != t.spec_guid(),
            r.1 matches Some(t) ==> forall|i: int|
                0 <= i < final(self).store().succeeded_seq().len() ==> final(self).store().succeeded_seq()[i].spec_guid() != t.spec_guid(),
            final(self).store().succeeded() == old(self).store().succeeded(),
            final(self).store().next_uid() == old(self).store().next_uid(),
            final(self).store().issued_uids() == old(self).store().issued_uids(),
            final(self).guid_next() == old(self).guid_next(),
            final(self).terminated() == old(self).terminated(),
            final(self).program_view() == old(self).program_view(),
    {
        if self.is_terminated {
            return (HostCommand::Terminate, None);
        }
        match self.tasks.take_idle() {
            Some(task) => (HostCommand::Execute, Some(task)),
            None => (HostCommand::Wait, None),
        }
    }

    /// Record the outcome a handler reports for a dispatched task.  On
    /// success the result is stored on the task and the task joins the
    /// succeeded bucket; on failure (any write, read or timeout error) the
    /// task returns unmodified to the idle stack, eligible for
    /// re-dispatch.  The termination flag plays no part: a task dispatched
    /// before `terminate` still completes here.
    pub fn finish_task(&mut self, task: Task, outcome: Option<Vec<u8>>)
        ensures
            outcome is None ==> final(self).store().idle() == old(self).store().idle().push(task)
                && final(self).store().succeeded() == old(self).store().succeeded(),
            outcome matches Some(res) ==> final(self).store().idle() == old(self).store().idle()
                && final(self).store().succeeded() is Some
                && final(self).store().succeeded_seq().drop_last() == old(self).store().succeeded_seq()
                && final(self).store().succeeded_seq().len() == old(self).store().succeeded_seq().len() + 1
                && final(self).store().succeeded_seq().last().spec_guid() == task.spec_guid()
                && final(self).store().succeeded_seq().last().spec_uid() == task.spec_uid()
                && final(self).store().succeeded_seq().last().data@ == task.data@
                && final(self).store().succeeded_seq().last().result == Some(res),
            final(self).store().next_uid() == old(self).store().next_uid(),
            final(self).store().issued_uids() == old(self).store().issued_uids(),
            final(self).guid_next() == old(self).guid_next(),
            final(self).terminated() == old(self).terminated(),
            final(self).program_view() == old(self).program_view(),
            old(self).inv() && task.spec_guid() < old(self).guid_next() && (forall|i: int|
                0 <= i < old(self).store().idle().len() ==> old(self).store().idle()[i].spec_guid()
                    != task.spec_guid()) && (forall|i: int|
                0 <= i < old(self).store().succeeded_seq().len() ==> old(self).store().succeeded_seq()[i].spec_guid() != task.spec_guid()) ==> final(self).inv(),
    {
        match outcome {
            None => {
                self.tasks.push_idle(task);
            },
            Some(res) => {
                let mut done = task;
                done.result = Some(res);
                self.tasks.push_succeeded(done);
            },
        }
    }
}

/// No loss and no duplication: one successful dispatch round — the handler
/// pops the top idle task and records it as succeeded with a result —
/// preserves the multiset of task identities (globally unique id plus
/// payload): nothing disappears and nothing is counted twice.
pub proof fn lemma_no_loss_no_duplication(
    idle0: Seq<Task>,
    succ0: Seq<Task>,
    idle1: Seq<Task>,
    succ1: Seq<Task>,
    t: Task,
    done: Task,
)
    requires
        idle0.len() > 0,
        t == idle0.last(),
        idle1 == idle0.drop_last(),
        succ1 == succ0.push(done),
        done.spec_guid() == t.spec_guid(),
        done.data@ == t.data@,
        done.result is Some,
    ensures
        (task_keys(idle1) + task_keys(succ1)).to_multiset() =~= (task_keys(idle0) + task_keys(
            succ0,
        )).to_multiset(),
        succ1.last().result is Some,
{
    assert(task_keys(idle1) =~= task_keys(idle0).drop_last());
    assert(task_keys(succ1) =~= task_keys(succ0).push((done.spec_guid(), done.data@)));
    crate::store::lemma_dispatch_round_conserves_tasks(
        task_keys(idle0),
        task_keys(succ0),
        task_keys(idle1),
        task_keys(succ1),
        (t.spec_guid(), t.data@),
    );
}

/// Id uniqueness at the submission surface: however many tasks have been
/// submitted, the ids `add_task` returned are pairwise distinct.
pub proof fn lemma_submitted_ids_distinct(c: ClusterCoordinator)
    requires
        c.inv(),
    ensures
        forall|i: int, j: int|
            0 <= i < c.store().issued_uids().len() && 0 <= j < c.store().issued_uids().len() && i
                != j ==> c.store().issued_uids()[i] != c.store().issued_uids()[j],
{
    crate::store::lemma_issued_uids_distinct(c.store());
}

/// Termination semantics: once the flag is set, every newly accepted
/// connection is told `Terminate` and no task is consumed for it; the
/// outcome of a task dispatched earlier is still recorded by
/// `finish_task`, whose contract does not mention the flag.
pub proof fn lemma_termination_semantics(c: ClusterCoordinator)
    requires
        c.terminated(),
    ensures
        c.spec_dispatch_decision() == HostCommand::Terminate,
{
}

} // verus!
