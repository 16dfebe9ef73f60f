//! The cooperative round-robin scheduler: it multiplexes independently
//! created backends, stepping each one native exit's worth of execution per
//! turn and retiring a process when its guest halts.

use vstd::prelude::*;

use crate::backend::{Backend, ExitReason};

verus! {

/// Process identifiers are assigned at spawn, grow monotonically, and are
/// never reused.
pub type ProcessId = u64;

/// Size of the kernel stack allocated for each process.
pub const STACK_SIZE: usize = 128 * 1024;

/// The lifecycle of one scheduled guest. `Blocked` is reserved for future
/// blocking I/O: nothing transitions into it today, but a blocked process is
/// re-enqueued without being stepped so adding blocking later needs no
/// scheduler restructuring. There is no transition out of `Terminated`.
#[derive(Debug, Clone, Copy, PartialEq, Eq, Structural)]
pub enum ProcessState {
    Ready,
    Running,
    Blocked,
    Terminated,
}

/// One scheduled guest: an identifier, the backend that runs it, its
/// lifecycle state, and a dedicated kernel stack. The scheduler holds the
/// stack pointer as an offset into the owned stack buffer, never as a raw
/// address, so the record can move freely.
pub struct Process<B> {
    pub id: ProcessId,
    pub backend: B,
    pub state: ProcessState,
    pub stack: Vec<u8>,
    pub stack_pointer: usize,
}

/// What one scheduling turn did.
#[derive(Debug, Clone, Copy, PartialEq, Eq, Structural)]
pub enum TickOutcome {
    /// The queue was empty; the driver should idle rather than busy-spin.
    Idle,
    /// The head process was stepped and observed this exit.
    Ran { pid: ProcessId, exit: ExitReason },
    /// The head process was blocked: re-enqueued without being stepped.
    Skipped { pid: ProcessId },
    /// The head process had already terminated and was dropped.
    Reaped { pid: ProcessId },
}

/// The ids of the queued processes, in queue order.
pub open spec fn sched_ids<B>(ps: Seq<Process<B>>) -> Seq<ProcessId> {
    ps.map_values(|p: Process<B>| p.id)
}

/// A process in this state gets stepped when its turn comes.
pub open spec fn runnable(st: ProcessState) -> bool {
    st is Ready || st is Running
}

/// The position of the first queued process with the given id, scanning
/// from position `i`.
pub open spec fn find_id<B>(ps: Seq<Process<B>>, pid: ProcessId, i: int) -> Option<int>
    decreases ps.len() - i,
{
    if i < 0 || i >= ps.len() {
        None
    } else if ps[i].id == pid {
        Some(i)
    } else {
        find_id(ps, pid, i + 1)
    }
}

/// Where the selection scan starts: the current process's position, or the
/// head of the queue when there is no current process.
pub open spec fn scan_start<B>(ps: Seq<Process<B>>, current: Option<ProcessId>) -> int {
    match current {
        Some(pid) => match find_id(ps, pid, 0) {
            Some(i) => i,
            None => 0,
        },
        None => 0,
    }
}

/// The first ready-or-running process at circular offsets `o ..= ps.len()`
/// after `start`: at most once around the full circular list.
pub open spec fn first_runnable<B>(ps: Seq<Process<B>>, start: int, o: int) -> Option<int>
    decreases ps.len() + 1 - o,
{
    if ps.len() == 0 || start < 0 || start >= ps.len() || o < 1 || o > ps.len() {
        None
    } else {
        let idx = if start + o < ps.len() {
            start + o
        } else {
            start + o - ps.len()
        };
        if runnable(ps[idx].state) {
            Some(idx)
        } else {
            first_runnable(ps, start, o + 1)
        }
    }
}

/// A successful `find_id` yields a position in range holding the id.
pub proof fn lemma_find_id_props<B>(ps: Seq<Process<B>>, pid: ProcessId, j: int, i: int)
    requires
        find_id(ps, pid, j) == Some(i),
    ensures
        j <= i < ps.len(),
        ps[i].id == pid,
    decreases ps.len() - j,
{
    if 0 <= j < ps.len() && ps[j].id != pid {
        lemma_find_id_props(ps, pid, j + 1, i);
    }
}

/// One cooperative turn moves the head of the queue to the tail.
pub open spec fn rotate(s: Seq<ProcessId>) -> Seq<ProcessId> {
    if s.len() == 0 {
        s
    } else {
        s.subrange(1, s.len() as int).push(s[0])
    }
}

/// `n` cooperative turns.
pub open spec fn rotate_n(s: Seq<ProcessId>, n: nat) -> Seq<ProcessId>
    decreases n,
{
    if n == 0 {
        s
    } else {
        rotate(rotate_n(s, (n - 1) as nat))
    }
}

/// Fairness of the cooperative loop. By `tick`'s contract, a turn whose step
/// does not halt rotates the id queue; after `k` such turns the queue is the
/// original queue split at `k`. So the process stepped on turn `k` is the
/// `k`-th originally queued one: in one full cycle every process is stepped
/// exactly once, in queue order, and none is skipped.
pub proof fn lemma_round_robin_cycle(s: Seq<ProcessId>, k: int)
    requires
        0 <= k <= s.len(),
    ensures
        rotate_n(s, k as nat) == s.subrange(k, s.len() as int) + s.subrange(0, k),
    decreases k,
{
    if k == 0 {
        assert(rotate_n(s, 0) =~= s.subrange(0, s.len() as int) + s.subrange(0, 0));
    } else {
        lemma_round_robin_cycle(s, k - 1);
        let r = rotate_n(s, (k - 1) as nat);
        assert(r[0] == s[k - 1]);
        assert(rotate_n(s, k as nat) == rotate(r));
        assert(rotate(r) =~= s.subrange(k, s.len() as int) + s.subrange(0, k));
    }
}

/// While every process keeps yielding, the head of the queue after `k` turns
/// is the `k`-th originally queued process: no process is passed over.
pub proof fn lemma_round_robin_head(s: Seq<ProcessId>, k: int)
    requires
        0 <= k < s.len(),
    ensures
        rotate_n(s, k as nat)[0] == s[k],
{
    lemma_round_robin_cycle(s, k);
}

/// A full cycle of yielding turns returns the queue to its original order:
/// each process appears in the schedule exactly once per cycle, giving every
/// process the same asymptotic share of turns.
pub proof fn lemma_round_robin_full_cycle(s: Seq<ProcessId>)
    ensures
        rotate_n(s, s.len()) == s,
{
    lemma_round_robin_cycle(s, s.len() as int);
    assert(rotate_n(s, s.len()) =~= s);
}

/// Termination is permanent: once a halted process's id has left the
/// schedulable set (as `tick` ensures on a `Halt`), no later turn brings it
/// back — rotation and head removal keep it out — and a later spawn cannot
/// reintroduce it, since every spawned id differs from the departed one.
pub proof fn lemma_terminated_stays_out(s: Seq<ProcessId>, p: ProcessId)
    requires
        !s.contains(p),
    ensures
        !rotate(s).contains(p),
        s.len() > 0 ==> !s.subrange(1, s.len() as int).contains(p),
        forall|q: ProcessId| q != p ==> !(#[trigger] s.push(q).contains(p)),
{
    assert forall|i: int| 0 <= i < rotate(s).len() implies rotate(s)[i] != p by {
        if s.len() > 0 {
            if i < s.len() - 1 {
                assert(rotate(s)[i] == s[i + 1]);
                if s[i + 1] == p {
                    assert(s.contains(p));
                }
            } else {
                assert(rotate(s)[i] == s[0]);
                if s[0] == p {
                    assert(s.contains(p));
                }
            }
        }
    }
    if s.len() > 0 {
        assert forall|i: int| 0 <= i < s.len() - 1 implies s.subrange(1, s.len() as int)[i]
            != p by {
            if s[i + 1] == p {
                assert(s.contains(p));
            }
        }
    }
    assert forall|q: ProcessId| q != p implies !(#[trigger] s.push(q).contains(p)) by {
        assert forall|i: int| 0 <= i < s.push(q).len() implies s.push(q)[i] != p by {
            if i < s.len() {
                if s[i] == p {
                    assert(s.contains(p));
                }
            }
        }
    }
}

/// Any number of further yielding turns keeps a departed id out: rotation
/// never reintroduces an id the queue does not hold. Together with the
/// single-turn statement above, a process retired on its first step is
/// absent from the schedulable set on every subsequent turn.
pub proof fn lemma_terminated_stays_out_forever(s: Seq<ProcessId>, p: ProcessId, n: nat)
    requires
        !s.contains(p),
    ensures
        !rotate_n(s, n).contains(p),
    decreases n,
{
    if n > 0 {
        lemma_terminated_stays_out_forever(s, p, (n - 1) as nat);
        lemma_terminated_stays_out(rotate_n(s, (n - 1) as nat), p);
    }
}

/// The round-robin scheduler. Driven by exactly one thread; processes never
/// run in parallel with each other inside the scheduling loop.
pub struct Scheduler<B> {
    pub processes: Vec<Process<B>>,
    pub next_pid: ProcessId,
    pub current_pid: Option<ProcessId>,
}

impl<B: Backend> Scheduler<B> {
    /// Queued ids are all below `next_pid` (so a fresh id can never collide)
    /// and pairwise distinct.
    pub open spec fn wf(&self) -> bool {
        &&& forall|i: int|
            0 <= i < self.processes@.len() ==> #[trigger] self.processes@[i].id < self.next_pid
        &&& forall|i: int, j: int|
            0 <= i < j < self.processes@.len() ==> self.processes@[i].id != self.processes@[j].id
        &&& forall|i: int|
            0 <= i < self.processes@.len() ==> (#[trigger] self.processes@[i].backend).inv()
    }

    /// An empty scheduler; the first spawned process gets id 1.
    pub fn new() -> (r: Scheduler<B>)
        ensures
            r.wf(),
            r.processes@.len() == 0,
            r.next_pid == 1,
            r.current_pid is None,
    {
        Scheduler { processes: Vec::new(), next_pid: 1, current_pid: None }
    }

    /// Wraps a backend in a `Ready` process with the next identifier and a
    /// fresh kernel stack, and appends it at the tail of the queue. The
    /// stack grows down, so the initial stack pointer is the 16-byte-aligned
    /// top of the stack buffer.
    pub fn spawn(&mut self, backend: B) -> (pid: ProcessId)
        requires
            old(self).wf(),
            old(self).next_pid < u64::MAX,
            backend.inv(),
        ensures
            final(self).wf(),
            pid == old(self).next_pid,
            final(self).next_pid == old(self).next_pid + 1,
            final(self).current_pid == old(self).current_pid,
            final(self).processes@.len() == old(self).processes@.len() + 1,
            forall|i: int|
                0 <= i < old(self).processes@.len() ==> final(self).processes@[i] == old(
                    self,
                ).processes@[i],
            final(self).processes@.last().id == pid,
            final(self).processes@.last().backend == backend,
            final(self).processes@.last().state is Ready,
            final(self).processes@.last().stack@.len() == STACK_SIZE,
            final(self).processes@.last().stack_pointer == STACK_SIZE,
    {
        let pid = self.next_pid;
        self.next_pid = self.next_pid + 1;

        let mut stack: Vec<u8> = Vec::new();
        let mut i: usize = 0;
        while i < STACK_SIZE
            invariant
                i <= STACK_SIZE,
                stack@.len() == i,
            decreases STACK_SIZE - i,
        {
            stack.push(0u8);
            i = i + 1;
        }

        // STACK_SIZE is 16-byte aligned, so the top of the stack already is.
        let stack_pointer = STACK_SIZE;

        self.processes.push(
            Process { id: pid, backend, state: ProcessState::Ready, stack, stack_pointer },
        );
        pid
    }

    /// One turn of the cooperative loop: pop the head of the queue; step it
    /// if it is ready or running, re-enqueuing it at the tail unless the
    /// step reported `Halt`, in which case the process is retired and its id
    /// leaves the schedulable set; re-enqueue a blocked head without
    /// stepping; drop a head that had already terminated.
    pub fn tick(&mut self) -> (r: TickOutcome)
        requires
            old(self).wf(),
        ensures
            final(self).wf(),
            final(self).next_pid == old(self).next_pid,
            final(self).current_pid == old(self).current_pid,
            (r is Idle) <==> old(self).processes@.len() == 0,
            r is Idle ==> final(self).processes@ == old(self).processes@,
            old(self).processes@.len() > 0 ==> {
                let head = old(self).processes@[0];
                let rest = old(self).processes@.subrange(1, old(self).processes@.len() as int);
                match r {
                    TickOutcome::Idle => false,
                    TickOutcome::Ran { pid, exit } => {
                        &&& runnable(head.state)
                        &&& pid == head.id
                        &&& (exit is Halt ==> final(self).processes@ == rest && !sched_ids(
                            final(self).processes@,
                        ).contains(pid))
                        &&& (!(exit is Halt) ==> {
                            &&& final(self).processes@.len() == old(self).processes@.len()
                            &&& forall|i: int|
                                0 <= i < rest.len() ==> final(self).processes@[i] == rest[i]
                            &&& final(self).processes@.last().id == head.id
                            &&& final(self).processes@.last().state is Ready
                            &&& final(self).processes@.last().stack == head.stack
                            &&& final(self).processes@.last().stack_pointer == head.stack_pointer
                            &&& sched_ids(final(self).processes@) == rotate(
                                sched_ids(old(self).processes@),
                            )
                        })
                    },
                    TickOutcome::Skipped { pid } => {
                        &&& head.state is Blocked
                        &&& pid == head.id
                        &&& final(self).processes@ == rest.push(head)
                        &&& sched_ids(final(self).processes@) == rotate(
                            sched_ids(old(self).processes@),
                        )
                    },
                    TickOutcome::Reaped { pid } => {
                        &&& head.state is Terminated
                        &&& pid == head.id
                        &&& final(self).processes@ == rest
                    },
                }
            },
    {
        if self.processes.len() == 0 {
            return TickOutcome::Idle;
        }
        let ghost old_ps = self.processes@;
        let mut p = self.processes.remove(0);
        let pid = p.id;
        match p.state {
            ProcessState::Ready | ProcessState::Running => {
                p.state = ProcessState::Running;
                let exit = p.backend.step();
                if let ExitReason::Halt = exit {
                    // Retired: the process is dropped, its id leaves the set.
                    proof {
                        self.lemma_tail_wf(old_ps);
                        assert forall|k: int|
                            0 <= k < sched_ids(self.processes@).len() implies sched_ids(
                            self.processes@,
                        )[k] != pid by {
                            assert(self.processes@[k] == old_ps[k + 1]);
                        }
                    }
                    TickOutcome::Ran { pid, exit }
                } else {
                    p.state = ProcessState::Ready;
                    self.processes.push(p);
                    proof {
                        self.lemma_requeue_wf(old_ps);
                        assert(sched_ids(self.processes@) =~= rotate(sched_ids(old_ps)));
                    }
                    TickOutcome::Ran { pid, exit }
                }
            },
            ProcessState::Blocked => {
                self.processes.push(p);
                proof {
                    self.lemma_requeue_wf(old_ps);
                    assert(self.processes@ =~= old_ps.subrange(1, old_ps.len() as int).push(
                        old_ps[0],
                    ));
                    assert(sched_ids(self.processes@) =~= rotate(sched_ids(old_ps)));
                }
                TickOutcome::Skipped { pid }
            },
            ProcessState::Terminated => {
                proof {
                    self.lemma_tail_wf(old_ps);
                }
                TickOutcome::Reaped { pid }
            },
        }
    }

    /// The queue position of the process with the given id, if any.
    fn position_of(&self, pid: ProcessId) -> (r: Option<usize>)
        ensures
            match r {
                Some(u) => find_id(self.processes@, pid, 0) == Some(u as int),
                None => find_id(self.processes@, pid, 0) is None,
            },
    {
        let n = self.processes.len();
        let mut i: usize = 0;
        while i < n
            invariant
                i <= n,
                n == self.processes@.len(),
                find_id(self.processes@, pid, 0) == find_id(self.processes@, pid, i as int),
            decreases n - i,
        {
            if self.processes[i].id == pid {
                return Some(i);
            }
            i = i + 1;
        }
        None
    }

    /// The round-robin selection used by the preemptive variant: scan
    /// forward from the current process's position, at most once around the
    /// circular list, for the next ready-or-running process. Returns the id
    /// to switch to, or `None` when there is no candidate — or when the only
    /// candidate is the process already running, so that a single-guest
    /// configuration pays no pointless context-switch overhead; the caller
    /// treats `None` as "keep running the current process".
    pub fn schedule(&mut self) -> (r: Option<ProcessId>)
        ensures
            final(self).processes@ == old(self).processes@,
            final(self).next_pid == old(self).next_pid,
            ({
                let ps = old(self).processes@;
                let sel = first_runnable(ps, scan_start(ps, old(self).current_pid), 1);
                match sel {
                    None => r is None && final(self).current_pid == old(self).current_pid,
                    Some(idx) => {
                        if old(self).current_pid == Some(ps[idx].id) {
                            r is None && final(self).current_pid == old(self).current_pid
                        } else {
                            r == Some(ps[idx].id) && final(self).current_pid == Some(ps[idx].id)
                        }
                    },
                }
            }),
    {
        let n = self.processes.len();
        if n == 0 {
            return None;
        }
        let start: usize = match self.current_pid {
            Some(pid) => match self.position_of(pid) {
                Some(i) => {
                    proof {
                        lemma_find_id_props(self.processes@, pid, 0, i as int);
                    }
                    i
                },
                None => 0,
            },
            None => 0,
        };
        let ghost ps = self.processes@;
        let mut k: usize = 0;
        while k < n
            invariant
                k <= n,
                n == self.processes@.len(),
                n > 0,
                start < n,
                ps == self.processes@,
                ps == old(self).processes@,
                self.current_pid == old(self).current_pid,
                self.next_pid == old(self).next_pid,
                start as int == scan_start(ps, old(self).current_pid),
                first_runnable(ps, start as int, 1) == first_runnable(
                    ps,
                    start as int,
                    k + 1 as int,
                ),
            decreases n - k,
        {
            let o = k + 1;
            let idx = if o < n - start {
                start + o
            } else {
                o - (n - start)
            };
            let st = self.processes[idx].state;
            if st == ProcessState::Ready || st == ProcessState::Running {
                let next_pid = self.processes[idx].id;
                if let Some(curr) = self.current_pid {
                    if curr == next_pid {
                        return None;
                    }
                }
                self.current_pid = Some(next_pid);
                return Some(next_pid);
            }
            k = o;
        }
        None
    }

    /// Looks a process up by id for mutation, as the embedding driver does
    /// to adjust a process's state. Nothing else about the scheduler
    /// changes; what the caller writes through the reference is its own
    /// responsibility.
    pub fn get_process_mut(&mut self, pid: ProcessId) -> (r: Option<&mut Process<B>>)
        ensures
            match find_id(old(self).processes@, pid, 0) {
                Some(i) => match r {
                    Some(pr) => {
                        &&& *pr == old(self).processes@[i]
                        &&& final(self).processes@ == old(self).processes@.update(i, *final(pr))
                        &&& final(self).next_pid == old(self).next_pid
                        &&& final(self).current_pid == old(self).current_pid
                    },
                    None => false,
                },
                None => r is None && *final(self) == *old(self),
            },
    {
        match self.position_of(pid) {
            Some(i) => {
                proof {
                    lemma_find_id_props(self.processes@, pid, 0, i as int);
                }
                Some(&mut self.processes[i])
            },
            None => None,
        }
    }

    /// After removing the head, the remaining queue is still well formed.
    proof fn lemma_tail_wf(&self, old_ps: Seq<Process<B>>)
        requires
            old_ps.len() > 0,
            self.processes@ == old_ps.subrange(1, old_ps.len() as int),
            forall|i: int| 0 <= i < old_ps.len() ==> #[trigger] old_ps[i].id < self.next_pid,
            forall|i: int, j: int| 0 <= i < j < old_ps.len() ==> old_ps[i].id != old_ps[j].id,
            forall|i: int| 0 <= i < old_ps.len() ==> (#[trigger] old_ps[i].backend).inv(),
        ensures
            self.wf(),
    {
        assert forall|i: int|
            0 <= i < self.processes@.len() implies (#[trigger] self.processes@[i].backend).inv() by {
            assert(self.processes@[i] == old_ps[i + 1]);
        }
        assert forall|i: int|
            0 <= i < self.processes@.len() implies #[trigger] self.processes@[i].id
            < self.next_pid by {
            assert(self.processes@[i] == old_ps[i + 1]);
        }
        assert forall|i: int, j: int|
            0 <= i < j < self.processes@.len() implies self.processes@[i].id
            != self.processes@[j].id by {
            assert(self.processes@[i] == old_ps[i + 1]);
            assert(self.processes@[j] == old_ps[j + 1]);
        }
    }

    /// Rotating the head to the tail (with any state or backend change that
    /// keeps its id) preserves well-formedness.
    proof fn lemma_requeue_wf(&self, old_ps: Seq<Process<B>>)
        requires
            old_ps.len() > 0,
            self.processes@.len() == old_ps.len(),
            forall|i: int|
                0 <= i < old_ps.len() - 1 ==> #[trigger] self.processes@[i] == old_ps[i + 1],
            self.processes@.last().id == old_ps[0].id,
            self.processes@.last().backend.inv(),
            forall|i: int| 0 <= i < old_ps.len() ==> #[trigger] old_ps[i].id < self.next_pid,
            forall|i: int, j: int| 0 <= i < j < old_ps.len() ==> old_ps[i].id != old_ps[j].id,
            forall|i: int| 0 <= i < old_ps.len() ==> (#[trigger] old_ps[i].backend).inv(),
        ensures
            self.wf(),
    {
        assert forall|i: int|
            0 <= i < self.processes@.len() implies (#[trigger] self.processes@[i].backend).inv() by {
            if i < old_ps.len() - 1 {
                assert(self.processes@[i] == old_ps[i + 1]);
            } else {
                assert(self.processes@[i] == self.processes@.last());
            }
        }
        let n = old_ps.len() as int;
        assert forall|i: int|
            0 <= i < self.processes@.len() implies #[trigger] self.processes@[i].id
            < self.next_pid by {
            if i < n - 1 {
                assert(self.processes@[i] == old_ps[i + 1]);
            } else {
                assert(self.processes@[i].id == old_ps[0].id);
            }
        }
        assert forall|i: int, j: int|
            0 <= i < j < self.processes@.len() implies self.processes@[i].id
            != self.processes@[j].id by {
            if j < n - 1 {
                assert(self.processes@[i] == old_ps[i + 1]);
                assert(self.processes@[j] == old_ps[j + 1]);
            } else {
                assert(self.processes@[i] == old_ps[i + 1]);
                assert(self.processes@[j].id == old_ps[0].id);
            }
        }
    }
}

} // verus!
