//! The scheduler: a fixed pool of contexts, the slot that currently owns
//! control, and the operations that move contexts through their lifecycle.
//!
//! The scheduler never touches registers or stack memory itself. Where the
//! live flow of control would switch contexts, an operation here updates
//! the pool's states and returns a [`SwitchAction`] naming the two register
//! files an unverified caller must pass to the switch primitive; where a task
//! is spawned, it returns a [`SpawnPlan`] naming the slot and the bootstrap
//! frame addresses the caller must fill in.

use vstd::prelude::*;

verus! {

use crate::context::{Thread, ThreadState};
use crate::stack::{build_layout, frame_rsp, frame_top, valid_stack_base, StackLayout};

/// The one recoverable failure of the scheduler: a spawn found no
/// `Available` slot. The pool was sized too small for its workload.
#[derive(Clone, Copy, PartialEq, Eq, Structural, Debug)]
pub enum RuntimeError {
    ResourceExhausted,
}

/// A context switch the scheduler has decided on: save the register file of
/// slot `from`, restore the register file of slot `to`, and return on the
/// restored stack.
#[derive(Clone, Copy, PartialEq, Eq, Structural, Debug)]
pub struct SwitchAction {
    /// The slot that gives up control; its registers are to be saved.
    pub from: usize,
    /// The slot that receives control; its registers are to be restored.
    pub to: usize,
}

/// Everything a successful spawn asks its caller to carry out: the slot that
/// was claimed and the bootstrap slots to fill on that slot's stack.
#[derive(Clone, Copy, PartialEq, Eq, Structural, Debug)]
pub struct SpawnPlan {
    /// The formerly `Available` slot the task was placed in.
    pub slot: usize,
    /// Addresses of the three bootstrap slots on the claimed stack.
    pub layout: StackLayout,
}

/// Steps from `from` to `to` when walking the pool circularly upwards.
/// Zero exactly when the two slots coincide, and always below `n`.
pub open spec fn cdist(n: int, from: int, to: int) -> int {
    if to >= from {
        to - from
    } else {
        to - from + n
    }
}

/// What a yield does to the state of the slot that gives up control: a
/// running context is demoted to `Ready`; one that already returned (and so
/// stands `Available`) is left that way.
pub open spec fn demote(s: ThreadState) -> ThreadState {
    if s is Available {
        ThreadState::Available
    } else {
        ThreadState::Ready
    }
}

/// Slot `p` is the round-robin choice from `cur`: it is `Ready`, and no
/// other `Ready` slot comes earlier in the circular walk that starts just
/// after `cur`.
pub open spec fn is_next_ready(s: Seq<ThreadState>, cur: int, p: int) -> bool {
    &&& 0 <= p < s.len()
    &&& p != cur
    &&& s[p] is Ready
    &&& forall|q: int|
        0 <= q < s.len() && q != cur && (#[trigger] s[q]) is Ready ==> cdist(
            s.len() as int,
            cur,
            p,
        ) <= cdist(s.len() as int, cur, q)
}

/// No slot other than `cur` is `Ready`: the scheduler has no work.
pub open spec fn no_ready_other(s: Seq<ThreadState>, cur: int) -> bool {
    forall|q: int| 0 <= q < s.len() && q != cur ==> !((#[trigger] s[q]) is Ready)
}

/// Slot `p` is the lowest `Available` slot.
pub open spec fn first_available(s: Seq<ThreadState>, p: int) -> bool {
    &&& 0 <= p < s.len()
    &&& s[p] is Available
    &&& forall|j: int| 0 <= j < p ==> !((#[trigger] s[j]) is Available)
}

/// No slot is `Available`: the pool is exhausted.
pub open spec fn no_available(s: Seq<ThreadState>) -> bool {
    forall|j: int| 0 <= j < s.len() ==> !((#[trigger] s[j]) is Available)
}

/// The pool and the slot that currently owns control. Slot 0 stands for the
/// caller's own stack — the driver — and is never handed to a task.
pub struct RunTime {
    /// The fixed pool; its length never changes after construction.
    pub threads: Vec<Thread>,
    /// Index of the slot that owns control.
    pub current: usize,
}

impl RunTime {
    /// Number of slots in the pool.
    pub open spec fn size(&self) -> int {
        self.threads@.len() as int
    }

    /// The lifecycle states of the pool, slot by slot.
    pub open spec fn states(&self) -> Seq<ThreadState> {
        self.threads@.map_values(|t: Thread| t.state)
    }

    /// The scheduler's invariant: the pool is nonempty, `current` is in
    /// range, every slot knows its own index and a usable stack base, only
    /// the current slot can be `Running`, and the driver slot is never
    /// offered to a spawn.
    pub open spec fn wf(&self) -> bool {
        &&& 1 <= self.size()
        &&& (self.current as int) < self.size()
        &&& forall|i: int| 0 <= i < self.size() ==> (#[trigger] self.threads@[i]).id == i
        &&& forall|i: int|
            0 <= i < self.size() ==> valid_stack_base(
                (#[trigger] self.threads@[i]).stack_base as int,
            )
        &&& forall|i: int|
            0 <= i < self.size() && (#[trigger] self.threads@[i]).state is Running ==> i
                == self.current
        &&& !(self.threads@[0].state is Available)
    }

    /// Builds the pool over the given stack buffers, one slot per base
    /// address. Every slot starts `Available` with zeroed registers, except
    /// slot 0, which stands for the driver's own call stack and starts
    /// `Running`.
    pub fn new(stack_bases: Vec<usize>) -> (rt: RunTime)
        requires
            stack_bases@.len() >= 1,
            forall|i: int|
                0 <= i < stack_bases@.len() ==> valid_stack_base(
                    (#[trigger] stack_bases@[i]) as int,
                ),
        ensures
            rt.wf(),
            rt.size() == stack_bases@.len(),
            rt.current == 0,
            rt.states()[0] is Running,
            forall|i: int| 1 <= i < rt.size() ==> (#[trigger] rt.states()[i]) is Available,
            forall|i: int|
                0 <= i < rt.size() ==> (#[trigger] rt.threads@[i]).stack_base == stack_bases@[i]
                    && rt.threads@[i].ctx.is_zeroed(),
    {
        let n = stack_bases.len();
        let mut threads: Vec<Thread> = Vec::new();
        let mut i: usize = 0;
        while i < n
            invariant
                i <= n,
                n == stack_bases@.len(),
                threads@.len() == i as int,
                forall|j: int|
                    0 <= j < stack_bases@.len() ==> valid_stack_base(
                        (#[trigger] stack_bases@[j]) as int,
                    ),
                forall|j: int| 0 <= j < i ==> (#[trigger] threads@[j]).id == j,
                forall|j: int|
                    0 <= j < i ==> (#[trigger] threads@[j]).stack_base == stack_bases@[j],
                forall|j: int| 0 <= j < i ==> (#[trigger] threads@[j]).ctx.is_zeroed(),
                forall|j: int|
                    1 <= j < i ==> (#[trigger] threads@[j]).state is Available,
                i > 0 ==> threads@[0].state is Running,
            decreases n - i,
        {
            let mut t = Thread::new(i, stack_bases[i]);
            if i == 0 {
                t.state = ThreadState::Running;
            }
            threads.push(t);
            i = i + 1;
        }
        RunTime { threads, current: 0 }
    }

    /// The lowest `Available` slot, or `None` when the pool is exhausted.
    pub fn find_available(&self) -> (r: Option<usize>)
        ensures
            match r {
                Some(i) => first_available(self.states(), i as int),
                None => no_available(self.states()),
            },
    {
        let n = self.threads.len();
        let mut i: usize = 0;
        while i < n
            invariant
                i <= n,
                n == self.size(),
                forall|j: int| 0 <= j < i ==> !((#[trigger] self.states()[j]) is Available),
            decreases n - i,
        {
            if self.threads[i].state == ThreadState::Available {
                return Some(i);
            }
            i = i + 1;
        }
        None
    }

    /// The round-robin pick: walking circularly upwards from just after
    /// `current`, the first `Ready` slot; `None` when no other slot is
    /// `Ready`, which is the scheduler's "no work remaining".
    pub fn pick_next(&self) -> (r: Option<usize>)
        requires
            self.wf(),
        ensures
            match r {
                Some(p) => is_next_ready(self.states(), self.current as int, p as int),
                None => no_ready_other(self.states(), self.current as int),
            },
    {
        let n = self.threads.len();
        let cur = self.current;
        let mut pos = cur;
        let mut k: usize = 0;
        while k + 1 < n
            invariant
                self.wf(),
                n == self.size(),
                cur == self.current,
                k < n,
                pos < n,
                cdist(n as int, cur as int, pos as int) == k as int,
                forall|q: int|
                    0 <= q < n && q != cur && 1 <= cdist(n as int, cur as int, q) <= k
                        ==> !((#[trigger] self.states()[q]) is Ready),
            decreases n - k,
        {
            pos = if pos + 1 == n {
                0
            } else {
                pos + 1
            };
            k = k + 1;
            if self.threads[pos].state == ThreadState::Ready {
                return Some(pos);
            }
        }
        None
    }

    /// Claims the lowest `Available` slot for a task: the slot is marked
    /// `Ready`, its saved stack pointer is aimed at the bootstrap frame, and
    /// the plan names the slot and the frame addresses. Fails with
    /// `ResourceExhausted`, changing nothing, exactly when no slot is
    /// `Available`. Because the driver slot is never `Available`, a spawn
    /// never claims slot 0.
    pub fn spawn_task(&mut self) -> (r: Result<SpawnPlan, RuntimeError>)
        requires
            old(self).wf(),
        ensures
            final(self).wf(),
            final(self).size() == old(self).size(),
            final(self).current == old(self).current,
            match r {
                Ok(plan) => {
                    &&& first_available(old(self).states(), plan.slot as int)
                    &&& plan.slot != 0
                    &&& final(self).states() == old(self).states().update(
                        plan.slot as int,
                        ThreadState::Ready,
                    )
                    &&& plan.layout.completion_slot == frame_top(
                        old(self).threads@[plan.slot as int].stack_base as int,
                    ) - 16
                    &&& plan.layout.guard_slot == frame_top(
                        old(self).threads@[plan.slot as int].stack_base as int,
                    ) - 24
                    &&& plan.layout.entry_slot == frame_rsp(
                        old(self).threads@[plan.slot as int].stack_base as int,
                    )
                    &&& final(self).threads@[plan.slot as int].ctx.rsp
                        == plan.layout.entry_slot
                    &&& final(self).threads@[plan.slot as int].id
                        == old(self).threads@[plan.slot as int].id
                    &&& final(self).threads@[plan.slot as int].stack_base
                        == old(self).threads@[plan.slot as int].stack_base
                    &&& forall|i: int|
                        0 <= i < old(self).size() && i != plan.slot
                            ==> #[trigger] final(self).threads@[i] == old(self).threads@[i]
                },
                Err(e) => {
                    &&& e == RuntimeError::ResourceExhausted
                    &&& final(self).threads@ == old(self).threads@
                    &&& no_available(old(self).states())
                },
            },
    {
        match self.find_available() {
            None => Err(RuntimeError::ResourceExhausted),
            Some(slot) => {
                proof {
                    assert(self.states()[slot as int] is Available);
                    assert(slot != 0);
                }
                let base = self.threads[slot].stack_base;
                let layout = build_layout(base);
                self.threads[slot].ctx.rsp = layout.entry_slot;
                self.threads[slot].state = ThreadState::Ready;
                proof {
                    assert(self.states() =~= old(self).states().update(
                        slot as int,
                        ThreadState::Ready,
                    ));
                }
                Ok(SpawnPlan { slot, layout })
            },
        }
    }

    /// One scheduling step: picks the round-robin successor, demotes the
    /// slot that owns control (a running context becomes `Ready`; one whose
    /// task already returned stays `Available`), marks the pick `Running`,
    /// moves `current` to it, and returns the switch to carry out. Returns
    /// `None` and changes nothing exactly when no other slot is `Ready`.
    pub fn yield_out(&mut self) -> (r: Option<SwitchAction>)
        requires
            old(self).wf(),
        ensures
            final(self).wf(),
            final(self).size() == old(self).size(),
            match r {
                None => {
                    &&& final(self).threads@ == old(self).threads@
                    &&& final(self).current == old(self).current
                    &&& no_ready_other(old(self).states(), old(self).current as int)
                },
                Some(a) => {
                    &&& a.from == old(self).current
                    &&& is_next_ready(old(self).states(), old(self).current as int, a.to as int)
                    &&& final(self).current == a.to
                    &&& final(self).states() == old(self).states().update(
                        a.from as int,
                        demote(old(self).states()[a.from as int]),
                    ).update(a.to as int, ThreadState::Running)
                    &&& forall|i: int|
                        0 <= i < old(self).size() ==> (#[trigger] final(self).threads@[i]).ctx
                            == old(self).threads@[i].ctx
                            && final(self).threads@[i].id == old(self).threads@[i].id
                            && final(self).threads@[i].stack_base
                                == old(self).threads@[i].stack_base
                },
            },
    {
        match self.pick_next() {
            None => None,
            Some(pos) => {
                let cur = self.current;
                if self.threads[cur].state != ThreadState::Available {
                    self.threads[cur].state = ThreadState::Ready;
                }
                self.current = pos;
                self.threads[pos].state = ThreadState::Running;
                proof {
                    assert(self.states() =~= old(self).states().update(
                        cur as int,
                        demote(old(self).states()[cur as int]),
                    ).update(pos as int, ThreadState::Running));
                }
                Some(SwitchAction { from: cur, to: pos })
            },
        }
    }

    /// What the completion trampoline runs when a task body returns: unless
    /// control sits on the driver slot, the current slot is released back to
    /// `Available` and control is switched onward to the round-robin
    /// successor. On the driver slot it does nothing.
    pub fn ret(&mut self) -> (r: Option<SwitchAction>)
        requires
            old(self).wf(),
        ensures
            final(self).wf(),
            final(self).size() == old(self).size(),
            old(self).current == 0 ==> r is None && final(self).threads@ == old(self).threads@
                && final(self).current == old(self).current,
            old(self).current != 0 ==> {
                let freed = old(self).states().update(
                    old(self).current as int,
                    ThreadState::Available,
                );
                match r {
                    None => {
                        &&& final(self).states() == freed
                        &&& final(self).current == old(self).current
                        &&& no_ready_other(freed, old(self).current as int)
                    },
                    Some(a) => {
                        &&& a.from == old(self).current
                        &&& is_next_ready(freed, old(self).current as int, a.to as int)
                        &&& final(self).current == a.to
                        &&& final(self).states() == freed.update(a.to as int, ThreadState::Running)
                    },
                }
            },
    {
        if self.current == 0 {
            return None;
        }
        let cur = self.current;
        self.threads[cur].state = ThreadState::Available;
        proof {
            assert(self.states() =~= old(self).states().update(
                cur as int,
                ThreadState::Available,
            ));
        }
        let r = self.yield_out();
        proof {
            let freed = old(self).states().update(cur as int, ThreadState::Available);
            if r is Some {
                let a = r->Some_0;
                assert(freed.update(a.from as int, demote(freed[a.from as int])) =~= freed);
            }
        }
        r
    }
}

/// Round-robin order is strict: of two `Ready` slots the scheduler prefers
/// the one fewer circular steps after the current slot, and two slots never
/// tie, so the pick of `pick_next` is the unique first `Ready` slot in
/// ascending circular order.
pub proof fn lemma_pick_unique(s: Seq<ThreadState>, cur: int, p: int, q: int)
    requires
        is_next_ready(s, cur, p),
        is_next_ready(s, cur, q),
    ensures
        p == q,
{
    assert(cdist(s.len() as int, cur, p) == cdist(s.len() as int, cur, q));
}

/// Slot reuse: whenever some slot stands `Available` — in particular after a
/// completed task's slot was released — the pool has a lowest `Available`
/// slot, no later than the freed one, so a further spawn cannot fail.
/// Successful spawns may therefore accumulate beyond the pool size exactly
/// because earlier tasks finished and released their slots.
pub proof fn lemma_slot_reuse(s: Seq<ThreadState>, i: int)
    requires
        0 <= i < s.len(),
        s[i] is Available,
    ensures
        exists|p: int| first_available(s, p) && p <= i,
        !no_available(s),
    decreases i,
{
    if forall|j: int| 0 <= j < i ==> !((#[trigger] s[j]) is Available) {
        assert(first_available(s, i) && i <= i);
    } else {
        let j = choose|j: int| 0 <= j < i && (#[trigger] s[j]) is Available;
        lemma_slot_reuse(s, j);
        let p = choose|p: int| first_available(s, p) && p <= j;
        assert(first_available(s, p) && p <= i);
    }
}

} // verus!
