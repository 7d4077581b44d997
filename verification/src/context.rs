//! One schedulable execution context: a saved register file, the base address
//! of its pinned stack buffer, and a lifecycle state.

use vstd::prelude::*;

verus! {

/// Lifecycle of a context. The only legal transitions are
/// `Available -> Ready` (spawn), `Ready -> Running` (scheduler pick),
/// `Running -> Ready` (voluntary yield) and `Running -> Available`
/// (task body returned).
#[derive(Clone, Copy, PartialEq, Eq, Structural, Debug)]
pub enum ThreadState {
    /// The slot holds no task and may be claimed by a spawn.
    Available,
    /// The context owns the flow of control right now.
    Running,
    /// The context is suspended and waiting to be picked.
    Ready,
}

/// A saved register file: the stack pointer plus the callee-saved
/// general-purpose registers of the x86-64 System V calling convention.
/// Caller-saved registers need no slot here: the convention already
/// protects them around the call into the switch routine.
#[derive(Clone, Copy, PartialEq, Eq, Structural, Debug)]
pub struct ThreadContext {
    pub rsp: usize,
    pub r15: usize,
    pub r14: usize,
    pub r13: usize,
    pub r12: usize,
    pub rbx: usize,
    pub rbp: usize,
}

impl ThreadContext {
    /// Every saved register is zero, the state of a context that was never run.
    pub open spec fn is_zeroed(&self) -> bool {
        &&& self.rsp == 0
        &&& self.r15 == 0
        &&& self.r14 == 0
        &&& self.r13 == 0
        &&& self.r12 == 0
        &&& self.rbx == 0
        &&& self.rbp == 0
    }
}

impl Default for ThreadContext {
    fn default() -> (c: ThreadContext)
        ensures
            c.is_zeroed(),
    {
        ThreadContext { rsp: 0, r15: 0, r14: 0, r13: 0, r12: 0, rbx: 0, rbp: 0 }
    }
}

/// One green thread. The stack buffer itself lives outside the scheduler,
/// pinned for the whole lifetime of the pool; the scheduler knows it only
/// by its base address, which never changes.
#[derive(Clone, Copy, PartialEq, Eq, Structural, Debug)]
pub struct Thread {
    /// Index of this context in the pool.
    pub id: usize,
    /// Base address of the pinned, downward-growing stack buffer.
    pub stack_base: usize,
    /// The register file saved when this context last gave up control.
    pub ctx: ThreadContext,
    /// Where this context stands in its lifecycle.
    pub state: ThreadState,
}

impl Thread {
    /// A fresh context: zeroed registers, `Available`, remembering the
    /// base address of the stack buffer it will run on.
    pub fn new(id: usize, stack_base: usize) -> (t: Thread)
        ensures
            t.id == id,
            t.stack_base == stack_base,
            t.ctx.is_zeroed(),
            t.state is Available,
    {
        Thread { id, stack_base, ctx: ThreadContext::default(), state: ThreadState::Available }
    }
}

} // verus!
