//! Layout of the bootstrap frame on a fresh task stack.
//!
//! The switch routine always ends in a return instruction, so a context can
//! only ever be entered by "returning into" it. A freshly spawned task has
//! never yielded, so its stack must be prepared by hand: below the 16-byte
//! aligned top of the buffer sit three machine-word slots holding, from
//! highest to lowest, the address of the completion trampoline (reached when
//! the task body returns), the address of a no-op immediate-return
//! trampoline, and the address of the task entry point. With the saved stack
//! pointer aimed at the lowest slot, the very first resume and every
//! resume-after-yield go through one and the same return-based mechanism.

use vstd::prelude::*;

verus! {

/// Size in bytes of every stack buffer in the pool.
pub const STACK_SIZE: usize = 4 * 1024 * 1024;

/// `x` rounded down to a 16-byte boundary.
pub open spec fn align16_down(x: int) -> int {
    x - (x % 16)
}

/// The aligned top of a stack buffer that starts at `base`: one past the
/// buffer, rounded down so nested calls keep the alignment the calling
/// convention demands.
pub open spec fn frame_top(base: int) -> int {
    align16_down(base + STACK_SIZE)
}

/// The stack pointer a bootstrapped context starts from: the lowest of the
/// three bootstrap slots.
pub open spec fn frame_rsp(base: int) -> int {
    frame_top(base) - 32
}

/// A buffer at `base` is usable as a task stack: computing addresses one
/// past its end stays within the address space.
pub open spec fn valid_stack_base(base: int) -> bool {
    base + STACK_SIZE <= usize::MAX
}

/// The addresses of the three bootstrap slots inside one stack buffer.
/// The caller writes the completion trampoline, the immediate-return
/// trampoline and the task entry point at these addresses, highest first.
#[derive(Clone, Copy, PartialEq, Eq, Structural, Debug)]
pub struct StackLayout {
    /// Where the address of the completion trampoline goes.
    pub completion_slot: usize,
    /// Where the address of the no-op immediate-return trampoline goes.
    pub guard_slot: usize,
    /// Where the address of the task entry point goes; also the initial
    /// saved stack pointer of the context.
    pub entry_slot: usize,
}

/// Computes the bootstrap frame of the stack buffer at `base`: the aligned
/// top and, descending from it, the three word slots. The whole frame lies
/// inside the buffer, and both the top and the initial stack pointer are
/// 16-byte aligned.
pub fn build_layout(base: usize) -> (f: StackLayout)
    requires
        valid_stack_base(base as int),
    ensures
        f.completion_slot == frame_top(base as int) - 16,
        f.guard_slot == frame_top(base as int) - 24,
        f.entry_slot == frame_rsp(base as int),
        frame_top(base as int) % 16 == 0,
        f.entry_slot % 16 == 0,
        base <= f.entry_slot,
        frame_top(base as int) <= base + STACK_SIZE,
{
    let top: usize = base + STACK_SIZE;
    let aligned: usize = top - top % 16;
    proof {
        assert(aligned == 16 * ((top as int) / 16));
        assert(aligned % 16 == 0) by {
            vstd::arithmetic::div_mod::lemma_mod_multiples_basic((top as int) / 16, 16);
        }
        assert((aligned - 32) % 16 == 0) by {
            vstd::arithmetic::div_mod::lemma_mod_multiples_basic((top as int) / 16 - 2, 16);
            assert(aligned - 32 == 16 * ((top as int) / 16 - 2));
        }
    }
    StackLayout { completion_slot: aligned - 16, guard_slot: aligned - 24, entry_slot: aligned - 32 }
}

} // verus!
