//! The run loop, verified over scripted task bodies.
//!
//! The real runtime drives `yield_out` from the driver slot while live tasks
//! call back into the scheduler through trampolines; what each task does
//! between two yields is arbitrary code. To state what a whole run achieves,
//! this module fixes the one behaviour that matters to the scheduler — a
//! task steps, yields, and eventually returns — as data: slot `i` runs a
//! script of `script[i]` steps, yielding after each, and then returns. The
//! loop here performs exactly the scheduler transitions the real control
//! flow performs, records a trace of observable events, and is proved to
//! visit every spawned task to completion exactly once before handing
//! control back to the driver.

use vstd::prelude::*;

verus! {

use crate::context::ThreadState;
use crate::runtime::{no_ready_other, RunTime};

/// One observable event of a run.
#[derive(Clone, Copy, PartialEq, Eq, Structural, Debug)]
pub enum Event {
    /// The task in this slot took one step and yielded.
    Step(usize),
    /// The task in this slot returned and released its slot.
    Done(usize),
}

/// Whether `e` is a step of the task in slot `slot`.
pub open spec fn is_step_of(e: Event, slot: int) -> bool {
    e matches Event::Step(s) && s == slot
}

/// Whether `e` is the completion of the task in slot `slot`.
pub open spec fn is_done_of(e: Event, slot: int) -> bool {
    e matches Event::Done(s) && s == slot
}

/// How many `Step` events of `slot` the trace holds.
pub open spec fn step_count(t: Seq<Event>, slot: int) -> nat
    decreases t.len(),
{
    if t.len() == 0 {
        0
    } else {
        step_count(t.drop_last(), slot) + (if is_step_of(t.last(), slot) {
            1nat
        } else {
            0nat
        })
    }
}

/// How many `Done` events of `slot` the trace holds.
pub open spec fn done_count(t: Seq<Event>, slot: int) -> nat
    decreases t.len(),
{
    if t.len() == 0 {
        0
    } else {
        done_count(t.drop_last(), slot) + (if is_done_of(t.last(), slot) {
            1nat
        } else {
            0nat
        })
    }
}

proof fn lemma_count_push(t: Seq<Event>, e: Event, slot: int)
    ensures
        step_count(t.push(e), slot) == step_count(t, slot) + (if is_step_of(e, slot) {
            1nat
        } else {
            0nat
        }),
        done_count(t.push(e), slot) == done_count(t, slot) + (if is_done_of(e, slot) {
            1nat
        } else {
            0nat
        }),
{
    assert(t.push(e).drop_last() =~= t);
}

/// Steps still unspent in a script.
pub open spec fn sum_steps(s: Seq<usize>) -> nat
    decreases s.len(),
{
    if s.len() == 0 {
        0
    } else {
        sum_steps(s.drop_last()) + (s.last() as nat)
    }
}

proof fn lemma_sum_update(s: Seq<usize>, i: int, v: usize)
    requires
        0 <= i < s.len(),
    ensures
        sum_steps(s.update(i, v)) + s[i] == sum_steps(s) + v,
    decreases s.len(),
{
    if i == s.len() - 1 {
        assert(s.update(i, v).drop_last() =~= s.drop_last());
    } else {
        assert(s.update(i, v).drop_last() =~= s.drop_last().update(i, v));
        lemma_sum_update(s.drop_last(), i, v);
    }
}

/// Weight of a state towards `live_count`: one unless the slot is free.
pub open spec fn live_weight(s: ThreadState) -> nat {
    if s is Available {
        0nat
    } else {
        1nat
    }
}

/// How many slots have not (or not yet again) reached `Available`.
pub open spec fn live_count(s: Seq<ThreadState>) -> nat
    decreases s.len(),
{
    if s.len() == 0 {
        0
    } else {
        live_count(s.drop_last()) + live_weight(s.last())
    }
}

proof fn lemma_live_update(s: Seq<ThreadState>, i: int, v: ThreadState)
    requires
        0 <= i < s.len(),
    ensures
        live_count(s.update(i, v)) + live_weight(s[i]) == live_count(s) + live_weight(v),
    decreases s.len(),
{
    if i == s.len() - 1 {
        assert(s.update(i, v).drop_last() =~= s.drop_last());
    } else {
        assert(s.update(i, v).drop_last() =~= s.drop_last().update(i, v));
        lemma_live_update(s.drop_last(), i, v);
    }
}

/// Runs the pool to exhaustion with scripted task bodies: the task in slot
/// `i` takes `script[i]` steps, yielding after each, and then returns.
/// Control starts on the driver slot and is back on it when the run returns
/// with no `Ready` context left. Every task that was `Ready` at the start
/// has then stepped exactly its scripted number of times and completed
/// exactly once — however often it yielded in between — and its slot is
/// `Available` again; slots that held no task saw no event at all. Invoked
/// with no `Ready` context, the run returns at once with an empty trace.
pub fn run_scripted(rt: &mut RunTime, script: &Vec<usize>) -> (trace: Vec<Event>)
    requires
        old(rt).wf(),
        old(rt).current == 0,
        old(rt).states()[0] is Running,
        script@.len() == old(rt).size(),
    ensures
        final(rt).wf(),
        final(rt).size() == old(rt).size(),
        final(rt).current == 0,
        final(rt).states()[0] is Running,
        no_ready_other(final(rt).states(), 0),
        forall|i: int|
            1 <= i < old(rt).size() ==> (#[trigger] final(rt).states()[i]) is Available,
        forall|i: int|
            1 <= i < old(rt).size() && (#[trigger] old(rt).states()[i]) is Ready ==> step_count(
                trace@,
                i,
            ) == script@[i] && done_count(trace@, i) == 1,
        forall|i: int|
            1 <= i < old(rt).size() && !((#[trigger] old(rt).states()[i]) is Ready) ==> step_count(
                trace@,
                i,
            ) == 0 && done_count(trace@, i) == 0,
        step_count(trace@, 0) == 0 && done_count(trace@, 0) == 0,
        no_ready_other(old(rt).states(), 0) ==> trace@.len() == 0 && final(rt).states() == old(
            rt,
        ).states(),
{
    let ghost init = rt.states();
    let ghost n = rt.size();

    let mut left: Vec<usize> = Vec::new();
    let mut i: usize = 0;
    while i < script.len()
        invariant
            i <= script@.len(),
            left@.len() == i as int,
            forall|j: int| 0 <= j < i ==> left@[j] == script@[j],
        decreases script@.len() - i,
    {
        left.push(script[i]);
        i = i + 1;
    }

    let mut trace: Vec<Event> = Vec::new();
    loop
        invariant
            rt.wf(),
            rt.size() == n,
            script@.len() == n,
            left@.len() == n,
            init == old(rt).states(),
            init.len() == n,
            rt.states()[rt.current as int] is Running,
            rt.current != 0 ==> rt.states()[0] is Ready,
            step_count(trace@, 0) == 0 && done_count(trace@, 0) == 0,
            forall|i: int|
                1 <= i < n && (#[trigger] init[i]) is Ready ==> (if rt.states()[i] is Available {
                    left@[i] == 0 && step_count(trace@, i) == script@[i] && done_count(
                        trace@,
                        i,
                    ) == 1
                } else {
                    step_count(trace@, i) + left@[i] == script@[i] && done_count(
                        trace@,
                        i,
                    ) == 0
                }),
            forall|i: int|
                1 <= i < n && !((#[trigger] init[i]) is Ready) ==> rt.states()[i] is Available
                    && step_count(trace@, i) == 0 && done_count(trace@, i) == 0,
            no_ready_other(init, 0) ==> trace@.len() == 0 && rt.states() == init
                && rt.current == 0,
        ensures
            rt.current == 0,
            no_ready_other(rt.states(), 0),
        decreases
            sum_steps(left@),
            live_count(rt.states()),
            (if rt.current == 0 {
                1nat
            } else {
                0nat
            }),
    {
        let cur = rt.current;
        if cur == 0 {
            let ghost pre = rt.states();
            match rt.yield_out() {
                None => {
                    break ;
                },
                Some(a) => {
                    proof {
                        lemma_live_update(pre, 0, ThreadState::Ready);
                        lemma_live_update(
                            pre.update(0, ThreadState::Ready),
                            a.to as int,
                            ThreadState::Running,
                        );
                    }
                },
            }
        } else {
            let steps_left = left[cur];
            if steps_left > 0 {
                let ghost trace0 = trace@;
                let ghost left0 = left@;
                trace.push(Event::Step(cur));
                left[cur] = steps_left - 1;
                proof {
                    lemma_sum_update(left0, cur as int, (steps_left - 1) as usize);
                }
                let ghost pre = rt.states();
                match rt.yield_out() {
                    None => {},
                    Some(a) => {
                        proof {
                            lemma_live_update(pre, cur as int, crate::runtime::demote(pre[cur as int]));
                            lemma_live_update(
                                pre.update(cur as int, crate::runtime::demote(pre[cur as int])),
                                a.to as int,
                                ThreadState::Running,
                            );
                        }
                    },
                }
                proof {
                    assert(step_count(trace@, 0) == 0 && done_count(trace@, 0) == 0) by {
                        lemma_count_push(trace0, Event::Step(cur), 0);
                    }
                    assert forall|i: int|
                        1 <= i < n && !((#[trigger] init[i]) is Ready) implies rt.states()[i] is Available
                            && step_count(trace@, i) == 0 && done_count(trace@, i) == 0 by {
                        lemma_count_push(trace0, Event::Step(cur), i);
                    }
                    assert forall|i: int|
                        1 <= i < n && (#[trigger] init[i]) is Ready implies (if rt.states()[i] is Available {
                            left@[i] == 0 && step_count(trace@, i) == script@[i] && done_count(
                                trace@,
                                i,
                            ) == 1
                        } else {
                            step_count(trace@, i) + left@[i] == script@[i] && done_count(
                                trace@,
                                i,
                            ) == 0
                        }) by {
                        lemma_count_push(trace0, Event::Step(cur), i);
                    }
                }
            } else {
                let ghost trace0 = trace@;
                trace.push(Event::Done(cur));
                let ghost pre = rt.states();
                let r = rt.ret();
                proof {
                    let freed = pre.update(cur as int, ThreadState::Available);
                    assert(freed[0] is Ready);
                    if r is None {
                        assert(!(no_ready_other(freed, cur as int)));
                        assert(false);
                    }
                    let a = r->Some_0;
                    lemma_live_update(pre, cur as int, ThreadState::Available);
                    lemma_live_update(freed, a.to as int, ThreadState::Running);
                    assert(step_count(trace@, 0) == 0 && done_count(trace@, 0) == 0) by {
                        lemma_count_push(trace0, Event::Done(cur), 0);
                    }
                    assert(rt.states() == freed.update(a.to as int, ThreadState::Running));
                    assert forall|i: int|
                        1 <= i < n && !((#[trigger] init[i]) is Ready) implies rt.states()[i] is Available
                            && step_count(trace@, i) == 0 && done_count(trace@, i) == 0 by {
                        lemma_count_push(trace0, Event::Done(cur), i);
                    }
                    assert forall|i: int|
                        1 <= i < n && (#[trigger] init[i]) is Ready implies (if rt.states()[i] is Available {
                            left@[i] == 0 && step_count(trace@, i) == script@[i] && done_count(
                                trace@,
                                i,
                            ) == 1
                        } else {
                            step_count(trace@, i) + left@[i] == script@[i] && done_count(
                                trace@,
                                i,
                            ) == 0
                        }) by {
                        lemma_count_push(trace0, Event::Done(cur), i);
                    }
                }
            }
        }
    }
    trace
}

} // verus!
