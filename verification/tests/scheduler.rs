use green_threads::context::ThreadState;
use green_threads::driver::{run_scripted, Event};
use green_threads::runtime::{RunTime, RuntimeError, SwitchAction};
use green_threads::stack::STACK_SIZE;

const BASE: usize = 1 << 32;

fn pool(n: usize) -> RunTime {
    RunTime::new(vec![BASE; n])
}

#[test]
fn new_pool_driver_running() {
    let rt = pool(4);
    assert_eq!(rt.current, 0);
    assert_eq!(rt.threads.len(), 4);
    assert_eq!(rt.threads[0].state, ThreadState::Running);
    for i in 1..4 {
        assert_eq!(rt.threads[i].state, ThreadState::Available);
    }
    for i in 0..4 {
        assert_eq!(rt.threads[i].id, i);
        assert_eq!(rt.threads[i].stack_base, BASE);
        assert_eq!(rt.threads[i].ctx.rsp, 0);
    }
}

#[test]
fn spawn_claims_first_available_slot() {
    let mut rt = pool(4);
    let plan = rt.spawn_task().unwrap();
    assert_eq!(plan.slot, 1);
    assert_eq!(rt.threads[1].state, ThreadState::Ready);
    assert_eq!(rt.current, 0);
    let top = BASE + STACK_SIZE;
    assert_eq!(plan.layout.completion_slot, top - 16);
    assert_eq!(plan.layout.guard_slot, top - 24);
    assert_eq!(plan.layout.entry_slot, top - 32);
    assert_eq!(rt.threads[1].ctx.rsp, plan.layout.entry_slot);

    let plan2 = rt.spawn_task().unwrap();
    assert_eq!(plan2.slot, 2);
    assert_eq!(rt.threads[2].state, ThreadState::Ready);
}

#[test]
fn spawn_on_exhausted_pool_fails_and_changes_nothing() {
    let mut rt = pool(2);
    assert_eq!(rt.spawn_task().unwrap().slot, 1);
    let err = rt.spawn_task().unwrap_err();
    assert_eq!(err, RuntimeError::ResourceExhausted);
    assert_eq!(rt.current, 0);
    assert_eq!(rt.threads[0].state, ThreadState::Running);
    assert_eq!(rt.threads[1].state, ThreadState::Ready);
}

#[test]
fn idle_yield_returns_none_and_changes_nothing() {
    let mut rt = pool(3);
    assert_eq!(rt.yield_out(), None);
    assert_eq!(rt.current, 0);
    assert_eq!(rt.threads[0].state, ThreadState::Running);
    assert_eq!(rt.threads[1].state, ThreadState::Available);
    assert_eq!(rt.threads[2].state, ThreadState::Available);
}

#[test]
fn idle_run_returns_at_once_with_empty_trace() {
    let mut rt = pool(4);
    let trace = run_scripted(&mut rt, &vec![0, 0, 0, 0]);
    assert!(trace.is_empty());
    assert_eq!(rt.current, 0);
    assert_eq!(rt.threads[0].state, ThreadState::Running);
}

#[test]
fn yield_walks_slots_in_ascending_circular_order() {
    let mut rt = pool(4);
    rt.spawn_task().unwrap();
    rt.spawn_task().unwrap();
    rt.spawn_task().unwrap();
    assert_eq!(rt.pick_next(), Some(1));
    assert_eq!(rt.yield_out(), Some(SwitchAction { from: 0, to: 1 }));
    assert_eq!(rt.current, 1);
    assert_eq!(rt.threads[0].state, ThreadState::Ready);
    assert_eq!(rt.threads[1].state, ThreadState::Running);
    assert_eq!(rt.yield_out(), Some(SwitchAction { from: 1, to: 2 }));
    assert_eq!(rt.yield_out(), Some(SwitchAction { from: 2, to: 3 }));
    // The walk wraps past the end of the pool back to the driver slot.
    assert_eq!(rt.yield_out(), Some(SwitchAction { from: 3, to: 0 }));
    assert_eq!(rt.yield_out(), Some(SwitchAction { from: 0, to: 1 }));
}

#[test]
fn ret_on_driver_slot_is_a_noop() {
    let mut rt = pool(3);
    assert_eq!(rt.ret(), None);
    assert_eq!(rt.current, 0);
    assert_eq!(rt.threads[0].state, ThreadState::Running);
}

#[test]
fn ret_releases_slot_and_switches_onward() {
    let mut rt = pool(3);
    rt.spawn_task().unwrap();
    rt.spawn_task().unwrap();
    assert_eq!(rt.yield_out(), Some(SwitchAction { from: 0, to: 1 }));
    assert_eq!(rt.ret(), Some(SwitchAction { from: 1, to: 2 }));
    assert_eq!(rt.threads[1].state, ThreadState::Available);
    assert_eq!(rt.threads[2].state, ThreadState::Running);
    assert_eq!(rt.current, 2);
}

#[test]
fn two_tasks_of_three_steps_interleave_round_robin() {
    let mut rt = pool(4);
    assert_eq!(rt.spawn_task().unwrap().slot, 1);
    assert_eq!(rt.spawn_task().unwrap().slot, 2);
    let trace = run_scripted(&mut rt, &vec![0, 3, 3, 0]);
    assert_eq!(
        trace,
        vec![
            Event::Step(1),
            Event::Step(2),
            Event::Step(1),
            Event::Step(2),
            Event::Step(1),
            Event::Step(2),
            Event::Done(1),
            Event::Done(2),
        ]
    );
    assert_eq!(rt.current, 0);
    assert_eq!(rt.threads[0].state, ThreadState::Running);
    assert_eq!(rt.threads[1].state, ThreadState::Available);
    assert_eq!(rt.threads[2].state, ThreadState::Available);
    assert_eq!(rt.threads[3].state, ThreadState::Available);
}

#[test]
fn tasks_of_unequal_length_each_complete_exactly_once() {
    let mut rt = pool(4);
    rt.spawn_task().unwrap();
    rt.spawn_task().unwrap();
    rt.spawn_task().unwrap();
    let trace = run_scripted(&mut rt, &vec![0, 1, 3, 2]);
    assert_eq!(
        trace,
        vec![
            Event::Step(1),
            Event::Step(2),
            Event::Step(3),
            Event::Done(1),
            Event::Step(2),
            Event::Step(3),
            Event::Step(2),
            Event::Done(3),
            Event::Done(2),
        ]
    );
    for i in 1..4 {
        assert_eq!(rt.threads[i].state, ThreadState::Available);
    }
}

#[test]
fn completed_slot_is_reused_by_a_later_spawn() {
    let mut rt = pool(2);
    assert_eq!(rt.spawn_task().unwrap().slot, 1);
    let trace = run_scripted(&mut rt, &vec![0, 2]);
    assert_eq!(trace, vec![Event::Step(1), Event::Step(1), Event::Done(1)]);
    assert_eq!(rt.threads[1].state, ThreadState::Available);
    // The pool has one task slot, yet a third spawn still succeeds:
    // each earlier task finished and released the slot.
    assert_eq!(rt.spawn_task().unwrap().slot, 1);
    run_scripted(&mut rt, &vec![0, 0]);
    assert_eq!(rt.spawn_task().unwrap().slot, 1);
}
