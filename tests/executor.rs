use claw_machine::executor::{wake_task, ExtWaker, Executor, Fault, ReadyQueue, Step, TaskHandle, READY_CAPACITY};

fn drain(q: &mut ReadyQueue) -> Vec<usize> {
    let mut out = Vec::new();
    while let Some(t) = q.dequeue() {
        out.push(t);
    }
    out
}

#[test]
fn wakes_come_out_in_fifo_order() {
    let mut q = ReadyQueue::new();
    assert_eq!(wake_task(&mut q, 4), Ok(()));
    assert_eq!(wake_task(&mut q, 1), Ok(()));
    assert_eq!(wake_task(&mut q, 7), Ok(()));
    assert_eq!(drain(&mut q), vec![4, 1, 7]);
    assert_eq!(q.dequeue(), None);
}

#[test]
fn double_wake_gives_one_extra_poll() {
    let mut ex = Executor::new();
    ex.begin_phase(3);
    assert_eq!(ex.next_step(), Step::Poll(0));
    assert_eq!(ex.next_step(), Step::Poll(1));
    assert_eq!(ex.next_step(), Step::Poll(2));
    assert_eq!(ex.next_step(), Step::Sleep);
    assert_eq!(wake_task(&mut ex.ready, 2), Ok(()));
    assert_eq!(wake_task(&mut ex.ready, 2), Ok(()));
    assert_eq!(ex.next_step(), Step::Poll(2));
    assert_eq!(ex.next_step(), Step::Poll(2));
    assert_eq!(ex.next_step(), Step::Sleep);
}

#[test]
fn wake_beyond_capacity_is_fatal_and_keeps_the_queue() {
    let mut q = ReadyQueue::new();
    for i in 0..READY_CAPACITY {
        assert_eq!(wake_task(&mut q, i), Ok(()));
    }
    assert_eq!(wake_task(&mut q, 99), Err(Fault::ReadyQueueFull));
    let expected: Vec<usize> = (0..READY_CAPACITY).collect();
    assert_eq!(drain(&mut q), expected);
}

#[test]
fn begin_phase_seeds_every_task_once_and_drops_old_wakes() {
    let mut ex = Executor::new();
    assert_eq!(wake_task(&mut ex.ready, 9), Ok(()));
    ex.end_phase();
    assert_eq!(ex.next_step(), Step::PhaseEnd);
    ex.begin_phase(2);
    assert_eq!(ex.num_tasks, 2);
    assert_eq!(ex.next_step(), Step::Poll(0));
    assert_eq!(ex.next_step(), Step::Poll(1));
    assert_eq!(ex.next_step(), Step::Sleep);
}

#[test]
fn stale_indices_are_skipped() {
    let mut ex = Executor::new();
    ex.begin_phase(2);
    assert_eq!(ex.next_step(), Step::Poll(0));
    assert_eq!(ex.next_step(), Step::Poll(1));
    assert_eq!(wake_task(&mut ex.ready, 5), Ok(()));
    assert_eq!(wake_task(&mut ex.ready, 1), Ok(()));
    assert_eq!(ex.next_step(), Step::Poll(1));
    assert_eq!(ex.next_step(), Step::Sleep);
}

#[test]
fn ended_phase_takes_precedence_over_ready_tasks() {
    let mut ex = Executor::new();
    ex.begin_phase(4);
    ex.end_phase();
    assert_eq!(ex.next_step(), Step::PhaseEnd);
    assert_eq!(ex.next_step(), Step::PhaseEnd);
}

#[test]
fn task_handle_resolves_to_its_index() {
    let h = TaskHandle { index: 6 };
    assert_eq!(h.task_id(), 6);
}
