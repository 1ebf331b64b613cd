use claw_machine::executor::{Fault, ReadyQueue};
use claw_machine::timer::{
    generic_ticks_to_seconds, precision_ticks_to_millis, s_to_generic_ticks, us_to_p_ticks, Delay,
    GenericTimer, PrecisionTimer, TimerPoll, TimerService, TimerState,
};

fn drain(q: &mut ReadyQueue) -> Vec<usize> {
    let mut out = Vec::new();
    while let Some(t) = q.dequeue() {
        out.push(t);
    }
    out
}

#[test]
fn conversions() {
    assert_eq!(s_to_generic_ticks(0), 0);
    assert_eq!(s_to_generic_ticks(2), 125000);
    assert_eq!(s_to_generic_ticks(255), 15937500);
    assert_eq!(us_to_p_ticks(1000), 250);
    assert_eq!(us_to_p_ticks(400), 100);
    assert_eq!(us_to_p_ticks(3), 0);
    assert_eq!(us_to_p_ticks(65535), 16383);
    assert_eq!(generic_ticks_to_seconds(125000), 2);
    assert_eq!(generic_ticks_to_seconds(62499), 0);
    assert_eq!(precision_ticks_to_millis(1000), 4);
    assert_eq!(precision_ticks_to_millis(249), 0);
}

#[test]
fn timer_constructors() {
    let g = GenericTimer::new(3);
    assert_eq!(g.delay.ticks, 187500);
    assert_eq!(g.delay.state, TimerState::Init);
    let p = PrecisionTimer::new(1000);
    assert_eq!(p.delay.ticks, 250);
    assert_eq!(p.delay.state, TimerState::Init);
}

#[test]
fn two_equal_delays_share_a_batch_and_a_shorter_one_goes_first() {
    let mut svc = TimerService::generic();
    let mut q = ReadyQueue::new();
    let mut a = Delay::new(1000);
    let mut b = Delay::new(1000);
    assert_eq!(a.poll(&mut svc, 0, &mut q), Ok(TimerPoll::Pending(Some(1000))));
    assert_eq!(b.poll(&mut svc, 1, &mut q), Ok(TimerPoll::Pending(None)));
    let mut c = Delay::new(500);
    assert_eq!(c.poll(&mut svc, 2, &mut q), Ok(TimerPoll::Pending(Some(500))));
    assert_eq!(drain(&mut q), Vec::<usize>::new());

    assert_eq!(svc.on_compare_match(&mut q), Ok(Some(500)));
    assert_eq!(svc.now(), 500);
    assert_eq!(drain(&mut q), vec![2]);
    assert_eq!(c.poll(&mut svc, 2, &mut q), Ok(TimerPoll::Ready));
    assert_eq!(a.poll(&mut svc, 0, &mut q), Ok(TimerPoll::Pending(None)));

    assert_eq!(svc.on_compare_match(&mut q), Ok(None));
    assert_eq!(svc.now(), 1000);
    assert_eq!(drain(&mut q), vec![0, 1]);
    assert_eq!(a.poll(&mut svc, 0, &mut q), Ok(TimerPoll::Ready));
    assert_eq!(b.poll(&mut svc, 1, &mut q), Ok(TimerPoll::Ready));
}

#[test]
fn concurrent_delays_resolve_in_deadline_order_and_never_early() {
    let mut svc = TimerService::precision();
    let mut q = ReadyQueue::new();
    let lengths: [u64; 8] = [700, 20, 300, 300, 1200, 90, 500, 40];
    let mut delays: Vec<Delay> = lengths.iter().map(|&t| Delay::new(t)).collect();
    for (i, d) in delays.iter_mut().enumerate() {
        let r = d.poll(&mut svc, i, &mut q);
        assert!(matches!(r, Ok(TimerPoll::Pending(_))));
    }
    let mut order: Vec<usize> = Vec::new();
    let mut done = vec![false; 8];
    for _ in 0..100 {
        let _ = svc.on_compare_match(&mut q).unwrap();
        for t in drain(&mut q) {
            order.push(t);
            let r = delays[t].poll(&mut svc, t, &mut q);
            if r == Ok(TimerPoll::Ready) {
                assert!(svc.now() >= lengths[t]);
                done[t] = true;
            }
        }
    }
    assert_eq!(order.len(), 8);
    for w in order.windows(2) {
        assert!(lengths[w[0]] <= lengths[w[1]]);
    }
    assert_eq!(order, vec![1, 7, 5, 2, 3, 6, 0, 4]);
    assert!(done.iter().all(|&d| d));
}

#[test]
fn near_deadline_is_woken_at_once() {
    let mut svc = TimerService::generic();
    let mut q = ReadyQueue::new();
    assert_eq!(svc.register(7, 3, &mut q), Ok(None));
    assert_eq!(drain(&mut q), vec![3]);
}

#[test]
fn far_deadline_is_armed_at_the_register_limit() {
    let mut svc = TimerService::generic();
    let mut q = ReadyQueue::new();
    assert_eq!(svc.register(100000, 0, &mut q), Ok(Some(65535)));
    assert_eq!(svc.on_compare_match(&mut q), Ok(Some(100000 - 65535)));
    assert_eq!(drain(&mut q), Vec::<usize>::new());
    assert_eq!(svc.on_compare_match(&mut q), Ok(None));
    assert_eq!(drain(&mut q), vec![0]);
}

#[test]
fn later_deadline_does_not_rearm() {
    let mut svc = TimerService::generic();
    let mut q = ReadyQueue::new();
    assert_eq!(svc.register(300, 0, &mut q), Ok(Some(300)));
    assert_eq!(svc.register(900, 1, &mut q), Ok(None));
    assert_eq!(svc.register(300, 2, &mut q), Ok(None));
}

#[test]
fn timer_queue_overflow_is_fatal() {
    let mut svc = TimerService::generic();
    let mut q = ReadyQueue::new();
    for t in 0..4 {
        assert!(svc.register(1000 + t as u64, t, &mut q).is_ok());
    }
    assert_eq!(svc.register(5000, 4, &mut q), Err(Fault::TimerQueueFull));
}

#[test]
fn full_ready_queue_during_wakeup_is_fatal() {
    let mut svc = TimerService::precision();
    let mut q = ReadyQueue::new();
    for t in 0..8 {
        assert_eq!(svc.register(100, t, &mut q), if t == 0 { Ok(Some(100)) } else { Ok(None) });
    }
    for t in 0..10 {
        assert_eq!(claw_machine::executor::wake_task(&mut q, 20 + t), Ok(()));
    }
    assert_eq!(svc.on_compare_match(&mut q), Err(Fault::ReadyQueueFull));
}

#[test]
fn deadline_saturates() {
    let mut svc = TimerService::generic();
    let mut q = ReadyQueue::new();
    let mut d = Delay::new(u64::MAX);
    let _ = svc.on_compare_match(&mut q);
    assert_eq!(svc.now(), 62500);
    assert!(d.poll(&mut svc, 0, &mut q).is_ok());
    assert_eq!(d.end_ticks, u64::MAX);
    assert_eq!(d.state, TimerState::Waiting);
}
