use tinyrt::oneshot::channel;
use tinyrt::rt::{Poll, Runtime};
use tinyrt::timers::{sleep, tick};

#[test]
fn sleep_deadline_is_now_plus_duration() {
    let mut rt = Runtime::new();
    let s = sleep(&mut rt, 100, 50);
    assert_eq!(s.due, 150);
    assert_eq!(rt.wheel.earliest_deadline(), Some(150));
}

#[test]
fn single_sleep_fires_at_its_deadline_and_not_before() {
    let mut rt = Runtime::new();
    let mut s = sleep(&mut rt, 0, 10);
    // the owning task suspends, depositing its notifier (identifier 3)
    assert!(matches!(s.poll(&mut rt, 1, 3), Poll::Pending));
    // before the deadline nothing fires
    assert!(!tick(&mut rt, 9));
    assert!(rt.take_ready().is_empty());
    assert_eq!(rt.wheel.earliest_deadline(), Some(10));
    // at the deadline the notifier is invoked
    assert!(!tick(&mut rt, 10));
    assert_eq!(rt.take_ready(), vec![3]);
    assert_eq!(rt.wheel.earliest_deadline(), None);
    // the woken task resumes: the sleep is done and reports its deadline
    match s.poll(&mut rt, 11, 3) {
        Poll::Ready(due) => assert_eq!(due, 10),
        Poll::Pending => panic!("a woken sleep must be done"),
    }
}

#[test]
fn sleep_polled_past_due_completes_without_suspending() {
    let mut rt = Runtime::new();
    let mut s = sleep(&mut rt, 0, 10);
    match s.poll(&mut rt, 11, 3) {
        Poll::Ready(due) => assert_eq!(due, 10),
        Poll::Pending => panic!("past the deadline the sleep must not suspend"),
    }
    // the handle released its producer end, so the tick discards the
    // entry without inventing a wake
    assert!(!tick(&mut rt, 20));
    assert!(rt.take_ready().is_empty());
    assert!(rt.wheel.zombies.is_empty());
}

#[test]
fn elapsed_timer_without_notifier_becomes_zombie() {
    let mut rt = Runtime::new();
    let mut s = sleep(&mut rt, 0, 5);
    // the deadline elapses before the owning task was ever polled
    assert!(tick(&mut rt, 5));
    assert!(rt.take_ready().is_empty());
    // the scheduler must keep polling rather than park: the owner still
    // has to deposit its notifier
    assert!(matches!(
        rt.park_decision(true),
        tinyrt::rt::ParkDecision::Poll
    ));
    // the owner now suspends (deadline not past: 5 is not after 5)
    assert!(matches!(s.poll(&mut rt, 5, 8), Poll::Pending));
    // the next tick retries the zombie and fires it
    assert!(!tick(&mut rt, 6));
    assert_eq!(rt.take_ready(), vec![8]);
}

#[test]
fn cancelled_sleep_is_discarded_silently() {
    let mut rt = Runtime::new();
    let mut s = sleep(&mut rt, 0, 5);
    s.cancel(&mut rt);
    assert!(!tick(&mut rt, 10));
    // no stale notifier, no zombie
    assert!(rt.take_ready().is_empty());
    assert!(rt.wheel.zombies.is_empty());
    assert_eq!(rt.wheel.earliest_deadline(), None);
}

#[test]
fn overlapping_sleeps_fire_together_in_registration_order() {
    let mut rt = Runtime::new();
    let mut handles = Vec::new();
    for i in 0..5u64 {
        let mut s = sleep(&mut rt, 0, 10);
        // each owner deposits a distinct notifier (20 + i)
        assert!(matches!(
            s.poll(&mut rt, 1, (20 + i) as usize),
            Poll::Pending
        ));
        handles.push(s);
    }
    // one tick past the shared deadline wakes all five, in the order
    // they were registered
    assert!(!tick(&mut rt, 10));
    assert_eq!(rt.take_ready(), vec![20, 21, 22, 23, 24]);
}

#[test]
fn earlier_deadline_fires_first() {
    let mut rt = Runtime::new();
    let mut late = sleep(&mut rt, 0, 30);
    let mut early = sleep(&mut rt, 0, 10);
    assert!(matches!(late.poll(&mut rt, 1, 40), Poll::Pending));
    assert!(matches!(early.poll(&mut rt, 1, 41), Poll::Pending));
    assert_eq!(rt.wheel.earliest_deadline(), Some(10));
    assert!(!tick(&mut rt, 10));
    assert_eq!(rt.take_ready(), vec![41]);
    assert!(!tick(&mut rt, 30));
    assert_eq!(rt.take_ready(), vec![40]);
}

#[test]
fn cross_task_signal_through_timer_and_join() {
    // task A sleeps, then completes; task B joins A and observes the
    // completion only after A's timer fired
    let mut rt = Runtime::new();
    let (id_a, mut mon_a) = rt.spawn();
    let mut res_a = channel::<u64>();
    let id_b = rt.spawn_root();

    assert_eq!(rt.take_ready(), vec![id_a, id_b]);
    // A starts sleeping until instant 10
    let mut s = sleep(&mut rt, 0, 10);
    assert!(matches!(s.poll(&mut rt, 0, id_a), Poll::Pending));
    // B polls the handle and suspends
    assert!(matches!(mon_a.poll(&mut res_a, &mut rt, id_b), Poll::Pending));

    // nothing happens before the deadline
    assert!(!tick(&mut rt, 9));
    assert!(rt.take_ready().is_empty());

    // the timer fires: A wakes, completes at its deadline, and the
    // completion wake re-enqueues B
    assert!(!tick(&mut rt, 10));
    assert_eq!(rt.take_ready(), vec![id_a]);
    let woke_at = match s.poll(&mut rt, 10, id_a) {
        Poll::Ready(due) => due,
        Poll::Pending => panic!("A was woken by its timer"),
    };
    assert!(woke_at >= 10);
    assert_eq!(res_a.send(woke_at), Ok(()));
    rt.finish_task(id_a);
    assert_eq!(rt.take_ready(), vec![id_b]);
    match mon_a.poll(&mut res_a, &mut rt, id_b) {
        Poll::Ready(v) => assert_eq!(v, Some(10)),
        Poll::Pending => panic!("B must resolve once A completed"),
    }
    rt.finish_task(id_b);
}

#[test]
fn spurious_wake_before_deadline_stays_pending() {
    let mut rt = Runtime::new();
    let mut s = sleep(&mut rt, 0, 10);
    // first resumption before the deadline: the notifier is deposited
    assert!(matches!(s.poll(&mut rt, 1, 3), Poll::Pending));
    // the owning task is woken by something else and re-polls before the
    // deadline: no tick has taken the notifier, so the sleep stays
    // pending and deposits nothing further
    assert!(matches!(s.poll(&mut rt, 2, 3), Poll::Pending));
    assert!(matches!(s.poll(&mut rt, 9, 3), Poll::Pending));
    // nothing fired early
    assert!(!tick(&mut rt, 9));
    assert!(rt.take_ready().is_empty());
    // the deadline elapses: the tick takes and invokes the notifier, and
    // only then does the re-poll resolve, to the deadline
    assert!(!tick(&mut rt, 10));
    assert_eq!(rt.take_ready(), vec![3]);
    match s.poll(&mut rt, 10, 3) {
        Poll::Ready(due) => assert_eq!(due, 10),
        Poll::Pending => panic!("the runtime took the notifier, the sleep is done"),
    }
}
