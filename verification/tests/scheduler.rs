use tinyrt::oneshot::channel;
use tinyrt::rt::{ParkDecision, Poll, Runtime};

#[test]
fn spawned_task_is_marked_ready_once() {
    let mut rt = Runtime::new();
    let (id, _monitor) = rt.spawn();
    assert_eq!(id, 0);
    assert!(rt.task_is_live(id));
    assert!(!rt.idle());
    // the scheduler may not park while the fresh task awaits its first poll
    assert!(matches!(rt.park_decision(false), ParkDecision::Poll));
    assert_eq!(rt.take_ready(), vec![0]);
    assert!(rt.idle());
}

#[test]
fn block_on_immediate_value_roundtrip() {
    // the root computation produces its value at the first poll; the
    // driver reads it back out of the result mailbox unchanged
    let mut rt = Runtime::new();
    let mut result = channel::<i32>();
    let root = rt.spawn_root();
    let snapshot = rt.take_ready();
    assert_eq!(snapshot, vec![root]);
    assert!(rt.task_is_live(root));
    // the root runs: it yields 5 and deposits it
    assert_eq!(result.send(5), Ok(()));
    rt.finish_task(root);
    assert_eq!(result.try_recv(), Ok(5));
}

#[test]
fn join_handle_wakes_waiting_root() {
    // root first polls the handle (depositing its notifier), the task
    // then completes, and the completion wake re-enqueues the root
    let mut rt = Runtime::new();
    let root = rt.spawn_root();
    let (task, mut monitor) = rt.spawn();
    let mut task_result = channel::<i32>();

    let snapshot = rt.take_ready();
    assert_eq!(snapshot, vec![root, task]);

    // poll root: the handle is empty, so the root suspends
    assert!(matches!(
        monitor.poll(&mut task_result, &mut rt, root),
        Poll::Pending
    ));
    // poll task: it completes with 7
    assert_eq!(task_result.send(7), Ok(()));
    rt.finish_task(task);

    // the completion delivered the root's notifier: the root is ready again
    let snapshot = rt.take_ready();
    assert_eq!(snapshot, vec![root]);
    match monitor.poll(&mut task_result, &mut rt, root) {
        Poll::Ready(v) => assert_eq!(v, Some(7)),
        Poll::Pending => panic!("handle must resolve after completion"),
    }
}

#[test]
fn chained_values_accumulate() {
    // three computations: the first yields 42, each later one adds 1 to
    // what it joins; the final result is 44
    let mut rt = Runtime::new();
    let (id_a, mut mon_a) = rt.spawn();
    let mut res_a = channel::<i32>();
    let (id_b, mut mon_b) = rt.spawn();
    let mut res_b = channel::<i32>();
    let root = rt.spawn_root();
    let mut res_c = channel::<i32>();

    let snapshot = rt.take_ready();
    assert_eq!(snapshot, vec![id_a, id_b, root]);

    // task a completes at once
    assert_eq!(res_a.send(42), Ok(()));
    rt.finish_task(id_a);
    // task b joins a (already done) and adds 1
    let a_out = match mon_a.poll(&mut res_a, &mut rt, id_b) {
        Poll::Ready(Some(v)) => v,
        _ => panic!("a completed before b polled, the value must be there"),
    };
    assert_eq!(res_b.send(a_out + 1), Ok(()));
    rt.finish_task(id_b);
    // the root joins b and adds 1
    let b_out = match mon_b.poll(&mut res_b, &mut rt, root) {
        Poll::Ready(Some(v)) => v,
        _ => panic!("b completed before the root polled"),
    };
    assert_eq!(res_c.send(b_out + 1), Ok(()));
    rt.finish_task(root);

    assert_eq!(res_c.try_recv(), Ok(44));
}

#[test]
fn yield_loop_runs_sixty_iterations() {
    // a computation that re-arms its own notifier each iteration is
    // polled once per drain and completes after sixty rounds
    let mut rt = Runtime::new();
    let mut result = channel::<u32>();
    let root = rt.spawn_root();
    let mut counter: u32 = 60;
    let mut iterations: u32 = 0;
    loop {
        let snapshot = rt.take_ready();
        assert_eq!(snapshot, vec![root]);
        assert!(rt.task_is_live(root));
        iterations += 1;
        counter -= 1;
        if counter == 0 {
            assert_eq!(result.send(0), Ok(()));
            rt.finish_task(root);
            break;
        }
        // ready-every-iteration primitive: wake ourselves for the next drain
        rt.wake(root);
    }
    assert_eq!(iterations, 60);
    assert_eq!(result.try_recv(), Ok(0));
    assert!(rt.take_ready().is_empty());
}

#[test]
fn completed_task_leaves_table_before_next_iteration() {
    let mut rt = Runtime::new();
    let root = rt.spawn_root();
    assert_eq!(rt.take_ready(), vec![root]);
    rt.finish_task(root);
    assert!(!rt.task_is_live(root));
    // nothing re-enqueued the identifier
    assert!(rt.take_ready().is_empty());
}

#[test]
fn double_wake_causes_at_most_one_extra_poll() {
    let mut rt = Runtime::new();
    let root = rt.spawn_root();
    // a second notifier fires for the same identifier
    rt.wake(root);
    let snapshot = rt.take_ready();
    assert_eq!(snapshot, vec![root, root]);
    // first occurrence: the task completes and is removed
    assert!(rt.task_is_live(root));
    rt.finish_task(root);
    // duplicate occurrence: the identifier no longer refers to a live
    // task, so the drain skips it instead of resuming anything
    assert!(!rt.task_is_live(root));
    assert!(rt.take_ready().is_empty());
}

#[test]
fn detached_handle_never_blocks_the_task() {
    let mut rt = Runtime::new();
    let (task, mut monitor) = rt.spawn();
    let mut task_result = channel::<i32>();
    // drop the handle right away: both of its endpoints are released
    monitor.abandon(&mut rt);
    task_result.drop_receiver();

    // a second computation proceeds normally
    let root = rt.spawn_root();
    let mut root_result = channel::<i32>();

    assert_eq!(rt.take_ready(), vec![task, root]);
    // the detached task completes: depositing its result fails softly
    // and the completion path still removes the task
    assert_eq!(task_result.send(9), Err(9));
    rt.finish_task(task);
    assert!(!rt.task_is_live(task));

    assert_eq!(root_result.send(1), Ok(()));
    rt.finish_task(root);
    assert_eq!(root_result.try_recv(), Ok(1));
}

#[test]
fn identifiers_are_never_recycled() {
    let mut rt = Runtime::new();
    let a = rt.spawn_root();
    rt.finish_task(a);
    let b = rt.spawn_root();
    assert_eq!(a, 0);
    assert_eq!(b, 1);
    assert!(!rt.task_is_live(a));
    assert!(rt.task_is_live(b));
}

#[test]
fn park_decisions_follow_pending_work() {
    let mut rt = Runtime::new();
    // nothing to do at all: park until a notifier arrives
    assert!(matches!(rt.park_decision(false), ParkDecision::ParkForever));
    // a zombie timer is waiting for its notifier: keep polling
    assert!(matches!(rt.park_decision(true), ParkDecision::Poll));
    // a pending timer bounds the park by its deadline
    let _s = tinyrt::timers::sleep(&mut rt, 0, 25);
    match rt.park_decision(false) {
        ParkDecision::ParkUntil(d) => assert_eq!(d, 25),
        _ => panic!("an armed timer must bound the park"),
    }
    // ready work forbids parking
    let _root = rt.spawn_root();
    assert!(matches!(rt.park_decision(false), ParkDecision::Poll));
}
