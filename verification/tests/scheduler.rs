use kernel::scheduler::{Executor, TASK_QUEUE_CAPACITY};

#[test]
fn spawned_tasks_run_in_spawn_order() {
    let mut e = Executor::new();
    assert!(e.is_idle());
    e.spawn(1);
    e.spawn(2);
    e.spawn(3);
    assert!(e.has_task(2));
    assert!(!e.is_idle());
    assert_eq!(e.next_ready(), Some(1));
    assert_eq!(e.next_ready(), Some(2));
    assert_eq!(e.next_ready(), Some(3));
    assert_eq!(e.next_ready(), None);
    assert!(e.is_idle());
}

#[test]
fn finished_tasks_are_skipped() {
    let mut e = Executor::new();
    e.spawn(7);
    e.spawn(8);
    e.wake(7);
    e.complete(7);
    assert!(!e.has_task(7));
    assert_eq!(e.next_ready(), Some(8));
    assert_eq!(e.next_ready(), None);
}

#[test]
fn woken_tasks_queue_again() {
    let mut e = Executor::new();
    e.spawn(4);
    assert_eq!(e.next_ready(), Some(4));
    e.wake(4);
    e.wake(4);
    assert_eq!(e.next_ready(), Some(4));
    assert_eq!(e.next_ready(), Some(4));
    assert_eq!(e.next_ready(), None);
}

#[test]
fn the_ready_queue_is_bounded() {
    let mut e = Executor::new();
    e.spawn(0);
    for _ in 1..TASK_QUEUE_CAPACITY {
        assert!(!e.queue_full());
        e.wake(0);
    }
    assert!(e.queue_full());
    assert_eq!(e.next_ready(), Some(0));
    assert!(!e.queue_full());
    assert!(!e.should_exit());
}
