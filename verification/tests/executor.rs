use handmade_async::executor::{Action, Executor};
use handmade_async::poll::Poll;
use handmade_async::spawn::{spawn, NewTasks};
use handmade_async::wake::WakeSet;

type Machine = Executor<&'static str, u8>;

fn expect_start(action: Action<&'static str, u8>) -> (usize, &'static str) {
    match action {
        Action::Start { id, fut } => (id, fut),
        _ => panic!("expected a task to start"),
    }
}

fn expect_resume(action: Action<&'static str, u8>) -> (usize, &'static str, u8) {
    match action {
        Action::Resume { id, task } => (id, task.fut, task.waker),
        _ => panic!("expected a task to resume"),
    }
}

#[test]
fn spawned_futures_start_in_order_with_consecutive_ids() {
    let mut new_tasks: NewTasks<&'static str> = NewTasks::new();
    spawn(&mut new_tasks, "client");
    spawn(&mut new_tasks, "spinner");
    let futs = new_tasks.drain();
    assert_eq!(futs, vec!["client", "spinner"]);
    assert!(new_tasks.drain().is_empty());

    let mut executor: Machine = Executor::new();
    assert_eq!(expect_start(executor.spawned(futs)), (0, "client"));
    assert!(!executor.is_waiting(0));
    assert_eq!(expect_start(executor.started("client", 10, Poll::Pending)), (1, "spinner"));
    assert!(executor.is_waiting(0));
    assert!(matches!(executor.started("spinner", 11, Poll::Pending), Action::Park));
    assert!(executor.is_waiting(1));
    assert!(!executor.is_waiting(2));
}

#[test]
fn no_tasks_finish_at_once() {
    let mut executor: Machine = Executor::new();
    assert!(matches!(executor.spawned(vec![]), Action::Finish));
}

#[test]
fn tasks_ready_in_their_first_poll_never_wait() {
    let mut executor: Machine = Executor::new();
    assert_eq!(expect_start(executor.spawned(vec!["a", "b"])), (0, "a"));
    assert_eq!(expect_start(executor.started("a", 0, Poll::Ready(()))), (1, "b"));
    assert!(matches!(executor.started("b", 0, Poll::Ready(())), Action::Finish));
}

#[test]
fn woken_tasks_are_resumed_and_finished_ones_leave() {
    let mut executor: Machine = Executor::new();
    executor.spawned(vec!["a", "b", "c"]);
    executor.started("a", 10, Poll::Pending);
    executor.started("b", 11, Poll::Pending);
    executor.started("c", 12, Poll::Pending);

    assert_eq!(expect_resume(executor.unparked(vec![2, 0])), (2, "c", 12));
    let task = handmade_async::executor::Task { fut: "c2", waker: 12 };
    assert_eq!(expect_resume(executor.resumed(task, Poll::Pending)), (0, "a", 10));
    let task = handmade_async::executor::Task { fut: "a2", waker: 10 };
    assert!(matches!(executor.resumed(task, Poll::Ready(())), Action::Collect));

    assert!(!executor.is_waiting(0));
    assert!(executor.is_waiting(1));
    assert!(executor.is_waiting(2));
    assert!(matches!(executor.spawned(vec![]), Action::Park));
    assert_eq!(expect_resume(executor.unparked(vec![2])), (2, "c2", 12));
}

#[test]
fn ids_are_not_used_again() {
    let mut executor: Machine = Executor::new();
    executor.spawned(vec!["a", "b"]);
    executor.started("a", 0, Poll::Ready(()));
    executor.started("b", 0, Poll::Pending);
    assert!(matches!(executor.unparked(vec![]), Action::Collect));
    assert_eq!(expect_start(executor.spawned(vec!["c"])), (2, "c"));
}

#[test]
fn the_loop_ends_when_the_last_task_is_over() {
    let mut executor: Machine = Executor::new();
    executor.spawned(vec!["a"]);
    assert!(matches!(executor.started("a", 1, Poll::Pending), Action::Park));
    assert_eq!(expect_resume(executor.unparked(vec![0])), (0, "a", 1));
    let task = handmade_async::executor::Task { fut: "a", waker: 1 };
    assert!(matches!(executor.resumed(task, Poll::Ready(())), Action::Collect));
    assert!(matches!(executor.spawned(vec![]), Action::Finish));
}

#[test]
fn room_is_what_ids_are_left() {
    let mut executor: Machine = Executor::new();
    assert!(executor.has_room_for(usize::MAX));
    executor.spawned(vec!["a"]);
    assert!(!executor.has_room_for(usize::MAX));
    assert!(executor.has_room_for(usize::MAX - 1));
}

#[test]
fn waking_twice_counts_once() {
    let mut woken = WakeSet::new();
    woken.wake(3);
    woken.wake(1);
    woken.wake(3);
    let mut ids = woken.drain();
    ids.sort();
    assert_eq!(ids, vec![1, 3]);
    assert!(woken.drain().is_empty());
}

#[test]
fn a_recorded_wake_up_is_resumed_after_parking() {
    let mut executor: Machine = Executor::new();
    let mut woken = WakeSet::new();
    executor.spawned(vec!["a", "b"]);
    executor.started("a", 10, Poll::Pending);
    woken.wake(1);
    assert!(matches!(executor.started("b", 11, Poll::Pending), Action::Park));
    assert_eq!(expect_resume(executor.unparked(woken.drain())), (1, "b", 11));
    let task = handmade_async::executor::Task { fut: "b", waker: 11 };
    assert!(matches!(executor.resumed(task, Poll::Pending), Action::Collect));
    assert!(executor.is_waiting(0) && executor.is_waiting(1));
}
