use handmade_async::poll::Poll;
use handmade_async::rota::{Action, Rota};

fn expect_poll(action: Action<&'static str>) -> &'static str {
    match action {
        Action::Poll(fut) => fut,
        _ => panic!("expected a task to poll"),
    }
}

#[test]
fn a_round_polls_in_order_and_keeps_pending_tasks() {
    let mut rota: Rota<&'static str> = Rota::new();
    assert_eq!(expect_poll(rota.spawned(vec!["a", "b", "c"])), "a");
    assert_eq!(expect_poll(rota.polled("a", Poll::Pending)), "b");
    assert_eq!(expect_poll(rota.polled("b", Poll::Ready(()))), "c");
    assert!(matches!(rota.polled("c", Poll::Pending), Action::Pause(1_000_000)));
    assert!(matches!(rota.rested(), Action::Collect));

    assert_eq!(expect_poll(rota.spawned(vec!["d"])), "a");
    assert_eq!(expect_poll(rota.polled("a", Poll::Pending)), "c");
    assert_eq!(expect_poll(rota.polled("c", Poll::Pending)), "d");
    assert!(matches!(rota.polled("d", Poll::Ready(())), Action::Pause(_)));
}

#[test]
fn the_rota_pauses_before_it_finishes() {
    let mut rota: Rota<&'static str> = Rota::new();
    assert_eq!(expect_poll(rota.spawned(vec!["a"])), "a");
    assert!(matches!(rota.polled("a", Poll::Ready(())), Action::Pause(_)));
    assert!(matches!(rota.rested(), Action::Collect));
    assert!(matches!(rota.spawned(vec![]), Action::Finish));
}

#[test]
fn an_empty_rota_finishes() {
    let mut rota: Rota<&'static str> = Rota::new();
    assert!(matches!(rota.spawned(vec![]), Action::Finish));
}
