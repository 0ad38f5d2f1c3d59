use handmade_async::selector::{
    register_wfd, DrainStep, NewWfds, ReadOutcome, Selector, DRAIN_BUF,
};

const PING_RX: i32 = 5;

fn draining() -> Selector<&'static str> {
    let mut selector = Selector::new(PING_RX);
    assert!(selector.selected(&vec![PING_RX], &vec![]).drain);
    selector
}

fn absorb(selector: &mut Selector<&'static str>, new_wfds: &mut NewWfds<&'static str>) {
    assert!(selector.selected(&vec![PING_RX], &vec![]).drain);
    assert!(matches!(selector.drain_fd(ReadOutcome::Bytes(1)), DrainStep::Again));
    assert!(matches!(selector.drain_fd(ReadOutcome::WouldBlock), DrainStep::Absorb));
    selector.absorb(new_wfds);
}

#[test]
fn a_new_selector_watches_its_ping_pipe_alone() {
    let selector: Selector<&'static str> = Selector::new(5);
    let watch = selector.watch();
    assert_eq!(watch.read, 5);
    assert!(watch.write.is_empty());
}

#[test]
fn registrations_are_absorbed_and_woken_once() {
    let mut new_wfds: NewWfds<&'static str> = NewWfds::new();
    assert_eq!(register_wfd(&mut new_wfds, 7, "seven"), 0);
    assert_eq!(register_wfd(&mut new_wfds, 8, "eight"), 0);

    let mut selector: Selector<&'static str> = Selector::new(5);
    absorb(&mut selector, &mut new_wfds);

    let mut write = selector.watch().write;
    write.sort();
    assert_eq!(write, vec![7, 8]);

    let selected = selector.selected(&vec![], &vec![7, 9]);
    assert!(!selected.drain);
    assert_eq!(selected.wake, vec![(7, "seven")]);
    assert_eq!(selector.watch().write, vec![8]);
    assert!(selector.selected(&vec![], &vec![7]).wake.is_empty());

    absorb(&mut selector, &mut new_wfds);
    assert_eq!(selector.watch().write, vec![8]);
}

#[test]
fn a_later_registration_replaces_an_earlier_one() {
    let mut new_wfds: NewWfds<&'static str> = NewWfds::new();
    let mut selector: Selector<&'static str> = Selector::new(5);
    register_wfd(&mut new_wfds, 7, "old");
    absorb(&mut selector, &mut new_wfds);
    register_wfd(&mut new_wfds, 7, "newer");
    register_wfd(&mut new_wfds, 7, "newest");
    absorb(&mut selector, &mut new_wfds);
    assert_eq!(selector.selected(&vec![5], &vec![7]).wake, vec![(7, "newest")]);
}

#[test]
fn draining_stops_at_the_end_or_when_it_would_block() {
    let mut selector = draining();
    assert!(matches!(selector.drain_fd(ReadOutcome::Bytes(DRAIN_BUF)), DrainStep::Again));
    assert!(matches!(selector.drain_fd(ReadOutcome::Bytes(1)), DrainStep::Again));
    assert!(matches!(selector.drain_fd(ReadOutcome::Bytes(0)), DrainStep::Absorb));
    assert!(matches!(draining().drain_fd(ReadOutcome::WouldBlock), DrainStep::Absorb));
    assert!(matches!(draining().drain_fd(ReadOutcome::Failed(9)), DrainStep::Fail(9)));
}

#[test]
fn a_ping_pipe_of_forty_bytes_is_drained_in_four_reads() {
    let mut held: usize = 40;
    let mut reads: usize = 0;
    let mut selector = draining();
    loop {
        let n = held.min(DRAIN_BUF);
        held -= n;
        reads += 1;
        let outcome = if n == 0 { ReadOutcome::WouldBlock } else { ReadOutcome::Bytes(n) };
        match selector.drain_fd(outcome) {
            DrainStep::Again => continue,
            DrainStep::Absorb => break,
            DrainStep::Fail(_) => panic!("the reads succeed"),
        }
    }
    assert_eq!((held, reads), (0, 4));
}

#[test]
fn a_registration_is_held_until_its_descriptor_is_writable() {
    let mut new_wfds: NewWfds<&'static str> = NewWfds::new();
    let mut selector: Selector<&'static str> = Selector::new(5);
    register_wfd(&mut new_wfds, 7, "seven");
    absorb(&mut selector, &mut new_wfds);
    register_wfd(&mut new_wfds, 8, "eight");
    assert!(selector.selected(&vec![], &vec![8]).wake.is_empty());
    absorb(&mut selector, &mut new_wfds);
    assert_eq!(selector.selected(&vec![], &vec![8]).wake, vec![(8, "eight")]);
    assert_eq!(selector.selected(&vec![], &vec![7]).wake, vec![(7, "seven")]);
}
