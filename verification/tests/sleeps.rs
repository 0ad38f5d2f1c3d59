use handmade_async::busy;
use handmade_async::driver::{announce, busy_turn, parking_turn, polled_once, Next};
use handmade_async::poll::Poll;
use handmade_async::script::{Cue, Script};
use handmade_async::timer::{self, TimerAction};

#[test]
fn a_busy_sleep_is_ready_when_its_time_has_passed() {
    let sleep = busy::sleep(1_000, 500);
    assert!(matches!(sleep.poll(500), Poll::Pending));
    assert!(matches!(sleep.poll(1_499), Poll::Pending));
    assert!(matches!(sleep.poll(1_500), Poll::Ready(())));
    assert!(matches!(sleep.poll(9_999), Poll::Ready(())));
    assert!(matches!(sleep.poll(0), Poll::Pending));
    assert!(matches!(busy::sleep(0, 500).poll(0), Poll::Ready(())));
}

#[test]
fn a_timed_sleep_starts_one_thread_and_is_ready_after_it_fired() {
    let mut sleep = timer::sleep(3_000);
    let alarm = match sleep.poll("first") {
        TimerAction::Start(alarm) => alarm,
        _ => panic!("the first poll starts the thread"),
    };
    assert_eq!(alarm.nanos(), 3_000);
    assert!(matches!(sleep.poll("second"), TimerAction::Wait));
    assert!(!sleep.ready);
    let mut other = timer::sleep(7);
    let waker = String::from("own");
    match other.poll(&waker) {
        TimerAction::Start(alarm) => assert_eq!(alarm.owned().ring(&mut other), "own"),
        _ => panic!("the first poll starts the thread"),
    }
    assert_eq!(alarm.ring(&mut sleep), "first");
    assert!(matches!(sleep.poll("second"), TimerAction::Done));
    assert!(matches!(sleep.poll("third"), TimerAction::Done));
}

#[test]
fn turns_of_a_single_future() {
    assert_eq!(polled_once(&Poll::Ready(())), "ready");
    assert_eq!(polled_once(&Poll::Pending), "pending");
    assert_eq!(announce(&Poll::Ready(())), Some("ready"));
    assert_eq!(announce(&Poll::Pending), None);

    let turn = busy_turn(&Poll::Pending);
    assert_eq!(turn.say, ".");
    assert!(matches!(turn.next, Next::Pause(1_000_000)));
    let turn = busy_turn(&Poll::Ready(()));
    assert_eq!(turn.say, "ready");
    assert!(matches!(turn.next, Next::Stop));

    let turn = parking_turn(&Poll::Pending);
    assert_eq!(turn.say, "parking");
    assert!(matches!(turn.next, Next::Park));
    let turn = parking_turn(&Poll::Ready(()));
    assert_eq!(turn.say, "ready");
    assert!(matches!(turn.next, Next::Stop));
}

fn lines(mut script: Script) -> Vec<String> {
    let mut lines = Vec::new();
    while let Some(cue) = script.next() {
        lines.push(match cue {
            Cue::Say(line) => line.to_string(),
            Cue::Nap(nanos) => format!("nap {nanos}"),
            Cue::SpawnSleeper => "spawn".to_string(),
        });
    }
    assert!(script.next().is_none());
    lines
}

#[test]
fn scripts_play_in_order() {
    let two_naps = vec![
        "printer: going to sleep",
        "nap 1000000000",
        "printer: had a nice nap",
        "nap 2000000000",
        "printer: had another nice nap",
    ];
    assert_eq!(lines(Script::hello()), vec!["hello!"]);
    assert_eq!(lines(Script::two_naps()), two_naps);
    assert_eq!(lines(Script::two_naps_with_sleeper())[0], "spawn");
    assert_eq!(lines(Script::two_naps_with_sleeper())[1..], two_naps);
    assert_eq!(lines(Script::sleeper()), vec!["nap 3000000000", "sleeper: woke up"]);
    assert_eq!(
        lines(Script::one_nap()),
        vec!["printer: going to sleep", "nap 3000000000", "printer: had a nice nap"]
    );
}
