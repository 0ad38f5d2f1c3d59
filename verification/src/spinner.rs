//! The progress display: a turning bar and the number of bytes sent.

use vstd::prelude::*;

use crate::text::decimal_text;
use crate::timer::{Timer, TimerEvent};

verus! {

/// How long a frame is shown, in nanoseconds.
pub const FRAME: u128 = 100_000_000;

/// The positions of the bar, in turn.
pub open spec fn symbols() -> Seq<char> {
    seq!['-', '\\', '|', '/']
}

/// The position that follows `position`.
pub open spec fn turned(position: nat) -> nat {
    (position + 1) % symbols().len()
}

/// The text that shows a symbol and a byte count at the start of the line.
pub open spec fn frame_text(symbol: char, sent: nat) -> Seq<char> {
    seq!['\r', symbol, ' '] + crate::text::decimal(sent)
}

/// The text of a frame is a carriage return, the symbol, a space and then the
/// count in decimal: the rest of the text, read back as a number, gives the
/// count.
pub proof fn a_frame_tells_the_count(symbol: char, sent: nat)
    ensures
        frame_text(symbol, sent).len() > 3,
        frame_text(symbol, sent)[0] == '\r',
        frame_text(symbol, sent)[1] == symbol,
        frame_text(symbol, sent)[2] == ' ',
        crate::text::reads_as(frame_text(symbol, sent).skip(3), sent),
{
    crate::text::decimal_reads_back(sent);
    assert(frame_text(symbol, sent).skip(3) =~= crate::text::decimal(sent));
}

/// Frames with different symbols or different counts have different texts.
pub proof fn different_frames_differ(a: char, m: nat, b: char, n: nat)
    requires
        a != b || m != n,
    ensures
        frame_text(a, m) != frame_text(b, n),
{
    a_frame_tells_the_count(a, m);
    a_frame_tells_the_count(b, n);
}

/// The positions of the bar follow each other round: four of them, each with a
/// symbol of its own.
pub proof fn the_bar_has_four_positions(position: nat)
    requires
        position < 4,
    ensures
        symbols() == seq!['-', '\\', '|', '/'],
        turned(position) == if position == 3 {
            0
        } else {
            position + 1
        },
{
    assert(symbols().len() == 4);
}

/// A frame to be written, and how long to sleep before the next one.
pub struct Frame {
    pub text: String,
    /// In nanoseconds.
    pub pause: u128,
}

/// The display and the position that the bar is in next.
pub struct Spinner {
    position: usize,
}

impl Spinner {
    /// The position of the bar in the next frame.
    pub closed spec fn position(&self) -> nat {
        self.position as nat
    }

    /// Whether the position is one of the bar's.
    pub open spec fn wf(&self) -> bool {
        self.position() < symbols().len()
    }

    /// The display before its first frame.
    pub fn new() -> (spinner: Self)
        ensures
            spinner.wf(),
            spinner.position() == 0,
    {
        Spinner { position: 0 }
    }

    fn prefix(&self) -> (prefix: &'static str)
        requires
            self.wf(),
        ensures
            prefix@ == seq!['\r', symbols()[self.position() as int], ' '],
    {
        proof {
            reveal_strlit("\r- ");
            reveal_strlit("\r\\ ");
            reveal_strlit("\r| ");
            reveal_strlit("\r/ ");
        }
        match self.position {
            0 => "\r- ",
            1 => "\r\\ ",
            2 => "\r| ",
            _ => "\r/ ",
        }
    }

    /// The next frame; the bar then turns by one position.
    pub fn frame(&mut self, sent: usize) -> (frame: Frame)
        requires
            old(self).wf(),
        ensures
            final(self).wf(),
            final(self).position() == turned(old(self).position()),
            frame.text@ == frame_text(symbols()[old(self).position() as int], sent as nat),
            final(self).position() == (old(self).position() + 1) % 4,
            frame.text@.len() > 3,
            frame.text@[0] == '\r',
            frame.text@[1] == seq!['-', '\\', '|', '/'][old(self).position() as int],
            frame.text@[2] == ' ',
            crate::text::reads_as(frame.text@.skip(3), sent as nat),
            frame.pause == FRAME,
            frame.pause == 100_000_000,
    {
        let mut text: String = String::new();
        text.append(self.prefix());
        text.append(decimal_text(sent).as_str());
        assert(text@ == frame_text(symbols()[self.position() as int], sent as nat));
        proof {
            a_frame_tells_the_count(symbols()[self.position() as int], sent as nat);
        }
        self.position = (self.position + 1) % 4;
        Frame { text, pause: FRAME }
    }
}

/// The position of the bar in frame number `n`, counted from zero.
pub open spec fn position_in_frame(n: nat) -> nat
    decreases n,
{
    if n == 0 {
        0
    } else {
        turned(position_in_frame((n - 1) as nat))
    }
}

/// Frame number `n` shows the symbol number `n` modulo the number of symbols.
pub proof fn the_bar_turns_round(n: nat)
    ensures
        position_in_frame(n) == n % symbols().len(),
    decreases n,
{
    assert(symbols().len() == 4);
    if n > 0 {
        the_bar_turns_round((n - 1) as nat);
    }
}

/// A frame that was written.
pub struct Shown {
    pub time: nat,
    pub position: nat,
    pub sent: nat,
}

impl Shown {
    /// The text of the frame.
    pub open spec fn text(self) -> Seq<char> {
        frame_text(symbols()[self.position as int], self.sent)
    }
}

/// A display in time: it writes a frame, sleeps for the frame's pause on a
/// timed sleep, and goes on to the next frame when a poll finds the sleep over.
pub struct Display<W> {
    pub position: nat,
    pub now: nat,
    /// The frames written so far.
    pub frames: Seq<Shown>,
    /// The sleep after the last frame, until a poll finds it over.
    pub rest: Option<Timer<W>>,
    /// When that sleep was first polled, and with which waker.
    pub first: Option<(nat, W)>,
}

/// What can happen to a display.
pub enum DisplayEvent<W> {
    /// A frame is written that shows so many bytes sent.
    Show(nat),
    /// Something happens to the sleep after the last frame.
    Rest(TimerEvent<W>),
    /// A poll finds that sleep over.
    Resume,
    /// So much time passes while the display is not asleep.
    Pass(nat),
}

impl<W> Display<W> {
    /// A display that has written no frame.
    pub open spec fn init(now: nat) -> Self {
        Display { position: 0, now, frames: Seq::empty(), rest: None, first: None }
    }

    /// A frame is written only when no sleep is under way, and a sleep is left
    /// only when it is over.
    pub open spec fn enabled(self, event: DisplayEvent<W>) -> bool {
        match (event, self.rest) {
            (DisplayEvent::Show(_), None) => true,
            (DisplayEvent::Rest(event), Some(timer)) => timer.enabled(event),
            (DisplayEvent::Resume, Some(timer)) => timer.sleep.is_over(),
            (DisplayEvent::Pass(_), None) => true,
            _ => false,
        }
    }

    /// The state after an event.
    pub open spec fn step(self, event: DisplayEvent<W>) -> Self {
        match event {
            DisplayEvent::Show(sent) => Display {
                position: turned(self.position),
                frames: self.frames.push(
                    Shown { time: self.now, position: self.position, sent },
                ),
                rest: Some(Timer::init(FRAME, self.now)),
                first: None,
                ..self
            },
            DisplayEvent::Rest(event) => {
                let timer = self.rest->0;
                Display {
                    now: timer.step(event).now,
                    rest: Some(timer.step(event)),
                    first: timer.first_with(self.first, event),
                    ..self
                }
            },
            DisplayEvent::Resume => Display { rest: None, ..self },
            DisplayEvent::Pass(time) => Display { now: self.now + time, ..self },
        }
    }

    /// The state after a history of events.
    pub open spec fn run(self, events: Seq<DisplayEvent<W>>) -> Self
        decreases events.len(),
    {
        if events.len() == 0 {
            self
        } else {
            self.run(events.drop_last()).step(events.last())
        }
    }

    /// Whether each event of a history was enabled when it came.
    pub open spec fn admits(self, events: Seq<DisplayEvent<W>>) -> bool
        decreases events.len(),
    {
        events.len() > 0 ==> self.admits(events.drop_last()) && self.run(
            events.drop_last(),
        ).enabled(events.last())
    }

    /// Frame by frame the bar turns and the time of a pause passes; the sleep
    /// after the last frame began no earlier than that frame.
    pub open spec fn paced(self) -> bool {
        let n = self.frames.len() as int;
        &&& self.position == position_in_frame(self.frames.len())
        &&& forall|k: int|
            0 <= k < n ==> (#[trigger] self.frames[k]).position == position_in_frame(k as nat)
        &&& forall|j: int, k: int|
            0 <= j < k < n ==> (#[trigger] self.frames[k]).time >= (
            #[trigger] self.frames[j]).time + (k - j) * FRAME
        &&& match self.rest {
            Some(timer) => {
                &&& n > 0
                &&& timer.now == self.now
                &&& timer.told_by(FRAME, self.first)
                &&& self.now >= self.frames[n - 1].time
                &&& self.first matches Some((since, _)) ==> since >= self.frames[n - 1].time
            },
            None => n > 0 ==> self.now >= self.frames[n - 1].time + FRAME,
        }
    }

    proof fn step_keeps_pace(self, event: DisplayEvent<W>)
        requires
            self.paced(),
            self.enabled(event),
        ensures
            self.step(event).paced(),
    {
        let n = self.frames.len() as int;
        let after = self.step(event);
        match event {
            DisplayEvent::Show(_) => {
                assert forall|j: int, k: int| 0 <= j < k < n + 1 implies (
                #[trigger] after.frames[k]).time >= (#[trigger] after.frames[j]).time + (k - j)
                    * FRAME by {
                    assert(after.frames[j] == self.frames[j]);
                    if k < n {
                        assert(after.frames[k] == self.frames[k]);
                    } else if j < n - 1 {
                        assert(self.frames[n - 1].time >= self.frames[j].time + (n - 1 - j)
                            * FRAME);
                    }
                }
                assert forall|k: int| 0 <= k < n + 1 implies (
                #[trigger] after.frames[k]).position == position_in_frame(k as nat) by {
                    if k < n {
                        assert(after.frames[k] == self.frames[k]);
                    }
                }
            },
            DisplayEvent::Rest(event) => {
                (self.rest->0).step_keeps_told_by(FRAME, self.first, event);
            },
            _ => {},
        }
    }

    proof fn every_history_is_paced(start: nat, events: Seq<DisplayEvent<W>>)
        requires
            Self::init(start).admits(events),
        ensures
            Self::init(start).run(events).paced(),
        decreases events.len(),
    {
        if events.len() > 0 {
            let before = events.drop_last();
            Self::every_history_is_paced(start, before);
            Self::init(start).run(before).step_keeps_pace(events.last());
        }
    }

    /// Frames lie apart by at least the pause of a frame each, however the
    /// display is polled.
    pub proof fn frames_are_a_pause_apart(start: nat, events: Seq<DisplayEvent<W>>, j: int, k: int)
        requires
            Self::init(start).admits(events),
            0 <= j < k < Self::init(start).run(events).frames.len(),
        ensures
            ({
                let frames = Self::init(start).run(events).frames;
                frames[k].time >= frames[j].time + (k - j) * FRAME
            }),
    {
        Self::every_history_is_paced(start, events);
    }

    /// Frame number `k`, counted from zero, shows the symbol number `k` modulo
    /// the number of symbols, and the count of bytes sent when it was written.
    pub proof fn frames_show_the_symbols_in_turn(start: nat, events: Seq<DisplayEvent<W>>, k: int)
        requires
            Self::init(start).admits(events),
            0 <= k < Self::init(start).run(events).frames.len(),
        ensures
            ({
                let frame = Self::init(start).run(events).frames[k];
                frame.text() == frame_text(symbols()[k % symbols().len() as int], frame.sent)
            }),
    {
        Self::every_history_is_paced(start, events);
        the_bar_turns_round(k as nat);
        let frame = Self::init(start).run(events).frames[k];
        assert(frame.position == position_in_frame(k as nat));
    }
}

} // verus!
