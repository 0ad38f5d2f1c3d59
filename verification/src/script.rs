//! The scripts of the printing tasks.

use vstd::prelude::*;

verus! {

/// One line of a script.
#[derive(Clone, Copy, Debug)]
pub enum Cue {
    /// Print the line.
    Say(&'static str),
    /// Sleep for that many nanoseconds.
    Nap(u128),
    /// Spawn a task that plays the sleeper's script.
    SpawnSleeper,
}

/// A nanosecond count of one second.
pub const SECOND: u128 = 1_000_000_000;

/// A script and the place that it is played up to.
pub struct Script {
    cues: Vec<Cue>,
    next: usize,
}

impl Script {
    /// The cues that are yet to be played.
    pub closed spec fn remaining(&self) -> Seq<Cue> {
        self.cues@.skip(self.next as int)
    }

    /// Whether the place is within the script.
    pub closed spec fn wf(&self) -> bool {
        self.next <= self.cues@.len()
    }

    fn of(cues: Vec<Cue>) -> (script: Self)
        ensures
            script.wf(),
            script.remaining() == cues@,
    {
        let script = Script { cues, next: 0 };
        assert(script.remaining() == cues@);
        script
    }

    /// Greets and is done.
    pub fn hello() -> (script: Self)
        ensures
            script.wf(),
            script.remaining() == seq![Cue::Say("hello!")],
    {
        let cues: Vec<Cue> = vec![Cue::Say("hello!")];
        assert(cues@ == seq![Cue::Say("hello!")]);
        Self::of(cues)
    }

    /// Sleeps for one second and then for two, and tells of it.
    pub fn two_naps() -> (script: Self)
        ensures
            script.wf(),
            script.remaining() == Self::two_nap_cues(),
    {
        let cues: Vec<Cue> = vec![
            Cue::Say("printer: going to sleep"),
            Cue::Nap(SECOND),
            Cue::Say("printer: had a nice nap"),
            Cue::Nap(2 * SECOND),
            Cue::Say("printer: had another nice nap"),
        ];
        assert(cues@ == Self::two_nap_cues());
        Self::of(cues)
    }

    /// The cues of a printer that takes two naps.
    pub open spec fn two_nap_cues() -> Seq<Cue> {
        seq![
            Cue::Say("printer: going to sleep"),
            Cue::Nap(1_000_000_000),
            Cue::Say("printer: had a nice nap"),
            Cue::Nap(2_000_000_000),
            Cue::Say("printer: had another nice nap"),
        ]
    }

    /// Spawns the sleeper, then takes two naps.
    pub fn two_naps_with_sleeper() -> (script: Self)
        ensures
            script.wf(),
            script.remaining() == seq![Cue::SpawnSleeper] + Self::two_nap_cues(),
    {
        let cues: Vec<Cue> = vec![
            Cue::SpawnSleeper,
            Cue::Say("printer: going to sleep"),
            Cue::Nap(SECOND),
            Cue::Say("printer: had a nice nap"),
            Cue::Nap(2 * SECOND),
            Cue::Say("printer: had another nice nap"),
        ];
        assert(cues@ == seq![Cue::SpawnSleeper] + Self::two_nap_cues());
        Self::of(cues)
    }

    /// Sleeps for three seconds and tells when it is over.
    pub fn sleeper() -> (script: Self)
        ensures
            script.wf(),
            script.remaining() == seq![Cue::Nap(3_000_000_000), Cue::Say("sleeper: woke up")],
    {
        let cues: Vec<Cue> = vec![Cue::Nap(3 * SECOND), Cue::Say("sleeper: woke up")];
        assert(cues@ == seq![Cue::Nap(3_000_000_000), Cue::Say("sleeper: woke up")]);
        Self::of(cues)
    }

    /// Sleeps for three seconds, and tells of it.
    pub fn one_nap() -> (script: Self)
        ensures
            script.wf(),
            script.remaining() == seq![
                Cue::Say("printer: going to sleep"),
                Cue::Nap(3_000_000_000),
                Cue::Say("printer: had a nice nap"),
            ],
    {
        let cues: Vec<Cue> = vec![
            Cue::Say("printer: going to sleep"),
            Cue::Nap(3 * SECOND),
            Cue::Say("printer: had a nice nap"),
        ];
        assert(cues@ == seq![
            Cue::Say("printer: going to sleep"),
            Cue::Nap(3_000_000_000),
            Cue::Say("printer: had a nice nap"),
        ]);
        Self::of(cues)
    }

    /// The next cue, or `None` at the end of the script.
    pub fn next(&mut self) -> (cue: Option<Cue>)
        requires
            old(self).wf(),
        ensures
            final(self).wf(),
            old(self).remaining().len() == 0 ==> cue is None && final(self).remaining() == old(
                self,
            ).remaining(),
            old(self).remaining().len() > 0 ==> cue == Some(old(self).remaining().first())
                && final(self).remaining() == old(self).remaining().drop_first(),
    {
        if self.next < self.cues.len() {
            let cue = self.cues[self.next];
            self.next = self.next + 1;
            assert(self.remaining() == old(self).remaining().drop_first());
            Some(cue)
        } else {
            None
        }
    }
}

} // verus!
