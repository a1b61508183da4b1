//! The one-second tick counter that paces polling, and the stand-alone
//! backup pacer built on it.
use crate::task::{Effect, Message};
use core::time::Duration;
use vstd::prelude::*;

verus! {

/// Relies on core::time::Duration::new, which panics only when the
/// nanoseconds carry over into a full seconds counter.
pub assume_specification[ core::time::Duration::new ](secs: u64, nanos: u32) -> Duration
    requires
        nanos < 1_000_000_000,
;

/// One full polling period.
pub fn duration() -> Duration {
    Duration::new(crate::SLEEP, 0)
}

/// One tick of the pacer: the counter after the tick, and whether the tick
/// completes a period (the counter then starts over from zero).
pub open spec fn tick(slept: u64, cadence: u64) -> (u64, bool) {
    if slept + 1 >= cadence {
        (0, true)
    } else {
        ((slept + 1) as u64, false)
    }
}

/// Counter and number of completed periods after `k` ticks from `slept`.
pub open spec fn ticks(slept: u64, cadence: u64, k: nat) -> (u64, nat)
    decreases k,
{
    if k == 0 {
        (slept, 0)
    } else {
        let (s, awake) = tick(slept, cadence);
        let (last, n) = ticks(s, cadence, (k - 1) as nat);
        (last, if awake { n + 1 } else { n })
    }
}

/// A counter within a period stays below the cadence, or is zero.
pub open spec fn counter_ok(slept: u64, cadence: u64) -> bool {
    slept == 0 || slept < cadence
}

/// Advances the counter by one tick.
pub fn next_tick(slept: u64, cadence: u64) -> (r: (u64, bool))
    requires
        counter_ok(slept, cadence),
    ensures
        r == tick(slept, cadence),
        counter_ok(r.0, cadence),
{
    let s = slept + 1;
    if s >= cadence {
        (0, true)
    } else {
        (s, false)
    }
}

/// A pacer with a cadence of `c` ticks completes exactly one period every
/// `c` ticks: from a fresh counter, `k` ticks complete `k / c` periods and
/// leave the counter at `k % c`.
pub proof fn lemma_one_wake_per_period(cadence: u64, k: nat)
    requires
        cadence >= 1,
    ensures
        ticks(0, cadence, k) == ((k % (cadence as nat)) as u64, k / (cadence as nat)),
{
    lemma_ticks_from(0, cadence, k);
}

proof fn lemma_ticks_from(slept: u64, cadence: u64, k: nat)
    requires
        cadence >= 1,
        slept < cadence,
    ensures
        ticks(slept, cadence, k) == (((slept as nat + k) % (cadence as nat)) as u64, ((slept as nat + k) / (cadence as nat)) as nat),
    decreases k,
{
    let c = cadence as nat;
    if k == 0 {
        vstd::arithmetic::div_mod::lemma_small_mod(slept as nat, c);
        vstd::arithmetic::div_mod::lemma_basic_div(slept as int, c as int);
    } else {
        let (s, awake) = tick(slept, cadence);
        lemma_ticks_from(s, cadence, (k - 1) as nat);
        if awake {
            assert(slept + 1 == c);
            let m = (k - 1) as nat;
            assert((slept + k) == c + m);
            vstd::arithmetic::div_mod::lemma_mod_add_multiples_vanish(m as int, c as int);
            vstd::arithmetic::div_mod::lemma_div_plus_one(m as int, c as int);
        } else {
            assert(s == slept + 1);
        }
    }
}

/// The backup pacer: wakes up once per period for as long as it runs.
#[derive(Debug, Clone, Copy)]
pub struct Backup {
    pub slept: u64,
    pub cadence: u64,
    pub stopped: bool,
}

/// What the backup pacer does on a message: the next state and its effects.
pub open spec fn backup_step(b: Backup, m: Message) -> (Backup, Seq<Effect>) {
    match m {
        Message::Quit => (Backup { stopped: true, ..b }, seq![]),
        Message::Awake => (b, seq![Effect::Wake(Message::Sleep)]),
        _ => {
            let (s, awake) = tick(b.slept, b.cadence);
            (
                Backup { slept: s, ..b },
                seq![Effect::Pause, Effect::Wake(if awake { Message::Awake } else { Message::Sleep })],
            )
        },
    }
}

impl Backup {
    pub open spec fn wf(&self) -> bool {
        counter_ok(self.slept, self.cadence)
    }

    /// A running pacer and the message it first sends itself.
    pub fn new(cadence: u64) -> (r: (Backup, Message))
        ensures
            r.0.wf(),
            r.0 == (Backup { slept: 0, cadence, stopped: false }),
            r.1 is Awake,
    {
        (Backup { slept: 0, cadence, stopped: false }, Message::Awake)
    }

    /// Handles one message from the pacer's inbound channel.
    pub fn handle(&mut self, m: Message) -> (r: Vec<Effect>)
        requires
            old(self).wf(),
            !old(self).stopped,
            m is Quit || m is Awake || m is Sleep,
        ensures
            final(self).wf(),
            (*final(self), r@) == backup_step(*old(self), m),
    {
        match m {
            Message::Quit => {
                self.stopped = true;
                Vec::new()
            },
            Message::Awake => {
                let mut r = Vec::new();
                r.push(Effect::Wake(Message::Sleep));
                r
            },
            _ => {
                let (s, awake) = next_tick(self.slept, self.cadence);
                self.slept = s;
                let mut r = Vec::new();
                r.push(Effect::Pause);
                r.push(Effect::Wake(if awake { Message::Awake } else { Message::Sleep }));
                r
            },
        }
    }
}

} // verus!
