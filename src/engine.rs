//! The poller engine: owns the session, paces polling, reconnects on
//! failure and forwards task snapshots.
//!
//! The engine reads its inbound channel strictly one message at a time. A
//! message either settles at once, or leaves the engine waiting for the
//! outcome of the one session operation it asked for, so no two operations
//! on the session ever overlap.
use crate::pacer::{counter_ok, next_tick, tick};
use crate::task::{Effect, Message, TaskSet};
use vstd::prelude::*;

verus! {

/// Where the engine stands between two messages.
#[derive(Debug, Clone, Copy, PartialEq, Eq, Structural)]
pub enum Phase {
    /// Waiting for the next message.
    Ready,
    /// Waiting for the outcome of opening a session.
    Connecting,
    /// Waiting for the outcome of a poll cycle.
    Polling,
    /// Shut down; no message is taken any more.
    Stopped,
}

/// The engine's state: its phase, whether a session is live, and the pacer
/// counter with its cadence in ticks.
#[derive(Debug, Clone, Copy)]
pub struct Engine {
    pub phase: Phase,
    pub session: bool,
    pub slept: u64,
    pub cadence: u64,
}

/// The engine's answer to a message taken in the `Ready` phase.
pub open spec fn engine_step(e: Engine, m: Message) -> (Engine, Seq<Effect>) {
    match m {
        Message::Quit => (
            Engine { phase: Phase::Stopped, session: false, ..e },
            if e.session { seq![Effect::Logout] } else { seq![] },
        ),
        Message::Delete(uid) => if e.session {
            (e, seq![Effect::RemoveMessage(uid), Effect::Wake(Message::Awake)])
        } else {
            (e, seq![])
        },
        Message::Awake => if e.session {
            (Engine { phase: Phase::Polling, ..e }, seq![Effect::FetchTasks])
        } else {
            (e, seq![Effect::Wake(Message::Connect)])
        },
        Message::Connect => (
            Engine { phase: Phase::Connecting, session: false, ..e },
            seq![Effect::Notify(Message::NotConnected), Effect::OpenSession],
        ),
        _ => {
            let (s, awake) = tick(e.slept, e.cadence);
            (
                Engine { slept: s, ..e },
                seq![Effect::Pause, Effect::Wake(if awake { Message::Awake } else { Message::Sleep })],
            )
        },
    }
}

/// The engine's answer to the outcome of opening a session.
pub open spec fn connect_step(e: Engine, ok: bool) -> (Engine, Seq<Effect>) {
    if ok {
        (
            Engine { phase: Phase::Ready, session: true, ..e },
            seq![Effect::Notify(Message::Connected), Effect::Wake(Message::Awake)],
        )
    } else {
        (Engine { phase: Phase::Ready, session: false, ..e }, seq![Effect::Wake(Message::Sleep)])
    }
}

/// The engine's answer to the outcome of a poll cycle.
pub open spec fn poll_step(e: Engine, tasks: Option<TaskSet>) -> (Engine, Seq<Effect>) {
    match tasks {
        Some(t) => (
            Engine { phase: Phase::Ready, slept: 0, ..e },
            seq![Effect::Notify(Message::Tasks(t)), Effect::Wake(Message::Sleep)],
        ),
        None => (
            Engine { phase: Phase::Ready, session: false, ..e },
            seq![Effect::Wake(Message::Connect)],
        ),
    }
}

/// Runs `k` `Sleep` messages through the engine: the state reached and the
/// number of `Awake` messages it put on its own channel on the way.
pub open spec fn sleep_run(e: Engine, k: nat) -> (Engine, nat)
    decreases k,
{
    if k == 0 {
        (e, 0)
    } else {
        let (e1, fx) = engine_step(e, Message::Sleep);
        let (last, n) = sleep_run(e1, (k - 1) as nat);
        (last, if fx.contains(Effect::Wake(Message::Awake)) { n + 1 } else { n })
    }
}

/// `Quit` ends the engine from any state in which it takes messages: it
/// stops, holds no session, and its only effect is a logout when a session
/// was live. Nothing waits on the logout, so its failure cannot reach anyone.
pub proof fn lemma_quit_stops(e: Engine)
    requires
        e.wf(),
        e.phase == Phase::Ready,
    ensures
        ({
            let (next, fx) = engine_step(e, Message::Quit);
            &&& next.phase == Phase::Stopped
            &&& !next.session
            &&& next.wf()
            &&& fx == if e.session { seq![Effect::Logout] } else { seq![] }
        }),
{
}

/// With a cadence of `c` ticks, a run of `Sleep` messages from a fresh
/// counter wakes the engine exactly once every `c` ticks: `k` ticks put
/// `k / c` `Awake` messages on its channel and leave the counter at `k % c`.
pub proof fn lemma_sleeps_wake_once_per_cadence(e: Engine, k: nat)
    requires
        e.wf(),
        e.phase == Phase::Ready,
        e.slept == 0,
        e.cadence >= 1,
    ensures
        sleep_run(e, k) == (
            Engine { slept: (k % (e.cadence as nat)) as u64, ..e },
            k / (e.cadence as nat),
        ),
{
    lemma_sleep_run_ticks(e, k);
    crate::pacer::lemma_one_wake_per_period(e.cadence, k);
}

proof fn lemma_sleep_run_ticks(e: Engine, k: nat)
    requires
        e.phase == Phase::Ready,
    ensures
        sleep_run(e, k) == (
            Engine { slept: crate::pacer::ticks(e.slept, e.cadence, k).0, ..e },
            crate::pacer::ticks(e.slept, e.cadence, k).1,
        ),
    decreases k,
{
    if k > 0 {
        let (e1, fx) = engine_step(e, Message::Sleep);
        let (s, awake) = tick(e.slept, e.cadence);
        lemma_sleep_run_ticks(e1, (k - 1) as nat);
        if awake {
            assert(fx[1] == Effect::Wake(Message::Awake));
        } else {
            assert(fx =~= seq![Effect::Pause, Effect::Wake(Message::Sleep)]);
            assert(!fx.contains(Effect::Wake(Message::Awake))) by {
                if fx.contains(Effect::Wake(Message::Awake)) {
                    let i = choose|i: int| 0 <= i < fx.len() && fx[i] == Effect::Wake(Message::Awake);
                    assert(i == 0 || i == 1);
                }
            }
        }
    }
}

/// Two deletions taken back to back are carried out one after the other:
/// each removal is followed by its own refresh request before the next
/// removal starts, and the engine stays ready between them.
pub proof fn lemma_deletes_in_sequence(e: Engine, first: u64, second: u64)
    requires
        e.wf(),
        e.phase == Phase::Ready,
        e.session,
    ensures
        ({
            let (e1, fx1) = engine_step(e, Message::Delete(first));
            let (e2, fx2) = engine_step(e1, Message::Delete(second));
            &&& e1 == e
            &&& e2 == e
            &&& fx1 + fx2 == seq![
                Effect::RemoveMessage(first),
                Effect::Wake(Message::Awake),
                Effect::RemoveMessage(second),
                Effect::Wake(Message::Awake),
            ]
        }),
{
    let (e1, fx1) = engine_step(e, Message::Delete(first));
    let (e2, fx2) = engine_step(e1, Message::Delete(second));
    assert(fx1 + fx2 =~= seq![
        Effect::RemoveMessage(first),
        Effect::Wake(Message::Awake),
        Effect::RemoveMessage(second),
        Effect::Wake(Message::Awake),
    ]);
}

impl Engine {
    /// The pacer counter is in range, and a session is live only while the
    /// engine runs.
    pub open spec fn wf(&self) -> bool {
        &&& counter_ok(self.slept, self.cadence)
        &&& self.phase == Phase::Stopped ==> !self.session
    }

    /// A fresh engine polling every `cadence` ticks, and the message it first
    /// puts on its own channel.
    pub fn new(cadence: u64) -> (r: (Engine, Message))
        ensures
            r.0.wf(),
            r.0 == (Engine { phase: Phase::Ready, session: false, slept: 0, cadence }),
            r.1 is Connect,
    {
        (Engine { phase: Phase::Ready, session: false, slept: 0, cadence }, Message::Connect)
    }

    /// Whether the engine has shut down.
    pub fn is_stopped(&self) -> (r: bool)
        ensures
            r == (self.phase == Phase::Stopped),
    {
        self.phase == Phase::Stopped
    }

    /// Takes one message from the inbound channel.
    pub fn handle(&mut self, m: Message) -> (r: Vec<Effect>)
        requires
            old(self).wf(),
            old(self).phase == Phase::Ready,
            m.is_command(),
        ensures
            final(self).wf(),
            (*final(self), r@) == engine_step(*old(self), m),
    {
        let mut r = Vec::new();
        match m {
            Message::Quit => {
                if self.session {
                    r.push(Effect::Logout);
                }
                self.phase = Phase::Stopped;
                self.session = false;
            },
            Message::Delete(uid) => {
                if self.session {
                    r.push(Effect::RemoveMessage(uid));
                    r.push(Effect::Wake(Message::Awake));
                }
            },
            Message::Awake => {
                if self.session {
                    self.phase = Phase::Polling;
                    r.push(Effect::FetchTasks);
                } else {
                    r.push(Effect::Wake(Message::Connect));
                }
            },
            Message::Connect => {
                self.phase = Phase::Connecting;
                self.session = false;
                r.push(Effect::Notify(Message::NotConnected));
                r.push(Effect::OpenSession);
            },
            _ => {
                let (s, awake) = next_tick(self.slept, self.cadence);
                self.slept = s;
                r.push(Effect::Pause);
                r.push(Effect::Wake(if awake { Message::Awake } else { Message::Sleep }));
            },
        }
        proof {
            assert(r@ =~= engine_step(*old(self), m).1);
        }
        r
    }

    /// Takes the outcome of an attempt to open a session.
    pub fn connect_finished(&mut self, ok: bool) -> (r: Vec<Effect>)
        requires
            old(self).wf(),
            old(self).phase == Phase::Connecting,
        ensures
            final(self).wf(),
            (*final(self), r@) == connect_step(*old(self), ok),
    {
        let mut r = Vec::new();
        self.phase = Phase::Ready;
        self.session = ok;
        if ok {
            r.push(Effect::Notify(Message::Connected));
            r.push(Effect::Wake(Message::Awake));
        } else {
            r.push(Effect::Wake(Message::Sleep));
        }
        proof {
            assert(r@ =~= connect_step(*old(self), ok).1);
        }
        r
    }

    /// Takes the outcome of a poll cycle: the snapshot, or `None` when the
    /// cycle failed and the session is to be dropped.
    pub fn poll_finished(&mut self, tasks: Option<TaskSet>) -> (r: Vec<Effect>)
        requires
            old(self).wf(),
            old(self).phase == Phase::Polling,
        ensures
            final(self).wf(),
            (*final(self), r@) == poll_step(*old(self), tasks),
    {
        let mut r = Vec::new();
        self.phase = Phase::Ready;
        match tasks {
            Some(t) => {
                self.slept = 0;
                r.push(Effect::Notify(Message::Tasks(t)));
                r.push(Effect::Wake(Message::Sleep));
            },
            None => {
                self.session = false;
                r.push(Effect::Wake(Message::Connect));
            },
        }
        proof {
            assert(r@ =~= poll_step(*old(self), tasks).1);
        }
        r
    }
}

} // verus!
