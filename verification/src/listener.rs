//! Keeping the listener running: what to do next after each thing that happens
//! to it.

use vstd::prelude::*;

use crate::push::{Ingested, PushModel, PushStore};

verus! {

/// The first wait before the listener is started again, in milliseconds.
pub const BACKOFF_MIN_MS: u64 = 1000;

/// The longest wait before the listener is started again, in milliseconds.
pub const BACKOFF_MAX_MS: u64 = 30000;

/// A listener that lived this long, in milliseconds, was well: its loss counts
/// as the first.
pub const BACKOFF_RESET_AFTER_MS: u64 = 60000;

/// How long a listener may live on after its output has ended, in
/// milliseconds.
pub const CHILD_EXIT_GRACE_MS: u64 = 2000;

/// How long a listener has to live, in milliseconds, before the lights are
/// read: one that dies at once is no reason to read them all, again and again.
pub const REBASELINE_DELAY_MS: u64 = 3000;

/// How many changes are held for one who watches and is slow.
pub const BROADCAST_CAPACITY: usize = 64;

/// Whether the given loss in a row is worth a warning. One or two are expected.
pub fn listener_loss_is_alarming(losses: u32) -> (r: bool)
    ensures
        r == (losses >= 3),
{
    losses >= 3
}

/// How long to wait before the listener is started again, and how often it was
/// lost in a row.
#[derive(Debug, Clone, Copy, PartialEq, Eq, Structural)]
pub struct Backoff {
    pub wait_ms: u64,
    pub losses: u32,
}

/// What to do about a loss.
#[derive(Debug, Clone, Copy, PartialEq, Eq, Structural)]
pub struct Loss {
    /// How long to wait before the listener is started again.
    pub wait_ms: u64,
    /// How many losses in a row this makes.
    pub losses: u32,
    /// Whether it is worth a warning.
    pub alarming: bool,
}

impl Backoff {
    /// Before any loss.
    pub open spec fn initial() -> Backoff {
        Backoff { wait_ms: BACKOFF_MIN_MS, losses: 0 }
    }

    /// The wait is within its limits.
    pub open spec fn within_limits(self) -> bool {
        BACKOFF_MIN_MS <= self.wait_ms <= BACKOFF_MAX_MS
    }

    /// A listener that lived that long was lost: it counts as the first loss
    /// where it lived long enough.
    pub open spec fn seen(self, lived_ms: u64) -> Backoff {
        if lived_ms >= BACKOFF_RESET_AFTER_MS {
            Backoff::initial()
        } else {
            self
        }
    }

    /// What to do about the loss of a listener that lived that long.
    pub open spec fn loss(self, lived_ms: u64) -> Loss {
        let b = self.seen(lived_ms);
        let losses = if b.losses == u32::MAX {
            b.losses
        } else {
            (b.losses + 1) as u32
        };
        Loss { wait_ms: b.wait_ms, losses, alarming: losses >= 3 }
    }

    /// After the loss of a listener that lived that long: the next wait is
    /// twice as long, up to the limit.
    pub open spec fn after(self, lived_ms: u64) -> Backoff {
        let b = self.seen(lived_ms);
        Backoff {
            wait_ms: if 2 * b.wait_ms <= BACKOFF_MAX_MS {
                (2 * b.wait_ms) as u64
            } else {
                BACKOFF_MAX_MS
            },
            losses: self.loss(lived_ms).losses,
        }
    }

    /// Before any loss.
    pub fn new() -> (b: Backoff)
        ensures
            b == Backoff::initial(),
            b.within_limits(),
    {
        Backoff { wait_ms: BACKOFF_MIN_MS, losses: 0 }
    }

    /// A listener that lived that long was lost.
    pub fn lost(&mut self, lived_ms: u64) -> (r: Loss)
        ensures
            r == old(self).loss(lived_ms),
            *final(self) == old(self).after(lived_ms),
            final(self).wait_ms <= BACKOFF_MAX_MS,
            old(self).within_limits() ==> final(self).within_limits(),
    {
        if lived_ms >= BACKOFF_RESET_AFTER_MS {
            self.wait_ms = BACKOFF_MIN_MS;
            self.losses = 0;
        }
        if self.losses < u32::MAX {
            self.losses = self.losses + 1;
        }
        let wait_ms = self.wait_ms;
        self.wait_ms = if wait_ms <= BACKOFF_MAX_MS / 2 {
            2 * wait_ms
        } else {
            BACKOFF_MAX_MS
        };
        Loss { wait_ms, losses: self.losses, alarming: listener_loss_is_alarming(self.losses) }
    }
}

/// How far one run of the listener has come.
#[derive(Debug, Clone, Copy, PartialEq, Eq, Structural)]
pub enum Phase {
    /// It is being started.
    Starting,
    /// Its output is read.
    Reading,
    /// Its output has ended; its own end is awaited.
    Ending,
    /// It was killed; its end is awaited.
    Killed,
    /// It is over.
    Over,
}

/// What happens to the listener.
#[derive(Debug)]
pub enum Happening {
    Started,
    NotStarted,
    /// It printed a line.
    Line(String),
    /// Its output has ended or can no longer be read.
    OutputEnded,
    /// It has ended.
    Exited,
    /// It has not ended within the time given to it.
    StillThere,
}

/// What to do next.
#[derive(Debug)]
pub enum Task {
    /// Read on. After the delay, the lights are to be read if `generation` is
    /// still the number of the connection.
    ReadAndRebaseline { delay_ms: u64, generation: u64 },
    /// Read on; what became of the line.
    ReadOn(Ingested),
    /// Await the end of the listener for that long.
    AwaitExit { grace_ms: u64 },
    /// Kill the listener and await its end.
    Kill,
    /// Nothing: this run is over.
    Stop,
    /// Nothing: this does not happen in this phase.
    Ignore,
}

/// The phase after something happened.
pub open spec fn next_phase(phase: Phase, h: Happening) -> Phase {
    match (phase, h) {
        (Phase::Starting, Happening::Started) => Phase::Reading,
        (Phase::Starting, Happening::NotStarted) => Phase::Over,
        (Phase::Reading, Happening::OutputEnded) => Phase::Ending,
        (Phase::Ending, Happening::Exited) => Phase::Over,
        (Phase::Ending, Happening::StillThere) => Phase::Killed,
        (Phase::Killed, Happening::Exited) => Phase::Over,
        _ => phase,
    }
}

/// What is known of the lights after something happened: the listener counts
/// as living once it was started, and its lines are taken in while its output
/// is read.
pub open spec fn next_store(phase: Phase, h: Happening, m: PushModel) -> PushModel {
    match (phase, h) {
        (Phase::Starting, Happening::Started) => m.with_connection(true),
        (Phase::Reading, Happening::Line(line)) => match crate::push::line_report(line@) {
            Some(e) => m.applied(e),
            None => m,
        },
        _ => m,
    }
}

/// What is to be done is the right thing for the phase and for what happened.
pub open spec fn right_task(phase: Phase, h: Happening, m: PushModel, task: Task) -> bool {
    match (phase, h) {
        (Phase::Starting, Happening::Started) => task == Task::ReadAndRebaseline {
            delay_ms: REBASELINE_DELAY_MS,
            generation: m.with_connection(true).generation,
        },
        (Phase::Starting, Happening::NotStarted) => task == Task::Stop,
        (Phase::Reading, Happening::Line(line)) => task matches Task::ReadOn(taken) && match (
            taken,
            crate::push::line_report(line@),
        ) {
            (Ingested::Taken(events), Some(e)) => m.knows(e.node_id)
                && crate::push::event_models(events@) == m.events(e),
            (Ingested::Foreign(node), Some(e)) => node == e.node_id && !m.knows(e.node_id),
            (Ingested::Unreadable, None) => crate::text::trimmed(line@).len() > 0,
            (Ingested::Blank, None) => crate::text::trimmed(line@).len() == 0,
            _ => false,
        },
        (Phase::Reading, Happening::OutputEnded) => task == Task::AwaitExit {
            grace_ms: CHILD_EXIT_GRACE_MS,
        },
        (Phase::Ending, Happening::Exited) => task == Task::Stop,
        (Phase::Ending, Happening::StillThere) => task == Task::Kill,
        (Phase::Killed, Happening::Exited) => task == Task::Stop,
        _ => task == Task::Ignore,
    }
}

/// One run of the listener.
#[derive(Debug)]
pub struct ListenerRun {
    pub phase: Phase,
}

impl ListenerRun {
    /// A run that is being started.
    pub fn new() -> (run: ListenerRun)
        ensures
            run.phase == Phase::Starting,
    {
        ListenerRun { phase: Phase::Starting }
    }

    /// Something happened to the listener: what is known of the lights is
    /// brought up to date, and what to do next is given.
    pub fn step(&mut self, store: &mut PushStore, h: Happening) -> (task: Task)
        ensures
            final(self).phase == next_phase(old(self).phase, h),
            final(store)@ == next_store(old(self).phase, h, old(store)@),
            right_task(old(self).phase, h, old(store)@, task),
    {
        match (self.phase, h) {
            (Phase::Starting, Happening::Started) => {
                store.set_connected(true);
                self.phase = Phase::Reading;
                Task::ReadAndRebaseline {
                    delay_ms: REBASELINE_DELAY_MS,
                    generation: store.generation(),
                }
            },
            (Phase::Starting, Happening::NotStarted) => {
                self.phase = Phase::Over;
                Task::Stop
            },
            (Phase::Reading, Happening::Line(line)) => {
                let taken = crate::push::ingest(store, line.as_str());
                Task::ReadOn(taken)
            },
            (Phase::Reading, Happening::OutputEnded) => {
                self.phase = Phase::Ending;
                Task::AwaitExit { grace_ms: CHILD_EXIT_GRACE_MS }
            },
            (Phase::Ending, Happening::Exited) => {
                self.phase = Phase::Over;
                Task::Stop
            },
            (Phase::Ending, Happening::StillThere) => {
                self.phase = Phase::Killed;
                Task::Kill
            },
            (Phase::Killed, Happening::Exited) => {
                self.phase = Phase::Over;
                Task::Stop
            },
            _ => Task::Ignore,
        }
    }
}

/// Whether the lights are to be read, once the delay that began with the
/// connection of that number has passed: the listener has not been lost since.
pub fn rebaseline_is_due(store: &PushStore, generation: u64) -> (r: bool)
    ensures
        r == (store@.generation == generation),
{
    store.generation() == generation
}

/// A run of the listener that lived that long is over: the lights are no
/// longer known, and what to do about the loss is given.
pub fn listener_lost(store: &mut PushStore, backoff: &mut Backoff, lived_ms: u64) -> (r: Loss)
    ensures
        final(store)@ == old(store)@.with_connection(false),
        r == old(backoff).loss(lived_ms),
        *final(backoff) == old(backoff).after(lived_ms),
{
    store.set_connected(false);
    backoff.lost(lived_ms)
}

/// The wait after `n` losses in a row, none of them of a listener that was
/// well.
pub open spec fn wait_after(n: nat) -> nat
    decreases n,
{
    if n == 0 {
        BACKOFF_MIN_MS as nat
    } else {
        let w = 2 * wait_after((n - 1) as nat);
        if w <= BACKOFF_MAX_MS {
            w
        } else {
            BACKOFF_MAX_MS as nat
        }
    }
}

/// The state after `n` losses in a row of listeners that lived shortly.
pub open spec fn after_losses(b: Backoff, n: nat) -> Backoff
    decreases n,
{
    if n == 0 {
        b
    } else {
        after_losses(b, (n - 1) as nat).after(0)
    }
}

/// Every loss in a row doubles the wait until it has reached its limit, and it
/// never leaves its limits.
pub proof fn lemma_waits(n: nat)
    ensures
        after_losses(Backoff::initial(), n).wait_ms == wait_after(n),
        BACKOFF_MIN_MS <= wait_after(n) <= BACKOFF_MAX_MS,
        wait_after(n) <= wait_after(n + 1),
    decreases n,
{
    if n > 0 {
        lemma_waits((n - 1) as nat);
    }
}

/// After a listener that was well the wait begins anew, and its loss alarms
/// nobody.
pub proof fn lemma_well_listener_resets(b: Backoff, lived_ms: u64)
    requires
        lived_ms >= BACKOFF_RESET_AFTER_MS,
    ensures
        b.loss(lived_ms) == (Loss { wait_ms: BACKOFF_MIN_MS, losses: 1, alarming: false }),
{
}

/// A listener that is lost before the delay has passed causes no reading of
/// the lights, even where another one lives by then.
pub proof fn lemma_no_reading_after_a_loss(m: PushModel)
    ensures
        ({
            let started = m.with_connection(true);
            let lost = started.with_connection(false);
            &&& lost.generation != started.generation
            &&& lost.with_connection(true).generation != started.generation
        }),
{
}

/// A listener is killed only after its output had ended and it was given the
/// time to end by itself. Once it has ended, its run is over and stays so.
pub proof fn lemma_run_ends(h: Happening)
    ensures
        forall|phase: Phase|
            #[trigger] next_phase(phase, h) == Phase::Killed ==> phase == Phase::Killed || (phase
                == Phase::Ending && h == Happening::StillThere),
        next_phase(next_phase(Phase::Reading, Happening::OutputEnded), Happening::Exited)
            == Phase::Over,
        next_phase(next_phase(Phase::Ending, Happening::StillThere), Happening::Exited)
            == Phase::Over,
        next_phase(Phase::Over, h) == Phase::Over,
{
}

} // verus!
