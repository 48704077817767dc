//! Pacing repeated work against the tick counter of the observed process.
//!
//! The scheduler never sleeps and never looks at a clock. It is told what
//! was observed and how long things took, and answers what to do next; the
//! caller does the waiting and the work.

use crate::error::Error;
use vstd::prelude::*;

verus! {

/// Length of one tick of the observed process, in microseconds: the time
/// to stay away after an observation that showed nothing new.
pub const TICK_PERIOD_MICROS: u64 = 15625;

/// A tick counter as the process keeps it: a single-precision number, held
/// here as its 32 bits.
#[derive(Clone, Copy, Debug, PartialEq, Eq, Structural)]
pub struct Tick {
    pub bits: u32,
}

impl Tick {
    /// The bits without the sign.
    pub open spec fn magnitude(self) -> int {
        self.bits as int % 0x8000_0000
    }

    /// Whether the bits stand for no number at all.
    pub open spec fn is_nan(self) -> bool {
        self.magnitude() > 0x7f80_0000
    }

    /// Whether the bits stand for zero, of either sign.
    pub open spec fn is_zero(self) -> bool {
        self.magnitude() == 0
    }

    /// Whether two counters hold the same number. This is equality of
    /// numbers, not of bits: what is no number equals nothing, itself
    /// included, and the two zeros are equal.
    pub open spec fn same_number(self, other: Tick) -> bool {
        &&& !self.is_nan()
        &&& !other.is_nan()
        &&& self.bits == other.bits || (self.is_zero() && other.is_zero())
    }

    pub fn nan(&self) -> (r: bool)
        ensures
            r == self.is_nan(),
    {
        self.bits % 0x8000_0000 > 0x7f80_0000
    }

    pub fn zero(&self) -> (r: bool)
        ensures
            r == self.is_zero(),
    {
        self.bits % 0x8000_0000 == 0
    }

    pub fn equals(&self, other: &Tick) -> (r: bool)
        ensures
            r == self.same_number(*other),
    {
        !self.nan() && !other.nan() && (self.bits == other.bits || (self.zero() && other.zero()))
    }
}

/// What one look at the process showed.
#[derive(Clone, Copy, Debug, PartialEq, Eq, Structural)]
pub struct Observation {
    /// The tick counter.
    pub tick: Tick,
    /// The frame counter.
    pub frame: i32,
    /// Length of one frame of the process, in microseconds.
    pub frame_micros: u64,
}

/// What the scheduler remembers from one completed step to the next.
#[derive(Clone, Copy, Debug, PartialEq, Eq, Structural)]
pub struct TickState {
    /// The tick counter at the last completed step.
    pub last_tick: Tick,
    /// The frame counter at the last completed step.
    pub last_frame: i32,
    /// How long the last completed step took, in microseconds.
    pub elapsed_latency: u128,
}

impl TickState {
    /// The state before any step: both counters at zero, no latency.
    pub open spec fn initial() -> TickState {
        TickState { last_tick: Tick { bits: 0 }, last_frame: 0, elapsed_latency: 0 }
    }

    /// The state before any step.
    pub fn new() -> (state: TickState)
        ensures
            state == TickState::initial(),
    {
        TickState { last_tick: Tick { bits: 0 }, last_frame: 0, elapsed_latency: 0 }
    }

    /// Whether the process has moved on since the last completed step.
    /// Any change counts, in either direction.
    pub open spec fn advanced(self, seen: Observation) -> bool {
        !seen.tick.same_number(self.last_tick) || seen.frame != self.last_frame
    }

    /// How long to stay away before the next step: one frame of the
    /// process less the time that the last step took, and nothing where
    /// that step took a frame or longer.
    pub open spec fn budget(self, seen: Observation) -> u64 {
        if self.elapsed_latency < seen.frame_micros {
            (seen.frame_micros - self.elapsed_latency) as u64
        } else {
            0
        }
    }

    /// The verdict on one observation.
    pub open spec fn gated(self, seen: Observation) -> Result<u64, Error> {
        if self.advanced(seen) {
            Ok(self.budget(seen))
        } else {
            Err(Error::NotYetTime)
        }
    }

    /// What remains of the state once a step has been completed.
    pub open spec fn recorded(self, seen: Observation, step_micros: u128) -> TickState {
        TickState { last_tick: seen.tick, last_frame: seen.frame, elapsed_latency: step_micros }
    }

    /// Decides on one observation: `NotYetTime` where the process has not
    /// moved on, else the number of microseconds to stay away before the
    /// step is run.
    pub fn gate(&self, seen: &Observation) -> (r: Result<u64, Error>)
        ensures
            r == self.gated(*seen),
    {
        let moved = !seen.tick.equals(&self.last_tick) || seen.frame != self.last_frame;
        if !moved {
            return Err(Error::NotYetTime);
        }
        Ok(self.pace(seen))
    }

    /// The number of microseconds to stay away before a step that `seen`
    /// calls for.
    pub fn pace(&self, seen: &Observation) -> (micros: u64)
        ensures
            micros == self.budget(*seen),
    {
        let frame: u128 = seen.frame_micros as u128;
        if self.elapsed_latency < frame {
            (frame - self.elapsed_latency) as u64
        } else {
            0
        }
    }

    /// Books a completed step: the observation that led to it becomes the
    /// last one, and the time it took becomes the latency to make up for.
    pub fn record(&mut self, seen: &Observation, step_micros: u128)
        ensures
            *final(self) == old(self).recorded(*seen, step_micros),
    {
        self.last_tick = seen.tick;
        self.last_frame = seen.frame;
        self.elapsed_latency = step_micros;
    }
}

/// What the driver asks its caller to do next.
#[derive(Clone, Copy, Debug, PartialEq, Eq, Structural)]
pub enum Action {
    /// Look at the process and report what was seen.
    Observe,
    /// Nothing new was seen: stay away for this many microseconds, then
    /// look again.
    BackOff(u64),
    /// Something new was seen: stay away for this many microseconds, then
    /// the step is due.
    Pace(u64),
    /// Run the step and report how it went.
    Step,
}

/// What the caller reports back.
#[derive(Clone, Copy, Debug, PartialEq, Eq, Structural)]
pub enum Event {
    /// The process was looked at.
    Observed(Observation),
    /// The process could not be looked at, for the reason given.
    ObserveFailed(Error),
    /// The time asked for has passed.
    Rested,
    /// The step ran through, in this many microseconds.
    StepDone(u128),
    /// The step reported a failure.
    StepFailed,
}

/// Where the driver stands within one cycle.
#[derive(Clone, Copy, Debug, PartialEq, Eq, Structural)]
pub enum Phase {
    /// Waiting to hear what the process shows.
    Observing,
    /// Waiting out a tick after an observation that showed nothing new.
    BackingOff,
    /// Waiting out the rest of the frame before the step.
    Pacing(Observation),
    /// Waiting for the step to finish.
    Stepping(Observation),
}

/// The polling loop as a machine: the caller feeds it events and carries
/// out the actions it answers with. It has no final state. A cycle that
/// shows nothing new, or whose step fails, is passed over and the next one
/// begins.
#[derive(Clone, Copy, Debug, PartialEq, Eq, Structural)]
pub struct Driver {
    pub state: TickState,
    pub phase: Phase,
}

impl Driver {
    /// The action that the driver is waiting on.
    pub open spec fn awaited(self) -> Action {
        match self.phase {
            Phase::Observing => Action::Observe,
            Phase::BackingOff => Action::BackOff(TICK_PERIOD_MICROS),
            Phase::Pacing(seen) => Action::Pace(self.state.budget(seen)),
            Phase::Stepping(_) => Action::Step,
        }
    }

    /// Where a cycle stands once `seen` has been observed.
    pub open spec fn after_observation(self, seen: Observation) -> Driver {
        if !self.state.advanced(seen) {
            Driver { state: self.state, phase: Phase::BackingOff }
        } else if self.state.budget(seen) > 0 {
            Driver { state: self.state, phase: Phase::Pacing(seen) }
        } else {
            Driver { state: self.state, phase: Phase::Stepping(seen) }
        }
    }

    /// The driver after `event`. An event that the phase does not wait for
    /// changes nothing.
    pub open spec fn next(self, event: Event) -> Driver {
        match (self.phase, event) {
            (Phase::Observing, Event::Observed(seen)) => self.after_observation(seen),
            (Phase::BackingOff, Event::Rested) => Driver {
                state: self.state,
                phase: Phase::Observing,
            },
            (Phase::Pacing(seen), Event::Rested) => Driver {
                state: self.state,
                phase: Phase::Stepping(seen),
            },
            (Phase::Stepping(seen), Event::StepDone(micros)) => Driver {
                state: self.state.recorded(seen, micros),
                phase: Phase::Observing,
            },
            (Phase::Stepping(_), Event::StepFailed) => Driver {
                state: self.state,
                phase: Phase::Observing,
            },
            _ => self,
        }
    }

    /// What the cycle comes to that `event` ends, or `None` where the cycle
    /// goes on after it: `NotYetTime` where nothing new was seen, the
    /// reason where the process could not be looked at, `StepFailed` where
    /// the step failed, and success where it ran through. None of this
    /// stops the driver.
    pub open spec fn verdict(self, event: Event) -> Option<Result<(), Error>> {
        match (self.phase, event) {
            (Phase::Observing, Event::Observed(seen)) => if self.state.advanced(seen) {
                None
            } else {
                Some(Err(Error::NotYetTime))
            },
            (Phase::Observing, Event::ObserveFailed(e)) => Some(Err(e)),
            (Phase::Stepping(_), Event::StepDone(_)) => Some(Ok(())),
            (Phase::Stepping(_), Event::StepFailed) => Some(Err(Error::StepFailed)),
            _ => None,
        }
    }

    /// What the cycle comes to that `event` ends, or `None` where the cycle
    /// goes on after it. For a caller that keeps a log; the driver goes on
    /// either way.
    pub fn outcome(&self, event: &Event) -> (r: Option<Result<(), Error>>)
        ensures
            r == self.verdict(*event),
    {
        match (self.phase, *event) {
            (Phase::Observing, Event::Observed(seen)) => match self.state.gate(&seen) {
                Ok(_) => None,
                Err(e) => Some(Err(e)),
            },
            (Phase::Observing, Event::ObserveFailed(e)) => Some(Err(e)),
            (Phase::Stepping(_), Event::StepDone(_)) => Some(Ok(())),
            (Phase::Stepping(_), Event::StepFailed) => Some(Err(Error::StepFailed)),
            _ => None,
        }
    }

    /// A driver before its first cycle.
    pub open spec fn initial() -> Driver {
        Driver { state: TickState::initial(), phase: Phase::Observing }
    }

    /// A driver before its first cycle, which waits to hear what the
    /// process shows.
    pub fn new() -> (driver: Driver)
        ensures
            driver == Driver::initial(),
    {
        Driver { state: TickState::new(), phase: Phase::Observing }
    }

    /// The action that the driver is waiting on.
    pub fn pending(&self) -> (action: Action)
        ensures
            action == self.awaited(),
    {
        match self.phase {
            Phase::Observing => Action::Observe,
            Phase::BackingOff => Action::BackOff(TICK_PERIOD_MICROS),
            Phase::Pacing(seen) => Action::Pace(self.state.pace(&seen)),
            Phase::Stepping(_) => Action::Step,
        }
    }

    /// Takes one event and answers with the next action.
    pub fn advance(&mut self, event: Event) -> (action: Action)
        ensures
            *final(self) == old(self).next(event),
            action == final(self).awaited(),
    {
        match (self.phase, event) {
            (Phase::Observing, Event::Observed(seen)) => {
                match self.state.gate(&seen) {
                    Err(_) => {
                        self.phase = Phase::BackingOff;
                    },
                    Ok(micros) => {
                        if micros > 0 {
                            self.phase = Phase::Pacing(seen);
                        } else {
                            self.phase = Phase::Stepping(seen);
                        }
                    },
                }
            },
            (Phase::BackingOff, Event::Rested) => {
                self.phase = Phase::Observing;
            },
            (Phase::Pacing(seen), Event::Rested) => {
                self.phase = Phase::Stepping(seen);
            },
            (Phase::Stepping(seen), Event::StepDone(micros)) => {
                self.state.record(&seen, micros);
                self.phase = Phase::Observing;
            },
            (Phase::Stepping(_), Event::StepFailed) => {
                self.phase = Phase::Observing;
            },
            _ => {},
        }
        self.pending()
    }
}

/// Whether two observations show the same pair of counters.
pub open spec fn same_counters(a: Observation, b: Observation) -> bool {
    a.tick == b.tick && a.frame == b.frame
}

/// A cycle that sees the counters of the cycle before it finds that it is
/// not yet time, provided that the tick counter holds a number and that
/// the cycle before either completed its step or found the same.
pub proof fn lemma_same_counters_wait(
    state: TickState,
    first: Observation,
    step_micros: u128,
    second: Observation,
)
    requires
        !first.tick.is_nan(),
        same_counters(first, second),
    ensures
        state.recorded(first, step_micros).gated(second) == Err::<u64, Error>(Error::NotYetTime),
        state.gated(first) is Err ==> state.gated(second) == Err::<u64, Error>(Error::NotYetTime),
{
}

/// A driver that is told of an observation which shows nothing new asks
/// for one tick of rest, and whatever it is told next, it does not ask for
/// the step and keeps its state.
pub proof fn lemma_nothing_new_never_steps(driver: Driver, seen: Observation, event: Event)
    requires
        driver.phase == Phase::Observing,
        !driver.state.advanced(seen),
    ensures
        driver.next(Event::Observed(seen)).awaited() == Action::BackOff(TICK_PERIOD_MICROS),
        driver.next(Event::Observed(seen)).next(event).awaited() != Action::Step,
        driver.next(Event::Observed(seen)).next(event).state == driver.state,
{
}

/// A driver that is told of an observation which shows something new asks
/// for the step once: at once where no time is left to wait, else after
/// the rest it asks for. When the step is done it books the observation
/// and asks to look again; told of the same counters then, it asks for
/// rest, not for the step.
pub proof fn lemma_new_counters_step_once(driver: Driver, seen: Observation, step_micros: u128)
    requires
        driver.phase == Phase::Observing,
        driver.state.advanced(seen),
    ensures
        ({
            let told = driver.next(Event::Observed(seen));
            let due = if driver.state.budget(seen) > 0 {
                told.next(Event::Rested)
            } else {
                told
            };
            let done = due.next(Event::StepDone(step_micros));
            &&& driver.state.budget(seen) > 0 ==> told.awaited() == Action::Pace(
                driver.state.budget(seen),
            )
            &&& due.awaited() == Action::Step
            &&& done.awaited() == Action::Observe
            &&& done.state == driver.state.recorded(seen, step_micros)
            &&& !seen.tick.is_nan() ==> done.next(Event::Observed(seen)).awaited()
                == Action::BackOff(TICK_PERIOD_MICROS)
        }),
{
}

/// A step that fails leaves no trace: the driver asks to look again, and
/// its state is what it was before the cycle.
pub proof fn lemma_failed_step_is_passed_over(driver: Driver, seen: Observation)
    requires
        driver.phase == Phase::Stepping(seen),
    ensures
        driver.verdict(Event::StepFailed) == Some(Err::<(), Error>(Error::StepFailed)),
        driver.next(Event::StepFailed).awaited() == Action::Observe,
        driver.next(Event::StepFailed).state == driver.state,
{
}

/// The loop has no end: whatever the driver is told, it asks for something
/// next, and a cycle that fails leaves it waiting to look again. What the
/// driver itself holds against a cycle is transient.
pub proof fn lemma_driver_goes_on(driver: Driver, event: Event)
    ensures
        driver.verdict(event) is Some ==> driver.next(event).awaited() == Action::Observe
            || driver.next(event).awaited() == Action::BackOff(TICK_PERIOD_MICROS),
        driver.verdict(event) matches Some(Err(e)) ==> e.is_transient() || event
            == Event::ObserveFailed(e),
        driver.verdict(event) matches Some(Err(_)) ==> driver.next(event).state == driver.state,
{
}

/// Latency compensation: after a step that took `step_micros`, the next
/// cycle that finds something new waits one frame less that time, and not
/// at all where the step took a frame or more.
pub proof fn lemma_latency_is_made_up(
    state: TickState,
    first: Observation,
    step_micros: u128,
    second: Observation,
)
    requires
        state.recorded(first, step_micros).advanced(second),
    ensures
        state.recorded(first, step_micros).gated(second) is Ok,
        step_micros < second.frame_micros ==> state.recorded(first, step_micros).gated(second)
            == Ok::<u64, Error>((second.frame_micros - step_micros) as u64),
        step_micros >= second.frame_micros ==> state.recorded(first, step_micros).gated(second)
            == Ok::<u64, Error>(0),
        state.recorded(first, step_micros).gated(second)->Ok_0 + step_micros
            >= second.frame_micros,
        state.recorded(first, step_micros).gated(second)->Ok_0 <= second.frame_micros,
{
}

} // verus!
