//! Waiting for something to come about, a bounded number of times.

use crate::error::Error;
use vstd::prelude::*;

verus! {

/// A wait that gives up: so many attempts, with a pause between them that
/// doubles each time.
#[derive(Clone, Copy, Debug, PartialEq, Eq, Structural)]
pub struct Retry {
    /// Attempts that may still be made, the next one included.
    pub attempts_left: u32,
    /// The pause after the next failed attempt, in microseconds.
    pub delay_micros: u64,
}

impl Retry {
    pub fn new(attempts: u32, delay_micros: u64) -> (retry: Retry)
        ensures
            retry == (Retry { attempts_left: attempts, delay_micros }),
    {
        Retry { attempts_left: attempts, delay_micros }
    }

    /// Twice the pause, or the longest pause there is.
    pub open spec fn doubled(delay_micros: u64) -> u64 {
        if 2 * delay_micros <= u64::MAX {
            (2 * delay_micros) as u64
        } else {
            u64::MAX
        }
    }

    /// The wait after an attempt that found the thing ready or not.
    pub open spec fn after(self, ready: bool) -> Retry {
        if ready {
            self
        } else if self.attempts_left <= 1 {
            Retry { attempts_left: 0, delay_micros: self.delay_micros }
        } else {
            Retry {
                attempts_left: (self.attempts_left - 1) as u32,
                delay_micros: Retry::doubled(self.delay_micros),
            }
        }
    }

    /// What an attempt comes to: `Ok(None)` where the thing is ready,
    /// `Ok(Some(pause))` where it is worth another attempt after the pause,
    /// `Timeout` where this was the last attempt.
    pub open spec fn verdict(self, ready: bool) -> Result<Option<u64>, Error> {
        if ready {
            Ok(None)
        } else if self.attempts_left <= 1 {
            Err(Error::Timeout)
        } else {
            Ok(Some(self.delay_micros))
        }
    }

    /// Books one attempt and says how to go on.
    pub fn attempt(&mut self, ready: bool) -> (r: Result<Option<u64>, Error>)
        ensures
            r == old(self).verdict(ready),
            *final(self) == old(self).after(ready),
    {
        if ready {
            return Ok(None);
        }
        if self.attempts_left <= 1 {
            self.attempts_left = 0;
            return Err(Error::Timeout);
        }
        let pause = self.delay_micros;
        self.attempts_left = self.attempts_left - 1;
        self.delay_micros = if pause <= u64::MAX / 2 {
            pause * 2
        } else {
            u64::MAX
        };
        Ok(Some(pause))
    }
}

/// A wait comes to an end: every attempt that asks for another one leaves
/// fewer attempts than there were, and none is asked for once a single
/// attempt is left.
pub proof fn lemma_retry_is_bounded(retry: Retry)
    ensures
        retry.verdict(false) is Ok ==> retry.after(false).attempts_left < retry.attempts_left,
        retry.attempts_left <= 1 ==> retry.verdict(false) == Err::<Option<u64>, Error>(
            Error::Timeout,
        ),
        retry.verdict(true) == Ok::<Option<u64>, Error>(None),
{
}

} // verus!
