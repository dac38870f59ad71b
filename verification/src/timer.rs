//! The round countdown: at most one pending delayed state mutation.
//!
//! The engine only records *that* a countdown is running, from when, and for
//! what purpose; actually sleeping and calling back is the transport layer's
//! job.  Every query takes the current monotonic time in milliseconds as an
//! argument, so the remaining-time computation is fully verified.

use vstd::prelude::*;

use crate::types::TimerTag;

verus! {

/// The live part of a countdown.
#[derive(Clone, Copy, Debug)]
pub struct TimerFields {
    /// Monotonic timestamp, in milliseconds, when the countdown was armed.
    pub started_at_ms: u64,
    /// Distinguishes this countdown from every earlier one, so a stale
    /// wake-up that lost the race against a cancellation is recognized.
    pub epoch: u64,
    pub tag: TimerTag,
}

/// At most one active cancellable countdown, tagged with its purpose.
#[derive(Clone, Copy, Debug)]
pub struct Timer(pub Option<TimerFields>);

impl Default for Timer {
    fn default() -> (r: Self)
        ensures
            r.0 is None,
    {
        Timer(None)
    }
}

impl Timer {
    /// Full countdown length for a purpose, in milliseconds.
    pub open spec fn spec_duration_ms(tag: TimerTag) -> u64 {
        (tag.spec_secs() * 1000) as u64
    }

    pub fn duration_ms(tag: &TimerTag) -> (r: u64)
        ensures
            r == Self::spec_duration_ms(*tag),
    {
        tag.secs() * 1000
    }

    pub fn new(started_at_ms: u64, epoch: u64, tag: TimerTag) -> (r: Self)
        ensures
            r.0 == Some(TimerFields { started_at_ms, epoch, tag }),
    {
        Timer(Some(TimerFields { started_at_ms, epoch, tag }))
    }

    /// Milliseconds the countdown has been running at time `now_ms`; zero if
    /// the clock reads earlier than the recorded start.
    pub open spec fn spec_elapsed_ms(self, now_ms: u64) -> Option<u64> {
        match self.0 {
            None => None,
            Some(f) => Some(
                if now_ms >= f.started_at_ms {
                    (now_ms - f.started_at_ms) as u64
                } else {
                    0u64
                },
            ),
        }
    }

    pub fn elapsed_ms(&self, now_ms: u64) -> (r: Option<u64>)
        ensures
            r == self.spec_elapsed_ms(now_ms),
    {
        match &self.0 {
            None => None,
            Some(f) => Some(
                if now_ms >= f.started_at_ms {
                    now_ms - f.started_at_ms
                } else {
                    0
                },
            ),
        }
    }

    /// Whole seconds left on the countdown at time `now_ms`, rounded to the
    /// nearest second (half a second rounds up).  Absent while no countdown
    /// is armed and once the countdown has fully elapsed.
    pub open spec fn spec_remaining_secs(self, now_ms: u64) -> Option<u64> {
        match self.0 {
            None => None,
            Some(f) => {
                let duration = Self::spec_duration_ms(f.tag);
                let elapsed = self.spec_elapsed_ms(now_ms)->Some_0;
                if elapsed < duration {
                    let diff = (duration - elapsed) as u64;
                    Some(((diff / 1000) + if diff % 1000 >= 500 {
                        1u64
                    } else {
                        0u64
                    }) as u64)
                } else {
                    None
                }
            },
        }
    }

    pub fn remaining_secs(&self, now_ms: u64) -> (r: Option<u64>)
        ensures
            r == self.spec_remaining_secs(now_ms),
    {
        match &self.0 {
            None => None,
            Some(f) => {
                let duration = Self::duration_ms(&f.tag);
                let elapsed = if now_ms >= f.started_at_ms {
                    now_ms - f.started_at_ms
                } else {
                    0
                };
                if elapsed < duration {
                    let diff = duration - elapsed;
                    let rounded_sec: u64 = if diff % 1000 >= 500 {
                        1
                    } else {
                        0
                    };
                    Some(diff / 1000 + rounded_sec)
                } else {
                    None
                }
            },
        }
    }

    /// Disarms the countdown; the remaining time is absent afterwards.
    pub fn cancel(&mut self)
        ensures
            final(self).0 is None,
            forall|now_ms: u64| final(self).spec_remaining_secs(now_ms) is None,
    {
        self.0 = None;
    }
}

/// While a countdown is armed, its remaining seconds never increase as the
/// clock advances, and once absent they stay absent.
pub proof fn lemma_remaining_secs_monotone(t: Timer, now1: u64, now2: u64)
    requires
        now1 <= now2,
    ensures
        t.spec_remaining_secs(now2) is Some ==> t.spec_remaining_secs(now1) is Some,
        t.spec_remaining_secs(now1) is Some && t.spec_remaining_secs(now2) is Some
            ==> t.spec_remaining_secs(now2)->Some_0 <= t.spec_remaining_secs(now1)->Some_0,
{
    match t.0 {
        None => {},
        Some(f) => {
            let duration = Timer::spec_duration_ms(f.tag) as int;
            let e1 = t.spec_elapsed_ms(now1)->Some_0 as int;
            let e2 = t.spec_elapsed_ms(now2)->Some_0 as int;
            assert(e1 <= e2);
            if e2 < duration {
                let d1 = duration - e1;
                let d2 = duration - e2;
                assert(d2 <= d1);
                lemma_round_ms_monotone(d2 as u64, d1 as u64);
            }
        },
    }
}

/// Rounding milliseconds to the nearest second is monotone.
proof fn lemma_round_ms_monotone(a: u64, b: u64)
    requires
        a <= b,
    ensures
        a / 1000 + if a % 1000 >= 500 {
            1u64
        } else {
            0u64
        } <= b / 1000 + if b % 1000 >= 500 {
            1u64
        } else {
            0u64
        },
{
    assert(a / 1000 + if a % 1000 >= 500 {
        1u64
    } else {
        0u64
    } == (a + 500) / 1000) by (nonlinear_arith);
    assert(b / 1000 + if b % 1000 >= 500 {
        1u64
    } else {
        0u64
    } == (b + 500) / 1000) by (nonlinear_arith);
    assert((a + 500) / 1000 <= (b + 500) / 1000) by (nonlinear_arith)
        requires
            a <= b,
    ;
}

/// The remaining time is absent exactly while no countdown is armed or the
/// armed countdown has fully elapsed; together with `cancel`, which
/// disarms, this pins when a countdown reads as gone.
pub proof fn lemma_remaining_secs_absent(t: Timer, now_ms: u64)
    ensures
        t.spec_remaining_secs(now_ms) is None <==> match t.0 {
            None => true,
            Some(f) => t.spec_elapsed_ms(now_ms)->Some_0 >= Timer::spec_duration_ms(f.tag),
        },
{
}

} // verus!

