//! The decisions of a watermark generator: when to emit a watermark, which
//! one, and when a partition goes idle.
//!
//! Points in time are counted in nanoseconds since the Unix epoch, and spans
//! of time in microseconds.

use vstd::prelude::*;
use vstd::string::*;

verus! {

/// What a watermark generator keeps across checkpoints.
#[derive(Clone, Copy, Debug, PartialEq, Eq, Structural)]
pub struct WatermarkGeneratorState {
    /// The greatest event time of the batch on which a watermark was last emitted.
    pub last_watermark_emitted_at: u64,
    /// The greatest watermark computed so far.
    pub max_watermark: u64,
}

/// What a generator tells the stream.
#[derive(Clone, Copy, Debug, PartialEq, Eq, Structural)]
pub enum Watermark {
    /// No event before this time is still to come.
    EventTime(u64),
    /// The partition has gone idle.
    Idle,
}

/// A watermark generator driven by an expression over each batch.
#[derive(Clone, Copy, Debug, PartialEq, Eq, Structural)]
pub struct WatermarkGenerator {
    /// The least span between the event times of two emissions, in microseconds.
    pub interval: u64,
    pub state_cache: WatermarkGeneratorState,
    /// The span without events after which the partition is idle, in microseconds.
    pub idle_time: Option<u64>,
    /// When the last batch came.
    pub last_event: u64,
    pub idle: bool,
}

/// Makes watermark generators from their configuration.
#[derive(Clone, Copy, Debug, PartialEq, Eq, Structural)]
pub struct WatermarkGeneratorConstructor;

/// The state of a generator that has emitted nothing yet.
pub open spec fn initial_state() -> WatermarkGeneratorState {
    WatermarkGeneratorState { last_watermark_emitted_at: 0, max_watermark: 0 }
}

/// The span from `earlier` to `later`, in nanoseconds; zero where `later`
/// is not the later one.
pub open spec fn span_nanos(later: u64, earlier: u64) -> int {
    if later >= earlier {
        later - earlier
    } else {
        0
    }
}

/// Whether a batch whose greatest event time is `max_timestamp` makes the
/// generator emit: it does when the partition was idle, or when more than
/// the interval lies between that time and the one of the last emission.
pub open spec fn emits(generator: WatermarkGenerator, max_timestamp: u64) -> bool {
    generator.idle || span_nanos(max_timestamp, generator.state_cache.last_watermark_emitted_at)
        > generator.interval * 1000
}

/// The generator after a batch that came at `now`. A batch without rows
/// only marks the time. A batch with rows, given as its greatest event time
/// and the watermark computed from it, raises the greatest watermark and,
/// where it makes the generator emit, marks the emission and ends idleness.
pub open spec fn after_batch(
    generator: WatermarkGenerator,
    now: u64,
    batch: Option<(u64, u64)>,
) -> WatermarkGenerator {
    match batch {
        None => WatermarkGenerator { last_event: now, ..generator },
        Some((max_timestamp, watermark)) => {
            let max_watermark = if generator.state_cache.max_watermark >= watermark {
                generator.state_cache.max_watermark
            } else {
                watermark
            };
            if emits(generator, max_timestamp) {
                WatermarkGenerator {
                    last_event: now,
                    state_cache: WatermarkGeneratorState {
                        last_watermark_emitted_at: max_timestamp,
                        max_watermark,
                    },
                    idle: false,
                    ..generator
                }
            } else {
                WatermarkGenerator {
                    last_event: now,
                    state_cache: WatermarkGeneratorState { max_watermark, ..generator.state_cache },
                    ..generator
                }
            }
        },
    }
}

/// What a batch makes the generator emit: the watermark computed from the
/// batch, where the batch has rows and makes the generator emit.
pub open spec fn batch_watermark(generator: WatermarkGenerator, batch: Option<(u64, u64)>) -> Option<
    Watermark,
> {
    match batch {
        Some((max_timestamp, watermark)) => if emits(generator, max_timestamp) {
            Some(Watermark::EventTime(watermark))
        } else {
            None
        },
        None => None,
    }
}

/// Whether a tick at `now` finds the partition newly idle: an idle time is
/// set, more than that time has passed since the last batch, and the
/// partition is not idle yet.
pub open spec fn goes_idle(generator: WatermarkGenerator, now: u64) -> bool {
    match generator.idle_time {
        Some(idle_time) => span_nanos(now, generator.last_event) > idle_time * 1000
            && !generator.idle,
        None => false,
    }
}

impl WatermarkGenerator {
    /// A generator that has emitted nothing yet, made at the time `now`.
    pub fn expression(interval: u64, idle_time: Option<u64>, now: u64) -> (r: WatermarkGenerator)
        ensures
            r == (WatermarkGenerator {
                interval,
                state_cache: initial_state(),
                idle_time,
                last_event: now,
                idle: false,
            }),
    {
        WatermarkGenerator {
            interval,
            state_cache: WatermarkGeneratorState { last_watermark_emitted_at: 0, max_watermark: 0 },
            idle_time,
            last_event: now,
            idle: false,
        }
    }

    /// The name of the operator.
    pub fn name(&self) -> (r: String)
        ensures
            r@ == "expression_watermark_generator"@,
    {
        String::from_str("expression_watermark_generator")
    }

    /// The span between two ticks, in microseconds: one second.
    pub fn tick_interval(&self) -> (r: Option<u64>)
        ensures
            r == Some(1_000_000u64),
    {
        Some(1_000_000)
    }

    /// Starts the generator at the time `now` with the state that was kept
    /// for its task, or with the initial state where none was kept.
    pub fn on_start(&mut self, now: u64, kept: Option<WatermarkGeneratorState>)
        ensures
            *final(self) == (WatermarkGenerator {
                last_event: now,
                state_cache: match kept {
                    Some(state) => state,
                    None => initial_state(),
                },
                ..*old(self)
            }),
    {
        self.last_event = now;
        self.state_cache = match kept {
            Some(state) => state,
            None => WatermarkGeneratorState { last_watermark_emitted_at: 0, max_watermark: 0 },
        };
    }

    /// What to emit when the stream closes: after the end of the data, a
    /// last watermark at the greatest time there is.
    pub fn on_close(&self, end_of_data: bool) -> (r: Option<Watermark>)
        ensures
            r == (if end_of_data {
                Some(Watermark::EventTime(u64::MAX))
            } else {
                None::<Watermark>
            }),
    {
        if end_of_data {
            Some(Watermark::EventTime(u64::MAX))
        } else {
            None
        }
    }

    /// Takes note of a batch that came at `now`, and says what to emit.
    /// `batch` is nothing for a batch without rows, and else the greatest
    /// event time of the batch with the watermark computed from it.
    pub fn process_batch(&mut self, now: u64, batch: Option<(u64, u64)>) -> (r: Option<Watermark>)
        ensures
            *final(self) == after_batch(*old(self), now, batch),
            r == batch_watermark(*old(self), batch),
    {
        self.last_event = now;
        let (max_timestamp, watermark) = match batch {
            Some(pair) => pair,
            None => {
                return None;
            },
        };
        if watermark > self.state_cache.max_watermark {
            self.state_cache.max_watermark = watermark;
        }
        let since: u64 = if max_timestamp >= self.state_cache.last_watermark_emitted_at {
            max_timestamp - self.state_cache.last_watermark_emitted_at
        } else {
            0
        };
        if self.idle || since as u128 > self.interval as u128 * 1000 {
            self.state_cache.last_watermark_emitted_at = max_timestamp;
            self.idle = false;
            Some(Watermark::EventTime(watermark))
        } else {
            None
        }
    }

    /// The state to keep at a checkpoint.
    pub fn handle_checkpoint(&self) -> (r: WatermarkGeneratorState)
        ensures
            r == self.state_cache,
    {
        self.state_cache
    }

    /// Takes note of a tick at `now`: where it finds the partition newly
    /// idle, the partition is marked idle and that is what to emit.
    pub fn handle_tick(&mut self, now: u64) -> (r: Option<Watermark>)
        ensures
            *final(self) == (WatermarkGenerator {
                idle: old(self).idle || goes_idle(*old(self), now),
                ..*old(self)
            }),
            r == (if goes_idle(*old(self), now) {
                Some(Watermark::Idle)
            } else {
                None::<Watermark>
            }),
    {
        if let Some(idle_time) = self.idle_time {
            let elapsed: u64 = if now >= self.last_event {
                now - self.last_event
            } else {
                0
            };
            if elapsed as u128 > idle_time as u128 * 1000 && !self.idle {
                self.idle = true;
                return Some(Watermark::Idle);
            }
        }
        None
    }
}

impl WatermarkGeneratorConstructor {
    /// Makes a generator at the time `now` from the period between
    /// emissions and the idle time of its configuration, both in
    /// microseconds.
    pub fn with_config(&self, period_micros: u64, idle_time_micros: Option<u64>, now: u64) -> (r:
        WatermarkGenerator)
        ensures
            r == (WatermarkGenerator {
                interval: period_micros,
                state_cache: initial_state(),
                idle_time: idle_time_micros,
                last_event: now,
                idle: false,
            }),
    {
        WatermarkGenerator::expression(period_micros, idle_time_micros, now)
    }
}

} // verus!
