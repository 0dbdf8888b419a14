//! Timing models: how long an edge waits before it emits its packet.

use crate::model::text_is;
use crate::model::JsonTiming;
use vstd::prelude::*;

verus! {

/// The distribution of the delay before a packet, in nanoseconds.
#[derive(Debug, Clone, Copy, PartialEq, Eq, Structural)]
pub enum TimingModel {
    /// Always the same delay.
    Fixed { delay: u64 },
    /// Any delay from `min` to `max`, both included, with equal chance.
    Uniform { min: u64, max: u64 },
}

impl TimingModel {
    /// A uniform model has its bounds in order.
    pub open spec fn wf(self) -> bool {
        match self {
            TimingModel::Fixed { .. } => true,
            TimingModel::Uniform { min, max } => min <= max,
        }
    }

    /// The shortest delay the model gives.
    pub open spec fn shortest(self) -> u64 {
        match self {
            TimingModel::Fixed { delay } => delay,
            TimingModel::Uniform { min, .. } => min,
        }
    }

    /// The longest delay the model gives.
    pub open spec fn longest(self) -> u64 {
        match self {
            TimingModel::Fixed { delay } => delay,
            TimingModel::Uniform { min, max } => if min <= max {
                max
            } else {
                min
            },
        }
    }

    /// The delay that a draw selects. A uniform model cuts the range of the
    /// draws into `max - min + 1` equal parts, one for each delay, in order.
    pub open spec fn spec_delay(self, draw: u32) -> u64 {
        match self {
            TimingModel::Fixed { delay } => delay,
            TimingModel::Uniform { min, max } => if min <= max {
                (min + (draw as int * (max - min + 1)) / 0x1_0000_0000) as u64
            } else {
                min
            },
        }
    }

    /// Chooses a delay from a draw.
    pub fn delay(&self, draw: u32) -> (delay: u64)
        ensures
            delay == self.spec_delay(draw),
            self.shortest() <= delay <= self.longest(),
    {
        match *self {
            TimingModel::Fixed { delay } => delay,
            TimingModel::Uniform { min, max } => {
                if min <= max {
                    let span: u128 = (max - min) as u128 + 1;
                    proof {
                        lemma_offset_bound(draw, span as int);
                    }
                    let offset: u128 = ((draw as u128) * span) / 0x1_0000_0000u128;
                    min + (offset as u64)
                } else {
                    min
                }
            },
        }
    }
}

/// A draw, read as a fraction of 2^32, times a span stays below the span.
pub proof fn lemma_offset_bound(draw: u32, span: int)
    requires
        0 < span <= 0x1_0000_0000_0000_0000,
    ensures
        0 <= draw as int * span <= 0xffff_ffff * 0x1_0000_0000_0000_0000,
        0 <= (draw as int * span) / 0x1_0000_0000 < span,
{
    let d: int = draw as int;
    assert(0 <= d * span <= 0xffff_ffff * 0x1_0000_0000_0000_0000) by (nonlinear_arith)
        requires
            0 <= d <= 0xffff_ffff,
            0 < span <= 0x1_0000_0000_0000_0000,
    ;
    assert(0 <= (d * span) / 0x1_0000_0000 < span) by (nonlinear_arith)
        requires
            0 <= d < 0x1_0000_0000,
            0 < span,
    ;
}

/// The instant `delay` after `now`; instants past the last one that a `u64`
/// can hold are held as that last one.
pub open spec fn spec_later(now: u64, delay: u64) -> u64 {
    if now + delay > u64::MAX {
        u64::MAX
    } else {
        (now + delay) as u64
    }
}

pub fn later(now: u64, delay: u64) -> (then: u64)
    ensures
        then == spec_later(now, delay),
        now <= then,
{
    now.saturating_add(delay)
}

/// The timing model that a description stands for, if it stands for one:
/// `fixed` takes one parameter, the delay; `uniform` takes two, the bounds
/// in order.
pub open spec fn spec_parse_timing(timing: JsonTiming) -> Option<TimingModel> {
    if timing.family@ == "fixed"@ {
        if timing.params@.len() == 1 {
            Some(TimingModel::Fixed { delay: timing.params@[0] })
        } else {
            None
        }
    } else if timing.family@ == "uniform"@ {
        if timing.params@.len() == 2 && timing.params@[0] <= timing.params@[1] {
            Some(TimingModel::Uniform { min: timing.params@[0], max: timing.params@[1] })
        } else {
            None
        }
    } else {
        None
    }
}

/// Checks a timing description and turns it into a timing model.
pub fn parse_timing(timing: &JsonTiming) -> (parsed: Option<TimingModel>)
    ensures
        parsed == spec_parse_timing(*timing),
        parsed matches Some(model) ==> model.wf(),
{
    if text_is(&timing.family, "fixed") {
        if timing.params.len() == 1 {
            Some(TimingModel::Fixed { delay: timing.params[0] })
        } else {
            None
        }
    } else if text_is(&timing.family, "uniform") {
        if timing.params.len() == 2 && timing.params[0] <= timing.params[1] {
            Some(TimingModel::Uniform { min: timing.params[0], max: timing.params[1] })
        } else {
            None
        }
    } else {
        None
    }
}

/// Describes a timing model. For a sound model, reading the description
/// gives the model back.
pub fn describe_timing(model: TimingModel) -> (timing: JsonTiming)
    ensures
        model.wf() ==> spec_parse_timing(timing) == Some(model),
{
    proof {
        reveal_strlit("fixed");
        reveal_strlit("uniform");
        assert("fixed"@.len() == 5);
        assert("uniform"@.len() == 7);
    }
    match model {
        TimingModel::Fixed { delay } => {
            let mut params: Vec<u64> = Vec::new();
            params.push(delay);
            JsonTiming { family: "fixed".to_owned(), params }
        },
        TimingModel::Uniform { min, max } => {
            let mut params: Vec<u64> = Vec::new();
            params.push(min);
            params.push(max);
            JsonTiming { family: "uniform".to_owned(), params }
        },
    }
}

} // verus!
