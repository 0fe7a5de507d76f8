//! Holding a speed while the temperature stays in a band.

use crate::flt::errors::law_minus_error;
use crate::flt::facts::{lemma_rounded_at_most, lemma_signed};
use crate::flt::model::{round_magnitude, units};
use crate::flt::{rounded, size, Flt};
use vstd::prelude::*;

verus! {

/// Where the temperature went when the speed was last changed.
#[derive(Debug, Clone, Copy, PartialEq, Eq, Structural)]
pub enum Direction {
    Rising,
    Falling,
    Held,
}

/// The speed that is held, and the temperature it was chosen at.
#[derive(Debug, Clone, Copy, PartialEq, Eq)]
pub struct HysteresisState {
    pub hold_rpm: Flt,
    pub direction: Direction,
    pub last_temp: Flt,
}

impl HysteresisState {
    #[must_use]
    pub fn new(initial_rpm: Flt, initial_temp: Flt) -> (r: HysteresisState)
        ensures
            r == (HysteresisState {
                hold_rpm: initial_rpm,
                direction: Direction::Held,
                last_temp: initial_temp,
            }),
    {
        HysteresisState {
            hold_rpm: initial_rpm,
            direction: Direction::Held,
            last_temp: initial_temp,
        }
    }

    /// Starts over from a speed and a temperature.
    pub fn reinit(&mut self, rpm: Flt, temp: Flt)
        ensures
            *final(self) == (HysteresisState {
                hold_rpm: rpm,
                direction: Direction::Held,
                last_temp: temp,
            }),
    {
        self.hold_rpm = rpm;
        self.direction = Direction::Held;
        self.last_temp = temp;
    }
}

/// The temperature left the band: it rose by more than `up`, or fell by more
/// than `down`.
pub open spec fn leaves_band(delta: Flt, up: Flt, down: Flt) -> bool {
    up.less(delta) || delta.less(down.negated())
}

/// The direction of a change.
pub open spec fn direction_of(delta: Flt) -> Direction {
    if (Flt { bits: 0 }).less(delta) {
        Direction::Rising
    } else if delta.less(Flt { bits: 0 }) {
        Direction::Falling
    } else {
        Direction::Held
    }
}

/// The state after a reading.
pub open spec fn applied(
    state: HysteresisState,
    curve_rpm: Flt,
    temp: Flt,
    up: Flt,
    down: Flt,
) -> HysteresisState {
    let delta = temp.minus(state.last_temp);
    if leaves_band(delta, up, down) {
        HysteresisState { hold_rpm: curve_rpm, direction: direction_of(delta), last_temp: temp }
    } else {
        state
    }
}

/// Takes the speed of the curve when the temperature has left the band, and
/// holds the old speed otherwise.
pub fn apply(
    state: &mut HysteresisState,
    curve_rpm: Flt,
    smoothed_temp: Flt,
    up_margin: Flt,
    down_margin: Flt,
) -> (r: Flt)
    ensures
        *final(state) == applied(*old(state), curve_rpm, smoothed_temp, up_margin, down_margin),
        r == final(state).hold_rpm,
{
    let delta: Flt = smoothed_temp.sub(state.last_temp);
    let zero: Flt = Flt { bits: 0 };
    if up_margin.lt(delta) || delta.lt(down_margin.neg()) {
        state.hold_rpm = curve_rpm;
        state.last_temp = smoothed_temp;
        state.direction = if zero.lt(delta) {
            Direction::Rising
        } else if delta.lt(zero) {
            Direction::Falling
        } else {
            Direction::Held
        };
    }
    state.hold_rpm
}

/// While the temperature stays in the band, any number of readings changes
/// nothing.
pub proof fn law_band_holds(state: HysteresisState, rpm: Flt, temp: Flt, up: Flt, down: Flt)
    requires
        !leaves_band(temp.minus(state.last_temp), up, down),
    ensures
        applied(state, rpm, temp, up, down) == state,
{
}

/// The band, by the exact difference of the temperatures. A temperature that
/// rose by no more than `up` and fell by no more than `down` changes nothing. One
/// that rose by more than `up`, or fell by more than `down`, even without one
/// part in 2^24 of the way, takes the speed of the curve, and the band is laid
/// around it.
pub proof fn law_band_by_values(
    state: HysteresisState,
    curve_rpm: Flt,
    temp: Flt,
    up: Flt,
    down: Flt,
)
    requires
        temp.finite(),
        state.last_temp.finite(),
        up.finite(),
        down.finite(),
        temp.minus(state.last_temp).finite(),
    ensures
        ({
            let way = temp.value() - state.last_temp.value();
            let after = applied(state, curve_rpm, temp, up, down);
            &&& -down.value() <= way <= up.value() ==> after == state
            &&& 0x00FF_FFFF * way > 0x0100_0000 * up.value() && way > 0
                ==> after.hold_rpm == curve_rpm && after.last_temp == temp && after.direction
                == Direction::Rising
            &&& 0x00FF_FFFF * (-way) > 0x0100_0000 * down.value() && way < 0
                ==> after.hold_rpm == curve_rpm && after.last_temp == temp && after.direction
                == Direction::Falling
        }),
{
    let last = state.last_temp;
    let way = temp.value() - last.value();
    let delta = temp.minus(last);
    law_minus_error(temp, last);
    lemma_signed(!down.negative(), down.magnitude());
    lemma_signed(!last.negative(), last.magnitude());
    let low = down.negated();
    assert((Flt { bits: 0 }).value() == 0) by {
        assert(units(0) == 0);
    }
    if way != 0 {
        if way <= up.value() {
            lemma_rounded_at_most(way, up);
        }
        if -down.value() <= way {
            lemma_rounding_reaches(way, low);
        }
    }
}

/// A difference that is at least a finite value is rounded to at least that.
proof fn lemma_rounding_reaches(s: int, x: Flt)
    requires
        x.finite(),
        s != 0,
        x.value() <= s,
    ensures
        x.at_most(rounded(s < 0, size(s), 1)),
{
    lemma_signed(!x.negative(), x.magnitude());
    let n = x.negated();
    lemma_rounded_at_most(-s, n);
    let m = round_magnitude(size(s), 1);
    lemma_signed(s < 0, m);
    lemma_signed(-s < 0, m);
}

} // verus!
