//! Simulated temperature measurements: a bounded random walk over a
//! fixed station, and its rendering as stream fields.

use vstd::prelude::*;

use crate::ids::dec_rep;
use crate::rng::draw_bool;

verus! {

/// Highest temperature the walk may reach.
pub const MAX_TEMP: i32 = 100;

/// Lowest temperature the walk may reach.
pub const MIN_TEMP: i32 = 0;

/// The postal code of the simulated station.
pub const STATION_POSTAL_CODE: i32 = 94016;

/// One simulated sensor reading.
#[derive(Clone, Copy, PartialEq, Eq, Structural, Debug)]
pub struct Measurement {
    pub postal_code: i32,
    pub current_temp: i32,
}

/// Where the bounded walk takes the temperature: one step in the drawn
/// direction, unless the bound in that direction has been reached, in
/// which case the temperature stays put.
pub open spec fn walked_temp(t: int, up: bool) -> int {
    if up && t < MAX_TEMP {
        t + 1
    } else if !up && t > MIN_TEMP {
        t - 1
    } else {
        t
    }
}

impl Measurement {
    /// The temperature stays within its bounds and the station does not
    /// move.
    pub open spec fn wf(self) -> bool {
        &&& MIN_TEMP <= self.current_temp <= MAX_TEMP
        &&& self.postal_code == STATION_POSTAL_CODE
    }

    /// The initial reading: the fixed station at the middle of the
    /// temperature range.
    pub fn new() -> (r: Measurement)
        ensures
            r.wf(),
            r.postal_code == STATION_POSTAL_CODE,
            r.current_temp == 50,
    {
        Measurement { postal_code: STATION_POSTAL_CODE, current_temp: 50 }
    }

    /// Step the temperature by one in the given direction, bounded at
    /// the ends of the range.
    pub fn walk(&mut self, up: bool)
        requires
            old(self).wf(),
        ensures
            final(self).wf(),
            final(self).postal_code == old(self).postal_code,
            final(self).current_temp == walked_temp(old(self).current_temp as int, up),
    {
        if up {
            if self.current_temp + 1 <= MAX_TEMP {
                self.current_temp = self.current_temp + 1;
            }
        } else {
            if self.current_temp - 1 >= MIN_TEMP {
                self.current_temp = self.current_temp - 1;
            }
        }
    }

    /// Advance the reading by one randomly drawn step of the bounded
    /// walk: up or down one degree, held at the ends of the range.
    pub fn get_next(&mut self)
        requires
            old(self).wf(),
        ensures
            final(self).wf(),
            final(self).postal_code == old(self).postal_code,
            final(self).current_temp == walked_temp(old(self).current_temp as int, true)
                || final(self).current_temp == walked_temp(old(self).current_temp as int, false),
    {
        let up = draw_bool();
        self.walk(up);
    }

    /// The reading as stream fields: its postal code and its current
    /// temperature, in decimal.
    pub fn to_stream_data(&self) -> (r: Vec<(String, String)>)
        requires
            self.wf(),
        ensures
            r@.len() == 2,
            r@[0].0@ == "postal_code"@,
            r@[0].1@ == dec_rep(self.postal_code as nat),
            r@[1].0@ == "current_temp"@,
            r@[1].1@ == dec_rep(self.current_temp as nat),
    {
        let mut v: Vec<(String, String)> = Vec::new();
        v.push((String::from_str("postal_code"), crate::ids::u64_to_dec(self.postal_code as u64)));
        v.push((
            String::from_str("current_temp"),
            crate::ids::u64_to_dec(self.current_temp as u64),
        ));
        v
    }
}

} // verus!
