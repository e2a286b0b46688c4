//! Varies the weather each day.

use vstd::prelude::*;

verus! {

/// A type of weather.
#[derive(Debug, Clone, Copy, PartialEq, Eq, Structural)]
pub enum Weather {
    /// A clear day.
    Clear,
    /// A cloudy day.
    Cloudy,
    /// A rainy day.
    Rainy,
}

impl Weather {
    /// The weather numbered `i` in declaration order.
    pub open spec fn spec_from_index(i: u32) -> Weather {
        if i == 0 {
            Weather::Clear
        } else if i == 1 {
            Weather::Cloudy
        } else {
            Weather::Rainy
        }
    }

    /// The weather numbered `i` in declaration order (`i` below three).
    pub fn from_index(i: u32) -> (w: Weather)
        requires
            i < 3,
        ensures
            w == Weather::spec_from_index(i),
    {
        match i {
            0 => Weather::Clear,
            1 => Weather::Cloudy,
            _ => Weather::Rainy,
        }
    }

    /// Chooses a random weather, each kind with the same chance.
    pub fn random(rng: &mut rand::rngs::ThreadRng) -> (w: Weather) {
        let i = crate::random::gen_range_u32(rng, 0, 3);
        Weather::from_index(i)
    }
}

/// The current weather.
#[derive(Debug)]
pub struct CurrentWeather {
    /// The day that the weather was last updated.
    last_updated: u32,
    /// The current weather.
    weather: Weather,
}

impl CurrentWeather {
    /// The day that the weather was last updated.
    pub closed spec fn spec_last_updated(&self) -> u32 {
        self.last_updated
    }

    /// The current weather.
    pub closed spec fn spec_weather(&self) -> Weather {
        self.weather
    }

    /// Access the current weather.
    pub fn get(&self) -> (w: Weather)
        ensures
            w == self.spec_weather(),
    {
        self.weather
    }

    /// The day that the weather was last updated.
    pub fn last_updated(&self) -> (d: u32)
        ensures
            d == self.spec_last_updated(),
    {
        self.last_updated
    }

    /// Sets the weather for `current_day`: on the first call of a new day a
    /// random weather is chosen and the day recorded; later calls on the same
    /// day change nothing.
    pub fn set_daily_weather(&mut self, current_day: u32, rng: &mut rand::rngs::ThreadRng)
        ensures
            final(self).spec_last_updated() == current_day,
            old(self).spec_last_updated() == current_day ==> final(self).spec_weather() == old(
                self,
            ).spec_weather(),
    {
        if self.last_updated != current_day {
            let drawn = Weather::random(rng);
            self.record_daily_weather(current_day, drawn);
        }
    }

    /// Records `drawn` as the weather of `current_day` when that day is a new
    /// one; on the day already recorded nothing changes.
    pub fn record_daily_weather(&mut self, current_day: u32, drawn: Weather)
        ensures
            final(self).spec_last_updated() == current_day,
            old(self).spec_last_updated() != current_day ==> final(self).spec_weather() == drawn,
            old(self).spec_last_updated() == current_day ==> final(self).spec_weather() == old(
                self,
            ).spec_weather(),
    {
        if self.last_updated != current_day {
            self.last_updated = current_day;
            self.weather = drawn;
        }
    }
}

impl Default for CurrentWeather {
    fn default() -> (w: CurrentWeather)
        ensures
            w.spec_last_updated() == 0,
            w.spec_weather() == Weather::Clear,
    {
        CurrentWeather { last_updated: 0, weather: Weather::Clear }
    }
}

} // verus!
