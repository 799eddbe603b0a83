//! Weather and the clock of a world.

use vstd::prelude::*;

verus! {

/// A kind of weather.
#[derive(Clone, Copy, Debug, PartialEq, Eq, Hash, Structural)]
pub enum WeatherType {
    Sunny,
    Rainy,
    Foggy,
    TropicalMonsoon,
    TrentinoWinter,
}

/// The latest hour at which a day may start.
pub const LAST_HOUR: u8 = 24;

/// The weather that a world cycles through, how many ticks make a day, and
/// the hour at which the first day starts.
#[derive(Debug)]
pub struct EnvironmentalConditions {
    weather_sequence: Vec<WeatherType>,
    tick_per_day: u8,
    start_hour: u8,
}

impl EnvironmentalConditions {
    pub closed spec fn weather(self) -> Seq<WeatherType> {
        self.weather_sequence@
    }

    pub closed spec fn ticks(self) -> u8 {
        self.tick_per_day
    }

    pub closed spec fn hour(self) -> u8 {
        self.start_hour
    }

    #[verifier::type_invariant]
    closed spec fn hour_in_day(self) -> bool {
        self.start_hour <= LAST_HOUR
    }

    /// Conditions with the given weather sequence, or `None` when
    /// `start_hour` lies past the end of the day.
    pub fn new(weather: &Vec<WeatherType>, tick_per_day: u8, start_hour: u8) -> (r: Option<Self>)
        ensures
            r is Some <==> start_hour <= LAST_HOUR,
            r matches Some(e) ==> e.weather() == weather@ && e.ticks() == tick_per_day && e.hour()
                == start_hour,
    {
        if start_hour > LAST_HOUR {
            return None;
        }
        let mut sequence: Vec<WeatherType> = Vec::new();
        let mut i: usize = 0;
        while i < weather.len()
            invariant
                i <= weather.len(),
                sequence@ == weather@.take(i as int),
            decreases weather.len() - i,
        {
            sequence.push(weather[i]);
            i += 1;
        }
        assert(weather@.take(weather.len() as int) == weather@);
        Some(EnvironmentalConditions { weather_sequence: sequence, tick_per_day, start_hour })
    }

    pub fn get_weather_sequence(&self) -> (r: &Vec<WeatherType>)
        ensures
            r@ == self.weather(),
    {
        &self.weather_sequence
    }

    pub fn get_tick_per_day(&self) -> (r: u8)
        ensures
            r == self.ticks(),
    {
        self.tick_per_day
    }

    pub fn get_start_hour(&self) -> (r: u8)
        ensures
            r == self.hour(),
            r <= LAST_HOUR,
    {
        proof {
            use_type_invariant(self);
        }
        self.start_hour
    }

    /// A copy with the same weather, ticks and start hour.
    pub fn duplicate(&self) -> (r: Self)
        ensures
            r.weather() == self.weather(),
            r.ticks() == self.ticks(),
            r.hour() == self.hour(),
    {
        proof {
            use_type_invariant(self);
        }
        let mut sequence: Vec<WeatherType> = Vec::new();
        let mut i: usize = 0;
        while i < self.weather_sequence.len()
            invariant
                i <= self.weather_sequence.len(),
                sequence@ == self.weather_sequence@.take(i as int),
            decreases self.weather_sequence.len() - i,
        {
            sequence.push(self.weather_sequence[i]);
            i += 1;
        }
        assert(self.weather_sequence@.take(self.weather_sequence.len() as int)
            == self.weather_sequence@);
        EnvironmentalConditions {
            weather_sequence: sequence,
            tick_per_day: self.tick_per_day,
            start_hour: self.start_hour,
        }
    }
}

} // verus!
