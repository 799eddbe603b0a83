//! Ready-made environmental conditions.

use vstd::prelude::*;
use crate::utils::traits::Loadable;
use crate::world::environmental_conditions::{EnvironmentalConditions, WeatherType};

verus! {

/// The presets of the environmental conditions.
#[derive(Clone, Copy, Debug, PartialEq, Eq, Structural)]
pub enum OxAgEnvironmentalConditionPresets {
    /// Nothing but sun.
    Sunny,
    /// Sun, then fog, then rain.
    Mixed,
}

impl OxAgEnvironmentalConditionPresets {
    /// The weather that a preset cycles through.
    pub open spec fn weather(self) -> Seq<WeatherType> {
        match self {
            OxAgEnvironmentalConditionPresets::Sunny => seq![WeatherType::Sunny],
            OxAgEnvironmentalConditionPresets::Mixed => seq![
                WeatherType::Sunny,
                WeatherType::Foggy,
                WeatherType::Rainy,
            ],
        }
    }
}

impl Loadable<EnvironmentalConditions> for OxAgEnvironmentalConditionPresets {
    /// The weather of the preset, one tick a day, starting at midnight.
    open spec fn loads(&self, value: &EnvironmentalConditions) -> bool {
        value.weather() == self.weather() && value.ticks() == 1 && value.hour() == 0
    }

    fn load(&self) -> (r: EnvironmentalConditions) {
        match self {
            OxAgEnvironmentalConditionPresets::Sunny => {
                let weather: Vec<WeatherType> = vec![WeatherType::Sunny];
                assert(weather@ =~= self.weather());
                EnvironmentalConditions::new(&weather, 1, 0).unwrap()
            },
            OxAgEnvironmentalConditionPresets::Mixed => {
                let weather: Vec<WeatherType> = vec![
                    WeatherType::Sunny,
                    WeatherType::Foggy,
                    WeatherType::Rainy,
                ];
                assert(weather@ =~= self.weather());
                EnvironmentalConditions::new(&weather, 1, 0).unwrap()
            },
        }
    }
}

} // verus!
