//! Environmental conditions derived from a seed.

use vstd::prelude::*;
use crate::utils::constants::{CHANCE_SCALE, DEFAULT_WEATHER_CHANCE};
use crate::utils::random::SeedDraws;
use crate::utils::traits::FromSeed;
use crate::world::environmental_conditions::{EnvironmentalConditions, WeatherType, LAST_HOUR};

verus! {

/// The kinds of weather, in the order in which a seed decides on them.
pub open spec fn weather_types() -> Seq<WeatherType> {
    seq![
        WeatherType::Sunny,
        WeatherType::Rainy,
        WeatherType::Foggy,
        WeatherType::TropicalMonsoon,
        WeatherType::TrentinoWinter,
    ]
}

/// The kinds of weather that are taken among the first `k` kinds, and the
/// draws that are left then: for each kind in turn a toss with a chance of
/// `DEFAULT_WEATHER_CHANCE` in `CHANCE_SCALE` decides whether it is taken.
pub open spec fn weather_upto(seed: u64, k: nat) -> (Seq<WeatherType>, SeedDraws)
    decreases k,
{
    if k == 0 {
        (Seq::empty(), SeedDraws::start(seed))
    } else {
        let before = weather_upto(seed, (k - 1) as nat);
        let rest = before.1.after_toss(DEFAULT_WEATHER_CHANCE, CHANCE_SCALE);
        if before.1.tossed(DEFAULT_WEATHER_CHANCE, CHANCE_SCALE) {
            (before.0.push(weather_types()[k - 1]), rest)
        } else {
            (before.0, rest)
        }
    }
}

/// The weather that `seed` stands for: the kinds that are taken among all
/// five.
pub open spec fn seeded_weather(seed: u64) -> Seq<WeatherType> {
    weather_upto(seed, 5).0
}

/// The ticks of a day that `seed` stands for: a byte drawn from all bytes
/// after the weather.
pub open spec fn seeded_ticks(seed: u64) -> u8 {
    weather_upto(seed, 5).1.octet()
}

/// The start hour that `seed` stands for: a byte drawn from 0 to 24 after
/// the ticks.
pub open spec fn seeded_hour(seed: u64) -> u8 {
    weather_upto(seed, 5).1.after_octet().byte_value(0, LAST_HOUR)
}

impl FromSeed for EnvironmentalConditions {
    /// These are the weather, the ticks and the start hour that `seed`
    /// stands for; the start hour lies within the day and no kind of
    /// weather comes twice.
    open spec fn seeded(&self, seed: u64) -> bool {
        &&& self.weather() == seeded_weather(seed)
        &&& self.ticks() == seeded_ticks(seed)
        &&& self.hour() == seeded_hour(seed)
        &&& self.hour() <= LAST_HOUR
        &&& self.weather().len() <= 5
        &&& self.weather().no_duplicates()
    }

    fn new_from_seed(seed: u64) -> (r: Self) {
        let mut draws = SeedDraws::new(seed);
        let all: Vec<WeatherType> = vec![
            WeatherType::Sunny,
            WeatherType::Rainy,
            WeatherType::Foggy,
            WeatherType::TropicalMonsoon,
            WeatherType::TrentinoWinter,
        ];
        assert(all@ =~= weather_types());
        let mut weather: Vec<WeatherType> = Vec::new();
        let mut k: usize = 0;
        while k < 5
            invariant
                k <= 5,
                all@ == weather_types(),
                weather.len() <= k,
                (weather@, draws) == weather_upto(seed, k as nat),
                weather@.no_duplicates(),
                forall|i: int|
                    0 <= i < weather.len() ==> exists|j: int|
                        0 <= j < k && #[trigger] weather[i] == #[trigger] all[j],
            decreases 5 - k,
        {
            if draws.toss(DEFAULT_WEATHER_CHANCE, CHANCE_SCALE) {
                let ghost before = weather@;
                weather.push(all[k]);
                proof {
                    assert forall|i: int|
                        0 <= i < weather.len() implies exists|j: int|
                        0 <= j < k + 1 && #[trigger] weather[i] == #[trigger] all[j] by {
                        if i < before.len() {
                            let j = choose|j: int| 0 <= j < k && before[i] == #[trigger] all[j];
                            assert(weather[i] == all[j]);
                        } else {
                            assert(weather[i] == all[k as int]);
                        }
                    }
                    assert forall|a: int, b: int|
                        0 <= a < weather.len() && 0 <= b < weather.len() && a != b implies weather[a]
                        != weather[b] by {
                        if a < before.len() && b < before.len() {
                            assert(before[a] != before[b]);
                        } else if a < before.len() {
                            let j = choose|j: int| 0 <= j < k && before[a] == #[trigger] all[j];
                        } else {
                            let j = choose|j: int| 0 <= j < k && before[b] == #[trigger] all[j];
                        }
                    }
                }
            } else {
                proof {
                    assert forall|i: int|
                        0 <= i < weather.len() implies exists|j: int|
                        0 <= j < k + 1 && #[trigger] weather[i] == #[trigger] all[j] by {
                        let j = choose|j: int| 0 <= j < k && weather[i] == #[trigger] all[j];
                        assert(weather[i] == all[j]);
                    }
                }
            }
            k += 1;
        }
        let ticks: u8 = draws.byte();
        let hour: u8 = draws.byte_between(0, LAST_HOUR);
        EnvironmentalConditions::new(&weather, ticks, hour).unwrap()
    }
}

/// Equal seeds stand for equal conditions: two values derived from one seed
/// have the same weather, the same ticks in a day and the same start hour.
pub proof fn lemma_seed_decides_conditions(
    a: EnvironmentalConditions,
    b: EnvironmentalConditions,
    seed: u64,
)
    requires
        a.seeded(seed),
        b.seeded(seed),
    ensures
        a.weather() == b.weather(),
        a.ticks() == b.ticks(),
        a.hour() == b.hour(),
{
}

} // verus!
