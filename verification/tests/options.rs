use oxagworldgenerator::utils::constants::{DEFAULT_SCORE, UNIT};
use oxagworldgenerator::utils::errors::OxAgError;
use oxagworldgenerator::utils::traits::{Container, FromSeed, Loadable, Validator};
use oxagworldgenerator::utils::{generate_random_world_size, multiplier_from_seed};
use oxagworldgenerator::world::environmental_conditions::{EnvironmentalConditions, WeatherType};
use oxagworldgenerator::world::tile::{Content, TileType};
use oxagworldgenerator::world_generator::content_options::OxAgContentOptions;
use oxagworldgenerator::world_generator::presets::content_presets::OxAgContentPresets;
use oxagworldgenerator::world_generator::presets::environmental_presets::OxAgEnvironmentalConditionPresets;
use oxagworldgenerator::world_generator::presets::tile_type_presets::OxAgTileTypePresets;
use oxagworldgenerator::world_generator::tile_content_spawn_options::{
    OxAgTileContentSpawnOptionPresets, OxAgTileContentSpawnOptions,
};
use oxagworldgenerator::world_generator::tile_type_options::{
    CountRange, LevelRange, OxAgTileTypeOptions,
};
use oxagworldgenerator::world_generator::tile_type_spawn_levels::{
    OxAgTileTypeSpawnLevelPresets, OxAgTileTypeSpawnLevels,
};
use oxagworldgenerator::world_generator::world_generator_builder::{
    settle_scores, OxAgWorldGeneratorBuilder,
};
use oxagworldgenerator::world_generator::OxAgWorldGenerator;
use rand::rngs::StdRng;
use rand::SeedableRng;

fn band(start: i64, end: i64) -> LevelRange {
    LevelRange::new(start, end)
}

fn options_with(bands: [LevelRange; 7]) -> OxAgTileTypeOptions {
    OxAgTileTypeOptions {
        deep_water_level: bands[0],
        shallow_water_level: bands[1],
        sand_level: bands[2],
        grass_level: bands[3],
        hill_level: bands[4],
        mountain_level: bands[5],
        snow_level: bands[6],
        river_n: CountRange::new(0, 0),
        street_n: CountRange::new(0, 0),
        street_len: CountRange::new(0, 0),
        lava_n: CountRange::new(0, 0),
        lava_radius: CountRange::new(0, 0),
    }
}

fn share(percentage: i64) -> OxAgContentOptions {
    OxAgContentOptions { percentage, ..OxAgContentOptions::default() }
}

#[test]
fn bands_without_an_upper_bound_are_refused() {
    let empty = band(1_000_000, 999_999);
    let options = options_with([band(-1_000_000, -750_000), empty, empty, empty, empty, empty, empty]);
    assert_eq!(options.validate(), Err(OxAgError::WrongUpperBound));
    let refused = OxAgWorldGeneratorBuilder::new().set_tile_type_options(options);
    assert!(matches!(refused, Err(OxAgError::WrongUpperBound)));
}

#[test]
fn bands_without_a_lower_bound_are_refused_first() {
    let all = band(-999_999, 999_999);
    let options = options_with([all; 7]);
    assert_eq!(options.validate(), Err(OxAgError::WrongLowerBound));
    let upper_only = options_with([band(0, 1_000_000); 7]);
    assert_eq!(upper_only.validate(), Err(OxAgError::WrongLowerBound));
    let beyond = options_with([band(-3_000_000, 3_000_000); 7]);
    assert_eq!(beyond.validate(), Err(OxAgError::WrongLowerBound));
}

#[test]
fn bands_beyond_the_bounds_are_refused_last() {
    let low = band(-1_000_000, 0);
    let high = band(0, 1_000_000);
    let mut bands = [low, low, low, high, high, high, band(0, 1_000_001)];
    assert_eq!(options_with(bands).validate(), Err(OxAgError::RangesAreOutOfBounds));
    bands[6] = band(-1_000_001, 1_000_000);
    assert_eq!(options_with(bands).validate(), Err(OxAgError::RangesAreOutOfBounds));
    bands[6] = high;
    assert_eq!(options_with(bands).validate(), Ok(()));
}

#[test]
fn a_band_lies_within_another_by_its_ends() {
    let bounds = band(-1_000_000, 1_000_000);
    assert!(band(-1_000_000, 1_000_000).within(&bounds));
    assert!(band(-5, 7).within(&bounds));
    assert!(!band(-1_000_001, 0).within(&bounds));
    assert!(!band(0, 1_000_001).within(&bounds));
    assert!(band(3, 5).contains(3) && band(3, 5).contains(5) && !band(3, 5).contains(6));
    assert!(!band(5, 3).contains(4));
    assert_eq!(band(-10, 30).distance(0), 20);
    assert_eq!(band(-10, 30).distance(10), 0);
    assert_eq!(band(-10, 31).distance(10), 1);
}

#[test]
fn terrain_presets_hold_the_listed_values() {
    let default = OxAgTileTypePresets::Default.load();
    assert_eq!(default.deep_water_level, band(-1_000_000, -750_000));
    assert_eq!(default.shallow_water_level, band(-750_000, -500_000));
    assert_eq!(default.sand_level, band(-500_000, -250_000));
    assert_eq!(default.grass_level, band(-250_000, 250_000));
    assert_eq!(default.hill_level, band(250_000, 500_000));
    assert_eq!(default.mountain_level, band(500_000, 750_000));
    assert_eq!(default.snow_level, band(750_000, 1_000_000));
    assert_eq!(default.river_n, CountRange::new(1, 4));
    assert_eq!(default.street_n, CountRange::new(1, 3));
    assert_eq!(default.street_len, CountRange::new(6, 15));
    assert_eq!(default.lava_n, CountRange::new(2, 2));
    assert_eq!(default.lava_radius, CountRange::new(2, 4));
    let water = OxAgTileTypePresets::WaterWorld.load();
    assert_eq!(water.shallow_water_level, band(-500_000, 0));
    assert_eq!(water.snow_level, band(800_000, 1_000_000));
    assert_eq!(water.lava_n, CountRange::new(1, 2));
    let low = OxAgTileTypePresets::LowWaterWorld.load();
    assert_eq!(low.grass_level, band(-300_000, 100_000));
    assert_eq!(low.river_n, CountRange::new(0, 10));
    assert_eq!(low.street_len, CountRange::new(16, 25));
    let hill = OxAgTileTypePresets::Hill.load();
    assert_eq!(hill.hill_level, band(-1_000_000, 1_000_000));
    assert_eq!(hill.grass_level, band(-1_000_000, -1_000_000));
    assert_eq!(hill.mountain_level, band(1_000_000, 1_000_000));
    assert_eq!(hill.river_n, CountRange::new(0, 0));
    assert_eq!(hill.lava_radius, CountRange::new(2, 5));
    for preset in [
        OxAgTileTypePresets::Default,
        OxAgTileTypePresets::WaterWorld,
        OxAgTileTypePresets::LowWaterWorld,
        OxAgTileTypePresets::Hill,
    ] {
        assert_eq!(preset.load().validate(), Ok(()));
    }
}

#[test]
fn levels_are_classified_by_the_band_that_holds_them() {
    let options = OxAgTileTypePresets::Default.load();
    let expected = [
        (-1_000_000, TileType::DeepWater),
        (-750_000, TileType::DeepWater),
        (-749_999, TileType::ShallowWater),
        (-500_000, TileType::ShallowWater),
        (-499_999, TileType::Sand),
        (-250_000, TileType::Sand),
        (-249_999, TileType::Grass),
        (0, TileType::Grass),
        (249_999, TileType::Grass),
        (250_000, TileType::Hill),
        (500_000, TileType::Hill),
        (500_001, TileType::Mountain),
        (750_000, TileType::Mountain),
        (750_001, TileType::Snow),
        (1_000_000, TileType::Snow),
    ];
    for (level, terrain) in expected {
        assert_eq!(options.classify(level), terrain, "level {level}");
    }
}

#[test]
fn levels_in_no_band_go_to_the_nearest_band() {
    let options = OxAgTileTypePresets::Default.load();
    assert_eq!(options.classify(1_500_000), TileType::Snow);
    assert_eq!(options.classify(-1_600_000), TileType::DeepWater);
    assert_eq!(options.nearest(0), TileType::Grass);
    assert_eq!(options.nearest(-600_000), TileType::ShallowWater);
    assert_eq!(options.nearest(400_000), TileType::Hill);
    let far = band(900_000, 1_000_000);
    let gaps = options_with([
        band(-1_000_000, -900_000),
        far,
        band(-500_000, -400_000),
        band(400_000, 600_000),
        far,
        far,
        far,
    ]);
    assert_eq!(gaps.classify(-100_000), TileType::Sand);
    assert_eq!(gaps.classify(100_000), TileType::Grass);
    assert_eq!(gaps.classify(-650_000), TileType::Sand);
    assert_eq!(gaps.classify(-800_000), TileType::DeepWater);
}

#[test]
fn a_tie_between_bands_goes_to_grass() {
    let hill = OxAgTileTypePresets::Hill.load();
    assert_eq!(hill.classify(1_600_000), TileType::Grass);
    assert_eq!(hill.classify(-1_700_000), TileType::Grass);
    let far = band(900_000, 1_000_000);
    let gaps = options_with([
        band(-1_000_000, -900_000),
        band(-1_000_000, -900_000),
        band(-500_000, -400_000),
        band(400_000, 500_000),
        band(400_000, 500_000),
        far,
        far,
    ]);
    // as far from sand as from grass and hill
    assert_eq!(gaps.classify(0), TileType::Grass);
    // nearest to grass and hill alike
    assert_eq!(gaps.classify(300_000), TileType::Grass);
    // nearest to deep and shallow water alike
    assert_eq!(gaps.classify(-800_000), TileType::Grass);
}

#[test]
fn options_from_a_seed_are_valid_and_chained() {
    for seed in 0..200u64 {
        let options = OxAgTileTypeOptions::new_from_seed(seed);
        assert_eq!(options.validate(), Ok(()));
        assert_eq!(options.deep_water_level.start, -1_000_000);
        assert_eq!(options.deep_water_level.end, options.shallow_water_level.start);
        assert_eq!(options.shallow_water_level.end, options.sand_level.start);
        assert_eq!(options.sand_level.end, options.grass_level.start);
        assert_eq!(options.grass_level.end, options.hill_level.start);
        assert_eq!(options.hill_level.end, options.mountain_level.start);
        assert_eq!(options.mountain_level.end, options.snow_level.start);
        assert_eq!(options.snow_level.end, 1_000_000);
        assert!(options.deep_water_level.start <= options.deep_water_level.end);
        assert!(options.mountain_level.start <= options.mountain_level.end);
        assert_eq!(options.river_n.start, 0);
        assert!(options.river_n.end < 63);
        assert!(options.street_n.end < 63);
        assert!(options.lava_n.end < 29);
        assert!(options.lava_radius.end < 7);
        assert!(options.street_len.end < 19);
        assert_eq!(options, OxAgTileTypeOptions::new_from_seed(seed));
    }
    assert_ne!(OxAgTileTypeOptions::new_from_seed(1), OxAgTileTypeOptions::new_from_seed(2));
}

#[test]
fn counts_are_drawn_from_their_interval() {
    let range = CountRange::new(5, 9);
    assert!(!range.is_empty());
    assert!(CountRange::new(4, 3).is_empty());
    let mut rng = StdRng::seed_from_u64(3);
    let mut seen = [false; 5];
    for _ in 0..500 {
        let n = range.draw(&mut rng);
        assert!((5..=9).contains(&n));
        seen[n - 5] = true;
    }
    assert_eq!(seen, [true; 5]);
    let one = CountRange::new(7, 7);
    assert_eq!(one.draw(&mut rng), 7);
}

#[test]
fn a_share_above_one_whole_is_refused() {
    assert_eq!(share(1_500_000).validate(), Err(OxAgError::InvalidContentOptionProvided));
    assert_eq!(share(1_000_001).validate(), Err(OxAgError::InvalidContentOptionProvided));
    assert_eq!(share(-1).validate(), Err(OxAgError::InvalidContentOptionProvided));
    assert_eq!(share(0).validate(), Ok(()));
    assert_eq!(share(UNIT).validate(), Ok(()));
    assert_eq!(share(500_000).validate(), Ok(()));
    assert!(!share(1_500_000).is_valid());
    assert!(share(1).is_valid());
}

#[test]
fn a_list_names_the_kind_of_its_first_bad_entry() {
    let list = vec![
        (Content::Rock(0), share(10)),
        (Content::Tree(3), share(1_500_000)),
        (Content::Fire, share(-4)),
    ];
    assert_eq!(list.validate(), Err(OxAgError::InvalidContentOption(Content::Tree(0))));
    let refused = OxAgWorldGeneratorBuilder::new().set_content_options(list);
    assert!(matches!(refused, Err(OxAgError::InvalidContentOption(Content::Tree(0)))));
    let fine = vec![(Content::Rock(0), share(10)), (Content::Fire, share(UNIT))];
    assert_eq!(fine.validate(), Ok(()));
    let set = OxAgWorldGeneratorBuilder::new().set_content_options(fine.clone()).unwrap();
    assert_eq!(set.content_options, Some(fine));
    assert_eq!(Vec::<(Content, OxAgContentOptions)>::new().validate(), Ok(()));
}

#[test]
fn default_content_options_are_those_of_an_absent_content() {
    let options = OxAgContentOptions::default();
    assert!(!options.in_batches);
    assert!(!options.is_present);
    assert_eq!(options.min_spawn_number, 0);
    assert_eq!(options.max_radius, 0);
    assert!(options.with_max_spawn_number);
    assert_eq!(options.max_spawn_number, 0);
    assert_eq!(options.percentage, 1_000_000);
    let plain = OxAgTileContentSpawnOptions::default();
    assert!(!plain.in_batches && !plain.is_present && plain.with_max_spawn_number);
    assert_eq!((plain.min_spawn_number, plain.max_radius, plain.max_spawn_number), (0, 0, 0));
}

#[test]
fn content_presets_hold_the_listed_values() {
    let list = OxAgContentPresets::Default.load();
    assert_eq!(list.len(), 10);
    let kinds: Vec<Content> = list.iter().map(|(c, _)| *c).collect();
    assert_eq!(
        kinds,
        vec![
            Content::Rock(0),
            Content::Tree(0),
            Content::Garbage(0),
            Content::Fire,
            Content::Coin(0),
            Content::Bin(0, 0),
            Content::Crate(0, 0),
            Content::Bank(0, 0),
            Content::Water(0),
            Content::Fish(0),
        ]
    );
    assert_eq!(
        list[0].1,
        OxAgContentOptions {
            in_batches: false,
            is_present: true,
            min_spawn_number: 20,
            max_radius: 0,
            with_max_spawn_number: false,
            max_spawn_number: 0,
            percentage: 80_000,
        }
    );
    assert_eq!(
        list[1].1,
        OxAgContentOptions {
            in_batches: true,
            is_present: true,
            min_spawn_number: 3,
            max_radius: 10,
            with_max_spawn_number: false,
            max_spawn_number: 100,
            percentage: 300_000,
        }
    );
    assert_eq!(
        list[3].1,
        OxAgContentOptions {
            in_batches: true,
            is_present: true,
            min_spawn_number: 2,
            max_radius: 2,
            with_max_spawn_number: true,
            max_spawn_number: 6,
            percentage: 40_000,
        }
    );
    assert_eq!(list[2].1.percentage, 30_000);
    assert_eq!(list[4].1.percentage, 70_000);
    assert_eq!(list[5].1.percentage, 10_000);
    assert_eq!(list[8].1.percentage, 1_000_000);
    assert_eq!(list[8].1.min_spawn_number, 4);
    assert_eq!(list[9].1.percentage, 200_000);
    assert_eq!(list.validate(), Ok(()));
    let nothing = OxAgContentPresets::Empty.load();
    assert_eq!(nothing.len(), 16);
    assert_eq!(nothing.validate(), Ok(()));
    for (k, (content, options)) in nothing.iter().enumerate() {
        assert_eq!(*content, Content::all()[k]);
        assert_eq!(*options, OxAgContentOptions::default());
    }
}

#[test]
fn content_options_from_a_seed_cover_every_kind_once() {
    for seed in 0..50u64 {
        let list = OxAgContentOptions::new_from_seed(seed, 64);
        assert_eq!(list.len(), 15);
        assert_eq!(list.validate(), Ok(()));
        for (k, (content, options)) in list.iter().enumerate() {
            assert_eq!(*content, Content::all()[k]);
            assert!((1..5).contains(&options.max_radius));
            assert_eq!(options.min_spawn_number, 0);
            assert!((0..1_000_000).contains(&options.percentage));
            let disk = options.max_radius * options.max_radius * 314 / 100;
            assert!(options.max_spawn_number < 64 * 64 / disk + 12);
        }
        assert_eq!(list, OxAgContentOptions::new_from_seed(seed, 64));
        let plain = OxAgTileContentSpawnOptions::new_from_seed(seed, 64);
        assert_eq!(plain.len(), 15);
        for (k, (content, options)) in plain.iter().enumerate() {
            assert_eq!(*content, Content::all()[k]);
            assert!((1..5).contains(&options.max_radius));
        }
    }
}

#[test]
fn bands_alone_follow_the_terrain_presets() {
    let levels = OxAgTileTypeSpawnLevels::from_preset(OxAgTileTypeSpawnLevelPresets::WATERWORLD);
    let options = OxAgTileTypePresets::WaterWorld.load();
    assert_eq!(levels.deep_water_level, options.deep_water_level);
    assert_eq!(levels.sand_level, band(0, 200_000));
    assert_eq!(levels.snow_level, options.snow_level);
    assert_eq!(levels.validate(), Ok(()));
    let hill = OxAgTileTypeSpawnLevels::from_preset(OxAgTileTypeSpawnLevelPresets::HILL);
    assert_eq!(hill.hill_level, band(-1_000_000, 1_000_000));
    let default = OxAgTileTypeSpawnLevels::from_preset(OxAgTileTypeSpawnLevelPresets::DEFAULT);
    assert_eq!(default.grass_level, band(-250_000, 250_000));
    let low = OxAgTileTypeSpawnLevels::from_preset(OxAgTileTypeSpawnLevelPresets::LOWWATERWORLD);
    assert_eq!(low.mountain_level, band(400_000, 700_000));
    let broken = OxAgTileTypeSpawnLevels { snow_level: band(0, 500_000), ..default };
    assert_eq!(broken.validate(), Err(OxAgError::WrongUpperBound));
    for seed in 0..50u64 {
        let seeded = OxAgTileTypeSpawnLevels::new_from_seed(seed);
        assert_eq!(seeded.validate(), Ok(()));
        assert_eq!(seeded.deep_water_level.end, seeded.shallow_water_level.start);
    }
}

#[test]
fn the_preset_of_plain_content_options_holds_the_listed_values() {
    let list = OxAgTileContentSpawnOptions::new_from_preset(OxAgTileContentSpawnOptionPresets::DEFAULT);
    assert_eq!(list.len(), 10);
    assert_eq!(list[1].0, Content::Tree(0));
    assert_eq!(
        list[1].1,
        OxAgTileContentSpawnOptions {
            in_batches: true,
            is_present: true,
            min_spawn_number: 3,
            max_radius: 40,
            with_max_spawn_number: false,
            max_spawn_number: 100,
        }
    );
    assert_eq!(list[3].0, Content::Fire);
    assert_eq!(list[3].1.min_spawn_number, 10);
    assert_eq!(list[3].1.max_spawn_number, 40);
    assert_eq!(list[9].0, Content::Fish(0));
}

#[test]
fn weather_presets_hold_the_listed_values() {
    let sunny = OxAgEnvironmentalConditionPresets::Sunny.load();
    assert_eq!(sunny.get_weather_sequence(), &vec![WeatherType::Sunny]);
    assert_eq!((sunny.get_tick_per_day(), sunny.get_start_hour()), (1, 0));
    let mixed = OxAgEnvironmentalConditionPresets::Mixed.load();
    assert_eq!(
        mixed.get_weather_sequence(),
        &vec![WeatherType::Sunny, WeatherType::Foggy, WeatherType::Rainy]
    );
    assert_eq!((mixed.get_tick_per_day(), mixed.get_start_hour()), (1, 0));
}

#[test]
fn conditions_from_a_seed_start_within_the_day() {
    let order = [
        WeatherType::Sunny,
        WeatherType::Rainy,
        WeatherType::Foggy,
        WeatherType::TropicalMonsoon,
        WeatherType::TrentinoWinter,
    ];
    let mut lengths = [false; 6];
    for seed in 0..300u64 {
        let made = EnvironmentalConditions::new_from_seed(seed);
        assert!(made.get_start_hour() <= 24);
        let weather = made.get_weather_sequence();
        assert!(weather.len() <= 5);
        lengths[weather.len()] = true;
        let places: Vec<usize> =
            weather.iter().map(|w| order.iter().position(|o| o == w).unwrap()).collect();
        for pair in places.windows(2) {
            assert!(pair[0] < pair[1]);
        }
        let again = EnvironmentalConditions::new_from_seed(seed);
        assert_eq!(again.get_weather_sequence(), weather);
        assert_eq!(again.get_tick_per_day(), made.get_tick_per_day());
        assert_eq!(again.get_start_hour(), made.get_start_hour());
    }
    assert!(lengths[3] && lengths[4] && lengths[5]);
}

#[test]
fn what_a_seed_stands_for() {
    for seed in 0..300u64 {
        assert!(generate_random_world_size(seed) < 255);
        assert_eq!(generate_random_world_size(seed), generate_random_world_size(seed));
        let multiplier = multiplier_from_seed(seed);
        assert!((0..1_000_000).contains(&multiplier));
        assert_eq!(multiplier, multiplier_from_seed(seed));
    }
    let sizes: Vec<usize> = (0..20u64).map(generate_random_world_size).collect();
    assert!(sizes.iter().any(|s| *s != sizes[0]));
    let multipliers: Vec<i64> = (0..20u64).map(multiplier_from_seed).collect();
    assert!(multipliers.iter().any(|m| *m != multipliers[0]));
    assert!(multipliers.iter().any(|m| *m >= 255));
}

#[test]
fn a_builder_starts_with_nothing_set() {
    for builder in [
        OxAgWorldGeneratorBuilder::new(),
        OxAgWorldGeneratorBuilder::default(),
        OxAgWorldGenerator::builder(),
    ] {
        assert!(builder.size.is_none() && builder.seed.is_none());
        assert!(builder.tile_type_options.is_none() && builder.content_options.is_none());
        assert!(builder.environmental_conditions.is_none());
        assert!(builder.height_multiplier.is_none() && builder.score.is_none());
        assert!(builder.maze.is_none() && builder.with_info.is_none());
        assert!(builder.score_map.is_none());
    }
}

#[test]
fn what_is_set_reaches_the_generator() {
    let scores = vec![(Content::Coin(0), 2_500_000), (Content::Rock(0), 1_000_000)];
    let options = OxAgTileTypePresets::LowWaterWorld.load();
    let list = vec![(Content::Rock(0), share(250_000))];
    let weather = EnvironmentalConditions::new(&vec![WeatherType::Foggy], 3, 7).unwrap();
    let generator = OxAgWorldGeneratorBuilder::new()
        .set_seed(99)
        .set_size(40)
        .set_score(7_000_000)
        .set_score_map(Some(scores.clone()))
        .set_maze(true)
        .set_with_info(false)
        .set_height_multiplier(300_000)
        .set_environmental_conditions(weather)
        .set_tile_type_options(options)
        .unwrap()
        .set_content_options(list.clone())
        .unwrap()
        .build()
        .unwrap();
    assert_eq!(generator.get_seed(), 99);
    assert_eq!(generator.get_size(), 40);
    assert_eq!(generator.get_score(), 7_000_000);
    assert_eq!(generator.get_score_map(), &Some(scores));
    assert!(generator.get_maze());
    assert!(!generator.get_with_info());
    assert_eq!(generator.height_multiplier, 300_000);
    assert_eq!(generator.get_tile_type_options(), &options);
    assert_eq!(generator.get_content_options(), &list);
    let conditions = generator.get_environmental_conditions();
    assert_eq!(conditions.get_weather_sequence(), &vec![WeatherType::Foggy]);
    assert_eq!((conditions.get_tick_per_day(), conditions.get_start_hour()), (3, 7));
    assert!(generator.map_save.is_none());
}

#[test]
fn what_is_not_set_comes_from_the_seed() {
    let first = OxAgWorldGeneratorBuilder::new().set_seed(5).build().unwrap();
    let second = OxAgWorldGeneratorBuilder::new().set_seed(5).build().unwrap();
    assert_eq!(first.get_size(), generate_random_world_size(5));
    assert!(first.get_size() < 255);
    assert_eq!(first.get_size(), second.get_size());
    assert_eq!(first.get_tile_type_options(), &OxAgTileTypeOptions::new_from_seed(5));
    assert_eq!(first.get_tile_type_options(), second.get_tile_type_options());
    assert_eq!(
        first.get_content_options(),
        &OxAgContentOptions::new_from_seed(5, first.get_size())
    );
    assert_eq!(first.height_multiplier, multiplier_from_seed(5));
    assert_eq!(first.get_score(), DEFAULT_SCORE);
    assert_eq!(first.get_score(), 100_000_000);
    assert!(first.get_with_info());
    assert!(!first.get_maze());
    assert!(first.get_score_map().is_none());
    let conditions = EnvironmentalConditions::new_from_seed(5);
    assert_eq!(
        first.get_environmental_conditions().get_weather_sequence(),
        conditions.get_weather_sequence()
    );
    let random = OxAgWorldGeneratorBuilder::new().build().unwrap();
    assert!(random.get_size() < 255);
}

#[test]
fn presets_set_by_the_builder() {
    let builder = OxAgWorldGeneratorBuilder::new()
        .set_tile_type_options_from_preset(OxAgTileTypePresets::Hill)
        .set_content_options_from_preset(OxAgContentPresets::Default)
        .set_environmental_conditions_from_preset(OxAgEnvironmentalConditionPresets::Mixed);
    assert_eq!(builder.tile_type_options, Some(OxAgTileTypePresets::Hill.load()));
    assert_eq!(builder.content_options, Some(OxAgContentPresets::Default.load()));
    let conditions = builder.environmental_conditions.as_ref().unwrap();
    assert_eq!(conditions.get_weather_sequence().len(), 3);
}

#[test]
fn altering_the_options_of_one_kind() {
    let builder = OxAgWorldGeneratorBuilder::new()
        .set_content_options_from_preset(OxAgContentPresets::Default);
    let altered = builder.alter_content_option(Content::Tree(7), share(123)).unwrap();
    let list = altered.content_options.as_ref().unwrap();
    assert_eq!(list.len(), 10);
    assert_eq!(list[1], (Content::Tree(0), share(123)));
    assert_eq!(list[0], OxAgContentPresets::Default.load()[0]);
    assert_eq!(list[2], OxAgContentPresets::Default.load()[2]);
    let added = altered.alter_content_option(Content::Bush(4), share(456)).unwrap();
    let list = added.content_options.as_ref().unwrap();
    assert_eq!(list.len(), 11);
    assert_eq!(list[10], (Content::Bush(0), share(456)));
    assert_eq!(list[1], (Content::Tree(0), share(123)));
}

#[test]
fn altering_fails_in_order() {
    let unset = OxAgWorldGeneratorBuilder::new();
    assert!(matches!(
        unset.alter_content_option(Content::Empty, share(2_000_000)),
        Err(OxAgError::InvalidContentOptionProvided)
    ));
    let unset = OxAgWorldGeneratorBuilder::new();
    assert!(matches!(
        unset.alter_content_option(Content::Empty, share(5)),
        Err(OxAgError::CannotSetContentOptionForNone)
    ));
    let unset = OxAgWorldGeneratorBuilder::new();
    assert!(matches!(
        unset.alter_content_option(Content::Rock(0), share(5)),
        Err(OxAgError::ContentOptionsNotSet)
    ));
    let set = OxAgWorldGeneratorBuilder::new()
        .set_content_options_from_preset(OxAgContentPresets::Default);
    assert!(matches!(
        set.alter_content_option(Content::Empty, share(5)),
        Err(OxAgError::CannotSetContentOptionForNone)
    ));
    let set = OxAgWorldGeneratorBuilder::new()
        .set_content_options_from_preset(OxAgContentPresets::Default);
    assert!(matches!(
        set.alter_content_option(Content::Rock(0), share(-5)),
        Err(OxAgError::InvalidContentOptionProvided)
    ));
}

#[test]
fn scores_are_kept_with_one_entry_for_each_content() {
    let given = vec![
        (Content::Coin(0), 1_000_000),
        (Content::Rock(0), 2_000_000),
        (Content::Coin(0), 3_000_000),
        (Content::Rock(1), 4_000_000),
        (Content::Rock(0), 5_000_000),
    ];
    let kept = settle_scores(&given);
    assert_eq!(
        kept,
        vec![(Content::Coin(0), 3_000_000), (Content::Rock(0), 5_000_000), (Content::Rock(1), 4_000_000)]
    );
    let as_map: std::collections::HashMap<Content, i64> = given.iter().copied().collect();
    assert_eq!(as_map.len(), kept.len());
    for (content, score) in &kept {
        assert_eq!(as_map.get(content), Some(score));
    }
    assert_eq!(settle_scores(&kept), kept);
    assert_eq!(settle_scores(&Vec::new()), Vec::new());
    let builder = OxAgWorldGeneratorBuilder::new().set_score_map(Some(given));
    assert_eq!(builder.score_map, Some(kept));
    let cleared = builder.set_score_map(None);
    assert!(cleared.score_map.is_none());
}
