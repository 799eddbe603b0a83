use oxagworldgenerator::utils::random::SeedDraws;
use oxagworldgenerator::utils::traits::{FromSeed, Loadable};
use oxagworldgenerator::utils::{generate_random_world_size, multiplier_from_seed};
use oxagworldgenerator::world::environmental_conditions::{EnvironmentalConditions, WeatherType};
use oxagworldgenerator::world::tile::{Content, Tile, TileType};
use oxagworldgenerator::world_generator::content_options::OxAgContentOptions;
use oxagworldgenerator::world_generator::presets::tile_type_presets::OxAgTileTypePresets;
use oxagworldgenerator::world_generator::spawning_tools::grid::filled;
use oxagworldgenerator::world_generator::spawning_tools::matrix_spawn::{normalize, HeightMap};
use oxagworldgenerator::world_generator::spawning_tools::maze::maze_builder_init;
use oxagworldgenerator::world_generator::spawning_tools::random_spawn::holders;
use oxagworldgenerator::world_generator::spawning_tools::street_spawn::Direction;
use oxagworldgenerator::world_generator::spawning_tools::{SpawnStep, TileMat};
use oxagworldgenerator::world_generator::tile_content_spawn_options::OxAgTileContentSpawnOptions;
use oxagworldgenerator::world_generator::tile_type_options::{CountRange, OxAgTileTypeOptions};
use oxagworldgenerator::world_generator::tile_type_spawn_levels::OxAgTileTypeSpawnLevels;
use rand::rngs::StdRng;
use rand::{Rng, SeedableRng};

fn bare(tile_type: TileType) -> Tile {
    Tile { tile_type, content: Content::Empty, elevation: 0 }
}

fn level_grid(size: usize, tile_type: TileType) -> Vec<Vec<Tile>> {
    filled(size, bare(tile_type))
}

fn even_field(size: usize) -> HeightMap {
    HeightMap::new(vec![vec![0; size]; size], 0, false).unwrap()
}

#[test]
fn the_draws_of_a_seed_are_those_of_its_generator() {
    let ranges: [(u64, u64); 9] = [
        (0, 0),
        (0, 1),
        (1, 4),
        (0, 9),
        (0, 255),
        (0, 999_999),
        (0, 2_000_000),
        (7, u64::MAX),
        (0, u64::MAX),
    ];
    for seed in [0u64, 1, 5, 420, 451, u64::MAX] {
        let mut draws = SeedDraws::new(seed);
        let mut rng = StdRng::seed_from_u64(seed);
        assert_eq!((draws.seed, draws.pos), (seed, 0));
        for round in 0..40 {
            for (low, high) in ranges {
                let before = draws.pos;
                let drawn = draws.between(low, high);
                assert_eq!(drawn, rng.gen_range(low..=high), "seed {seed}, round {round}");
                assert!(low <= drawn && drawn <= high);
                assert_eq!(draws.seed, seed);
                assert!(draws.pos >= before);
            }
        }
        assert!(draws.pos > 0);
    }
}

#[test]
fn a_draw_depends_on_where_it_begins() {
    let mut first = SeedDraws::new(9);
    let a = first.between(0, 999_999);
    let b = first.between(0, 999_999);
    assert_ne!(a, b);
    let mut again = SeedDraws { seed: 9, pos: 0 };
    assert_eq!(again.between(0, 999_999), a);
    let mut later = SeedDraws { seed: 9, pos: again.pos };
    assert_eq!(later.between(0, 999_999), b);
    let mut other = SeedDraws::new(10);
    assert_ne!(other.between(0, 999_999), a);
}

#[test]
fn tosses_and_bytes_are_those_of_the_generator_too() {
    for seed in 0..50u64 {
        let mut draws = SeedDraws::new(seed);
        let mut rng = StdRng::seed_from_u64(seed);
        for round in 0..30 {
            assert_eq!(draws.toss(7, 10), rng.gen_bool(0.7), "seed {seed}, round {round}");
            assert_eq!(draws.toss(5, 10), rng.gen_bool(0.5));
            assert_eq!(draws.toss(1, 2), rng.gen_ratio(1, 2));
            assert_eq!(draws.byte(), rng.gen::<u8>());
            assert_eq!(draws.byte_between(0, 24), rng.gen_range(0..=24u8));
            assert_eq!(draws.byte_between(0, 254), rng.gen_range(0..u8::MAX));
            assert_eq!(draws.between(1, 4), rng.gen_range(1..5usize) as u64);
            assert!(draws.toss(3, 3));
            assert!(rng.gen_ratio(3, 3));
            assert!(!draws.toss(0, 5));
            assert!(!rng.gen_ratio(0, 5));
        }
        assert_eq!(draws.seed, seed);
    }
    let tosses: Vec<bool> = (0..40u64).map(|seed| SeedDraws::new(seed).toss(1, 2)).collect();
    assert!(tosses.contains(&true) && tosses.contains(&false));
    let bytes: Vec<u8> = (0..40u64).map(|seed| SeedDraws::new(seed).byte()).collect();
    assert!(bytes.iter().any(|b| *b != bytes[0]));
}

#[test]
fn the_size_and_the_multiplier_of_a_seed_are_its_first_draws() {
    for seed in 0..2_000u64 {
        let mut rng = StdRng::seed_from_u64(seed);
        let byte: u8 = rng.gen_range(0..u8::MAX);
        assert_eq!(generate_random_world_size(seed), usize::from(byte));
        assert_eq!(
            generate_random_world_size(seed),
            usize::from(SeedDraws::new(seed).byte_between(0, 254))
        );
        let mut rng = StdRng::seed_from_u64(seed);
        let first: u64 = rng.gen_range(0..=999_999u64);
        assert_eq!(multiplier_from_seed(seed), first as i64);
        assert_eq!(multiplier_from_seed(seed), SeedDraws::new(seed).between(0, 999_999) as i64);
    }
}

fn drawn_counts(draws: &mut SeedDraws, limit: u64) -> CountRange {
    let bound = draws.between(1, limit - 1);
    let end = draws.between(0, bound - 1);
    CountRange::new(0, end as usize)
}

#[test]
fn terrain_options_are_made_from_the_draws_of_the_seed() {
    for seed in 0..200u64 {
        let mut draws = SeedDraws::new(seed);
        let mut ends = [0i64; 6];
        let mut low: i64 = -1_000_000;
        for end in ends.iter_mut() {
            low += draws.between(0, (1_000_000 - low) as u64) as i64;
            *end = low;
        }
        let river_n = drawn_counts(&mut draws, 64);
        let street_n = drawn_counts(&mut draws, 64);
        let lava_n = drawn_counts(&mut draws, 30);
        let lava_radius = drawn_counts(&mut draws, 8);
        let street_len = drawn_counts(&mut draws, 20);
        let expected = OxAgTileTypeOptions::chained(
            (ends[0], ends[1], ends[2], ends[3], ends[4], ends[5]),
            river_n,
            street_n,
            street_len,
            lava_n,
            lava_radius,
        );
        let made = OxAgTileTypeOptions::new_from_seed(seed);
        assert_eq!(made, expected);
        for counts in [made.river_n, made.street_n, made.street_len, made.lava_n, made.lava_radius] {
            assert_eq!(counts.start, 0);
        }
        let bands = OxAgTileTypeSpawnLevels::new_from_seed(seed);
        assert_eq!(bands.deep_water_level, made.deep_water_level);
        assert_eq!(bands.shallow_water_level, made.shallow_water_level);
        assert_eq!(bands.sand_level, made.sand_level);
        assert_eq!(bands.grass_level, made.grass_level);
        assert_eq!(bands.hill_level, made.hill_level);
        assert_eq!(bands.mountain_level, made.mountain_level);
        assert_eq!(bands.snow_level, made.snow_level);
    }
}

#[test]
fn chained_bands_start_where_the_last_ended() {
    let counts = CountRange::new(0, 3);
    let made = OxAgTileTypeOptions::chained(
        (-500_000, -100_000, 0, 250_000, 600_000, 900_000),
        counts,
        CountRange::new(0, 1),
        CountRange::new(0, 2),
        CountRange::new(0, 4),
        CountRange::new(0, 5),
    );
    assert_eq!((made.deep_water_level.start, made.deep_water_level.end), (-1_000_000, -500_000));
    assert_eq!((made.shallow_water_level.start, made.shallow_water_level.end), (-500_000, -100_000));
    assert_eq!((made.sand_level.start, made.sand_level.end), (-100_000, 0));
    assert_eq!((made.grass_level.start, made.grass_level.end), (0, 250_000));
    assert_eq!((made.hill_level.start, made.hill_level.end), (250_000, 600_000));
    assert_eq!((made.mountain_level.start, made.mountain_level.end), (600_000, 900_000));
    assert_eq!((made.snow_level.start, made.snow_level.end), (900_000, 1_000_000));
    assert_eq!(made.river_n, counts);
    assert_eq!(made.street_n, CountRange::new(0, 1));
    assert_eq!(made.street_len, CountRange::new(0, 2));
    assert_eq!(made.lava_n, CountRange::new(0, 4));
    assert_eq!(made.lava_radius, CountRange::new(0, 5));
}

#[test]
fn content_options_are_made_from_the_draws_of_the_seed() {
    for seed in 0..60u64 {
        for size in [1usize, 64, 1000] {
            let mut draws = SeedDraws::new(seed);
            let mut plain_draws = SeedDraws::new(seed);
            let made = OxAgContentOptions::new_from_seed(seed, size);
            let plain = OxAgTileContentSpawnOptions::new_from_seed(seed, size);
            assert_eq!((made.len(), plain.len()), (15, 15));
            for k in 0..15 {
                let mut by_hand = draws;
                let radius = by_hand.between(1, 4) as usize;
                let in_batches = by_hand.toss(5, 10);
                let is_present = by_hand.toss(5, 10);
                let fixed = by_hand.toss(1, 2);
                let limit = size * size / (radius * radius * 314 / 100) + 12;
                assert_eq!(limit, size.pow(2) / (radius.pow(2) as f64 * 3.14) as usize + 12);
                let number = by_hand.between(0, limit as u64 - 1) as usize;
                let share = by_hand.between(0, 999_999) as i64;
                let expected = OxAgContentOptions {
                    in_batches,
                    is_present,
                    min_spawn_number: 0,
                    max_radius: radius,
                    with_max_spawn_number: fixed,
                    max_spawn_number: number,
                    percentage: share,
                };
                assert_eq!(OxAgContentOptions::draw(&mut draws, size), expected);
                assert_eq!(draws.pos, by_hand.pos);
                assert_eq!(made[k], (Content::all()[k], expected));
                let entry = OxAgTileContentSpawnOptions::draw(&mut plain_draws, size);
                assert_eq!(plain[k], (Content::all()[k], entry));
            }
            // the plain options draw no share, so only the first entry
            // is sure to agree with the options that do
            assert_eq!(plain[0].1.max_radius, made[0].1.max_radius);
            assert_eq!(plain[0].1.in_batches, made[0].1.in_batches);
            assert_eq!(plain[0].1.is_present, made[0].1.is_present);
            assert_eq!(plain[0].1.max_spawn_number, made[0].1.max_spawn_number);
        }
    }
}

#[test]
fn conditions_are_made_from_the_draws_of_the_seed() {
    let order = [
        WeatherType::Sunny,
        WeatherType::Rainy,
        WeatherType::Foggy,
        WeatherType::TropicalMonsoon,
        WeatherType::TrentinoWinter,
    ];
    for seed in 0..300u64 {
        let mut draws = SeedDraws::new(seed);
        let mut rng = StdRng::seed_from_u64(seed);
        let mut weather = Vec::new();
        let mut drawn = Vec::new();
        for kind in order {
            if draws.toss(7, 10) {
                weather.push(kind);
            }
            if rng.gen_bool(0.7) {
                drawn.push(kind);
            }
        }
        let ticks = draws.byte();
        let hour = draws.byte_between(0, 24);
        let made = EnvironmentalConditions::new_from_seed(seed);
        assert_eq!(made.get_weather_sequence(), &weather);
        assert_eq!(made.get_tick_per_day(), ticks);
        assert_eq!(made.get_start_hour(), hour);
        assert_eq!(made.get_weather_sequence(), &drawn);
        assert_eq!(made.get_tick_per_day(), rng.gen::<u8>());
        assert_eq!(made.get_start_hour(), rng.gen_range(0..=24u8));
    }
}

#[test]
fn carving_keeps_what_lies_on_dry_land() {
    let options = OxAgTileTypePresets::Default.load();
    let deep = options.deep_water_level.start;
    let shallow = (options.shallow_water_level.start + options.shallow_water_level.end) / 2 + 1;
    let dry = options.hill_level.end;
    assert!(!options.deep_water_level.contains(dry) && !options.shallow_water_level.contains(dry));
    assert!(!options.deep_water_level.contains(shallow));
    let samples: Vec<Vec<i64>> = vec![
        vec![900_000, dry, 100_000],
        vec![deep, shallow, 0],
        vec![650_000, 900_000, 900_000],
    ];
    let field = HeightMap::new(samples.clone(), 1, false).unwrap();
    let mut maze = maze_builder_init(1, 3, field);
    let mut rng = StdRng::seed_from_u64(8);
    maze.map[0][1] = Tile { tile_type: TileType::Wall, content: Content::Coin(3), elevation: 17 };
    maze.map[1][0] = Tile { tile_type: TileType::Wall, content: Content::Coin(3), elevation: 17 };
    maze.set_path(1, 0, &options, &mut rng);
    assert_eq!(
        maze.map[0][1],
        Tile { tile_type: options.classify(dry), content: Content::Coin(3), elevation: 17 }
    );
    assert!(!maze.map[0][1].tile_type.is_water());
    maze.set_path(0, 1, &options, &mut rng);
    assert_eq!(maze.map[1][0].tile_type, TileType::DeepWater);
    assert_eq!(maze.map[1][0].elevation, 0);
    assert!(matches!(maze.map[1][0].content, Content::Water(k) if k < 20));
    maze.set_path(1, 1, &options, &mut rng);
    assert_eq!(maze.map[1][1].tile_type, TileType::ShallowWater);
    assert!(matches!(maze.map[1][1].content, Content::Water(k) if k < 20));
    maze.set_path(2, 2, &options, &mut rng);
    assert_eq!(maze.map[2][2], bare(options.classify(900_000)));
    // carving again changes nothing on dry land
    maze.set_path(1, 0, &options, &mut rng);
    assert_eq!(maze.map[0][1].content, Content::Coin(3));
    assert_eq!(maze.map[0][0], bare(TileType::Wall));
    assert_eq!((maze.size, maze.seed), (3, 1));
}

#[test]
fn a_street_that_ends_early_has_its_second_side_closed() {
    // one free column in a taken grid: heading south, the first side is
    // east and the second is west
    let mut lengths = [0usize; 4];
    for seed in 0..80u64 {
        let mut field = even_field(3);
        for r in 0..3 {
            field.claimed[r][0] = true;
            field.claimed[r][2] = true;
        }
        let mut map = level_grid(3, TileType::Grass);
        let mut rng = StdRng::seed_from_u64(seed);
        field.street_spawn(&mut map, 0, 1, &mut rng, Direction::South, 9);
        let paved: Vec<usize> =
            (0..3).filter(|r| map[*r][1].tile_type == TileType::Street).collect();
        assert!(!paved.is_empty());
        assert_eq!(paved, (0..paved.len()).collect::<Vec<usize>>());
        for r in 0..3 {
            assert_eq!(map[r][0], bare(TileType::Grass));
            assert_eq!(map[r][2], bare(TileType::Grass));
            assert_eq!(field.claimed[r][1], r < paved.len());
        }
        lengths[paved.len()] += 1;
    }
    // the street goes on only when it is drawn to go straight
    assert!(lengths[1] > 0 && lengths[3] > 0);
    // with both sides free, the second side is taken whenever nothing
    // else is: the street then never ends before it is as long as asked
    for seed in 0..80u64 {
        let mut field = even_field(9);
        let mut map = level_grid(9, TileType::Grass);
        let mut rng = StdRng::seed_from_u64(seed);
        field.street_spawn(&mut map, 4, 4, &mut rng, Direction::North, 3);
        let paved = map.iter().flatten().filter(|t| t.tile_type == TileType::Street).count();
        assert_eq!(paved, 3);
    }
}

#[test]
fn counts_of_none_leave_the_classified_grid() {
    let mut options = OxAgTileTypePresets::Default.load();
    options.river_n = CountRange::new(0, 0);
    options.lava_n = CountRange::new(0, 0);
    options.street_n = CountRange::new(0, 0);
    let samples: Vec<Vec<i64>> = (0..16)
        .map(|r| (0..16).map(|c| ((r * 16 + c) as i64 - 128) * 7_000).collect())
        .collect();
    for seed in 0..10u64 {
        let field = HeightMap::new(samples.clone(), seed, false).unwrap();
        let mut rng = StdRng::seed_from_u64(seed);
        let mat = field.to_tile_mat(&options, 3_000_000, &mut rng);
        let (min, max) = (-128 * 7_000, 127 * 7_000);
        for r in 0..16 {
            for c in 0..16 {
                let level = normalize(samples[r][c], min, max).unwrap();
                assert_eq!(mat.map[r][c].tile_type, options.classify(level));
            }
        }
    }
    // no length of a street is as good as no street
    let mut options = OxAgTileTypePresets::Default.load();
    options.street_len = CountRange::new(0, 0);
    let mut field = even_field(12);
    let mut map = level_grid(12, TileType::Grass);
    let mut rng = StdRng::seed_from_u64(4);
    field.streets_spawn(&mut map, &options, &mut rng);
    assert_eq!(map, level_grid(12, TileType::Grass));
    assert!(field.claimed.iter().flatten().all(|taken| !*taken));
    options.lava_n = CountRange::new(0, 0);
    field.lava_spawn(&mut map, &options, &mut rng);
    assert_eq!(map, level_grid(12, TileType::Grass));
}

#[test]
fn no_more_cells_change_than_contents_are_placed() {
    for (fixed, seed) in [(0usize, 1u64), (1, 2), (3, 3), (10, 4), (40, 5)] {
        let mut mat =
            TileMat { map: level_grid(8, TileType::Grass), with_info: false, seed, size: 8 };
        let before = mat.map.clone();
        let mut rng = StdRng::seed_from_u64(seed);
        let options = OxAgContentOptions {
            in_batches: false,
            is_present: true,
            min_spawn_number: 5,
            max_radius: 0,
            with_max_spawn_number: true,
            max_spawn_number: fixed,
            percentage: 500_000,
        };
        let able = holders(&mat.map, 8, Content::Rock(0));
        assert_eq!(able, 64);
        mat.spawn_randomly(&Content::Rock(0), &options, able, &mut rng);
        let changed = mat
            .map
            .iter()
            .flatten()
            .zip(before.iter().flatten())
            .filter(|(now, then)| now != then)
            .count();
        assert!(changed <= fixed);
        if fixed == 0 {
            assert_eq!(mat.map, before);
        }
        if fixed > 0 {
            assert!(mat.map.iter().flatten().any(|t| matches!(t.content, Content::Rock(_))));
        }
    }
}

#[test]
fn a_list_of_absent_kinds_ends_the_placing_at_once() {
    let absent = OxAgContentOptions {
        in_batches: true,
        is_present: false,
        min_spawn_number: 4,
        max_radius: 2,
        with_max_spawn_number: false,
        max_spawn_number: 0,
        percentage: 900_000,
    };
    let without_share = OxAgContentOptions { is_present: true, percentage: 0, ..absent };
    let list = vec![
        (Content::Rock(0), absent),
        (Content::Tree(0), without_share),
        (Content::Coin(0), absent),
    ];
    let mat = TileMat { map: level_grid(10, TileType::Grass), with_info: false, seed: 3, size: 10 };
    let mut spawner = mat.spawn_contents(&list);
    let mut rng = StdRng::seed_from_u64(3);
    assert_eq!(spawner.step(None, &mut rng), SpawnStep::Done);
    assert_eq!(spawner.next, 3);
    let (after, at) = spawner.finish();
    assert_eq!(after.map, level_grid(10, TileType::Grass));
    assert!(at.0 < 10 && at.1 < 10);
}
