use oxagworldgenerator::utils::traits::Loadable;
use oxagworldgenerator::world::tile::{Content, Tile, TileType};
use oxagworldgenerator::world_generator::content_options::OxAgContentOptions;
use oxagworldgenerator::world_generator::presets::content_presets::OxAgContentPresets;
use oxagworldgenerator::world_generator::spawning_tools::batch_spawn::{
    batch_chance, batch_limit, isqrt,
};
use oxagworldgenerator::world_generator::spawning_tools::grid::filled;
use oxagworldgenerator::world_generator::spawning_tools::matrix_spawn::HeightMap;
use oxagworldgenerator::world_generator::spawning_tools::maze::maze_builder_init;
use oxagworldgenerator::world_generator::spawning_tools::random_spawn::{
    holders, share, spawn_number,
};
use oxagworldgenerator::world_generator::spawning_tools::{SpawnStep, TileMat};
use oxagworldgenerator::world_generator::presets::tile_type_presets::OxAgTileTypePresets;
use rand::rngs::StdRng;
use rand::SeedableRng;

fn tile(tile_type: TileType) -> Tile {
    Tile { tile_type, content: Content::Empty, elevation: 0 }
}

fn mat(size: usize, tile_type: TileType, seed: u64) -> TileMat {
    TileMat { map: filled(size, tile(tile_type)), with_info: false, seed, size }
}

fn options(in_batches: bool, min: usize, radius: usize, fixed: Option<usize>, percentage: i64) -> OxAgContentOptions {
    OxAgContentOptions {
        in_batches,
        is_present: true,
        min_spawn_number: min,
        max_radius: radius,
        with_max_spawn_number: fixed.is_some(),
        max_spawn_number: fixed.unwrap_or(0),
        percentage,
    }
}

fn flat(size: usize, height: i64) -> HeightMap {
    HeightMap::new(vec![vec![height; size]; size], 0, false).unwrap()
}

fn filled_cells(map: &[Vec<Tile>]) -> usize {
    map.iter().flatten().filter(|t| t.content != Content::Empty).count()
}

#[test]
fn the_share_of_the_holders() {
    assert_eq!(share(100, 500_000), 50);
    assert_eq!(share(3, 333_333), 0);
    assert_eq!(share(3, 333_334), 1);
    assert_eq!(share(10, 1_000_000), 10);
    assert_eq!(share(0, 1_000_000), 0);
    assert_eq!(share(10, 0), 0);
    assert_eq!(share(10, -5), 0);
    assert_eq!(share(1_048_576, 80_000), 83_886);
    assert_eq!(share(32_768 * 32_768, 1_000_000), 32_768 * 32_768);
}

#[test]
fn the_limit_on_batches() {
    // 65536 cells, a share of 0.3, batches of radius 10: 19660.8 / 326
    assert_eq!(batch_limit(65_536, 300_000, 10), 60);
    // radius 1: 3.14 + 12 cells a batch
    assert_eq!(batch_limit(65_536, 300_000, 1), 1_298);
    assert_eq!(batch_limit(1_000, 1_000_000, 2), 40);
    assert_eq!(batch_limit(15, 1_000_000, 1), 0);
    assert_eq!(batch_limit(16, 1_000_000, 1), 1);
    assert_eq!(batch_limit(0, 1_000_000, 1), 0);
    assert_eq!(batch_limit(100, 0, 1), 0);
    assert_eq!(batch_limit(100, -1, 1), 0);
    assert_eq!(batch_limit(32_768 * 32_768, 1_000_000, 2_000_000), 0);
    assert_eq!(batch_limit(32_768 * 32_768, 1_000_000, 1_000), 341);
}

#[test]
fn square_roots_are_rounded_down() {
    assert_eq!(isqrt(0), 0);
    assert_eq!(isqrt(1), 1);
    assert_eq!(isqrt(3), 1);
    assert_eq!(isqrt(4), 2);
    assert_eq!(isqrt(15), 3);
    assert_eq!(isqrt(16), 4);
    assert_eq!(isqrt(1_000_000_000_000), 1_000_000);
    assert_eq!(isqrt(2_000_000_000_000), 1_414_213);
    assert_eq!(isqrt(999_999_999_999), 999_999);
    assert_eq!(isqrt((1u128 << 96) - 1), (1u64 << 48) - 1);
}

#[test]
fn the_chance_of_a_cell_in_a_batch() {
    assert_eq!(batch_chance(0, 0, 10, 0, 0, 5), 0);
    assert_eq!(batch_chance(10, 0, 10, 5, 0, 5), 2_000_000);
    assert_eq!(batch_chance(10, 0, 10, 0, -5, 5), 2_000_000);
    assert_eq!(batch_chance(5, 0, 10, 3, 4, 10), 1_000_000);
    assert_eq!(batch_chance(5, 0, 10, 0, 0, 10), 500_000);
    assert_eq!(batch_chance(-5, -10, 10, 0, 0, 1), 250_000);
    assert_eq!(batch_chance(0, 0, 10, 1, 1, 2), 707_106);
    assert_eq!(batch_chance(1, 0, 3, 1, 0, 3), 333_333 + 333_333);
    // a flat field has no noise share
    assert_eq!(batch_chance(7, 7, 7, 0, 0, 3), 0);
    assert_eq!(batch_chance(7, 7, 7, 0, 3, 3), 1_000_000);
    assert_eq!(batch_chance(i64::MAX, i64::MIN, i64::MAX, 0, 0, 1), 1_000_000);
}

#[test]
fn the_holders_are_counted() {
    let mut map = filled(5, tile(TileType::Grass));
    map[0][0] = tile(TileType::DeepWater);
    map[1][3] = tile(TileType::ShallowWater);
    map[4][4] = tile(TileType::Lava);
    map[2][2] = tile(TileType::Wall);
    assert_eq!(holders(&map, 5, Content::Rock(0)), 21);
    assert_eq!(holders(&map, 5, Content::Water(0)), 2);
    assert_eq!(holders(&map, 5, Content::Fish(9)), 2);
    assert_eq!(holders(&map, 5, Content::Empty), 0);
    assert_eq!(holders(&filled(5, tile(TileType::Wall)), 5, Content::Rock(0)), 0);
    assert_eq!(holders(&filled(1, tile(TileType::Sand)), 1, Content::Fire), 1);
}

#[test]
fn the_number_of_placements() {
    let mut rng = StdRng::seed_from_u64(6);
    assert_eq!(spawn_number(&options(false, 3, 0, Some(17), 5), 1000, &mut rng), 17);
    assert_eq!(spawn_number(&options(false, 3, 0, Some(0), 5), 1000, &mut rng), 0);
    assert_eq!(spawn_number(&options(false, 30, 0, None, 5), 10, &mut rng), 30);
    assert_eq!(spawn_number(&options(false, 10, 0, None, 5), 10, &mut rng), 10);
    let mut seen = [false; 6];
    for _ in 0..300 {
        let n = spawn_number(&options(false, 5, 0, None, 5), 10, &mut rng);
        assert!((5..=10).contains(&n));
        seen[n - 5] = true;
    }
    assert_eq!(seen, [true; 6]);
}

#[test]
fn contents_spread_at_random_lie_on_their_holders() {
    let mut rng = StdRng::seed_from_u64(10);
    let mut grid = mat(8, TileType::Grass, 1);
    for c in 0..8 {
        grid.map[0][c] = tile(TileType::DeepWater);
        grid.map[7][c] = tile(TileType::Lava);
    }
    let before = grid.map.clone();
    grid.spawn_randomly(&Content::Coin(0), &options(false, 0, 0, Some(200), 1_000_000), 48, &mut rng);
    for (r, row) in grid.map.iter().enumerate() {
        for (c, t) in row.iter().enumerate() {
            assert_eq!(t.tile_type, before[r][c].tile_type);
            assert_eq!(t.elevation, 0);
            if r == 0 || r == 7 {
                assert_eq!(t.content, Content::Empty);
            } else {
                assert!(matches!(t.content, Content::Coin(k) if k < 10), "{t:?}");
            }
        }
    }
    let mut water = mat(8, TileType::Grass, 1);
    water.spawn_randomly(&Content::Fish(0), &options(false, 5, 0, Some(9), 1_000_000), 0, &mut rng);
    assert_eq!(filled_cells(&water.map), 0);
    let mut few = mat(8, TileType::Sand, 1);
    few.spawn_randomly(&Content::Fire, &options(false, 0, 0, Some(3), 1_000_000), 64, &mut rng);
    let fires = few.map.iter().flatten().filter(|t| t.content == Content::Fire).count();
    assert!((1..=3).contains(&fires));
    assert_eq!(filled_cells(&few.map), fires);
    let mut shared = mat(10, TileType::Sand, 1);
    shared.spawn_randomly(&Content::Rock(0), &options(false, 0, 0, None, 100_000), 100, &mut rng);
    assert!(filled_cells(&shared.map) <= 10);
}

#[test]
fn a_batch_follows_its_field_and_the_distance() {
    // the least height in the middle, the greatest at the end of an axis
    let field = HeightMap::new(vec![vec![5, 9], vec![5, 0]], 0, false).unwrap();
    for seed in 0..30u64 {
        let mut rng = StdRng::seed_from_u64(seed);
        let mut grid = mat(3, TileType::Grass, 1);
        grid.spawn_batch(&Content::Rock(0), 1, 1, 1, &field, &mut rng);
        // the cell above the middle has a chance of two in two
        assert!(matches!(grid.map[0][1].content, Content::Rock(k) if k < 4));
        // the middle has none
        assert_eq!(grid.map[1][1].content, Content::Empty);
        // what the field does not reach stays empty
        for (r, c) in [(0, 0), (0, 2), (1, 2), (2, 0), (2, 1), (2, 2)] {
            assert_eq!(grid.map[r][c].content, Content::Empty);
        }
    }
    let mut rng = StdRng::seed_from_u64(3);
    let mut left = 0;
    for _ in 0..400 {
        let mut grid = mat(3, TileType::Grass, 1);
        grid.spawn_batch(&Content::Rock(0), 1, 1, 1, &field, &mut rng);
        if grid.map[1][0].content != Content::Empty {
            left += 1;
        }
    }
    // a noise share of five ninths and a distance share of one: 7 in 9
    assert!((270..=350).contains(&left), "{left}");
}

#[test]
fn a_batch_is_cut_at_the_border_and_lies_on_its_holders() {
    let field = flat(6, 3);
    let mut rng = StdRng::seed_from_u64(3);
    let mut grid = mat(4, TileType::Grass, 1);
    grid.map[0][1] = tile(TileType::ShallowWater);
    grid.spawn_batch(&Content::Fire, 3, 0, 0, &field, &mut rng);
    assert_eq!(grid.map[0][1].content, Content::Empty);
    // at the rim of a flat field the chance is one in two; the center has none
    assert_eq!(grid.map[0][0].content, Content::Empty);
    for (r, row) in grid.map.iter().enumerate() {
        for (c, t) in row.iter().enumerate() {
            if r * r + c * c > 9 || r >= 3 || c >= 3 {
                assert_eq!(t.content, Content::Empty, "({r}, {c})");
            }
        }
    }
}

fn run(mut spawner: oxagworldgenerator::world_generator::spawning_tools::ContentSpawner, rng: &mut StdRng) -> (TileMat, (usize, usize), usize) {
    let mut field: Option<HeightMap> = None;
    let mut fields = 0;
    loop {
        match spawner.step(field.as_ref(), rng) {
            SpawnStep::NeedField { seed: _, size } => {
                fields += 1;
                field = Some(flat(size, 1));
            }
            SpawnStep::Done => break,
        }
    }
    let (mat, at) = spawner.finish();
    (mat, at, fields)
}

#[test]
fn the_default_contents_lie_where_they_can() {
    let mut rng = StdRng::seed_from_u64(12);
    let mut grid = mat(40, TileType::Grass, 5);
    for r in 0..40 {
        for c in 0..10 {
            grid.map[r][c] = tile(TileType::ShallowWater);
        }
        grid.map[r][39] = tile(TileType::DeepWater);
    }
    let before = grid.map.clone();
    let spawner = grid.spawn_contents(&OxAgContentPresets::Default.load());
    let (after, at, fields) = run(spawner, &mut rng);
    assert!(fields >= 2 + 2 + 2);
    assert!(after.map[at.0][at.1].tile_type.walk());
    let mut kinds = std::collections::HashSet::new();
    for r in 0..40 {
        for c in 0..40 {
            let t = after.map[r][c];
            assert_eq!(t.tile_type, before[r][c].tile_type);
            if t.content != Content::Empty {
                assert!(t.tile_type.can_hold(t.content));
                kinds.insert(t.content.to_default());
            }
        }
    }
    assert!(kinds.contains(&Content::Rock(0)));
    assert!(kinds.contains(&Content::Water(0)));
    assert!(!kinds.contains(&Content::Bush(0)));
}

#[test]
fn absent_contents_and_contents_without_a_share_are_passed_over() {
    let mut rng = StdRng::seed_from_u64(12);
    let list = vec![
        (Content::Rock(0), OxAgContentOptions { is_present: false, ..options(false, 5, 0, Some(9), 1_000_000) }),
        (Content::Tree(0), options(false, 5, 0, Some(9), 0)),
        (Content::Fish(0), options(false, 5, 0, Some(9), 1_000_000)),
        (Content::Coin(0), options(true, 5, 20_000, Some(9), 1_000_000)),
        (Content::Empty, options(false, 5, 0, Some(9), 1_000_000)),
    ];
    let spawner = mat(12, TileType::Grass, 5).spawn_contents(&list);
    let (after, at, fields) = run(spawner, &mut rng);
    assert_eq!(fields, 0);
    assert_eq!(filled_cells(&after.map), 0);
    assert!(at.0 < 12 && at.1 < 12);
    let spawner = mat(12, TileType::DeepWater, 5).spawn_contents(&Vec::new());
    let (_, at, _) = run(spawner, &mut rng);
    assert_eq!(at, (0, 0));
}

#[test]
fn batches_ask_for_their_fields_one_by_one() {
    let mut rng = StdRng::seed_from_u64(21);
    let list = vec![(Content::Bush(3), options(true, 0, 0, Some(4), 500_000)), (Content::Garbage(0), options(true, 0, 3, Some(2), 500_000))];
    let mut spawner = mat(16, TileType::Hill, 0xffff_ffff_0000_0000).spawn_contents(&list);
    let mut sizes = Vec::new();
    let mut field: Option<HeightMap> = None;
    loop {
        match spawner.step(field.as_ref(), &mut rng) {
            SpawnStep::NeedField { seed, size } => {
                sizes.push(size);
                // every other field is withheld: its batch places nothing
                field = if sizes.len() % 2 == 0 { None } else { Some(flat(size, i64::from(seed % 7))) };
            }
            SpawnStep::Done => break,
        }
    }
    assert_eq!(sizes, vec![2, 2, 2, 2, 6, 6]);
    assert_eq!(spawner.step(None, &mut rng), SpawnStep::Done);
    let (after, _) = spawner.finish();
    for t in after.map.iter().flatten() {
        assert!(matches!(t.content, Content::Empty | Content::Bush(_) | Content::Garbage(_)));
    }
}

#[test]
fn a_maze_is_carved_from_its_heights() {
    let samples: Vec<Vec<i64>> =
        (0..9).map(|r| (0..9).map(|c| (r as i64 - 4) * 250_000 + c as i64).collect()).collect();
    let field = HeightMap::new(samples.clone(), 3, false).unwrap();
    let options = OxAgTileTypePresets::Default.load();
    let maze = maze_builder_init(3, 9, field);
    assert_eq!(maze.map, filled(9, tile(TileType::Wall)));
    assert!(maze.is_wall(3, 3) && !maze.is_wall(0, 3) && !maze.is_wall(3, 9));
    assert_eq!((maze.check_odd(4), maze.check_odd(5), maze.check_odd(6)), (5, 5, 7));
    let mut rng = StdRng::seed_from_u64(3);
    for _ in 0..50 {
        let (x, y) = maze.random_point(&mut rng);
        assert!(x % 2 == 1 && y % 2 == 1 && x < 8 && y < 8);
    }
    assert_eq!(maze.random_not_street(&mut rng), None);
    let made = maze.builder(&options, &mut rng);
    assert!(!made.with_info);
    assert_eq!((made.size, made.seed), (9, 3));
    let mut jolly = 0;
    for (r, row) in made.map.iter().enumerate() {
        for (c, t) in row.iter().enumerate() {
            if r % 2 == 1 && c % 2 == 1 {
                assert_ne!(t.tile_type, TileType::Wall);
            }
            if r % 2 == 0 && c % 2 == 0 {
                assert_eq!(t.tile_type, TileType::Wall);
            }
            if t.tile_type != TileType::Wall {
                assert_eq!(t.tile_type, options.classify(samples[r][c]));
                assert_eq!(t.elevation, 0);
            }
            match t.content {
                Content::JollyBlock(1) => jolly += 1,
                Content::Water(k) => assert!(k < 20 && t.tile_type.is_water()),
                Content::Empty => {}
                other => panic!("{other:?}"),
            }
        }
    }
    assert_eq!(jolly, 1);
    let open = made.map.iter().flatten().filter(|t| t.tile_type != TileType::Wall).count();
    assert_eq!(open, 16 + 15);
}

#[test]
fn the_walk_of_a_maze_draws_its_directions_anew() {
    let options = OxAgTileTypePresets::Hill.load();
    let mut patterns = std::collections::HashSet::new();
    for seed in 0..40u64 {
        let mut maze = maze_builder_init(seed, 7, flat(7, 0));
        let mut rng = StdRng::seed_from_u64(seed);
        maze.maze_builder_loop(3, 3, &mut rng, &options);
        let open = |r: usize, c: usize| maze.map[r][c].tile_type != TileType::Wall;
        patterns.insert((open(2, 3), open(4, 3), open(3, 2), open(3, 4)));
        let corridors = maze.map.iter().flatten().filter(|t| t.tile_type != TileType::Wall).count();
        assert_eq!(corridors, 9 + 8);
    }
    assert!(patterns.len() >= 3, "{patterns:?}");
}

#[test]
fn jolly_blocks_are_scattered_over_the_corridors() {
    let options = OxAgTileTypePresets::Hill.load();
    for seed in 0..10u64 {
        let mut maze = maze_builder_init(seed, 7, flat(7, 0));
        let mut rng = StdRng::seed_from_u64(seed);
        maze.maze_builder_loop(3, 3, &mut rng, &options);
        let carved = maze.map.clone();
        maze.scatter_jolly(0, &mut rng);
        assert_eq!(maze.map, carved);
        maze.scatter_jolly(3, &mut rng);
        let mut blocks = 0;
        for (r, row) in maze.map.iter().enumerate() {
            for (c, t) in row.iter().enumerate() {
                assert_eq!(t.tile_type, carved[r][c].tile_type);
                if t.content == Content::JollyBlock(1) {
                    assert_ne!(t.tile_type, TileType::Wall);
                    blocks += 1;
                } else {
                    assert_eq!(*t, carved[r][c]);
                }
            }
        }
        assert!((1..=3).contains(&blocks));
        // a side below ten leaves no room for scattered blocks
        let scattered = maze.map.clone();
        maze.teleport_spawner(&mut rng);
        assert_eq!(maze.map, scattered);
    }
    let mut walls = maze_builder_init(1, 7, flat(7, 0));
    let mut rng = StdRng::seed_from_u64(1);
    walls.scatter_jolly(4, &mut rng);
    assert_eq!(walls.map, filled(7, tile(TileType::Wall)));
}

#[test]
fn every_kind_that_is_asked_for_is_placed() {
    for seed in 0..20u64 {
        let mut rng = StdRng::seed_from_u64(seed);
        let mut grid = mat(12, TileType::Grass, seed);
        // a content lies on the grid already
        grid.map[0][0].content = Content::Coin(2);
        let list = vec![
            (Content::Rock(0), options(false, 20, 0, None, 500_000)),
            (Content::Tree(0), options(false, 0, 0, Some(3), 500_000)),
        ];
        let mut spawner = grid.spawn_contents(&list);
        assert_eq!(spawner.step(None, &mut rng), SpawnStep::Done);
        assert_eq!(spawner.next, 2);
        let (after, _) = spawner.finish();
        let trees = after.map.iter().flatten().filter(|t| matches!(t.content, Content::Tree(_))).count();
        let rocks = after.map.iter().flatten().filter(|t| matches!(t.content, Content::Rock(_))).count();
        // the trees come last, and nothing is placed after them
        assert!((1..=3).contains(&trees));
        // at least 20 rocks are placed, on at least 7 cells even if every
        // cell is drawn three times, and trees take 3 of them at most
        assert!(rocks >= 4, "{rocks}");
        for t in after.map.iter().flatten() {
            assert_eq!((t.tile_type, t.elevation), (TileType::Grass, 0));
        }
    }
}

#[test]
fn a_batch_without_its_field_places_nothing() {
    let list = vec![(Content::Bush(0), options(true, 0, 2, Some(1), 900_000))];
    for (kind, seed) in [(0usize, 5u64), (1, 6), (2, 7)] {
        let mut rng = StdRng::seed_from_u64(seed);
        let mut spawner = mat(14, TileType::Hill, 9).spawn_contents(&list);
        let asked = spawner.step(None, &mut rng);
        let side = match asked {
            SpawnStep::NeedField { seed: _, size } => size,
            SpawnStep::Done => panic!("no batch"),
        };
        assert_eq!(side, 4);
        assert_eq!(side, 2 * spawner.batch_radius);
        assert_eq!(spawner.batch_kind, Content::Bush(0));
        assert!(spawner.pending.is_some());
        assert_eq!(filled_cells(&spawner.mat.map), 0);
        let center = spawner.pending.unwrap();
        // heights that rise towards the rim: the cells at the ends of the
        // axes have a chance of two in two
        let rising = HeightMap::new(
            vec![vec![9, 9, 9, 9], vec![9, 1, 1, 9], vec![9, 1, 0, 9], vec![9, 9, 9, 9]],
            0,
            false,
        )
        .unwrap();
        let wide = flat(6, 1);
        let step = match kind {
            0 => spawner.step(None, &mut rng),
            1 => spawner.step(Some(&wide), &mut rng),
            _ => spawner.step(Some(&rising), &mut rng),
        };
        assert_eq!(step, SpawnStep::Done);
        let (after, _) = spawner.finish();
        if kind < 2 {
            assert_eq!(filled_cells(&after.map), 0);
        } else {
            // two cells back from the center, where the grid reaches
            if center.0 >= 2 {
                assert!(matches!(after.map[center.0 - 2][center.1].content, Content::Bush(_)));
            }
            if center.1 >= 2 {
                assert!(matches!(after.map[center.0][center.1 - 2].content, Content::Bush(_)));
            }
            for (r, row) in after.map.iter().enumerate() {
                for (c, t) in row.iter().enumerate() {
                    let dr = r as i64 - center.0 as i64;
                    let dc = c as i64 - center.1 as i64;
                    if dr * dr + dc * dc > 4 || dr >= 2 || dc >= 2 {
                        assert_eq!(t.content, Content::Empty, "({r}, {c})");
                    }
                }
            }
        }
    }
}
