use noise::{Fbm, MultiFractal, NoiseFn, Perlin};
use oxagworldgenerator::utils::errors::OxAgError;
use oxagworldgenerator::utils::traits::Loadable;
use oxagworldgenerator::world::environmental_conditions::WeatherType;
use oxagworldgenerator::world::tile::{Content, Tile, TileType};
use oxagworldgenerator::world_generator::presets::content_presets::OxAgContentPresets;
use oxagworldgenerator::world_generator::presets::environmental_presets::OxAgEnvironmentalConditionPresets;
use oxagworldgenerator::world_generator::presets::tile_type_presets::OxAgTileTypePresets;
use oxagworldgenerator::world_generator::spawning_tools::matrix_spawn::HeightMap;
use oxagworldgenerator::world_generator::world_generator_builder::OxAgWorldGeneratorBuilder;
use oxagworldgenerator::world_generator::{GenerationStep, OxAgWorldGenerator, Stage, World};

fn heights(seed: u32, size: usize) -> Vec<Vec<i64>> {
    let fbm = Fbm::<Perlin>::new(seed)
        .set_octaves(12)
        .set_frequency(2.5)
        .set_lacunarity(2.0)
        .set_persistence(0.6);
    let mut rows = Vec::with_capacity(size);
    for y in 0..size {
        let mut row = Vec::with_capacity(size);
        for x in 0..size {
            let value = fbm.get([x as f64 / size as f64, y as f64 / size as f64]);
            row.push((value * 1_000_000.0).round() as i64);
        }
        rows.push(row);
    }
    rows
}

fn generate(generator: &OxAgWorldGenerator) -> Option<World> {
    let mut run = generator.start();
    let mut field: Option<HeightMap> = None;
    loop {
        let (next, action) = run.step(field.take());
        run = next;
        match action {
            GenerationStep::NeedField { seed, size } => {
                field = HeightMap::new(heights(seed, size), seed as u64, false);
                if field.is_none() {
                    return None;
                }
            }
            GenerationStep::Done => break,
        }
    }
    run.finish()
}

fn count_terrain(map: &[Vec<Tile>], wanted: TileType) -> usize {
    map.iter().flatten().filter(|t| t.tile_type == wanted).count()
}

fn reachable_from(map: &[Vec<Tile>], start: (usize, usize)) -> usize {
    let size = map.len();
    let mut seen = vec![vec![false; size]; size];
    let mut stack = vec![start];
    seen[start.0][start.1] = true;
    let mut count = 0;
    while let Some((r, c)) = stack.pop() {
        count += 1;
        let mut around = Vec::new();
        if r > 0 {
            around.push((r - 1, c));
        }
        if c > 0 {
            around.push((r, c - 1));
        }
        if r + 1 < size {
            around.push((r + 1, c));
        }
        if c + 1 < size {
            around.push((r, c + 1));
        }
        for (nr, nc) in around {
            if !seen[nr][nc] && map[nr][nc].tile_type != TileType::Wall {
                seen[nr][nc] = true;
                stack.push((nr, nc));
            }
        }
    }
    count
}

#[test]
fn maze_of_even_size_grows_by_one_and_hangs_together() {
    let generator = OxAgWorldGeneratorBuilder::new()
        .set_seed(451)
        .set_size(32)
        .set_maze(true)
        .set_content_options_from_preset(OxAgContentPresets::Default)
        .set_tile_type_options_from_preset(OxAgTileTypePresets::Default)
        .build()
        .unwrap();
    let world = generate(&generator).unwrap();
    assert_eq!(world.map.len(), 33);
    for row in &world.map {
        assert_eq!(row.len(), 33);
    }
    for k in 0..33 {
        assert_eq!(world.map[0][k].tile_type, TileType::Wall);
        assert_eq!(world.map[32][k].tile_type, TileType::Wall);
        assert_eq!(world.map[k][0].tile_type, TileType::Wall);
        assert_eq!(world.map[k][32].tile_type, TileType::Wall);
    }
    let open = world.map.iter().flatten().filter(|t| t.tile_type != TileType::Wall).count();
    // every cell with two odd coordinates is a node, and a tree has one
    // link less than it has nodes
    assert_eq!(open, 16 * 16 + 16 * 16 - 1);
    for r in (1..33).step_by(2) {
        for c in (1..33).step_by(2) {
            assert_ne!(world.map[r][c].tile_type, TileType::Wall);
        }
    }
    let mut first = None;
    for r in 0..33 {
        for c in 0..33 {
            if first.is_none() && world.map[r][c].tile_type != TileType::Wall {
                first = Some((r, c));
            }
        }
    }
    assert_eq!(reachable_from(&world.map, first.unwrap()), open);
    let jolly = world.map.iter().flatten().filter(|t| t.content == Content::JollyBlock(1)).count();
    assert!(jolly <= 4);
}

#[test]
fn default_world_has_water_and_lava() {
    let generator = OxAgWorldGeneratorBuilder::new()
        .set_seed(420)
        .set_size(1024)
        .set_tile_type_options_from_preset(OxAgTileTypePresets::Default)
        .set_content_options_from_preset(OxAgContentPresets::Default)
        .set_with_info(false)
        .build()
        .unwrap();
    let world = generate(&generator).unwrap();
    assert_eq!(world.map.len(), 1024);
    for row in &world.map {
        assert_eq!(row.len(), 1024);
    }
    let water = count_terrain(&world.map, TileType::DeepWater)
        + count_terrain(&world.map, TileType::ShallowWater);
    assert!(water > 0);
    assert!(count_terrain(&world.map, TileType::Lava) >= 1);
    assert_eq!(count_terrain(&world.map, TileType::Wall), 0);
    assert_eq!(count_terrain(&world.map, TileType::Teleport(false)), 0);
    assert!(world.map[world.spawn.0][world.spawn.1].tile_type.walk());
    for tile in world.map.iter().flatten() {
        if tile.content != Content::Empty {
            assert!(tile.tile_type.can_hold(tile.content));
            assert!(tile.content.max() == 0 || amount(tile.content) < tile.content.max());
        }
    }
}

fn amount(content: Content) -> usize {
    match content {
        Content::Rock(v)
        | Content::Tree(v)
        | Content::Garbage(v)
        | Content::Coin(v)
        | Content::Water(v)
        | Content::Market(v)
        | Content::Fish(v)
        | Content::Bush(v)
        | Content::JollyBlock(v) => v,
        Content::Bin(_, v) | Content::Crate(_, v) | Content::Bank(_, v) => v,
        _ => 0,
    }
}

fn same_world(a: &World, b: &World) -> bool {
    a.map == b.map
        && a.spawn == b.spawn
        && a.score == b.score
        && a.score_map == b.score_map
        && a.environmental_conditions.get_weather_sequence()
            == b.environmental_conditions.get_weather_sequence()
        && a.environmental_conditions.get_tick_per_day()
            == b.environmental_conditions.get_tick_per_day()
        && a.environmental_conditions.get_start_hour()
            == b.environmental_conditions.get_start_hour()
}

#[test]
fn the_same_generator_makes_the_same_world() {
    for maze in [false, true] {
        let build = || {
            OxAgWorldGeneratorBuilder::new()
                .set_seed(751776)
                .set_size(65)
                .set_maze(maze)
                .set_tile_type_options_from_preset(OxAgTileTypePresets::WaterWorld)
                .set_content_options_from_preset(OxAgContentPresets::Default)
                .set_environmental_conditions_from_preset(OxAgEnvironmentalConditionPresets::Mixed)
                .build()
                .unwrap()
        };
        let generator = build();
        let first = generate(&generator).unwrap();
        let second = generate(&generator).unwrap();
        let third = generate(&build()).unwrap();
        assert!(same_world(&first, &second));
        assert!(same_world(&first, &third));
    }
    let from_seed = OxAgWorldGeneratorBuilder::new().set_seed(31).set_size(48).build().unwrap();
    let first = generate(&from_seed).unwrap();
    let again = OxAgWorldGeneratorBuilder::new().set_seed(31).set_size(48).build().unwrap();
    assert!(same_world(&first, &generate(&again).unwrap()));
    let other = OxAgWorldGeneratorBuilder::new().set_seed(32).set_size(48).build().unwrap();
    assert!(!same_world(&first, &generate(&other).unwrap()));
}

#[test]
fn a_kept_world_comes_back_as_it_was() {
    let mut generator = OxAgWorldGeneratorBuilder::new()
        .set_seed(751776)
        .set_size(256)
        .set_tile_type_options_from_preset(OxAgTileTypePresets::WaterWorld)
        .set_content_options_from_preset(OxAgContentPresets::Default)
        .set_environmental_conditions_from_preset(OxAgEnvironmentalConditionPresets::Sunny)
        .set_score(3_000_000)
        .set_score_map(Some(vec![(Content::Coin(0), 500_000)]))
        .build()
        .unwrap();
    let world = generate(&generator).unwrap();
    let again = generate(&generator).unwrap();
    let kept = generator.save(world);
    assert_eq!(kept.map, again.map);
    assert_eq!(kept.spawn, again.spawn);
    assert_eq!(kept.score, 3_000_000);
    assert_eq!(kept.score_map, Some(vec![(Content::Coin(0), 500_000)]));
    generator.map_save = None;
    let loader = OxAgWorldGeneratorBuilder::new()
        .set_size(3)
        .set_maze(true)
        .set_environmental_conditions_from_preset(OxAgEnvironmentalConditionPresets::Sunny);
    let loaded = loader.load(kept);
    assert_eq!(loaded.get_size(), 256);
    assert_eq!(loaded.get_seed(), 0);
    assert!(!loaded.get_maze());
    assert!(loaded.get_content_options().is_empty());
    let run = loaded.start();
    assert!(matches!(run.stage, Stage::Cached));
    let (run, action) = run.step(None);
    assert_eq!(action, GenerationStep::Done);
    let back = run.finish().unwrap();
    assert_eq!(back.map, again.map);
    assert_eq!(back.spawn, again.spawn);
    assert_eq!(back.score, again.score);
    assert_eq!(back.score_map, again.score_map);
    assert_eq!(back.environmental_conditions.get_weather_sequence(), &vec![WeatherType::Sunny]);
    let twice = generate(&loaded).unwrap();
    assert_eq!(twice.map, again.map);
    assert_eq!(twice.spawn, again.spawn);
    let unset = generator_from_kept_without_weather(&loaded);
    assert!(unset.get_environmental_conditions().get_start_hour() <= 24);
}

fn generator_from_kept_without_weather(loaded: &OxAgWorldGenerator) -> OxAgWorldGenerator {
    let world = generate(loaded).unwrap();
    let kept = loaded.save(world);
    OxAgWorldGeneratorBuilder::new().set_seed(11).load(kept)
}

#[test]
fn a_generator_that_cannot_make_a_world_fails() {
    for size in [0usize, 32_769, 100_000] {
        let generator = OxAgWorldGeneratorBuilder::new()
            .set_seed(1)
            .set_size(size)
            .set_tile_type_options_from_preset(OxAgTileTypePresets::Default)
            .set_content_options_from_preset(OxAgContentPresets::Empty)
            .build()
            .unwrap();
        let run = generator.start();
        assert!(matches!(run.stage, Stage::Failed));
        let (run, action) = run.step(None);
        assert_eq!(action, GenerationStep::Done);
        assert!(run.finish().is_none());
    }
    let mut options = OxAgTileTypePresets::Default.load();
    options.river_n.start = 9;
    let generator = OxAgWorldGeneratorBuilder::new()
        .set_seed(1)
        .set_size(8)
        .set_tile_type_options(options)
        .unwrap()
        .set_content_options_from_preset(OxAgContentPresets::Empty)
        .build()
        .unwrap();
    assert!(generate(&generator).is_none());
    let mut generator = OxAgWorldGeneratorBuilder::new()
        .set_seed(1)
        .set_size(8)
        .set_content_options_from_preset(OxAgContentPresets::Empty)
        .build()
        .unwrap();
    generator.content_options[2].1.percentage = 1_000_001;
    assert!(generate(&generator).is_none());
}

#[test]
fn heights_of_another_side_end_the_making() {
    let generator = OxAgWorldGeneratorBuilder::new()
        .set_seed(77)
        .set_size(8)
        .set_tile_type_options_from_preset(OxAgTileTypePresets::Default)
        .set_content_options_from_preset(OxAgContentPresets::Empty)
        .build()
        .unwrap();
    let run = generator.start();
    let (run, action) = run.step(None);
    assert_eq!(action, GenerationStep::NeedField { seed: 77, size: 8 });
    let (run, action) = run.step(None);
    assert_eq!(action, GenerationStep::NeedField { seed: 77, size: 8 });
    let (run, action) = run.step(HeightMap::new(heights(77, 9), 0, false));
    assert_eq!(action, GenerationStep::Done);
    assert!(matches!(run.stage, Stage::Failed));
    assert!(run.finish().is_none());
    let wide = OxAgWorldGeneratorBuilder::new()
        .set_seed(0x1_0000_0005)
        .set_size(6)
        .set_maze(true)
        .build()
        .unwrap();
    let (_, action) = wide.start().step(None);
    assert_eq!(action, GenerationStep::NeedField { seed: 5, size: 7 });
}

#[test]
fn worlds_from_seeds_keep_their_promises() {
    for seed in 0..12u64 {
        for maze in [false, true] {
            let generator = OxAgWorldGeneratorBuilder::new()
                .set_seed(seed)
                .set_size(24 + seed as usize)
                .set_maze(maze)
                .build()
                .unwrap();
            let world = generate(&generator).unwrap();
            let size = world.map.len();
            let expected = 24 + seed as usize;
            assert_eq!(size, if maze && expected % 2 == 0 { expected + 1 } else { expected });
            assert!(world.spawn.0 < size && world.spawn.1 < size);
            let walkable = world.map.iter().flatten().any(|t| t.tile_type.walk());
            if walkable {
                assert!(world.map[world.spawn.0][world.spawn.1].tile_type.walk());
            } else {
                assert_eq!(world.spawn, (0, 0));
            }
            for tile in world.map.iter().flatten() {
                let jolly = matches!(tile.content, Content::JollyBlock(_));
                if tile.content != Content::Empty && !(maze && jolly) {
                    assert!(tile.tile_type.can_hold(tile.content), "{tile:?}");
                }
                if !maze {
                    assert!(!matches!(tile.tile_type, TileType::Wall | TileType::Teleport(_)));
                }
            }
            if maze {
                for k in 0..size {
                    assert_eq!(world.map[0][k].tile_type, TileType::Wall);
                    assert_eq!(world.map[size - 1][k].tile_type, TileType::Wall);
                    assert_eq!(world.map[k][0].tile_type, TileType::Wall);
                    assert_eq!(world.map[k][size - 1].tile_type, TileType::Wall);
                }
                let open =
                    world.map.iter().flatten().filter(|t| t.tile_type != TileType::Wall).count();
                let mut first = None;
                for r in 0..size {
                    for c in 0..size {
                        if first.is_none() && world.map[r][c].tile_type != TileType::Wall {
                            first = Some((r, c));
                        }
                    }
                }
                assert_eq!(reachable_from(&world.map, first.unwrap()), open);
            }
        }
    }
}

#[test]
fn size_of_maze_below_five_fails_to_build() {
    for size in 0..5 {
        let built = OxAgWorldGeneratorBuilder::new().set_seed(42).set_size(size).set_maze(true).build();
        assert!(matches!(built, Err(OxAgError::MazeSizeTooSmall)));
    }
    let built = OxAgWorldGeneratorBuilder::new().set_seed(42).set_size(5).set_maze(true).build();
    assert!(built.is_ok());
    let built = OxAgWorldGeneratorBuilder::new().set_seed(42).set_size(8).set_maze(true).build();
    let generator = built.unwrap();
    assert_eq!(generator.get_size(), 8);
    let world = generate(&generator).unwrap();
    assert_eq!(world.map.len(), 9);
    let small = OxAgWorldGeneratorBuilder::new().set_seed(42).set_size(4).set_maze(false).build();
    assert!(small.is_ok());
}

#[test]
fn weather_of_preset_reaches_the_world() {
    let generator = OxAgWorldGeneratorBuilder::new()
        .set_seed(7)
        .set_size(16)
        .set_environmental_conditions_from_preset(OxAgEnvironmentalConditionPresets::Sunny)
        .set_tile_type_options_from_preset(OxAgTileTypePresets::Default)
        .set_content_options_from_preset(OxAgContentPresets::Empty)
        .build()
        .unwrap();
    let world = generate(&generator).unwrap();
    assert_eq!(world.environmental_conditions.get_weather_sequence(), &vec![WeatherType::Sunny]);
    assert_eq!(world.environmental_conditions.get_tick_per_day(), 1);
    assert_eq!(world.environmental_conditions.get_start_hour(), 0);
    assert_eq!(world.score, 100_000_000);
    assert!(world.score_map.is_none());
    let run = generator.start();
    assert!(matches!(run.stage, Stage::Heights));
}

#[test]
fn a_maze_is_given_few_jolly_blocks_and_none_on_a_wall() {
    for seed in [3u64, 77, 451] {
        let generator = OxAgWorldGeneratorBuilder::new()
            .set_seed(seed)
            .set_size(41)
            .set_maze(true)
            .set_content_options_from_preset(OxAgContentPresets::Empty)
            .set_tile_type_options_from_preset(OxAgTileTypePresets::Default)
            .build()
            .unwrap();
        let world = generate(&generator).unwrap();
        let size = world.map.len();
        let mut jolly = 0;
        for t in world.map.iter().flatten() {
            if t.tile_type == TileType::Wall {
                assert_eq!(t.content, Content::Empty);
            }
            if let Content::JollyBlock(blocks) = t.content {
                assert_eq!(blocks, 1);
                jolly += 1;
            }
        }
        assert!(jolly >= 1 && jolly <= size / 10 + 1);
    }
}

#[test]
fn the_making_goes_forward_with_every_step() {
    let generator = OxAgWorldGeneratorBuilder::new()
        .set_seed(12)
        .set_size(48)
        .set_content_options_from_preset(OxAgContentPresets::Default)
        .set_tile_type_options_from_preset(OxAgTileTypePresets::Default)
        .build()
        .unwrap();
    let mut run = generator.start();
    assert!(matches!(run.stage, Stage::Heights));
    let (next, action) = run.step(None);
    run = next;
    assert_eq!(action, GenerationStep::NeedField { seed: 12, size: 48 });
    let mut field = HeightMap::new(heights(12, 48), 12, false);
    let mut measure: Option<(usize, usize)> = None;
    let mut steps = 0;
    loop {
        let (next, action) = run.step(field.take());
        run = next;
        steps += 1;
        match (&run.stage, action) {
            (Stage::Contents(spawner), GenerationStep::NeedField { seed, size }) => {
                assert_eq!(size, 2 * spawner.batch_radius);
                let now = (spawner.next, spawner.batches_left);
                if let Some(before) = measure {
                    assert!(now.0 > before.0 || (now.0 == before.0 && now.1 < before.1));
                }
                measure = Some(now);
                field = HeightMap::new(heights(seed, size), u64::from(seed), false);
            }
            (Stage::Finished(..), GenerationStep::Done) => break,
            (_, other) => panic!("{other:?}"),
        }
    }
    assert!(steps >= 1);
    assert!(run.finish().is_some());
}
