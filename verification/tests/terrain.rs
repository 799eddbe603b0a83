use oxagworldgenerator::utils::traits::Loadable;
use oxagworldgenerator::world::tile::{Content, Tile, TileType};
use oxagworldgenerator::world_generator::presets::tile_type_presets::OxAgTileTypePresets;
use oxagworldgenerator::world_generator::spawning_tools::circle_spawn::{
    spawn_circle, stamp, stamp_with,
};
use oxagworldgenerator::world_generator::spawning_tools::grid::{
    check_cell, draw_cell, filled, first_wanted, pick_cell, unmarked, Wanted,
};
use oxagworldgenerator::world_generator::spawning_tools::matrix_spawn::{
    elevation, normalize, HeightMap,
};
use oxagworldgenerator::world_generator::spawning_tools::river_spawn::{Entered, RiverFrame};
use oxagworldgenerator::world_generator::spawning_tools::street_spawn::Direction;
use oxagworldgenerator::world_generator::tile_type_options::{level_above, CountRange};
use rand::rngs::StdRng;
use rand::SeedableRng;

fn tile(tile_type: TileType) -> Tile {
    Tile { tile_type, content: Content::Empty, elevation: 0 }
}

fn grid(size: usize, tile_type: TileType) -> Vec<Vec<Tile>> {
    filled(size, tile(tile_type))
}

fn flat(size: usize) -> HeightMap {
    HeightMap::new(vec![vec![0; size]; size], 1, false).unwrap()
}

fn terrain_at(map: &[Vec<Tile>], wanted: TileType) -> Vec<(usize, usize)> {
    let mut cells = Vec::new();
    for (r, row) in map.iter().enumerate() {
        for (c, t) in row.iter().enumerate() {
            if t.tile_type == wanted {
                cells.push((r, c));
            }
        }
    }
    cells
}

#[test]
fn heights_are_measured_against_their_extremes() {
    assert_eq!(normalize(500_000, -2_000_000, 1_000_000), Some(500_000));
    assert_eq!(normalize(1_000_000, -2_000_000, 1_000_000), Some(1_000_000));
    assert_eq!(normalize(-500_000, -2_000_000, 1_000_000), Some(-250_000));
    assert_eq!(normalize(-2_000_000, -2_000_000, 1_000_000), Some(-1_000_000));
    assert_eq!(normalize(1, -5, 3), Some(333_333));
    assert_eq!(normalize(-1, -3, 5), Some(-333_333));
    assert_eq!(normalize(0, -1, 5), Some(0));
    assert_eq!(normalize(0, 0, 5), None);
    assert_eq!(normalize(0, 0, 0), None);
    assert_eq!(normalize(7, 7, 7), Some(1_000_000));
    assert_eq!(normalize(i64::MIN, i64::MIN, i64::MAX), Some(-1_000_000));
    assert_eq!(normalize(i64::MAX, i64::MIN, i64::MAX), Some(1_000_000));
}

#[test]
fn elevation_is_the_raised_level_times_the_multiplier() {
    assert_eq!(elevation(-1_000_000, 1_000_000), 0);
    assert_eq!(elevation(1_000_000, 1_000_000), 2);
    assert_eq!(elevation(0, 1_000_000), 1);
    assert_eq!(elevation(-500_000, 1_000_000), 0);
    assert_eq!(elevation(-1, 1_000_000), 0);
    assert_eq!(elevation(0, 3_000_000), 3);
    assert_eq!(elevation(500_000, 3_000_000), 4);
    assert_eq!(elevation(0, 999_999), 0);
    assert_eq!(elevation(1_000_000, 500_000), 1);
    assert_eq!(elevation(1_000_000, -1_000_000), 0);
    assert_eq!(elevation(0, 0), 0);
    assert_eq!(elevation(1_000_000, 7_500_000), 15);
}

#[test]
fn a_field_knows_its_extremes() {
    let field = HeightMap::new(vec![vec![3, -7, 2], vec![0, 9, 1], vec![5, 5, -2]], 42, true).unwrap();
    assert_eq!((field.min, field.max), (-7, 9));
    assert_eq!((field.size, field.seed, field.with_info), (3, 42, true));
    assert_eq!(field.claimed, vec![vec![false; 3]; 3]);
    assert_eq!(field.heights[1][1], 9);
    let one = HeightMap::new(vec![vec![4]], 0, false).unwrap();
    assert_eq!((one.min, one.max), (4, 4));
    assert!(HeightMap::new(Vec::new(), 0, false).is_none());
    assert!(HeightMap::new(vec![vec![1, 2], vec![3]], 0, false).is_none());
    assert!(HeightMap::new(vec![vec![1, 2]], 0, false).is_none());
    assert!(HeightMap::new(vec![vec![1], vec![2]], 0, false).is_none());
    assert!(HeightMap::fits(&vec![vec![1, 2], vec![3, 4]]));
    assert!(!HeightMap::fits(&vec![vec![]]));
}

#[test]
fn every_cell_is_classified_by_its_level() {
    let samples = vec![
        vec![-2_000_000, -1_500_000, -1_000_000, -500_000],
        vec![-499_999, -1, 0, 1],
        vec![250_000, 500_000, 500_001, 749_999],
        vec![750_000, 750_001, 999_999, 1_000_000],
    ];
    let field = HeightMap::new(samples, 1, false).unwrap();
    let options = OxAgTileTypePresets::Default.load();
    let mut rng = StdRng::seed_from_u64(1);
    let map = field.classify_cells(&options, 1_000_000, &mut rng);
    let terrains: Vec<Vec<TileType>> =
        map.iter().map(|row| row.iter().map(|t| t.tile_type).collect()).collect();
    assert_eq!(
        terrains,
        vec![
            vec![TileType::DeepWater, TileType::DeepWater, TileType::ShallowWater, TileType::Sand],
            vec![TileType::Grass, TileType::Grass, TileType::Grass, TileType::Grass],
            vec![TileType::Hill, TileType::Hill, TileType::Mountain, TileType::Mountain],
            vec![TileType::Mountain, TileType::Snow, TileType::Snow, TileType::Snow],
        ]
    );
    for (r, row) in map.iter().enumerate() {
        for (c, t) in row.iter().enumerate() {
            if r == 0 && c < 3 {
                assert!(matches!(t.content, Content::Water(k) if k < 20));
            } else {
                assert_eq!(t.content, Content::Empty);
                assert_eq!(t.elevation, 0);
            }
        }
    }
    // levels -1, -0.75 and -0.5, raised by one and scaled by one
    assert_eq!((map[0][0].elevation, map[0][1].elevation, map[0][2].elevation), (0, 0, 0));
    let doubled = field.classify_cells(&options, 4_000_000, &mut rng);
    assert_eq!(
        (doubled[0][0].elevation, doubled[0][1].elevation, doubled[0][2].elevation),
        (0, 1, 2)
    );
    let cell = field.classify_cell(&options, 8_000_000, 0, 2, &mut rng);
    assert_eq!((cell.tile_type, cell.elevation), (TileType::ShallowWater, 4));
}

#[test]
fn a_field_that_nowhere_goes_below_zero_has_grass_at_zero() {
    let field = HeightMap::new(vec![vec![0, 10], vec![5, 0]], 1, false).unwrap();
    let options = OxAgTileTypePresets::Hill.load();
    let mut rng = StdRng::seed_from_u64(1);
    let map = field.classify_cells(&options, 1_000_000, &mut rng);
    assert_eq!(map[0][0].tile_type, TileType::Grass);
    assert_eq!(map[1][1].tile_type, TileType::Grass);
    assert_eq!(map[0][1].tile_type, TileType::Hill);
    assert_eq!(map[1][0].tile_type, TileType::Hill);
}

#[test]
fn a_ramp_of_heights_is_one_quarter_water() {
    let size = 200usize;
    let samples: Vec<Vec<i64>> = (0..size)
        .map(|r| {
            (0..size)
                .map(|c| -1_000_000 + ((r * size + c) as i64) * 2_000_000 / (size * size - 1) as i64)
                .collect()
        })
        .collect();
    let field = HeightMap::new(samples, 1, false).unwrap();
    let options = OxAgTileTypePresets::Default.load();
    let mut rng = StdRng::seed_from_u64(1);
    let map = field.classify_cells(&options, 1_000_000, &mut rng);
    let water = map.iter().flatten().filter(|t| t.tile_type.is_water()).count();
    let share = water as f64 / (size * size) as f64;
    assert!((0.15..=0.45).contains(&share));
    assert!((share - 0.25).abs() < 0.001, "{share}");
}

#[test]
fn a_disk_of_radius_two() {
    let mut map = grid(9, TileType::Grass);
    let mut rng = StdRng::seed_from_u64(1);
    spawn_circle(&mut map, &mut rng, 9, 4, 4, 2, &(None, Some(TileType::Lava)));
    let mut expected = Vec::new();
    for r in 0..9i32 {
        for c in 0..9i32 {
            let (dr, dc) = (r - 4, c - 4);
            let within = dr.abs() <= 1 && dc.abs() <= 1;
            let rim = matches!((dr.abs(), dc.abs()), (2, 0) | (0, 2) | (2, 1) | (1, 2));
            if within || rim {
                expected.push((r as usize, c as usize));
            }
        }
    }
    assert_eq!(expected.len(), 21);
    assert_eq!(terrain_at(&map, TileType::Lava), expected);
    assert_eq!(map.iter().flatten().filter(|t| t.tile_type == TileType::Grass).count(), 81 - 21);
}

#[test]
fn disks_of_small_radii() {
    let mut rng = StdRng::seed_from_u64(1);
    let mut map = grid(9, TileType::Grass);
    spawn_circle(&mut map, &mut rng, 9, 4, 4, 0, &(None, Some(TileType::Lava)));
    assert_eq!(terrain_at(&map, TileType::Lava), vec![(4, 4)]);
    let mut map = grid(9, TileType::Grass);
    spawn_circle(&mut map, &mut rng, 9, 4, 4, 1, &(None, Some(TileType::Lava)));
    // the walk of radius one takes the corners, too
    assert_eq!(
        terrain_at(&map, TileType::Lava),
        vec![(3, 3), (3, 4), (3, 5), (4, 3), (4, 4), (4, 5), (5, 3), (5, 4), (5, 5)]
    );
    let mut map = grid(11, TileType::Grass);
    spawn_circle(&mut map, &mut rng, 11, 5, 5, 3, &(None, Some(TileType::Lava)));
    let lava = terrain_at(&map, TileType::Lava);
    for (r, c) in &lava {
        let (dr, dc) = (*r as i32 - 5, *c as i32 - 5);
        assert!(dr * dr + dc * dc <= 10, "({dr}, {dc})");
    }
    for (dr, dc) in [(3, 0), (3, 1), (2, 2), (1, 3), (0, 3), (-3, -1), (-2, -2), (2, 1), (0, 0)] {
        assert_eq!(map[(5 + dr) as usize][(5 + dc) as usize].tile_type, TileType::Lava);
    }
    assert_eq!(map[8][7].tile_type, TileType::Grass);
    assert_eq!(lava.len(), 37);
}

#[test]
fn a_disk_is_cut_down_to_the_grid() {
    let mut rng = StdRng::seed_from_u64(1);
    let mut map = grid(9, TileType::Grass);
    spawn_circle(&mut map, &mut rng, 9, 0, 4, 3, &(None, Some(TileType::Lava)));
    assert_eq!(terrain_at(&map, TileType::Lava), vec![(0, 4)]);
    let mut map = grid(9, TileType::Grass);
    spawn_circle(&mut map, &mut rng, 9, 7, 4, 5, &(None, Some(TileType::Lava)));
    assert_eq!(
        terrain_at(&map, TileType::Lava),
        vec![(6, 3), (6, 4), (6, 5), (7, 3), (7, 4), (7, 5), (8, 3), (8, 4), (8, 5)]
    );
    let mut map = grid(1, TileType::Hill);
    spawn_circle(&mut map, &mut rng, 1, 0, 0, 9, &(None, Some(TileType::Lava)));
    assert_eq!(map[0][0].tile_type, TileType::Lava);
}

#[test]
fn lava_spares_water_and_teleports() {
    let mut rng = StdRng::seed_from_u64(1);
    let mut map = grid(7, TileType::Grass);
    map[3][3] = Tile { tile_type: TileType::DeepWater, content: Content::Water(3), elevation: 1 };
    map[3][4] = tile(TileType::ShallowWater);
    map[2][3] = tile(TileType::Teleport(false));
    map[4][3] = tile(TileType::Teleport(true));
    map[3][2] = Tile { tile_type: TileType::Sand, content: Content::Rock(2), elevation: 5 };
    let before = map.clone();
    spawn_circle(&mut map, &mut rng, 7, 3, 3, 1, &(None, Some(TileType::Lava)));
    assert_eq!(map[3][3], before[3][3]);
    assert_eq!(map[3][4], before[3][4]);
    assert_eq!(map[2][3], before[2][3]);
    assert_eq!(map[4][3], before[4][3]);
    assert_eq!(map[3][2], Tile { tile_type: TileType::Lava, content: Content::Rock(2), elevation: 5 });
    assert_eq!(terrain_at(&map, TileType::Lava), vec![(2, 2), (2, 4), (3, 2), (4, 2), (4, 4)]);
}

#[test]
fn a_disk_of_content_lies_on_what_can_hold_it() {
    let mut rng = StdRng::seed_from_u64(5);
    let mut map = grid(7, TileType::Grass);
    map[3][3] = tile(TileType::ShallowWater);
    map[3][4] = tile(TileType::Lava);
    spawn_circle(&mut map, &mut rng, 7, 3, 3, 1, &(Some(Content::Tree(0)), None));
    for (r, c) in [(2, 2), (2, 3), (2, 4), (3, 2), (4, 2), (4, 3), (4, 4)] {
        assert!(matches!(map[r][c].content, Content::Tree(k) if k < 5));
        assert_eq!(map[r][c].tile_type, TileType::Grass);
    }
    assert_eq!(map[3][3], tile(TileType::ShallowWater));
    assert_eq!(map[3][4], tile(TileType::Lava));
    assert_eq!(map.iter().flatten().filter(|t| t.content != Content::Empty).count(), 7);
    let before = map.clone();
    spawn_circle(&mut map, &mut rng, 7, 3, 3, 2, &(Some(Content::Tree(0)), Some(TileType::Lava)));
    assert_eq!(map, before);
    spawn_circle(&mut map, &mut rng, 7, 3, 3, 2, &(None, None));
    assert_eq!(map, before);
}

#[test]
fn a_stamp_carries_its_amount() {
    let mut map = grid(3, TileType::Grass);
    map[0][0] = tile(TileType::DeepWater);
    stamp_with(&mut map, 1, 1, &(Some(Content::Bin(0, 0)), None), 7);
    assert_eq!(map[1][1].content, Content::Bin(0, 7));
    stamp_with(&mut map, 1, 1, &(Some(Content::Fire), None), 7);
    assert_eq!(map[1][1].content, Content::Fire);
    stamp_with(&mut map, 1, 1, &(Some(Content::Water(0)), None), 7);
    assert_eq!(map[1][1].content, Content::Fire);
    stamp_with(&mut map, 0, 0, &(Some(Content::Water(0)), None), 7);
    assert_eq!(map[0][0].content, Content::Water(7));
    stamp_with(&mut map, 0, 0, &(None, Some(TileType::Street)), 7);
    assert_eq!(map[0][0].tile_type, TileType::DeepWater);
    stamp_with(&mut map, 1, 1, &(None, Some(TileType::Street)), 7);
    assert_eq!(map[1][1], Tile { tile_type: TileType::Street, content: Content::Fire, elevation: 0 });
    let mut rng = StdRng::seed_from_u64(2);
    let mut seen = [false; 4];
    for _ in 0..200 {
        stamp(&mut map, &mut rng, 2, 2, &(Some(Content::Rock(0)), None));
        match map[2][2].content {
            Content::Rock(k) => seen[k] = true,
            other => panic!("{other:?}"),
        }
    }
    assert_eq!(seen, [true; 4]);
    stamp(&mut map, &mut rng, 2, 1, &(Some(Content::Scarecrow), None));
    assert_eq!(map[2][1].content, Content::Scarecrow);
}

#[test]
fn a_river_flows_down_to_water() {
    // heights fall from the left to the water on the right, between ridges
    let samples = vec![vec![9, 9, 9, 9], vec![5, 3, 1, 0], vec![9, 9, 9, 9], vec![9, 9, 9, 9]];
    let mut field = HeightMap::new(samples, 1, false).unwrap();
    let mut map = grid(4, TileType::Hill);
    map[1][3] = Tile { tile_type: TileType::DeepWater, content: Content::Water(2), elevation: 1 };
    let before = map.clone();
    assert!(field.river_spawn(&mut map, 1, 0));
    assert_eq!(terrain_at(&map, TileType::ShallowWater), vec![(1, 0), (1, 1), (1, 2)]);
    assert_eq!(map[1][3], before[1][3]);
    for (r, row) in field.claimed.iter().enumerate() {
        for (c, taken) in row.iter().enumerate() {
            assert_eq!(*taken, r == 1 && c < 3);
        }
    }
    assert_eq!(terrain_at(&map, TileType::Hill).len(), 12);
}

#[test]
fn a_river_takes_the_lowest_way_and_the_first_of_equals() {
    // from the middle the lowest neighbour is to the south
    let samples = vec![vec![5, 4, 5], vec![3, 9, 2], vec![5, 1, 5]];
    let mut field = HeightMap::new(samples, 1, false).unwrap();
    let mut map = grid(3, TileType::Mountain);
    map[2][1] = tile(TileType::ShallowWater);
    assert!(field.river_spawn(&mut map, 1, 1));
    assert_eq!(terrain_at(&map, TileType::ShallowWater), vec![(1, 1), (2, 1)]);
    assert!(field.claimed[1][1] && !field.claimed[2][1]);
    // all neighbours equally low: north comes first
    let mut field = flat(3);
    let mut map = grid(3, TileType::Mountain);
    map[0][1] = tile(TileType::DeepWater);
    map[1][2] = tile(TileType::DeepWater);
    assert!(field.river_spawn(&mut map, 1, 1));
    assert_eq!(terrain_at(&map, TileType::ShallowWater), vec![(1, 1)]);
    let frame = RiverFrame { row: 1, col: 1, north: false, east: true, south: true, west: true };
    assert_eq!(field.river_next(&frame), Some(1));
    let frame = RiverFrame { row: 1, col: 1, north: false, east: false, south: false, west: false };
    assert_eq!(field.river_next(&frame), None);
    let field = HeightMap::new(vec![vec![5, 4, 5], vec![3, 9, 2], vec![5, 1, 5]], 1, false).unwrap();
    let frame = RiverFrame { row: 1, col: 1, north: true, east: true, south: true, west: true };
    assert_eq!(field.river_next(&frame), Some(2));
    let frame = RiverFrame { row: 1, col: 1, north: true, east: true, south: false, west: true };
    assert_eq!(field.river_next(&frame), Some(1));
    let frame = RiverFrame { row: 1, col: 1, north: true, east: false, south: false, west: true };
    assert_eq!(field.river_next(&frame), Some(3));
}

#[test]
fn a_river_on_dry_land_winds_until_it_meets_its_own_water() {
    let mut field = flat(3);
    let mut map = grid(3, TileType::Hill);
    // north first, then east, south and west: a spiral around the start,
    // which ends before the corner it cannot leave; back at the start, the
    // way west leads to water that the river has carved itself
    assert!(field.river_spawn(&mut map, 1, 1));
    assert_eq!(terrain_at(&map, TileType::ShallowWater).len(), 8);
    assert_eq!(terrain_at(&map, TileType::Hill), vec![(0, 0)]);
    let taken = field.claimed.iter().flatten().filter(|t| **t).count();
    assert_eq!(taken, 8);
    assert!(!field.claimed[0][0]);
}

#[test]
fn a_river_that_finds_no_water_fails_and_leaves_its_trace() {
    // a corridor of land between lava: the river runs to its end and fails
    let mut field = flat(5);
    let mut map = grid(5, TileType::Lava);
    for c in 0..5 {
        map[2][c] = tile(TileType::Hill);
    }
    assert!(!field.river_spawn(&mut map, 2, 0));
    // the last cell has no neighbour left to flow to and is not carved
    assert_eq!(terrain_at(&map, TileType::ShallowWater), vec![(2, 0), (2, 1), (2, 2), (2, 3)]);
    assert_eq!(map[2][4].tile_type, TileType::Hill);
    assert_eq!(terrain_at(&map, TileType::Lava).len(), 20);
    assert!(field.claimed[2][3] && !field.claimed[2][4]);
}

#[test]
fn a_river_turns_back_from_a_dead_end() {
    // the way north ends at a taken cell; the way south leads to water
    let samples = vec![vec![0, 0, 0], vec![9, 5, 9], vec![9, 7, 9]];
    let mut field = HeightMap::new(samples, 1, false).unwrap();
    field.claimed[0][0] = true;
    field.claimed[0][2] = true;
    field.claimed[1][0] = true;
    field.claimed[1][2] = true;
    let mut map = grid(3, TileType::Hill);
    map[2][1] = tile(TileType::ShallowWater);
    assert!(field.river_spawn(&mut map, 1, 1));
    assert_eq!(map[1][1].tile_type, TileType::ShallowWater);
    // the cell to the north has no neighbour open to it, so it stays land
    assert_eq!(map[0][1].tile_type, TileType::Hill);
    assert!(!field.claimed[0][1]);
}

#[test]
fn a_river_does_not_start_without_an_outlet() {
    let mut field = flat(3);
    let mut map = grid(3, TileType::Hill);
    for (r, c) in [(0, 1), (1, 0), (1, 2)] {
        field.claimed[r][c] = true;
    }
    map[2][1] = tile(TileType::Lava);
    let before = map.clone();
    assert!(!field.river_spawn(&mut map, 1, 1));
    assert_eq!(map, before);
    assert!(!field.claimed[1][1]);
    assert!(matches!(field.river_enter(&mut map, 1, 1), Entered::Blocked));
    let mut map = grid(3, TileType::DeepWater);
    let mut field = flat(3);
    assert!(field.river_spawn(&mut map, 0, 0));
    assert_eq!(map, grid(3, TileType::DeepWater));
    assert!(matches!(field.river_enter(&mut map, 0, 0), Entered::Arrived));
    let mut map = grid(3, TileType::Sand);
    match field.river_enter(&mut map, 0, 0) {
        Entered::Carved(frame) => {
            assert_eq!((frame.row, frame.col), (0, 0));
            assert_eq!((frame.north, frame.east, frame.south, frame.west), (false, true, true, false));
        }
        other => panic!("{other:?}"),
    }
    assert_eq!(map[0][0].tile_type, TileType::ShallowWater);
    assert!(field.claimed[0][0]);
}

#[test]
fn rivers_of_a_preset_leave_water_and_content_alone() {
    let size = 24;
    let samples: Vec<Vec<i64>> = (0..size)
        .map(|r| (0..size).map(|c| ((r * 7 + c * 13) % 41) as i64 * 50_000 - 1_000_000).collect())
        .collect();
    let mut field = HeightMap::new(samples, 9, false).unwrap();
    let options = OxAgTileTypePresets::LowWaterWorld.load();
    let mut rng = StdRng::seed_from_u64(9);
    let classified = field.classify_cells(&options, 1_000_000, &mut rng);
    let mut map = classified.clone();
    field.rivers_spawn(&mut map, &options, &mut rng);
    let rivered = map.clone();
    field.lava_spawn(&mut map, &options, &mut rng);
    let poured = map.clone();
    field.streets_spawn(&mut map, &options, &mut rng);
    for r in 0..size {
        for c in 0..size {
            let first = classified[r][c];
            let last = map[r][c];
            assert_eq!((first.content, first.elevation), (last.content, last.elevation));
            if first.tile_type.is_water() {
                assert_eq!(last.tile_type, first.tile_type);
            }
            if rivered[r][c].tile_type.is_water() {
                assert_eq!(poured[r][c].tile_type, rivered[r][c].tile_type);
                assert_eq!(last.tile_type, rivered[r][c].tile_type);
            }
            if rivered[r][c] != first {
                assert_eq!(rivered[r][c].tile_type, TileType::ShallowWater);
                assert!(field.claimed[r][c]);
            }
            if poured[r][c] != rivered[r][c] {
                assert_eq!(poured[r][c].tile_type, TileType::Lava);
            }
            if last != poured[r][c] {
                assert_eq!(last.tile_type, TileType::Street);
                assert!(field.claimed[r][c]);
            }
        }
    }
}

#[test]
fn lava_is_poured_on_grass_and_hills() {
    let field = flat(16);
    let mut options = OxAgTileTypePresets::Default.load();
    let mut rng = StdRng::seed_from_u64(4);
    let mut map = grid(16, TileType::Grass);
    map[5][5] = tile(TileType::ShallowWater);
    field.lava_spawn(&mut map, &options, &mut rng);
    let lava = terrain_at(&map, TileType::Lava).len();
    // two lakes of a radius from 2 to 4
    assert!((1..=2 * 49).contains(&lava), "{lava}");
    assert_eq!(map[5][5], tile(TileType::ShallowWater));
    let mut sand = grid(16, TileType::Sand);
    field.lava_spawn(&mut sand, &options, &mut rng);
    assert_eq!(sand, grid(16, TileType::Sand));
    options.lava_n = CountRange::new(0, 0);
    let mut none = grid(16, TileType::Hill);
    field.lava_spawn(&mut none, &options, &mut rng);
    assert_eq!(none, grid(16, TileType::Hill));
}

#[test]
fn a_street_is_no_longer_than_asked_and_goes_from_cell_to_cell() {
    for seed in 0..40u64 {
        let mut field = flat(12);
        let mut map = grid(12, TileType::Grass);
        let mut rng = StdRng::seed_from_u64(seed);
        field.street_spawn(&mut map, 6, 6, &mut rng, Direction::East, 5);
        let street = terrain_at(&map, TileType::Street);
        assert!((1..=5).contains(&street.len()));
        assert!(street.contains(&(6, 6)));
        let taken = field.claimed.iter().flatten().filter(|t| **t).count();
        assert_eq!(taken, street.len());
        for (r, c) in &street {
            assert!(field.claimed[*r][*c]);
            let beside = street
                .iter()
                .filter(|(a, b)| (*a as i32 - *r as i32).abs() + (*b as i32 - *c as i32).abs() == 1)
                .count();
            assert!(street.len() == 1 || beside >= 1);
        }
    }
}

#[test]
fn a_street_lays_nothing_on_water_or_taken_cells() {
    let mut rng = StdRng::seed_from_u64(3);
    let mut field = flat(5);
    let mut map = grid(5, TileType::DeepWater);
    map[2][2] = tile(TileType::Hill);
    field.street_spawn(&mut map, 2, 2, &mut rng, Direction::North, 9);
    assert_eq!(terrain_at(&map, TileType::Street), vec![(2, 2)]);
    assert_eq!(terrain_at(&map, TileType::DeepWater).len(), 24);
    let mut map = grid(5, TileType::Grass);
    let before = map.clone();
    field.street_spawn(&mut map, 2, 2, &mut rng, Direction::North, 9);
    assert_eq!(map, before);
    let mut field = flat(5);
    field.street_spawn(&mut map, 2, 2, &mut rng, Direction::North, 0);
    assert_eq!(map, before);
    let mut water = grid(5, TileType::ShallowWater);
    field.street_spawn(&mut water, 2, 2, &mut rng, Direction::North, 4);
    assert_eq!(water, grid(5, TileType::ShallowWater));
    assert!(!field.claimed[2][2]);
}

#[test]
fn the_next_cell_of_a_street() {
    let mut field = flat(5);
    let map = grid(5, TileType::Grass);
    assert_eq!(field.street_step(&map, 2, 2, Direction::East, true, false), Some((2, 3, Direction::East)));
    assert_eq!(field.street_step(&map, 2, 2, Direction::East, true, true), Some((2, 3, Direction::East)));
    assert_eq!(field.street_step(&map, 2, 2, Direction::East, false, true), Some((1, 2, Direction::North)));
    assert_eq!(field.street_step(&map, 2, 2, Direction::East, false, false), Some((3, 2, Direction::South)));
    assert_eq!(field.street_step(&map, 2, 2, Direction::North, false, true), Some((2, 1, Direction::West)));
    assert_eq!(field.street_step(&map, 2, 2, Direction::South, false, true), Some((2, 3, Direction::East)));
    assert_eq!(field.street_step(&map, 2, 2, Direction::West, false, false), Some((1, 2, Direction::North)));
    // at the border the street cannot go on straight
    assert_eq!(field.street_step(&map, 2, 4, Direction::East, true, true), Some((1, 4, Direction::North)));
    assert_eq!(field.street_step(&map, 0, 4, Direction::East, true, true), Some((1, 4, Direction::South)));
    field.claimed[1][4] = true;
    assert_eq!(field.street_step(&map, 0, 4, Direction::East, true, true), None);
    assert_eq!(field.street_ahead(&map, 0, 4, Direction::West), Some((0, 3)));
    assert_eq!(field.street_ahead(&map, 0, 4, Direction::North), None);
    assert_eq!(field.street_ahead(&map, 0, 4, Direction::South), None);
    assert_eq!(Direction::from_draw(0), Direction::East);
    assert_eq!(Direction::from_draw(1), Direction::South);
    assert_eq!(Direction::from_draw(2), Direction::West);
    assert_eq!(Direction::from_draw(3), Direction::North);
    assert_eq!(Direction::North.left(), Direction::West);
    assert_eq!(Direction::North.right(), Direction::East);
}

#[test]
fn cells_are_drawn_from_those_wanted() {
    let mut rng = StdRng::seed_from_u64(8);
    let mut map = grid(6, TileType::Sand);
    assert_eq!(pick_cell(&map, None, Wanted::LakeCenter, 0, 6, &mut rng), None);
    assert_eq!(first_wanted(&map, None, Wanted::LakeCenter, 0, 6), None);
    map[4][1] = tile(TileType::Hill);
    map[5][5] = tile(TileType::Mountain);
    assert_eq!(pick_cell(&map, None, Wanted::LakeCenter, 0, 6, &mut rng), Some((4, 1)));
    assert_eq!(first_wanted(&map, None, Wanted::RiverSource, 0, 6), Some((4, 1)));
    assert_eq!(draw_cell(&map, None, Wanted::StreetStart, 0, 6, (4, 1), &mut rng), (4, 1));
    let mut marks = unmarked(6);
    marks[4][1] = true;
    assert_eq!(pick_cell(&map, Some(&marks), Wanted::RiverSource, 0, 6, &mut rng), Some((5, 5)));
    assert_eq!(pick_cell(&map, Some(&marks), Wanted::StreetStart, 0, 6, &mut rng), None);
    assert_eq!(pick_cell(&map, Some(&marks), Wanted::LakeCenter, 0, 6, &mut rng), Some((4, 1)));
    assert_eq!(pick_cell(&map, None, Wanted::RiverSource, 1, 5, &mut rng), Some((4, 1)));
    assert_eq!(pick_cell(&map, None, Wanted::RiverSource, 0, 4, &mut rng), None);
    let mut seen = std::collections::HashSet::new();
    for _ in 0..400 {
        let at = pick_cell(&map, None, Wanted::Walkable, 0, 6, &mut rng).unwrap();
        seen.insert(at);
    }
    assert_eq!(seen.len(), 36);
    assert!(Wanted::Holder(Content::Fish(0)).accepts(tile(TileType::DeepWater), true));
    assert!(!Wanted::Walkable.accepts(tile(TileType::DeepWater), false));
    assert!(!Wanted::Corridor.accepts(tile(TileType::Wall), false));
    assert!(Wanted::Corridor.accepts(tile(TileType::Lava), false));
}

#[test]
fn rivers_flow_from_the_sources_of_the_grid() {
    // one hill at the left end of a slope that falls to the water
    let samples = vec![vec![9, 9, 9, 9], vec![5, 3, 1, 0], vec![9, 9, 9, 9], vec![9, 9, 9, 9]];
    let mut field = HeightMap::new(samples.clone(), 1, false).unwrap();
    let mut map = grid(4, TileType::Sand);
    map[1][0] = tile(TileType::Hill);
    map[1][3] = tile(TileType::DeepWater);
    let before = map.clone();
    let mut rng = StdRng::seed_from_u64(2);
    field.rivers_carve(&mut map, 0, &mut rng);
    assert_eq!(map, before);
    assert_eq!(field.claimed, unmarked(4));
    field.rivers_carve(&mut map, 1, &mut rng);
    assert_eq!(terrain_at(&map, TileType::ShallowWater), vec![(1, 0), (1, 1), (1, 2)]);
    assert!(field.claimed[1][0] && field.claimed[1][1] && field.claimed[1][2]);
    let carved = map.clone();
    // no source is left: further rivers carve nothing
    field.rivers_carve(&mut map, 5, &mut rng);
    assert_eq!(map, carved);
    let mut options = OxAgTileTypePresets::Default.load();
    options.river_n = CountRange::new(2, 3);
    let mut field = HeightMap::new(samples, 1, false).unwrap();
    let mut map = before.clone();
    field.rivers_spawn(&mut map, &options, &mut rng);
    assert_eq!(map, carved);
    options.river_n = CountRange::new(0, 0);
    let mut field = flat(4);
    let mut map = before.clone();
    field.rivers_spawn(&mut map, &options, &mut rng);
    assert_eq!(map, before);
}

#[test]
fn a_level_above_another() {
    assert_eq!(level_above(-1_000_000, 5), -999_995);
    assert_eq!(level_above(-1_000_000, 2_000_000), 1_000_000);
    assert_eq!(level_above(250_000, 0), 250_000);
    assert_eq!(level_above(999_999, 1), 1_000_000);
}

#[test]
fn a_cell_is_checked_against_what_is_wanted() {
    let mut map = grid(3, TileType::Sand);
    map[1][2] = tile(TileType::Hill);
    let mut marks = unmarked(3);
    assert!(check_cell(&map, None, Wanted::RiverSource, 1, 2));
    assert!(check_cell(&map, Some(&marks), Wanted::RiverSource, 1, 2));
    assert!(!check_cell(&map, None, Wanted::RiverSource, 1, 1));
    marks[1][2] = true;
    assert!(!check_cell(&map, Some(&marks), Wanted::RiverSource, 1, 2));
    assert!(check_cell(&map, Some(&marks), Wanted::LakeCenter, 1, 2));
    assert!(check_cell(&map, None, Wanted::Holder(Content::Rock(0)), 0, 0));
    assert!(!check_cell(&map, None, Wanted::Holder(Content::Fish(0)), 0, 0));
}

#[test]
fn each_lake_is_a_disk_of_a_radius_that_was_asked_for() {
    let field = flat(24);
    let mut options = OxAgTileTypePresets::Default.load();
    options.lava_n = CountRange::new(1, 1);
    options.lava_radius = CountRange::new(3, 3);
    for seed in 0..30u64 {
        let mut rng = StdRng::seed_from_u64(seed);
        let mut map = grid(24, TileType::Hill);
        field.lava_spawn(&mut map, &options, &mut rng);
        let lava = terrain_at(&map, TileType::Lava);
        assert!(!lava.is_empty());
        // the disk around some cell of the lake, of the radius asked for
        let found = lava.iter().any(|(row, col)| {
            let mut disk = grid(24, TileType::Hill);
            let mut other = StdRng::seed_from_u64(0);
            spawn_circle(&mut disk, &mut other, 24, *row, *col, 3, &(None, Some(TileType::Lava)));
            disk == map
        });
        assert!(found, "seed {seed}");
    }
}

#[test]
fn each_street_is_as_long_as_was_asked_for_where_it_has_room() {
    let mut options = OxAgTileTypePresets::Default.load();
    options.street_n = CountRange::new(2, 2);
    options.street_len = CountRange::new(4, 4);
    let mut whole = 0;
    for seed in 0..30u64 {
        let mut field = flat(20);
        let mut map = grid(20, TileType::Grass);
        let mut rng = StdRng::seed_from_u64(seed);
        field.streets_spawn(&mut map, &options, &mut rng);
        let street = terrain_at(&map, TileType::Street);
        // a street ends early only at the border or at another street
        assert!((2..=8).contains(&street.len()), "{}", street.len());
        if street.len() == 8 {
            whole += 1;
        }
        for (r, c) in &street {
            assert!(field.claimed[*r][*c]);
        }
        let taken = field.claimed.iter().flatten().filter(|t| **t).count();
        assert_eq!(taken, street.len());
    }
    assert!(whole >= 20, "{whole}");
}

#[test]
fn each_river_flows_where_a_source_is_left() {
    // two hills, each beside its own water
    let samples: Vec<Vec<i64>> = vec![
        vec![5, 5, 5, 5, 5, 5, 5],
        vec![5, 9, 1, 5, 5, 5, 5],
        vec![5, 5, 5, 5, 5, 5, 5],
        vec![5, 5, 5, 5, 5, 5, 5],
        vec![5, 5, 5, 5, 1, 9, 5],
        vec![5, 5, 5, 5, 5, 5, 5],
        vec![5, 5, 5, 5, 5, 5, 5],
    ];
    for seed in 0..20u64 {
        let mut field = HeightMap::new(samples.clone(), 0, false).unwrap();
        let mut map = grid(7, TileType::Sand);
        map[1][1] = tile(TileType::Hill);
        map[1][2] = tile(TileType::DeepWater);
        map[4][5] = tile(TileType::Mountain);
        map[4][4] = tile(TileType::DeepWater);
        let mut rng = StdRng::seed_from_u64(seed);
        field.rivers_carve(&mut map, 2, &mut rng);
        // each river carves its source and arrives at the water beside it
        assert_eq!(map[1][1].tile_type, TileType::ShallowWater);
        assert_eq!(map[4][5].tile_type, TileType::ShallowWater);
        assert_eq!(terrain_at(&map, TileType::ShallowWater).len(), 2);
        assert!(field.claimed[1][1] && field.claimed[4][5]);
        // a third river finds no source and does nothing
        let before = map.clone();
        field.rivers_carve(&mut map, 1, &mut rng);
        assert_eq!(map, before);
    }
}
