use oxagworldgenerator::world::environmental_conditions::{EnvironmentalConditions, WeatherType};
use oxagworldgenerator::world::tile::{Content, TileType};

fn every_content() -> Vec<Content> {
    Content::all()
}

#[test]
fn there_are_sixteen_kinds_of_content_in_order() {
    let all = every_content();
    assert_eq!(all.len(), 16);
    assert_eq!(all[0], Content::Rock(0));
    assert_eq!(all[5], Content::Bin(0, 0));
    assert_eq!(all[8], Content::Water(0));
    assert_eq!(all[15], Content::Empty);
    for (k, content) in all.iter().enumerate() {
        assert_eq!(content.index(), k);
    }
}

#[test]
fn there_are_eleven_terrains() {
    let all = TileType::all();
    assert_eq!(all.len(), 11);
    assert_eq!(all[0], TileType::DeepWater);
    assert_eq!(all[9], TileType::Teleport(false));
    assert_eq!(all[10], TileType::Wall);
}

#[test]
fn water_holds_water_and_fish_only() {
    for terrain in [TileType::DeepWater, TileType::ShallowWater] {
        for content in every_content() {
            let expected = matches!(content, Content::Water(_) | Content::Fish(_));
            assert_eq!(terrain.can_hold(content), expected, "{terrain:?} {content:?}");
        }
    }
}

#[test]
fn land_holds_everything_but_water_fish_and_nothing() {
    for terrain in [
        TileType::Sand,
        TileType::Grass,
        TileType::Street,
        TileType::Hill,
        TileType::Mountain,
        TileType::Snow,
    ] {
        for content in every_content() {
            let expected = !matches!(content, Content::Water(_) | Content::Fish(_) | Content::Empty);
            assert_eq!(terrain.can_hold(content), expected, "{terrain:?} {content:?}");
        }
    }
}

#[test]
fn lava_teleports_and_walls_hold_nothing() {
    for terrain in [TileType::Lava, TileType::Teleport(true), TileType::Teleport(false), TileType::Wall] {
        for content in every_content() {
            assert!(!terrain.can_hold(content));
        }
    }
}

#[test]
fn can_hold_looks_at_the_kind_alone() {
    assert!(TileType::Grass.can_hold(Content::Rock(3)));
    assert!(TileType::Grass.can_hold(Content::Bank(0, 40)));
    assert!(TileType::ShallowWater.can_hold(Content::Water(19)));
    assert!(!TileType::ShallowWater.can_hold(Content::JollyBlock(1)));
}

#[test]
fn a_robot_walks_everywhere_but_on_deep_water_and_walls() {
    for terrain in TileType::all() {
        let expected = !matches!(terrain, TileType::DeepWater | TileType::Wall);
        assert_eq!(terrain.walk(), expected, "{terrain:?}");
    }
    assert!(TileType::Teleport(true).walk());
}

#[test]
fn only_deep_and_shallow_water_are_water() {
    for terrain in TileType::all() {
        let expected = matches!(terrain, TileType::DeepWater | TileType::ShallowWater);
        assert_eq!(terrain.is_water(), expected);
    }
}

#[test]
fn greatest_amounts() {
    let expected = [4, 5, 3, 0, 10, 10, 20, 50, 20, 20, 3, 0, 10, 2, 0, 0];
    for (content, max) in every_content().iter().zip(expected) {
        assert_eq!(content.max(), max, "{content:?}");
    }
    assert_eq!(Content::Water(7).max(), 20);
}

#[test]
fn to_value_keeps_the_kind_and_sets_the_amount() {
    assert_eq!(Content::Rock(0).to_value(3), Content::Rock(3));
    assert_eq!(Content::Tree(9).to_value(1), Content::Tree(1));
    assert_eq!(Content::Bin(2, 5).to_value(7), Content::Bin(0, 7));
    assert_eq!(Content::Crate(0, 0).to_value(4), Content::Crate(0, 4));
    assert_eq!(Content::Bank(1, 1).to_value(9), Content::Bank(0, 9));
    assert_eq!(Content::Fire.to_value(5), Content::Fire);
    assert_eq!(Content::Building.to_value(5), Content::Building);
    assert_eq!(Content::Scarecrow.to_value(5), Content::Scarecrow);
    assert_eq!(Content::Empty.to_value(5), Content::Empty);
    assert_eq!(Content::JollyBlock(0).to_value(1), Content::JollyBlock(1));
    assert_eq!(Content::Water(0).to_value(19), Content::Water(19));
}

#[test]
fn to_default_carries_nothing() {
    assert_eq!(Content::Rock(3).to_default(), Content::Rock(0));
    assert_eq!(Content::Bin(2, 5).to_default(), Content::Bin(0, 0));
    assert_eq!(Content::Fire.to_default(), Content::Fire);
    for content in every_content() {
        assert_eq!(content.to_value(3).to_default(), content);
    }
}

#[test]
fn conditions_need_a_start_hour_within_the_day() {
    let weather = vec![WeatherType::Rainy, WeatherType::Sunny];
    let made = EnvironmentalConditions::new(&weather, 12, 24).unwrap();
    assert_eq!(made.get_weather_sequence(), &weather);
    assert_eq!(made.get_tick_per_day(), 12);
    assert_eq!(made.get_start_hour(), 24);
    assert!(EnvironmentalConditions::new(&weather, 12, 25).is_none());
    assert!(EnvironmentalConditions::new(&weather, 12, 255).is_none());
    assert!(EnvironmentalConditions::new(&Vec::new(), 0, 0).is_some());
    let copy = made.duplicate();
    assert_eq!(copy.get_weather_sequence(), &weather);
    assert_eq!(copy.get_tick_per_day(), 12);
    assert_eq!(copy.get_start_hour(), 24);
}
