use entity_table::EntityAllocator;
use rainforest::world::Layer;
use rainforest::{Axis, Colour, Coord, EntityTile, Light, Rational, Size, Tile, TileLayers, World};

fn tile(alloc: &mut EntityAllocator, tile: Tile) -> Option<EntityTile> {
    Some(EntityTile { entity: alloc.alloc(), tile })
}

#[test]
fn new_world_is_transparent_and_empty() {
    let world = World::new(Size::new(4, 3));
    assert_eq!(world.size(), Size::new(4, 3));
    assert_eq!(world.get_opacity_at_coord(Coord::new(3, 2)), 0);
    assert_eq!(world.layers_at(Coord::new(0, 0)), TileLayers::empty());
    assert!(world.all_lights_by_coord().is_empty());
}

#[test]
fn opacity_comes_from_the_feature() {
    let mut alloc = EntityAllocator::default();
    let mut world = World::new(Size::new(4, 3));
    world.spawn_wall(Coord::new(2, 1));
    assert_eq!(world.get_opacity_at_coord(Coord::new(2, 1)), 255);
    world.set_opacity(Coord::new(2, 1), 100);
    assert_eq!(world.get_opacity_at_coord(Coord::new(2, 1)), 100);
    assert_eq!(world.get_opacity_at_coord(Coord::new(1, 2)), 0);
    assert_eq!(world.get_opacity_at_coord(Coord::new(9, 9)), 0);
    assert_eq!(world.get_opacity_at_coord(Coord::new(-1, 0)), 0);
    // A feature put in place directly is transparent; removing it leaves the cell transparent.
    world.set_layer(Coord::new(2, 1), Layer::Feature, tile(&mut alloc, Tile::Rock));
    assert_eq!(world.get_opacity_at_coord(Coord::new(2, 1)), 0);
    world.spawn_door(Coord::new(0, 0), Axis::X);
    world.set_layer(Coord::new(0, 0), Layer::Feature, None);
    assert_eq!(world.get_opacity_at_coord(Coord::new(0, 0)), 0);
    assert_eq!(world.layers_at(Coord::new(0, 0)), TileLayers::empty());
}

#[test]
fn lights_are_listed_in_placement_order() {
    let mut world = World::new(Size::new(4, 3));
    let a = Light {
        colour: Colour::new_grey(185),
        vision_distance_squared: 200,
        diminish: Rational { numerator: 1, denominator: 50 },
    };
    let b = Light { colour: Colour::new(255, 187, 127), ..a };
    world.add_light(Coord::new(1, 1), a);
    world.add_light(Coord::new(3, 0), b);
    assert_eq!(world.all_lights_by_coord(), vec![(Coord::new(1, 1), a), (Coord::new(3, 0), b)]);
}

#[test]
fn walls_windows_and_doors_count_as_walls() {
    let mut alloc = EntityAllocator::default();
    let mut world = World::new(Size::new(5, 1));
    let features = [Tile::Wall, Tile::Window(Axis::X), Tile::DoorOpen(Axis::Y), Tile::Tree0];
    for (x, t) in features.iter().enumerate() {
        world.set_layer(Coord::new(x as i32, 0), Layer::Feature, tile(&mut alloc, *t));
    }
    assert!(world.is_wall_at_coord(Coord::new(0, 0)));
    assert!(world.is_wall_at_coord(Coord::new(1, 0)));
    assert!(world.is_wall_at_coord(Coord::new(2, 0)));
    assert!(!world.is_wall_at_coord(Coord::new(3, 0)));
    assert!(!world.is_wall_at_coord(Coord::new(4, 0)));
    assert!(!world.is_wall_at_coord(Coord::new(7, 0)));
}

#[test]
fn floor_and_ground_count_as_floor() {
    let mut alloc = EntityAllocator::default();
    let mut world = World::new(Size::new(3, 1));
    world.set_layer(Coord::new(0, 0), Layer::Floor, tile(&mut alloc, Tile::Floor));
    world.set_layer(Coord::new(1, 0), Layer::Floor, tile(&mut alloc, Tile::Ground));
    world.set_layer(Coord::new(2, 0), Layer::Floor, tile(&mut alloc, Tile::PierFloor));
    assert!(world.is_floor_at_coord(Coord::new(0, 0)));
    assert!(world.is_floor_at_coord(Coord::new(1, 0)));
    assert!(!world.is_floor_at_coord(Coord::new(2, 0)));
}

#[test]
fn rain_is_hidden_indoors_but_not_above_ground() {
    let mut alloc = EntityAllocator::default();
    let mut world = World::new(Size::new(2, 3));
    for y in 0..2 {
        world.set_layer(Coord::new(0, y), Layer::Floor, tile(&mut alloc, Tile::Floor));
        world.set_layer(Coord::new(1, y), Layer::Floor, tile(&mut alloc, Tile::Floor));
    }
    world.set_layer(Coord::new(0, 2), Layer::Floor, tile(&mut alloc, Tile::Floor));
    world.set_layer(Coord::new(1, 2), Layer::Floor, tile(&mut alloc, Tile::Ground));
    assert!(world.should_hide_rain(Coord::new(0, 0)));
    assert!(world.should_hide_rain(Coord::new(0, 1)));
    assert!(!world.should_hide_rain(Coord::new(1, 1)));
    assert!(world.should_hide_rain(Coord::new(0, 2)));
    assert!(!world.should_hide_rain(Coord::new(1, 2)));
}

#[test]
fn spawned_features_set_tile_and_opacity() {
    let mut world = World::new(Size::new(4, 1));
    let wall = world.spawn_wall(Coord::new(0, 0));
    let door = world.spawn_door(Coord::new(1, 0), Axis::Y);
    let window = world.spawn_window(Coord::new(2, 0), Axis::X);
    let lamp = world.spawn_lamp(Coord::new(3, 0));
    assert_ne!(wall, door);
    assert_ne!(window, lamp);
    assert_eq!(world.layers_at(Coord::new(0, 0)).feature, Some(EntityTile { entity: wall, tile: Tile::Wall }));
    assert_eq!(world.layers_at(Coord::new(1, 0)).feature, Some(EntityTile { entity: door, tile: Tile::DoorClosed(Axis::Y) }));
    assert_eq!(world.layers_at(Coord::new(2, 0)).feature, Some(EntityTile { entity: window, tile: Tile::Window(Axis::X) }));
    assert_eq!(world.layers_at(Coord::new(3, 0)).feature, Some(EntityTile { entity: lamp, tile: Tile::Lamp }));
    assert_eq!(world.get_opacity_at_coord(Coord::new(0, 0)), 255);
    assert_eq!(world.get_opacity_at_coord(Coord::new(1, 0)), 255);
    assert_eq!(world.get_opacity_at_coord(Coord::new(2, 0)), 0);
    assert_eq!(world.get_opacity_at_coord(Coord::new(3, 0)), 0);
    let lamp_light = Light {
        colour: Colour::new(255, 255, 185),
        vision_distance_squared: 100,
        diminish: Rational { numerator: 1, denominator: 4 },
    };
    assert_eq!(world.all_lights_by_coord(), vec![(Coord::new(3, 0), lamp_light)]);
}

#[test]
fn spawned_light_occupies_no_layer() {
    let mut world = World::new(Size::new(2, 2));
    world.spawn_light(Coord::new(1, 1), Colour::new(255, 187, 127));
    assert_eq!(world.layers_at(Coord::new(1, 1)), TileLayers::empty());
    let house = Light {
        colour: Colour::new(255, 187, 127),
        vision_distance_squared: 200,
        diminish: Rational { numerator: 1, denominator: 10 },
    };
    assert_eq!(world.all_lights_by_coord(), vec![(Coord::new(1, 1), house)]);
}

#[test]
fn doors_open_and_close() {
    let mut world = World::new(Size::new(3, 1));
    let door = world.spawn_door(Coord::new(1, 0), Axis::X);
    world.open_door(Coord::new(1, 0));
    assert_eq!(world.get_opacity_at_coord(Coord::new(1, 0)), 0);
    assert_eq!(world.layers_at(Coord::new(1, 0)).feature, Some(EntityTile { entity: door, tile: Tile::DoorOpen(Axis::X) }));
    assert!(world.is_wall_at_coord(Coord::new(1, 0)));
    world.close_door(Coord::new(1, 0));
    assert_eq!(world.get_opacity_at_coord(Coord::new(1, 0)), 255);
    assert_eq!(world.layers_at(Coord::new(1, 0)).feature, Some(EntityTile { entity: door, tile: Tile::DoorClosed(Axis::X) }));
}

#[test]
fn player_carries_a_grey_light() {
    let player = rainforest::make_player();
    assert_eq!(player.tile, Some(Tile::Player));
    assert_eq!(player.player, Some(rainforest::Player {}));
    let light = player.light.unwrap();
    assert_eq!(light.colour, Colour::new_grey(185));
    assert_eq!(light.vision_distance_squared, 200);
    assert_eq!(light.diminish, Rational { numerator: 1, denominator: 50 });
}
