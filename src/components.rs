use vstd::prelude::*;
use crate::colour::Colour;
use crate::geometry::Axis;
use crate::world::{Light, Rational};

verus! {

/// What is drawn for an entity.
#[derive(Clone, Copy, Debug, PartialEq, Eq, Structural)]
pub enum Tile {
    Player,
    Wall,
    Floor,
    Ground,
    Tree0,
    Tree1,
    Tree2,
    DoorClosed(Axis),
    DoorOpen(Axis),
    Window(Axis),
    Water,
    RuinsWall,
    RuinsFloor,
    Altar,
    BulletinBoard,
    Lamp,
    LampOff,
    PierFloor,
    Grass,
    FlatGrass,
    Rock,
    Flower,
    Bed,
    ChairLeftFacing,
    ChairRightFacing,
    Teapot,
    Tea,
    Gumboots,
    Umbrella,
    Shovel,
    PaperMap,
    WeatherReport,
    Lantern,
}

/// Something the player can carry.
#[derive(Clone, Copy, Debug, PartialEq, Eq, Structural)]
pub enum Item {
    Flower,
    Tea,
    Rock,
}

/// Something the player can wear or use.
#[derive(Clone, Copy, Debug, PartialEq, Eq, Structural)]
pub enum Equipment {
    Gumboots,
    Umbrella,
    Shovel,
    PaperMap,
    WeatherReport,
    Lantern,
}

#[derive(Clone, Copy, Debug, PartialEq, Eq, Structural)]
pub enum DoorState {
    Open,
    Closed,
}

/// Marks the player character.
#[derive(Clone, Copy, Debug, PartialEq, Eq, Structural)]
pub struct Player {}

/// The components an entity is made of, as far as the lighting pass reads them.
#[derive(Clone, Copy, Debug, PartialEq, Eq, Structural)]
pub struct EntityData {
    pub tile: Option<Tile>,
    pub player: Option<Player>,
    pub light: Option<Light>,
}

/// The light the player carries: what they can see by at night.
pub open spec fn player_light() -> Light {
    Light { colour: Colour { r: 185, g: 185, b: 185 }, vision_distance_squared: 200, diminish: Rational { numerator: 1, denominator: 50 } }
}

/// The player character's components.
pub fn make_player() -> (d: EntityData)
    ensures
        d == (EntityData { tile: Some(Tile::Player), player: Some(Player {}), light: Some(player_light()) }),
{
    EntityData {
        tile: Some(Tile::Player),
        player: Some(Player {}),
        light: Some(Light {
            colour: Colour::new_grey(185),
            vision_distance_squared: 200,
            diminish: Rational { numerator: 1, denominator: 50 },
        }),
    }
}

pub open spec fn item_name(item: Item) -> Seq<char> {
    match item {
        Item::Flower => "flower"@,
        Item::Tea => "tea"@,
        Item::Rock => "rock"@,
    }
}

impl Item {
    /// The item's name in lower case.
    pub fn to_string(&self) -> (s: String)
        ensures
            s@ == item_name(*self),
    {
        let s = match self {
            Item::Flower => "flower",
            Item::Tea => "tea",
            Item::Rock => "rock",
        };
        proof {
            reveal_strlit("flower");
            reveal_strlit("tea");
            reveal_strlit("rock");
        }
        s.to_string()
    }
}

} // verus!
