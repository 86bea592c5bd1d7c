use vstd::prelude::*;
use crate::colour::Colour;
use crate::components::Tile;
use crate::geometry::{lemma_index_in_range, Axis, Coord, Size};
use crate::visibility::{EntityTile, TileLayers};

verus! {

/// A ratio of two unsigned integers.
#[derive(Clone, Copy, Debug, PartialEq, Eq, Structural)]
pub struct Rational {
    pub numerator: u32,
    pub denominator: u32,
}

/// A light source: its colour, how far it reaches (as a squared distance) and
/// how quickly it fades with squared distance.
#[derive(Clone, Copy, Debug, PartialEq, Eq, Structural)]
pub struct Light {
    pub colour: Colour,
    pub vision_distance_squared: u32,
    pub diminish: Rational,
}

/// What the lighting pass reads of the world: for each cell its opacity and
/// what occupies each of the four layers, and the placed light sources.
pub struct World {
    entity_allocator: entity_table::EntityAllocator,
    size: Size,
    opacity: Vec<u8>,
    layers: Vec<TileLayers>,
    lights: Vec<(Coord, Light)>,
}

/// The four layers of a cell.
#[derive(Clone, Copy, Debug, PartialEq, Eq, Structural)]
pub enum Layer {
    Floor,
    Feature,
    Character,
    Item,
}

pub ghost struct WorldModel {
    pub size: Size,
    pub opacity: Seq<u8>,
    pub layers: Seq<TileLayers>,
    pub lights: Seq<(Coord, Light)>,
}

impl WorldModel {
    pub open spec fn wf(self) -> bool {
        &&& self.size.is_valid()
        &&& self.opacity.len() == self.size.count()
        &&& self.layers.len() == self.size.count()
        &&& forall|i: int| 0 <= i < self.size.count() && (#[trigger] self.layers[i]).feature is None ==> self.opacity[i] == 0
    }

    /// Opacity at a coordinate: that of the entity on the feature layer. A cell
    /// with nothing there, or off the map, is transparent.
    pub open spec fn opacity_at(self, c: Coord) -> u8 {
        if self.size.contains(c) && self.layers[self.size.index_of(c)].feature is Some {
            self.opacity[self.size.index_of(c)]
        } else {
            0
        }
    }

    /// The world with one layer of an on-map cell replaced. A new feature
    /// starts out transparent.
    pub open spec fn with_layer(self, c: Coord, layer: Layer, value: Option<EntityTile>) -> WorldModel {
        let i = self.size.index_of(c);
        let l = self.layers[i];
        let replaced = match layer {
            Layer::Floor => TileLayers { floor: value, ..l },
            Layer::Feature => TileLayers { feature: value, ..l },
            Layer::Character => TileLayers { character: value, ..l },
            Layer::Item => TileLayers { item: value, ..l },
        };
        WorldModel {
            layers: self.layers.update(i, replaced),
            opacity: if layer == Layer::Feature { self.opacity.update(i, 0) } else { self.opacity },
            ..self
        }
    }

    /// What occupies a coordinate; nothing is off the map.
    pub open spec fn layers_at(self, c: Coord) -> TileLayers {
        if self.size.contains(c) { self.layers[self.size.index_of(c)] } else { TileLayers::empty_spec() }
    }
}

pub open spec fn tile_of(t: Option<EntityTile>) -> Option<Tile> {
    match t {
        Some(et) => Some(et.tile),
        None => None,
    }
}

pub open spec fn is_wall_tile(t: Tile) -> bool {
    match t {
        Tile::Wall | Tile::RuinsWall | Tile::Window(_) | Tile::DoorClosed(_) | Tile::DoorOpen(_) => true,
        _ => false,
    }
}

#[verifier::external_type_specification]
#[verifier::external_body]
pub struct ExEntityAllocator(entity_table::EntityAllocator);

/// Relies on entity_table::EntityAllocator's `Default`: an allocator that has
/// handed out no entity yet.
#[verifier::external_body]
fn new_allocator() -> (a: entity_table::EntityAllocator) {
    entity_table::EntityAllocator::default()
}

/// Relies on entity_table::EntityAllocator::alloc: a fresh entity; nothing is
/// stated of its value.
#[verifier::external_body]
fn alloc_entity(a: &mut entity_table::EntityAllocator) -> (e: entity_table::Entity) {
    a.alloc()
}

pub open spec fn door_axis(t: Option<EntityTile>) -> Option<Axis> {
    match t {
        Some(EntityTile { tile: Tile::DoorClosed(axis), .. }) => Some(axis),
        Some(EntityTile { tile: Tile::DoorOpen(axis), .. }) => Some(axis),
        _ => None,
    }
}

impl WorldModel {
    /// The world with one on-map cell's opacity and feature layer replaced.
    pub open spec fn with_feature(self, c: Coord, feature: Option<EntityTile>, opacity: u8) -> WorldModel {
        let i = self.size.index_of(c);
        WorldModel {
            opacity: self.opacity.update(i, opacity),
            layers: self.layers.update(i, TileLayers { feature, ..self.layers[i] }),
            ..self
        }
    }
}

/// A street lamp's light.
pub open spec fn lamp_light() -> Light {
    Light { colour: Colour { r: 255, g: 255, b: 185 }, vision_distance_squared: 100, diminish: Rational { numerator: 1, denominator: 4 } }
}

/// The light of a lit house.
pub open spec fn house_light(colour: Colour) -> Light {
    Light { colour, vision_distance_squared: 200, diminish: Rational { numerator: 1, denominator: 10 } }
}

impl View for World {
    type V = WorldModel;

    closed spec fn view(&self) -> WorldModel {
        WorldModel { size: self.size, opacity: self.opacity@, layers: self.layers@, lights: self.lights@ }
    }
}

impl World {
    pub open spec fn wf(&self) -> bool {
        self@.wf()
    }

    /// An empty, fully transparent world with no lights.
    pub fn new(size: Size) -> (w: World)
        requires
            size.is_valid(),
        ensures
            w.wf(),
            w@.size == size,
            forall|i: int| 0 <= i < size.count() ==> w@.opacity[i] == 0,
            forall|i: int| 0 <= i < size.count() ==> w@.layers[i] == TileLayers::empty_spec(),
            w@.lights.len() == 0,
    {
        let n = (size.width * size.height) as usize;
        let mut opacity: Vec<u8> = Vec::new();
        let mut layers: Vec<TileLayers> = Vec::new();
        let mut i: usize = 0;
        while i < n
            invariant
                i <= n,
                n == size.count(),
                opacity@.len() == i,
                layers@.len() == i,
                forall|j: int| 0 <= j < i ==> opacity@[j] == 0,
                forall|j: int| 0 <= j < i ==> layers@[j] == TileLayers::empty_spec(),
            decreases n - i,
        {
            opacity.push(0);
            layers.push(TileLayers::empty());
            i = i + 1;
        }
        World { entity_allocator: new_allocator(), size, opacity, layers, lights: Vec::new() }
    }

    pub fn size(&self) -> (s: Size)
        ensures
            s == self@.size,
    {
        self.size
    }

    /// Opacity at a coordinate: 0 is transparent, 255 blocks sight entirely.
    pub fn get_opacity_at_coord(&self, coord: Coord) -> (o: u8)
        requires
            self.wf(),
        ensures
            o == self@.opacity_at(coord),
    {
        match self.size.index(coord) {
            Some(i) => {
                proof {
                    assert(self@.layers[i as int].feature is None ==> self@.opacity[i as int] == 0);
                }
                self.opacity[i]
            },
            None => 0,
        }
    }

    /// Opacity for the shadowcaster, which holds no proof that the world is
    /// well formed: a cell outside the stored opacities reads as transparent.
    pub(crate) fn opacity_for_shadowcast(&self, coord: Coord) -> (o: u8)
        ensures
            self.wf() ==> o == self@.opacity_at(coord),
    {
        let w = self.size.width as u64;
        let h = self.size.height as u64;
        if 0 <= coord.x && (coord.x as u64) < w && 0 <= coord.y && (coord.y as u64) < h {
            let x = coord.x as u64;
            let y = coord.y as u64;
            assert(y * w + x < 0x1_0000_0000 * 0x1_0000_0000) by (nonlinear_arith)
                requires x < w, y < h, w < 0x1_0000_0000, h < 0x1_0000_0000;
            let i: u64 = y * w + x;
            proof {
                if self.wf() {
                    lemma_index_in_range(self.size, coord);
                    assert(self@.layers[i as int].feature is None ==> self@.opacity[i as int] == 0);
                }
            }
            if i < self.opacity.len() as u64 {
                self.opacity[i as usize]
            } else {
                0
            }
        } else {
            0
        }
    }

    /// What occupies each layer at a coordinate.
    pub fn layers_at(&self, coord: Coord) -> (l: TileLayers)
        requires
            self.wf(),
        ensures
            l == self@.layers_at(coord),
    {
        match self.size.index(coord) {
            Some(i) => self.layers[i],
            None => TileLayers::empty(),
        }
    }

    /// Sets the opacity of the feature standing on an on-map cell.
    pub fn set_opacity(&mut self, coord: Coord, opacity: u8)
        requires
            old(self).wf(),
            old(self)@.size.contains(coord),
            old(self)@.layers_at(coord).feature is Some,
        ensures
            final(self).wf(),
            final(self)@ == (WorldModel {
                opacity: old(self)@.opacity.update(old(self)@.size.index_of(coord), opacity),
                ..old(self)@
            }),
    {
        let i = self.size.index(coord).unwrap();
        self.opacity.set(i, opacity);
    }

    /// Replaces one layer of an on-map cell; a coordinate off the map changes
    /// nothing. A feature put in place this way is transparent.
    pub fn set_layer(&mut self, coord: Coord, layer: Layer, value: Option<EntityTile>)
        requires
            old(self).wf(),
        ensures
            final(self).wf(),
            final(self)@ == (if old(self)@.size.contains(coord) {
                old(self)@.with_layer(coord, layer, value)
            } else {
                old(self)@
            }),
    {
        if let Some(i) = self.size.index(coord) {
            let l = self.layers[i];
            let replaced = match layer {
                Layer::Floor => TileLayers { floor: value, ..l },
                Layer::Feature => TileLayers { feature: value, ..l },
                Layer::Character => TileLayers { character: value, ..l },
                Layer::Item => TileLayers { item: value, ..l },
            };
            self.layers.set(i, replaced);
            if layer == Layer::Feature {
                self.opacity.set(i, 0);
            }
        }
    }

    /// Places a light source.
    pub fn add_light(&mut self, coord: Coord, light: Light)
        requires
            old(self).wf(),
        ensures
            final(self).wf(),
            final(self)@ == (WorldModel { lights: old(self)@.lights.push((coord, light)), ..old(self)@ }),
    {
        self.lights.push((coord, light));
    }

    /// Puts a new entity showing `tile` on the feature layer of an on-map cell
    /// whose feature layer is empty, with the given opacity.
    fn spawn_feature(&mut self, coord: Coord, tile: Tile, opacity: u8) -> (e: entity_table::Entity)
        requires
            old(self).wf(),
            old(self)@.size.contains(coord),
            old(self)@.layers_at(coord).feature is None,
        ensures
            final(self).wf(),
            final(self)@ == old(self)@.with_feature(coord, Some(EntityTile { entity: e, tile }), opacity),
    {
        proof {
            lemma_index_in_range(self.size, coord);
        }
        let entity = alloc_entity(&mut self.entity_allocator);
        let i = self.size.index(coord).unwrap();
        let old_layers = self.layers[i];
        self.layers.set(i, TileLayers { feature: Some(EntityTile { entity, tile }), ..old_layers });
        self.opacity.set(i, opacity);
        entity
    }

    /// Builds an opaque wall on an on-map cell with an empty feature layer.
    pub fn spawn_wall(&mut self, coord: Coord) -> (e: entity_table::Entity)
        requires
            old(self).wf(),
            old(self)@.size.contains(coord),
            old(self)@.layers_at(coord).feature is None,
        ensures
            final(self).wf(),
            final(self)@ == old(self)@.with_feature(coord, Some(EntityTile { entity: e, tile: Tile::Wall }), 255),
    {
        self.spawn_feature(coord, Tile::Wall, 255)
    }

    /// Builds a closed, opaque door on an on-map cell with an empty feature layer.
    pub fn spawn_door(&mut self, coord: Coord, axis: Axis) -> (e: entity_table::Entity)
        requires
            old(self).wf(),
            old(self)@.size.contains(coord),
            old(self)@.layers_at(coord).feature is None,
        ensures
            final(self).wf(),
            final(self)@ == old(self)@.with_feature(coord, Some(EntityTile { entity: e, tile: Tile::DoorClosed(axis) }), 255),
    {
        self.spawn_feature(coord, Tile::DoorClosed(axis), 255)
    }

    /// Builds a transparent window on an on-map cell with an empty feature layer.
    pub fn spawn_window(&mut self, coord: Coord, axis: Axis) -> (e: entity_table::Entity)
        requires
            old(self).wf(),
            old(self)@.size.contains(coord),
            old(self)@.layers_at(coord).feature is None,
        ensures
            final(self).wf(),
            final(self)@ == old(self)@.with_feature(coord, Some(EntityTile { entity: e, tile: Tile::Window(axis) }), 0),
    {
        self.spawn_feature(coord, Tile::Window(axis), 0)
    }

    /// Builds a lit street lamp on an on-map cell with an empty feature layer.
    pub fn spawn_lamp(&mut self, coord: Coord) -> (e: entity_table::Entity)
        requires
            old(self).wf(),
            old(self)@.size.contains(coord),
            old(self)@.layers_at(coord).feature is None,
        ensures
            final(self).wf(),
            final(self)@ == (WorldModel {
                lights: old(self)@.lights.push((coord, lamp_light())),
                ..old(self)@.with_feature(coord, Some(EntityTile { entity: e, tile: Tile::Lamp }), 0)
            }),
    {
        let e = self.spawn_feature(coord, Tile::Lamp, 0);
        self.lights.push((coord, Light { colour: Colour::new(255, 255, 185), vision_distance_squared: 100, diminish: Rational { numerator: 1, denominator: 4 } }));
        e
    }

    /// Places a light of the given colour that occupies no layer.
    pub fn spawn_light(&mut self, coord: Coord, colour: Colour) -> (e: entity_table::Entity)
        requires
            old(self).wf(),
        ensures
            final(self).wf(),
            final(self)@ == (WorldModel { lights: old(self)@.lights.push((coord, house_light(colour))), ..old(self)@ }),
    {
        let e = alloc_entity(&mut self.entity_allocator);
        self.lights.push((coord, Light { colour, vision_distance_squared: 200, diminish: Rational { numerator: 1, denominator: 10 } }));
        e
    }

    /// Opens the door at a coordinate: it no longer blocks sight.
    pub fn open_door(&mut self, coord: Coord)
        requires
            old(self).wf(),
            old(self)@.size.contains(coord),
            door_axis(old(self)@.layers_at(coord).feature) is Some,
        ensures
            final(self).wf(),
            final(self)@ == old(self)@.with_feature(
                coord,
                Some(EntityTile {
                    entity: old(self)@.layers_at(coord).feature.unwrap().entity,
                    tile: Tile::DoorOpen(door_axis(old(self)@.layers_at(coord).feature).unwrap()),
                }),
                0,
            ),
    {
        self.set_door(coord, false)
    }

    /// Closes the door at a coordinate: it blocks sight again.
    pub fn close_door(&mut self, coord: Coord)
        requires
            old(self).wf(),
            old(self)@.size.contains(coord),
            door_axis(old(self)@.layers_at(coord).feature) is Some,
        ensures
            final(self).wf(),
            final(self)@ == old(self)@.with_feature(
                coord,
                Some(EntityTile {
                    entity: old(self)@.layers_at(coord).feature.unwrap().entity,
                    tile: Tile::DoorClosed(door_axis(old(self)@.layers_at(coord).feature).unwrap()),
                }),
                255,
            ),
    {
        self.set_door(coord, true)
    }

    fn set_door(&mut self, coord: Coord, closed: bool)
        requires
            old(self).wf(),
            old(self)@.size.contains(coord),
            door_axis(old(self)@.layers_at(coord).feature) is Some,
        ensures
            final(self).wf(),
            final(self)@ == old(self)@.with_feature(
                coord,
                Some(EntityTile {
                    entity: old(self)@.layers_at(coord).feature.unwrap().entity,
                    tile: if closed {
                        Tile::DoorClosed(door_axis(old(self)@.layers_at(coord).feature).unwrap())
                    } else {
                        Tile::DoorOpen(door_axis(old(self)@.layers_at(coord).feature).unwrap())
                    },
                }),
                if closed { 255u8 } else { 0u8 },
            ),
    {
        proof {
            lemma_index_in_range(self.size, coord);
        }
        let i = self.size.index(coord).unwrap();
        let old_layers = self.layers[i];
        let door = old_layers.feature.unwrap();
        let axis = match door.tile {
            Tile::DoorClosed(axis) => axis,
            Tile::DoorOpen(axis) => axis,
            _ => Axis::X,
        };
        let tile = if closed { Tile::DoorClosed(axis) } else { Tile::DoorOpen(axis) };
        self.layers.set(i, TileLayers { feature: Some(EntityTile { entity: door.entity, tile }), ..old_layers });
        self.opacity.set(i, if closed { 255 } else { 0 });
    }

    /// Every placed light with its position, in the order they were placed.
    pub fn all_lights_by_coord(&self) -> (r: Vec<(Coord, Light)>)
        ensures
            r@ == self@.lights,
    {
        let mut r: Vec<(Coord, Light)> = Vec::new();
        let mut i: usize = 0;
        while i < self.lights.len()
            invariant
                i <= self.lights@.len(),
                r@ == self.lights@.subrange(0, i as int),
            decreases self.lights@.len() - i,
        {
            r.push(self.lights[i]);
            i = i + 1;
            proof {
                assert(r@ =~= self.lights@.subrange(0, i as int));
            }
        }
        proof {
            assert(r@ =~= self.lights@);
        }
        r
    }

    /// Whether the floor layer holds a floor or bare ground.
    pub fn is_floor_at_coord(&self, coord: Coord) -> (r: bool)
        requires
            self.wf(),
        ensures
            r == (tile_of(self@.layers_at(coord).floor) == Some(Tile::Floor)
                || tile_of(self@.layers_at(coord).floor) == Some(Tile::Ground)),
    {
        match self.layers_at(coord).floor {
            Some(et) => match et.tile {
                Tile::Floor | Tile::Ground => true,
                _ => false,
            },
            None => false,
        }
    }

    /// Whether the feature layer holds a wall, window or door.
    pub fn is_wall_at_coord(&self, coord: Coord) -> (r: bool)
        requires
            self.wf(),
        ensures
            r == (self@.layers_at(coord).feature matches Some(et) && is_wall_tile(et.tile)),
    {
        match self.layers_at(coord).feature {
            Some(et) => match et.tile {
                Tile::Wall | Tile::RuinsWall | Tile::Window(_) | Tile::DoorClosed(_) | Tile::DoorOpen(_) => true,
                _ => false,
            },
            None => false,
        }
    }

    /// Rain is hidden over indoor floor, except on the row just above bare ground,
    /// where it shows through an open front.
    pub fn should_hide_rain(&self, coord: Coord) -> (r: bool)
        requires
            self.wf(),
        ensures
            r == (tile_of(self@.layers_at(coord).floor) == Some(Tile::Floor)
                && !(coord.y < i32::MAX && tile_of(self@.layers_at(Coord { x: coord.x, y: (coord.y + 1) as i32 }).floor) == Some(Tile::Ground))),
    {
        let is_floor = match self.layers_at(coord).floor {
            Some(et) => et.tile == Tile::Floor,
            None => false,
        };
        let ground_below = if coord.y < i32::MAX {
            match self.layers_at(Coord { x: coord.x, y: coord.y + 1 }).floor {
                Some(et) => et.tile == Tile::Ground,
                None => false,
            }
        } else {
            false
        };
        is_floor && !ground_below
    }
}

} // verus!
