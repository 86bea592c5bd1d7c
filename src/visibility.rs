use vstd::prelude::*;
use crate::colour::{add_spec, div_spec, scale_spec, total_spec, Colour};
use crate::components::Tile;
use crate::geometry::{lemma_index_in_range, Coord, Size};
use crate::sight::{sightings_from, Sighting};
use crate::world::{Light, World, WorldModel};

verus! {

/// An entity of `entity_table`, carried through as an opaque value.
#[verifier::external_type_specification]
#[verifier::external_body]
pub struct ExEntity(entity_table::Entity);

/// Reads a world's opacity for shadowcasting.
pub struct Visibility;

/// Asks a lighting pass to show the whole map, lit in white, without casting
/// shadows.
#[derive(Clone, Copy, Debug)]
pub struct Omniscient;

/// An entity together with the tile it showed.
#[derive(Clone, Copy, Debug, PartialEq, Eq)]
pub struct EntityTile {
    pub entity: entity_table::Entity,
    pub tile: Tile,
}

/// What occupies each of the four layers of a cell.
#[derive(Clone, Copy, Debug, PartialEq, Eq)]
pub struct TileLayers {
    pub floor: Option<EntityTile>,
    pub feature: Option<EntityTile>,
    pub character: Option<EntityTile>,
    pub item: Option<EntityTile>,
}

impl TileLayers {
    pub open spec fn empty_spec() -> TileLayers {
        TileLayers { floor: None, feature: None, character: None, item: None }
    }

    pub fn empty() -> (l: TileLayers)
        ensures
            l == TileLayers::empty_spec(),
    {
        TileLayers { floor: None, feature: None, character: None, item: None }
    }
}

/// Sight range of the viewer's own pass, as a squared distance.
pub const VISION_DISTANCE_SQUARED: u32 = 400;

/// Grey level of the baseline light given to every cell the viewer reaches.
pub const AMBIENT_LEVEL: u8 = 31;

/// A cell is revealed once its summed channels exceed this.
pub const REVEAL_THRESHOLD: u8 = 31;

/// Every direction of a direction bitmap.
pub const ALL_DIRECTIONS: u8 = 0xff;

/// What the player knows of one map cell.
///
/// `last_seen` is the generation at which the cell was last within sight,
/// `last_seen_next` the generation at which the viewer's pass last reached it,
/// and `last_lit` the generation at which light last revealed it; the tile
/// layers are the snapshot taken then.
#[derive(Clone, Copy, Debug, PartialEq, Eq)]
pub struct VisibilityCell {
    pub last_seen: u64,
    pub last_seen_next: u64,
    pub last_lit: u64,
    pub visible_directions: u8,
    pub light_colour: Colour,
    pub tile_layers: TileLayers,
}

/// How a cell appears to the player at some generation.
#[derive(Clone, Copy, Debug, PartialEq, Eq, Structural)]
pub enum CellVisibility {
    NeverVisible,
    PreviouslyVisible,
    /// In sight; the colour is present when light has revealed the cell.
    CurrentlyVisibleWithLightColour(Option<Colour>),
}

pub open spec fn unseen_cell() -> VisibilityCell {
    VisibilityCell {
        last_seen: 0,
        last_seen_next: 0,
        last_lit: 0,
        visible_directions: 0,
        light_colour: Colour { r: 0, g: 0, b: 0 },
        tile_layers: TileLayers::empty_spec(),
    }
}

/// The three-way classification of a cell at a generation.
pub open spec fn classify_cell(c: VisibilityCell, generation: u64) -> CellVisibility {
    if c.last_seen == 0 {
        CellVisibility::NeverVisible
    } else if c.last_seen == generation {
        CellVisibility::CurrentlyVisibleWithLightColour(
            if c.last_lit == generation { Some(c.light_colour) } else { None },
        )
    } else {
        CellVisibility::PreviouslyVisible
    }
}

impl Default for VisibilityCell {
    fn default() -> (c: VisibilityCell)
        ensures
            c == unseen_cell(),
    {
        VisibilityCell::unseen()
    }
}

impl VisibilityCell {
    /// A cell that has never been seen.
    pub fn unseen() -> (c: VisibilityCell)
        ensures
            c == unseen_cell(),
    {
        VisibilityCell {
            last_seen: 0,
            last_seen_next: 0,
            last_lit: 0,
            visible_directions: 0,
            light_colour: Colour { r: 0, g: 0, b: 0 },
            tile_layers: TileLayers::empty(),
        }
    }

    pub fn tile_layers(&self) -> (l: &TileLayers)
        ensures
            *l == self.tile_layers,
    {
        &self.tile_layers
    }

    pub fn last_seen(&self) -> (g: u64)
        ensures
            g == self.last_seen,
    {
        self.last_seen
    }

    pub fn light_colour(&self) -> (c: Colour)
        ensures
            c == self.light_colour,
    {
        self.light_colour
    }

    /// How this cell appears when the grid is at generation `count`.
    pub fn visibility(&self, count: u64) -> (v: CellVisibility)
        ensures
            v == classify_cell(*self, count),
    {
        if self.last_seen == 0 {
            CellVisibility::NeverVisible
        } else if self.last_seen == count {
            let light_colour = if self.last_lit == count {
                Some(self.light_colour)
            } else {
                None
            };
            CellVisibility::CurrentlyVisibleWithLightColour(light_colour)
        } else {
            CellVisibility::PreviouslyVisible
        }
    }
}

/// The state of a visibility grid.
pub ghost struct GridModel {
    pub size: Size,
    pub generation: u64,
    pub cells: Seq<VisibilityCell>,
}

pub open spec fn cell_bounded(c: VisibilityCell, generation: u64) -> bool {
    &&& c.last_seen <= generation
    &&& c.last_seen_next <= generation
    &&& c.last_lit <= generation
}

impl GridModel {
    /// Sized for its map, and no cell stamped with a generation yet to come.
    pub open spec fn wf(self) -> bool {
        &&& self.size.is_valid()
        &&& self.cells.len() == self.size.count()
        &&& forall|i: int| 0 <= i < self.cells.len() ==> cell_bounded(#[trigger] self.cells[i], self.generation)
    }

    /// How the cell at a coordinate appears; a coordinate off the map was never visible.
    pub open spec fn classify(self, c: Coord) -> CellVisibility {
        if self.size.contains(c) {
            classify_cell(self.cells[self.size.index_of(c)], self.generation)
        } else {
            CellVisibility::NeverVisible
        }
    }
}

/// The viewer's pass puts a reached cell in sight in this generation, records
/// the directions through which it was seen, and resets its light to the
/// ambient baseline. Its snapshot is left alone.
///
/// It is this pass, not the light pass, that stamps `last_seen`, and it does not
/// stamp `last_lit`: only light crossing the reveal threshold does. A cell in
/// sight that no light reveals therefore reads as currently visible without a
/// colour, rather than as remembered or never seen, and `last_seen == 0` still
/// means the cell was never in sight.
pub open spec fn ambient_step(c: VisibilityCell, s: Sighting, generation: u64) -> VisibilityCell {
    VisibilityCell {
        last_seen: generation,
        last_seen_next: generation,
        visible_directions: s.directions,
        light_colour: Colour { r: AMBIENT_LEVEL, g: AMBIENT_LEVEL, b: AMBIENT_LEVEL },
        ..c
    }
}

/// The viewer's pass over the cells it reaches, in order; cells reported off
/// the map are ignored.
pub open spec fn ambient_pass(cells: Seq<VisibilityCell>, size: Size, seen: Seq<Sighting>, generation: u64) -> Seq<VisibilityCell>
    decreases seen.len(),
{
    if seen.len() == 0 {
        cells
    } else {
        let prev = ambient_pass(cells, size, seen.drop_last(), generation);
        let s = seen.last();
        if size.contains(s.coord) {
            let i = size.index_of(s.coord);
            prev.update(i, ambient_step(prev[i], s, generation))
        } else {
            prev
        }
    }
}

pub open spec fn distance_squared(a: Coord, b: Coord) -> int {
    (a.x - b.x) * (a.x - b.x) + (a.y - b.y) * (a.y - b.y)
}

/// The divisor by which a light's colour is dimmed at a squared distance:
/// `max(1, d² · numerator / denominator)`.
pub open spec fn dimming(light: Light, d2: int) -> int {
    let q = d2 * light.diminish.numerator / (light.diminish.denominator as int);
    if q < 1 { 1 } else { q }
}

/// The light that a source at `origin` adds to the cell at `at`, which its
/// shadowcast reached with the given remaining visibility.
pub open spec fn contribution(light: Light, origin: Coord, at: Coord, visibility: u8) -> Colour {
    scale_spec(div_spec(light.colour, dimming(light, distance_squared(origin, at))), visibility)
}

/// A light adds to a cell only when the viewer's pass reached that cell in this
/// generation and saw it through one of the directions that the light reaches
/// it through. Once the summed light exceeds the threshold, the cell is
/// revealed: its tile layers are taken from the world.
pub open spec fn light_step(
    c: VisibilityCell,
    light: Light,
    origin: Coord,
    s: Sighting,
    generation: u64,
    layers: TileLayers,
) -> VisibilityCell {
    if c.last_seen_next == generation && c.visible_directions & s.directions != 0 {
        let lit = add_spec(c.light_colour, contribution(light, origin, s.coord, s.visibility));
        if total_spec(lit) > REVEAL_THRESHOLD {
            VisibilityCell { light_colour: lit, last_seen: generation, last_lit: generation, tile_layers: layers, ..c }
        } else {
            VisibilityCell { light_colour: lit, ..c }
        }
    } else {
        c
    }
}

/// One light's pass over the cells its shadowcast reaches, in order.
pub open spec fn light_cast(
    cells: Seq<VisibilityCell>,
    world: WorldModel,
    origin: Coord,
    light: Light,
    seen: Seq<Sighting>,
    generation: u64,
) -> Seq<VisibilityCell>
    decreases seen.len(),
{
    if seen.len() == 0 {
        cells
    } else {
        let prev = light_cast(cells, world, origin, light, seen.drop_last(), generation);
        let s = seen.last();
        if world.size.contains(s.coord) {
            let i = world.size.index_of(s.coord);
            prev.update(i, light_step(prev[i], light, origin, s, generation, world.layers_at(s.coord)))
        } else {
            prev
        }
    }
}

/// A light takes part when it stands on the map and its diminish rate has a
/// nonzero denominator.
pub open spec fn light_usable(world: WorldModel, origin: Coord, light: Light) -> bool {
    world.size.contains(origin) && light.diminish.denominator > 0
}

/// Every light's pass, in the order the world lists them.
pub open spec fn lights_pass(
    cells: Seq<VisibilityCell>,
    world: WorldModel,
    lights: Seq<(Coord, Light)>,
    generation: u64,
) -> Seq<VisibilityCell>
    decreases lights.len(),
{
    if lights.len() == 0 {
        cells
    } else {
        let prev = lights_pass(cells, world, lights.drop_last(), generation);
        let (origin, light) = lights.last();
        if light_usable(world, origin, light) {
            light_cast(
                prev,
                world,
                origin,
                light,
                sightings_from(origin, light.vision_distance_squared, world.size, world.opacity),
                generation,
            )
        } else {
            prev
        }
    }
}

/// Omniscience shows every cell, lit in white, with a fresh snapshot.
pub open spec fn omniscient_cell(layers: TileLayers, generation: u64) -> VisibilityCell {
    VisibilityCell {
        last_seen: generation,
        last_seen_next: generation,
        last_lit: generation,
        visible_directions: ALL_DIRECTIONS,
        light_colour: Colour { r: 255, g: 255, b: 255 },
        tile_layers: layers,
    }
}

/// The cells the viewer's pass reaches.
pub open spec fn viewer_sightings(world: WorldModel, viewer: Coord) -> Seq<Sighting> {
    sightings_from(viewer, VISION_DISTANCE_SQUARED, world.size, world.opacity)
}

/// The grid after one lighting pass. Without omniscience, a viewer position
/// that is missing or off the map cannot be resolved: nothing happens, not even
/// a new generation.
pub open spec fn updated(g: GridModel, world: WorldModel, viewer: Option<Coord>, omniscient: bool) -> GridModel {
    let generation = (g.generation + 1) as u64;
    if omniscient {
        GridModel {
            generation,
            cells: Seq::new(g.cells.len(), |i: int| omniscient_cell(world.layers[i], generation)),
            ..g
        }
    } else {
        match viewer {
            Some(v) if g.size.contains(v) => GridModel {
                generation,
                cells: lights_pass(
                    ambient_pass(g.cells, g.size, viewer_sightings(world, v), generation),
                    world,
                    world.lights,
                    generation,
                ),
                ..g
            },
            _ => g,
        }
    }
}

#[verifier::external_type_specification]
#[verifier::external_body]
#[verifier::reject_recursive_types(T)]
pub struct ExGrid<T>(grid_2d::Grid<T>);

/// What a grid of visibility cells holds, in row-major order.
pub uninterp spec fn cells_of(g: grid_2d::Grid<VisibilityCell>) -> Seq<VisibilityCell>;

/// Relies on grid_2d::Grid::new_copy and grid_2d::coord_2d::UCoord::new: one
/// copy of `cell` per coordinate of the size. `UCoord::new` accepts sides up to
/// `i32::MAX`, and the cell count is computed in `u32`.
#[verifier::external_body]
fn grid_new(size: Size, cell: VisibilityCell) -> (g: grid_2d::Grid<VisibilityCell>)
    requires
        size.is_valid(),
    ensures
        cells_of(g).len() == size.count(),
        forall|i: int| 0 <= i < size.count() ==> cells_of(g)[i] == cell,
{
    let ucoord = grid_2d::coord_2d::UCoord::new(size.width, size.height);
    grid_2d::Grid::new_copy(ucoord, cell)
}

/// Relies on grid_2d::Grid::get_index_checked: the cell at a row-major index,
/// which must be below the cell count.
#[verifier::external_body]
fn grid_get(g: &grid_2d::Grid<VisibilityCell>, i: usize) -> (c: VisibilityCell)
    requires
        i < cells_of(*g).len(),
    ensures
        c == cells_of(*g)[i as int],
{
    *g.get_index_checked(i)
}

/// Relies on grid_2d::Grid::get_index_checked_mut: replaces the cell at a
/// row-major index, which must be below the cell count, and no other.
#[verifier::external_body]
fn grid_set(g: &mut grid_2d::Grid<VisibilityCell>, i: usize, c: VisibilityCell)
    requires
        i < cells_of(*old(g)).len(),
    ensures
        cells_of(*final(g)) == cells_of(*old(g)).update(i as int, c),
{
    *g.get_index_checked_mut(i) = c;
}

fn ambient_step_exec(c: VisibilityCell, s: Sighting, generation: u64) -> (r: VisibilityCell)
    ensures
        r == ambient_step(c, s, generation),
{
    VisibilityCell {
        last_seen: generation,
        last_seen_next: generation,
        visible_directions: s.directions,
        light_colour: Colour::new_grey(AMBIENT_LEVEL),
        ..c
    }
}

proof fn lemma_small_div(ch: int, d: int)
    requires
        0 <= ch <= 255,
        d > 255,
    ensures
        ch / d == 0,
{
    vstd::arithmetic::div_mod::lemma_basic_div(ch, d);
}

/// The light a source at `origin` adds at `at`.
pub fn light_contribution(light: Light, origin: Coord, at: Coord, visibility: u8) -> (c: Colour)
    requires
        light.diminish.denominator > 0,
    ensures
        c == contribution(light, origin, at, visibility),
{
    let dx: i64 = origin.x as i64 - at.x as i64;
    let dy: i64 = origin.y as i64 - at.y as i64;
    let bound: i128 = 0x1_0000_0000;
    assert((dx as int) * (dx as int) <= bound * bound) by (nonlinear_arith)
        requires -bound <= dx <= bound;
    assert((dy as int) * (dy as int) <= bound * bound) by (nonlinear_arith)
        requires -bound <= dy <= bound;
    assert(0 <= (dx as int) * (dx as int) && 0 <= (dy as int) * (dy as int)) by (nonlinear_arith);
    let d2: u128 = ((dx as i128) * (dx as i128) + (dy as i128) * (dy as i128)) as u128;
    assert(d2 as int == distance_squared(origin, at));
    let num = light.diminish.numerator as u128;
    assert(d2 * num <= 2 * bound * bound * 0x1_0000_0000) by (nonlinear_arith)
        requires d2 <= 2 * bound * bound, num < 0x1_0000_0000;
    let q: u128 = d2 * num / (light.diminish.denominator as u128);
    let divisor: u32 = if q > u32::MAX as u128 {
        u32::MAX
    } else if q == 0 {
        1
    } else {
        q as u32
    };
    let dimmed = light.colour.scalar_div(divisor);
    proof {
        let d = dimming(light, distance_squared(origin, at));
        assert(d == q || (q == 0 && d == 1));
        if q > u32::MAX as u128 {
            lemma_small_div(light.colour.r as int, d);
            lemma_small_div(light.colour.g as int, d);
            lemma_small_div(light.colour.b as int, d);
            lemma_small_div(light.colour.r as int, divisor as int);
            lemma_small_div(light.colour.g as int, divisor as int);
            lemma_small_div(light.colour.b as int, divisor as int);
        }
        assert(dimmed == div_spec(light.colour, d));
    }
    dimmed.normalised_scalar_mul(visibility)
}

fn light_step_exec(
    world: &World,
    c: VisibilityCell,
    light: Light,
    origin: Coord,
    s: Sighting,
    generation: u64,
) -> (r: VisibilityCell)
    requires
        world.wf(),
        light.diminish.denominator > 0,
    ensures
        r == light_step(c, light, origin, s, generation, world@.layers_at(s.coord)),
{
    if c.last_seen_next == generation && c.visible_directions & s.directions != 0 {
        let added = light_contribution(light, origin, s.coord, s.visibility);
        let lit = c.light_colour.saturating_add(added);
        if lit.saturating_channel_total() > REVEAL_THRESHOLD {
            VisibilityCell {
                light_colour: lit,
                last_seen: generation,
                last_lit: generation,
                tile_layers: world.layers_at(s.coord),
                ..c
            }
        } else {
            VisibilityCell { light_colour: lit, ..c }
        }
    } else {
        c
    }
}

pub proof fn lemma_ambient_pass_bounded(cells: Seq<VisibilityCell>, size: Size, seen: Seq<Sighting>, generation: u64)
    requires
        size.is_valid(),
        cells.len() == size.count(),
        forall|i: int| 0 <= i < cells.len() ==> cell_bounded(#[trigger] cells[i], generation),
    ensures
        ambient_pass(cells, size, seen, generation).len() == cells.len(),
        forall|i: int| 0 <= i < cells.len() ==> cell_bounded(#[trigger] ambient_pass(cells, size, seen, generation)[i], generation),
        forall|i: int| 0 <= i < cells.len() ==> #[trigger] ambient_pass(cells, size, seen, generation)[i].last_seen >= cells[i].last_seen,
    decreases seen.len(),
{
    if seen.len() > 0 {
        lemma_ambient_pass_bounded(cells, size, seen.drop_last(), generation);
        if size.contains(seen.last().coord) {
            lemma_index_in_range(size, seen.last().coord);
        }
    }
}

pub proof fn lemma_light_cast_bounded(
    cells: Seq<VisibilityCell>,
    world: WorldModel,
    origin: Coord,
    light: Light,
    seen: Seq<Sighting>,
    generation: u64,
)
    requires
        world.wf(),
        cells.len() == world.size.count(),
        forall|i: int| 0 <= i < cells.len() ==> cell_bounded(#[trigger] cells[i], generation),
    ensures
        light_cast(cells, world, origin, light, seen, generation).len() == cells.len(),
        forall|i: int| 0 <= i < cells.len() ==> cell_bounded(#[trigger] light_cast(cells, world, origin, light, seen, generation)[i], generation),
        forall|i: int| 0 <= i < cells.len() ==> #[trigger] light_cast(cells, world, origin, light, seen, generation)[i].last_seen >= cells[i].last_seen,
    decreases seen.len(),
{
    if seen.len() > 0 {
        lemma_light_cast_bounded(cells, world, origin, light, seen.drop_last(), generation);
        if world.size.contains(seen.last().coord) {
            lemma_index_in_range(world.size, seen.last().coord);
        }
    }
}

pub proof fn lemma_lights_pass_bounded(
    cells: Seq<VisibilityCell>,
    world: WorldModel,
    lights: Seq<(Coord, Light)>,
    generation: u64,
)
    requires
        world.wf(),
        cells.len() == world.size.count(),
        forall|i: int| 0 <= i < cells.len() ==> cell_bounded(#[trigger] cells[i], generation),
    ensures
        lights_pass(cells, world, lights, generation).len() == cells.len(),
        forall|i: int| 0 <= i < cells.len() ==> cell_bounded(#[trigger] lights_pass(cells, world, lights, generation)[i], generation),
        forall|i: int| 0 <= i < cells.len() ==> #[trigger] lights_pass(cells, world, lights, generation)[i].last_seen >= cells[i].last_seen,
    decreases lights.len(),
{
    if lights.len() > 0 {
        lemma_lights_pass_bounded(cells, world, lights.drop_last(), generation);
        let prev = lights_pass(cells, world, lights.drop_last(), generation);
        let (origin, light) = lights.last();
        let seen = sightings_from(origin, light.vision_distance_squared, world.size, world.opacity);
        lemma_light_cast_bounded(prev, world, origin, light, seen, generation);
    }
}

/// A grid for a map of the given size in which nothing has been seen.
pub open spec fn fresh_grid(size: Size) -> GridModel {
    GridModel { size, generation: 0, cells: Seq::new(size.count(), |i: int| unseen_cell()) }
}

/// The player's knowledge of every map cell, stamped with generation counters
/// so that a lighting pass touches only the cells it reaches.
pub struct VisibilityGrid {
    grid: grid_2d::Grid<VisibilityCell>,
    size: Size,
    count: u64,
}

impl View for VisibilityGrid {
    type V = GridModel;

    closed spec fn view(&self) -> GridModel {
        GridModel { size: self.size, generation: self.count, cells: cells_of(self.grid) }
    }
}

impl VisibilityGrid {
    /// A grid for a map of the given size in which nothing has been seen, at
    /// generation 0.
    pub fn new(size: Size) -> (g: VisibilityGrid)
        requires
            size.is_valid(),
        ensures
            g@.wf(),
            g@ == fresh_grid(size),
    {
        let g = VisibilityGrid { grid: grid_new(size, VisibilityCell::unseen()), size, count: 0 };
        proof {
            assert(g@.cells =~= fresh_grid(size).cells);
        }
        g
    }

    /// The current generation: the number of lighting passes run so far.
    pub fn count(&self) -> (n: u64)
        ensures
            n == self@.generation,
    {
        self.count
    }

    pub fn size(&self) -> (s: Size)
        ensures
            s == self@.size,
    {
        self.size
    }

    /// The cell at a coordinate, or `None` off the map.
    pub fn get_cell(&self, coord: Coord) -> (c: Option<VisibilityCell>)
        requires
            self@.wf(),
        ensures
            c == (if self@.size.contains(coord) {
                Some(self@.cells[self@.size.index_of(coord)])
            } else {
                None::<VisibilityCell>
            }),
    {
        match self.size.index(coord) {
            Some(i) => Some(grid_get(&self.grid, i)),
            None => None,
        }
    }

    /// Every cell with its coordinate, in row-major order.
    pub fn enumerate(&self) -> (r: Vec<(Coord, VisibilityCell)>)
        requires
            self@.wf(),
        ensures
            r@.len() == self@.cells.len(),
            forall|i: int| 0 <= i < r@.len() ==> #[trigger] r@[i] == (self@.size.coord_at(i), self@.cells[i]),
    {
        let n = (self.size.width * self.size.height) as usize;
        let mut r: Vec<(Coord, VisibilityCell)> = Vec::new();
        let mut i: usize = 0;
        while i < n
            invariant
                self@.wf(),
                n == self@.cells.len(),
                i <= n,
                r@.len() == i,
                forall|j: int| 0 <= j < i ==> #[trigger] r@[j] == (self@.size.coord_at(j), self@.cells[j]),
            decreases n - i,
        {
            let c = self.size.coord(i);
            r.push((c, grid_get(&self.grid, i)));
            i = i + 1;
        }
        r
    }

    /// How the cell at a coordinate appears now.
    pub fn cell_visibility(&self, coord: Coord) -> (v: CellVisibility)
        requires
            self@.wf(),
        ensures
            v == self@.classify(coord),
    {
        match self.size.index(coord) {
            Some(i) => grid_get(&self.grid, i).visibility(self.count),
            None => CellVisibility::NeverVisible,
        }
    }

    /// Runs one lighting pass for the next generation.
    ///
    /// With omniscience every cell is shown, lit in white, with a fresh snapshot
    /// of the world. Otherwise the viewer's shadowcast marks the cells in sight,
    /// then each light's shadowcast adds light to those of them that the viewer
    /// sees from a direction the light also reaches; a cell whose light exceeds
    /// the threshold is revealed and its snapshot refreshed. Without
    /// omniscience, a viewer position that is missing or off the map makes the
    /// pass do nothing, not even start a new generation.
    pub fn update(&mut self, player_coord: Option<Coord>, world: &World, omniscient: Option<Omniscient>)
        requires
            old(self)@.wf(),
            world.wf(),
            world@.size == old(self)@.size,
            old(self)@.generation < u64::MAX,
        ensures
            final(self)@.wf(),
            final(self)@ == updated(old(self)@, world@, player_coord, omniscient is Some),
    {
        let size = self.size;
        let ghost cells0 = cells_of(self.grid);
        if omniscient.is_some() {
            self.count = self.count + 1;
            let generation = self.count;
            let n = (size.width * size.height) as usize;
            let mut i: usize = 0;
            while i < n
                invariant
                    world.wf(),
                    world@.size == size,
                    size.is_valid(),
                    self.size == size,
                    self.count == generation,
                    n == size.count(),
                    i <= n,
                    cells_of(self.grid).len() == n,
                    forall|j: int| 0 <= j < i ==> #[trigger] cells_of(self.grid)[j] == omniscient_cell(world@.layers[j], generation),
                decreases n - i,
            {
                let c = size.coord(i);
                let layers = world.layers_at(c);
                let cell = VisibilityCell {
                    last_seen: generation,
                    last_seen_next: generation,
                    last_lit: generation,
                    visible_directions: ALL_DIRECTIONS,
                    light_colour: Colour::new_grey(255),
                    tile_layers: layers,
                };
                grid_set(&mut self.grid, i, cell);
                i = i + 1;
            }
            proof {
                assert(cells_of(self.grid) =~= Seq::new(cells0.len(), |j: int| omniscient_cell(world@.layers[j], generation)));
            }
        } else if player_coord.is_some() && size.is_valid_coord(player_coord.unwrap()) {
            let viewer = player_coord.unwrap();
            self.count = self.count + 1;
            proof {
                let generation = self.count;
                assert forall|j: int| 0 <= j < cells0.len() implies cell_bounded(#[trigger] cells0[j], generation) by {
                    assert(cell_bounded(cells0[j], (generation - 1) as u64));
                }
            }
            let seen = crate::sight::cast(world, viewer, VISION_DISTANCE_SQUARED);
            self.apply_viewer_sightings(&seen);
            let lights = world.all_lights_by_coord();
            let ghost cells1 = cells_of(self.grid);
            let mut k: usize = 0;
            while k < lights.len()
                invariant
                    world.wf(),
                    world@.size == size,
                    self@.wf(),
                    self.size == size,
                    self.count == old(self)@.generation + 1,
                    lights@ == world@.lights,
                    k <= lights@.len(),
                    cells1.len() == size.count(),
                    cells_of(self.grid) == lights_pass(cells1, world@, lights@.subrange(0, k as int), self.count),
                decreases lights@.len() - k,
            {
                let (origin, light) = lights[k];
                proof {
                    assert(lights@.subrange(0, k + 1).drop_last() =~= lights@.subrange(0, k as int));
                }
                if light.diminish.denominator > 0 && size.is_valid_coord(origin) {
                    let lit = crate::sight::cast(world, origin, light.vision_distance_squared);
                    self.apply_light_sightings(world, origin, light, &lit);
                }
                k = k + 1;
            }
            proof {
                assert(lights@.subrange(0, lights@.len() as int) =~= lights@);
            }
        }
    }

    /// The viewer's pass at the current generation, over the cells that the
    /// viewer's shadowcast reported.
    pub fn apply_viewer_sightings(&mut self, seen: &Vec<Sighting>)
        requires
            old(self)@.wf(),
        ensures
            final(self)@.wf(),
            final(self)@ == (GridModel {
                cells: ambient_pass(old(self)@.cells, old(self)@.size, seen@, old(self)@.generation),
                ..old(self)@
            }),
    {
        let size = self.size;
        let generation = self.count;
        let ghost cells0 = cells_of(self.grid);
        let mut i: usize = 0;
        while i < seen.len()
            invariant
                size.is_valid(),
                self.size == size,
                self.count == generation,
                cells0.len() == size.count(),
                forall|j: int| 0 <= j < cells0.len() ==> cell_bounded(#[trigger] cells0[j], generation),
                i <= seen@.len(),
                cells_of(self.grid).len() == size.count(),
                cells_of(self.grid) == ambient_pass(cells0, size, seen@.subrange(0, i as int), generation),
            decreases seen@.len() - i,
        {
            let s = seen[i];
            proof {
                assert(seen@.subrange(0, i + 1).drop_last() =~= seen@.subrange(0, i as int));
            }
            if let Some(idx) = size.index(s.coord) {
                let c = grid_get(&self.grid, idx);
                grid_set(&mut self.grid, idx, ambient_step_exec(c, s, generation));
            }
            i = i + 1;
        }
        proof {
            assert(seen@.subrange(0, seen@.len() as int) =~= seen@);
            lemma_ambient_pass_bounded(cells0, size, seen@, generation);
        }
    }

    /// One light's pass at the current generation, over the cells that its
    /// shadowcast reported.
    pub fn apply_light_sightings(&mut self, world: &World, origin: Coord, light: Light, seen: &Vec<Sighting>)
        requires
            old(self)@.wf(),
            world.wf(),
            world@.size == old(self)@.size,
            light.diminish.denominator > 0,
        ensures
            final(self)@.wf(),
            final(self)@ == (GridModel {
                cells: light_cast(old(self)@.cells, world@, origin, light, seen@, old(self)@.generation),
                ..old(self)@
            }),
    {
        let size = self.size;
        let generation = self.count;
        let ghost cells0 = cells_of(self.grid);
        let mut j: usize = 0;
        while j < seen.len()
            invariant
                world.wf(),
                world@.size == size,
                size.is_valid(),
                self.size == size,
                self.count == generation,
                light.diminish.denominator > 0,
                cells0.len() == size.count(),
                forall|i: int| 0 <= i < cells0.len() ==> cell_bounded(#[trigger] cells0[i], generation),
                j <= seen@.len(),
                cells_of(self.grid).len() == size.count(),
                cells_of(self.grid) == light_cast(cells0, world@, origin, light, seen@.subrange(0, j as int), generation),
            decreases seen@.len() - j,
        {
            let s = seen[j];
            proof {
                assert(seen@.subrange(0, j + 1).drop_last() =~= seen@.subrange(0, j as int));
            }
            if let Some(idx) = size.index(s.coord) {
                let c = grid_get(&self.grid, idx);
                let next = light_step_exec(world, c, light, origin, s, generation);
                grid_set(&mut self.grid, idx, next);
            }
            j = j + 1;
        }
        proof {
            assert(seen@.subrange(0, seen@.len() as int) =~= seen@);
            lemma_light_cast_bounded(cells0, world@, origin, light, seen@, generation);
        }
    }

    /// Whether the cell is in sight and revealed by light.
    pub fn is_coord_currently_visible(&self, coord: Coord) -> (b: bool)
        requires
            self@.wf(),
        ensures
            b == (self@.classify(coord) matches CellVisibility::CurrentlyVisibleWithLightColour(Some(_))),
    {
        match self.cell_visibility(coord) {
            CellVisibility::CurrentlyVisibleWithLightColour(Some(_)) => true,
            _ => false,
        }
    }

    /// Whether the cell has never been in sight.
    pub fn is_coord_never_visible(&self, coord: Coord) -> (b: bool)
        requires
            self@.wf(),
        ensures
            b == (self@.classify(coord) == CellVisibility::NeverVisible),
    {
        match self.cell_visibility(coord) {
            CellVisibility::NeverVisible => true,
            _ => false,
        }
    }
}

} // verus!
