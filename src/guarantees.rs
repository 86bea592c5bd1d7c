//! What every lighting pass guarantees, proved over the model of
//! [`VisibilityGrid::update`](crate::visibility::VisibilityGrid::update).
use vstd::prelude::*;
use crate::colour::Colour;
use crate::geometry::{lemma_index_in_range, Coord, Size};
use crate::sight::{sightings_from, Sighting};
use crate::visibility::{
    ambient_pass, cell_bounded, lemma_ambient_pass_bounded, lemma_lights_pass_bounded, light_cast, lights_pass,
    updated, viewer_sightings, CellVisibility, GridModel, VisibilityCell,
};
use crate::world::{Light, WorldModel};

verus! {

/// Whether a shadowcast reported the coordinate.
pub open spec fn reaches(seen: Seq<Sighting>, c: Coord) -> bool {
    exists|j: int| 0 <= j < seen.len() && (#[trigger] seen[j]).coord == c
}

proof fn lemma_same_index(size: Size, a: Coord, b: Coord)
    requires
        size.is_valid(),
        size.contains(a),
        size.contains(b),
        size.index_of(a) == size.index_of(b),
    ensures
        a == b,
{
    lemma_index_in_range(size, a);
    lemma_index_in_range(size, b);
}

/// The viewer's pass leaves the snapshot and the lit stamp of every cell alone,
/// marks each reached cell as in sight, and leaves unreached cells untouched.
proof fn lemma_ambient_cell(cells: Seq<VisibilityCell>, size: Size, seen: Seq<Sighting>, generation: u64, c: Coord)
    requires
        size.is_valid(),
        size.contains(c),
        cells.len() == size.count(),
    ensures
        ({
            let i = size.index_of(c);
            let r = ambient_pass(cells, size, seen, generation)[i];
            &&& r.tile_layers == cells[i].tile_layers
            &&& r.last_lit == cells[i].last_lit
            &&& reaches(seen, c) ==> r.last_seen == generation && r.last_seen_next == generation
            &&& !reaches(seen, c) ==> r == cells[i]
        }),
    decreases seen.len(),
{
    lemma_index_in_range(size, c);
    lemma_ambient_pass_len(cells, size, seen, generation);
    if seen.len() > 0 {
        let i = size.index_of(c);
        let prefix = seen.drop_last();
        lemma_ambient_cell(cells, size, prefix, generation, c);
        lemma_ambient_pass_len(cells, size, prefix, generation);
        let s = seen.last();
        assert(reaches(seen, c) == (reaches(prefix, c) || s.coord == c)) by {
            if reaches(prefix, c) {
                let j = choose|j: int| 0 <= j < prefix.len() && (#[trigger] prefix[j]).coord == c;
                assert(seen[j] == prefix[j]);
            }
            if s.coord == c {
                assert(seen[seen.len() - 1] == s);
            }
            if reaches(seen, c) {
                let j = choose|j: int| 0 <= j < seen.len() && (#[trigger] seen[j]).coord == c;
                if j < prefix.len() {
                    assert(prefix[j] == seen[j]);
                }
            }
        }
        if size.contains(s.coord) {
            lemma_index_in_range(size, s.coord);
            if size.index_of(s.coord) == i {
                lemma_same_index(size, s.coord, c);
            }
        } else {
            assert(s.coord != c);
        }
    }
}

proof fn lemma_ambient_pass_len(cells: Seq<VisibilityCell>, size: Size, seen: Seq<Sighting>, generation: u64)
    requires
        size.is_valid(),
        cells.len() == size.count(),
    ensures
        ambient_pass(cells, size, seen, generation).len() == cells.len(),
    decreases seen.len(),
{
    if seen.len() > 0 {
        lemma_ambient_pass_len(cells, size, seen.drop_last(), generation);
        if size.contains(seen.last().coord) {
            lemma_index_in_range(size, seen.last().coord);
        }
    }
}

proof fn lemma_light_cast_len(
    cells: Seq<VisibilityCell>,
    world: WorldModel,
    origin: Coord,
    light: Light,
    seen: Seq<Sighting>,
    generation: u64,
)
    requires
        world.wf(),
        cells.len() == world.size.count(),
    ensures
        light_cast(cells, world, origin, light, seen, generation).len() == cells.len(),
    decreases seen.len(),
{
    if seen.len() > 0 {
        lemma_light_cast_len(cells, world, origin, light, seen.drop_last(), generation);
        if world.size.contains(seen.last().coord) {
            lemma_index_in_range(world.size, seen.last().coord);
        }
    }
}

/// The property of a cell that a light pass keeps: still in sight, and either
/// revealed in this generation or with its snapshot and lit stamp as before.
pub open spec fn kept_or_revealed(r: VisibilityCell, c: VisibilityCell, generation: u64) -> bool {
    &&& r.last_seen == generation
    &&& (r.last_lit == generation || (r.tile_layers == c.tile_layers && r.last_lit == c.last_lit))
}

proof fn lemma_light_cast_cell(
    cells: Seq<VisibilityCell>,
    world: WorldModel,
    origin: Coord,
    light: Light,
    seen: Seq<Sighting>,
    generation: u64,
    i: int,
)
    requires
        world.wf(),
        cells.len() == world.size.count(),
        0 <= i < cells.len(),
    ensures
        cells[i].last_seen_next != generation ==> light_cast(cells, world, origin, light, seen, generation)[i] == cells[i],
        cells[i].last_seen == generation ==> kept_or_revealed(light_cast(cells, world, origin, light, seen, generation)[i], cells[i], generation),
        light_cast(cells, world, origin, light, seen, generation)[i].last_seen_next == cells[i].last_seen_next,
    decreases seen.len(),
{
    lemma_light_cast_len(cells, world, origin, light, seen, generation);
    if seen.len() > 0 {
        lemma_light_cast_cell(cells, world, origin, light, seen.drop_last(), generation, i);
        lemma_light_cast_len(cells, world, origin, light, seen.drop_last(), generation);
        let s = seen.last();
        if world.size.contains(s.coord) {
            lemma_index_in_range(world.size, s.coord);
        }
    }
}

proof fn lemma_lights_pass_cell(
    cells: Seq<VisibilityCell>,
    world: WorldModel,
    lights: Seq<(Coord, Light)>,
    generation: u64,
    i: int,
)
    requires
        world.wf(),
        cells.len() == world.size.count(),
        0 <= i < cells.len(),
    ensures
        lights_pass(cells, world, lights, generation).len() == cells.len(),
        cells[i].last_seen_next != generation ==> lights_pass(cells, world, lights, generation)[i] == cells[i],
        cells[i].last_seen == generation ==> kept_or_revealed(lights_pass(cells, world, lights, generation)[i], cells[i], generation),
    decreases lights.len(),
{
    if lights.len() > 0 {
        let prefix = lights.drop_last();
        lemma_lights_pass_cell(cells, world, prefix, generation, i);
        let prev = lights_pass(cells, world, prefix, generation);
        let (origin, light) = lights.last();
        let seen = sightings_from(origin, light.vision_distance_squared, world.size, world.opacity);
        lemma_light_cast_cell(prev, world, origin, light, seen, generation, i);
        lemma_light_cast_len(prev, world, origin, light, seen, generation);
        if cells[i].last_seen == generation {
            let p = prev[i];
            if p.last_lit != generation {
                assert(p.tile_layers == cells[i].tile_layers && p.last_lit == cells[i].last_lit);
            }
        }
    }
}

/// A pass advances the generation by one, unless it had neither a viewer nor
/// omniscience; no cell's `last_seen` goes back, and none passes the new
/// generation.
pub proof fn lemma_generation_monotone(g: GridModel, world: WorldModel, viewer: Option<Coord>, omniscient: bool)
    requires
        g.wf(),
        world.wf(),
        world.size == g.size,
        g.generation < u64::MAX,
    ensures
        ({
            let n = updated(g, world, viewer, omniscient);
            &&& n.wf()
            &&& n.size == g.size
            &&& n.generation == g.generation + (if omniscient || (viewer matches Some(v) && g.size.contains(v)) { 1int } else { 0int })
            &&& forall|i: int| 0 <= i < n.cells.len() ==> #[trigger] n.cells[i].last_seen >= g.cells[i].last_seen
            &&& forall|i: int| 0 <= i < n.cells.len() ==> #[trigger] n.cells[i].last_seen <= n.generation
        }),
{
    let generation = (g.generation + 1) as u64;
    assert forall|j: int| 0 <= j < g.cells.len() implies cell_bounded(#[trigger] g.cells[j], generation) by {
        assert(cell_bounded(g.cells[j], g.generation));
    }
    if !omniscient {
        if viewer is Some && g.size.contains(viewer.unwrap()) {
            let v = viewer.unwrap();
            let seen = viewer_sightings(world, v);
            lemma_ambient_pass_bounded(g.cells, g.size, seen, generation);
            let cells1 = ambient_pass(g.cells, g.size, seen, generation);
            lemma_lights_pass_bounded(cells1, world, world.lights, generation);
        }
    }
}

/// Every coordinate is in exactly one of three states: never visible when its
/// cell was never in sight, currently visible when its cell was stamped with
/// the current generation, and previously visible otherwise.
pub proof fn lemma_three_states(g: GridModel, c: Coord)
    requires
        g.wf(),
    ensures
        !g.size.contains(c) ==> g.classify(c) == CellVisibility::NeverVisible,
        g.size.contains(c) ==> ({
            let cell = g.cells[g.size.index_of(c)];
            &&& cell.last_seen == 0 ==> g.classify(c) == CellVisibility::NeverVisible
            &&& (g.classify(c) is CurrentlyVisibleWithLightColour) <==> (cell.last_seen != 0 && cell.last_seen == g.generation)
            &&& (g.classify(c) is PreviouslyVisible) <==> (0 < cell.last_seen < g.generation)
        }),
{
    if g.size.contains(c) {
        lemma_index_in_range(g.size, c);
        assert(cell_bounded(g.cells[g.size.index_of(c)], g.generation));
    }
}

/// A cell that the viewer's shadowcast does not reach is left exactly as it
/// was, whatever light falls on it: no light shines where the viewer cannot see.
pub proof fn lemma_unseen_cells_untouched(g: GridModel, world: WorldModel, viewer: Coord, c: Coord)
    requires
        g.wf(),
        world.wf(),
        world.size == g.size,
        g.generation < u64::MAX,
        g.size.contains(c),
        !reaches(viewer_sightings(world, viewer), c),
    ensures
        updated(g, world, Some(viewer), false).cells[g.size.index_of(c)] == g.cells[g.size.index_of(c)],
{
    let generation = (g.generation + 1) as u64;
    let i = g.size.index_of(c);
    lemma_index_in_range(g.size, c);
    if g.size.contains(viewer) {
        let seen = viewer_sightings(world, viewer);
        lemma_ambient_cell(g.cells, g.size, seen, generation, c);
        lemma_ambient_pass_len(g.cells, g.size, seen, generation);
        let cells1 = ambient_pass(g.cells, g.size, seen, generation);
        assert(cell_bounded(g.cells[i], g.generation));
        lemma_lights_pass_cell(cells1, world, world.lights, generation, i);
    }
}

/// A cell in sight that drops out of the viewer's shadowcast becomes previously
/// visible and keeps the snapshot it had.
pub proof fn lemma_memory_persists(g: GridModel, world: WorldModel, viewer: Coord, c: Coord)
    requires
        g.wf(),
        world.wf(),
        world.size == g.size,
        g.generation < u64::MAX,
        g.size.contains(c),
        g.size.contains(viewer),
        g.classify(c) is CurrentlyVisibleWithLightColour,
        !reaches(viewer_sightings(world, viewer), c),
    ensures
        updated(g, world, Some(viewer), false).classify(c) == CellVisibility::PreviouslyVisible,
        updated(g, world, Some(viewer), false).cells[g.size.index_of(c)].tile_layers
            == g.cells[g.size.index_of(c)].tile_layers,
{
    lemma_unseen_cells_untouched(g, world, viewer, c);
}

/// Every cell the viewer's shadowcast reaches is in sight after the pass; unless
/// light revealed it in this generation, it shows no light colour and keeps the
/// snapshot it had.
pub proof fn lemma_darkness_hides_detail(g: GridModel, world: WorldModel, viewer: Coord, c: Coord)
    requires
        g.wf(),
        world.wf(),
        world.size == g.size,
        g.generation < u64::MAX,
        g.size.contains(c),
        g.size.contains(viewer),
        reaches(viewer_sightings(world, viewer), c),
    ensures
        ({
            let n = updated(g, world, Some(viewer), false);
            let i = g.size.index_of(c);
            &&& n.classify(c) is CurrentlyVisibleWithLightColour
            &&& n.cells[i].last_lit == n.generation || (
                n.classify(c) == CellVisibility::CurrentlyVisibleWithLightColour(None)
                && n.cells[i].tile_layers == g.cells[i].tile_layers)
        }),
{
    let generation = (g.generation + 1) as u64;
    let i = g.size.index_of(c);
    lemma_index_in_range(g.size, c);
    let seen = viewer_sightings(world, viewer);
    lemma_ambient_cell(g.cells, g.size, seen, generation, c);
    lemma_ambient_pass_len(g.cells, g.size, seen, generation);
    let cells1 = ambient_pass(g.cells, g.size, seen, generation);
    assert(cell_bounded(g.cells[i], g.generation));
    lemma_lights_pass_cell(cells1, world, world.lights, generation, i);
}

/// With omniscience every coordinate of the map is currently visible and lit in
/// white, whatever blocks sight.
pub proof fn lemma_omniscience_total(g: GridModel, world: WorldModel, viewer: Option<Coord>, c: Coord)
    requires
        g.wf(),
        world.wf(),
        world.size == g.size,
        g.generation < u64::MAX,
        g.size.contains(c),
    ensures
        updated(g, world, viewer, true).classify(c)
            == CellVisibility::CurrentlyVisibleWithLightColour(Some(Colour { r: 255, g: 255, b: 255 })),
{
    lemma_index_in_range(g.size, c);
}

} // verus!
