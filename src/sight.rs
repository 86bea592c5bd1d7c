//! Recursive shadowcasting, as provided by the `shadowcast` crate, over the
//! opacity of a [`World`].
use vstd::prelude::*;
use crate::geometry::{Coord, Size};
use crate::visibility::Visibility;
use crate::world::World;

verus! {

/// A signed coordinate of `coord_2d`, whose public `x` and `y` fields are read.
#[verifier::external_type_specification]
pub struct ExICoord(grid_2d::coord_2d::ICoord);

/// A map size of `coord_2d`, carried through as an opaque value.
#[verifier::external_type_specification]
#[verifier::external_body]
pub struct ExUCoord(grid_2d::coord_2d::UCoord);

/// One cell reached by a shadowcast: the directions from which its edges were
/// seen (a bitmap of eight directions) and how much sight was left on reaching it.
#[derive(Clone, Copy, Debug, PartialEq, Eq, Structural)]
pub struct Sighting {
    pub coord: Coord,
    pub directions: u8,
    pub visibility: u8,
}

/// The cells that a shadowcast from `origin` reaches within the squared
/// distance, in the order in which it reports them, over a map of the given
/// size and row-major opacities.
pub uninterp spec fn sightings_from(origin: Coord, distance_squared: u32, size: Size, opacity: Seq<u8>) -> Seq<Sighting>;

/// Appends one reported cell to a list.
fn record(seen: &mut Vec<Sighting>, x: i32, y: i32, directions: u8, visibility: u8)
    ensures
        final(seen)@ == old(seen)@.push(Sighting { coord: Coord { x, y }, directions, visibility }),
{
    seen.push(Sighting { coord: Coord { x, y }, directions, visibility });
}

/// Relies on shadowcast::Context::for_each_visible, with full initial
/// visibility (255) and a circular range: the cells it reports depend on the
/// origin, the range, the map size and the opacities alone, which it reads
/// through [`Visibility`]. With the origin on a map whose sides are at most
/// [`MAX_SIDE`](crate::geometry::MAX_SIDE), its `i32` arithmetic stays in range.
#[verifier::external_body]
pub(crate) fn cast(world: &World, origin: Coord, distance_squared: u32) -> (seen: Vec<Sighting>)
    requires
        world.wf(),
        world@.size.contains(origin),
    ensures
        seen@ == sightings_from(origin, distance_squared, world@.size, world@.opacity),
{
    let mut seen = Vec::new();
    let mut context: shadowcast::Context<u8> = shadowcast::Context::default();
    let range = shadowcast::vision_distance::Circle::new_squared(distance_squared);
    let centre = grid_2d::coord_2d::ICoord::new(origin.x, origin.y);
    context.for_each_visible(centre, &Visibility, world, range, 255, |c, d, v| {
        record(&mut seen, c.x, c.y, d.raw, v)
    });
    seen
}

impl shadowcast::InputGrid for Visibility {
    type Grid = World;

    type Opacity = u8;

    /// Relies on grid_2d::coord_2d::UCoord::new, which accepts the sides of a
    /// world's size.
    #[verifier::external_body]
    fn size(&self, world: &World) -> grid_2d::coord_2d::UCoord {
        let s = world.size();
        grid_2d::coord_2d::UCoord::new(s.width, s.height)
    }

    /// Reads the opacity of the world at the coordinate that shadowcast asks for.
    fn get_opacity(&self, world: &World, coord: grid_2d::coord_2d::ICoord) -> u8 {
        world.opacity_for_shadowcast(Coord { x: coord.x, y: coord.y })
    }
}

} // verus!
