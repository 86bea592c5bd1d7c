use vstd::prelude::*;

verus! {

/// A cell position on the map. Coordinates may be negative or beyond the map;
/// such positions are simply outside every grid.
#[derive(Clone, Copy, Debug, PartialEq, Eq, Structural)]
pub struct Coord {
    pub x: i32,
    pub y: i32,
}

/// The dimensions of a rectangular map.
#[derive(Clone, Copy, Debug, PartialEq, Eq, Structural)]
pub struct Size {
    pub width: u32,
    pub height: u32,
}

/// The orientation of doors and windows.
#[derive(Clone, Copy, Debug, PartialEq, Eq, Structural)]
pub enum Axis {
    X,
    Y,
}

/// The largest side length that a map may have: shadowcasting squares offsets
/// and multiplies gradients within a side in `i32`, which this bound keeps from
/// overflowing.
pub const MAX_SIDE: u32 = 16384;

impl Coord {
    pub fn new(x: i32, y: i32) -> (r: Coord)
        ensures
            r.x == x,
            r.y == y,
    {
        Coord { x, y }
    }
}

impl Size {
    /// A size is usable for a map when neither side exceeds [`MAX_SIDE`]; the
    /// cell count then fits a 32-bit counter.
    pub open spec fn is_valid(self) -> bool {
        &&& self.width <= MAX_SIDE
        &&& self.height <= MAX_SIDE
        &&& self.width * self.height <= u32::MAX
    }

    pub open spec fn count(self) -> nat {
        (self.width * self.height) as nat
    }

    pub open spec fn contains(self, c: Coord) -> bool {
        0 <= c.x < self.width && 0 <= c.y < self.height
    }

    /// Row-major position of an in-bounds coordinate.
    pub open spec fn index_of(self, c: Coord) -> int {
        c.y * self.width + c.x
    }

    /// The coordinate at a row-major position.
    pub open spec fn coord_at(self, i: int) -> Coord {
        Coord { x: (i % (self.width as int)) as i32, y: (i / (self.width as int)) as i32 }
    }

    pub fn new(width: u32, height: u32) -> (r: Size)
        ensures
            r.width == width,
            r.height == height,
    {
        Size { width, height }
    }

    /// Whether a coordinate lies on the map.
    pub fn is_valid_coord(&self, c: Coord) -> (r: bool)
        ensures
            r == self.contains(c),
    {
        0 <= c.x && (c.x as i64) < (self.width as i64) && 0 <= c.y && (c.y as i64) < (self.height as i64)
    }

    /// The row-major index of a coordinate, or `None` when it lies off the map.
    pub fn index(&self, c: Coord) -> (r: Option<usize>)
        requires
            self.is_valid(),
        ensures
            r is Some <==> self.contains(c),
            r matches Some(i) ==> i as int == self.index_of(c) && i < self.count(),
    {
        if self.is_valid_coord(c) {
            proof {
                lemma_index_in_range(*self, c);
            }
            Some((c.y as u32 * self.width + c.x as u32) as usize)
        } else {
            None
        }
    }

    /// The coordinate at a row-major index.
    pub fn coord(&self, i: usize) -> (r: Coord)
        requires
            self.is_valid(),
            i < self.count(),
        ensures
            r == self.coord_at(i as int),
            self.contains(r),
            self.index_of(r) == i,
    {
        proof {
            lemma_coord_at(*self, i as int);
        }
        let w = self.width as usize;
        Coord { x: (i % w) as i32, y: (i / w) as i32 }
    }
}

pub proof fn lemma_index_in_range(s: Size, c: Coord)
    requires
        s.is_valid(),
        s.contains(c),
    ensures
        0 <= s.index_of(c) < s.count(),
        s.coord_at(s.index_of(c)) == c,
{
    let w = s.width as int;
    let h = s.height as int;
    let x = c.x as int;
    let y = c.y as int;
    assert(y * w + x < h * w) by (nonlinear_arith)
        requires 0 <= x < w, 0 <= y < h;
    assert(0 <= y * w) by (nonlinear_arith)
        requires 0 <= y, 0 <= w;
    assert((y * w + x) % w == x && (y * w + x) / w == y) by (nonlinear_arith)
        requires 0 <= x < w, 0 <= y;
}

pub proof fn lemma_coord_at(s: Size, i: int)
    requires
        s.is_valid(),
        0 <= i < s.count(),
    ensures
        s.contains(s.coord_at(i)),
        s.index_of(s.coord_at(i)) == i,
{
    let w = s.width as int;
    let h = s.height as int;
    assert(w > 0 && h > 0) by (nonlinear_arith)
        requires 0 <= i < w * h, 0 <= h, 0 <= w;
    assert(0 <= i % w < w && 0 <= i / w < h && (i / w) * w + i % w == i) by (nonlinear_arith)
        requires 0 <= i < w * h, w > 0, h > 0;
}

} // verus!
