//! Canvas geometry: coordinate bounds, the zoom rescale arithmetic, and the
//! five-point collision probe used to accept or reject a drop.
//!
//! Coordinates are integers in canvas units. Every coordinate the registry
//! stores lies in `[-COORD_MAX, COORD_MAX]`; values computed outside that
//! range are clamped at the moment they are stored. `COORD_MAX` is far
//! beyond any canvas a window can show, so the clamp never engages in
//! practice; it only keeps every arithmetic step inside `i64`. Negative
//! coordinates are kept, since a cell dragged past the canvas's left or top
//! edge is persisted and restored exactly where it was left.

use vstd::prelude::*;

verus! {

/// Largest coordinate magnitude the registry stores, in canvas units.
pub const COORD_MAX: i64 = 0x2000_0000_0000;

/// Largest width or height of a cell, in canvas units.
pub const DIM_MAX: i64 = 1_000_000;

/// Largest zoom percentage the transform accepts (100 = unscaled).
pub const ZOOM_MAX: i64 = 100_000;

/// Largest desktop width shelf packing accepts.
pub const WIDTH_MAX: i64 = 1_000_000_000;

/// Largest number of cells one folder view holds.
pub const CELLS_MAX: usize = 1_000_000;

/// `c` forced into the storable coordinate range `[-COORD_MAX, COORD_MAX]`.
pub open spec fn clamp_coord(c: int) -> int {
    if c < -(COORD_MAX as int) {
        -(COORD_MAX as int)
    } else if c > COORD_MAX as int {
        COORD_MAX as int
    } else {
        c
    }
}

/// `c` rescaled by `z` percent, rounded to the nearest unit away from
/// zero on ties, clamped; a negative coordinate rescales by magnitude.
pub open spec fn scale_coord(c: int, z: int) -> int {
    if c >= 0 {
        clamp_coord((c * z + 50) / 100)
    } else {
        clamp_coord(-(((-c) * z + 50) / 100))
    }
}

/// The inverse rescale: the unzoomed unit nearest to `c / (z/100)`,
/// clamped; a negative coordinate rescales by magnitude.
pub open spec fn unscale_coord(c: int, z: int) -> int
    recommends
        z >= 1,
{
    if c >= 0 {
        clamp_coord((c * 100 + z / 2) / z)
    } else {
        clamp_coord(-(((-c) * 100 + z / 2) / z))
    }
}

/// `c` forced into `[-COORD_MAX, COORD_MAX]`.
pub fn clamp_coord_exec(c: i64) -> (r: i64)
    ensures
        r == clamp_coord(c as int),
{
    if c < -COORD_MAX {
        -COORD_MAX
    } else if c > COORD_MAX {
        COORD_MAX
    } else {
        c
    }
}

/// `c` rescaled by `z` percent, rounded to the nearest unit, clamped.
pub fn scale_coord_exec(c: i64, z: i64) -> (r: i64)
    requires
        -COORD_MAX <= c <= COORD_MAX,
        1 <= z <= ZOOM_MAX,
    ensures
        r == scale_coord(c as int, z as int),
{
    let m: i64 = if c >= 0 {
        c
    } else {
        -c
    };
    proof {
        assert(m * z <= COORD_MAX * ZOOM_MAX) by (nonlinear_arith)
            requires
                0 <= m <= COORD_MAX,
                1 <= z <= ZOOM_MAX,
        ;
        assert(m * z >= 0) by (nonlinear_arith)
            requires
                0 <= m,
                1 <= z,
        ;
    }
    let scaled = (m * z + 50) / 100;
    if c >= 0 {
        clamp_coord_exec(scaled)
    } else {
        clamp_coord_exec(-scaled)
    }
}

/// The inverse rescale of `c` by `z` percent, rounded, clamped.
pub fn unscale_coord_exec(c: i64, z: i64) -> (r: i64)
    requires
        -COORD_MAX <= c <= COORD_MAX,
        1 <= z <= ZOOM_MAX,
    ensures
        r == unscale_coord(c as int, z as int),
{
    let m: i64 = if c >= 0 {
        c
    } else {
        -c
    };
    proof {
        assert(m * 100 <= COORD_MAX * 100) by (nonlinear_arith)
            requires
                0 <= m <= COORD_MAX,
        ;
        assert(m * 100 >= 0) by (nonlinear_arith)
            requires
                0 <= m,
        ;
        assert((m as int * 100 + z as int / 2) / (z as int) >= 0);
    }
    let unscaled = (m * 100 + z / 2) / z;
    if c >= 0 {
        clamp_coord_exec(unscaled)
    } else {
        clamp_coord_exec(-unscaled)
    }
}

/// Geometry of one cell: its live canvas position `pos`, the unzoomed
/// baseline position `base` that a zoom session rescales from, and the
/// rendered width and height.
#[derive(Clone, Copy, PartialEq, Eq, Structural, Debug)]
pub struct Geom {
    pub pos_x: i64,
    pub pos_y: i64,
    pub base_x: i64,
    pub base_y: i64,
    pub w: i64,
    pub h: i64,
}

impl Geom {
    /// Coordinates stored and dimensions within their bounds.
    pub open spec fn wf(self) -> bool {
        &&& -COORD_MAX <= self.pos_x <= COORD_MAX
        &&& -COORD_MAX <= self.pos_y <= COORD_MAX
        &&& -COORD_MAX <= self.base_x <= COORD_MAX
        &&& -COORD_MAX <= self.base_y <= COORD_MAX
        &&& 0 <= self.w <= DIM_MAX
        &&& 0 <= self.h <= DIM_MAX
    }
}

/// Whether the cell drawn with geometry `g` covers the canvas point
/// `(px, py)`; edges count as covered.
pub open spec fn occupies(g: Geom, px: int, py: int) -> bool {
    &&& g.pos_x <= px <= g.pos_x + g.w
    &&& g.pos_y <= py <= g.pos_y + g.h
}

/// The five probe points of the rectangle at `(x, y)` with size `(w, h)`:
/// its four corners and its center.
pub open spec fn probe_points(x: int, y: int, w: int, h: int) -> Seq<(int, int)> {
    seq![
        (x, y),
        (x + w, y),
        (x, y + h),
        (x + w, y + h),
        (x + w / 2, y + h / 2),
    ]
}

/// Index of the topmost cell covering `(px, py)`, scanning from `i`;
/// earlier registry entries stand for higher stacking order.
pub open spec fn first_hit_from(geoms: Seq<Geom>, px: int, py: int, i: int) -> Option<int>
    decreases geoms.len() - i,
{
    if i < 0 || i >= geoms.len() {
        None
    } else if occupies(geoms[i], px, py) {
        Some(i)
    } else {
        first_hit_from(geoms, px, py, i + 1)
    }
}

/// Index of the topmost cell covering `(px, py)`, if any.
pub open spec fn first_hit(geoms: Seq<Geom>, px: int, py: int) -> Option<int> {
    first_hit_from(geoms, px, py, 0)
}

/// When the scan finds no hit, no cell covers the point.
pub proof fn lemma_no_hit_unoccupied(geoms: Seq<Geom>, px: int, py: int, i: int)
    requires
        0 <= i <= geoms.len(),
        first_hit_from(geoms, px, py, i) is None,
    ensures
        forall|k: int| i <= k < geoms.len() ==> !occupies(geoms[k], px, py),
    decreases geoms.len() - i,
{
    if i < geoms.len() {
        lemma_no_hit_unoccupied(geoms, px, py, i + 1);
    }
}

/// The collision verdict reached from probe point `k` on: a point whose
/// topmost covering cell is another item than the dragged one is a
/// collision; a hit on the dragged item itself is ignored and the scan
/// continues, as is a point that resolves to nothing; a scan with no such
/// decisive point means no collision.
pub open spec fn collides_from(
    names: Seq<Seq<char>>,
    geoms: Seq<Geom>,
    name: Seq<char>,
    pts: Seq<(int, int)>,
    k: int,
) -> bool
    decreases pts.len() - k,
{
    if k < 0 || k >= pts.len() {
        false
    } else {
        match first_hit(geoms, pts[k].0, pts[k].1) {
            Some(i) => if names[i] == name {
                collides_from(names, geoms, name, pts, k + 1)
            } else {
                true
            },
            None => collides_from(names, geoms, name, pts, k + 1),
        }
    }
}

/// Whether dropping the item called `name` onto the rectangle at `(x, y)`
/// with size `(w, h)` collides with another rendered cell, by the five-point
/// probe: a collision exactly when some probe point's topmost cell is an
/// item other than `name`. The five-point sampling is a deliberate
/// approximation: it can miss overlap with a long thin cell that threads
/// between the probe points.
pub open spec fn spec_collides(
    names: Seq<Seq<char>>,
    geoms: Seq<Geom>,
    name: Seq<char>,
    x: int,
    y: int,
    w: int,
    h: int,
) -> bool {
    collides_from(names, geoms, name, probe_points(x, y, w, h), 0)
}

} // verus!
