//! Grid cells and their isometric world positions.
use vstd::prelude::*;

verus! {

/// A cell of the tile grid.
#[derive(Clone, Copy, Debug, PartialEq, Eq, Hash)]
pub struct GridPos {
    pub x: i32,
    pub y: i32,
}

/// A point of the world with each coordinate stored doubled (in half
/// units), which keeps the isometric projection of a cell exact. `y` is the
/// height above the ground plane.
#[derive(Clone, Copy, Debug, PartialEq, Eq)]
pub struct WorldPos {
    pub x: i64,
    pub y: i64,
    pub z: i64,
}

/// A fractional grid position: `(x_num / den, y_num / den)`, with `den > 0`.
#[derive(Clone, Copy, Debug, PartialEq, Eq)]
pub struct GridFrac {
    pub x_num: i128,
    pub y_num: i128,
    pub den: i128,
}

/// Doubled world `x` of cell `(gx, gy)`: `(gx - gy) * tile_w / 2`, doubled.
pub open spec fn iso_x2(gx: int, gy: int, tile_w: int) -> int {
    (gx - gy) * tile_w
}

/// Doubled world `z` of cell `(gx, gy)`: `(gx + gy) * tile_h / 2`, doubled.
pub open spec fn iso_z2(gx: int, gy: int, tile_h: int) -> int {
    (gx + gy) * tile_h
}

/// Projects a grid cell onto the ground plane for tiles `tile_w` wide and
/// `tile_h` deep (world units; the result is in half units).
pub fn iso_world_from_grid(gx: i32, gy: i32, tile_w: i32, tile_h: i32) -> (r: WorldPos)
    requires
        tile_w > 0,
        tile_h > 0,
    ensures
        r.x == iso_x2(gx as int, gy as int, tile_w as int),
        r.y == 0,
        r.z == iso_z2(gx as int, gy as int, tile_h as int),
{
    let dx: i64 = gx as i64 - gy as i64;
    let sx: i64 = gx as i64 + gy as i64;
    assert(-0xFFFF_FFFF * 0x8000_0000 <= dx * tile_w <= 0xFFFF_FFFF * 0x8000_0000) by (nonlinear_arith)
        requires -0xFFFF_FFFF <= dx <= 0xFFFF_FFFF, -0x8000_0000 <= tile_w <= 0x8000_0000;
    assert(-0x1_0000_0000 * 0x7FFF_FFFF <= sx * tile_h <= 0x1_0000_0000 * 0x7FFF_FFFF) by (nonlinear_arith)
        requires -0x1_0000_0000 <= sx <= 0x1_0000_0000, 0 <= tile_h <= 0x7FFF_FFFF;
    WorldPos { x: dx * tile_w as i64, y: 0, z: sx * tile_h as i64 }
}

/// Inverse of the projection: the exact fractional cell under the world
/// point whose doubled ground coordinates are `(x2, z2)`.
pub fn grid_from_iso_world(x2: i64, z2: i64, tile_w: i32, tile_h: i32) -> (r: GridFrac)
    requires
        tile_w > 0,
        tile_h > 0,
    ensures
        r.den == 2 * tile_w * tile_h,
        r.x_num == x2 * tile_h + z2 * tile_w,
        r.y_num == z2 * tile_w - x2 * tile_h,
{
    let w: i128 = tile_w as i128;
    let h: i128 = tile_h as i128;
    let x: i128 = x2 as i128;
    let z: i128 = z2 as i128;
    assert(-0x8000_0000_0000_0000 * 0x8000_0000 <= x * h <= 0x8000_0000_0000_0000 * 0x8000_0000) by (nonlinear_arith)
        requires -0x8000_0000_0000_0000 <= x < 0x8000_0000_0000_0000, 0 <= h <= 0x8000_0000;
    assert(-0x8000_0000_0000_0000 * 0x8000_0000 <= z * w <= 0x8000_0000_0000_0000 * 0x8000_0000) by (nonlinear_arith)
        requires -0x8000_0000_0000_0000 <= z < 0x8000_0000_0000_0000, 0 <= w <= 0x8000_0000;
    assert(0 <= 2 * w * h <= 2 * 0x8000_0000 * 0x8000_0000) by (nonlinear_arith)
        requires 0 <= w <= 0x8000_0000, 0 <= h <= 0x8000_0000;
    GridFrac { x_num: x * h + z * w, y_num: z * w - x * h, den: 2 * w * h }
}

/// Projecting a cell and taking the projection back gives the cell exactly.
pub proof fn grid_world_round_trip(gx: int, gy: int, tile_w: int, tile_h: int)
    requires
        tile_w > 0,
        tile_h > 0,
    ensures
        ({
            let x2 = iso_x2(gx, gy, tile_w);
            let z2 = iso_z2(gx, gy, tile_h);
            let den = 2 * tile_w * tile_h;
            &&& x2 * tile_h + z2 * tile_w == gx * den
            &&& z2 * tile_w - x2 * tile_h == gy * den
        }),
{
    assert(((gx - gy) * tile_w) * tile_h + ((gx + gy) * tile_h) * tile_w == gx * (2 * tile_w * tile_h))
        by (nonlinear_arith);
    assert(((gx + gy) * tile_h) * tile_w - ((gx - gy) * tile_w) * tile_h == gy * (2 * tile_w * tile_h))
        by (nonlinear_arith);
}

} // verus!
