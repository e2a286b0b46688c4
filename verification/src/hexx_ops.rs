//! The hexagonal-grid operations that the library takes from the `hexx` crate.
//!
//! Each function here converts [`TilePos`] and [`Direction`] to `hexx` values,
//! makes one `hexx` call and converts the result back. Their contracts restate
//! what the `hexx` source computes; they are trusted, not proved.

use crate::tile::{cubic_fits, fits_i32, Direction, TilePos};
use vstd::prelude::*;

verus! {

/// Hex (axial) coordinates within `radius` of `center`: `hexx::shapes::hexagon`
/// enumerates exactly these, once each.
pub open spec fn in_hexagon(p: TilePos, center: TilePos, radius: int) -> bool {
    p.spec_distance(center) <= radius
}

/// `hexx::shapes::hexagon(center, radius)` can be computed without overflow:
/// `hexx` computes the tile count `3 r (r + 1) + 1` in `u32` and every
/// coordinate `center ± radius` in `i32`.
pub open spec fn hexagon_fits(center: TilePos, radius: u32) -> bool {
    &&& 3 * radius * (radius + 1) + 1 <= u32::MAX
    &&& fits_i32(center.x - radius) && fits_i32(center.x + radius)
    &&& fits_i32(center.y - radius) && fits_i32(center.y + radius)
}

/// `Hex::distance_to` can be computed without overflow: the difference, its
/// cubic `z` and their absolute values all fit in `i32`.
pub open spec fn distance_fits(a: TilePos, b: TilePos) -> bool {
    let dx = a.x - b.x;
    let dy = a.y - b.y;
    &&& -i32::MAX <= dx <= i32::MAX
    &&& -i32::MAX <= dy <= i32::MAX
    &&& -i32::MAX <= dx + dy <= i32::MAX
}

/// Calls `hexx::Direction::clockwise`, which maps each direction to the next
/// one clockwise (`TopRight -> BottomRight`, `Top -> TopRight`, ...).
#[verifier::external_body]
pub fn direction_clockwise(d: Direction) -> (r: Direction)
    ensures
        r == d.spec_clockwise(),
{
    let h = hexx::Direction::ALL_DIRECTIONS[d.index() as usize].clockwise();
    Direction::from_index(h as u8)
}

/// Calls `hexx::Direction::counter_clockwise`, which maps each direction to the
/// next one counter-clockwise (`TopRight -> Top`, `Top -> TopLeft`, ...).
#[verifier::external_body]
pub fn direction_counter_clockwise(d: Direction) -> (r: Direction)
    ensures
        r == d.spec_counter_clockwise(),
{
    let h = hexx::Direction::ALL_DIRECTIONS[d.index() as usize].counter_clockwise();
    Direction::from_index(h as u8)
}

/// Calls `hexx::Hex::neighbor`, which adds the unit vector of `direction`
/// (`Hex::NEIGHBORS_COORDS`) to `p`.
#[verifier::external_body]
pub fn hex_neighbor(p: TilePos, direction: Direction) -> (r: TilePos)
    requires
        p.neighbor_fits(direction),
    ensures
        r == p.spec_neighbor(direction),
{
    let d = hexx::Direction::ALL_DIRECTIONS[direction.index() as usize];
    let h = hexx::Hex::new(p.x, p.y).neighbor(d);
    TilePos { x: h.x, y: h.y }
}

/// Calls `hexx::Hex::rotate_ccw`, which rotates `p` around the origin by
/// `m % 6` steps of 60 degrees counter-clockwise; one step maps cubic
/// `(x, y, z)` to `(-z, -x, -y)`.
#[verifier::external_body]
pub fn hex_rotate_ccw(p: TilePos, m: u32) -> (r: TilePos)
    requires
        p.cubic_fits(),
    ensures
        r == p.spec_rotate_ccw((m % 6) as nat),
{
    let h = hexx::Hex::new(p.x, p.y).rotate_ccw(m);
    TilePos { x: h.x, y: h.y }
}

/// Calls `hexx::Hex::distance_to`, which returns the hexagonal length
/// `max(|dx|, |dy|, |dx + dy|)` of `a - b`.
#[verifier::external_body]
pub fn hex_distance(a: TilePos, b: TilePos) -> (r: i32)
    requires
        distance_fits(a, b),
    ensures
        r == a.spec_distance(b),
{
    hexx::Hex::new(a.x, a.y).distance_to(hexx::Hex::new(b.x, b.y))
}

/// `s` lists its tiles by increasing `x`, and tiles of equal `x` by
/// increasing `y`.
pub open spec fn ordered_by_x_then_y(s: Seq<TilePos>) -> bool {
    forall|i: int, j: int|
        0 <= i < j < s.len() ==> (#[trigger] s[i]).x < (#[trigger] s[j]).x || (s[i].x == s[j].x
            && s[i].y < s[j].y)
}

/// Calls `hexx::shapes::hexagon`, which yields every hex within `radius` of
/// `center` exactly once: `3 r (r + 1) + 1` hexes, by increasing `x` and, for
/// equal `x`, by increasing `y` (`Hex::range` walks `x` from `-r` to `r`, and
/// `y` upwards within each column).
#[verifier::external_body]
pub fn hexagon(center: TilePos, radius: u32) -> (r: Vec<TilePos>)
    requires
        hexagon_fits(center, radius),
    ensures
        r@.no_duplicates(),
        ordered_by_x_then_y(r@),
        r@.len() == 3 * radius * (radius + 1) + 1,
        forall|p: TilePos| #[trigger] r@.contains(p) <==> in_hexagon(p, center, radius as int),
{
    hexx::shapes::hexagon(hexx::Hex::new(center.x, center.y), radius)
        .map(|h| TilePos { x: h.x, y: h.y })
        .collect()
}

/// Calls `hexx::Hex::ring`, which yields the hexes at exactly `range` steps
/// from `center`, each once: `6 * range` hexes, or `center` alone when
/// `range` is zero. The order of the ring (from the top-right corner,
/// counter-clockwise) is left unsaid.
#[verifier::external_body]
pub fn hex_ring(center: TilePos, range: u32) -> (r: Vec<TilePos>)
    requires
        hexagon_fits(center, range),
    ensures
        r@.no_duplicates(),
        r@.len() == (if range == 0 {
            1
        } else {
            6 * range
        }),
        forall|i: int| 0 <= i < r@.len() ==> (#[trigger] r@[i]).spec_distance(center) == range,
{
    hexx::Hex::new(center.x, center.y).ring(range).map(|h| TilePos { x: h.x, y: h.y }).collect()
}

} // verus!
