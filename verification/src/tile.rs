//! Hex-based tile coordinates and the six edge directions between tiles.
//!
//! Coordinates are axial (`x`, `y`); the implicit cubic coordinate is
//! `z = -x - y`.

use vstd::prelude::*;

verus! {

/// Does `v` fit in an `i32`?
pub open spec fn fits_i32(v: int) -> bool {
    i32::MIN <= v <= i32::MAX
}

/// All three cubic coordinates of `(x, y)` are `i32` values whose negation is
/// also an `i32`: rotations and negations of such a hex never overflow.
pub open spec fn cubic_fits(x: int, y: int) -> bool {
    &&& -i32::MAX <= x <= i32::MAX
    &&& -i32::MAX <= y <= i32::MAX
    &&& -i32::MAX <= x + y <= i32::MAX
}

/// The absolute value of an integer.
pub open spec fn abs_int(v: int) -> int {
    if v < 0 {
        -v
    } else {
        v
    }
}

/// The hexagonal length of the axial vector `(x, y)`: the number of steps
/// from the origin, `max(|x|, |y|, |x + y|)`.
pub open spec fn hex_length(x: int, y: int) -> int {
    let a = abs_int(x);
    let b = abs_int(y);
    let c = abs_int(x + y);
    if a >= b && a >= c {
        a
    } else if b >= a && b >= c {
        b
    } else {
        c
    }
}

/// A hex-based coordinate, that represents exactly one tile.
#[derive(Debug, Clone, Copy, PartialEq, Eq, Hash, Default, Structural)]
pub struct TilePos {
    /// The axial `x` coordinate.
    pub x: i32,
    /// The axial `y` coordinate.
    pub y: i32,
}

/// The six directions from a tile to its neighbours, in counter-clockwise
/// order starting from the top-right edge (flat-topped layout).
#[derive(Debug, Clone, Copy, PartialEq, Eq, Hash, Structural)]
pub enum Direction {
    /// Towards `(1, -1)`.
    TopRight,
    /// Towards `(0, -1)`.
    Top,
    /// Towards `(-1, 0)`.
    TopLeft,
    /// Towards `(-1, 1)`.
    BottomLeft,
    /// Towards `(0, 1)`.
    Bottom,
    /// Towards `(1, 0)`.
    BottomRight,
}

impl Direction {
    /// The position of this direction in the counter-clockwise order.
    pub open spec fn spec_index(self) -> nat {
        match self {
            Direction::TopRight => 0,
            Direction::Top => 1,
            Direction::TopLeft => 2,
            Direction::BottomLeft => 3,
            Direction::Bottom => 4,
            Direction::BottomRight => 5,
        }
    }

    /// The direction at position `i` (taken modulo 6) of the counter-clockwise order.
    pub open spec fn spec_from_index(i: int) -> Direction {
        let j = i % 6;
        if j == 0 {
            Direction::TopRight
        } else if j == 1 {
            Direction::Top
        } else if j == 2 {
            Direction::TopLeft
        } else if j == 3 {
            Direction::BottomLeft
        } else if j == 4 {
            Direction::Bottom
        } else {
            Direction::BottomRight
        }
    }

    /// The next direction clockwise (60 degrees).
    pub open spec fn spec_clockwise(self) -> Direction {
        Direction::spec_from_index(self.spec_index() as int + 5)
    }

    /// The next direction counter-clockwise (60 degrees).
    pub open spec fn spec_counter_clockwise(self) -> Direction {
        Direction::spec_from_index(self.spec_index() as int + 1)
    }

    /// The axial `x` step of this direction.
    pub open spec fn dx(self) -> int {
        match self {
            Direction::TopRight => 1,
            Direction::Top => 0,
            Direction::TopLeft => -1,
            Direction::BottomLeft => -1,
            Direction::Bottom => 0,
            Direction::BottomRight => 1,
        }
    }

    /// The axial `y` step of this direction.
    pub open spec fn dy(self) -> int {
        match self {
            Direction::TopRight => -1,
            Direction::Top => -1,
            Direction::TopLeft => 0,
            Direction::BottomLeft => 1,
            Direction::Bottom => 1,
            Direction::BottomRight => 0,
        }
    }

    /// The position of this direction in the counter-clockwise order.
    pub fn index(&self) -> (i: u8)
        ensures
            i == self.spec_index(),
    {
        match self {
            Direction::TopRight => 0,
            Direction::Top => 1,
            Direction::TopLeft => 2,
            Direction::BottomLeft => 3,
            Direction::Bottom => 4,
            Direction::BottomRight => 5,
        }
    }

    /// The direction at position `i` of the counter-clockwise order.
    pub fn from_index(i: u8) -> (d: Direction)
        requires
            i < 6,
        ensures
            d == Direction::spec_from_index(i as int),
            d.spec_index() == i,
    {
        if i == 0 {
            Direction::TopRight
        } else if i == 1 {
            Direction::Top
        } else if i == 2 {
            Direction::TopLeft
        } else if i == 3 {
            Direction::BottomLeft
        } else if i == 4 {
            Direction::Bottom
        } else {
            Direction::BottomRight
        }
    }

    /// All six directions, in counter-clockwise order starting from `TopRight`.
    pub fn all_directions() -> (v: Vec<Direction>)
        ensures
            v@.len() == 6,
            forall|i: int| 0 <= i < 6 ==> #[trigger] v@[i] == Direction::spec_from_index(i),
    {
        vec![
            Direction::TopRight,
            Direction::Top,
            Direction::TopLeft,
            Direction::BottomLeft,
            Direction::Bottom,
            Direction::BottomRight,
        ]
    }
}

impl TilePos {
    /// The position of the central tile.
    pub open spec fn spec_zero() -> TilePos {
        TilePos { x: 0, y: 0 }
    }

    /// The position of the central tile.
    pub fn zero() -> (p: TilePos)
        ensures
            p == TilePos::spec_zero(),
    {
        TilePos { x: 0, y: 0 }
    }

    /// Generates a new [`TilePos`] from axial coordinates.
    pub fn new(x: i32, y: i32) -> (p: TilePos)
        ensures
            p.x == x,
            p.y == y,
    {
        TilePos { x, y }
    }

    /// The cubic `z` coordinate, `-x - y`.
    pub open spec fn spec_z(self) -> int {
        -self.x - self.y
    }

    /// All three cubic coordinates of this tile can be negated without overflow.
    pub open spec fn cubic_fits(self) -> bool {
        cubic_fits(self.x as int, self.y as int)
    }

    /// The number of steps from `self` to `other`.
    pub open spec fn spec_distance(self, other: TilePos) -> int {
        hex_length(self.x - other.x, self.y - other.y)
    }

    /// The neighbouring tile in `direction`.
    pub open spec fn spec_neighbor(self, direction: Direction) -> TilePos {
        TilePos { x: (self.x + direction.dx()) as i32, y: (self.y + direction.dy()) as i32 }
    }

    /// `self + offset`, component-wise.
    pub open spec fn spec_add(self, offset: TilePos) -> TilePos {
        TilePos { x: (self.x + offset.x) as i32, y: (self.y + offset.y) as i32 }
    }

    /// `self + offset` fits in `i32` coordinates.
    pub open spec fn add_fits(self, offset: TilePos) -> bool {
        fits_i32(self.x + offset.x) && fits_i32(self.y + offset.y)
    }

    /// The neighbour in `direction` has `i32` coordinates.
    pub open spec fn neighbor_fits(self, direction: Direction) -> bool {
        fits_i32(self.x + direction.dx()) && fits_i32(self.y + direction.dy())
    }

    /// Every neighbour of this tile has cubic coordinates that can be negated
    /// without overflow.
    pub open spec fn neighbors_fit(self) -> bool {
        &&& -i32::MAX + 1 <= self.x <= i32::MAX - 1
        &&& -i32::MAX + 1 <= self.y <= i32::MAX - 1
        &&& -i32::MAX + 1 <= self.x + self.y <= i32::MAX - 1
    }

    /// Rotation by 60 degrees counter-clockwise around the origin:
    /// cubic `(x, y, z)` becomes `(-z, -x, -y)`.
    pub open spec fn spec_ccw(self) -> TilePos {
        TilePos { x: (self.x + self.y) as i32, y: (-self.x) as i32 }
    }

    /// Rotation by 60 degrees clockwise around the origin:
    /// cubic `(x, y, z)` becomes `(-y, -z, -x)`.
    pub open spec fn spec_cw(self) -> TilePos {
        TilePos { x: (-self.y) as i32, y: (self.x + self.y) as i32 }
    }

    /// Rotation by `n` steps of 60 degrees counter-clockwise around the origin.
    pub open spec fn spec_rotate_ccw(self, n: nat) -> TilePos
        decreases n,
    {
        if n == 0 {
            self
        } else {
            self.spec_rotate_ccw((n - 1) as nat).spec_ccw()
        }
    }
}

/// Rotating a tile keeps all of its cubic coordinates negatable, and rotating
/// six times counter-clockwise (or once clockwise and once counter-clockwise)
/// gives back the starting tile.
pub proof fn lemma_rotation_basics(p: TilePos)
    requires
        p.cubic_fits(),
    ensures
        p.spec_ccw().cubic_fits(),
        p.spec_cw().cubic_fits(),
        p.spec_cw().spec_ccw() == p,
        p.spec_ccw().spec_cw() == p,
        p.spec_ccw().spec_ccw().spec_ccw().spec_ccw().spec_ccw().spec_ccw() == p,
{
}

/// Counter-clockwise rotations keep the cubic coordinates negatable.
pub proof fn lemma_rotate_ccw_fits(p: TilePos, n: nat)
    requires
        p.cubic_fits(),
    ensures
        p.spec_rotate_ccw(n).cubic_fits(),
    decreases n,
{
    if n > 0 {
        lemma_rotate_ccw_fits(p, (n - 1) as nat);
        lemma_rotation_basics(p.spec_rotate_ccw((n - 1) as nat));
    }
}

/// The hex direction that an entity is facing.
#[derive(Debug, Clone, Copy, PartialEq, Eq, Structural)]
pub struct Facing {
    /// The desired direction; [`Direction::Top`] by default.
    pub direction: Direction,
}

/// The direction of a [`Facing`] rotation.
#[derive(Debug, Clone, Copy, PartialEq, Eq, Structural)]
pub enum RotationDirection {
    /// Counterclockwise
    Left,
    /// Clockwise
    Right,
}

impl Facing {
    /// The number of 60 degree steps counter-clockwise from [`Direction::Top`]
    /// to this direction.
    pub open spec fn spec_rotation_count(self) -> nat {
        match self.direction {
            Direction::Top => 0,
            Direction::TopLeft => 1,
            Direction::BottomLeft => 2,
            Direction::Bottom => 3,
            Direction::BottomRight => 4,
            Direction::TopRight => 5,
        }
    }

    /// The default facing, towards [`Direction::Top`].
    pub fn default_facing() -> (f: Facing)
        ensures
            f.direction == Direction::Top,
    {
        Facing { direction: Direction::Top }
    }

    /// Rotates this facing one 60 degree step counterclockwise.
    pub fn rotate_counterclockwise(&mut self)
        ensures
            final(self).direction == old(self).direction.spec_counter_clockwise(),
    {
        self.direction = crate::hexx_ops::direction_counter_clockwise(self.direction);
    }

    /// Rotates this facing one 60 degree step clockwise.
    pub fn rotate_clockwise(&mut self)
        ensures
            final(self).direction == old(self).direction.spec_clockwise(),
    {
        self.direction = crate::hexx_ops::direction_clockwise(self.direction);
    }

    /// Returns the number of 60 degree rotations needed to face this
    /// direction, starting from [`Direction::Top`].
    pub fn rotation_count(&self) -> (n: u32)
        ensures
            n == self.spec_rotation_count(),
    {
        match self.direction {
            Direction::Top => 0,
            Direction::TopLeft => 1,
            Direction::BottomLeft => 2,
            Direction::Bottom => 3,
            Direction::BottomRight => 4,
            Direction::TopRight => 5,
        }
    }
}

impl Default for Facing {
    fn default() -> (f: Facing)
        ensures
            f.direction == Direction::Top,
    {
        Facing::default_facing()
    }
}

/// The counter-clockwise and clockwise successors of each direction.
proof fn lemma_turn_table()
    ensures
        Direction::TopRight.spec_counter_clockwise() == Direction::Top,
        Direction::Top.spec_counter_clockwise() == Direction::TopLeft,
        Direction::TopLeft.spec_counter_clockwise() == Direction::BottomLeft,
        Direction::BottomLeft.spec_counter_clockwise() == Direction::Bottom,
        Direction::Bottom.spec_counter_clockwise() == Direction::BottomRight,
        Direction::BottomRight.spec_counter_clockwise() == Direction::TopRight,
        Direction::TopRight.spec_clockwise() == Direction::BottomRight,
        Direction::Top.spec_clockwise() == Direction::TopRight,
        Direction::TopLeft.spec_clockwise() == Direction::Top,
        Direction::BottomLeft.spec_clockwise() == Direction::TopLeft,
        Direction::Bottom.spec_clockwise() == Direction::BottomLeft,
        Direction::BottomRight.spec_clockwise() == Direction::Bottom,
{
}

/// Turning a facing clockwise adds five to its rotation count and turning it
/// counter-clockwise adds one (modulo six): the two rotations undo each other
/// and six turns in either direction give back the same facing.
pub proof fn law_facing_rotations(f: Facing)
    ensures
        (Facing { direction: f.direction.spec_clockwise() }).spec_rotation_count() == (
        f.spec_rotation_count() + 5) % 6,
        (Facing { direction: f.direction.spec_counter_clockwise() }).spec_rotation_count() == (
        f.spec_rotation_count() + 1) % 6,
        f.direction.spec_clockwise().spec_counter_clockwise() == f.direction,
        f.direction.spec_counter_clockwise().spec_clockwise() == f.direction,
        f.direction.spec_clockwise().spec_clockwise().spec_clockwise().spec_clockwise().spec_clockwise().spec_clockwise()
            == f.direction,
        f.direction.spec_counter_clockwise().spec_counter_clockwise().spec_counter_clockwise().spec_counter_clockwise().spec_counter_clockwise()
            == f.direction.spec_clockwise(),
{
    lemma_turn_table();
    match f.direction {
        Direction::TopRight => {},
        Direction::Top => {},
        Direction::TopLeft => {},
        Direction::BottomLeft => {},
        Direction::Bottom => {},
        Direction::BottomRight => {},
    }
}

impl TilePos {
    /// This tile rotated around the origin to match `facing`.
    pub open spec fn spec_rotated(self, facing: Facing) -> TilePos {
        self.spec_rotate_ccw(facing.spec_rotation_count())
    }

    /// Returns this tile rotated around the origin to match `facing`: one
    /// counter-clockwise step for each step of [`Facing::rotation_count`].
    pub fn rotated(&self, facing: Facing) -> (r: TilePos)
        requires
            self.cubic_fits(),
        ensures
            r == self.spec_rotated(facing),
            r.cubic_fits(),
    {
        proof {
            lemma_rotate_ccw_fits(*self, facing.spec_rotation_count());
        }
        crate::hexx_ops::hex_rotate_ccw(*self, facing.rotation_count())
    }

    /// Returns the [`TilePos`] in the provided `direction` from `self`.
    pub fn neighbor(&self, direction: Direction) -> (r: TilePos)
        requires
            self.neighbor_fits(direction),
        ensures
            r == self.spec_neighbor(direction),
    {
        crate::hexx_ops::hex_neighbor(*self, direction)
    }

    /// Component-wise sum of `self` and `offset`.
    pub fn offset_by(&self, offset: TilePos) -> (r: TilePos)
        requires
            self.add_fits(offset),
        ensures
            r == self.spec_add(offset),
    {
        TilePos { x: self.x + offset.x, y: self.y + offset.y }
    }
}

/// An identifier of a game entity (a structure, a ghost, a piece of terrain).
#[derive(Debug, Clone, Copy, PartialEq, Eq, Hash, Structural)]
pub struct Entity {
    /// The raw identifier.
    pub bits: u64,
}

impl Entity {
    /// The entity with the given raw identifier.
    pub fn from_bits(bits: u64) -> (e: Entity)
        ensures
            e.bits == bits,
    {
        Entity { bits }
    }

    /// The raw identifier of this entity.
    pub fn to_bits(&self) -> (bits: u64)
        ensures
            bits == self.bits,
    {
        self.bits
    }
}

impl Facing {
    /// Generates a random facing.
    pub fn random(rng: &mut rand::rngs::ThreadRng) -> (f: Facing) {
        let directions = Direction::all_directions();
        let chosen = crate::random::choose_one(rng, &directions);
        Facing { direction: chosen.unwrap() }
    }
}

impl RotationDirection {
    /// Picks a direction to rotate in at random.
    pub fn random(rng: &mut rand::rngs::ThreadRng) -> (r: RotationDirection) {
        if crate::random::gen_bool(rng) {
            RotationDirection::Left
        } else {
            RotationDirection::Right
        }
    }
}

} // verus!
