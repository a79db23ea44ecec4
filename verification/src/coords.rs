//! Fixed-point coordinates: a block index plus a sub-block offset counted in
//! fortieths of a block.

use std::cmp::Ordering;
use std::ops::Add;
use std::ops::AddAssign;
use std::ops::Sub;
use std::ops::SubAssign;
use vstd::prelude::*;
use vstd::std_specs::cmp::PartialOrdSpecImpl;
use vstd::std_specs::ops::AddSpecImpl;
use vstd::std_specs::ops::SubSpecImpl;

verus! {

/// Number of sub-block units in one block.
pub const UNITS_PER_BLOCK: u8 = 40;

/// Block index of the spawn point. Positions on either side of it stay
/// representable with unsigned arithmetic.
pub const CENTER_POINT: u64 = 9_223_372_036_854_775_808;

/// Upper bound (exclusive) on the offset that `SingleAxis::new` accepts.
pub const OFFSET_LIMIT: u8 = 127;

/// One spatial axis: `main` counts whole blocks, `additionnal` the remaining
/// sub-block units. Sums and differences always come out normalized, with
/// the offset inside one block.
#[derive(PartialEq, Eq, Structural, Ord, Debug, Clone, Copy)]
pub struct SingleAxis {
    pub main: u64,
    pub additionnal: u8,
}

impl SingleAxis {
    /// The position measured in sub-block units.
    pub open spec fn units(self) -> int {
        self.main * 40 + self.additionnal
    }

    /// Holds when the offset lies inside one block.
    pub open spec fn is_normalized(self) -> bool {
        self.additionnal < 40
    }

    /// The normalized value that measures `units` sub-block units.
    pub open spec fn from_units(units: int) -> SingleAxis {
        SingleAxis { main: (units / 40) as u64, additionnal: (units % 40) as u8 }
    }

    /// Lexicographic order: block index first, offset as the tiebreaker.
    pub open spec fn precedes(self, other: SingleAxis) -> bool {
        self.main < other.main || (self.main == other.main && self.additionnal < other.additionnal)
    }

    /// Holds when the sum of the two positions fits the block index.
    pub open spec fn can_add(self, other: SingleAxis) -> bool {
        self.units() + other.units() < 0x1_0000_0000_0000_0000 * 40
    }

    /// The normalized sum of two positions.
    pub open spec fn plus(self, other: SingleAxis) -> SingleAxis {
        Self::from_units(self.units() + other.units())
    }

    /// Holds when `other` can be taken from `self`: the block indices
    /// subtract without underflow, so do the positions as a whole, and the
    /// normalized difference fits the block index.
    pub open spec fn can_sub(self, other: SingleAxis) -> bool {
        &&& self.main >= other.main
        &&& self.units() >= other.units()
        &&& self.units() - other.units() < 0x1_0000_0000_0000_0000 * 40
    }

    /// The normalized difference of two positions.
    pub open spec fn minus(self, other: SingleAxis) -> SingleAxis {
        Self::from_units(self.units() - other.units())
    }

    /// The distance between two positions, as an axis value.
    pub open spec fn spec_distance_from(self, other: SingleAxis) -> SingleAxis {
        if self.units() <= other.units() {
            Self::from_units(other.units() - self.units())
        } else {
            Self::from_units(self.units() - other.units())
        }
    }

    /// The axis value at block `main`, `additionnal` sub-block units further.
    /// The offset may run over one block, up to `OFFSET_LIMIT`: sums and
    /// differences bring it back inside.
    pub fn new(main: u64, additionnal: u8) -> (r: Self)
        requires
            additionnal < OFFSET_LIMIT,
        ensures
            r == (SingleAxis { main, additionnal }),
    {
        SingleAxis { main, additionnal }
    }

    /// The sub-block offset.
    pub fn get_additionnal(&self) -> (r: u8)
        ensures
            r == self.additionnal,
    {
        self.additionnal
    }

    /// The magnitude of the difference of two normalized positions,
    /// whichever of them is the greater.
    pub fn distance_from(&self, other: &Self) -> (r: SingleAxis)
        requires
            self.is_normalized(),
            other.is_normalized(),
        ensures
            r == self.spec_distance_from(*other),
            r.is_normalized(),
            r.units() == self.units() - other.units() || r.units() == other.units() - self.units(),
            r.units() >= 0,
    {
        if *other > *self {
            *other - *self
        } else {
            *self - *other
        }
    }
}

/// The distance between two positions does not depend on which of them is
/// taken first.
pub proof fn lemma_distance_symmetric(a: SingleAxis, b: SingleAxis)
    ensures
        a.spec_distance_from(b) == b.spec_distance_from(a),
{
}

impl Default for SingleAxis {
    /// The spawn point.
    fn default() -> (r: Self)
        ensures
            r == (SingleAxis { main: CENTER_POINT, additionnal: 0 }),
    {
        SingleAxis { main: CENTER_POINT, additionnal: 0 }
    }
}

impl PartialOrd for SingleAxis {
    /// Compares block indices first, offsets as the tiebreaker.
    fn partial_cmp(&self, other: &SingleAxis) -> (r: Option<Ordering>) {
        if self.main < other.main {
            Some(Ordering::Less)
        } else if self.main > other.main {
            Some(Ordering::Greater)
        } else if self.additionnal < other.additionnal {
            Some(Ordering::Less)
        } else if self.additionnal > other.additionnal {
            Some(Ordering::Greater)
        } else {
            Some(Ordering::Equal)
        }
    }
}

impl PartialOrdSpecImpl for SingleAxis {
    open spec fn obeys_partial_cmp_spec() -> bool {
        true
    }

    open spec fn partial_cmp_spec(&self, other: &SingleAxis) -> Option<Ordering> {
        if self.precedes(*other) {
            Some(Ordering::Less)
        } else if other.precedes(*self) {
            Some(Ordering::Greater)
        } else {
            Some(Ordering::Equal)
        }
    }
}

impl AddSpecImpl for SingleAxis {
    open spec fn obeys_add_spec() -> bool {
        true
    }

    open spec fn add_req(self, other: SingleAxis) -> bool {
        self.can_add(other)
    }

    open spec fn add_spec(self, other: SingleAxis) -> SingleAxis {
        self.plus(other)
    }
}

impl Add for SingleAxis {
    type Output = Self;

    /// Adds block indices and offsets, carrying whole blocks out of the
    /// offset sum.
    fn add(self, other: Self) -> (r: Self)
        ensures
            r.main == self.main + other.main + (self.additionnal + other.additionnal) / 40,
            r.additionnal == (self.additionnal + other.additionnal) % 40,
            r.units() == self.units() + other.units(),
            r.is_normalized(),
    {
        let offsets: u16 = self.additionnal as u16 + other.additionnal as u16;
        let carry: u64 = (offsets / UNITS_PER_BLOCK as u16) as u64;
        let total_additionnal: u8 = (offsets % UNITS_PER_BLOCK as u16) as u8;
        let total_main: u64 = self.main + other.main + carry;
        SingleAxis { main: total_main, additionnal: total_additionnal }
    }
}

impl SubSpecImpl for SingleAxis {
    open spec fn obeys_sub_spec() -> bool {
        true
    }

    open spec fn sub_req(self, other: SingleAxis) -> bool {
        self.can_sub(other)
    }

    open spec fn sub_spec(self, other: SingleAxis) -> SingleAxis {
        self.minus(other)
    }
}

impl Sub for SingleAxis {
    type Output = Self;

    /// Subtracts block indices and offsets, borrowing whole blocks while the
    /// offset difference is negative.
    fn sub(self, other: Self) -> (r: Self)
        ensures
            r.units() == self.units() - other.units(),
            r.is_normalized(),
    {
        let mut total_main: u64 = self.main - other.main;
        let mut total_additionnal: i16 = self.additionnal as i16 - other.additionnal as i16;
        while total_additionnal < 0
            invariant
                -255 <= total_additionnal <= 255,
                total_main * 40 + total_additionnal == self.units() - other.units(),
                self.units() >= other.units(),
                self.units() - other.units() < 0x1_0000_0000_0000_0000 * 40,
            decreases 255 - total_additionnal,
        {
            total_additionnal += 40;
            total_main -= 1;
        }
        let blocks: u64 = (total_additionnal / 40) as u64;
        SingleAxis { main: total_main + blocks, additionnal: (total_additionnal % 40) as u8 }
    }
}

impl AddAssign for SingleAxis {
    /// Adds `other` in place.
    fn add_assign(&mut self, other: Self)
        requires
            old(self).can_add(other),
        ensures
            *final(self) == old(self).plus(other),
    {
        *self = *self + other;
    }
}

impl SubAssign for SingleAxis {
    /// Subtracts `other` in place.
    fn sub_assign(&mut self, other: Self)
        requires
            old(self).can_sub(other),
        ensures
            *final(self) == old(self).minus(other),
    {
        *self = *self - other;
    }
}

/// A position in the plane.
#[derive(PartialEq, Eq, Structural, Debug, Clone, Copy)]
pub struct Coords {
    pub x: SingleAxis,
    pub y: SingleAxis,
}

impl Coords {
    /// The block that holds this position.
    pub open spec fn block(self) -> (u64, u64) {
        (self.x.main, self.y.main)
    }

    /// The square of the Euclidean distance between two positions, in
    /// sub-block units.
    pub open spec fn spec_squared_distance(self, other: Coords) -> int {
        let dx = self.x.units() - other.x.units();
        let dy = self.y.units() - other.y.units();
        dx * dx + dy * dy
    }

    /// Holds when the Euclidean distance between the two positions is at
    /// most `reach` sub-block units.
    pub open spec fn within(self, other: Coords, reach: int) -> bool {
        self.spec_squared_distance(other) <= reach * reach
    }

    /// Holds when both axes can be added.
    pub open spec fn can_add(self, other: Coords) -> bool {
        self.x.can_add(other.x) && self.y.can_add(other.y)
    }

    /// The sum, axis by axis.
    pub open spec fn plus(self, other: Coords) -> Coords {
        Coords { x: self.x.plus(other.x), y: self.y.plus(other.y) }
    }

    /// Holds when both axes can be subtracted.
    pub open spec fn can_sub(self, other: Coords) -> bool {
        self.x.can_sub(other.x) && self.y.can_sub(other.y)
    }

    /// The difference, axis by axis.
    pub open spec fn minus(self, other: Coords) -> Coords {
        Coords { x: self.x.minus(other.x), y: self.y.minus(other.y) }
    }

    /// The position with the given axis values.
    pub fn new(x: SingleAxis, y: SingleAxis) -> (r: Self)
        ensures
            r == (Coords { x, y }),
    {
        Self { x, y }
    }

    /// The square of the Euclidean distance to `other`, or `None` where it
    /// does not fit 128 bits.
    pub fn squared_distance_from(&self, other: &Self) -> (r: Option<u128>)
        ensures
            r == if self.spec_squared_distance(*other) <= u128::MAX {
                Some(self.spec_squared_distance(*other) as u128)
            } else {
                None
            },
    {
        let dx = axis_gap(&self.x, &other.x);
        let dy = axis_gap(&self.y, &other.y);
        proof {
            lemma_square_of_gap(self.x.units() - other.x.units(), dx as int);
            lemma_square_of_gap(self.y.units() - other.y.units(), dy as int);
            assert(dx * dx >= 0 && dy * dy >= 0) by (nonlinear_arith);
        }
        match (dx.checked_mul(dx), dy.checked_mul(dy)) {
            (Some(sx), Some(sy)) => sx.checked_add(sy),
            _ => None,
        }
    }

    /// Tells whether `other` lies within `reach` sub-block units of this
    /// position, by Euclidean distance.
    pub fn is_within(&self, other: &Self, reach: u8) -> (r: bool)
        ensures
            r == self.within(*other, reach as int),
    {
        let dx = axis_gap(&self.x, &other.x);
        let dy = axis_gap(&self.y, &other.y);
        proof {
            lemma_square_of_gap(self.x.units() - other.x.units(), dx as int);
            lemma_square_of_gap(self.y.units() - other.y.units(), dy as int);
            lemma_square_bounds(dx as int, dy as int, reach as int);
        }
        if dx > 255 || dy > 255 {
            false
        } else {
            let limit: u128 = reach as u128;
            dx * dx + dy * dy <= limit * limit
        }
    }

    /// The block that holds this position.
    pub fn into_block(self) -> (r: (u64, u64))
        ensures
            r == self.block(),
    {
        (self.x.main, self.y.main)
    }
}

/// The gap between two axis values, in sub-block units.
fn axis_gap(a: &SingleAxis, b: &SingleAxis) -> (r: u128)
    ensures
        r == a.units() - b.units() || r == b.units() - a.units(),
        r < 0x1_0000_0000_0000_0000 * 40 + 256,
{
    let ua: u128 = a.main as u128 * 40 + a.additionnal as u128;
    let ub: u128 = b.main as u128 * 40 + b.additionnal as u128;
    if ua >= ub {
        ua - ub
    } else {
        ub - ua
    }
}

/// A difference and its magnitude have the same square.
proof fn lemma_square_of_gap(d: int, gap: int)
    requires
        gap == d || gap == -d,
    ensures
        gap * gap == d * d,
{
    assert(gap * gap == d * d) by (nonlinear_arith)
        requires
            gap == d || gap == -d,
    ;
}

/// How the squares of two gaps compare with the square of a reach of one
/// byte.
proof fn lemma_square_bounds(dx: int, dy: int, reach: int)
    requires
        0 <= dx,
        0 <= dy,
        0 <= reach <= 255,
    ensures
        dx > 255 ==> dx * dx + dy * dy > reach * reach,
        dy > 255 ==> dx * dx + dy * dy > reach * reach,
        dx <= 255 && dy <= 255 ==> dx * dx + dy * dy <= 130050,
        reach * reach <= 65025,
{
    assert(reach * reach <= 65025) by (nonlinear_arith)
        requires
            0 <= reach <= 255,
    ;
    assert(dx * dx >= 0 && dy * dy >= 0) by (nonlinear_arith);
    assert(dx > 255 ==> dx * dx > 65025) by (nonlinear_arith)
        requires
            0 <= dx,
    ;
    assert(dy > 255 ==> dy * dy > 65025) by (nonlinear_arith)
        requires
            0 <= dy,
    ;
    assert(dx <= 255 ==> dx * dx <= 65025) by (nonlinear_arith)
        requires
            0 <= dx,
    ;
    assert(dy <= 255 ==> dy * dy <= 65025) by (nonlinear_arith)
        requires
            0 <= dy,
    ;
}

/// The squared distance between two positions does not depend on which of
/// them is taken first, and neither does any reach test.
pub proof fn lemma_squared_distance_symmetric(a: Coords, b: Coords)
    ensures
        a.spec_squared_distance(b) == b.spec_squared_distance(a),
        forall|reach: int| a.within(b, reach) == b.within(a, reach),
{
    let dx = a.x.units() - b.x.units();
    let dy = a.y.units() - b.y.units();
    lemma_square_of_gap(dx, -dx);
    lemma_square_of_gap(dy, -dy);
}

impl Default for Coords {
    /// The spawn point.
    fn default() -> (r: Self)
        ensures
            r == (Coords {
                x: SingleAxis { main: CENTER_POINT, additionnal: 0 },
                y: SingleAxis { main: CENTER_POINT, additionnal: 0 },
            }),
    {
        Coords { x: SingleAxis::default(), y: SingleAxis::default() }
    }
}

impl AddSpecImpl for Coords {
    open spec fn obeys_add_spec() -> bool {
        true
    }

    open spec fn add_req(self, other: Coords) -> bool {
        self.can_add(other)
    }

    open spec fn add_spec(self, other: Coords) -> Coords {
        self.plus(other)
    }
}

impl Add for Coords {
    type Output = Self;

    /// Adds axis by axis.
    fn add(self, other: Self) -> (r: Self) {
        Self { x: self.x + other.x, y: self.y + other.y }
    }
}

impl SubSpecImpl for Coords {
    open spec fn obeys_sub_spec() -> bool {
        true
    }

    open spec fn sub_req(self, other: Coords) -> bool {
        self.can_sub(other)
    }

    open spec fn sub_spec(self, other: Coords) -> Coords {
        self.minus(other)
    }
}

impl Sub for Coords {
    type Output = Self;

    /// Subtracts axis by axis.
    fn sub(self, other: Self) -> (r: Self) {
        Self { x: self.x - other.x, y: self.y - other.y }
    }
}

impl AddAssign for Coords {
    /// Adds `other` in place, axis by axis.
    fn add_assign(&mut self, other: Self)
        requires
            old(self).can_add(other),
        ensures
            *final(self) == old(self).plus(other),
    {
        *self = *self + other;
    }
}

impl SubAssign for Coords {
    /// Subtracts `other` in place, axis by axis.
    fn sub_assign(&mut self, other: Self)
        requires
            old(self).can_sub(other),
        ensures
            *final(self) == old(self).minus(other),
    {
        *self = *self - other;
    }
}

} // verus!
