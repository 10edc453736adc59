use vstd::prelude::*;

verus! {

/// A point of the plane with integer coordinates.
///
/// Coordinates are exact fixed-point values (for instance hundredths of a
/// unit), so that every geometric predicate of this crate is decided exactly.
#[derive(Clone, Copy, Debug, PartialEq, Eq, Structural)]
pub struct Vertex {
    pub x: i32,
    pub y: i32,
}

/// Whether `a` comes before `b` in the sweep order: by `y`, then by `x`.
pub open spec fn sweep_less(a: Vertex, b: Vertex) -> bool {
    a.y < b.y || (a.y == b.y && a.x < b.x)
}

pub open spec fn fits_i32(v: int) -> bool {
    i32::MIN <= v <= i32::MAX
}

impl Vertex {
    pub fn new(x: i32, y: i32) -> (r: Vertex)
        ensures
            r.x == x && r.y == y,
    {
        Vertex { x, y }
    }

    /// Componentwise sum.
    pub fn add(self, rhs: Vertex) -> (r: Vertex)
        requires
            fits_i32(self.x + rhs.x),
            fits_i32(self.y + rhs.y),
        ensures
            r.x == self.x + rhs.x,
            r.y == self.y + rhs.y,
    {
        Vertex { x: self.x + rhs.x, y: self.y + rhs.y }
    }

    /// Componentwise difference.
    pub fn sub(self, rhs: Vertex) -> (r: Vertex)
        requires
            fits_i32(self.x - rhs.x),
            fits_i32(self.y - rhs.y),
        ensures
            r.x == self.x - rhs.x,
            r.y == self.y - rhs.y,
    {
        Vertex { x: self.x - rhs.x, y: self.y - rhs.y }
    }

    /// Both coordinates multiplied by `fac`.
    pub fn scale_ret(self, fac: i32) -> (r: Vertex)
        requires
            fits_i32(self.x * fac),
            fits_i32(self.y * fac),
        ensures
            r.x == self.x * fac,
            r.y == self.y * fac,
    {
        Vertex { x: self.x * fac, y: self.y * fac }
    }

    /// Multiplies both coordinates by `fac` in place.
    pub fn scale(&mut self, fac: i32)
        requires
            fits_i32(old(self).x * fac),
            fits_i32(old(self).y * fac),
        ensures
            final(self).x == old(self).x * fac,
            final(self).y == old(self).y * fac,
    {
        self.x = self.x * fac;
        self.y = self.y * fac;
    }

    /// Whether this is the zero vector, which has no direction to normalise to.
    pub fn is_zero(&self) -> (r: bool)
        ensures
            r == (self.x == 0 && self.y == 0),
    {
        self.x == 0 && self.y == 0
    }

    /// Sweep order: smaller `y` first, equal `y` broken by smaller `x`.
    pub fn sweep_cmp(&self, other: &Vertex) -> (r: core::cmp::Ordering)
        ensures
            r == core::cmp::Ordering::Less <==> sweep_less(*self, *other),
            r == core::cmp::Ordering::Greater <==> sweep_less(*other, *self),
            r == core::cmp::Ordering::Equal <==> *self == *other,
    {
        if self.y < other.y || (self.y == other.y && self.x < other.x) {
            core::cmp::Ordering::Less
        } else if self.y > other.y || (self.y == other.y && self.x > other.x) {
            core::cmp::Ordering::Greater
        } else {
            core::cmp::Ordering::Equal
        }
    }
}

impl PartialOrd for Vertex {
    fn partial_cmp(&self, other: &Vertex) -> (r: Option<core::cmp::Ordering>) {
        Some(self.sweep_cmp(other))
    }
}

impl vstd::std_specs::cmp::PartialOrdSpecImpl for Vertex {
    open spec fn obeys_partial_cmp_spec() -> bool {
        true
    }

    open spec fn partial_cmp_spec(&self, other: &Vertex) -> Option<core::cmp::Ordering> {
        if sweep_less(*self, *other) {
            Some(core::cmp::Ordering::Less)
        } else if sweep_less(*other, *self) {
            Some(core::cmp::Ordering::Greater)
        } else {
            Some(core::cmp::Ordering::Equal)
        }
    }
}

} // verus!
