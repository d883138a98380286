//! Lengths, positions, sizes and margins.
//!
//! Every length is an `i64` count of nanometres. Coordinates handed to the
//! library stay within `MAX_COORD` (a thousand kilometres) in magnitude, so
//! that the few sums the page transform makes cannot overflow.
use vstd::prelude::*;

verus! {

/// Nanometres in one millimetre.
pub const NM_PER_MM: i64 = 1_000_000;

/// The largest magnitude of a coordinate, a size or a margin.
pub const MAX_COORD: i64 = 1_000_000_000_000_000;

pub open spec fn in_range(v: int) -> bool {
    -MAX_COORD <= v <= MAX_COORD
}

/// A length of `v` millimetres.
pub fn mm(v: i64) -> (r: i64)
    requires
        -1_000_000_000 <= v <= 1_000_000_000,
    ensures
        r == v * NM_PER_MM,
{
    v * NM_PER_MM
}

/// A point, or a displacement.
#[derive(Debug, Clone, Copy, PartialEq, Eq, Structural)]
pub struct Offset {
    pub x: i64,
    pub y: i64,
}

impl Offset {
    pub open spec fn wf(&self) -> bool {
        in_range(self.x as int) && in_range(self.y as int)
    }

    pub fn new(x: i64, y: i64) -> (r: Offset)
        ensures
            r.x == x,
            r.y == y,
    {
        Offset { x, y }
    }

    pub fn zero() -> (r: Offset)
        ensures
            r.x == 0,
            r.y == 0,
    {
        Offset { x: 0, y: 0 }
    }
}

/// A width and a height.
#[derive(Debug, Clone, Copy, PartialEq, Eq, Structural)]
pub struct Size {
    pub width: i64,
    pub height: i64,
}

impl Size {
    pub open spec fn wf(&self) -> bool {
        0 <= self.width <= MAX_COORD && 0 <= self.height <= MAX_COORD
    }

    pub fn fixed(width: i64, height: i64) -> (r: Size)
        ensures
            r.width == width,
            r.height == height,
    {
        Size { width, height }
    }
}

/// Four margins, one for each side.
#[derive(Debug, Clone, Copy, PartialEq, Eq, Structural)]
pub struct Quad {
    pub top: i64,
    pub right: i64,
    pub bottom: i64,
    pub left: i64,
}

impl Quad {
    pub open spec fn wf(&self) -> bool {
        &&& 0 <= self.top <= MAX_COORD
        &&& 0 <= self.right <= MAX_COORD
        &&& 0 <= self.bottom <= MAX_COORD
        &&& 0 <= self.left <= MAX_COORD
    }

    /// No margin on any side.
    pub fn empty() -> (r: Quad)
        ensures
            r == (Quad { top: 0, right: 0, bottom: 0, left: 0 }),
    {
        Quad { top: 0, right: 0, bottom: 0, left: 0 }
    }

    /// The same margin on every side.
    pub fn square(v: i64) -> (r: Quad)
        ensures
            r == (Quad { top: v, right: v, bottom: v, left: v }),
    {
        Quad { top: v, right: v, bottom: v, left: v }
    }

    /// The horizontal space the margins take.
    pub fn width(&self) -> (r: i64)
        requires
            self.wf(),
        ensures
            r == self.left + self.right,
    {
        self.left + self.right
    }

    /// The vertical space the margins take.
    pub fn height(&self) -> (r: i64)
        requires
            self.wf(),
        ensures
            r == self.top + self.bottom,
    {
        self.top + self.bottom
    }

    /// Moves a position inside the margins: by the left and the top margin.
    pub fn offset(&self, o: &Offset) -> (r: Offset)
        requires
            self.wf(),
            o.wf(),
        ensures
            r.x == o.x + self.left,
            r.y == o.y + self.top,
    {
        Offset { x: o.x + self.left, y: o.y + self.top }
    }

    /// The size left inside the margins.
    pub fn narrow(&self, size: &Size) -> (r: Size)
        requires
            self.wf(),
            size.wf(),
        ensures
            r.width == size.width - self.left - self.right,
            r.height == size.height - self.top - self.bottom,
    {
        Size { width: size.width - self.left - self.right, height: size.height - self.top - self.bottom }
    }
}

} // verus!
