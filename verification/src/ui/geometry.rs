//! Positions, sizes and regions on the grid of rows and columns.

use vstd::prelude::*;

verus! {

/// A position: a column `x` and a row `y`.
#[derive(Debug, Copy, Clone, PartialEq, Eq, Structural)]
pub struct Pos {
    pub x: i32,
    pub y: i32,
}

/// A width and a height.
#[derive(Debug, Copy, Clone, PartialEq, Eq, Structural)]
pub struct Size {
    pub width: u16,
    pub height: u16,
}

/// A rectangle: it holds `from`, and ends before `to`.
#[derive(Debug, Copy, Clone, PartialEq, Eq, Structural)]
pub struct Region {
    pub from: Pos,
    pub to: Pos,
}

/// `n`, held to what a coordinate can hold.
pub open spec fn clamp(n: int) -> i32 {
    if n > i32::MAX {
        i32::MAX
    } else if n < i32::MIN {
        i32::MIN
    } else {
        n as i32
    }
}

/// Computes [`clamp`].
pub fn clamped(n: i64) -> (out: i32)
    ensures
        out == clamp(n as int),
{
    if n > i32::MAX as i64 {
        i32::MAX
    } else if n < i32::MIN as i64 {
        i32::MIN
    } else {
        n as i32
    }
}

/// Computes [`clamp`] of a sum of numbers of any size in memory.
pub fn clamped_wide(n: i128) -> (out: i32)
    ensures
        out == clamp(n as int),
{
    if n > i32::MAX as i128 {
        i32::MAX
    } else if n < i32::MIN as i128 {
        i32::MIN
    } else {
        n as i32
    }
}

impl Pos {
    /// The origin.
    pub open spec fn spec_zero() -> Pos {
        Pos { x: 0, y: 0 }
    }

    /// The origin.
    #[verifier::when_used_as_spec(spec_zero)]
    pub fn zero() -> (pos: Pos)
        ensures
            pos == Pos::spec_zero(),
    {
        Pos { x: 0, y: 0 }
    }

    pub fn new(x: i32, y: i32) -> (pos: Pos)
        ensures
            pos == (Pos { x, y }),
    {
        Pos { x, y }
    }
}

impl Size {
    /// Nothing wide and nothing high.
    pub open spec fn spec_zero() -> Size {
        Size { width: 0, height: 0 }
    }

    /// Nothing wide and nothing high.
    #[verifier::when_used_as_spec(spec_zero)]
    pub fn zero() -> (size: Size)
        ensures
            size == Size::spec_zero(),
    {
        Size { width: 0, height: 0 }
    }

    pub fn new(width: u16, height: u16) -> (size: Size)
        ensures
            size == (Size { width, height }),
    {
        Size { width, height }
    }

    /// Whether the size covers no cell at all.
    pub open spec fn is_empty(self) -> bool {
        self.width == 0 || self.height == 0
    }
}

impl Region {
    /// The region of the given size with its first cell at `from`.
    pub open spec fn spec_new(from: Pos, size: Size) -> Region {
        Region {
            from,
            to: Pos { x: clamp(from.x + size.width), y: clamp(from.y + size.height) },
        }
    }

    /// The region of the given size with its first cell at `from`.
    #[verifier::when_used_as_spec(spec_new)]
    pub fn new(from: Pos, size: Size) -> (region: Region)
        ensures
            region == Region::spec_new(from, size),
    {
        Region {
            from,
            to: Pos {
                x: clamped(from.x as i64 + size.width as i64),
                y: clamped(from.y as i64 + size.height as i64),
            },
        }
    }

    /// Whether the region holds `pos`.
    pub open spec fn spec_contains(&self, pos: Pos) -> bool {
        pos.x >= self.from.x && pos.x < self.to.x && pos.y >= self.from.y && pos.y < self.to.y
    }

    /// Whether the region holds `pos`.
    #[verifier::when_used_as_spec(spec_contains)]
    pub fn contains(&self, pos: Pos) -> (b: bool)
        ensures
            b == self.spec_contains(pos),
    {
        pos.x >= self.from.x && pos.x < self.to.x && pos.y >= self.from.y && pos.y < self.to.y
    }
}

} // verus!
