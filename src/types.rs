use vstd::prelude::*;

verus! {

/// A 2D integer point or extent.
#[derive(PartialEq, Eq, Structural, Clone, Copy, Hash, Debug)]
pub struct Vec2i {
    pub x: i32,
    pub y: i32,
}

impl Vec2i {
    /// Componentwise sum; the caller keeps both sums within `i32`.
    pub fn add(self, other: Vec2i) -> (r: Vec2i)
        requires
            i32::MIN <= self.x + other.x <= i32::MAX,
            i32::MIN <= self.y + other.y <= i32::MAX,
        ensures
            r.x == self.x + other.x,
            r.y == self.y + other.y,
    {
        Vec2i { x: self.x + other.x, y: self.y + other.y }
    }
}

/// An axis-aligned rectangle: top-left corner `pos` and extent `sz`.
#[derive(PartialEq, Eq, Structural, Clone, Copy, Debug)]
pub struct Rect {
    pub pos: Vec2i,
    pub sz: Vec2i,
}

impl Rect {
    /// Both extents are non-negative.
    pub open spec fn wf(self) -> bool {
        self.sz.x >= 0 && self.sz.y >= 0
    }

    /// The bounding box of `other` lies within that of `self`.
    pub open spec fn contains_spec(self, other: Rect) -> bool {
        &&& self.pos.x <= other.pos.x
        &&& self.pos.y <= other.pos.y
        &&& other.pos.x + other.sz.x <= self.pos.x + self.sz.x
        &&& other.pos.y + other.sz.y <= self.pos.y + self.sz.y
    }

    /// The point `(x, y)` lies inside this rectangle.
    pub open spec fn has_point(self, x: int, y: int) -> bool {
        self.pos.x <= x < self.pos.x + self.sz.x && self.pos.y <= y < self.pos.y + self.sz.y
    }

    pub fn contains(&self, other: Rect) -> (r: bool)
        ensures
            r == self.contains_spec(other),
    {
        let br_x = self.pos.x as i64 + self.sz.x as i64;
        let br_y = self.pos.y as i64 + self.sz.y as i64;
        let obr_x = other.pos.x as i64 + other.sz.x as i64;
        let obr_y = other.pos.y as i64 + other.sz.y as i64;
        self.pos.x <= other.pos.x && self.pos.y <= other.pos.y && obr_x <= br_x && obr_y <= br_y
    }

    /// Translates the rectangle by `(dx, dy)`; its extent is kept.
    pub fn move_by(&mut self, dx: i32, dy: i32)
        requires
            i32::MIN <= old(self).pos.x + dx <= i32::MAX,
            i32::MIN <= old(self).pos.y + dy <= i32::MAX,
        ensures
            final(self).pos.x == old(self).pos.x + dx,
            final(self).pos.y == old(self).pos.y + dy,
            final(self).sz == old(self).sz,
    {
        self.pos.x = self.pos.x + dx;
        self.pos.y = self.pos.y + dy;
    }
}

} // verus!
