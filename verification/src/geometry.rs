//! Points, sizes, and the overlap test between a circle and an axis-aligned
//! rectangle.

use vstd::prelude::*;

verus! {

/// A position or a displacement on the grid. `y` grows downwards.
#[derive(Clone, Copy, Debug, PartialEq, Eq, Structural)]
pub struct Vec2 {
    pub x: i32,
    pub y: i32,
}

/// The extent of a rectangle.
#[derive(Clone, Copy, Debug, PartialEq, Eq, Structural)]
pub struct Size {
    pub width: u16,
    pub height: u16,
}

/// The distance between two numbers on a line.
pub open spec fn distance(a: int, b: int) -> int {
    if a < b {
        b - a
    } else {
        a - b
    }
}

/// A circle in the plane: centre and radius.
pub struct Circle {
    pub x: int,
    pub y: int,
    pub r: int,
}

/// An axis-aligned rectangle in the plane: top-left corner, width and height.
pub struct Rect {
    pub x: int,
    pub y: int,
    pub w: int,
    pub h: int,
}

impl Rect {
    /// The image of the rectangle under reflection in the vertical line `x = axis`.
    pub open spec fn mirrored_x(self, axis: int) -> Rect {
        Rect { x: 2 * axis - (self.x + self.w), y: self.y, w: self.w, h: self.h }
    }

    /// The image of the rectangle under reflection in the horizontal line `y = axis`.
    pub open spec fn mirrored_y(self, axis: int) -> Rect {
        Rect { x: self.x, y: 2 * axis - (self.y + self.h), w: self.w, h: self.h }
    }

    /// The point lies strictly inside the rectangle.
    pub open spec fn encloses(self, x: int, y: int) -> bool {
        self.x < x < self.x + self.w && self.y < y < self.y + self.h
    }
}

impl Circle {
    /// Twice the horizontal distance between the circle's centre and the
    /// rectangle's centre. Doubling keeps the half-width of an odd rectangle exact.
    pub open spec fn off_x(self, rect: Rect) -> int {
        distance(2 * self.x, 2 * rect.x + rect.w)
    }

    /// Twice the vertical distance between the two centres.
    pub open spec fn off_y(self, rect: Rect) -> int {
        distance(2 * self.y, 2 * rect.y + rect.h)
    }

    /// Whether the circle overlaps the rectangle, touching included.
    ///
    /// With `dx`, `dy` the distances between the centres along each axis: no
    /// overlap if `dx > w/2 + r` or `dy > h/2 + r`; else overlap if `dx <= w/2`
    /// or `dy <= h/2`; else overlap exactly if the nearest corner is within `r`,
    /// `(dx - w/2)^2 + (dy - h/2)^2 <= r^2`. Stated here on doubled lengths.
    pub open spec fn meets(self, rect: Rect) -> bool {
        let dx: int = self.off_x(rect);
        let dy: int = self.off_y(rect);
        if dx > rect.w + 2 * self.r || dy > rect.h + 2 * self.r {
            false
        } else if dx <= rect.w || dy <= rect.h {
            true
        } else {
            (dx - rect.w) * (dx - rect.w) + (dy - rect.h) * (dy - rect.h) <= 4 * self.r * self.r
        }
    }

    /// How far the centre lies outside the rectangle's span along x (0 inside it).
    pub open spec fn gap_x(self, rect: Rect) -> int {
        if self.x < rect.x {
            rect.x - self.x
        } else if self.x > rect.x + rect.w {
            self.x - (rect.x + rect.w)
        } else {
            0
        }
    }

    /// How far the centre lies outside the rectangle's span along y (0 inside it).
    pub open spec fn gap_y(self, rect: Rect) -> int {
        if self.y < rect.y {
            rect.y - self.y
        } else if self.y > rect.y + rect.h {
            self.y - (rect.y + rect.h)
        } else {
            0
        }
    }

    /// The point of the rectangle nearest to the centre is at most `r` away.
    pub open spec fn within_reach(self, rect: Rect) -> bool {
        self.gap_x(rect) * self.gap_x(rect) + self.gap_y(rect) * self.gap_y(rect) <= self.r * self.r
    }

    /// The image of the circle under reflection in the vertical line `x = axis`.
    pub open spec fn mirrored_x(self, axis: int) -> Circle {
        Circle { x: 2 * axis - self.x, y: self.y, r: self.r }
    }

    /// The image of the circle under reflection in the horizontal line `y = axis`.
    pub open spec fn mirrored_y(self, axis: int) -> Circle {
        Circle { x: self.x, y: 2 * axis - self.y, r: self.r }
    }
}

/// The circle with the given centre and radius.
pub open spec fn circle_at(center: Vec2, radius: u16) -> Circle {
    Circle { x: center.x as int, y: center.y as int, r: radius as int }
}

/// The rectangle with the given top-left corner and extent.
pub open spec fn rect_at(pos: Vec2, size: Size) -> Rect {
    Rect { x: pos.x as int, y: pos.y as int, w: size.width as int, h: size.height as int }
}

/// Tests whether a circle overlaps a rectangle.
pub fn circle_intersects_rect(
    center: Vec2,
    radius: u16,
    rect_pos: Vec2,
    rect_size: Size,
) -> (hit: bool)
    ensures
        hit == circle_at(center, radius).meets(rect_at(rect_pos, rect_size)),
{
    let w: i64 = rect_size.width as i64;
    let h: i64 = rect_size.height as i64;
    let reach: i64 = 2 * (radius as i64);
    let cx: i64 = 2 * (center.x as i64);
    let cy: i64 = 2 * (center.y as i64);
    let mx: i64 = 2 * (rect_pos.x as i64) + w;
    let my: i64 = 2 * (rect_pos.y as i64) + h;
    let dx: i64 = if cx < mx { mx - cx } else { cx - mx };
    let dy: i64 = if cy < my { my - cy } else { cy - my };
    if dx > w + reach || dy > h + reach {
        return false;
    }
    if dx <= w || dy <= h {
        return true;
    }
    let ex: i64 = dx - w;
    let ey: i64 = dy - h;
    assert(ex * ex <= 131070 * 131070 && ey * ey <= 131070 * 131070 && reach * reach
        <= 131070 * 131070) by (nonlinear_arith)
        requires
            0 < ex <= 131070,
            0 < ey <= 131070,
            0 <= reach <= 131070,
    ;
    assert(reach * reach == 4 * (radius as int) * (radius as int)) by (nonlinear_arith)
        requires
            reach == 2 * (radius as int),
    ;
    ex * ex + ey * ey <= reach * reach
}

/// Reflecting the circle and the rectangle together in a vertical line leaves
/// the overlap test unchanged.
pub proof fn lemma_meets_mirrored_x(circle: Circle, rect: Rect, axis: int)
    ensures
        circle.mirrored_x(axis).meets(rect.mirrored_x(axis)) == circle.meets(rect),
{
}

/// Reflecting the circle and the rectangle together in a horizontal line leaves
/// the overlap test unchanged.
pub proof fn lemma_meets_mirrored_y(circle: Circle, rect: Rect, axis: int)
    ensures
        circle.mirrored_y(axis).meets(rect.mirrored_y(axis)) == circle.meets(rect),
{
}

/// A circle whose centre lies strictly inside a rectangle overlaps it.
pub proof fn lemma_centre_inside_meets(circle: Circle, rect: Rect)
    requires
        circle.r >= 0,
        rect.encloses(circle.x, circle.y),
    ensures
        circle.meets(rect),
{
}

/// For a rectangle and a radius that are not negative, the overlap test holds
/// exactly when the point of the rectangle nearest to the centre is within the
/// radius.
pub proof fn lemma_meets_is_nearest_point_test(circle: Circle, rect: Rect)
    requires
        circle.r >= 0,
        rect.w >= 0,
        rect.h >= 0,
    ensures
        circle.meets(rect) == circle.within_reach(rect),
{
    let dx: int = circle.off_x(rect);
    let dy: int = circle.off_y(rect);
    let gx: int = circle.gap_x(rect);
    let gy: int = circle.gap_y(rect);
    let r: int = circle.r;
    assert(2 * gx == if dx > rect.w { dx - rect.w } else { 0 });
    assert(2 * gy == if dy > rect.h { dy - rect.h } else { 0 });
    assert((2 * gx) * (2 * gx) + (2 * gy) * (2 * gy) == 4 * (gx * gx + gy * gy))
        by (nonlinear_arith);
    assert((gx > r) == (gx * gx > r * r)) by (nonlinear_arith)
        requires
            gx >= 0,
            r >= 0,
    ;
    assert((gy > r) == (gy * gy > r * r)) by (nonlinear_arith)
        requires
            gy >= 0,
            r >= 0,
    ;
    assert(4 * r * r == 4 * (r * r)) by (nonlinear_arith);
}

} // verus!
