//! The ball: its motion, its reflection off the walls, and its overlap with
//! rectangles.

use vstd::prelude::*;
use crate::bounds::lemma_product_within;
use crate::geometry::{circle_intersects_rect, distance, rect_at, Circle, Size, Vec2};

verus! {

/// The ball: centre, radius, and displacement per tick.
#[derive(Clone, Copy, Debug, PartialEq, Eq, Structural)]
pub struct Ball {
    pub center: Vec2,
    pub radius: u16,
    pub velocity: Vec2,
}

/// The ball as numbers without bounds.
pub struct BallState {
    pub x: int,
    pub y: int,
    pub r: int,
    pub vx: int,
    pub vy: int,
}

impl BallState {
    /// The circle that the ball covers.
    pub open spec fn circle(self) -> Circle {
        Circle { x: self.x, y: self.y, r: self.r }
    }

    /// The ball's horizontal extent has reached or passed the left or the right
    /// wall of a field of the given width.
    pub open spec fn at_side_wall(self, field_width: int) -> bool {
        self.x + self.r >= field_width || self.x - self.r <= 0
    }

    /// The ball's vertical extent has reached or passed the top wall.
    pub open spec fn at_top_wall(self) -> bool {
        self.y - self.r <= 0
    }

    /// The ball's lowest point is below the bottom edge of a field of the given
    /// height: the player has missed it.
    pub open spec fn past_bottom(self, field_height: int) -> bool {
        self.y + self.r > field_height
    }

    /// The ball with its vertical velocity reversed.
    pub open spec fn rebounded(self) -> BallState {
        BallState { vy: -self.vy, ..self }
    }

    /// The ball after one update over `ticks` ticks. First the horizontal
    /// velocity is reversed if the ball is at a side wall, and the vertical
    /// velocity if it is at the top wall. Then the centre moves by the velocity
    /// times the ticks.
    pub open spec fn advanced(self, field_width: int, ticks: int) -> BallState {
        let vx: int = if self.at_side_wall(field_width) {
            -self.vx
        } else {
            self.vx
        };
        let vy: int = if self.at_top_wall() {
            -self.vy
        } else {
            self.vy
        };
        BallState { x: self.x + vx * ticks, y: self.y + vy * ticks, r: self.r, vx, vy }
    }

    /// The distance the ball covers along x in one update over `ticks` ticks.
    pub open spec fn step_x(self, ticks: int) -> int {
        distance(self.vx, 0) * ticks
    }

    /// The distance the ball covers along y in one update over `ticks` ticks.
    pub open spec fn step_y(self, ticks: int) -> int {
        distance(self.vy, 0) * ticks
    }

    /// Every coordinate and every velocity is within the range of the machine's
    /// numbers.
    pub open spec fn fits(self) -> bool {
        &&& i32::MIN <= self.x <= i32::MAX
        &&& i32::MIN <= self.y <= i32::MAX
        &&& i32::MIN <= self.vx <= i32::MAX
        &&& i32::MIN <= self.vy <= i32::MAX
    }

    /// The centre lies in the field, walls included.
    pub open spec fn in_field(self, field_width: int, field_height: int) -> bool {
        0 <= self.x <= field_width && 0 <= self.y <= field_height
    }

    /// Along x the ball is on course: it is clear of both side walls, or it has
    /// just run into the one it was heading for and its next step takes it
    /// clear again, or it does not move along x at all.
    pub open spec fn on_course_x(self, field_width: int, ticks: int) -> bool {
        ||| self.r < self.x < field_width - self.r
        ||| self.vx < 0 && self.x <= self.r < self.x + self.step_x(ticks)
        ||| self.vx > 0 && self.x - self.step_x(ticks) < field_width - self.r <= self.x
        ||| self.vx == 0 && 0 <= self.x <= field_width
    }

    /// Along y the ball is on course with respect to the top wall.
    pub open spec fn on_course_y(self, ticks: int) -> bool {
        ||| self.r < self.y
        ||| self.vy < 0 && self.y <= self.r < self.y + self.step_y(ticks)
        ||| self.vy == 0 && 0 <= self.y
    }

    /// The ball is in orderly play for updates over `ticks` ticks: the field is
    /// wider than the ball, no step is longer than the radius, and the ball is
    /// on course along both axes.
    pub open spec fn in_play(self, field_width: int, ticks: int) -> bool {
        &&& 0 <= self.r
        &&& 2 * self.r < field_width
        &&& 0 <= ticks
        &&& self.step_x(ticks) <= self.r
        &&& self.step_y(ticks) <= self.r
        &&& self.on_course_x(field_width, ticks)
        &&& self.on_course_y(ticks)
    }
}

impl View for Ball {
    type V = BallState;

    open spec fn view(&self) -> BallState {
        BallState {
            x: self.center.x as int,
            y: self.center.y as int,
            r: self.radius as int,
            vx: self.velocity.x as int,
            vy: self.velocity.y as int,
        }
    }
}

impl Ball {
    /// A ball of radius `r` centred at `(x, y)` that moves by `(vx, vy)` per tick.
    pub fn new(x: i32, y: i32, r: u16, vx: i32, vy: i32) -> (ball: Ball)
        ensures
            ball@ == (BallState {
                x: x as int,
                y: y as int,
                r: r as int,
                vx: vx as int,
                vy: vy as int,
            }),
    {
        Ball { center: Vec2 { x, y }, radius: r, velocity: Vec2 { x: vx, y: vy } }
    }

    /// Tests whether the ball's horizontal extent has reached or passed the
    /// left or the right wall of a field of the given width.
    pub fn at_side_wall(&self, field_width: u16) -> (touching: bool)
        ensures
            touching == self@.at_side_wall(field_width as int),
    {
        let x: i64 = self.center.x as i64;
        let r: i64 = self.radius as i64;
        x + r >= field_width as i64 || x - r <= 0
    }

    /// Tests whether the ball's vertical extent has reached or passed the top wall.
    pub fn at_top_wall(&self) -> (touching: bool)
        ensures
            touching == self@.at_top_wall(),
    {
        self.center.y as i64 - self.radius as i64 <= 0
    }

    /// Tests whether the ball can be updated over `ticks` ticks: whether what
    /// the update leads to is within the range of the machine's numbers.
    pub fn can_update(&self, field_width: u16, ticks: u8) -> (ok: bool)
        ensures
            ok == self@.advanced(field_width as int, ticks as int).fits(),
    {
        let vx: i64 = if self.at_side_wall(field_width) {
            -(self.velocity.x as i64)
        } else {
            self.velocity.x as i64
        };
        let vy: i64 = if self.at_top_wall() {
            -(self.velocity.y as i64)
        } else {
            self.velocity.y as i64
        };
        proof {
            lemma_product_within(vx as int, ticks as int, 0x8000_0000, 255);
            lemma_product_within(vy as int, ticks as int, 0x8000_0000, 255);
        }
        let x: i64 = self.center.x as i64 + vx * (ticks as i64);
        let y: i64 = self.center.y as i64 + vy * (ticks as i64);
        let low: i64 = i32::MIN as i64;
        let high: i64 = i32::MAX as i64;
        low <= x && x <= high && low <= y && y <= high && vx <= high && vy <= high
    }

    /// Moves the ball by one update over `ticks` ticks, reflecting it off the
    /// side walls and the top wall of a field of the given width.
    pub fn update(&mut self, field_width: u16, ticks: u8)
        requires
            old(self)@.advanced(field_width as int, ticks as int).fits(),
        ensures
            final(self)@ == old(self)@.advanced(field_width as int, ticks as int),
    {
        let x: i64 = self.center.x as i64;
        let y: i64 = self.center.y as i64;
        if self.at_side_wall(field_width) {
            self.velocity.x = -self.velocity.x;
        }
        if self.at_top_wall() {
            self.velocity.y = -self.velocity.y;
        }
        proof {
            lemma_product_within(self.velocity.x as int, ticks as int, 0x8000_0000, 255);
            lemma_product_within(self.velocity.y as int, ticks as int, 0x8000_0000, 255);
        }
        let nx: i64 = x + (self.velocity.x as i64) * (ticks as i64);
        let ny: i64 = y + (self.velocity.y as i64) * (ticks as i64);
        self.center.x = nx as i32;
        self.center.y = ny as i32;
    }

    /// Reverses the ball's vertical velocity.
    pub fn rebound(&mut self)
        requires
            old(self).velocity.y > i32::MIN,
        ensures
            final(self)@ == old(self)@.rebounded(),
    {
        self.velocity.y = -self.velocity.y;
    }

    /// Tests whether the ball overlaps the rectangle at `pos` of extent `size`.
    pub fn collides_with(&self, pos: Vec2, size: Size) -> (hit: bool)
        ensures
            hit == self@.circle().meets(rect_at(pos, size)),
    {
        circle_intersects_rect(self.center, self.radius, pos, size)
    }

    /// Tests whether the ball's lowest point is below the bottom edge of a
    /// field of the given height.
    pub fn past_bottom(&self, field_height: u16) -> (missed: bool)
        ensures
            missed == self@.past_bottom(field_height as int),
    {
        self.center.y as i64 + self.radius as i64 > field_height as i64
    }
}

/// A ball in orderly play has its centre between the side walls and below
/// the top wall.
pub proof fn lemma_in_play_is_inside(ball: BallState, field_width: int, ticks: int)
    requires
        ball.in_play(field_width, ticks),
    ensures
        0 <= ball.x <= field_width,
        0 <= ball.y,
{
}

/// An update over the same number of ticks keeps a ball in orderly play, and
/// its centre stays in the field unless the ball has passed the bottom edge.
pub proof fn lemma_update_keeps_in_play(
    ball: BallState,
    field_width: int,
    field_height: int,
    ticks: int,
)
    requires
        ball.in_play(field_width, ticks),
    ensures
        ball.advanced(field_width, ticks).in_play(field_width, ticks),
        !ball.advanced(field_width, ticks).past_bottom(field_height) ==> ball.advanced(
            field_width,
            ticks,
        ).in_field(field_width, field_height),
{
    lemma_product_within(ball.vx, ticks, distance(ball.vx, 0), ticks);
    lemma_product_within(ball.vy, ticks, distance(ball.vy, 0), ticks);
    assert((-ball.vx) * ticks == -(ball.vx * ticks)) by (nonlinear_arith);
    assert((-ball.vy) * ticks == -(ball.vy * ticks)) by (nonlinear_arith);
}

} // verus!
