//! The paddle and its sliding.

use vstd::prelude::*;
use crate::bounds::lemma_product_within;
use crate::geometry::{Rect, Size, Vec2};

verus! {

/// A request to slide the paddle, with the number of ticks that have elapsed.
#[derive(Clone, Copy, Debug, PartialEq, Eq, Structural)]
pub enum Direction {
    Left(u8),
    Right(u8),
}

/// The player's paddle: top-left corner, extent, and distance covered per tick.
#[derive(Clone, Copy, Debug, PartialEq, Eq, Structural)]
pub struct Paddle {
    pub pos: Vec2,
    pub size: Size,
    pub speed: u16,
}

/// The paddle as numbers without bounds.
pub struct PaddleState {
    pub x: int,
    pub y: int,
    pub w: int,
    pub h: int,
    pub speed: int,
}

impl PaddleState {
    /// The rectangle that the paddle covers.
    pub open spec fn rect(self) -> Rect {
        Rect { x: self.x, y: self.y, w: self.w, h: self.h }
    }

    /// The paddle lies between the side walls of a field of the given width.
    pub open spec fn within(self, field_width: int) -> bool {
        0 <= self.x && self.x + self.w <= field_width
    }

    /// The paddle moved to another x.
    pub open spec fn at_x(self, x: int) -> PaddleState {
        PaddleState { x, ..self }
    }

    /// The paddle after a slide request. The full step is `speed` times the
    /// elapsed ticks. It is taken whole if it keeps the paddle's leading edge
    /// inside the field, and not at all otherwise.
    pub open spec fn slid(self, dir: Direction, field_width: int) -> PaddleState {
        match dir {
            Direction::Left(ticks) => {
                let x: int = self.x - self.speed * ticks;
                if x >= 0 {
                    self.at_x(x)
                } else {
                    self
                }
            },
            Direction::Right(ticks) => {
                let x: int = self.x + self.speed * ticks;
                if x + self.w <= field_width {
                    self.at_x(x)
                } else {
                    self
                }
            },
        }
    }
}

impl View for Paddle {
    type V = PaddleState;

    open spec fn view(&self) -> PaddleState {
        PaddleState {
            x: self.pos.x as int,
            y: self.pos.y as int,
            w: self.size.width as int,
            h: self.size.height as int,
            speed: self.speed as int,
        }
    }
}

impl Paddle {
    /// A paddle of width `w` and height `h` whose centre is at `(x, y)`.
    pub fn new(x: i32, y: i32, w: u16, h: u16, v: u16) -> (paddle: Paddle)
        requires
            x - w / 2 >= i32::MIN,
            y - h / 2 >= i32::MIN,
        ensures
            paddle@ == (PaddleState {
                x: x - w / 2,
                y: y - h / 2,
                w: w as int,
                h: h as int,
                speed: v as int,
            }),
    {
        let nx: i32 = x - (w / 2) as i32;
        let ny: i32 = y - (h / 2) as i32;
        Paddle { pos: Vec2 { x: nx, y: ny }, size: Size { width: w, height: h }, speed: v }
    }

    /// Slides the paddle one full step to the left or to the right, unless
    /// that step would carry it across the wall on that side.
    pub fn slide(&mut self, dir: Direction, field_width: u16)
        ensures
            final(self)@ == old(self)@.slid(dir, field_width as int),
            old(self)@.within(field_width as int) ==> final(self)@.within(field_width as int),
    {
        match dir {
            Direction::Left(ticks) => {
                proof {
                    lemma_product_within(self.speed as int, ticks as int, 65535, 255);
                }
                let step: i64 = (self.speed as i64) * (ticks as i64);
                let x: i64 = self.pos.x as i64 - step;
                if x >= 0 {
                    self.pos.x = x as i32;
                }
            },
            Direction::Right(ticks) => {
                proof {
                    lemma_product_within(self.speed as int, ticks as int, 65535, 255);
                }
                let step: i64 = (self.speed as i64) * (ticks as i64);
                let x: i64 = self.pos.x as i64 + step;
                if x + self.size.width as i64 <= field_width as i64 {
                    self.pos.x = x as i32;
                }
            },
        }
    }
}

/// A slide never carries a paddle that lies between the side walls across one.
pub proof fn lemma_slide_stays_within(paddle: PaddleState, dir: Direction, field_width: int)
    requires
        paddle.speed >= 0,
        paddle.within(field_width),
    ensures
        paddle.slid(dir, field_width).within(field_width),
{
    match dir {
        Direction::Left(ticks) => {
            lemma_product_within(ticks as int, paddle.speed, 255, paddle.speed);
        },
        Direction::Right(ticks) => {
            lemma_product_within(ticks as int, paddle.speed, 255, paddle.speed);
        },
    }
}

} // verus!
