//! The constants of a game session.

use vstd::prelude::*;
use crate::geometry::{Size, Vec2};

verus! {

/// Everything that is fixed for the length of a session: the field, the
/// paddle, the ball, the layout of the obstacles and the rules of scoring.
///
/// Lengths are whole grid units. Speeds are grid units per tick.
#[derive(Clone, Copy, Debug, PartialEq, Eq, Structural)]
pub struct Config {
    /// Width of the playing field.
    pub field_width: u16,
    /// Height of the playing field.
    pub field_height: u16,
    /// Width of the paddle.
    pub paddle_width: u16,
    /// Height of the paddle.
    pub paddle_height: u16,
    /// Distance the paddle slides per tick.
    pub paddle_speed: u16,
    /// Distance from the bottom of the field up to the paddle's centre line.
    pub ground_offset: u16,
    /// Radius of the ball.
    pub ball_radius: u16,
    /// Horizontal velocity of the ball at launch.
    pub launch_dx: i16,
    /// Vertical velocity of the ball at launch; positive is downwards.
    pub launch_dy: i16,
    /// Number of rows of obstacles.
    pub rows: u8,
    /// Least width of an obstacle that is not the last of its row.
    pub min_width: u16,
    /// Widths are drawn from `min_width .. min_width + width_range`.
    pub width_range: u16,
    /// Height of every obstacle.
    pub brick_height: u16,
    /// Vertical space between one row's bottom and the next row's top.
    pub row_spacing: u16,
    /// Horizontal space between neighbours in a row.
    pub brick_gap: u16,
    /// Points gained for destroying one obstacle.
    pub hit_score: u16,
    /// Lives at the start of a session.
    pub start_lives: u8,
}

impl Config {
    /// A configuration that a session can be played with: the field is not
    /// empty, the paddle fits into it, and the rows of obstacles can be laid
    /// out so that each spans the field from edge to edge.
    pub open spec fn valid(&self) -> bool {
        &&& self.field_width >= 1
        &&& self.field_height >= 1
        &&& self.paddle_width <= self.field_width
        &&& 1 <= self.min_width <= self.field_width
        &&& self.width_range >= 1
        &&& self.brick_gap < self.min_width
    }

    /// The extent of the playing field.
    pub open spec fn field(&self) -> Size {
        Size { width: self.field_width, height: self.field_height }
    }

    /// The y coordinate of the paddle's top edge.
    pub open spec fn paddle_top(&self) -> int {
        self.field_height - self.ground_offset - self.paddle_height / 2
    }

    /// The x coordinate of the left edge of a paddle centred in the field.
    pub open spec fn paddle_home(&self) -> int {
        self.field_width / 2 - self.paddle_width / 2
    }

    /// The vertical distance from one row's top to the next row's top.
    pub open spec fn row_pitch(&self) -> int {
        self.brick_height + self.row_spacing
    }

    /// The y coordinate of the top edge of the obstacles in a row.
    pub open spec fn row_top(&self, row: int) -> int {
        row * self.row_pitch()
    }

    /// The velocity the ball is launched with.
    pub open spec fn launch_velocity(&self) -> Vec2 {
        Vec2 { x: self.launch_dx as i32, y: self.launch_dy as i32 }
    }

    /// The classic game: a field of 640 by 480, a paddle of 100 by 10 that
    /// slides 12 per tick, a ball of radius 10 launched at (5, 5), five rows
    /// of obstacles 25 high and 70 to 149 wide, 10 points per hit and 3 lives.
    pub fn classic() -> (cfg: Config)
        ensures
            cfg.valid(),
            cfg == (Config {
                field_width: 640,
                field_height: 480,
                paddle_width: 100,
                paddle_height: 10,
                paddle_speed: 12,
                ground_offset: 100,
                ball_radius: 10,
                launch_dx: 5,
                launch_dy: 5,
                rows: 5,
                min_width: 70,
                width_range: 80,
                brick_height: 25,
                row_spacing: 50,
                brick_gap: 2,
                hit_score: 10,
                start_lives: 3,
            }),
    {
        Config {
            field_width: 640,
            field_height: 480,
            paddle_width: 100,
            paddle_height: 10,
            paddle_speed: 12,
            ground_offset: 100,
            ball_radius: 10,
            launch_dx: 5,
            launch_dy: 5,
            rows: 5,
            min_width: 70,
            width_range: 80,
            brick_height: 25,
            row_spacing: 50,
            brick_gap: 2,
            hit_score: 10,
            start_lives: 3,
        }
    }

    /// Tests whether a session can be played with this configuration.
    pub fn is_valid(&self) -> (ok: bool)
        ensures
            ok == self.valid(),
    {
        self.field_width >= 1 && self.field_height >= 1 && self.paddle_width <= self.field_width
            && 1 <= self.min_width && self.min_width <= self.field_width && self.width_range >= 1
            && self.brick_gap < self.min_width
    }
}

} // verus!
