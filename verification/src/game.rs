//! The game: a paddle, a ball, a field of obstacles, the score, the lives,
//! and the phase of play, advanced one tick at a time.

use vstd::prelude::*;
use crate::ball::{Ball, BallState};
use crate::config::Config;
use crate::field::{generate_obstacles, is_layout};
use crate::obstacle::{
    all_destroyed, all_hit, all_intact, count_remaining, first_target, first_target_from,
    is_target, lemma_none_remaining_iff_all_hit, lemma_remaining_after_hit, outlines, remaining,
    Obstacle,
};
use crate::paddle::{Direction, Paddle, PaddleState};

verus! {

/// The top-level mode of the game.
#[derive(Clone, Copy, Debug, PartialEq, Eq, Structural)]
pub enum Phase {
    /// The ball is moving.
    Playing,
    /// The ball is held still; the paddle can still be moved.
    Paused,
    /// The last life is lost. Only a restart leads on.
    GameOver,
    /// Every obstacle is destroyed. Only a restart leads on.
    Won,
}

/// What the player asks for in one tick.
#[derive(Clone, Copy, Debug, PartialEq, Eq, Structural)]
pub struct Input {
    /// The key that moves the paddle to the left is held.
    pub left: bool,
    /// The key that moves the paddle to the right is held.
    pub right: bool,
    /// The key that pauses, resumes and restarts was pressed since the last tick.
    pub toggle: bool,
    /// The number of ticks that have elapsed since the last call.
    pub ticks: u8,
}

/// A game session.
#[derive(Clone, Debug)]
pub struct Game {
    pub config: Config,
    pub paddle: Paddle,
    pub ball: Ball,
    pub obstacles: Vec<Obstacle>,
    pub score: u64,
    pub lives: u8,
    pub phase: Phase,
}

/// The state of a session as numbers without bounds.
pub struct GameState {
    pub paddle: PaddleState,
    pub ball: BallState,
    pub obstacles: Seq<Obstacle>,
    pub score: int,
    pub lives: int,
    pub phase: Phase,
}

/// The phase after the toggle key: it switches between playing and paused,
/// and leaves the other phases alone.
pub open spec fn toggled(phase: Phase, toggle: bool) -> Phase {
    if !toggle {
        phase
    } else {
        match phase {
            Phase::Playing => Phase::Paused,
            Phase::Paused => Phase::Playing,
            Phase::GameOver => Phase::GameOver,
            Phase::Won => Phase::Won,
        }
    }
}

/// The play is over, one way or the other.
pub open spec fn is_final(phase: Phase) -> bool {
    phase == Phase::GameOver || phase == Phase::Won
}

/// The paddle at rest: centred between the side walls, at its height above
/// the ground.
pub open spec fn home_paddle(cfg: Config) -> PaddleState {
    PaddleState {
        x: cfg.paddle_home(),
        y: cfg.paddle_top(),
        w: cfg.paddle_width as int,
        h: cfg.paddle_height as int,
        speed: cfg.paddle_speed as int,
    }
}

/// The ball as it is launched: above the middle of the paddle, one radius
/// clear of it, with the launch velocity.
pub open spec fn launched(cfg: Config, paddle: PaddleState) -> BallState {
    BallState {
        x: paddle.x + paddle.w / 2,
        y: paddle.y - 2 * cfg.ball_radius,
        r: cfg.ball_radius as int,
        vx: cfg.launch_dx as int,
        vy: cfg.launch_dy as int,
    }
}

/// The state at the start of a session with the given obstacles.
pub open spec fn fresh(cfg: Config, obstacles: Seq<Obstacle>) -> GameState {
    GameState {
        paddle: home_paddle(cfg),
        ball: launched(cfg, home_paddle(cfg)),
        obstacles,
        score: 0,
        lives: cfg.start_lives as int,
        phase: Phase::Playing,
    }
}

impl GameState {
    /// The tick starts the session anew: the toggle key was pressed after the
    /// play was over.
    pub open spec fn restarts(self, input: Input) -> bool {
        input.toggle && is_final(self.phase)
    }

    /// The tick leaves everything as it is: the play is over and the toggle
    /// key was not pressed.
    pub open spec fn rests(self, input: Input) -> bool {
        !input.toggle && is_final(self.phase)
    }

    /// The tick moves the ball: after the toggle key the game is playing.
    pub open spec fn moves_ball(self, input: Input) -> bool {
        toggled(self.phase, input.toggle) == Phase::Playing
    }

    /// The state is a new session: everything is as at the start, and the
    /// obstacles are an intact field laid out for the configuration.
    pub open spec fn is_new(self, cfg: Config) -> bool {
        &&& self == fresh(cfg, self.obstacles)
        &&& is_layout(outlines(self.obstacles), cfg)
        &&& all_intact(self.obstacles)
    }

    /// The paddle follows the direction keys: to the left if that key is
    /// held, and then to the right if that key is held.
    pub open spec fn steered(self, cfg: Config, input: Input) -> GameState {
        let first: PaddleState = if input.left {
            self.paddle.slid(Direction::Left(input.ticks), cfg.field_width as int)
        } else {
            self.paddle
        };
        let second: PaddleState = if input.right {
            first.slid(Direction::Right(input.ticks), cfg.field_width as int)
        } else {
            first
        };
        GameState { paddle: second, ..self }
    }

    /// The ball destroys the first obstacle, in the order of the collection,
    /// that is intact and that it overlaps: the obstacle is marked, the score
    /// grows by the points for a hit, and the ball's vertical velocity is
    /// reversed. No other obstacle is touched in the same tick. Where there is
    /// no such obstacle, nothing changes.
    pub open spec fn struck(self, cfg: Config) -> GameState {
        let i: int = first_target(self.obstacles, self.ball.circle());
        if 0 <= i < self.obstacles.len() {
            GameState {
                ball: self.ball.rebounded(),
                obstacles: self.obstacles.update(i, self.obstacles[i].destroyed()),
                score: self.score + cfg.hit_score,
                ..self
            }
        } else {
            self
        }
    }

    /// The ball's vertical velocity is reversed if the ball overlaps the paddle.
    pub open spec fn deflected(self) -> GameState {
        if self.ball.circle().meets(self.paddle.rect()) {
            GameState { ball: self.ball.rebounded(), ..self }
        } else {
            self
        }
    }

    /// The ball is updated, unless the game is paused.
    pub open spec fn moved(self, cfg: Config, ticks: int) -> GameState {
        if self.phase == Phase::Paused {
            self
        } else {
            GameState { ball: self.ball.advanced(cfg.field_width as int, ticks), ..self }
        }
    }

    /// The ball is below the bottom edge of the field.
    pub open spec fn missed(self, cfg: Config) -> bool {
        self.ball.past_bottom(cfg.field_height as int)
    }

    /// The lives that are left once a miss has been counted: one fewer after
    /// a miss, but never fewer than none.
    pub open spec fn lives_left(self, cfg: Config) -> int {
        if self.missed(cfg) && self.lives > 0 {
            self.lives - 1
        } else {
            self.lives
        }
    }

    /// The end of a tick. A miss costs a life; with a life left the ball is
    /// launched again from the paddle, with none left the game is over. If
    /// every obstacle is destroyed the game is won, whatever else happened.
    pub open spec fn judged(self, cfg: Config) -> GameState {
        let lives: int = self.lives_left(cfg);
        GameState {
            ball: if self.missed(cfg) && lives > 0 {
                launched(cfg, self.paddle)
            } else {
                self.ball
            },
            lives,
            phase: if all_hit(self.obstacles) {
                Phase::Won
            } else if self.missed(cfg) && lives == 0 {
                Phase::GameOver
            } else {
                self.phase
            },
            ..self
        }
    }

    /// The state with another phase.
    pub open spec fn in_phase(self, phase: Phase) -> GameState {
        GameState { phase, ..self }
    }

    /// The state of a tick at the moment before the ball is updated: the
    /// toggle key, the paddle and the collisions have been dealt with.
    pub open spec fn before_move(self, cfg: Config, input: Input) -> GameState {
        self.in_phase(toggled(self.phase, input.toggle)).steered(cfg, input).struck(cfg).deflected()
    }

    /// The state after a tick that does not start the session anew. While
    /// the play is over nothing changes. Otherwise, in this order: the toggle
    /// key pauses or resumes, the paddle follows the direction keys, the ball
    /// destroys at most one obstacle, the ball bounces off the paddle, the
    /// ball is updated unless the game is paused, and a miss and a cleared
    /// field are dealt with.
    pub open spec fn ticked(self, cfg: Config, input: Input) -> GameState {
        if is_final(self.phase) {
            self
        } else {
            self.before_move(cfg, input).moved(cfg, input.ticks as int).judged(cfg)
        }
    }
}

impl View for Game {
    type V = GameState;

    open spec fn view(&self) -> GameState {
        GameState {
            paddle: self.paddle@,
            ball: self.ball@,
            obstacles: self.obstacles@,
            score: self.score as int,
            lives: self.lives as int,
            phase: self.phase,
        }
    }
}

/// Finds the first obstacle, in the order of the collection, that is intact
/// and that the ball overlaps. Returns its index, or the length of the
/// collection if there is none.
pub fn find_target(obstacles: &Vec<Obstacle>, ball: &Ball) -> (i: usize)
    ensures
        i == first_target(obstacles@, ball@.circle()),
        i <= obstacles@.len(),
        i < obstacles@.len() ==> is_target(obstacles@, ball@.circle(), i as int),
{
    let mut i: usize = 0;
    while i < obstacles.len()
        invariant
            i <= obstacles@.len(),
            first_target_from(obstacles@, ball@.circle(), i as int) == first_target(
                obstacles@,
                ball@.circle(),
            ),
        decreases obstacles@.len() - i,
    {
        let obstacle: Obstacle = obstacles[i];
        if !obstacle.hit && ball.collides_with(obstacle.pos, obstacle.size) {
            return i;
        }
        i = i + 1;
    }
    i
}

/// Makes the ball as it is launched from the paddle.
pub fn launch(cfg: &Config, paddle: &Paddle) -> (ball: Ball)
    requires
        paddle.pos.x + paddle.size.width / 2 <= i32::MAX,
        paddle.pos.y - 2 * cfg.ball_radius >= i32::MIN,
    ensures
        ball@ == launched(*cfg, paddle@),
{
    let x: i32 = paddle.pos.x + (paddle.size.width / 2) as i32;
    let y: i32 = paddle.pos.y - 2 * (cfg.ball_radius as i32);
    Ball::new(x, y, cfg.ball_radius, cfg.launch_dx as i32, cfg.launch_dy as i32)
}

impl Game {
    /// The session is in order: the configuration is valid, the paddle is
    /// the configured one and lies between the side walls at its height, the
    /// ball has the configured radius and a vertical velocity that can be
    /// reversed, and the score has room for the points of every obstacle
    /// that is still intact.
    pub open spec fn wf(&self) -> bool {
        &&& self.config.valid()
        &&& self.paddle.size.width == self.config.paddle_width
        &&& self.paddle.size.height == self.config.paddle_height
        &&& self.paddle.speed == self.config.paddle_speed
        &&& self.paddle.pos.y == self.config.paddle_top()
        &&& self.paddle@.within(self.config.field_width as int)
        &&& self.ball.radius == self.config.ball_radius
        &&& self.ball.velocity.y > i32::MIN
        &&& self.score + remaining(self.obstacles@) * self.config.hit_score <= u64::MAX
    }

    /// The session is in order and can take a tick with this input: if the
    /// tick moves the ball, what the ball's update leads to is within the
    /// range of the machine's numbers.
    pub open spec fn ready(&self, input: Input) -> bool {
        &&& self.wf()
        &&& self@.moves_ball(input) ==> self@.before_move(self.config, input).ball.advanced(
            self.config.field_width as int,
            input.ticks as int,
        ).fits()
    }

    /// Starts a session with the given obstacles: the paddle at rest, the
    /// ball launched from it, no points, and all lives.
    pub fn with_obstacles(config: Config, obstacles: Vec<Obstacle>) -> (game: Game)
        requires
            config.valid(),
            remaining(obstacles@) * config.hit_score <= u64::MAX,
        ensures
            game.config == config,
            game@ == fresh(config, obstacles@),
            game.wf(),
    {
        let paddle: Paddle = Paddle::new(
            (config.field_width / 2) as i32,
            config.field_height as i32 - config.ground_offset as i32,
            config.paddle_width,
            config.paddle_height,
            config.paddle_speed,
        );
        let ball: Ball = launch(&config, &paddle);
        Game {
            config,
            paddle,
            ball,
            obstacles,
            score: 0,
            lives: config.start_lives,
            phase: Phase::Playing,
        }
    }

    /// Starts a session with a field of obstacles laid out at random.
    pub fn new(config: Config) -> (game: Game)
        requires
            config.valid(),
        ensures
            game.config == config,
            game@.is_new(config),
            game.wf(),
    {
        let mut obstacles: Vec<Obstacle> = Vec::new();
        generate_obstacles(&config, &mut obstacles);
        proof {
            assert(obstacles@.skip(0) =~= obstacles@);
            lemma_field_has_room(config, obstacles@);
        }
        Game::with_obstacles(config, obstacles)
    }

    /// Starts the session anew with the given obstacles. Paddle, ball, score,
    /// lives and phase are all set back together.
    pub fn restart_with(&mut self, obstacles: Vec<Obstacle>)
        requires
            old(self).config.valid(),
            remaining(obstacles@) * old(self).config.hit_score <= u64::MAX,
        ensures
            final(self).config == old(self).config,
            final(self)@ == fresh(old(self).config, obstacles@),
            final(self).wf(),
    {
        *self = Game::with_obstacles(self.config, obstacles);
    }

    /// Starts the session anew with a field of obstacles laid out at random.
    /// Obstacles, paddle, ball, score, lives and phase are all set back
    /// together.
    pub fn reset(&mut self)
        requires
            old(self).config.valid(),
        ensures
            final(self).config == old(self).config,
            final(self)@.is_new(old(self).config),
            final(self).wf(),
    {
        let mut obstacles: Vec<Obstacle> = Vec::new();
        generate_obstacles(&self.config, &mut obstacles);
        proof {
            assert(obstacles@.skip(0) =~= obstacles@);
            lemma_field_has_room(self.config, obstacles@);
        }
        self.restart_with(obstacles);
    }

    /// Tests whether the session is in order.
    pub fn is_well_formed(&self) -> (ok: bool)
        ensures
            ok == self.wf(),
    {
        if !self.config.is_valid() {
            return false;
        }
        let top: i32 = self.config.field_height as i32 - self.config.ground_offset as i32 - (
        self.config.paddle_height / 2) as i32;
        let left: usize = count_remaining(&self.obstacles);
        assert(0 <= (left as int) * (self.config.hit_score as int) <= 0xffff_ffff_ffff_ffff
            * 0xffff) by (nonlinear_arith)
            requires
                0 <= left <= 0xffff_ffff_ffff_ffff,
                0 <= self.config.hit_score <= 0xffff,
        ;
        let owed: u128 = (left as u128) * (self.config.hit_score as u128);
        self.paddle.size.width == self.config.paddle_width && self.paddle.size.height
            == self.config.paddle_height && self.paddle.speed == self.config.paddle_speed
            && self.paddle.pos.y == top && self.paddle.pos.x >= 0 && self.paddle.pos.x as i64
            + self.paddle.size.width as i64 <= self.config.field_width as i64 && self.ball.radius
            == self.config.ball_radius && self.ball.velocity.y > i32::MIN && self.score as u128
            + owed <= u64::MAX as u128
    }

    /// Tests whether the session is in order and can take a tick with this input.
    pub fn can_tick(&self, input: Input) -> (ok: bool)
        ensures
            ok == self.ready(input),
    {
        if !self.is_well_formed() {
            return false;
        }
        let moves: bool = match self.phase {
            Phase::Playing => !input.toggle,
            Phase::Paused => input.toggle,
            Phase::GameOver => false,
            Phase::Won => false,
        };
        if !moves {
            return true;
        }
        let width: u16 = self.config.field_width;
        let mut paddle: Paddle = self.paddle;
        if input.left {
            paddle.slide(Direction::Left(input.ticks), width);
        }
        if input.right {
            paddle.slide(Direction::Right(input.ticks), width);
        }
        let mut ball: Ball = self.ball;
        if find_target(&self.obstacles, &self.ball) < self.obstacles.len() {
            ball.rebound();
        }
        if ball.collides_with(paddle.pos, paddle.size) {
            ball.rebound();
        }
        ball.can_update(width, input.ticks)
    }

    /// Moves the paddle as the direction keys ask.
    pub fn steer(&mut self, input: Input)
        requires
            old(self).wf(),
        ensures
            final(self).config == old(self).config,
            final(self)@ == old(self)@.steered(old(self).config, input),
            final(self).wf(),
    {
        let width: u16 = self.config.field_width;
        if input.left {
            self.paddle.slide(Direction::Left(input.ticks), width);
        }
        if input.right {
            self.paddle.slide(Direction::Right(input.ticks), width);
        }
    }

    /// Lets the ball destroy the first intact obstacle that it overlaps.
    pub fn strike(&mut self)
        requires
            old(self).wf(),
        ensures
            final(self).config == old(self).config,
            final(self)@ == old(self)@.struck(old(self).config),
            final(self).wf(),
    {
        let i: usize = find_target(&self.obstacles, &self.ball);
        if i < self.obstacles.len() {
            let obstacle: Obstacle = self.obstacles[i];
            proof {
                lemma_remaining_after_hit(self.obstacles@, i as int);
                assert(remaining(self.obstacles@) * self.config.hit_score == (remaining(
                    self.obstacles@,
                ) - 1) * self.config.hit_score + self.config.hit_score) by (nonlinear_arith);
                assert((remaining(self.obstacles@) - 1) * self.config.hit_score >= 0)
                    by (nonlinear_arith)
                    requires
                        remaining(self.obstacles@) >= 1,
                        self.config.hit_score >= 0,
                ;
            }
            self.score = self.score + self.config.hit_score as u64;
            self.ball.rebound();
            self.obstacles.set(i, Obstacle { pos: obstacle.pos, size: obstacle.size, hit: true });
        }
    }

    /// Lets the ball bounce off the paddle if it overlaps it.
    pub fn deflect(&mut self)
        requires
            old(self).wf(),
        ensures
            final(self).config == old(self).config,
            final(self)@ == old(self)@.deflected(),
            final(self).wf(),
    {
        if self.ball.collides_with(self.paddle.pos, self.paddle.size) {
            self.ball.rebound();
        }
    }

    /// Updates the ball over the elapsed ticks, unless the game is paused.
    pub fn advance(&mut self, ticks: u8)
        requires
            old(self).wf(),
            old(self).phase != Phase::Paused ==> old(self).ball@.advanced(
                old(self).config.field_width as int,
                ticks as int,
            ).fits(),
        ensures
            final(self).config == old(self).config,
            final(self)@ == old(self)@.moved(old(self).config, ticks as int),
            final(self).wf(),
    {
        match self.phase {
            Phase::Paused => {},
            _ => {
                let width: u16 = self.config.field_width;
                self.ball.update(width, ticks);
            },
        }
    }

    /// Ends a tick: counts a miss, and decides whether the game is over or won.
    pub fn judge(&mut self)
        requires
            old(self).wf(),
        ensures
            final(self).config == old(self).config,
            final(self)@ == old(self)@.judged(old(self).config),
            final(self).wf(),
    {
        if self.ball.past_bottom(self.config.field_height) {
            if self.lives > 0 {
                self.lives = self.lives - 1;
            }
            if self.lives == 0 {
                self.phase = Phase::GameOver;
            } else {
                self.ball = launch(&self.config, &self.paddle);
            }
        }
        if all_destroyed(&self.obstacles) {
            self.phase = Phase::Won;
        }
    }

    /// Advances the session by one tick.
    ///
    /// After the play is over, the toggle key starts the session anew with a
    /// fresh random field, and without it nothing changes. Otherwise the
    /// toggle key pauses or resumes, and the tick runs its course.
    pub fn tick(&mut self, input: Input)
        requires
            old(self).ready(input),
        ensures
            final(self).config == old(self).config,
            final(self).wf(),
            old(self)@.restarts(input) ==> final(self)@.is_new(old(self).config),
            !old(self)@.restarts(input) ==> final(self)@ == old(self)@.ticked(
                old(self).config,
                input,
            ),
    {
        match self.phase {
            Phase::GameOver | Phase::Won => {
                if input.toggle {
                    self.reset();
                }
                return;
            },
            Phase::Playing => {
                if input.toggle {
                    self.phase = Phase::Paused;
                }
            },
            Phase::Paused => {
                if input.toggle {
                    self.phase = Phase::Playing;
                }
            },
        }
        self.steer(input);
        self.strike();
        self.deflect();
        self.advance(input.ticks);
        self.judge();
    }
}

/// The score of a new session has room for the points of a whole field.
pub proof fn lemma_field_has_room(cfg: Config, obstacles: Seq<Obstacle>)
    requires
        obstacles.len() <= cfg.rows * cfg.field_width,
    ensures
        remaining(obstacles) * cfg.hit_score <= u64::MAX,
{
    lemma_none_remaining_iff_all_hit(obstacles);
    assert(cfg.rows * cfg.field_width <= 255 * 65535) by (nonlinear_arith)
        requires
            0 <= cfg.rows <= 255,
            0 <= cfg.field_width <= 65535,
    ;
    assert(remaining(obstacles) * cfg.hit_score <= 255 * 65535 * 65535) by (nonlinear_arith)
        requires
            0 <= remaining(obstacles) <= 255 * 65535,
            0 <= cfg.hit_score <= 65535,
    ;
}

} // verus!
