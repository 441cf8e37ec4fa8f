//! What holds of a session from tick to tick.

use vstd::prelude::*;
use crate::ball::{lemma_in_play_is_inside, lemma_update_keeps_in_play};
use crate::config::Config;
use crate::game::{is_final, launched, toggled, GameState, Input, Phase};
use crate::geometry::distance;
use crate::obstacle::{
    all_hit, first_target, is_target, lemma_first_target_from, lemma_remaining_after_hit,
    outlines, remaining,
};
use crate::paddle::{lemma_slide_stays_within, Direction, PaddleState};

verus! {

/// The collisions of this tick change the ball's vertical velocity.
pub open spec fn bounces(s: GameState, cfg: Config, input: Input) -> bool {
    s.before_move(cfg, input).ball.vy != s.ball.vy
}

/// The ball is missed in this tick: once it has been updated, its lowest
/// point is below the bottom edge of the field.
pub open spec fn misses(s: GameState, cfg: Config, input: Input) -> bool {
    s.before_move(cfg, input).moved(cfg, input.ticks as int).missed(cfg)
}

/// While the game is on, a tick keeps a ball in orderly play, and the ball's
/// centre is in the field after every tick in which the ball is not missed.
///
/// The ball must be in orderly play for the ticks of this input, and no
/// collision may reverse its vertical velocity while it is at the top wall.
pub proof fn lemma_tick_keeps_ball_in_field(s: GameState, cfg: Config, input: Input)
    requires
        !is_final(s.phase),
        s.ball.in_play(cfg.field_width as int, input.ticks as int),
        s.ball.at_top_wall() ==> !bounces(s, cfg, input),
    ensures
        s.before_move(cfg, input).moved(cfg, input.ticks as int).ball.in_play(
            cfg.field_width as int,
            input.ticks as int,
        ),
        !misses(s, cfg, input) ==> s.ticked(cfg, input).ball.in_play(
            cfg.field_width as int,
            input.ticks as int,
        ) && s.ticked(cfg, input).ball.in_field(cfg.field_width as int, cfg.field_height as int),
{
    let width: int = cfg.field_width as int;
    let ticks: int = input.ticks as int;
    let before: GameState = s.before_move(cfg, input);
    assert(before.ball == s.ball || before.ball == s.ball.rebounded());
    lemma_update_keeps_in_play(before.ball, width, cfg.field_height as int, ticks);
}

/// A ball launched from a paddle that lies between the side walls is in
/// orderly play, if the paddle is more than twice as wide as the ball's
/// radius, the launch point is clear of the top wall, and no step at the
/// launch velocity is longer than the radius.
pub proof fn lemma_launch_in_play(cfg: Config, paddle: PaddleState, ticks: int)
    requires
        0 <= ticks,
        paddle.within(cfg.field_width as int),
        cfg.ball_radius < paddle.w / 2,
        cfg.ball_radius < paddle.y - 2 * cfg.ball_radius,
        distance(cfg.launch_dx as int, 0) * ticks <= cfg.ball_radius,
        distance(cfg.launch_dy as int, 0) * ticks <= cfg.ball_radius,
    ensures
        launched(cfg, paddle).in_play(cfg.field_width as int, ticks),
{
}

/// Destroying an obstacle raises the score by exactly the points for a hit,
/// marks that obstacle, which was intact, and no other, moves none, and
/// reverses the ball's vertical velocity.
pub proof fn lemma_strike_destroys_one(s: GameState, cfg: Config)
    requires
        first_target(s.obstacles, s.ball.circle()) < s.obstacles.len(),
    ensures
        s.struck(cfg).score == s.score + cfg.hit_score,
        s.struck(cfg).obstacles.len() == s.obstacles.len(),
        !s.obstacles[first_target(s.obstacles, s.ball.circle())].hit,
        s.struck(cfg).obstacles[first_target(s.obstacles, s.ball.circle())].hit,
        forall|j: int|
            0 <= j < s.obstacles.len() && j != first_target(s.obstacles, s.ball.circle())
                ==> #[trigger] s.struck(cfg).obstacles[j] == s.obstacles[j],
        remaining(s.struck(cfg).obstacles) + 1 == remaining(s.obstacles),
        s.struck(cfg).ball == s.ball.rebounded(),
        outlines(s.struck(cfg).obstacles) == outlines(s.obstacles),
{
    let i: int = first_target(s.obstacles, s.ball.circle());
    lemma_first_target_from(s.obstacles, s.ball.circle(), 0);
    lemma_remaining_after_hit(s.obstacles, i);
    assert(outlines(s.struck(cfg).obstacles) =~= outlines(s.obstacles));
}

/// Overlapping obstacles that are already destroyed has no effect: where
/// every obstacle that the ball overlaps is destroyed, a strike changes
/// nothing.
pub proof fn lemma_strike_spares_destroyed(s: GameState, cfg: Config)
    requires
        forall|i: int|
            0 <= i < s.obstacles.len() && s.ball.circle().meets(s.obstacles[i].rect()) ==> (
            #[trigger] s.obstacles[i]).hit,
    ensures
        s.struck(cfg) == s,
{
    lemma_first_target_from(s.obstacles, s.ball.circle(), 0);
}

/// A strike destroys at most one obstacle, and only one that the ball
/// overlaps and that was intact.
pub proof fn lemma_strike_hits_first_only(s: GameState, cfg: Config, j: int)
    requires
        0 <= j < s.obstacles.len(),
        s.struck(cfg).obstacles[j] != s.obstacles[j],
    ensures
        j == first_target(s.obstacles, s.ball.circle()),
        is_target(s.obstacles, s.ball.circle(), j),
        forall|k: int| 0 <= k < j ==> !is_target(s.obstacles, s.ball.circle(), k),
{
    lemma_first_target_from(s.obstacles, s.ball.circle(), 0);
}

/// While the game is on, a miss with at most one life left ends the game,
/// unless the last obstacle was destroyed in the same tick.
pub proof fn lemma_last_life_lost_ends_game(s: GameState, cfg: Config, input: Input)
    requires
        !is_final(s.phase),
        0 <= s.lives <= 1,
        misses(s, cfg, input),
        !all_hit(s.before_move(cfg, input).obstacles),
    ensures
        s.ticked(cfg, input).phase == Phase::GameOver,
        s.ticked(cfg, input).lives == 0,
{
}

/// While the game is on, a miss with more than one life left costs one life
/// and launches the ball again from the paddle.
pub proof fn lemma_miss_costs_a_life(s: GameState, cfg: Config, input: Input)
    requires
        !is_final(s.phase),
        s.lives > 1,
        misses(s, cfg, input),
    ensures
        s.ticked(cfg, input).lives == s.lives - 1,
        s.ticked(cfg, input).ball == launched(cfg, s.ticked(cfg, input).paddle),
        s.ticked(cfg, input).phase != Phase::GameOver,
{
}

/// While the game is on, the game is won at the end of a tick exactly if
/// every obstacle is then destroyed.
pub proof fn lemma_cleared_field_wins(s: GameState, cfg: Config, input: Input)
    requires
        !is_final(s.phase),
    ensures
        (s.ticked(cfg, input).phase == Phase::Won) == all_hit(s.ticked(cfg, input).obstacles),
{
}

/// While the game is on, the game is over at the end of a tick only if the
/// ball was missed and no life is left.
pub proof fn lemma_game_over_only_without_lives(s: GameState, cfg: Config, input: Input)
    requires
        !is_final(s.phase),
        s.lives >= 0,
        s.ticked(cfg, input).phase == Phase::GameOver,
    ensures
        misses(s, cfg, input),
        s.ticked(cfg, input).lives == 0,
{
}

/// A tick never lowers the score, never adds a life, never removes,
/// moves or restores an obstacle, and never carries the paddle across a
/// side wall.
pub proof fn lemma_tick_is_monotone(s: GameState, cfg: Config, input: Input)
    requires
        s.lives >= 0,
        s.paddle.speed >= 0,
        s.paddle.within(cfg.field_width as int),
    ensures
        s.ticked(cfg, input).score >= s.score,
        s.ticked(cfg, input).score <= s.score + cfg.hit_score,
        0 <= s.ticked(cfg, input).lives <= s.lives,
        s.ticked(cfg, input).lives >= s.lives - 1,
        s.ticked(cfg, input).obstacles.len() == s.obstacles.len(),
        outlines(s.ticked(cfg, input).obstacles) == outlines(s.obstacles),
        forall|i: int|
            0 <= i < s.obstacles.len() && s.obstacles[i].hit ==> (#[trigger] s.ticked(
                cfg,
                input,
            ).obstacles[i]).hit,
        s.ticked(cfg, input).paddle.within(cfg.field_width as int),
{
    if !is_final(s.phase) {
        let width: int = cfg.field_width as int;
        lemma_first_target_from(s.obstacles, s.ball.circle(), 0);
        let mid: PaddleState = if input.left {
            s.paddle.slid(Direction::Left(input.ticks), width)
        } else {
            s.paddle
        };
        if input.left {
            lemma_slide_stays_within(s.paddle, Direction::Left(input.ticks), width);
        }
        if input.right {
            lemma_slide_stays_within(mid, Direction::Right(input.ticks), width);
        }
    }
}

} // verus!
