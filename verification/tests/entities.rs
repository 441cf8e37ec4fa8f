use crabout::ball::Ball;
use crabout::geometry::{Size, Vec2};
use crabout::paddle::{Direction, Paddle};

fn paddle_at(x: i32) -> Paddle {
    Paddle { pos: Vec2 { x, y: 375 }, size: Size { width: 100, height: 10 }, speed: 12 }
}

#[test]
fn paddle_is_built_around_its_centre() {
    let paddle = Paddle::new(320, 380, 100, 10, 12);
    assert_eq!(paddle.pos, Vec2 { x: 270, y: 375 });
    assert_eq!(paddle.size, Size { width: 100, height: 10 });
    assert_eq!(paddle.speed, 12);
}

#[test]
fn paddle_of_odd_extent_rounds_its_half_down() {
    let paddle = Paddle::new(10, 10, 5, 3, 1);
    assert_eq!(paddle.pos, Vec2 { x: 8, y: 9 });
}

#[test]
fn paddle_slides_right_by_its_speed() {
    let mut paddle = Paddle::new(320, 380, 100, 10, 12);
    assert_eq!(paddle.pos.x, 270);
    paddle.slide(Direction::Right(1), 640);
    assert_eq!(paddle.pos.x, 282);
    assert!(paddle.pos.x <= 540);
}

#[test]
fn paddle_slides_left_by_its_speed_times_the_ticks() {
    let mut paddle = Paddle::new(320, 380, 100, 10, 12);
    paddle.slide(Direction::Left(3), 640);
    assert_eq!(paddle.pos.x, 234);
    assert_eq!(paddle.pos.y, 375);
}

#[test]
fn paddle_reaches_the_wall_but_does_not_cross_it() {
    let mut paddle = paddle_at(528);
    paddle.slide(Direction::Right(1), 640);
    assert_eq!(paddle.pos.x, 540);
    paddle.slide(Direction::Right(1), 640);
    assert_eq!(paddle.pos.x, 540);

    let mut paddle = paddle_at(12);
    paddle.slide(Direction::Left(1), 640);
    assert_eq!(paddle.pos.x, 0);
    paddle.slide(Direction::Left(1), 640);
    assert_eq!(paddle.pos.x, 0);
}

#[test]
fn paddle_takes_no_partial_step() {
    let mut paddle = paddle_at(530);
    paddle.slide(Direction::Right(1), 640);
    assert_eq!(paddle.pos.x, 530);

    let mut paddle = paddle_at(11);
    paddle.slide(Direction::Left(1), 640);
    assert_eq!(paddle.pos.x, 11);
    paddle.slide(Direction::Left(0), 640);
    assert_eq!(paddle.pos.x, 11);
}

#[test]
fn paddle_stays_between_the_walls_whatever_is_asked() {
    let mut paddle = Paddle::new(320, 380, 100, 10, 12);
    let mut i: u32 = 0;
    while i < 500 {
        let ticks = (i % 4) as u8;
        let dir = if (i / 7) % 3 == 0 { Direction::Left(ticks) } else { Direction::Right(ticks) };
        paddle.slide(dir, 640);
        assert!(paddle.pos.x >= 0);
        assert!(paddle.pos.x + 100 <= 640);
        i += 1;
    }
}

#[test]
fn ball_at_the_left_wall_turns_before_it_moves() {
    let mut ball = Ball::new(5, 5, 10, 5, 5);
    ball.update(640, 1);
    assert_eq!(ball.velocity.x, -5);
    assert_eq!(ball.center.x, 0);
    // It is at the top wall as well.
    assert_eq!(ball.velocity.y, -5);
    assert_eq!(ball.center.y, 0);
    assert_eq!(ball.radius, 10);
}

#[test]
fn ball_in_the_open_moves_by_its_velocity_times_the_ticks() {
    let mut ball = Ball::new(320, 355, 10, 5, -4);
    ball.update(640, 3);
    assert_eq!(ball.center, Vec2 { x: 335, y: 343 });
    assert_eq!(ball.velocity, Vec2 { x: 5, y: -4 });
    ball.update(640, 0);
    assert_eq!(ball.center, Vec2 { x: 335, y: 343 });
}

#[test]
fn ball_turns_at_the_right_wall() {
    let mut ball = Ball::new(630, 200, 10, 5, 5);
    ball.update(640, 1);
    assert_eq!(ball.velocity, Vec2 { x: -5, y: 5 });
    assert_eq!(ball.center, Vec2 { x: 625, y: 205 });

    let mut ball = Ball::new(629, 200, 10, 5, 5);
    ball.update(640, 1);
    assert_eq!(ball.velocity, Vec2 { x: 5, y: 5 });
    assert_eq!(ball.center, Vec2 { x: 634, y: 205 });
}

#[test]
fn ball_turns_at_the_top_wall_only() {
    let mut ball = Ball::new(300, 10, 10, 5, -5);
    ball.update(640, 1);
    assert_eq!(ball.velocity, Vec2 { x: 5, y: 5 });
    assert_eq!(ball.center, Vec2 { x: 305, y: 15 });

    // Nothing turns the ball at the bottom: it falls through.
    let mut ball = Ball::new(300, 475, 10, 5, 5);
    ball.update(640, 1);
    assert_eq!(ball.velocity, Vec2 { x: 5, y: 5 });
    assert_eq!(ball.center, Vec2 { x: 305, y: 480 });
    assert!(ball.past_bottom(480));
}

#[test]
fn ball_is_past_the_bottom_when_its_lowest_point_is_below_it() {
    assert!(!Ball::new(300, 470, 10, 5, 5).past_bottom(480));
    assert!(Ball::new(300, 471, 10, 5, 5).past_bottom(480));
}

#[test]
fn ball_rebounds_by_reversing_its_vertical_velocity() {
    let mut ball = Ball::new(300, 200, 10, 5, 7);
    ball.rebound();
    assert_eq!(ball.velocity, Vec2 { x: 5, y: -7 });
    assert_eq!(ball.center, Vec2 { x: 300, y: 200 });
    ball.rebound();
    assert_eq!(ball.velocity, Vec2 { x: 5, y: 7 });
}

#[test]
fn ball_collides_with_what_it_overlaps() {
    let ball = Ball::new(125, 90, 10, 5, 5);
    assert!(ball.collides_with(Vec2 { x: 100, y: 100 }, Size { width: 50, height: 20 }));
    assert!(!ball.collides_with(Vec2 { x: 100, y: 101 }, Size { width: 50, height: 20 }));
}

#[test]
fn ball_can_be_updated_while_the_result_is_in_range() {
    assert!(Ball::new(320, 355, 10, 5, 5).can_update(640, 255));
    // At the right wall the ball turns back, away from the end of the range.
    assert!(Ball::new(i32::MAX - 4, 300, 10, 5, 5).can_update(640, 1));
    assert!(!Ball::new(i32::MAX - 4, 300, 10, -5, 5).can_update(640, 1));
    assert!(Ball::new(i32::MAX - 4, 300, 10, -5, 5).can_update(640, 0));
    // At the left wall a ball that heads right is turned to the left.
    assert!(Ball::new(i32::MIN + 5, 300, 10, 5, 5).can_update(640, 1));
    assert!(!Ball::new(i32::MIN + 4, 300, 10, 5, 5).can_update(640, 1));
    assert!(!Ball::new(320, i32::MAX - 9, 10, 5, 5).can_update(640, 2));
    assert!(Ball::new(320, i32::MAX - 10, 10, 5, 5).can_update(640, 2));
    // A velocity that cannot be reversed stops the update at a wall only.
    assert!(!Ball::new(0, 300, 10, i32::MIN, 5).can_update(640, 0));
    assert!(Ball::new(320, 300, 10, i32::MIN, 5).can_update(640, 0));
    assert!(!Ball::new(320, 0, 10, 5, i32::MIN).can_update(640, 0));
}

#[test]
fn ball_in_orderly_play_keeps_its_centre_in_the_field() {
    let mut ball = Ball::new(320, 240, 10, 5, -5);
    let mut i: u32 = 0;
    while i < 5000 {
        ball.update(640, 2);
        if ball.past_bottom(480) {
            ball = Ball::new(320, 240, 10, 5, -5);
        } else {
            assert!(0 <= ball.center.x && ball.center.x <= 640);
            assert!(0 <= ball.center.y && ball.center.y <= 480);
        }
        i += 1;
    }
}
