use crabout::config::Config;
use crabout::field::{fit_width, generate_obstacles, lay_row, place};
use crabout::geometry::{Size, Vec2};
use crabout::obstacle::{all_destroyed, count_remaining, Obstacle};

fn assert_rows_tile(cfg: &Config, obstacles: &[Obstacle]) {
    let width = cfg.field_width as i32;
    let mut i = 0;
    let mut row: i32 = 0;
    while row < cfg.rows as i32 {
        let top = row * (cfg.brick_height as i32 + cfg.row_spacing as i32);
        let mut cursor: i32 = 0;
        loop {
            assert!(i < obstacles.len());
            let brick = obstacles[i];
            i += 1;
            assert!(!brick.hit);
            assert_eq!(brick.pos, Vec2 { x: cursor, y: top });
            assert_eq!(brick.size.height, cfg.brick_height);
            assert!(brick.size.width >= 1);
            let right = cursor + brick.size.width as i32;
            assert!(right <= width);
            if right == width {
                let widest = 2 * cfg.min_width as u32 + cfg.width_range as u32;
                assert!((brick.size.width as u32) < widest);
                break;
            }
            assert!(brick.size.width >= cfg.min_width);
            assert!((brick.size.width as u32) < cfg.min_width as u32 + cfg.width_range as u32);
            assert!(right + cfg.min_width as i32 <= width);
            cursor = right + cfg.brick_gap as i32;
            assert!(cursor < width);
        }
        row += 1;
    }
    assert_eq!(i, obstacles.len());
}

#[test]
fn width_is_the_least_width_plus_the_draw() {
    let cfg = Config::classic();
    assert_eq!(fit_width(&cfg, 0, 0), 70);
    assert_eq!(fit_width(&cfg, 0, 10), 80);
    assert_eq!(fit_width(&cfg, 72, 79), 149);
}

#[test]
fn width_takes_the_rest_of_the_row_when_less_than_the_least_would_be_left() {
    let cfg = Config::classic();
    // 500 + 70 + 70 = 640 still fits.
    assert_eq!(fit_width(&cfg, 500, 0), 70);
    // 501 + 70 + 70 = 641 does not.
    assert_eq!(fit_width(&cfg, 501, 0), 139);
    assert_eq!(fit_width(&cfg, 454, 50), 186);
    assert_eq!(fit_width(&cfg, 639, 0), 1);
    assert_eq!(fit_width(&cfg, 600, 79), 40);
}

#[test]
fn obstacle_is_placed_at_the_cursor_in_its_row() {
    let cfg = Config::classic();
    let brick = place(&cfg, 2, 154, 149);
    assert_eq!(brick.pos, Vec2 { x: 154, y: 150 });
    assert_eq!(brick.size, Size { width: 149, height: 25 });
    assert!(!brick.hit);
    assert_eq!(place(&cfg, 0, 0, 70).pos, Vec2 { x: 0, y: 0 });
    assert_eq!(place(&cfg, 4, 0, 70).pos, Vec2 { x: 0, y: 300 });
}

#[test]
fn row_is_laid_out_from_its_draws() {
    let cfg = Config::classic();
    let draws: Vec<u16> = vec![0, 10, 79, 5, 0, 50, 7, 7, 7];
    let row = lay_row(&cfg, 2, &draws);
    let xs: Vec<i32> = row.iter().map(|b| b.pos.x).collect();
    let widths: Vec<u16> = row.iter().map(|b| b.size.width).collect();
    assert_eq!(xs, vec![0, 72, 154, 305, 382, 454]);
    assert_eq!(widths, vec![70, 80, 149, 75, 70, 186]);
    for brick in row.iter() {
        assert_eq!(brick.pos.y, 150);
        assert_eq!(brick.size.height, 25);
        assert!(!brick.hit);
    }
}

#[test]
fn row_of_least_widths_ends_with_a_narrow_obstacle() {
    let cfg = Config::classic();
    let draws: Vec<u16> = vec![0; 9];
    let row = lay_row(&cfg, 0, &draws);
    let widths: Vec<u16> = row.iter().map(|b| b.size.width).collect();
    // Seven obstacles of 70 with gaps of 2 reach 504; 504 + 70 + 70 > 640.
    assert_eq!(widths, vec![70, 70, 70, 70, 70, 70, 70, 136]);
    assert_eq!(row[7].pos.x, 504);
    assert_rows_tile(&Config { rows: 1, ..cfg }, &row);
}

#[test]
fn row_stops_where_the_draws_run_out() {
    let cfg = Config::classic();
    let row = lay_row(&cfg, 0, &vec![3, 4]);
    let widths: Vec<u16> = row.iter().map(|b| b.size.width).collect();
    assert_eq!(widths, vec![73, 74]);
    assert!(lay_row(&cfg, 0, &Vec::new()).is_empty());
}

#[test]
fn row_with_enough_draws_tiles_the_field() {
    let cfg = Config {
        field_width: 1000,
        min_width: 30,
        width_range: 50,
        brick_gap: 7,
        rows: 1,
        ..Config::classic()
    };
    assert!(cfg.is_valid());
    let mut seed: u32 = 12345;
    let mut round = 0;
    while round < 200 {
        let mut draws: Vec<u16> = Vec::new();
        while draws.len() < 1000 / 37 + 1 {
            seed = seed.wrapping_mul(1664525).wrapping_add(1013904223);
            draws.push(((seed >> 16) % 50) as u16);
        }
        let row = lay_row(&cfg, 0, &draws);
        assert_rows_tile(&cfg, &row);
        round += 1;
    }
}

#[test]
fn generated_field_tiles_every_row() {
    let cfg = Config::classic();
    let mut round = 0;
    while round < 50 {
        let mut obstacles: Vec<Obstacle> = Vec::new();
        generate_obstacles(&cfg, &mut obstacles);
        assert_rows_tile(&cfg, &obstacles);
        assert!(obstacles.len() >= 5 * 4);
        assert!(obstacles.len() <= 5 * 8);
        assert_eq!(count_remaining(&obstacles), obstacles.len());
        assert!(!all_destroyed(&obstacles));
        round += 1;
    }
}

#[test]
fn generated_widths_stay_below_the_end_of_their_range() {
    // With a range of one, every draw is 0 and every width but the last is
    // the least width.
    let cfg = Config { width_range: 1, ..Config::classic() };
    let mut obstacles: Vec<Obstacle> = Vec::new();
    generate_obstacles(&cfg, &mut obstacles);
    assert_eq!(obstacles.len(), 40);
    let mut i = 0;
    while i < obstacles.len() {
        let expected: u16 = if i % 8 == 7 { 136 } else { 70 };
        assert_eq!(obstacles[i].size.width, expected);
        i += 1;
    }
}

#[test]
fn generated_fields_differ_from_each_other() {
    let cfg = Config::classic();
    let mut first: Vec<Obstacle> = Vec::new();
    generate_obstacles(&cfg, &mut first);
    let mut differs = false;
    let mut round = 0;
    while round < 20 && !differs {
        let mut next: Vec<Obstacle> = Vec::new();
        generate_obstacles(&cfg, &mut next);
        differs = next != first;
        round += 1;
    }
    assert!(differs);
}

#[test]
fn generating_appends_to_what_is_there() {
    let cfg = Config { rows: 2, ..Config::classic() };
    let marker =
        Obstacle { pos: Vec2 { x: -1, y: -1 }, size: Size { width: 3, height: 3 }, hit: true };
    let mut obstacles: Vec<Obstacle> = vec![marker];
    generate_obstacles(&cfg, &mut obstacles);
    assert_eq!(obstacles[0], marker);
    assert_rows_tile(&cfg, &obstacles[1..]);
}

#[test]
fn no_rows_give_no_obstacles() {
    let cfg = Config { rows: 0, ..Config::classic() };
    let mut obstacles: Vec<Obstacle> = Vec::new();
    generate_obstacles(&cfg, &mut obstacles);
    assert!(obstacles.is_empty());
    assert!(all_destroyed(&obstacles));
    assert_eq!(count_remaining(&obstacles), 0);
}

#[test]
fn narrowest_field_holds_one_obstacle_per_row() {
    let cfg = Config {
        field_width: 1,
        paddle_width: 1,
        min_width: 1,
        brick_gap: 0,
        rows: 3,
        ..Config::classic()
    };
    assert!(cfg.is_valid());
    let mut obstacles: Vec<Obstacle> = Vec::new();
    generate_obstacles(&cfg, &mut obstacles);
    assert_eq!(obstacles.len(), 3);
    assert_rows_tile(&cfg, &obstacles);
}

#[test]
fn remaining_counts_the_intact_obstacles() {
    let intact =
        Obstacle { pos: Vec2 { x: 0, y: 0 }, size: Size { width: 10, height: 10 }, hit: false };
    let gone = Obstacle { hit: true, ..intact };
    assert_eq!(count_remaining(&vec![intact, gone, intact]), 2);
    assert_eq!(count_remaining(&vec![gone, gone]), 0);
    assert!(all_destroyed(&vec![gone, gone]));
    assert!(!all_destroyed(&vec![gone, intact]));
}

#[test]
fn classic_configuration_is_valid() {
    let cfg = Config::classic();
    assert!(cfg.is_valid());
    assert_eq!((cfg.field_width, cfg.field_height), (640, 480));
    assert_eq!(cfg.start_lives, 3);
    assert_eq!(cfg.hit_score, 10);
}

#[test]
fn configuration_that_cannot_be_played_is_not_valid() {
    let cfg = Config::classic();
    assert!(!Config { min_width: 641, ..cfg }.is_valid());
    assert!(Config { min_width: 640, ..cfg }.is_valid());
    assert!(!Config { min_width: 0, brick_gap: 0, ..cfg }.is_valid());
    assert!(!Config { field_width: 0, ..cfg }.is_valid());
    assert!(!Config { field_height: 0, ..cfg }.is_valid());
    assert!(!Config { paddle_width: 641, ..cfg }.is_valid());
    assert!(!Config { width_range: 0, ..cfg }.is_valid());
    assert!(!Config { brick_gap: 70, ..cfg }.is_valid());
    assert!(Config { brick_gap: 69, ..cfg }.is_valid());
}
