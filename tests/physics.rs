use breakout::bump::{bump, check_bounds};
use breakout::collision::{
    aim_velocity_x, bounce_off_paddle, bounce_off_walls, find_block_hit, hit_blocks,
    resolve_collisions,
};
use breakout::config::{
    AIM_SPEED, BALL_START_SPEED, BLOCK_COOLDOWN, BUMP_DURATION, BUMP_HEIGHT, PADDLE_MAX_X,
    PADDLE_MIN_X, PADDLE_REST_Y,
};
use breakout::entities::{block_grid, Ball, Block, FrameInput, Paddle};
use breakout::motion::{advance_ball, steer_paddle};
use breakout::vector::Vector;

fn ball_at(x: i64, y: i64, vx: i64, vy: i64) -> Ball {
    Ball { position: Vector::new(x, y), velocity: Vector::new(vx, vy), cooldown: 0 }
}

fn input(left: bool, right: bool, action: bool) -> FrameInput {
    FrameInput { left, right, action }
}

#[test]
fn grid_fills_rows_from_the_top_left() {
    let grid = block_grid();
    assert_eq!(grid.len(), 64);
    assert_eq!(grid[0], Block { x: -600_000, y: 310_000 });
    assert_eq!(grid[1], Block { x: -520_000, y: 310_000 });
    assert_eq!(grid[15], Block { x: 600_000, y: 310_000 });
    assert_eq!(grid[16], Block { x: -600_000, y: 280_000 });
    assert_eq!(grid[63], Block { x: 600_000, y: 220_000 });
}

#[test]
fn paddle_steps_and_stays_on_the_field() {
    let mut p = Paddle::spawn();
    steer_paddle(&mut p, &input(true, false, false));
    assert_eq!(p.x, -12_000);
    steer_paddle(&mut p, &input(true, true, false));
    assert_eq!(p.x, -12_000);
    steer_paddle(&mut p, &input(false, true, false));
    steer_paddle(&mut p, &input(false, true, false));
    assert_eq!(p.x, 12_000);
    p.x = PADDLE_MAX_X;
    steer_paddle(&mut p, &input(false, true, false));
    assert_eq!(p.x, PADDLE_MAX_X);
    p.x = PADDLE_MIN_X + 5_000;
    steer_paddle(&mut p, &input(true, false, false));
    assert_eq!(p.x, PADDLE_MIN_X);
    assert_eq!(p.y, PADDLE_REST_Y);
}

#[test]
fn paddle_far_outside_is_brought_back() {
    let mut p = Paddle::spawn();
    p.x = 5_000_000;
    steer_paddle(&mut p, &input(false, false, false));
    assert_eq!(p.x, PADDLE_MAX_X);
    p.x = -5_000_000;
    steer_paddle(&mut p, &input(false, true, false));
    assert_eq!(p.x, PADDLE_MIN_X);
}

#[test]
fn ball_moves_by_velocity_times_frame_time() {
    let mut b = ball_at(0, 0, 200_000, -200_000);
    advance_ball(&mut b, 16_000);
    assert_eq!(b.position, Vector::new(3_200, -3_200));
    let mut c = ball_at(10, 10, -300_000, 0);
    advance_ball(&mut c, 16_667);
    assert_eq!(c.position, Vector::new(10 - 5_000, 10));
    let mut d = ball_at(0, 0, -1, 1);
    advance_ball(&mut d, 1);
    assert_eq!(d.position, Vector::new(0, 0));
}

#[test]
fn left_wall_turns_ball_right_and_clamps() {
    let mut b = ball_at(-620_000, 0, -300_000, 100_000);
    bounce_off_walls(&mut b);
    assert!(b.velocity.x > 0);
    assert_eq!(b.velocity, Vector::new(300_000, 100_000));
    assert_eq!(b.position.x, -640_000 + 33_000);
}

#[test]
fn right_wall_turns_ball_left_and_clamps() {
    let mut b = ball_at(620_000, 5, 300_000, 100_000);
    bounce_off_walls(&mut b);
    assert_eq!(b.velocity, Vector::new(-300_000, 100_000));
    assert_eq!(b.position, Vector::new(607_000, 5));
}

#[test]
fn side_wall_does_not_reflip_a_ball_already_moving_inward() {
    let mut b = ball_at(-620_000, 0, 300_000, 100_000);
    bounce_off_walls(&mut b);
    assert_eq!(b.velocity, Vector::new(300_000, 100_000));
    assert_eq!(b.position.x, -607_000);
}

#[test]
fn bottom_and_top_walls_reflect_and_damp() {
    let mut b = ball_at(0, -340_000, 100_000, -300_000);
    bounce_off_walls(&mut b);
    assert_eq!(b.velocity, Vector::new(90_000, 270_000));
    assert_eq!(b.position, Vector::new(0, -340_000));
    let mut t = ball_at(0, 340_000, 100_000, 300_000);
    bounce_off_walls(&mut t);
    assert_eq!(t.velocity, Vector::new(90_000, -270_000));
}

#[test]
fn ball_inside_the_walls_is_untouched() {
    let mut b = ball_at(100, 200, 300_000, -400_000);
    bounce_off_walls(&mut b);
    assert_eq!(b, ball_at(100, 200, 300_000, -400_000));
}

#[test]
fn aim_by_offset_from_paddle_center() {
    assert_eq!(aim_velocity_x(30_000), AIM_SPEED);
    assert_eq!(AIM_SPEED, BALL_START_SPEED * 8 / 10);
    assert_eq!(aim_velocity_x(-30_000), -AIM_SPEED);
    assert_eq!(aim_velocity_x(5_000), 0);
    assert_eq!(aim_velocity_x(5_001), AIM_SPEED);
    assert_eq!(aim_velocity_x(-5_000), 0);
    assert_eq!(aim_velocity_x(-5_001), -AIM_SPEED);
}

#[test]
fn paddle_hit_right_of_center_sends_ball_up_and_right() {
    let paddle = Paddle::spawn();
    // 60% of the half width to the right, lower edge within the paddle, falling
    let mut b = ball_at(30_000, -185_000, 0, -300_000);
    bounce_off_paddle(&mut b, &paddle);
    assert!(b.velocity.y > 0);
    // horizontal speed 0.8 of the start speed, then the whole vector times 1.15
    assert_eq!(b.velocity, Vector::new(184_000, 345_000));
}

#[test]
fn paddle_hit_left_of_center_sends_ball_left() {
    let paddle = Paddle::spawn();
    let mut b = ball_at(-30_000, -185_000, 50_000, -300_000);
    bounce_off_paddle(&mut b, &paddle);
    assert_eq!(b.velocity, Vector::new(-184_000, 345_000));
}

#[test]
fn paddle_hit_in_the_middle_sends_ball_straight() {
    let paddle = Paddle::spawn();
    let mut b = ball_at(2_000, -185_000, 50_000, -300_000);
    bounce_off_paddle(&mut b, &paddle);
    assert_eq!(b.velocity, Vector::new(0, 345_000));
}

#[test]
fn paddle_hit_from_below_speeds_up_more() {
    let paddle = Paddle::spawn();
    let mut b = ball_at(30_000, -250_000, 0, 300_000);
    bounce_off_paddle(&mut b, &paddle);
    assert_eq!(b.velocity, Vector::new(208_000, -390_000));
}

#[test]
fn rising_ball_above_paddle_is_not_hit_by_top_face() {
    let paddle = Paddle::spawn();
    let mut b = ball_at(0, -185_000, 100_000, 300_000);
    bounce_off_paddle(&mut b, &paddle);
    assert_eq!(b.velocity, Vector::new(100_000, 300_000));
}

#[test]
fn first_overlapping_block_is_found() {
    let grid = block_grid();
    assert_eq!(find_block_hit(Vector::new(-600_000, 310_000), &grid), Some(0));
    assert_eq!(find_block_hit(Vector::new(-600_000, 295_000), &grid), Some(0));
    assert_eq!(find_block_hit(Vector::new(-600_000, 270_000), &grid), Some(16));
    assert_eq!(find_block_hit(Vector::new(0, 0), &grid), None);
}

#[test]
fn destroying_a_block_scores_and_flips() {
    let mut grid = block_grid();
    let mut score: u32 = 0;
    let mut b = ball_at(-600_000, 310_000, 200_000, 200_000);
    let hit = hit_blocks(&mut b, &mut grid, &mut score);
    assert_eq!(hit, Some(0));
    assert_eq!(score, 1);
    assert_eq!(grid.len(), 63);
    assert_eq!(grid[0], Block { x: -520_000, y: 310_000 });
    assert_eq!(b.velocity, Vector::new(220_000, -220_000));
    assert_eq!(b.cooldown, BLOCK_COOLDOWN);
}

#[test]
fn resolver_destroys_one_block_per_overlap() {
    // the ball overlaps blocks 0 and 16; only the first goes
    let paddle = Paddle::spawn();
    let mut grid = block_grid();
    let mut score: u32 = 0;
    let mut b = ball_at(-600_000, 310_000, 200_000, 200_000);
    let hit = resolve_collisions(&mut b, &paddle, &mut grid, &mut score, 16_000);
    assert_eq!(hit, Some(0));
    assert_eq!(score, 1);
    assert_eq!(grid.len(), 63);
    assert_eq!(b.velocity, Vector::new(220_000, -220_000));
    assert_eq!(b.cooldown, BLOCK_COOLDOWN - 16_000);
    // next frame, still overlapping block 16 but cooling down
    let again = resolve_collisions(&mut b, &paddle, &mut grid, &mut score, 16_000);
    assert_eq!(again, None);
    assert_eq!(score, 1);
    assert_eq!(grid.len(), 63);
    assert_eq!(b.velocity, Vector::new(220_000, -220_000));
    assert_eq!(b.cooldown, BLOCK_COOLDOWN - 32_000);
}

#[test]
fn block_hit_speedup_is_clamped_to_maximum() {
    let paddle = Paddle::spawn();
    let mut grid = block_grid();
    let mut score: u32 = 0;
    let mut b = ball_at(-600_000, 310_000, 700_000, 700_000);
    resolve_collisions(&mut b, &paddle, &mut grid, &mut score, 16_000);
    assert_eq!(b.velocity, Vector::new(707_106, -707_106));
}

#[test]
fn cooldown_protects_overlapped_block() {
    let paddle = Paddle::spawn();
    let mut grid = block_grid();
    let mut score: u32 = 0;
    let mut b = ball_at(-600_000, 310_000, 200_000, 200_000);
    b.cooldown = 50_000;
    let hit = resolve_collisions(&mut b, &paddle, &mut grid, &mut score, 16_000);
    assert_eq!(hit, None);
    assert_eq!(score, 0);
    assert_eq!(grid.len(), 64);
    assert_eq!(b.velocity, Vector::new(200_000, 200_000));
    assert_eq!(b.cooldown, 34_000);
}

#[test]
fn cooldown_runs_down_to_zero() {
    let paddle = Paddle::spawn();
    let mut grid: Vec<Block> = Vec::new();
    let mut score: u32 = 0;
    let mut b = ball_at(0, 0, 200_000, 200_000);
    b.cooldown = 10_000;
    resolve_collisions(&mut b, &paddle, &mut grid, &mut score, 16_000);
    assert_eq!(b.cooldown, 0);
}

#[test]
fn bump_lifts_paddle_and_speeds_overlapping_ball() {
    let mut p = Paddle::spawn();
    let mut b = ball_at(0, -200_000, 600_000, 600_000);
    bump(&mut p, &mut b, true, 16_000);
    assert!(p.bouncing);
    assert_eq!(p.original_y, PADDLE_REST_Y);
    assert_eq!(p.y, PADDLE_REST_Y + BUMP_HEIGHT);
    assert_eq!(p.bounce_timer, BUMP_DURATION - 16_000);
    assert_eq!(b.velocity, Vector::new(707_106, 707_106));
    // a second press during the bump does not restart it
    bump(&mut p, &mut b, true, 16_000);
    assert_eq!(p.y, PADDLE_REST_Y + BUMP_HEIGHT);
    assert_eq!(p.bounce_timer, BUMP_DURATION - 32_000);
    // the bump ends and the paddle drops back
    bump(&mut p, &mut b, false, 200_000);
    assert!(!p.bouncing);
    assert_eq!(p.y, PADDLE_REST_Y);
}

#[test]
fn bump_without_overlap_keeps_ball_velocity() {
    let mut p = Paddle::spawn();
    let mut b = ball_at(0, 0, 300_000, 300_000);
    bump(&mut p, &mut b, true, 16_000);
    assert_eq!(b.velocity, Vector::new(300_000, 300_000));
    assert!(p.bouncing);
    let mut q = Paddle::spawn();
    bump(&mut q, &mut b, false, 16_000);
    assert_eq!(q, Paddle::spawn());
}

#[test]
fn watchdog_recovers_escaped_ball() {
    let mut b = ball_at(800_000, 5, 300_000, 300_000);
    check_bounds(&mut b);
    assert_eq!(b.position, Vector::new(0, 0));
    assert_eq!(b.velocity, Vector::new(BALL_START_SPEED, BALL_START_SPEED));
    let mut c = ball_at(0, -750_000, 300_000, 300_000);
    check_bounds(&mut c);
    assert_eq!(c.position, Vector::new(0, 0));
    let mut d = ball_at(740_000, -740_000, 300_000, 300_000);
    check_bounds(&mut d);
    assert_eq!(d, ball_at(740_000, -740_000, 300_000, 300_000));
}

#[test]
fn watchdog_restarts_stalled_ball() {
    let mut b = ball_at(10, 20, -1_000, 1_000);
    check_bounds(&mut b);
    assert_eq!(b.position, Vector::new(10, 20));
    assert_eq!(b.velocity, Vector::new(-141_422, 141_422));
    let mut c = ball_at(0, 0, 90_000, 0);
    check_bounds(&mut c);
    assert_eq!(c.velocity, Vector::new(200_000, 0));
    let mut d = ball_at(0, 0, 100_000, 0);
    check_bounds(&mut d);
    assert_eq!(d.velocity, Vector::new(100_000, 0));
}

#[test]
fn block_flip_is_a_plain_negation_and_can_flip_back() {
    // Known quirk: a block hit negates the vertical velocity instead of reflecting it,
    // so a ball still overlapping a second block once its cooldown runs out turns back.
    let paddle = Paddle::spawn();
    let mut grid = block_grid();
    let mut score: u32 = 0;
    let mut b = ball_at(-600_000, 295_000, 0, -200_000);
    let first = resolve_collisions(&mut b, &paddle, &mut grid, &mut score, BLOCK_COOLDOWN);
    assert_eq!(first, Some(0));
    assert_eq!(b.velocity, Vector::new(0, 220_000));
    assert_eq!(b.cooldown, 0);
    let second = resolve_collisions(&mut b, &paddle, &mut grid, &mut score, 16_000);
    assert_eq!(second, Some(15));
    assert_eq!(score, 2);
    assert_eq!(b.velocity, Vector::new(0, -242_000));
}

#[test]
fn watchdog_sends_stopped_ball_up_at_start_speed() {
    let mut b = ball_at(10, 20, 0, 0);
    check_bounds(&mut b);
    assert_eq!(b.position, Vector::new(10, 20));
    assert_eq!(b.velocity, Vector::new(0, BALL_START_SPEED));
}

#[test]
fn left_wall_turns_even_a_crawling_ball_in_a_corner() {
    let paddle = Paddle::spawn();
    let mut grid: Vec<Block> = Vec::new();
    let mut score: u32 = 0;
    let mut b = ball_at(-620_000, -340_000, -1, -300_000);
    resolve_collisions(&mut b, &paddle, &mut grid, &mut score, 16_000);
    assert!(b.velocity.x > 0);
    assert_eq!(b.velocity, Vector::new(1, 270_000));
    assert_eq!(b.position.x, -607_000);
}

#[test]
fn cooldown_keeps_a_tiny_vertical_velocity_unflipped() {
    let paddle = Paddle::spawn();
    let mut grid = block_grid();
    let mut score: u32 = 0;
    let mut b = ball_at(-600_000, 310_000, 1_000_000, -1);
    b.cooldown = 50_000;
    resolve_collisions(&mut b, &paddle, &mut grid, &mut score, 16_000);
    assert_eq!(grid.len(), 64);
    assert_eq!(b.velocity, Vector::new(999_999, -1));
}

#[test]
fn block_hit_flips_a_tiny_vertical_velocity() {
    let paddle = Paddle::spawn();
    let mut grid = block_grid();
    let mut score: u32 = 0;
    let mut b = ball_at(-600_000, 310_000, 1_000_000, 1);
    let hit = resolve_collisions(&mut b, &paddle, &mut grid, &mut score, 16_000);
    assert_eq!(hit, Some(0));
    assert_eq!(b.velocity, Vector::new(999_999, -1));
}
