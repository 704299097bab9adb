use breakout::config::{
    BALL_SPEED_MAX, BALL_START_SPEED, BLOCK_COUNT, PADDLE_MAX_X, PADDLE_MIN_X,
};
use breakout::entities::{block_grid, Ball, Block, FrameInput, Paddle};
use breakout::game::{Game, GameState, StepOutcome};
use breakout::vector::Vector;

const FRAME: u32 = 16_667;

fn idle() -> FrameInput {
    FrameInput { left: false, right: false, action: false }
}

fn press() -> FrameInput {
    FrameInput { left: false, right: false, action: true }
}

fn playing_with(ball: Ball, blocks: Vec<Block>, score: u32) -> Game {
    Game {
        state: GameState::Playing,
        ball: Some(ball),
        paddle: Some(Paddle::spawn()),
        blocks,
        score,
    }
}

fn won_game() -> Game {
    Game { state: GameState::GameWon, ball: None, paddle: None, blocks: Vec::new(), score: 64 }
}

fn speed_sq(v: Vector) -> i128 {
    (v.x as i128) * (v.x as i128) + (v.y as i128) * (v.y as i128)
}

#[test]
fn new_game_waits_on_splash() {
    let mut g = Game::new();
    assert_eq!(g.state, GameState::Splash);
    let out = g.step(&idle(), FRAME);
    assert_eq!(out, StepOutcome { destroyed: None, entered: None });
    assert_eq!(g.state, GameState::Splash);
    assert!(g.ball.is_none() && g.paddle.is_none() && g.blocks.is_empty());
    assert_eq!(g.score, 0);
}

#[test]
fn start_action_begins_play() {
    let mut g = Game::new();
    let out = g.step(&press(), FRAME);
    assert_eq!(out, StepOutcome { destroyed: None, entered: Some(GameState::Playing) });
    assert_eq!(g.state, GameState::Playing);
    assert_eq!(g.ball, Some(Ball::launch()));
    assert_eq!(g.paddle, Some(Paddle::spawn()));
    assert_eq!(g.blocks, block_grid());
    assert_eq!(g.score, 0);
}

#[test]
fn launched_ball_is_centered_with_start_velocity() {
    let b = Ball::launch();
    assert_eq!(b.position, Vector::new(0, 0));
    assert_eq!(b.velocity, Vector::new(BALL_START_SPEED, BALL_START_SPEED));
    assert_eq!(b.cooldown, 0);
}

#[test]
fn restart_from_won_resets_everything() {
    let mut g = won_game();
    let out = g.step(&press(), FRAME);
    assert_eq!(out.entered, Some(GameState::Playing));
    assert_eq!(g.state, GameState::Playing);
    assert_eq!(g.score, 0);
    assert_eq!(g.blocks.len(), 64);
    assert_eq!(g.blocks, block_grid());
    let ball = g.ball.unwrap();
    assert_eq!(ball.position, Vector::new(0, 0));
    assert_eq!(ball.velocity, Vector::new(BALL_START_SPEED, BALL_START_SPEED));
    assert_eq!(g.paddle, Some(Paddle::spawn()));
}

#[test]
fn won_game_waits_for_restart() {
    let mut g = won_game();
    let out = g.step(&idle(), FRAME);
    assert_eq!(out, StepOutcome { destroyed: None, entered: None });
    assert_eq!(g.state, GameState::GameWon);
    assert_eq!(g.score, 64);
}

#[test]
fn scenario_ball_destroys_one_block() {
    let mut g = Game::new();
    g.step(&press(), FRAME);
    // aim the ball at the first block, reaching it this frame
    g.ball = Some(Ball {
        position: Vector::new(-600_000, 306_800),
        velocity: Vector::new(0, 200_000),
        cooldown: 0,
    });
    let out = g.step(&idle(), 16_000);
    assert_eq!(out.destroyed, Some(0));
    assert_eq!(g.score, 1);
    assert_eq!(g.blocks.len(), 63);
    let ball = g.ball.unwrap();
    assert_eq!(ball.position, Vector::new(-600_000, 310_000));
    assert_eq!(ball.velocity, Vector::new(0, -220_000));
}

#[test]
fn clearing_the_last_block_wins_in_that_frame() {
    let ball = Ball {
        position: Vector::new(0, 100_000),
        velocity: Vector::new(200_000, 200_000),
        cooldown: 0,
    };
    let mut g = playing_with(ball, vec![Block { x: 0, y: 100_000 }], 63);
    let out = g.step(&idle(), 0);
    assert_eq!(out, StepOutcome { destroyed: Some(0), entered: Some(GameState::GameWon) });
    assert_eq!(g.state, GameState::GameWon);
    assert_eq!(g.score, 64);
    assert!(g.blocks.is_empty());
    assert!(g.ball.is_none() && g.paddle.is_none());
}

#[test]
fn game_goes_on_while_a_block_remains() {
    let ball = Ball {
        position: Vector::new(0, 100_000),
        velocity: Vector::new(200_000, 200_000),
        cooldown: 0,
    };
    let blocks = vec![Block { x: 0, y: 100_000 }, Block { x: 400_000, y: 300_000 }];
    let mut g = playing_with(ball, blocks, 62);
    let out = g.step(&idle(), 0);
    assert_eq!(out, StepOutcome { destroyed: Some(0), entered: None });
    assert_eq!(g.state, GameState::Playing);
    assert_eq!(g.score, 63);
    assert_eq!(g.blocks, vec![Block { x: 400_000, y: 300_000 }]);
    // a frame with no hit keeps playing
    let next = g.step(&idle(), FRAME);
    assert_eq!(next.entered, None);
    assert_eq!(g.state, GameState::Playing);
}

#[test]
fn despawning_twice_changes_nothing_more() {
    let mut g = Game::new();
    g.step(&press(), FRAME);
    g.score = 7;
    g.despawn_playfield();
    assert!(g.ball.is_none() && g.paddle.is_none() && g.blocks.is_empty());
    assert_eq!(g.score, 7);
    assert_eq!(g.state, GameState::Playing);
    g.despawn_playfield();
    assert!(g.ball.is_none() && g.paddle.is_none() && g.blocks.is_empty());
    assert_eq!(g.score, 7);
    assert_eq!(g.state, GameState::Playing);
    let mut s = Game::new();
    s.despawn_playfield();
    assert_eq!(s.state, GameState::Splash);
    assert!(s.blocks.is_empty());
}

#[test]
fn holding_right_parks_paddle_at_the_edge() {
    let mut g = Game::new();
    g.step(&press(), FRAME);
    let right = FrameInput { left: false, right: true, action: false };
    for _ in 0..100 {
        g.step(&right, FRAME);
        if g.state != GameState::Playing {
            return;
        }
    }
    assert_eq!(g.paddle.unwrap().x, PADDLE_MAX_X);
}

#[test]
fn long_play_keeps_the_invariants() {
    let mut g = Game::new();
    g.step(&press(), FRAME);
    let lo = (BALL_START_SPEED as i128) * (BALL_START_SPEED as i128);
    let hi = (BALL_SPEED_MAX as i128) * (BALL_SPEED_MAX as i128);
    let mut seed: u64 = 12_345;
    for frame in 0..20_000u32 {
        seed = seed.wrapping_mul(6_364_136_223_846_793_005).wrapping_add(1_442_695_040_888_963_407);
        let keys = (seed >> 33) % 8;
        let input = FrameInput { left: keys & 1 != 0, right: keys & 2 != 0, action: keys == 7 };
        let dt = 8_000 + (frame % 4) * 4_000;
        g.step(&input, dt);
        match g.state {
            GameState::Playing => {
                let ball = g.ball.unwrap();
                let paddle = g.paddle.unwrap();
                let s = speed_sq(ball.velocity);
                assert!(lo <= s && s <= hi, "speed out of band at frame {}", frame);
                assert!(PADDLE_MIN_X <= paddle.x && paddle.x <= PADDLE_MAX_X);
                assert_eq!(g.score as i64 + g.blocks.len() as i64, BLOCK_COUNT);
            },
            GameState::GameWon => {
                assert_eq!(g.score as i64, BLOCK_COUNT);
                g.step(&press(), FRAME);
                assert_eq!(g.state, GameState::Playing);
            },
            GameState::Splash => panic!("the splash screen never comes back"),
        }
    }
}
