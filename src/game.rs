//! The game flow controller: the state machine Splash → Playing → GameWon → Playing,
//! which sets up and tears down the playfield and runs the frame pipeline.
use vstd::prelude::*;

use crate::bump::{bump, bumped_ball, bumped_paddle, check_bounds, watched};
use crate::collision::{block_hit, collided, remaining_blocks, resolve_collisions, resolved};
use crate::config::BLOCK_COUNT;
use crate::entities::{block_grid, blocks_wf, full_grid, Ball, Block, FrameInput, Paddle};
use crate::motion::{advance_ball, advanced, steer_paddle, steered};
use crate::speed::lemma_band_bounded;

verus! {

/// Where the game stands.
#[derive(Clone, Copy, Debug, PartialEq, Eq, Structural)]
pub enum GameState {
    /// The title screen, before the first game.
    Splash,
    /// A game is under way.
    Playing,
    /// Every block has been destroyed.
    GameWon,
}

/// The whole game: its state, the playfield and the score.
#[derive(Debug)]
pub struct Game {
    pub state: GameState,
    /// The ball, while a game is under way.
    pub ball: Option<Ball>,
    /// The paddle, while a game is under way.
    pub paddle: Option<Paddle>,
    /// The blocks still standing.
    pub blocks: Vec<Block>,
    /// Blocks destroyed since the game started.
    pub score: u32,
}

/// The game as a mathematical value.
pub struct GameView {
    pub state: GameState,
    pub ball: Option<Ball>,
    pub paddle: Option<Paddle>,
    pub blocks: Seq<Block>,
    pub score: u32,
}

/// What a frame did, for whoever draws the game.
#[derive(Clone, Copy, Debug, PartialEq, Eq, Structural)]
pub struct StepOutcome {
    /// Index that the block destroyed in this frame had, if one was.
    pub destroyed: Option<usize>,
    /// The state entered in this frame, if the state changed.
    pub entered: Option<GameState>,
}

impl View for Game {
    type V = GameView;

    open spec fn view(&self) -> GameView {
        GameView {
            state: self.state,
            ball: self.ball,
            paddle: self.paddle,
            blocks: self.blocks@,
            score: self.score,
        }
    }
}

impl GameView {
    /// The invariant of the game: nothing stands on the field outside a game; during a
    /// game the ball and the paddle are valid, some blocks remain, and every block of
    /// the grid is either standing or counted in the score.
    pub open spec fn wf(self) -> bool {
        &&& blocks_wf(self.blocks)
        &&& match self.state {
            GameState::Splash => {
                &&& self.ball is None
                &&& self.paddle is None
                &&& self.blocks.len() == 0
                &&& self.score == 0
            },
            GameState::Playing => {
                &&& self.ball matches Some(b) && b.wf()
                &&& self.paddle matches Some(p) && p.wf()
                &&& self.blocks.len() > 0
                &&& self.score + self.blocks.len() == BLOCK_COUNT
            },
            GameState::GameWon => {
                &&& self.ball is None
                &&& self.paddle is None
                &&& self.blocks.len() == 0
                &&& self.score == BLOCK_COUNT
            },
        }
    }
}

/// The game before the first start.
pub open spec fn splash() -> GameView {
    GameView { state: GameState::Splash, ball: None, paddle: None, blocks: Seq::empty(), score: 0 }
}

/// A game just started: centered paddle, launched ball, full grid, no score.
pub open spec fn started() -> GameView {
    GameView {
        state: GameState::Playing,
        ball: Some(Ball::launched()),
        paddle: Some(Paddle::centered()),
        blocks: full_grid(),
        score: 0,
    }
}

/// The game with the ball, the paddle and every block removed; the rest kept.
pub open spec fn despawned(g: GameView) -> GameView {
    GameView { ball: None, paddle: None, blocks: Seq::empty(), ..g }
}

/// One frame of play: steer, move, resolve collisions, bump, watch the bounds, and
/// declare the game won once no block is left.
pub open spec fn played(g: GameView, input: FrameInput, dt: u32) -> GameView {
    match (g.ball, g.paddle) {
        (Some(b), Some(p)) => {
            let p1 = steered(p, input);
            let b1 = advanced(b, dt);
            let blocks = remaining_blocks(b1, p1, g.blocks);
            let score = match block_hit(collided(b1, p1), g.blocks) {
                Some(_) => (g.score + 1) as u32,
                None => g.score,
            };
            let b2 = resolved(b1, p1, g.blocks, dt);
            if blocks.len() == 0 {
                GameView {
                    state: GameState::GameWon,
                    ball: None,
                    paddle: None,
                    blocks,
                    score,
                }
            } else {
                GameView {
                    state: GameState::Playing,
                    ball: Some(watched(bumped_ball(b2, p1, input.action))),
                    paddle: Some(bumped_paddle(p1, input.action, dt)),
                    blocks,
                    score,
                }
            }
        },
        _ => g,
    }
}

/// The game after one frame with input `input` lasting `dt` microseconds.
pub open spec fn stepped(g: GameView, input: FrameInput, dt: u32) -> GameView {
    match g.state {
        GameState::Splash => if input.action {
            started()
        } else {
            g
        },
        GameState::Playing => played(g, input, dt),
        GameState::GameWon => if input.action {
            started()
        } else {
            g
        },
    }
}

impl Game {
    /// A game on its splash screen.
    pub fn new() -> (r: Game)
        ensures
            r@ == splash(),
            r@.wf(),
    {
        let r = Game {
            state: GameState::Splash,
            ball: None,
            paddle: None,
            blocks: Vec::new(),
            score: 0,
        };
        assert(r@.blocks =~= Seq::empty());
        r
    }

    /// Removes the ball, the paddle and every block. Removing what is already gone
    /// does nothing.
    pub fn despawn_playfield(&mut self)
        ensures
            final(self)@ == despawned(old(self)@),
    {
        self.ball = None;
        self.paddle = None;
        self.blocks.clear();
        assert(self@.blocks =~= Seq::<Block>::empty());
    }

    /// Starts a game: clears the field, then spawns the paddle, the ball and the full
    /// grid, and resets the score.
    pub fn start_playing(&mut self)
        ensures
            final(self)@ == started(),
            final(self)@.wf(),
    {
        self.despawn_playfield();
        self.paddle = Some(Paddle::spawn());
        self.ball = Some(Ball::launch());
        self.blocks = block_grid();
        self.score = 0;
        self.state = GameState::Playing;
    }

    /// Runs one frame: the start or restart action outside a game, the whole frame
    /// pipeline during one.
    pub fn step(&mut self, input: &FrameInput, dt: u32) -> (out: StepOutcome)
        requires
            old(self)@.wf(),
        ensures
            final(self)@ == stepped(old(self)@, *input, dt),
            final(self)@.wf(),
            out.entered == (if final(self).state != old(self).state {
                Some(final(self).state)
            } else {
                None::<GameState>
            }),
            old(self).state == GameState::Playing ==> (final(self).state == GameState::GameWon
                <==> final(self).blocks@.len() == 0),
            old(self).state == GameState::Playing ==> final(self).blocks@.len()
                == old(self).blocks@.len() - (if out.destroyed is Some { 1int } else { 0int }),
            old(self).state == GameState::Playing ==> final(self).score == old(self).score + (
            if out.destroyed is Some {
                1int
            } else {
                0int
            }),
            old(self).state != GameState::Playing ==> out.destroyed is None,
    {
        match self.state {
            GameState::Splash | GameState::GameWon => {
                if input.action {
                    self.start_playing();
                    StepOutcome { destroyed: None, entered: Some(GameState::Playing) }
                } else {
                    StepOutcome { destroyed: None, entered: None }
                }
            },
            GameState::Playing => self.play_frame(input, dt),
        }
    }

    /// One frame of play.
    fn play_frame(&mut self, input: &FrameInput, dt: u32) -> (out: StepOutcome)
        requires
            old(self)@.wf(),
            old(self).state == GameState::Playing,
        ensures
            final(self)@ == played(old(self)@, *input, dt),
            final(self)@.wf(),
            out.entered == (if final(self).state != old(self).state {
                Some(final(self).state)
            } else {
                None::<GameState>
            }),
            final(self).state == GameState::GameWon <==> final(self).blocks@.len() == 0,
            final(self).blocks@.len() == old(self).blocks@.len() - (if out.destroyed is Some {
                1int
            } else {
                0int
            }),
            final(self).score == old(self).score + (if out.destroyed is Some {
                1int
            } else {
                0int
            }),
    {
        let mut ball = match self.ball {
            Some(b) => b,
            None => {
                return StepOutcome { destroyed: None, entered: None };
            },
        };
        let mut paddle = match self.paddle {
            Some(p) => p,
            None => {
                return StepOutcome { destroyed: None, entered: None };
            },
        };
        proof {
            lemma_band_bounded(ball.velocity);
        }
        steer_paddle(&mut paddle, input);
        advance_ball(&mut ball, dt);
        let destroyed = resolve_collisions(&mut ball, &paddle, &mut self.blocks, &mut self.score, dt);
        proof {
            lemma_band_bounded(ball.velocity);
        }
        if self.blocks.len() == 0 {
            assert(self.blocks@ =~= Seq::<Block>::empty());
            self.despawn_playfield();
            self.state = GameState::GameWon;
            return StepOutcome { destroyed, entered: Some(GameState::GameWon) };
        }
        bump(&mut paddle, &mut ball, input.action, dt);
        proof {
            lemma_band_bounded(ball.velocity);
        }
        check_bounds(&mut ball);
        self.ball = Some(ball);
        self.paddle = Some(paddle);
        StepOutcome { destroyed, entered: None }
    }
}

/// Removing the playfield twice leaves the game as removing it once does.
pub proof fn lemma_despawn_idempotent(g: GameView)
    ensures
        despawned(despawned(g)) == despawned(g),
{
}

} // verus!
