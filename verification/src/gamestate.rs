//! The whole state of a game in one value: the score, the two paddles and
//! the ball.

use crate::ball::{Ball, DEFAULT_BALL_SPEED};
use crate::paddle::{Paddle, PaddleSide, DEFAULT_SPEED, Y_POS_START};
use crate::vector::Vec2;
use vstd::prelude::*;

verus! {

/// The points that win a game.
pub const WIN_SCORE: u32 = 10;

/// The height of the paddles of a game that is given none: 30.
pub const PADDLE_DEFAULT_SIZE: i64 = 30_000_000;

/// The radius of the ball of a game that is given none: 5.
pub const BALL_DEFAULT_RADIUS: i64 = 5_000_000;

/// The state of a game: the points and the paddles of both sides, the left
/// side first, and the ball.
#[derive(Clone, Copy, Debug)]
pub struct GameState {
    score: [u32; 2],
    paddles: [Paddle; 2],
    ball: Ball,
}

impl GameState {
    /// The points of `side`.
    pub closed spec fn points(&self, side: PaddleSide) -> int {
        self.score[side.spec_index() as int] as int
    }

    /// The paddle of `side`.
    pub closed spec fn paddle(&self, side: PaddleSide) -> Paddle {
        self.paddles[side.spec_index() as int]
    }

    /// The ball.
    pub closed spec fn ball(&self) -> Ball {
        self.ball
    }

    /// The side that has won: the left one where it has the points that win,
    /// else the right one where it has them, else none.
    pub open spec fn winner(&self) -> Option<PaddleSide> {
        if self.points(PaddleSide::Left) >= WIN_SCORE {
            Some(PaddleSide::Left)
        } else if self.points(PaddleSide::Right) >= WIN_SCORE {
            Some(PaddleSide::Right)
        } else {
            None
        }
    }

    /// The state at the start of a game: nil to nil, two paddles of the
    /// given height and of the default speed, and a new ball of the given
    /// radius at the given position.
    pub fn new(paddle_size: i64, ball_radius: i64, ball_position: Vec2) -> (state: GameState)
        ensures
            state.points(PaddleSide::Left) == 0,
            state.points(PaddleSide::Right) == 0,
            forall|side: PaddleSide|
                #[trigger] state.paddle(side) == (Paddle {
                    y_pos: Y_POS_START,
                    size: paddle_size,
                    speed: DEFAULT_SPEED,
                }),
            state.ball() == (Ball {
                direction: Vec2::zero(),
                radius: ball_radius,
                position: ball_position,
                speed: DEFAULT_BALL_SPEED,
            }),
    {
        GameState {
            score: [0, 0],
            paddles: [
                Paddle::new_default_speed(paddle_size),
                Paddle::new_default_speed(paddle_size),
            ],
            ball: Ball::new(ball_radius, ball_position),
        }
    }

    /// The points of `side`.
    pub fn get_score(&self, side: PaddleSide) -> (points: u32)
        ensures
            points == self.points(side),
    {
        self.score[side.index()]
    }

    /// Gives `side` one more point; paddles and ball stay as they are.
    pub fn increment_score(&mut self, side: PaddleSide)
        requires
            old(self).points(side) < u32::MAX,
        ensures
            final(self).points(side) == old(self).points(side) + 1,
            forall|other: PaddleSide|
                other != side ==> final(self).points(other) == old(self).points(other),
            forall|any: PaddleSide| final(self).paddle(any) == old(self).paddle(any),
            final(self).ball() == old(self).ball(),
    {
        let i: usize = side.index();
        let points: u32 = self.score[i];
        self.score[i] = points + 1;
    }

    /// Takes the points of both sides away; paddles and ball stay as they
    /// are.
    pub fn reset_score(&mut self)
        ensures
            final(self).points(PaddleSide::Left) == 0,
            final(self).points(PaddleSide::Right) == 0,
            forall|any: PaddleSide| final(self).paddle(any) == old(self).paddle(any),
            final(self).ball() == old(self).ball(),
    {
        self.score = [0, 0];
    }

    /// The side that has won, if one has.
    pub fn side_won(&self) -> (winner: Option<PaddleSide>)
        ensures
            winner == self.winner(),
    {
        if self.score[0] >= WIN_SCORE {
            Some(PaddleSide::Left)
        } else if self.score[1] >= WIN_SCORE {
            Some(PaddleSide::Right)
        } else {
            None
        }
    }
}

impl Default for GameState {
    /// The state at the start of a game with paddles of the default height
    /// and a ball of the default radius at the origin.
    fn default() -> (state: GameState)
        ensures
            state.points(PaddleSide::Left) == 0,
            state.points(PaddleSide::Right) == 0,
            forall|side: PaddleSide|
                #[trigger] state.paddle(side) == (Paddle {
                    y_pos: Y_POS_START,
                    size: PADDLE_DEFAULT_SIZE,
                    speed: DEFAULT_SPEED,
                }),
            state.ball() == (Ball {
                direction: Vec2::zero(),
                radius: BALL_DEFAULT_RADIUS,
                position: Vec2::zero(),
                speed: DEFAULT_BALL_SPEED,
            }),
    {
        GameState::new(PADDLE_DEFAULT_SIZE, BALL_DEFAULT_RADIUS, Vec2::new(0, 0))
    }
}

} // verus!
