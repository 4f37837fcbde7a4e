//! The rules of a two-player Pong: how the ball moves, bounces and is
//! deflected by the paddles, how a paddle follows its keys or the ball, and
//! how the score is kept.
//!
//! All positions and speeds are fixed-point numbers (see [`fixed`]): the
//! functions here are free of overflow, and their contracts say exactly what
//! each tick does. The only thing left to chance is the first direction of a
//! ball, which is drawn from a [`random::Random`].
//!
//! A game is a [`ball::Ball`] and some [`paddle::PaddleEntity`]s on a field
//! of a [`WinSize`]; [`tick`] moves them by one step of time. Whoever draws
//! the game hands in the keys that are held and the time that went by, and
//! reads the positions back.

use vstd::prelude::*;

pub mod ball;
pub mod fixed;
pub mod gamescore;
pub mod gamestate;
pub mod paddle;
pub mod random;
pub mod vector;

use crate::ball::{ball_movement_system, ball_paddle_hit, sample_in_range, Ball};
use crate::fixed::{LIMIT, UNIT};
use crate::paddle::{
    all_wf, paddle_cpu_movement_system, paddle_human_movement_system, PaddleEntity, PressedKeys,
};
use crate::random::Random;
use crate::vector::Vec2;

verus! {

/// The size of the playing field, which is the window: the origin is its
/// centre, `x` grows to the right and `y` upward.
#[derive(Clone, Copy, Debug, PartialEq, Eq, Structural)]
pub struct WinSize {
    pub width: i64,
    pub height: i64,
}

impl WinSize {
    /// The field is not degenerate: both sides are positive and within
    /// [`LIMIT`].
    pub open spec fn wf(self) -> bool {
        0 < self.width <= LIMIT && 0 < self.height <= LIMIT
    }

    /// Tells whether the size can be played on.
    pub fn is_valid(&self) -> (valid: bool)
        ensures
            valid == self.wf(),
    {
        0 < self.width && self.width <= LIMIT && 0 < self.height && self.height <= LIMIT
    }

    /// The `x` coordinate of the right wall; the left wall is at its negative.
    pub open spec fn half_width(self) -> int {
        self.width / 2
    }

    /// The `y` coordinate of the ceiling; the floor is at its negative.
    pub open spec fn half_height(self) -> int {
        self.height / 2
    }
}

impl Default for WinSize {
    /// The size before the window is known: it is not valid.
    fn default() -> (size: WinSize)
        ensures
            size.width == -UNIT,
            size.height == -UNIT,
    {
        WinSize { width: -UNIT, height: -UNIT }
    }
}

/// The paddles after a tick: each has followed its keys, where a human plays
/// it, or the ball, where the computer does.
pub open spec fn paddles_after_tick(
    paddles: Seq<PaddleEntity>,
    keys: PressedKeys,
    ball_position: Vec2,
    win_size: WinSize,
    elapsed_micros: int,
) -> Seq<PaddleEntity> {
    Seq::new(
        paddles.len(),
        |i: int|
            paddles[i].after_keys(keys, win_size, elapsed_micros).after_ball(
                ball_position,
                win_size,
                elapsed_micros,
            ),
    )
}

/// One tick of the game, in the order that the rules need: first the paddles
/// move, the computer's toward the ball as it lies before the tick; then the
/// ball moves; then the ball meets the paddles where they now stand.
pub fn tick(
    random: &mut Random,
    keyboard_input: &PressedKeys,
    win_size: &WinSize,
    elapsed_micros: u64,
    paddles: &mut Vec<PaddleEntity>,
    ball: &mut Ball,
)
    requires
        win_size.wf(),
        all_wf(old(paddles)@),
        old(ball).wf(),
    ensures
        final(paddles)@ == paddles_after_tick(
            old(paddles)@,
            *keyboard_input,
            old(ball).position,
            *win_size,
            elapsed_micros as int,
        ),
        exists|sample: Vec2|
            sample_in_range(sample) && *final(ball) == (#[trigger] old(ball).after_tick(
                sample,
                elapsed_micros as int,
                *win_size,
            )).after_paddles(final(paddles)@),
        !old(ball).direction.is_zero() ==> *final(ball) == old(ball).after_tick(
            Vec2::zero(),
            elapsed_micros as int,
            *win_size,
        ).after_paddles(final(paddles)@),
        all_wf(final(paddles)@),
        final(ball).wf(),
{
    let ball_position: Vec2 = ball.position;
    paddle_human_movement_system(keyboard_input, win_size, elapsed_micros, paddles);
    paddle_cpu_movement_system(ball_position, win_size, elapsed_micros, paddles);
    ball_movement_system(random, ball, elapsed_micros, win_size);
    ball_paddle_hit(ball, paddles);
    assert(paddles@ =~= paddles_after_tick(
        old(paddles)@,
        *keyboard_input,
        old(ball).position,
        *win_size,
        elapsed_micros as int,
    ));
}

} // verus!
