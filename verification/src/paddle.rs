//! The paddles: where they stand, and how a player's keys or the ball's
//! position move them.

use crate::fixed::{div_toward_zero, held_between, mul_div, LIMIT, MICROS_PER_SECOND, UNIT};
use crate::vector::Vec2;
use crate::WinSize;
use vstd::arithmetic::div_mod::lemma_fundamental_div_mod;
use vstd::prelude::*;

verus! {

/// The largest normalized position of a paddle: 100, the top of its range.
pub const Y_POS_MAX: i64 = 100_000_000;

/// The normalized position of a new paddle: 50, the middle of its range.
pub const Y_POS_START: i64 = 50_000_000;

/// The speed of a paddle that is given none: 50 normalized units a second.
pub const DEFAULT_SPEED: i64 = 50_000_000;

/// The width of every paddle: 10.
pub const PADDLE_WIDTH: i64 = 10_000_000;

/// The height of the paddles that the game starts with: 100.
pub const PADDLE_HEIGHT: i64 = 100_000_000;

/// How far from its wall the centre of a paddle stands: 10.
pub const PADDLE_MARGIN: i64 = 10_000_000;

/// The side of the field that a paddle defends.
#[derive(Clone, Copy, Debug, PartialEq, Eq, Structural)]
pub enum PaddleSide {
    Left,
    Right,
}

impl PaddleSide {
    /// The place of the side in a pair: 0 for left, 1 for right.
    pub open spec fn spec_index(self) -> usize {
        match self {
            PaddleSide::Left => 0,
            PaddleSide::Right => 1,
        }
    }

    /// The place of the side in a pair: 0 for left, 1 for right.
    #[verifier::when_used_as_spec(spec_index)]
    pub fn index(self) -> (i: usize)
        ensures
            i == self.spec_index(),
    {
        match self {
            PaddleSide::Left => 0,
            PaddleSide::Right => 1,
        }
    }
}

/// Who moves a paddle.
#[derive(Clone, Copy, Debug, PartialEq, Eq, Structural)]
pub enum PlayerType {
    CPU,
    Human,
}

/// Who plays on which side, fixed when the game starts: the left side first.
#[derive(Clone, Copy, Debug)]
pub struct PaddleConfig {
    pub player_types: [PlayerType; 2],
}

impl PaddleConfig {
    /// The player of the given side.
    pub fn player_type(&self, side: PaddleSide) -> (player: PlayerType)
        ensures
            player == self.player_types[side.spec_index() as int],
    {
        self.player_types[side.index()]
    }
}

/// The four keys of the game, each held down or not.
#[derive(Clone, Copy, Debug, PartialEq, Eq, Structural)]
pub struct PressedKeys {
    pub left_up: bool,
    pub left_down: bool,
    pub right_up: bool,
    pub right_down: bool,
}

impl PressedKeys {
    /// Whether the key that moves the paddle of `side` up is held.
    pub open spec fn spec_up(&self, side: PaddleSide) -> bool {
        match side {
            PaddleSide::Left => self.left_up,
            PaddleSide::Right => self.right_up,
        }
    }

    /// Whether the key that moves the paddle of `side` down is held.
    pub open spec fn spec_down(&self, side: PaddleSide) -> bool {
        match side {
            PaddleSide::Left => self.left_down,
            PaddleSide::Right => self.right_down,
        }
    }

    /// Whether the key that moves the paddle of `side` up is held.
    #[verifier::when_used_as_spec(spec_up)]
    pub fn up(&self, side: PaddleSide) -> (held: bool)
        ensures
            held == self.spec_up(side),
    {
        match side {
            PaddleSide::Left => self.left_up,
            PaddleSide::Right => self.right_up,
        }
    }

    /// Whether the key that moves the paddle of `side` down is held.
    #[verifier::when_used_as_spec(spec_down)]
    pub fn down(&self, side: PaddleSide) -> (held: bool)
        ensures
            held == self.spec_down(side),
    {
        match side {
            PaddleSide::Left => self.left_down,
            PaddleSide::Right => self.right_down,
        }
    }
}

/// A paddle: its normalized vertical position, from 0 at the bottom of its
/// range to 100 at the top, its height, and its speed in normalized units a
/// second.
#[derive(Clone, Copy, Debug, PartialEq, Eq, Structural)]
pub struct Paddle {
    pub y_pos: i64,
    pub size: i64,
    pub speed: i64,
}

impl Paddle {
    /// The position is within its range, and the height is not negative and
    /// within [`LIMIT`].
    pub open spec fn wf(self) -> bool {
        0 <= self.y_pos <= Y_POS_MAX && 0 <= self.size <= LIMIT
    }

    /// Tells whether the paddle can be played with.
    pub fn is_valid(&self) -> (valid: bool)
        ensures
            valid == self.wf(),
    {
        0 <= self.y_pos && self.y_pos <= Y_POS_MAX && 0 <= self.size && self.size <= LIMIT
    }

    /// A paddle of the given height and speed, in the middle of its range.
    pub fn new(size: i64, speed: i64) -> (paddle: Paddle)
        ensures
            paddle == (Paddle { y_pos: Y_POS_START, size, speed }),
    {
        Paddle { y_pos: Y_POS_START, size, speed }
    }

    /// A paddle of the given speed and of no height, in the middle of its
    /// range.
    pub fn new_default_size(speed: i64) -> (paddle: Paddle)
        ensures
            paddle == (Paddle { y_pos: Y_POS_START, size: 0, speed }),
    {
        Paddle { y_pos: Y_POS_START, size: 0, speed }
    }

    /// A paddle of the given height and of the default speed, in the middle
    /// of its range.
    pub fn new_default_speed(size: i64) -> (paddle: Paddle)
        ensures
            paddle == (Paddle { y_pos: Y_POS_START, size, speed: DEFAULT_SPEED }),
    {
        Paddle { y_pos: Y_POS_START, size, speed: DEFAULT_SPEED }
    }

    /// The normalized position.
    pub fn y_pos(&self) -> (y_pos: &i64)
        ensures
            *y_pos == self.y_pos,
    {
        &self.y_pos
    }

    /// The height.
    pub fn size(&self) -> (size: &i64)
        ensures
            *size == self.size,
    {
        &self.size
    }

    /// The speed, in normalized units a second.
    pub fn speed(&self) -> (speed: &i64)
        ensures
            *speed == self.speed,
    {
        &self.speed
    }

    /// Sets the normalized position and hands the paddle back for the next
    /// change.
    pub fn set_y_pos(&mut self, val: i64) -> (paddle: &mut Paddle)
        ensures
            *paddle == (Paddle { y_pos: val, ..*old(self) }),
            *final(self) == *final(paddle),
    {
        self.y_pos = val;
        self
    }

    /// Sets the height and hands the paddle back for the next change.
    pub fn set_size(&mut self, val: i64) -> (paddle: &mut Paddle)
        ensures
            *paddle == (Paddle { size: val, ..*old(self) }),
            *final(self) == *final(paddle),
    {
        self.size = val;
        self
    }

    /// Sets the speed and hands the paddle back for the next change.
    pub fn set_speed(&mut self, val: i64) -> (paddle: &mut Paddle)
        ensures
            *paddle == (Paddle { speed: val, ..*old(self) }),
            *final(self) == *final(paddle),
    {
        self.speed = val;
        self
    }
}

impl Default for Paddle {
    /// A paddle of no height and of the default speed, in the middle of its
    /// range.
    fn default() -> (paddle: Paddle)
        ensures
            paddle == (Paddle { y_pos: Y_POS_START, size: 0, speed: DEFAULT_SPEED }),
    {
        Paddle { y_pos: Y_POS_START, size: 0, speed: DEFAULT_SPEED }
    }
}

/// The vertical position on the screen of the centre of a paddle: the
/// normalized position spread over the height that the paddle can travel, so
/// that at 0 its lower edge and at 100 its upper edge touches the window's.
pub open spec fn screen_y(y_pos: int, size: int, win_size: WinSize) -> int {
    div_toward_zero(y_pos * (win_size.height - size), Y_POS_MAX as int) - (win_size.height / 2
        - size / 2)
}

/// How far a paddle of the given speed moves in the elapsed time.
pub open spec fn stride(speed: int, elapsed_micros: int) -> int {
    div_toward_zero(speed * elapsed_micros, MICROS_PER_SECOND as int)
}

/// A position held within the range of a paddle, 0 to 100.
pub open spec fn clamped_y_pos(target: int) -> int {
    held_between(target, 0, Y_POS_MAX as int)
}

/// The position of a paddle after a tick in which its keys were held as
/// given: up by a stride if `up`, else down by one if `down`, and held within
/// its range.
pub open spec fn y_pos_after_keys(
    y_pos: int,
    speed: int,
    elapsed_micros: int,
    up: bool,
    down: bool,
) -> int {
    clamped_y_pos(
        if up {
            y_pos + stride(speed, elapsed_micros)
        } else if down {
            y_pos - stride(speed, elapsed_micros)
        } else {
            y_pos
        },
    )
}

/// Whether the ball is on the half of the field that `side` defends.
pub open spec fn on_own_half(side: PaddleSide, ball_position: Vec2) -> bool {
    match side {
        PaddleSide::Left => ball_position.x < 0,
        PaddleSide::Right => ball_position.x > 0,
    }
}

/// The position of a computer's paddle after a tick: while the ball is on its
/// half it moves a stride toward the height of the ball, and it is held
/// within its range.
pub open spec fn y_pos_after_ball(
    paddle: Paddle,
    side: PaddleSide,
    ball_position: Vec2,
    win_size: WinSize,
    elapsed_micros: int,
) -> int {
    let y = screen_y(paddle.y_pos as int, paddle.size as int, win_size);
    clamped_y_pos(
        if on_own_half(side, ball_position) && ball_position.y > y {
            paddle.y_pos + stride(paddle.speed as int, elapsed_micros)
        } else if on_own_half(side, ball_position) && ball_position.y < y {
            paddle.y_pos - stride(paddle.speed as int, elapsed_micros)
        } else {
            paddle.y_pos as int
        },
    )
}

/// A normalized position times a span, divided by the top of the range, lies
/// between zero and the span.
proof fn lemma_share_of_span(y_pos: int, span: int)
    requires
        0 <= y_pos <= Y_POS_MAX,
    ensures
        span >= 0 ==> 0 <= div_toward_zero(y_pos * span, Y_POS_MAX as int) <= span,
        span <= 0 ==> span <= div_toward_zero(y_pos * span, Y_POS_MAX as int) <= 0,
{
    let c = Y_POS_MAX as int;
    let a = if span >= 0 {
        span
    } else {
        -span
    };
    let n = y_pos * a;
    assert(0 <= n <= c * a) by (nonlinear_arith)
        requires
            n == y_pos * a,
            0 <= y_pos <= c,
            a >= 0,
    ;
    lemma_fundamental_div_mod(n, c);
    assert(0 <= n / c <= a) by (nonlinear_arith)
        requires
            n == c * (n / c) + n % c,
            0 <= n % c < c,
            0 <= n <= c * a,
            c > 0,
    ;
    assert(y_pos * span == if span >= 0 {
        n
    } else {
        -n
    }) by (nonlinear_arith)
        requires
            n == y_pos * a,
            a == if span >= 0 {
                span
            } else {
                -span
            },
    ;
}

/// The vertical position on the screen of the centre of a paddle.
pub fn y_pos_to_y(y_pos: i64, p_size: i64, win_size: &WinSize) -> (y: i64)
    requires
        0 <= y_pos <= Y_POS_MAX,
        0 <= p_size <= LIMIT,
        win_size.wf(),
    ensures
        y == screen_y(y_pos as int, p_size as int, *win_size),
        -LIMIT <= y <= LIMIT,
{
    let span: i64 = win_size.height - p_size;
    let share: i128 = mul_div(y_pos, span, Y_POS_MAX);
    proof {
        lemma_share_of_span(y_pos as int, span as int);
    }
    let rest: i64 = win_size.height / 2 - p_size / 2;
    (share - rest as i128) as i64
}

/// How far a paddle of the given speed moves in the elapsed time.
pub fn stride_of(speed: i64, elapsed_micros: u64) -> (s: i128)
    ensures
        s == stride(speed as int, elapsed_micros as int),
        -0x1_0000_0000_0000_0000_0000_0000_0000 <= s <= 0x1_0000_0000_0000_0000_0000_0000_0000,
{
    let a: i128 = speed as i128;
    let b: i128 = elapsed_micros as i128;
    assert(-0x7fff_ffff_ffff_ffff_ffff_ffff_ffff_ffff <= a * b
        <= 0x7fff_ffff_ffff_ffff_ffff_ffff_ffff_ffff) by (nonlinear_arith)
        requires
            -0x8000_0000_0000_0000 <= a <= 0x7fff_ffff_ffff_ffff,
            0 <= b <= 0xffff_ffff_ffff_ffff,
    ;
    a * b / (MICROS_PER_SECOND as i128)
}

/// Holds a position within the range of a paddle.
pub fn clamp_y_pos(target: i128) -> (y_pos: i64)
    ensures
        y_pos == clamped_y_pos(target as int),
        0 <= y_pos <= Y_POS_MAX,
{
    if target > Y_POS_MAX as i128 {
        Y_POS_MAX
    } else if target < 0 {
        0
    } else {
        target as i64
    }
}

/// The position of a paddle after a tick in which its keys were held as
/// given; `up` goes before `down`.
pub fn move_paddle(y_pos: i64, speed: i64, elapsed_micros: u64, up: bool, down: bool) -> (moved:
    i64)
    ensures
        moved == y_pos_after_keys(y_pos as int, speed as int, elapsed_micros as int, up, down),
        0 <= moved <= Y_POS_MAX,
{
    let step: i128 = stride_of(speed, elapsed_micros);
    let target: i128 = if up {
        y_pos as i128 + step
    } else if down {
        y_pos as i128 - step
    } else {
        y_pos as i128
    };
    clamp_y_pos(target)
}

/// The position of a computer's paddle after a tick in which the ball was
/// where given.
pub fn approach_ball(
    paddle: &Paddle,
    side: PaddleSide,
    ball_position: Vec2,
    win_size: &WinSize,
    elapsed_micros: u64,
) -> (moved: i64)
    requires
        paddle.wf(),
        win_size.wf(),
    ensures
        moved == y_pos_after_ball(*paddle, side, ball_position, *win_size, elapsed_micros as int),
        0 <= moved <= Y_POS_MAX,
{
    let own_half: bool = match side {
        PaddleSide::Left => ball_position.x < 0,
        PaddleSide::Right => ball_position.x > 0,
    };
    let y: i64 = y_pos_to_y(paddle.y_pos, paddle.size, win_size);
    let step: i128 = stride_of(paddle.speed, elapsed_micros);
    let target: i128 = if own_half && ball_position.y > y {
        paddle.y_pos as i128 + step
    } else if own_half && ball_position.y < y {
        paddle.y_pos as i128 - step
    } else {
        paddle.y_pos as i128
    };
    clamp_y_pos(target)
}

/// A paddle on the field: the side it defends, who plays it, the paddle
/// itself and the position of its centre on the screen.
#[derive(Clone, Copy, Debug, PartialEq, Eq, Structural)]
pub struct PaddleEntity {
    pub side: PaddleSide,
    pub player: PlayerType,
    pub paddle: Paddle,
    pub position: Vec2,
}

impl PaddleEntity {
    /// The paddle is well formed and its centre is within [`LIMIT`] of the
    /// origin.
    pub open spec fn wf(self) -> bool {
        self.paddle.wf() && self.position.within_limit()
    }

    /// Tells whether the systems accept the entity.
    pub fn is_valid(&self) -> (valid: bool)
        ensures
            valid == self.wf(),
    {
        self.paddle.is_valid() && -LIMIT <= self.position.x && self.position.x <= LIMIT && -LIMIT
            <= self.position.y && self.position.y <= LIMIT
    }

    /// The entity with its paddle at the normalized position `y_pos` and its
    /// centre at the height on the screen that belongs to it.
    pub open spec fn placed(self, y_pos: int, win_size: WinSize) -> PaddleEntity {
        PaddleEntity {
            paddle: Paddle { y_pos: y_pos as i64, ..self.paddle },
            position: Vec2 {
                x: self.position.x,
                y: screen_y(y_pos, self.paddle.size as int, win_size) as i64,
            },
            ..self
        }
    }

    /// The entity after a tick of the system that serves human players: a
    /// paddle of the computer is left as it is.
    pub open spec fn after_keys(
        self,
        keys: PressedKeys,
        win_size: WinSize,
        elapsed_micros: int,
    ) -> PaddleEntity {
        if self.player == PlayerType::Human {
            self.placed(
                y_pos_after_keys(
                    self.paddle.y_pos as int,
                    self.paddle.speed as int,
                    elapsed_micros,
                    keys.spec_up(self.side),
                    keys.spec_down(self.side),
                ),
                win_size,
            )
        } else {
            self
        }
    }

    /// The entity after a tick of the system that plays for the computer: a
    /// paddle of a human player is left as it is.
    pub open spec fn after_ball(
        self,
        ball_position: Vec2,
        win_size: WinSize,
        elapsed_micros: int,
    ) -> PaddleEntity {
        if self.player == PlayerType::CPU {
            self.placed(
                y_pos_after_ball(self.paddle, self.side, ball_position, win_size, elapsed_micros),
                win_size,
            )
        } else {
            self
        }
    }

    /// Moves the paddle of a human player by its keys and puts its centre
    /// where the new position belongs.
    pub fn follow_keys(&mut self, keys: &PressedKeys, win_size: &WinSize, elapsed_micros: u64)
        requires
            old(self).wf(),
            win_size.wf(),
        ensures
            *final(self) == old(self).after_keys(*keys, *win_size, elapsed_micros as int),
            final(self).wf(),
    {
        if self.player == PlayerType::Human {
            let y_pos: i64 = move_paddle(
                self.paddle.y_pos,
                self.paddle.speed,
                elapsed_micros,
                keys.up(self.side),
                keys.down(self.side),
            );
            self.paddle.y_pos = y_pos;
            self.position.y = y_pos_to_y(y_pos, self.paddle.size, win_size);
        }
    }

    /// Moves the paddle of the computer toward the ball and puts its centre
    /// where the new position belongs.
    pub fn follow_ball(&mut self, ball_position: Vec2, win_size: &WinSize, elapsed_micros: u64)
        requires
            old(self).wf(),
            win_size.wf(),
        ensures
            *final(self) == old(self).after_ball(ball_position, *win_size, elapsed_micros as int),
            final(self).wf(),
    {
        if self.player == PlayerType::CPU {
            let y_pos: i64 = approach_ball(
                &self.paddle,
                self.side,
                ball_position,
                win_size,
                elapsed_micros,
            );
            self.paddle.y_pos = y_pos;
            self.position.y = y_pos_to_y(y_pos, self.paddle.size, win_size);
        }
    }
}

/// Every paddle of the sequence is well formed.
pub open spec fn all_wf(paddles: Seq<PaddleEntity>) -> bool {
    forall|i: int| 0 <= i < paddles.len() ==> (#[trigger] paddles[i]).wf()
}

/// The paddle that the game starts with on the given side: in the middle of
/// its range, its centre a margin away from its wall.
pub open spec fn spawned(side: PaddleSide, win_size: WinSize, config: PaddleConfig) -> PaddleEntity {
    PaddleEntity {
        side,
        player: config.player_types[side.spec_index() as int],
        paddle: Paddle { y_pos: Y_POS_START, size: PADDLE_HEIGHT, speed: DEFAULT_SPEED },
        position: Vec2 {
            x: match side {
                PaddleSide::Left => -(win_size.width / 2 - PADDLE_MARGIN),
                PaddleSide::Right => win_size.width / 2 - PADDLE_MARGIN,
            } as i64,
            y: 0,
        },
    }
}

/// Makes the two paddles of a game, the left one first, each played by whom
/// the configuration names.
pub fn paddle_spawn_system(win_size: &WinSize, paddle_config: &PaddleConfig) -> (paddles: Vec<
    PaddleEntity,
>)
    requires
        win_size.wf(),
    ensures
        paddles@ == seq![
            spawned(PaddleSide::Left, *win_size, *paddle_config),
            spawned(PaddleSide::Right, *win_size, *paddle_config),
        ],
        all_wf(paddles@),
{
    let reach: i64 = win_size.width / 2 - PADDLE_MARGIN;
    let paddle_left = PaddleEntity {
        side: PaddleSide::Left,
        player: paddle_config.player_type(PaddleSide::Left),
        paddle: Paddle::new(PADDLE_HEIGHT, DEFAULT_SPEED),
        position: Vec2::new(-reach, 0),
    };
    let paddle_right = PaddleEntity {
        side: PaddleSide::Right,
        player: paddle_config.player_type(PaddleSide::Right),
        paddle: Paddle::new(PADDLE_HEIGHT, DEFAULT_SPEED),
        position: Vec2::new(reach, 0),
    };
    let mut paddles: Vec<PaddleEntity> = Vec::new();
    paddles.push(paddle_left);
    paddles.push(paddle_right);
    paddles
}

/// One tick of the human players: every paddle that a human plays moves by
/// the keys of its side, and the others stay.
pub fn paddle_human_movement_system(
    keyboard_input: &PressedKeys,
    win_size: &WinSize,
    elapsed_micros: u64,
    paddles: &mut Vec<PaddleEntity>,
)
    requires
        win_size.wf(),
        all_wf(old(paddles)@),
    ensures
        final(paddles)@.len() == old(paddles)@.len(),
        forall|i: int|
            0 <= i < old(paddles)@.len() ==> #[trigger] final(paddles)@[i] == old(
                paddles,
            )@[i].after_keys(*keyboard_input, *win_size, elapsed_micros as int),
        all_wf(final(paddles)@),
{
    let count: usize = paddles.len();
    let mut i: usize = 0;
    while i < count
        invariant
            i <= count,
            count == paddles@.len(),
            paddles@.len() == old(paddles)@.len(),
            win_size.wf(),
            all_wf(old(paddles)@),
            forall|j: int|
                0 <= j < i ==> #[trigger] paddles@[j] == old(paddles)@[j].after_keys(
                    *keyboard_input,
                    *win_size,
                    elapsed_micros as int,
                ) && paddles@[j].wf(),
            forall|j: int| i <= j < count ==> #[trigger] paddles@[j] == old(paddles)@[j],
        decreases count - i,
    {
        let mut entity: PaddleEntity = paddles[i];
        entity.follow_keys(keyboard_input, win_size, elapsed_micros);
        paddles[i] = entity;
        i += 1;
    }
}

/// One tick of the computer: every paddle that the computer plays moves
/// toward the ball while the ball is on its half, and the others stay.
pub fn paddle_cpu_movement_system(
    ball_position: Vec2,
    win_size: &WinSize,
    elapsed_micros: u64,
    paddles: &mut Vec<PaddleEntity>,
)
    requires
        win_size.wf(),
        all_wf(old(paddles)@),
    ensures
        final(paddles)@.len() == old(paddles)@.len(),
        forall|i: int|
            0 <= i < old(paddles)@.len() ==> #[trigger] final(paddles)@[i] == old(
                paddles,
            )@[i].after_ball(ball_position, *win_size, elapsed_micros as int),
        all_wf(final(paddles)@),
{
    let count: usize = paddles.len();
    let mut i: usize = 0;
    while i < count
        invariant
            i <= count,
            count == paddles@.len(),
            paddles@.len() == old(paddles)@.len(),
            win_size.wf(),
            all_wf(old(paddles)@),
            forall|j: int|
                0 <= j < i ==> #[trigger] paddles@[j] == old(paddles)@[j].after_ball(
                    ball_position,
                    *win_size,
                    elapsed_micros as int,
                ) && paddles@[j].wf(),
            forall|j: int| i <= j < count ==> #[trigger] paddles@[j] == old(paddles)@[j],
        decreases count - i,
    {
        let mut entity: PaddleEntity = paddles[i];
        entity.follow_ball(ball_position, win_size, elapsed_micros);
        paddles[i] = entity;
        i += 1;
    }
}

impl PaddleEntity {
    /// The entity after a run of ticks of the system that serves human
    /// players. Each tick is the keys that were held in it and the time that
    /// it took.
    pub open spec fn after_key_ticks(
        self,
        ticks: Seq<(PressedKeys, int)>,
        win_size: WinSize,
    ) -> PaddleEntity
        decreases ticks.len(),
    {
        if ticks.len() == 0 {
            self
        } else {
            self.after_key_ticks(ticks.drop_last(), win_size).after_keys(
                ticks.last().0,
                win_size,
                ticks.last().1,
            )
        }
    }
}

/// A paddle never leaves its range: whatever keys are held in whatever order
/// and however long the ticks take, the normalized position stays between 0
/// and 100.
pub proof fn lemma_keys_keep_paddle_in_range(
    entity: PaddleEntity,
    ticks: Seq<(PressedKeys, int)>,
    win_size: WinSize,
)
    requires
        0 <= entity.paddle.y_pos <= Y_POS_MAX,
    ensures
        0 <= entity.after_key_ticks(ticks, win_size).paddle.y_pos <= Y_POS_MAX,
    decreases ticks.len(),
{
    if ticks.len() > 0 {
        lemma_keys_keep_paddle_in_range(entity, ticks.drop_last(), win_size);
    }
}

/// One tick of the keys leaves the position in its range, wherever it was
/// before.
pub proof fn lemma_keys_clamp(y_pos: int, speed: int, elapsed_micros: int, up: bool, down: bool)
    ensures
        0 <= y_pos_after_keys(y_pos, speed, elapsed_micros, up, down) <= Y_POS_MAX,
{
}

/// One tick of the computer leaves the position in its range, wherever it
/// was before.
pub proof fn lemma_ball_clamp(
    paddle: Paddle,
    side: PaddleSide,
    ball_position: Vec2,
    win_size: WinSize,
    elapsed_micros: int,
)
    ensures
        0 <= y_pos_after_ball(paddle, side, ball_position, win_size, elapsed_micros) <= Y_POS_MAX,
{
}

/// The computer does not move while the ball is on the other half of the
/// field.
pub proof fn lemma_computer_waits(
    paddle: Paddle,
    side: PaddleSide,
    ball_position: Vec2,
    win_size: WinSize,
    elapsed_micros: int,
)
    requires
        paddle.wf(),
        !on_own_half(side, ball_position),
    ensures
        y_pos_after_ball(paddle, side, ball_position, win_size, elapsed_micros) == paddle.y_pos,
{
}

/// A paddle stays on the screen: for a paddle that is no taller than the
/// window, at any position of its range, the lower edge is not below the
/// lower edge of the window and the upper edge is not above the upper one.
/// At position 0 the lower edges meet.
pub proof fn lemma_paddle_stays_on_screen(y_pos: int, size: int, win_size: WinSize)
    requires
        0 <= y_pos <= Y_POS_MAX,
        0 <= size <= win_size.height,
    ensures
        -(win_size.height / 2) <= screen_y(y_pos, size, win_size) - size / 2,
        screen_y(y_pos, size, win_size) + size / 2 <= win_size.height - win_size.height / 2,
        screen_y(0, size, win_size) - size / 2 == -(win_size.height / 2),
{
    lemma_share_of_span(y_pos, win_size.height - size);
    assert(0 * (win_size.height - size) == 0) by (nonlinear_arith);
}

} // verus!
