//! The ball: how it travels, bounces off floor and ceiling, leaves the field,
//! and is deflected by a paddle.

use crate::fixed::{div_toward_zero, held_between, LIMIT, MICROS_PER_SECOND, UNIT};
use crate::paddle::{all_wf, PaddleEntity, PaddleSide, PADDLE_WIDTH};
use crate::random::Random;
use crate::vector::{
    lemma_normalized_is_unit, lemma_normalized_keeps_signs, lemma_unit_components,
    lemma_unit_is_not_zero, Vec2, UNIT_TOLERANCE,
};
use crate::WinSize;
use vstd::prelude::*;

verus! {

/// The speed of a new ball: 400 a second.
pub const DEFAULT_BALL_SPEED: i64 = 400_000_000;

/// What a hit adds to a component of the direction before the direction is
/// normalized again: a tenth.
pub const DEFLECTION: i64 = 100_000;

/// The ball: the direction it travels in, which is a unit vector, or zero
/// while none is chosen; its radius; the position of its centre; and its
/// speed.
#[derive(Clone, Copy, Debug, PartialEq, Eq, Structural)]
pub struct Ball {
    pub direction: Vec2,
    pub radius: i64,
    pub position: Vec2,
    pub speed: i64,
}

impl Default for Ball {
    /// A ball without size or direction at the origin, of the default speed.
    fn default() -> (ball: Ball)
        ensures
            ball == (Ball {
                direction: Vec2::zero(),
                radius: 0,
                position: Vec2::zero(),
                speed: DEFAULT_BALL_SPEED,
            }),
    {
        Ball {
            direction: Vec2::new(0, 0),
            radius: 0,
            position: Vec2::new(0, 0),
            speed: DEFAULT_BALL_SPEED,
        }
    }
}

impl Ball {
    /// A ball of the given radius at the given position, of the default speed
    /// and with no direction yet.
    pub fn new(radius: i64, position: Vec2) -> (ball: Ball)
        ensures
            ball == (Ball {
                direction: Vec2::zero(),
                radius,
                position,
                speed: DEFAULT_BALL_SPEED,
            }),
    {
        Ball { direction: Vec2::new(0, 0), radius, position, speed: DEFAULT_BALL_SPEED }
    }

    /// The direction is a unit vector or zero, the radius is not negative,
    /// the speed is positive, and both are within [`LIMIT`].
    pub open spec fn wf(self) -> bool {
        &&& self.direction.is_zero() || self.direction.is_unit()
        &&& 0 <= self.radius <= LIMIT
        &&& 0 < self.speed <= LIMIT
    }

    /// Tells whether the systems accept the ball.
    pub fn is_valid(&self) -> (valid: bool)
        ensures
            valid == self.wf(),
    {
        let reach: i64 = UNIT + UNIT_TOLERANCE;
        let x: i64 = self.direction.x;
        let y: i64 = self.direction.y;
        if x < -reach || x > reach || y < -reach || y > reach {
            proof {
                lemma_unit_components(self.direction);
            }
            return false;
        }
        assert(0 <= x * x <= reach * reach && 0 <= y * y <= reach * reach) by (nonlinear_arith)
            requires
                -reach <= x <= reach,
                -reach <= y <= reach,
        ;
        assert(reach * reach == 1_000_006_000_009) by (nonlinear_arith)
            requires
                reach == 1_000_003,
        ;
        let square: i64 = x * x + y * y;
        let low: i64 = (UNIT - UNIT_TOLERANCE) * (UNIT - UNIT_TOLERANCE);
        let high: i64 = (UNIT + UNIT_TOLERANCE) * (UNIT + UNIT_TOLERANCE);
        let direction_fits: bool = (x == 0 && y == 0) || (low <= square && square <= high);
        direction_fits && 0 <= self.radius && self.radius <= LIMIT && 0 < self.speed && self.speed
            <= LIMIT
    }
}

/// Both numbers are at least minus one and less than one.
pub open spec fn sample_in_range(sample: Vec2) -> bool {
    -UNIT <= sample.x < UNIT && -UNIT <= sample.y < UNIT
}

/// The direction that a new ball takes from two numbers drawn between minus
/// one and one: their vector, normalized; and to the right where both are
/// zero.
pub open spec fn initial_direction(sample: Vec2) -> Vec2 {
    if sample.is_zero() {
        Vec2 { x: UNIT, y: 0 }
    } else {
        sample.normalized()
    }
}

/// How far the ball moves along one axis in the elapsed time: the component
/// of its direction times its speed times the seconds that went by.
pub open spec fn travel(direction: int, speed: int, elapsed_micros: int) -> int {
    div_toward_zero(direction * speed * elapsed_micros, UNIT * MICROS_PER_SECOND)
}

/// A ball of the given radius with its centre at `x` has reached the left or
/// the right wall.
pub open spec fn leaves_field(x: int, radius: int, win_size: WinSize) -> bool {
    x + radius >= win_size.half_width() || x - radius <= -win_size.half_width()
}

impl Ball {
    /// The ball has reached the floor or the ceiling.
    pub open spec fn touches_floor_or_ceiling(self, win_size: WinSize) -> bool {
        self.position.y + self.radius >= win_size.half_height() || self.position.y - self.radius
            <= -win_size.half_height()
    }

    /// The direction in which the ball travels during a tick: its own, or the
    /// initial one where it has none yet, turned round vertically where the
    /// ball has reached the floor or the ceiling.
    pub open spec fn heading(self, sample: Vec2, win_size: WinSize) -> Vec2 {
        let chosen = if self.direction.is_zero() {
            initial_direction(sample)
        } else {
            self.direction
        };
        if self.touches_floor_or_ceiling(win_size) {
            Vec2 { x: chosen.x, y: (-chosen.y) as i64 }
        } else {
            chosen
        }
    }

    /// The ball after a tick. It travels along its heading. Where that takes
    /// it to the left or the right wall, it goes back to the origin and
    /// loses its direction. Last, its height is held between floor and
    /// ceiling.
    pub open spec fn after_tick(self, sample: Vec2, elapsed_micros: int, win_size: WinSize) -> Ball {
        let heading = self.heading(sample, win_size);
        let x = self.position.x + travel(heading.x as int, self.speed as int, elapsed_micros);
        let y = self.position.y + travel(heading.y as int, self.speed as int, elapsed_micros);
        let low = self.radius - win_size.half_height();
        let high = win_size.half_height() - self.radius;
        if leaves_field(x, self.radius as int, win_size) {
            Ball {
                direction: Vec2::zero(),
                position: Vec2 { x: 0, y: held_between(0, low, high) as i64 },
                ..self
            }
        } else {
            Ball {
                direction: heading,
                position: Vec2 { x: x as i64, y: held_between(y, low, high) as i64 },
                ..self
            }
        }
    }
}

/// Moves the ball by one tick. `sample` holds the two numbers that give a
/// ball without direction its first one.
pub fn move_ball(ball: &mut Ball, sample: Vec2, elapsed_micros: u64, win_size: &WinSize)
    requires
        old(ball).wf(),
        sample.within_limit(),
        win_size.wf(),
    ensures
        *final(ball) == old(ball).after_tick(sample, elapsed_micros as int, *win_size),
        final(ball).wf(),
{
    proof {
        lemma_heading_is_unit(*ball, sample, *win_size);
    }
    let radius: i128 = ball.radius as i128;
    let half_width: i128 = (win_size.width / 2) as i128;
    let half_height: i128 = (win_size.height / 2) as i128;
    // The direction: chosen now where the ball has none.
    let mut direction: Vec2 = ball.direction;
    if direction.x == 0 && direction.y == 0 {
        if sample.x == 0 && sample.y == 0 {
            direction = Vec2::new(UNIT, 0);
        } else {
            direction = sample.normalize();
        }
    }
    proof {
        if ball.touches_floor_or_ceiling(*win_size) {
            lemma_turned_is_unit(direction);
        }
        lemma_unit_components(direction);
    }
    // Floor and ceiling turn the ball round.
    let ball_y: i128 = ball.position.y as i128;
    if ball_y + radius >= half_height || ball_y - radius <= -half_height {
        direction = Vec2::new(direction.x, -direction.y);
    }
    assert(direction == ball.heading(sample, *win_size));
    proof {
        lemma_unit_components(direction);
    }
    // The way of this tick.
    let x: i128 = ball.position.x as i128 + travel_of(direction.x, ball.speed, elapsed_micros);
    let y: i128 = ball.position.y as i128 + travel_of(direction.y, ball.speed, elapsed_micros);
    let low: i128 = radius - half_height;
    let high: i128 = half_height - radius;
    if x + radius >= half_width || x - radius <= -half_width {
        // Out on the left or the right: back to the middle.
        ball.direction = Vec2::new(0, 0);
        ball.position = Vec2::new(0, hold_between(0, low, high) as i64);
    } else {
        ball.direction = direction;
        ball.position = Vec2::new(x as i64, hold_between(y, low, high) as i64);
    }
}

/// Moves the ball by one tick. A ball without direction takes its first one
/// from two numbers that are drawn from `random`, each at least minus one
/// and less than one; for a ball that has a direction nothing is drawn.
pub fn ball_movement_system(
    random: &mut Random,
    ball: &mut Ball,
    elapsed_micros: u64,
    win_size: &WinSize,
)
    requires
        old(ball).wf(),
        win_size.wf(),
    ensures
        exists|sample: Vec2|
            sample_in_range(sample) && *final(ball) == #[trigger] old(ball).after_tick(
                sample,
                elapsed_micros as int,
                *win_size,
            ),
        !old(ball).direction.is_zero() ==> *final(ball) == old(ball).after_tick(
            Vec2::zero(),
            elapsed_micros as int,
            *win_size,
        ),
        final(ball).wf(),
{
    let sample: Vec2 = if ball.direction.x == 0 && ball.direction.y == 0 {
        let x: i64 = random.gen_range(-UNIT, UNIT);
        let y: i64 = random.gen_range(-UNIT, UNIT);
        Vec2::new(x, y)
    } else {
        Vec2::new(0, 0)
    };
    move_ball(ball, sample, elapsed_micros, win_size);
    assert(sample_in_range(sample));
}

/// How far the ball moves along one axis in the elapsed time.
fn travel_of(direction: i64, speed: i64, elapsed_micros: u64) -> (distance: i128)
    requires
        -(UNIT + UNIT_TOLERANCE) <= direction <= UNIT + UNIT_TOLERANCE,
        0 < speed <= LIMIT,
    ensures
        distance == travel(direction as int, speed as int, elapsed_micros as int),
        -0x1_0000_0000_0000_0000_0000_0000 <= distance <= 0x1_0000_0000_0000_0000_0000_0000,
{
    let d: i128 = direction as i128;
    let s: i128 = speed as i128;
    let t: i128 = elapsed_micros as i128;
    assert(-1_000_003_000_000_000_000 <= d * s <= 1_000_003_000_000_000_000) by (nonlinear_arith)
        requires
            -1_000_003 <= d <= 1_000_003,
            0 < s <= 1_000_000_000_000,
    ;
    let rate: i128 = d * s;
    assert(-18_446_800_000_000_000_000_000_000_000_000_000_000 <= rate * t
        <= 18_446_800_000_000_000_000_000_000_000_000_000_000) by (nonlinear_arith)
        requires
            -1_000_003_000_000_000_000 <= rate <= 1_000_003_000_000_000_000,
            0 <= t <= 0xffff_ffff_ffff_ffff,
    ;
    assert(UNIT * MICROS_PER_SECOND == 1_000_000_000_000) by (nonlinear_arith)
        requires
            UNIT == 1_000_000,
            MICROS_PER_SECOND == 1_000_000,
    ;
    let scale: i128 = UNIT as i128 * MICROS_PER_SECOND as i128;
    rate * t / scale
}

/// Holds `v` between `low` and `high`; where the two cross, `low` wins.
fn hold_between(v: i128, low: i128, high: i128) -> (held: i128)
    ensures
        held == held_between(v as int, low as int, high as int),
        low <= high ==> low <= held <= high,
        high < low ==> held == low,
{
    let capped: i128 = if v > high {
        high
    } else {
        v
    };
    if capped < low {
        low
    } else {
        capped
    }
}

/// Two intervals have more than a point in common.
pub open spec fn intervals_overlap(low_a: int, high_a: int, low_b: int, high_b: int) -> bool {
    low_a < high_a && low_b < high_b && low_a < high_b && low_b < high_a
}

/// What a hit adds to the vertical component of the direction: a tenth where
/// the upper edge of the ball reaches the upper third of the paddle, less a
/// tenth where its lower edge reaches the lower third.
pub open spec fn zone_deflection(ball_y: int, radius: int, paddle_y: int, paddle_size: int) -> int {
    (if ball_y + radius >= paddle_y + paddle_size / 3 {
        DEFLECTION as int
    } else {
        0
    }) - (if ball_y - radius <= paddle_y - paddle_size / 3 {
        DEFLECTION as int
    } else {
        0
    })
}

/// What a hit adds to the horizontal component of the direction: a tenth away
/// from the wall of the paddle.
pub open spec fn side_bias(side: PaddleSide) -> int {
    match side {
        PaddleSide::Left => DEFLECTION as int,
        PaddleSide::Right => -DEFLECTION,
    }
}

impl Ball {
    /// The square around the ball and the rectangle of the paddle have more
    /// than an edge in common. A paddle without height is never hit.
    pub open spec fn overlaps(self, paddle: PaddleEntity) -> bool {
        &&& intervals_overlap(
            self.position.x - self.radius,
            self.position.x + self.radius,
            paddle.position.x - PADDLE_WIDTH / 2,
            paddle.position.x + PADDLE_WIDTH / 2,
        )
        &&& intervals_overlap(
            self.position.y - self.radius,
            self.position.y + self.radius,
            paddle.position.y - paddle.paddle.size / 2,
            paddle.position.y + paddle.paddle.size / 2,
        )
    }

    /// The direction of a ball that hits the paddle, before it is normalized:
    /// turned round horizontally, pushed away from the wall of the paddle,
    /// and deflected by the zone of the paddle that was hit.
    pub open spec fn struck_direction(self, paddle: PaddleEntity) -> Vec2 {
        Vec2 {
            x: (-self.direction.x + side_bias(paddle.side)) as i64,
            y: (self.direction.y + zone_deflection(
                self.position.y as int,
                self.radius as int,
                paddle.position.y as int,
                paddle.paddle.size as int,
            )) as i64,
        }
    }

    /// The ball after it has met one paddle. Where the two overlap, the ball
    /// takes the struck direction, normalized, and is put beside the paddle,
    /// on the side that it now travels to, so that the two touch.
    pub open spec fn after_paddle(self, paddle: PaddleEntity) -> Ball {
        if self.overlaps(paddle) {
            let direction = self.struck_direction(paddle).normalized();
            let x = if direction.x < 0 {
                paddle.position.x - PADDLE_WIDTH / 2 - self.radius
            } else {
                paddle.position.x + PADDLE_WIDTH / 2 + self.radius
            };
            Ball { direction, position: Vec2 { x: x as i64, y: self.position.y }, ..self }
        } else {
            self
        }
    }

    /// The ball after it has met each paddle of the sequence in turn.
    pub open spec fn after_paddles(self, paddles: Seq<PaddleEntity>) -> Ball
        decreases paddles.len(),
    {
        if paddles.len() == 0 {
            self
        } else {
            self.after_paddles(paddles.drop_last()).after_paddle(paddles.last())
        }
    }

    /// Tells whether the ball and the paddle overlap.
    pub fn hits(&self, paddle: &PaddleEntity) -> (hit: bool)
        requires
            self.wf(),
            paddle.wf(),
        ensures
            hit == self.overlaps(*paddle),
    {
        let radius: i128 = self.radius as i128;
        let ball_x: i128 = self.position.x as i128;
        let ball_y: i128 = self.position.y as i128;
        let paddle_x: i128 = paddle.position.x as i128;
        let paddle_y: i128 = paddle.position.y as i128;
        let half_width: i128 = (PADDLE_WIDTH / 2) as i128;
        let half_height: i128 = (paddle.paddle.size / 2) as i128;
        let across: bool = ball_x - radius < ball_x + radius && paddle_x - half_width < paddle_x
            + half_width && ball_x - radius < paddle_x + half_width && paddle_x - half_width
            < ball_x + radius;
        let along: bool = ball_y - radius < ball_y + radius && paddle_y - half_height < paddle_y
            + half_height && ball_y - radius < paddle_y + half_height && paddle_y - half_height
            < ball_y + radius;
        across && along
    }

    /// Lets the ball meet one paddle: where they overlap, the ball is
    /// deflected and put beside the paddle.
    pub fn meet_paddle(&mut self, paddle: &PaddleEntity)
        requires
            old(self).wf(),
            paddle.wf(),
        ensures
            *final(self) == old(self).after_paddle(*paddle),
            final(self).wf(),
    {
        if self.hits(paddle) {
            let radius: i128 = self.radius as i128;
            let ball_y: i128 = self.position.y as i128;
            let paddle_y: i128 = paddle.position.y as i128;
            let third: i128 = (paddle.paddle.size / 3) as i128;
            proof {
                lemma_unit_components(self.direction);
            }
            let mut x: i64 = -self.direction.x;
            let mut y: i64 = self.direction.y;
            if ball_y + radius >= paddle_y + third {
                y = y + DEFLECTION;
            }
            if ball_y - radius <= paddle_y - third {
                y = y - DEFLECTION;
            }
            match paddle.side {
                PaddleSide::Left => {
                    x = x + DEFLECTION;
                },
                PaddleSide::Right => {
                    x = x - DEFLECTION;
                },
            }
            let struck = Vec2::new(x, y);
            proof {
                assert(struck == self.struck_direction(*paddle));
                lemma_struck_direction_is_not_zero(*self, *paddle);
            }
            let direction = struck.normalize();
            self.direction = direction;
            if direction.x < 0 {
                self.position.x = paddle.position.x - PADDLE_WIDTH / 2 - self.radius;
            } else {
                self.position.x = paddle.position.x + PADDLE_WIDTH / 2 + self.radius;
            }
        }
    }
}

/// Lets the ball meet every paddle in turn: where it overlaps one, it is
/// deflected and put beside that paddle.
pub fn ball_paddle_hit(ball: &mut Ball, paddles: &Vec<PaddleEntity>)
    requires
        old(ball).wf(),
        all_wf(paddles@),
    ensures
        *final(ball) == old(ball).after_paddles(paddles@),
        final(ball).wf(),
{
    let count: usize = paddles.len();
    let mut i: usize = 0;
    assert(paddles@.take(0) =~= Seq::<PaddleEntity>::empty());
    while i < count
        invariant
            i <= count,
            count == paddles@.len(),
            all_wf(paddles@),
            ball.wf(),
            *ball == old(ball).after_paddles(paddles@.take(i as int)),
        decreases count - i,
    {
        proof {
            let next = paddles@.take(i + 1);
            assert(next.drop_last() =~= paddles@.take(i as int));
            assert(next.last() == paddles@[i as int]);
        }
        ball.meet_paddle(&paddles[i]);
        i += 1;
    }
    assert(paddles@.take(count as int) =~= paddles@);
}

/// Turning a unit vector round vertically leaves it a unit vector.
proof fn lemma_turned_is_unit(v: Vec2)
    requires
        v.is_unit(),
    ensures
        (Vec2 { x: v.x, y: (-v.y) as i64 }).is_unit(),
        -v.y == ((-v.y) as i64),
{
    lemma_unit_components(v);
    let y = v.y as int;
    assert((-y) * (-y) == y * y) by (nonlinear_arith);
}

/// The heading of a well-formed ball is a unit vector.
pub proof fn lemma_heading_is_unit(ball: Ball, sample: Vec2, win_size: WinSize)
    requires
        ball.wf(),
        sample.within_limit(),
    ensures
        ball.heading(sample, win_size).is_unit(),
{
    let chosen = if ball.direction.is_zero() {
        initial_direction(sample)
    } else {
        ball.direction
    };
    if ball.direction.is_zero() {
        if sample.is_zero() {
            assert((Vec2 { x: UNIT, y: 0 }).is_unit()) by {
                assert((UNIT - UNIT_TOLERANCE) * (UNIT - UNIT_TOLERANCE) <= UNIT * UNIT + 0 * 0
                    <= (UNIT + UNIT_TOLERANCE) * (UNIT + UNIT_TOLERANCE)) by (nonlinear_arith)
                    requires
                        UNIT == 1_000_000,
                        UNIT_TOLERANCE == 3,
                ;
            }
        } else {
            lemma_normalized_is_unit(sample);
        }
    }
    assert(chosen.is_unit());
    lemma_turned_is_unit(chosen);
}

/// A hit never leaves the ball without a direction: what it adds to a unit
/// vector, or to zero, cannot cancel both components.
pub proof fn lemma_struck_direction_is_not_zero(ball: Ball, paddle: PaddleEntity)
    requires
        ball.wf(),
    ensures
        !ball.struck_direction(paddle).is_zero(),
        ball.struck_direction(paddle).within_limit(),
        ball.struck_direction(paddle).x == -ball.direction.x + side_bias(paddle.side),
        ball.struck_direction(paddle).y == ball.direction.y + zone_deflection(
            ball.position.y as int,
            ball.radius as int,
            paddle.position.y as int,
            paddle.paddle.size as int,
        ),
{
    lemma_unit_components(ball.direction);
    let x = ball.direction.x as int;
    let y = ball.direction.y as int;
    if ball.direction.is_unit() {
        assert(!((x == DEFLECTION || x == -DEFLECTION) && (y == 0 || y == DEFLECTION || y
            == -DEFLECTION))) by (nonlinear_arith)
            requires
                x * x + y * y >= (UNIT - UNIT_TOLERANCE) * (UNIT - UNIT_TOLERANCE),
                UNIT == 1_000_000,
                UNIT_TOLERANCE == 3,
                DEFLECTION == 100_000,
        {
            if (x == DEFLECTION || x == -DEFLECTION) && (y == 0 || y == DEFLECTION || y
                == -DEFLECTION) {
                assert(x * x == 10_000_000_000);
                assert(y * y <= 10_000_000_000);
            }
        }
    }
}

/// The ceiling turns a rising ball round: where the upper edge of a ball that
/// travels upward has reached the ceiling, the heading of the tick has the
/// vertical component of the direction with its sign changed and the
/// horizontal one as it was; and the ball ends the tick with that heading
/// unless the tick takes it out of the field.
pub proof fn lemma_ceiling_turns_ball(
    ball: Ball,
    sample: Vec2,
    elapsed_micros: int,
    win_size: WinSize,
)
    requires
        ball.wf(),
        ball.direction.y > 0,
        ball.position.y + ball.radius >= win_size.half_height(),
    ensures
        ball.heading(sample, win_size).y == -ball.direction.y,
        ball.heading(sample, win_size).x == ball.direction.x,
        ball.after_tick(sample, elapsed_micros, win_size).direction == ball.heading(
            sample,
            win_size,
        ) || ball.after_tick(sample, elapsed_micros, win_size).direction.is_zero(),
{
    lemma_unit_components(ball.direction);
}

/// The floor turns a falling ball round, as the ceiling does a rising one.
pub proof fn lemma_floor_turns_ball(
    ball: Ball,
    sample: Vec2,
    elapsed_micros: int,
    win_size: WinSize,
)
    requires
        ball.wf(),
        ball.direction.y < 0,
        ball.position.y - ball.radius <= -win_size.half_height(),
    ensures
        ball.heading(sample, win_size).y == -ball.direction.y,
        ball.heading(sample, win_size).x == ball.direction.x,
        ball.after_tick(sample, elapsed_micros, win_size).direction == ball.heading(
            sample,
            win_size,
        ) || ball.after_tick(sample, elapsed_micros, win_size).direction.is_zero(),
{
    lemma_unit_components(ball.direction);
}

/// A ball that reaches the left or the right wall starts again: where, after
/// the way of the tick, an edge of the ball is at or beyond a side wall, the
/// ball ends the tick at the origin and without direction. (A ball that is
/// taller than the field is left out: it cannot be held at the origin.)
pub proof fn lemma_side_wall_resets_ball(
    ball: Ball,
    sample: Vec2,
    elapsed_micros: int,
    win_size: WinSize,
)
    requires
        ball.wf(),
        win_size.wf(),
        ball.radius <= win_size.half_height(),
        leaves_field(
            ball.position.x + travel(
                ball.heading(sample, win_size).x as int,
                ball.speed as int,
                elapsed_micros,
            ),
            ball.radius as int,
            win_size,
        ),
    ensures
        ball.after_tick(sample, elapsed_micros, win_size).position == Vec2::zero(),
        ball.after_tick(sample, elapsed_micros, win_size).direction == Vec2::zero(),
{
}

/// After a tick the ball is inside the field: it does not reach a side wall,
/// and it is held between floor and ceiling. (Again without a ball that is
/// wider or taller than the field.)
pub proof fn lemma_ball_stays_in_field(
    ball: Ball,
    sample: Vec2,
    elapsed_micros: int,
    win_size: WinSize,
)
    requires
        ball.wf(),
        win_size.wf(),
        ball.radius <= win_size.half_height(),
        ball.radius < win_size.half_width(),
    ensures
        ({
            let after = ball.after_tick(sample, elapsed_micros, win_size);
            &&& !leaves_field(after.position.x as int, after.radius as int, win_size)
            &&& -win_size.half_height() <= after.position.y - after.radius
            &&& after.position.y + after.radius <= win_size.half_height()
        }),
{
}

/// A tick leaves the ball without direction exactly where the ball has
/// reached a side wall: so whoever keeps the score can tell from the ball
/// that a point was played out.
pub proof fn lemma_lost_direction_tells_reset(
    ball: Ball,
    sample: Vec2,
    elapsed_micros: int,
    win_size: WinSize,
)
    requires
        ball.wf(),
        sample.within_limit(),
    ensures
        ball.after_tick(sample, elapsed_micros, win_size).direction.is_zero() <==> leaves_field(
            ball.position.x + travel(
                ball.heading(sample, win_size).x as int,
                ball.speed as int,
                elapsed_micros,
            ),
            ball.radius as int,
            win_size,
        ),
{
    lemma_heading_is_unit(ball, sample, win_size);
    lemma_unit_is_not_zero(ball.heading(sample, win_size));
}

/// A hit in the middle of the paddle does not deflect: where both edges of
/// the ball are strictly inside the middle third of the paddle, the hit adds
/// nothing to the vertical component of the direction.
pub proof fn lemma_middle_third_is_flat(ball_y: int, radius: int, paddle_y: int, paddle_size: int)
    requires
        ball_y + radius < paddle_y + paddle_size / 3,
        ball_y - radius > paddle_y - paddle_size / 3,
    ensures
        zone_deflection(ball_y, radius, paddle_y, paddle_size) == 0,
{
}

/// A ball whose centre is level with the centre of the paddle is not
/// deflected, whatever its size: it reaches both outer thirds or neither.
pub proof fn lemma_centre_is_flat(radius: int, paddle_y: int, paddle_size: int)
    ensures
        zone_deflection(paddle_y, radius, paddle_y, paddle_size) == 0,
{
}

/// A hit at the upper edge of the paddle deflects upward by exactly a tenth:
/// where the centre of the ball is level with the upper edge of the paddle,
/// and the ball is too small to reach down to the lower third, the hit adds
/// [`DEFLECTION`] to the vertical component of the direction.
pub proof fn lemma_upper_edge_deflects_up(radius: int, paddle_y: int, paddle_size: int)
    requires
        0 <= radius,
        0 <= paddle_size,
        radius < paddle_size / 2 + paddle_size / 3,
    ensures
        zone_deflection(paddle_y + paddle_size / 2, radius, paddle_y, paddle_size) == DEFLECTION,
{
}

/// A hit at the lower edge of the paddle deflects downward by exactly a
/// tenth.
pub proof fn lemma_lower_edge_deflects_down(radius: int, paddle_y: int, paddle_size: int)
    requires
        0 <= radius,
        0 <= paddle_size,
        radius < paddle_size / 2 + paddle_size / 3,
    ensures
        zone_deflection(paddle_y - paddle_size / 2, radius, paddle_y, paddle_size) == -DEFLECTION,
{
}

/// A ball that has met a paddle is not inside it: whatever the ball and the
/// paddle were, after the meeting the two do not overlap.
pub proof fn lemma_ball_is_beside_paddle(ball: Ball, paddle: PaddleEntity)
    requires
        ball.wf(),
        paddle.wf(),
    ensures
        !ball.after_paddle(paddle).overlaps(paddle),
{
}

/// A meeting leaves the ball well formed, at its height, and with its radius
/// and speed.
pub proof fn lemma_paddle_keeps_ball(ball: Ball, paddle: PaddleEntity)
    requires
        ball.wf(),
        paddle.wf(),
    ensures
        ball.after_paddle(paddle).wf(),
        ball.after_paddle(paddle).position.y == ball.position.y,
        ball.after_paddle(paddle).radius == ball.radius,
        ball.after_paddle(paddle).speed == ball.speed,
{
    if ball.overlaps(paddle) {
        lemma_struck_direction_is_not_zero(ball, paddle);
        lemma_normalized_is_unit(ball.struck_direction(paddle));
    }
}

/// A paddle sends back the ball that comes toward its wall: a ball that does
/// not travel away from the wall when it meets the paddle travels away from
/// it afterwards, and lies on the side of the paddle that faces the field.
pub proof fn lemma_paddle_returns_ball(ball: Ball, paddle: PaddleEntity)
    requires
        ball.wf(),
        paddle.wf(),
        ball.overlaps(paddle),
        match paddle.side {
            PaddleSide::Left => ball.direction.x <= 0,
            PaddleSide::Right => ball.direction.x >= 0,
        },
    ensures
        match paddle.side {
            PaddleSide::Left => ball.after_paddle(paddle).direction.x > 0 && ball.after_paddle(
                paddle,
            ).position.x == paddle.position.x + PADDLE_WIDTH / 2 + ball.radius,
            PaddleSide::Right => ball.after_paddle(paddle).direction.x < 0 && ball.after_paddle(
                paddle,
            ).position.x == paddle.position.x - PADDLE_WIDTH / 2 - ball.radius,
        },
{
    lemma_struck_direction_is_not_zero(ball, paddle);
    lemma_unit_components(ball.direction);
    let struck = ball.struck_direction(paddle);
    let x = struck.x as int;
    let y = struck.y as int;
    assert(y * y <= (UNIT * UNIT - 1) * (x * x)) by (nonlinear_arith)
        requires
            x >= 100_000 || x <= -100_000,
            -1_200_000 <= y <= 1_200_000,
            UNIT == 1_000_000,
    {
        assert(x * x >= 10_000_000_000);
        assert(y * y <= 1_440_000_000_000);
    }
    lemma_normalized_keeps_signs(struck);
}

} // verus!
