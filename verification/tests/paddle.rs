use bevy_pong::paddle::{
    approach_ball, clamp_y_pos, move_paddle, paddle_cpu_movement_system,
    paddle_human_movement_system, paddle_spawn_system, stride_of, y_pos_to_y, Paddle,
    PaddleConfig, PaddleEntity, PaddleSide, PlayerType, PressedKeys, DEFAULT_SPEED, PADDLE_HEIGHT,
    PADDLE_MARGIN, PADDLE_WIDTH, Y_POS_MAX, Y_POS_START,
};
use bevy_pong::fixed::{LIMIT, UNIT};
use bevy_pong::vector::Vec2;
use bevy_pong::WinSize;

fn window() -> WinSize {
    WinSize { width: 800 * UNIT, height: 600 * UNIT }
}

fn no_keys() -> PressedKeys {
    PressedKeys { left_up: false, left_down: false, right_up: false, right_down: false }
}

fn entity(side: PaddleSide, player: PlayerType, y_pos: i64) -> PaddleEntity {
    let x = match side {
        PaddleSide::Left => -390 * UNIT,
        PaddleSide::Right => 390 * UNIT,
    };
    PaddleEntity {
        side,
        player,
        paddle: Paddle { y_pos, size: 100 * UNIT, speed: 50 * UNIT },
        position: Vec2::new(x, y_pos_to_y(y_pos, 100 * UNIT, &window())),
    }
}

#[test]
fn new_paddle_keeps_size_and_speed() {
    let paddle = Paddle::new(10 * UNIT, 5 * UNIT);
    assert_eq!(*paddle.size(), 10 * UNIT);
    assert_eq!(*paddle.speed(), 5 * UNIT);
    assert_eq!(*paddle.y_pos(), 50 * UNIT);
}

#[test]
fn paddle_constructors_fill_in_the_defaults() {
    assert_eq!(Paddle::default(), Paddle { y_pos: Y_POS_START, size: 0, speed: DEFAULT_SPEED });
    assert_eq!(Paddle::new_default_size(7), Paddle { y_pos: Y_POS_START, size: 0, speed: 7 });
    assert_eq!(
        Paddle::new_default_speed(9),
        Paddle { y_pos: Y_POS_START, size: 9, speed: DEFAULT_SPEED }
    );
    assert_eq!(Y_POS_START, 50 * UNIT);
    assert_eq!(DEFAULT_SPEED, 50 * UNIT);
    assert_eq!(Y_POS_MAX, 100 * UNIT);
}

#[test]
fn paddle_setters_change_one_field() {
    let mut paddle = Paddle::new(1, 2);
    paddle.set_y_pos(3);
    assert_eq!(paddle, Paddle { y_pos: 3, size: 1, speed: 2 });
    paddle.set_size(4);
    assert_eq!(paddle, Paddle { y_pos: 3, size: 4, speed: 2 });
    paddle.set_speed(5);
    assert_eq!(paddle, Paddle { y_pos: 3, size: 4, speed: 5 });
    paddle.set_y_pos(6).set_size(7).set_speed(8);
    assert_eq!(paddle, Paddle { y_pos: 6, size: 7, speed: 8 });
}

#[test]
fn paddle_validity() {
    assert!(Paddle::new(100 * UNIT, 50 * UNIT).is_valid());
    assert!(Paddle::default().is_valid());
    assert!(Paddle { y_pos: 0, size: LIMIT, speed: -1 }.is_valid());
    assert!(!Paddle { y_pos: -1, size: 0, speed: 0 }.is_valid());
    assert!(!Paddle { y_pos: Y_POS_MAX + 1, size: 0, speed: 0 }.is_valid());
    assert!(!Paddle { y_pos: 0, size: -1, speed: 0 }.is_valid());
    assert!(!Paddle { y_pos: 0, size: LIMIT + 1, speed: 0 }.is_valid());
}

#[test]
fn entity_validity() {
    assert!(entity(PaddleSide::Left, PlayerType::Human, 0).is_valid());
    let mut far = entity(PaddleSide::Left, PlayerType::Human, 0);
    far.position.x = LIMIT + 1;
    assert!(!far.is_valid());
    far.position = Vec2::new(0, -LIMIT - 1);
    assert!(!far.is_valid());
    far.position = Vec2::new(-LIMIT, LIMIT);
    assert!(far.is_valid());
    far.paddle.size = -1;
    assert!(!far.is_valid());
}

#[test]
fn side_index() {
    assert_eq!(PaddleSide::Left.index(), 0);
    assert_eq!(PaddleSide::Right.index(), 1);
}

#[test]
fn config_names_the_player_of_each_side() {
    let config = PaddleConfig { player_types: [PlayerType::Human, PlayerType::CPU] };
    assert_eq!(config.player_type(PaddleSide::Left), PlayerType::Human);
    assert_eq!(config.player_type(PaddleSide::Right), PlayerType::CPU);
}

#[test]
fn keys_of_each_side() {
    let keys = PressedKeys { left_up: true, left_down: false, right_up: false, right_down: true };
    assert!(keys.up(PaddleSide::Left));
    assert!(!keys.down(PaddleSide::Left));
    assert!(!keys.up(PaddleSide::Right));
    assert!(keys.down(PaddleSide::Right));
}

#[test]
fn screen_position_of_a_paddle() {
    let win = window();
    assert_eq!(y_pos_to_y(50 * UNIT, 100 * UNIT, &win), 0);
    assert_eq!(y_pos_to_y(0, 100 * UNIT, &win), -250 * UNIT);
    assert_eq!(y_pos_to_y(100 * UNIT, 100 * UNIT, &win), 250 * UNIT);
    assert_eq!(y_pos_to_y(51 * UNIT, 100 * UNIT, &win), 5 * UNIT);
    let odd = WinSize { width: 800 * UNIT, height: 600 * UNIT + 1 };
    assert_eq!(y_pos_to_y(33_333_333, 100 * UNIT, &odd), -83_333_335);
}

#[test]
fn screen_position_of_a_paddle_taller_than_the_window() {
    let win = WinSize { width: 800 * UNIT, height: 100 * UNIT };
    assert_eq!(y_pos_to_y(0, 300 * UNIT, &win), 100 * UNIT);
    assert_eq!(y_pos_to_y(100 * UNIT, 300 * UNIT, &win), -100 * UNIT);
    assert_eq!(y_pos_to_y(50 * UNIT, 300 * UNIT, &win), 0);
}

#[test]
fn screen_position_at_the_limit() {
    let win = WinSize { width: LIMIT, height: LIMIT };
    assert_eq!(y_pos_to_y(0, 0, &win), -LIMIT / 2);
    assert_eq!(y_pos_to_y(Y_POS_MAX, 0, &win), LIMIT / 2);
    assert_eq!(y_pos_to_y(Y_POS_MAX, LIMIT, &win), 0);
}

#[test]
fn stride_is_speed_times_seconds() {
    assert_eq!(stride_of(50 * UNIT, 20_000), 1_000_000);
    assert_eq!(stride_of(50 * UNIT, 16_667), 833_350);
    assert_eq!(stride_of(-50 * UNIT, 16_667), -833_350);
    assert_eq!(stride_of(3, 333_333), 0);
    assert_eq!(stride_of(-3, 333_333), 0);
    assert_eq!(stride_of(3, 333_334), 1);
    assert_eq!(stride_of(50 * UNIT, 0), 0);
    assert_eq!(
        stride_of(i64::MIN, u64::MAX),
        (i64::MIN as i128) * (u64::MAX as i128) / 1_000_000
    );
}

#[test]
fn clamp_holds_the_range() {
    assert_eq!(clamp_y_pos(-1), 0);
    assert_eq!(clamp_y_pos(0), 0);
    assert_eq!(clamp_y_pos(1), 1);
    assert_eq!(clamp_y_pos(Y_POS_MAX as i128), Y_POS_MAX);
    assert_eq!(clamp_y_pos(Y_POS_MAX as i128 + 1), Y_POS_MAX);
    assert_eq!(clamp_y_pos(i128::MAX), Y_POS_MAX);
    assert_eq!(clamp_y_pos(i128::MIN), 0);
}

#[test]
fn up_goes_before_down() {
    assert_eq!(move_paddle(50 * UNIT, 50 * UNIT, 20_000, true, false), 51 * UNIT);
    assert_eq!(move_paddle(50 * UNIT, 50 * UNIT, 20_000, true, true), 51 * UNIT);
    assert_eq!(move_paddle(50 * UNIT, 50 * UNIT, 20_000, false, true), 49 * UNIT);
    assert_eq!(move_paddle(50 * UNIT, 50 * UNIT, 20_000, false, false), 50 * UNIT);
}

#[test]
fn paddle_stops_at_the_ends_of_its_range() {
    assert_eq!(move_paddle(99_500_000, 50 * UNIT, 20_000, true, false), Y_POS_MAX);
    assert_eq!(move_paddle(500_000, 50 * UNIT, 20_000, false, true), 0);
    assert_eq!(move_paddle(0, 50 * UNIT, u64::MAX, true, false), Y_POS_MAX);
    assert_eq!(move_paddle(Y_POS_MAX, 50 * UNIT, u64::MAX, false, true), 0);
    assert_eq!(move_paddle(i64::MAX, i64::MAX, u64::MAX, true, false), Y_POS_MAX);
    assert_eq!(move_paddle(i64::MIN, i64::MAX, u64::MAX, false, true), 0);
    assert_eq!(move_paddle(i64::MIN, 0, 0, false, false), 0);
}

#[test]
fn paddle_stays_in_range_under_any_keys() {
    let mut y_pos = Y_POS_START;
    let times: [u64; 5] = [0, 1, 16_667, 1_000_000, u64::MAX];
    let mut step: usize = 0;
    for round in 0..200u32 {
        let up = round % 3 != 0;
        let down = round % 2 == 0;
        y_pos = move_paddle(y_pos, 50 * UNIT, times[step % 5], up, down);
        assert!(0 <= y_pos && y_pos <= Y_POS_MAX);
        step += 7;
    }
}

#[test]
fn computer_follows_the_ball_on_its_half() {
    let win = window();
    let paddle = Paddle::new(100 * UNIT, 50 * UNIT);
    let above = Vec2::new(-10 * UNIT, 100 * UNIT);
    let below = Vec2::new(-10 * UNIT, -100 * UNIT);
    let level = Vec2::new(-10 * UNIT, 0);
    assert_eq!(approach_ball(&paddle, PaddleSide::Left, above, &win, 20_000), 51 * UNIT);
    assert_eq!(approach_ball(&paddle, PaddleSide::Left, below, &win, 20_000), 49 * UNIT);
    assert_eq!(approach_ball(&paddle, PaddleSide::Left, level, &win, 20_000), 50 * UNIT);
    assert_eq!(approach_ball(&paddle, PaddleSide::Right, above, &win, 20_000), 50 * UNIT);
    assert_eq!(approach_ball(&paddle, PaddleSide::Right, below, &win, 20_000), 50 * UNIT);
}

#[test]
fn computer_waits_while_the_ball_is_away() {
    let win = window();
    let paddle = Paddle::new(100 * UNIT, 50 * UNIT);
    let right_half = Vec2::new(1, 100 * UNIT);
    let middle = Vec2::new(0, 100 * UNIT);
    assert_eq!(approach_ball(&paddle, PaddleSide::Left, right_half, &win, 20_000), 50 * UNIT);
    assert_eq!(approach_ball(&paddle, PaddleSide::Left, middle, &win, 20_000), 50 * UNIT);
    assert_eq!(approach_ball(&paddle, PaddleSide::Right, middle, &win, 20_000), 50 * UNIT);
    assert_eq!(approach_ball(&paddle, PaddleSide::Right, right_half, &win, 20_000), 51 * UNIT);
}

#[test]
fn computer_compares_with_the_centre_of_its_paddle() {
    let win = window();
    let mut paddle = Paddle::new(100 * UNIT, 50 * UNIT);
    paddle.set_y_pos(60 * UNIT);
    // At 60 the centre of the paddle is 50 above the middle of the window.
    let just_below = Vec2::new(-1, 50 * UNIT - 1);
    let just_above = Vec2::new(-1, 50 * UNIT + 1);
    assert_eq!(approach_ball(&paddle, PaddleSide::Left, just_below, &win, 20_000), 59 * UNIT);
    assert_eq!(approach_ball(&paddle, PaddleSide::Left, just_above, &win, 20_000), 61 * UNIT);
}

#[test]
fn follow_keys_moves_the_paddle_and_its_centre() {
    let win = window();
    let keys = PressedKeys { left_up: true, left_down: true, right_up: false, right_down: true };
    let mut left = entity(PaddleSide::Left, PlayerType::Human, 50 * UNIT);
    left.follow_keys(&keys, &win, 20_000);
    assert_eq!(left.paddle.y_pos, 51 * UNIT);
    assert_eq!(left.position, Vec2::new(-390 * UNIT, 5 * UNIT));
    let mut right = entity(PaddleSide::Right, PlayerType::Human, 50 * UNIT);
    right.follow_keys(&keys, &win, 20_000);
    assert_eq!(right.paddle.y_pos, 49 * UNIT);
    assert_eq!(right.position, Vec2::new(390 * UNIT, -5 * UNIT));
}

#[test]
fn follow_keys_puts_the_centre_where_the_position_belongs() {
    let win = window();
    let mut left = entity(PaddleSide::Left, PlayerType::Human, 50 * UNIT);
    left.position.y = 123;
    left.follow_keys(&no_keys(), &win, 20_000);
    assert_eq!(left.paddle.y_pos, 50 * UNIT);
    assert_eq!(left.position, Vec2::new(-390 * UNIT, 0));
}

#[test]
fn follow_keys_leaves_the_computer_alone() {
    let win = window();
    let keys = PressedKeys { left_up: true, left_down: true, right_up: true, right_down: true };
    let mut left = entity(PaddleSide::Left, PlayerType::CPU, 50 * UNIT);
    left.position.y = 123;
    let before = left;
    left.follow_keys(&keys, &win, 20_000);
    assert_eq!(left, before);
}

#[test]
fn follow_ball_leaves_the_human_alone() {
    let win = window();
    let mut left = entity(PaddleSide::Left, PlayerType::Human, 50 * UNIT);
    left.position.y = 123;
    let before = left;
    left.follow_ball(Vec2::new(-1, 200 * UNIT), &win, 20_000);
    assert_eq!(left, before);
}

#[test]
fn follow_ball_moves_the_paddle_and_its_centre() {
    let win = window();
    let mut right = entity(PaddleSide::Right, PlayerType::CPU, 50 * UNIT);
    right.follow_ball(Vec2::new(1, -200 * UNIT), &win, 20_000);
    assert_eq!(right.paddle.y_pos, 49 * UNIT);
    assert_eq!(right.position, Vec2::new(390 * UNIT, -5 * UNIT));
    right.follow_ball(Vec2::new(-1, -200 * UNIT), &win, 20_000);
    assert_eq!(right.paddle.y_pos, 49 * UNIT);
    assert_eq!(right.position, Vec2::new(390 * UNIT, -5 * UNIT));
}

#[test]
fn spawn_makes_a_paddle_for_each_side() {
    let win = window();
    let config = PaddleConfig { player_types: [PlayerType::Human, PlayerType::CPU] };
    let paddles = paddle_spawn_system(&win, &config);
    assert_eq!(paddles.len(), 2);
    assert_eq!(
        paddles[0],
        PaddleEntity {
            side: PaddleSide::Left,
            player: PlayerType::Human,
            paddle: Paddle { y_pos: 50 * UNIT, size: 100 * UNIT, speed: 50 * UNIT },
            position: Vec2::new(-390 * UNIT, 0),
        }
    );
    assert_eq!(
        paddles[1],
        PaddleEntity {
            side: PaddleSide::Right,
            player: PlayerType::CPU,
            paddle: Paddle { y_pos: 50 * UNIT, size: 100 * UNIT, speed: 50 * UNIT },
            position: Vec2::new(390 * UNIT, 0),
        }
    );
    assert!(paddles[0].is_valid() && paddles[1].is_valid());
    assert_eq!(PADDLE_HEIGHT, 100 * UNIT);
    assert_eq!(PADDLE_MARGIN, 10 * UNIT);
    assert_eq!(PADDLE_WIDTH, 10 * UNIT);
}

#[test]
fn spawn_follows_the_configuration() {
    let win = WinSize { width: 1, height: 1 };
    let config = PaddleConfig { player_types: [PlayerType::CPU, PlayerType::Human] };
    let paddles = paddle_spawn_system(&win, &config);
    assert_eq!(paddles[0].player, PlayerType::CPU);
    assert_eq!(paddles[1].player, PlayerType::Human);
    assert_eq!(paddles[0].position, Vec2::new(10 * UNIT, 0));
    assert_eq!(paddles[1].position, Vec2::new(-10 * UNIT, 0));
}

#[test]
fn human_system_moves_only_the_paddles_of_humans() {
    let win = window();
    let keys = PressedKeys { left_up: false, left_down: true, right_up: true, right_down: false };
    let mut paddles = vec![
        entity(PaddleSide::Left, PlayerType::Human, 50 * UNIT),
        entity(PaddleSide::Right, PlayerType::CPU, 50 * UNIT),
        entity(PaddleSide::Right, PlayerType::Human, 99_500_000),
    ];
    paddle_human_movement_system(&keys, &win, 20_000, &mut paddles);
    assert_eq!(paddles.len(), 3);
    assert_eq!(paddles[0], entity(PaddleSide::Left, PlayerType::Human, 49 * UNIT));
    assert_eq!(paddles[1], entity(PaddleSide::Right, PlayerType::CPU, 50 * UNIT));
    assert_eq!(paddles[2], entity(PaddleSide::Right, PlayerType::Human, 100 * UNIT));
}

#[test]
fn cpu_system_moves_only_the_paddles_of_the_computer() {
    let win = window();
    let ball = Vec2::new(200 * UNIT, 120 * UNIT);
    let mut paddles = vec![
        entity(PaddleSide::Left, PlayerType::CPU, 50 * UNIT),
        entity(PaddleSide::Right, PlayerType::CPU, 50 * UNIT),
        entity(PaddleSide::Right, PlayerType::Human, 50 * UNIT),
    ];
    paddle_cpu_movement_system(ball, &win, 20_000, &mut paddles);
    assert_eq!(paddles.len(), 3);
    assert_eq!(paddles[0], entity(PaddleSide::Left, PlayerType::CPU, 50 * UNIT));
    assert_eq!(paddles[1], entity(PaddleSide::Right, PlayerType::CPU, 51 * UNIT));
    assert_eq!(paddles[2], entity(PaddleSide::Right, PlayerType::Human, 50 * UNIT));
}

#[test]
fn systems_accept_no_paddles() {
    let win = window();
    let mut paddles: Vec<PaddleEntity> = Vec::new();
    paddle_human_movement_system(&no_keys(), &win, 20_000, &mut paddles);
    paddle_cpu_movement_system(Vec2::new(0, 0), &win, 20_000, &mut paddles);
    assert!(paddles.is_empty());
}

#[test]
fn window_validity() {
    assert!(window().is_valid());
    assert!(!WinSize::default().is_valid());
    assert_eq!(WinSize::default(), WinSize { width: -UNIT, height: -UNIT });
    assert!(!WinSize { width: 0, height: 1 }.is_valid());
    assert!(!WinSize { width: 1, height: 0 }.is_valid());
    assert!(WinSize { width: LIMIT, height: LIMIT }.is_valid());
    assert!(!WinSize { width: LIMIT + 1, height: LIMIT }.is_valid());
    assert!(!WinSize { width: LIMIT, height: LIMIT + 1 }.is_valid());
}
