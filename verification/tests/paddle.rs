use blocksmash::paddle::{
    clamp, move_paddle, Paddle, PADDLE_MAX_X, PADDLE_MIN_X, PADDLE_STEP, PADDLE_Y,
};

#[test]
fn paddle_constants() {
    assert_eq!(PADDLE_STEP, 8);
    assert_eq!(PADDLE_MIN_X, -335);
    assert_eq!(PADDLE_MAX_X, 335);
    assert_eq!(PADDLE_Y, -300);
    assert_eq!(Paddle::new().step_size(), 8);
}

#[test]
fn right_key_moves_one_step_right() {
    assert_eq!(move_paddle(false, true, &Paddle::new(), 0), Some((8, -300)));
    assert_eq!(move_paddle(false, true, &Paddle::new(), -20), Some((-12, -300)));
}

#[test]
fn left_key_moves_one_step_left() {
    assert_eq!(move_paddle(true, false, &Paddle::new(), 0), Some((-8, -300)));
    assert_eq!(move_paddle(true, false, &Paddle::new(), 100), Some((92, -300)));
}

#[test]
fn no_key_or_both_keys_leave_the_paddle() {
    assert_eq!(move_paddle(false, false, &Paddle::new(), 17), None);
    assert_eq!(move_paddle(true, true, &Paddle::new(), 17), None);
}

#[test]
fn paddle_stops_exactly_at_the_bounds() {
    let paddle = Paddle::new();
    assert_eq!(move_paddle(false, true, &paddle, 326), Some((334, -300)));
    assert_eq!(move_paddle(false, true, &paddle, 327), Some((335, -300)));
    assert_eq!(move_paddle(false, true, &paddle, 330), Some((335, -300)));
    assert_eq!(move_paddle(false, true, &paddle, 335), Some((335, -300)));
    assert_eq!(move_paddle(true, false, &paddle, -330), Some((-335, -300)));
    assert_eq!(move_paddle(true, false, &paddle, -335), Some((-335, -300)));
    assert_eq!(move_paddle(true, false, &paddle, 335), Some((327, -300)));
}

#[test]
fn paddle_outside_the_field_is_brought_to_the_near_bound() {
    let paddle = Paddle::new();
    assert_eq!(move_paddle(false, true, &paddle, 1000), Some((335, -300)));
    assert_eq!(move_paddle(true, false, &paddle, 1000), Some((335, -300)));
    assert_eq!(move_paddle(false, true, &paddle, -1000), Some((-335, -300)));
    assert_eq!(move_paddle(true, false, &paddle, -1000), Some((-335, -300)));
    assert_eq!(move_paddle(false, true, &paddle, i64::MAX), Some((335, -300)));
    assert_eq!(move_paddle(true, false, &paddle, i64::MAX), Some((335, -300)));
    assert_eq!(move_paddle(true, false, &paddle, i64::MIN), Some((-335, -300)));
    assert_eq!(move_paddle(false, true, &paddle, i64::MIN), Some((-335, -300)));
}

#[test]
fn holding_right_stays_within_the_field() {
    let paddle = Paddle::new();
    for start in [-5000i64, -335, -3, 0, 1, 334, 335, 336, 5000] {
        let mut x = start;
        for frame in 1..=100i64 {
            let (next, height) = move_paddle(false, true, &paddle, x).unwrap();
            assert_eq!(height, -300);
            x = next;
            assert!((-335..=335).contains(&x));
            let first = clamp(start + 8, -335, 335);
            assert_eq!(x, clamp(first + 8 * (frame - 1), -335, 335));
        }
        assert_eq!(x, 335);
    }
}

#[test]
fn clamp_brings_values_into_the_interval() {
    assert_eq!(clamp(5, -335, 335), 5);
    assert_eq!(clamp(-335, -335, 335), -335);
    assert_eq!(clamp(335, -335, 335), 335);
    assert_eq!(clamp(336, -335, 335), 335);
    assert_eq!(clamp(-336, -335, 335), -335);
    assert_eq!(clamp(i64::MAX, 0, 10), 10);
    assert_eq!(clamp(i64::MIN, 0, 10), 0);
}
