use rollback_engine::input::{game_input_system, GameInput, INPUT_DOWN, INPUT_LEFT, INPUT_RIGHT, INPUT_UP};
use rollback_engine::number::{Number, NumericError, MAX_INT, MIN_INT};
use rollback_engine::transform::Transform2;
use rollback_engine::vector2::Vector2;

fn num(n: i32) -> Number {
    Number::from_int(n).unwrap()
}

#[test]
fn int_round_trip() {
    for n in [0, 1, -1, 7, -40, 12345, MIN_INT, MAX_INT] {
        assert_eq!(Number::from_int(n).unwrap().to_int(), n);
    }
}

#[test]
fn from_int_scales_by_sixteen() {
    assert_eq!(num(3).bits, 48);
    assert_eq!(num(-2).bits, -32);
}

#[test]
fn from_int_out_of_range() {
    assert_eq!(Number::from_int(MAX_INT + 1), Err(NumericError::OutOfRange));
    assert_eq!(Number::from_int(MIN_INT - 1), Err(NumericError::OutOfRange));
    assert_eq!(Number::from_int(i32::MAX), Err(NumericError::OutOfRange));
}

#[test]
fn to_int_rounds_toward_negative_infinity() {
    assert_eq!(Number::from_bits(24).to_int(), 1);
    assert_eq!(Number::from_bits(-24).to_int(), -2);
    assert_eq!(Number::from_bits(-16).to_int(), -1);
}

#[test]
fn add_sub_exact() {
    assert_eq!(num(3).add(num(4)), num(7));
    assert_eq!(num(3).sub(num(4)), num(-1));
    assert_eq!(Number::from_bits(5).add(Number::from_bits(6)).bits, 11);
}

#[test]
fn add_saturates() {
    assert_eq!(Number::from_bits(i32::MAX).add(Number::from_bits(1)).bits, i32::MAX);
    assert_eq!(Number::from_bits(i32::MIN).sub(Number::from_bits(1)).bits, i32::MIN);
}

#[test]
fn mul_exact_and_rounded() {
    assert_eq!(num(3).mul(num(2)), num(6));
    assert_eq!(num(-3).mul(num(2)), num(-6));
    // 1/16 * 1/2 = 1/32, rounded down to 0; -1/16 * 1/2 rounds down to -1/16.
    assert_eq!(Number::from_bits(1).mul(Number::from_bits(8)).bits, 0);
    assert_eq!(Number::from_bits(-1).mul(Number::from_bits(8)).bits, -1);
}

#[test]
fn mul_saturates() {
    assert_eq!(Number::from_bits(i32::MAX).mul(num(2)).bits, i32::MAX);
    assert_eq!(Number::from_bits(i32::MAX).mul(num(-2)).bits, i32::MIN);
}

#[test]
fn div_exact_and_truncated() {
    assert_eq!(num(6).div(num(2)), Ok(num(3)));
    assert_eq!(num(1).div(num(2)), Ok(Number::from_bits(8)));
    // -1/16 / 2 = -1/32, rounded toward zero.
    assert_eq!(Number::from_bits(-1).div(num(2)), Ok(Number::from_bits(0)));
    assert_eq!(num(7).div(num(-2)), Ok(Number::from_bits(-56)));
}

#[test]
fn div_by_zero_fails() {
    assert_eq!(num(1).div(Number::zero()), Err(NumericError::DivisionByZero));
    assert_eq!(Number::zero().div(Number::zero()), Err(NumericError::DivisionByZero));
}

#[test]
fn div_saturates() {
    assert_eq!(Number::from_bits(i32::MAX).div(Number::from_bits(8)), Ok(Number::from_bits(i32::MAX)));
}

#[test]
fn neg_saturates() {
    assert_eq!(num(5).neg(), num(-5));
    assert_eq!(Number::from_bits(i32::MIN).neg().bits, i32::MAX);
}

#[test]
fn ordering_by_value() {
    assert!(num(-1).less_than(num(1)));
    assert!(!num(1).less_than(num(1)));
    assert!(num(-1) < num(1));
}

#[test]
fn vector_new_and_arithmetic() {
    let a = Vector2::new(1, 2).unwrap();
    let b = Vector2::new(3, -4).unwrap();
    assert_eq!(a.add(b), Vector2::new(4, -2).unwrap());
    assert_eq!(a.sub(b), Vector2::new(-2, 6).unwrap());
    assert_eq!(b.scale(num(2)), Vector2::new(6, -8).unwrap());
    assert_eq!(Vector2::new(MAX_INT + 1, 0), Err(NumericError::OutOfRange));
    assert_eq!(Vector2::default(), Vector2::zero());
}

#[test]
fn transform_constructors() {
    let p = Vector2::new(5, 6).unwrap();
    let t = Transform2::from_pos(p);
    assert_eq!(t.pos, p);
    assert_eq!(t.scale, Vector2::zero());
    assert_eq!(t.rotation, Number::zero());
    assert_eq!(Transform2::from_scale(p).scale, p);
    assert_eq!(Transform2::from_rotation(num(2)).rotation, num(2));
    assert_eq!(Transform2::default(), Transform2::zero());
}

#[test]
fn input_bit_layout() {
    assert_eq!(INPUT_UP, 0b0001);
    assert_eq!(INPUT_DOWN, 0b0010);
    assert_eq!(INPUT_LEFT, 0b0100);
    assert_eq!(INPUT_RIGHT, 0b1000);
    assert_eq!(game_input_system(true, false, false, false).mask, INPUT_UP);
    assert_eq!(game_input_system(false, false, false, true).mask, INPUT_RIGHT);
    assert_eq!(game_input_system(true, true, true, true).mask, 0b1111);
    assert_eq!(game_input_system(false, false, false, false), GameInput::empty());
}

#[test]
fn input_velocity() {
    let right = GameInput { mask: INPUT_RIGHT };
    assert_eq!(right.velocity(), Vector2::new(2, 0).unwrap());
    let up_left = GameInput { mask: INPUT_UP | INPUT_LEFT };
    assert_eq!(up_left.velocity(), Vector2::new(-2, 2).unwrap());
    let opposite = GameInput { mask: INPUT_LEFT | INPUT_RIGHT | INPUT_DOWN };
    assert_eq!(opposite.velocity(), Vector2::new(0, -2).unwrap());
}

#[test]
fn engine_config_defaults() {
    let c = rollback_engine::config::EngineConfig::default();
    assert_eq!(c.update_frequency, 60);
    assert_eq!(c.max_prediction_window, 12);
    assert_eq!(c.input_delay, 2);
}
