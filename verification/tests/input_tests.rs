use rollback_core::input::{encode_input, fire, rotation, FIRE, ROTATE_DOWN, ROTATE_LEFT, ROTATE_RIGHT, ROTATE_UP};

#[test]
fn encode_nothing_is_zero() {
    assert_eq!(encode_input(false, false, false, false, false), 0);
}

#[test]
fn encode_everything_sets_all_bits() {
    assert_eq!(encode_input(true, true, true, true, true), 31);
}

#[test]
fn encode_single_controls() {
    assert_eq!(encode_input(true, false, false, false, false), ROTATE_UP);
    assert_eq!(encode_input(false, true, false, false, false), ROTATE_DOWN);
    assert_eq!(encode_input(false, false, true, false, false), ROTATE_LEFT);
    assert_eq!(encode_input(false, false, false, true, false), ROTATE_RIGHT);
    assert_eq!(encode_input(false, false, false, false, true), FIRE);
}

#[test]
fn fire_reads_only_the_fire_bit() {
    assert!(fire(FIRE));
    assert!(fire(31));
    assert!(!fire(15));
    assert!(!fire(0));
}

#[test]
fn rotation_decodes_each_axis() {
    assert_eq!(rotation(ROTATE_LEFT), (1, 0));
    assert_eq!(rotation(ROTATE_RIGHT), (-1, 0));
    assert_eq!(rotation(ROTATE_UP), (0, 1));
    assert_eq!(rotation(ROTATE_DOWN), (0, -1));
}

#[test]
fn rotation_opposite_bits_cancel() {
    assert_eq!(rotation(ROTATE_LEFT | ROTATE_RIGHT), (0, 0));
    assert_eq!(rotation(ROTATE_UP | ROTATE_DOWN), (0, 0));
    assert_eq!(rotation(0), (0, 0));
}

#[test]
fn rotation_ignores_the_fire_bit() {
    assert_eq!(rotation(FIRE), (0, 0));
    assert_eq!(rotation(FIRE | ROTATE_LEFT), (1, 0));
}

#[test]
fn encode_then_decode_round_trips() {
    let i = encode_input(true, false, true, false, true);
    assert!(fire(i));
    assert_eq!(rotation(i), (1, 1));
}
