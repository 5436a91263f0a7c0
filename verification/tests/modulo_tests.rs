use glim::modulo::{modulo, Modulo};

#[test]
fn modulo_of_small_values_is_remainder() {
    assert_eq!(modulo(7, 3), 1);
    assert_eq!(modulo(3, 3), 0);
    assert_eq!(modulo(0, 5), 0);
}

#[test]
fn modulo_by_zero_is_zero() {
    assert_eq!(modulo(7, 0), 0);
    assert_eq!(7i32.modulo(0), 0);
    assert_eq!(7u32.modulo(0), 0);
    assert_eq!(7isize.modulo(0), 0);
    assert_eq!(7usize.modulo(0), 0);
}

#[test]
fn modulo_reads_large_u32_as_negative() {
    // u32::MAX is -1 as an i32, and -1 wraps to 2 modulo 3
    assert_eq!(modulo(u32::MAX, 3), 2);
}

#[test]
fn signed_modulo_wraps_negative_values() {
    assert_eq!((-1i32).modulo(5), 4);
    assert_eq!((-6i32).modulo(5), 4);
    assert_eq!(6i32.modulo(5), 1);
    assert_eq!((-1isize).modulo(3), 2);
}

#[test]
fn signed_modulo_takes_sign_of_divisor() {
    assert_eq!(7i32.modulo(-3), -2);
    assert_eq!((-7i32).modulo(-3), -1);
    assert_eq!(6i32.modulo(-3), 0);
}

#[test]
fn unsigned_trait_modulo_wraps_selection() {
    assert_eq!(5usize.modulo(4), 1);
    assert_eq!(3u32.modulo(4), 3);
}
