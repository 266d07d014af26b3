use native_boundary::{add, factorial, multiply};

#[test]
fn add_small_values() {
    assert_eq!(native_boundary::add(2, 3), 5);
    assert_eq!(native_boundary::add(-7, 4), -3);
}

#[test]
fn add_is_commutative_on_samples() {
    let samples = [0, 1, -1, 42, -42, i32::MAX, i32::MIN, 123456789, -987654321];
    for &a in samples.iter() {
        for &b in samples.iter() {
            assert_eq!(add(a, b), add(b, a));
        }
    }
}

#[test]
fn add_wraps_at_the_boundaries() {
    assert_eq!(add(2147483647, 1), -2147483648);
    assert_eq!(add(-2147483648, -1), 2147483647);
    assert_eq!(add(i32::MAX, i32::MAX), -2);
}

#[test]
fn add_matches_native_wrapping() {
    let samples = [0, 7, -7, i32::MAX, i32::MIN, 1 << 30, -(1 << 30)];
    for &a in samples.iter() {
        for &b in samples.iter() {
            assert_eq!(add(a, b), a.wrapping_add(b));
        }
    }
}

#[test]
fn multiply_small_values() {
    assert_eq!(multiply(6, 7), 42);
    assert_eq!(multiply(-6, 7), -42);
}

#[test]
fn multiply_by_zero_is_zero() {
    for &a in [0, 1, -1, 99, i32::MAX, i32::MIN].iter() {
        assert_eq!(multiply(a, 0), 0);
    }
}

#[test]
fn multiply_wraps_on_overflow() {
    assert_eq!(multiply(65536, 65536), 0);
    assert_eq!(multiply(i32::MAX, 2), -2);
    assert_eq!(multiply(i32::MIN, -1), i32::MIN);
}

#[test]
fn factorial_known_values() {
    assert_eq!(factorial(0), 1);
    assert_eq!(factorial(1), 1);
    assert_eq!(factorial(5), 120);
    assert_eq!(factorial(10), 3628800);
}

#[test]
fn factorial_largest_exact_value() {
    assert_eq!(factorial(20), 2432902008176640000);
}

#[test]
fn factorial_wraps_past_twenty() {
    assert_eq!(factorial(21), 14197454024290336768);
}

#[test]
fn arithmetic_repeats_identically() {
    for _ in 0..3 {
        assert_eq!(add(i32::MAX, 5), add(i32::MAX, 5));
        assert_eq!(multiply(-12345, 6789), multiply(-12345, 6789));
        assert_eq!(factorial(13), factorial(13));
    }
    assert_eq!(factorial(13), 6227020800);
}
