use golly::torus::oflow;

#[test]
fn wrap_keeps_values_already_on_the_axis() {
    assert_eq!(oflow(0, 10), 0);
    assert_eq!(oflow(4, 10), 4);
    assert_eq!(oflow(9, 10), 9);
}

#[test]
fn wrap_brings_negative_offsets_to_the_far_end() {
    assert_eq!(oflow(-1, 10), 9);
    assert_eq!(oflow(-10, 10), 0);
    assert_eq!(oflow(-11, 10), 9);
    assert_eq!(oflow(-25, 10), 5);
}

#[test]
fn wrap_brings_large_offsets_back_to_the_start() {
    assert_eq!(oflow(10, 10), 0);
    assert_eq!(oflow(11, 10), 1);
    assert_eq!(oflow(25, 10), 5);
    assert_eq!(oflow(30, 10), 0);
}

#[test]
fn wrap_on_an_axis_of_one_is_always_zero() {
    for v in -5..=5 {
        assert_eq!(oflow(v, 1), 0);
    }
}

#[test]
fn wrap_is_in_range_and_congruent_over_three_turns() {
    for m in 1..=12usize {
        let m_signed = m as i64;
        for v in (-3 * m_signed)..=(3 * m_signed) {
            let wrapped = oflow(v as i32, m);
            assert!(wrapped < m);
            assert_eq!((v - wrapped as i64).rem_euclid(m_signed), 0);
            assert_eq!(wrapped as i64, v.rem_euclid(m_signed));
        }
    }
}

#[test]
fn wrap_ignores_whole_turns() {
    for m in 1..=9usize {
        for v in -20..=20i32 {
            for k in -3..=3i32 {
                assert_eq!(oflow(v + k * m as i32, m), oflow(v, m));
            }
        }
    }
}

#[test]
fn wrap_handles_the_extremes_of_the_offset() {
    assert_eq!(oflow(i32::MIN, 7), (i32::MIN as i64).rem_euclid(7) as usize);
    assert_eq!(oflow(i32::MAX, 7), (i32::MAX as i64).rem_euclid(7) as usize);
    assert_eq!(oflow(i32::MIN, 1 << 31), 0);
    assert_eq!(oflow(i32::MIN, (1 << 31) + 1), 1);
    assert_eq!(oflow(i32::MAX, 1 << 31), i32::MAX as usize);
}

#[test]
fn wrap_handles_an_axis_longer_than_any_offset() {
    assert_eq!(oflow(-1, usize::MAX), usize::MAX - 1);
    assert_eq!(oflow(5, usize::MAX), 5);
    assert_eq!(oflow(-3, 3_000_000_000), 2_999_999_997);
}
