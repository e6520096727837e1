use mixlab::time::MediaTime;

#[test]
fn new_reduces_to_lowest_terms() {
    let t = MediaTime::new(1024, 44100);
    assert_eq!(t.numer(), 256);
    assert_eq!(t.denom(), 11025);
}

#[test]
fn new_moves_the_sign_into_the_numerator() {
    let t = MediaTime::new(3, -6);
    assert_eq!(t.numer(), -1);
    assert_eq!(t.denom(), 2);
}

#[test]
fn new_zero_has_denominator_one() {
    let t = MediaTime::new(0, 7);
    assert_eq!(t.numer(), 0);
    assert_eq!(t.denom(), 1);
}

#[test]
fn add_gives_the_sum_in_lowest_terms() {
    let a = MediaTime::new(1, 2);
    let b = MediaTime::new(1, 3);
    let sum = a.add(&b);
    assert_eq!(sum.numer(), 5);
    assert_eq!(sum.denom(), 6);
    assert_eq!(sum, MediaTime::new(10, 12));
}

#[test]
fn add_of_equal_denominators() {
    let a = MediaTime::new(1, 4);
    let b = MediaTime::new(1, 4);
    assert_eq!(a.add(&b), MediaTime::new(1, 2));
}

#[test]
fn checked_add_is_some_when_the_sum_fits() {
    let a = MediaTime::new(1, 2);
    let b = MediaTime::new(1, 3);
    assert_eq!(a.checked_add(&b), Some(MediaTime::new(5, 6)));
}

#[test]
fn checked_add_is_none_when_the_numerator_overflows() {
    let a = MediaTime::new(i64::MAX, 1);
    let b = MediaTime::new(1, 1);
    assert_eq!(a.checked_add(&b), None);
}

#[test]
fn checked_add_is_none_when_the_common_denominator_overflows() {
    // Two large coprime denominators.
    let a = MediaTime::new(1, 4_611_686_018_427_387_903);
    let b = MediaTime::new(1, 4_611_686_018_427_387_904);
    assert_eq!(a.checked_add(&b), None);
}

#[test]
fn recip_swaps_numerator_and_denominator() {
    let t = MediaTime::new(2, 3).recip();
    assert_eq!(t.numer(), 3);
    assert_eq!(t.denom(), 2);
}

#[test]
fn recip_of_a_negative_time_keeps_the_denominator_positive() {
    let t = MediaTime::new(-2, 3).recip();
    assert_eq!(t.numer(), -3);
    assert_eq!(t.denom(), 2);
}

#[test]
fn frame_duration_of_a_frame_rate() {
    // 29.97 frames per second, in hundredths.
    let t = MediaTime::new(2997, 100).recip();
    assert_eq!(t.numer(), 100);
    assert_eq!(t.denom(), 2997);
}

#[test]
fn round_to_base_rounds_down() {
    assert_eq!(MediaTime::new(1, 3).round_to_base(1000), 333);
    assert_eq!(MediaTime::new(2, 3).round_to_base(1000), 666);
    assert_eq!(MediaTime::new(1, 1).round_to_base(1000), 1000);
    assert_eq!(MediaTime::new(1024, 44100).round_to_base(44100), 1024);
    assert_eq!(MediaTime::new(1024, 44100).round_to_base(1000), 23);
}

#[test]
fn round_to_base_rounds_negative_times_down() {
    assert_eq!(MediaTime::new(-1, 3).round_to_base(1000), -334);
    assert_eq!(MediaTime::new(-1, 1).round_to_base(1000), -1000);
    assert_eq!(MediaTime::new(-1, 3).round_to_base(3), -1);
}

#[test]
fn round_to_base_zero() {
    assert_eq!(MediaTime::new(0, 1).round_to_base(1000), 0);
    assert_eq!(MediaTime::new(5, 7).round_to_base(0), 0);
}

#[test]
fn checked_round_to_base_is_none_when_the_result_does_not_fit() {
    assert_eq!(MediaTime::new(i64::MAX, 1).checked_round_to_base(2), None);
    assert_eq!(MediaTime::new(i64::MAX, 1).checked_round_to_base(1), Some(i64::MAX));
    assert_eq!(MediaTime::new(-i64::MAX, 1).checked_round_to_base(2), None);
}

#[test]
fn rounding_does_not_drift_over_many_frames() {
    // 1000 frames of 1/30 s in a timescale of 1000: each frame is given 33
    // or 34 ticks, and together they are given exactly the rounded total.
    let frame = MediaTime::new(1, 30);
    let mut time = MediaTime::new(0, 1);
    let mut total: i64 = 0;
    for _ in 0..1000 {
        let start = time.round_to_base(1000);
        time = time.add(&frame);
        let ticks = time.round_to_base(1000) - start;
        assert!(ticks == 33 || ticks == 34);
        total += ticks;
    }
    assert_eq!(total, MediaTime::new(1000, 30).round_to_base(1000));
    assert_eq!(total, 33333);
}

#[test]
fn a_run_from_an_odd_start_is_within_one_tick_of_the_rounded_total() {
    let frame = MediaTime::new(1, 3);
    let mut time = MediaTime::new(1, 2);
    let first = time.round_to_base(10);
    for _ in 0..2 {
        time = time.add(&frame);
    }
    // 1/2 + 2/3 = 7/6: 11 ticks behind, 5 ticks before.
    let given = time.round_to_base(10) - first;
    assert_eq!(given, 6);
    let total = MediaTime::new(2, 3).round_to_base(10);
    assert_eq!(total, 6);
    assert!(given == total || given == total + 1);
}

#[test]
fn the_smallest_numerator_over_a_positive_denominator() {
    let t = MediaTime::new(i64::MIN, 100);
    assert_eq!(t.numer(), -(1i64 << 61));
    assert_eq!(t.denom(), 25);
    let t = MediaTime::new(i64::MIN, 1);
    assert_eq!(t.numer(), i64::MIN);
    assert_eq!(t.denom(), 1);
    let t = MediaTime::new(i64::MIN, 3);
    assert_eq!(t.numer(), i64::MIN);
    assert_eq!(t.denom(), 3);
    let t = MediaTime::new(i64::MIN, 1i64 << 62);
    assert_eq!(t.numer(), -2);
    assert_eq!(t.denom(), 1);
}
