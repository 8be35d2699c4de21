use cel_bridge::float::int_to_float_bits;

fn expected(value: i64) -> u64 {
    (value as f64).to_bits()
}

#[test]
fn zero_is_positive_zero() {
    assert_eq!(int_to_float_bits(0), 0);
}

#[test]
fn one_has_biased_exponent_1023() {
    assert_eq!(int_to_float_bits(1), 0x3ff0_0000_0000_0000);
}

#[test]
fn small_integers_are_exact() {
    let mut i: i64 = -2000;
    while i <= 2000 {
        assert_eq!(int_to_float_bits(i), expected(i), "value {}", i);
        i += 1;
    }
}

#[test]
fn powers_of_two_and_their_neighbours() {
    let mut shift = 0;
    while shift < 63 {
        let p: i64 = 1i64 << shift;
        for d in [-3i64, -2, -1, 0, 1, 2, 3] {
            let v = p.wrapping_add(d);
            assert_eq!(int_to_float_bits(v), expected(v), "value {}", v);
            let n = v.wrapping_neg();
            assert_eq!(int_to_float_bits(n), expected(n), "value {}", n);
        }
        shift += 1;
    }
}

#[test]
fn extremes() {
    assert_eq!(int_to_float_bits(i64::MAX), expected(i64::MAX));
    assert_eq!(int_to_float_bits(i64::MIN), expected(i64::MIN));
    assert_eq!(int_to_float_bits(i64::MIN + 1), expected(i64::MIN + 1));
    assert_eq!(int_to_float_bits(i64::MIN), 0xc3e0_0000_0000_0000);
}

#[test]
fn ties_round_to_even() {
    // 2^53 + 1 lies halfway between 2^53 and 2^53 + 2.
    let base: i64 = 1 << 53;
    assert_eq!(int_to_float_bits(base + 1), expected(base));
    assert_eq!(int_to_float_bits(base + 3), expected(base + 4));
    assert_eq!(int_to_float_bits(base + 1), (base as f64).to_bits());
}

#[test]
fn a_pseudo_random_walk_agrees_with_the_hardware() {
    let mut state: u64 = 0x9e37_79b9_7f4a_7c15;
    let mut n = 0;
    while n < 20000 {
        state ^= state << 13;
        state ^= state >> 7;
        state ^= state << 17;
        let v = state as i64;
        assert_eq!(int_to_float_bits(v), expected(v), "value {}", v);
        let w = v >> (n % 64);
        assert_eq!(int_to_float_bits(w), expected(w), "value {}", w);
        n += 1;
    }
}
