use neko::number::{count_of_exec, is_nan_exec, negate, num_eq_exec, num_le_exec, num_lt_exec, num_truthy_exec};

fn b(x: f64) -> u64 {
    x.to_bits()
}

const SAMPLES: [f64; 13] = [
    0.0,
    -0.0,
    1.0,
    -1.0,
    0.5,
    -2.5,
    3.0,
    1e300,
    -1e300,
    f64::INFINITY,
    f64::NEG_INFINITY,
    f64::NAN,
    5e-324,
];

#[test]
fn comparisons_follow_ieee() {
    for &x in SAMPLES.iter() {
        for &y in SAMPLES.iter() {
            assert_eq!(num_eq_exec(b(x), b(y)), x == y, "{} == {}", x, y);
            assert_eq!(num_lt_exec(b(x), b(y)), x < y, "{} < {}", x, y);
            assert_eq!(num_le_exec(b(x), b(y)), x <= y, "{} <= {}", x, y);
        }
    }
}

#[test]
fn truthiness_negation_and_nan() {
    for &x in SAMPLES.iter() {
        assert_eq!(num_truthy_exec(b(x)), x != 0.0, "{}", x);
        assert_eq!(f64::from_bits(negate(b(x))).to_bits(), (-x).to_bits());
        assert_eq!(is_nan_exec(b(x)), x.is_nan());
    }
}

#[test]
fn whole_counts() {
    assert_eq!(count_of_exec(b(0.0)), Some(0));
    assert_eq!(count_of_exec(b(-0.0)), Some(0));
    assert_eq!(count_of_exec(b(3.0)), Some(3));
    assert_eq!(count_of_exec(b(10.0)), Some(10));
    assert_eq!(count_of_exec(b(9007199254740993.0)), Some(9007199254740992));
    assert_eq!(count_of_exec(b(1e19)), Some(10000000000000000000));
    assert_eq!(count_of_exec(b(18446744073709551616.0)), None);
    assert_eq!(count_of_exec(b(1.5)), None);
    assert_eq!(count_of_exec(b(0.5)), None);
    assert_eq!(count_of_exec(b(-1.0)), None);
    assert_eq!(count_of_exec(b(f64::NAN)), None);
    assert_eq!(count_of_exec(b(f64::INFINITY)), None);
    assert_eq!(count_of_exec(b(5e-324)), None);
}
