use labcolors_core::sampling::{sample, sample_steps, SAMPLES};

#[test]
fn sample_zero_is_empty() {
    let v: Vec<(usize, usize)> = sample(0, |a, b| (a, b));
    assert!(v.is_empty());
}

#[test]
fn sample_one_is_the_middle() {
    let v = sample(1, |a, b| (a, b));
    assert_eq!(v, vec![(1, 2)]);
}

#[test]
fn sample_two_is_the_endpoints() {
    let v = sample(2, |a, b| (a, b));
    assert_eq!(v, vec![(0, 1), (1, 1)]);
}

#[test]
fn sample_13_has_base_in_the_middle() {
    let v = sample(13, |a, b| (a, b));
    assert_eq!(v.len(), 13);
    assert_eq!(v[0], (0, 12));
    assert_eq!(v[6], (6, 12));
    assert_eq!(v[12], (12, 12));
    assert_eq!(2 * v[6].0, v[6].1);
}

#[test]
fn sample_positions_increase() {
    let v = sample(100, |a, b| a as f64 / b as f64);
    assert_eq!(v.len(), 100);
    assert_eq!(v[0], 0.0);
    assert_eq!(v[99], 1.0);
    for w in v.windows(2) {
        assert!(w[0] < w[1]);
    }
}

#[test]
fn sample_steps_covers_the_strip() {
    let v = sample_steps(|a, b| format!("{}/{}", a, b));
    assert_eq!(SAMPLES, 400);
    assert_eq!(v.len(), 400);
    assert_eq!(v[0], "0/399");
    assert_eq!(v[1], "1/399");
    assert_eq!(v[399], "399/399");
}
