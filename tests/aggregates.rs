use tcping::aggregates::{avg, max, min, sum};

#[test]
fn min_of_values() {
    let v: Vec<u64> = vec![10, 5, 20];
    assert_eq!(min(&v), Some(&5));
}

#[test]
fn max_of_values() {
    let v: Vec<u64> = vec![10, 5, 20];
    assert_eq!(max(&v), Some(&20));
}

#[test]
fn min_max_of_empty_are_absent() {
    let v: Vec<u64> = Vec::new();
    assert_eq!(min(&v), None);
    assert_eq!(max(&v), None);
    assert_eq!(avg(&v), None);
    assert_eq!(sum(&v), 0);
}

#[test]
fn min_max_of_one_value() {
    let v: Vec<u64> = vec![7];
    assert_eq!(min(&v), Some(&7));
    assert_eq!(max(&v), Some(&7));
    assert_eq!(avg(&v), Some(7));
}

#[test]
fn min_max_with_equal_values() {
    let v: Vec<i32> = vec![3, -1, 3, -1];
    assert_eq!(min(&v), Some(&-1));
    assert_eq!(max(&v), Some(&3));
}

#[test]
fn min_max_over_floats() {
    let v: Vec<f64> = vec![10.0, 5.0, 20.0];
    assert_eq!(min(&v), Some(&5.0));
    assert_eq!(max(&v), Some(&20.0));
}

#[test]
fn avg_rounds_down() {
    let v: Vec<u64> = vec![10_000_000, 5_000_000, 20_000_000];
    assert_eq!(avg(&v), Some(11_666_666));
    assert_eq!(sum(&v), 35_000_000);
}

#[test]
fn sum_does_not_overflow() {
    let v: Vec<u64> = vec![u64::MAX, u64::MAX, 1];
    assert_eq!(sum(&v), 2 * (u64::MAX as u128) + 1);
    assert_eq!(avg(&v), Some(((2 * (u64::MAX as u128) + 1) / 3) as u64));
}
