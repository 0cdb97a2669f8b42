use leaktracer::counter::{credited, debited};

#[test]
fn credit_adds() {
    assert_eq!(credited(0, 0), 0);
    assert_eq!(credited(100, 50), 150);
    assert_eq!(credited(usize::MAX - 1, 1), usize::MAX);
}

#[test]
fn credit_wraps_past_the_largest_value() {
    assert_eq!(credited(usize::MAX, 1), 0);
    assert_eq!(credited(usize::MAX, usize::MAX), usize::MAX - 1);
    assert_eq!(credited(5, usize::MAX), 4);
}

#[test]
fn debit_takes_away() {
    assert_eq!(debited(0, 0), 0);
    assert_eq!(debited(150, 40), 110);
    assert_eq!(debited(usize::MAX, usize::MAX), 0);
}

#[test]
fn debit_wraps_below_zero() {
    assert_eq!(debited(0, 1), usize::MAX);
    assert_eq!(debited(3, 10), usize::MAX - 6);
    assert_eq!(debited(0, usize::MAX), 1);
}

#[test]
fn debit_undoes_credit() {
    for value in [0, 1, 77, usize::MAX - 1, usize::MAX] {
        for amount in [0, 1, 1024, usize::MAX] {
            assert_eq!(debited(credited(value, amount), amount), value);
        }
    }
}
