use matrix_rain::sampler::{Ratio, RowRange};

#[test]
fn range_two_to_twelve() {
    let range = RowRange { start: 2, end: 12 };
    assert_eq!(range.sample(2), Some(Ratio { num: 0, den: 10 }));
    assert_eq!(range.sample(7), Some(Ratio { num: 5, den: 10 }));
    assert_eq!(range.sample(12), Some(Ratio { num: 10, den: 10 }));
    assert_eq!(range.sample(1), None);
    assert_eq!(range.sample(13), None);
}

#[test]
fn range_positions_as_fractions() {
    let range = RowRange { start: 2, end: 12 };
    let at = |v: i32| {
        let p = range.sample(v).unwrap();
        p.num as f32 / p.den as f32
    };
    assert_eq!(at(2), 0.0);
    assert_eq!(at(7), 0.5);
    assert_eq!(at(12), 1.0);
}

#[test]
fn sampling_can_be_undone() {
    for (start, end) in [(-7i32, 3i32), (0, 1), (2, 12), (-40, -20)] {
        let range = RowRange { start, end };
        for v in start..=end {
            let p = range.sample(v).unwrap();
            assert_eq!(p.den as i64, (end - start) as i64);
            assert_eq!(
                start as i64 * p.den as i64 + p.num as i64 * (end - start) as i64,
                v as i64 * p.den as i64
            );
        }
    }
}

#[test]
fn rows_outside_the_band() {
    let range = RowRange { start: -3, end: 4 };
    assert_eq!(range.sample(-4), None);
    assert_eq!(range.sample(5), None);
    assert_eq!(range.sample(i32::MIN), None);
    assert_eq!(range.sample(i32::MAX), None);
    assert_eq!(range.sample(-3), Some(Ratio { num: 0, den: 7 }));
    assert_eq!(range.sample(0), Some(Ratio { num: 3, den: 7 }));
}

#[test]
fn zero_is_told_apart_from_outside() {
    let range = RowRange { start: 5, end: 9 };
    assert!(range.sample(5).is_some());
    assert_eq!(range.sample(5).unwrap().num, 0);
    assert!(range.sample(4).is_none());
}

#[test]
fn widest_range() {
    let range = RowRange { start: i32::MIN, end: i32::MAX };
    assert_eq!(range.sample(i32::MAX), Some(Ratio { num: u32::MAX, den: u32::MAX }));
    assert_eq!(range.sample(i32::MIN), Some(Ratio { num: 0, den: u32::MAX }));
}

#[test]
fn range_of_one_row() {
    let range = RowRange { start: 3, end: 3 };
    assert_eq!(range.sample(3), Some(Ratio { num: 0, den: 0 }));
    assert_eq!(range.sample(2), None);
    let backwards = RowRange { start: 4, end: 3 };
    assert_eq!(backwards.sample(3), None);
    assert_eq!(backwards.sample(4), None);
}
