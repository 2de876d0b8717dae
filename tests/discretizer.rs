use pendulum::discretizer::{cont, cont_u, Discretizer, NU};

#[test]
fn round_trip_on_several_grids() {
    let grids = [(-1_000_000i64, 1_000_000i64, 11usize), (-7, 100, 7), (0, 2, 2), (-3_000_000, 5_000_001, 101), (i64::MIN, i64::MAX, 1000)];
    for &(min, max, count) in grids.iter() {
        let d = Discretizer::new(min, max, count).unwrap();
        for k in 0..count {
            assert_eq!(d.discretize(d.undiscretize(k)), k);
        }
    }
}

#[test]
fn out_of_range_values_are_clamped() {
    let d = Discretizer::new(-1_000_000, 1_000_000, 11).unwrap();
    assert_eq!(d.discretize(-1_000_001), 0);
    assert_eq!(d.discretize(i64::MIN), 0);
    assert_eq!(d.discretize(1_000_001), 10);
    assert_eq!(d.discretize(i64::MAX), 10);
}

#[test]
fn nearest_cell_with_ties_going_up() {
    let d = Discretizer::new(-1_000_000, 1_000_000, 11).unwrap();
    assert_eq!(d.interval(), 200_000);
    assert_eq!(d.discretize(150_000), 6);
    assert_eq!(d.discretize(100_000), 6);
    assert_eq!(d.discretize(99_999), 5);
    assert_eq!(d.discretize(0), 5);
    assert_eq!(d.undiscretize(3), -400_000);
}

#[test]
fn unusable_grids_are_refused() {
    assert!(Discretizer::new(0, 10, 1).is_none());
    assert!(Discretizer::new(10, 10, 2).is_none());
    assert!(Discretizer::new(10, 0, 2).is_none());
    assert!(Discretizer::new(0, 7, 5).is_none());
    assert!(Discretizer::new(0, 8, 5).is_some());
}

#[test]
fn command_values() {
    assert_eq!(NU, 11);
    assert_eq!(cont_u(0), -1_000_000);
    assert_eq!(cont_u(5), 0);
    assert_eq!(cont_u(10), 1_000_000);
    assert_eq!(cont_u(7), 400_000);
    assert_eq!(cont(0, 10, 4, 1), 3);
    assert_eq!(cont(0, 10, 4, 2), 6);
}
