use sarfimax::series::{season_values, seasonal_classes, tile, window_bounds};

#[test]
fn seasonal_classes_group_by_remainder() {
    let x = [10, 11, 12, 13, 14, 15, 16];
    let classes = seasonal_classes(&x, 3);
    assert_eq!(classes, vec![vec![10, 13, 16], vec![11, 14], vec![12, 15]]);
    assert_eq!(seasonal_classes(&x, 0), Vec::<Vec<i32>>::new());
    assert_eq!(seasonal_classes(&x, 10)[8], Vec::<i32>::new());
    assert_eq!(season_values(&x, 1, 2), vec![11, 13, 15]);
}

#[test]
fn stride_positions_are_start_plus_multiples() {
    let x: Vec<u32> = (0..50).collect();
    for start in 0..7usize {
        let v = season_values(&x, start, 7);
        for (k, e) in v.iter().enumerate() {
            assert_eq!(*e as usize, start + k * 7);
        }
        assert!(start + v.len() * 7 >= x.len());
    }
}

#[test]
fn tile_repeats_a_pattern() {
    assert_eq!(tile(&[1, 2, 3], 7), vec![1, 2, 3, 1, 2, 3, 1]);
    assert_eq!(tile(&[5], 3), vec![5, 5, 5]);
    assert_eq!(tile::<i32>(&[], 0), Vec::<i32>::new());
    assert_eq!(tile(&[1, 2, 3], 2), vec![1, 2]);
}

#[test]
fn whole_windows_of_a_series() {
    assert_eq!(window_bounds(10, 3), vec![(0, 3), (3, 6), (6, 9)]);
    assert_eq!(window_bounds(9, 3), vec![(0, 3), (3, 6), (6, 9)]);
    assert_eq!(window_bounds(2, 3), Vec::<(usize, usize)>::new());
    assert_eq!(window_bounds(4, 1).len(), 4);
}
