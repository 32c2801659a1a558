use gping::series::{x_axis_bounds, y_axis_bounds, y_axis_ticks, TimeSeries};

#[test]
fn last_and_window_points() {
    let mut s = TimeSeries::new();
    assert_eq!(s.last(), None);
    s.push(1_000, 5);
    s.push(20_000, 7);
    s.push(40_000, 9);
    assert_eq!(s.last(), Some(9));
    assert_eq!(s.window_points(40_000, 30_000), vec![(20_000, 7), (40_000, 9)]);
    assert_eq!(s.window_points(40_000, 39_000), vec![(1_000, 5), (20_000, 7), (40_000, 9)]);
}

#[test]
fn y_bounds_pad_by_a_tenth() {
    let mut a = TimeSeries::new();
    a.push(0, 1_000_000);
    a.push(50_000, 20_000);
    let mut b = TimeSeries::new();
    b.push(45_000, 100_000);
    let all = vec![a, b];
    assert_eq!(y_axis_bounds(&all, 60_000, 30_000), Some((18_000, 110_000)));
    assert_eq!(y_axis_bounds(&all, 200_000, 30_000), None);
}

#[test]
fn x_bounds_clamped_to_start() {
    assert_eq!(x_axis_bounds(1_000, 5_000, 30_000), (1_000, 31_000));
    assert_eq!(x_axis_bounds(1_000, 40_000, 30_000), (10_000, 40_000));
}

#[test]
fn seven_ticks() {
    assert_eq!(y_axis_ticks(100, 800), vec![100, 200, 300, 400, 500, 600, 700]);
}

#[test]
fn window_min_and_max() {
    let mut s = TimeSeries::new();
    assert_eq!(s.window_min(0, 30_000), None);
    assert_eq!(s.window_max(0, 30_000), None);
    s.push(1_000, 900);
    s.push(20_000, 70);
    s.push(30_000, 400);
    s.push(40_000, 90);
    assert_eq!(s.window_min(40_000, 30_000), Some(70));
    assert_eq!(s.window_max(40_000, 30_000), Some(400));
    assert_eq!(s.window_min(40_000, 39_000), Some(70));
    assert_eq!(s.window_max(40_000, 39_000), Some(900));
    assert_eq!(s.window_max(100_000, 30_000), None);
}
