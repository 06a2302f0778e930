use ray2m::frame::{Frame, ScreenPoint};

#[test]
fn frame_keeps_its_size() {
    let frame = Frame::new(1080, 720).unwrap();
    assert_eq!(frame.width(), 1080);
    assert_eq!(frame.height(), 720);
    assert_eq!(frame.pixel_count(), 777600);
}

#[test]
fn frame_too_large_is_refused() {
    assert!(Frame::new(usize::MAX, 2).is_none());
    assert!(Frame::new(2, usize::MAX).is_none());
    assert!(Frame::new(usize::MAX, usize::MAX).is_none());
    assert!(Frame::new(usize::MAX, 1).is_some());
    assert!(Frame::new(1, usize::MAX).is_some());
}

#[test]
fn frame_without_pixels_is_accepted() {
    let flat = Frame::new(0, 5).unwrap();
    assert_eq!(flat.pixel_count(), 0);
    assert!(flat.blank().is_empty());
    let thin = Frame::new(usize::MAX, 0).unwrap();
    assert_eq!(thin.pixel_count(), 0);
    assert!(thin.blank().is_empty());
}

#[test]
fn blank_buffer_is_black() {
    let frame = Frame::new(7, 5).unwrap();
    let buffer = frame.blank();
    assert_eq!(buffer.len(), 35);
    assert!(buffer.iter().all(|p| *p == 0));
    assert_eq!(buffer, vec![0u32; 35]);
}

#[test]
fn position_is_row_major() {
    let frame = Frame::new(1080, 720).unwrap();
    assert_eq!(frame.position(0), (0, 0));
    assert_eq!(frame.position(1079), (0, 1079));
    assert_eq!(frame.position(1080), (1, 0));
    assert_eq!(frame.position(1081), (1, 1));
    assert_eq!(frame.position(360 * 1080 + 540), (360, 540));
    assert_eq!(frame.position(777599), (719, 1079));
}

#[test]
fn position_visits_every_pixel_once() {
    let frame = Frame::new(13, 9).unwrap();
    let mut seen = vec![false; frame.pixel_count()];
    for index in 0..frame.pixel_count() {
        let (row, col) = frame.position(index);
        assert!(row < frame.height());
        assert!(col < frame.width());
        assert_eq!(row * frame.width() + col, index);
        assert!(!seen[row * frame.width() + col]);
        seen[row * frame.width() + col] = true;
    }
    assert!(seen.iter().all(|s| *s));
}

#[test]
fn position_in_a_single_column() {
    let frame = Frame::new(1, 4).unwrap();
    for index in 0..4 {
        assert_eq!(frame.position(index), (index, 0));
    }
}

#[test]
fn screen_point_of_the_middle_pixel_is_the_midpoint() {
    let frame = Frame::new(1080, 720).unwrap();
    let p = frame.screen_point(360, 540);
    assert_eq!(p, ScreenPoint { num_x: 0, num_y: 0, den: 1440 });
}

#[test]
fn screen_point_exact_values() {
    let frame = Frame::new(1080, 720).unwrap();
    assert_eq!(frame.screen_point(0, 0), ScreenPoint { num_x: -1080, num_y: -720, den: 1440 });
    assert_eq!(frame.screen_point(719, 1079), ScreenPoint { num_x: 1078, num_y: 718, den: 1440 });
    assert_eq!(frame.screen_point(100, 200), ScreenPoint { num_x: -680, num_y: -520, den: 1440 });
    let odd = Frame::new(5, 3).unwrap();
    assert_eq!(odd.screen_point(1, 2), ScreenPoint { num_x: -1, num_y: -1, den: 6 });
}

#[test]
fn screen_point_agrees_with_floating_point() {
    let frame = Frame::new(1080, 720).unwrap();
    for index in (0..frame.pixel_count()).step_by(97) {
        let (row, col) = frame.position(index);
        let p = frame.screen_point(row, col);
        let x = (col as f64 - 1080.0 * 0.5) / 720.0;
        let y = (row as f64 - 720.0 * 0.5) / 720.0;
        assert_eq!(p.num_x as f64 / p.den as f64, x);
        assert_eq!(p.num_y as f64 / p.den as f64, y);
    }
}

#[test]
fn screen_point_stays_within_half_the_height_vertically() {
    let frame = Frame::new(16, 10).unwrap();
    for row in 0..10 {
        for col in 0..16 {
            let p = frame.screen_point(row, col);
            assert_eq!(p.den, 20);
            assert!(-10 <= p.num_y && p.num_y < 10);
            assert!(-16 <= p.num_x && p.num_x < 16);
        }
    }
}

#[test]
fn screen_point_at_the_largest_coordinates() {
    let frame = Frame::new(usize::MAX, 1).unwrap();
    let p = frame.screen_point(usize::MAX, usize::MAX);
    assert_eq!(p.num_x, usize::MAX as i128);
    assert_eq!(p.num_y, 2 * (usize::MAX as i128) - 1);
    assert_eq!(p.den, 2);
}
