use city_builder::{is_visible, project, Camera, Layout, ScreenPoint, UNITS_PER_PIXEL};

fn pixels(units: i128) -> f64 {
    units as f64 / UNITS_PER_PIXEL as f64
}

#[test]
fn standard_layout_is_the_stock_geometry() {
    let layout = Layout::standard();
    assert_eq!(pixels(layout.tile_x_offset as i128), -75.0);
    assert_eq!(pixels(layout.tile_y_offset as i128), -25.0);
    assert_eq!(pixels(layout.h_distance as i128), 47.5);
    assert_eq!(pixels(layout.v_distance as i128), 34.0);
    assert_eq!(pixels(layout.tile_width as i128), 250.0);
    assert_eq!(pixels(layout.tile_height as i128), 150.0);
    assert_eq!(pixels(layout.window_width as i128), 800.0);
    assert_eq!(pixels(layout.window_height as i128), 600.0);
}

#[test]
fn origin_tile_projects_to_the_tile_offsets() {
    let layout = Layout::standard();
    let point = project(&layout, 0, 0, &Camera::new(0, 0));
    assert_eq!(point.x, layout.tile_x_offset as i128);
    assert_eq!(point.y, layout.tile_y_offset as i128);
    assert_eq!(pixels(point.x), -75.0);
    assert_eq!(pixels(point.y), -25.0);
}

#[test]
fn projection_follows_the_isometric_basis() {
    let layout = Layout::standard();
    let point = project(&layout, 3, 5, &Camera::new(20, -40));
    assert_eq!(point, ScreenPoint { x: -320, y: 454 });
    let down_a_row = project(&layout, 4, 5, &Camera::new(20, -40));
    assert_eq!(down_a_row, ScreenPoint { x: -320 + 95, y: 454 + 68 });
    let along_a_row = project(&layout, 3, 6, &Camera::new(20, -40));
    assert_eq!(along_a_row, ScreenPoint { x: -320 - 95, y: 454 + 68 });
}

#[test]
fn projection_agrees_with_the_pixel_formula() {
    let layout = Layout::standard();
    for row in 0..30usize {
        for column in 0..11usize {
            for step in -3..4i64 {
                let camera = Camera::new(20 * step, -20 * step);
                let point = project(&layout, row, column, &camera);
                let x = -75.0 - 47.5 * (column as f64) + 47.5 * (row as f64) + 10.0 * step as f64;
                let y = -25.0 + 34.0 * (column as f64) + 34.0 * (row as f64) - 10.0 * step as f64;
                assert_eq!(pixels(point.x), x);
                assert_eq!(pixels(point.y), y);
            }
        }
    }
}

#[test]
fn projection_is_a_pure_function() {
    let layout = Layout::standard();
    let camera = Camera::new(-130, 70);
    let first = project(&layout, 17, 9, &camera);
    let second = project(&layout, 17, 9, &camera);
    assert_eq!(first, second);
}

#[test]
fn projection_holds_at_the_ends_of_every_range() {
    let layout = Layout {
        tile_x_offset: i32::MAX,
        tile_y_offset: i32::MAX,
        h_distance: i32::MAX,
        v_distance: i32::MAX,
        tile_width: 1,
        tile_height: 1,
        window_width: 1,
        window_height: 1,
    };
    let camera = Camera::new(i64::MAX, i64::MAX);
    let point = project(&layout, usize::MAX, 0, &camera);
    let h = i32::MAX as i128;
    let far = usize::MAX as i128;
    assert_eq!(point.x, h + h * far + i64::MAX as i128);
    assert_eq!(point.y, h + h * far + i64::MAX as i128);
    let other = project(&layout, 0, usize::MAX, &Camera::new(i64::MIN, i64::MIN));
    assert_eq!(other.x, h - h * far + i64::MIN as i128);
    assert_eq!(other.y, h + h * far + i64::MIN as i128);
}

#[test]
fn visibility_excludes_the_edges() {
    let layout = Layout::standard();
    let inside = |x: i128, y: i128| layout.is_visible(&ScreenPoint { x, y });
    assert!(inside(0, 0));
    assert!(!inside(-500, 0));
    assert!(inside(-499, 0));
    assert!(!inside(1600, 0));
    assert!(inside(1599, 0));
    assert!(!inside(0, -300));
    assert!(inside(0, -299));
    assert!(!inside(0, 1200));
    assert!(inside(0, 1199));
    assert!(!inside(-500, -300));
    assert!(!inside(1600, 1200));
}

#[test]
fn visibility_takes_any_box_and_window() {
    let point = ScreenPoint { x: -10, y: 30 };
    assert!(is_visible(&point, 11, 1, 1, 31));
    assert!(!is_visible(&point, 10, 1, 1, 31));
    assert!(!is_visible(&point, 11, 1, 1, 30));
    assert!(!is_visible(&point, 11, 1, -10, 31));
    assert!(!is_visible(&ScreenPoint { x: 0, y: 0 }, i32::MIN, i32::MIN, i32::MAX, i32::MAX));
    assert!(is_visible(&ScreenPoint { x: 0, y: 0 }, i32::MAX, i32::MAX, i32::MAX, i32::MAX));
}

#[test]
fn a_visible_tile_leaves_when_the_camera_crosses_the_grid() {
    let layout = Layout::standard();
    let span: i64 = 11 * 95 * 2;
    let mut camera = Camera::new(0, 0);
    assert!(layout.is_visible(&project(&layout, 3, 5, &camera)));
    let mut left_at = None;
    for count in 1..=10 {
        camera = Camera::new(span * count, 0);
        let shown = layout.is_visible(&project(&layout, 3, 5, &camera));
        if !shown && left_at.is_none() {
            left_at = Some(count);
        }
        if left_at.is_some() {
            assert!(!shown);
        }
    }
    assert_eq!(left_at, Some(1));
}

#[test]
fn a_tile_hidden_on_the_left_comes_in_when_the_camera_crosses_the_grid() {
    let layout = Layout::standard();
    let span: i64 = 11 * 95 * 2;
    let start = Camera::new(-5 * span, 0);
    assert!(!layout.is_visible(&project(&layout, 3, 5, &start)));
    let mut seen = 0;
    for count in 0..=10 {
        let camera = Camera::new(-5 * span + span * count, 0);
        if layout.is_visible(&project(&layout, 3, 5, &camera)) {
            seen += 1;
        }
    }
    assert_eq!(seen, 1);
}
