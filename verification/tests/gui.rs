use city_builder::{
    anchor, display_selectable_tile, display_selector, display_sides_palms, display_sun,
    display_tiles, Camera, Color, Layout, Placement, Rectangle, ScreenPoint, TileGrid,
};

fn expected_tiles(sprites: &[usize], row_width: usize, camera: &Camera) -> Vec<Placement> {
    let mut expected = Vec::new();
    for (index, sprite) in sprites.iter().enumerate() {
        let row = (index / row_width) as i128;
        let column = (index % row_width) as i128;
        let x = -150 - 95 * column + 95 * row + camera.origin_x as i128;
        let y = -50 + 68 * column + 68 * row + camera.origin_y as i128;
        if x > -500 && x < 1600 && y > -300 && y < 1200 {
            expected.push(Placement { sprite: *sprite, at: ScreenPoint { x, y } });
        }
    }
    expected
}

fn expected_palms(camera: &Camera) -> Vec<ScreenPoint> {
    let mut expected = Vec::new();
    for index in 0..28i128 {
        let (along, x_offset, y_offset) =
            if index >= 14 { (index - 14, -1200, 740) } else { (index, -60, -100) };
        let x = camera.origin_x as i128 + x_offset + along * 95 * 2;
        let y = camera.origin_y as i128 + y_offset + along * 68 * 2;
        if x > -500 && x < 1600 && y > -300 && y < 1200 {
            expected.push(ScreenPoint { x, y });
        }
    }
    expected
}

#[test]
fn tiles_are_placed_row_by_row_and_hidden_ones_left_out() {
    let layout = Layout::standard();
    let mut grid = TileGrid::new(330, 11, 0).unwrap();
    grid.set_sprite(5, 1).unwrap();
    grid.set_sprite(38, 5).unwrap();
    let mut sprites = vec![0usize; 330];
    sprites[5] = 1;
    sprites[38] = 5;
    for camera in [
        Camera::new(0, 0),
        Camera::new(200, -340),
        Camera::new(-1000, 600),
        Camera::new(1234, 77),
    ] {
        let placements = display_tiles(&grid, &layout, &camera);
        let expected = expected_tiles(&sprites, 11, &camera);
        assert!(!expected.is_empty());
        assert!(expected.len() < 330);
        assert_eq!(placements, expected);
    }
}

#[test]
fn the_first_tiles_of_the_stock_view_stand_where_the_formula_puts_them() {
    let layout = Layout::standard();
    let grid = TileGrid::new(330, 11, 0).unwrap();
    let placements = display_tiles(&grid, &layout, &Camera::new(0, 0));
    assert_eq!(placements[0], Placement { sprite: 0, at: ScreenPoint { x: -150, y: -50 } });
    assert_eq!(placements[1], Placement { sprite: 0, at: ScreenPoint { x: -245, y: 18 } });
    assert_eq!(placements[2], Placement { sprite: 0, at: ScreenPoint { x: -340, y: 86 } });
    assert_eq!(placements[3], Placement { sprite: 0, at: ScreenPoint { x: -435, y: 154 } });
    assert_eq!(placements[4], Placement { sprite: 0, at: ScreenPoint { x: -55, y: 18 } });
}

#[test]
fn a_culled_tile_still_counts_for_its_successors() {
    let layout = Layout::standard();
    let mut grid = TileGrid::new(22, 11, 0).unwrap();
    for index in 0..22 {
        grid.set_sprite(index, index).unwrap();
    }
    let placements = display_tiles(&grid, &layout, &Camera::new(0, 0));
    let shown: Vec<usize> = placements.iter().map(|placement| placement.sprite).collect();
    assert_eq!(shown, vec![0, 1, 2, 3, 11, 12, 13, 14, 15]);
    assert_eq!(placements[4].at, ScreenPoint { x: -55, y: 18 });
    assert_eq!(placements[8].at, ScreenPoint { x: -435, y: 290 });
}

#[test]
fn nothing_is_placed_when_the_camera_is_far_away() {
    let layout = Layout::standard();
    let grid = TileGrid::new(330, 11, 0).unwrap();
    assert!(display_tiles(&grid, &layout, &Camera::new(1_000_000, 0)).is_empty());
    assert!(display_tiles(&grid, &layout, &Camera::new(i64::MIN, i64::MAX)).is_empty());
    assert!(display_sides_palms(&layout, &Camera::new(0, -1_000_000)).is_empty());
}

#[test]
fn an_empty_grid_places_nothing() {
    let layout = Layout::standard();
    let grid = TileGrid::new(0, 11, 0).unwrap();
    assert!(display_tiles(&grid, &layout, &Camera::new(0, 0)).is_empty());
}

#[test]
fn a_partial_last_row_is_placed_like_any_other() {
    let layout = Layout::standard();
    let grid = TileGrid::new(25, 11, 3).unwrap();
    let camera = Camera::new(300, 0);
    let placements = display_tiles(&grid, &layout, &camera);
    assert_eq!(placements, expected_tiles(&vec![3usize; 25], 11, &camera));
    assert_eq!(
        placements.last(),
        Some(&Placement { sprite: 3, at: ScreenPoint { x: 150, y: 222 } })
    );
}

#[test]
fn palms_stand_along_both_sides() {
    let layout = Layout::standard();
    for camera in [Camera::new(0, 0), Camera::new(400, -200), Camera::new(-900, 300)] {
        assert_eq!(display_sides_palms(&layout, &camera), expected_palms(&camera));
    }
    let palms = display_sides_palms(&layout, &Camera::new(0, 0));
    assert_eq!(palms[0], ScreenPoint { x: -60, y: -100 });
    assert_eq!(palms[1], ScreenPoint { x: 130, y: 36 });
    assert_eq!(palms.len(), 9);
    assert!(!palms.contains(&ScreenPoint { x: -440, y: 1284 }));
    let raised = display_sides_palms(&layout, &Camera::new(0, -200));
    assert!(raised.contains(&ScreenPoint { x: -440, y: 1084 }));
    assert!(!raised.contains(&ScreenPoint { x: -1200, y: 540 }));
}

#[test]
fn the_sun_is_placed_wherever_the_camera_puts_it() {
    assert_eq!(display_sun(&Camera::new(0, 0)), ScreenPoint { x: -1460, y: -520 });
    assert_eq!(display_sun(&Camera::new(20, -40)), ScreenPoint { x: -1440, y: -560 });
    assert_eq!(display_sun(&Camera::new(10_000, 0)), ScreenPoint { x: 8540, y: -520 });
    assert_eq!(display_sun(&Camera::new(-540, 0)), ScreenPoint { x: -2000, y: -520 });
    assert_eq!(display_sun(&Camera::new(0, 1_000_000)), ScreenPoint { x: -1460, y: 999_480 });
    assert_eq!(
        display_sun(&Camera::new(i64::MAX, i64::MIN)),
        ScreenPoint { x: i64::MAX as i128 - 1460, y: i64::MIN as i128 - 520 }
    );
}

#[test]
fn the_selector_strip_spans_the_window() {
    let selector = display_selector(&Layout::standard());
    assert_eq!(
        selector.separator,
        Rectangle { color: Color::White, x: 0, y: 1000, width: 1600, height: 2 }
    );
    assert_eq!(
        selector.background,
        Rectangle { color: Color::Black, x: 0, y: 1002, width: 1600, height: 200 }
    );
}

#[test]
fn selectable_tiles_stand_side_by_side() {
    let first = display_selectable_tile(0);
    assert_eq!(first.tile, ScreenPoint { x: -120, y: 980 });
    assert_eq!(first.counter, ScreenPoint { x: 200, y: 1180 });
    let second = display_selectable_tile(1);
    assert_eq!(second.tile, ScreenPoint { x: 120, y: 980 });
    assert_eq!(second.counter, ScreenPoint { x: 440, y: 1180 });
    let last = display_selectable_tile(255);
    assert_eq!(last.tile, ScreenPoint { x: -120 + 255 * 240, y: 980 });
    assert_eq!(last.counter, ScreenPoint { x: -120 + 255 * 240 + 320, y: 1180 });
}

#[test]
fn an_anchored_sprite_moves_with_the_camera() {
    assert_eq!(anchor(&Camera::new(0, 0), 40, 760), ScreenPoint { x: 40, y: 760 });
    assert_eq!(anchor(&Camera::new(20, -40), 40, 760), ScreenPoint { x: 60, y: 720 });
    assert_eq!(
        anchor(&Camera::new(i64::MAX, i64::MIN), i32::MAX, i32::MIN),
        ScreenPoint {
            x: i64::MAX as i128 + i32::MAX as i128,
            y: i64::MIN as i128 + i32::MIN as i128,
        }
    );
}
