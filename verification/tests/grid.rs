use city_builder::{SimError, TileGrid};

#[test]
fn new_grid_shows_the_default_sprite_everywhere() {
    let grid = TileGrid::new(330, 11, 1).unwrap();
    assert_eq!(grid.len(), 330);
    assert_eq!(grid.row_width(), 11);
    for index in 0..330 {
        assert_eq!(grid.get(index).unwrap().get_sprite(), 1);
    }
}

#[test]
fn rows_of_no_tiles_are_refused() {
    assert!(matches!(TileGrid::new(330, 0, 0), Err(SimError::ZeroRowWidth)));
    assert!(matches!(TileGrid::new(0, 0, 0), Err(SimError::ZeroRowWidth)));
}

#[test]
fn a_grid_may_be_empty() {
    let grid = TileGrid::new(0, 4, 9).unwrap();
    assert_eq!(grid.len(), 0);
    assert_eq!(grid.get(0), Err(SimError::IndexOutOfRange));
}

#[test]
fn get_past_the_end_is_out_of_range() {
    let grid = TileGrid::new(330, 11, 0).unwrap();
    assert!(grid.get(329).is_ok());
    assert_eq!(grid.get(330), Err(SimError::IndexOutOfRange));
    assert_eq!(grid.get(usize::MAX), Err(SimError::IndexOutOfRange));
}

#[test]
fn set_sprite_changes_one_tile_only() {
    let mut grid = TileGrid::new(330, 11, 0).unwrap();
    assert_eq!(grid.set_sprite(38, 5), Ok(()));
    for index in 0..330 {
        let expected = if index == 38 { 5 } else { 0 };
        assert_eq!(grid.get(index).unwrap().get_sprite(), expected);
    }
    assert_eq!(grid.len(), 330);
    assert_eq!(grid.row_width(), 11);
}

#[test]
fn set_sprite_past_the_end_changes_nothing() {
    let mut grid = TileGrid::new(5, 2, 4).unwrap();
    assert_eq!(grid.set_sprite(5, 9), Err(SimError::IndexOutOfRange));
    assert_eq!(grid.set_sprite(usize::MAX, 9), Err(SimError::IndexOutOfRange));
    for index in 0..5 {
        assert_eq!(grid.get(index).unwrap().get_sprite(), 4);
    }
}

#[test]
fn row_column_is_division_and_remainder() {
    let grid = TileGrid::new(330, 11, 0).unwrap();
    for index in 0..330usize {
        assert_eq!(grid.row_column(index), (index / 11, index % 11));
    }
    assert_eq!(grid.row_column(0), (0, 0));
    assert_eq!(grid.row_column(10), (0, 10));
    assert_eq!(grid.row_column(11), (1, 0));
    assert_eq!(grid.row_column(38), (3, 5));
    assert_eq!(grid.row_column(329), (29, 10));
}

#[test]
fn column_resets_exactly_at_multiples_of_the_row_width() {
    let grid = TileGrid::new(330, 11, 0).unwrap();
    let mut row = 0;
    let mut column = 0;
    for index in 0..330usize {
        if index != 0 && index % 11 == 0 {
            column = 0;
            row += 1;
        }
        assert_eq!(grid.row_column(index), (row, column));
        assert_eq!(grid.row_column(index).1 == 0, index % 11 == 0);
        column += 1;
    }
}

#[test]
fn the_last_row_may_be_partial() {
    let grid = TileGrid::new(25, 11, 0).unwrap();
    assert_eq!(grid.row_column(21), (1, 10));
    assert_eq!(grid.row_column(22), (2, 0));
    assert_eq!(grid.row_column(24), (2, 2));
}

#[test]
fn rows_of_one_tile_have_one_column() {
    let grid = TileGrid::new(4, 1, 0).unwrap();
    for index in 0..4usize {
        assert_eq!(grid.row_column(index), (index, 0));
    }
}
