use city_builder::Tile;

#[test]
fn new_tile_shows_sprite_zero() {
    let tile = Tile::new();
    assert_eq!(tile.get_sprite(), 0);
}

#[test]
fn set_sprite_is_read_back() {
    let mut tile = Tile::new();
    tile.set_sprite(7);
    assert_eq!(tile.get_sprite(), 7);
    tile.set_sprite(usize::MAX);
    assert_eq!(tile.get_sprite(), usize::MAX);
}

#[test]
fn tiles_are_copied_by_value() {
    let mut first = Tile::new();
    let second = first;
    first.set_sprite(3);
    assert_eq!(first.get_sprite(), 3);
    assert_eq!(second.get_sprite(), 0);
    assert_ne!(first, second);
}
