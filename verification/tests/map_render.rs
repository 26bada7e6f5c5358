use dungeon_generator::math::{Rectangle, Vector};
use dungeon_generator::tile_map::TileMap;

#[test]
fn resize_sets_dimensions_and_offset() {
    let mut m = TileMap::build();
    m.resize(&Vector { x: -3, y: -1 }, &Vector { x: 2, y: 4 });
    assert_eq!(m.size(), (6, 6));
    assert_eq!(m.to_bytes().len(), 36);
    // every cell starts empty
    assert!(m.to_bytes().iter().all(|b| *b == 0));
}

#[test]
fn ascii_rows_each_start_with_newline() {
    let mut m = TileMap::build();
    m.resize(&Vector { x: -1, y: 0 }, &Vector { x: 1, y: 1 });
    // 3 wide, 2 tall, offset shifts x by one
    m.add_door(&Vector { x: 0, y: 0 });
    m.add_corridor(&Vector { x: -1, y: 1 }, &Vector { x: 1, y: 1 });
    assert_eq!(m.to_ascii(), "\n.o.\n###");
    assert_eq!(m.to_bytes(), vec![0, 3, 0, 2, 2, 2]);
}

#[test]
fn floor_painting_is_half_open() {
    let mut m = TileMap::build();
    m.resize(&Vector { x: 0, y: 0 }, &Vector { x: 3, y: 3 });
    m.add_room(&Rectangle { p1: Vector { x: 0, y: 0 }, p2: Vector { x: 2, y: 2 } });
    assert_eq!(
        m.to_bytes(),
        vec![1, 1, 0, 0, 1, 1, 0, 0, 0, 0, 0, 0, 0, 0, 0, 0]
    );
}

#[test]
fn door_overrides_floor_and_corridor() {
    let mut m = TileMap::build();
    m.resize(&Vector { x: 0, y: 0 }, &Vector { x: 2, y: 0 });
    m.add_corridor(&Vector { x: 0, y: 0 }, &Vector { x: 2, y: 0 });
    m.add_door(&Vector { x: 1, y: 0 });
    assert_eq!(m.to_bytes(), vec![2, 3, 2]);
    assert_eq!(m.to_ascii(), "\n#o#");
}

#[test]
fn vertical_corridor_between_waypoints() {
    let mut m = TileMap::build();
    m.resize(&Vector { x: 0, y: 0 }, &Vector { x: 1, y: 3 });
    m.add_corridor(&Vector { x: 1, y: 3 }, &Vector { x: 1, y: 1 });
    assert_eq!(m.to_bytes(), vec![0, 0, 0, 2, 0, 2, 0, 2]);
}

#[test]
fn clear_resets_cells_only() {
    let mut m = TileMap::build();
    m.resize(&Vector { x: 0, y: 0 }, &Vector { x: 1, y: 1 });
    m.add_door(&Vector { x: 0, y: 0 });
    m.clear();
    assert_eq!(m.size(), (2, 2));
    assert_eq!(m.to_bytes(), vec![0, 0, 0, 0]);
}

#[test]
fn resize_never_shrinks() {
    let mut m = TileMap::build();
    m.resize(&Vector { x: 0, y: 0 }, &Vector { x: 9, y: 9 });
    assert_eq!(m.size(), (10, 10));
    m.resize(&Vector { x: 0, y: 0 }, &Vector { x: 3, y: 3 });
    assert_eq!(m.size(), (11, 11));
}
