use dungeon_generator::dungeon::Dungeon;
use dungeon_generator::generator::add_room;
use dungeon_generator::math::{Rectangle, Vector};
use dungeon_generator::rng::RandStream;
use dungeon_generator::{generate, Config};

fn fresh_dungeon(seed: u64) -> Dungeon {
    Dungeon {
        min_size: Vector { x: 4, y: 4 },
        max_size: Vector { x: 7, y: 7 },
        rooms_spacing: (3, 5),
        path_extension: (2, 4),
        rooms: Vec::new(),
        connections: Vec::new(),
        rng: RandStream::from_seed(seed),
    }
}

#[test]
fn generate_is_deterministic() {
    let c1 = Config::build(42, 11, vec![4, 4], vec![7, 7], (3, 5), (2, 4)).unwrap();
    let c2 = Config::build(42, 11, vec![4, 4], vec![7, 7], (3, 5), (2, 4)).unwrap();
    let m1 = generate(c1);
    let m2 = generate(c2);
    assert_eq!(m1.size(), m2.size());
    assert_eq!(m1.to_bytes(), m2.to_bytes());
    assert_eq!(m1.to_ascii(), m2.to_ascii());
}

#[test]
fn different_seeds_usually_differ() {
    let c1 = Config::build(1, 8, vec![4, 4], vec![7, 7], (3, 5), (2, 4)).unwrap();
    let c2 = Config::build(2, 8, vec![4, 4], vec![7, 7], (3, 5), (2, 4)).unwrap();
    assert_ne!(generate(c1).to_bytes(), generate(c2).to_bytes());
}

#[test]
fn single_room_is_one_floor_rectangle_at_origin() {
    let c = Config::build(42, 1, vec![4, 4], vec![7, 7], (3, 5), (2, 4)).unwrap();
    let m = generate(c);
    let (w, h) = m.size();
    let bytes = m.to_bytes();
    // no doors or corridors anywhere
    assert!(bytes.iter().all(|b| *b == 0 || *b == 1));
    assert!(bytes.iter().any(|b| *b == 1));
    // the floor cells form one full rectangle anchored at the origin
    let mut fw = 0usize;
    while fw < w as usize && bytes[fw] == 1 {
        fw += 1;
    }
    let mut fh = 0usize;
    while fh < h as usize && bytes[fh * w as usize] == 1 {
        fh += 1;
    }
    assert!(fw >= 4 && fh >= 4);
    for y in 0..h as usize {
        for x in 0..w as usize {
            let expected = if x < fw && y < fh { 1 } else { 0 };
            assert_eq!(bytes[x + y * w as usize], expected);
        }
    }
}

#[test]
fn placed_rooms_never_overlap() {
    let mut d = fresh_dungeon(42);
    for _ in 0..11 {
        let id = d.rooms.len();
        let _ = add_room(&mut d, id);
    }
    assert!(d.rooms.len() >= 2);
    for i in 0..d.rooms.len() {
        for j in 0..d.rooms.len() {
            if i != j {
                assert!(!d.rooms[i].rect.overlap(&d.rooms[j].rect));
            }
        }
    }
}

#[test]
fn placed_room_sizes_stay_in_bounds() {
    let mut d = fresh_dungeon(7);
    for _ in 0..11 {
        let id = d.rooms.len();
        let _ = add_room(&mut d, id);
    }
    for room in &d.rooms {
        let w = room.rect.p2.x as i32 - room.rect.p1.x as i32;
        let h = room.rect.p2.y as i32 - room.rect.p1.y as i32;
        // a drawn size within [min, max], widened by at most one for parity
        assert!(4 <= w && w <= 8, "width {} out of bounds", w);
        assert!(4 <= h && h <= 8, "height {} out of bounds", h);
        assert!(w % 2 == 1 && h % 2 == 1);
    }
}

#[test]
fn connect_is_symmetric_and_deduplicated() {
    let mut d = fresh_dungeon(3);
    d.add_room(
        0,
        Rectangle { p1: Vector { x: 0, y: 0 }, p2: Vector { x: 5, y: 5 } },
    );
    d.add_room(
        1,
        Rectangle { p1: Vector { x: 8, y: 0 }, p2: Vector { x: 13, y: 5 } },
    );

    assert!(d.connect_rooms(1, 0));
    assert!(d.rooms[0].is_connected_to(1, &d.connections));
    assert!(d.rooms[1].is_connected_to(0, &d.connections));
    // a second call in either order is a no-op
    assert!(!d.connect_rooms(1, 0));
    assert!(!d.connect_rooms(0, 1));
    assert_eq!(d.connections.len(), 1);
    assert!(d.connections[0].has_destination(0));
    assert!(!d.connections[0].has_destination(1));
}

#[test]
fn two_rooms_forced_connection_routes_between_doors() {
    let mut d = fresh_dungeon(11);
    let r0 = Rectangle { p1: Vector { x: 0, y: 0 }, p2: Vector { x: 5, y: 5 } };
    let r1 = Rectangle { p1: Vector { x: 10, y: 0 }, p2: Vector { x: 15, y: 5 } };
    d.add_room(0, r0);
    d.add_room(1, r1);
    assert!(d.connect_rooms(1, 0));
    d.make_paths();

    assert_eq!(d.connections.len(), 1);
    let ws = &d.connections[0].path.waypoints;
    assert!(ws.len() >= 2, "the connection stayed unrouted");

    // first waypoint: a door on the destination room's wall, never a corner
    let on_wall = |p: &Vector<i8>, r: &Rectangle| {
        ((p.y == r.p1.y || p.y == r.p2.y - 1) && r.p1.x < p.x && p.x < r.p2.x - 1)
            || ((p.x == r.p1.x || p.x == r.p2.x - 1) && r.p1.y < p.y && p.y < r.p2.y - 1)
    };
    // the connection runs from room 1 to room 0
    assert!(on_wall(&ws[0], &r0));
    assert!(on_wall(&ws[ws.len() - 1], &r1));
}

#[test]
fn map_covers_all_rooms_and_waypoints() {
    let mut d = fresh_dungeon(42);
    for _ in 0..6 {
        let id = d.rooms.len();
        if add_room(&mut d, id) && id >= 1 {
            let _ = d.connect_rooms(id, id - 1);
        }
    }
    d.make_paths();
    let m = d.to_map();

    let mut min_x = i32::MAX;
    let mut max_x = i32::MIN;
    let mut min_y = i32::MAX;
    let mut max_y = i32::MIN;
    for room in &d.rooms {
        min_x = min_x.min(room.rect.p1.x as i32);
        max_x = max_x.max(room.rect.p2.x as i32 - 1);
        min_y = min_y.min(room.rect.p1.y as i32);
        max_y = max_y.max(room.rect.p2.y as i32 - 1);
    }
    for conn in &d.connections {
        for wp in &conn.path.waypoints {
            min_x = min_x.min(wp.x as i32);
            max_x = max_x.max(wp.x as i32);
            min_y = min_y.min(wp.y as i32);
            max_y = max_y.max(wp.y as i32);
        }
    }
    let (w, h) = m.size();
    assert!(w as i32 >= 1 + max_x - min_x);
    assert!(h as i32 >= 1 + max_y - min_y);
}

#[test]
fn paths_are_computed_once() {
    let mut d = fresh_dungeon(11);
    d.add_room(
        0,
        Rectangle { p1: Vector { x: 0, y: 0 }, p2: Vector { x: 5, y: 5 } },
    );
    d.add_room(
        1,
        Rectangle { p1: Vector { x: 10, y: 0 }, p2: Vector { x: 15, y: 5 } },
    );
    assert!(d.connect_rooms(1, 0));
    d.make_paths();
    let before: Vec<(i8, i8)> = d.connections[0]
        .path
        .waypoints
        .iter()
        .map(|p| (p.x, p.y))
        .collect();
    d.make_paths();
    let after: Vec<(i8, i8)> = d.connections[0]
        .path
        .waypoints
        .iter()
        .map(|p| (p.x, p.y))
        .collect();
    assert_eq!(before, after);
}

#[test]
fn impossible_placement_is_skipped() {
    // rooms the size of half the coordinate domain fill it after a few
    // placements; later rooms find no free spot, are skipped, and no
    // degenerate room is ever appended
    let mut d = Dungeon {
        min_size: Vector { x: 90, y: 90 },
        max_size: Vector { x: 90, y: 90 },
        rooms_spacing: (3, 5),
        path_extension: (2, 4),
        rooms: Vec::new(),
        connections: Vec::new(),
        rng: RandStream::from_seed(42),
    };
    for _ in 0..9 {
        let id = d.rooms.len();
        let _ = add_room(&mut d, id);
    }
    assert!(d.rooms.len() >= 1);
    assert!(d.rooms.len() < 9, "placements cannot all fit");
    for room in &d.rooms {
        assert!(room.rect.p1.x < room.rect.p2.x && room.rect.p1.y < room.rect.p2.y);
    }
    for i in 0..d.rooms.len() {
        for j in 0..d.rooms.len() {
            if i != j {
                assert!(!d.rooms[i].rect.overlap(&d.rooms[j].rect));
            }
        }
    }
}

#[test]
fn find_empty_space_reports_failure() {
    let mut d = Dungeon {
        min_size: Vector { x: 127, y: 127 },
        max_size: Vector { x: 127, y: 127 },
        rooms_spacing: (3, 5),
        path_extension: (2, 4),
        rooms: Vec::new(),
        connections: Vec::new(),
        rng: RandStream::from_seed(1),
    };
    // one room already covers the whole coordinate domain
    d.add_room(
        0,
        Rectangle { p1: Vector { x: 0, y: 0 }, p2: Vector { x: 127, y: 127 } },
    );
    let r = d.find_empty_space(Vector { x: 127, y: 127 });
    assert_eq!(r.unwrap_err().message(), "Cannot find a valid position");
}

#[test]
fn zero_rooms_is_a_single_empty_cell() {
    let c = Config::build(9, 0, vec![4, 4], vec![7, 7], (3, 5), (2, 4)).unwrap();
    let m = generate(c);
    assert_eq!(m.size(), (1, 1));
    assert_eq!(m.to_bytes(), vec![0]);
    assert_eq!(m.to_ascii(), "\n.");
}

#[test]
fn rooms_too_small_for_doors_stay_unrouted() {
    // size-2 rooms widen to 3 cells, too narrow to hold a door away from the
    // corners, so every connection stays unrouted: floors only, no corridor
    // or door tiles
    let c = Config::build(5, 3, vec![2, 2], vec![2, 2], (3, 5), (2, 4)).unwrap();
    let m = generate(c);
    assert!(m.to_bytes().iter().all(|b| *b == 0 || *b == 1));
    assert!(m.to_bytes().iter().any(|b| *b == 1));
}
