use dungeon_generator::errors::PlacementError;
use dungeon_generator::Config;

#[test]
fn build_accepts_valid_parameters() {
    let c = Config::build(42, 11, vec![4, 4], vec![7, 7], (3, 5), (2, 4)).unwrap();
    assert_eq!(c.seed, 42);
    assert_eq!(c.rooms_count, 11);
    assert_eq!((c.rooms_min_size.x, c.rooms_min_size.y), (4, 4));
    assert_eq!((c.rooms_max_size.x, c.rooms_max_size.y), (7, 7));
    assert_eq!((c.rooms_spacing.min, c.rooms_spacing.max), (3, 5));
    assert_eq!((c.path_extension.min, c.path_extension.max), (2, 4));
}

#[test]
fn build_rejects_min_above_max() {
    let r = Config::build(0, 1, vec![8, 4], vec![7, 7], (3, 5), (2, 4));
    assert_eq!(r.unwrap_err(), "Min size cannot be bigger than max size");
    let r = Config::build(0, 1, vec![4, 8], vec![7, 7], (3, 5), (2, 4));
    assert!(r.is_err());
}

#[test]
fn build_rejects_oversized_rooms() {
    let r = Config::build(0, 1, vec![4, 4], vec![128, 7], (3, 5), (2, 4));
    assert_eq!(r.unwrap_err(), "Room size must be in the range [0,128)");
    let r = Config::build(0, 1, vec![4, 4], vec![7, 200], (3, 5), (2, 4));
    assert!(r.is_err());
}

#[test]
fn build_rejects_empty_spacing_range() {
    let r = Config::build(0, 1, vec![4, 4], vec![7, 7], (5, 5), (2, 4));
    assert_eq!(r.unwrap_err(), "Rooms spacing must be a non-empty ascending range");
}

#[test]
fn build_rejects_bad_extension_range() {
    let r = Config::build(0, 1, vec![4, 4], vec![7, 7], (3, 5), (4, 2));
    assert_eq!(
        r.unwrap_err(),
        "Path extension must be a non-empty ascending range below 127"
    );
    let r = Config::build(0, 1, vec![4, 4], vec![7, 7], (3, 5), (2, 127));
    assert!(r.is_err());
}

#[test]
fn config_new_is_all_zero() {
    let c = Config::new();
    assert_eq!(c.seed, 0);
    assert_eq!(c.rooms_count, 0);
    assert_eq!((c.rooms_min_size.x, c.rooms_min_size.y), (0, 0));
    assert_eq!((c.rooms_max_size.x, c.rooms_max_size.y), (0, 0));
    assert_eq!((c.rooms_spacing.min, c.rooms_spacing.max), (0, 0));
    assert_eq!((c.path_extension.min, c.path_extension.max), (0, 0));
}

#[test]
fn placement_error_keeps_its_message() {
    let e = PlacementError::new("Cannot find a valid position");
    assert_eq!(e.message(), "Cannot find a valid position");
}
