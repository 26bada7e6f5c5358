use dungeon_generator::{generate, Config};

#[test]
fn seed_42_reference_layout() {
    let c = Config::build(42, 11, vec![4, 4], vec![7, 7], (3, 5), (2, 4)).unwrap();
    let m = generate(c);
    assert_eq!(m.size(), (54, 31));
    let rows = [
        "..........###############.............................",
        "..........#.............#.............................",
        "..........#.xxxxxxx.#########.........................",
        "..........#.xxxxxxx.#...#...#.........................",
        "..........##oxxxxxo##.xxoxx.#.........................",
        "............xxxxxxx.#.xxxxx.#.........................",
        "............xxxxxxx.#.xxxxx.#.........................",
        "....................#.xxxxx.#.........................",
        "....................#.xxoxx.#.........................",
        "....................#...#...#.........................",
        "..........#############################...............",
        "..........#...#.....#...#...#.........#...............",
        "xxxxxxx...#.xxoxxxx.#.xxoxx.#.xxxxx...#xxxx...xxxxxxx.",
        "xxxxxxx...#.xxxxxxx.#.xxxxx.#.xxxxx...#xxxx...xxxxxxx.",
        "xxxxxxo##.##oxxxxxo##.xxxxo##.xxxxx...#xxxx.##oxxxxxx.",
        "xxxxxxx.#.#.xxxxxxx.#.xxxxx.#.xxxxx...#xxxx.#.xxxxxxx.",
        "xxxxxxx.#.#.xxxxxxx.#.xxxxx.##oxxxx...oxxxx.#.xxxxxxx.",
        "........#.#.........#.xxxxx.#.xxxxx...xxxxx.#.xxxxxxx.",
        "........#.###########.xxoxx.#.xxxxx...xxxxx.#.xxxxxxx.",
        "........#...........#...#...#...............#.........",
        "........#################...#...............#.........",
        "............xxxxxxx.#.......#...............#.........",
        "............xxxxxxx.#.xxxxx.#.xxxxxxx.......#.........",
        "............xxxxxxx.#.xxxxx.#.xxxxxxx.......#.........",
        "............xxxxoxx.#.xxxxo###oxxxxxx.......#.........",
        "................#...#.xxxxx.#.xxxxxxx.......#.........",
        "................#...#.xxxxx.#.xxxxxxx.......#.........",
        "................#...#.xxxxx.#.xxxxxxx.......#.........",
        "................#...#.xxoxx.#.xxoxxxx.......#.........",
        "................#...#...#...#...#...........#.........",
        "................#############################.........",
    ];
    let mut expected = String::new();
    for row in rows {
        expected.push_str("\n");
        expected.push_str(row);
    }
    assert_eq!(m.to_ascii(), expected);

    let bytes = m.to_bytes();
    assert_eq!(bytes.len(), 54 * 31);
    // the byte rendering maps the same tiles to 0 through 3
    let chars: Vec<char> = m.to_ascii().chars().filter(|c| *c != '\n').collect();
    for (b, ch) in bytes.iter().zip(chars.iter()) {
        let expected_byte = match ch {
            'x' => 1,
            '#' => 2,
            'o' => 3,
            _ => 0,
        };
        assert_eq!(*b, expected_byte);
    }
}
