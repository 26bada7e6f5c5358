use vstd::prelude::*;

use crate::math::{
    align_even_down, align_even_down_spec, align_even_up, align_even_up_spec, aligned_room,
    intersects, segment_intersects_spec, widen, Direction, Rectangle, Rot, Vector, COORD_MAX,
    COORD_MIN,
};
use crate::rng::{
    lemma_permutation_bound, rng_i8_excl, rng_shuffle, rng_u8_excl, rng_usize_excl, RandStream,
};

verus! {

/// Bound on the coordinates the rotated-frame search can reach at a given
/// recursion depth: each level draws at most seven extensions of under 256
/// cells each.
pub open spec fn wp_bound(iteration: int) -> int {
    200 + 1800 * iteration
}

pub open spec fn pt_bounded(p: Vector<i32>, b: int) -> bool {
    -b <= p.x <= b && -b <= p.y <= b
}

pub open spec fn pt_even(p: Vector<i32>) -> bool {
    p.x % 2 == 0 && p.y % 2 == 0
}

/// A corridor turn point: even coordinates inside the coordinate domain.
pub open spec fn wp_ok(p: Vector<i8>) -> bool {
    &&& -126 <= p.x <= 126
    &&& -126 <= p.y <= 126
    &&& p.x % 2 == 0
    &&& p.y % 2 == 0
}

/// A rotation applied to a machine-word point.
pub open spec fn rot32(r: Rot, p: Vector<i32>) -> Vector<i32> {
    let q = r.apply_spec(widen(p));
    Vector { x: q.x as i32, y: q.y as i32 }
}

/// A rotated-frame coordinate clamped into the waypoint domain.
pub open spec fn clamp_even_spec(v: int) -> i8 {
    if v > 126 {
        126i8
    } else if v < -126 {
        -126i8
    } else {
        v as i8
    }
}

/// One step of the rotated-frame search, as a function of the stream state:
/// the waypoints it emits, its outcome, and the state it leaves behind.
pub open spec fn fnw_spec(
    pos_from: Vector<i32>,
    pos_to: Vector<i32>,
    rect_from: Rectangle,
    rect_to: Rectangle,
    inv: Rot,
    iteration: int,
    ext: (u8, u8),
    st: nat,
) -> (Seq<Vector<i8>>, Option<bool>, nat)
    decreases vstd::math::max(0, 12 - iteration), 8int,
{
    if iteration > 10 {
        (Seq::empty(), None, st)
    } else {
        let delta = pos_from.y - pos_to.y;
        if delta <= 0 {
            let dr = rng_u8_excl(st, ext.0, ext.1);
            let pos_next = Vector {
                x: pos_from.x,
                y: align_even_up_spec(pos_from.y - dr.0) as i32,
            };
            fnw_turn(pos_from, pos_next, pos_to, rect_from, rect_to, inv, iteration, ext, dr.1)
        } else if iteration > 0 {
            let pos_next = Vector {
                x: pos_from.x,
                y: align_even_up_spec(pos_from.y - delta) as i32,
            };
            let lo = (if pos_from.y < pos_to.y {
                pos_from.y as int
            } else {
                pos_to.y as int
            }) + 1;
            let hi = (if pos_from.y > pos_to.y {
                pos_from.y as int
            } else {
                pos_to.y as int
            }) - 1;
            let q1 = inv.apply_spec(Vector { x: pos_from.x as int, y: lo });
            let q2 = inv.apply_spec(Vector { x: pos_from.x as int, y: hi });
            let p1 = Vector { x: q1.x as i32, y: q1.y as i32 };
            let p2 = Vector { x: q2.x as i32, y: q2.y as i32 };
            if segment_intersects_spec(rect_to, p1, p2) || segment_intersects_spec(
                rect_from,
                p1,
                p2,
            ) {
                (Seq::empty(), Some(false), st)
            } else if pos_next.x == pos_to.x && pos_next.y == pos_to.y {
                (Seq::empty(), Some(true), st)
            } else {
                fnw_turn(pos_from, pos_next, pos_to, rect_from, rect_to, inv, iteration, ext, st)
            }
        } else {
            fnw_turn(pos_from, pos_from, pos_to, rect_from, rect_to, inv, iteration, ext, st)
        }
    }
}

/// The quarter turn toward the destination (or a drawn side when exactly
/// aligned), then the bounded retries.
pub open spec fn fnw_turn(
    pos_from: Vector<i32>,
    pos_next: Vector<i32>,
    pos_to: Vector<i32>,
    rect_from: Rectangle,
    rect_to: Rectangle,
    inv: Rot,
    iteration: int,
    ext: (u8, u8),
    st: nat,
) -> (Seq<Vector<i8>>, Option<bool>, nat)
    decreases vstd::math::max(0, 12 - iteration), 7int,
{
    let rot_delta = pos_from.x - pos_to.x;
    if rot_delta == 0 {
        let dr = rng_usize_excl(st, 0, 1);
        let next_rot = if dr.0 == 0 {
            Rot::R270
        } else {
            Rot::R90
        };
        fnw_retry(pos_next, pos_to, rect_from, rect_to, inv, next_rot, iteration, 0, ext, dr.1)
    } else {
        let next_rot = if rot_delta < 0 {
            Rot::R270
        } else {
            Rot::R90
        };
        fnw_retry(pos_next, pos_to, rect_from, rect_to, inv, next_rot, iteration, 0, ext, st)
    }
}

/// One retry round: recurse a level deeper in the turned frame; on success
/// emit this level's turn point in world coordinates, on a veto extend
/// forward and retry within the budget.
pub open spec fn fnw_retry(
    pos_next: Vector<i32>,
    pos_to: Vector<i32>,
    rect_from: Rectangle,
    rect_to: Rectangle,
    inv: Rot,
    next_rot: Rot,
    iteration: int,
    retry: int,
    ext: (u8, u8),
    st: nat,
) -> (Seq<Vector<i8>>, Option<bool>, nat)
    decreases vstd::math::max(0, 12 - iteration), vstd::math::max(0, 6 - retry),
{
    if iteration < 0 || iteration > 10 || retry < 0 || retry > 5 {
        (Seq::empty(), None, st)
    } else {
        let sub = fnw_spec(
        rot32(next_rot, pos_next),
        rot32(next_rot, pos_to),
        rect_from,
        rect_to,
        inv.compose_spec(next_rot.inverse_spec()),
        iteration + 1,
        ext,
        st,
    );
    match sub.1 {
        Some(true) => {
            let world = rot32(inv, pos_next);
            let pos = Vector {
                x: clamp_even_spec(world.x as int),
                y: clamp_even_spec(world.y as int),
            };
            (sub.0.push(pos), Some(true), sub.2)
        },
        None => (sub.0, None, sub.2),
        Some(false) => {
            let dr = rng_u8_excl(sub.2, ext.0, ext.1);
            let pos2 = Vector {
                x: pos_next.x,
                y: align_even_up_spec(pos_next.y - dr.0) as i32,
            };
            if retry + 1 > 5 {
                (sub.0, None, dr.1)
            } else {
                let rec = fnw_retry(
                    pos2,
                    pos_to,
                    rect_from,
                    rect_to,
                    inv,
                    next_rot,
                    iteration,
                    retry + 1,
                    ext,
                    dr.1,
                );
                    (sub.0 + rec.0, rec.1, rec.2)
                }
            },
        }
    }
}

/// The corridor routing for one connection, as a function of the stream
/// state: the interior turn points (innermost first), whether the search
/// reached the destination, and the state left behind.
pub open spec fn find_path_spec(
    from_pos: Vector<i8>,
    from_rect: Rectangle,
    from_dir: Direction,
    to_pos: Vector<i8>,
    to_rect: Rectangle,
    ext: (u8, u8),
    st: nat,
) -> (Seq<Vector<i8>>, bool, nat) {
    let rot = match from_dir {
        Direction::North => Rot::R0,
        Direction::South => Rot::R180,
        Direction::East => Rot::R270,
        Direction::West => Rot::R90,
    };
    let pf = rot32(rot, Vector { x: from_pos.x as i32, y: from_pos.y as i32 });
    let pt = rot32(rot, Vector { x: to_pos.x as i32, y: to_pos.y as i32 });
    let f = corridor_search(pf, pt, from_rect, to_rect, rot.inverse_spec(), 0, ext, st);
    (f.0, f.1 == Some(true), f.2)
}

/// What materializing one path does, as a function of the stream state: the
/// waypoints stored and the state left behind. A present path is kept as it
/// is; rooms too small for a door keep the path empty without drawing.
pub open spec fn make_path_spec(
    ws0: Seq<Vector<i8>>,
    from_rect: Rectangle,
    to_rect: Rectangle,
    ext: (u8, u8),
    st: nat,
) -> (Seq<Vector<i8>>, nat) {
    if ws0.len() > 0 {
        (ws0, st)
    } else if !(from_rect.p2.x - from_rect.p1.x > 3 && from_rect.p2.y - from_rect.p1.y > 3
        && to_rect.p2.x - to_rect.p1.x > 3 && to_rect.p2.y - to_rect.p1.y > 3) {
        (ws0, st)
    } else {
        let fe = create_room_exit_spec(from_rect, to_rect, ext, st);
        let te = create_room_exit_spec(to_rect, from_rect, ext, fe.1);
        match (fe.0, te.0) {
            (Some(fp), Some(tp)) => {
                let pz = find_path_spec(fp.0, from_rect, fp.1, tp.0, to_rect, ext, te.1);
                if pz.1 {
                    (seq![tp.0] + pz.0 + seq![fp.0], pz.2)
                } else {
                    (ws0, pz.2)
                }
            },
            _ => (ws0, te.1),
        }
    }
}

/// The whole rotated-frame corridor search for one door pair, as a function
/// of the stream state: the turn points emitted (innermost first), the
/// outcome, and the state left behind.
#[verifier::opaque]
pub open spec fn corridor_search(
    pos_from: Vector<i32>,
    pos_to: Vector<i32>,
    rect_from: Rectangle,
    rect_to: Rectangle,
    inv: Rot,
    iteration: int,
    ext: (u8, u8),
    st: nat,
) -> (Seq<Vector<i8>>, Option<bool>, nat) {
    fnw_spec(pos_from, pos_to, rect_from, rect_to, inv, iteration, ext, st)
}

/// The wall tried at a shuffled slot.
pub open spec fn exit_dir_of(d: usize) -> Direction {
    if d == 0 {
        Direction::North
    } else if d == 1 {
        Direction::South
    } else if d == 2 {
        Direction::East
    } else {
        Direction::West
    }
}

/// The door the drawn interior point projects to on one wall, and whether
/// that wall is admissible: the probe point one extension beyond the door
/// must not land inside the other room.
pub open spec fn exit_for_dir(
    rect: Rectangle,
    other: Rectangle,
    ext_hi: u8,
    cx: i8,
    cy: i8,
    dir: Direction,
) -> (Vector<i8>, bool) {
    let moved = match dir {
        Direction::North => (cx as int, rect.p1.y as int),
        Direction::South => (cx as int, rect.p2.y - 1),
        Direction::East => (rect.p2.x - 1, cy as int),
        Direction::West => (rect.p1.x as int, cy as int),
    };
    let ax = align_even_down_spec(moved.0);
    let ay = align_even_down_spec(moved.1);
    let door = match dir {
        Direction::North | Direction::South => (
            if ax == rect.p1.x {
                ax + 2
            } else {
                ax
            },
            ay,
        ),
        Direction::East | Direction::West => (
            ax,
            if ay == rect.p1.y {
                ay + 2
            } else {
                ay
            },
        ),
    };
    let limit = ext_hi + 1;
    let probe = match dir {
        Direction::North => (door.0, door.1 - limit),
        Direction::South => (door.0, door.1 + limit),
        Direction::East => (door.0 + limit, door.1),
        Direction::West => (door.0 - limit, door.1),
    };
    (
        Vector { x: door.0 as i8, y: door.1 as i8 },
        !crate::math::contains_pt(other, probe.0, probe.1),
    )
}

/// The first admissible wall in the shuffled order, from slot `b` on.
pub open spec fn exit_scan(
    rect: Rectangle,
    other: Rectangle,
    ext_hi: u8,
    cx: i8,
    cy: i8,
    dirs: Seq<usize>,
    b: int,
) -> Option<(Vector<i8>, Direction)>
    decreases dirs.len() - b,
{
    if b < 0 || b >= dirs.len() {
        None
    } else {
        let dir = exit_dir_of(dirs[b]);
        let pr = exit_for_dir(rect, other, ext_hi, cx, cy, dir);
        if pr.1 {
            Some((pr.0, dir))
        } else {
            exit_scan(rect, other, ext_hi, cx, cy, dirs, b + 1)
        }
    }
}

/// What the door search does, as a function of the stream state: two interior
/// draws, a shuffled wall order, and the first admissible wall.
pub open spec fn create_room_exit_spec(
    rect: Rectangle,
    other: Rectangle,
    ext: (u8, u8),
    st: nat,
) -> (Option<(Vector<i8>, Direction)>, nat) {
    let cx = rng_i8_excl(st, (rect.p1.x + 1) as i8, (rect.p2.x - 2) as i8);
    let cy = rng_i8_excl(cx.1, (rect.p1.y + 1) as i8, (rect.p2.y - 2) as i8);
    let sh = rng_shuffle(cy.1, seq![0usize, 1usize, 2usize, 3usize]);
    (exit_scan(rect, other, ext.1, cx.0, cy.0, sh.0, 0), sh.1)
}

/// A door position: on the wall ring of the room's rectangle, strictly
/// between the corners of its wall.
pub open spec fn door_spec(p: Vector<i8>, rect: Rectangle) -> bool {
    ||| ((p.y == rect.p1.y || p.y == rect.p2.y - 1) && rect.p1.x < p.x < rect.p2.x - 1)
    ||| ((p.x == rect.p1.x || p.x == rect.p2.x - 1) && rect.p1.y < p.y < rect.p2.y - 1)
}

/// A path is either absent or runs from a door on the destination room's
/// wall to a door on the origin room's wall, through waypoints inside the
/// coordinate domain.
pub open spec fn path_ok(ws: Seq<Vector<i8>>, from_rect: Rectangle, to_rect: Rectangle) -> bool {
    ws.len() == 0 || {
        &&& ws.len() >= 2
        &&& door_spec(ws[0], to_rect)
        &&& door_spec(ws[ws.len() - 1], from_rect)
        &&& forall|k: int|
            0 <= k < ws.len() ==> {
                &&& COORD_MIN <= (#[trigger] ws[k]).x <= COORD_MAX
                &&& COORD_MIN <= ws[k].y <= COORD_MAX
            }
    }
}

/// The corridor route of a connection: empty until computed. When present,
/// the first and last waypoints are door points on the walls of the two
/// endpoint rooms, and interior waypoints are corridor turn points.
pub struct Path {
    pub waypoints: Vec<Vector<i8>>,
}

impl Path {
    pub fn empty() -> (r: Path)
        ensures
            r.waypoints@ =~= Seq::<Vector<i8>>::empty(),
    {
        Path { waypoints: Vec::new() }
    }
}

/// An undirected edge between two rooms, stored as an ordered pair of room
/// ids; it owns the lazily computed corridor path between them.
pub struct Connection {
    pub from: usize,
    pub to: usize,
    pub path: Path,
}

impl Connection {
    pub fn new(from: usize, to: usize) -> (r: Connection)
        ensures
            r.from == from,
            r.to == to,
            r.path.waypoints@.len() == 0,
    {
        Connection { from, to, path: Path::empty() }
    }

    /// True when this edge's recorded destination is `room`.
    pub fn has_destination(&self, room: usize) -> (r: bool)
        ensures
            r == (self.to == room),
    {
        self.to == room
    }

    /// Clamps a rotated-frame coordinate into the waypoint domain, keeping
    /// it even.
    fn clamp_even(v: i32) -> (r: i8)
        requires
            v % 2 == 0,
        ensures
            r == clamp_even_spec(v as int),
            -126 <= r <= 126,
            r % 2 == 0,
            -126 <= v <= 126 ==> r as int == v,
    {
        if v > 126 {
            126
        } else if v < -126 {
            -126
        } else {
            v as i8
        }
    }

    /// Picks a door on one wall of a room: an interior point, even-aligned,
    /// projected onto a wall chosen in a shuffled order; a wall is rejected
    /// when a short probe line beyond the door would land inside the other
    /// room, so doors never face directly into their destination. `None` when
    /// every wall faces the other room.
    fn create_room_exit(
        rng: &mut RandStream,
        rect: &Rectangle,
        other_rect: &Rectangle,
        path_extension: (u8, u8),
    ) -> (r: Option<(Vector<i8>, Direction)>)
        requires
            aligned_room(*rect),
            rect.p2.x - rect.p1.x > 3,
            rect.p2.y - rect.p1.y > 3,
            path_extension.1 <= 126,
        ensures
            r == create_room_exit_spec(*rect, *other_rect, path_extension, old(rng).state@).0,
            final(rng).state@ == create_room_exit_spec(
                *rect,
                *other_rect,
                path_extension,
                old(rng).state@,
            ).1,
            r matches Some(pd) ==> {
                &&& door_spec(pd.0, *rect)
                &&& pd.0.x % 2 == 0
                &&& pd.0.y % 2 == 0
                &&& match pd.1 {
                    Direction::North => pd.0.y == rect.p1.y,
                    Direction::South => pd.0.y == rect.p2.y - 1,
                    Direction::East => pd.0.x == rect.p2.x - 1,
                    Direction::West => pd.0.x == rect.p1.x,
                }
            },
    {
        let ghost st0 = rng.state@;
        let cx: i8 = rng.gen_i8_excl(rect.p1.x + 1, rect.p2.x - 2);
        let cy: i8 = rng.gen_i8_excl(rect.p1.y + 1, rect.p2.y - 2);

        let mut dirs: Vec<usize> = Vec::new();
        dirs.push(0);
        dirs.push(1);
        dirs.push(2);
        dirs.push(3);
        proof {
            assert(dirs@ =~= seq![0usize, 1usize, 2usize, 3usize]);
        }
        let ghost pre_dirs = dirs@;
        rng.shuffle_usizes(&mut dirs);
        proof {
            lemma_permutation_bound(pre_dirs, dirs@, 4);
        }

        let mut b: usize = 0;
        while b < dirs.len()
            invariant
                0 <= b <= dirs@.len(),
                aligned_room(*rect),
                rect.p2.x - rect.p1.x > 3,
                rect.p2.y - rect.p1.y > 3,
                path_extension.1 <= 126,
                rect.p1.x < cx < rect.p2.x - 2,
                rect.p1.y < cy < rect.p2.y - 2,
                st0 == old(rng).state@,
                cx == rng_i8_excl(st0, (rect.p1.x + 1) as i8, (rect.p2.x - 2) as i8).0,
                cy == rng_i8_excl(
                    rng_i8_excl(st0, (rect.p1.x + 1) as i8, (rect.p2.x - 2) as i8).1,
                    (rect.p1.y + 1) as i8,
                    (rect.p2.y - 2) as i8,
                ).0,
                dirs@ == rng_shuffle(
                    rng_i8_excl(
                        rng_i8_excl(st0, (rect.p1.x + 1) as i8, (rect.p2.x - 2) as i8).1,
                        (rect.p1.y + 1) as i8,
                        (rect.p2.y - 2) as i8,
                    ).1,
                    seq![0usize, 1usize, 2usize, 3usize],
                ).0,
                rng.state@ == create_room_exit_spec(*rect, *other_rect, path_extension, st0).1,
                exit_scan(*rect, *other_rect, path_extension.1, cx, cy, dirs@, 0) == exit_scan(
                    *rect,
                    *other_rect,
                    path_extension.1,
                    cx,
                    cy,
                    dirs@,
                    b as int,
                ),
                create_room_exit_spec(*rect, *other_rect, path_extension, st0).0 == exit_scan(
                    *rect,
                    *other_rect,
                    path_extension.1,
                    cx,
                    cy,
                    dirs@,
                    0,
                ),
            decreases dirs@.len() - b,
        {
            let direction = match dirs[b] {
                0 => Direction::North,
                1 => Direction::South,
                2 => Direction::East,
                _ => Direction::West,
            };
            proof {
                assert(direction == exit_dir_of(dirs@[b as int]));
            }

            let mut px: i32 = cx as i32;
            let mut py: i32 = cy as i32;

            match direction {
                Direction::North => py = rect.p1.y as i32,
                Direction::South => py = rect.p2.y as i32 - 1,
                Direction::East => px = rect.p2.x as i32 - 1,
                Direction::West => px = rect.p1.x as i32,
            }

            px = align_even_down(px);
            py = align_even_down(py);

            // keep the door off the room's corners
            match direction {
                Direction::North | Direction::South => {
                    if px == rect.p1.x as i32 {
                        px = px + 2;
                    }
                },
                Direction::East | Direction::West => {
                    if py == rect.p1.y as i32 {
                        py = py + 2;
                    }
                },
            }

            let limit: i32 = path_extension.1 as i32 + 1;
            let (tx, ty): (i32, i32) = match direction {
                Direction::North => (px, py - limit),
                Direction::South => (px, py + limit),
                Direction::East => (px + limit, py),
                Direction::West => (px - limit, py),
            };

            let inside = tx >= other_rect.p1.x as i32 && tx < other_rect.p2.x as i32 && ty
                >= other_rect.p1.y as i32 && ty < other_rect.p2.y as i32;

            proof {
                let pr = exit_for_dir(*rect, *other_rect, path_extension.1, cx, cy, direction);
                assert(pr.0.x as int == px && pr.0.y as int == py);
                assert(pr.1 == !inside);
                if !inside {
                    assert(exit_scan(
                        *rect,
                        *other_rect,
                        path_extension.1,
                        cx,
                        cy,
                        dirs@,
                        b as int,
                    ) == Some((pr.0, direction)));
                }
            }

            if !inside {
                return Some((Vector { x: px as i8, y: py as i8 }, direction));
            }
            b += 1;
        }

        None
    }

    /// One step of the rotated-frame corridor search, where "forward" is
    /// always north (decreasing y): extend forward by a drawn, even-aligned
    /// distance; once level with the destination, veto the straight segment
    /// if it would cut through either endpoint room, or succeed if it ends at
    /// the destination door; otherwise turn a quarter toward the destination
    /// (or a drawn side when exactly aligned) and recurse, retrying with
    /// longer extensions a bounded number of times. Waypoints are emitted in
    /// world coordinates on the way back out, innermost first.
    #[verifier::rlimit(100)]
    #[verifier::spinoff_prover]
    fn find_next_waypoint(
        path: &mut Vec<Vector<i8>>,
        pos_from: Vector<i32>,
        pos_to: Vector<i32>,
        rect_from: &Rectangle,
        rect_to: &Rectangle,
        inv: Rot,
        iteration: u8,
        path_extension: (u8, u8),
        rng: &mut RandStream,
    ) -> (r: Option<bool>)
        requires
            iteration <= 11,
            path_extension.0 < path_extension.1,
            pt_bounded(pos_from, wp_bound(iteration as int)),
            pt_bounded(pos_to, wp_bound(iteration as int)),
            pt_even(pos_from),
            pt_even(pos_to),
            forall|k: int| 0 <= k < old(path)@.len() ==> wp_ok(#[trigger] old(path)@[k]),
        ensures
            final(path)@.len() >= old(path)@.len(),
            final(path)@.subrange(0, old(path)@.len() as int) == old(path)@,
            forall|k: int| 0 <= k < final(path)@.len() ==> wp_ok(#[trigger] final(path)@[k]),
            ({
                let f = corridor_search(
                    pos_from,
                    pos_to,
                    *rect_from,
                    *rect_to,
                    inv,
                    iteration as int,
                    path_extension,
                    old(rng).state@,
                );
                &&& final(path)@ == old(path)@ + f.0
                &&& r == f.1
                &&& final(rng).state@ == f.2
            }),
        decreases 12 - iteration,
    {
        let ghost st_f = rng.state@;
        let ghost target = fnw_spec(
            pos_from,
            pos_to,
            *rect_from,
            *rect_to,
            inv,
            iteration as int,
            path_extension,
            st_f,
        );
        proof {
            reveal(corridor_search);
        }
        if iteration > 10 {
            proof {
                assert(path@ =~= path@ + Seq::<Vector<i8>>::empty());
            }
            return None;
        }

        let delta: i32 = pos_from.y - pos_to.y;
        let mut pos_next: Vector<i32> = pos_from;

        if delta <= 0 {
            let d = rng.gen_u8_excl(path_extension.0, path_extension.1);
            pos_next.y = align_even_up(pos_next.y - d as i32);
        } else if iteration > 0 {
            pos_next.y = align_even_up(pos_next.y - delta);

            // probe between the two rows, excluding the door rows themselves,
            // so the entrance and exit do not count as collisions
            let lo: i32 = if pos_from.y < pos_to.y {
                pos_from.y
            } else {
                pos_to.y
            } + 1;
            let hi: i32 = if pos_from.y > pos_to.y {
                pos_from.y
            } else {
                pos_to.y
            } - 1;
            let p1 = inv.apply(Vector { x: pos_from.x, y: lo });
            let p2 = inv.apply(Vector { x: pos_from.x, y: hi });

            if intersects(p1, p2, rect_to, rect_from) {
                proof {
                    assert(path@ =~= path@ + Seq::<Vector<i8>>::empty());
                }
                return Some(false);
            } else if pos_next.x == pos_to.x && pos_next.y == pos_to.y {
                proof {
                    assert(path@ =~= path@ + Seq::<Vector<i8>>::empty());
                }
                return Some(true);
            }
        }
        proof {
            assert(target == fnw_turn(
                pos_from,
                pos_next,
                pos_to,
                *rect_from,
                *rect_to,
                inv,
                iteration as int,
                path_extension,
                rng.state@,
            ));
        }

        let rot_delta: i32 = pos_from.x - pos_to.x;
        let next_rot: Rot = if rot_delta == 0 {
            if rng.gen_usize_excl(0, 1) == 0 {
                Rot::R270
            } else {
                Rot::R90
            }
        } else if rot_delta < 0 {
            Rot::R270
        } else {
            Rot::R90
        };

        let mut retry: u8 = 0;
        proof {
            assert(target == fnw_retry(
                pos_next,
                pos_to,
                *rect_from,
                *rect_to,
                inv,
                next_rot,
                iteration as int,
                0,
                path_extension,
                rng.state@,
            ));
        }
        loop
            invariant
                iteration <= 10,
                path_extension.0 < path_extension.1,
                0 <= retry <= 5,
                pt_bounded(pos_to, wp_bound(iteration as int)),
                pt_even(pos_to),
                pt_even(pos_next),
                -wp_bound(iteration as int) <= pos_next.x <= wp_bound(iteration as int),
                -wp_bound(iteration as int) - 256 * (retry as int + 1) <= pos_next.y <= wp_bound(
                    iteration as int,
                ) + 1,
                forall|k: int| 0 <= k < path@.len() ==> wp_ok(#[trigger] path@[k]),
                path@.len() >= old(path)@.len(),
                path@.subrange(0, old(path)@.len() as int) == old(path)@,
                target == fnw_spec(
                    pos_from,
                    pos_to,
                    *rect_from,
                    *rect_to,
                    inv,
                    iteration as int,
                    path_extension,
                    st_f,
                ),
                target == corridor_search(
                    pos_from,
                    pos_to,
                    *rect_from,
                    *rect_to,
                    inv,
                    iteration as int,
                    path_extension,
                    st_f,
                ),
                st_f == old(rng).state@,
                ({
                    let rem = fnw_retry(
                        pos_next,
                        pos_to,
                        *rect_from,
                        *rect_to,
                        inv,
                        next_rot,
                        iteration as int,
                        retry as int,
                        path_extension,
                        rng.state@,
                    );
                    &&& target.0 == path@.subrange(old(path)@.len() as int, path@.len() as int)
                        + rem.0
                    &&& target.1 == rem.1
                    &&& target.2 == rem.2
                }),
            decreases 6 - retry,
        {
            proof {
                assert(path@ =~= path@ + Seq::<Vector<i8>>::empty());
                assert(path@.subrange(old(path)@.len() as int, path@.len() as int)
                    =~= path@.subrange(old(path)@.len() as int, path@.len() as int)
                    + Seq::<Vector<i8>>::empty());
            }
            let ghost pre_path = path@;
            let ghost pre_st = rng.state@;
            let ghost so_far = pre_path.subrange(old(path)@.len() as int, pre_path.len() as int);
            let res = Connection::find_next_waypoint(
                path,
                next_rot.apply(pos_next),
                next_rot.apply(pos_to),
                rect_from,
                rect_to,
                inv.compose(next_rot.inverse()),
                iteration + 1,
                path_extension,
                rng,
            );
            let ghost sub = fnw_spec(
                rot32(next_rot, pos_next),
                rot32(next_rot, pos_to),
                *rect_from,
                *rect_to,
                inv.compose_spec(next_rot.inverse_spec()),
                iteration as int + 1,
                path_extension,
                pre_st,
            );
            proof {
                reveal(corridor_search);
                assert(path@ == pre_path + sub.0);
                assert(pre_path =~= old(path)@ + so_far);
            }

            match res {
                Some(true) => {
                    let world = inv.apply(pos_next);
                    let pos = Vector {
                        x: Connection::clamp_even(world.x),
                        y: Connection::clamp_even(world.y),
                    };
                    path.push(pos);
                    proof {
                        assert(path@.subrange(0, old(path)@.len() as int) == old(path)@);
                        assert(path@ =~= old(path)@ + (so_far + sub.0.push(pos)));
                        assert(target.0 == so_far + sub.0.push(pos));
                        assert(path@ == old(path)@ + target.0);
                    }
                    return Some(true);
                },
                Some(false) => {
                    let d = rng.gen_u8_excl(path_extension.0, path_extension.1);
                    pos_next.y = align_even_up(pos_next.y - d as i32);
                    proof {
                        if retry as int + 1 > 5 {
                            assert(target.0 == so_far + sub.0);
                            assert(target.1 is None);
                            assert(target.2 == rng.state@);
                            assert(path@ =~= old(path)@ + (so_far + sub.0));
                        } else {
                            assert(target.0 == (so_far + sub.0) + fnw_retry(
                                pos_next,
                                pos_to,
                                *rect_from,
                                *rect_to,
                                inv,
                                next_rot,
                                iteration as int,
                                retry as int + 1,
                                path_extension,
                                rng.state@,
                            ).0);
                            assert(path@.subrange(old(path)@.len() as int, path@.len() as int)
                                =~= so_far + sub.0);
                        }
                    }
                },
                None => {
                    proof {
                        assert(target.0 == so_far + sub.0);
                        assert(path@ =~= old(path)@ + (so_far + sub.0));
                    }
                    return None;
                },
            }

            retry += 1;

            if retry > 5 {
                return None;
            }
        }
    }

    /// Routes a corridor from the origin door to the destination door in a
    /// rotated frame where the door's wall faces north. Returns the interior
    /// turn points, innermost first, and whether the search reached the
    /// destination.
    fn find_path(
        from_pos: Vector<i8>,
        from_rect: &Rectangle,
        from_dir: Direction,
        to_pos: Vector<i8>,
        to_rect: &Rectangle,
        path_extension: (u8, u8),
        rng: &mut RandStream,
    ) -> (r: (Vec<Vector<i8>>, bool))
        requires
            path_extension.0 < path_extension.1,
            COORD_MIN <= from_pos.x <= COORD_MAX,
            COORD_MIN <= from_pos.y <= COORD_MAX,
            COORD_MIN <= to_pos.x <= COORD_MAX,
            COORD_MIN <= to_pos.y <= COORD_MAX,
            from_pos.x % 2 == 0,
            from_pos.y % 2 == 0,
            to_pos.x % 2 == 0,
            to_pos.y % 2 == 0,
        ensures
            forall|k: int| 0 <= k < r.0@.len() ==> wp_ok(#[trigger] r.0@[k]),
            ({
                let f = find_path_spec(
                    from_pos,
                    *from_rect,
                    from_dir,
                    to_pos,
                    *to_rect,
                    path_extension,
                    old(rng).state@,
                );
                &&& r.0@ == f.0
                &&& r.1 == f.1
                &&& final(rng).state@ == f.2
            }),
    {
        let rot = match from_dir {
            Direction::North => Rot::R0,
            Direction::South => Rot::R180,
            Direction::East => Rot::R270,
            Direction::West => Rot::R90,
        };
        let pf = rot.apply(Vector { x: from_pos.x as i32, y: from_pos.y as i32 });
        let pt = rot.apply(Vector { x: to_pos.x as i32, y: to_pos.y as i32 });

        let mut path: Vec<Vector<i8>> = Vec::new();
        let res = Connection::find_next_waypoint(
            &mut path,
            pf,
            pt,
            from_rect,
            to_rect,
            rot.inverse(),
            0,
            path_extension,
            rng,
        );

        let ok = match res {
            Some(true) => true,
            _ => false,
        };
        proof {
            assert(path@ =~= Seq::<Vector<i8>>::empty() + path@);
        }
        (path, ok)
    }

    /// Materializes this connection's corridor path once: picks a door on
    /// each endpoint room, routes between them, and stores the waypoints from
    /// the destination door through the turn points to the origin door. A
    /// path that is already present is never recomputed. When either room is
    /// too small to hold a door, no door wall is admissible, or the search
    /// exhausts its budget, the path stays empty and the connection is
    /// reported unrouted.
    pub fn make_path(
        &mut self,
        rng: &mut RandStream,
        path_extension: (u8, u8),
        from_rect: &Rectangle,
        to_rect: &Rectangle,
    ) -> (routed: bool)
        requires
            aligned_room(*from_rect),
            aligned_room(*to_rect),
            path_extension.0 < path_extension.1,
            path_extension.1 <= 126,
        ensures
            final(self).from == old(self).from,
            final(self).to == old(self).to,
            old(self).path.waypoints@.len() > 0 ==> *final(self) == *old(self),
            routed == (final(self).path.waypoints@.len() > 0),
            old(self).path.waypoints@.len() == 0 ==> path_ok(
                final(self).path.waypoints@,
                *from_rect,
                *to_rect,
            ),
            final(self).path.waypoints@ == make_path_spec(
                old(self).path.waypoints@,
                *from_rect,
                *to_rect,
                path_extension,
                old(rng).state@,
            ).0,
            final(rng).state@ == make_path_spec(
                old(self).path.waypoints@,
                *from_rect,
                *to_rect,
                path_extension,
                old(rng).state@,
            ).1,
    {
        if self.path.waypoints.len() > 0 {
            return true;
        }

        if !(from_rect.p2.x as i32 - from_rect.p1.x as i32 > 3 && from_rect.p2.y as i32
            - from_rect.p1.y as i32 > 3 && to_rect.p2.x as i32 - to_rect.p1.x as i32 > 3
            && to_rect.p2.y as i32 - to_rect.p1.y as i32 > 3) {
            return false;
        }

        let from_exit = Connection::create_room_exit(rng, from_rect, to_rect, path_extension);
        let to_exit = Connection::create_room_exit(rng, to_rect, from_rect, path_extension);

        match (from_exit, to_exit) {
            (Some((from_pos, from_dir)), Some((to_pos, _to_dir))) => {
                let (mut mid, ok) = Connection::find_path(
                    from_pos,
                    from_rect,
                    from_dir,
                    to_pos,
                    to_rect,
                    path_extension,
                    rng,
                );
                if ok {
                    let ghost mid0 = mid@;
                    self.path.waypoints.push(to_pos);
                    self.path.waypoints.append(&mut mid);
                    self.path.waypoints.push(from_pos);
                    proof {
                        assert(self.path.waypoints@ =~= seq![to_pos] + mid0 + seq![from_pos]);
                    }
                    true
                } else {
                    false
                }
            },
            _ => false,
        }
    }
}

} // verus!
