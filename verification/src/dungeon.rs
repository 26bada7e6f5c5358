use vstd::prelude::*;

use crate::connection::{path_ok, Connection};
use crate::errors::PlacementError;
use crate::math::{
    align_even_down, align_even_down_spec, align_odd_up, align_odd_up_spec, aligned_room,
    overlap_spec, Direction, Rectangle, Vector, COORD_MAX, COORD_MIN,
};
use crate::rng::{lemma_permutation_bound, rng_shuffle, rng_u8_excl, RandStream};
use crate::room::{conn_ids_ok, edge_touches, room_connected_spec, Room};
use crate::tile_map::{painted_corridor, painted_room, Tile, TileMap};

verus! {

/// The grid cell of a door at waypoint `p`, on a grid of width `w` shifted
/// by `(offx, offy)`.
pub open spec fn door_cell(w: int, offx: int, offy: int, p: Vector<i8>) -> int {
    p.x + offx + (p.y + offy) * w
}

/// The grid after the rasterizer has walked the first `k` waypoints of a
/// path: the straight run from each waypoint to the next painted `Corridor`,
/// and the first and last waypoints painted `Door` on top.
pub open spec fn paint_path_upto(
    g: Seq<Tile>,
    w: int,
    offx: int,
    offy: int,
    ws: Seq<Vector<i8>>,
    k: int,
) -> Seq<Tile>
    decreases k,
{
    if k <= 0 {
        g
    } else {
        let prev = paint_path_upto(g, w, offx, offy, ws, k - 1);
        let i = k - 1;
        if i == ws.len() - 1 {
            prev.update(door_cell(w, offx, offy, ws[i]), Tile::Door)
        } else {
            let c = painted_corridor(prev, w, offx, offy, ws[i], ws[i + 1]);
            if i == 0 {
                c.update(door_cell(w, offx, offy, ws[0]), Tile::Door)
            } else {
                c
            }
        }
    }
}

pub open spec fn paint_path(g: Seq<Tile>, w: int, offx: int, offy: int, ws: Seq<Vector<i8>>) -> Seq<
    Tile,
> {
    paint_path_upto(g, w, offx, offy, ws, ws.len() as int)
}

/// The grid after painting the paths of the first `k` connections a room
/// records.
pub open spec fn paint_conns_upto(
    g: Seq<Tile>,
    w: int,
    offx: int,
    offy: int,
    conns: Seq<Connection>,
    cids: Seq<usize>,
    k: int,
) -> Seq<Tile>
    decreases k,
{
    if k <= 0 {
        g
    } else {
        let prev = paint_conns_upto(g, w, offx, offy, conns, cids, k - 1);
        paint_path(prev, w, offx, offy, conns[cids[k - 1] as int].path.waypoints@)
    }
}

/// The grid after painting the first `k` rooms, each followed by the paths
/// of every connection it records; a connection shared by two rooms is thus
/// painted twice, which restores its doors after the second room's floor.
pub open spec fn paint_rooms_upto(
    g: Seq<Tile>,
    w: int,
    offx: int,
    offy: int,
    rooms: Seq<Room>,
    conns: Seq<Connection>,
    k: int,
) -> Seq<Tile>
    decreases k,
{
    if k <= 0 {
        g
    } else {
        let prev = paint_rooms_upto(g, w, offx, offy, rooms, conns, k - 1);
        let fl = painted_room(prev, w, offx, offy, rooms[k - 1].rect);
        paint_conns_upto(
            fl,
            w,
            offx,
            offy,
            conns,
            rooms[k - 1].connections@,
            rooms[k - 1].connections@.len() as int,
        )
    }
}

/// A running bounding box `(min x, min y, max x, max y)` extended by one low
/// point and one high point.
pub open spec fn fold_pt(acc: (int, int, int, int), lo: Vector<i8>, hi: Vector<i8>) -> (
    int,
    int,
    int,
    int,
) {
    (
        vstd::math::min(acc.0, lo.x as int),
        vstd::math::min(acc.1, lo.y as int),
        vstd::math::max(acc.2, hi.x as int),
        vstd::math::max(acc.3, hi.y as int),
    )
}

/// The bounding box after folding the first `m` waypoints of a path.
pub open spec fn fold_wps(ws: Seq<Vector<i8>>, acc: (int, int, int, int), m: int) -> (
    int,
    int,
    int,
    int,
)
    decreases m,
{
    if m <= 0 {
        acc
    } else {
        fold_pt(fold_wps(ws, acc, m - 1), ws[m - 1], ws[m - 1])
    }
}

/// The bounding box after folding the waypoints of the first `c` connections.
pub open spec fn fold_conns(conns: Seq<Connection>, acc: (int, int, int, int), c: int) -> (
    int,
    int,
    int,
    int,
)
    decreases c,
{
    if c <= 0 {
        acc
    } else {
        let prev = fold_conns(conns, acc, c - 1);
        fold_wps(
            conns[c - 1].path.waypoints@,
            prev,
            conns[c - 1].path.waypoints@.len() as int,
        )
    }
}

/// The bounding box after folding the corners of the first `i` rooms.
pub open spec fn fold_rooms(rooms: Seq<Room>, acc: (int, int, int, int), i: int) -> (
    int,
    int,
    int,
    int,
)
    decreases i,
{
    if i <= 0 {
        acc
    } else {
        fold_pt(fold_rooms(rooms, acc, i - 1), rooms[i - 1].rect.p1, rooms[i - 1].rect.p2)
    }
}

/// The bounding box of a dungeon's rooms and waypoints, starting from the
/// origin, exactly as the rasterizer computes it.
pub open spec fn dungeon_bounds(d: Dungeon) -> (int, int, int, int) {
    fold_conns(
        d.connections@,
        fold_rooms(d.rooms@, (0int, 0int, 0int, 0int), d.rooms@.len() as int),
        d.connections@.len() as int,
    )
}

/// The value `v` occurs as an x coordinate of the dungeon: of a cell of some
/// room (rooms span `p1.x` to `p2.x - 1`) or of some waypoint.
pub open spec fn coord_x(d: Dungeon, v: int) -> bool {
    ||| exists|j: int|
        0 <= j < d.rooms@.len() && ((#[trigger] d.rooms@[j]).rect.p1.x == v || d.rooms@[j].rect.p2.x
            - 1 == v)
    ||| exists|c: int, m: int|
        0 <= c < d.connections@.len() && 0 <= m < d.connections@[c].path.waypoints@.len() && (
        #[trigger] d.connections@[c].path.waypoints@[m]).x == v
}

/// The value `v` occurs as a y coordinate of the dungeon.
pub open spec fn coord_y(d: Dungeon, v: int) -> bool {
    ||| exists|j: int|
        0 <= j < d.rooms@.len() && ((#[trigger] d.rooms@[j]).rect.p1.y == v || d.rooms@[j].rect.p2.y
            - 1 == v)
    ||| exists|c: int, m: int|
        0 <= c < d.connections@.len() && 0 <= m < d.connections@[c].path.waypoints@.len() && (
        #[trigger] d.connections@[c].path.waypoints@[m]).y == v
}

/// The whole rasterized grid of a dungeon, painted room by room in id order
/// onto an all-`Empty` grid.
pub open spec fn rasterized_grid(d: Dungeon, w: int, h: int, offx: int, offy: int) -> Seq<Tile> {
    paint_rooms_upto(
        Seq::new((w * h) as nat, |i: int| Tile::Empty),
        w,
        offx,
        offy,
        d.rooms@,
        d.connections@,
        d.rooms@.len() as int,
    )
}

/// The direction tried at a shuffled slot.
pub open spec fn dir_of(d: usize) -> Direction {
    if d == 0 {
        Direction::North
    } else if d == 1 {
        Direction::South
    } else if d == 2 {
        Direction::East
    } else {
        Direction::West
    }
}

/// The endpoint pairs of a connection list, in order.
pub open spec fn edges_of(conns: Seq<Connection>) -> Seq<(usize, usize)> {
    conns.map_values(|c: Connection| (c.from, c.to))
}

/// The waypoint sequences of a connection list, in order.
pub open spec fn wss_of(conns: Seq<Connection>) -> Seq<Seq<Vector<i8>>> {
    conns.map_values(|c: Connection| c.path.waypoints@)
}

/// The connection-id lists of a room list, in order.
pub open spec fn lists_of(rooms: Seq<Room>) -> Seq<Seq<usize>> {
    rooms.map_values(|r: Room| r.connections@)
}

/// The paths and stream state after one room's first `k` recorded
/// connections have been walked: each visit materializes the path that is
/// still empty and leaves a present one alone.
pub open spec fn mp_conns(
    rects: Seq<Rectangle>,
    edges: Seq<(usize, usize)>,
    cids: Seq<usize>,
    ext: (u8, u8),
    wss: Seq<Seq<Vector<i8>>>,
    st: nat,
    k: int,
) -> (Seq<Seq<Vector<i8>>>, nat)
    decreases k,
{
    if k <= 0 {
        (wss, st)
    } else {
        let p = mp_conns(rects, edges, cids, ext, wss, st, k - 1);
        let cid = cids[k - 1] as int;
        let e = edges[cid];
        let m = crate::connection::make_path_spec(
            p.0[cid],
            rects[e.0 as int],
            rects[e.1 as int],
            ext,
            p.1,
        );
        (p.0.update(cid, m.0), m.1)
    }
}

/// The paths and stream state after the first `i` rooms' connection lists
/// have been walked in id order.
pub open spec fn mp_rooms(
    rects: Seq<Rectangle>,
    edges: Seq<(usize, usize)>,
    lists: Seq<Seq<usize>>,
    ext: (u8, u8),
    wss: Seq<Seq<Vector<i8>>>,
    st: nat,
    i: int,
) -> (Seq<Seq<Vector<i8>>>, nat)
    decreases i,
{
    if i <= 0 {
        (wss, st)
    } else {
        let p = mp_rooms(rects, edges, lists, ext, wss, st, i - 1);
        mp_conns(rects, edges, lists[i - 1], ext, p.0, p.1, lists[i - 1].len() as int)
    }
}

/// The rectangles of a room list, in order.
pub open spec fn rects_of(rooms: Seq<Room>) -> Seq<Rectangle> {
    rooms.map_values(|r: Room| r.rect)
}

/// Some existing rectangle overlaps the candidate.
pub open spec fn overlap_any(rects: Seq<Rectangle>, c: Rectangle) -> bool {
    exists|j: int| 0 <= j < rects.len() && overlap_spec(#[trigger] rects[j], c)
}

/// The candidate rectangle beside `rect` toward `direction`, as a function of
/// the stream state the spacing is drawn from.
pub open spec fn get_rectangle_spec(
    state: nat,
    spacing: (u8, u8),
    rect: Rectangle,
    size: Vector<i8>,
    direction: Direction,
) -> Option<Rectangle> {
    let sp = rng_u8_excl(state, spacing.0, spacing.1).0 as int;
    let moved = match direction {
        Direction::North => (rect.p1.x as int, rect.p2.y + sp),
        Direction::East => (rect.p2.x + sp, rect.p1.y as int),
        Direction::South => (rect.p1.x as int, rect.p1.y - (sp + size.y)),
        Direction::West => (rect.p1.x - (sp + size.x), rect.p1.y as int),
    };
    let p1x = align_even_down_spec(moved.0);
    let p1y = align_even_down_spec(moved.1);
    let p2x = align_odd_up_spec(p1x + size.x);
    let p2y = align_odd_up_spec(p1y + size.y);
    if p1x >= COORD_MIN && p2x <= COORD_MAX && p1y >= COORD_MIN && p2y <= COORD_MAX {
        Some(
            Rectangle {
                p1: Vector { x: p1x as i8, y: p1y as i8 },
                p2: Vector { x: p2x as i8, y: p2y as i8 },
            },
        )
    } else {
        None
    }
}

/// The collision search from slot `b` of the shuffled directions around one
/// room.
pub open spec fn fes_dirs(
    rects: Seq<Rectangle>,
    spacing: (u8, u8),
    state: nat,
    size: Vector<i8>,
    rect: Rectangle,
    dirs: Seq<usize>,
    b: int,
) -> Option<Rectangle>
    decreases dirs.len() - b,
{
    if b < 0 || b >= dirs.len() {
        None
    } else {
        match get_rectangle_spec(state, spacing, rect, size, dir_of(dirs[b])) {
            Some(c) => if !overlap_any(rects, c) {
                Some(c)
            } else {
                fes_dirs(rects, spacing, state, size, rect, dirs, b + 1)
            },
            None => fes_dirs(rects, spacing, state, size, rect, dirs, b + 1),
        }
    }
}

/// The collision search from slot `a` of the shuffled room order; `st` is
/// the throwaway stream that deals the direction shuffles, while `state` is
/// the dungeon stream every spacing is drawn from.
pub open spec fn fes_rooms(
    rects: Seq<Rectangle>,
    spacing: (u8, u8),
    state: nat,
    size: Vector<i8>,
    indices: Seq<usize>,
    a: int,
    st: nat,
) -> Option<Rectangle>
    decreases indices.len() - a,
{
    if a < 0 || a >= indices.len() {
        None
    } else {
        let sh = rng_shuffle(st, seq![0usize, 1usize, 2usize, 3usize]);
        match fes_dirs(rects, spacing, state, size, rects[indices[a] as int], sh.0, 0) {
            Some(c) => Some(c),
            None => fes_rooms(rects, spacing, state, size, indices, a + 1, sh.1),
        }
    }
}

/// What the placement search finds, as a function of the dungeon stream
/// state: the room order and the direction orders are dealt by a clone of
/// the stream, and each spacing by a fresh clone.
pub open spec fn find_empty_space_spec(
    rects: Seq<Rectangle>,
    spacing: (u8, u8),
    state: nat,
    size: Vector<i8>,
) -> Option<Rectangle> {
    let idseq = Seq::new(rects.len(), |i: int| i as usize);
    let sh = rng_shuffle(state, idseq);
    fes_rooms(rects, spacing, state, size, sh.0, 0, sh.1)
}

/// The mutable build context: sizing parameters, the random stream, and the
/// arena of rooms and connections being grown.
pub struct Dungeon {
    pub min_size: Vector<u8>,
    pub max_size: Vector<u8>,
    pub rooms_spacing: (u8, u8),
    pub path_extension: (u8, u8),
    pub rooms: Vec<Room>,
    pub connections: Vec<Connection>,
    pub rng: RandStream,
}

/// Widths and heights a placed room may take for a drawn size `s`: the size
/// itself, or one more when parity alignment widens it.
pub open spec fn aligned_extent(s: int) -> int {
    s + (if s % 2 == 0 {
        1int
    } else {
        0int
    })
}

impl Dungeon {
    /// The configured parameters admit every draw the generator makes.
    pub open spec fn params_wf(self) -> bool {
        &&& self.min_size.x <= self.max_size.x
        &&& self.min_size.y <= self.max_size.y
        &&& self.max_size.x <= 127
        &&& self.max_size.y <= 127
        &&& self.rooms_spacing.0 < self.rooms_spacing.1
        &&& self.path_extension.0 < self.path_extension.1
        &&& self.path_extension.1 <= 126
    }

    /// Every room is aligned and inside the coordinate domain, ids equal
    /// positions, and no two rooms overlap.
    pub open spec fn rooms_wf(self) -> bool {
        &&& forall|i: int|
            0 <= i < self.rooms@.len() ==> aligned_room(#[trigger] self.rooms@[i].rect)
        &&& forall|i: int| 0 <= i < self.rooms@.len() ==> (#[trigger] self.rooms@[i].id) == i
        &&& forall|i: int, j: int|
            0 <= i < j < self.rooms@.len() ==> !overlap_spec(
                (#[trigger] self.rooms@[i]).rect,
                (#[trigger] self.rooms@[j]).rect,
            )
    }

    /// Every connection joins two distinct existing rooms and is recorded on
    /// both of them; every id a room records points at a connection that has
    /// the room as an endpoint.
    pub open spec fn graph_wf(self) -> bool {
        &&& conn_ids_ok(self.rooms@, self.connections@.len() as int)
        &&& forall|c: int|
            0 <= c < self.connections@.len() ==> {
                let conn = #[trigger] self.connections@[c];
                &&& conn.from < self.rooms@.len()
                &&& conn.to < self.rooms@.len()
                &&& conn.from != conn.to
                &&& self.rooms@[conn.from as int].connections@.contains(c as usize)
                &&& self.rooms@[conn.to as int].connections@.contains(c as usize)
            }
        &&& forall|i: int, k: int|
            0 <= i < self.rooms@.len() && 0 <= k < self.rooms@[i].connections@.len()
                ==> edge_touches(
                self.connections@[#[trigger] self.rooms@[i].connections@[k] as int],
                i as usize,
            )
    }

    /// Every computed path runs door to door between its endpoint rooms and
    /// stays inside the coordinate domain.
    pub open spec fn paths_wf(self) -> bool {
        forall|c: int|
            0 <= c < self.connections@.len() ==> {
                let conn = #[trigger] self.connections@[c];
                path_ok(
                    conn.path.waypoints@,
                    self.rooms@[conn.from as int].rect,
                    self.rooms@[conn.to as int].rect,
                )
            }
    }

    pub open spec fn wf(self) -> bool {
        &&& self.params_wf()
        &&& self.rooms_wf()
        &&& self.graph_wf()
        &&& self.paths_wf()
    }

    /// True when some existing room overlaps the candidate rectangle.
    fn overlap_test(&self, rect: &Rectangle) -> (r: bool)
        ensures
            r == exists|j: int|
                0 <= j < self.rooms@.len() && overlap_spec(
                    (#[trigger] self.rooms@[j]).rect,
                    *rect,
                ),
    {
        let n = self.rooms.len();
        let mut i: usize = 0;
        while i < n
            invariant
                n == self.rooms@.len(),
                0 <= i <= n,
                forall|j: int|
                    0 <= j < i ==> !overlap_spec((#[trigger] self.rooms@[j]).rect, *rect),
            decreases n - i,
        {
            if self.rooms[i].rect.overlap(rect) {
                return true;
            }
            i += 1;
        }
        false
    }

    /// A candidate rectangle of the drawn `size` placed beside `rect` toward
    /// `direction`, separated by a spacing drawn from a throwaway clone of
    /// the stream, grid-aligned so the lower corner is even and the upper
    /// corner odd on both axes. `None` when the candidate would leave the
    /// coordinate domain.
    fn get_rectangle(&self, rect: Rectangle, size: Vector<i8>, direction: Direction) -> (r: Option<
        Rectangle,
    >)
        requires
            self.rooms_spacing.0 < self.rooms_spacing.1,
            0 <= size.x <= 127,
            0 <= size.y <= 127,
            COORD_MIN <= rect.p1.x <= COORD_MAX,
            COORD_MIN <= rect.p1.y <= COORD_MAX,
            COORD_MIN <= rect.p2.x <= COORD_MAX,
            COORD_MIN <= rect.p2.y <= COORD_MAX,
        ensures
            r == get_rectangle_spec(self.rng.state@, self.rooms_spacing, rect, size, direction),
            r matches Some(c) ==> {
                &&& aligned_room(c)
                &&& c.p2.x - c.p1.x == aligned_extent(size.x as int)
                &&& c.p2.y - c.p1.y == aligned_extent(size.y as int)
            },
    {
        let mut throwaway = self.rng.clone_stream();
        let spacing: i32 = throwaway.gen_u8_excl(self.rooms_spacing.0, self.rooms_spacing.1)
            as i32;

        let mut p1x: i32 = rect.p1.x as i32;
        let mut p1y: i32 = rect.p1.y as i32;

        match direction {
            Direction::North => p1y = rect.p2.y as i32 + spacing,
            Direction::East => p1x = rect.p2.x as i32 + spacing,
            Direction::South => p1y = p1y - (spacing + size.y as i32),
            Direction::West => p1x = p1x - (spacing + size.x as i32),
        }

        p1x = align_even_down(p1x);
        p1y = align_even_down(p1y);

        let p2x = align_odd_up(p1x + size.x as i32);
        let p2y = align_odd_up(p1y + size.y as i32);

        if p1x >= COORD_MIN as i32 && p2x <= COORD_MAX as i32 && p1y >= COORD_MIN as i32 && p2y
            <= COORD_MAX as i32 {
            Some(
                Rectangle {
                    p1: Vector { x: p1x as i8, y: p1y as i8 },
                    p2: Vector { x: p2x as i8, y: p2y as i8 },
                },
            )
        } else {
            None
        }
    }

    /// Searches for a free spot for a room of the drawn `size`: walks the
    /// existing rooms in a shuffled order, tries the four directions around
    /// each in a shuffled order, and accepts the first candidate that
    /// overlaps no room. The search draws from a clone of the stream, so a
    /// failed search does not advance it.
    pub fn find_empty_space(&self, size: Vector<i8>) -> (r: Result<Rectangle, PlacementError>)
        requires
            self.rooms_spacing.0 < self.rooms_spacing.1,
            0 <= size.x <= 127,
            0 <= size.y <= 127,
            forall|i: int|
                0 <= i < self.rooms@.len() ==> aligned_room(#[trigger] self.rooms@[i].rect),
        ensures
            r matches Ok(c) ==> find_empty_space_spec(
                rects_of(self.rooms@),
                self.rooms_spacing,
                self.rng.state@,
                size,
            ) == Some(c),
            r is Err ==> find_empty_space_spec(
                rects_of(self.rooms@),
                self.rooms_spacing,
                self.rng.state@,
                size,
            ) is None,
            r matches Err(e) ==> e.details@ == "Cannot find a valid position"@,
            r matches Ok(c) ==> {
                &&& aligned_room(c)
                &&& c.p2.x - c.p1.x == aligned_extent(size.x as int)
                &&& c.p2.y - c.p1.y == aligned_extent(size.y as int)
                &&& forall|j: int|
                    0 <= j < self.rooms@.len() ==> !overlap_spec(
                        (#[trigger] self.rooms@[j]).rect,
                        c,
                    )
            },
    {
        let ghost target = find_empty_space_spec(
            rects_of(self.rooms@),
            self.rooms_spacing,
            self.rng.state@,
            size,
        );
        let mut rng = self.rng.clone_stream();
        let n = self.rooms.len();
        let mut indices: Vec<usize> = Vec::new();
        let mut i: usize = 0;
        while i < n
            invariant
                0 <= i <= n,
                indices@.len() == i,
                forall|k: int| 0 <= k < i ==> (#[trigger] indices@[k]) == k,
            decreases n - i,
        {
            indices.push(i);
            i += 1;
        }
        proof {
            assert(indices@ =~= Seq::new(n as nat, |k: int| k as usize));
        }

        let ghost pre_indices = indices@;
        rng.shuffle_usizes(&mut indices);
        proof {
            assert forall|k: int| 0 <= k < pre_indices.len() implies (#[trigger] pre_indices[k])
                < n as int by {}
            lemma_permutation_bound(pre_indices, indices@, n as int);
        }

        let mut a: usize = 0;
        while a < indices.len()
            invariant
                indices@.len() <= n,
                n == self.rooms@.len(),
                0 <= a <= indices@.len(),
                forall|k: int| 0 <= k < indices@.len() ==> (#[trigger] indices@[k]) < n,
                self.rooms_spacing.0 < self.rooms_spacing.1,
                0 <= size.x <= 127,
                0 <= size.y <= 127,
                forall|i2: int|
                    0 <= i2 < self.rooms@.len() ==> aligned_room(#[trigger] self.rooms@[i2].rect),
                target == find_empty_space_spec(
                    rects_of(self.rooms@),
                    self.rooms_spacing,
                    self.rng.state@,
                    size,
                ),
                target == fes_rooms(
                    rects_of(self.rooms@),
                    self.rooms_spacing,
                    self.rng.state@,
                    size,
                    indices@,
                    a as int,
                    rng.state@,
                ),
            decreases indices@.len() - a,
        {
            let index = indices[a];
            let room_rect = self.rooms[index].rect;
            let mut dirs: Vec<usize> = Vec::new();
            dirs.push(0);
            dirs.push(1);
            dirs.push(2);
            dirs.push(3);
            proof {
                assert(dirs@ =~= seq![0usize, 1usize, 2usize, 3usize]);
            }
            let ghost pre_dirs = dirs@;
            let ghost st_a = rng.state@;
            rng.shuffle_usizes(&mut dirs);
            proof {
                assert forall|k: int| 0 <= k < pre_dirs.len() implies (#[trigger] pre_dirs[k])
                    < 4 by {}
                lemma_permutation_bound(pre_dirs, dirs@, 4);
            }

            let mut b: usize = 0;
            while b < dirs.len()
                invariant
                    0 <= b <= dirs@.len(),
                    forall|k: int| 0 <= k < dirs@.len() ==> (#[trigger] dirs@[k]) < 4,
                    n == self.rooms@.len(),
                    self.rooms_spacing.0 < self.rooms_spacing.1,
                    0 <= size.x <= 127,
                    0 <= size.y <= 127,
                    aligned_room(room_rect),
                    0 <= a < indices@.len(),
                    indices@[a as int] < n,
                    room_rect == self.rooms@[indices@[a as int] as int].rect,
                    target == find_empty_space_spec(
                        rects_of(self.rooms@),
                        self.rooms_spacing,
                        self.rng.state@,
                        size,
                    ),
                    target == fes_rooms(
                        rects_of(self.rooms@),
                        self.rooms_spacing,
                        self.rng.state@,
                        size,
                        indices@,
                        a as int,
                        st_a,
                    ),
                    dirs@ == rng_shuffle(st_a, seq![0usize, 1usize, 2usize, 3usize]).0,
                    rng.state@ == rng_shuffle(st_a, seq![0usize, 1usize, 2usize, 3usize]).1,
                    fes_dirs(
                        rects_of(self.rooms@),
                        self.rooms_spacing,
                        self.rng.state@,
                        size,
                        room_rect,
                        dirs@,
                        0,
                    ) == fes_dirs(
                        rects_of(self.rooms@),
                        self.rooms_spacing,
                        self.rng.state@,
                        size,
                        room_rect,
                        dirs@,
                        b as int,
                    ),
                decreases dirs@.len() - b,
            {
                let direction = match dirs[b] {
                    0 => Direction::North,
                    1 => Direction::South,
                    2 => Direction::East,
                    _ => Direction::West,
                };
                proof {
                    assert(direction == dir_of(dirs@[b as int]));
                }

                if let Some(rect) = self.get_rectangle(room_rect, size, direction) {
                    let ov = self.overlap_test(&rect);
                    proof {
                        assert(rects_of(self.rooms@).len() == self.rooms@.len());
                        if ov {
                            let j = choose|j: int|
                                0 <= j < self.rooms@.len() && overlap_spec(
                                    (#[trigger] self.rooms@[j]).rect,
                                    rect,
                                );
                            assert(rects_of(self.rooms@)[j] == self.rooms@[j].rect);
                            assert(overlap_any(rects_of(self.rooms@), rect));
                        } else {
                            if overlap_any(rects_of(self.rooms@), rect) {
                                let j = choose|j: int|
                                    0 <= j < rects_of(self.rooms@).len() && overlap_spec(
                                        #[trigger] rects_of(self.rooms@)[j],
                                        rect,
                                    );
                                assert(rects_of(self.rooms@)[j] == self.rooms@[j].rect);
                                assert(false);
                            }
                        }
                    }
                    if !ov {
                        proof {
                            assert(fes_dirs(
                                rects_of(self.rooms@),
                                self.rooms_spacing,
                                self.rng.state@,
                                size,
                                room_rect,
                                dirs@,
                                b as int,
                            ) == Some(rect));
                            assert(fes_dirs(
                                rects_of(self.rooms@),
                                self.rooms_spacing,
                                self.rng.state@,
                                size,
                                room_rect,
                                dirs@,
                                0,
                            ) == Some(rect));
                            assert(fes_rooms(
                                rects_of(self.rooms@),
                                self.rooms_spacing,
                                self.rng.state@,
                                size,
                                indices@,
                                a as int,
                                st_a,
                            ) == Some(rect));
                            assert(target == Some(rect));
                        }
                        return Ok(rect);
                    }
                }
                b += 1;
            }
            proof {
                assert(fes_dirs(
                    rects_of(self.rooms@),
                    self.rooms_spacing,
                    self.rng.state@,
                    size,
                    room_rect,
                    dirs@,
                    dirs@.len() as int,
                ) is None);
                let sh = rng_shuffle(st_a, seq![0usize, 1usize, 2usize, 3usize]);
                assert(dirs@ == sh.0 && rng.state@ == sh.1);
                assert(fes_rooms(
                    rects_of(self.rooms@),
                    self.rooms_spacing,
                    self.rng.state@,
                    size,
                    indices@,
                    a as int,
                    st_a,
                ) == fes_rooms(
                    rects_of(self.rooms@),
                    self.rooms_spacing,
                    self.rng.state@,
                    size,
                    indices@,
                    a as int + 1,
                    rng.state@,
                ));
            }
            a += 1;
        }

        Err(PlacementError::new("Cannot find a valid position"))
    }

    /// Appends a freshly placed room; its id is its position in the list.
    pub fn add_room(&mut self, id: usize, rect: Rectangle)
        requires
            old(self).wf(),
            id == old(self).rooms@.len(),
            aligned_room(rect),
            forall|j: int|
                0 <= j < old(self).rooms@.len() ==> !overlap_spec(
                    (#[trigger] old(self).rooms@[j]).rect,
                    rect,
                ),
        ensures
            final(self).wf(),
            final(self).rooms@.len() == old(self).rooms@.len() + 1,
            final(self).rooms@.subrange(0, old(self).rooms@.len() as int) == old(self).rooms@,
            final(self).rooms@.last().id == id,
            final(self).rooms@.last().rect == rect,
            final(self).rooms@.last().connections@.len() == 0,
            final(self).connections@ == old(self).connections@,
            final(self).rng == old(self).rng,
            final(self).min_size == old(self).min_size,
            final(self).max_size == old(self).max_size,
            final(self).rooms_spacing == old(self).rooms_spacing,
            final(self).path_extension == old(self).path_extension,
    {
        let room = Room { id, rect, connections: Vec::new() };
        self.rooms.push(room);
        proof {
            assert forall|i: int, j: int|
                0 <= i < j < self.rooms@.len() implies !overlap_spec(
                (#[trigger] self.rooms@[i]).rect,
                (#[trigger] self.rooms@[j]).rect,
            ) by {
                if j == self.rooms@.len() - 1 {
                    assert(self.rooms@[i] == old(self).rooms@[i]);
                }
            }
        }
    }

    /// Records the undirected edge between two rooms; a duplicate in either
    /// order is a no-op. After a successful call each room reports the
    /// connection to the other.
    #[verifier::rlimit(60)]
    pub fn connect_rooms(&mut self, first: usize, second: usize) -> (r: bool)
        requires
            old(self).wf(),
            first < old(self).rooms@.len(),
            second < old(self).rooms@.len(),
            first != second,
        ensures
            final(self).wf(),
            r == !(room_connected_spec(
                old(self).rooms@[first as int],
                second,
                old(self).connections@,
            ) || room_connected_spec(
                old(self).rooms@[second as int],
                first,
                old(self).connections@,
            )),
            !r ==> final(self).rooms@ == old(self).rooms@ && final(self).connections@ == old(self).connections@,
            r ==> final(self).connections@.len() == old(self).connections@.len() + 1,
            r ==> final(self).connections@.subrange(0, old(self).connections@.len() as int) == old(self).connections@,
            r ==> room_connected_spec(
                final(self).rooms@[first as int],
                second,
                final(self).connections@,
            ) && room_connected_spec(
                final(self).rooms@[second as int],
                first,
                final(self).connections@,
            ),
            final(self).rooms@.len() == old(self).rooms@.len(),
            forall|i: int|
                0 <= i < old(self).rooms@.len() ==> (#[trigger] final(self).rooms@[i]).rect == old(self).rooms@[i].rect && final(self).rooms@[i].id == old(self).rooms@[i].id,
            r ==> final(self).connections@.last().from == first && final(self).connections@.last().to == second && final(self).connections@.last().path.waypoints@.len() == 0,
            r ==> final(self).rooms@[first as int].connections@ == old(self).rooms@[first as int].connections@.push(old(self).connections@.len() as usize),
            r ==> final(self).rooms@[second as int].connections@ == old(self).rooms@[second as int].connections@.push(old(self).connections@.len() as usize),
            forall|i: int|
                0 <= i < old(self).rooms@.len() && i != first && i != second ==> (
                #[trigger] final(self).rooms@[i]) == old(self).rooms@[i],
            final(self).rng == old(self).rng,
            final(self).min_size == old(self).min_size,
            final(self).max_size == old(self).max_size,
            final(self).rooms_spacing == old(self).rooms_spacing,
            final(self).path_extension == old(self).path_extension,
    {
        let r = Room::connect(&mut self.rooms, &mut self.connections, first, second);
        proof {
            if r {
                let ghost nc = old(self).connections@.len() as int;
                assert forall|c: int| 0 <= c < self.connections@.len() implies {
                    let conn = #[trigger] self.connections@[c];
                    &&& conn.from < self.rooms@.len()
                    &&& conn.to < self.rooms@.len()
                    &&& conn.from != conn.to
                    &&& self.rooms@[conn.from as int].connections@.contains(c as usize)
                    &&& self.rooms@[conn.to as int].connections@.contains(c as usize)
                } by {
                    if c < nc {
                        assert(self.connections@[c] == old(self).connections@[c]);
                        let conn = self.connections@[c];
                        assert(old(self).rooms@[conn.from as int].connections@.contains(
                            c as usize,
                        ));
                        assert(old(self).rooms@[conn.to as int].connections@.contains(c as usize));
                        assert(self.rooms@[conn.from as int].connections@.contains(c as usize))
                            by {
                            let k = choose|k: int|
                                0 <= k < old(self).rooms@[conn.from as int].connections@.len()
                                    && old(self).rooms@[conn.from as int].connections@[k] == c;
                            assert(self.rooms@[conn.from as int].connections@[k] == c);
                        }
                        assert(self.rooms@[conn.to as int].connections@.contains(c as usize)) by {
                            let k = choose|k: int|
                                0 <= k < old(self).rooms@[conn.to as int].connections@.len() && old(self).rooms@[conn.to as int].connections@[k] == c;
                            assert(self.rooms@[conn.to as int].connections@[k] == c);
                        }
                    } else {
                        assert(self.rooms@[first as int].connections@.last() == nc as usize);
                        assert(self.rooms@[first as int].connections@.contains(nc as usize));
                        assert(self.rooms@[second as int].connections@.last() == nc as usize);
                        assert(self.rooms@[second as int].connections@.contains(nc as usize));
                    }
                }
                assert forall|c: int| 0 <= c < self.connections@.len() implies {
                    let conn = #[trigger] self.connections@[c];
                    path_ok(
                        conn.path.waypoints@,
                        self.rooms@[conn.from as int].rect,
                        self.rooms@[conn.to as int].rect,
                    )
                } by {
                    if c < nc {
                        assert(self.connections@[c] == old(self).connections@[c]);
                    }
                }
            }
        }
        r
    }
}

impl Dungeon {
    /// Extends a running bounding box by one low point and one high point.
    fn get_min_max(
        &self,
        min: Vector<i8>,
        max: Vector<i8>,
        p1: &Vector<i8>,
        p2: &Vector<i8>,
    ) -> (r: (Vector<i8>, Vector<i8>))
        ensures
            r.0.x == (if p1.x < min.x { p1.x } else { min.x }),
            r.0.y == (if p1.y < min.y { p1.y } else { min.y }),
            r.1.x == (if p2.x > max.x { p2.x } else { max.x }),
            r.1.y == (if p2.y > max.y { p2.y } else { max.y }),
    {
        let rmin = Vector {
            x: if p1.x < min.x {
                p1.x
            } else {
                min.x
            },
            y: if p1.y < min.y {
                p1.y
            } else {
                min.y
            },
        };
        let rmax = Vector {
            x: if p2.x > max.x {
                p2.x
            } else {
                max.x
            },
            y: if p2.y > max.y {
                p2.y
            } else {
                max.y
            },
        };
        (rmin, rmax)
    }

    /// Materializes the corridor path of every connection, walking the rooms
    /// in id order and each room's connections in insertion order; a shared
    /// connection is computed at its first visit and left alone afterwards,
    /// except that a visit that finds the path still empty tries again.
    pub fn make_paths(&mut self)
        requires
            old(self).wf(),
        ensures
            final(self).wf(),
            final(self).rooms@ == old(self).rooms@,
            final(self).connections@.len() == old(self).connections@.len(),
            forall|c: int|
                0 <= c < old(self).connections@.len() ==> (#[trigger] final(self).connections@[c]).from == old(self).connections@[c].from && final(self).connections@[c].to == old(self).connections@[c].to,
            forall|c: int|
                0 <= c < old(self).connections@.len() && old(self).connections@[c].path.waypoints@.len()
                    > 0 ==> (#[trigger] final(self).connections@[c]).path.waypoints@ == old(self).connections@[c].path.waypoints@,
            final(self).min_size == old(self).min_size,
            final(self).max_size == old(self).max_size,
            final(self).rooms_spacing == old(self).rooms_spacing,
            final(self).path_extension == old(self).path_extension,
            ({
                let mp = mp_rooms(
                    rects_of(old(self).rooms@),
                    edges_of(old(self).connections@),
                    lists_of(old(self).rooms@),
                    old(self).path_extension,
                    wss_of(old(self).connections@),
                    old(self).rng.state@,
                    old(self).rooms@.len() as int,
                );
                &&& wss_of(final(self).connections@) == mp.0
                &&& final(self).rng.state@ == mp.1
            }),
    {
        let nr = self.rooms.len();
        let mut i: usize = 0;
        while i < nr
            invariant
                self.wf(),
                nr == self.rooms@.len(),
                0 <= i <= nr,
                self.rooms@ == old(self).rooms@,
                self.connections@.len() == old(self).connections@.len(),
                forall|c: int|
                    0 <= c < old(self).connections@.len() ==> (#[trigger] self.connections@[c]).from
                        == old(self).connections@[c].from && self.connections@[c].to == old(self).connections@[c].to,
                forall|c: int|
                    0 <= c < old(self).connections@.len() && old(self).connections@[c].path.waypoints@.len()
                        > 0 ==> (#[trigger] self.connections@[c]).path.waypoints@ == old(self).connections@[c].path.waypoints@,
                self.min_size == old(self).min_size,
                self.max_size == old(self).max_size,
                self.rooms_spacing == old(self).rooms_spacing,
                self.path_extension == old(self).path_extension,
                edges_of(self.connections@) == edges_of(old(self).connections@),
                ({
                    let p = mp_rooms(
                        rects_of(old(self).rooms@),
                        edges_of(old(self).connections@),
                        lists_of(old(self).rooms@),
                        old(self).path_extension,
                        wss_of(old(self).connections@),
                        old(self).rng.state@,
                        i as int,
                    );
                    &&& wss_of(self.connections@) == p.0
                    &&& self.rng.state@ == p.1
                }),
            decreases nr - i,
        {
            let nk = self.rooms[i].connections.len();
            let mut k: usize = 0;
            while k < nk
                invariant
                    self.wf(),
                    nr == self.rooms@.len(),
                    0 <= i < nr,
                    nk == self.rooms@[i as int].connections@.len(),
                    0 <= k <= nk,
                    self.rooms@ == old(self).rooms@,
                    self.connections@.len() == old(self).connections@.len(),
                    forall|c: int|
                        0 <= c < old(self).connections@.len() ==> (#[trigger] self.connections@[c]).from
                            == old(self).connections@[c].from && self.connections@[c].to == old(self).connections@[c].to,
                    forall|c: int|
                        0 <= c < old(self).connections@.len() && old(self).connections@[c].path.waypoints@.len()
                            > 0 ==> (#[trigger] self.connections@[c]).path.waypoints@ == old(self).connections@[c].path.waypoints@,
                    self.min_size == old(self).min_size,
                    self.max_size == old(self).max_size,
                    self.rooms_spacing == old(self).rooms_spacing,
                    self.path_extension == old(self).path_extension,
                    edges_of(self.connections@) == edges_of(old(self).connections@),
                    ({
                        let p = mp_rooms(
                            rects_of(old(self).rooms@),
                            edges_of(old(self).connections@),
                            lists_of(old(self).rooms@),
                            old(self).path_extension,
                            wss_of(old(self).connections@),
                            old(self).rng.state@,
                            i as int,
                        );
                        let q = mp_conns(
                            rects_of(old(self).rooms@),
                            edges_of(old(self).connections@),
                            lists_of(old(self).rooms@)[i as int],
                            old(self).path_extension,
                            p.0,
                            p.1,
                            k as int,
                        );
                        &&& wss_of(self.connections@) == q.0
                        &&& self.rng.state@ == q.1
                    }),
                decreases nk - k,
            {
                let cid = self.rooms[i].connections[k];
                let from_id = self.connections[cid].from;
                let to_id = self.connections[cid].to;
                let frect = self.rooms[from_id].rect;
                let trect = self.rooms[to_id].rect;
                let ext = self.path_extension;
                let ghost pre = *self;

                let _ = self.connections[cid].make_path(&mut self.rng, ext, &frect, &trect);

                proof {
                    assert(wss_of(self.connections@) =~= wss_of(pre.connections@).update(
                        cid as int,
                        self.connections@[cid as int].path.waypoints@,
                    ));
                    assert(edges_of(self.connections@) =~= edges_of(pre.connections@));
                    assert(lists_of(old(self).rooms@)[i as int] == self.rooms@[i as int].connections@);
                    assert(rects_of(old(self).rooms@)[from_id as int] == frect);
                    assert(rects_of(old(self).rooms@)[to_id as int] == trect);
                    assert(edges_of(old(self).connections@)[cid as int] == (from_id, to_id));
                    assert forall|c: int| 0 <= c < self.connections@.len() implies {
                        let conn = #[trigger] self.connections@[c];
                        path_ok(
                            conn.path.waypoints@,
                            self.rooms@[conn.from as int].rect,
                            self.rooms@[conn.to as int].rect,
                        )
                    } by {
                        if c != cid {
                            assert(self.connections@[c] == pre.connections@[c]);
                        } else {
                            if pre.connections@[c].path.waypoints@.len() > 0 {
                                assert(self.connections@[c] == pre.connections@[c]);
                            }
                        }
                    }
                    assert forall|c: int| 0 <= c < self.connections@.len() implies {
                        let conn = #[trigger] self.connections@[c];
                        &&& conn.from < self.rooms@.len()
                        &&& conn.to < self.rooms@.len()
                        &&& conn.from != conn.to
                        &&& self.rooms@[conn.from as int].connections@.contains(c as usize)
                        &&& self.rooms@[conn.to as int].connections@.contains(c as usize)
                    } by {
                        if c != cid {
                            assert(self.connections@[c] == pre.connections@[c]);
                        } else {
                            assert(pre.rooms@[self.connections@[c].from as int].connections@.contains(
                                c as usize,
                            ));
                        }
                    }
                }
                k += 1;
            }
            i += 1;
        }
    }

    /// Paints one connection's path onto the map exactly as the rasterizer
    /// walks it: the run between consecutive waypoints as corridor, the first
    /// and last waypoints as doors.
    fn paint_path_onto(map: &mut TileMap, ws: &Vec<Vector<i8>>)
        requires
            old(map).wf(),
            old(map).width > 0,
            forall|m: int|
                0 <= m < ws@.len() ==> {
                    &&& 0 <= (#[trigger] ws@[m]).x + old(map).offset.x < old(map).width
                    &&& 0 <= ws@[m].y + old(map).offset.y < old(map).height
                },
        ensures
            final(map).wf(),
            final(map).width == old(map).width,
            final(map).height == old(map).height,
            final(map).offset == old(map).offset,
            final(map).grid@ == paint_path(
                old(map).grid@,
                old(map).width as int,
                old(map).offset.x as int,
                old(map).offset.y as int,
                ws@,
            ),
    {
        let n = ws.len();
        let ghost g0 = map.grid@;
        let mut m: usize = 0;
        while m < n
            invariant
                map.wf(),
                map.width == old(map).width,
                map.height == old(map).height,
                map.offset == old(map).offset,
                map.width > 0,
                n == ws@.len(),
                0 <= m <= n,
                forall|j: int|
                    0 <= j < ws@.len() ==> {
                        &&& 0 <= (#[trigger] ws@[j]).x + map.offset.x < map.width
                        &&& 0 <= ws@[j].y + map.offset.y < map.height
                    },
                g0 == old(map).grid@,
                map.grid@ == paint_path_upto(
                    g0,
                    map.width as int,
                    map.offset.x as int,
                    map.offset.y as int,
                    ws@,
                    m as int,
                ),
            decreases n - m,
        {
            if m == n - 1 {
                map.add_door(&ws[m]);
            } else {
                let a = ws[m];
                let b = ws[m + 1];
                map.add_corridor(&a, &b);
                if m == 0 {
                    map.add_door(&a);
                }
            }
            m += 1;
        }
    }

    /// Rasterizes the dungeon: computes the bounding box of every room and
    /// every waypoint, sizes a grid that covers it, paints every room's
    /// interior as floor, and paints every connection's path from each of its
    /// rooms, corridors between waypoints with doors at both ends.
    pub fn to_map(&self) -> (r: TileMap)
        requires
            self.wf(),
        ensures
            r.wf(),
            r.width >= 1,
            r.height >= 1,
            forall|j: int|
                0 <= j < self.rooms@.len() ==> {
                    &&& 0 <= (#[trigger] self.rooms@[j]).rect.p1.x + r.offset.x
                    &&& self.rooms@[j].rect.p2.x + r.offset.x <= r.width
                    &&& 0 <= self.rooms@[j].rect.p1.y + r.offset.y
                    &&& self.rooms@[j].rect.p2.y + r.offset.y <= r.height
                },
            forall|c: int, m: int|
                0 <= c < self.connections@.len() && 0 <= m
                    < self.connections@[c].path.waypoints@.len() ==> {
                    let wp = #[trigger] self.connections@[c].path.waypoints@[m];
                    &&& 0 <= wp.x + r.offset.x < r.width
                    &&& 0 <= wp.y + r.offset.y < r.height
                },
            r.width as int == dungeon_bounds(*self).2 - dungeon_bounds(*self).0 + 1,
            r.height as int == dungeon_bounds(*self).3 - dungeon_bounds(*self).1 + 1,
            r.offset.x as int == -dungeon_bounds(*self).0,
            r.offset.y as int == -dungeon_bounds(*self).1,
            r.grid@ == rasterized_grid(
                *self,
                r.width as int,
                r.height as int,
                r.offset.x as int,
                r.offset.y as int,
            ),
            forall|v1: int, v2: int|
                coord_x(*self, v1) && coord_x(*self, v2) ==> r.width as int >= 1 + v1 - v2,
            forall|v1: int, v2: int|
                coord_y(*self, v1) && coord_y(*self, v2) ==> r.height as int >= 1 + v1 - v2,
    {
        let mut min = Vector { x: 0i8, y: 0i8 };
        let mut max = Vector { x: 0i8, y: 0i8 };

        let nr = self.rooms.len();
        let mut i: usize = 0;
        while i < nr
            invariant
                self.wf(),
                nr == self.rooms@.len(),
                0 <= i <= nr,
                COORD_MIN <= min.x <= 0,
                COORD_MIN <= min.y <= 0,
                0 <= max.x <= COORD_MAX,
                0 <= max.y <= COORD_MAX,
                forall|j: int|
                    0 <= j < i ==> {
                        &&& min.x <= (#[trigger] self.rooms@[j]).rect.p1.x
                        &&& self.rooms@[j].rect.p2.x <= max.x
                        &&& min.y <= self.rooms@[j].rect.p1.y
                        &&& self.rooms@[j].rect.p2.y <= max.y
                    },
                (min.x as int, min.y as int, max.x as int, max.y as int) == fold_rooms(
                    self.rooms@,
                    (0int, 0int, 0int, 0int),
                    i as int,
                ),
            decreases nr - i,
        {
            let rect = self.rooms[i].rect;
            let (nmin, nmax) = self.get_min_max(min, max, &rect.p1, &rect.p2);
            min = nmin;
            max = nmax;
            i += 1;
        }

        let nc = self.connections.len();
        let mut c: usize = 0;
        while c < nc
            invariant
                self.wf(),
                nc == self.connections@.len(),
                0 <= c <= nc,
                COORD_MIN <= min.x <= 0,
                COORD_MIN <= min.y <= 0,
                0 <= max.x <= COORD_MAX,
                0 <= max.y <= COORD_MAX,
                forall|j: int|
                    0 <= j < self.rooms@.len() ==> {
                        &&& min.x <= (#[trigger] self.rooms@[j]).rect.p1.x
                        &&& self.rooms@[j].rect.p2.x <= max.x
                        &&& min.y <= self.rooms@[j].rect.p1.y
                        &&& self.rooms@[j].rect.p2.y <= max.y
                    },
                forall|c2: int, m: int|
                    0 <= c2 < c && 0 <= m < self.connections@[c2].path.waypoints@.len() ==> {
                        let wp = #[trigger] self.connections@[c2].path.waypoints@[m];
                        &&& min.x <= wp.x <= max.x
                        &&& min.y <= wp.y <= max.y
                    },
                (min.x as int, min.y as int, max.x as int, max.y as int) == fold_conns(
                    self.connections@,
                    fold_rooms(self.rooms@, (0int, 0int, 0int, 0int), self.rooms@.len() as int),
                    c as int,
                ),
            decreases nc - c,
        {
            let nw = self.connections[c].path.waypoints.len();
            let mut m: usize = 0;
            while m < nw
                invariant
                    self.wf(),
                    nc == self.connections@.len(),
                    0 <= c < nc,
                    nw == self.connections@[c as int].path.waypoints@.len(),
                    0 <= m <= nw,
                    COORD_MIN <= min.x <= 0,
                    COORD_MIN <= min.y <= 0,
                    0 <= max.x <= COORD_MAX,
                    0 <= max.y <= COORD_MAX,
                    forall|j: int|
                        0 <= j < self.rooms@.len() ==> {
                            &&& min.x <= (#[trigger] self.rooms@[j]).rect.p1.x
                            &&& self.rooms@[j].rect.p2.x <= max.x
                            &&& min.y <= self.rooms@[j].rect.p1.y
                            &&& self.rooms@[j].rect.p2.y <= max.y
                        },
                    forall|c2: int, m2: int|
                        0 <= c2 < c && 0 <= m2 < self.connections@[c2].path.waypoints@.len() ==> {
                            let wp = #[trigger] self.connections@[c2].path.waypoints@[m2];
                            &&& min.x <= wp.x <= max.x
                            &&& min.y <= wp.y <= max.y
                        },
                    forall|m2: int|
                        0 <= m2 < m ==> {
                            let wp =
                                #[trigger] self.connections@[c as int].path.waypoints@[m2];
                            &&& min.x <= wp.x <= max.x
                            &&& min.y <= wp.y <= max.y
                        },
                    (min.x as int, min.y as int, max.x as int, max.y as int) == fold_wps(
                        self.connections@[c as int].path.waypoints@,
                        fold_conns(
                            self.connections@,
                            fold_rooms(
                                self.rooms@,
                                (0int, 0int, 0int, 0int),
                                self.rooms@.len() as int,
                            ),
                            c as int,
                        ),
                        m as int,
                    ),
                decreases nw - m,
            {
                let wp = self.connections[c].path.waypoints[m];
                let (nmin, nmax) = self.get_min_max(min, max, &wp, &wp);
                min = nmin;
                max = nmax;
                m += 1;
            }
            c += 1;
        }

        let mut map = TileMap::build();
        map.resize(&min, &max);

        let ghost g0 = map.grid@;
        let mut i2: usize = 0;
        while i2 < nr
            invariant
                self.wf(),
                nr == self.rooms@.len(),
                0 <= i2 <= nr,
                map.wf(),
                map.width as int == max.x - min.x + 1,
                map.height as int == max.y - min.y + 1,
                map.offset.x as int == -(min.x as int),
                map.offset.y as int == -(min.y as int),
                COORD_MIN <= min.x <= 0,
                COORD_MIN <= min.y <= 0,
                0 <= max.x <= COORD_MAX,
                0 <= max.y <= COORD_MAX,
                forall|j: int|
                    0 <= j < self.rooms@.len() ==> {
                        &&& min.x <= (#[trigger] self.rooms@[j]).rect.p1.x
                        &&& self.rooms@[j].rect.p2.x <= max.x
                        &&& min.y <= self.rooms@[j].rect.p1.y
                        &&& self.rooms@[j].rect.p2.y <= max.y
                    },
                forall|c2: int, m2: int|
                    0 <= c2 < self.connections@.len() && 0 <= m2
                        < self.connections@[c2].path.waypoints@.len() ==> {
                        let wp = #[trigger] self.connections@[c2].path.waypoints@[m2];
                        &&& min.x <= wp.x <= max.x
                        &&& min.y <= wp.y <= max.y
                    },
                g0 == Seq::new(
                    (map.width as int * map.height as int) as nat,
                    |idx: int| Tile::Empty,
                ),
                map.grid@ == paint_rooms_upto(
                    g0,
                    map.width as int,
                    map.offset.x as int,
                    map.offset.y as int,
                    self.rooms@,
                    self.connections@,
                    i2 as int,
                ),
            decreases nr - i2,
        {
            let rect = self.rooms[i2].rect;
            map.add_room(&rect);

            let nk = self.rooms[i2].connections.len();
            let ghost g1 = map.grid@;
            let mut k: usize = 0;
            while k < nk
                invariant
                    self.wf(),
                    nr == self.rooms@.len(),
                    0 <= i2 < nr,
                    nk == self.rooms@[i2 as int].connections@.len(),
                    0 <= k <= nk,
                    map.wf(),
                    map.width as int == max.x - min.x + 1,
                    map.height as int == max.y - min.y + 1,
                    map.offset.x as int == -(min.x as int),
                    map.offset.y as int == -(min.y as int),
                    COORD_MIN <= min.x <= 0,
                    COORD_MIN <= min.y <= 0,
                    0 <= max.x <= COORD_MAX,
                    0 <= max.y <= COORD_MAX,
                    forall|c2: int, m2: int|
                        0 <= c2 < self.connections@.len() && 0 <= m2
                            < self.connections@[c2].path.waypoints@.len() ==> {
                            let wp = #[trigger] self.connections@[c2].path.waypoints@[m2];
                            &&& min.x <= wp.x <= max.x
                            &&& min.y <= wp.y <= max.y
                        },
                    g1 == painted_room(
                        paint_rooms_upto(
                            g0,
                            map.width as int,
                            map.offset.x as int,
                            map.offset.y as int,
                            self.rooms@,
                            self.connections@,
                            i2 as int,
                        ),
                        map.width as int,
                        map.offset.x as int,
                        map.offset.y as int,
                        self.rooms@[i2 as int].rect,
                    ),
                    map.grid@ == paint_conns_upto(
                        g1,
                        map.width as int,
                        map.offset.x as int,
                        map.offset.y as int,
                        self.connections@,
                        self.rooms@[i2 as int].connections@,
                        k as int,
                    ),
                decreases nk - k,
            {
                let cid = self.rooms[i2].connections[k];
                Dungeon::paint_path_onto(&mut map, &self.connections[cid].path.waypoints);
                k += 1;
            }
            i2 += 1;
        }

        proof {
            assert forall|v: int| coord_x(*self, v) implies min.x <= v <= max.x by {
                if exists|j: int|
                    0 <= j < self.rooms@.len() && ((#[trigger] self.rooms@[j]).rect.p1.x == v
                        || self.rooms@[j].rect.p2.x - 1 == v) {
                    let j = choose|j: int|
                        0 <= j < self.rooms@.len() && ((#[trigger] self.rooms@[j]).rect.p1.x == v
                            || self.rooms@[j].rect.p2.x - 1 == v);
                    assert(aligned_room(self.rooms@[j].rect));
                } else {
                    let (c2, m2) = choose|c2: int, m2: int|
                        0 <= c2 < self.connections@.len() && 0 <= m2
                            < self.connections@[c2].path.waypoints@.len() && (
                        #[trigger] self.connections@[c2].path.waypoints@[m2]).x == v;
                    assert(min.x <= self.connections@[c2].path.waypoints@[m2].x <= max.x);
                }
            }
            assert forall|v: int| coord_y(*self, v) implies min.y <= v <= max.y by {
                if exists|j: int|
                    0 <= j < self.rooms@.len() && ((#[trigger] self.rooms@[j]).rect.p1.y == v
                        || self.rooms@[j].rect.p2.y - 1 == v) {
                    let j = choose|j: int|
                        0 <= j < self.rooms@.len() && ((#[trigger] self.rooms@[j]).rect.p1.y == v
                            || self.rooms@[j].rect.p2.y - 1 == v);
                    assert(aligned_room(self.rooms@[j].rect));
                } else {
                    let (c2, m2) = choose|c2: int, m2: int|
                        0 <= c2 < self.connections@.len() && 0 <= m2
                            < self.connections@[c2].path.waypoints@.len() && (
                        #[trigger] self.connections@[c2].path.waypoints@[m2]).y == v;
                    assert(min.y <= self.connections@[c2].path.waypoints@[m2].y <= max.y);
                }
            }
        }

        map
    }
}

/// Law: no two distinct rooms of a well-formed dungeon overlap.
pub proof fn lemma_rooms_disjoint(d: Dungeon, i: int, j: int)
    requires
        d.wf(),
        0 <= i < d.rooms@.len(),
        0 <= j < d.rooms@.len(),
        i != j,
    ensures
        !overlap_spec(d.rooms@[i].rect, d.rooms@[j].rect),
{
}

/// Law: an edge of a well-formed dungeon is reported by both of its endpoint
/// rooms, each seeing the other as connected.
pub proof fn lemma_graph_symmetric(d: Dungeon, c: int)
    requires
        d.wf(),
        0 <= c < d.connections@.len(),
    ensures
        room_connected_spec(
            d.rooms@[d.connections@[c].from as int],
            d.connections@[c].to,
            d.connections@,
        ),
        room_connected_spec(
            d.rooms@[d.connections@[c].to as int],
            d.connections@[c].from,
            d.connections@,
        ),
{
    let conn = d.connections@[c];
    assert(d.rooms@[conn.from as int].connections@.contains(c as usize));
    let k1 = choose|k: int|
        0 <= k < d.rooms@[conn.from as int].connections@.len()
            && d.rooms@[conn.from as int].connections@[k] == c as usize;
    assert(edge_touches(
        d.connections@[d.rooms@[conn.from as int].connections@[k1] as int],
        conn.to,
    ));
    assert(d.rooms@[conn.to as int].connections@.contains(c as usize));
    let k2 = choose|k: int|
        0 <= k < d.rooms@[conn.to as int].connections@.len()
            && d.rooms@[conn.to as int].connections@[k] == c as usize;
    assert(edge_touches(
        d.connections@[d.rooms@[conn.to as int].connections@[k2] as int],
        conn.from,
    ));
}

/// Law: a non-empty path of a well-formed dungeon has at least two waypoints;
/// the first is a door on the wall of the destination room and the last a
/// door on the wall of the origin room, neither in a room's interior nor at a
/// corner.
pub proof fn lemma_path_endpoints(d: Dungeon, c: int)
    requires
        d.wf(),
        0 <= c < d.connections@.len(),
        d.connections@[c].path.waypoints@.len() > 0,
    ensures
        d.connections@[c].path.waypoints@.len() >= 2,
        crate::connection::door_spec(
            d.connections@[c].path.waypoints@.first(),
            d.rooms@[d.connections@[c].to as int].rect,
        ),
        crate::connection::door_spec(
            d.connections@[c].path.waypoints@.last(),
            d.rooms@[d.connections@[c].from as int].rect,
        ),
{
}

} // verus!
