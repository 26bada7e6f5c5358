use vstd::prelude::*;

use crate::dungeon::{
    aligned_extent, dungeon_bounds, edges_of, find_empty_space_spec, lists_of, mp_rooms,
    rasterized_grid, rects_of, wss_of, Dungeon,
};
use crate::math::{align_odd_up, align_odd_up_spec, aligned_room, Rectangle, Vector};
use crate::rng::{
    rng_seed_state, rng_u8_incl, rng_usize_excl, rng_usize_incl, rng_weighted, sum_weights,
    RandStream,
};
use crate::connection::Connection;
use crate::room::{edge_touches, room_connected_spec, Room};
use crate::tile_map::TileMap;

verus! {

/// Rooms `a` and `b` share an edge: some pair has both as endpoints.
pub open spec fn edge_connected(edges: Seq<(usize, usize)>, a: usize, b: usize) -> bool {
    exists|k: int|
        0 <= k < edges.len() && ((#[trigger] edges[k]).0 == a || edges[k].1 == a) && (edges[k].0
            == b || edges[k].1 == b)
}

/// The edges after drawing `remaining` connection targets for room `id`:
/// each target comes uniformly from the rooms before `id`, and a drawn pair
/// that is already connected is dropped.
pub open spec fn targets_spec(
    edges: Seq<(usize, usize)>,
    id: usize,
    remaining: nat,
    st: nat,
) -> (Seq<(usize, usize)>, nat)
    decreases remaining,
{
    if remaining == 0 {
        (edges, st)
    } else {
        let dr = rng_usize_excl(st, 0, id);
        let edges2 = if edge_connected(edges, id, dr.0) {
            edges
        } else {
            edges.push((id, dr.0))
        };
        targets_spec(edges2, id, (remaining - 1) as nat, dr.1)
    }
}

/// The edges and stream state after the whole connection step for a placed
/// room `id`: a weighted connection count, clamped to the rooms before `id`,
/// then that many uniformly drawn targets.
pub open spec fn conn_step(edges: Seq<(usize, usize)>, id: usize, st: nat) -> (
    Seq<(usize, usize)>,
    nat,
) {
    let w = rng_weighted(st, seq![100u32, 5u32, 2u32, 1u32]);
    let choice = (w.0 + 1) as usize;
    let cap = if id < choice {
        id
    } else {
        choice
    };
    let c = rng_usize_incl(w.1, 1, cap);
    targets_spec(edges, id, c.0 as nat, c.1)
}

/// The room layout and edges after `remaining` build attempts: each attempt
/// places a room and, for a placed room after the anchor, draws its
/// connections. `pst` is the placement stream, `cst` the connection stream.
pub open spec fn build_loop(
    min: Vector<u8>,
    max: Vector<u8>,
    spacing: (u8, u8),
    rects: Seq<Rectangle>,
    edges: Seq<(usize, usize)>,
    pst: nat,
    cst: nat,
    remaining: nat,
) -> (Seq<Rectangle>, Seq<(usize, usize)>, nat, nat)
    decreases remaining,
{
    if remaining == 0 {
        (rects, edges, pst, cst)
    } else {
        let id = rects.len() as usize;
        let step = place_step(min, max, spacing, rects, pst);
        match step.0 {
            Some(c) => {
                let rects2 = rects.push(c);
                if id >= 1 {
                    let e2 = conn_step(edges, id, cst);
                    build_loop(min, max, spacing, rects2, e2.0, step.1, e2.1, (remaining - 1) as nat)
                } else {
                    build_loop(min, max, spacing, rects2, edges, step.1, cst, (remaining - 1) as nat)
                }
            },
            None => build_loop(min, max, spacing, rects, edges, step.1, cst, (remaining - 1) as nat),
        }
    }
}

/// Running one more build attempt extends the layout and edges the previous
/// attempts produced by one step.
pub proof fn lemma_build_loop_step(
    min: Vector<u8>,
    max: Vector<u8>,
    spacing: (u8, u8),
    rects: Seq<Rectangle>,
    edges: Seq<(usize, usize)>,
    pst: nat,
    cst: nat,
    n: nat,
)
    ensures
        build_loop(min, max, spacing, rects, edges, pst, cst, (n + 1) as nat) == {
            let p = build_loop(min, max, spacing, rects, edges, pst, cst, n);
            let id = p.0.len() as usize;
            let step = place_step(min, max, spacing, p.0, p.2);
            match step.0 {
                Some(c) => {
                    if id >= 1 {
                        let e2 = conn_step(p.1, id, p.3);
                        (p.0.push(c), e2.0, step.1, e2.1)
                    } else {
                        (p.0.push(c), p.1, step.1, p.3)
                    }
                },
                None => (p.0, p.1, step.1, p.3),
            }
        },
    decreases n,
{
    let id0 = rects.len() as usize;
    let step0 = place_step(min, max, spacing, rects, pst);
    let next = (match step0.0 {
        Some(c) => {
            if id0 >= 1 {
                let e2 = conn_step(edges, id0, cst);
                (rects.push(c), e2.0, step0.1, e2.1)
            } else {
                (rects.push(c), edges, step0.1, cst)
            }
        },
        None => (rects, edges, step0.1, cst),
    });
    assert(build_loop(min, max, spacing, rects, edges, pst, cst, (n + 1) as nat) == build_loop(
        min,
        max,
        spacing,
        next.0,
        next.1,
        next.2,
        next.3,
        n,
    ));
    if n == 0 {
        assert(build_loop(min, max, spacing, next.0, next.1, next.2, next.3, 0) == next);
        assert(build_loop(min, max, spacing, rects, edges, pst, cst, 0) == (
            rects,
            edges,
            pst,
            cst,
        ));
    } else {
        assert(build_loop(min, max, spacing, rects, edges, pst, cst, n) == build_loop(
            min,
            max,
            spacing,
            next.0,
            next.1,
            next.2,
            next.3,
            (n - 1) as nat,
        ));
        lemma_build_loop_step(
            min,
            max,
            spacing,
            next.0,
            next.1,
            next.2,
            next.3,
            (n - 1) as nat,
        );
    }
}

/// when some recorded edge joins them.
pub proof fn lemma_connected_iff_edge(d: Dungeon, a: usize, b: usize)
    requires
        d.graph_wf(),
        a < d.rooms@.len(),
        b < d.rooms@.len(),
    ensures
        (room_connected_spec(d.rooms@[a as int], b, d.connections@) || room_connected_spec(
            d.rooms@[b as int],
            a,
            d.connections@,
        )) == edge_connected(edges_of(d.connections@), a, b),
{
    let conns = d.connections@;
    let edges = edges_of(conns);
    assert(edges.len() == conns.len());
    if room_connected_spec(d.rooms@[a as int], b, conns) {
        let k = choose|k: int|
            0 <= k < d.rooms@[a as int].connections@.len() && edge_touches(
                conns[d.rooms@[a as int].connections@[k] as int],
                b,
            );
        let c = d.rooms@[a as int].connections@[k] as int;
        assert(edge_touches(conns[c], a));
        assert(edges[c] == (conns[c].from, conns[c].to));
        assert(edge_connected(edges, a, b));
    }
    if room_connected_spec(d.rooms@[b as int], a, conns) {
        let k = choose|k: int|
            0 <= k < d.rooms@[b as int].connections@.len() && edge_touches(
                conns[d.rooms@[b as int].connections@[k] as int],
                a,
            );
        let c = d.rooms@[b as int].connections@[k] as int;
        assert(edge_touches(conns[c], b));
        assert(edges[c] == (conns[c].from, conns[c].to));
        assert(edge_connected(edges, a, b));
    }
    if edge_connected(edges, a, b) {
        let k = choose|k: int|
            0 <= k < edges.len() && ((#[trigger] edges[k]).0 == a || edges[k].1 == a) && (
            edges[k].0 == b || edges[k].1 == b);
        assert(edges[k] == (conns[k].from, conns[k].to));
        assert(d.rooms@[conns[k].from as int].connections@.contains(k as usize));
        assert(d.rooms@[conns[k].to as int].connections@.contains(k as usize));
        assert(d.rooms@[a as int].connections@.contains(k as usize));
        let m = choose|m: int|
            0 <= m < d.rooms@[a as int].connections@.len() && d.rooms@[a as int].connections@[m]
                == k as usize;
        assert(edge_touches(conns[d.rooms@[a as int].connections@[m] as int], b));
        assert(room_connected_spec(d.rooms@[a as int], b, conns));
    }
}

/// One placement step over bare rectangles: the rectangle placed (or nothing
/// when the collision search fails) and the stream state the two size draws
/// leave behind.
pub open spec fn place_step(
    min: Vector<u8>,
    max: Vector<u8>,
    spacing: (u8, u8),
    rects: Seq<Rectangle>,
    st: nat,
) -> (Option<Rectangle>, nat) {
    let sx = rng_u8_incl(st, min.x, max.x);
    let sy = rng_u8_incl(sx.1, min.y, max.y);
    let size = Vector { x: sx.0 as i8, y: sy.0 as i8 };
    if rects.len() == 0 {
        (
            Some(
                Rectangle {
                    p1: Vector { x: 0i8, y: 0i8 },
                    p2: Vector {
                        x: align_odd_up_spec(size.x as int) as i8,
                        y: align_odd_up_spec(size.y as int) as i8,
                    },
                },
            ),
            sy.1,
        )
    } else {
        (find_empty_space_spec(rects, spacing, sy.1, size), sy.1)
    }
}

/// What one placement step does, as a function of the dungeon: the rectangle
/// placed (or nothing, when the collision search fails) and the stream state
/// the two size draws leave behind. The anchor room sits at the origin with
/// its upper corner widened to odd coordinates; every other room comes from
/// the collision search, which runs on clones and advances nothing further.
pub open spec fn add_room_spec(d: Dungeon, id: usize) -> (Option<Rectangle>, nat) {
    place_step(d.min_size, d.max_size, d.rooms_spacing, rects_of(d.rooms@), d.rng.state@)
}

/// The room's extent on each axis is a drawn size within the bounds, widened
/// by at most one for parity.
pub open spec fn room_extent_drawn(rect: Rectangle, min: Vector<u8>, max: Vector<u8>) -> bool {
    exists|sx: int, sy: int|
        {
            &&& min.x <= sx <= max.x
            &&& min.y <= sy <= max.y
            &&& rect.p2.x - rect.p1.x == #[trigger] aligned_extent(sx)
            &&& rect.p2.y - rect.p1.y == #[trigger] aligned_extent(sy)
        }
}

/// Room `j` records at least one edge back to an earlier room.
pub open spec fn linked_back(room: Room, j: int, conns: Seq<Connection>) -> bool {
    exists|k: int|
        0 <= k < room.connections@.len() && conns[(#[trigger] room.connections@[k]) as int].from
            == j && conns[room.connections@[k] as int].to < j
}

/// The tile map `r` is the rasterization of the well-formed dungeon `d`,
/// grown with the given parameters: at most `rooms_count` rooms, the anchor
/// room at the origin, and dimensions, offset and grid exactly as the
/// rasterizer computes them from `d`.
pub open spec fn generated_from(
    r: TileMap,
    d: Dungeon,
    rooms_count: usize,
    min: Vector<u8>,
    max: Vector<u8>,
    spacing: (u8, u8),
    extension: (u8, u8),
) -> bool {
    &&& d.wf()
    &&& d.min_size == min
    &&& d.max_size == max
    &&& d.rooms_spacing == spacing
    &&& d.path_extension == extension
    &&& d.rooms@.len() <= rooms_count
    &&& rooms_count > 0 ==> d.rooms@.len() >= 1
    &&& d.rooms@.len() >= 1 ==> d.rooms@[0].rect.p1 == (Vector { x: 0i8, y: 0i8 })
    &&& forall|j: int|
        0 <= j < d.rooms@.len() ==> room_extent_drawn((#[trigger] d.rooms@[j]).rect, min, max)
    &&& forall|j: int|
        1 <= j < d.rooms@.len() ==> linked_back(#[trigger] d.rooms@[j], j, d.connections@)
    &&& r.width as int == dungeon_bounds(d).2 - dungeon_bounds(d).0 + 1
    &&& r.height as int == dungeon_bounds(d).3 - dungeon_bounds(d).1 + 1
    &&& r.offset.x as int == -dungeon_bounds(d).0
    &&& r.offset.y as int == -dungeon_bounds(d).1
    &&& r.grid@ == rasterized_grid(
        d,
        r.width as int,
        r.height as int,
        r.offset.x as int,
        r.offset.y as int,
    )
}

/// Draws a room size and places one room. The first room is the anchor: it
/// sits at the origin, its upper corner widened to odd coordinates, and is
/// never overlap-tested. Every later room goes through the collision search;
/// when that search finds no free spot the room is skipped, no id is
/// assigned, and `false` comes back.
pub fn add_room(dungeon: &mut Dungeon, id: usize) -> (placed: bool)
    requires
        old(dungeon).wf(),
        id == old(dungeon).rooms@.len(),
    ensures
        final(dungeon).wf(),
        final(dungeon).connections@ == old(dungeon).connections@,
        final(dungeon).min_size == old(dungeon).min_size,
        final(dungeon).max_size == old(dungeon).max_size,
        final(dungeon).rooms_spacing == old(dungeon).rooms_spacing,
        final(dungeon).path_extension == old(dungeon).path_extension,
        placed == (add_room_spec(*old(dungeon), id).0 is Some),
        final(dungeon).rng.state@ == add_room_spec(*old(dungeon), id).1,
        placed ==> final(dungeon).rooms@.last().rect == add_room_spec(
            *old(dungeon),
            id,
        ).0.unwrap(),
        placed ==> final(dungeon).rooms@.last().id == id,
        placed ==> final(dungeon).rooms@.last().connections@.len() == 0,
        !placed ==> final(dungeon).rooms@ == old(dungeon).rooms@,
        placed ==> final(dungeon).rooms@.len() == old(dungeon).rooms@.len() + 1,
        placed ==> final(dungeon).rooms@.subrange(0, old(dungeon).rooms@.len() as int) == old(
            dungeon,
        ).rooms@,
        placed ==> {
            let rect = final(dungeon).rooms@.last().rect;
            exists|sx: int, sy: int|
                {
                    &&& old(dungeon).min_size.x <= sx <= old(dungeon).max_size.x
                    &&& old(dungeon).min_size.y <= sy <= old(dungeon).max_size.y
                    &&& rect.p2.x - rect.p1.x == aligned_extent(sx)
                    &&& rect.p2.y - rect.p1.y == aligned_extent(sy)
                }
        },
{
    let sx = dungeon.rng.gen_u8_incl(dungeon.min_size.x, dungeon.max_size.x);
    let sy = dungeon.rng.gen_u8_incl(dungeon.min_size.y, dungeon.max_size.y);
    let size = Vector { x: sx as i8, y: sy as i8 };

    let rect = if id == 0 {
        let p2x = align_odd_up(size.x as i32);
        let p2y = align_odd_up(size.y as i32);
        Rectangle {
            p1: Vector { x: 0, y: 0 },
            p2: Vector { x: p2x as i8, y: p2y as i8 },
        }
    } else {
        match dungeon.find_empty_space(size) {
            Ok(rect) => rect,
            Err(_error) => {
                return false;
            },
        }
    };

    proof {
        assert(aligned_room(rect));
        assert(rect.p2.x - rect.p1.x == aligned_extent(size.x as int));
        assert(rect.p2.y - rect.p1.y == aligned_extent(size.y as int));
    }
    dungeon.add_room(id, rect);
    true
}

/// Runs the full pipeline: seeds the stream, places the rooms one at a time,
/// draws a weighted connection count and uniformly drawn targets for each
/// placed room after the anchor, records the deduplicated edges, materializes
/// every corridor path, and rasterizes everything into a tile grid.
///
/// Connection draws come from a clone of the root stream taken before any
/// placement, so placement draws and connection draws do not perturb each
/// other.
/// After path materialization the rooms, edge endpoints and list structure
/// are untouched, and a connection set whose paths all started empty started
/// from the all-empty path table.
proof fn lemma_paths_phase_frame(pre: Dungeon, d: Dungeon)
    requires
        d.rooms@ == pre.rooms@,
        d.connections@.len() == pre.connections@.len(),
        forall|c: int|
            0 <= c < pre.connections@.len() ==> (#[trigger] d.connections@[c]).from
                == pre.connections@[c].from && d.connections@[c].to == pre.connections@[c].to,
        forall|c: int|
            0 <= c < pre.connections@.len() ==> (#[trigger] pre.connections@[c]).path.waypoints@.len()
                == 0,
    ensures
        wss_of(pre.connections@) == Seq::new(
            pre.connections@.len(),
            |c: int| Seq::<Vector<i8>>::empty(),
        ),
        edges_of(d.connections@) == edges_of(pre.connections@),
        rects_of(d.rooms@) == rects_of(pre.rooms@),
        lists_of(d.rooms@) == lists_of(pre.rooms@),
{
    assert(wss_of(pre.connections@) =~~= Seq::new(
        pre.connections@.len(),
        |c: int| Seq::<Vector<i8>>::empty(),
    ));
    assert(edges_of(d.connections@) =~= edges_of(pre.connections@));
}

#[verifier::rlimit(100)]
pub fn run(
    seed: u64,
    rooms: usize,
    min: Vector<u8>,
    max: Vector<u8>,
    spacing: (u8, u8),
    extension: (u8, u8),
) -> (r: TileMap)
    requires
        min.x <= max.x,
        min.y <= max.y,
        max.x <= 127,
        max.y <= 127,
        spacing.0 < spacing.1,
        extension.0 < extension.1,
        extension.1 <= 126,
    ensures
        r.wf(),
        r.width >= 1,
        r.height >= 1,
        exists|d: Dungeon|
            #[trigger] generated_from(r, d, rooms, min, max, spacing, extension) && rects_of(
                d.rooms@,
            ) == build_loop(
                min,
                max,
                spacing,
                Seq::<Rectangle>::empty(),
                Seq::<(usize, usize)>::empty(),
                rng_seed_state(seed),
                rng_seed_state(seed),
                rooms as nat,
            ).0 && edges_of(d.connections@) == build_loop(
                min,
                max,
                spacing,
                Seq::<Rectangle>::empty(),
                Seq::<(usize, usize)>::empty(),
                rng_seed_state(seed),
                rng_seed_state(seed),
                rooms as nat,
            ).1 && wss_of(d.connections@) == mp_rooms(
                rects_of(d.rooms@),
                edges_of(d.connections@),
                lists_of(d.rooms@),
                extension,
                Seq::new(d.connections@.len(), |c: int| Seq::<Vector<i8>>::empty()),
                build_loop(
                    min,
                    max,
                    spacing,
                    Seq::<Rectangle>::empty(),
                    Seq::<(usize, usize)>::empty(),
                    rng_seed_state(seed),
                    rng_seed_state(seed),
                    rooms as nat,
                ).2,
                d.rooms@.len() as int,
            ).0,
{
    let mut dungeon = Dungeon {
        rooms: Vec::new(),
        connections: Vec::new(),
        min_size: min,
        max_size: max,
        rooms_spacing: spacing,
        path_extension: extension,
        rng: RandStream::from_seed(seed),
    };

    let mut rng = dungeon.rng.clone_stream();

    let mut choices: Vec<usize> = Vec::new();
    choices.push(1);
    choices.push(2);
    choices.push(3);
    choices.push(4);
    let mut weights: Vec<u32> = Vec::new();
    weights.push(100);
    weights.push(5);
    weights.push(2);
    weights.push(1);
    proof {
        assert(sum_weights(weights@) == 108) by {
            reveal_with_fuel(sum_weights, 6);
            assert(weights@.drop_last() =~= weights@.subrange(0, 3));
            assert(weights@.drop_last().drop_last() =~= weights@.subrange(0, 2));
            assert(weights@.drop_last().drop_last().drop_last() =~= weights@.subrange(0, 1));
            assert(weights@.drop_last().drop_last().drop_last().drop_last() =~= weights@.subrange(
                0,
                0,
            ));
        }
        assert(rects_of(dungeon.rooms@) =~= Seq::<Rectangle>::empty());
        assert(edges_of(dungeon.connections@) =~= Seq::<(usize, usize)>::empty());
    }

    let mut i: usize = 0;
    while i < rooms
        invariant
            dungeon.wf(),
            dungeon.min_size == min,
            dungeon.max_size == max,
            dungeon.rooms_spacing == spacing,
            dungeon.path_extension == extension,
            choices@.len() == 4,
            choices@[0] == 1 && choices@[1] == 2 && choices@[2] == 3 && choices@[3] == 4,
            weights@.len() == 4,
            weights@ == seq![100u32, 5u32, 2u32, 1u32],
            0 < sum_weights(weights@) <= u32::MAX,
            i <= rooms,
            dungeon.rooms@.len() <= i,
            i > 0 ==> dungeon.rooms@.len() >= 1,
            dungeon.rooms@.len() >= 1 ==> dungeon.rooms@[0].rect.p1 == (Vector { x: 0i8, y: 0i8 }),
            forall|j: int|
                0 <= j < dungeon.rooms@.len() ==> room_extent_drawn(
                    (#[trigger] dungeon.rooms@[j]).rect,
                    min,
                    max,
                ),
            forall|j: int|
                1 <= j < dungeon.rooms@.len() ==> linked_back(
                    #[trigger] dungeon.rooms@[j],
                    j,
                    dungeon.connections@,
                ),
            rects_of(dungeon.rooms@) == build_loop(
                min,
                max,
                spacing,
                Seq::<Rectangle>::empty(),
                Seq::<(usize, usize)>::empty(),
                rng_seed_state(seed),
                rng_seed_state(seed),
                i as nat,
            ).0,
            edges_of(dungeon.connections@) == build_loop(
                min,
                max,
                spacing,
                Seq::<Rectangle>::empty(),
                Seq::<(usize, usize)>::empty(),
                rng_seed_state(seed),
                rng_seed_state(seed),
                i as nat,
            ).1,
            dungeon.rng.state@ == build_loop(
                min,
                max,
                spacing,
                Seq::<Rectangle>::empty(),
                Seq::<(usize, usize)>::empty(),
                rng_seed_state(seed),
                rng_seed_state(seed),
                i as nat,
            ).2,
            rng.state@ == build_loop(
                min,
                max,
                spacing,
                Seq::<Rectangle>::empty(),
                Seq::<(usize, usize)>::empty(),
                rng_seed_state(seed),
                rng_seed_state(seed),
                i as nat,
            ).3,
            forall|c: int|
                0 <= c < dungeon.connections@.len() ==> (#[trigger] dungeon.connections@[c]).path.waypoints@.len()
                    == 0,
        decreases rooms - i,
    {
        let id = dungeon.rooms.len();
        let ghost pre = dungeon;
        let ghost pre_cst = rng.state@;
        let placed = add_room(&mut dungeon, id);

        proof {
            lemma_build_loop_step(
                min,
                max,
                spacing,
                Seq::<Rectangle>::empty(),
                Seq::<(usize, usize)>::empty(),
                rng_seed_state(seed),
                rng_seed_state(seed),
                i as nat,
            );
            if placed {
                assert(rects_of(dungeon.rooms@) =~= rects_of(pre.rooms@).push(
                    dungeon.rooms@.last().rect,
                )) by {
                    assert forall|k: int| 0 <= k < pre.rooms@.len() implies dungeon.rooms@[k]
                        == pre.rooms@[k] by {
                        assert(dungeon.rooms@.subrange(0, pre.rooms@.len() as int)[k]
                            == dungeon.rooms@[k]);
                    }
                }
                assert(room_extent_drawn(dungeon.rooms@.last().rect, min, max));
                assert forall|j: int| 0 <= j < dungeon.rooms@.len() implies room_extent_drawn(
                    (#[trigger] dungeon.rooms@[j]).rect,
                    min,
                    max,
                ) by {
                    if j < pre.rooms@.len() {
                        assert(dungeon.rooms@.subrange(0, pre.rooms@.len() as int)[j]
                            == dungeon.rooms@[j]);
                    }
                }
                assert forall|j: int| 1 <= j < id implies linked_back(
                    #[trigger] dungeon.rooms@[j],
                    j,
                    dungeon.connections@,
                ) by {
                    assert(dungeon.rooms@.subrange(0, pre.rooms@.len() as int)[j]
                        == dungeon.rooms@[j]);
                    assert(dungeon.rooms@[j] == pre.rooms@[j]);
                }
                assert forall|c: int| 0 <= c < dungeon.connections@.len() implies (
                #[trigger] dungeon.connections@[c]).from < id && dungeon.connections@[c].to
                    < id by {}
            }
        }

        if placed && id >= 1 {
            let widx = rng.weighted_choice(&weights);
            let choice = choices[widx];
            let cap = if id < choice {
                id
            } else {
                choice
            };
            let connections = rng.gen_usize_incl(1, cap);

            let ghost estart = edges_of(dungeon.connections@);
            let ghost target_pair = targets_spec(estart, id, connections as nat, rng.state@);
            proof {
                assert(conn_step(estart, id, pre_cst) == target_pair);
            }

            let mut t: usize = 0;
            while t < connections
                invariant
                    dungeon.wf(),
                    dungeon.min_size == min,
                    dungeon.max_size == max,
                    dungeon.rooms_spacing == spacing,
                    dungeon.path_extension == extension,
                    1 <= id < dungeon.rooms@.len(),
                    dungeon.rooms@.len() <= i + 1,
                    dungeon.rooms@[0].rect.p1 == (Vector { x: 0i8, y: 0i8 }),
                    forall|j: int|
                        0 <= j < dungeon.rooms@.len() ==> room_extent_drawn(
                            (#[trigger] dungeon.rooms@[j]).rect,
                            min,
                            max,
                        ),
                    forall|j: int|
                        1 <= j < id ==> linked_back(
                            #[trigger] dungeon.rooms@[j],
                            j,
                            dungeon.connections@,
                        ),
                    t >= 1 ==> linked_back(
                        dungeon.rooms@[id as int],
                        id as int,
                        dungeon.connections@,
                    ),
                    t == 0 ==> dungeon.rooms@[id as int].connections@.len() == 0,
                    forall|c: int|
                        0 <= c < dungeon.connections@.len() ==> (
                        #[trigger] dungeon.connections@[c]).from <= id
                            && dungeon.connections@[c].to < id,
                    t == 0 ==> forall|c: int|
                        0 <= c < dungeon.connections@.len() ==> (
                        #[trigger] dungeon.connections@[c]).from < id,
                    0 <= t <= connections,
                    rects_of(dungeon.rooms@) == build_loop(
                        min,
                        max,
                        spacing,
                        Seq::<Rectangle>::empty(),
                        Seq::<(usize, usize)>::empty(),
                        rng_seed_state(seed),
                        rng_seed_state(seed),
                        (i + 1) as nat,
                    ).0,
                    dungeon.rng.state@ == build_loop(
                        min,
                        max,
                        spacing,
                        Seq::<Rectangle>::empty(),
                        Seq::<(usize, usize)>::empty(),
                        rng_seed_state(seed),
                        rng_seed_state(seed),
                        (i + 1) as nat,
                    ).2,
                    target_pair == (
                        build_loop(
                            min,
                            max,
                            spacing,
                            Seq::<Rectangle>::empty(),
                            Seq::<(usize, usize)>::empty(),
                            rng_seed_state(seed),
                            rng_seed_state(seed),
                            (i + 1) as nat,
                        ).1,
                        build_loop(
                            min,
                            max,
                            spacing,
                            Seq::<Rectangle>::empty(),
                            Seq::<(usize, usize)>::empty(),
                            rng_seed_state(seed),
                            rng_seed_state(seed),
                            (i + 1) as nat,
                        ).3,
                    ),
                    targets_spec(
                        edges_of(dungeon.connections@),
                        id,
                        (connections - t) as nat,
                        rng.state@,
                    ) == target_pair,
                    forall|c: int|
                        0 <= c < dungeon.connections@.len() ==> (
                        #[trigger] dungeon.connections@[c]).path.waypoints@.len() == 0,
                decreases connections - t,
            {
                let ghost st0 = rng.state@;
                let other = rng.gen_usize_excl(0, id);
                let ghost pre_c = dungeon;
                let added = dungeon.connect_rooms(id, other);
                proof {
                    lemma_connected_iff_edge(pre_c, id, other);
                    assert(rects_of(dungeon.rooms@) =~= rects_of(pre_c.rooms@));
                    if added {
                        assert(edges_of(dungeon.connections@) =~= edges_of(
                            pre_c.connections@,
                        ).push((id, other))) by {
                            assert forall|k: int|
                                0 <= k < pre_c.connections@.len() implies dungeon.connections@[k]
                                == pre_c.connections@[k] by {
                                assert(dungeon.connections@.subrange(
                                    0,
                                    pre_c.connections@.len() as int,
                                )[k] == dungeon.connections@[k]);
                            }
                        }
                    } else {
                        assert(edges_of(dungeon.connections@) == edges_of(pre_c.connections@));
                    }
                    assert(targets_spec(
                        edges_of(pre_c.connections@),
                        id,
                        (connections - t) as nat,
                        st0,
                    ) == targets_spec(
                        edges_of(dungeon.connections@),
                        id,
                        (connections - t - 1) as nat,
                        rng.state@,
                    ));
                    assert forall|c: int| 0 <= c < dungeon.connections@.len() implies (
                    #[trigger] dungeon.connections@[c]).path.waypoints@.len() == 0 by {
                        if c < pre_c.connections@.len() {
                            assert(dungeon.connections@.subrange(
                                0,
                                pre_c.connections@.len() as int,
                            )[c] == dungeon.connections@[c]);
                        }
                    }
                    // endpoints stay at or below this room's id, strictly
                    // below for targets
                    assert forall|c: int| 0 <= c < dungeon.connections@.len() implies (
                    #[trigger] dungeon.connections@[c]).from <= id && dungeon.connections@[c].to
                        < id by {
                        if c < pre_c.connections@.len() {
                            assert(dungeon.connections@.subrange(
                                0,
                                pre_c.connections@.len() as int,
                            )[c] == dungeon.connections@[c]);
                        }
                    }
                    if t == 0 {
                        // the first draw always records an edge: this room's
                        // list is empty and no earlier edge touches it
                        assert(!room_connected_spec(pre_c.rooms@[id as int], other, pre_c.connections@));
                        assert forall|kk: int|
                            0 <= kk < pre_c.rooms@[other as int].connections@.len() implies !edge_touches(
                            pre_c.connections@[(#[trigger] pre_c.rooms@[other as int].connections@[kk]) as int],
                            id,
                        ) by {
                            let cid2 = pre_c.rooms@[other as int].connections@[kk];
                            assert(pre_c.connections@[cid2 as int].from < id);
                            assert(pre_c.connections@[cid2 as int].to < id);
                        }
                        assert(!room_connected_spec(pre_c.rooms@[other as int], id, pre_c.connections@));
                        assert(added);
                    }
                    if added {
                        let cid = pre_c.connections@.len() as int;
                        assert(dungeon.rooms@[id as int].connections@.last() == cid as usize);
                        assert(dungeon.connections@[cid].from == id && dungeon.connections@[cid].to
                            == other);
                        assert(linked_back(dungeon.rooms@[id as int], id as int, dungeon.connections@))
                            by {
                            let k = dungeon.rooms@[id as int].connections@.len() - 1;
                            assert(dungeon.rooms@[id as int].connections@[k] == cid as usize);
                        }
                    } else {
                        assert(dungeon.rooms@ == pre_c.rooms@ && dungeon.connections@
                            == pre_c.connections@);
                    }
                    if t >= 1 && !added {
                        assert(linked_back(dungeon.rooms@[id as int], id as int, dungeon.connections@));
                    }
                    if t >= 1 && added {
                        // the earlier witness survives both appends
                        assert(linked_back(dungeon.rooms@[id as int], id as int, dungeon.connections@))
                            by {
                            let k = choose|k: int|
                                0 <= k < pre_c.rooms@[id as int].connections@.len()
                                    && pre_c.connections@[(#[trigger] pre_c.rooms@[id as int].connections@[k]) as int].from
                                    == id as int && pre_c.connections@[pre_c.rooms@[id as int].connections@[k] as int].to
                                    < id as int;
                            let cid2 = pre_c.rooms@[id as int].connections@[k];
                            assert(cid2 < pre_c.connections@.len());
                            assert(dungeon.connections@.subrange(
                                0,
                                pre_c.connections@.len() as int,
                            )[cid2 as int] == dungeon.connections@[cid2 as int]);
                            assert(dungeon.rooms@[id as int].connections@[k] == cid2);
                        }
                    }
                    // rooms before this one keep their earlier-edge witness
                    assert forall|j: int| 1 <= j < id implies linked_back(
                        #[trigger] dungeon.rooms@[j],
                        j,
                        dungeon.connections@,
                    ) by {
                        let k = choose|k: int|
                            0 <= k < pre_c.rooms@[j].connections@.len()
                                && pre_c.connections@[(#[trigger] pre_c.rooms@[j].connections@[k]) as int].from
                                == j && pre_c.connections@[pre_c.rooms@[j].connections@[k] as int].to
                                < j;
                        let cid2 = pre_c.rooms@[j].connections@[k];
                        assert(cid2 < pre_c.connections@.len());
                        if added {
                            assert(dungeon.connections@.subrange(
                                0,
                                pre_c.connections@.len() as int,
                            )[cid2 as int] == dungeon.connections@[cid2 as int]);
                            if j == other {
                                assert(dungeon.rooms@[j].connections@[k] == cid2);
                            } else {
                                assert(dungeon.rooms@[j] == pre_c.rooms@[j]);
                            }
                        }
                    }
                }
                t += 1;
            }
            proof {
                assert(targets_spec(edges_of(dungeon.connections@), id, 0, rng.state@) == (
                    edges_of(dungeon.connections@),
                    rng.state@,
                ));
            }
        }
        i += 1;
    }

    let ghost pre_mp = dungeon;
    dungeon.make_paths();
    let map = dungeon.to_map();
    proof {
        lemma_paths_phase_frame(pre_mp, dungeon);
        assert(generated_from(map, dungeon, rooms, min, max, spacing, extension));
    }
    map
}

} // verus!
