//! Procedural dungeon generation: places non-overlapping rectangular rooms
//! from a seeded random stream, connects them into a graph, routes
//! collision-avoiding corridors between connected rooms, and rasterizes the
//! result into a tile grid. The whole pipeline is driven by a numeric seed
//! and a small set of size and shape parameters.

pub mod connection;
pub mod dungeon;
pub mod errors;
pub mod generator;
pub mod math;
pub mod rng;
pub mod room;
pub mod tile_map;

use vstd::prelude::*;

use crate::dungeon::{edges_of, lists_of, mp_rooms, rects_of, wss_of, Dungeon};
use crate::generator::{build_loop, generated_from, run};
use crate::math::{Rectangle, Vector};
use crate::rng::rng_seed_state;
use crate::tile_map::TileMap;

verus! {

/// An inclusive range of `u8` values.
#[derive(Clone, Copy, Debug, PartialEq, Eq, Structural)]
pub struct MinMax {
    pub min: u8,
    pub max: u8,
}

/// The generation parameters: a seed, how many rooms to place, the room size
/// bounds per axis, the spacing drawn between a room and its neighbour, and
/// the corridor extension range.
#[derive(Clone, Copy, Debug)]
pub struct Config {
    pub seed: u64,
    pub rooms_count: usize,
    pub rooms_min_size: Vector<u8>,
    pub rooms_max_size: Vector<u8>,
    pub rooms_spacing: MinMax,
    pub path_extension: MinMax,
}

/// An owner for a generated map, for callers that hold it behind an opaque
/// handle.
pub struct Handle {
    pub _data: TileMap,
}

impl Config {
    /// A configuration the generator accepts on every input it may draw.
    pub open spec fn wf(self) -> bool {
        &&& self.rooms_min_size.x <= self.rooms_max_size.x
        &&& self.rooms_min_size.y <= self.rooms_max_size.y
        &&& self.rooms_max_size.x <= 127
        &&& self.rooms_max_size.y <= 127
        &&& self.rooms_spacing.min < self.rooms_spacing.max
        &&& self.path_extension.min < self.path_extension.max
        &&& self.path_extension.max <= 126
    }

    /// Validates and assembles a configuration: the minimum size may not
    /// exceed the maximum on either axis, sizes must stay below 128, and the
    /// spacing and extension ranges must be non-empty ascending ranges, with
    /// extensions below 127.
    pub fn build(
        seed: u64,
        rooms_count: usize,
        min: Vec<u8>,
        max: Vec<u8>,
        spacing: (u8, u8),
        extension: (u8, u8),
    ) -> (r: Result<Config, &'static str>)
        requires
            min@.len() >= 2,
            max@.len() >= 2,
        ensures
            r matches Ok(c) ==> {
                &&& c.wf()
                &&& c.seed == seed
                &&& c.rooms_count == rooms_count
                &&& c.rooms_min_size == (Vector { x: min@[0], y: min@[1] })
                &&& c.rooms_max_size == (Vector { x: max@[0], y: max@[1] })
                &&& c.rooms_spacing == (MinMax { min: spacing.0, max: spacing.1 })
                &&& c.path_extension == (MinMax { min: extension.0, max: extension.1 })
            },
            r is Ok <==> {
                &&& min@[0] <= max@[0]
                &&& min@[1] <= max@[1]
                &&& max@[0] <= 127
                &&& max@[1] <= 127
                &&& spacing.0 < spacing.1
                &&& extension.0 < extension.1
                &&& extension.1 <= 126
            },
    {
        let minv = Vector { x: min[0], y: min[1] };
        let maxv = Vector { x: max[0], y: max[1] };

        if minv.x > maxv.x || minv.y > maxv.y {
            return Err("Min size cannot be bigger than max size");
        }

        if maxv.x > 127 || maxv.y > 127 {
            return Err("Room size must be in the range [0,128)");
        }

        if spacing.0 >= spacing.1 {
            return Err("Rooms spacing must be a non-empty ascending range");
        }

        if extension.0 >= extension.1 || extension.1 > 126 {
            return Err("Path extension must be a non-empty ascending range below 127");
        }

        Ok(
            Config {
                seed,
                rooms_count,
                rooms_min_size: minv,
                rooms_max_size: maxv,
                rooms_spacing: MinMax { min: spacing.0, max: spacing.1 },
                path_extension: MinMax { min: extension.0, max: extension.1 },
            },
        )
    }

    /// The all-zero configuration, for callers that fill the fields one by
    /// one. It is not well-formed until they do.
    pub fn new() -> (r: Config)
        ensures
            r.seed == 0,
            r.rooms_count == 0,
            r.rooms_min_size == (Vector { x: 0u8, y: 0u8 }),
            r.rooms_max_size == (Vector { x: 0u8, y: 0u8 }),
            r.rooms_spacing == (MinMax { min: 0, max: 0 }),
            r.path_extension == (MinMax { min: 0, max: 0 }),
    {
        Config {
            seed: 0,
            rooms_count: 0,
            rooms_min_size: Vector { x: 0, y: 0 },
            rooms_max_size: Vector { x: 0, y: 0 },
            rooms_spacing: MinMax { min: 0, max: 0 },
            path_extension: MinMax { min: 0, max: 0 },
        }
    }
}

/// Generates the dungeon map for a validated configuration: the rasterized
/// grid of a well-formed dungeon grown with the configured parameters, whose
/// room layout is a function of the seed and the parameters alone.
pub fn generate(config: Config) -> (r: TileMap)
    requires
        config.wf(),
    ensures
        r.wf(),
        r.width >= 1,
        r.height >= 1,
        exists|d: Dungeon|
            #[trigger] generated_from(
                r,
                d,
                config.rooms_count,
                config.rooms_min_size,
                config.rooms_max_size,
                (config.rooms_spacing.min, config.rooms_spacing.max),
                (config.path_extension.min, config.path_extension.max),
            ) && rects_of(d.rooms@) == build_loop(
                config.rooms_min_size,
                config.rooms_max_size,
                (config.rooms_spacing.min, config.rooms_spacing.max),
                Seq::<Rectangle>::empty(),
                Seq::<(usize, usize)>::empty(),
                rng_seed_state(config.seed),
                rng_seed_state(config.seed),
                config.rooms_count as nat,
            ).0 && edges_of(d.connections@) == build_loop(
                config.rooms_min_size,
                config.rooms_max_size,
                (config.rooms_spacing.min, config.rooms_spacing.max),
                Seq::<Rectangle>::empty(),
                Seq::<(usize, usize)>::empty(),
                rng_seed_state(config.seed),
                rng_seed_state(config.seed),
                config.rooms_count as nat,
            ).1 && wss_of(d.connections@) == mp_rooms(
                rects_of(d.rooms@),
                edges_of(d.connections@),
                lists_of(d.rooms@),
                (config.path_extension.min, config.path_extension.max),
                Seq::new(d.connections@.len(), |c: int| Seq::<Vector<i8>>::empty()),
                build_loop(
                    config.rooms_min_size,
                    config.rooms_max_size,
                    (config.rooms_spacing.min, config.rooms_spacing.max),
                    Seq::<Rectangle>::empty(),
                    Seq::<(usize, usize)>::empty(),
                    rng_seed_state(config.seed),
                    rng_seed_state(config.seed),
                    config.rooms_count as nat,
                ).2,
                d.rooms@.len() as int,
            ).0,
{
    run(
        config.seed,
        config.rooms_count,
        config.rooms_min_size,
        config.rooms_max_size,
        (config.rooms_spacing.min, config.rooms_spacing.max),
        (config.path_extension.min, config.path_extension.max),
    )
}

} // verus!
