use vstd::prelude::*;

use crate::math::{Rectangle, Vector};

verus! {

/// One cell of the rasterized output grid.
#[derive(Clone, Copy, Debug, PartialEq, Eq, Structural)]
pub enum Tile {
    Empty,
    Floor,
    Door,
    Corridor,
}

/// Character of a tile in the ASCII rendering.
pub open spec fn tile_char(t: Tile) -> char {
    match t {
        Tile::Empty => '.',
        Tile::Floor => 'x',
        Tile::Door => 'o',
        Tile::Corridor => '#',
    }
}

/// Byte of a tile in the byte-buffer rendering.
pub open spec fn tile_byte(t: Tile) -> u8 {
    match t {
        Tile::Empty => 0,
        Tile::Floor => 1,
        Tile::Corridor => 2,
        Tile::Door => 3,
    }
}

/// The output tile grid, row-major with `width * height` cells. `offset`
/// shifts world coordinates into non-negative grid indices.
pub struct TileMap {
    pub width: u8,
    pub height: u8,
    pub offset: Vector<i8>,
    pub grid: Vec<Tile>,
}

/// Row-major cell `i` of a grid of width `w` lies inside `rect` shifted by
/// the offset `(offx, offy)`.
pub open spec fn cell_in_rect(i: int, w: int, offx: int, offy: int, rect: Rectangle) -> bool {
    &&& rect.p1.x + offx <= i % w < rect.p2.x + offx
    &&& rect.p1.y + offy <= i / w < rect.p2.y + offy
}

/// The grid `g` with every cell of the shifted `rect` painted `Floor`.
pub open spec fn painted_room(g: Seq<Tile>, w: int, offx: int, offy: int, rect: Rectangle) -> Seq<
    Tile,
> {
    Seq::new(g.len(), |i: int| if cell_in_rect(i, w, offx, offy, rect) { Tile::Floor } else { g[i] })
}

/// Row-major cell `i` lies on the straight run between the shifted endpoints
/// `from` and `to`: on the shared column when the endpoints share an x
/// coordinate, otherwise on `from`'s row between the two x coordinates,
/// endpoints included.
pub open spec fn cell_on_run(
    i: int,
    w: int,
    offx: int,
    offy: int,
    from: Vector<i8>,
    to: Vector<i8>,
) -> bool {
    if from.x == to.x {
        i % w == from.x + offx && vstd::math::min(from.y as int, to.y as int) + offy <= i / w
            <= vstd::math::max(from.y as int, to.y as int) + offy
    } else {
        i / w == from.y + offy && vstd::math::min(from.x as int, to.x as int) + offx <= i % w
            <= vstd::math::max(from.x as int, to.x as int) + offx
    }
}

/// The grid `g` with the straight run between the shifted endpoints painted
/// `Corridor`.
pub open spec fn painted_corridor(
    g: Seq<Tile>,
    w: int,
    offx: int,
    offy: int,
    from: Vector<i8>,
    to: Vector<i8>,
) -> Seq<Tile> {
    Seq::new(
        g.len(),
        |i: int| if cell_on_run(i, w, offx, offy, from, to) { Tile::Corridor } else { g[i] },
    )
}

/// Characters of row `y` of a grid of width `w`.
pub open spec fn row_chars(g: Seq<Tile>, w: int, y: int) -> Seq<char> {
    Seq::new(w as nat, |x: int| tile_char(g[y * w + x]))
}

/// The ASCII rendering of the first `y` rows: each row is preceded by a
/// newline, so the rendering of a non-empty grid starts with one.
pub open spec fn ascii_rows(g: Seq<Tile>, w: int, y: int) -> Seq<char>
    decreases y,
{
    if y <= 0 {
        Seq::empty()
    } else {
        ascii_rows(g, w, y - 1) + seq!['\n'] + row_chars(g, w, y - 1)
    }
}

/// `a * c <= b * c` for `a <= b` and non-negative `c`.
proof fn lemma_mul_le(a: int, b: int, c: int)
    by (nonlinear_arith)
    requires
        a <= b,
        0 <= c,
    ensures
        a * c <= b * c,
{
}

/// A cell built from in-range coordinates lies inside the grid and decodes
/// back to them.
proof fn lemma_grid_index(x: int, y: int, w: int, h: int)
    requires
        0 <= x < w,
        0 <= y < h,
    ensures
        0 <= x + y * w,
        x + y * w < w * h,
        (x + y * w) % w == x,
        (x + y * w) / w == y,
{
    assert(0 <= x + y * w && x + y * w < w * h) by (nonlinear_arith)
        requires
            0 <= x < w,
            0 <= y < h,
    ;
    vstd::arithmetic::div_mod::lemma_fundamental_div_mod_converse(x + y * w, w, y, x);
}

/// A cell index is recovered from its decoded coordinates.
proof fn lemma_cell_encode(i: int, x: int, y: int, w: int)
    requires
        0 < w,
        0 <= x < w,
        0 <= y,
        i % w == x,
        i / w == y,
        0 <= i,
    ensures
        i == x + y * w,
{
    vstd::arithmetic::div_mod::lemma_fundamental_div_mod(i, w);
}

impl TileMap {
    /// The grid holds exactly one tile per cell.
    pub open spec fn wf(self) -> bool {
        self.grid@.len() == self.width as int * self.height as int
    }

    /// An empty, zero-sized map.
    pub fn build() -> (r: TileMap)
        ensures
            r.width == 0,
            r.height == 0,
            r.offset == (Vector { x: 0i8, y: 0i8 }),
            r.grid@.len() == 0,
            r.wf(),
    {
        TileMap { width: 0, height: 0, offset: Vector { x: 0, y: 0 }, grid: TileMap::new_grid(0, 0) }
    }

    pub fn size(&self) -> (r: (u8, u8))
        ensures
            r.0 == self.width,
            r.1 == self.height,
    {
        (self.width, self.height)
    }

    /// A fresh all-`Empty` grid of the given dimensions.
    pub fn new_grid(width: u32, height: u32) -> (r: Vec<Tile>)
        requires
            width as int * height as int <= u32::MAX,
        ensures
            r@ =~= Seq::new((width as int * height as int) as nat, |i: int| Tile::Empty),
    {
        proof {
            lemma_mul_le(0, width as int, height as int);
        }
        let n: usize = (width as usize) * (height as usize);
        let r: Vec<Tile> = vec![Tile::Empty; n];
        r
    }

    /// Resets every cell to `Empty`, keeping the dimensions.
    pub fn clear(&mut self)
        requires
            old(self).width as int * old(self).height as int <= u32::MAX,
        ensures
            final(self).width == old(self).width,
            final(self).height == old(self).height,
            final(self).offset == old(self).offset,
            final(self).grid@ =~= Seq::new(
                (old(self).width as int * old(self).height as int) as nat,
                |i: int| Tile::Empty,
            ),
            final(self).wf(),
    {
        self.grid = TileMap::new_grid(self.width as u32, self.height as u32);
    }

    /// Sizes the grid to cover the world-coordinate bounding box from `min`
    /// to `max` inclusive, never shrinking an already-allocated grid, and
    /// sets the offset that shifts negative coordinates into index space.
    /// Every cell is reset to `Empty`.
    pub fn resize(&mut self, min: &Vector<i8>, max: &Vector<i8>)
        requires
            min.x <= max.x,
            min.y <= max.y,
            -127 <= min.x,
            -127 <= min.y,
            max.x - min.x <= 254,
            max.y - min.y <= 254,
            old(self).width <= 254,
            old(self).height <= 254,
        ensures
            final(self).width as int == vstd::math::max(
                old(self).width as int,
                max.x - min.x,
            ) + 1,
            final(self).height as int == vstd::math::max(
                old(self).height as int,
                max.y - min.y,
            ) + 1,
            final(self).offset.x as int == (if min.x < 0 { -(min.x as int) } else { 0 }),
            final(self).offset.y as int == (if min.y < 0 { -(min.y as int) } else { 0 }),
            final(self).grid@ =~= Seq::new(
                (final(self).width as int * final(self).height as int) as nat,
                |i: int| Tile::Empty,
            ),
            final(self).wf(),
    {
        let mut w: u8 = self.width;
        let mut h: u8 = self.height;
        let width: u8 = (max.x as i16 - min.x as i16) as u8;
        let height: u8 = (max.y as i16 - min.y as i16) as u8;

        if width > w {
            w = width;
        }

        if height > h {
            h = height;
        }

        self.offset = Vector {
            x: if min.x < 0 {
                -min.x
            } else {
                0
            },
            y: if min.y < 0 {
                -min.y
            } else {
                0
            },
        };

        self.width = w + 1;
        self.height = h + 1;
        proof {
            assert(self.width as int * self.height as int <= 255 * 255) by (nonlinear_arith)
                requires
                    self.width <= 255,
                    self.height <= 255,
            ;
        }
        self.clear();
    }

    /// Marks the cell at a door position `Door`, overriding whatever tile is
    /// there.
    pub fn add_door(&mut self, position: &Vector<i8>)
        requires
            old(self).wf(),
            old(self).width > 0,
            0 <= position.x + old(self).offset.x < old(self).width,
            0 <= position.y + old(self).offset.y < old(self).height,
        ensures
            final(self).width == old(self).width,
            final(self).height == old(self).height,
            final(self).offset == old(self).offset,
            final(self).grid@ == old(self).grid@.update(
                position.x + old(self).offset.x + (position.y + old(self).offset.y) * (old(
                    self,
                ).width as int),
                Tile::Door,
            ),
            final(self).wf(),
    {
        let x: usize = (position.x as i32 + self.offset.x as i32) as usize;
        let y: usize = (position.y as i32 + self.offset.y as i32) as usize;
        let w: usize = self.width as usize;
        let n: usize = self.grid.len();
        proof {
            lemma_grid_index(x as int, y as int, w as int, self.height as int);
            assert(x + y * w < n);
        }
        let idx: usize = x + y * w;
        self.grid[idx] = Tile::Door;
    }

    /// Paints the straight run between two consecutive waypoints `Corridor`:
    /// the shared column when they are vertically aligned, otherwise `from`'s
    /// row between the two x coordinates, endpoints included.
    pub fn add_corridor(&mut self, from: &Vector<i8>, to: &Vector<i8>)
        requires
            old(self).wf(),
            old(self).width > 0,
            0 <= from.x + old(self).offset.x < old(self).width,
            0 <= from.y + old(self).offset.y < old(self).height,
            0 <= to.x + old(self).offset.x < old(self).width,
            0 <= to.y + old(self).offset.y < old(self).height,
        ensures
            final(self).width == old(self).width,
            final(self).height == old(self).height,
            final(self).offset == old(self).offset,
            final(self).grid@ =~= painted_corridor(
                old(self).grid@,
                old(self).width as int,
                old(self).offset.x as int,
                old(self).offset.y as int,
                *from,
                *to,
            ),
            final(self).wf(),
    {
        let w: usize = self.width as usize;
        let offx: i32 = self.offset.x as i32;
        let offy: i32 = self.offset.y as i32;
        let n: usize = self.grid.len();
        let ghost g0 = self.grid@;
        if from.x == to.x {
            let gx: usize = (from.x as i32 + offx) as usize;
            let gy1: usize = (if from.y < to.y {
                from.y as i32
            } else {
                to.y as i32
            } + offy) as usize;
            let gy2: usize = (if from.y < to.y {
                to.y as i32
            } else {
                from.y as i32
            } + offy) as usize;
            let mut gy: usize = gy1;
            while gy <= gy2
                invariant
                    self.wf(),
                    self.width == old(self).width,
                    self.height == old(self).height,
                    self.offset == old(self).offset,
                    w == self.width as int,
                    gx < w,
                    gy1 <= gy <= gy2 + 1,
                    gy2 < self.height,
                    g0 == old(self).grid@,
                    n == g0.len(),
                    self.grid@ =~= Seq::new(
                        g0.len(),
                        |i: int|
                            if i % (w as int) == gx && gy1 <= i / (w as int) < gy {
                                Tile::Corridor
                            } else {
                                g0[i]
                            },
                    ),
                decreases gy2 + 1 - gy,
            {
                proof {
                    lemma_grid_index(gx as int, gy as int, w as int, self.height as int);
                    assert(gx + gy * w < n);
                }
                let idx: usize = gx + gy * w;
                let ghost prev = self.grid@;
                self.grid[idx] = Tile::Corridor;
                proof {
                    assert(self.grid@ == prev.update(idx as int, Tile::Corridor));
                    assert forall|i: int| 0 <= i < g0.len() implies self.grid@[i] == (if i % (
                    w as int) == gx && gy1 <= i / (w as int) < gy + 1 {
                        Tile::Corridor
                    } else {
                        g0[i]
                    }) by {
                        if i != idx && i % (w as int) == gx && i / (w as int) == gy {
                            lemma_cell_encode(i, gx as int, gy as int, w as int);
                        }
                    }
                }
                gy += 1;
            }
        } else {
            let gy: usize = (from.y as i32 + offy) as usize;
            let gx1: usize = (if from.x < to.x {
                from.x as i32
            } else {
                to.x as i32
            } + offx) as usize;
            let gx2: usize = (if from.x < to.x {
                to.x as i32
            } else {
                from.x as i32
            } + offx) as usize;
            let mut gx: usize = gx1;
            while gx <= gx2
                invariant
                    self.wf(),
                    self.width == old(self).width,
                    self.height == old(self).height,
                    self.offset == old(self).offset,
                    w == self.width as int,
                    gy < self.height,
                    gx1 <= gx <= gx2 + 1,
                    gx2 < w,
                    g0 == old(self).grid@,
                    n == g0.len(),
                    self.grid@ =~= Seq::new(
                        g0.len(),
                        |i: int|
                            if i / (w as int) == gy && gx1 <= i % (w as int) < gx {
                                Tile::Corridor
                            } else {
                                g0[i]
                            },
                    ),
                decreases gx2 + 1 - gx,
            {
                proof {
                    lemma_grid_index(gx as int, gy as int, w as int, self.height as int);
                    assert(gx + gy * w < n);
                }
                let idx: usize = gx + gy * w;
                let ghost prev = self.grid@;
                self.grid[idx] = Tile::Corridor;
                proof {
                    assert(self.grid@ == prev.update(idx as int, Tile::Corridor));
                    assert forall|i: int| 0 <= i < g0.len() implies self.grid@[i] == (if i / (
                    w as int) == gy && gx1 <= i % (w as int) < gx + 1 {
                        Tile::Corridor
                    } else {
                        g0[i]
                    }) by {
                        if i != idx && i / (w as int) == gy && i % (w as int) == gx {
                            lemma_cell_encode(i, gx as int, gy as int, w as int);
                        }
                    }
                }
                gx += 1;
            }
        }
    }

    /// Paints the interior of a room's rectangle `Floor`, half-open on both
    /// axes.
    pub fn add_room(&mut self, rect: &Rectangle)
        requires
            old(self).wf(),
            old(self).width > 0,
            rect.p1.x <= rect.p2.x,
            rect.p1.y <= rect.p2.y,
            0 <= rect.p1.x + old(self).offset.x,
            rect.p2.x + old(self).offset.x <= old(self).width,
            0 <= rect.p1.y + old(self).offset.y,
            rect.p2.y + old(self).offset.y <= old(self).height,
        ensures
            final(self).width == old(self).width,
            final(self).height == old(self).height,
            final(self).offset == old(self).offset,
            final(self).grid@ =~= painted_room(
                old(self).grid@,
                old(self).width as int,
                old(self).offset.x as int,
                old(self).offset.y as int,
                *rect,
            ),
            final(self).wf(),
    {
        let w: usize = self.width as usize;
        let offx: i32 = self.offset.x as i32;
        let offy: i32 = self.offset.y as i32;
        let gx1: usize = (rect.p1.x as i32 + offx) as usize;
        let gx2: usize = (rect.p2.x as i32 + offx) as usize;
        let gy1: usize = (rect.p1.y as i32 + offy) as usize;
        let gy2: usize = (rect.p2.y as i32 + offy) as usize;
        let n: usize = self.grid.len();
        let ghost g0 = self.grid@;
        let mut gy: usize = gy1;
        while gy < gy2
            invariant
                self.wf(),
                self.width == old(self).width,
                self.height == old(self).height,
                self.offset == old(self).offset,
                w == self.width as int,
                gx1 <= gx2 <= w,
                gy1 <= gy <= gy2,
                gy2 <= self.height,
                g0 == old(self).grid@,
                n == g0.len(),
                self.grid@ =~= Seq::new(
                    g0.len(),
                    |i: int|
                        if gx1 <= i % (w as int) < gx2 && gy1 <= i / (w as int) < gy {
                            Tile::Floor
                        } else {
                            g0[i]
                        },
                ),
            decreases gy2 - gy,
        {
            let mut gx: usize = gx1;
            while gx < gx2
                invariant
                    self.wf(),
                    self.width == old(self).width,
                    self.height == old(self).height,
                    self.offset == old(self).offset,
                    w == self.width as int,
                    gx1 <= gx <= gx2 <= w,
                    gy1 <= gy < gy2,
                    gy2 <= self.height,
                    g0 == old(self).grid@,
                    n == g0.len(),
                    self.grid@ =~= Seq::new(
                        g0.len(),
                        |i: int|
                            if (gx1 <= i % (w as int) < gx2 && gy1 <= i / (w as int) < gy) || (i / (
                            w as int) == gy && gx1 <= i % (w as int) < gx) {
                                Tile::Floor
                            } else {
                                g0[i]
                            },
                    ),
                decreases gx2 - gx,
            {
                proof {
                    lemma_grid_index(gx as int, gy as int, w as int, self.height as int);
                    assert(gx + gy * w < n);
                }
                let idx: usize = gx + gy * w;
                let ghost prev = self.grid@;
                self.grid[idx] = Tile::Floor;
                proof {
                    assert(self.grid@ == prev.update(idx as int, Tile::Floor));
                    assert forall|i: int| 0 <= i < g0.len() implies self.grid@[i] == (if (gx1 <= i
                        % (w as int) < gx2 && gy1 <= i / (w as int) < gy) || (i / (w as int) == gy
                        && gx1 <= i % (w as int) < gx + 1) {
                        Tile::Floor
                    } else {
                        g0[i]
                    }) by {
                        if i != idx && i % (w as int) == gx && i / (w as int) == gy {
                            lemma_cell_encode(i, gx as int, gy as int, w as int);
                        }
                    }
                }
                gx += 1;
            }
            gy += 1;
        }
    }

    /// The ASCII rendering: one character per tile, each row preceded by a
    /// newline character.
    pub fn to_ascii(&self) -> (r: String)
        requires
            self.wf(),
        ensures
            r@ == ascii_rows(self.grid@, self.width as int, self.height as int),
    {
        let w: usize = self.width as usize;
        let h: usize = self.height as usize;
        let n: usize = self.grid.len();
        let mut s = String::new();
        let mut y: usize = 0;
        while y < h
            invariant
                self.wf(),
                w == self.width,
                h == self.height,
                n == self.grid@.len(),
                0 <= y <= h,
                s@ == ascii_rows(self.grid@, w as int, y as int),
            decreases h - y,
        {
            s.append("\n");
            proof {
                reveal_strlit("\n");
                assert(s@ =~= ascii_rows(self.grid@, w as int, y as int) + seq!['\n']
                    + Seq::new(0, |k: int| tile_char(self.grid@[y * (w as int) + k])));
            }
            let mut x: usize = 0;
            while x < w
                invariant
                    self.wf(),
                    w == self.width,
                    h == self.height,
                    n == self.grid@.len(),
                    0 <= x <= w,
                    0 <= y < h,
                    s@ == ascii_rows(self.grid@, w as int, y as int) + seq!['\n'] + Seq::new(
                        x as nat,
                        |k: int| tile_char(self.grid@[y * (w as int) + k]),
                    ),
                decreases w - x,
            {
                proof {
                    lemma_grid_index(x as int, y as int, w as int, h as int);
                    assert(y * (w as int) + x == x + y * (w as int));
                }
                let idx: usize = x + y * w;
                let c: &str = match self.grid[idx] {
                    Tile::Floor => "x",
                    Tile::Corridor => "#",
                    Tile::Door => "o",
                    Tile::Empty => ".",
                };
                proof {
                    reveal_strlit("x");
                    reveal_strlit("#");
                    reveal_strlit("o");
                    reveal_strlit(".");
                    assert(c@ =~= seq![tile_char(self.grid@[idx as int])]);
                }
                s.append(c);
                proof {
                    assert(s@ =~= ascii_rows(self.grid@, w as int, y as int) + seq!['\n']
                        + Seq::new(
                        (x + 1) as nat,
                        |k: int| tile_char(self.grid@[y * (w as int) + k]),
                    ));
                }
                x += 1;
            }
            proof {
                assert(Seq::new(w as nat, |k: int| tile_char(self.grid@[y * (w as int) + k]))
                    =~= row_chars(self.grid@, w as int, y as int));
                assert(s@ == ascii_rows(self.grid@, w as int, (y + 1) as int));
            }
            y += 1;
        }
        s
    }

    /// The byte-buffer rendering: one byte per tile, row-major.
    pub fn to_bytes(&self) -> (r: Vec<u8>)
        ensures
            r@ =~= Seq::new(self.grid@.len(), |i: int| tile_byte(self.grid@[i])),
    {
        let n = self.grid.len();
        let mut r: Vec<u8> = Vec::new();
        let mut i: usize = 0;
        while i < n
            invariant
                n == self.grid@.len(),
                0 <= i <= n,
                r@.len() == i,
                forall|k: int| 0 <= k < i ==> r@[k] == tile_byte(self.grid@[k]),
            decreases n - i,
        {
            let b: u8 = match self.grid[i] {
                Tile::Floor => 1,
                Tile::Corridor => 2,
                Tile::Door => 3,
                Tile::Empty => 0,
            };
            r.push(b);
            i += 1;
        }
        r
    }
}

} // verus!
