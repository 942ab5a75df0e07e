//! Tile grid, rooms, and the dungeon map: tiles indexed by `y * width + x`,
//! room rectangles used during generation, and the generator that carves
//! non-overlapping rooms connected by L-shaped tunnels.

use vstd::prelude::*;

verus! {

use crate::coord::Coord;

/// An RGB color, used for the lit and dark background palettes.
#[derive(Clone, Copy, Debug, PartialEq, Eq, Structural)]
pub struct Color {
    pub r: u8,
    pub g: u8,
    pub b: u8,
}

impl Color {
    pub fn white() -> (c: Color)
        ensures
            c == (Color { r: 255, g: 255, b: 255 }),
    {
        Color { r: 255, g: 255, b: 255 }
    }

    pub fn green() -> (c: Color)
        ensures
            c == (Color { r: 0, g: 255, b: 0 }),
    {
        Color { r: 0, g: 255, b: 0 }
    }
}

/// The walkable ground tile.
pub open spec fn empty_tile() -> Tile {
    Tile {
        blocked: false,
        block_sight: false,
        bg_lit: Color { r: 200, g: 180, b: 50 },
        bg_dark: Color { r: 50, g: 50, b: 150 },
        explored: false,
    }
}

/// The solid wall tile.
pub open spec fn wall_tile() -> Tile {
    Tile {
        blocked: true,
        block_sight: true,
        bg_lit: Color { r: 130, g: 110, b: 50 },
        bg_dark: Color { r: 0, g: 0, b: 100 },
        explored: false,
    }
}

/// One grid cell: walkability, sight blocking, the two background
/// palettes, and whether the player has ever seen it.
#[derive(Clone, Copy, Debug, PartialEq, Eq, Structural)]
pub struct Tile {
    pub blocked: bool,
    pub block_sight: bool,
    pub bg_lit: Color,
    pub bg_dark: Color,
    pub explored: bool,
}

impl Tile {
    pub fn empty() -> (t: Self)
        ensures
            t == empty_tile(),
    {
        Tile {
            blocked: false,
            block_sight: false,
            bg_lit: Color { r: 200, g: 180, b: 50 },
            bg_dark: Color { r: 50, g: 50, b: 150 },
            explored: false,
        }
    }

    pub fn wall() -> (t: Self)
        ensures
            t == wall_tile(),
    {
        Tile {
            blocked: true,
            block_sight: true,
            bg_lit: Color { r: 130, g: 110, b: 50 },
            bg_dark: Color { r: 0, g: 0, b: 100 },
            explored: false,
        }
    }
}

/// An axis-aligned rectangle with inclusive corner coordinates,
/// used only during dungeon generation.
#[derive(Clone, Copy, Debug, PartialEq, Eq, Structural)]
pub struct Rect {
    pub x1: i32,
    pub y1: i32,
    pub x2: i32,
    pub y2: i32,
}

/// Rectangle intersection with inclusive bounds: rectangles that merely
/// touch at an edge count as intersecting.
pub open spec fn spec_intersects(a: Rect, b: Rect) -> bool {
    a.x1 <= b.x2 && a.x2 >= b.x1 && a.y1 <= b.y2 && a.y2 >= b.y1
}

/// `c` lies strictly inside `r`: in the carved region
/// `(x1+1..x2) x (y1+1..y2)`.
pub open spec fn in_interior(r: Rect, c: Coord) -> bool {
    r.x1 < c.x < r.x2 && r.y1 < c.y < r.y2
}

/// No two rectangles of the sequence intersect, not even by touching.
pub open spec fn pairwise_non_intersecting(rooms: Seq<Rect>) -> bool {
    forall|i: int, j: int|
        0 <= i < j < rooms.len() ==> !spec_intersects(rooms[i], rooms[j])
}

/// Rectangles that do not intersect have disjoint interiors.
pub proof fn lemma_non_intersecting_interiors_disjoint(a: Rect, b: Rect, c: Coord)
    requires
        !spec_intersects(a, b),
    ensures
        !(in_interior(a, c) && in_interior(b, c)),
{
}

/// No coordinate lies in the interiors of two distinct rooms of a
/// pairwise non-intersecting sequence, such as the rooms accepted during
/// dungeon generation.
pub proof fn lemma_rooms_interiors_disjoint(rooms: Seq<Rect>, i: int, j: int, c: Coord)
    requires
        pairwise_non_intersecting(rooms),
        0 <= i < rooms.len(),
        0 <= j < rooms.len(),
        i != j,
    ensures
        !(in_interior(rooms[i], c) && in_interior(rooms[j], c)),
{
    if i < j {
        assert(!spec_intersects(rooms[i], rooms[j]));
    } else {
        assert(!spec_intersects(rooms[j], rooms[i]));
    }
}

impl Rect {
    pub fn new(x: i32, y: i32, w: i32, h: i32) -> (r: Self)
        requires
            i32::MIN <= x + w <= i32::MAX,
            i32::MIN <= y + h <= i32::MAX,
        ensures
            r.x1 == x,
            r.y1 == y,
            r.x2 == x + w,
            r.y2 == y + h,
    {
        Rect { x1: x, y1: y, x2: x + w, y2: y + h }
    }

    /// Center of the rectangle, rounding each axis down.
    pub fn center(&self) -> (r: (i32, i32))
        requires
            0 <= self.x1 + self.x2 <= i32::MAX,
            0 <= self.y1 + self.y2 <= i32::MAX,
        ensures
            r.0 == (self.x1 + self.x2) / 2,
            r.1 == (self.y1 + self.y2) / 2,
    {
        let center_x = (self.x1 + self.x2) / 2;
        let center_y = (self.y1 + self.y2) / 2;
        (center_x, center_y)
    }

    /// True iff this rectangle intersects the other one, inclusive of
    /// shared edges.
    pub fn intersects_with(&self, other: &Rect) -> (r: bool)
        ensures
            r == spec_intersects(*self, *other),
    {
        (self.x1 <= other.x2) && (self.x2 >= other.x1) && (self.y1 <= other.y2) && (self.y2
            >= other.y1)
    }
}

/// The dungeon map: a tile grid of `width * height` cells stored in
/// row-major order (`y * width + x`), plus the player's start coordinate.
pub struct GameMap {
    pub tiles: Vec<Tile>,
    pub height: i32,
    pub width: i32,
    pub start: Coord,
}

impl GameMap {
    /// Well-formed map: non-negative dimensions whose product fits in
    /// `i32`, with exactly one tile per cell.
    pub open spec fn wf(self) -> bool {
        &&& 0 <= self.width
        &&& 0 <= self.height
        &&& self.width * self.height <= i32::MAX
        &&& self.tiles@.len() == self.width * self.height
    }

    pub open spec fn spec_in_bounds(self, c: Coord) -> bool {
        0 <= c.x < self.width && 0 <= c.y < self.height
    }

    /// Row-major index of an in-bounds coordinate.
    pub open spec fn spec_index(self, c: Coord) -> int {
        c.y * self.width + c.x
    }

    pub open spec fn spec_tile(self, c: Coord) -> Tile {
        self.tiles@[self.spec_index(c)]
    }

    /// A coordinate can be stepped on iff it is in bounds and its tile
    /// is not blocked; out-of-bounds is merely "not movable", never an
    /// error.
    pub open spec fn spec_can_move(self, c: Coord) -> bool {
        self.spec_in_bounds(c) && !self.spec_tile(c).blocked
    }

    /// The row-major index of an in-bounds coordinate is a valid tile
    /// index.
    pub proof fn lemma_index_in_range(self, c: Coord)
        requires
            self.wf(),
            self.spec_in_bounds(c),
        ensures
            0 <= self.spec_index(c) < self.tiles@.len(),
            self.spec_index(c) <= i32::MAX,
    {
        assert(0 <= c.y * self.width + c.x < self.width * self.height) by (nonlinear_arith)
            requires
                0 <= c.x < self.width,
                0 <= c.y < self.height,
        {}
    }

    /// Distinct in-bounds coordinates have distinct row-major indices.
    pub proof fn lemma_index_injective(self, c1: Coord, c2: Coord)
        requires
            self.wf(),
            self.spec_in_bounds(c1),
            self.spec_in_bounds(c2),
            self.spec_index(c1) == self.spec_index(c2),
        ensures
            c1 == c2,
    {
        assert(c1.x == c2.x && c1.y == c2.y) by (nonlinear_arith)
            requires
                0 <= c1.x < self.width,
                0 <= c2.x < self.width,
                c1.y * self.width + c1.x == c2.y * self.width + c2.x,
        {}
    }

    /// An all-wall map with the start coordinate at the origin.
    pub fn make_empty_map(height: i32, width: i32) -> (m: Self)
        requires
            0 <= height,
            0 <= width,
            height * width <= i32::MAX,
        ensures
            m.wf(),
            m.height == height,
            m.width == width,
            m.start == (Coord { x: 0, y: 0 }),
            forall|i: int| 0 <= i < m.tiles@.len() ==> m.tiles@[i] == wall_tile(),
    {
        proof {
            assert(height * width == width * height) by (nonlinear_arith);
        }
        let size: usize = (height * width) as usize;
        let mut tiles: Vec<Tile> = Vec::new();
        let mut i: usize = 0;
        while i < size
            invariant
                i <= size,
                tiles@.len() == i,
                forall|k: int| 0 <= k < i ==> tiles@[k] == wall_tile(),
            decreases size - i,
        {
            tiles.push(Tile::wall());
            i = i + 1;
        }
        GameMap { height, width, tiles, start: Coord::new(0, 0) }
    }

    pub fn in_bounds(&self, coord: &Coord) -> (r: bool)
        ensures
            r == self.spec_in_bounds(*coord),
    {
        coord.x >= 0 && coord.x < self.width && coord.y >= 0 && coord.y < self.height
    }

    pub fn index(&self, coord: &Coord) -> (r: usize)
        requires
            self.wf(),
            self.spec_in_bounds(*coord),
        ensures
            r == self.spec_index(*coord),
            r < self.tiles@.len(),
    {
        proof {
            self.lemma_index_in_range(*coord);
        }
        (coord.y * self.width + coord.x) as usize
    }

    pub fn vec_size(&self) -> (r: usize)
        requires
            self.wf(),
        ensures
            r == self.width * self.height,
    {
        proof {
            assert(self.height * self.width == self.width * self.height) by (nonlinear_arith);
        }
        (self.height * self.width) as usize
    }

    pub fn get(&self, coord: &Coord) -> (t: Tile)
        requires
            self.wf(),
            self.spec_in_bounds(*coord),
        ensures
            t == self.spec_tile(*coord),
    {
        self.tiles[self.index(coord)]
    }

    pub fn set(&mut self, tile: Tile, coord: &Coord)
        requires
            old(self).wf(),
            old(self).spec_in_bounds(*coord),
        ensures
            final(self).wf(),
            final(self).width == old(self).width,
            final(self).height == old(self).height,
            final(self).start == old(self).start,
            final(self).tiles@ == old(self).tiles@.update(old(self).spec_index(*coord), tile),
    {
        let index = self.index(coord);
        self.tiles[index] = tile;
    }

    pub fn can_move(&self, coord: &Coord) -> (r: bool)
        requires
            self.wf(),
        ensures
            r == self.spec_can_move(*coord),
    {
        self.in_bounds(coord) && !self.get(coord).blocked
    }

    /// Carve the interior of `room` to ground tiles; every other cell
    /// keeps its tile.
    #[verifier::loop_isolation(false)]
    #[verifier::rlimit(60)]
    pub fn add_room(&mut self, room: &Rect)
        requires
            old(self).wf(),
            0 <= room.x1,
            room.x2 <= old(self).width,
            0 <= room.y1,
            room.y2 <= old(self).height,
        ensures
            final(self).wf(),
            final(self).width == old(self).width,
            final(self).height == old(self).height,
            final(self).start == old(self).start,
            forall|c: Coord| #![trigger old(self).spec_tile(c)]
                old(self).spec_in_bounds(c) ==> final(self).spec_tile(c) == (if in_interior(
                    *room,
                    c,
                ) {
                    empty_tile()
                } else {
                    old(self).spec_tile(c)
                }),
    {
        let ghost m0 = *old(self);
        let mut x: i64 = room.x1 as i64 + 1;
        while x < room.x2 as i64
            invariant
                self.wf(),
                self.width == m0.width,
                self.height == m0.height,
                self.start == m0.start,
                self.tiles@.len() == m0.tiles@.len(),
                0 <= room.x1,
                room.x2 <= m0.width,
                0 <= room.y1,
                room.y2 <= m0.height,
                room.x1 < x <= vstd::math::max(room.x1 as int + 1, room.x2 as int),
                forall|c: Coord| #![trigger m0.spec_tile(c)]
                    m0.spec_in_bounds(c) ==> self.spec_tile(c) == (if in_interior(*room, c) && c.x
                        < x {
                        empty_tile()
                    } else {
                        m0.spec_tile(c)
                    }),
            decreases room.x2 as int - x,
        {
            let mut y: i64 = room.y1 as i64 + 1;
            proof {
                assert forall|c: Coord| m0.spec_in_bounds(c) implies #[trigger] self.spec_tile(c)
                    == (if in_interior(*room, c) && (c.x < x || (c.x == x && c.y < y)) {
                    empty_tile()
                } else {
                    m0.spec_tile(c)
                }) by {
                    let t = m0.spec_tile(c);
                    assert(self.spec_tile(c) == (if in_interior(*room, c) && c.x < x {
                        empty_tile()
                    } else {
                        m0.spec_tile(c)
                    }));
                }
            }
            while y < room.y2 as i64
                invariant
                    self.wf(),
                    self.width == m0.width,
                    self.height == m0.height,
                    self.start == m0.start,
                    self.tiles@.len() == m0.tiles@.len(),
                    0 <= room.x1,
                    room.x2 <= m0.width,
                    0 <= room.y1,
                    room.y2 <= m0.height,
                    room.x1 < x < room.x2,
                    room.y1 < y <= vstd::math::max(room.y1 as int + 1, room.y2 as int),
                    forall|c: Coord| #![trigger m0.spec_tile(c)]
                        m0.spec_in_bounds(c) ==> self.spec_tile(c) == (if in_interior(*room, c) && (
                        c.x < x || (c.x == x && c.y < y)) {
                            empty_tile()
                        } else {
                            m0.spec_tile(c)
                        }),
                decreases room.y2 as int - y,
            {
                let ghost prev = *self;
                let cell = Coord::new(x as i32, y as i32);
                self.set(Tile::empty(), &cell);
                proof {
                    assert forall|c: Coord| m0.spec_in_bounds(c) implies #[trigger] self.spec_tile(
                        c,
                    ) == (if in_interior(*room, c) && (c.x < x || (c.x == x && c.y <= y)) {
                        empty_tile()
                    } else {
                        m0.spec_tile(c)
                    }) by {
                        let t = m0.spec_tile(c);
                        prev.lemma_index_in_range(c);
                        prev.lemma_index_in_range(cell);
                        assert(prev.spec_tile(c) == (if in_interior(*room, c) && (c.x < x || (c.x
                            == x && c.y < y)) {
                            empty_tile()
                        } else {
                            m0.spec_tile(c)
                        }));
                        if prev.spec_index(c) == prev.spec_index(cell) {
                            prev.lemma_index_injective(c, cell);
                            assert(c == cell);
                            assert(self.spec_tile(c) == empty_tile());
                        } else {
                            assert(self.tiles@ == prev.tiles@.update(
                                prev.spec_index(cell),
                                empty_tile(),
                            ));
                            assert(prev.tiles@.update(
                                prev.spec_index(cell),
                                empty_tile(),
                            )[prev.spec_index(c)] == prev.tiles@[prev.spec_index(c)]);
                            assert(self.spec_tile(c) == prev.spec_tile(c));
                        }
                    }
                }
                y = y + 1;
            }
            proof {
                assert forall|c: Coord| m0.spec_in_bounds(c) implies #[trigger] self.spec_tile(c)
                    == (if in_interior(*room, c) && c.x < x + 1 {
                    empty_tile()
                } else {
                    m0.spec_tile(c)
                }) by {
                    let t = m0.spec_tile(c);
                    assert(self.spec_tile(c) == (if in_interior(*room, c) && (c.x < x || (c.x == x
                        && c.y < y)) {
                        empty_tile()
                    } else {
                        m0.spec_tile(c)
                    }));
                }
            }
            x = x + 1;
        }
        proof {
            assert forall|c: Coord| m0.spec_in_bounds(c) implies #[trigger] self.spec_tile(c) == (
            if in_interior(*room, c) {
                empty_tile()
            } else {
                m0.spec_tile(c)
            }) by {
                let t = m0.spec_tile(c);
                assert(self.spec_tile(c) == (if in_interior(*room, c) && c.x < x {
                    empty_tile()
                } else {
                    m0.spec_tile(c)
                }));
            }
        }
    }

    /// Carve a 1-tile-wide horizontal line between two x coordinates
    /// (inclusive at both ends) at row `y`.
    #[verifier::loop_isolation(false)]
    #[verifier::rlimit(60)]
    pub fn add_horizontal_tunnel(&mut self, x1: i32, x2: i32, y: i32)
        requires
            old(self).wf(),
            0 <= vstd::math::min(x1 as int, x2 as int),
            vstd::math::max(x1 as int, x2 as int) < old(self).width,
            0 <= y < old(self).height,
        ensures
            final(self).wf(),
            final(self).width == old(self).width,
            final(self).height == old(self).height,
            final(self).start == old(self).start,
            forall|c: Coord| #![trigger old(self).spec_tile(c)]
                old(self).spec_in_bounds(c) ==> final(self).spec_tile(c) == (if c.y == y
                    && vstd::math::min(x1 as int, x2 as int) <= c.x <= vstd::math::max(
                    x1 as int,
                    x2 as int,
                ) {
                    empty_tile()
                } else {
                    old(self).spec_tile(c)
                }),
    {
        let ghost m0 = *old(self);
        let lo: i32 = if x1 <= x2 {
            x1
        } else {
            x2
        };
        let hi: i32 = if x1 <= x2 {
            x2
        } else {
            x1
        };
        let mut x: i64 = lo as i64;
        while x <= hi as i64
            invariant
                self.wf(),
                self.width == m0.width,
                self.height == m0.height,
                self.start == m0.start,
                self.tiles@.len() == m0.tiles@.len(),
                lo == vstd::math::min(x1 as int, x2 as int),
                hi == vstd::math::max(x1 as int, x2 as int),
                0 <= lo,
                hi < m0.width,
                0 <= y < m0.height,
                lo <= x <= hi + 1,
                forall|c: Coord| #![trigger m0.spec_tile(c)]
                    m0.spec_in_bounds(c) ==> self.spec_tile(c) == (if c.y == y && lo <= c.x < x {
                        empty_tile()
                    } else {
                        m0.spec_tile(c)
                    }),
            decreases hi as int + 1 - x,
        {
            let ghost prev = *self;
            let cell = Coord::new(x as i32, y);
            self.set(Tile::empty(), &cell);
            proof {
                assert forall|c: Coord| m0.spec_in_bounds(c) implies #[trigger] self.spec_tile(c)
                    == (if c.y == y && lo <= c.x <= x {
                    empty_tile()
                } else {
                    m0.spec_tile(c)
                }) by {
                    let t = m0.spec_tile(c);
                    prev.lemma_index_in_range(c);
                    prev.lemma_index_in_range(cell);
                    assert(prev.spec_tile(c) == (if c.y == y && lo <= c.x < x {
                        empty_tile()
                    } else {
                        m0.spec_tile(c)
                    }));
                    if prev.spec_index(c) == prev.spec_index(cell) {
                        prev.lemma_index_injective(c, cell);
                        assert(self.spec_tile(c) == empty_tile());
                    } else {
                        assert(self.tiles@ == prev.tiles@.update(
                            prev.spec_index(cell),
                            empty_tile(),
                        ));
                        assert(prev.tiles@.update(
                            prev.spec_index(cell),
                            empty_tile(),
                        )[prev.spec_index(c)] == prev.tiles@[prev.spec_index(c)]);
                        assert(self.spec_tile(c) == prev.spec_tile(c));
                    }
                }
            }
            x = x + 1;
        }
        proof {
            assert forall|c: Coord| m0.spec_in_bounds(c) implies #[trigger] self.spec_tile(c) == (
            if c.y == y && lo <= c.x <= hi {
                empty_tile()
            } else {
                m0.spec_tile(c)
            }) by {
                let t = m0.spec_tile(c);
                assert(self.spec_tile(c) == (if c.y == y && lo <= c.x < x {
                    empty_tile()
                } else {
                    m0.spec_tile(c)
                }));
            }
        }
    }

    /// Carve a 1-tile-wide vertical line between two y coordinates
    /// (inclusive at both ends) at column `x`.
    #[verifier::loop_isolation(false)]
    #[verifier::rlimit(60)]
    pub fn add_vertical_tunnel(&mut self, y1: i32, y2: i32, x: i32)
        requires
            old(self).wf(),
            0 <= vstd::math::min(y1 as int, y2 as int),
            vstd::math::max(y1 as int, y2 as int) < old(self).height,
            0 <= x < old(self).width,
        ensures
            final(self).wf(),
            final(self).width == old(self).width,
            final(self).height == old(self).height,
            final(self).start == old(self).start,
            forall|c: Coord| #![trigger old(self).spec_tile(c)]
                old(self).spec_in_bounds(c) ==> final(self).spec_tile(c) == (if c.x == x
                    && vstd::math::min(y1 as int, y2 as int) <= c.y <= vstd::math::max(
                    y1 as int,
                    y2 as int,
                ) {
                    empty_tile()
                } else {
                    old(self).spec_tile(c)
                }),
    {
        let ghost m0 = *old(self);
        let lo: i32 = if y1 <= y2 {
            y1
        } else {
            y2
        };
        let hi: i32 = if y1 <= y2 {
            y2
        } else {
            y1
        };
        let mut y: i64 = lo as i64;
        while y <= hi as i64
            invariant
                self.wf(),
                self.width == m0.width,
                self.height == m0.height,
                self.start == m0.start,
                self.tiles@.len() == m0.tiles@.len(),
                lo == vstd::math::min(y1 as int, y2 as int),
                hi == vstd::math::max(y1 as int, y2 as int),
                0 <= lo,
                hi < m0.height,
                0 <= x < m0.width,
                lo <= y <= hi + 1,
                forall|c: Coord| #![trigger m0.spec_tile(c)]
                    m0.spec_in_bounds(c) ==> self.spec_tile(c) == (if c.x == x && lo <= c.y < y {
                        empty_tile()
                    } else {
                        m0.spec_tile(c)
                    }),
            decreases hi as int + 1 - y,
        {
            let ghost prev = *self;
            let cell = Coord::new(x, y as i32);
            self.set(Tile::empty(), &cell);
            proof {
                assert forall|c: Coord| m0.spec_in_bounds(c) implies #[trigger] self.spec_tile(c)
                    == (if c.x == x && lo <= c.y <= y {
                    empty_tile()
                } else {
                    m0.spec_tile(c)
                }) by {
                    let t = m0.spec_tile(c);
                    prev.lemma_index_in_range(c);
                    prev.lemma_index_in_range(cell);
                    assert(prev.spec_tile(c) == (if c.x == x && lo <= c.y < y {
                        empty_tile()
                    } else {
                        m0.spec_tile(c)
                    }));
                    if prev.spec_index(c) == prev.spec_index(cell) {
                        prev.lemma_index_injective(c, cell);
                        assert(self.spec_tile(c) == empty_tile());
                    } else {
                        assert(self.tiles@ == prev.tiles@.update(
                            prev.spec_index(cell),
                            empty_tile(),
                        ));
                        assert(prev.tiles@.update(
                            prev.spec_index(cell),
                            empty_tile(),
                        )[prev.spec_index(c)] == prev.tiles@[prev.spec_index(c)]);
                        assert(self.spec_tile(c) == prev.spec_tile(c));
                    }
                }
            }
            y = y + 1;
        }
        proof {
            assert forall|c: Coord| m0.spec_in_bounds(c) implies #[trigger] self.spec_tile(c) == (
            if c.x == x && lo <= c.y <= hi {
                empty_tile()
            } else {
                m0.spec_tile(c)
            }) by {
                let t = m0.spec_tile(c);
                assert(self.spec_tile(c) == (if c.x == x && lo <= c.y < y {
                    empty_tile()
                } else {
                    m0.spec_tile(c)
                }));
            }
        }
    }
}

/// A room acceptable to the generator: within the map with at least a
/// 1-tile wall margin on the far edges, and wide enough for its center
/// to lie in its interior.
pub open spec fn room_ok(r: Rect, width: int, height: int) -> bool {
    &&& 0 <= r.x1
    &&& r.x1 + 2 <= r.x2
    &&& r.x2 <= width - 1
    &&& 0 <= r.y1
    &&& r.y1 + 2 <= r.y2
    &&& r.y2 <= height - 1
}

/// The (rounded-down) center of a sufficiently wide rectangle lies in
/// its interior.
pub proof fn lemma_center_in_interior(r: Rect)
    requires
        0 <= r.x1,
        r.x1 + 2 <= r.x2,
        0 <= r.y1,
        r.y1 + 2 <= r.y2,
    ensures
        in_interior(
            r,
            Coord { x: ((r.x1 + r.x2) / 2) as i32, y: ((r.y1 + r.y2) / 2) as i32 },
        ),
{
    vstd::arithmetic::div_mod::lemma_div_multiples_vanish(r.x1 as int + 1, 2);
    vstd::arithmetic::div_mod::lemma_div_is_ordered(2 * (r.x1 as int + 1), r.x1 + r.x2, 2);
    vstd::arithmetic::div_mod::lemma_div_multiples_vanish(r.x2 as int - 1, 2);
    vstd::arithmetic::div_mod::lemma_div_is_ordered(r.x1 + r.x2, 2 * (r.x2 as int - 1), 2);
    vstd::arithmetic::div_mod::lemma_div_multiples_vanish(r.y1 as int + 1, 2);
    vstd::arithmetic::div_mod::lemma_div_is_ordered(2 * (r.y1 as int + 1), r.y1 + r.y2, 2);
    vstd::arithmetic::div_mod::lemma_div_multiples_vanish(r.y2 as int - 1, 2);
    vstd::arithmetic::div_mod::lemma_div_is_ordered(r.y1 + r.y2, 2 * (r.y2 as int - 1), 2);
}

/// True iff `room` intersects one of the already accepted rooms.
fn any_intersects(rooms: &Vec<Rect>, room: &Rect) -> (r: bool)
    ensures
        r == exists|k: int| 0 <= k < rooms@.len() && spec_intersects(*room, #[trigger] rooms@[k]),
{
    let mut found = false;
    let mut i: usize = 0;
    while i < rooms.len()
        invariant
            i <= rooms@.len(),
            found == exists|k: int| 0 <= k < i && spec_intersects(*room, #[trigger] rooms@[k]),
        decreases rooms@.len() - i,
    {
        if room.intersects_with(&rooms[i]) {
            found = true;
        }
        i = i + 1;
    }
    found
}

impl GameMap {
    /// Generate a dungeon by attempting up to 10 rooms with uniformly
    /// sampled sizes and positions, rejecting any that intersects an
    /// accepted room, and connecting each accepted room to the previous
    /// one with an L-shaped tunnel whose bend is chosen by a coin flip.
    /// The first accepted room's center becomes the start coordinate,
    /// which is always walkable; accepted rooms never overlap, whatever
    /// the random values.
    #[verifier::loop_isolation(false)]
    #[verifier::rlimit(100)]
    pub fn make_dungeon_map(height: i32, width: i32) -> (m: Self)
        requires
            11 <= height,
            11 <= width,
            height * width <= i32::MAX,
        ensures
            m.wf(),
            m.height == height,
            m.width == width,
            m.spec_can_move(m.start),
            m.spec_tile(m.start) == empty_tile(),
    {
        let max_rooms: i32 = 10;
        let room_min_size: i32 = 6;
        let room_max_size: i32 = 10;

        proof {
            assert(11 * width <= width * height && 11 * height <= width * height && width * height
                == height * width) by (nonlinear_arith)
                requires
                    11 <= height,
                    11 <= width,
            {}
        }

        let mut map = Self::make_empty_map(height, width);
        let mut rooms: Vec<Rect> = Vec::new();

        let mut attempt: i32 = 0;
        while attempt < max_rooms
            invariant
                map.wf(),
                map.height == height,
                map.width == width,
                0 <= attempt <= max_rooms,
                forall|k: int| 0 <= k < rooms@.len() ==> room_ok(#[trigger] rooms@[k], width as int, height as int),
                pairwise_non_intersecting(rooms@),
                attempt > 0 ==> rooms@.len() > 0,
                rooms@.len() > 0 ==> map.spec_can_move(map.start) && map.spec_tile(map.start)
                    == empty_tile(),
            decreases max_rooms - attempt,
        {
            let w = crate::rng::rand_range(room_min_size, room_max_size + 1);
            let h = crate::rng::rand_range(room_min_size, room_max_size + 1);
            let x = crate::rng::rand_range(0, width - w);
            let y = crate::rng::rand_range(0, height - h);
            let room = Rect::new(x, y, w, h);

            let failed = any_intersects(&rooms, &room);
            if !failed {
                let ghost m_before = map;
                map.add_room(&room);
                let (new_x, new_y) = room.center();
                proof {
                    lemma_center_in_interior(room);
                }
                if rooms.len() == 0 {
                    map.start = Coord::new(new_x, new_y);
                    proof {
                        let t = m_before.spec_tile(map.start);
                        assert(map.spec_tile(map.start) == empty_tile());
                    }
                } else {
                    let prev_room = rooms[rooms.len() - 1];
                    let (prev_x, prev_y) = prev_room.center();
                    proof {
                        lemma_center_in_interior(prev_room);
                        let t = m_before.spec_tile(map.start);
                        assert(map.spec_can_move(map.start) && map.spec_tile(map.start)
                            == empty_tile());
                    }
                    let ghost m1 = map;
                    if crate::rng::rand_coin() {
                        map.add_horizontal_tunnel(prev_x, new_x, prev_y);
                        proof {
                            let t1 = m1.spec_tile(map.start);
                            assert(map.spec_can_move(map.start) && map.spec_tile(map.start)
                                == empty_tile());
                        }
                        let ghost m2 = map;
                        map.add_vertical_tunnel(prev_y, new_y, new_x);
                        proof {
                            let t2 = m2.spec_tile(map.start);
                            assert(map.spec_can_move(map.start) && map.spec_tile(map.start)
                                == empty_tile());
                        }
                    } else {
                        map.add_vertical_tunnel(prev_y, new_y, prev_x);
                        proof {
                            let t1 = m1.spec_tile(map.start);
                            assert(map.spec_can_move(map.start) && map.spec_tile(map.start)
                                == empty_tile());
                        }
                        let ghost m2 = map;
                        map.add_horizontal_tunnel(prev_x, new_x, new_y);
                        proof {
                            let t2 = m2.spec_tile(map.start);
                            assert(map.spec_can_move(map.start) && map.spec_tile(map.start)
                                == empty_tile());
                        }
                    }
                }
                let ghost rooms_before = rooms@;
                rooms.push(room);
                proof {
                    assert forall|i: int, j: int| 0 <= i < j < rooms@.len() implies !spec_intersects(
                        rooms@[i],
                        rooms@[j],
                    ) by {
                        if j < rooms_before.len() {
                            assert(!spec_intersects(rooms_before[i], rooms_before[j]));
                        } else {
                            assert(!spec_intersects(room, rooms_before[i]));
                        }
                    }
                }
            }
            attempt = attempt + 1;
        }
        map
    }
}

impl GameMap {
    /// Character at column-major print position: row `y` of column `x`,
    /// with a newline ending each column block.
    pub open spec fn spec_render_char(self, x: int, y: int) -> char {
        if y == self.height {
            '\n'
        } else if self.spec_tile(Coord { x: x as i32, y: y as i32 }).blocked {
            '#'
        } else {
            '.'
        }
    }

    /// Dump the grid as text, one line per column `x`, walls as `#` and
    /// ground as `.`.
    #[verifier::loop_isolation(false)]
    pub fn to_s(&self) -> (s: String)
        requires
            self.wf(),
        ensures
            s@.len() == self.width * (self.height + 1),
            forall|x: int, y: int|
                0 <= x < self.width && 0 <= y <= self.height ==> s@[x * (self.height + 1) + y]
                    == #[trigger] self.spec_render_char(x, y),
    {
        let ghost h1 = self.height as int + 1;
        let mut s = String::new();
        let mut x: i32 = 0;
        while x < self.width
            invariant
                0 <= x <= self.width,
                s@.len() == x * h1,
                forall|x2: int, y2: int|
                    0 <= x2 < x && 0 <= y2 <= self.height ==> s@[x2 * h1 + y2]
                        == #[trigger] self.spec_render_char(x2, y2),
            decreases self.width - x,
        {
            proof {
                assert(x * h1 + h1 == (x + 1) * h1) by (nonlinear_arith);
                assert(x * h1 >= 0 && (x + 1) * h1 <= self.width * h1) by (nonlinear_arith)
                    requires
                        0 <= x < self.width,
                        0 < h1,
                {}
            }
            let mut y: i32 = 0;
            while y < self.height
                invariant
                    0 <= y <= self.height,
                    s@.len() == x * h1 + y,
                    forall|x2: int, y2: int|
                        0 <= x2 < x && 0 <= y2 <= self.height ==> s@[x2 * h1 + y2]
                            == #[trigger] self.spec_render_char(x2, y2),
                    forall|y2: int|
                        0 <= y2 < y ==> s@[x * h1 + y2] == #[trigger] self.spec_render_char(
                            x as int,
                            y2,
                        ),
                decreases self.height - y,
            {
                let tile = self.get(&Coord::new(x, y));
                let ghost s_old = s@;
                if tile.blocked {
                    s.append("#");
                } else {
                    s.append(".");
                }
                proof {
                    reveal_strlit("#");
                    reveal_strlit(".");
                    assert forall|x2: int, y2: int|
                        0 <= x2 < x && 0 <= y2 <= self.height implies s@[x2 * h1 + y2]
                        == #[trigger] self.spec_render_char(x2, y2) by {
                        assert(0 <= x2 * h1 + y2 < s_old.len()) by (nonlinear_arith)
                            requires
                                0 <= x2 < x,
                                0 <= y2 <= self.height,
                                h1 == self.height + 1,
                                s_old.len() == x * h1 + y,
                                0 <= y,
                        {}
                        assert(s@[x2 * h1 + y2] == s_old[x2 * h1 + y2]);
                    }
                    assert forall|y2: int| 0 <= y2 < y + 1 implies s@[x * h1 + y2]
                        == #[trigger] self.spec_render_char(x as int, y2) by {
                        if y2 < y {
                            assert(s@[x * h1 + y2] == s_old[x * h1 + y2]);
                        } else {
                            assert(s@[x * h1 + y2] == s@[s_old.len() as int]);
                        }
                    }
                }
                y = y + 1;
            }
            let ghost s_old = s@;
            s.append("\n");
            proof {
                reveal_strlit("\n");
                assert forall|x2: int, y2: int|
                    0 <= x2 < x + 1 && 0 <= y2 <= self.height implies s@[x2 * h1 + y2]
                    == #[trigger] self.spec_render_char(x2, y2) by {
                    if x2 < x {
                        assert(0 <= x2 * h1 + y2 < s_old.len()) by (nonlinear_arith)
                            requires
                                0 <= x2 < x,
                                0 <= y2 <= self.height,
                                h1 == self.height + 1,
                                s_old.len() == x * h1 + self.height,
                        {}
                        assert(s@[x2 * h1 + y2] == s_old[x2 * h1 + y2]);
                    } else {
                        if y2 < self.height {
                            assert(s@[x2 * h1 + y2] == s_old[x2 * h1 + y2]);
                        } else {
                            assert(x2 * h1 + y2 == s_old.len());
                            assert(s@[x2 * h1 + y2] == s@[s_old.len() as int]);
                        }
                    }
                }
                assert(x * h1 + h1 == (x + 1) * h1) by (nonlinear_arith);
            }
            x = x + 1;
        }
        s
    }
}

} // verus!
