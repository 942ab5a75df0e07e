//! Visibility bookkeeping around the external field-of-view engine:
//! the per-cell inputs the engine needs, permanent marking of explored
//! tiles from a computed visible set, and the palette decision for
//! drawing a tile.

use vstd::prelude::*;

verus! {

use crate::coord::Coord;
use crate::map::{Color, GameMap, Tile};

/// `t` with its explored flag raised and all else kept.
pub open spec fn explored_tile(t: Tile) -> Tile {
    Tile {
        blocked: t.blocked,
        block_sight: t.block_sight,
        bg_lit: t.bg_lit,
        bg_dark: t.bg_dark,
        explored: true,
    }
}

/// Per-cell `(transparent, walkable)` pairs in row-major order: the
/// grid from which the external visibility engine is built.
pub fn fov_inputs(map: &GameMap) -> (r: Vec<(bool, bool)>)
    requires
        map.wf(),
    ensures
        r@.len() == map.tiles@.len(),
        forall|i: int|
            0 <= i < map.tiles@.len() ==> #[trigger] r@[i] == (
                !map.tiles@[i].block_sight,
                !map.tiles@[i].blocked,
            ),
        forall|c: Coord|
            map.spec_in_bounds(c) ==> #[trigger] r@[map.spec_index(c)] == (
                !map.spec_tile(c).block_sight,
                !map.spec_tile(c).blocked,
            ),
{
    let n = map.tiles.len();
    let mut r: Vec<(bool, bool)> = Vec::new();
    let mut i: usize = 0;
    while i < n
        invariant
            map.wf(),
            n == map.tiles@.len(),
            i <= n,
            r@.len() == i,
            forall|k: int|
                0 <= k < i ==> #[trigger] r@[k] == (
                    !map.tiles@[k].block_sight,
                    !map.tiles@[k].blocked,
                ),
        decreases n - i,
    {
        let t = map.tiles[i];
        r.push((!t.block_sight, !t.blocked));
        i = i + 1;
    }
    proof {
        assert forall|c: Coord| map.spec_in_bounds(c) implies #[trigger] r@[map.spec_index(c)]
            == (!map.spec_tile(c).block_sight, !map.spec_tile(c).blocked) by {
            map.lemma_index_in_range(c);
        }
    }
    r
}

/// Mark every in-bounds coordinate of the computed visible set as
/// explored, permanently; nothing else of any tile changes.
#[verifier::loop_isolation(false)]
pub fn mark_explored(map: &mut GameMap, visible: &Vec<Coord>)
    requires
        old(map).wf(),
    ensures
        final(map).wf(),
        final(map).width == old(map).width,
        final(map).height == old(map).height,
        final(map).start == old(map).start,
        forall|c: Coord| #![trigger old(map).spec_tile(c)]
            old(map).spec_in_bounds(c) ==> final(map).spec_tile(c) == (if visible@.contains(c) {
                explored_tile(old(map).spec_tile(c))
            } else {
                old(map).spec_tile(c)
            }),
{
    let ghost m0 = *old(map);
    let n = visible.len();
    let mut i: usize = 0;
    while i < n
        invariant
            map.wf(),
            map.width == m0.width,
            map.height == m0.height,
            map.start == m0.start,
            map.tiles@.len() == m0.tiles@.len(),
            i <= n,
            forall|c: Coord| #![trigger m0.spec_tile(c)]
                m0.spec_in_bounds(c) ==> map.spec_tile(c) == (if visible@.subrange(
                    0,
                    i as int,
                ).contains(c) {
                    explored_tile(m0.spec_tile(c))
                } else {
                    m0.spec_tile(c)
                }),
        decreases n - i,
    {
        let c = visible[i];
        let ghost prev = *map;
        if map.in_bounds(&c) {
            let t = map.get(&c);
            map.set(
                Tile {
                    blocked: t.blocked,
                    block_sight: t.block_sight,
                    bg_lit: t.bg_lit,
                    bg_dark: t.bg_dark,
                    explored: true,
                },
                &c,
            );
        }
        proof {
            assert forall|c2: Coord| m0.spec_in_bounds(c2) implies #[trigger] map.spec_tile(c2)
                == (if visible@.subrange(0, i as int + 1).contains(c2) {
                explored_tile(m0.spec_tile(c2))
            } else {
                m0.spec_tile(c2)
            }) by {
                let t2 = m0.spec_tile(c2);
                prev.lemma_index_in_range(c2);
                assert(prev.spec_tile(c2) == (if visible@.subrange(0, i as int).contains(c2) {
                    explored_tile(m0.spec_tile(c2))
                } else {
                    m0.spec_tile(c2)
                }));
                if visible@.subrange(0, i as int).contains(c2) {
                    let ghost k = choose|k: int|
                        0 <= k < i && #[trigger] visible@.subrange(0, i as int)[k] == c2;
                    assert(visible@.subrange(0, i as int + 1)[k] == c2);
                }
                if m0.spec_in_bounds(c) {
                    prev.lemma_index_in_range(c);
                    if prev.spec_index(c2) == prev.spec_index(c) {
                        prev.lemma_index_injective(c2, c);
                    }
                }
                if c2 == c {
                    assert(visible@.subrange(0, i as int + 1)[i as int] == c2);
                } else {
                    if visible@.subrange(0, i as int + 1).contains(c2) {
                        let ghost k2 = choose|k2: int|
                            0 <= k2 < i + 1 && #[trigger] visible@.subrange(0, i as int + 1)[k2]
                                == c2;
                        assert(k2 < i);
                        assert(visible@.subrange(0, i as int)[k2] == c2);
                    }
                }
            }
        }
        i = i + 1;
    }
    proof {
        assert(visible@.subrange(0, n as int) =~= visible@);
    }
}

/// The palette for one tile this frame: the lit background when
/// currently visible, the dark background when explored but not
/// visible, and nothing at all otherwise.
pub fn tile_render(tile: &Tile, visible: bool) -> (r: Option<Color>)
    ensures
        r == (if visible {
            Some(tile.bg_lit)
        } else if tile.explored {
            Some(tile.bg_dark)
        } else {
            None::<Color>
        }),
{
    if visible {
        Some(tile.bg_lit)
    } else if tile.explored {
        Some(tile.bg_dark)
    } else {
        None
    }
}

} // verus!
