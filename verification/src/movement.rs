//! The movement stage: a per-turn occupancy grid rebuilt from current
//! positions, and resolution of queued movement intents against map
//! blocking and occupancy, raising combat intents on entity collision.

use vstd::prelude::*;

verus! {

use crate::components::{CollisionComponent, CombatEvent, FighterComponent, MoveEvent,
    MovementComponent, PositionComponent};
use crate::coord::Coord;
use crate::map::GameMap;
use crate::world::{Entity, World};

/// The per-turn coordinate-to-entity index: one optional occupant per
/// map cell.
pub struct OccupancyGrid {
    pub width: i32,
    pub height: i32,
    pub cells: Vec<Option<Entity>>,
}

impl OccupancyGrid {
    pub open spec fn wf(self) -> bool {
        &&& 0 <= self.width
        &&& 0 <= self.height
        &&& self.width * self.height <= i32::MAX
        &&& self.cells@.len() == self.width * self.height
    }

    pub open spec fn spec_in_bounds(self, c: Coord) -> bool {
        0 <= c.x < self.width && 0 <= c.y < self.height
    }

    pub open spec fn spec_index(self, c: Coord) -> int {
        c.y * self.width + c.x
    }

    /// The occupant of a cell; out-of-bounds coordinates hold nobody.
    pub open spec fn at(self, c: Coord) -> Option<Entity> {
        if self.spec_in_bounds(c) {
            self.cells@[self.spec_index(c)]
        } else {
            None
        }
    }

    /// The grid as a partial map from coordinates to occupants.
    pub open spec fn view_map(self) -> Map<Coord, Entity> {
        Map::new(|c: Coord| self.at(c) is Some, |c: Coord| self.at(c).unwrap())
    }

    pub proof fn lemma_index_in_range(self, c: Coord)
        requires
            self.wf(),
            self.spec_in_bounds(c),
        ensures
            0 <= self.spec_index(c) < self.cells@.len(),
    {
        assert(0 <= c.y * self.width + c.x < self.width * self.height) by (nonlinear_arith)
            requires
                0 <= c.x < self.width,
                0 <= c.y < self.height,
        {}
    }

    pub proof fn lemma_index_injective(self, c1: Coord, c2: Coord)
        requires
            self.wf(),
            self.spec_in_bounds(c1),
            self.spec_in_bounds(c2),
            self.spec_index(c1) == self.spec_index(c2),
        ensures
            c1 == c2,
    {
        assert(c1.x == c2.x && c1.y == c2.y) by (nonlinear_arith)
            requires
                0 <= c1.x < self.width,
                0 <= c2.x < self.width,
                c1.y * self.width + c1.x == c2.y * self.width + c2.x,
        {}
    }

    /// An empty grid of the given dimensions.
    pub fn new(width: i32, height: i32) -> (g: Self)
        requires
            0 <= width,
            0 <= height,
            width * height <= i32::MAX,
        ensures
            g.wf(),
            g.width == width,
            g.height == height,
            forall|c: Coord| #[trigger] g.at(c) is None,
    {
        proof {
            assert(width * height >= 0) by (nonlinear_arith)
                requires
                    0 <= width,
                    0 <= height,
            {}
        }
        let size: usize = (width * height) as usize;
        let mut cells: Vec<Option<Entity>> = Vec::new();
        let mut i: usize = 0;
        while i < size
            invariant
                i <= size,
                cells@.len() == i,
                forall|k: int| 0 <= k < i ==> cells@[k] is None,
            decreases size - i,
        {
            cells.push(None);
            i = i + 1;
        }
        let g = OccupancyGrid { width, height, cells };
        proof {
            assert forall|c: Coord| #[trigger] g.at(c) is None by {
                if g.spec_in_bounds(c) {
                    g.lemma_index_in_range(c);
                }
            }
        }
        g
    }

    /// The occupant at `c`, or `None` out of bounds.
    pub fn get(&self, c: &Coord) -> (r: Option<Entity>)
        requires
            self.wf(),
        ensures
            r == self.at(*c),
    {
        if c.x >= 0 && c.x < self.width && c.y >= 0 && c.y < self.height {
            proof {
                self.lemma_index_in_range(*c);
            }
            self.cells[(c.y * self.width + c.x) as usize]
        } else {
            None
        }
    }

    /// Record `e` as the occupant of the in-bounds cell `c`.
    pub fn put(&mut self, c: &Coord, e: Entity)
        requires
            old(self).wf(),
            old(self).spec_in_bounds(*c),
        ensures
            final(self).wf(),
            final(self).width == old(self).width,
            final(self).height == old(self).height,
            forall|c2: Coord| #[trigger] final(self).at(c2) == (if c2 == *c {
                Some(e)
            } else {
                old(self).at(c2)
            }),
    {
        let ghost prev = *old(self);
        proof {
            self.lemma_index_in_range(*c);
        }
        let idx: usize = (c.y * self.width + c.x) as usize;
        self.cells[idx] = Some(e);
        proof {
            assert forall|c2: Coord| #[trigger] self.at(c2) == (if c2 == *c {
                Some(e)
            } else {
                prev.at(c2)
            }) by {
                if prev.spec_in_bounds(c2) {
                    prev.lemma_index_in_range(c2);
                    if prev.spec_index(c2) == prev.spec_index(*c) {
                        prev.lemma_index_injective(c2, *c);
                    }
                }
            }
        }
    }

    /// Clear whatever occupies `c`; a no-op out of bounds.
    pub fn clear_cell(&mut self, c: &Coord)
        requires
            old(self).wf(),
        ensures
            final(self).wf(),
            final(self).width == old(self).width,
            final(self).height == old(self).height,
            forall|c2: Coord| #[trigger] final(self).at(c2) == (if c2 == *c {
                None::<Entity>
            } else {
                old(self).at(c2)
            }),
    {
        let ghost prev = *old(self);
        if c.x >= 0 && c.x < self.width && c.y >= 0 && c.y < self.height {
            proof {
                self.lemma_index_in_range(*c);
            }
            let idx: usize = (c.y * self.width + c.x) as usize;
            self.cells[idx] = None;
            proof {
                assert forall|c2: Coord| #[trigger] self.at(c2) == (if c2 == *c {
                    None::<Entity>
                } else {
                    prev.at(c2)
                }) by {
                    if prev.spec_in_bounds(c2) {
                        prev.lemma_index_in_range(c2);
                        if prev.spec_index(c2) == prev.spec_index(*c) {
                            prev.lemma_index_injective(c2, *c);
                        }
                    }
                }
            }
        }
    }
}

/// All positioned entities stand in bounds of the map.
pub open spec fn positions_in_bounds(ps: Seq<Option<PositionComponent>>, map: GameMap) -> bool {
    forall|e: int|
        0 <= e < ps.len() && #[trigger] ps[e] is Some ==> map.spec_in_bounds(ps[e].unwrap().coord)
}

/// No two positioned entities share a coordinate.
pub open spec fn positions_distinct(ps: Seq<Option<PositionComponent>>) -> bool {
    forall|e1: int, e2: int|
        0 <= e1 < e2 < ps.len() && #[trigger] ps[e1] is Some && #[trigger] ps[e2] is Some
            ==> ps[e1].unwrap().coord != ps[e2].unwrap().coord
}

/// The occupancy map is an exact bijection-by-coordinate image of the
/// current positions: every positioned entity occupies its coordinate,
/// and every occupied coordinate is the position of its occupant.
pub open spec fn occ_consistent(ps: Seq<Option<PositionComponent>>, occ: Map<Coord, Entity>) -> bool {
    &&& forall|e: int|
        0 <= e < ps.len() && #[trigger] ps[e] is Some ==> {
            let c = ps[e].unwrap().coord;
            occ.dom().contains(c) && occ[c] == (Entity { id: e as usize })
        }
    &&& forall|c: Coord|
        #[trigger] occ.dom().contains(c) ==> {
            let e = occ[c];
            &&& e.id < ps.len()
            &&& ps[e.id as int] is Some
            &&& ps[e.id as int].unwrap().coord == c
        }
}

/// The occupancy map determined by a distinct set of positions.
pub open spec fn positions_occ(ps: Seq<Option<PositionComponent>>) -> Map<Coord, Entity> {
    Map::new(
        |c: Coord|
            exists|e: int| 0 <= e < ps.len() && #[trigger] ps[e] is Some && ps[e].unwrap().coord
                == c,
        |c: Coord|
            Entity {
                id: (choose|e: int|
                    0 <= e < ps.len() && #[trigger] ps[e] is Some && ps[e].unwrap().coord
                        == c) as usize,
            },
    )
}

/// The per-entity combat mailboxes, as sequences of records; entities
/// without a fighter get an empty one.
pub open spec fn fighter_events_view(fs: Seq<Option<FighterComponent>>) -> Seq<Seq<CombatEvent>> {
    Seq::new(
        fs.len(),
        |e: int|
            if fs[e] is Some {
                fs[e].unwrap().events@
            } else {
                Seq::empty()
            },
    )
}

/// Fighter presence and combat statistics are untouched; only the
/// mailbox may differ.
pub open spec fn fighter_stats_preserved(
    a: Option<FighterComponent>,
    b: Option<FighterComponent>,
) -> bool {
    match (a, b) {
        (Some(f0), Some(f1)) => {
            &&& f1.max_hp == f0.max_hp
            &&& f1.hp == f0.hp
            &&& f1.defense == f0.defense
            &&& f1.power == f0.power
        },
        (None, None) => true,
        _ => false,
    }
}

/// The target cell of one movement intent is in bounds and unblocked.
pub open spec fn target_ok(map: GameMap, c: Coord, v: Coord) -> bool {
    &&& 0 <= c.x + v.x < map.width
    &&& 0 <= c.y + v.y < map.height
    &&& !map.spec_tile(target_coord(c, v)).blocked
}

pub open spec fn target_coord(c: Coord, v: Coord) -> Coord {
    Coord { x: (c.x + v.x) as i32, y: (c.y + v.y) as i32 }
}

/// One movement intent of entity `e`, resolved against the map and the
/// occupancy so far. The state is (positions, combat mailboxes,
/// occupancy). A blocked or out-of-bounds target drops the intent; a
/// cell occupied by another entity blocks the move and raises a combat
/// intent exactly when the occupant has a collision queue and a fighter
/// and `e` has a fighter; a vacant cell (or the entity's own) receives
/// the entity.
pub open spec fn move_step(
    map: GameMap,
    cs: Seq<Option<CollisionComponent>>,
    fs: Seq<Option<FighterComponent>>,
    st: (Seq<Option<PositionComponent>>, Seq<Seq<CombatEvent>>, Map<Coord, Entity>),
    e: int,
    v: Coord,
) -> (Seq<Option<PositionComponent>>, Seq<Seq<CombatEvent>>, Map<Coord, Entity>) {
    let ps = st.0;
    let fev = st.1;
    let occ = st.2;
    if !(0 <= e < ps.len() && ps[e] is Some) {
        st
    } else {
        let c0 = ps[e].unwrap().coord;
        if !target_ok(map, c0, v) {
            st
        } else {
            let t = target_coord(c0, v);
            if occ.dom().contains(t) && occ[t].id != e {
                let other = occ[t].id as int;
                if other < cs.len() && cs[other] is Some && other < fs.len() && fs[other] is Some
                    && e < fs.len() && fs[e] is Some && e < fev.len() {
                    (
                        ps,
                        fev.update(
                            e,
                            fev[e].push(
                                CombatEvent {
                                    attacker: Entity { id: e as usize },
                                    attackee: Entity { id: other as usize },
                                },
                            ),
                        ),
                        occ,
                    )
                } else {
                    st
                }
            } else {
                (
                    ps.update(e, Some(PositionComponent { coord: t, map: ps[e].unwrap().map })),
                    fev,
                    occ.remove(c0).insert(t, Entity { id: e as usize }),
                )
            }
        }
    }
}

/// All queued intents of entity `e`, in queue order.
pub open spec fn entity_steps(
    map: GameMap,
    cs: Seq<Option<CollisionComponent>>,
    fs: Seq<Option<FighterComponent>>,
    st: (Seq<Option<PositionComponent>>, Seq<Seq<CombatEvent>>, Map<Coord, Entity>),
    e: int,
    evs: Seq<MoveEvent>,
) -> (Seq<Option<PositionComponent>>, Seq<Seq<CombatEvent>>, Map<Coord, Entity>)
    decreases evs.len(),
{
    if evs.len() == 0 {
        st
    } else {
        entity_steps(map, cs, fs, move_step(map, cs, fs, st, e, evs[0].coord), e, evs.skip(1))
    }
}

/// The whole movement stage: entities in identifier order, each
/// processing its queue in order.
pub open spec fn all_steps(
    map: GameMap,
    cs: Seq<Option<CollisionComponent>>,
    fs: Seq<Option<FighterComponent>>,
    ms: Seq<Option<MovementComponent>>,
    st: (Seq<Option<PositionComponent>>, Seq<Seq<CombatEvent>>, Map<Coord, Entity>),
    upto: int,
) -> (Seq<Option<PositionComponent>>, Seq<Seq<CombatEvent>>, Map<Coord, Entity>)
    decreases upto,
{
    if upto <= 0 {
        st
    } else {
        let prev = all_steps(map, cs, fs, ms, st, upto - 1);
        if ms[upto - 1] is Some {
            entity_steps(map, cs, fs, prev, upto - 1, ms[upto - 1].unwrap().events@)
        } else {
            prev
        }
    }
}

/// Appending one intent to the queue resolves the prefix first, then
/// the new intent.
pub proof fn lemma_entity_steps_snoc(
    map: GameMap,
    cs: Seq<Option<CollisionComponent>>,
    fs: Seq<Option<FighterComponent>>,
    st: (Seq<Option<PositionComponent>>, Seq<Seq<CombatEvent>>, Map<Coord, Entity>),
    e: int,
    evs: Seq<MoveEvent>,
    x: MoveEvent,
)
    ensures
        entity_steps(map, cs, fs, st, e, evs.push(x)) == move_step(
            map,
            cs,
            fs,
            entity_steps(map, cs, fs, st, e, evs),
            e,
            x.coord,
        ),
    decreases evs.len(),
{
    if evs.len() == 0 {
        let stepped = move_step(map, cs, fs, st, e, x.coord);
        assert(evs.push(x)[0] == x);
        assert(evs.push(x).skip(1) =~= Seq::<MoveEvent>::empty());
        assert(entity_steps(map, cs, fs, st, e, evs.push(x)) == entity_steps(
            map,
            cs,
            fs,
            stepped,
            e,
            evs.push(x).skip(1),
        ));
        assert(entity_steps(map, cs, fs, stepped, e, Seq::<MoveEvent>::empty()) == stepped);
        assert(entity_steps(map, cs, fs, st, e, evs) == st);
    } else {
        let stepped = move_step(map, cs, fs, st, e, evs[0].coord);
        assert(evs.push(x)[0] == evs[0]);
        assert(evs.push(x).skip(1) =~= evs.skip(1).push(x));
        assert(entity_steps(map, cs, fs, st, e, evs.push(x)) == entity_steps(
            map,
            cs,
            fs,
            stepped,
            e,
            evs.skip(1).push(x),
        ));
        lemma_entity_steps_snoc(map, cs, fs, stepped, e, evs.skip(1), x);
        assert(entity_steps(map, cs, fs, st, e, evs) == entity_steps(
            map,
            cs,
            fs,
            stepped,
            e,
            evs.skip(1),
        ));
    }
}

/// One movement step keeps the occupancy an exact image of the
/// positions, and keeps every position in bounds.
pub proof fn lemma_move_step_consistent(
    map: GameMap,
    cs: Seq<Option<CollisionComponent>>,
    fs: Seq<Option<FighterComponent>>,
    st: (Seq<Option<PositionComponent>>, Seq<Seq<CombatEvent>>, Map<Coord, Entity>),
    e: int,
    v: Coord,
)
    requires
        st.0.len() <= usize::MAX,
        occ_consistent(st.0, st.2),
        positions_in_bounds(st.0, map),
    ensures
        occ_consistent(move_step(map, cs, fs, st, e, v).0, move_step(map, cs, fs, st, e, v).2),
        positions_in_bounds(move_step(map, cs, fs, st, e, v).0, map),
        move_step(map, cs, fs, st, e, v).0.len() == st.0.len(),
{
    let ps = st.0;
    let occ = st.2;
    let stp = move_step(map, cs, fs, st, e, v);
    if 0 <= e < ps.len() && ps[e] is Some {
        let c0 = ps[e].unwrap().coord;
        if target_ok(map, c0, v) {
            let t = target_coord(c0, v);
            if occ.dom().contains(t) && occ[t].id != e {
                assert(stp.0 == ps && stp.2 == occ);
            } else {
                let ps2 = stp.0;
                let occ2 = stp.2;
                assert forall|e2: int| 0 <= e2 < ps2.len() && #[trigger] ps2[e2] is Some implies {
                    let c2 = ps2[e2].unwrap().coord;
                    occ2.dom().contains(c2) && occ2[c2] == (Entity { id: e2 as usize })
                } by {
                    if e2 != e {
                        let c2 = ps[e2].unwrap().coord;
                        assert(occ.dom().contains(c2) && occ[c2] == (Entity { id: e2 as usize }));
                        if c2 == t {
                            assert(occ[t].id == e2);
                        }
                        if c2 == c0 {
                            assert(occ[c0] == (Entity { id: e as usize }));
                        }
                        assert(c2 != t && c2 != c0);
                    }
                }
                assert forall|c: Coord| #[trigger] occ2.dom().contains(c) implies {
                    let en = occ2[c];
                    &&& en.id < ps2.len()
                    &&& ps2[en.id as int] is Some
                    &&& ps2[en.id as int].unwrap().coord == c
                } by {
                    if c != t {
                        let en = occ2[c];
                        assert(occ.dom().contains(c) && occ[c] == en);
                        if en.id == e {
                            assert(c == c0);
                        }
                    }
                }
            }
        }
    }
}

/// Resolving a whole intent queue keeps the occupancy consistent.
pub proof fn lemma_entity_steps_consistent(
    map: GameMap,
    cs: Seq<Option<CollisionComponent>>,
    fs: Seq<Option<FighterComponent>>,
    st: (Seq<Option<PositionComponent>>, Seq<Seq<CombatEvent>>, Map<Coord, Entity>),
    e: int,
    evs: Seq<MoveEvent>,
)
    requires
        st.0.len() <= usize::MAX,
        occ_consistent(st.0, st.2),
        positions_in_bounds(st.0, map),
    ensures
        occ_consistent(
            entity_steps(map, cs, fs, st, e, evs).0,
            entity_steps(map, cs, fs, st, e, evs).2,
        ),
        positions_in_bounds(entity_steps(map, cs, fs, st, e, evs).0, map),
        entity_steps(map, cs, fs, st, e, evs).0.len() == st.0.len(),
    decreases evs.len(),
{
    if evs.len() > 0 {
        lemma_move_step_consistent(map, cs, fs, st, e, evs[0].coord);
        lemma_entity_steps_consistent(
            map,
            cs,
            fs,
            move_step(map, cs, fs, st, e, evs[0].coord),
            e,
            evs.skip(1),
        );
    }
}

/// Resolving every entity keeps the occupancy consistent.
pub proof fn lemma_all_steps_consistent(
    map: GameMap,
    cs: Seq<Option<CollisionComponent>>,
    fs: Seq<Option<FighterComponent>>,
    ms: Seq<Option<MovementComponent>>,
    st: (Seq<Option<PositionComponent>>, Seq<Seq<CombatEvent>>, Map<Coord, Entity>),
    upto: int,
)
    requires
        st.0.len() <= usize::MAX,
        occ_consistent(st.0, st.2),
        positions_in_bounds(st.0, map),
    ensures
        occ_consistent(
            all_steps(map, cs, fs, ms, st, upto).0,
            all_steps(map, cs, fs, ms, st, upto).2,
        ),
        positions_in_bounds(all_steps(map, cs, fs, ms, st, upto).0, map),
        all_steps(map, cs, fs, ms, st, upto).0.len() == st.0.len(),
    decreases upto,
{
    if upto > 0 {
        lemma_all_steps_consistent(map, cs, fs, ms, st, upto - 1);
        if ms[upto - 1] is Some {
            lemma_entity_steps_consistent(
                map,
                cs,
                fs,
                all_steps(map, cs, fs, ms, st, upto - 1),
                upto - 1,
                ms[upto - 1].unwrap().events@,
            );
        }
    }
}

/// Rebuild the occupancy from every entity's current position.
pub fn build_occupancy(world: &World, map: &GameMap) -> (occ: OccupancyGrid)
    requires
        world.wf(),
        map.wf(),
        positions_in_bounds(world.positions@, *map),
        positions_distinct(world.positions@),
    ensures
        occ.wf(),
        occ.width == map.width,
        occ.height == map.height,
        occ_consistent(world.positions@, occ.view_map()),
        occ.view_map() == positions_occ(world.positions@),
{
    let ghost ps = world.positions@;
    let mut occ = OccupancyGrid::new(map.width, map.height);
    let n = world.positions.len();
    let mut i: usize = 0;
    while i < n
        invariant
            world.wf(),
            map.wf(),
            positions_in_bounds(ps, *map),
            positions_distinct(ps),
            ps == world.positions@,
            n == ps.len(),
            i <= n,
            occ.wf(),
            occ.width == map.width,
            occ.height == map.height,
            forall|e: int|
                0 <= e < i && #[trigger] ps[e] is Some ==> occ.at(ps[e].unwrap().coord) == Some(
                    Entity { id: e as usize },
                ),
            forall|c: Coord|
                #[trigger] occ.at(c) matches Some(en) ==> en.id < i && ps[en.id as int] is Some
                    && ps[en.id as int].unwrap().coord == c,
        decreases n - i,
    {
        let p_opt: Option<PositionComponent> = *world.get_position(Entity { id: i });
        if let Some(p) = p_opt {
            let ghost occ0 = occ;
            occ.put(&p.coord, Entity { id: i });
            proof {
                assert forall|c: Coord| #[trigger] occ.at(c) is Some implies {
                    let en = occ.at(c).unwrap();
                    en.id < i + 1 && ps[en.id as int] is Some && ps[en.id as int].unwrap().coord
                        == c
                } by {
                    let x = occ0.at(c);
                }
            }
        }
        i = i + 1;
    }
    proof {
        assert forall|e: int|
            0 <= e < ps.len() && #[trigger] ps[e] is Some implies {
            let c = ps[e].unwrap().coord;
            occ.view_map().dom().contains(c) && occ.view_map()[c] == (Entity { id: e as usize })
        } by {
            assert(occ.at(ps[e].unwrap().coord) == Some(Entity { id: e as usize }));
        }
        assert forall|c: Coord| #[trigger] occ.view_map().dom().contains(c) implies {
            let en = occ.view_map()[c];
            &&& en.id < ps.len()
            &&& ps[en.id as int] is Some
            &&& ps[en.id as int].unwrap().coord == c
        } by {
            assert(occ.at(c) is Some);
        }
        assert forall|c: Coord| #[trigger] positions_occ(ps).dom().contains(c) implies occ.view_map(
        ).dom().contains(c) && occ.view_map()[c] == positions_occ(ps)[c] by {
            let e = choose|e: int|
                0 <= e < ps.len() && #[trigger] ps[e] is Some && ps[e].unwrap().coord == c;
            assert(occ.at(c) == Some(Entity { id: e as usize }));
        }
        assert forall|c: Coord| #[trigger] occ.view_map().dom().contains(c) implies positions_occ(
            ps,
        ).dom().contains(c) by {
            let en = occ.view_map()[c];
            assert(en.id < ps.len() && ps[en.id as int] is Some && ps[en.id as int].unwrap().coord
                == c);
        }
        assert(occ.view_map() =~= positions_occ(ps));
    }
    occ
}

/// Resolve one queued movement intent of entity `e` exactly as
/// `move_step` describes: drop it if the target is out of bounds or
/// blocked; raise a combat intent if another entity occupies the target
/// and both sides are combat-capable; otherwise move and update the
/// occupancy.
pub fn apply_move(world: &mut World, occ: &mut OccupancyGrid, map: &GameMap, e: Entity, v: Coord)
    requires
        old(world).wf(),
        map.wf(),
        old(occ).wf(),
        old(occ).width == map.width,
        old(occ).height == map.height,
        e.id < old(world).num_entities(),
    ensures
        final(world).wf(),
        final(world).num_entities() == old(world).num_entities(),
        final(occ).wf(),
        final(occ).width == old(occ).width,
        final(occ).height == old(occ).height,
        final(world).labels@ == old(world).labels@,
        final(world).renders@ == old(world).renders@,
        final(world).movements@ == old(world).movements@,
        final(world).collisions@ == old(world).collisions@,
        final(world).players@ == old(world).players@,
        final(world).basic_ais@ == old(world).basic_ais@,
        forall|k: int|
            0 <= k < old(world).num_entities() ==> fighter_stats_preserved(
                old(world).fighters@[k],
                #[trigger] final(world).fighters@[k],
            ),
        final(world).positions@ == move_step(
            *map,
            old(world).collisions@,
            old(world).fighters@,
            (
                old(world).positions@,
                fighter_events_view(old(world).fighters@),
                old(occ).view_map(),
            ),
            e.id as int,
            v,
        ).0,
        fighter_events_view(final(world).fighters@) == move_step(
            *map,
            old(world).collisions@,
            old(world).fighters@,
            (
                old(world).positions@,
                fighter_events_view(old(world).fighters@),
                old(occ).view_map(),
            ),
            e.id as int,
            v,
        ).1,
        final(occ).view_map() == move_step(
            *map,
            old(world).collisions@,
            old(world).fighters@,
            (
                old(world).positions@,
                fighter_events_view(old(world).fighters@),
                old(occ).view_map(),
            ),
            e.id as int,
            v,
        ).2,
{
    let ghost w0 = *old(world);
    let ghost occ0 = *old(occ);
    let ghost st0 = (w0.positions@, fighter_events_view(w0.fighters@), occ0.view_map());
    let ghost stp = move_step(*map, w0.collisions@, w0.fighters@, st0, e.id as int, v);
    let p_opt: Option<PositionComponent> = *world.get_position(e);
    if let Some(p) = p_opt {
        let tx: i64 = p.coord.x as i64 + v.x as i64;
        let ty: i64 = p.coord.y as i64 + v.y as i64;
        if 0 <= tx && tx < map.width as i64 && 0 <= ty && ty < map.height as i64 {
            let t = Coord::new(tx as i32, ty as i32);
            if !map.get(&t).blocked {
                proof {
                    assert(target_ok(*map, p.coord, v));
                    assert(t == target_coord(p.coord, v));
                }
                let other_opt: Option<Entity> = occ.get(&t);
                proof {
                    if other_opt is Some {
                        assert(occ0.view_map().dom().contains(t));
                        assert(occ0.view_map()[t] == other_opt.unwrap());
                    } else {
                        assert(!occ0.view_map().dom().contains(t));
                    }
                }
                if other_opt.is_some() && other_opt.unwrap().id != e.id {
                    let other = other_opt.unwrap();
                    let n = world.positions.len();
                    if other.id < n && world.get_collision(other).is_some() && world.get_fighter(
                        other,
                    ).is_some() && world.get_fighter(e).is_some() {
                        let ev = CombatEvent { attacker: e, attackee: other };
                        let ghost f_before = w0.fighters@[e.id as int].unwrap();
                        match &mut world.fighters[e.id] {
                            Some(f) => f.events.push(ev),
                            None => {},
                        }
                        proof {
                            assert(world.fighters@[e.id as int].unwrap().events@
                                == f_before.events@.push(ev));
                            assert(fighter_events_view(world.fighters@) =~= stp.1);
                        }
                    } else {
                        proof {
                            assert(stp == st0);
                        }
                    }
                } else {
                    occ.clear_cell(&p.coord);
                    let ghost occ1 = *occ;
                    occ.put(&t, e);
                    world.attach_position(e, PositionComponent { coord: t, map: p.map });
                    proof {
                        assert(occ1.view_map() =~= occ0.view_map().remove(p.coord));
                        assert(occ.view_map() =~= occ1.view_map().insert(t, e));
                        assert(occ.view_map() =~= stp.2);
                        assert(world.positions@ == stp.0);
                    }
                }
            } else {
                proof {
                    assert(!target_ok(*map, p.coord, v));
                    assert(stp == st0);
                }
            }
        } else {
            proof {
                assert(!target_ok(*map, p.coord, v));
                assert(stp == st0);
            }
        }
    }
    proof {
        assert(fighter_events_view(world.fighters@) =~= fighter_events_view(world.fighters@));
        if world.fighters@ == w0.fighters@ {
            assert(fighter_events_view(world.fighters@) == st0.1);
        }
    }
}

/// The movement stage: rebuilds the occupancy from current positions,
/// then processes every entity's queued movement intents in identifier
/// and queue order.
pub struct MovementSystem {
    pub occupied_coords: OccupancyGrid,
}

impl MovementSystem {
    pub fn new() -> (s: Self)
        ensures
            s.occupied_coords.wf(),
            s.occupied_coords.width == 0,
            s.occupied_coords.height == 0,
    {
        MovementSystem { occupied_coords: OccupancyGrid::new(0, 0) }
    }

    /// The occupant recorded at `c` by the last resolution pass.
    pub fn occupant(&self, c: &Coord) -> (r: Option<Entity>)
        requires
            self.occupied_coords.wf(),
        ensures
            r == self.occupied_coords.at(*c),
    {
        self.occupied_coords.get(c)
    }

    /// Resolve all queued movement intents. The result is exactly the
    /// `all_steps` fold of the intents over the starting state; the
    /// occupancy ends as an exact image of the final positions, so no
    /// two entities ever share a coordinate.
    #[verifier::loop_isolation(false)]
    #[verifier::rlimit(60)]
    pub fn run(&mut self, world: &mut World, map: &GameMap)
        requires
            old(world).wf(),
            map.wf(),
            positions_in_bounds(old(world).positions@, *map),
            positions_distinct(old(world).positions@),
        ensures
            final(world).wf(),
            final(world).num_entities() == old(world).num_entities(),
            final(world).labels@ == old(world).labels@,
            final(world).renders@ == old(world).renders@,
            final(world).movements@ == old(world).movements@,
            final(world).collisions@ == old(world).collisions@,
            final(world).players@ == old(world).players@,
            final(world).basic_ais@ == old(world).basic_ais@,
            forall|k: int|
                0 <= k < old(world).num_entities() ==> fighter_stats_preserved(
                    old(world).fighters@[k],
                    #[trigger] final(world).fighters@[k],
                ),
            final(self).occupied_coords.wf(),
            final(self).occupied_coords.width == map.width,
            final(self).occupied_coords.height == map.height,
            final(world).positions@ == all_steps(
                *map,
                old(world).collisions@,
                old(world).fighters@,
                old(world).movements@,
                (
                    old(world).positions@,
                    fighter_events_view(old(world).fighters@),
                    positions_occ(old(world).positions@),
                ),
                old(world).num_entities() as int,
            ).0,
            fighter_events_view(final(world).fighters@) == all_steps(
                *map,
                old(world).collisions@,
                old(world).fighters@,
                old(world).movements@,
                (
                    old(world).positions@,
                    fighter_events_view(old(world).fighters@),
                    positions_occ(old(world).positions@),
                ),
                old(world).num_entities() as int,
            ).1,
            final(self).occupied_coords.view_map() == all_steps(
                *map,
                old(world).collisions@,
                old(world).fighters@,
                old(world).movements@,
                (
                    old(world).positions@,
                    fighter_events_view(old(world).fighters@),
                    positions_occ(old(world).positions@),
                ),
                old(world).num_entities() as int,
            ).2,
            occ_consistent(final(world).positions@, final(self).occupied_coords.view_map()),
            positions_in_bounds(final(world).positions@, *map),
            positions_distinct(final(world).positions@),
    {
        let ghost w0 = *old(world);
        let ghost st0 = (
            w0.positions@,
            fighter_events_view(w0.fighters@),
            positions_occ(w0.positions@),
        );
        self.occupied_coords = build_occupancy(world, map);
        let n = world.positions.len();
        let mut i: usize = 0;
        while i < n
            invariant
                world.wf(),
                world.num_entities() == n,
                world.labels@ == w0.labels@,
                world.renders@ == w0.renders@,
                world.movements@ == w0.movements@,
                world.collisions@ == w0.collisions@,
                world.players@ == w0.players@,
                world.basic_ais@ == w0.basic_ais@,
                forall|k: int|
                    0 <= k < n ==> fighter_stats_preserved(
                        w0.fighters@[k],
                        #[trigger] world.fighters@[k],
                    ),
                self.occupied_coords.wf(),
                self.occupied_coords.width == map.width,
                self.occupied_coords.height == map.height,
                i <= n,
                world.positions@ == all_steps(
                    *map,
                    w0.collisions@,
                    w0.fighters@,
                    w0.movements@,
                    st0,
                    i as int,
                ).0,
                fighter_events_view(world.fighters@) == all_steps(
                    *map,
                    w0.collisions@,
                    w0.fighters@,
                    w0.movements@,
                    st0,
                    i as int,
                ).1,
                self.occupied_coords.view_map() == all_steps(
                    *map,
                    w0.collisions@,
                    w0.fighters@,
                    w0.movements@,
                    st0,
                    i as int,
                ).2,
            decreases n - i,
        {
            let e = Entity { id: i };
            let k: usize = match world.get_movement(e) {
                Some(m) => m.events.len(),
                None => 0,
            };
            let ghost st_e = all_steps(*map, w0.collisions@, w0.fighters@, w0.movements@, st0, i as int);
            let ghost evs: Seq<MoveEvent> = if w0.movements@[i as int] is Some {
                w0.movements@[i as int].unwrap().events@
            } else {
                Seq::empty()
            };
            proof {
                assert(k == evs.len());
            }
            let mut j: usize = 0;
            while j < k
                invariant
                    world.wf(),
                    world.num_entities() == n,
                    world.labels@ == w0.labels@,
                    world.renders@ == w0.renders@,
                    world.movements@ == w0.movements@,
                    world.collisions@ == w0.collisions@,
                    world.players@ == w0.players@,
                    world.basic_ais@ == w0.basic_ais@,
                    forall|k2: int|
                        0 <= k2 < n ==> fighter_stats_preserved(
                            w0.fighters@[k2],
                            #[trigger] world.fighters@[k2],
                        ),
                    self.occupied_coords.wf(),
                    self.occupied_coords.width == map.width,
                    self.occupied_coords.height == map.height,
                    j <= k,
                    world.positions@ == entity_steps(
                        *map,
                        w0.collisions@,
                        w0.fighters@,
                        st_e,
                        i as int,
                        evs.subrange(0, j as int),
                    ).0,
                    fighter_events_view(world.fighters@) == entity_steps(
                        *map,
                        w0.collisions@,
                        w0.fighters@,
                        st_e,
                        i as int,
                        evs.subrange(0, j as int),
                    ).1,
                    self.occupied_coords.view_map() == entity_steps(
                        *map,
                        w0.collisions@,
                        w0.fighters@,
                        st_e,
                        i as int,
                        evs.subrange(0, j as int),
                    ).2,
                decreases k - j,
            {
                let ev: MoveEvent = match world.get_movement(e) {
                    Some(m) => m.events[j],
                    None => MoveEvent { coord: Coord::new(0, 0) },
                };
                proof {
                    assert(ev == evs[j as int]);
                }
                let ghost wb = *world;
                let ghost st_j = entity_steps(
                    *map,
                    w0.collisions@,
                    w0.fighters@,
                    st_e,
                    i as int,
                    evs.subrange(0, j as int),
                );
                apply_move(world, &mut self.occupied_coords, map, e, ev.coord);
                proof {
                    assert(evs.subrange(0, j as int).push(evs[j as int]) =~= evs.subrange(
                        0,
                        j as int + 1,
                    ));
                    lemma_entity_steps_snoc(
                        *map,
                        w0.collisions@,
                        w0.fighters@,
                        st_e,
                        i as int,
                        evs.subrange(0, j as int),
                        evs[j as int],
                    );
                    assert forall|k2: int|
                        0 <= k2 < n implies fighter_stats_preserved(
                        w0.fighters@[k2],
                        #[trigger] world.fighters@[k2],
                    ) by {
                        assert(fighter_stats_preserved(w0.fighters@[k2], wb.fighters@[k2]));
                        assert(fighter_stats_preserved(wb.fighters@[k2], world.fighters@[k2]));
                    }
                    assert(move_step(*map, wb.collisions@, wb.fighters@, st_j, i as int, ev.coord)
                        == move_step(*map, w0.collisions@, w0.fighters@, st_j, i as int, ev.coord));
                }
                j = j + 1;
            }
            proof {
                assert(evs.subrange(0, k as int) =~= evs);
                if w0.movements@[i as int] is Some {
                    assert(all_steps(*map, w0.collisions@, w0.fighters@, w0.movements@, st0, i as int + 1)
                        == entity_steps(*map, w0.collisions@, w0.fighters@, st_e, i as int, evs));
                } else {
                    assert(evs.len() == 0);
                    assert(entity_steps(*map, w0.collisions@, w0.fighters@, st_e, i as int, evs)
                        == st_e);
                    assert(all_steps(*map, w0.collisions@, w0.fighters@, w0.movements@, st0, i as int + 1)
                        == st_e);
                }
            }
            i = i + 1;
        }
        proof {
            lemma_all_steps_consistent(
                *map,
                w0.collisions@,
                w0.fighters@,
                w0.movements@,
                st0,
                n as int,
            );
            assert forall|e1: int, e2: int|
                0 <= e1 < e2 < world.positions@.len() && #[trigger] world.positions@[e1] is Some
                    && #[trigger] world.positions@[e2] is Some implies world.positions@[e1].unwrap().coord
                != world.positions@[e2].unwrap().coord by {
                let occm = self.occupied_coords.view_map();
                if world.positions@[e1].unwrap().coord == world.positions@[e2].unwrap().coord {
                    assert(occm[world.positions@[e1].unwrap().coord] == (Entity { id: e1 as usize }));
                    assert(occm[world.positions@[e2].unwrap().coord] == (Entity { id: e2 as usize }));
                }
            }
        }
    }
}

/// Every queued combat record references entities that have fighters
/// in `fs`.
pub open spec fn fev_valid(fev: Seq<Seq<CombatEvent>>, fs: Seq<Option<FighterComponent>>) -> bool {
    forall|e: int, k: int|
        0 <= e < fev.len() && 0 <= k < fev[e].len() ==> {
            let ev = #[trigger] fev[e][k];
            &&& ev.attacker.id < fs.len()
            &&& fs[ev.attacker.id as int] is Some
            &&& ev.attackee.id < fs.len()
            &&& fs[ev.attackee.id as int] is Some
        }
}

/// One movement step only raises combat records whose two sides have
/// fighters.
pub proof fn lemma_move_step_fev_valid(
    map: GameMap,
    cs: Seq<Option<CollisionComponent>>,
    fs: Seq<Option<FighterComponent>>,
    st: (Seq<Option<PositionComponent>>, Seq<Seq<CombatEvent>>, Map<Coord, Entity>),
    e: int,
    v: Coord,
)
    requires
        fev_valid(st.1, fs),
        st.0.len() <= usize::MAX,
        fs.len() == st.0.len(),
    ensures
        fev_valid(move_step(map, cs, fs, st, e, v).1, fs),
{
    let fev = st.1;
    let stp = move_step(map, cs, fs, st, e, v);
    if stp.1 != fev {
        assert forall|e2: int, k2: int|
            0 <= e2 < stp.1.len() && 0 <= k2 < stp.1[e2].len() implies {
            let ev = #[trigger] stp.1[e2][k2];
            &&& ev.attacker.id < fs.len()
            &&& fs[ev.attacker.id as int] is Some
            &&& ev.attackee.id < fs.len()
            &&& fs[ev.attackee.id as int] is Some
        } by {
            if e2 == e && k2 == fev[e].len() {
            } else {
                assert(stp.1[e2][k2] == fev[e2][k2]);
            }
        }
    }
}

/// A whole intent queue only raises resolvable combat records.
pub proof fn lemma_entity_steps_fev_valid(
    map: GameMap,
    cs: Seq<Option<CollisionComponent>>,
    fs: Seq<Option<FighterComponent>>,
    st: (Seq<Option<PositionComponent>>, Seq<Seq<CombatEvent>>, Map<Coord, Entity>),
    e: int,
    evs: Seq<MoveEvent>,
)
    requires
        fev_valid(st.1, fs),
        st.0.len() <= usize::MAX,
        fs.len() == st.0.len(),
    ensures
        fev_valid(entity_steps(map, cs, fs, st, e, evs).1, fs),
        entity_steps(map, cs, fs, st, e, evs).0.len() == st.0.len(),
    decreases evs.len(),
{
    if evs.len() > 0 {
        lemma_move_step_fev_valid(map, cs, fs, st, e, evs[0].coord);
        lemma_entity_steps_fev_valid(
            map,
            cs,
            fs,
            move_step(map, cs, fs, st, e, evs[0].coord),
            e,
            evs.skip(1),
        );
    }
}

/// The whole movement stage only raises resolvable combat records.
pub proof fn lemma_all_steps_fev_valid(
    map: GameMap,
    cs: Seq<Option<CollisionComponent>>,
    fs: Seq<Option<FighterComponent>>,
    ms: Seq<Option<MovementComponent>>,
    st: (Seq<Option<PositionComponent>>, Seq<Seq<CombatEvent>>, Map<Coord, Entity>),
    upto: int,
)
    requires
        fev_valid(st.1, fs),
        st.0.len() <= usize::MAX,
        fs.len() == st.0.len(),
    ensures
        fev_valid(all_steps(map, cs, fs, ms, st, upto).1, fs),
        all_steps(map, cs, fs, ms, st, upto).0.len() == st.0.len(),
    decreases upto,
{
    if upto > 0 {
        lemma_all_steps_fev_valid(map, cs, fs, ms, st, upto - 1);
        if ms[upto - 1] is Some {
            lemma_entity_steps_fev_valid(
                map,
                cs,
                fs,
                all_steps(map, cs, fs, ms, st, upto - 1),
                upto - 1,
                ms[upto - 1].unwrap().events@,
            );
        }
    }
}

} // verus!
