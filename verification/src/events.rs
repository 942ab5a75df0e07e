//! The drain stage: every per-turn mailbox is emptied each turn, and
//! pending combat records are resolved with canonical damage —
//! `max(0, attacker.power - attackee.defense)` subtracted from the
//! attackee's hit points (saturating at the representable minimum).

use vstd::prelude::*;

verus! {

use crate::components::{CollisionComponent, CombatEvent, FighterComponent, MovementComponent};
use vstd::string::StringExecFns;
use crate::world::World;

/// The pending combat records of entity `e`, or none without a
/// fighter.
pub open spec fn entity_events(fs: Seq<Option<FighterComponent>>, e: int) -> Seq<CombatEvent> {
    if fs[e] is Some {
        fs[e].unwrap().events@
    } else {
        Seq::empty()
    }
}

/// All pending combat records of the first `upto` entities, in entity
/// order, each queue in order.
pub open spec fn all_combat_events(fs: Seq<Option<FighterComponent>>, upto: int) -> Seq<
    CombatEvent,
>
    decreases upto,
{
    if upto <= 0 {
        Seq::empty()
    } else {
        all_combat_events(fs, upto - 1) + entity_events(fs, upto - 1)
    }
}

/// Record `k` of entity `e`'s pending combat queue.
pub open spec fn pending_event(w: World, e: int, k: int) -> CombatEvent {
    w.fighters@[e].unwrap().events@[k]
}

/// Both sides of the record are entities with fighters, as the damage
/// formula requires.
pub open spec fn valid_combat_event(w: World, ev: CombatEvent) -> bool {
    &&& ev.attacker.id < w.num_entities()
    &&& ev.attackee.id < w.num_entities()
    &&& w.fighters@[ev.attacker.id as int] is Some
    &&& w.fighters@[ev.attackee.id as int] is Some
}

/// Every pending combat record is resolvable; a record referencing an
/// entity without a fighter is an invariant violation.
pub open spec fn combat_events_valid(w: World) -> bool {
    forall|e: int, k: int|
        0 <= e < w.num_entities() && w.fighters@[e] is Some && 0 <= k
            < w.fighters@[e].unwrap().events@.len() ==> valid_combat_event(
            w,
            #[trigger] pending_event(w, e, k),
        )
}

/// Canonical damage: the attacker's power less the attackee's defense,
/// never negative.
pub open spec fn damage(power: int, defense: int) -> int {
    if power - defense > 0 {
        power - defense
    } else {
        0
    }
}

/// Resolve one combat record: subtract the damage from the attackee's
/// hit points, saturating at `i32::MIN`; a record referencing a missing
/// fighter resolves to no change.
pub open spec fn apply_hit(fs: Seq<Option<FighterComponent>>, ev: CombatEvent) -> Seq<
    Option<FighterComponent>,
> {
    if ev.attacker.id < fs.len() && ev.attackee.id < fs.len() && fs[ev.attacker.id as int] is Some
        && fs[ev.attackee.id as int] is Some {
        let atk = fs[ev.attacker.id as int].unwrap();
        let df = fs[ev.attackee.id as int].unwrap();
        let d = damage(atk.power as int, df.defense as int);
        let new_hp: int = if df.hp - d >= i32::MIN {
            df.hp - d
        } else {
            i32::MIN as int
        };
        fs.update(
            ev.attackee.id as int,
            Some(
                FighterComponent {
                    max_hp: df.max_hp,
                    hp: new_hp as i32,
                    defense: df.defense,
                    power: df.power,
                    events: df.events,
                },
            ),
        )
    } else {
        fs
    }
}

/// Resolve a sequence of combat records in order.
pub open spec fn apply_hits(fs: Seq<Option<FighterComponent>>, evs: Seq<CombatEvent>) -> Seq<
    Option<FighterComponent>,
>
    decreases evs.len(),
{
    if evs.len() == 0 {
        fs
    } else {
        apply_hits(apply_hit(fs, evs[0]), evs.skip(1))
    }
}

/// Resolving records changes only hit points: presence, statistics,
/// and the pending queues themselves stay.
pub proof fn lemma_apply_hits_preserves(fs: Seq<Option<FighterComponent>>, evs: Seq<CombatEvent>)
    ensures
        apply_hits(fs, evs).len() == fs.len(),
        forall|e: int|
            0 <= e < fs.len() ==> {
                let b = fs[e];
                let a = #[trigger] apply_hits(fs, evs)[e];
                match (b, a) {
                    (Some(f0), Some(f1)) => {
                        &&& f1.max_hp == f0.max_hp
                        &&& f1.defense == f0.defense
                        &&& f1.power == f0.power
                        &&& f1.events == f0.events
                        &&& f1.hp <= f0.hp
                    },
                    (None, None) => true,
                    _ => false,
                }
            },
    decreases evs.len(),
{
    if evs.len() > 0 {
        lemma_apply_hits_preserves(apply_hit(fs, evs[0]), evs.skip(1));
    }
}

/// Appending one record resolves the prefix first, then the new
/// record.
pub proof fn lemma_apply_hits_snoc(
    fs: Seq<Option<FighterComponent>>,
    evs: Seq<CombatEvent>,
    x: CombatEvent,
)
    ensures
        apply_hits(fs, evs.push(x)) == apply_hit(apply_hits(fs, evs), x),
    decreases evs.len(),
{
    if evs.len() == 0 {
        assert(evs.push(x)[0] == x);
        assert(evs.push(x).skip(1) =~= Seq::<CombatEvent>::empty());
        assert(apply_hits(fs, evs.push(x)) == apply_hits(apply_hit(fs, x), evs.push(x).skip(1)));
        assert(apply_hits(apply_hit(fs, x), Seq::<CombatEvent>::empty()) == apply_hit(fs, x));
        assert(apply_hits(fs, evs) == fs);
    } else {
        assert(evs.push(x)[0] == evs[0]);
        assert(evs.push(x).skip(1) =~= evs.skip(1).push(x));
        assert(apply_hits(fs, evs.push(x)) == apply_hits(
            apply_hit(fs, evs[0]),
            evs.skip(1).push(x),
        ));
        lemma_apply_hits_snoc(apply_hit(fs, evs[0]), evs.skip(1), x);
        assert(apply_hits(fs, evs) == apply_hits(apply_hit(fs, evs[0]), evs.skip(1)));
    }
}

/// Every record collected from a world with resolvable queues is
/// itself resolvable.
pub proof fn lemma_all_events_valid(w: World, upto: int)
    requires
        w.wf(),
        combat_events_valid(w),
        0 <= upto <= w.num_entities(),
    ensures
        forall|k: int|
            0 <= k < all_combat_events(w.fighters@, upto).len() ==> valid_combat_event(
                w,
                #[trigger] all_combat_events(w.fighters@, upto)[k],
            ),
    decreases upto,
{
    if upto > 0 {
        lemma_all_events_valid(w, upto - 1);
        let whole = all_combat_events(w.fighters@, upto);
        let prefix = all_combat_events(w.fighters@, upto - 1);
        let own = entity_events(w.fighters@, upto - 1);
        assert forall|k: int| 0 <= k < whole.len() implies valid_combat_event(
            w,
            #[trigger] whole[k],
        ) by {
            if k < prefix.len() {
                assert(whole[k] == prefix[k]);
            } else {
                assert(whole[k] == own[k - prefix.len()]);
                if w.fighters@[upto - 1] is Some {
                    assert(own[k - prefix.len()] == pending_event(w, upto - 1, k - prefix.len()));
                }
            }
        }
    }
}

/// The mailbox is drained and the hit points match the resolved value;
/// nothing else of the fighter changed.
pub open spec fn fighter_drained(
    b: Option<FighterComponent>,
    a: Option<FighterComponent>,
) -> bool {
    match (b, a) {
        (Some(f0), Some(f1)) => {
            &&& f1.max_hp == f0.max_hp
            &&& f1.hp == f0.hp
            &&& f1.defense == f0.defense
            &&& f1.power == f0.power
            &&& f1.events@.len() == 0
        },
        (None, None) => true,
        _ => false,
    }
}

/// Read-only view of this turn's pending combat records.
pub struct CombatSystem {}

impl CombatSystem {
    /// Collect every pending combat record, in entity order, without
    /// consuming anything.
    pub fn run(world: &World) -> (log: Vec<CombatEvent>)
        requires
            world.wf(),
        ensures
            log@ == all_combat_events(world.fighters@, world.num_entities() as int),
    {
        let ghost fs = world.fighters@;
        let n = world.fighters.len();
        let mut log: Vec<CombatEvent> = Vec::new();
        let mut i: usize = 0;
        while i < n
            invariant
                world.wf(),
                n == world.num_entities(),
                fs == world.fighters@,
                i <= n,
                log@ == all_combat_events(fs, i as int),
            decreases n - i,
        {
            let k: usize = match &world.fighters[i] {
                Some(f) => f.events.len(),
                None => 0,
            };
            let ghost own = entity_events(fs, i as int);
            let mut j: usize = 0;
            proof {
                assert(log@ =~= all_combat_events(fs, i as int) + own.subrange(0, 0));
            }
            while j < k
                invariant
                    world.wf(),
                    n == world.num_entities(),
                    fs == world.fighters@,
                    i < n,
                    own == entity_events(fs, i as int),
                    k == own.len(),
                    j <= k,
                    log@ == all_combat_events(fs, i as int) + own.subrange(0, j as int),
                decreases k - j,
            {
                let ev: CombatEvent = match &world.fighters[i] {
                    Some(f) => f.events[j],
                    None => CombatEvent {
                        attacker: crate::world::Entity { id: 0 },
                        attackee: crate::world::Entity { id: 0 },
                    },
                };
                log.push(ev);
                proof {
                    assert(ev == own[j as int]);
                    assert(own.subrange(0, j as int).push(own[j as int]) =~= own.subrange(
                        0,
                        j as int + 1,
                    ));
                    assert(log@ =~= all_combat_events(fs, i as int) + own.subrange(
                        0,
                        j as int + 1,
                    ));
                }
                j = j + 1;
            }
            proof {
                assert(own.subrange(0, k as int) =~= own);
                assert(log@ =~= all_combat_events(fs, i as int + 1));
            }
            i = i + 1;
        }
        log
    }
}

/// The mailbox exists exactly as before and is empty.
pub open spec fn movement_drained(
    b: Option<MovementComponent>,
    a: Option<MovementComponent>,
) -> bool {
    match (b, a) {
        (Some(_), Some(m)) => m.events@.len() == 0,
        (None, None) => true,
        _ => false,
    }
}

/// The mailbox exists exactly as before and is empty.
pub open spec fn collision_drained(
    b: Option<CollisionComponent>,
    a: Option<CollisionComponent>,
) -> bool {
    match (b, a) {
        (Some(_), Some(c)) => c.events@.len() == 0,
        (None, None) => true,
        _ => false,
    }
}

/// The drain stage.
pub struct EventDrain {}

impl EventDrain {
    /// Resolve and return every pending combat record, applying
    /// canonical damage in order, then unconditionally empty every
    /// movement, collision, and combat mailbox.
    #[verifier::loop_isolation(false)]
    #[verifier::rlimit(60)]
    pub fn run(world: &mut World) -> (log: Vec<CombatEvent>)
        requires
            old(world).wf(),
            combat_events_valid(*old(world)),
        ensures
            final(world).wf(),
            final(world).num_entities() == old(world).num_entities(),
            final(world).labels@ == old(world).labels@,
            final(world).positions@ == old(world).positions@,
            final(world).renders@ == old(world).renders@,
            final(world).players@ == old(world).players@,
            final(world).basic_ais@ == old(world).basic_ais@,
            log@ == all_combat_events(
                old(world).fighters@,
                old(world).num_entities() as int,
            ),
            forall|e: int|
                0 <= e < old(world).num_entities() ==> movement_drained(
                    old(world).movements@[e],
                    #[trigger] final(world).movements@[e],
                ),
            forall|e: int|
                0 <= e < old(world).num_entities() ==> collision_drained(
                    old(world).collisions@[e],
                    #[trigger] final(world).collisions@[e],
                ),
            forall|e: int|
                0 <= e < old(world).num_entities() ==> fighter_drained(
                    apply_hits(
                        old(world).fighters@,
                        all_combat_events(old(world).fighters@, old(world).num_entities() as int),
                    )[e],
                    #[trigger] final(world).fighters@[e],
                ),
    {
        let ghost w0 = *old(world);
        let ghost f0 = w0.fighters@;
        let n = world.fighters.len();
        let ghost evs_all = all_combat_events(f0, n as int);
        let log = CombatSystem::run(world);
        proof {
            lemma_all_events_valid(w0, n as int);
        }
        let m: usize = log.len();
        let mut idx: usize = 0;
        proof {
            assert(world.fighters@ =~= apply_hits(f0, evs_all.subrange(0, 0)));
        }
        while idx < m
            invariant
                world.wf(),
                world.num_entities() == n,
                world.labels@ == w0.labels@,
                world.positions@ == w0.positions@,
                world.renders@ == w0.renders@,
                world.players@ == w0.players@,
                world.basic_ais@ == w0.basic_ais@,
                world.movements@ == w0.movements@,
                world.collisions@ == w0.collisions@,
                idx <= m,
                world.fighters@ == apply_hits(f0, evs_all.subrange(0, idx as int)),
            decreases m - idx,
        {
            let ev: CombatEvent = log[idx];
            proof {
                assert(valid_combat_event(w0, ev));
                lemma_apply_hits_preserves(f0, evs_all.subrange(0, idx as int));
            }
            let a_id = ev.attacker.id;
            let b_id = ev.attackee.id;
            let power: i32 = match &world.fighters[a_id] {
                Some(f) => f.power,
                None => 0,
            };
            let defense: i32 = match &world.fighters[b_id] {
                Some(f) => f.defense,
                None => 0,
            };
            let hp: i32 = match &world.fighters[b_id] {
                Some(f) => f.hp,
                None => 0,
            };
            let d: i64 = if power as i64 - defense as i64 > 0 {
                power as i64 - defense as i64
            } else {
                0
            };
            let nh: i64 = hp as i64 - d;
            let new_hp: i32 = if nh < i32::MIN as i64 {
                i32::MIN
            } else {
                nh as i32
            };
            let ghost fs_before = world.fighters@;
            match &mut world.fighters[b_id] {
                Some(f) => f.hp = new_hp,
                None => {},
            }
            proof {
                lemma_apply_hits_snoc(f0, evs_all.subrange(0, idx as int), evs_all[idx as int]);
                assert(evs_all.subrange(0, idx as int).push(evs_all[idx as int]) =~= evs_all
                    .subrange(0, idx as int + 1));
                assert(world.fighters@ =~= apply_hit(fs_before, ev));
            }
            idx = idx + 1;
        }
        proof {
            assert(evs_all.subrange(0, m as int) =~= evs_all);
        }
        let ghost applied = apply_hits(f0, evs_all);
        let mut e: usize = 0;
        while e < n
            invariant
                world.wf(),
                world.num_entities() == n,
                world.labels@ == w0.labels@,
                world.positions@ == w0.positions@,
                world.renders@ == w0.renders@,
                world.players@ == w0.players@,
                world.basic_ais@ == w0.basic_ais@,
                e <= n,
                forall|k: int|
                    0 <= k < e ==> movement_drained(
                        w0.movements@[k],
                        #[trigger] world.movements@[k],
                    ),
                forall|k: int| e <= k < n ==> world.movements@[k] == w0.movements@[k],
                forall|k: int|
                    0 <= k < e ==> collision_drained(
                        w0.collisions@[k],
                        #[trigger] world.collisions@[k],
                    ),
                forall|k: int| e <= k < n ==> world.collisions@[k] == w0.collisions@[k],
                forall|k: int|
                    0 <= k < e ==> fighter_drained(applied[k], #[trigger] world.fighters@[k]),
                forall|k: int| e <= k < n ==> world.fighters@[k] == applied[k],
            decreases n - e,
        {
            proof {
                lemma_apply_hits_preserves(f0, evs_all);
            }
            match &mut world.movements[e] {
                Some(mm) => mm.events.clear(),
                None => {},
            }
            match &mut world.collisions[e] {
                Some(cc) => cc.events.clear(),
                None => {},
            }
            match &mut world.fighters[e] {
                Some(f) => f.events.clear(),
                None => {},
            }
            e = e + 1;
        }
        log
    }
}

/// Render each combat record as "<attacker> attacks <attackee>" using
/// the entities' labels; a record referencing an unlabeled entity is an
/// invariant violation, so callers must rule it out.
pub fn format_combat_log(world: &World, log: &Vec<CombatEvent>) -> (lines: Vec<String>)
    requires
        world.wf(),
        forall|k: int|
            0 <= k < log@.len() ==> {
                let ev = #[trigger] log@[k];
                &&& ev.attacker.id < world.num_entities()
                &&& ev.attackee.id < world.num_entities()
                &&& world.labels@[ev.attacker.id as int] is Some
                &&& world.labels@[ev.attackee.id as int] is Some
            },
    ensures
        lines@.len() == log@.len(),
        forall|k: int|
            0 <= k < log@.len() ==> (#[trigger] lines@[k])@ == world.labels@[log@[k].attacker.id
                as int].unwrap().label@ + " attacks "@ + world.labels@[log@[k].attackee.id
                as int].unwrap().label@,
{
    let mut lines: Vec<String> = Vec::new();
    let mut i: usize = 0;
    while i < log.len()
        invariant
            world.wf(),
            forall|k: int|
                0 <= k < log@.len() ==> {
                    let ev = #[trigger] log@[k];
                    &&& ev.attacker.id < world.num_entities()
                    &&& ev.attackee.id < world.num_entities()
                    &&& world.labels@[ev.attacker.id as int] is Some
                    &&& world.labels@[ev.attackee.id as int] is Some
                },
            i <= log@.len(),
            lines@.len() == i,
            forall|k: int|
                0 <= k < i ==> (#[trigger] lines@[k])@ == world.labels@[log@[k].attacker.id
                    as int].unwrap().label@ + " attacks "@ + world.labels@[log@[k].attackee.id
                    as int].unwrap().label@,
        decreases log@.len() - i,
    {
        let ev: CombatEvent = log[i];
        let mut s = String::new();
        match world.get_label(ev.attacker) {
            Some(l) => s.append(l.label.as_str()),
            None => {},
        }
        s.append(" attacks ");
        match world.get_label(ev.attackee) {
            Some(l) => s.append(l.label.as_str()),
            None => {},
        }
        proof {
            assert(s@ =~= world.labels@[ev.attacker.id as int].unwrap().label@ + " attacks "@
                + world.labels@[ev.attackee.id as int].unwrap().label@);
        }
        lines.push(s);
        i = i + 1;
    }
    lines
}

} // verus!
