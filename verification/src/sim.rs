//! Entities, side effects, and the tick driver.
//!
//! Each tick runs four phases. Snapshot: the entity collection is copied.
//! Decide: every entity, in ascending index order, reads the immutable
//! snapshot and the grid and produces side effects; the one sanctioned
//! immediate mutation is an entity moving itself. Apply: the collected
//! side effects run against live state strictly in emission order. Reap:
//! every entity whose health has fallen to or below zero is removed.
//! The simulation continues while more than one entity survives.

use vstd::prelude::*;

use crate::grid::{GameMap, MapClass};
use crate::math::{dist_sq_spec, vec2, Vec2};

verus! {

/// Index of an entity in the current tick's collection. Valid only within
/// the tick that issued it: the reap phase reorders the collection, so an
/// id must never be retained across ticks.
pub type EntityId = usize;

#[derive(Clone, Copy, PartialEq, Eq, Structural, Debug)]
pub struct PlayerData {}

#[derive(Clone, Copy, PartialEq, Eq, Structural, Debug)]
pub struct MonsterData {}

#[derive(Clone, Copy, PartialEq, Eq, Structural, Debug)]
pub struct ItemData {}

/// Behavioral class of an entity; decision dispatch is exhaustive over it.
#[derive(Clone, Copy, PartialEq, Eq, Structural, Debug)]
pub enum EntityClass {
    Player(PlayerData),
    Monster(MonsterData),
    Item(ItemData),
}

/// A positioned, health-bearing actor. Health is fixed-point in the same
/// stored units as coordinates: one point of health is `SCALE` units.
#[derive(Clone, Copy, PartialEq, Eq, Structural, Debug)]
pub struct Entity {
    pub pos: Vec2,
    pub health: i64,
    pub class: EntityClass,
}

/// A deferred intent to mutate shared state, produced during the decide
/// phase and consumed by the apply phase of the same tick.
#[derive(Clone, Copy, PartialEq, Eq, Structural, Debug)]
pub enum SideEffect {
    /// `entity0` intends to reduce `entity1`'s health by `strength`.
    Attack { entity0: EntityId, entity1: EntityId, strength: i64 },
    /// `entity0` intends to alter the terrain at `map_pos`.
    MapAttack { entity0: EntityId, map_pos: Vec2, strength: i64 },
}

/// Squared attack range: an entity attacks anything strictly nearer than
/// two world units, so the square is (2 * SCALE) * (2 * SCALE).
pub const ATTACK_DISTANCE_SQ: i128 = 4_000_000_000_000;

/// Health taken by one attack: a quarter of a world unit.
pub const ATTACK_STRENGTH: i64 = 250_000;

/// Distance a player moves along x per tick: a tenth of a world unit.
pub const MOVE_STEP: i32 = 100_000;

/// `a - b` clamped to the `i64` range.
pub open spec fn sat_sub(a: i64, b: i64) -> i64 {
    if a - b < i64::MIN {
        i64::MIN
    } else if a - b > i64::MAX {
        i64::MAX
    } else {
        (a - b) as i64
    }
}

fn sat_sub_i64(a: i64, b: i64) -> (r: i64)
    ensures
        r == sat_sub(a, b),
{
    if b >= 0 {
        if a >= i64::MIN + b {
            a - b
        } else {
            i64::MIN
        }
    } else {
        if a <= i64::MAX + b {
            a - b
        } else {
            i64::MAX
        }
    }
}

/// Whether a point at `p` attacks a target at `q`.
pub open spec fn in_attack_range(p: Vec2, q: Vec2) -> bool {
    dist_sq_spec(p, q) < ATTACK_DISTANCE_SQ as int
}

/// The cell a moving player aims for: one step along x.
pub open spec fn move_target(e: Entity) -> Vec2 {
    Vec2 { x: (e.pos.x + MOVE_STEP) as i32, y: e.pos.y }
}

/// A player's move succeeds when the target coordinate is representable
/// and the grid classifies the target cell as walkable.
pub open spec fn player_can_move(e: Entity, m: GameMap) -> bool {
    &&& e.pos.x + MOVE_STEP <= i32::MAX
    &&& m.validate_move_spec(move_target(e))
}

/// The entity as it stands after its own decide step: players take their
/// move when it is legal; monsters and items hold still.
pub open spec fn decided_entity(e: Entity, m: GameMap) -> Entity {
    match e.class {
        EntityClass::Player(_) => if player_can_move(e, m) {
            Entity { pos: move_target(e), health: e.health, class: e.class }
        } else {
            e
        },
        EntityClass::Monster(_) => e,
        EntityClass::Item(_) => e,
    }
}

/// Attacks emitted by the entity `my_id` standing at `p` against the first
/// `n` snapshot entries, in ascending index order, skipping itself.
pub open spec fn attacks_upto(my_id: int, p: Vec2, es: Seq<Entity>, n: int) -> Seq<SideEffect>
    decreases n,
{
    if n <= 0 {
        Seq::empty()
    } else {
        attacks_upto(my_id, p, es, n - 1) + (if n - 1 != my_id && in_attack_range(p, es[n - 1].pos) {
            seq![SideEffect::Attack {
                entity0: my_id as usize,
                entity1: (n - 1) as usize,
                strength: ATTACK_STRENGTH,
            }]
        } else {
            Seq::empty()
        })
    }
}

/// Side effects the entity `e` at index `my_id` decides against snapshot
/// `es`: a player attacks every other snapshot entity within range, from
/// its post-move position; monsters and items decide nothing yet.
pub open spec fn decided_effects(my_id: int, e: Entity, es: Seq<Entity>, m: GameMap) -> Seq<
    SideEffect,
> {
    match e.class {
        EntityClass::Player(_) => attacks_upto(my_id, decided_entity(e, m).pos, es, es.len() as int),
        EntityClass::Monster(_) => Seq::empty(),
        EntityClass::Item(_) => Seq::empty(),
    }
}

impl Entity {
    /// Decide this entity's actions for the tick: read the immutable
    /// snapshot `entities` and the grid, move self if the example step is
    /// legal (the one sanctioned immediate mutation), and return the
    /// attacks to defer. Nothing but `self` is mutated.
    #[verifier::loop_isolation(false)]
    pub fn update(&mut self, my_id: EntityId, entities: &Vec<Entity>, map: &GameMap) -> (effects:
        Vec<SideEffect>)
        requires
            map.wf(),
        ensures
            *final(self) == decided_entity(*old(self), *map),
            effects@ == decided_effects(my_id as int, *old(self), entities@, *map),
    {
        let cls = self.class;
        match cls {
            EntityClass::Player(_) => {
                // Example move: one step along x, gated by the grid.
                if self.pos.x <= i32::MAX - MOVE_STEP {
                    let new_pos = vec2(self.pos.x + MOVE_STEP, self.pos.y);
                    if map.validate_move(new_pos) {
                        self.pos = new_pos;
                    }
                }
                // Attack everything close enough, in snapshot order.
                let mut effects: Vec<SideEffect> = Vec::new();
                let n = entities.len();
                for i in 0..n
                    invariant
                        *self == decided_entity(*old(self), *map),
                        effects@ == attacks_upto(my_id as int, self.pos, entities@, i as int),
                {
                    if i != my_id {
                        let d = self.pos.distance_sq(entities[i].pos);
                        if d < ATTACK_DISTANCE_SQ {
                            effects.push(
                                SideEffect::Attack {
                                    entity0: my_id,
                                    entity1: i,
                                    strength: ATTACK_STRENGTH,
                                },
                            );
                        }
                    }
                    assert(effects@ =~= attacks_upto(
                        my_id as int,
                        self.pos,
                        entities@,
                        i + 1 as int,
                    ));
                }
                effects
            },
            EntityClass::Monster(_) => Vec::new(),
            EntityClass::Item(_) => Vec::new(),
        }
    }
}

/// The entity sequence after one side effect: an attack on a valid id
/// lowers that entity's health (clamped to the `i64` range); everything
/// else leaves the entities alone.
pub open spec fn apply_effect_entities(es: Seq<Entity>, eff: SideEffect) -> Seq<Entity> {
    match eff {
        SideEffect::Attack { entity1, strength, .. } => if entity1 < es.len() {
            es.update(
                entity1 as int,
                Entity {
                    pos: es[entity1 as int].pos,
                    health: sat_sub(es[entity1 as int].health, strength),
                    class: es[entity1 as int].class,
                },
            )
        } else {
            es
        },
        SideEffect::MapAttack { .. } => es,
    }
}

/// Terrain transition a map attack applies to the struck cell. The
/// transition table is content, not core; this default breaks a wall down
/// to floor and leaves every other classification standing. Collaborators
/// supply richer policies through `GameMap::set_class_at`.
pub open spec fn attack_transition_spec(c: MapClass) -> MapClass {
    match c {
        MapClass::Wall => MapClass::Floor,
        _ => c,
    }
}

fn attack_transition(c: MapClass) -> (r: MapClass)
    ensures
        r == attack_transition_spec(c),
{
    match c {
        MapClass::Wall => MapClass::Floor,
        _ => c,
    }
}

/// The cell sequence after one side effect: a map attack rewrites the
/// struck cell through the transition table; attacks on entities and
/// strikes outside the grid leave the cells alone.
pub open spec fn apply_effect_cells(m: GameMap, eff: SideEffect) -> Seq<MapClass> {
    match eff {
        SideEffect::Attack { .. } => m.cells@,
        SideEffect::MapAttack { map_pos, .. } => match m.class_at_spec(map_pos) {
            Some(c) => m.set_class_spec(map_pos, attack_transition_spec(c)),
            None => m.cells@,
        },
    }
}

/// Every entity after its decide step, in place.
pub open spec fn moved_entities(es: Seq<Entity>, m: GameMap) -> Seq<Entity> {
    Seq::new(es.len(), |i: int| decided_entity(es[i], m))
}

/// All side effects of one tick in emission order: outer order is the
/// deciding entity's index, inner order is that entity's own emission
/// order.
pub open spec fn all_effects(es: Seq<Entity>, m: GameMap, n: int) -> Seq<SideEffect>
    decreases n,
{
    if n <= 0 {
        Seq::empty()
    } else {
        all_effects(es, m, n - 1) + decided_effects(n - 1, es[n - 1], es, m)
    }
}

/// The entity sequence after applying the first `j` side effects in order.
pub open spec fn apply_prefix(es: Seq<Entity>, effs: Seq<SideEffect>, j: int) -> Seq<Entity>
    decreases j,
{
    if j <= 0 {
        es
    } else {
        apply_effect_entities(apply_prefix(es, effs, j - 1), effs[j - 1])
    }
}

/// The survivors among the first `n` entities, in order: exactly those
/// with health strictly above zero.
pub open spec fn reap_upto(es: Seq<Entity>, n: int) -> Seq<Entity>
    decreases n,
{
    if n <= 0 {
        Seq::empty()
    } else {
        reap_upto(es, n - 1) + (if es[n - 1].health > 0 {
            seq![es[n - 1]]
        } else {
            Seq::empty()
        })
    }
}

/// The survivors of `es`: entities with health strictly above zero, in
/// order. An entity at exactly zero is removed.
pub open spec fn reap_spec(es: Seq<Entity>) -> Seq<Entity> {
    reap_upto(es, es.len() as int)
}

/// The entity sequence at the end of the apply phase, before reaping.
pub open spec fn damaged_spec(es: Seq<Entity>, m: GameMap) -> Seq<Entity> {
    apply_prefix(
        moved_entities(es, m),
        all_effects(es, m, es.len() as int),
        all_effects(es, m, es.len() as int).len() as int,
    )
}

/// One full tick over the pre-tick entity sequence `es` and grid `m`:
/// decide (from the snapshot `es`), apply in emission order, reap.
pub open spec fn tick_spec(es: Seq<Entity>, m: GameMap) -> Seq<Entity> {
    reap_spec(damaged_spec(es, m))
}

/// An effect is an attack whose target id is a valid index below `len`.
pub open spec fn effect_is_valid_attack(eff: SideEffect, len: int) -> bool {
    match eff {
        SideEffect::Attack { entity1, .. } => entity1 < len,
        SideEffect::MapAttack { .. } => false,
    }
}

/// Every effect a player emits is an attack on a snapshot index.
proof fn lemma_attacks_upto_valid(my_id: int, p: Vec2, es: Seq<Entity>, n: int)
    requires
        0 <= n <= es.len(),
    ensures
        forall|k: int|
            0 <= k < attacks_upto(my_id, p, es, n).len() ==> effect_is_valid_attack(
                #[trigger] attacks_upto(my_id, p, es, n)[k],
                es.len() as int,
            ),
    decreases n,
{
    if n > 0 {
        lemma_attacks_upto_valid(my_id, p, es, n - 1);
        let prefix = attacks_upto(my_id, p, es, n - 1);
        let whole = attacks_upto(my_id, p, es, n);
        assert forall|k: int| 0 <= k < whole.len() implies effect_is_valid_attack(
            whole[k],
            es.len() as int,
        ) by {
            if k < prefix.len() {
                assert(whole[k] == prefix[k]);
            } else {
                assert(whole[k] == SideEffect::Attack {
                    entity0: my_id as usize,
                    entity1: (n - 1) as usize,
                    strength: ATTACK_STRENGTH,
                });
            }
        }
    }
}

/// Every effect decided in a tick is an attack on a snapshot index.
proof fn lemma_all_effects_valid(es: Seq<Entity>, m: GameMap, n: int)
    requires
        0 <= n <= es.len(),
    ensures
        forall|k: int|
            0 <= k < all_effects(es, m, n).len() ==> effect_is_valid_attack(
                #[trigger] all_effects(es, m, n)[k],
                es.len() as int,
            ),
    decreases n,
{
    if n > 0 {
        lemma_all_effects_valid(es, m, n - 1);
        match es[n - 1].class {
            EntityClass::Player(_) => {
                lemma_attacks_upto_valid(
                    n - 1,
                    decided_entity(es[n - 1], m).pos,
                    es,
                    es.len() as int,
                );
            },
            _ => {},
        }
        let prefix = all_effects(es, m, n - 1);
        let tail = decided_effects(n - 1, es[n - 1], es, m);
        let whole = all_effects(es, m, n);
        assert forall|k: int| 0 <= k < whole.len() implies effect_is_valid_attack(
            whole[k],
            es.len() as int,
        ) by {
            if k < prefix.len() {
                assert(whole[k] == prefix[k]);
            } else {
                assert(whole[k] == tail[k - prefix.len()]);
            }
        }
    }
}

/// Applying side effects never changes how many entities there are.
proof fn lemma_apply_prefix_len(es: Seq<Entity>, effs: Seq<SideEffect>, j: int)
    requires
        0 <= j,
    ensures
        apply_prefix(es, effs, j).len() == es.len(),
    decreases j,
{
    if j > 0 {
        lemma_apply_prefix_len(es, effs, j - 1);
    }
}

/// The simulation driver: owns the grid and the entity collection.
pub struct Game {
    pub map: GameMap,
    pub entities: Vec<Entity>,
}

impl Game {
    /// The owned grid covers its whole square.
    pub open spec fn wf(self) -> bool {
        self.map.wf()
    }

    /// A fresh game: a 1024 x 1024 grid of unset cells and no entities.
    pub fn new() -> (g: Game)
        ensures
            g.wf(),
            g.entities@.len() == 0,
            g.map.size == 1024,
            forall|i: int| 0 <= i < g.map.cells@.len() ==> g.map.cells@[i] == MapClass::Unset,
    {
        let map = GameMap::new(1024);
        let entities: Vec<Entity> = Vec::new();
        Game { map, entities }
    }

    /// Apply one deferred side effect to live state. An attack must name a
    /// live entity of this tick: a stale cross-tick id is a programming
    /// error, which this contract makes unrepresentable.
    pub fn apply_side_effect(&mut self, effect: SideEffect)
        requires
            old(self).wf(),
            effect matches SideEffect::Attack { entity1, .. } ==> entity1 < old(
                self,
            ).entities@.len(),
        ensures
            final(self).wf(),
            final(self).entities@ == apply_effect_entities(old(self).entities@, effect),
            final(self).map.size == old(self).map.size,
            final(self).map.cells@ == apply_effect_cells(old(self).map, effect),
            effect matches SideEffect::Attack { .. } ==> final(self).map == old(self).map,
    {
        match effect {
            SideEffect::Attack { entity1, strength, .. } => {
                let e = self.entities[entity1];
                let nh = sat_sub_i64(e.health, strength);
                self.entities.set(entity1, Entity { pos: e.pos, health: nh, class: e.class });
            },
            SideEffect::MapAttack { map_pos, .. } => {
                match self.map.class_at(map_pos) {
                    Some(c) => {
                        let t = attack_transition(c);
                        self.map.set_class_at(map_pos, t);
                    },
                    None => {},
                }
            },
        }
    }

    /// Remove every entity whose health is at or below zero, keeping the
    /// survivors in order.
    #[verifier::loop_isolation(false)]
    fn reap(&mut self)
        ensures
            final(self).map == old(self).map,
            final(self).entities@ == reap_spec(old(self).entities@),
    {
        let ghost damaged = self.entities@;
        let mut kept: Vec<Entity> = Vec::new();
        let n = self.entities.len();
        for i in 0..n
            invariant
                self.map == old(self).map,
                self.entities@ == damaged,
                kept@ == reap_upto(damaged, i as int),
        {
            let e = self.entities[i];
            if e.health > 0 {
                kept.push(e);
            }
            assert(kept@ =~= reap_upto(damaged, i + 1 as int));
        }
        self.entities = kept;
    }

    /// One tick: snapshot, decide per entity in ascending index order,
    /// apply every side effect in emission order, reap the dead, and
    /// report whether the simulation goes on (more than one survivor).
    ///
    /// The result is a pure function of the pre-tick entities and grid:
    /// every entity's decision reads the snapshot taken at tick start, so
    /// no decision observes another entity's in-tick mutation.
    #[verifier::loop_isolation(false)]
    pub fn update(&mut self) -> (running: bool)
        requires
            old(self).wf(),
        ensures
            final(self).wf(),
            final(self).map == old(self).map,
            final(self).entities@ == tick_spec(old(self).entities@, old(self).map),
            running == (tick_spec(old(self).entities@, old(self).map).len() > 1),
    {
        let ghost orig = self.entities@;
        let n = self.entities.len();

        // Snapshot: a value copy of the whole collection.
        let mut snapshot: Vec<Entity> = Vec::new();
        for i in 0..n
            invariant
                snapshot@ == orig.subrange(0, i as int),
        {
            snapshot.push(self.entities[i]);
            assert(snapshot@ =~= orig.subrange(0, i + 1 as int));
        }
        assert(snapshot@ =~= orig);

        // Decide: collect side effects in emission order; each entity's
        // own move is written back as it decides.
        let mut flat: Vec<SideEffect> = Vec::new();
        for i in 0..n
            invariant
                self.map == old(self).map,
                self.entities@.len() == n,
                forall|k: int| i <= k < n ==> self.entities@[k] == orig[k],
                forall|k: int|
                    0 <= k < i ==> self.entities@[k] == decided_entity(orig[k], old(self).map),
                flat@ == all_effects(orig, old(self).map, i as int),
        {
            let mut e = self.entities[i];
            let effs = e.update(i, &snapshot, &self.map);
            self.entities.set(i, e);
            let m_effs = effs.len();
            for j in 0..m_effs
                invariant
                    flat@ == all_effects(orig, old(self).map, i as int) + effs@.subrange(
                        0,
                        j as int,
                    ),
            {
                flat.push(effs[j]);
                assert(flat@ =~= all_effects(orig, old(self).map, i as int) + effs@.subrange(
                    0,
                    j + 1 as int,
                ));
            }
            assert(effs@.subrange(0, m_effs as int) =~= effs@);
            assert(flat@ =~= all_effects(orig, old(self).map, i + 1 as int));
        }
        let ghost moved = moved_entities(orig, old(self).map);
        assert(self.entities@ =~= moved);
        let ghost effs_all = all_effects(orig, old(self).map, n as int);

        proof {
            lemma_all_effects_valid(orig, old(self).map, n as int);
        }

        // Apply: strictly sequential, in emission order.
        let fl = flat.len();
        for j in 0..fl
            invariant
                self.map == old(self).map,
                self.entities@ == apply_prefix(moved, effs_all, j as int),
        {
            proof {
                lemma_apply_prefix_len(moved, effs_all, j as int);
            }
            let eff = flat[j];
            self.apply_side_effect(eff);
        }
        proof {
            lemma_apply_prefix_len(moved, effs_all, fl as int);
        }

        // Reap: all EntityIds of this tick are invalid afterwards.
        self.reap();

        self.entities.len() > 1
    }

    /// The one-pass alternative driver: no snapshot and no deferral;
    /// each player, in ascending index order, immediately lowers the
    /// health of every other entity in range, reading live state. Then
    /// the dead are reaped as in `update`. Positions never change here,
    /// so the passes commute with the health updates they interleave.
    #[verifier::loop_isolation(false)]
    pub fn update_indexed(&mut self) -> (running: bool)
        requires
            old(self).wf(),
        ensures
            final(self).wf(),
            final(self).map == old(self).map,
            final(self).entities@ == reap_spec(
                indexed_pass(old(self).entities@, old(self).entities@.len() as int),
            ),
            running == (final(self).entities@.len() > 1),
    {
        let ghost orig = self.entities@;
        let n = self.entities.len();
        for i in 0..n
            invariant
                self.map == old(self).map,
                self.entities@.len() == n,
                self.entities@ == indexed_pass(orig, i as int),
        {
            let cls = self.entities[i].class;
            match cls {
                EntityClass::Player(_) => {
                    let ghost base = self.entities@;
                    for ei in 0..n
                        invariant
                            self.map == old(self).map,
                            self.entities@.len() == n,
                            self.entities@ == indexed_inner(base, i as int, ei as int),
                    {
                        if ei != i {
                            let d = self.entities[i].pos.distance_sq(self.entities[ei].pos);
                            if d < ATTACK_DISTANCE_SQ {
                                let e = self.entities[ei];
                                let nh = sat_sub_i64(e.health, ATTACK_STRENGTH);
                                self.entities.set(
                                    ei,
                                    Entity { pos: e.pos, health: nh, class: e.class },
                                );
                            }
                        }
                        assert(self.entities@ =~= indexed_inner(base, i as int, ei + 1 as int));
                    }
                },
                EntityClass::Monster(_) => {},
                EntityClass::Item(_) => {},
            }
            assert(self.entities@ =~= indexed_pass(orig, i + 1 as int));
        }
        self.reap();
        self.entities.len() > 1
    }
}

/// The entity sequence after player `i` has struck the first `n` live
/// entries in the one-pass driver: each other entry in range of `i`'s
/// position loses one attack's worth of health, immediately.
pub open spec fn indexed_inner(es: Seq<Entity>, i: int, n: int) -> Seq<Entity>
    decreases n,
{
    if n <= 0 {
        es
    } else {
        let prev = indexed_inner(es, i, n - 1);
        if n - 1 != i && 0 <= i < prev.len() && n - 1 < prev.len() && in_attack_range(
            prev[i].pos,
            prev[n - 1].pos,
        ) {
            prev.update(
                n - 1,
                Entity {
                    pos: prev[n - 1].pos,
                    health: sat_sub(prev[n - 1].health, ATTACK_STRENGTH),
                    class: prev[n - 1].class,
                },
            )
        } else {
            prev
        }
    }
}

/// The entity sequence after the first `n` entities of the one-pass
/// driver have acted, in ascending index order, on live state.
pub open spec fn indexed_pass(es: Seq<Entity>, n: int) -> Seq<Entity>
    decreases n,
{
    if n <= 0 {
        es
    } else {
        let prev = indexed_pass(es, n - 1);
        if n - 1 < prev.len() {
            match prev[n - 1].class {
                EntityClass::Player(_) => indexed_inner(prev, n - 1, prev.len() as int),
                EntityClass::Monster(_) => prev,
                EntityClass::Item(_) => prev,
            }
        } else {
            prev
        }
    }
}

/// Snapshot isolation: during the decide phase, mutating the live state
/// of entity `i` (the sanctioned immediate move) changes neither the
/// entry any other entity `j` reads for itself from the live collection
/// nor the effects and movement `j` decides — both are functions of the
/// immutable snapshot alone, whatever live value `live_i` entity `i` now
/// holds.
pub proof fn lemma_snapshot_isolation(
    snap: Seq<Entity>,
    m: GameMap,
    i: int,
    j: int,
    live_i: Entity,
)
    requires
        0 <= i < snap.len(),
        0 <= j < snap.len(),
        i != j,
    ensures
        snap.update(i, live_i)[j] == snap[j],
        decided_effects(j, snap.update(i, live_i)[j], snap, m) == decided_effects(
            j,
            snap[j],
            snap,
            m,
        ),
        decided_entity(snap.update(i, live_i)[j], m) == decided_entity(snap[j], m),
{
}

/// Deterministic ordering: the decided side-effect sequence and the whole
/// tick are functions of the entity collection and the grid — equal
/// inputs give the identical effect sequence and the identical tick
/// outcome on every run.
pub proof fn lemma_tick_deterministic(es1: Seq<Entity>, m1: GameMap, es2: Seq<Entity>, m2: GameMap)
    requires
        es1 == es2,
        m1 == m2,
    ensures
        all_effects(es1, m1, es1.len() as int) == all_effects(es2, m2, es2.len() as int),
        tick_spec(es1, m1) == tick_spec(es2, m2),
{
}

/// Every survivor of reaping has health strictly above zero.
proof fn lemma_reap_upto_alive(es: Seq<Entity>, n: int)
    ensures
        forall|k: int|
            0 <= k < reap_upto(es, n).len() ==> #[trigger] reap_upto(es, n)[k].health > 0,
    decreases n,
{
    if n > 0 {
        lemma_reap_upto_alive(es, n - 1);
        let prefix = reap_upto(es, n - 1);
        let whole = reap_upto(es, n);
        assert forall|k: int| 0 <= k < whole.len() implies whole[k].health > 0 by {
            if k < prefix.len() {
                assert(whole[k] == prefix[k]);
            }
        }
    }
}

/// A live entity among the first `n` survives reaping.
proof fn lemma_reap_upto_contains(es: Seq<Entity>, n: int, i: int)
    requires
        0 <= i < n,
        es[i].health > 0,
    ensures
        reap_upto(es, n).contains(es[i]),
    decreases n,
{
    let prefix = reap_upto(es, n - 1);
    let whole = reap_upto(es, n);
    if i == n - 1 {
        assert(whole[prefix.len() as int] == es[i]);
    } else {
        lemma_reap_upto_contains(es, n - 1, i);
        let k = choose|k: int| 0 <= k < prefix.len() && prefix[k] == es[i];
        assert(whole[k] == es[i]);
    }
}

/// Reap threshold: an entity whose health is exactly zero (or below) is
/// removed by the reap phase; an entity with any strictly positive
/// health — however small a fixed-point unit — is kept.
pub proof fn lemma_reap_threshold(es: Seq<Entity>, i: int)
    requires
        0 <= i < es.len(),
    ensures
        es[i].health <= 0 ==> !reap_spec(es).contains(es[i]),
        es[i].health > 0 ==> reap_spec(es).contains(es[i]),
{
    if es[i].health <= 0 {
        lemma_reap_upto_alive(es, es.len() as int);
        if reap_spec(es).contains(es[i]) {
            let k = choose|k: int|
                0 <= k < reap_spec(es).len() && reap_spec(es)[k] == es[i];
            assert(reap_spec(es)[k].health > 0);
        }
    } else {
        lemma_reap_upto_contains(es, es.len() as int, i);
    }
}

/// Reaping never keeps more than `n` of the first `n` entities.
proof fn lemma_reap_upto_len(es: Seq<Entity>, n: int)
    requires
        0 <= n,
    ensures
        reap_upto(es, n).len() <= n,
    decreases n,
{
    if n > 0 {
        lemma_reap_upto_len(es, n - 1);
    }
}

/// If some entity among the first `n` is dead, reaping keeps strictly
/// fewer than `n` of them.
proof fn lemma_reap_upto_dead(es: Seq<Entity>, n: int, k: int)
    requires
        0 <= k < n,
        es[k].health <= 0,
    ensures
        reap_upto(es, n).len() < n,
    decreases n,
{
    if k == n - 1 {
        lemma_reap_upto_len(es, n - 1);
    } else {
        lemma_reap_upto_dead(es, n - 1, k);
    }
}

/// Termination of a mutually lethal two-entity world: if by the end of a
/// tick's apply phase some entity's health has dropped to or below zero,
/// the tick leaves at most one survivor — so `Game::update`, whose result
/// is `tick_spec(...).len() > 1`, reports that the simulation stops.
pub proof fn lemma_two_entity_termination(es: Seq<Entity>, m: GameMap, k: int)
    requires
        es.len() == 2,
        0 <= k < 2,
        damaged_spec(es, m)[k].health <= 0,
    ensures
        tick_spec(es, m).len() <= 1,
{
    let damaged = damaged_spec(es, m);
    lemma_apply_prefix_len(
        moved_entities(es, m),
        all_effects(es, m, es.len() as int),
        all_effects(es, m, es.len() as int).len() as int,
    );
    lemma_reap_upto_dead(damaged, 2, k);
}

/// Build a fresh game and tick it until it stops. A fresh game has no
/// entities, so its first tick already reports no survivors.
pub fn run() {
    let mut game = Game::new();
    loop
        invariant
            game.wf(),
            game.entities@.len() == 0,
        decreases 0int,
    {
        let running = game.update();
        if !running {
            break;
        }
    }
}

} // verus!

