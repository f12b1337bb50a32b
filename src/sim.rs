//! Simulation context and the three-stage pipeline that one tick runs:
//! gameplay, physics, presentation sync.
use crate::input::GameInput;
use crate::number::Number;
use crate::physics::{
    body_with_handle, has_entity, step_bodies, with_velocity, without, registered_bodies,
    registered_handle, BodyKind, IntegrationParameters, PhysicsCollider, PhysicsHandle,
    PhysicsWorld, RigidBody,
};
use crate::transform::{PresentationTransform, Transform2};
use crate::vector2::Vector2;
use vstd::prelude::*;

verus! {

/// Marks the entity that a player's input drives.
#[derive(Clone, Copy, Debug, PartialEq, Eq, Structural)]
pub struct Player {
    pub handle: usize,
}

/// Velocity that gameplay asks for, and which moves the last step cut short.
#[derive(Clone, Copy, Debug, PartialEq, Eq, Structural)]
pub struct KinematicBody {
    pub velocity: Vector2,
    pub is_on_wall: bool,
    pub is_on_floor: bool,
    pub is_on_ceiling: bool,
}

/// Every component of one entity.
#[derive(Clone, Copy, Debug, PartialEq, Eq, Structural)]
pub struct EntityState {
    pub id: u64,
    pub player: Option<Player>,
    pub kind: BodyKind,
    pub transform: Transform2,
    pub body: KinematicBody,
    pub collider: PhysicsCollider,
    /// Set by the first physics stage after the entity was spawned.
    pub handle: Option<PhysicsHandle>,
}

/// Mathematical model of a `Simulation`.
pub ghost struct SimState {
    pub tick: u64,
    pub bodies: Seq<RigidBody>,
    pub next_handle: u64,
    pub gravity: Vector2,
    pub params: IntegrationParameters,
    pub entities: Seq<EntityState>,
    pub removed: Seq<u64>,
    pub next_entity: u64,
}

/// The whole rollback-relevant state: the physics world, every entity's
/// components, and the entities whose bodies the next physics stage
/// releases.
#[derive(Debug, PartialEq, Eq)]
pub struct Simulation {
    pub tick: u64,
    pub world: PhysicsWorld,
    pub entities: Vec<EntityState>,
    pub removed: Vec<u64>,
    pub next_entity: u64,
}

/// Input of player `p`; a player without one has pressed nothing.
pub open spec fn input_for(inputs: Seq<GameInput>, p: usize) -> GameInput {
    if p < inputs.len() {
        inputs[p as int]
    } else {
        GameInput { mask: 0 }
    }
}

pub open spec fn gameplay_entity(e: EntityState, inputs: Seq<GameInput>) -> EntityState {
    match e.player {
        Some(p) => {
            let i = input_for(inputs, p.handle);
            EntityState {
                body: KinematicBody {
                    velocity: Vector2 {
                        x: Number { bits: i.velocity_x() as i32 },
                        y: Number { bits: i.velocity_y() as i32 },
                    },
                    ..e.body
                },
                ..e
            }
        },
        None => e,
    }
}

/// Gameplay stage: each player's velocity follows its input.
pub open spec fn gameplay(st: SimState, inputs: Seq<GameInput>) -> SimState {
    SimState {
        entities: Seq::new(st.entities.len(), |k: int| gameplay_entity(st.entities[k], inputs)),
        ..st
    }
}

pub open spec fn handle_after(s: Seq<RigidBody>, next_handle: u64, entity: u64) -> u64 {
    if !has_entity(s, entity) && next_handle < u64::MAX {
        (next_handle + 1) as u64
    } else {
        next_handle
    }
}

/// Entities before index `k` that have no body yet get one.
pub open spec fn register_entities(st: SimState, k: int) -> SimState
    decreases k,
{
    if k <= 0 {
        st
    } else {
        let s = register_entities(st, k - 1);
        let e = s.entities[k - 1];
        if e.handle is Some {
            s
        } else {
            SimState {
                bodies: registered_bodies(
                    s.bodies,
                    s.next_handle,
                    e.id,
                    e.collider,
                    e.kind,
                    e.transform,
                ),
                next_handle: handle_after(s.bodies, s.next_handle, e.id),
                entities: s.entities.update(
                    k - 1,
                    EntityState { handle: registered_handle(s.bodies, s.next_handle, e.id), ..e },
                ),
                ..s
            }
        }
    }
}

/// Velocities of the entities before index `k` handed to their bodies.
pub open spec fn push_velocities(st: SimState, k: int) -> SimState
    decreases k,
{
    if k <= 0 {
        st
    } else {
        let s = push_velocities(st, k - 1);
        SimState {
            bodies: with_velocity(
                s.bodies,
                st.entities[k - 1].id,
                st.entities[k - 1].body.velocity,
            ),
            ..s
        }
    }
}

/// Bodies of the first `k` pending removals released.
pub open spec fn release_bodies(st: SimState, k: int) -> SimState
    decreases k,
{
    if k <= 0 {
        st
    } else {
        let s = release_bodies(st, k - 1);
        SimState { bodies: without(s.bodies, st.removed[k - 1]), ..s }
    }
}

/// Entity `e` with the position, rotation and contacts of its body.
pub open spec fn synced(e: EntityState, bodies: Seq<RigidBody>) -> EntityState {
    match e.handle {
        Some(h) => match body_with_handle(bodies, h) {
            Some(b) => EntityState {
                transform: Transform2 { pos: b.pos, rotation: b.rotation, ..e.transform },
                body: KinematicBody {
                    is_on_wall: b.is_on_wall,
                    is_on_floor: b.is_on_floor,
                    is_on_ceiling: b.is_on_ceiling,
                    ..e.body
                },
                ..e
            },
            None => e,
        },
        None => e,
    }
}

/// Physics stage: register new bodies, hand over velocities, step the
/// world once and write the results back, release removed bodies.
pub open spec fn physics(st: SimState) -> SimState {
    let s1 = register_entities(st, st.entities.len() as int);
    let s2 = push_velocities(s1, s1.entities.len() as int);
    let s3 = stepped(s2);
    let s4 = release_bodies(s3, s3.removed.len() as int);
    SimState { removed: Seq::empty(), ..s4 }
}

/// The world stepped once, and each entity synced with its body.
pub open spec fn stepped(st: SimState) -> SimState {
    let bodies = step_bodies(st.bodies, st.params.dt, st.bodies.len() as int);
    SimState {
        bodies,
        entities: Seq::new(st.entities.len(), |k: int| synced(st.entities[k], bodies)),
        ..st
    }
}

/// One whole tick.
pub open spec fn tick_spec(st: SimState, inputs: Seq<GameInput>) -> SimState {
    let p = physics(gameplay(st, inputs));
    SimState { tick: (p.tick + 1) as u64, ..p }
}

/// The state after running one tick for each entry of `history`, in order.
pub open spec fn run(st: SimState, history: Seq<Seq<GameInput>>) -> SimState
    decreases history.len(),
{
    if history.len() == 0 {
        st
    } else {
        tick_spec(run(st, history.drop_last()), history.last())
    }
}

pub open spec fn presentation(e: EntityState) -> PresentationTransform {
    PresentationTransform {
        entity: e.id,
        x: e.transform.pos.x,
        y: e.transform.pos.y,
        rotation: e.transform.rotation,
    }
}

/// Views of a history of per-tick inputs.
pub open spec fn history_view(h: Seq<Vec<GameInput>>) -> Seq<Seq<GameInput>> {
    h.map_values(|v: Vec<GameInput>| v@)
}

/// Components of a newly spawned entity.
pub open spec fn spawned(
    id: u64,
    player: Option<Player>,
    kind: BodyKind,
    collider: PhysicsCollider,
    transform: Transform2,
) -> EntityState {
    EntityState {
        id,
        player,
        kind,
        transform,
        body: KinematicBody {
            velocity: Vector2 { x: Number { bits: 0 }, y: Number { bits: 0 } },
            is_on_wall: false,
            is_on_floor: false,
            is_on_ceiling: false,
        },
        collider,
        handle: None,
    }
}

/// Index of the first entity with id `id`, or the length when there is none.
pub open spec fn first_index(s: Seq<EntityState>, id: u64) -> int
    decreases s.len(),
{
    if s.len() == 0 {
        0
    } else if s[0].id == id {
        0
    } else {
        1 + first_index(s.drop_first(), id)
    }
}

proof fn lemma_first_index(s: Seq<EntityState>, id: u64, k: int)
    requires
        0 <= k < s.len(),
        s[k].id == id,
        forall|j: int| 0 <= j < k ==> s[j].id != id,
    ensures
        first_index(s, id) == k,
    decreases s.len(),
{
    if k > 0 {
        lemma_first_index(s.drop_first(), id, k - 1);
    }
}

proof fn lemma_first_index_absent(s: Seq<EntityState>, id: u64)
    requires
        forall|j: int| 0 <= j < s.len() ==> s[j].id != id,
    ensures
        first_index(s, id) == s.len(),
    decreases s.len(),
{
    if s.len() > 0 {
        lemma_first_index_absent(s.drop_first(), id);
    }
}

/// The state after entity `id` is deleted.
pub open spec fn despawned(st: SimState, id: u64) -> SimState {
    let k = first_index(st.entities, id);
    if k < st.entities.len() {
        SimState {
            entities: st.entities.remove(k),
            removed: if st.entities[k].handle is Some {
                st.removed.push(id)
            } else {
                st.removed
            },
            ..st
        }
    } else {
        st
    }
}

/// Running the same input history from the same state gives the same
/// state, every time.
pub proof fn lemma_determinism(a: SimState, b: SimState, history: Seq<Seq<GameInput>>)
    requires
        a == b,
    ensures
        run(a, history) == run(b, history),
{
}

/// Running two histories one after the other is running their
/// concatenation.
pub proof fn lemma_run_concat(st: SimState, h1: Seq<Seq<GameInput>>, h2: Seq<Seq<GameInput>>)
    ensures
        run(run(st, h1), h2) == run(st, h1 + h2),
    decreases h2.len(),
{
    if h2.len() == 0 {
        assert(h1 + h2 =~= h1);
    } else {
        lemma_run_concat(st, h1, h2.drop_last());
        assert((h1 + h2).drop_last() =~= h1 + h2.drop_last());
        assert((h1 + h2).last() == h2.last());
    }
}

impl Simulation {
    pub open spec fn view(&self) -> SimState {
        SimState {
            tick: self.tick,
            bodies: self.world.bodies@,
            next_handle: self.world.next_handle,
            gravity: self.world.gravity,
            params: self.world.params,
            entities: self.entities@,
            removed: self.removed@,
            next_entity: self.next_entity,
        }
    }

    pub open spec fn wf(&self) -> bool {
        self.world.wf()
    }

    /// An empty simulation at tick zero.
    pub fn new() -> (r: Simulation)
        ensures
            r.wf(),
            r.tick == 0,
            r.entities@.len() == 0,
            r.removed@.len() == 0,
            r.world.bodies@.len() == 0,
            r.world.next_handle == 0,
            r.world.params.dt.bits == 16,
            r.world.gravity.x.bits == 0 && r.world.gravity.y.bits == -157,
            r.next_entity == 0,
    {
        Simulation {
            tick: 0,
            world: PhysicsWorld::new(),
            entities: Vec::new(),
            removed: Vec::new(),
            next_entity: 0,
        }
    }






    /// A deep copy of the simulation.
    pub fn copy(&self) -> (r: Simulation)
        ensures
            r@ == self@,
    {
        let entities = self.entities.clone();
        assert(entities@ =~= self.entities@);
        let removed = self.removed.clone();
        assert(removed@ =~= self.removed@);
        Simulation {
            tick: self.tick,
            world: self.world.copy(),
            entities,
            removed,
            next_entity: self.next_entity,
        }
    }

    /// The physics stage, the only one that writes the physics world.
    pub fn physics_stage(&mut self)
        requires
            old(self).wf(),
        ensures
            final(self).tick == old(self).tick,
            final(self).wf(),
            final(self)@ == physics(old(self)@),
    {
        physics_system_add(self);
        physics_system_kinematic(self);
        physics_system_step(self);
        physics_system_remove(self);
    }

    /// Runs one tick: gameplay with `inputs` (indexed by player handle),
    /// physics, then presentation sync, whose result it returns.
    pub fn advance(&mut self, inputs: &Vec<GameInput>) -> (r: Vec<PresentationTransform>)
        requires
            old(self).wf(),
            old(self).tick < u64::MAX,
        ensures
            final(self).wf(),
            final(self)@ == tick_spec(old(self)@, inputs@),
            final(self).tick == old(self).tick + 1,
            r@ == Seq::new(
                final(self).entities@.len(),
                |k: int| presentation(final(self).entities@[k]),
            ),
    {
        move_player_system(self, inputs);
        self.physics_stage();
        self.tick = self.tick + 1;
        sync_transform_system(self)
    }
    /// Adds an entity whose body the next physics stage registers, and
    /// returns its id; `None` when every id has been given out.
    pub fn spawn(
        &mut self,
        player: Option<Player>,
        kind: BodyKind,
        collider: PhysicsCollider,
        transform: Transform2,
    ) -> (r: Option<u64>)
        requires
            old(self).wf(),
        ensures
            final(self).wf(),
            old(self).next_entity == u64::MAX ==> r is None && *final(self) == *old(self),
            old(self).next_entity < u64::MAX ==> r == Some(old(self).next_entity) && final(self)@
                == (SimState {
                next_entity: (old(self).next_entity + 1) as u64,
                entities: old(self)@.entities.push(spawned(old(self).next_entity, player, kind, collider, transform)),
                ..old(self)@
            }),
    {
        if self.next_entity == u64::MAX {
            return None;
        }
        let id = self.next_entity;
        self.entities.push(
            EntityState {
                id,
                player,
                kind,
                transform,
                body: KinematicBody {
                    velocity: Vector2::zero(),
                    is_on_wall: false,
                    is_on_floor: false,
                    is_on_ceiling: false,
                },
                collider,
                handle: None,
            },
        );
        self.next_entity = id + 1;
        Some(id)
    }

    /// Deletes the entity `id`; its body, if it has one, is released by the
    /// next physics stage. Deleting an absent entity changes nothing.
    pub fn despawn(&mut self, id: u64)
        requires
            old(self).wf(),
        ensures
            final(self).wf(),
            final(self)@ == despawned(old(self)@, id),
    {
        let mut k: usize = 0;
        while k < self.entities.len()
            invariant
                k <= self.entities@.len(),
                self@ == old(self)@,
                self.wf(),
                self.entities@ == old(self).entities@,
                forall|j: int| 0 <= j < k ==> self.entities@[j].id != id,
            decreases self.entities@.len() - k,
        {
            if self.entities[k].id == id {
                let e = self.entities.remove(k);
                proof {
                    assert(first_index(old(self)@.entities, id) == k as int) by {
                        lemma_first_index(old(self)@.entities, id, k as int);
                    }
                }
                if e.handle.is_some() {
                    self.removed.push(id);
                }
                return;
            }
            k = k + 1;
        }
        proof {
            lemma_first_index_absent(old(self)@.entities, id);
        }
    }

    /// Runs one tick per entry of `history`, in order.
    pub fn run_ticks(&mut self, history: &Vec<Vec<GameInput>>)
        requires
            old(self).wf(),
            old(self).tick + history@.len() <= u64::MAX,
        ensures
            final(self).wf(),
            final(self)@ == run(old(self)@, history_view(history@)),
    {
        let mut k: usize = 0;
        while k < history.len()
            invariant
                k <= history@.len(),
                self.wf(),
                self.tick == old(self).tick + k,
                old(self).tick + history@.len() <= u64::MAX,
                self@ == run(old(self)@, history_view(history@).take(k as int)),
            decreases history@.len() - k,
        {
            let inputs = &history[k];
            self.advance(inputs);
            proof {
                let h = history_view(history@);
                assert(h.take(k + 1).drop_last() =~= h.take(k as int));
            }
            k = k + 1;
        }
        proof {
            assert(history_view(history@).take(k as int) =~= history_view(history@));
        }
    }
}

/// Gameplay stage: each player's body takes the velocity its input asks for.
pub fn move_player_system(sim: &mut Simulation, inputs: &Vec<GameInput>)
    requires
        old(sim).wf(),
    ensures
        final(sim).tick == old(sim).tick,
        final(sim).wf(),
        final(sim)@ == gameplay(old(sim)@, inputs@),
{
    let n = sim.entities.len();
    let mut k: usize = 0;
    while k < n
        invariant
            sim.tick == old(sim).tick,
            n == old(sim).entities@.len(),
            k <= n,
            sim.entities@.len() == n,
            sim.wf(),
            sim@ == (SimState { entities: sim.entities@, ..old(sim)@ }),
            forall|j: int|
                0 <= j < k ==> sim.entities@[j] == gameplay_entity(
                    old(sim).entities@[j],
                    inputs@,
                ),
            forall|j: int| k <= j < n ==> sim.entities@[j] == old(sim).entities@[j],
        decreases n - k,
    {
        let e = sim.entities[k];
        match e.player {
            Some(p) => {
                let input = if p.handle < inputs.len() {
                    inputs[p.handle]
                } else {
                    GameInput::empty()
                };
                let v = input.velocity();
                sim.entities.set(
                    k,
                    EntityState { body: KinematicBody { velocity: v, ..e.body }, ..e },
                );
            },
            None => {},
        }
        k = k + 1;
    }
    assert(sim.entities@ =~= gameplay(old(sim)@, inputs@).entities);
}

/// Registers a body for every entity spawned since the last physics stage.
pub fn physics_system_add(sim: &mut Simulation)
    requires
        old(sim).wf(),
    ensures
        final(sim).tick == old(sim).tick,
        final(sim).wf(),
        final(sim)@ == register_entities(old(sim)@, old(sim)@.entities.len() as int),
{
    let n = sim.entities.len();
    let mut k: usize = 0;
    while k < n
        invariant
            sim.tick == old(sim).tick,
            n == old(sim).entities@.len(),
            k <= n,
            sim.wf(),
            sim@ == register_entities(old(sim)@, k as int),
            sim.entities@.len() == n,
        decreases n - k,
    {
        let e = sim.entities[k];
        if e.handle.is_none() {
            let h = sim.world.register(e.id, e.collider, e.kind, e.transform);
            sim.entities.set(k, EntityState { handle: h, ..e });
        }
        k = k + 1;
    }
}

/// Hands each entity's velocity to its body.
pub fn physics_system_kinematic(sim: &mut Simulation)
    requires
        old(sim).wf(),
    ensures
        final(sim).tick == old(sim).tick,
        final(sim).wf(),
        final(sim)@ == push_velocities(old(sim)@, old(sim)@.entities.len() as int),
{
    let n = sim.entities.len();
    let mut k: usize = 0;
    while k < n
        invariant
            sim.tick == old(sim).tick,
            n == old(sim).entities@.len(),
            k <= n,
            sim.wf(),
            sim@ == push_velocities(old(sim)@, k as int),
            sim.entities@ == old(sim).entities@,
        decreases n - k,
    {
        let e = sim.entities[k];
        sim.world.set_velocity(e.id, e.body.velocity);
        k = k + 1;
    }
}

/// Releases the bodies of deleted entities.
pub fn physics_system_remove(sim: &mut Simulation)
    requires
        old(sim).wf(),
    ensures
        final(sim).tick == old(sim).tick,
        final(sim).wf(),
        final(sim)@ == (SimState {
            removed: Seq::empty(),
            ..release_bodies(old(sim)@, old(sim)@.removed.len() as int)
        }),
{
    let n = sim.removed.len();
    let mut k: usize = 0;
    while k < n
        invariant
            sim.tick == old(sim).tick,
            n == old(sim).removed@.len(),
            k <= n,
            sim.wf(),
            sim@ == release_bodies(old(sim)@, k as int),
            sim.removed@ == old(sim).removed@,
        decreases n - k,
    {
        let e = sim.removed[k];
        sim.world.remove(e);
        k = k + 1;
    }
    sim.removed.clear();
    assert(sim.removed@ =~= Seq::<u64>::empty());
}

/// Copies each body's position, rotation and contacts to its entity.
fn write_back(sim: &mut Simulation)
    requires
        old(sim).wf(),
    ensures
        final(sim).tick == old(sim).tick,
        final(sim).wf(),
        final(sim)@ == (SimState {
            entities: Seq::new(
                old(sim)@.entities.len(),
                |k: int| synced(old(sim)@.entities[k], old(sim)@.bodies),
            ),
            ..old(sim)@
        }),
{
    let n = sim.entities.len();
    let mut k: usize = 0;
    while k < n
        invariant
            sim.tick == old(sim).tick,
            n == old(sim).entities@.len(),
            k <= n,
            sim.entities@.len() == n,
            sim.wf(),
            sim@ == (SimState { entities: sim.entities@, ..old(sim)@ }),
            forall|j: int|
                0 <= j < k ==> sim.entities@[j] == synced(
                    old(sim).entities@[j],
                    old(sim).world.bodies@,
                ),
            forall|j: int| k <= j < n ==> sim.entities@[j] == old(sim).entities@[j],
        decreases n - k,
    {
        let e = sim.entities[k];
        match e.handle {
            Some(h) => match sim.world.body(h) {
                Some(b) => {
                    sim.entities.set(
                        k,
                        EntityState {
                            transform: Transform2 {
                                pos: b.pos,
                                rotation: b.rotation,
                                ..e.transform
                            },
                            body: KinematicBody {
                                is_on_wall: b.is_on_wall,
                                is_on_floor: b.is_on_floor,
                                is_on_ceiling: b.is_on_ceiling,
                                ..e.body
                            },
                            ..e
                        },
                    );
                },
                None => {},
            },
            None => {},
        }
        k = k + 1;
    }
    assert(sim.entities@ =~= Seq::new(
        old(sim)@.entities.len(),
        |k: int| synced(old(sim)@.entities[k], old(sim)@.bodies),
    ));
}

/// Advances the physics world one timestep and writes the results back to
/// the entities.
pub fn physics_system_step(sim: &mut Simulation)
    requires
        old(sim).wf(),
    ensures
        final(sim).wf(),
        final(sim).tick == old(sim).tick,
        final(sim)@ == stepped(old(sim)@),
{
    sim.world.step();
    write_back(sim);
}

/// The presentation-sync stage: what the renderer reads of each entity.
pub fn sync_transform_system(sim: &Simulation) -> (r: Vec<PresentationTransform>)
    ensures
        r@ == Seq::new(sim.entities@.len(), |k: int| presentation(sim.entities@[k])),
{
    let mut r: Vec<PresentationTransform> = Vec::new();
    let mut k: usize = 0;
    while k < sim.entities.len()
        invariant
            k <= sim.entities@.len(),
            r@ == Seq::new(k as nat, |j: int| presentation(sim.entities@[j])),
        decreases sim.entities@.len() - k,
    {
        let e = sim.entities[k];
        r.push(
            PresentationTransform {
                entity: e.id,
                x: e.transform.pos.x,
                y: e.transform.pos.y,
                rotation: e.transform.rotation,
            },
        );
        k = k + 1;
        assert(r@ =~= Seq::new(k as nat, |j: int| presentation(sim.entities@[j])));
    }
    r
}

} // verus!
