//! The boundary with the rigid-body engine.
//!
//! The engine stores positions and sizes as single-precision reals. The world's
//! logic reads them as whole units: every coordinate that crosses this boundary
//! is an integer, and a real is read back by cutting off its fraction. Whole
//! numbers up to [`REACH`] in magnitude survive the round trip unchanged, which
//! is why every function below that hands a coordinate to the engine asks for
//! it to lie within that bound.
//!
//! Nothing in this file is proved. Each item says in its doc comment which
//! function of the engine it stands for and what is claimed of it.
use vstd::prelude::*;

use rapier2d::dynamics::CCDSolver;
use rapier2d::dynamics::ImpulseJointSet;
use rapier2d::dynamics::IntegrationParameters;
use rapier2d::dynamics::IslandManager;
use rapier2d::dynamics::MultibodyJointSet;
use rapier2d::dynamics::RigidBodyBuilder;
use rapier2d::dynamics::RigidBodyHandle;
use rapier2d::dynamics::RigidBodySet;
use rapier2d::geometry::BroadPhaseMultiSap;
use rapier2d::geometry::ColliderBuilder;
use rapier2d::geometry::ColliderHandle;
use rapier2d::geometry::ColliderSet;
use rapier2d::geometry::NarrowPhase;
use rapier2d::math::Real;
use rapier2d::pipeline::PhysicsPipeline;
use rapier2d::pipeline::QueryPipeline;

verus! {

/// The largest magnitude of a whole coordinate that the engine holds exactly
/// (two to the power of twenty-four).
pub const REACH: i32 = 16_777_216;

/// Identity of one collider: the slot it occupies and the generation of that
/// slot.
#[derive(Clone, Copy, Debug, PartialEq, Eq, Hash, Structural)]
pub struct ColliderId {
    pub index: u32,
    pub generation: u32,
}

/// Identity of one rigid body: the slot it occupies and the generation of that
/// slot.
#[derive(Clone, Copy, Debug, PartialEq, Eq, Hash, Structural)]
pub struct BodyId {
    pub index: u32,
    pub generation: u32,
}

/// Half the width and half the height of an axis-aligned box.
#[derive(Clone, Copy, Debug, PartialEq, Eq, Structural)]
pub struct HalfExtents {
    pub x: i32,
    pub y: i32,
}

/// What the world reads of one collider, in whole units.
#[derive(Clone, Copy, Debug)]
pub struct Entry {
    /// Centre of the collider.
    pub x: i32,
    pub y: i32,
    /// Its half extents where its shape is a box, `None` for any other shape.
    pub half: Option<HalfExtents>,
    /// Its coefficient of restitution.
    pub restitution: i32,
    /// The number the collider was labelled with when it was made.
    pub tag: u128,
    /// The body it is attached to, if any.
    pub parent: Option<BodyId>,
}

/// What the world reads of one rigid body, in whole units.
pub struct Placement {
    pub x: i32,
    pub y: i32,
    /// Whether the body's rotation is exactly the identity.
    pub upright: bool,
    /// Whether forces and contacts move the body.
    pub dynamic: bool,
    /// Whether the body is awake, so that the next tick simulates it.
    pub awake: bool,
    /// Whether its linear and its angular velocity are both exactly zero.
    pub still: bool,
}

/// One simulation of the engine: its `RigidBodySet`, its `ColliderSet`, and
/// the parts that `PhysicsPipeline::step` reads and writes besides them.
///
/// The parts are made together by [`new_engine`] and only ever handed to the
/// engine together, so no part is used with the sets of another simulation.
/// No function of this file removes a body or a collider. The engine's arena
/// therefore hands out the slots 0, 1, 2, … in turn, always in generation
/// zero, which the insertions below rely on.
#[verifier::external_body]
pub struct Engine {
    bodies: RigidBodySet,
    colliders: ColliderSet,
    parameters: IntegrationParameters,
    pipeline: PhysicsPipeline,
    islands: IslandManager,
    broad_phase: BroadPhaseMultiSap,
    narrow_phase: NarrowPhase,
    impulse_joints: ImpulseJointSet,
    multibody_joints: MultibodyJointSet,
    ccd: CCDSolver,
    queries: QueryPipeline,
}

/// The colliders that an engine's `ColliderSet` holds, each under its
/// identity.
///
/// A collider's centre is its translation, its half extents are those of its
/// cuboid shape and its restitution is that of its material, each real cut off
/// to a whole number; its tag is its `user_data`; its parent is the body that
/// `Collider::parent` reports.
pub uninterp spec fn engine_entries(engine: Engine) -> Map<ColliderId, Entry>;

/// The bodies that an engine's `RigidBodySet` holds, each under its identity,
/// with its translation cut off to whole numbers.
pub uninterp spec fn engine_bodies(engine: Engine) -> Map<BodyId, Placement>;

/// The colliders that an engine holds after `PhysicsPipeline::step` was run
/// on it once with the given gravity, each axis as the bit pattern of a
/// single-precision real.
///
/// The engine is built with its `enhanced-determinism` feature, under which
/// its simulation is the same on every machine that keeps to IEEE 754: its
/// maps keep the order of insertion, its sines and cosines are computed in
/// software, and it leaves the processor's handling of tiny reals alone. The
/// same engine and gravity therefore give the same colliders.
pub uninterp spec fn entries_after_tick(engine: Engine, gravity_x: u32, gravity_y: u32) -> Map<
    ColliderId,
    Entry,
>;

/// Whether a whole number is one that the engine holds exactly.
pub open spec fn exact(v: int) -> bool {
    -REACH <= v <= REACH
}

/// The identity that the engine gives to the collider or body that is made
/// when `held` were made before it and none was removed.
pub open spec fn slot(held: nat) -> ColliderId {
    ColliderId { index: held as u32, generation: 0 }
}

/// The entry of a box that is attached to no body, with the builder's
/// restitution of zero and the tag zero.
pub open spec fn fixed_entry(x: i32, y: i32, half: HalfExtents) -> Entry {
    Entry { x, y, half: Some(half), restitution: 0, tag: 0, parent: None }
}

/// A dynamic body that was just made at `(x, y)`: upright, awake and still.
pub open spec fn fresh_body(x: i32, y: i32) -> Placement {
    Placement { x, y, upright: true, dynamic: true, awake: true, still: true }
}

/// Whether `id` is the identity of the next collider of `before`: the slot
/// after those in use, in generation zero.
pub open spec fn next_in(before: Map<ColliderId, Entry>, id: ColliderId) -> bool {
    &&& before.dom().finite()
    &&& id.index == before.dom().len()
    &&& id.generation == 0
    &&& !before.dom().contains(id)
}

/// Whether `after` is `before` with one more box, `id`, attached to `parent`.
/// The box sits where the parent is, as long as the parent is upright.
pub open spec fn attached(
    before: Map<ColliderId, Entry>,
    after: Map<ColliderId, Entry>,
    id: ColliderId,
    parent: BodyId,
    place: Placement,
    half: HalfExtents,
    restitution: i32,
    tag: u128,
) -> bool {
    &&& next_in(before, id)
    &&& after.dom() == before.dom().insert(id)
    &&& forall|other: ColliderId| before.dom().contains(other) ==> after[other] == before[other]
    &&& after[id].half == Some(half)
    &&& after[id].restitution == restitution
    &&& after[id].tag == tag
    &&& after[id].parent == Some(parent)
    &&& place.upright ==> after[id].x == place.x && after[id].y == place.y
}

/// Whether `after` is `before` with the collider `id` moved to `(x, y)` and
/// nothing else changed.
pub open spec fn moved(
    before: Map<ColliderId, Entry>,
    after: Map<ColliderId, Entry>,
    id: ColliderId,
    x: i32,
    y: i32,
) -> bool {
    after == before.insert(id, Entry { x, y, ..before[id] })
}

/// Whether `listing` names every collider of `entries` once, each with its
/// entry, in ascending order of slot.
pub open spec fn is_listing(
    listing: Seq<(ColliderId, Entry)>,
    entries: Map<ColliderId, Entry>,
) -> bool {
    &&& entries.dom().finite()
    &&& listing.len() == entries.dom().len()
    &&& forall|i: int|
        0 <= i < listing.len() ==> entries.dom().contains(#[trigger] listing[i].0)
            && entries[listing[i].0] == listing[i].1
    &&& forall|i: int, j: int|
        0 <= i < j < listing.len() ==> (#[trigger] listing[i]).0.index < (#[trigger] listing[j]).0.index
}

/// Whether every collider that has a parent names a body of `bodies`.
pub open spec fn parents_known(
    entries: Map<ColliderId, Entry>,
    bodies: Map<BodyId, Placement>,
) -> bool {
    forall|id: ColliderId|
        entries.dom().contains(id) ==> match (#[trigger] entries[id]).parent {
            Some(body) => bodies.dom().contains(body),
            None => true,
        }
}

/// What one tick of the engine leaves as it was: which colliders there are,
/// the shape, restitution, tag and parent of each, and the place of each
/// collider that is attached to no body.
pub open spec fn tick_keeps(before: Map<ColliderId, Entry>, after: Map<ColliderId, Entry>) -> bool {
    &&& after.dom() == before.dom()
    &&& forall|id: ColliderId|
        before.dom().contains(id) ==> {
            &&& (#[trigger] after[id]).half == before[id].half
            &&& after[id].restitution == before[id].restitution
            &&& after[id].tag == before[id].tag
            &&& after[id].parent == before[id].parent
            &&& before[id].parent.is_none() ==> after[id] == before[id]
        }
}

/// What one tick of the engine leaves as it was of the bodies: which bodies
/// there are, and which of them are dynamic.
pub open spec fn tick_keeps_bodies(
    before: Map<BodyId, Placement>,
    after: Map<BodyId, Placement>,
) -> bool {
    &&& after.dom() == before.dom()
    &&& forall|id: BodyId|
        before.dom().contains(id) ==> (#[trigger] after[id]).dynamic == before[id].dynamic
}

/// The `new` of each part of a simulation, with the engine's default
/// `IntegrationParameters`.
///
/// Claimed: the new engine holds no collider and no body.
#[verifier::external_body]
pub(crate) fn new_engine() -> (engine: Engine)
    ensures
        engine_entries(engine) =~= Map::empty(),
        engine_bodies(engine) =~= Map::empty(),
{
    Engine {
        bodies: RigidBodySet::new(),
        colliders: ColliderSet::new(),
        parameters: IntegrationParameters::default(),
        pipeline: PhysicsPipeline::new(),
        islands: IslandManager::new(),
        broad_phase: BroadPhaseMultiSap::new(),
        narrow_phase: NarrowPhase::new(),
        impulse_joints: ImpulseJointSet::new(),
        multibody_joints: MultibodyJointSet::new(),
        ccd: CCDSolver::new(),
        queries: QueryPipeline::new(),
    }
}

/// `ColliderSet::insert`, on a cuboid built with the given centre and half
/// extents and otherwise the builder's defaults.
///
/// Claimed: the collider gets the next slot; the colliders afterwards are
/// those before with that one entry more, which has exactly the numbers given,
/// restitution zero, tag zero and no parent; the bodies are as they were.
#[verifier::external_body]
pub(crate) fn insert_fixed_box(engine: &mut Engine, x: i32, y: i32, half: HalfExtents) -> (id:
    ColliderId)
    requires
        exact(x as int),
        exact(y as int),
        0 < half.x <= REACH,
        0 < half.y <= REACH,
    ensures
        next_in(engine_entries(*old(engine)), id),
        engine_entries(*final(engine)) == engine_entries(*old(engine)).insert(
            id,
            fixed_entry(x, y, half),
        ),
        engine_bodies(*final(engine)) == engine_bodies(*old(engine)),
{
    let built = ColliderBuilder::cuboid(half.x as Real, half.y as Real)
        .translation(nalgebra::Vector2::new(x as Real, y as Real))
        .build();
    let (index, generation) = engine.colliders.insert(built).into_raw_parts();
    ColliderId { index, generation }
}

/// `RigidBodySet::insert`, on a dynamic body built at the given point and
/// woken up.
///
/// Claimed: the returned identity was not in use; the bodies afterwards are
/// those before with that one body more, which is dynamic, upright at exactly
/// the point given, awake and without velocity; the colliders are as they
/// were.
#[verifier::external_body]
pub(crate) fn insert_dynamic_body(engine: &mut Engine, x: i32, y: i32) -> (id: BodyId)
    requires
        exact(x as int),
        exact(y as int),
    ensures
        !engine_bodies(*old(engine)).dom().contains(id),
        engine_bodies(*final(engine)) == engine_bodies(*old(engine)).insert(id, fresh_body(x, y)),
        engine_entries(*final(engine)) == engine_entries(*old(engine)),
{
    let mut built = RigidBodyBuilder::dynamic()
        .translation(nalgebra::Vector2::new(x as Real, y as Real))
        .build();
    built.wake_up(true);
    let (index, generation) = engine.bodies.insert(built).into_raw_parts();
    BodyId { index, generation }
}

/// `ColliderSet::insert_with_parent`, on a cuboid built with the given half
/// extents, restitution and tag, and no offset from its parent.
///
/// Claimed: the collider gets the next slot; the colliders afterwards are
/// those before and the new one, which has the half extents, restitution, tag
/// and parent given and, where the parent is upright, the parent's place; the
/// bodies are as they were. The engine panics on a parent that it does not
/// hold, so such a parent is left out.
#[verifier::external_body]
pub(crate) fn attach_box(
    engine: &mut Engine,
    parent: BodyId,
    half: HalfExtents,
    restitution: i32,
    tag: u128,
) -> (id: ColliderId)
    requires
        engine_bodies(*old(engine)).dom().contains(parent),
        0 < half.x <= REACH,
        0 < half.y <= REACH,
        exact(restitution as int),
    ensures
        attached(
            engine_entries(*old(engine)),
            engine_entries(*final(engine)),
            id,
            parent,
            engine_bodies(*old(engine))[parent],
            half,
            restitution,
            tag,
        ),
        engine_bodies(*final(engine)) == engine_bodies(*old(engine)),
{
    let built = ColliderBuilder::cuboid(half.x as Real, half.y as Real)
        .restitution(restitution as Real)
        .user_data(tag)
        .build();
    let body = RigidBodyHandle::from_raw_parts(parent.index, parent.generation);
    let made = engine.colliders.insert_with_parent(built, body, &mut engine.bodies);
    let (index, generation) = made.into_raw_parts();
    ColliderId { index, generation }
}

/// `Collider::set_translation`, on the collider that `ColliderSet::get_mut`
/// finds under `id`.
///
/// Claimed: that collider's centre is now exactly the point given, and nothing
/// else in the engine has changed. An identity that the engine does not hold
/// is left out: there is no collider to move.
#[verifier::external_body]
pub(crate) fn place_collider(engine: &mut Engine, id: ColliderId, x: i32, y: i32)
    requires
        engine_entries(*old(engine)).dom().contains(id),
        exact(x as int),
        exact(y as int),
    ensures
        moved(engine_entries(*old(engine)), engine_entries(*final(engine)), id, x, y),
        engine_bodies(*final(engine)) == engine_bodies(*old(engine)),
{
    let handle = ColliderHandle::from_raw_parts(id.index, id.generation);
    let collider = engine.colliders.get_mut(handle).unwrap();
    collider.set_translation(nalgebra::Vector2::new(x as Real, y as Real));
}

/// `ColliderSet::iter`, each collider handed out as its identity and entry.
///
/// Claimed: the result lists exactly what the engine holds, each collider
/// once, in ascending order of slot, which is the order in which the engine's
/// arena walks its slots.
#[verifier::external_body]
pub(crate) fn list_colliders(engine: &Engine) -> (listing: Vec<(ColliderId, Entry)>)
    ensures
        is_listing(listing@, engine_entries(*engine)),
{
    engine.colliders.iter().map(|(handle, collider)| {
        let (index, generation) = handle.into_raw_parts();
        let at = collider.translation();
        let half = collider.shape().as_cuboid().map(|cuboid| cuboid.half_extents).map(
            |half| HalfExtents { x: half.x as i32, y: half.y as i32 },
        );
        let parent = collider.parent().map(|body| body.into_raw_parts()).map(
            |(index, generation)| BodyId { index, generation },
        );
        let restitution = collider.restitution() as i32;
        let tag = collider.user_data;
        (ColliderId { index, generation }, Entry { x: at.x as i32, y: at.y as i32, half, restitution, tag, parent })
    }).collect()
}

/// `PhysicsPipeline::step`, with no hooks and no event handler, on all parts
/// of one engine and with the given gravity, each axis as the bit pattern of
/// a single-precision real.
///
/// Claimed: the colliders afterwards are those that the tick of the engine's
/// deterministic build gives. A tick neither adds nor removes a collider or a
/// body, leaves the shape, restitution, tag and parent of every collider and
/// the kind of every body as they were, and moves no collider that is
/// attached to no body. The engine looks up the parent of every collider that
/// has one, and panics where it is missing, so such an engine is left out.
#[verifier::external_body]
pub(crate) fn advance(engine: &mut Engine, gravity_x: u32, gravity_y: u32)
    requires
        parents_known(engine_entries(*old(engine)), engine_bodies(*old(engine))),
    ensures
        engine_entries(*final(engine)) == entries_after_tick(*old(engine), gravity_x, gravity_y),
        tick_keeps(engine_entries(*old(engine)), engine_entries(*final(engine))),
        tick_keeps_bodies(engine_bodies(*old(engine)), engine_bodies(*final(engine))),
{
    let gravity = nalgebra::Vector2::new(Real::from_bits(gravity_x), Real::from_bits(gravity_y));
    engine.pipeline.step(
        &gravity,
        &engine.parameters,
        &mut engine.islands,
        &mut engine.broad_phase,
        &mut engine.narrow_phase,
        &mut engine.bodies,
        &mut engine.colliders,
        &mut engine.impulse_joints,
        &mut engine.multibody_joints,
        &mut engine.ccd,
        Some(&mut engine.queries), &(), &(),
    );
}

/// `SystemTime::elapsed` on the Unix epoch, in nanoseconds; `None` where the
/// clock reads a time before the epoch. Nothing is claimed of the number.
#[verifier::external_body]
pub(crate) fn nanos_since_epoch() -> Option<u128> {
    match std::time::SystemTime::UNIX_EPOCH.elapsed() {
        Ok(elapsed) => Some(elapsed.as_nanos()),
        Err(_) => None,
    }
}

} // verus!
