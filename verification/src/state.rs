//! The simulated world: four walls round an arena, and the particles dropped
//! into it.
use vstd::prelude::*;

use crate::physics::advance;
use crate::physics::attach_box;
use crate::physics::engine_bodies;
use crate::physics::engine_entries;
use crate::physics::entries_after_tick;
use crate::physics::exact;
use crate::physics::fresh_body;
use crate::physics::insert_dynamic_body;
use crate::physics::insert_fixed_box;
use crate::physics::is_listing;
use crate::physics::list_colliders;
use crate::physics::nanos_since_epoch;
use crate::physics::new_engine;
use crate::physics::parents_known;
use crate::physics::place_collider;
use crate::physics::slot;
use crate::physics::BodyId;
use crate::physics::ColliderId;
use crate::physics::Engine;
use crate::physics::Entry;
use crate::physics::HalfExtents;
use crate::physics::Placement;
use crate::walls::centre_of;
use crate::walls::frame_fits;
use crate::walls::half_of;
use crate::walls::wall_centre;
use crate::walls::wall_half;
use crate::walls::within_reach;
use crate::walls::Rect;
use crate::walls::Side;

verus! {

/// Half the side of a particle.
pub const PARTICLE_HALF: i32 = 1;

/// The restitution of a particle. It is negative: a particle that hits
/// something loses more energy than a fully inelastic one would.
pub const PARTICLE_RESTITUTION: i32 = -1;

/// Gravity along the horizontal axis, as the bit pattern of the
/// single-precision real zero.
pub const GRAVITY_X: u32 = 0;

/// Gravity along the vertical axis, which grows downwards, as the bit pattern
/// of the single-precision real nearest to 9.81.
pub const GRAVITY_Y: u32 = 0x411C_F5C3;

/// One box of the world as a renderer sees it: its centre, its size and the
/// number from which its colour is derived.
#[derive(Clone, Copy, Debug, PartialEq, Eq, Structural)]
pub struct Cube {
    pub x: i32,
    pub y: i32,
    pub width: i32,
    pub height: i32,
    pub tag: u128,
}

/// One box of a snapshot, with its identity.
#[derive(Clone, Copy, Debug, PartialEq, Eq, Structural)]
pub struct Sighting {
    pub id: ColliderId,
    pub cube: Cube,
}

/// The identities of the four walls.
#[derive(Clone, Copy, Debug, PartialEq, Eq, Structural)]
pub struct Walls {
    pub top: ColliderId,
    pub bottom: ColliderId,
    pub left: ColliderId,
    pub right: ColliderId,
}

impl Walls {
    /// The wall on `side`.
    pub open spec fn on(self, side: Side) -> ColliderId {
        match side {
            Side::Top => self.top,
            Side::Bottom => self.bottom,
            Side::Left => self.left,
            Side::Right => self.right,
        }
    }

    /// Whether `id` is one of the four walls.
    pub open spec fn has(self, id: ColliderId) -> bool {
        id == self.top || id == self.bottom || id == self.left || id == self.right
    }

    /// Whether the four walls are four different colliders.
    pub open spec fn distinct(self) -> bool {
        &&& self.top != self.bottom
        &&& self.top != self.left
        &&& self.top != self.right
        &&& self.bottom != self.left
        &&& self.bottom != self.right
        &&& self.left != self.right
    }
}

/// The walls of every world: they are the first four boxes that are made,
/// the bottom one first, then the left, the top and the right one.
pub open spec fn first_walls() -> Walls {
    Walls { bottom: slot(0), left: slot(1), top: slot(2), right: slot(3) }
}

/// The box that a renderer sees for an entry of the engine: twice the half
/// extents, and no extent at all for a shape that is no box.
pub open spec fn cube_of(entry: Entry) -> Cube {
    match entry.half {
        Some(half) => Cube {
            x: entry.x,
            y: entry.y,
            width: (2 * half.x) as i32,
            height: (2 * half.y) as i32,
            tag: entry.tag,
        },
        None => Cube { x: entry.x, y: entry.y, width: 0, height: 0, tag: entry.tag },
    }
}

/// A wall of the given side centred at `(x, y)`.
pub open spec fn wall_cube_at(side: Side, x: int, y: int) -> Cube {
    Cube {
        x: x as i32,
        y: y as i32,
        width: (2 * wall_half(side).x) as i32,
        height: (2 * wall_half(side).y) as i32,
        tag: 0,
    }
}

/// The wall on `side` as it stands when the arena is `rect`.
pub open spec fn wall_cube(side: Side, rect: Rect) -> Cube {
    wall_cube_at(side, wall_centre(side, rect).0, wall_centre(side, rect).1)
}

/// Where the wall on `side` is centred in a world that was never resized.
pub open spec fn initial_centre(side: Side) -> (int, int) {
    match side {
        Side::Top => (0, 0),
        Side::Bottom => (0, 139),
        Side::Left => (-99, 0),
        Side::Right => (319, 0),
    }
}

/// The wall on `side` in a world that was never resized.
pub open spec fn initial_cube(side: Side) -> Cube {
    wall_cube_at(side, initial_centre(side).0, initial_centre(side).1)
}

/// The particle that is dropped at `(x, y)` with the tag `tag`.
pub open spec fn particle_cube(x: i32, y: i32, tag: u128) -> Cube {
    Cube { x, y, width: (2 * PARTICLE_HALF) as i32, height: (2 * PARTICLE_HALF) as i32, tag }
}

/// Whether a particle can be dropped at `(x, y)`: whether the engine holds
/// both coordinates exactly.
pub open spec fn in_reach(x: i32, y: i32) -> bool {
    exact(x as int) && exact(y as int)
}

/// A world with nothing but its walls, as it is before any resize.
pub open spec fn initial_world(walls: Walls) -> Map<ColliderId, Cube> {
    Map::<ColliderId, Cube>::empty().insert(walls.bottom, initial_cube(Side::Bottom)).insert(
        walls.left,
        initial_cube(Side::Left),
    ).insert(walls.top, initial_cube(Side::Top)).insert(walls.right, initial_cube(Side::Right))
}

/// The world `world` with its four walls moved round the arena `rect`.
pub open spec fn resized(world: Map<ColliderId, Cube>, walls: Walls, rect: Rect) -> Map<
    ColliderId,
    Cube,
> {
    world.insert(walls.top, wall_cube(Side::Top, rect)).insert(
        walls.left,
        wall_cube(Side::Left, rect),
    ).insert(walls.bottom, wall_cube(Side::Bottom, rect)).insert(
        walls.right,
        wall_cube(Side::Right, rect),
    )
}

/// Whether `listing` shows every box of `world` once, in the order in which
/// the boxes were made: the box at place `i` is the one in slot `i`.
pub open spec fn is_snapshot(listing: Seq<Sighting>, world: Map<ColliderId, Cube>) -> bool {
    &&& world.dom().finite()
    &&& listing.len() == world.dom().len()
    &&& forall|i: int|
        0 <= i < listing.len() ==> {
            &&& (#[trigger] listing[i]).id.index == i
            &&& listing[i].id == slot(i as nat)
            &&& world.contains_pair(listing[i].id, listing[i].cube)
        }
}

/// Whether two boxes differ at most in where they are.
pub open spec fn same_make(a: Cube, b: Cube) -> bool {
    a.width == b.width && a.height == b.height && a.tag == b.tag
}

/// The world `world` after the particles of `drops` were dropped into it, one
/// after the other.
pub open spec fn after_drops(world: Map<ColliderId, Cube>, drops: Seq<Sighting>) -> Map<
    ColliderId,
    Cube,
>
    decreases drops.len(),
{
    if drops.len() == 0 {
        world
    } else {
        after_drops(world, drops.drop_last()).insert(drops.last().id, drops.last().cube)
    }
}

/// Whether every particle of `drops` comes under an identity that neither
/// `world` nor an earlier particle uses, as the engine hands them out.
pub open spec fn fresh_drops(world: Map<ColliderId, Cube>, drops: Seq<Sighting>) -> bool {
    &&& forall|i: int| 0 <= i < drops.len() ==> !world.dom().contains((#[trigger] drops[i]).id)
    &&& forall|i: int, j: int|
        0 <= i < j < drops.len() ==> (#[trigger] drops[i]).id != (#[trigger] drops[j]).id
}

/// Dropping particles adds one box for each and takes none away: after any
/// number of drops the world holds that many boxes more. A world that began
/// with its four walls alone therefore holds four more boxes than particles
/// were dropped.
pub proof fn law_count_after_drops(world: Map<ColliderId, Cube>, drops: Seq<Sighting>)
    requires
        world.dom().finite(),
        fresh_drops(world, drops),
    ensures
        after_drops(world, drops).dom().finite(),
        after_drops(world, drops).dom().len() == world.dom().len() + drops.len(),
        forall|id: ColliderId|
            after_drops(world, drops).dom().contains(id) <==> world.dom().contains(id) || exists|
                i: int,
            |
                0 <= i < drops.len() && (#[trigger] drops[i]).id == id,
    decreases drops.len(),
{
    if drops.len() > 0 {
        let earlier = drops.drop_last();
        assert(fresh_drops(world, earlier)) by {
            assert forall|i: int| 0 <= i < earlier.len() implies !world.dom().contains(
                (#[trigger] earlier[i]).id,
            ) by {
                assert(earlier[i] == drops[i]);
            }
            assert forall|i: int, j: int| 0 <= i < j < earlier.len() implies (
            #[trigger] earlier[i]).id != (#[trigger] earlier[j]).id by {
                assert(earlier[i] == drops[i]);
                assert(earlier[j] == drops[j]);
            }
        }
        law_count_after_drops(world, earlier);
        let last = drops.last();
        let so_far = after_drops(world, earlier);
        assert(!so_far.dom().contains(last.id)) by {
            if so_far.dom().contains(last.id) {
                assert(drops[drops.len() - 1] == last);
                if !world.dom().contains(last.id) {
                    let i = choose|i: int|
                        0 <= i < earlier.len() && (#[trigger] earlier[i]).id == last.id;
                    assert(earlier[i] == drops[i]);
                }
            }
        }
        assert forall|id: ColliderId|
            after_drops(world, drops).dom().contains(id) <==> world.dom().contains(id) || exists|
                i: int,
            |
                0 <= i < drops.len() && (#[trigger] drops[i]).id == id by {
            if id == last.id {
                assert(drops[drops.len() - 1].id == id);
            }
            if exists|i: int| 0 <= i < earlier.len() && (#[trigger] earlier[i]).id == id {
                let i = choose|i: int| 0 <= i < earlier.len() && (#[trigger] earlier[i]).id == id;
                assert(drops[i].id == id);
            }
            if exists|i: int| 0 <= i < drops.len() && (#[trigger] drops[i]).id == id {
                let i = choose|i: int| 0 <= i < drops.len() && (#[trigger] drops[i]).id == id;
                if i < earlier.len() {
                    assert(earlier[i].id == id);
                }
            }
        }
    }
}

/// Resizing twice to the same arena is resizing once: the second call moves
/// no wall.
pub proof fn law_resize_is_idempotent(world: Map<ColliderId, Cube>, walls: Walls, rect: Rect)
    ensures
        resized(resized(world, walls, rect), walls, rect) == resized(world, walls, rect),
{
    assert(resized(resized(world, walls, rect), walls, rect) =~= resized(world, walls, rect));
}

/// Resizing moves the walls and nothing else: every box that is no wall is
/// where and what it was, and no box comes or goes in a world that holds its
/// walls.
pub proof fn law_resize_moves_walls_only(
    world: Map<ColliderId, Cube>,
    walls: Walls,
    rect: Rect,
    id: ColliderId,
)
    requires
        !walls.has(id),
    ensures
        resized(world, walls, rect).dom().contains(id) == world.dom().contains(id),
        world.dom().contains(id) ==> resized(world, walls, rect)[id] == world[id],
        forall|side: Side|
            walls.distinct() ==> resized(world, walls, rect)[#[trigger] walls.on(side)]
                == wall_cube(side, rect),
{
}

/// Where the walls fit round the arena, a resize puts each wall's inner face
/// on its edge of the arena: the top and the left wall end where the rectangle
/// begins, the bottom and the right wall begin where it ends.
pub proof fn law_resized_walls_face_the_arena(
    world: Map<ColliderId, Cube>,
    walls: Walls,
    rect: Rect,
)
    requires
        walls.distinct(),
        frame_fits(rect),
    ensures
        ({
            let top = resized(world, walls, rect)[walls.top];
            top.y + top.height / 2 == rect.y
        }),
        ({
            let left = resized(world, walls, rect)[walls.left];
            left.x + left.width / 2 == rect.x
        }),
        ({
            let bottom = resized(world, walls, rect)[walls.bottom];
            bottom.y - bottom.height / 2 == rect.y + rect.height
        }),
        ({
            let right = resized(world, walls, rect)[walls.right];
            right.x - right.width / 2 == rect.x + rect.width
        }),
{
}

spec fn is_wall_entry(entry: Entry, side: Side) -> bool {
    &&& entry.half == Some(wall_half(side))
    &&& entry.restitution == 0
    &&& entry.tag == 0
    &&& entry.parent.is_none()
}

spec fn is_particle_entry(entry: Entry, bodies: Map<BodyId, Placement>) -> bool {
    &&& entry.half == Some(HalfExtents { x: PARTICLE_HALF, y: PARTICLE_HALF })
    &&& entry.restitution == PARTICLE_RESTITUTION
    &&& match entry.parent {
        Some(body) => bodies.dom().contains(body) && bodies[body].dynamic,
        None => false,
    }
}

spec fn wall_stands(entries: Map<ColliderId, Entry>, walls: Walls, side: Side) -> bool {
    entries.dom().contains(walls.on(side)) && is_wall_entry(entries[walls.on(side)], side)
}

spec fn slots_in_turn(entries: Map<ColliderId, Entry>) -> bool {
    forall|id: ColliderId|
        #[trigger] entries.dom().contains(id) ==> id.generation == 0 && id.index
            < entries.dom().len()
}

spec fn well_formed(
    entries: Map<ColliderId, Entry>,
    bodies: Map<BodyId, Placement>,
    walls: Walls,
) -> bool {
    &&& entries.dom().finite()
    &&& bodies.dom().finite()
    &&& entries.dom().len() == bodies.dom().len() + 4
    &&& walls == first_walls()
    &&& slots_in_turn(entries)
    &&& wall_stands(entries, walls, Side::Top)
    &&& wall_stands(entries, walls, Side::Bottom)
    &&& wall_stands(entries, walls, Side::Left)
    &&& wall_stands(entries, walls, Side::Right)
    &&& forall|id: ColliderId|
        entries.dom().contains(id) && !walls.has(id) ==> is_particle_entry(
            #[trigger] entries[id],
            bodies,
        )
    &&& forall|a: ColliderId, b: ColliderId|
        entries.dom().contains(a) && entries.dom().contains(b) && a != b && !walls.has(a)
            && !walls.has(b) ==> (#[trigger] entries[a]).parent != (#[trigger] entries[b]).parent
}

/// In a well-formed world every wall stands, and every collider's parent is a
/// body of the world.
proof fn lemma_walls_stand(
    entries: Map<ColliderId, Entry>,
    bodies: Map<BodyId, Placement>,
    walls: Walls,
)
    requires
        well_formed(entries, bodies, walls),
    ensures
        walls.distinct(),
        forall|side: Side|
            entries.dom().contains(#[trigger] walls.on(side)) && is_wall_entry(
                entries[walls.on(side)],
                side,
            ),
        forall|id: ColliderId| walls.has(id) ==> entries.dom().contains(id),
        parents_known(entries, bodies),
{
    assert forall|side: Side|
        entries.dom().contains(#[trigger] walls.on(side)) && is_wall_entry(
            entries[walls.on(side)],
            side,
        ) by {
        assert(wall_stands(entries, walls, side));
    }
    assert forall|id: ColliderId| entries.dom().contains(id) implies match (
    #[trigger] entries[id]).parent {
        Some(body) => bodies.dom().contains(body),
        None => true,
    } by {
        if walls.has(id) {
            assert(id == walls.on(Side::Top) || id == walls.on(Side::Bottom) || id == walls.on(
                Side::Left,
            ) || id == walls.on(Side::Right));
        } else {
            assert(is_particle_entry(entries[id], bodies));
        }
    }
}

/// Slots that were handed out in turn stay so while no box comes or goes.
proof fn lemma_slots_stay(before: Map<ColliderId, Entry>, after: Map<ColliderId, Entry>)
    requires
        slots_in_turn(before),
        after.dom() == before.dom(),
    ensures
        slots_in_turn(after),
{
    assert forall|id: ColliderId| #[trigger]
        after.dom().contains(id) implies id.generation == 0 && id.index < after.dom().len() by {
        assert(before.dom().contains(id));
    }
}

/// Slots that were handed out in turn stay so when the next box is made.
proof fn lemma_slots_grow(
    before: Map<ColliderId, Entry>,
    after: Map<ColliderId, Entry>,
    id: ColliderId,
)
    requires
        slots_in_turn(before),
        crate::physics::next_in(before, id),
        after.dom() == before.dom().insert(id),
    ensures
        slots_in_turn(after),
        after.dom().len() == before.dom().len() + 1,
{
    assert forall|other: ColliderId| #[trigger]
        after.dom().contains(other) implies other.generation == 0 && other.index
        < after.dom().len() by {
        if other != id {
            assert(before.dom().contains(other));
        }
    }
}

/// A strictly ascending listing begins no lower than its places count.
proof fn lemma_listing_from_below(listing: Seq<(ColliderId, Entry)>, i: int)
    requires
        0 <= i < listing.len(),
        forall|a: int, b: int|
            0 <= a < b < listing.len() ==> (#[trigger] listing[a]).0.index < (
            #[trigger] listing[b]).0.index,
    ensures
        listing[i].0.index >= i,
    decreases i,
{
    if i > 0 {
        lemma_listing_from_below(listing, i - 1);
        assert(listing[i - 1].0.index < listing[i].0.index);
    }
}

/// A strictly ascending listing ends no higher than its last slot allows.
proof fn lemma_listing_from_above(listing: Seq<(ColliderId, Entry)>, i: int)
    requires
        0 <= i < listing.len(),
        forall|a: int, b: int|
            0 <= a < b < listing.len() ==> (#[trigger] listing[a]).0.index < (
            #[trigger] listing[b]).0.index,
    ensures
        listing[i].0.index + (listing.len() - 1 - i) <= listing[listing.len() - 1].0.index,
    decreases listing.len() - i,
{
    if i < listing.len() - 1 {
        lemma_listing_from_above(listing, i + 1);
        assert(listing[i].0.index < listing[i + 1].0.index);
    }
}

/// Where the slots were handed out in turn, the engine's listing shows the
/// collider of slot `i` at place `i`.
proof fn lemma_listing_slots(listing: Seq<(ColliderId, Entry)>, entries: Map<ColliderId, Entry>)
    requires
        is_listing(listing, entries),
        slots_in_turn(entries),
    ensures
        forall|i: int|
            0 <= i < listing.len() ==> (#[trigger] listing[i]).0.index == i && listing[i].0
                == slot(i as nat),
{
    assert forall|i: int| 0 <= i < listing.len() implies (#[trigger] listing[i]).0.index == i
        && listing[i].0 == slot(i as nat) by {
        let last = listing.len() - 1;
        lemma_listing_from_below(listing, i);
        lemma_listing_from_above(listing, i);
        assert(entries.dom().contains(listing[last].0));
        assert(entries.dom().contains(listing[i].0));
        assert(listing[last].0.index < entries.dom().len());
    }
}

/// The whole simulation: the engine, the gravity it is run with, and the
/// identities of the four walls.
pub struct State {
    engine: Engine,
    gravity_x: u32,
    gravity_y: u32,
    walls: Walls,
}

impl View for State {
    type V = Map<ColliderId, Cube>;

    /// Every box of the world, walls and particles alike, under its identity.
    closed spec fn view(&self) -> Map<ColliderId, Cube> {
        engine_entries(self.engine).map_values(|entry: Entry| cube_of(entry))
    }
}

impl State {
    /// The identities of the four walls.
    pub closed spec fn walls(&self) -> Walls {
        self.walls
    }

    /// The bodies of the world, one for each particle, under their
    /// identities.
    pub closed spec fn bodies(&self) -> Map<BodyId, Placement> {
        engine_bodies(self.engine)
    }

    /// How many particles were dropped into the world.
    pub open spec fn particles(&self) -> nat {
        self.bodies().dom().len()
    }

    /// The body that the box `id` is attached to, if any.
    pub closed spec fn parent_of(&self, id: ColliderId) -> Option<BodyId> {
        engine_entries(self.engine)[id].parent
    }

    /// The restitution of the box `id`.
    pub closed spec fn restitution_of(&self, id: ColliderId) -> i32 {
        engine_entries(self.engine)[id].restitution
    }

    /// The gravity that every tick is run with, as a pair of bit patterns.
    pub closed spec fn gravity(&self) -> (u32, u32) {
        (self.gravity_x, self.gravity_y)
    }

    /// The boxes of the world after one tick: what the engine makes of it
    /// under the world's gravity.
    pub closed spec fn ticked(&self) -> Map<ColliderId, Cube> {
        entries_after_tick(self.engine, self.gravity_x, self.gravity_y).map_values(
            |entry: Entry| cube_of(entry),
        )
    }

    /// The invariant of the world: its four walls stand, each with the size of
    /// its side, every other collider is a particle attached to a dynamic body
    /// of its own, the boxes occupy their slots in the order in which they
    /// were made, and gravity pulls downwards.
    pub closed spec fn wf(&self) -> bool {
        &&& well_formed(engine_entries(self.engine), engine_bodies(self.engine), self.walls)
        &&& self.gravity_x == GRAVITY_X
        &&& self.gravity_y == GRAVITY_Y
    }

    /// Whether every box of this world has in `after` the parent and the
    /// restitution that it has here.
    pub open spec fn same_links(&self, after: State) -> bool {
        forall|id: ColliderId|
            self@.dom().contains(id) ==> #[trigger] after.parent_of(id) == self.parent_of(id)
                && after.restitution_of(id) == self.restitution_of(id)
    }

    /// Whether `after` is this world with one more particle: a box `id` in
    /// the next slot, two units wide and high at `(x, y)` and tagged `tag`,
    /// with the restitution of a particle, attached to a new body of its own,
    /// which is dynamic, upright at that point, awake and without velocity.
    pub open spec fn dropped_in(
        &self,
        after: State,
        id: ColliderId,
        x: i32,
        y: i32,
        tag: u128,
    ) -> bool {
        &&& id.index == self@.dom().len()
        &&& id == slot(self@.dom().len())
        &&& !self@.dom().contains(id)
        &&& after@ == self@.insert(id, particle_cube(x, y, tag))
        &&& after.restitution_of(id) == PARTICLE_RESTITUTION
        &&& self.same_links(after)
        &&& match after.parent_of(id) {
            Some(body) => {
                &&& !self.bodies().dom().contains(body)
                &&& after.bodies() == self.bodies().insert(body, fresh_body(x, y))
                &&& forall|other: ColliderId|
                    self@.dom().contains(other) ==> #[trigger] after.parent_of(other) != Some(
                        body,
                    )
            },
            None => false,
        }
    }

    /// What the invariant says of a world: there are four more boxes than
    /// particles were dropped; the walls are the first four boxes, each as
    /// large as its side asks, tagged zero, without restitution and attached
    /// to no body; every other box is a particle, attached to a dynamic body
    /// that no other box is attached to; and every box is in the slot of its
    /// place in the order of making.
    pub proof fn law_walls_and_particles(&self)
        requires
            self.wf(),
        ensures
            self@.dom().finite(),
            self.bodies().dom().finite(),
            self@.dom().len() == self.particles() + 4,
            self.gravity() == (GRAVITY_X, GRAVITY_Y),
            self.walls() == first_walls(),
            forall|id: ColliderId|
                #[trigger] self@.dom().contains(id) ==> id == slot(id.index as nat) && id.index
                    < self@.dom().len(),
            forall|side: Side|
                {
                    let wall = #[trigger] self.walls().on(side);
                    &&& self@.dom().contains(wall)
                    &&& same_make(self@[wall], initial_cube(side))
                    &&& self.parent_of(wall).is_none()
                    &&& self.restitution_of(wall) == 0
                },
            forall|id: ColliderId|
                self@.dom().contains(id) && !self.walls().has(id) ==> {
                    &&& same_make(#[trigger] self@[id], particle_cube(0, 0, self@[id].tag))
                    &&& self.restitution_of(id) == PARTICLE_RESTITUTION
                    &&& match self.parent_of(id) {
                        Some(body) => self.bodies().dom().contains(body)
                            && self.bodies()[body].dynamic,
                        None => false,
                    }
                },
            forall|a: ColliderId, b: ColliderId|
                self@.dom().contains(a) && self@.dom().contains(b) && a != b
                    && !self.walls().has(a) && !self.walls().has(b) ==> #[trigger] self.parent_of(
                    a,
                ) != #[trigger] self.parent_of(b),
    {
        let entries = engine_entries(self.engine);
        let bodies = engine_bodies(self.engine);
        assert(self@.dom() =~= entries.dom());
        lemma_walls_stand(entries, bodies, self.walls);
        assert forall|id: ColliderId|
            self@.dom().contains(id) && !self.walls().has(id) implies {
            &&& same_make(#[trigger] self@[id], particle_cube(0, 0, self@[id].tag))
            &&& self.restitution_of(id) == PARTICLE_RESTITUTION
            &&& match self.parent_of(id) {
                Some(body) => self.bodies().dom().contains(body) && self.bodies()[body].dynamic,
                None => false,
            }
        } by {
            assert(is_particle_entry(entries[id], bodies));
        }
        assert forall|a: ColliderId, b: ColliderId|
            self@.dom().contains(a) && self@.dom().contains(b) && a != b && !self.walls().has(a)
                && !self.walls().has(b) implies #[trigger] self.parent_of(a)
            != #[trigger] self.parent_of(b) by {
            assert(entries[a].parent != entries[b].parent);
        }
    }

    /// A world with its four walls where they stand before any resize, and no
    /// particle.
    pub fn new() -> (world: State)
        ensures
            world.wf(),
            world.walls() == first_walls(),
            world.bodies() == Map::<BodyId, Placement>::empty(),
            world@ == initial_world(world.walls()),
    {
        let mut engine = new_engine();
        let bottom = insert_fixed_box(&mut engine, 0, 139, half_of(Side::Bottom));
        let left = insert_fixed_box(&mut engine, -99, 0, half_of(Side::Left));
        let top = insert_fixed_box(&mut engine, 0, 0, half_of(Side::Top));
        let right = insert_fixed_box(&mut engine, 319, 0, half_of(Side::Right));
        let walls = Walls { top, bottom, left, right };
        let world = State { engine, gravity_x: GRAVITY_X, gravity_y: GRAVITY_Y, walls };
        proof {
            let entries = engine_entries(world.engine);
            assert(entries.dom() =~= Set::<ColliderId>::empty().insert(bottom).insert(left).insert(
                top,
            ).insert(right));
            assert(world.bodies() =~= Map::<BodyId, Placement>::empty());
            assert(world@ =~= initial_world(walls));
        }
        world
    }

    /// The identities of the four walls.
    pub fn wall_ids(&self) -> (walls: Walls)
        ensures
            walls == self.walls(),
    {
        self.walls
    }

    /// Advances the simulation by one tick: the boxes of the world become
    /// what the engine makes of them under the world's gravity.
    ///
    /// Where the particles are afterwards is the engine's business. Of every
    /// tick it holds that it adds and removes nothing, moves no wall, and
    /// changes the size, the tag, the restitution and the parent of no box.
    pub fn step(&mut self)
        requires
            old(self).wf(),
        ensures
            final(self).wf(),
            final(self)@ == old(self).ticked(),
            final(self).walls() == old(self).walls(),
            final(self).bodies().dom() == old(self).bodies().dom(),
            final(self)@.dom() == old(self)@.dom(),
            old(self).same_links(*final(self)),
            forall|id: ColliderId|
                old(self)@.dom().contains(id) ==> same_make(
                    #[trigger] final(self)@[id],
                    old(self)@[id],
                ),
            forall|id: ColliderId|
                old(self).walls().has(id) ==> final(self)@[id] == old(self)@[id],
    {
        let ghost before = engine_entries(self.engine);
        let ghost bodies_before = engine_bodies(self.engine);
        proof {
            lemma_walls_stand(before, bodies_before, self.walls);
        }
        advance(&mut self.engine, self.gravity_x, self.gravity_y);
        proof {
            let after = engine_entries(self.engine);
            let bodies_after = engine_bodies(self.engine);
            assert(final(self)@.dom() =~= old(self)@.dom());
            lemma_slots_stay(before, after);
            assert forall|id: ColliderId|
                after.dom().contains(id) && !self.walls.has(id) implies is_particle_entry(
                #[trigger] after[id],
                bodies_after,
            ) by {
                assert(is_particle_entry(before[id], bodies_before));
                let body = before[id].parent.unwrap();
                assert(bodies_after[body].dynamic == bodies_before[body].dynamic);
            }
            assert forall|a: ColliderId, b: ColliderId|
                after.dom().contains(a) && after.dom().contains(b) && a != b && !self.walls.has(a)
                    && !self.walls.has(b) implies (#[trigger] after[a]).parent != (
            #[trigger] after[b]).parent by {
                assert(before[a].parent != before[b].parent);
            }
        }
    }

    /// Drops a particle at `(x, y)` and tags it with the time of the call, in
    /// nanoseconds since the Unix epoch, or with zero where the clock cannot
    /// be read.
    ///
    /// The result is the particle's identity, or `None`, with the world left
    /// as it was, where the point is out of the engine's reach.
    pub fn insert_particle(&mut self, x: i32, y: i32) -> (dropped: Option<ColliderId>)
        requires
            old(self).wf(),
        ensures
            final(self).wf(),
            final(self).walls() == old(self).walls(),
            dropped.is_some() == in_reach(x, y),
            dropped.is_none() ==> final(self)@ == old(self)@ && final(self).bodies() == old(
                self,
            ).bodies() && old(self).same_links(*final(self)),
            dropped matches Some(id) ==> exists|tag: u128| #[trigger]
                old(self).dropped_in(*final(self), id, x, y, tag),
    {
        let tag: u128 = match nanos_since_epoch() {
            Some(nanos) => nanos,
            None => 0,
        };
        let dropped = self.insert_particle_tagged(x, y, tag);
        proof {
            if let Some(id) = dropped {
                assert(old(self).dropped_in(*self, id, x, y, tag));
            }
        }
        dropped
    }

    /// Drops a particle at `(x, y)` with the given tag: a dynamic body at that
    /// point, at rest and awake, with one small square collider attached.
    ///
    /// The result is the particle's identity, or `None`, with the world left
    /// as it was, where the point is out of the engine's reach.
    pub fn insert_particle_tagged(&mut self, x: i32, y: i32, tag: u128) -> (dropped: Option<
        ColliderId,
    >)
        requires
            old(self).wf(),
        ensures
            final(self).wf(),
            final(self).walls() == old(self).walls(),
            dropped.is_some() == in_reach(x, y),
            dropped.is_none() ==> final(self)@ == old(self)@ && final(self).bodies() == old(
                self,
            ).bodies() && old(self).same_links(*final(self)),
            dropped matches Some(id) ==> old(self).dropped_in(*final(self), id, x, y, tag),
    {
        if !within_reach(x as i64) || !within_reach(y as i64) {
            return None;
        }
        let ghost before = engine_entries(self.engine);
        let ghost bodies_before = engine_bodies(self.engine);
        proof {
            lemma_walls_stand(before, bodies_before, self.walls);
        }
        let body = insert_dynamic_body(&mut self.engine, x, y);
        let half = HalfExtents { x: PARTICLE_HALF, y: PARTICLE_HALF };
        let id = attach_box(&mut self.engine, body, half, PARTICLE_RESTITUTION, tag);
        proof {
            let after = engine_entries(self.engine);
            let bodies_after = engine_bodies(self.engine);
            assert(old(self)@.dom() =~= before.dom());
            lemma_slots_grow(before, after, id);
            assert(!self.walls.has(id));
            assert forall|other: ColliderId|
                after.dom().contains(other) && !self.walls.has(other) implies is_particle_entry(
                #[trigger] after[other],
                bodies_after,
            ) by {
                if other != id {
                    assert(is_particle_entry(before[other], bodies_before));
                }
            }
            assert forall|a: ColliderId, b: ColliderId|
                after.dom().contains(a) && after.dom().contains(b) && a != b && !self.walls.has(a)
                    && !self.walls.has(b) implies (#[trigger] after[a]).parent != (
            #[trigger] after[b]).parent by {
                if a != id {
                    assert(is_particle_entry(before[a], bodies_before));
                }
                if b != id {
                    assert(is_particle_entry(before[b], bodies_before));
                }
            }
            assert forall|other: ColliderId| old(self)@.dom().contains(other) implies #[trigger]
                self.parent_of(other) != Some(body) by {
                assert(before.dom().contains(other));
            }
            assert(cube_of(after[id]) == particle_cube(x, y, tag));
            assert(final(self)@ =~= old(self)@.insert(id, particle_cube(x, y, tag)));
        }
        Some(id)
    }

    /// Moves the four walls round the arena whose top-left corner is
    /// `(x, y)` and whose size is `width` by `height`, so that each wall's
    /// inner face lies on its edge of that rectangle.
    ///
    /// The result says whether the walls were moved. They are not, and the
    /// world is left as it was, where a wall would have to stand out of the
    /// engine's reach.
    pub fn resize(&mut self, x: i32, y: i32, width: i32, height: i32) -> (fitted: bool)
        requires
            old(self).wf(),
        ensures
            final(self).wf(),
            final(self).walls() == old(self).walls(),
            final(self).bodies() == old(self).bodies(),
            old(self).same_links(*final(self)),
            fitted == frame_fits(Rect { x, y, width, height }),
            fitted ==> final(self)@ == resized(
                old(self)@,
                old(self).walls(),
                Rect { x, y, width, height },
            ),
            !fitted ==> final(self)@ == old(self)@,
    {
        let rect = Rect { x, y, width, height };
        let top = centre_of(Side::Top, rect);
        let left = centre_of(Side::Left, rect);
        let bottom = centre_of(Side::Bottom, rect);
        let right = centre_of(Side::Right, rect);
        match (top, left, bottom, right) {
            (Some(top), Some(left), Some(bottom), Some(right)) => {
                let ghost before = engine_entries(self.engine);
                let ghost bodies = engine_bodies(self.engine);
                proof {
                    lemma_walls_stand(before, bodies, self.walls);
                }
                place_collider(&mut self.engine, self.walls.top, top.0, top.1);
                place_collider(&mut self.engine, self.walls.left, left.0, left.1);
                place_collider(&mut self.engine, self.walls.bottom, bottom.0, bottom.1);
                place_collider(&mut self.engine, self.walls.right, right.0, right.1);
                proof {
                    let after = engine_entries(self.engine);
                    assert(after.dom() =~= before.dom());
                    lemma_slots_stay(before, after);
                    assert forall|id: ColliderId|
                        after.dom().contains(id) && !self.walls.has(id) implies is_particle_entry(
                        #[trigger] after[id],
                        bodies,
                    ) by {
                        assert(is_particle_entry(before[id], bodies));
                    }
                    assert forall|a: ColliderId, b: ColliderId|
                        after.dom().contains(a) && after.dom().contains(b) && a != b
                            && !self.walls.has(a) && !self.walls.has(b) implies (
                    #[trigger] after[a]).parent != (#[trigger] after[b]).parent by {
                        assert(after[a] == before[a]);
                        assert(after[b] == before[b]);
                    }
                    assert(final(self)@ =~= resized(old(self)@, self.walls, rect));
                }
                true
            },
            _ => false,
        }
    }

    /// A snapshot of every box in the world, walls included, in the order in
    /// which the boxes were made: the four walls first, bottom, left, top and
    /// right, then the particles as they were dropped.
    pub fn for_each_cube(&self) -> (seen: Vec<Sighting>)
        requires
            self.wf(),
        ensures
            is_snapshot(seen@, self@),
    {
        let listing = list_colliders(&self.engine);
        let ghost entries = engine_entries(self.engine);
        let mut seen: Vec<Sighting> = Vec::new();
        let mut i: usize = 0;
        proof {
            assert(self@.dom() =~= entries.dom());
            lemma_walls_stand(entries, engine_bodies(self.engine), self.walls);
            lemma_listing_slots(listing@, entries);
        }
        while i < listing.len()
            invariant
                self.wf(),
                entries == engine_entries(self.engine),
                is_listing(listing@, entries),
                0 <= i <= listing.len(),
                seen@.len() == i,
                forall|k: int|
                    0 <= k < i ==> (#[trigger] seen@[k]).id == listing@[k].0 && seen@[k].cube
                        == cube_of(listing@[k].1),
            decreases listing.len() - i,
        {
            let (id, entry) = listing[i];
            proof {
                assert(entries.dom().contains(listing@[i as int].0));
                lemma_walls_stand(entries, engine_bodies(self.engine), self.walls);
                if !self.walls.has(id) {
                    assert(is_particle_entry(entries[id], engine_bodies(self.engine)));
                } else {
                    assert(id == self.walls.on(Side::Top) || id == self.walls.on(Side::Bottom)
                        || id == self.walls.on(Side::Left) || id == self.walls.on(Side::Right));
                }
            }
            let cube = match entry.half {
                Some(half) => Cube {
                    x: entry.x,
                    y: entry.y,
                    width: 2 * half.x,
                    height: 2 * half.y,
                    tag: entry.tag,
                },
                None => Cube { x: entry.x, y: entry.y, width: 0, height: 0, tag: entry.tag },
            };
            seen.push(Sighting { id, cube });
            i += 1;
        }
        proof {
            assert forall|k: int| 0 <= k < seen@.len() implies {
                &&& (#[trigger] seen@[k]).id.index == k
                &&& seen@[k].id == slot(k as nat)
                &&& self@.contains_pair(seen@[k].id, seen@[k].cube)
            } by {
                assert(entries.dom().contains(listing@[k].0));
                assert(listing@[k].0.index == k && listing@[k].0 == slot(k as nat));
            }
        }
        seen
    }
}

} // verus!
