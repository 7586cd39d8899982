//! One frame of the presentation: what a window's state does to the world,
//! and what is drawn of the world afterwards.
//!
//! The window and the pointer are read, and the rectangles are drawn, by the
//! caller. World coordinates are those of the screen, pointer coordinates
//! those of the window, so the two differ by the window's top-left corner.
use vstd::prelude::*;

use crate::color::color_for;
use crate::color::color_of;
use crate::color::Color;
use crate::physics::slot;
use crate::physics::ColliderId;
use crate::state::in_reach;
use crate::state::is_snapshot;
use crate::state::particle_cube;
use crate::state::resized;
use crate::state::Cube;
use crate::state::Sighting;
use crate::state::State;
use crate::walls::frame_fits;
use crate::walls::Rect;

verus! {

/// The pointer as the window reports it: whether its main button is held, and
/// where it is, relative to the window's top-left corner.
#[derive(Clone, Copy, Debug, PartialEq, Eq, Structural)]
pub struct Pointer {
    pub held: bool,
    pub x: i32,
    pub y: i32,
}

/// A filled rectangle to be drawn, in window coordinates.
#[derive(Clone, Copy, Debug, PartialEq, Eq, Structural)]
pub struct Rectangle {
    pub x: i32,
    pub y: i32,
    pub width: i32,
    pub height: i32,
    pub color: Color,
}

/// Remembers the window as it was in the last frame.
#[derive(Clone, Copy, Debug)]
pub struct Presenter {
    window: Rect,
}

/// The whole number nearest to `v` that thirty-two bits hold.
pub open spec fn saturate(v: int) -> i32 {
    if v < i32::MIN {
        i32::MIN
    } else if v > i32::MAX {
        i32::MAX
    } else {
        v as i32
    }
}

/// The point of the world that the pointer is at.
pub open spec fn world_point(window: Rect, pointer: Pointer) -> (int, int) {
    (pointer.x + window.x, pointer.y + window.y)
}

/// Whether a particle is dropped in a frame with this window and pointer:
/// whether the button is held and the point lies within the engine's reach.
pub open spec fn drops(window: Rect, pointer: Pointer) -> bool {
    let at = world_point(window, pointer);
    &&& pointer.held
    &&& i32::MIN <= at.0 <= i32::MAX
    &&& i32::MIN <= at.1 <= i32::MAX
    &&& in_reach(at.0 as i32, at.1 as i32)
}

/// Whether `after` is `before` with one more box: a particle at the point
/// `at`, tagged `tag`, under the identity `id` of the next slot.
pub open spec fn dropped_into(
    before: Map<ColliderId, Cube>,
    after: Map<ColliderId, Cube>,
    id: ColliderId,
    at: (int, int),
    tag: u128,
) -> bool {
    &&& id.index == before.dom().len()
    &&& id == slot(before.dom().len())
    &&& !before.dom().contains(id)
    &&& after == before.insert(id, particle_cube(at.0 as i32, at.1 as i32, tag))
}

/// The rectangle that is drawn for `cube` in a window at `window`.
pub open spec fn on_screen(window: Rect, cube: Cube) -> Rectangle {
    Rectangle {
        x: saturate(cube.x - window.x),
        y: saturate(cube.y - window.y),
        width: cube.width,
        height: cube.height,
        color: color_of(cube.tag),
    }
}

/// The rectangles that are drawn for a snapshot, one for each box and in the
/// snapshot's order.
pub open spec fn painted(window: Rect, seen: Seq<Sighting>) -> Seq<Rectangle> {
    Seq::new(seen.len(), |i: int| on_screen(window, seen[i].cube))
}

/// The world after the window of a frame was taken note of: resized where
/// the window has changed and the walls fit round it, else as it was.
pub open spec fn noted(
    world: Map<ColliderId, Cube>,
    walls: crate::state::Walls,
    last: Rect,
    window: Rect,
) -> Map<ColliderId, Cube> {
    if window != last && frame_fits(window) {
        resized(world, walls, window)
    } else {
        world
    }
}

/// The whole number nearest to `v` that thirty-two bits hold.
pub fn clamp(v: i64) -> (near: i32)
    ensures
        near == saturate(v as int),
{
    if v < i32::MIN as i64 {
        i32::MIN
    } else if v > i32::MAX as i64 {
        i32::MAX
    } else {
        v as i32
    }
}

impl Presenter {
    /// The window as it was in the last frame.
    pub closed spec fn window(&self) -> Rect {
        self.window
    }

    /// A presenter that has seen no frame yet: its window is empty and in the
    /// screen's corner.
    pub fn new() -> (presenter: Presenter)
        ensures
            presenter.window() == (Rect { x: 0, y: 0, width: 0, height: 0 }),
    {
        Presenter { window: Rect { x: 0, y: 0, width: 0, height: 0 } }
    }

    /// Takes note of the window: where it differs from the last frame's, the
    /// walls are moved round it.
    ///
    /// The result says whether the walls were moved.
    pub fn track(&mut self, world: &mut State, window: Rect) -> (moved: bool)
        requires
            old(world).wf(),
        ensures
            final(world).wf(),
            final(world).walls() == old(world).walls(),
            final(world).bodies() == old(world).bodies(),
            old(world).same_links(*final(world)),
            final(self).window() == window,
            moved == (window != old(self).window() && frame_fits(window)),
            final(world)@ == noted(old(world)@, old(world).walls(), old(self).window(), window),
    {
        let changed = window.x != self.window.x || window.y != self.window.y || window.width
            != self.window.width || window.height != self.window.height;
        self.window = window;
        if changed {
            world.resize(window.x, window.y, window.width, window.height)
        } else {
            false
        }
    }

    /// Drops a particle where the pointer is, if its button is held.
    ///
    /// The result is the particle's identity, or `None` where none was
    /// dropped: the button is not held, or the point is out of the engine's
    /// reach.
    pub fn click(&self, world: &mut State, pointer: Pointer) -> (dropped: Option<ColliderId>)
        requires
            old(world).wf(),
        ensures
            final(world).wf(),
            final(world).walls() == old(world).walls(),
            dropped.is_some() == drops(self.window(), pointer),
            dropped.is_none() ==> final(world)@ == old(world)@ && final(world).bodies() == old(
                world,
            ).bodies() && old(world).same_links(*final(world)),
            dropped matches Some(id) ==> exists|tag: u128| #[trigger]
                old(world).dropped_in(
                    *final(world),
                    id,
                    world_point(self.window(), pointer).0 as i32,
                    world_point(self.window(), pointer).1 as i32,
                    tag,
                ),
    {
        if !pointer.held {
            return None;
        }
        let x: i64 = pointer.x as i64 + self.window.x as i64;
        let y: i64 = pointer.y as i64 + self.window.y as i64;
        if x < i32::MIN as i64 || x > i32::MAX as i64 || y < i32::MIN as i64 || y > i32::MAX as i64 {
            return None;
        }
        world.insert_particle(x as i32, y as i32)
    }

    /// The rectangles to draw for a snapshot of the world: each box moved by
    /// the window's corner and coloured by its tag.
    pub fn paint(&self, seen: &Vec<Sighting>) -> (drawn: Vec<Rectangle>)
        ensures
            drawn@ == painted(self.window(), seen@),
    {
        let mut drawn: Vec<Rectangle> = Vec::new();
        let mut i: usize = 0;
        while i < seen.len()
            invariant
                0 <= i <= seen.len(),
                drawn@.len() == i,
                forall|k: int|
                    0 <= k < i ==> #[trigger] drawn@[k] == on_screen(self.window(), seen@[k].cube),
            decreases seen.len() - i,
        {
            let cube = seen[i].cube;
            drawn.push(
                Rectangle {
                    x: clamp(cube.x as i64 - self.window.x as i64),
                    y: clamp(cube.y as i64 - self.window.y as i64),
                    width: cube.width,
                    height: cube.height,
                    color: color_for(cube.tag),
                },
            );
            i += 1;
        }
        assert(drawn@ =~= painted(self.window(), seen@));
        drawn
    }

    /// One frame: takes note of the window, drops a particle where the pointer
    /// is held, and says what to draw of the world as it then is.
    pub fn frame(&mut self, world: &mut State, window: Rect, pointer: Pointer) -> (drawn: Vec<
        Rectangle,
    >)
        requires
            old(world).wf(),
        ensures
            final(world).wf(),
            final(world).walls() == old(world).walls(),
            final(self).window() == window,
            final(world).particles() == old(world).particles() + if drops(window, pointer) {
                1nat
            } else {
                0nat
            },
            drops(window, pointer) ==> exists|id: ColliderId, tag: u128| #[trigger]
                dropped_into(
                    noted(old(world)@, old(world).walls(), old(self).window(), window),
                    final(world)@,
                    id,
                    world_point(window, pointer),
                    tag,
                ),
            !drops(window, pointer) ==> final(world)@ == noted(
                old(world)@,
                old(world).walls(),
                old(self).window(),
                window,
            ),
            exists|seen: Seq<Sighting>| #[trigger]
                is_snapshot(seen, final(world)@) && drawn@ == painted(window, seen),
    {
        self.track(world, window);
        let ghost before = *world;
        let dropped = self.click(world, pointer);
        proof {
            let at = world_point(window, pointer);
            before.law_walls_and_particles();
            if let Some(id) = dropped {
                let tag = choose|tag: u128| #[trigger]
                    before.dropped_in(*world, id, at.0 as i32, at.1 as i32, tag);
                match world.parent_of(id) {
                    Some(body) => {},
                    None => {},
                }
                assert(dropped_into(before@, world@, id, at, tag));
            }
        }
        let seen = world.for_each_cube();
        let drawn = self.paint(&seen);
        proof {
            assert(is_snapshot(seen@, world@) && drawn@ == painted(window, seen@));
        }
        drawn
    }
}

} // verus!
