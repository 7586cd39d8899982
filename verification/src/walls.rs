//! The four walls that frame the arena.
//!
//! Each wall is a box far larger than any window. It is centred half its
//! thickness beyond its edge of the arena's rectangle, so that its inner face
//! lies on that edge and all of the wall outside the arena.
use vstd::prelude::*;

use crate::physics::exact;
use crate::physics::HalfExtents;
use crate::physics::REACH;

verus! {

/// Half the thickness of every wall, which is also how far beyond its edge
/// of the arena a wall is centred.
pub const HALF_THICKNESS: i32 = 10_000;

/// Half the length of the top and the bottom wall.
pub const HALF_SPAN_ACROSS: i32 = 30_020;

/// Half the length of the left and the right wall.
pub const HALF_SPAN_UPRIGHT: i32 = 20_040;

/// One edge of the arena.
#[derive(Clone, Copy, Debug, PartialEq, Eq, Structural)]
pub enum Side {
    Top,
    Bottom,
    Left,
    Right,
}

/// A rectangle in world coordinates: its top-left corner and its size.
#[derive(Clone, Copy, Debug, PartialEq, Eq, Structural)]
pub struct Rect {
    pub x: i32,
    pub y: i32,
    pub width: i32,
    pub height: i32,
}

/// The half extents of the wall on `side`.
pub open spec fn wall_half(side: Side) -> HalfExtents {
    match side {
        Side::Top | Side::Bottom => HalfExtents { x: HALF_SPAN_ACROSS, y: HALF_THICKNESS },
        Side::Left | Side::Right => HalfExtents { x: HALF_THICKNESS, y: HALF_SPAN_UPRIGHT },
    }
}

/// Where the wall on `side` is centred when the arena is `rect`.
pub open spec fn wall_centre(side: Side, rect: Rect) -> (int, int) {
    match side {
        Side::Top => (rect.x as int, rect.y - HALF_THICKNESS),
        Side::Left => (rect.x - HALF_THICKNESS, rect.y as int),
        Side::Bottom => (rect.x as int, rect.y + rect.height + HALF_THICKNESS),
        Side::Right => (rect.x + rect.width + HALF_THICKNESS, rect.y as int),
    }
}

/// Whether the wall on `side` can be centred for `rect` at whole coordinates
/// that the engine holds exactly.
pub open spec fn wall_fits(side: Side, rect: Rect) -> bool {
    exact(wall_centre(side, rect).0) && exact(wall_centre(side, rect).1)
}

/// Whether all four walls can be placed round `rect`.
pub open spec fn frame_fits(rect: Rect) -> bool {
    &&& wall_fits(Side::Top, rect)
    &&& wall_fits(Side::Left, rect)
    &&& wall_fits(Side::Bottom, rect)
    &&& wall_fits(Side::Right, rect)
}

/// Whether the point `(px, py)` lies in the wall on `side`, faces included.
pub open spec fn in_wall(side: Side, rect: Rect, px: int, py: int) -> bool {
    let centre = wall_centre(side, rect);
    let half = wall_half(side);
    &&& centre.0 - half.x <= px <= centre.0 + half.x
    &&& centre.1 - half.y <= py <= centre.1 + half.y
}

/// Whether the point lies in any of the four walls.
pub open spec fn in_frame(rect: Rect, px: int, py: int) -> bool {
    ||| in_wall(Side::Top, rect, px, py)
    ||| in_wall(Side::Left, rect, px, py)
    ||| in_wall(Side::Bottom, rect, px, py)
    ||| in_wall(Side::Right, rect, px, py)
}

/// Whether the point lies on the outline of `rect`.
pub open spec fn on_outline(rect: Rect, px: int, py: int) -> bool {
    &&& rect.x <= px <= rect.x + rect.width
    &&& rect.y <= py <= rect.y + rect.height
    &&& (px == rect.x || px == rect.x + rect.width || py == rect.y || py == rect.y + rect.height)
}

/// The coordinate of the face that the wall on `side` turns towards the arena:
/// a height for the top and the bottom wall, an abscissa for the other two.
pub open spec fn inner_face(side: Side, rect: Rect) -> int {
    match side {
        Side::Top => wall_centre(side, rect).1 + wall_half(side).y,
        Side::Left => wall_centre(side, rect).0 + wall_half(side).x,
        Side::Bottom => wall_centre(side, rect).1 - wall_half(side).y,
        Side::Right => wall_centre(side, rect).0 - wall_half(side).x,
    }
}

/// The half extents of the wall on `side`.
pub fn half_of(side: Side) -> (half: HalfExtents)
    ensures
        half == wall_half(side),
        0 < half.x <= REACH,
        0 < half.y <= REACH,
{
    match side {
        Side::Top | Side::Bottom => HalfExtents { x: HALF_SPAN_ACROSS, y: HALF_THICKNESS },
        Side::Left | Side::Right => HalfExtents { x: HALF_THICKNESS, y: HALF_SPAN_UPRIGHT },
    }
}

/// Whether `v` is a coordinate that the engine holds exactly.
pub fn within_reach(v: i64) -> (yes: bool)
    ensures
        yes == exact(v as int),
{
    -(REACH as i64) <= v && v <= REACH as i64
}

/// The centre of the wall on `side` for the arena `rect`, or `None` where it
/// lies out of the engine's reach.
pub fn centre_of(side: Side, rect: Rect) -> (centre: Option<(i32, i32)>)
    ensures
        centre.is_some() == wall_fits(side, rect),
        centre matches Some(at) ==> at.0 == wall_centre(side, rect).0 && at.1 == wall_centre(
            side,
            rect,
        ).1,
{
    let x: i64 = rect.x as i64;
    let y: i64 = rect.y as i64;
    let margin: i64 = HALF_THICKNESS as i64;
    let (cx, cy): (i64, i64) = match side {
        Side::Top => (x, y - margin),
        Side::Left => (x - margin, y),
        Side::Bottom => (x, y + rect.height as i64 + margin),
        Side::Right => (x + rect.width as i64 + margin, y),
    };
    if within_reach(cx) && within_reach(cy) {
        Some((cx as i32, cy as i32))
    } else {
        None
    }
}

/// Whether all four walls can be placed round `rect`.
pub fn fits(rect: Rect) -> (yes: bool)
    ensures
        yes == frame_fits(rect),
{
    centre_of(Side::Top, rect).is_some() && centre_of(Side::Left, rect).is_some() && centre_of(
        Side::Bottom,
        rect,
    ).is_some() && centre_of(Side::Right, rect).is_some()
}

/// Every wall's inner face lies on its edge of the arena, whatever the arena
/// is.
pub proof fn law_inner_faces(rect: Rect)
    ensures
        inner_face(Side::Top, rect) == rect.y,
        inner_face(Side::Left, rect) == rect.x,
        inner_face(Side::Bottom, rect) == rect.y + rect.height,
        inner_face(Side::Right, rect) == rect.x + rect.width,
{
}

/// The walls keep out of the arena: a point strictly inside the rectangle
/// lies in no wall.
pub proof fn law_walls_stay_out(rect: Rect, px: int, py: int)
    requires
        rect.x < px < rect.x + rect.width,
        rect.y < py < rect.y + rect.height,
    ensures
        !in_frame(rect, px, py),
{
}

/// The walls seal the arena: as long as the rectangle is no wider than half
/// the top wall and no taller than half the left wall, every point of its
/// outline lies in a wall, so nothing inside can leave without passing
/// through one.
pub proof fn law_frame_is_sealed(rect: Rect, px: int, py: int)
    requires
        0 <= rect.width <= HALF_SPAN_ACROSS,
        0 <= rect.height <= HALF_SPAN_UPRIGHT,
        on_outline(rect, px, py),
    ensures
        in_frame(rect, px, py),
{
    if py == rect.y {
        assert(in_wall(Side::Top, rect, px, py));
    } else if px == rect.x {
        assert(in_wall(Side::Left, rect, px, py));
    } else if py == rect.y + rect.height {
        assert(in_wall(Side::Bottom, rect, px, py));
    } else {
        assert(in_wall(Side::Right, rect, px, py));
    }
}

} // verus!
