use particle_sandbox::physics::HalfExtents;
use particle_sandbox::physics::REACH;
use particle_sandbox::walls::centre_of;
use particle_sandbox::walls::fits;
use particle_sandbox::walls::half_of;
use particle_sandbox::walls::within_reach;
use particle_sandbox::walls::Rect;
use particle_sandbox::walls::Side;

#[test]
fn walls_are_centred_half_their_thickness_beyond_their_edge() {
    let rect = Rect { x: 0, y: 0, width: 320, height: 240 };
    assert_eq!(centre_of(Side::Top, rect), Some((0, -10_000)));
    assert_eq!(centre_of(Side::Left, rect), Some((-10_000, 0)));
    assert_eq!(centre_of(Side::Bottom, rect), Some((0, 10_240)));
    assert_eq!(centre_of(Side::Right, rect), Some((10_320, 0)));
}

#[test]
fn walls_follow_the_corner_of_the_arena() {
    let rect = Rect { x: -15, y: 27, width: 800, height: 600 };
    assert_eq!(centre_of(Side::Top, rect), Some((-15, -9_973)));
    assert_eq!(centre_of(Side::Left, rect), Some((-10_015, 27)));
    assert_eq!(centre_of(Side::Bottom, rect), Some((-15, 10_627)));
    assert_eq!(centre_of(Side::Right, rect), Some((10_785, 27)));
}

#[test]
fn walls_are_far_larger_than_a_window() {
    assert_eq!(half_of(Side::Top), HalfExtents { x: 30_020, y: 10_000 });
    assert_eq!(half_of(Side::Bottom), HalfExtents { x: 30_020, y: 10_000 });
    assert_eq!(half_of(Side::Left), HalfExtents { x: 10_000, y: 20_040 });
    assert_eq!(half_of(Side::Right), HalfExtents { x: 10_000, y: 20_040 });
}

#[test]
fn a_wall_out_of_reach_has_no_centre() {
    let far = Rect { x: i32::MAX, y: i32::MAX, width: i32::MAX, height: i32::MAX };
    assert_eq!(centre_of(Side::Top, far), None);
    assert_eq!(centre_of(Side::Right, far), None);
    assert!(!fits(far));
    let edge = Rect { x: 10_000 - REACH, y: 0, width: 0, height: 0 };
    assert_eq!(centre_of(Side::Left, edge), Some((-REACH, 0)));
    assert!(fits(edge));
    let beyond = Rect { x: 9_999 - REACH, y: 0, width: 0, height: 0 };
    assert_eq!(centre_of(Side::Left, beyond), None);
    assert_eq!(centre_of(Side::Top, beyond), Some((9_999 - REACH, -10_000)));
    assert!(!fits(beyond));
}

#[test]
fn reach_ends_at_two_to_the_twenty_fourth() {
    assert_eq!(REACH, 1 << 24);
    assert!(within_reach(REACH as i64));
    assert!(within_reach(-(REACH as i64)));
    assert!(!within_reach(REACH as i64 + 1));
    assert!(!within_reach(-(REACH as i64) - 1));
    assert!(within_reach(0));
    assert!(!within_reach(i64::MAX));
    assert!(!within_reach(i64::MIN));
}

#[test]
fn a_negative_size_is_placed_like_any_other() {
    let rect = Rect { x: 10, y: 10, width: -4, height: -6 };
    assert_eq!(centre_of(Side::Bottom, rect), Some((10, 10_004)));
    assert_eq!(centre_of(Side::Right, rect), Some((10_006, 10)));
    assert!(fits(rect));
}

#[test]
fn every_inner_face_lies_on_its_edge_of_the_arena() {
    let rect = Rect { x: -15, y: 27, width: 800, height: 600 };
    let (_, top) = centre_of(Side::Top, rect).expect("fits");
    let (left, _) = centre_of(Side::Left, rect).expect("fits");
    let (_, bottom) = centre_of(Side::Bottom, rect).expect("fits");
    let (right, _) = centre_of(Side::Right, rect).expect("fits");
    assert_eq!(top + half_of(Side::Top).y, 27);
    assert_eq!(left + half_of(Side::Left).x, -15);
    assert_eq!(bottom - half_of(Side::Bottom).y, 627);
    assert_eq!(right - half_of(Side::Right).x, 785);
}
