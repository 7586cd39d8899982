use particle_sandbox::color::color_for;
use particle_sandbox::color::Color;
use particle_sandbox::physics::ColliderId;
use particle_sandbox::physics::REACH;
use particle_sandbox::presentation::clamp;
use particle_sandbox::presentation::Pointer;
use particle_sandbox::presentation::Presenter;
use particle_sandbox::presentation::Rectangle;
use particle_sandbox::state::Cube;
use particle_sandbox::state::Sighting;
use particle_sandbox::state::State;
use particle_sandbox::walls::Rect;

const IDLE: Pointer = Pointer { held: false, x: 0, y: 0 };

fn window(x: i32, y: i32, width: i32, height: i32) -> Rect {
    Rect { x, y, width, height }
}

fn seen_at(index: u32, x: i32, y: i32, tag: u128) -> Sighting {
    Sighting { id: ColliderId { index, generation: 0 }, cube: Cube { x, y, width: 2, height: 2, tag } }
}

#[test]
fn the_first_frame_moves_the_walls_round_the_window() {
    let mut world = State::new();
    let mut presenter = Presenter::new();
    assert!(presenter.track(&mut world, window(0, 0, 320, 240)));
    let mut resized = State::new();
    assert!(resized.resize(0, 0, 320, 240));
    assert_eq!(world.for_each_cube(), resized.for_each_cube());
}

#[test]
fn an_unchanged_window_moves_nothing() {
    let mut world = State::new();
    let mut presenter = Presenter::new();
    assert!(!presenter.track(&mut world, window(0, 0, 0, 0)));
    assert_eq!(world.for_each_cube(), State::new().for_each_cube());
    assert!(presenter.track(&mut world, window(5, 6, 320, 240)));
    assert!(!presenter.track(&mut world, window(5, 6, 320, 240)));
    assert!(presenter.track(&mut world, window(5, 6, 321, 240)));
    assert!(presenter.track(&mut world, window(5, 7, 321, 240)));
}

#[test]
fn a_window_out_of_reach_is_noted_but_moves_nothing() {
    let mut world = State::new();
    let mut presenter = Presenter::new();
    assert!(!presenter.track(&mut world, window(i32::MAX, 0, 320, 240)));
    assert_eq!(world.for_each_cube(), State::new().for_each_cube());
    assert!(!presenter.track(&mut world, window(i32::MAX, 0, 320, 240)));
    let drawn = presenter.paint(&vec![seen_at(0, 5, 5, 0)]);
    assert_eq!(drawn[0].x, 5 - i32::MAX);
}

#[test]
fn a_held_pointer_drops_a_particle_in_world_coordinates() {
    let mut world = State::new();
    let mut presenter = Presenter::new();
    presenter.track(&mut world, window(100, 50, 320, 240));
    let id = presenter
        .click(&mut world, Pointer { held: true, x: 10, y: 20 })
        .expect("the button is held");
    let seen = world.for_each_cube();
    assert_eq!(seen.len(), 5);
    let cube = seen.iter().find(|s| s.id == id).expect("the particle").cube;
    assert_eq!((cube.x, cube.y, cube.width, cube.height), (110, 70, 2, 2));
}

#[test]
fn a_released_pointer_drops_nothing() {
    let mut world = State::new();
    let mut presenter = Presenter::new();
    presenter.track(&mut world, window(100, 50, 320, 240));
    assert_eq!(presenter.click(&mut world, Pointer { held: false, x: 10, y: 20 }), None);
    assert_eq!(world.for_each_cube().len(), 4);
}

#[test]
fn a_pointer_out_of_reach_drops_nothing() {
    let mut world = State::new();
    let mut presenter = Presenter::new();
    presenter.track(&mut world, window(i32::MAX, i32::MAX, 320, 240));
    assert_eq!(presenter.click(&mut world, Pointer { held: true, x: 10, y: 20 }), None);
    presenter.track(&mut world, window(REACH, 0, 320, 240));
    assert_eq!(presenter.click(&mut world, Pointer { held: true, x: 1, y: 0 }), None);
    assert_eq!(world.for_each_cube().len(), 4);
    assert!(presenter.click(&mut world, Pointer { held: true, x: 0, y: 0 }).is_some());
    assert_eq!(world.for_each_cube().len(), 5);
}

#[test]
fn boxes_are_drawn_relative_to_the_window() {
    let mut world = State::new();
    let mut presenter = Presenter::new();
    presenter.track(&mut world, window(100, 50, 320, 240));
    let drawn = presenter.paint(&vec![seen_at(0, 110, 70, 0x12), seen_at(1, 0, 0, 0)]);
    assert_eq!(
        drawn,
        vec![
            Rectangle { x: 10, y: 20, width: 2, height: 2, color: Color { r: 0x12, g: 0x12, b: 0xED, a: 255 } },
            Rectangle { x: -100, y: -50, width: 2, height: 2, color: Color { r: 0, g: 0, b: 255, a: 255 } },
        ]
    );
}

#[test]
fn a_box_too_far_off_is_drawn_at_the_edge_of_the_numbers() {
    let mut world = State::new();
    let mut presenter = Presenter::new();
    presenter.track(&mut world, window(i32::MIN, i32::MAX, 1, 1));
    let drawn = presenter.paint(&vec![seen_at(0, 5, -5, 0)]);
    assert_eq!((drawn[0].x, drawn[0].y), (i32::MAX, i32::MIN));
    assert_eq!(clamp(i64::MAX), i32::MAX);
    assert_eq!(clamp(i64::MIN), i32::MIN);
    assert_eq!(clamp(i32::MAX as i64 + 1), i32::MAX);
    assert_eq!(clamp(i32::MIN as i64 - 1), i32::MIN);
    assert_eq!(clamp(-7), -7);
}

#[test]
fn a_frame_resizes_drops_and_draws() {
    let mut world = State::new();
    let mut presenter = Presenter::new();
    let drawn = presenter.frame(&mut world, window(100, 50, 320, 240), Pointer { held: true, x: 10, y: 20 });
    assert_eq!(drawn.len(), 5);
    let seen = world.for_each_cube();
    assert_eq!(seen.len(), 5);
    for (rectangle, sighting) in drawn.iter().zip(seen.iter()) {
        assert_eq!(rectangle.x, sighting.cube.x - 100);
        assert_eq!(rectangle.y, sighting.cube.y - 50);
        assert_eq!(rectangle.width, sighting.cube.width);
        assert_eq!(rectangle.height, sighting.cube.height);
        assert_eq!(rectangle.color, color_for(sighting.cube.tag));
    }
    let particles: Vec<&Rectangle> = drawn.iter().filter(|r| r.width == 2).collect();
    assert_eq!(particles.len(), 1);
    assert_eq!((particles[0].x, particles[0].y, particles[0].height), (10, 20, 2));
    let walls = world.wall_ids();
    let top = seen.iter().find(|s| s.id == walls.top).expect("the top wall").cube;
    assert_eq!((top.x, top.y), (100, 50 - 10_000));
}

#[test]
fn an_idle_frame_draws_the_walls_alone() {
    let mut world = State::new();
    let mut presenter = Presenter::new();
    let drawn = presenter.frame(&mut world, window(0, 0, 320, 240), IDLE);
    assert_eq!(drawn.len(), 4);
    let blue = Color { r: 0, g: 0, b: 255, a: 255 };
    for rectangle in &drawn {
        assert_eq!(rectangle.color, blue);
    }
    let again = presenter.frame(&mut world, window(0, 0, 320, 240), IDLE);
    assert_eq!(again, drawn);
}

#[test]
fn frames_with_a_held_pointer_pile_up_particles() {
    let mut world = State::new();
    let mut presenter = Presenter::new();
    for n in 0..10 {
        let drawn = presenter.frame(&mut world, window(0, 0, 320, 240), Pointer { held: true, x: 160, y: 10 });
        assert_eq!(drawn.len(), 5 + n);
        world.step();
    }
}
