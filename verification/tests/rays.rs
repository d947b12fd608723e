use raycaster::math::vec2;
use raycaster::ray::cast;
use raycaster::ray::cast_from;
use raycaster::ray::step_of;
use raycaster::ray::turns_from;
use raycaster::ray::Axis;
use raycaster::ray::Hit;
use raycaster::ray::MAX_STEPS;
use raycaster::scalar::Scalar;
use raycaster::tile::Tile;
use raycaster::worldmap::WorldMap;

fn wall() -> Tile {
    Tile::colored([255, 255, 255, 255])
}

/// The turns of a ray, as distances decide them: the ray crosses next the
/// grid line that is nearer along it.
fn turns_of(pos: (f32, f32), ray_dir: (f32, f32)) -> (i32, i32, Vec<Axis>) {
    let map_x = pos.0 as i32;
    let map_y = pos.1 as i32;
    let delta_x = if ray_dir.0 == 0.0 { f32::MAX } else { (1.0 / ray_dir.0).abs() };
    let delta_y = if ray_dir.1 == 0.0 { f32::MAX } else { (1.0 / ray_dir.1).abs() };
    let (step_x, mut side_x) = if ray_dir.0 < 0.0 {
        (-1, (pos.0 - map_x as f32) * delta_x)
    } else {
        (1, (map_x as f32 + 1.0 - pos.0) * delta_x)
    };
    let (step_y, mut side_y) = if ray_dir.1 < 0.0 {
        (-1, (pos.1 - map_y as f32) * delta_y)
    } else {
        (1, (map_y as f32 + 1.0 - pos.1) * delta_y)
    };
    let mut turns = Vec::new();
    for _ in 0..MAX_STEPS {
        if side_x < side_y {
            side_x += delta_x;
            turns.push(Axis::X);
        } else {
            side_y += delta_y;
            turns.push(Axis::Y);
        }
    }
    (step_x, step_y, turns)
}

fn s(v: f32) -> Scalar {
    Scalar::from_bits(v.to_bits())
}

#[test]
fn ray_steps_back_only_along_a_negative_direction() {
    assert_eq!(step_of(s(-0.5)), -1);
    assert_eq!(step_of(s(-1.0e-40)), -1);
    assert_eq!(step_of(s(f32::NEG_INFINITY)), -1);
    assert_eq!(step_of(s(0.5)), 1);
    assert_eq!(step_of(s(0.0)), 1);
    assert_eq!(step_of(s(-0.0)), 1);
    assert_eq!(step_of(s(f32::NAN)), 1);
    assert_eq!(step_of(s(f32::INFINITY)), 1);
}

#[test]
fn ray_starts_in_the_cell_of_its_point() {
    let mut world = WorldMap::new();
    world.set_wall(3, 4, wall());
    world.set_wall(-2, 0, wall());
    let turns = vec![Axis::X; 40];
    let west = vec2::new(s(-1.0), s(0.25));
    let east = vec2::new(s(1.0), s(-0.25));
    assert_eq!(
        cast_from(&world, vec2::new(s(6.99), s(4.01)), west, &turns),
        Some(Hit { cell_x: 3, cell_y: 4, side: Axis::X, steps: 3, steps_x: 3 })
    );
    assert_eq!(cast_from(&world, vec2::new(s(6.99), s(5.0)), west, &turns), None);
    assert_eq!(cast_from(&world, vec2::new(s(6.99), s(4.01)), east, &turns), None);
    assert_eq!(
        cast_from(&world, vec2::new(s(0.5), s(4.5)), east, &turns),
        Some(Hit { cell_x: 3, cell_y: 4, side: Axis::X, steps: 3, steps_x: 3 })
    );
    assert_eq!(
        cast_from(&world, vec2::new(s(0.5), s(0.5)), west, &turns),
        Some(Hit { cell_x: -2, cell_y: 0, side: Axis::X, steps: 2, steps_x: 2 })
    );
    assert_eq!(
        cast_from(&world, vec2::new(s(-0.5), s(0.5)), west, &turns),
        Some(Hit { cell_x: -2, cell_y: 0, side: Axis::X, steps: 1, steps_x: 1 })
    );
    assert_eq!(cast_from(&world, vec2::new(s(-0.5), s(-0.5)), west, &turns), None);
    assert_eq!(
        cast_from(&world, vec2::new(s(-2.5), s(0.25)), east, &turns),
        Some(Hit { cell_x: -2, cell_y: 0, side: Axis::X, steps: 1, steps_x: 1 })
    );
    assert_eq!(cast_from(&world, vec2::new(s(-1.5), s(0.25)), east, &turns), None);
    assert_eq!(
        cast_from(&world, vec2::new(s(-3.5), s(0.25)), east, &turns),
        Some(Hit { cell_x: -2, cell_y: 0, side: Axis::X, steps: 2, steps_x: 2 })
    );
    let up = vec2::new(s(0.0), s(-1.0));
    world.set_wall(0, -3, wall());
    assert_eq!(
        cast_from(&world, vec2::new(s(0.5), s(0.5)), up, &[Axis::Y, Axis::Y, Axis::Y]),
        Some(Hit { cell_x: 0, cell_y: -3, side: Axis::Y, steps: 3, steps_x: 0 })
    );
    assert_eq!(
        cast_from(&world, vec2::new(s(0.5), s(0.5)), up, &[Axis::X, Axis::Y, Axis::Y, Axis::Y]),
        None
    );
}

#[test]
fn ray_crosses_next_the_nearer_line() {
    let reach_x = [s(0.5), s(1.5), s(2.5), s(3.5)];
    let reach_y = [s(1.0), s(1.25), s(4.0)];
    assert_eq!(
        turns_from(&reach_x, &reach_y),
        vec![Axis::X, Axis::Y, Axis::Y, Axis::X, Axis::X, Axis::X]
    );
    assert_eq!(
        turns_from(&reach_y, &reach_x),
        vec![Axis::Y, Axis::X, Axis::X, Axis::Y, Axis::Y, Axis::Y]
    );
}

#[test]
fn equally_near_lines_are_crossed_along_y_first() {
    assert_eq!(turns_from(&[s(1.0), s(2.0)], &[s(1.0), s(3.0)]), vec![Axis::Y, Axis::X, Axis::X]);
    assert_eq!(turns_from(&[s(0.0)], &[s(-0.0), s(1.0)]), vec![Axis::Y, Axis::X]);
}

#[test]
fn distances_that_are_no_numbers_turn_the_ray_along_y() {
    let nan = s(f32::NAN);
    assert_eq!(turns_from(&[nan, s(1.0)], &[s(5.0), s(6.0)]), vec![Axis::Y, Axis::Y]);
    assert_eq!(
        turns_from(&[s(1.0), s(9.0)], &[nan, s(2.0), s(3.0)]),
        vec![Axis::Y, Axis::X, Axis::Y, Axis::Y]
    );
    let inf = s(f32::INFINITY);
    assert_eq!(turns_from(&[inf, inf], &[s(f32::MAX), inf]), vec![Axis::Y, Axis::Y]);
}

#[test]
fn turns_end_with_the_lists_or_with_the_step_bound() {
    assert_eq!(turns_from(&[], &[s(1.0)]), Vec::new());
    assert_eq!(turns_from(&[s(1.0)], &[]), Vec::new());
    assert_eq!(turns_from(&[s(1.0)], &[s(2.0)]), vec![Axis::X]);
    let near: Vec<Scalar> = (0..100).map(|k| s(k as f32)).collect();
    let far: Vec<Scalar> = (0..100).map(|k| s(1000.0 + k as f32)).collect();
    assert_eq!(turns_from(&near, &far), vec![Axis::X; 40]);
    assert_eq!(turns_from(&far, &near), vec![Axis::Y; 40]);
    let mixed = turns_from(&near, &near);
    assert_eq!(mixed.len(), 40);
    for (k, turn) in mixed.iter().enumerate() {
        assert_eq!(*turn, if k % 2 == 0 { Axis::Y } else { Axis::X });
    }
}

#[test]
fn the_step_bound_is_forty() {
    assert_eq!(MAX_STEPS, 40);
}

#[test]
fn open_world_has_no_hit() {
    let world = WorldMap::new();
    let mut turns = Vec::new();
    for i in 0..40 {
        turns.push(if i % 3 == 0 { Axis::Y } else { Axis::X });
    }
    assert_eq!(cast(&world, 5, 5, -1, 1, &turns), None);
    assert_eq!(cast(&world, 0, 0, 1, 1, &[]), None);
}

#[test]
fn walls_off_the_path_are_not_hit() {
    let mut world = WorldMap::new();
    for x in -50..50 {
        for y in -50..50 {
            if y != 0 {
                world.set_wall(x, y, wall());
            }
        }
    }
    world.set_wall(41, 0, wall());
    world.set_wall(-1, 0, wall());
    let turns = vec![Axis::X; 40];
    assert_eq!(cast(&world, 0, 0, 1, 1, &turns), None);
}

#[test]
fn hit_reports_cell_side_and_steps() {
    let mut world = WorldMap::new();
    world.set_wall(3, 0, wall());
    let turns = vec![Axis::X; 40];
    assert_eq!(
        cast(&world, 0, 0, 1, 1, &turns),
        Some(Hit { cell_x: 3, cell_y: 0, side: Axis::X, steps: 3, steps_x: 3 })
    );
}

#[test]
fn first_wall_on_the_path_is_the_hit() {
    let mut world = WorldMap::new();
    world.set_wall(0, -2, wall());
    world.set_wall(0, -5, wall());
    let turns = vec![Axis::Y; 40];
    assert_eq!(
        cast(&world, 0, 0, 1, -1, &turns),
        Some(Hit { cell_x: 0, cell_y: -2, side: Axis::Y, steps: 2, steps_x: 0 })
    );
}

#[test]
fn walk_follows_the_turns() {
    let mut world = WorldMap::new();
    world.set_wall(-1, 2, wall());
    let turns = [Axis::X, Axis::Y, Axis::Y, Axis::X];
    assert_eq!(
        cast(&world, 0, 0, -1, 1, &turns),
        Some(Hit { cell_x: -1, cell_y: 2, side: Axis::Y, steps: 3, steps_x: 1 })
    );
    let other = [Axis::Y, Axis::Y, Axis::X, Axis::X];
    assert_eq!(
        cast(&world, 0, 0, -1, 1, &other),
        Some(Hit { cell_x: -1, cell_y: 2, side: Axis::X, steps: 3, steps_x: 1 })
    );
    let short = [Axis::X, Axis::Y];
    assert_eq!(cast(&world, 0, 0, -1, 1, &short), None);
}

#[test]
fn start_cell_is_not_looked_at() {
    let mut world = WorldMap::new();
    world.set_wall(2, 2, wall());
    let turns = vec![Axis::X; 40];
    assert_eq!(cast(&world, 2, 2, 1, 1, &turns), None);
}

#[test]
fn walk_stops_after_forty_steps() {
    let mut world = WorldMap::new();
    world.set_wall(41, 0, wall());
    let turns = vec![Axis::X; 60];
    assert_eq!(cast(&world, 0, 0, 1, 1, &turns), None);
    world.set_wall(40, 0, wall());
    assert_eq!(
        cast(&world, 0, 0, 1, 1, &turns),
        Some(Hit { cell_x: 40, cell_y: 0, side: Axis::X, steps: 40, steps_x: 40 })
    );
}

#[test]
fn ray_that_leaves_the_grid_meets_nothing() {
    let mut world = WorldMap::new();
    world.set_wall(i32::MAX, 7, wall());
    world.set_wall(i32::MIN, 7, wall());
    let turns = vec![Axis::X; 40];
    assert_eq!(cast(&world, i32::MAX, 7, 1, 1, &turns), None);
    assert_eq!(cast(&world, i32::MIN, 7, -1, 1, &turns), None);
    assert_eq!(
        cast(&world, i32::MAX - 1, 7, 1, 1, &turns),
        Some(Hit { cell_x: i32::MAX, cell_y: 7, side: Axis::X, steps: 1, steps_x: 1 })
    );
}

#[test]
fn enclosed_camera_hits_within_two_steps() {
    let mut world = WorldMap::new();
    for x in 0..3 {
        for y in 0..3 {
            if x != 1 || y != 1 {
                world.set_wall(x, y, wall());
            }
        }
    }
    let pos = (1.5f32, 1.5f32);
    let headings: [((f32, f32), (f32, f32)); 4] = [
        ((-1.0, 0.0), (0.0, 0.66)),
        ((1.0, 0.0), (0.0, -0.66)),
        ((0.0, -1.0), (-0.66, 0.0)),
        ((0.0, 1.0), (0.66, 0.0)),
    ];
    let width = 64;
    for (dir, plane) in headings {
        for x in 0..width {
            let camera_x = 2.0 * x as f32 / width as f32 - 1.0;
            let ray_dir = (dir.0 + plane.0 * camera_x, dir.1 + plane.1 * camera_x);
            let (step_x, step_y, turns) = turns_of(pos, ray_dir);
            let hit = cast(&world, pos.0 as i32, pos.1 as i32, step_x, step_y, &turns);
            match hit {
                Some(h) => {
                    assert!(h.steps >= 1 && h.steps <= 2, "column {}", x);
                    assert!(world.has_wall(h.cell_x, h.cell_y));
                    assert!((h.cell_x - 1).abs() <= 1 && (h.cell_y - 1).abs() <= 1);
                }
                None => panic!("column {} met no wall", x),
            }
        }
    }
}

#[test]
fn camera_looking_straight_at_a_wall_hits_it_along_its_axis() {
    let mut world = WorldMap::new();
    for y in -3..4 {
        world.set_wall(-4, y, wall());
    }
    let (step_x, step_y, turns) = turns_of((0.5, 0.5), (-1.0, 0.0));
    assert_eq!(step_x, -1);
    assert_eq!(
        cast(&world, 0, 0, step_x, step_y, &turns),
        Some(Hit { cell_x: -4, cell_y: 0, side: Axis::X, steps: 4, steps_x: 4 })
    );
}
