use rand::{Rng, RngCore, SeedableRng};
use rand_chacha::ChaCha8Rng;
use wallgen::model::{MapObject, Orientation, Prefab, Wall};
use wallgen::wall::{generate_wall, place_drawn, WallError};

fn filler_and_gate() -> Vec<Prefab> {
    vec![
        Prefab { width: 1, height: 1, render: '#' },
        Prefab { width: 7, height: 1, render: '=' },
    ]
}

fn widths(objects: &[MapObject]) -> u32 {
    objects.iter().map(|object| object.prefab.width).sum()
}

/// The plain rejection loop, for walls on which it is known to end.
fn rejection_loop(rng: &mut ChaCha8Rng, wall: &Wall, prefabs: &[Prefab]) -> Vec<MapObject> {
    let mut objects = Vec::new();
    let mut covered = 0u32;
    while covered != wall.length {
        let index = rng.gen_range(0..prefabs.len());
        if covered + prefabs[index].width > wall.length {
            continue;
        }
        let (x, y) = if wall.orientation == Orientation::Left {
            (wall.x + covered, wall.y)
        } else {
            (wall.x, wall.y + covered)
        };
        covered += prefabs[index].width;
        objects.push(MapObject { x, y, orientation: wall.orientation, prefab: prefabs[index] });
    }
    objects
}

#[test]
fn a_draw_that_fits_is_placed_along_x() {
    let wall = Wall { x: 5, y: 9, length: 10, orientation: Orientation::Left };
    let prefabs = filler_and_gate();
    assert_eq!(
        place_drawn(&wall, &prefabs, 2, 1),
        Some(MapObject { x: 7, y: 9, orientation: Orientation::Left, prefab: prefabs[1] })
    );
}

#[test]
fn a_draw_that_fits_is_placed_along_y() {
    let wall = Wall { x: 5, y: 9, length: 10, orientation: Orientation::Down };
    let prefabs = filler_and_gate();
    assert_eq!(
        place_drawn(&wall, &prefabs, 2, 0),
        Some(MapObject { x: 5, y: 11, orientation: Orientation::Down, prefab: prefabs[0] })
    );
}

#[test]
fn a_draw_that_ends_at_the_end_of_the_wall_is_placed() {
    let wall = Wall { x: 0, y: 0, length: 10, orientation: Orientation::Left };
    let prefabs = filler_and_gate();
    assert_eq!(
        place_drawn(&wall, &prefabs, 3, 1),
        Some(MapObject { x: 3, y: 0, orientation: Orientation::Left, prefab: prefabs[1] })
    );
}

#[test]
fn a_draw_that_reaches_past_the_wall_is_discarded() {
    let wall = Wall { x: 0, y: 0, length: 10, orientation: Orientation::Left };
    let prefabs = filler_and_gate();
    assert_eq!(place_drawn(&wall, &prefabs, 4, 1), None);
    assert_eq!(place_drawn(&wall, &prefabs, 10, 0), None);
}

#[test]
fn a_very_wide_prefab_is_discarded_without_overflow() {
    let wall = Wall { x: 0, y: 0, length: 10, orientation: Orientation::Down };
    let prefabs = vec![Prefab { width: u32::MAX, height: 1, render: '!' }];
    assert_eq!(place_drawn(&wall, &prefabs, 5, 0), None);
}

#[test]
fn a_wall_at_the_edge_of_the_coordinates_is_filled() {
    let wall = Wall { x: u32::MAX - 3, y: 0, length: 3, orientation: Orientation::Left };
    let prefabs = vec![Prefab { width: 1, height: 1, render: '#' }];
    let mut rng = ChaCha8Rng::seed_from_u64(1);
    let objects = generate_wall(&mut rng, &wall, &prefabs, 10).unwrap();
    let xs: Vec<u32> = objects.iter().map(|object| object.x).collect();
    assert_eq!(xs, vec![u32::MAX - 3, u32::MAX - 2, u32::MAX - 1]);
}

#[test]
fn a_filled_wall_is_covered_exactly() {
    let prefabs = filler_and_gate();
    for seed in 0..20u64 {
        for length in [1u32, 6, 7, 8, 35, 70, 200] {
            let wall = Wall { x: 0, y: 3, length, orientation: Orientation::Left };
            let mut rng = ChaCha8Rng::seed_from_u64(seed);
            let objects = generate_wall(&mut rng, &wall, &prefabs, 100_000).unwrap();
            assert_eq!(widths(&objects), length);
        }
    }
}

#[test]
fn objects_start_where_the_previous_ones_end() {
    let prefabs = filler_and_gate();
    let wall = Wall { x: 4, y: 11, length: 70, orientation: Orientation::Down };
    let mut rng = ChaCha8Rng::seed_from_u64(2);
    let objects = generate_wall(&mut rng, &wall, &prefabs, 100_000).unwrap();
    let mut covered = 0u32;
    for object in &objects {
        assert_eq!(object.x, 4);
        assert_eq!(object.y, 11 + covered);
        assert_eq!(object.orientation, Orientation::Down);
        assert!(prefabs.contains(&object.prefab));
        covered += object.prefab.width;
    }
    assert_eq!(covered, 70);
}

#[test]
fn coordinates_never_step_back_nor_leave_the_wall() {
    let prefabs = filler_and_gate();
    let wall = Wall { x: 10, y: 20, length: 70, orientation: Orientation::Left };
    let mut rng = ChaCha8Rng::seed_from_u64(7);
    let objects = generate_wall(&mut rng, &wall, &prefabs, 100_000).unwrap();
    for pair in objects.windows(2) {
        assert!(pair[0].x <= pair[1].x);
        assert!(pair[0].y <= pair[1].y);
    }
    for object in &objects {
        assert!(object.x >= wall.x);
        assert!(object.x - wall.x + object.prefab.width <= wall.length);
        assert_eq!(object.y, wall.y);
    }
}

#[test]
fn the_same_seed_gives_the_same_wall() {
    let prefabs = filler_and_gate();
    let wall = Wall { x: 0, y: 0, length: 70, orientation: Orientation::Left };
    let mut first = ChaCha8Rng::seed_from_u64(2);
    let mut second = ChaCha8Rng::seed_from_u64(2);
    assert_eq!(
        generate_wall(&mut first, &wall, &prefabs, 100_000),
        generate_wall(&mut second, &wall, &prefabs, 100_000)
    );
    assert_eq!(first.next_u64(), second.next_u64());
}

#[test]
fn the_wall_is_what_the_rejection_loop_builds() {
    let prefabs = vec![
        Prefab { width: 1, height: 1, render: '#' },
        Prefab { width: 7, height: 1, render: '=' },
        Prefab { width: 3, height: 2, render: '+' },
    ];
    for seed in 0..10u64 {
        for orientation in [Orientation::Left, Orientation::Down] {
            let wall = Wall { x: 2, y: 5, length: 70, orientation };
            let mut rng = ChaCha8Rng::seed_from_u64(seed);
            let mut plain = ChaCha8Rng::seed_from_u64(seed);
            let objects = generate_wall(&mut rng, &wall, &prefabs, 100_000).unwrap();
            assert_eq!(objects, rejection_loop(&mut plain, &wall, &prefabs));
            assert_eq!(rng.next_u64(), plain.next_u64());
        }
    }
}

#[test]
fn an_empty_catalog_is_refused_before_any_draw() {
    let wall = Wall { x: 0, y: 0, length: 10, orientation: Orientation::Left };
    let mut rng = ChaCha8Rng::seed_from_u64(2);
    let mut untouched = ChaCha8Rng::seed_from_u64(2);
    assert_eq!(generate_wall(&mut rng, &wall, &Vec::new(), 100), Err(WallError::EmptyCatalog));
    assert_eq!(rng.next_u64(), untouched.next_u64());
}

#[test]
fn an_empty_catalog_is_refused_for_a_wall_without_length() {
    let wall = Wall { x: 0, y: 0, length: 0, orientation: Orientation::Down };
    let mut rng = ChaCha8Rng::seed_from_u64(2);
    assert_eq!(generate_wall(&mut rng, &wall, &Vec::new(), 100), Err(WallError::EmptyCatalog));
}

#[test]
fn threes_do_not_fill_a_wall_of_ten() {
    let wall = Wall { x: 0, y: 0, length: 10, orientation: Orientation::Left };
    let prefabs = vec![Prefab { width: 3, height: 1, render: '#' }];
    let mut rng = ChaCha8Rng::seed_from_u64(2);
    assert_eq!(
        generate_wall(&mut rng, &wall, &prefabs, 1000),
        Err(WallError::NoPrefabFits { filled: 9 })
    );
}

#[test]
fn a_catalog_of_too_wide_prefabs_fits_nowhere() {
    let wall = Wall { x: 0, y: 0, length: 6, orientation: Orientation::Left };
    let prefabs = vec![
        Prefab { width: 7, height: 1, render: '=' },
        Prefab { width: 9, height: 1, render: '%' },
    ];
    let mut rng = ChaCha8Rng::seed_from_u64(2);
    let mut untouched = ChaCha8Rng::seed_from_u64(2);
    assert_eq!(
        generate_wall(&mut rng, &wall, &prefabs, 1000),
        Err(WallError::NoPrefabFits { filled: 0 })
    );
    assert_eq!(rng.next_u64(), untouched.next_u64());
}

#[test]
fn the_draws_run_out() {
    let wall = Wall { x: 0, y: 0, length: 50, orientation: Orientation::Left };
    let prefabs = vec![Prefab { width: 1, height: 1, render: '#' }];
    let mut rng = ChaCha8Rng::seed_from_u64(2);
    assert_eq!(
        generate_wall(&mut rng, &wall, &prefabs, 10),
        Err(WallError::DrawBudgetExhausted { filled: 10 })
    );
}

#[test]
fn no_draws_are_allowed() {
    let wall = Wall { x: 0, y: 0, length: 50, orientation: Orientation::Left };
    let prefabs = filler_and_gate();
    let mut rng = ChaCha8Rng::seed_from_u64(2);
    assert_eq!(
        generate_wall(&mut rng, &wall, &prefabs, 0),
        Err(WallError::DrawBudgetExhausted { filled: 0 })
    );
}

#[test]
fn exactly_enough_draws() {
    let wall = Wall { x: 0, y: 0, length: 12, orientation: Orientation::Down };
    let prefabs = vec![Prefab { width: 3, height: 1, render: '#' }];
    let mut rng = ChaCha8Rng::seed_from_u64(2);
    let objects = generate_wall(&mut rng, &wall, &prefabs, 4).unwrap();
    let ys: Vec<u32> = objects.iter().map(|object| object.y).collect();
    assert_eq!(ys, vec![0, 3, 6, 9]);
}

#[test]
fn a_wall_without_length_needs_no_object() {
    let wall = Wall { x: 3, y: 3, length: 0, orientation: Orientation::Left };
    let mut rng = ChaCha8Rng::seed_from_u64(2);
    assert_eq!(generate_wall(&mut rng, &wall, &filler_and_gate(), 0), Ok(Vec::new()));
}

#[test]
fn prefabs_without_width_use_up_draws() {
    let wall = Wall { x: 0, y: 0, length: 5, orientation: Orientation::Left };
    let prefabs = vec![Prefab { width: 0, height: 1, render: '.' }];
    let mut rng = ChaCha8Rng::seed_from_u64(2);
    assert_eq!(
        generate_wall(&mut rng, &wall, &prefabs, 25),
        Err(WallError::DrawBudgetExhausted { filled: 0 })
    );
}
