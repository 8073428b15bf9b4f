use powder::grid::Particle;
use powder::material::Kind;
use powder::rules::Draws;
use powder::world::World;
use rand::rngs::StdRng;
use rand::SeedableRng;

fn scene(rows: &[&str]) -> World {
    let height = rows.len();
    let width = rows[0].len();
    let mut world = World::with_size(width, height).unwrap();
    for (y, row) in rows.iter().enumerate() {
        for (x, letter) in row.chars().enumerate() {
            let kind = match letter {
                's' => Kind::Sand,
                'g' => Kind::Gravel,
                'w' => Kind::Water,
                '#' => Kind::Stone,
                _ => Kind::Empty,
            };
            world.set_pixel((x, y), kind);
        }
    }
    world
}

fn cells(world: &World) -> Vec<Particle> {
    let mut all = Vec::new();
    for y in 0..world.height() {
        for x in 0..world.width() {
            all.push(world.get(x, y).unwrap());
        }
    }
    all
}

fn census(world: &World) -> [usize; 5] {
    [
        world.count(Kind::Empty),
        world.count(Kind::Sand),
        world.count(Kind::Gravel),
        world.count(Kind::Water),
        world.count(Kind::Stone),
    ]
}

fn busy_scene() -> World {
    scene(&[
        "ssssssss",
        "wwwwwwww",
        "g..ww..g",
        "..s..s..",
        "#..##..#",
        ".w....w.",
        "........",
        "#......#",
    ])
}

#[test]
fn a_tick_conserves_each_material() {
    for seed in 0..20u64 {
        let mut rng = StdRng::seed_from_u64(seed);
        let mut world = busy_scene();
        let before = census(&world);
        assert_eq!(before, [34, 10, 2, 12, 6]);
        for _ in 0..40 {
            world.advance(&mut rng);
            assert_eq!(census(&world), before);
        }
    }
}

#[test]
fn a_tick_conserves_the_number_of_particles() {
    let mut rng = StdRng::seed_from_u64(99);
    let mut world = busy_scene();
    let cells = world.width() * world.height();
    let occupied = cells - world.count(Kind::Empty);
    assert_eq!(occupied, 30);
    for _ in 0..100 {
        world.advance(&mut rng);
        assert_eq!(cells - world.count(Kind::Empty), occupied);
    }
}

#[test]
fn only_painting_changes_the_number_of_particles() {
    let mut rng = StdRng::seed_from_u64(5);
    let mut world = busy_scene();
    world.advance(&mut rng);
    let empty = world.count(Kind::Empty);
    let target = (0..64).find(|i| world.get(i % 8, i / 8).unwrap().kind == Kind::Empty).unwrap();
    world.set_pixel((target % 8, target / 8), Kind::Stone);
    assert_eq!(world.count(Kind::Empty), empty - 1);
    world.advance(&mut rng);
    assert_eq!(world.count(Kind::Empty), empty - 1);
    world.set_pixel((target % 8, target / 8), Kind::Empty);
    assert_eq!(world.count(Kind::Empty), empty);
}

#[test]
fn a_tick_inverts_the_parity_and_keeps_the_size() {
    let mut rng = StdRng::seed_from_u64(1);
    let mut world = busy_scene();
    for tick in 0..6 {
        assert_eq!(world.clock(), tick % 2 == 1);
        world.advance(&mut rng);
        assert_eq!(world.width(), 8);
        assert_eq!(world.height(), 8);
    }
}

#[test]
fn every_particle_carries_the_new_parity_after_a_tick() {
    for seed in 0..20u64 {
        let mut rng = StdRng::seed_from_u64(seed);
        let mut world = busy_scene();
        for _ in 0..40 {
            world.advance(&mut rng);
            for cell in cells(&world) {
                if cell.kind != Kind::Empty {
                    assert_eq!(cell.touched, world.clock());
                }
            }
        }
    }
}

#[test]
fn every_cell_carries_the_new_parity_after_a_tick_on_a_dry_grid() {
    for seed in 0..20u64 {
        let mut rng = StdRng::seed_from_u64(seed);
        let mut world = scene(&["ssgs.s", "s.g..s", "..##..", "s....g", "......", "#....#"]);
        for _ in 0..30 {
            world.advance(&mut rng);
            for cell in cells(&world) {
                assert_eq!(cell.touched, world.clock());
            }
        }
    }
}

#[test]
fn sand_and_gravel_resting_on_stone_never_move() {
    for seed in 0..50u64 {
        let mut rng = StdRng::seed_from_u64(seed);
        let mut world = scene(&["w.w.w.w", ".s...g.", "###.###", "......."]);
        for _ in 0..60 {
            world.advance(&mut rng);
            assert_eq!(world.get(1, 1).unwrap().kind, Kind::Sand);
            assert_eq!(world.get(5, 1).unwrap().kind, Kind::Gravel);
        }
    }
}

#[test]
fn a_single_sand_particle_falls_straight_down() {
    for seed in 0..50u64 {
        for height in [5, 6, 11] {
            let mut rng = StdRng::seed_from_u64(seed);
            let mut world = World::with_size(5, height).unwrap();
            world.set_pixel((2, 0), Kind::Sand);
            for _ in 0..4 {
                world.advance(&mut rng);
            }
            assert_eq!(world.get(2, 4).unwrap().kind, Kind::Sand);
            assert_eq!(world.count(Kind::Sand), 1);
            assert_eq!(world.count(Kind::Empty), 5 * height - 1);
        }
    }
}

#[test]
fn a_single_sand_particle_comes_to_rest_on_the_floor() {
    let mut rng = StdRng::seed_from_u64(3);
    let mut world = World::with_size(5, 5).unwrap();
    world.set_pixel((2, 0), Kind::Sand);
    for _ in 0..9 {
        world.advance(&mut rng);
    }
    assert_eq!(world.get(2, 4).unwrap().kind, Kind::Sand);
    assert_eq!(world.count(Kind::Sand), 1);
}

#[test]
fn runs_with_one_seed_leave_identical_grids() {
    for seed in [0u64, 1, 7, 12345, u64::MAX] {
        let mut first = busy_scene();
        let mut second = busy_scene();
        let mut first_rng = StdRng::seed_from_u64(seed);
        let mut second_rng = StdRng::seed_from_u64(seed);
        for _ in 0..50 {
            first.advance(&mut first_rng);
        }
        for _ in 0..50 {
            second.advance(&mut second_rng);
        }
        assert_eq!(cells(&first), cells(&second));
        assert_eq!(first.clock(), second.clock());
    }
}

#[test]
fn runs_with_different_seeds_part_ways() {
    let mut outcomes = Vec::new();
    for seed in 0..8u64 {
        let mut world = busy_scene();
        let mut rng = StdRng::seed_from_u64(seed);
        for _ in 0..10 {
            world.advance(&mut rng);
        }
        outcomes.push(cells(&world));
    }
    assert!(outcomes.iter().any(|outcome| *outcome != outcomes[0]));
}

#[test]
fn update_conserves_each_material_and_inverts_the_parity() {
    let mut world = busy_scene();
    let before = census(&world);
    for tick in 0..20 {
        assert_eq!(world.clock(), tick % 2 == 1);
        world.update();
        assert_eq!(census(&world), before);
    }
}

#[test]
fn update_lets_sand_fall_and_leaves_stone() {
    let mut world = scene(&["..s..", ".....", ".....", "#####"]);
    world.update();
    world.update();
    assert_eq!(world.get(2, 2).unwrap().kind, Kind::Sand);
    world.update();
    assert_eq!(world.get(2, 2).unwrap().kind, Kind::Sand);
    assert_eq!(world.count(Kind::Stone), 5);
}

#[test]
fn water_on_stone_ends_beside_its_cell_or_in_it() {
    let mut moved = 0;
    let mut stayed = 0;
    for seed in 0..64u64 {
        let mut rng = StdRng::seed_from_u64(seed);
        let mut world = scene(&["w..", "###", "..."]);
        world.advance(&mut rng);
        assert_eq!(world.count(Kind::Water), 1);
        if world.get(1, 0).unwrap().kind == Kind::Water {
            moved += 1;
        } else {
            assert_eq!(world.get(0, 0).unwrap().kind, Kind::Water);
            stayed += 1;
        }
    }
    assert!(moved > 0);
    assert!(stayed > 0);
}

#[test]
fn water_reaches_farther_than_two_columns() {
    let mut reached = 0;
    for seed in 0..200u64 {
        let mut rng = StdRng::seed_from_u64(seed);
        let mut world = scene(&["#w####", "#wwww."]);
        world.advance(&mut rng);
        assert_eq!(world.count(Kind::Water), 5);
        if world.get(1, 0).unwrap().kind == Kind::Empty {
            for x in 1..6 {
                assert_eq!(world.get(x, 1).unwrap().kind, Kind::Water);
            }
            reached += 1;
        }
    }
    assert!(reached > 0);
    assert!(reached < 200);
}

#[test]
fn water_on_stone_moves_to_the_next_cell_with_a_pinned_seed() {
    let mut rng = StdRng::seed_from_u64(1);
    let mut world = scene(&["w..", "###", "..."]);
    world.advance(&mut rng);
    assert_eq!(world.get(0, 0), Some(Particle { kind: Kind::Empty, touched: false }));
    assert_eq!(world.get(1, 0), Some(Particle { kind: Kind::Water, touched: true }));
    assert_eq!(world.get(2, 0), Some(Particle { kind: Kind::Empty, touched: true }));
    for x in 0..3 {
        assert_eq!(world.get(x, 1), Some(Particle { kind: Kind::Stone, touched: true }));
        assert_eq!(world.get(x, 2), Some(Particle { kind: Kind::Empty, touched: true }));
    }
}

#[test]
fn water_on_stone_stays_with_another_pinned_seed() {
    let mut rng = StdRng::seed_from_u64(0);
    let mut world = scene(&["w..", "###", "..."]);
    world.advance(&mut rng);
    assert_eq!(world.get(0, 0), Some(Particle { kind: Kind::Water, touched: true }));
    assert_eq!(world.get(1, 0), Some(Particle { kind: Kind::Empty, touched: true }));
    assert_eq!(world.get(2, 0), Some(Particle { kind: Kind::Empty, touched: true }));
}

#[test]
fn a_recorded_tick_is_the_tick_that_advance_makes() {
    for seed in 0..10u64 {
        let mut advanced = busy_scene();
        let mut recorded = busy_scene();
        let mut first_rng = StdRng::seed_from_u64(seed);
        let mut second_rng = StdRng::seed_from_u64(seed);
        for _ in 0..20 {
            advanced.advance(&mut first_rng);
            let script = recorded.record(&mut second_rng);
            assert_eq!(script.len(), 64);
            assert_eq!(cells(&advanced), cells(&recorded));
            assert_eq!(advanced.clock(), recorded.clock());
        }
    }
}

#[test]
fn a_recorded_script_holds_valid_draws() {
    let mut rng = StdRng::seed_from_u64(17);
    let mut world = busy_scene();
    let mut drawn = 0;
    for _ in 0..30 {
        for draws in world.record(&mut rng) {
            assert!(1 <= draws.near && draws.near < 3);
            assert!(2 <= draws.far && draws.far < 5);
            if draws != Draws::none() {
                drawn += 1;
            }
        }
    }
    assert!(drawn > 0);
}

#[test]
fn replaying_a_recorded_run_leaves_the_same_grids() {
    for seed in [2u64, 3, 5, 8] {
        let mut rng = StdRng::seed_from_u64(seed);
        let mut recorded = busy_scene();
        let mut replayed = busy_scene();
        for _ in 0..40 {
            let script = recorded.record(&mut rng);
            replayed.replay(&script);
            assert_eq!(cells(&recorded), cells(&replayed));
            assert_eq!(recorded.clock(), replayed.clock());
        }
    }
}

#[test]
fn a_generator_from_the_library_drives_ticks() {
    let mut rng = powder::engine::generator();
    let mut world = busy_scene();
    let before = census(&world);
    for _ in 0..20 {
        world.advance(&mut rng);
        assert_eq!(census(&world), before);
    }
    assert_eq!(powder::engine::FALLBACK_SEED, 0);
}
