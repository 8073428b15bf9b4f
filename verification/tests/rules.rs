use powder::material::Kind;
use powder::rules::Draws;
use powder::world::World;

fn drawn(slide: bool, near: usize, near_side: bool, lateral: bool, far: usize, far_side: bool) -> Draws {
    Draws { slide, near, near_side, lateral, far, far_side }
}

fn grid_of(rows: &[&str]) -> World {
    let height = rows.len();
    let width = rows[0].len();
    let mut world = World::with_size(width, height).unwrap();
    for (y, row) in rows.iter().enumerate() {
        for (x, letter) in row.chars().enumerate() {
            let kind = match letter {
                's' => Kind::Sand,
                'g' => Kind::Gravel,
                'w' => Kind::Water,
                '#' => Kind::Stone,
                _ => Kind::Empty,
            };
            world.set_pixel((x, y), kind);
        }
    }
    world
}

fn every_draw() -> Vec<Draws> {
    let mut all = Vec::new();
    for bits in 0..16u32 {
        for near in 1..3 {
            for far in 2..5 {
                all.push(drawn(bits & 1 != 0, near, bits & 2 != 0, bits & 4 != 0, far, bits & 8 != 0));
            }
        }
    }
    all
}

#[test]
fn idle_draws_are_the_lowest_reaches_and_no_side() {
    assert_eq!(Draws::none(), drawn(false, 1, false, false, 2, false));
}

#[test]
fn empty_and_stone_never_move() {
    let world = grid_of(&[".#.", "...", "..."]);
    for draws in every_draw() {
        assert_eq!(world.destination(0, 0, &draws), None);
        assert_eq!(world.destination(1, 0, &draws), None);
    }
}

#[test]
fn nothing_moves_from_off_the_grid() {
    let world = grid_of(&["s.", ".."]);
    for draws in every_draw() {
        assert_eq!(world.destination(2, 0, &draws), None);
        assert_eq!(world.destination(0, 2, &draws), None);
        assert_eq!(world.destination(usize::MAX, usize::MAX, &draws), None);
    }
}

#[test]
fn sand_falls_straight_into_an_empty_cell() {
    let world = grid_of(&[".s.", "...", "..."]);
    for draws in every_draw() {
        assert_eq!(world.destination(1, 0, &draws), Some((1, 1)));
    }
}

#[test]
fn sand_sinks_into_water_below() {
    let world = grid_of(&[".s.", ".w.", "###"]);
    for draws in every_draw() {
        assert_eq!(world.destination(1, 0, &draws), Some((1, 1)));
    }
}

#[test]
fn blocked_sand_slides_to_the_drawn_diagonal() {
    let world = grid_of(&[".s.", ".#.", "..."]);
    assert_eq!(world.destination(1, 0, &drawn(true, 1, false, false, 2, false)), Some((2, 1)));
    assert_eq!(world.destination(1, 0, &drawn(false, 1, false, false, 2, false)), Some((0, 1)));
}

#[test]
fn blocked_sand_slides_into_water_on_the_diagonal() {
    let world = grid_of(&[".s.", "w#w", "###"]);
    assert_eq!(world.destination(1, 0, &drawn(true, 1, false, false, 2, false)), Some((2, 1)));
    assert_eq!(world.destination(1, 0, &drawn(false, 1, false, false, 2, false)), Some((0, 1)));
}

#[test]
fn sand_tries_only_the_drawn_diagonal() {
    let world = grid_of(&[".s.", ".##", "..."]);
    assert_eq!(world.destination(1, 0, &drawn(true, 1, false, false, 2, false)), None);
    assert_eq!(world.destination(1, 0, &drawn(false, 1, false, false, 2, false)), Some((0, 1)));
}

#[test]
fn sand_does_not_slide_off_the_grid() {
    let world = grid_of(&["s.s", "#.#", "..."]);
    assert_eq!(world.destination(0, 0, &drawn(false, 1, false, false, 2, false)), None);
    assert_eq!(world.destination(0, 0, &drawn(true, 1, false, false, 2, false)), Some((1, 1)));
    assert_eq!(world.destination(2, 0, &drawn(true, 1, false, false, 2, false)), None);
    assert_eq!(world.destination(2, 0, &drawn(false, 1, false, false, 2, false)), Some((1, 1)));
}

#[test]
fn sand_on_the_floor_stays() {
    let world = grid_of(&["...", ".s."]);
    for draws in every_draw() {
        assert_eq!(world.destination(1, 1, &draws), None);
    }
}

#[test]
fn sand_rests_on_sand_gravel_and_stone() {
    let world = grid_of(&[".s.", "sg#"]);
    for draws in every_draw() {
        assert_eq!(world.destination(1, 0, &draws), None);
    }
}

#[test]
fn resting_sand_and_gravel_have_no_destination() {
    for resting in ["s", "g"] {
        let top = format!(".{}.", resting);
        let world = grid_of(&[top.as_str(), "###", "..."]);
        for draws in every_draw() {
            assert_eq!(world.destination(1, 0, &draws), None);
        }
    }
}

#[test]
fn gravel_falls_straight_and_sinks_into_water() {
    let dry = grid_of(&[".g.", "...", "..."]);
    let wet = grid_of(&[".g.", ".w.", "###"]);
    for draws in every_draw() {
        assert_eq!(dry.destination(1, 0, &draws), Some((1, 1)));
        assert_eq!(wet.destination(1, 0, &draws), Some((1, 1)));
    }
}

#[test]
fn gravel_never_slides() {
    let world = grid_of(&[".g.", ".#.", "..."]);
    for draws in every_draw() {
        assert_eq!(world.destination(1, 0, &draws), None);
    }
}

#[test]
fn water_falls_straight_into_an_empty_cell() {
    let world = grid_of(&[".w.", "...", "..."]);
    for draws in every_draw() {
        assert_eq!(world.destination(1, 0, &draws), Some((1, 1)));
    }
}

#[test]
fn water_does_not_sink_into_water() {
    let world = grid_of(&["#w#", "#w#", "###"]);
    for draws in every_draw() {
        assert_eq!(world.destination(1, 0, &draws), None);
    }
}

#[test]
fn water_jumps_one_column_over_water_below_it() {
    let world = grid_of(&["#w#", ".w.", "###"]);
    assert_eq!(world.destination(1, 0, &drawn(false, 1, true, false, 2, false)), Some((2, 1)));
    assert_eq!(world.destination(1, 0, &drawn(false, 1, false, false, 2, false)), Some((0, 1)));
}

#[test]
fn water_does_not_jump_over_stone() {
    let world = grid_of(&["#w#", ".#.", "###"]);
    for draws in every_draw() {
        assert_eq!(world.destination(1, 0, &draws), None);
    }
}

#[test]
fn water_jumps_two_columns_over_a_stepping_stone_of_water() {
    let world = grid_of(&["##w##", "#.ww.", "#####"]);
    assert_eq!(world.destination(2, 0, &drawn(false, 2, true, false, 2, false)), Some((4, 1)));
    assert_eq!(world.destination(2, 0, &drawn(false, 2, false, false, 4, false)), None);
    assert_eq!(world.destination(2, 0, &drawn(false, 1, true, false, 4, false)), None);
}

#[test]
fn water_needs_the_stepping_stone_for_a_jump() {
    let world = grid_of(&["##w##", "..w#.", "#####"]);
    assert_eq!(world.destination(2, 0, &drawn(false, 2, true, false, 2, true)), None);
    assert_eq!(world.destination(2, 0, &drawn(false, 1, false, false, 2, true)), Some((1, 1)));
    assert_eq!(world.destination(2, 0, &drawn(false, 2, false, false, 2, true)), None);
}

#[test]
fn water_steps_sideways_in_its_own_row() {
    let world = grid_of(&[".w.", "###", "..."]);
    assert_eq!(world.destination(1, 0, &drawn(false, 1, false, true, 2, false)), Some((0, 0)));
    assert_eq!(world.destination(1, 0, &drawn(false, 1, false, false, 2, false)), Some((2, 0)));
}

#[test]
fn water_tries_only_the_drawn_side() {
    let world = grid_of(&["#w.", "###", "..."]);
    assert_eq!(world.destination(1, 0, &drawn(false, 1, false, true, 2, false)), None);
    assert_eq!(world.destination(1, 0, &drawn(false, 1, false, false, 2, false)), Some((2, 0)));
}

#[test]
fn water_does_not_step_off_the_grid() {
    let world = grid_of(&["w.w", "###"]);
    assert_eq!(world.destination(0, 0, &drawn(false, 1, false, true, 2, false)), None);
    assert_eq!(world.destination(0, 0, &drawn(false, 1, false, false, 2, false)), Some((1, 0)));
    assert_eq!(world.destination(2, 0, &drawn(false, 1, false, false, 2, false)), None);
    assert_eq!(world.destination(2, 0, &drawn(false, 1, false, true, 2, false)), Some((1, 0)));
}

#[test]
fn water_on_the_floor_only_steps_sideways() {
    let world = grid_of(&["...", ".w."]);
    for draws in every_draw() {
        let expected = if draws.lateral { Some((0, 1)) } else { Some((2, 1)) };
        assert_eq!(world.destination(1, 1, &draws), expected);
    }
}

#[test]
fn water_makes_the_far_jump_into_the_row_below() {
    let world = grid_of(&["#w####", "#www.#", "######"]);
    assert_eq!(world.destination(1, 0, &drawn(false, 1, true, false, 3, true)), Some((4, 1)));
    assert_eq!(world.destination(1, 0, &drawn(false, 2, true, true, 3, true)), Some((4, 1)));
    assert_eq!(world.destination(1, 0, &drawn(false, 2, true, true, 2, true)), None);
    assert_eq!(world.destination(1, 0, &drawn(false, 2, true, true, 4, true)), None);
    assert_eq!(world.destination(1, 0, &drawn(false, 2, true, true, 3, false)), None);
}

#[test]
fn water_makes_the_longest_far_jump() {
    let world = grid_of(&["#####w#", "#.wwww#", "#######"]);
    assert_eq!(world.destination(5, 0, &drawn(false, 1, false, false, 4, false)), Some((1, 1)));
    assert_eq!(world.destination(5, 0, &drawn(false, 1, false, false, 3, false)), None);
}

#[test]
fn water_prefers_the_near_jump_to_the_sideways_step() {
    let world = grid_of(&[".w.", ".w.", "###"]);
    assert_eq!(world.destination(1, 0, &drawn(false, 1, true, true, 2, true)), Some((2, 1)));
    assert_eq!(world.destination(1, 0, &drawn(false, 2, true, true, 2, true)), Some((0, 0)));
}

#[test]
fn water_prefers_the_sideways_step_to_the_far_jump() {
    let world = grid_of(&["#w..", "#ww.", "####"]);
    assert_eq!(world.destination(1, 0, &drawn(false, 1, true, false, 2, true)), Some((2, 0)));
    assert_eq!(world.destination(1, 0, &drawn(false, 1, true, true, 2, true)), Some((3, 1)));
}

#[test]
fn a_reach_of_zero_is_no_jump() {
    let world = grid_of(&["#w#", "#w#", "###"]);
    assert_eq!(world.destination(1, 0, &drawn(false, 0, true, false, 0, true)), None);
}

#[test]
fn a_reach_beyond_the_grid_is_no_jump() {
    let world = grid_of(&["#w#", ".w.", "###"]);
    assert_eq!(
        world.destination(1, 0, &drawn(false, usize::MAX, true, true, usize::MAX, false)),
        None
    );
}
