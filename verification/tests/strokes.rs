use powder::material::Kind;
use powder::world::World;

fn canvas(width: usize, height: usize) -> World {
    World::with_size(width, height).unwrap()
}

fn sketch(world: &World) -> Vec<String> {
    let mut rows = Vec::new();
    for y in 0..world.height() {
        let mut row = String::new();
        for x in 0..world.width() {
            row.push(match world.get(x, y).unwrap().kind {
                Kind::Empty => '.',
                Kind::Sand => 's',
                Kind::Gravel => 'g',
                Kind::Water => 'w',
                Kind::Stone => '#',
            });
        }
        rows.push(row);
    }
    rows
}

#[test]
fn the_brush_paints_three_by_three_cells() {
    let mut world = canvas(5, 5);
    world.dab(2, 2, Kind::Sand);
    assert_eq!(sketch(&world), [".....", ".sss.", ".sss.", ".sss.", "....."]);
}

#[test]
fn the_brush_hangs_over_the_edge() {
    let mut world = canvas(4, 4);
    world.dab(0, 0, Kind::Stone);
    world.dab(3, 3, Kind::Water);
    assert_eq!(sketch(&world), ["##..", "##..", "..ww", "..ww"]);
}

#[test]
fn the_brush_beside_the_grid_paints_its_edge() {
    let mut world = canvas(3, 3);
    world.dab(-1, 1, Kind::Gravel);
    world.dab(3, 1, Kind::Sand);
    assert_eq!(sketch(&world), ["g.s", "g.s", "g.s"]);
    let mut other = canvas(3, 3);
    other.dab(1, -1, Kind::Water);
    other.dab(1, 3, Kind::Stone);
    assert_eq!(sketch(&other), ["www", "...", "###"]);
}

#[test]
fn the_brush_far_from_the_grid_paints_nothing() {
    let mut world = canvas(3, 3);
    for (x, y) in [
        (-2, 1),
        (1, -2),
        (4, 1),
        (1, 4),
        (isize::MIN, isize::MIN),
        (isize::MAX, isize::MAX),
        (isize::MIN, 1),
        (1, isize::MAX),
    ] {
        world.dab(x, y, Kind::Sand);
    }
    assert_eq!(world.count(Kind::Empty), 9);
}

#[test]
fn the_brush_does_not_paint_over_particles() {
    let mut world = canvas(3, 3);
    world.set_pixel((1, 1), Kind::Stone);
    world.dab(1, 1, Kind::Water);
    assert_eq!(sketch(&world), ["www", "w#w", "www"]);
}

#[test]
fn the_brush_erases_whatever_it_covers() {
    let mut world = canvas(4, 3);
    world.dab(1, 1, Kind::Sand);
    world.set_pixel((3, 1), Kind::Stone);
    world.dab(2, 1, Kind::Empty);
    assert_eq!(sketch(&world), ["s...", "s...", "s..."]);
}

#[test]
fn the_brush_is_set_down_at_each_point_in_turn() {
    let mut world = canvas(7, 3);
    world.dab_each(&vec![(1, 1), (5, 1)], Kind::Gravel);
    assert_eq!(sketch(&world), ["ggg.ggg", "ggg.ggg", "ggg.ggg"]);
    world.dab_each(&Vec::new(), Kind::Sand);
    assert_eq!(world.count(Kind::Sand), 0);
}

#[test]
fn a_stroke_paints_the_cells_between_its_ends() {
    let mut world = canvas(12, 5);
    world.stroke((1, 2), (10, 2), Kind::Sand);
    assert_eq!(
        sketch(&world),
        ["............", "ssssssssssss", "ssssssssssss", "ssssssssssss", "............"]
    );
}

#[test]
fn a_stroke_runs_in_either_direction() {
    let mut there = canvas(9, 9);
    there.stroke((1, 1), (7, 7), Kind::Water);
    let mut back = canvas(9, 9);
    back.stroke((7, 7), (1, 1), Kind::Water);
    let diagonal = [
        "ww.......",
        "www......",
        ".www.....",
        "..www....",
        "...www...",
        "....www..",
        ".....www.",
        "......www",
        ".......ww",
    ];
    for y in 0..9 {
        for x in 0..9 {
            let near = (x as isize - y as isize).abs() <= 2;
            assert_eq!(there.get(x, y).unwrap().kind == Kind::Water, near);
            assert_eq!(back.get(x, y).unwrap().kind == Kind::Water, near);
        }
    }
    assert_eq!(sketch(&there).len(), diagonal.len());
}

#[test]
fn a_stroke_of_one_point_is_one_dab() {
    let mut world = canvas(5, 5);
    world.stroke((2, 2), (2, 2), Kind::Stone);
    assert_eq!(sketch(&world), [".....", ".###.", ".###.", ".###.", "....."]);
}

#[test]
fn a_stroke_may_start_and_end_off_the_grid() {
    let mut world = canvas(4, 3);
    world.stroke((-5, 1), (8, 1), Kind::Sand);
    assert_eq!(sketch(&world), ["ssss", "ssss", "ssss"]);
    let mut other = canvas(4, 3);
    other.stroke((-9, -9), (-6, -6), Kind::Sand);
    assert_eq!(other.count(Kind::Empty), 12);
}

#[test]
fn an_erasing_stroke_clears_its_path() {
    let mut world = canvas(6, 3);
    world.stroke((0, 1), (5, 1), Kind::Stone);
    assert_eq!(world.count(Kind::Stone), 18);
    world.stroke((0, 0), (5, 0), Kind::Empty);
    assert_eq!(sketch(&world), ["......", "......", "######"]);
}
