use falling_sand::noise::advance;
use falling_sand::noise::noise;
use falling_sand::paint::fresh;
use falling_sand::universe::DEFAULT_SEED;
use falling_sand::{Cell, Species, Universe};

fn paint_all_species() -> [Species; 6] {
    [
        Species::Sand,
        Species::Water,
        Species::Fire,
        Species::Acid,
        Species::Cloner,
        Species::Empty,
    ]
}

#[test]
fn paint_with_radius_zero_sets_exactly_one_cell() {
    for species in paint_all_species() {
        let mut u = Universe::new(7, 6).unwrap();
        u.set_cell(3, 2, Species::Stone, 4, 5);
        u.set_cell(4, 2, Species::Water, 6, 7);
        u.set_cell(3, 3, Species::Wall, 8, 9);
        let mut before = Vec::new();
        for y in 0..6 {
            for x in 0..7 {
                before.push(u.get_cell(x, y));
            }
        }
        u.paint(3, 2, 0, species);
        for y in 0..6 {
            for x in 0..7 {
                if (x, y) == (3, 2) {
                    assert_eq!(u.get_cell(x, y).species, species);
                } else {
                    assert_eq!(u.get_cell(x, y), before[(y * 7 + x) as usize]);
                }
            }
        }
    }
}

#[test]
fn paint_draws_the_bytes_from_seed_and_place() {
    let mut u = Universe::new(10, 10).unwrap();
    u.paint(5, 0, 0, Species::Sand);
    assert_eq!(u.get_cell(5, 0), Cell { species: Species::Sand, ra: 185, rb: 93 });
    assert_eq!(u.get_cell(5, 0), fresh(Species::Sand, noise(DEFAULT_SEED, 5, 0)));
}

#[test]
fn paint_moves_the_seed_on() {
    let mut u = Universe::new(4, 4).unwrap();
    assert_eq!(u.seed(), DEFAULT_SEED);
    u.paint(1, 1, 1, Species::Sand);
    assert_eq!(u.seed(), advance(DEFAULT_SEED));
    u.paint(100, 100, 1, Species::Sand);
    assert_eq!(u.seed(), advance(advance(DEFAULT_SEED)));
    assert_eq!(u.ticks(), 0);
}

#[test]
fn painting_twice_leaves_the_same_species() {
    let mut u = Universe::new(5, 5).unwrap();
    u.paint(2, 2, 0, Species::Plant);
    let first = u.get_cell(2, 2);
    u.paint(2, 2, 0, Species::Plant);
    let second = u.get_cell(2, 2);
    assert_eq!(first.species, Species::Plant);
    assert_eq!(second.species, Species::Plant);
    assert_eq!(second, fresh(Species::Plant, noise(advance(DEFAULT_SEED), 2, 2)));
    for y in 0..5 {
        for x in 0..5 {
            if (x, y) != (2, 2) {
                assert_eq!(u.get_cell(x, y), Cell::empty());
            }
        }
    }
}

#[test]
fn paint_fills_the_closed_disc() {
    let mut u = Universe::new(9, 9).unwrap();
    u.paint(4, 4, 2, Species::Water);
    for y in 0..9 {
        for x in 0..9 {
            let dx = x - 4;
            let dy = y - 4;
            let inside = dx * dx + dy * dy <= 4;
            let expected = if inside { Species::Water } else { Species::Empty };
            assert_eq!(u.get_cell(x, y).species, expected, "at {:?}", (x, y));
        }
    }
    assert_eq!(u.get_cell(6, 4).species, Species::Water);
    assert_eq!(u.get_cell(5, 5).species, Species::Water);
    assert_eq!(u.get_cell(6, 5).species, Species::Empty);
}

#[test]
fn paint_clips_the_disc_to_the_grid() {
    let mut u = Universe::new(4, 4).unwrap();
    u.paint(-1, -1, 2, Species::Sand);
    for y in 0..4 {
        for x in 0..4 {
            let dx = x + 1;
            let dy = y + 1;
            let expected = if dx * dx + dy * dy <= 4 { Species::Sand } else { Species::Empty };
            assert_eq!(u.get_cell(x, y).species, expected);
        }
    }
    assert_eq!(u.get_cell(0, 0).species, Species::Sand);
    assert_eq!(u.get_cell(1, 0).species, Species::Empty);
}

#[test]
fn paint_with_a_huge_radius_covers_everything() {
    let mut u = Universe::new(5, 3).unwrap();
    u.paint(i32::MIN, i32::MAX, i32::MAX, Species::Sand);
    for y in 0..3 {
        for x in 0..5 {
            assert_eq!(u.get_cell(x, y).species, Species::Empty);
        }
    }
    u.paint(2, 1, i32::MAX, Species::Sand);
    for y in 0..3 {
        for x in 0..5 {
            assert_eq!(u.get_cell(x, y).species, Species::Sand);
        }
    }
}

#[test]
fn paint_with_a_negative_radius_paints_nothing() {
    let mut u = Universe::new(3, 3).unwrap();
    u.paint(1, 1, -1, Species::Sand);
    u.paint(1, 1, i32::MIN, Species::Sand);
    for y in 0..3 {
        for x in 0..3 {
            assert_eq!(u.get_cell(x, y), Cell::empty());
        }
    }
    assert_eq!(u.seed(), advance(advance(DEFAULT_SEED)));
}

#[test]
fn paint_never_overwrites_a_wall() {
    let mut u = Universe::new(5, 5).unwrap();
    u.set_cell(2, 2, Species::Wall, 1, 2);
    u.set_cell(3, 2, Species::Wall, 3, 4);
    u.paint(2, 2, 1, Species::Sand);
    assert_eq!(u.get_cell(2, 2), Cell { species: Species::Wall, ra: 1, rb: 2 });
    assert_eq!(u.get_cell(3, 2), Cell { species: Species::Wall, ra: 3, rb: 4 });
    assert_eq!(u.get_cell(1, 2).species, Species::Sand);
    assert_eq!(u.get_cell(2, 1).species, Species::Sand);
    assert_eq!(u.get_cell(2, 3).species, Species::Sand);
    u.paint(2, 2, 0, Species::Wall);
    assert_eq!(u.get_cell(2, 2), Cell { species: Species::Wall, ra: 1, rb: 2 });
}

#[test]
fn painting_empty_erases_even_walls() {
    let mut u = Universe::new(5, 5).unwrap();
    u.set_cell(2, 2, Species::Wall, 1, 2);
    u.set_cell(1, 2, Species::Stone, 3, 4);
    u.paint(2, 2, 1, Species::Empty);
    assert_eq!(u.get_cell(2, 2), Cell::empty());
    assert_eq!(u.get_cell(1, 2), Cell::empty());
}

#[test]
fn paint_overwrites_what_is_not_wall() {
    let mut u = Universe::new(3, 3).unwrap();
    u.set_cell(1, 1, Species::Stone, 3, 4);
    u.paint(1, 1, 0, Species::Water);
    assert_eq!(u.get_cell(1, 1).species, Species::Water);
}

#[test]
fn painted_cloners_start_unbound_and_painted_fire_leaves_no_smoke() {
    let mut u = Universe::new(6, 6).unwrap();
    u.paint(2, 2, 2, Species::Cloner);
    for y in 0..6 {
        for x in 0..6 {
            let c = u.get_cell(x, y);
            if c.species == Species::Cloner {
                assert_eq!(c.ra, 0);
            }
        }
    }
    u.paint(2, 2, 2, Species::Fire);
    for y in 0..6 {
        for x in 0..6 {
            let c = u.get_cell(x, y);
            if c.species == Species::Fire {
                assert_eq!(c.rb, 0);
            }
        }
    }
}
