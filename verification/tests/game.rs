use falling_sand::{MyGame, Species, Stroke, Widget};

fn entry_at(x: u32, y: u32) -> Widget {
    Widget::new(Species::Lava, "Lava".to_string(), 3, x, y, 2, false)
}

#[test]
fn a_widget_keeps_what_it_is_made_of() {
    let w = Widget::new(Species::Oil, "Oil".to_string(), 8, 258, 56, 2, true);
    assert_eq!(w.species(), Species::Oil);
    assert_eq!(w.name(), "Oil");
    assert_eq!(w.idx(), 8);
    assert_eq!(w.x(), 258);
    assert_eq!(w.y(), 56);
    assert_eq!(w.col(), 2);
    assert!(w.is_active());
}

#[test]
fn a_click_on_a_widget_picks_it() {
    let mut w = entry_at(100, 50);
    assert!(w.update(true, 104, 54));
    assert!(w.is_active());
}

#[test]
fn a_widget_covers_nine_by_nine_pixels() {
    for (mx, my, hit) in [
        (100, 50, true),
        (108, 58, true),
        (108, 50, true),
        (100, 58, true),
        (99, 50, false),
        (100, 49, false),
        (109, 50, false),
        (100, 59, false),
        (109, 59, false),
        (0, 0, false),
    ] {
        let mut w = entry_at(100, 50);
        assert_eq!(w.update(true, mx, my), hit, "at {:?}", (mx, my));
        assert_eq!(w.is_active(), hit);
    }
}

#[test]
fn a_click_elsewhere_makes_a_widget_inactive() {
    let mut w = Widget::new(Species::Lava, "Lava".to_string(), 3, 100, 50, 2, true);
    assert!(!w.update(true, 10, 10));
    assert!(!w.is_active());
}

#[test]
fn without_a_click_a_widget_stays_as_it_is() {
    let mut on = Widget::new(Species::Lava, "Lava".to_string(), 3, 100, 50, 2, true);
    assert!(!on.update(false, 104, 54));
    assert!(on.is_active());
    assert!(!on.update(false, 0, 0));
    assert!(on.is_active());
    let mut off = entry_at(100, 50);
    assert!(!off.update(false, 104, 54));
    assert!(!off.is_active());
}

#[test]
fn a_widget_at_the_far_edge_does_not_overflow() {
    let mut w = entry_at(u32::MAX - 3, u32::MAX);
    assert!(w.update(true, u32::MAX, u32::MAX));
    assert!(w.update(true, u32::MAX - 3, u32::MAX));
    assert!(!w.update(true, u32::MAX - 4, u32::MAX));
    assert!(!w.update(true, u32::MAX, u32::MAX - 1));
}

#[test]
fn update_leaves_the_rest_of_a_widget_alone() {
    let mut w = entry_at(100, 50);
    w.update(true, 104, 54);
    w.update(true, 0, 0);
    assert_eq!(w.species(), Species::Lava);
    assert_eq!(w.name(), "Lava");
    assert_eq!(w.idx(), 3);
    assert_eq!(w.x(), 100);
    assert_eq!(w.y(), 50);
    assert_eq!(w.col(), 2);
}

#[test]
fn a_game_starts_with_the_menu_beside_an_empty_grid() {
    let game = MyGame::init(1, &Vec::new());
    assert_eq!(game.width(), 256);
    assert_eq!(game.height(), 256);
    assert_eq!(game.current_species(), Species::Sand);
    assert_eq!(game.universe().width(), 256);
    assert_eq!(game.universe().height(), 256);
    assert_eq!(game.universe().seed(), 1);
    assert_eq!(game.universe().ticks(), 0);
    let expected = [
        (Species::Water, "Water"),
        (Species::Fire, "Fire"),
        (Species::Lava, "Lava"),
        (Species::Seed, "Seed"),
        (Species::Sand, "Sand"),
        (Species::Plant, "Plant"),
        (Species::Rocket, "Rocket"),
        (Species::Oil, "Oil"),
        (Species::Acid, "Acid"),
        (Species::Stone, "Stone"),
        (Species::Wood, "Wood"),
        (Species::Mite, "Mite"),
        (Species::Gas, "Gas"),
        (Species::Ice, "Ice"),
    ];
    assert_eq!(game.widgets().len(), 14);
    for (i, (species, name)) in expected.iter().enumerate() {
        let w = &game.widgets()[i];
        assert_eq!(w.species(), *species);
        assert_eq!(w.name(), *name);
        assert_eq!(w.idx(), i as u32 + 1);
        assert_eq!(w.x(), 258);
        assert_eq!(w.y(), 8 * i as u32);
        assert_eq!(w.col(), 2);
        assert!(!w.is_active());
    }
    for (x, y) in [(0, 0), (255, 255), (128, 7), (3, 200)] {
        assert_eq!(game.universe().get_cell(x, y).species, Species::Empty);
    }
}

#[test]
fn a_game_paints_its_first_strokes_in_order() {
    let strokes = vec![
        Stroke { x: 20, y: 20, radius: 3, species: Species::Stone },
        Stroke { x: 22, y: 20, radius: 1, species: Species::Wood },
        Stroke { x: 300, y: 20, radius: 1, species: Species::Wood },
    ];
    let game = MyGame::init(7, &strokes);
    let u = game.universe();
    assert_eq!(u.get_cell(20, 20).species, Species::Stone);
    assert_eq!(u.get_cell(17, 20).species, Species::Stone);
    assert_eq!(u.get_cell(22, 20).species, Species::Wood);
    assert_eq!(u.get_cell(21, 20).species, Species::Wood);
    assert_eq!(u.get_cell(23, 20).species, Species::Wood);
    assert_eq!(u.get_cell(24, 20).species, Species::Empty);
    assert_eq!(u.get_cell(16, 20).species, Species::Empty);
    let mut seed = 7;
    for _ in 0..3 {
        seed = falling_sand::noise::advance(seed);
    }
    assert_eq!(u.seed(), seed);
}

#[test]
fn a_frame_without_a_click_only_ticks() {
    let strokes = vec![Stroke { x: 5, y: 0, radius: 0, species: Species::Sand }];
    let mut game = MyGame::init(1, &strokes);
    game.update(false, 100, 100);
    assert_eq!(game.universe().ticks(), 1);
    assert_eq!(game.universe().get_cell(5, 1).species, Species::Sand);
    assert_eq!(game.universe().get_cell(5, 0).species, Species::Empty);
    assert_eq!(game.universe().get_cell(100, 100).species, Species::Empty);
    assert_eq!(game.current_species(), Species::Sand);
}

#[test]
fn a_click_on_the_grid_paints_the_current_species_and_ticks() {
    let mut game = MyGame::init(1, &Vec::new());
    game.update(true, 100, 245);
    assert_eq!(game.universe().ticks(), 1);
    assert_eq!(game.universe().get_cell(100, 245).species, Species::Sand);
    assert_eq!(game.universe().get_cell(100, 255).species, Species::Sand);
    assert_eq!(game.universe().get_cell(111, 245).species, Species::Empty);
    assert_eq!(game.universe().get_cell(100, 233).species, Species::Empty);
    for i in 0..14 {
        assert!(!game.widgets()[i].is_active());
    }
}

#[test]
fn a_click_on_the_menu_picks_the_species_and_paints_off_the_grid() {
    let mut game = MyGame::init(1, &Vec::new());
    game.update(true, 260, 44);
    assert_eq!(game.current_species(), Species::Plant);
    for i in 0..14 {
        assert_eq!(game.widgets()[i].is_active(), i == 5);
    }
    for y in 30..60 {
        for x in 240..256 {
            let expected = {
                let dx = x - 260;
                let dy = y - 44;
                if dx * dx + dy * dy <= 100 { Species::Plant } else { Species::Empty }
            };
            assert_eq!(game.universe().get_cell(x, y).species, expected);
        }
    }
    game.update(false, 0, 0);
    assert_eq!(game.current_species(), Species::Plant);
    assert!(game.widgets()[5].is_active());
}

#[test]
fn a_click_on_the_seam_of_two_entries_picks_the_lower_one() {
    let mut game = MyGame::init(1, &Vec::new());
    game.update(true, 258, 8);
    assert_eq!(game.current_species(), Species::Fire);
    assert!(game.widgets()[0].is_active());
    assert!(game.widgets()[1].is_active());
    assert!(!game.widgets()[2].is_active());
}

#[test]
fn a_pointer_in_the_upper_half_of_the_range_counts_down_from_zero() {
    assert_eq!(falling_sand::game::wrap(0), 0);
    assert_eq!(falling_sand::game::wrap(7), 7);
    assert_eq!(falling_sand::game::wrap(0x7fff_ffff), i32::MAX);
    assert_eq!(falling_sand::game::wrap(0x8000_0000), i32::MIN);
    assert_eq!(falling_sand::game::wrap(u32::MAX), -1);
    let mut game = MyGame::init(1, &Vec::new());
    game.update(true, u32::MAX, u32::MAX - 2);
    assert_eq!(game.universe().get_cell(0, 0).species, Species::Empty);
    assert_eq!(game.universe().get_cell(0, 1).species, Species::Sand);
    assert_eq!(game.universe().get_cell(8, 1).species, Species::Sand);
    assert_eq!(game.universe().get_cell(9, 1).species, Species::Empty);
}
