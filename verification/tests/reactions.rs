use falling_sand::noise::{chance, noise, pick};
use falling_sand::paint::fresh;
use falling_sand::universe::DEFAULT_SEED;
use falling_sand::{Cell, Config, Species, Universe};

fn row_of(u: &Universe, y: i32) -> Vec<Species> {
    (0..u.width()).map(|x| u.get_cell(x, y).species).collect()
}

const E: Species = Species::Empty;

#[test]
fn a_lone_fire_goes_out_in_one_tick() {
    for ra in [0u8, 1, 2, 30, 255] {
        let mut u = Universe::new(3, 3).unwrap();
        u.set_cell(1, 1, Species::Fire, ra, 0);
        u.tick();
        for y in 0..3 {
            for x in 0..3 {
                assert_eq!(u.get_cell(x, y), Cell::empty());
            }
        }
    }
}

#[test]
fn a_marked_fire_leaves_smoke() {
    let mut u = Universe::new(3, 3).unwrap();
    u.set_cell(1, 1, Species::Fire, 9, 1);
    u.tick();
    assert_eq!(u.get_cell(1, 1), Cell { species: Species::Gas, ra: 122, rb: 38 });
    assert_eq!(u.get_cell(1, 1), fresh(Species::Gas, noise(DEFAULT_SEED, 1, 1)));
}

#[test]
fn fire_with_fuel_burns_down_by_one_and_sets_the_fuel_alight() {
    let mut u = Universe::new(3, 1).unwrap();
    u.set_cell(0, 0, Species::Fire, 5, 0);
    u.set_cell(1, 0, Species::Wood, 8, 0);
    u.tick();
    assert_eq!(u.get_cell(0, 0), Cell { species: Species::Fire, ra: 4, rb: 0 });
    assert_eq!(u.get_cell(1, 0), Cell { species: Species::Fire, ra: 40, rb: 0 });
    assert_eq!(u.get_cell(2, 0).species, E);
    u.tick();
    assert_eq!(row_of(&u, 0), vec![E, E, E]);
}

#[test]
fn a_lifetime_above_the_longest_counts_as_the_longest() {
    let mut u = Universe::new(2, 1).unwrap();
    assert_eq!(u.config().fire_lifetime, 40);
    u.set_cell(0, 0, Species::Fire, 200, 0);
    u.set_cell(1, 0, Species::Wood, 0, 0);
    u.tick();
    assert_eq!(u.get_cell(0, 0), Cell { species: Species::Fire, ra: 39, rb: 0 });
}

#[test]
fn a_fire_at_the_end_of_its_lifetime_goes_out_despite_fuel() {
    for ra in [0u8, 1] {
        let mut u = Universe::new(2, 1).unwrap();
        u.set_cell(0, 0, Species::Fire, ra, 0);
        u.set_cell(1, 0, Species::Wood, 0, 0);
        u.tick();
        assert_eq!(u.get_cell(0, 0), Cell::empty());
        assert_eq!(u.get_cell(1, 0).species, Species::Wood);
    }
}

#[test]
fn every_fuel_catches_fire_from_fire_and_from_lava() {
    for fuel in [Species::Wood, Species::Plant, Species::Oil, Species::Gas, Species::Dust] {
        for heat in [Species::Fire, Species::Lava] {
            let mut u = Universe::new(3, 1).unwrap();
            u.set_cell(0, 0, Species::Wall, 0, 0);
            u.set_cell(1, 0, fuel, 3, 4);
            u.set_cell(2, 0, heat, 9, 0);
            u.tick();
            let smoke = if fuel == Species::Oil { 1 } else { 0 };
            assert_eq!(
                u.get_cell(1, 0),
                Cell { species: Species::Fire, ra: 40, rb: smoke },
                "{:?} next to {:?}",
                fuel,
                heat
            );
        }
    }
}

#[test]
fn what_does_not_burn_does_not_catch_fire() {
    for inert in [Species::Stone, Species::Sand, Species::Wall, Species::Seed, Species::Fungus] {
        let mut u = Universe::new(2, 1).unwrap();
        u.set_cell(0, 0, inert, 3, 4);
        u.set_cell(1, 0, Species::Lava, 0, 0);
        u.tick();
        assert_eq!(u.get_cell(0, 0).species, inert);
    }
}

#[test]
fn burning_oil_leaves_smoke_behind() {
    let mut u = Universe::new(3, 1).unwrap();
    u.set_cell(0, 0, Species::Wall, 0, 0);
    u.set_cell(1, 0, Species::Oil, 0, 0);
    u.set_cell(2, 0, Species::Fire, 9, 0);
    u.tick();
    assert_eq!(u.get_cell(1, 0), Cell { species: Species::Fire, ra: 40, rb: 1 });
    assert_eq!(u.get_cell(2, 0).species, E);
    u.tick();
    assert_eq!(u.get_cell(1, 0).species, Species::Gas);
}

#[test]
fn water_above_a_fire_puts_it_out_though_it_has_fuel() {
    let mut u = Universe::new(3, 3).unwrap();
    u.set_cell(1, 1, Species::Fire, 9, 0);
    u.set_cell(0, 1, Species::Wood, 0, 0);
    u.set_cell(1, 0, Species::Water, 0, 0);
    u.tick();
    assert_ne!(u.get_cell(1, 1).species, Species::Fire);
    assert_eq!(u.get_cell(1, 1).species, Species::Water);
    assert_eq!(u.get_cell(0, 1), Cell { species: Species::Fire, ra: 40, rb: 0 });
}

#[test]
fn water_beside_a_fire_that_cannot_flow_puts_it_out() {
    let mut u = Universe::new(3, 1).unwrap();
    u.set_cell(0, 0, Species::Water, 0, 0);
    u.set_cell(1, 0, Species::Fire, 9, 0);
    u.set_cell(2, 0, Species::Wood, 0, 0);
    u.tick();
    assert_eq!(u.get_cell(1, 0), Cell::empty());
}

#[test]
fn acid_eats_a_neighbour_per_tick_until_its_budget_is_spent() {
    let mut u = Universe::new(3, 1).unwrap();
    u.set_cell(0, 0, Species::Acid, 7, 2);
    u.set_cell(1, 0, Species::Stone, 0, 0);
    u.set_cell(2, 0, Species::Stone, 0, 0);
    u.tick();
    assert_eq!(u.get_cell(0, 0), Cell { species: Species::Acid, ra: 7, rb: 1 });
    assert_eq!(u.get_cell(1, 0), Cell::empty());
    assert_eq!(u.get_cell(2, 0).species, Species::Stone);
    u.tick();
    assert_eq!(row_of(&u, 0), vec![E, E, E]);
}

#[test]
fn acid_with_an_empty_budget_eats_once_more_and_is_gone() {
    for rb in [0u8, 1] {
        let mut u = Universe::new(2, 1).unwrap();
        u.set_cell(0, 0, Species::Acid, 0, rb);
        u.set_cell(1, 0, Species::Wood, 0, 0);
        u.tick();
        assert_eq!(row_of(&u, 0), vec![E, E]);
    }
}

#[test]
fn a_budget_above_the_largest_counts_as_the_largest() {
    let mut u = Universe::new(2, 1).unwrap();
    assert_eq!(u.config().acid_budget, 10);
    u.set_cell(0, 0, Species::Acid, 0, 200);
    u.set_cell(1, 0, Species::Wood, 0, 0);
    u.tick();
    assert_eq!(u.get_cell(0, 0), Cell { species: Species::Acid, ra: 0, rb: 9 });
}

#[test]
fn acid_spares_walls_and_keeps_its_budget_when_it_eats_nothing() {
    let mut u = Universe::new(3, 1).unwrap();
    u.set_cell(0, 0, Species::Wall, 0, 0);
    u.set_cell(1, 0, Species::Acid, 0, 5);
    u.set_cell(2, 0, Species::Wall, 0, 0);
    for _ in 0..4 {
        u.tick();
        assert_eq!(u.get_cell(1, 0), Cell { species: Species::Acid, ra: 0, rb: 5 });
        assert_eq!(u.get_cell(0, 0).species, Species::Wall);
        assert_eq!(u.get_cell(2, 0).species, Species::Wall);
    }
}

#[test]
fn acid_eats_acid() {
    let mut u = Universe::new(2, 1).unwrap();
    u.set_cell(0, 0, Species::Acid, 0, 5);
    u.set_cell(1, 0, Species::Acid, 0, 5);
    u.tick();
    assert_eq!(u.get_cell(0, 0), Cell { species: Species::Acid, ra: 0, rb: 4 });
    assert_eq!(u.get_cell(1, 0), Cell::empty());
}

#[test]
fn lava_turns_to_stone_in_water_and_uses_the_water_up() {
    let mut u = Universe::new(2, 1).unwrap();
    u.set_cell(0, 0, Species::Lava, 3, 4);
    u.set_cell(1, 0, Species::Water, 5, 6);
    u.tick();
    assert_eq!(u.get_cell(0, 0), Cell { species: Species::Stone, ra: 3, rb: 4 });
    assert_eq!(u.get_cell(1, 0), Cell::empty());
}

#[test]
fn ice_melts_next_to_fire_and_the_water_puts_the_fire_out() {
    let mut u = Universe::new(3, 1).unwrap();
    u.set_cell(0, 0, Species::Wall, 0, 0);
    u.set_cell(1, 0, Species::Ice, 3, 4);
    u.set_cell(2, 0, Species::Fire, 9, 0);
    u.tick();
    assert_eq!(u.get_cell(1, 0), Cell { species: Species::Water, ra: 3, rb: 4 });
    assert_eq!(u.get_cell(2, 0), Cell::empty());
}

#[test]
fn ice_melts_next_to_lava() {
    let mut u = Universe::new(3, 1).unwrap();
    u.set_cell(0, 0, Species::Lava, 1, 2);
    u.set_cell(1, 0, Species::Ice, 3, 4);
    u.set_cell(2, 0, Species::Wall, 0, 0);
    u.tick();
    assert_eq!(u.get_cell(0, 0), Cell { species: Species::Lava, ra: 1, rb: 2 });
    assert_eq!(u.get_cell(1, 0), Cell { species: Species::Water, ra: 3, rb: 4 });
    u.tick();
    assert_eq!(u.get_cell(0, 0), Cell { species: Species::Stone, ra: 1, rb: 2 });
    assert_eq!(u.get_cell(1, 0), Cell::empty());
}

#[test]
fn ice_away_from_heat_stays() {
    let mut u = Universe::new(3, 3).unwrap();
    u.set_cell(1, 1, Species::Ice, 3, 4);
    for _ in 0..3 {
        u.tick();
        assert_eq!(u.get_cell(1, 1), Cell { species: Species::Ice, ra: 3, rb: 4 });
    }
}

#[test]
fn water_next_to_ice_freezes_by_the_odds() {
    let never = Config { ice_freeze: 0, ..Config::standard() };
    let mut u = Universe::with_config(3, 1, never, 1).unwrap();
    u.set_cell(0, 0, Species::Wall, 0, 0);
    u.set_cell(1, 0, Species::Water, 3, 4);
    u.set_cell(2, 0, Species::Ice, 0, 0);
    for _ in 0..20 {
        u.tick();
        assert_eq!(u.get_cell(1, 0).species, Species::Water);
    }
    let mut frozen = 0;
    for seed in 0..200u32 {
        let often = Config { ice_freeze: 128, ..Config::standard() };
        let mut u = Universe::with_config(3, 1, often, seed).unwrap();
        u.set_cell(0, 0, Species::Wall, 0, 0);
        u.set_cell(1, 0, Species::Water, 3, 4);
        u.set_cell(2, 0, Species::Ice, 0, 0);
        u.tick();
        let expected = if chance(noise(seed, 1, 0), 128) {
            frozen += 1;
            Cell { species: Species::Ice, ra: 3, rb: 4 }
        } else {
            Cell { species: Species::Water, ra: 3, rb: 4 }
        };
        assert_eq!(u.get_cell(1, 0), expected);
    }
    assert!(frozen > 50 && frozen < 150);
}

#[test]
fn a_seed_grows_on_sand_plant_and_fungus_only() {
    for (ground, grows) in [
        (Species::Sand, true),
        (Species::Plant, true),
        (Species::Fungus, true),
        (Species::Stone, false),
        (Species::Wall, false),
        (Species::Wood, false),
    ] {
        let never = Config { fungus_spread: 0, ..Config::standard() };
        let mut u = Universe::with_config(1, 2, never, 3).unwrap();
        u.set_cell(0, 0, Species::Seed, 3, 4);
        u.set_cell(0, 1, ground, 0, 0);
        u.tick();
        let expected = if grows { Species::Plant } else { Species::Seed };
        assert_eq!(u.get_cell(0, 0), Cell { species: expected, ra: 3, rb: 4 }, "on {:?}", ground);
    }
}

#[test]
fn a_seed_on_the_floor_or_in_the_air_stays_a_seed() {
    let mut u = Universe::new(1, 3).unwrap();
    u.set_cell(0, 0, Species::Seed, 1, 1);
    u.set_cell(0, 2, Species::Seed, 2, 2);
    for _ in 0..3 {
        u.tick();
        assert_eq!(u.get_cell(0, 0), Cell { species: Species::Seed, ra: 1, rb: 1 });
        assert_eq!(u.get_cell(0, 2), Cell { species: Species::Seed, ra: 2, rb: 2 });
    }
}

#[test]
fn a_plant_next_to_water_grows_into_an_empty_cell() {
    let mut u = Universe::new(3, 1).unwrap();
    u.set_cell(0, 0, Species::Water, 0, 0);
    u.set_cell(1, 0, Species::Plant, 3, 4);
    u.tick();
    assert_eq!(u.get_cell(0, 0).species, Species::Water);
    assert_eq!(u.get_cell(1, 0), Cell { species: Species::Plant, ra: 3, rb: 4 });
    assert_eq!(u.get_cell(2, 0), fresh(Species::Plant, noise(DEFAULT_SEED, 1, 0)));
}

#[test]
fn a_plant_without_water_does_not_grow() {
    let mut u = Universe::new(3, 3).unwrap();
    u.set_cell(1, 1, Species::Plant, 3, 4);
    for _ in 0..5 {
        u.tick();
    }
    for y in 0..3 {
        for x in 0..3 {
            let expected = if (x, y) == (1, 1) { Species::Plant } else { E };
            assert_eq!(u.get_cell(x, y).species, expected);
        }
    }
}

#[test]
fn fungus_spreads_by_the_odds_into_wood_plant_and_empty_space() {
    let never = Config { fungus_spread: 0, ..Config::standard() };
    let mut u = Universe::with_config(3, 3, never, 1).unwrap();
    u.set_cell(1, 1, Species::Fungus, 0, 0);
    for _ in 0..10 {
        u.tick();
    }
    let mut count = 0;
    for y in 0..3 {
        for x in 0..3 {
            if u.get_cell(x, y).species == Species::Fungus {
                count += 1;
            }
        }
    }
    assert_eq!(count, 1);

    for seed in 0..100u32 {
        let often = Config { fungus_spread: 128, ..Config::standard() };
        let mut u = Universe::with_config(3, 1, often, seed).unwrap();
        u.set_cell(0, 0, Species::Stone, 0, 0);
        u.set_cell(1, 0, Species::Fungus, 1, 1);
        u.set_cell(2, 0, Species::Wood, 2, 2);
        u.tick();
        let r = noise(seed, 1, 0);
        assert_eq!(u.get_cell(0, 0).species, Species::Stone);
        assert_eq!(u.get_cell(1, 0), Cell { species: Species::Fungus, ra: 1, rb: 1 });
        if chance(r, 128) {
            assert_eq!(u.get_cell(2, 0), fresh(Species::Fungus, r));
        } else {
            assert_eq!(u.get_cell(2, 0).species, Species::Wood);
        }
    }
}

#[test]
fn wood_next_to_fungus_rots_after_its_time() {
    let config = Config { fungus_spread: 0, wood_decay: 3, ..Config::standard() };
    let mut u = Universe::with_config(2, 1, config, 1).unwrap();
    u.set_cell(0, 0, Species::Wood, 9, 0);
    u.set_cell(1, 0, Species::Fungus, 0, 0);
    for n in 1..=3u8 {
        u.tick();
        assert_eq!(u.get_cell(0, 0), Cell { species: Species::Wood, ra: 9, rb: n });
    }
    u.tick();
    assert_eq!(u.get_cell(0, 0), Cell::empty());
}

#[test]
fn wood_away_from_fungus_and_fire_stays() {
    let mut u = Universe::new(3, 3).unwrap();
    u.set_cell(1, 1, Species::Wood, 9, 0);
    for _ in 0..5 {
        u.tick();
        assert_eq!(u.get_cell(1, 1), Cell { species: Species::Wood, ra: 9, rb: 0 });
    }
}

#[test]
fn a_stone_crumbles_under_a_column_that_is_too_high() {
    let mut u = Universe::new(3, 9).unwrap();
    assert_eq!(u.config().stone_load, 6);
    u.set_cell(1, 8, Species::Stone, 3, 4);
    for y in 1..8 {
        u.set_cell(1, y, Species::Wood, 0, 0);
    }
    u.tick();
    assert_eq!(u.get_cell(1, 8), Cell { species: Species::Sand, ra: 3, rb: 4 });
}

#[test]
fn a_stone_bears_a_column_of_the_height_it_is_made_for() {
    let mut u = Universe::new(3, 9).unwrap();
    u.set_cell(1, 8, Species::Stone, 3, 4);
    for y in 2..8 {
        u.set_cell(1, y, Species::Wood, 0, 0);
    }
    for _ in 0..3 {
        u.tick();
        assert_eq!(u.get_cell(1, 8), Cell { species: Species::Stone, ra: 3, rb: 4 });
    }
}

#[test]
fn a_stone_in_an_arch_bears_any_column() {
    let mut u = Universe::new(3, 9).unwrap();
    u.set_cell(0, 8, Species::Stone, 0, 0);
    u.set_cell(1, 8, Species::Stone, 3, 4);
    u.set_cell(2, 8, Species::Wall, 0, 0);
    for y in 0..8 {
        u.set_cell(1, y, Species::Wood, 0, 0);
    }
    for _ in 0..3 {
        u.tick();
        assert_eq!(u.get_cell(1, 8), Cell { species: Species::Stone, ra: 3, rb: 4 });
        assert_eq!(u.get_cell(0, 8).species, Species::Stone);
    }
}

#[test]
fn the_edge_of_the_grid_holds_an_arch_like_a_wall() {
    let mut u = Universe::new(1, 9).unwrap();
    u.set_cell(0, 8, Species::Stone, 3, 4);
    for y in 0..8 {
        u.set_cell(0, y, Species::Wood, 0, 0);
    }
    u.tick();
    assert_eq!(u.get_cell(0, 8), Cell { species: Species::Stone, ra: 3, rb: 4 });
}

#[test]
fn a_cloner_binds_to_the_first_species_it_touches_and_copies_it() {
    let mut u = Universe::new(3, 1).unwrap();
    u.set_cell(0, 0, Species::Sand, 0, 0);
    u.set_cell(1, 0, Species::Cloner, 0, 77);
    u.tick();
    let bound = Cell { species: Species::Cloner, ra: Species::Sand.code(), rb: 77 };
    assert_eq!(u.get_cell(1, 0), bound);
    assert_eq!(u.get_cell(2, 0).species, E);
    let seed = u.seed();
    u.tick();
    assert_eq!(u.get_cell(1, 0), bound);
    assert_eq!(u.get_cell(2, 0), fresh(Species::Sand, noise(seed, 1, 0)));
    assert_eq!(u.get_cell(0, 0).species, Species::Sand);
}

#[test]
fn a_cloner_alone_or_among_cloners_stays_unbound() {
    let mut u = Universe::new(3, 1).unwrap();
    u.set_cell(0, 0, Species::Cloner, 0, 0);
    u.set_cell(1, 0, Species::Cloner, 0, 0);
    for _ in 0..3 {
        u.tick();
        assert_eq!(u.get_cell(0, 0), Cell { species: Species::Cloner, ra: 0, rb: 0 });
        assert_eq!(u.get_cell(1, 0), Cell { species: Species::Cloner, ra: 0, rb: 0 });
        assert_eq!(u.get_cell(2, 0).species, E);
    }
}

#[test]
fn a_bound_cloner_with_no_room_copies_nothing() {
    let mut u = Universe::new(3, 1).unwrap();
    u.set_cell(0, 0, Species::Wall, 0, 0);
    u.set_cell(1, 0, Species::Cloner, Species::Water.code(), 0);
    u.set_cell(2, 0, Species::Wall, 0, 0);
    u.tick();
    assert_eq!(row_of(&u, 0), vec![Species::Wall, Species::Cloner, Species::Wall]);
}

#[test]
fn a_mite_that_does_not_feed_steps_to_a_neighbour() {
    let fasting = Config { mite_feed: 0, ..Config::standard() };
    for seed in 0..50u32 {
        let mut u = Universe::with_config(3, 3, fasting, seed).unwrap();
        u.set_cell(1, 1, Species::Mite, 3, 4);
        u.set_cell(0, 0, Species::Wood, 0, 0);
        u.tick();
        let mut found = Vec::new();
        for y in 0..3 {
            for x in 0..3 {
                if u.get_cell(x, y) == (Cell { species: Species::Mite, ra: 3, rb: 4 }) {
                    found.push((x, y));
                }
            }
        }
        assert_eq!(found.len(), 1);
        assert_ne!(found[0], (1, 1));
        assert_ne!(found[0], (0, 0));
        assert_eq!(u.get_cell(0, 0).species, Species::Wood);
        assert_eq!(u.get_cell(1, 1).species, E);
    }
}

#[test]
fn a_mite_with_nowhere_to_go_stays() {
    let fasting = Config { mite_feed: 0, ..Config::standard() };
    let mut u = Universe::with_config(3, 1, fasting, 1).unwrap();
    u.set_cell(0, 0, Species::Stone, 0, 0);
    u.set_cell(1, 0, Species::Mite, 3, 4);
    u.set_cell(2, 0, Species::Wood, 0, 0);
    for _ in 0..3 {
        u.tick();
        assert_eq!(row_of(&u, 0), vec![Species::Stone, Species::Mite, Species::Wood]);
    }
}

#[test]
fn a_mite_eats_wood_and_plant_by_the_odds() {
    for food in [Species::Wood, Species::Plant] {
        for seed in 0..100u32 {
            let config = Config { mite_feed: 128, fungus_spread: 0, ..Config::standard() };
            let mut u = Universe::with_config(3, 1, config, seed).unwrap();
            u.set_cell(0, 0, Species::Stone, 0, 0);
            u.set_cell(1, 0, Species::Mite, 3, 4);
            u.set_cell(2, 0, food, 0, 0);
            u.tick();
            assert_eq!(u.get_cell(1, 0), Cell { species: Species::Mite, ra: 3, rb: 4 });
            if chance(noise(seed, 1, 0), 128) {
                assert_eq!(u.get_cell(2, 0), Cell::empty());
            } else {
                assert_eq!(u.get_cell(2, 0).species, food);
            }
        }
    }
}

#[test]
fn a_mite_changes_places_with_ice_and_dust() {
    for ground in [Species::Ice, Species::Dust] {
        let fasting = Config { mite_feed: 0, ice_freeze: 0, ..Config::standard() };
        let mut u = Universe::with_config(3, 1, fasting, 1).unwrap();
        u.set_cell(0, 0, Species::Stone, 0, 0);
        u.set_cell(1, 0, Species::Mite, 3, 4);
        u.set_cell(2, 0, ground, 5, 6);
        u.tick();
        assert_eq!(u.get_cell(1, 0), Cell { species: ground, ra: 5, rb: 6 });
        assert_eq!(u.get_cell(2, 0), Cell { species: Species::Mite, ra: 3, rb: 4 });
    }
}

#[test]
fn a_mite_prefers_dust_to_ice_to_empty_space() {
    let fasting = Config { mite_feed: 0, ice_freeze: 0, ..Config::standard() };
    let mut to_dust = 0;
    let mut to_ice = 0;
    let mut to_empty = 0;
    for seed in 0..700u32 {
        let mut u = Universe::with_config(3, 2, fasting, seed).unwrap();
        u.set_cell(1, 1, Species::Mite, 0, 0);
        u.set_cell(0, 1, Species::Dust, 0, 0);
        u.set_cell(2, 1, Species::Ice, 0, 0);
        u.set_cell(0, 0, Species::Wall, 0, 0);
        u.set_cell(2, 0, Species::Wall, 0, 0);
        u.tick();
        if u.get_cell(0, 1).species == Species::Mite {
            to_dust += 1;
        } else if u.get_cell(2, 1).species == Species::Mite {
            to_ice += 1;
        } else {
            assert_eq!(u.get_cell(1, 0).species, Species::Mite);
            to_empty += 1;
        }
    }
    assert_eq!(to_dust + to_ice + to_empty, 700);
    assert!(to_dust > to_ice && to_ice > to_empty);
    assert!(to_dust > 330 && to_dust < 470);
    assert!(to_ice > 150 && to_ice < 250);
    assert!(to_empty > 60 && to_empty < 140);
}

#[test]
fn a_rocket_flies_straight_until_the_edge() {
    let mut u = Universe::new(3, 4).unwrap();
    u.set_cell(1, 3, Species::Rocket, 5, 0);
    for n in 1..=3 {
        u.tick();
        for y in 0..4 {
            for x in 0..3 {
                let expected = if (x, y) == (1, 3 - n) { Species::Rocket } else { E };
                assert_eq!(u.get_cell(x, y).species, expected);
            }
        }
    }
    u.tick();
    assert_eq!(u.get_cell(1, 0), Cell { species: Species::Rocket, ra: 5, rb: 0 });
}

#[test]
fn the_direction_of_a_rocket_is_its_second_byte() {
    let ways = [(0, -1), (1, -1), (1, 0), (1, 1), (0, 1), (-1, 1), (-1, 0), (-1, -1)];
    for rb in 0..16u8 {
        let mut u = Universe::new(5, 5).unwrap();
        u.set_cell(2, 2, Species::Rocket, 0, rb);
        u.tick();
        let (dx, dy) = ways[(rb % 8) as usize];
        assert_eq!(u.get_cell(2 + dx, 2 + dy), Cell { species: Species::Rocket, ra: 0, rb });
        assert_eq!(u.get_cell(2, 2).species, E);
    }
}

#[test]
fn a_rocket_stays_before_a_wall() {
    let mut u = Universe::new(1, 3).unwrap();
    u.set_cell(0, 0, Species::Wall, 0, 0);
    u.set_cell(0, 1, Species::Rocket, 0, 0);
    for _ in 0..3 {
        u.tick();
        assert_eq!(u.get_cell(0, 1).species, Species::Rocket);
        assert_eq!(u.get_cell(0, 0).species, Species::Wall);
    }
}

#[test]
fn a_rocket_bursts_into_copies_of_what_it_hits() {
    let quiet = Config { blast_radius: 2, ..Config::standard() };
    let mut u = Universe::with_config(7, 7, quiet, 9).unwrap();
    u.set_cell(3, 3, Species::Rocket, 0, 0);
    u.set_cell(3, 2, Species::Stone, 0, 0);
    u.set_cell(4, 3, Species::Wall, 1, 2);
    u.clear_marks();
    let mut probe = Universe::with_config(7, 7, quiet, 9).unwrap();
    probe.set_cell(3, 3, Species::Rocket, 0, 0);
    probe.set_cell(3, 2, Species::Stone, 0, 0);
    probe.set_cell(4, 3, Species::Wall, 1, 2);
    probe.clear_marks();
    probe.turn(3, 3);
    for y in 0..7 {
        for x in 0..7 {
            let dx = x - 3;
            let dy = y - 3;
            let c = probe.get_cell(x, y);
            if (x, y) == (3, 3) {
                assert_eq!(c, Cell::empty());
            } else if (x, y) == (4, 3) {
                assert_eq!(c, Cell { species: Species::Wall, ra: 1, rb: 2 });
            } else if dx * dx + dy * dy <= 4 {
                assert_eq!(c, fresh(Species::Stone, noise(9, x as u32, y as u32)));
                assert!(probe.is_marked(x, y));
            } else {
                assert_eq!(c, Cell::empty());
                assert!(!probe.is_marked(x, y));
            }
        }
    }
    u.tick();
    assert_eq!(u.get_cell(3, 3), Cell::empty());
    assert_eq!(u.get_cell(4, 3).species, Species::Wall);
    assert_eq!(u.get_cell(1, 3).species, Species::Stone);
    assert_eq!(u.get_cell(3, 1).species, Species::Stone);
    assert_eq!(u.get_cell(3, 5).species, Species::Stone);
    assert_eq!(u.get_cell(0, 3).species, E);
}

#[test]
fn the_second_byte_of_the_draw_picks_where_a_search_starts() {
    let mut u = Universe::new(3, 3).unwrap();
    u.set_cell(1, 1, Species::Plant, 0, 0);
    u.set_cell(1, 2, Species::Wall, 0, 0);
    u.set_cell(0, 2, Species::Wall, 0, 0);
    u.set_cell(2, 2, Species::Wall, 0, 0);
    u.set_cell(0, 1, Species::Wall, 0, 0);
    u.set_cell(2, 1, Species::Water, 0, 0);
    u.set_cell(2, 2, Species::Wall, 0, 0);
    u.clear_marks();
    let r = noise(u.seed(), 1, 1);
    let start = pick(r) % 8;
    let ways = [(0, -1), (1, -1), (1, 0), (1, 1), (0, 1), (-1, 1), (-1, 0), (-1, -1)];
    let mut expected = None;
    for k in 0..8u8 {
        let d = ((start + k) % 8) as usize;
        let (x, y) = (1 + ways[d].0, 1 + ways[d].1);
        if u.get_cell(x, y).species == E {
            expected = Some((x, y));
            break;
        }
    }
    assert_eq!(u.find(1, 1, falling_sand::Kind::Vacant, pick(r)) as usize, {
        let (x, y) = expected.unwrap();
        ways.iter().position(|w| (1 + w.0, 1 + w.1) == (x, y)).unwrap()
    });
    u.turn(1, 1);
    let (x, y) = expected.unwrap();
    assert_eq!(u.get_cell(x, y), fresh(Species::Plant, r));
}
