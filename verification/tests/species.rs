use falling_sand::species::SPECIES_COUNT;
use falling_sand::{Cell, Class, Kind, Species};

const ALL: [Species; 19] = [
    Species::Empty,
    Species::Wall,
    Species::Sand,
    Species::Water,
    Species::Stone,
    Species::Ice,
    Species::Gas,
    Species::Cloner,
    Species::Mite,
    Species::Wood,
    Species::Plant,
    Species::Fungus,
    Species::Seed,
    Species::Fire,
    Species::Lava,
    Species::Acid,
    Species::Dust,
    Species::Oil,
    Species::Rocket,
];

#[test]
fn codes_count_up_in_declaration_order() {
    assert_eq!(SPECIES_COUNT, 19);
    for (i, s) in ALL.iter().enumerate() {
        assert_eq!(s.code() as usize, i);
    }
}

#[test]
fn every_species_is_the_species_of_its_code() {
    for s in ALL.iter() {
        assert!(s.code() < SPECIES_COUNT);
        assert_eq!(Species::from_code(s.code()), *s);
    }
}

#[test]
fn a_byte_that_is_no_code_reads_as_empty() {
    for code in 19..=255u8 {
        assert_eq!(Species::from_code(code), Species::Empty);
    }
    assert_eq!(Species::from_code(0), Species::Empty);
}

#[test]
fn classes_follow_the_table() {
    assert_eq!(Species::Empty.class(), Class::Void);
    for s in [Species::Sand, Species::Dust] {
        assert_eq!(s.class(), Class::Granular);
    }
    for s in [Species::Water, Species::Lava, Species::Acid, Species::Oil] {
        assert_eq!(s.class(), Class::Liquid);
    }
    assert_eq!(Species::Gas.class(), Class::Gas);
    assert_eq!(Species::Fire.class(), Class::Energy);
    for s in [Species::Cloner, Species::Mite, Species::Rocket] {
        assert_eq!(s.class(), Class::Special);
    }
    for s in [
        Species::Wall,
        Species::Stone,
        Species::Ice,
        Species::Wood,
        Species::Plant,
        Species::Fungus,
        Species::Seed,
    ] {
        assert_eq!(s.class(), Class::Static);
    }
}

#[test]
fn sand_is_heavier_than_water_and_lighter_than_lava() {
    assert!(Species::Sand.density() > Species::Water.density());
    assert!(Species::Sand.density() > Species::Oil.density());
    assert!(Species::Sand.density() > Species::Acid.density());
    assert!(Species::Sand.density() < Species::Lava.density());
    assert_eq!(Species::Dust.density(), Species::Sand.density());
    assert_eq!(Species::Empty.density(), 0);
    assert_eq!(Species::Gas.density(), 1);
    assert_eq!(Species::Oil.density(), 2);
    assert_eq!(Species::Water.density(), 3);
    assert_eq!(Species::Sand.density(), 4);
    assert_eq!(Species::Lava.density(), 5);
    assert_eq!(Species::Wall.density(), 6);
}

#[test]
fn only_grains_displace_and_only_lighter_liquids() {
    for mover in ALL.iter() {
        for other in ALL.iter() {
            let expected = *other == Species::Empty
                || ((*mover == Species::Sand || *mover == Species::Dust)
                    && (*other == Species::Water
                        || *other == Species::Oil
                        || *other == Species::Acid));
            assert_eq!(mover.displaces(*other), expected, "{:?} onto {:?}", mover, other);
        }
    }
}

#[test]
fn a_mite_is_lured_by_dust_ice_and_empty_space() {
    for s in ALL.iter() {
        let expected = match s {
            Species::Dust => 4,
            Species::Ice => 2,
            Species::Empty => 1,
            _ => 0,
        };
        assert_eq!(s.lure(), expected);
    }
}

#[test]
fn kinds_hold_the_species_they_name() {
    for s in ALL.iter() {
        let s = *s;
        assert_eq!(Kind::Vacant.holds(s), s == Species::Empty);
        assert_eq!(Kind::Wet.holds(s), s == Species::Water);
        assert_eq!(Kind::Frozen.holds(s), s == Species::Ice);
        assert_eq!(Kind::Mould.holds(s), s == Species::Fungus);
        assert_eq!(Kind::Hot.holds(s), s == Species::Fire || s == Species::Lava);
        assert_eq!(
            Kind::Fuel.holds(s),
            matches!(
                s,
                Species::Wood | Species::Plant | Species::Oil | Species::Gas | Species::Dust
            )
        );
        assert_eq!(Kind::Corrodible.holds(s), s != Species::Empty && s != Species::Wall);
        assert_eq!(Kind::Fodder.holds(s), s == Species::Wood || s == Species::Plant);
        assert_eq!(
            Kind::Host.holds(s),
            s == Species::Wood || s == Species::Plant || s == Species::Empty
        );
        assert_eq!(Kind::Foreign.holds(s), s != Species::Empty && s != Species::Cloner);
    }
}

#[test]
fn cells_are_what_they_are_made_of() {
    assert_eq!(Cell::empty(), Cell { species: Species::Empty, ra: 0, rb: 0 });
    assert_eq!(Cell::wall(), Cell { species: Species::Wall, ra: 0, rb: 0 });
    assert_eq!(Cell::new(Species::Oil, 3, 4), Cell { species: Species::Oil, ra: 3, rb: 4 });
}
