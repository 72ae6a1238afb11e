//! Tests of construction, configuration, terrain, and the exported
//! counters.

use living_world::config::{SimConfig, Species, Terrain};
use living_world::creature::{Activity, Creature};
use living_world::world::World;

fn someone(id: u64, is_adult: bool, hunger_milli: i64) -> Creature {
    Creature {
        id,
        x: 0,
        y: 0,
        species: Species::Herbivore,
        age_ms: 0,
        is_adult,
        hunger_milli,
        scared_of_water: true,
        altruistic: false,
        last_x: 0,
        last_y: 0,
        sight_range: 8,
        state: Activity::Active,
        cooldown_ms: 0,
        move_elapsed_ms: 0,
        dead: false,
    }
}

#[test]
fn stock_configuration_matches_the_reference_tuning() {
    let cfg = SimConfig::default();
    assert_eq!(cfg.map_size, 20);
    assert_eq!(cfg.plant_spawn_chance_ppm, 50_000);
    assert_eq!(cfg.soil_exhaust_ms, 10_000);
    assert_eq!(cfg.base_move_ms, 200);
    assert_eq!(cfg.reproduction_move_ms, 500);
    assert_eq!(cfg.overfed_move_multiplier_tenths, 66);
    assert_eq!(cfg.overfed_duration_ms, 5_000);
    assert_eq!(cfg.hunger_starve_milli, 100_000);
    assert_eq!(cfg.eat_skip_below_milli, 5_000);
    assert_eq!(cfg.herbivore_burn_adult_milli, 3_300);
    assert_eq!(cfg.herbivore_burn_baby_milli, 1_650);
    assert_eq!(cfg.predator_burn_adult_milli, 4_950);
    assert_eq!(cfg.predator_burn_baby_milli, 2_475);
    assert_eq!(cfg.kill_overheal_milli, -5_000);
    assert_eq!(cfg.predator_berry_stun_ticks, 2);
    assert_eq!(cfg.predator_low_health_milli, 70_000);
    assert_eq!(cfg.predator_low_health_weight_fruit, 80);
    assert_eq!(cfg.predator_low_health_weight_meat, 50);
    assert_eq!(cfg.herbivore.starting_count, 12);
    assert_eq!(cfg.herbivore.adult_ms, 10_000);
    assert_eq!(cfg.herbivore.reproduction_chance_ppm, 100_000);
    assert_eq!(cfg.herbivore.reproduction_cooldown_ms, 30_000);
    assert_eq!(cfg.herbivore.sight_range, 8);
    assert_eq!(cfg.predator.starting_count, 4);
    assert_eq!(cfg.predator.adult_ms, 20_000);
    assert_eq!(cfg.predator.reproduction_chance_ppm, 100_000);
    assert_eq!(cfg.predator.reproduction_cooldown_ms, 70_000);
    assert_eq!(cfg.predator.sight_range, 10);
}

#[test]
fn fresh_world_spawns_the_starting_populations() {
    let w = World::new(SimConfig::default());
    assert_eq!(w.creature_count(), 16);
    assert_eq!(w.species_count(Species::Herbivore), 12);
    assert_eq!(w.species_count(Species::Predator), 4);
    assert_eq!(w.plant_count(), 0);
    assert_eq!(w.soil_count(), 0);
    let stats = w.population_stats();
    assert_eq!(stats.herbivore.born, 0);
    assert_eq!(stats.herbivore.total_ever, 12);
    assert_eq!(stats.predator.born, 0);
    assert_eq!(stats.predator.total_ever, 4);
    let (adults, babies) = w.demographics();
    assert_eq!(adults, 0);
    assert_eq!(babies, 16);
    for c in &w.creatures {
        assert!((-20..20).contains(&c.x) && (-20..20).contains(&c.y));
        assert_eq!(c.hunger_milli, 0);
        assert!(matches!(c.state, Activity::Active));
    }
}

#[test]
fn terrain_edits_read_back() {
    let mut w = World::new(SimConfig::default());
    assert!(matches!(w.terrain_at(3, -7), Terrain::Land));
    w.set_terrain(3, -7, Terrain::Water);
    assert!(matches!(w.terrain_at(3, -7), Terrain::Water));
    assert!(matches!(w.terrain_at(3, -6), Terrain::Land));
    w.set_terrain(3, -7, Terrain::Land);
    assert!(matches!(w.terrain_at(3, -7), Terrain::Land));
    // Edits outside the grid are ignored.
    w.set_terrain(1_000, 1_000, Terrain::Water);
    assert!(matches!(w.terrain_at(1_000, 1_000), Terrain::Land));
}

#[test]
fn health_buckets_split_on_the_documented_thresholds() {
    let mut w = World::new(SimConfig::default());
    w.creatures.clear();
    w.next_id = 100;
    w.creatures.push(someone(1, true, 0));
    w.creatures.push(someone(2, true, 50_000));
    w.creatures.push(someone(3, false, 50_001));
    w.creatures.push(someone(4, false, 90_000));
    w.creatures.push(someone(5, true, 90_001));
    w.creatures.push(someone(6, true, 100_000));
    let (healthy, hungry, critical) = w.health_buckets();
    assert_eq!(healthy, 2);
    assert_eq!(hungry, 2);
    assert_eq!(critical, 2);
    let (adults, babies) = w.demographics();
    assert_eq!(adults, 4);
    assert_eq!(babies, 2);
}

#[test]
fn configuration_edits_clamp_their_values() {
    let mut w = World::new(SimConfig::default());
    w.set_plant_spawn_chance_ppm(2_000_000);
    assert_eq!(w.config.plant_spawn_chance_ppm, 1_000_000);
    w.set_plant_spawn_chance_ppm(30_000);
    assert_eq!(w.config.plant_spawn_chance_ppm, 30_000);

    w.set_adult_ms(Species::Herbivore, 0);
    assert_eq!(w.config.herbivore.adult_ms, 1_000);
    w.set_adult_ms(Species::Predator, 50_000_000);
    assert_eq!(w.config.predator.adult_ms, 600_000);
    w.set_adult_ms(Species::Predator, 15_000);
    assert_eq!(w.config.predator.adult_ms, 15_000);

    w.set_starting_count(Species::Herbivore, 9_999);
    assert_eq!(w.config.herbivore.starting_count, 200);
    w.set_starting_count(Species::Predator, 7);
    assert_eq!(w.config.predator.starting_count, 7);
}

#[test]
fn elapsed_time_accumulates_over_ticks() {
    let mut w = World::new(SimConfig::default());
    w.creatures.clear();
    let mut rng = living_world::rng::SimRng::new(5);
    w.tick(1_000, &mut rng);
    w.tick(250, &mut rng);
    assert_eq!(w.elapsed_ms, 1_250);
}

#[test]
fn maturation_crosses_the_configured_age() {
    let mut cfg = SimConfig::default();
    cfg.base_move_ms = 86_400_000;
    cfg.reproduction_move_ms = 86_400_000;
    cfg.plant_spawn_chance_ppm = 0;
    cfg.herbivore.starting_count = 1;
    cfg.predator.starting_count = 0;
    let mut w = World::new(cfg);
    let mut rng = living_world::rng::SimRng::new(5);
    for _ in 0..10 {
        assert!(!w.creatures[0].is_adult);
        w.tick(1_000, &mut rng);
    }
    // Adulthood requires strictly more than 10 seconds of age.
    assert!(!w.creatures[0].is_adult);
    w.tick(1_000, &mut rng);
    assert!(w.creatures[0].is_adult);
}

#[test]
fn predators_start_on_their_posts() {
    let w = World::new(SimConfig::default());
    let coords: Vec<(i32, i32)> = w
        .creatures
        .iter()
        .filter(|c| matches!(c.species, Species::Predator))
        .map(|c| (c.x, c.y))
        .collect();
    assert_eq!(coords, vec![(-6, -6), (-4, -6), (4, -6), (6, -6)]);
}
