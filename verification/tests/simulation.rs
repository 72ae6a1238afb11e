//! End-to-end scenarios of the tick engine.

use living_world::config::{SimConfig, Species, Terrain};
use living_world::creature::{Activity, Creature};
use living_world::environment::{plant_growth_attempt, Plant, Soil};
use living_world::rng::SimRng;
use living_world::world::World;

/// A configuration whose move intervals are so long that nothing moves
/// within a test, keeping scenarios deterministic.
fn still_config() -> SimConfig {
    let mut cfg = SimConfig::default();
    cfg.base_move_ms = 86_400_000;
    cfg.reproduction_move_ms = 86_400_000;
    cfg.plant_spawn_chance_ppm = 0;
    cfg.herbivore.starting_count = 0;
    cfg.predator.starting_count = 0;
    cfg
}

fn creature(id: u64, x: i32, y: i32, species: Species, is_adult: bool, hunger_milli: i64) -> Creature {
    Creature {
        id,
        x,
        y,
        species,
        age_ms: if is_adult { 1_000_000 } else { 0 },
        is_adult,
        hunger_milli,
        scared_of_water: true,
        altruistic: false,
        last_x: x,
        last_y: y,
        sight_range: 10,
        state: Activity::Active,
        cooldown_ms: 0,
        move_elapsed_ms: 0,
        dead: false,
    }
}

fn still_world() -> World {
    let mut w = World::new(still_config());
    w.next_id = 100;
    w
}

#[test]
fn scenario_full_herbivore_waits_then_eats() {
    let mut w = still_world();
    w.creatures.push(creature(1, 0, 0, Species::Herbivore, true, 0));
    w.plants.push(Plant { x: 0, y: 0, dead: false });
    let mut rng = SimRng::new(7);

    // Hunger 0 is below the eat threshold of 5 points: the plant stands.
    w.tick(1_000, &mut rng);
    assert_eq!(w.plants.len(), 1);
    assert_eq!(w.creatures[0].hunger_milli, 3_300);

    // After another second the burn passes the threshold: the creature
    // eats, hunger resets, the plant is gone, exhausted soil appears.
    w.tick(1_000, &mut rng);
    assert_eq!(w.creatures[0].hunger_milli, 0);
    assert_eq!(w.plants.len(), 0);
    assert_eq!(w.soils.len(), 1);
    assert_eq!(w.soils[0].x, 0);
    assert_eq!(w.soils[0].y, 0);
}

#[test]
fn scenario_predation_overheal_and_digestion() {
    let mut w = still_world();
    w.creatures.push(creature(1, 5, 5, Species::Predator, true, 50_000));
    w.creatures.push(creature(2, 5, 5, Species::Herbivore, true, 10_000));
    let mut rng = SimRng::new(7);

    w.tick(1, &mut rng);
    assert_eq!(w.creature_count(), 1);
    assert_eq!(w.creatures[0].id, 1);
    assert_eq!(w.creatures[0].hunger_milli, -5_000);
    assert!(matches!(w.creatures[0].state, Activity::Digesting));
}

#[test]
fn scenario_certain_reproduction_and_cooldown() {
    let mut cfg = still_config();
    cfg.herbivore.reproduction_chance_ppm = 1_000_000;
    cfg.herbivore.reproduction_cooldown_ms = 2_000;
    let mut w = World::new(cfg);
    w.next_id = 100;
    w.creatures.push(creature(1, 0, 0, Species::Herbivore, true, 0));
    w.creatures.push(creature(2, 0, 1, Species::Herbivore, true, 0));
    let mut rng = SimRng::new(7);

    // With probability one, the first tick bears exactly one baby.
    w.tick(1_000, &mut rng);
    assert_eq!(w.creature_count(), 3);
    assert_eq!(w.population_stats().herbivore.born, 1);
    assert_eq!(w.creatures[0].cooldown_ms, 2_000);
    assert_eq!(w.creatures[1].cooldown_ms, 2_000);
    let baby = w.creatures[2];
    assert_eq!((baby.x, baby.y), (0, 0));
    assert!(!baby.is_adult);
    assert_eq!(baby.age_ms, 0);
    assert_eq!(baby.hunger_milli, 0);
    assert_eq!(baby.cooldown_ms, 0);
    // The baby inherits the first parent's traits and the species' sight.
    assert_eq!(baby.scared_of_water, w.creatures[0].scared_of_water);
    assert_eq!(baby.altruistic, w.creatures[0].altruistic);
    assert_eq!(baby.sight_range, w.config.herbivore.sight_range);
    // Its identity is fresh: no other creature carries it.
    assert!(w.creatures.iter().filter(|c| c.id == baby.id).count() == 1);

    // No further birth while the cooldown runs.
    w.tick(1_000, &mut rng);
    assert_eq!(w.creature_count(), 3);
    assert_eq!(w.population_stats().herbivore.born, 1);

    // Once it expires, the pair conceives again.
    w.tick(1_000, &mut rng);
    assert_eq!(w.creature_count(), 4);
    assert_eq!(w.population_stats().herbivore.born, 2);
}

#[test]
fn scenario_flooded_cell_drowns_fearful_and_fearless_alike() {
    let mut w = still_world();
    let mut fearful = creature(1, 2, 2, Species::Herbivore, true, 0);
    fearful.scared_of_water = true;
    let mut fearless = creature(2, 2, 2, Species::Herbivore, true, 0);
    fearless.scared_of_water = false;
    w.creatures.push(fearful);
    w.creatures.push(fearless);
    let mut rng = SimRng::new(7);

    w.set_terrain(2, 2, Terrain::Water);
    w.tick(1, &mut rng);
    assert_eq!(w.creature_count(), 0);
}

#[test]
fn blocked_or_cooling_pairs_never_conceive() {
    let mut cfg = still_config();
    cfg.herbivore.reproduction_chance_ppm = 1_000_000;
    let mut w = World::new(cfg);
    w.next_id = 100;
    let mut a = creature(1, 0, 0, Species::Herbivore, true, 0);
    a.cooldown_ms = 50_000;
    let b = creature(2, 0, 1, Species::Herbivore, true, 0);
    w.creatures.push(a);
    w.creatures.push(b);
    let mut rng = SimRng::new(7);
    w.tick(100, &mut rng);
    assert_eq!(w.creature_count(), 2);
    assert_eq!(w.population_stats().herbivore.born, 0);

    // A digesting partner blocks conception just as well.
    w.creatures[0].cooldown_ms = 0;
    w.creatures[0].state = Activity::Digesting;
    w.creatures[0].hunger_milli = -5_000;
    w.tick(1, &mut rng);
    assert_eq!(w.population_stats().herbivore.born, 0);

    // An overfed partner, too.
    w.creatures[0].state = Activity::Overfed { remaining_ms: 60_000 };
    w.creatures[0].hunger_milli = 0;
    w.tick(1, &mut rng);
    assert_eq!(w.population_stats().herbivore.born, 0);
}

#[test]
fn baby_predator_cannot_kill_colocated_prey() {
    let mut w = still_world();
    w.creatures.push(creature(1, 5, 5, Species::Predator, false, 50_000));
    w.creatures.push(creature(2, 5, 5, Species::Herbivore, true, 10_000));
    let mut rng = SimRng::new(7);

    w.tick(1, &mut rng);
    assert_eq!(w.creature_count(), 2);
    assert!(!matches!(w.creatures[0].state, Activity::Digesting));
    assert!(w.creatures[0].hunger_milli > 0);
}

#[test]
fn water_round_trip_restores_growth_ground() {
    let mut w = still_world();
    w.plants.push(Plant { x: 1, y: 1, dead: false });
    w.soils.push(Soil { x: 1, y: 1, remaining_ms: 5_000 });

    // A growth attempt on an occupied cell fails.
    plant_growth_attempt(&mut w.plants, &w.soils, &w.grid, 1, 1);
    assert_eq!(w.plants.len(), 1);

    // Flooding the cell clears its plant and its soil marker.
    w.set_terrain(1, 1, Terrain::Water);
    assert_eq!(w.plants.len(), 0);
    assert_eq!(w.soils.len(), 0);

    // Under water nothing grows; back on land the cell is fertile again.
    plant_growth_attempt(&mut w.plants, &w.soils, &w.grid, 1, 1);
    assert_eq!(w.plants.len(), 0);
    w.set_terrain(1, 1, Terrain::Land);
    plant_growth_attempt(&mut w.plants, &w.soils, &w.grid, 1, 1);
    assert_eq!(w.plants.len(), 1);
    assert!(!w.plants[0].dead);
    assert_eq!((w.plants[0].x, w.plants[0].y), (1, 1));
}

#[test]
fn digesting_creature_never_moves() {
    let mut cfg = still_config();
    cfg.base_move_ms = 200;
    cfg.reproduction_move_ms = 500;
    let mut w = World::new(cfg);
    w.next_id = 100;
    let mut wolf = creature(1, 3, 3, Species::Predator, true, -5_000);
    wolf.state = Activity::Digesting;
    w.creatures.push(wolf);
    let mut rng = SimRng::new(7);

    // Overheal burns off at 4.95 points per second; still digesting.
    w.tick(1_000, &mut rng);
    assert_eq!((w.creatures[0].x, w.creatures[0].y), (3, 3));
    assert!(matches!(w.creatures[0].state, Activity::Digesting));

    // Hunger crosses zero: digestion hands over to overfed, still unmoved.
    w.tick(1_000, &mut rng);
    assert_eq!((w.creatures[0].x, w.creatures[0].y), (3, 3));
    assert!(matches!(w.creatures[0].state, Activity::Overfed { .. }));
}

#[test]
fn berry_stunned_creature_never_moves() {
    let mut cfg = still_config();
    cfg.base_move_ms = 200;
    let mut w = World::new(cfg);
    w.next_id = 100;
    let mut wolf = creature(1, 4, 4, Species::Predator, true, 20_000);
    wolf.state = Activity::BerryStunned { remaining_ms: 1_000 };
    w.creatures.push(wolf);
    let mut rng = SimRng::new(7);

    w.tick(400, &mut rng);
    assert_eq!((w.creatures[0].x, w.creatures[0].y), (4, 4));
    assert!(matches!(w.creatures[0].state, Activity::BerryStunned { .. }));

    // The stun expires this tick; the creature wakes but does not move yet.
    w.tick(600, &mut rng);
    assert_eq!((w.creatures[0].x, w.creatures[0].y), (4, 4));
    assert!(matches!(w.creatures[0].state, Activity::Active));
}

#[test]
fn starvation_reaps_at_the_cap() {
    let mut w = still_world();
    w.creatures.push(creature(1, 0, 0, Species::Herbivore, true, 99_000));
    let mut rng = SimRng::new(7);

    // 3.3 points per second: one more second is fatal.
    w.tick(1_000, &mut rng);
    assert_eq!(w.creature_count(), 0);
}

#[test]
fn hunger_only_rises_without_food() {
    let mut w = still_world();
    w.creatures.push(creature(1, 0, 0, Species::Herbivore, true, 0));
    let mut rng = SimRng::new(7);
    let mut last = 0i64;
    for _ in 0..10 {
        w.tick(500, &mut rng);
        let h = w.creatures[0].hunger_milli;
        assert!(h >= last);
        assert!((-5_000..=100_000).contains(&h));
        last = h;
    }
}

#[test]
fn soil_markers_decay_and_free_the_cell() {
    let mut w = still_world();
    w.soils.push(Soil { x: 2, y: 3, remaining_ms: 1_000 });
    let mut rng = SimRng::new(7);

    w.tick(600, &mut rng);
    assert_eq!(w.soil_count(), 1);
    assert_eq!(w.soils[0].remaining_ms, 400);

    w.tick(600, &mut rng);
    assert_eq!(w.soil_count(), 0);
    plant_growth_attempt(&mut w.plants, &w.soils, &w.grid, 2, 3);
    assert_eq!(w.plant_count(), 1);
}

#[test]
fn predator_forage_rules_gate_plant_eating() {
    // An adult predator at middling hunger may not eat plants.
    let mut w = still_world();
    w.creatures.push(creature(1, 0, 0, Species::Predator, true, 40_000));
    w.plants.push(Plant { x: 0, y: 0, dead: false });
    let mut rng = SimRng::new(7);
    w.tick(1, &mut rng);
    assert_eq!(w.plant_count(), 1);
    assert!(w.creatures[0].hunger_milli > 0);

    // Desperate (at or above 70 points) it eats and is berry-stunned for
    // twice the base move interval.
    w.creatures[0].hunger_milli = 75_000;
    w.tick(1, &mut rng);
    assert_eq!(w.plant_count(), 0);
    assert_eq!(w.creatures[0].hunger_milli, 0);
    // The stun of two base move intervals was set in the eating pass and
    // this tick's movement pass already counted one millisecond off it.
    let expected = 2 * w.config.base_move_ms - 1;
    assert!(
        matches!(w.creatures[0].state, Activity::BerryStunned { remaining_ms } if remaining_ms == expected)
    );
    assert_eq!(w.soil_count(), 1);
}

#[test]
fn altruistic_herbivore_abstains_near_kin() {
    let mut w = still_world();
    let mut a = creature(1, 0, 0, Species::Herbivore, true, 10_000);
    a.altruistic = true;
    let b = creature(2, 0, 3, Species::Herbivore, true, 0);
    w.creatures.push(a);
    w.creatures.push(b);
    w.plants.push(Plant { x: 0, y: 0, dead: false });
    let mut rng = SimRng::new(7);

    // Kin within sight: the altruist leaves the plant alone.
    w.tick(1, &mut rng);
    assert_eq!(w.plant_count(), 1);

    // The same creature without kin around eats at once.
    w.creatures.remove(1);
    w.tick(1, &mut rng);
    assert_eq!(w.plant_count(), 0);
    assert_eq!(w.creatures[0].hunger_milli, 0);
}
