//! Unit tests of target selection, move scoring, and the random source.

use living_world::config::{SimConfig, Species};
use living_world::creature::{Activity, Creature};
use living_world::grid::Grid;
use living_world::movement::choose_step;
use living_world::rng::SimRng;
use living_world::target::{
    manhattan, select_target, Cell, CreatureView, Target, TargetKind,
};

fn actor(x: i32, y: i32, species: Species, is_adult: bool, hunger_milli: i64) -> Creature {
    Creature {
        id: 1,
        x,
        y,
        species,
        age_ms: if is_adult { 1_000_000 } else { 0 },
        is_adult,
        hunger_milli,
        scared_of_water: true,
        altruistic: false,
        last_x: x,
        last_y: y,
        sight_range: 10,
        state: Activity::Active,
        cooldown_ms: 0,
        move_elapsed_ms: 0,
        dead: false,
    }
}

fn seen(x: i32, y: i32, species: Species, is_adult: bool) -> CreatureView {
    CreatureView { x, y, species, is_adult, alive: true }
}

#[test]
fn manhattan_distance_is_exact() {
    assert_eq!(manhattan(0, 0, 3, 4), 7);
    assert_eq!(manhattan(-2, 5, 1, -1), 9);
    assert_eq!(manhattan(7, 7, 7, 7), 0);
}

#[test]
fn desperate_predator_prefers_the_plant() {
    let cfg = SimConfig::default();
    let me = actor(0, 0, Species::Predator, true, 75_000);
    let views = vec![seen(0, 0, Species::Predator, true), seen(2, 0, Species::Herbivore, true)];
    let plants = vec![Cell { x: 0, y: 2 }];
    let t = select_target(&me, 0, &views, &plants, &cfg).unwrap();
    assert!(matches!(t.kind, TargetKind::Food));
    assert_eq!((t.x, t.y), (0, 2));
    assert_eq!(t.weight, 80);
}

#[test]
fn desperate_predator_without_plants_hunts_at_suppressed_weight() {
    let cfg = SimConfig::default();
    let me = actor(0, 0, Species::Predator, true, 75_000);
    let views = vec![seen(0, 0, Species::Predator, true), seen(2, 0, Species::Herbivore, true)];
    let plants: Vec<Cell> = Vec::new();
    let t = select_target(&me, 0, &views, &plants, &cfg).unwrap();
    assert!(matches!(t.kind, TargetKind::Hunt));
    assert_eq!((t.x, t.y), (2, 0));
    assert_eq!(t.weight, 50);
}

#[test]
fn hungry_adult_predator_hunts_nearest_prey() {
    let cfg = SimConfig::default();
    let me = actor(0, 0, Species::Predator, true, 60_000);
    let views = vec![
        seen(0, 0, Species::Predator, true),
        seen(4, 0, Species::Herbivore, true),
        seen(2, 0, Species::Herbivore, false),
    ];
    let plants: Vec<Cell> = Vec::new();
    let t = select_target(&me, 0, &views, &plants, &cfg).unwrap();
    assert!(matches!(t.kind, TargetKind::Hunt));
    assert_eq!((t.x, t.y), (2, 0));
    assert_eq!(t.weight, 20);
}

#[test]
fn baby_predator_never_hunts_but_may_forage() {
    let cfg = SimConfig::default();
    let me = actor(0, 0, Species::Predator, false, 60_000);
    let views = vec![seen(0, 0, Species::Predator, false), seen(2, 0, Species::Herbivore, true)];
    let plants = vec![Cell { x: 0, y: 3 }];
    let t = select_target(&me, 0, &views, &plants, &cfg).unwrap();
    assert!(matches!(t.kind, TargetKind::Food));
    assert_eq!((t.x, t.y), (0, 3));
    assert_eq!(t.weight, 20);
}

#[test]
fn full_ready_herbivore_seeks_nearest_mate() {
    let cfg = SimConfig::default();
    let me = actor(0, 0, Species::Herbivore, true, 5_000);
    let views = vec![
        seen(0, 0, Species::Herbivore, true),
        seen(5, 0, Species::Herbivore, true),
        seen(0, 3, Species::Herbivore, true),
        seen(0, 1, Species::Herbivore, true),
    ];
    let plants: Vec<Cell> = Vec::new();
    let t = select_target(&me, 0, &views, &plants, &cfg).unwrap();
    assert!(matches!(t.kind, TargetKind::Mate));
    // The adjacent one is too close to be a mate target; the nearest
    // beyond one step wins.
    assert_eq!((t.x, t.y), (0, 3));
    assert_eq!(t.weight, 20);
}

#[test]
fn hungry_herbivore_seeks_food_not_mates() {
    let cfg = SimConfig::default();
    let me = actor(0, 0, Species::Herbivore, true, 35_000);
    let views = vec![seen(0, 0, Species::Herbivore, true), seen(0, 3, Species::Herbivore, true)];
    let plants = vec![Cell { x: 4, y: 0 }, Cell { x: 2, y: 0 }];
    let t = select_target(&me, 0, &views, &plants, &cfg).unwrap();
    assert!(matches!(t.kind, TargetKind::Food));
    assert_eq!((t.x, t.y), (2, 0));
}

#[test]
fn herbivore_flees_adult_predator_over_everything() {
    let cfg = SimConfig::default();
    let me = actor(0, 0, Species::Herbivore, true, 35_000);
    let views = vec![
        seen(0, 0, Species::Herbivore, true),
        seen(3, 0, Species::Predator, true),
        seen(-4, 0, Species::Predator, false),
    ];
    let plants = vec![Cell { x: 1, y: 0 }];
    let t = select_target(&me, 0, &views, &plants, &cfg).unwrap();
    assert!(matches!(t.kind, TargetKind::Flee));
    assert_eq!((t.x, t.y), (3, 0));
}

#[test]
fn baby_predators_are_no_threat() {
    let cfg = SimConfig::default();
    let me = actor(0, 0, Species::Herbivore, true, 0);
    let views = vec![seen(0, 0, Species::Herbivore, true), seen(2, 0, Species::Predator, false)];
    let plants: Vec<Cell> = Vec::new();
    let t = select_target(&me, 0, &views, &plants, &cfg);
    assert!(t.is_none());
}

#[test]
fn ready_predator_prefers_mate_over_prey() {
    let cfg = SimConfig::default();
    let me = actor(0, 0, Species::Predator, true, 30_000);
    let views = vec![
        seen(0, 0, Species::Predator, true),
        seen(0, 4, Species::Predator, true),
        seen(2, 0, Species::Herbivore, true),
    ];
    let plants: Vec<Cell> = Vec::new();
    let t = select_target(&me, 0, &views, &plants, &cfg).unwrap();
    assert!(matches!(t.kind, TargetKind::Mate));
    assert_eq!((t.x, t.y), (0, 4));
    assert_eq!(t.weight, 60);
}

#[test]
fn step_pulls_toward_a_food_target() {
    let g = Grid::new(16);
    let me = actor(0, 0, Species::Herbivore, true, 35_000);
    let target = Some(Target { x: 3, y: 0, kind: TargetKind::Food, weight: 20 });
    let step = choose_step(&me, &g, target, 0, 0, 0, 0);
    assert_eq!(step, (1, 0));
}

#[test]
fn step_pushes_away_from_a_flee_target() {
    let g = Grid::new(16);
    let me = actor(0, 0, Species::Herbivore, true, 0);
    let target = Some(Target { x: 3, y: 0, kind: TargetKind::Flee, weight: 20 });
    let step = choose_step(&me, &g, target, 0, 0, 0, 0);
    // Three of the four steps widen the distance and tie; the first in
    // scan order wins.  Only stepping right (toward the threat) loses.
    assert_eq!(step, (0, 1));
    let step = choose_step(&me, &g, target, 0, 0, 0, 19);
    assert_ne!(step, (1, 0));
}

#[test]
fn fearful_creature_avoids_water() {
    let mut g = Grid::new(16);
    let mut me = actor(0, 0, Species::Herbivore, true, 35_000);
    me.last_x = 5;
    me.last_y = 5;
    let target = Some(Target { x: 3, y: 0, kind: TargetKind::Food, weight: 20 });
    g.set_terrain(1, 0, living_world::config::Terrain::Water);
    let step = choose_step(&me, &g, target, 0, 0, 0, 0);
    // The direct step toward the target is flooded; with equal scores
    // elsewhere, the first candidate in scan order wins.
    assert_eq!(step, (0, 1));
}

#[test]
fn backtracking_costs_thirty_points() {
    let g = Grid::new(16);
    let mut me = actor(0, 0, Species::Herbivore, true, 0);
    me.last_x = 0;
    me.last_y = 1;
    // With equal random terms the previous cell loses its tie: the next
    // candidate in scan order wins.
    let step = choose_step(&me, &g, None, 7, 7, 7, 7);
    assert_eq!(step, (0, -1));
    // A strong enough pull through the previous cell overcomes the
    // penalty: toward (0, 3), stepping down scores -30 + 20 against -20
    // for every step away.
    let target = Some(Target { x: 0, y: 3, kind: TargetKind::Food, weight: 20 });
    let step = choose_step(&me, &g, target, 0, 0, 0, 0);
    assert_eq!(step, (0, 1));
}

#[test]
fn cornered_creature_stays_on_the_grid() {
    let g = Grid::new(4);
    let mut me = actor(-4, -4, Species::Herbivore, true, 0);
    me.last_x = -3;
    me.last_y = -4;
    for r in 0..20i64 {
        let step = choose_step(&me, &g, None, r % 20, (r + 7) % 20, (r + 13) % 20, (r + 3) % 20);
        let (nx, ny) = (me.x + step.0, me.y + step.1);
        assert!((-4..4).contains(&nx) && (-4..4).contains(&ny));
    }
}

#[test]
fn first_candidate_wins_ties() {
    let g = Grid::new(16);
    let me = actor(0, 0, Species::Herbivore, true, 0);
    // All four candidates score identically: the scan order down, up,
    // left, right makes "down" the winner.
    let step = choose_step(&me, &g, None, 7, 7, 7, 7);
    assert_eq!(step, (0, 1));
}

#[test]
fn random_draws_stay_below_their_bound() {
    let mut rng = SimRng::new(123);
    for n in 1..50u64 {
        for _ in 0..20 {
            assert!(rng.below(n) < n);
        }
    }
}

#[test]
fn chance_extremes_are_certain() {
    let mut rng = SimRng::new(99);
    for _ in 0..100 {
        assert!(rng.chance_ppm(1_000_000));
        assert!(!rng.chance_ppm(0));
    }
}

#[test]
fn equal_seeds_replay_equal_draws() {
    let mut a = SimRng::new(42);
    let mut b = SimRng::new(42);
    for _ in 0..100 {
        assert_eq!(a.next_u64(), b.next_u64());
    }
    let mut c = SimRng::new(43);
    let mut any_diff = false;
    for _ in 0..10 {
        if SimRng::new(42).next_u64() != c.next_u64() {
            any_diff = true;
        }
    }
    assert!(any_diff);
}

#[test]
fn entropy_seeding_produces_a_working_source() {
    let mut rng = SimRng::from_entropy();
    for n in 1..20u64 {
        assert!(rng.below(n) < n);
    }
}
