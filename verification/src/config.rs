//! Tunable parameters of the simulation: the species catalog and the
//! world-wide knobs that every system reads.
//!
//! Durations are in milliseconds, hunger quantities in thousandths of a
//! hunger point (so the starvation threshold of 100 points is `100_000`),
//! and probabilities in parts per million.

use vstd::prelude::*;

verus! {

/// The two species of the simulation.
#[derive(Clone, Copy, PartialEq, Eq, Structural, Debug)]
pub enum Species {
    Herbivore,
    Predator,
}

/// What a grid cell is made of.
#[derive(Clone, Copy, PartialEq, Eq, Structural, Debug)]
pub enum Terrain {
    Land,
    Water,
}

/// Per-species tunable parameters.
#[derive(Clone, Copy, PartialEq, Eq, Structural, Debug)]
pub struct SpeciesConfig {
    /// How many individuals the world starts with.
    pub starting_count: u32,
    /// Age at which a baby becomes an adult.
    pub adult_ms: u64,
    /// Probability that an eligible pair conceives, per tick.
    pub reproduction_chance_ppm: u32,
    /// Cooldown both parents carry after a birth.
    pub reproduction_cooldown_ms: u64,
    /// Manhattan radius within which the creature sees others.
    pub sight_range: i32,
}

/// World-wide tunable parameters.
#[derive(Clone, Copy, PartialEq, Eq, Structural, Debug)]
pub struct SimConfig {
    /// Half the side of the square grid; cells span `[-map_size, map_size)`.
    pub map_size: i32,
    /// Probability of one plant-growth attempt succeeding, per tick.
    pub plant_spawn_chance_ppm: u32,
    /// Lifetime of the soil-exhaustion marker left where a plant was eaten.
    pub soil_exhaust_ms: u64,
    /// Base interval between two moves of a creature.
    pub base_move_ms: u64,
    /// Move interval while the creature carries a reproduction cooldown.
    pub reproduction_move_ms: u64,
    /// Move-interval multiplier, in tenths, while overfed.
    pub overfed_move_multiplier_tenths: u64,
    /// How long the overfed state lasts once digestion ends.
    pub overfed_duration_ms: u64,
    /// Hunger at which a creature starves.
    pub hunger_starve_milli: i64,
    /// Below this hunger a creature is full enough to skip eating.
    pub eat_skip_below_milli: i64,
    /// Hunger burn per second for an adult herbivore.
    pub herbivore_burn_adult_milli: i64,
    /// Hunger burn per second for a baby herbivore.
    pub herbivore_burn_baby_milli: i64,
    /// Hunger burn per second for an adult predator.
    pub predator_burn_adult_milli: i64,
    /// Hunger burn per second for a baby predator.
    pub predator_burn_baby_milli: i64,
    /// Hunger a predator is set to right after a kill (the overheal).
    pub kill_overheal_milli: i64,
    /// How many base move intervals a predator is stunned after eating a plant.
    pub predator_berry_stun_ticks: u32,
    /// Hunger at and above which a predator is desperately hungry.
    pub predator_low_health_milli: i64,
    /// Plant-target weight for a desperately hungry predator.
    pub predator_low_health_weight_fruit: i64,
    /// Prey-target weight for a desperately hungry predator.
    pub predator_low_health_weight_meat: i64,
    /// Parameters of the herbivore species.
    pub herbivore: SpeciesConfig,
    /// Parameters of the predator species.
    pub predator: SpeciesConfig,
}

impl SpeciesConfig {
    /// Bounds under which every computation on these fields stays in range.
    pub open spec fn wf(self) -> bool {
        &&& self.starting_count <= 10_000
        &&& 0 <= self.sight_range <= 1_000_000
        &&& self.reproduction_chance_ppm <= 1_000_000
        &&& 1 <= self.reproduction_cooldown_ms
    }
}

impl SimConfig {
    /// The catalog entry of a species.
    pub open spec fn species_spec(self, s: Species) -> SpeciesConfig {
        match s {
            Species::Herbivore => self.herbivore,
            Species::Predator => self.predator,
        }
    }

    /// The catalog entry of a species.
    pub fn species(&self, s: Species) -> (r: SpeciesConfig)
        ensures
            r == self.species_spec(s),
    {
        match s {
            Species::Herbivore => self.herbivore,
            Species::Predator => self.predator,
        }
    }

    /// Bounds under which every computation on the configuration stays in
    /// range: a tick never overflows while they hold.
    pub open spec fn wf(self) -> bool {
        &&& 1 <= self.map_size <= 512
        &&& self.plant_spawn_chance_ppm <= 1_000_000
        &&& 1 <= self.base_move_ms <= 86_400_000
        &&& 1 <= self.reproduction_move_ms <= 86_400_000
        &&& 1 <= self.overfed_move_multiplier_tenths <= 1_000
        &&& self.overfed_duration_ms <= 86_400_000
        &&& 1 <= self.hunger_starve_milli <= 100_000
        &&& 1 <= self.eat_skip_below_milli <= 100_000
        &&& 0 <= self.herbivore_burn_adult_milli <= 1_000_000
        &&& 0 <= self.herbivore_burn_baby_milli <= 1_000_000
        &&& 0 <= self.predator_burn_adult_milli <= 1_000_000
        &&& 0 <= self.predator_burn_baby_milli <= 1_000_000
        &&& -5_000 <= self.kill_overheal_milli <= 0
        &&& self.predator_berry_stun_ticks <= 1_000
        &&& 0 <= self.predator_low_health_milli <= 1_000_000
        &&& 0 <= self.predator_low_health_weight_fruit <= 1_000_000
        &&& 0 <= self.predator_low_health_weight_meat <= 1_000_000
        &&& self.herbivore.wf()
        &&& self.predator.wf()
    }
}

/// The stock configuration: a 40 by 40 grid, twelve herbivores, four
/// predators, and the burn rates and weights of the reference tuning.
pub open spec fn default_config() -> SimConfig {
    SimConfig {
        map_size: 20,
        plant_spawn_chance_ppm: 50_000,
        soil_exhaust_ms: 10_000,
        base_move_ms: 200,
        reproduction_move_ms: 500,
        overfed_move_multiplier_tenths: 66,
        overfed_duration_ms: 5_000,
        hunger_starve_milli: 100_000,
        eat_skip_below_milli: 5_000,
        herbivore_burn_adult_milli: 3_300,
        herbivore_burn_baby_milli: 1_650,
        predator_burn_adult_milli: 4_950,
        predator_burn_baby_milli: 2_475,
        kill_overheal_milli: -5_000i64,
        predator_berry_stun_ticks: 2,
        predator_low_health_milli: 70_000,
        predator_low_health_weight_fruit: 80,
        predator_low_health_weight_meat: 50,
        herbivore: SpeciesConfig {
            starting_count: 12,
            adult_ms: 10_000,
            reproduction_chance_ppm: 100_000,
            reproduction_cooldown_ms: 30_000,
            sight_range: 8,
        },
        predator: SpeciesConfig {
            starting_count: 4,
            adult_ms: 20_000,
            reproduction_chance_ppm: 100_000,
            reproduction_cooldown_ms: 70_000,
            sight_range: 10,
        },
    }
}

impl Default for SimConfig {
    /// The stock configuration.
    fn default() -> (c: SimConfig)
        ensures
            c == default_config(),
            c.wf(),
    {
        SimConfig {
            map_size: 20,
            plant_spawn_chance_ppm: 50_000,
            soil_exhaust_ms: 10_000,
            base_move_ms: 200,
            reproduction_move_ms: 500,
            overfed_move_multiplier_tenths: 66,
            overfed_duration_ms: 5_000,
            hunger_starve_milli: 100_000,
            eat_skip_below_milli: 5_000,
            herbivore_burn_adult_milli: 3_300,
            herbivore_burn_baby_milli: 1_650,
            predator_burn_adult_milli: 4_950,
            predator_burn_baby_milli: 2_475,
            kill_overheal_milli: -5_000i64,
            predator_berry_stun_ticks: 2,
            predator_low_health_milli: 70_000,
            predator_low_health_weight_fruit: 80,
            predator_low_health_weight_meat: 50,
            herbivore: SpeciesConfig {
                starting_count: 12,
                adult_ms: 10_000,
                reproduction_chance_ppm: 100_000,
                reproduction_cooldown_ms: 30_000,
                sight_range: 8,
            },
            predator: SpeciesConfig {
                starting_count: 4,
                adult_ms: 20_000,
                reproduction_chance_ppm: 100_000,
                reproduction_cooldown_ms: 70_000,
                sight_range: 10,
            },
        }
    }
}

} // verus!
