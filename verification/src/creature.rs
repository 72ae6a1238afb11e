//! Creatures and their per-tick internal update: aging, hunger burn,
//! cooldown decay, the overfed timer, and starvation.
//!
//! The activity state machine has four states.  `Active` is the default.
//! `Digesting` (entered on a kill) holds the creature still until its
//! overheal burns off, then hands over to `Overfed`, a timed slow-movement
//! state.  `BerryStunned` (entered when a predator eats a plant) holds the
//! creature still for a fixed time.  The reproduction cooldown is an
//! orthogonal timer: it gates mating only, never movement or eating.

use vstd::prelude::*;
use crate::config::{SimConfig, Species};
use crate::grid::Grid;

verus! {

/// The activity state of a creature.
#[derive(Clone, Copy, PartialEq, Eq, Structural, Debug)]
pub enum Activity {
    /// Free to move, eat and reproduce.
    Active,
    /// Immobile after a kill until the overheal burns off.
    Digesting,
    /// Moving at a multiple of the base interval for a fixed time.
    Overfed { remaining_ms: u64 },
    /// Immobile for a fixed time after a predator ate a plant.
    BerryStunned { remaining_ms: u64 },
}

/// One live agent of the simulation.
#[derive(Clone, Copy, PartialEq, Eq, Structural, Debug)]
pub struct Creature {
    /// Identity, unique within a world and never reused.
    pub id: u64,
    /// Grid position.
    pub x: i32,
    /// Grid position.
    pub y: i32,
    /// Which species this creature belongs to.
    pub species: Species,
    /// Time alive.
    pub age_ms: u64,
    /// Whether the creature has matured.
    pub is_adult: bool,
    /// Hunger in thousandths of a point: 0 is full, 100 points starves,
    /// negative is the overheal right after a kill.
    pub hunger_milli: i64,
    /// Fixed at spawn and inherited: avoids stepping into water.
    pub scared_of_water: bool,
    /// Fixed at spawn and inherited: abstains from eating near kin.
    pub altruistic: bool,
    /// The cell occupied before the last move (anti-oscillation memory).
    pub last_x: i32,
    /// The cell occupied before the last move (anti-oscillation memory).
    pub last_y: i32,
    /// Manhattan radius within which this creature sees others.
    pub sight_range: i32,
    /// Activity state.
    pub state: Activity,
    /// Remaining reproduction cooldown; zero when none.
    pub cooldown_ms: u64,
    /// Time accumulated toward the next move.
    pub move_elapsed_ms: u64,
    /// Flagged during a tick; reaped at its end.
    pub dead: bool,
}

/// While digesting or berry-stunned a creature does not move, cannot eat,
/// and cannot take part in reproduction.
pub open spec fn blocked(c: Creature) -> bool {
    c.state is Digesting || c.state is BerryStunned
}

/// A creature whose fields fit the grid and the configured hunger bounds.
pub open spec fn creature_wf(c: Creature, cfg: SimConfig, g: Grid) -> bool {
    &&& g.in_bounds(c.x as int, c.y as int)
    &&& g.in_bounds(c.last_x as int, c.last_y as int)
    &&& -5_000 <= c.hunger_milli <= cfg.hunger_starve_milli
    &&& 0 <= c.sight_range <= 1_000_000
}

/// Hunger burn per second: species- and age-dependent; predator rates are
/// above prey rates and babies burn at half the adult rate in the stock
/// configuration.
pub open spec fn burn_rate_milli(cfg: SimConfig, s: Species, adult: bool) -> i64 {
    match s {
        Species::Herbivore => if adult {
            cfg.herbivore_burn_adult_milli
        } else {
            cfg.herbivore_burn_baby_milli
        },
        Species::Predator => if adult {
            cfg.predator_burn_adult_milli
        } else {
            cfg.predator_burn_baby_milli
        },
    }
}

/// `a + b` capped at the top of the type.
pub open spec fn sat_add_u64(a: u64, b: u64) -> u64 {
    if a + b > u64::MAX {
        u64::MAX
    } else {
        (a + b) as u64
    }
}

/// `a - b`, floored at zero.
pub open spec fn sat_sub_u64(a: u64, b: u64) -> u64 {
    if a >= b {
        (a - b) as u64
    } else {
        0
    }
}

/// The age after a tick of `dt_ms`.
pub open spec fn aged_ms(c: Creature, dt_ms: u64) -> u64 {
    sat_add_u64(c.age_ms, dt_ms)
}

/// Whether the creature counts as adult after a tick of `dt_ms`: adulthood
/// is reached when the age passes the species' maturation time, and is
/// never lost.
pub open spec fn adult_after(c: Creature, cfg: SimConfig, dt_ms: u64) -> bool {
    c.is_adult || aged_ms(c, dt_ms) > cfg.species_spec(c.species).adult_ms
}

/// The hunger after a tick of `dt_ms`, before the starvation cap: the old
/// hunger plus the burn of the elapsed time (at the rate of the age class
/// the creature is in after aging).
pub open spec fn burned_hunger_milli(c: Creature, cfg: SimConfig, dt_ms: u64) -> int {
    c.hunger_milli + burn_rate_milli(cfg, c.species, adult_after(c, cfg, dt_ms)) * dt_ms / 1000
}

/// The overfed timer after a tick: other states are left alone here.
pub open spec fn state_after_timers(c: Creature, dt_ms: u64) -> Activity {
    match c.state {
        Activity::Overfed { remaining_ms } => if remaining_ms <= dt_ms {
            Activity::Active
        } else {
            Activity::Overfed { remaining_ms: (remaining_ms - dt_ms) as u64 }
        },
        s => s,
    }
}

/// The full per-creature internal update for one tick: what `c` becomes
/// after aging, hunger burn, cooldown decay, the overfed timer, and the
/// starvation check.
pub open spec fn state_updated(c: Creature, cfg: SimConfig, dt_ms: u64) -> Creature {
    Creature {
        age_ms: aged_ms(c, dt_ms),
        is_adult: adult_after(c, cfg, dt_ms),
        hunger_milli: if burned_hunger_milli(c, cfg, dt_ms) >= cfg.hunger_starve_milli {
            cfg.hunger_starve_milli
        } else {
            burned_hunger_milli(c, cfg, dt_ms) as i64
        },
        dead: c.dead || burned_hunger_milli(c, cfg, dt_ms) >= cfg.hunger_starve_milli,
        cooldown_ms: sat_sub_u64(c.cooldown_ms, dt_ms),
        state: state_after_timers(c, dt_ms),
        ..c
    }
}

/// One tick of a creature's internal state: age and adulthood, hunger burn,
/// reproduction-cooldown decay, the overfed timer, and the starvation
/// check.  Hunger never decreases here: it only falls on eating or a kill.
pub fn creature_state_update(c: &mut Creature, cfg: &SimConfig, dt_ms: u64)
    requires
        cfg.wf(),
        dt_ms <= 86_400_000,
        -5_000 <= old(c).hunger_milli <= cfg.hunger_starve_milli,
    ensures
        *final(c) == state_updated(*old(c), *cfg, dt_ms),
        final(c).hunger_milli >= old(c).hunger_milli,
        -5_000 <= final(c).hunger_milli <= cfg.hunger_starve_milli,
        final(c).x == old(c).x && final(c).y == old(c).y,
        blocked(*old(c)) ==> blocked(*final(c)),
{
    c.age_ms = if c.age_ms <= u64::MAX - dt_ms {
        c.age_ms + dt_ms
    } else {
        u64::MAX
    };

    let adult_ms = match c.species {
        Species::Herbivore => cfg.herbivore.adult_ms,
        Species::Predator => cfg.predator.adult_ms,
    };
    if !c.is_adult && c.age_ms > adult_ms {
        c.is_adult = true;
    }

    let burn: i64 = match c.species {
        Species::Herbivore => if c.is_adult {
            cfg.herbivore_burn_adult_milli
        } else {
            cfg.herbivore_burn_baby_milli
        },
        Species::Predator => if c.is_adult {
            cfg.predator_burn_adult_milli
        } else {
            cfg.predator_burn_baby_milli
        },
    };
    proof {
        assert(0 <= burn * (dt_ms as i64) <= 86_400_000_000_000i64) by (nonlinear_arith)
            requires
                0 <= burn <= 1_000_000,
                0 <= dt_ms as i64 <= 86_400_000,
        ;
    }
    let raw: i64 = c.hunger_milli + burn * (dt_ms as i64) / 1000;
    if raw >= cfg.hunger_starve_milli {
        c.hunger_milli = cfg.hunger_starve_milli;
        c.dead = true;
    } else {
        c.hunger_milli = raw;
    }

    c.cooldown_ms = if c.cooldown_ms >= dt_ms {
        c.cooldown_ms - dt_ms
    } else {
        0
    };

    match c.state {
        Activity::Overfed { remaining_ms } => {
            c.state = if remaining_ms <= dt_ms {
                Activity::Active
            } else {
                Activity::Overfed { remaining_ms: remaining_ms - dt_ms }
            };
        },
        _ => {},
    }
}

/// The internal-update pass of a tick: ages every live creature, burns
/// hunger, decays cooldowns and the overfed timer, and flags starvation.
/// Dead-flagged creatures are left untouched.
pub fn phase_state_update(creatures: &mut Vec<Creature>, cfg: &SimConfig, dt_ms: u64)
    requires
        cfg.wf(),
        dt_ms <= 86_400_000,
        forall|i: int| 0 <= i < old(creatures)@.len() ==> -5_000 <= (#[trigger] old(
            creatures,
        )@[i]).hunger_milli <= cfg.hunger_starve_milli,
    ensures
        final(creatures)@.len() == old(creatures)@.len(),
        forall|i: int| 0 <= i < old(creatures)@.len() ==> final(creatures)@[i] == (if (#[trigger] old(
            creatures,
        )@[i]).dead {
            old(creatures)@[i]
        } else {
            state_updated(old(creatures)@[i], *cfg, dt_ms)
        }),
{
    let n = creatures.len();
    let mut i: usize = 0;
    while i < n
        invariant
            n == old(creatures)@.len(),
            creatures@.len() == n,
            i <= n,
            cfg.wf(),
            dt_ms <= 86_400_000,
            forall|k: int| 0 <= k < n ==> -5_000 <= (#[trigger] old(creatures)@[k]).hunger_milli
                <= cfg.hunger_starve_milli,
            forall|k: int| 0 <= k < i ==> creatures@[k] == (if (#[trigger] old(creatures)@[k]).dead {
                old(creatures)@[k]
            } else {
                state_updated(old(creatures)@[k], *cfg, dt_ms)
            }),
            forall|k: int| i <= k < n ==> creatures@[k] == old(creatures)@[k],
        decreases n - i,
    {
        let mut c = creatures[i];
        if !c.dead {
            creature_state_update(&mut c, cfg, dt_ms);
            creatures.set(i, c);
        }
        i = i + 1;
    }
}

} // verus!
