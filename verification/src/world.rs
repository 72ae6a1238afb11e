//! The world: grid, creatures, plants, soil markers and counters, with
//! the terrain-edit entry point and the tick orchestrator.

use vstd::prelude::*;
use crate::config::{SimConfig, Species, SpeciesConfig, Terrain};
use crate::creature::{
    blocked, creature_wf, phase_state_update, sat_add_u64, state_updated, Activity, Creature,
};
use crate::environment::{
    decay_survivors, lemma_decay_membership, live_plant_at, phase_soils, plant_growth_attempt,
    soil_at, valid_growth_cell, Plant, Soil,
};
use crate::grid::Grid;
use crate::interact::{
    baby_of, born_into, count_species, eating_outcomes, eating_step, eligible_pair, killed,
    phase_eating, phase_predation, phase_reproduction, plant_step, predation_outcomes,
    predation_step, repro_step, reproduction_outcomes, soil_from_plants, PopulationStats,
    SpeciesCounters,
};
use crate::movement::{live_cells, live_plant_cells, moved_creature, phase_movement};
use crate::rng::SimRng;

verus! {

/// A creature above this hunger is critical (in thousandths of a point).
pub const CRITICAL_MILLI: i64 = 90_000;

/// A creature above this hunger (and not critical) is hungry.
pub const HUNGRY_MILLI: i64 = 50_000;

/// The whole simulation state.
///
/// The fields are public so that presentation layers can read positions,
/// hunger, ages and counters directly; the simulation owns them, and
/// consumers are meant to write only through `set_terrain` and the
/// configuration setters.  `tick` requires the invariant `wf`, which those
/// entry points preserve; code that edits fields by hand must keep it.
pub struct World {
    /// The tunable parameters, fixed between external edits.
    pub config: SimConfig,
    /// The terrain.
    pub grid: Grid,
    /// The live creatures (dead ones are reaped before a tick returns).
    pub creatures: Vec<Creature>,
    /// The plants.
    pub plants: Vec<Plant>,
    /// The soil-exhaustion markers.
    pub soils: Vec<Soil>,
    /// Cumulative population counters.
    pub stats: PopulationStats,
    /// The next creature identity to hand out.
    pub next_id: u64,
    /// Simulated time elapsed over all ticks.
    pub elapsed_ms: u64,
}

impl World {
    /// The world invariant: a well-formed configuration and grid of the
    /// configured size; every creature within bounds with in-range hunger;
    /// identities unique and below `next_id`; plants and markers within
    /// bounds; counters that can still be bumped for every identity left.
    pub open spec fn wf(self) -> bool {
        &&& self.config.wf()
        &&& self.grid.wf()
        &&& self.grid.half == self.config.map_size
        &&& forall|i: int| 0 <= i < self.creatures@.len() ==> creature_wf(
            #[trigger] self.creatures@[i],
            self.config,
            self.grid,
        )
        &&& forall|i: int| 0 <= i < self.creatures@.len() ==> (#[trigger] self.creatures@[i]).id
            < self.next_id
        &&& forall|i: int, j: int| 0 <= i < j < self.creatures@.len() ==> (#[trigger] self.creatures@[i]).id
            != (#[trigger] self.creatures@[j]).id
        &&& forall|p: int| 0 <= p < self.plants@.len() ==> self.grid.in_bounds(
            (#[trigger] self.plants@[p]).x as int,
            self.plants@[p].y as int,
        )
        &&& forall|k: int| 0 <= k < self.soils@.len() ==> self.grid.in_bounds(
            (#[trigger] self.soils@[k]).x as int,
            self.soils@[k].y as int,
        )
        &&& self.stats.bounded_by(self.next_id)
    }
}

/// A coordinate clamped into `[-half, half)`.
pub open spec fn clamped_coord(v: int, half: int) -> int {
    if v < -half {
        -half
    } else if v >= half {
        half - 1
    } else {
        v
    }
}

/// The home cells of the starting predators, before clamping.
pub open spec fn predator_post(j: int) -> (int, int) {
    if j == 0 {
        (-6int, -6int)
    } else if j == 1 {
        (-4int, -6int)
    } else if j == 2 {
        (4int, -6int)
    } else {
        (6int, -6int)
    }
}

/// Clamps a coordinate into the grid.
fn clamp_coord(v: i32, half: i32) -> (r: i32)
    requires
        1 <= half <= 512,
    ensures
        -half <= r < half,
        r == clamped_coord(v as int, half as int),
{
    if v < -half {
        -half
    } else if v >= half {
        half - 1
    } else {
        v
    }
}

impl World {
    /// A fresh world: all land, no plants, and the configured starting
    /// populations — herbivores spread along the diagonal, up to four
    /// predators along the southern edge — all newborn, full, active and
    /// counted in the population counters.
    pub fn new(cfg: SimConfig) -> (w: World)
        requires
            cfg.wf(),
        ensures
            w.wf(),
            w.config == cfg,
            forall|x: int, y: int| !w.grid.water_at(x, y),
            w.plants@.len() == 0,
            w.soils@.len() == 0,
            w.elapsed_ms == 0,
            w.creatures@.len() == cfg.herbivore.starting_count + (if cfg.predator.starting_count
                < 4 {
                cfg.predator.starting_count
            } else {
                4
            }),
            forall|k: int| 0 <= k < w.creatures@.len() ==> {
                let c = #[trigger] w.creatures@[k];
                &&& c.id == k
                &&& c.age_ms == 0
                &&& !c.is_adult
                &&& c.hunger_milli == 0
                &&& c.state is Active
                &&& c.cooldown_ms == 0
                &&& c.move_elapsed_ms == 0
                &&& !c.dead
                &&& c.scared_of_water
                &&& c.last_x == c.x && c.last_y == c.y
                &&& if k < cfg.herbivore.starting_count {
                    &&& c.species is Herbivore
                    &&& c.altruistic
                    &&& c.sight_range == cfg.herbivore.sight_range
                    &&& c.x as int == clamped_coord(k, cfg.map_size as int)
                    &&& c.y == c.x
                } else {
                    &&& c.species is Predator
                    &&& !c.altruistic
                    &&& c.sight_range == cfg.predator.sight_range
                    &&& c.x as int == clamped_coord(
                        predator_post(k - cfg.herbivore.starting_count).0,
                        cfg.map_size as int,
                    )
                    &&& c.y as int == clamped_coord(
                        predator_post(k - cfg.herbivore.starting_count).1,
                        cfg.map_size as int,
                    )
                }
            },
            w.stats.herbivore.born == 0,
            w.stats.herbivore.total_ever == cfg.herbivore.starting_count,
            w.stats.predator.born == 0,
            w.stats.predator.total_ever == (if cfg.predator.starting_count < 4 {
                cfg.predator.starting_count
            } else {
                4
            }),
    {
        let grid = Grid::new(cfg.map_size);
        let mut creatures: Vec<Creature> = Vec::new();
        let hn = cfg.herbivore.starting_count;
        let mut i: u32 = 0;
        while i < hn
            invariant
                cfg.wf(),
                grid.wf(),
                grid.half == cfg.map_size,
                i <= hn,
                hn == cfg.herbivore.starting_count,
                creatures@.len() == i,
                forall|k: int| 0 <= k < i ==> {
                    let c = #[trigger] creatures@[k];
                    &&& creature_wf(c, cfg, grid)
                    &&& c.id == k
                    &&& c.age_ms == 0
                    &&& !c.is_adult
                    &&& c.hunger_milli == 0
                    &&& c.state is Active
                    &&& c.cooldown_ms == 0
                    &&& c.move_elapsed_ms == 0
                    &&& !c.dead
                    &&& c.species is Herbivore
                    &&& c.scared_of_water
                    &&& c.altruistic
                    &&& c.sight_range == cfg.herbivore.sight_range
                    &&& c.x as int == clamped_coord(k, cfg.map_size as int)
                    &&& c.y == c.x
                    &&& c.last_x == c.x && c.last_y == c.y
                },
            decreases hn - i,
        {
            let d = clamp_coord(i as i32, cfg.map_size);
            creatures.push(
                Creature {
                    id: i as u64,
                    x: d,
                    y: d,
                    species: Species::Herbivore,
                    age_ms: 0,
                    is_adult: false,
                    hunger_milli: 0,
                    scared_of_water: true,
                    altruistic: true,
                    last_x: d,
                    last_y: d,
                    sight_range: cfg.herbivore.sight_range,
                    state: Activity::Active,
                    cooldown_ms: 0,
                    move_elapsed_ms: 0,
                    dead: false,
                },
            );
            i = i + 1;
        }
        let pn: u32 = if cfg.predator.starting_count < 4 {
            cfg.predator.starting_count
        } else {
            4
        };
        let mut j: u32 = 0;
        while j < pn
            invariant
                cfg.wf(),
                grid.wf(),
                grid.half == cfg.map_size,
                j <= pn,
                pn <= 4,
                hn == cfg.herbivore.starting_count,
                creatures@.len() == hn + j,
                forall|k: int| 0 <= k < hn + j ==> {
                    let c = #[trigger] creatures@[k];
                    &&& creature_wf(c, cfg, grid)
                    &&& c.id == k
                    &&& c.age_ms == 0
                    &&& !c.is_adult
                    &&& c.hunger_milli == 0
                    &&& c.state is Active
                    &&& c.cooldown_ms == 0
                    &&& c.move_elapsed_ms == 0
                    &&& !c.dead
                    &&& c.scared_of_water
                    &&& c.last_x == c.x && c.last_y == c.y
                    &&& if k < hn {
                        &&& c.species is Herbivore
                        &&& c.altruistic
                        &&& c.sight_range == cfg.herbivore.sight_range
                        &&& c.x as int == clamped_coord(k, cfg.map_size as int)
                        &&& c.y == c.x
                    } else {
                        &&& c.species is Predator
                        &&& !c.altruistic
                        &&& c.sight_range == cfg.predator.sight_range
                        &&& c.x as int == clamped_coord(predator_post(k - hn).0, cfg.map_size as int)
                        &&& c.y as int == clamped_coord(predator_post(k - hn).1, cfg.map_size as int)
                    }
                },
            decreases pn - j,
        {
            let (rx, ry): (i32, i32) = if j == 0 {
                (-6, -6)
            } else if j == 1 {
                (-4, -6)
            } else if j == 2 {
                (4, -6)
            } else {
                (6, -6)
            };
            let px = clamp_coord(rx, cfg.map_size);
            let py = clamp_coord(ry, cfg.map_size);
            creatures.push(
                Creature {
                    id: (hn as u64) + (j as u64),
                    x: px,
                    y: py,
                    species: Species::Predator,
                    age_ms: 0,
                    is_adult: false,
                    hunger_milli: 0,
                    scared_of_water: true,
                    altruistic: false,
                    last_x: px,
                    last_y: py,
                    sight_range: cfg.predator.sight_range,
                    state: Activity::Active,
                    cooldown_ms: 0,
                    move_elapsed_ms: 0,
                    dead: false,
                },
            );
            j = j + 1;
        }
        let next_id: u64 = (hn as u64) + (pn as u64);
        World {
            config: cfg,
            grid,
            creatures,
            plants: Vec::new(),
            soils: Vec::new(),
            stats: PopulationStats {
                herbivore: SpeciesCounters { born: 0, total_ever: hn as u64 },
                predator: SpeciesCounters { born: 0, total_ever: pn as u64 },
            },
            next_id,
            elapsed_ms: 0,
        }
    }
}

/// What an external terrain edit does.  Setting water also clears every
/// plant and soil marker on the cell (creatures there drown on the next
/// tick); setting land touches nothing else.  An edit outside the grid is
/// a no-op.
pub open spec fn terrain_edit_rel(pre: World, post: World, x: int, y: int, t: Terrain) -> bool {
    &&& post.config == pre.config
    &&& post.creatures@ == pre.creatures@
    &&& post.stats == pre.stats
    &&& post.next_id == pre.next_id
    &&& post.elapsed_ms == pre.elapsed_ms
    &&& post.grid.half == pre.grid.half
    &&& if pre.grid.in_bounds(x, y) {
        &&& post.grid.water_at(x, y) == (t is Water)
        &&& (forall|a: int, b: int|
            !(a == x && b == y) ==> post.grid.water_at(a, b) == pre.grid.water_at(a, b))
        &&& if t is Water {
            &&& !live_plant_at(post.plants@, x, y)
            &&& !soil_at(post.soils@, x, y)
            &&& (forall|k: int| 0 <= k < post.plants@.len() ==> pre.plants@.contains(
                #[trigger] post.plants@[k],
            ))
            &&& (forall|k: int| 0 <= k < post.soils@.len() ==> pre.soils@.contains(
                #[trigger] post.soils@[k],
            ))
            &&& (forall|k: int| 0 <= k < pre.plants@.len() ==> !((#[trigger] pre.plants@[k]).x
                == x && pre.plants@[k].y == y) ==> post.plants@.contains(pre.plants@[k]))
            &&& (forall|k: int| 0 <= k < pre.soils@.len() ==> !((#[trigger] pre.soils@[k]).x == x
                && pre.soils@[k].y == y) ==> post.soils@.contains(pre.soils@[k]))
        } else {
            &&& post.plants@ == pre.plants@
            &&& post.soils@ == pre.soils@
        }
    } else {
        &&& post.grid.water_at(x, y) == pre.grid.water_at(x, y)
        &&& (forall|a: int, b: int| post.grid.water_at(a, b) == pre.grid.water_at(a, b))
        &&& post.plants@ == pre.plants@
        &&& post.soils@ == pre.soils@
    }
}

impl World {
    /// The one external mutation besides configuration: converts a cell
    /// between land and water.  Converting to water clears any plant or
    /// soil marker on the cell; a creature standing there drowns on the
    /// next tick, whatever its traits.
    pub fn set_terrain(&mut self, x: i32, y: i32, t: Terrain)
        requires
            old(self).wf(),
        ensures
            final(self).wf(),
            terrain_edit_rel(*old(self), *final(self), x as int, y as int, t),
    {
        if x < -self.grid.half || x >= self.grid.half || y < -self.grid.half
            || y >= self.grid.half {
            return ;
        }
        self.grid.set_terrain(x, y, t);
        if matches!(t, Terrain::Water) {
            let mut kept_plants: Vec<Plant> = Vec::new();
            let mut k: usize = 0;
            while k < self.plants.len()
                invariant
                    k <= self.plants@.len(),
                    forall|m: int| 0 <= m < kept_plants@.len() ==> self.plants@.contains(
                        #[trigger] kept_plants@[m],
                    ) && !(kept_plants@[m].x == x && kept_plants@[m].y == y),
                    forall|m: int| 0 <= m < k ==> !((#[trigger] self.plants@[m]).x == x
                        && self.plants@[m].y == y) ==> kept_plants@.contains(self.plants@[m]),
                decreases self.plants@.len() - k,
            {
                let p = self.plants[k];
                let ghost kb = kept_plants@;
                if !(p.x == x && p.y == y) {
                    kept_plants.push(p);
                }
                proof {
                    assert forall|m2: int| 0 <= m2 < k + 1 && !((#[trigger] self.plants@[m2]).x
                        == x && self.plants@[m2].y == y) implies kept_plants@.contains(
                        self.plants@[m2],
                    ) by {
                        if m2 < k {
                            let idx = choose|idx: int|
                                0 <= idx < kb.len() && kb[idx] == self.plants@[m2];
                            assert(kept_plants@[idx] == self.plants@[m2]);
                        } else {
                            assert(kept_plants@[kept_plants@.len() - 1] == self.plants@[m2]);
                        }
                    }
                }
                k = k + 1;
            }
            self.plants = kept_plants;
            let mut kept_soils: Vec<Soil> = Vec::new();
            let mut m: usize = 0;
            while m < self.soils.len()
                invariant
                    m <= self.soils@.len(),
                    forall|q: int| 0 <= q < kept_soils@.len() ==> self.soils@.contains(
                        #[trigger] kept_soils@[q],
                    ) && !(kept_soils@[q].x == x && kept_soils@[q].y == y),
                    forall|q: int| 0 <= q < m ==> !((#[trigger] self.soils@[q]).x == x
                        && self.soils@[q].y == y) ==> kept_soils@.contains(self.soils@[q]),
                decreases self.soils@.len() - m,
            {
                let s = self.soils[m];
                let ghost sb = kept_soils@;
                if !(s.x == x && s.y == y) {
                    kept_soils.push(s);
                }
                proof {
                    assert forall|q2: int| 0 <= q2 < m + 1 && !((#[trigger] self.soils@[q2]).x == x
                        && self.soils@[q2].y == y) implies kept_soils@.contains(
                        self.soils@[q2],
                    ) by {
                        if q2 < m {
                            let idx = choose|idx: int|
                                0 <= idx < sb.len() && sb[idx] == self.soils@[q2];
                            assert(kept_soils@[idx] == self.soils@[q2]);
                        } else {
                            assert(kept_soils@[kept_soils@.len() - 1] == self.soils@[q2]);
                        }
                    }
                }
                m = m + 1;
            }
            self.soils = kept_soils;
        }
    }
}

/// The drowning pass: every creature standing on a water cell is flagged
/// dead — unconditionally, whatever its fear of water.
pub fn phase_drowning(creatures: &mut Vec<Creature>, g: &Grid)
    requires
        g.wf(),
    ensures
        final(creatures)@.len() == old(creatures)@.len(),
        forall|i: int| 0 <= i < old(creatures)@.len() ==> final(creatures)@[i] == (if g.water_at(
            (#[trigger] old(creatures)@[i]).x as int,
            old(creatures)@[i].y as int,
        ) {
            killed(old(creatures)@[i])
        } else {
            old(creatures)@[i]
        }),
{
    let n = creatures.len();
    let mut i: usize = 0;
    while i < n
        invariant
            n == old(creatures)@.len(),
            creatures@.len() == n,
            i <= n,
            g.wf(),
            forall|k: int| 0 <= k < i ==> creatures@[k] == (if g.water_at(
                (#[trigger] old(creatures)@[k]).x as int,
                old(creatures)@[k].y as int,
            ) {
                killed(old(creatures)@[k])
            } else {
                old(creatures)@[k]
            }),
            forall|k: int| i <= k < n ==> creatures@[k] == old(creatures)@[k],
        decreases n - i,
    {
        let c = creatures[i];
        if g.is_water(c.x, c.y) {
            creatures.set(i, Creature { dead: true, ..c });
        }
        i = i + 1;
    }
}

/// The creatures that survive reaping, in order.
pub open spec fn reaped(s: Seq<Creature>) -> Seq<Creature>
    decreases s.len(),
{
    if s.len() == 0 {
        Seq::empty()
    } else {
        let prev = reaped(s.drop_last());
        if s.last().dead {
            prev
        } else {
            prev.push(s.last())
        }
    }
}

/// Every survivor of reaping is a live entry of the input, and every live
/// entry survives.
pub proof fn lemma_reaped_membership(s: Seq<Creature>)
    ensures
        forall|k: int| 0 <= k < reaped(s).len() ==> exists|i: int|
            0 <= i < s.len() && #[trigger] reaped(s)[k] == s[i] && !s[i].dead,
        forall|i: int| 0 <= i < s.len() && !(#[trigger] s[i]).dead ==> reaped(s).contains(s[i]),
        reaped(s).len() <= s.len(),
    decreases s.len(),
{
    if s.len() > 0 {
        lemma_reaped_membership(s.drop_last());
        let prev = reaped(s.drop_last());
        assert forall|k: int| 0 <= k < reaped(s).len() implies exists|i: int|
            0 <= i < s.len() && #[trigger] reaped(s)[k] == s[i] && !s[i].dead by {
            if k < prev.len() {
                let i = choose|i: int|
                    0 <= i < s.drop_last().len() && #[trigger] prev[k] == s.drop_last()[i]
                        && !s.drop_last()[i].dead;
                assert(reaped(s)[k] == s[i] && !s[i].dead);
            } else {
                assert(reaped(s)[k] == s[s.len() - 1]);
            }
        }
        assert forall|i: int| 0 <= i < s.len() && !(#[trigger] s[i]).dead implies reaped(
            s,
        ).contains(s[i]) by {
            if i < s.len() - 1 {
                assert(s.drop_last()[i] == s[i]);
                assert(prev.contains(s[i]));
                let k = choose|k: int| 0 <= k < prev.len() && prev[k] == s[i];
                assert(reaped(s)[k] == s[i]);
            } else {
                assert(reaped(s)[reaped(s).len() - 1] == s[i]);
            }
        }
    }
}

/// Reaping keeps identities unique.
pub proof fn lemma_reaped_unique_ids(s: Seq<Creature>)
    requires
        forall|i: int, j: int| 0 <= i < j < s.len() ==> (#[trigger] s[i]).id != (#[trigger] s[j]).id,
    ensures
        forall|k1: int, k2: int| 0 <= k1 < k2 < reaped(s).len() ==> (#[trigger] reaped(s)[k1]).id
            != (#[trigger] reaped(s)[k2]).id,
    decreases s.len(),
{
    if s.len() > 0 {
        lemma_reaped_unique_ids(s.drop_last());
        lemma_reaped_membership(s.drop_last());
        let prev = reaped(s.drop_last());
        assert forall|k1: int, k2: int| 0 <= k1 < k2 < reaped(s).len() implies (#[trigger] reaped(
            s,
        )[k1]).id != (#[trigger] reaped(s)[k2]).id by {
            if k2 < prev.len() {
                assert(prev[k1].id != prev[k2].id);
            } else if k2 == prev.len() && !s.last().dead {
                let i = choose|i: int|
                    0 <= i < s.drop_last().len() && #[trigger] prev[k1] == s.drop_last()[i]
                        && !s.drop_last()[i].dead;
                assert(s[i].id != s[s.len() - 1].id);
                assert(reaped(s)[k1] == s[i] && reaped(s)[k2] == s.last());
            }
        }
    }
}

/// Removes every dead-flagged creature, keeping order.
pub fn reap_creatures(creatures: &mut Vec<Creature>)
    ensures
        final(creatures)@ == reaped(old(creatures)@),
{
    let n = creatures.len();
    let mut kept: Vec<Creature> = Vec::new();
    let mut i: usize = 0;
    while i < n
        invariant
            n == creatures@.len(),
            creatures@ == old(creatures)@,
            i <= n,
            kept@ == reaped(creatures@.subrange(0, i as int)),
        decreases n - i,
    {
        proof {
            assert(creatures@.subrange(0, i as int + 1).drop_last() =~= creatures@.subrange(
                0,
                i as int,
            ));
            assert(creatures@.subrange(0, i as int + 1).last() == creatures@[i as int]);
        }
        let c = creatures[i];
        if !c.dead {
            kept.push(c);
        }
        i = i + 1;
    }
    proof {
        assert(creatures@.subrange(0, n as int) =~= creatures@);
    }
    *creatures = kept;
}

impl World {
    /// Updates the plant-growth probability, clamped into a certainty at
    /// most.  Takes effect on the next growth attempt.
    pub fn set_plant_spawn_chance_ppm(&mut self, ppm: u32)
        requires
            old(self).wf(),
        ensures
            final(self).wf(),
            *final(self) == (World {
                config: SimConfig {
                    plant_spawn_chance_ppm: if ppm <= 1_000_000 {
                        ppm
                    } else {
                        1_000_000
                    },
                    ..old(self).config
                },
                ..*old(self)
            }),
    {
        self.config.plant_spawn_chance_ppm = if ppm <= 1_000_000 {
            ppm
        } else {
            1_000_000
        };
    }

    /// Updates a species' maturation time, clamped between one second and
    /// ten minutes.  Takes effect on the next tick.
    pub fn set_adult_ms(&mut self, sp: Species, adult_ms: u64)
        requires
            old(self).wf(),
        ensures
            final(self).wf(),
            ({
                let v: u64 = if adult_ms < 1_000 {
                    1_000
                } else if adult_ms > 600_000 {
                    600_000
                } else {
                    adult_ms
                };
                *final(self) == (World {
                    config: match sp {
                        Species::Herbivore => SimConfig {
                            herbivore: SpeciesConfig { adult_ms: v, ..old(self).config.herbivore },
                            ..old(self).config
                        },
                        Species::Predator => SimConfig {
                            predator: SpeciesConfig { adult_ms: v, ..old(self).config.predator },
                            ..old(self).config
                        },
                    },
                    ..*old(self)
                })
            }),
    {
        let v: u64 = if adult_ms < 1_000 {
            1_000
        } else if adult_ms > 600_000 {
            600_000
        } else {
            adult_ms
        };
        match sp {
            Species::Herbivore => {
                self.config.herbivore.adult_ms = v;
            },
            Species::Predator => {
                self.config.predator.adult_ms = v;
            },
        }
    }

    /// Updates a species' starting count, clamped to at most two hundred.
    /// Takes effect only when a fresh world is built from this
    /// configuration.
    pub fn set_starting_count(&mut self, sp: Species, count: u32)
        requires
            old(self).wf(),
        ensures
            final(self).wf(),
            ({
                let v: u32 = if count <= 200 {
                    count
                } else {
                    200
                };
                *final(self) == (World {
                    config: match sp {
                        Species::Herbivore => SimConfig {
                            herbivore: SpeciesConfig {
                                starting_count: v,
                                ..old(self).config.herbivore
                            },
                            ..old(self).config
                        },
                        Species::Predator => SimConfig {
                            predator: SpeciesConfig {
                                starting_count: v,
                                ..old(self).config.predator
                            },
                            ..old(self).config
                        },
                    },
                    ..*old(self)
                })
            }),
    {
        let v: u32 = if count <= 200 {
            count
        } else {
            200
        };
        match sp {
            Species::Herbivore => {
                self.config.herbivore.starting_count = v;
            },
            Species::Predator => {
                self.config.predator.starting_count = v;
            },
        }
    }
}

/// How many creatures of `s` are critical: hunger above the critical bound.
pub open spec fn count_critical(s: Seq<Creature>) -> int
    decreases s.len(),
{
    if s.len() == 0 {
        0
    } else {
        count_critical(s.drop_last()) + if s.last().hunger_milli > CRITICAL_MILLI {
            1int
        } else {
            0int
        }
    }
}

/// How many creatures of `s` are hungry: above the hungry bound but not
/// critical.
pub open spec fn count_hungry(s: Seq<Creature>) -> int
    decreases s.len(),
{
    if s.len() == 0 {
        0
    } else {
        count_hungry(s.drop_last()) + if HUNGRY_MILLI < s.last().hunger_milli <= CRITICAL_MILLI {
            1int
        } else {
            0int
        }
    }
}

/// How many creatures of `s` are adult.
pub open spec fn count_adults(s: Seq<Creature>) -> int
    decreases s.len(),
{
    if s.len() == 0 {
        0
    } else {
        count_adults(s.drop_last()) + if s.last().is_adult {
            1int
        } else {
            0int
        }
    }
}

impl World {
    /// How many creatures are alive.
    pub fn creature_count(&self) -> (n: usize)
        ensures
            n == self.creatures@.len(),
    {
        self.creatures.len()
    }

    /// How many plants stand.
    pub fn plant_count(&self) -> (n: usize)
        ensures
            n == self.plants@.len(),
    {
        self.plants.len()
    }

    /// How many soil-exhaustion markers stand.
    pub fn soil_count(&self) -> (n: usize)
        ensures
            n == self.soils@.len(),
    {
        self.soils.len()
    }

    /// The cumulative population counters.
    pub fn population_stats(&self) -> (r: PopulationStats)
        ensures
            r == self.stats,
    {
        self.stats
    }

    /// The terrain of a cell; cells outside the grid read as land.
    pub fn terrain_at(&self, x: i32, y: i32) -> (t: Terrain)
        requires
            self.grid.wf(),
        ensures
            (t is Water) == self.grid.water_at(x as int, y as int),
    {
        if self.grid.is_water(x, y) {
            Terrain::Water
        } else {
            Terrain::Land
        }
    }

    /// How many live creatures belong to `sp`.
    pub fn species_count(&self, sp: Species) -> (n: usize)
        ensures
            n == count_species(self.creatures@, sp),
    {
        let m = self.creatures.len();
        let mut n: usize = 0;
        let mut i: usize = 0;
        while i < m
            invariant
                m == self.creatures@.len(),
                i <= m,
                n == count_species(self.creatures@.subrange(0, i as int), sp),
                n <= i,
            decreases m - i,
        {
            proof {
                assert(self.creatures@.subrange(0, i as int + 1).drop_last()
                    =~= self.creatures@.subrange(0, i as int));
                assert(self.creatures@.subrange(0, i as int + 1).last()
                    == self.creatures@[i as int]);
            }
            let same = match (self.creatures[i].species, sp) {
                (Species::Herbivore, Species::Herbivore) => true,
                (Species::Predator, Species::Predator) => true,
                _ => false,
            };
            if same {
                n = n + 1;
            }
            i = i + 1;
        }
        proof {
            assert(self.creatures@.subrange(0, m as int) =~= self.creatures@);
        }
        n
    }

    /// The health buckets: how many creatures are healthy (at or below the
    /// hungry bound), hungry, and critical, in that order.
    pub fn health_buckets(&self) -> (r: (usize, usize, usize))
        ensures
            r.2 == count_critical(self.creatures@),
            r.1 == count_hungry(self.creatures@),
            r.0 + r.1 + r.2 == self.creatures@.len(),
    {
        let m = self.creatures.len();
        let mut healthy: usize = 0;
        let mut hungry: usize = 0;
        let mut critical: usize = 0;
        let mut i: usize = 0;
        while i < m
            invariant
                m == self.creatures@.len(),
                i <= m,
                critical == count_critical(self.creatures@.subrange(0, i as int)),
                hungry == count_hungry(self.creatures@.subrange(0, i as int)),
                healthy + hungry + critical == i,
            decreases m - i,
        {
            proof {
                assert(self.creatures@.subrange(0, i as int + 1).drop_last()
                    =~= self.creatures@.subrange(0, i as int));
                assert(self.creatures@.subrange(0, i as int + 1).last()
                    == self.creatures@[i as int]);
            }
            let h = self.creatures[i].hunger_milli;
            if h > CRITICAL_MILLI {
                critical = critical + 1;
            } else if h > HUNGRY_MILLI {
                hungry = hungry + 1;
            } else {
                healthy = healthy + 1;
            }
            i = i + 1;
        }
        proof {
            assert(self.creatures@.subrange(0, m as int) =~= self.creatures@);
        }
        (healthy, hungry, critical)
    }

    /// The demographics: how many adults and how many babies.
    pub fn demographics(&self) -> (r: (usize, usize))
        ensures
            r.0 == count_adults(self.creatures@),
            r.0 + r.1 == self.creatures@.len(),
    {
        let m = self.creatures.len();
        let mut adults: usize = 0;
        let mut babies: usize = 0;
        let mut i: usize = 0;
        while i < m
            invariant
                m == self.creatures@.len(),
                i <= m,
                adults == count_adults(self.creatures@.subrange(0, i as int)),
                adults + babies == i,
            decreases m - i,
        {
            proof {
                assert(self.creatures@.subrange(0, i as int + 1).drop_last()
                    =~= self.creatures@.subrange(0, i as int));
                assert(self.creatures@.subrange(0, i as int + 1).last()
                    == self.creatures@[i as int]);
            }
            if self.creatures[i].is_adult {
                adults = adults + 1;
            } else {
                babies = babies + 1;
            }
            i = i + 1;
        }
        proof {
            assert(self.creatures@.subrange(0, m as int) =~= self.creatures@);
        }
        (adults, babies)
    }
}

/// The growth pass of a tick: with the configured probability, one
/// attempt to sprout a plant on a uniformly random cell, succeeding
/// exactly when the cell is valid growth ground.
fn growth_pass(
    plants: &mut Vec<Plant>,
    soils: &Vec<Soil>,
    grid: &Grid,
    cfg: &SimConfig,
    rng: &mut SimRng,
)
    requires
        grid.wf(),
        cfg.wf(),
        grid.half == cfg.map_size,
        forall|p: int| 0 <= p < old(plants)@.len() ==> grid.in_bounds(
            (#[trigger] old(plants)@[p]).x as int,
            old(plants)@[p].y as int,
        ),
    ensures
        old(plants)@.len() <= final(plants)@.len() <= old(plants)@.len() + 1,
        forall|p: int| 0 <= p < old(plants)@.len() ==> final(plants)@[p] == old(plants)@[p],
        forall|p: int| 0 <= p < final(plants)@.len() ==> grid.in_bounds(
            (#[trigger] final(plants)@[p]).x as int,
            final(plants)@[p].y as int,
        ),
        forall|p: int|
            old(plants)@.len() <= p < final(plants)@.len() ==> !(#[trigger] final(plants)@[p]).dead,
        // A sprouted plant stands on what was valid growth ground.
        forall|p: int|
            old(plants)@.len() <= p < final(plants)@.len() ==> valid_growth_cell(
                *grid,
                old(plants)@,
                soils@,
                (#[trigger] final(plants)@[p]).x as int,
                final(plants)@[p].y as int,
            ),
{
    if rng.chance_ppm(cfg.plant_spawn_chance_ppm) {
        let span: u64 = (2 * cfg.map_size) as u64;
        let rx = rng.below(span);
        let ry = rng.below(span);
        let gx: i32 = (rx as i32) - cfg.map_size;
        let gy: i32 = (ry as i32) - cfg.map_size;
        plant_growth_attempt(plants, soils, grid, gx, gy);
    }
}

/// The plants that survive reaping, in order.
pub open spec fn reaped_plants(s: Seq<Plant>) -> Seq<Plant>
    decreases s.len(),
{
    if s.len() == 0 {
        Seq::empty()
    } else {
        let prev = reaped_plants(s.drop_last());
        if s.last().dead {
            prev
        } else {
            prev.push(s.last())
        }
    }
}

/// Every surviving plant is a live entry of the input.
pub proof fn lemma_reaped_plants_membership(s: Seq<Plant>)
    ensures
        forall|k: int| 0 <= k < reaped_plants(s).len() ==> exists|i: int|
            0 <= i < s.len() && #[trigger] reaped_plants(s)[k] == s[i] && !s[i].dead,
        reaped_plants(s).len() <= s.len(),
    decreases s.len(),
{
    if s.len() > 0 {
        lemma_reaped_plants_membership(s.drop_last());
        let prev = reaped_plants(s.drop_last());
        assert forall|k: int| 0 <= k < reaped_plants(s).len() implies exists|i: int|
            0 <= i < s.len() && #[trigger] reaped_plants(s)[k] == s[i] && !s[i].dead by {
            if k < prev.len() {
                let i = choose|i: int|
                    0 <= i < s.drop_last().len() && #[trigger] prev[k] == s.drop_last()[i]
                        && !s.drop_last()[i].dead;
                assert(reaped_plants(s)[k] == s[i] && !s[i].dead);
            } else {
                assert(reaped_plants(s)[k] == s[s.len() - 1]);
            }
        }
    }
}

/// The internal-update pass as a two-state relation: every live creature
/// is its `state_updated` image, the dead are untouched.
pub open spec fn state_pass_rel(pre: Seq<Creature>, post: Seq<Creature>, cfg: SimConfig, dt_ms: u64) -> bool {
    &&& post.len() == pre.len()
    &&& (forall|i: int| 0 <= i < pre.len() ==> post[i] == (if (#[trigger] pre[i]).dead {
        pre[i]
    } else {
        state_updated(pre[i], cfg, dt_ms)
    }))
}

/// The eating pass as a relation over creatures, plants and soil.
pub open spec fn eating_rel(
    pre_c: Seq<Creature>,
    post_c: Seq<Creature>,
    pre_p: Seq<Plant>,
    post_p: Seq<Plant>,
    pre_s: Seq<Soil>,
    post_s: Seq<Soil>,
    cfg: SimConfig,
) -> bool {
    &&& post_c.len() == pre_c.len()
    &&& post_p.len() == pre_p.len()
    &&& post_s.len() >= pre_s.len()
    &&& (forall|i: int| 0 <= i < pre_c.len() ==> eating_step(
        #[trigger] pre_c[i],
        post_c[i],
        pre_c,
        i,
        pre_p,
        cfg,
    ))
    &&& (forall|p: int| 0 <= p < pre_p.len() ==> plant_step(#[trigger] pre_p[p], post_p[p]))
    &&& eating_outcomes(pre_c, post_c, pre_p, post_p, pre_s, post_s, cfg)
}

/// The predation pass as a relation.
pub open spec fn predation_rel(pre: Seq<Creature>, post: Seq<Creature>, cfg: SimConfig) -> bool {
    &&& post.len() == pre.len()
    &&& (forall|i: int| 0 <= i < pre.len() ==> predation_step(#[trigger] pre[i], post[i], cfg))
    &&& predation_outcomes(pre, post, cfg)
}

/// The reproduction pass as a relation over creatures, counters and the
/// identity source.
pub open spec fn reproduction_rel(
    pre: Seq<Creature>,
    post: Seq<Creature>,
    pre_stats: PopulationStats,
    post_stats: PopulationStats,
    pre_id: u64,
    post_id: u64,
    cfg: SimConfig,
) -> bool {
    &&& pre.len() <= post.len()
    &&& post_id == pre_id + (post.len() - pre.len())
    &&& post_stats.at_least(pre_stats)
    &&& (forall|i: int| 0 <= i < pre.len() ==> repro_step(#[trigger] pre[i], post[i], cfg))
    &&& (forall|k: int| pre.len() <= k < post.len() ==> born_into(pre, #[trigger] post[k], cfg)
        && post[k].id == pre_id + (k - pre.len()))
    &&& reproduction_outcomes(pre, post, pre_stats, post_stats, cfg)
    &&& ((pre_id < u64::MAX && exists|a: int, b: int|
        #[trigger] eligible_pair(pre, a, b) && cfg.species_spec(
            pre[a].species,
        ).reproduction_chance_ppm >= 1_000_000) ==> post.len() > pre.len())
}

/// The movement pass as a relation, over the live plant cells it saw.
pub open spec fn movement_rel(
    pre: Seq<Creature>,
    post: Seq<Creature>,
    cells: Seq<crate::target::Cell>,
    cfg: SimConfig,
    g: Grid,
    dt_ms: u64,
) -> bool {
    &&& post.len() == pre.len()
    &&& (forall|i: int| 0 <= i < pre.len() ==> moved_creature(
        pre,
        i,
        #[trigger] post[i],
        cells,
        cfg,
        g,
        dt_ms,
    ))
}

/// The growth pass as a relation: at most one plant sprouts, on valid
/// growth ground, and nothing standing is touched.
pub open spec fn growth_rel(
    pre_p: Seq<Plant>,
    post_p: Seq<Plant>,
    soils: Seq<Soil>,
    g: Grid,
    cfg: SimConfig,
) -> bool {
    &&& pre_p.len() <= post_p.len() <= pre_p.len() + 1
    &&& (forall|p: int| 0 <= p < pre_p.len() ==> post_p[p] == pre_p[p])
    &&& (forall|p: int| pre_p.len() <= p < post_p.len() ==> !(#[trigger] post_p[p]).dead
        && valid_growth_cell(g, pre_p, soils, post_p[p].x as int, post_p[p].y as int))
}

/// The drowning pass as a relation: exactly the creatures on water die.
pub open spec fn drowning_rel(pre: Seq<Creature>, post: Seq<Creature>, g: Grid) -> bool {
    &&& post.len() == pre.len()
    &&& (forall|i: int| 0 <= i < pre.len() ==> post[i] == (if g.water_at(
        (#[trigger] pre[i]).x as int,
        pre[i].y as int,
    ) {
        killed(pre[i])
    } else {
        pre[i]
    }))
}

/// One tick, decomposed: the named intermediate states chain the eight
/// passes in their fixed order — internal updates, eating, predation,
/// reproduction, movement (over the cells of the post-eating plants),
/// growth, soil decay, drowning, and the final reap of creatures and
/// plants.
pub open spec fn tick_passes(
    pre: World,
    post: World,
    dt_ms: u64,
    c1: Seq<Creature>,
    c2: Seq<Creature>,
    c3: Seq<Creature>,
    c4: Seq<Creature>,
    c5: Seq<Creature>,
    c7: Seq<Creature>,
    p2: Seq<Plant>,
    p6: Seq<Plant>,
    s2: Seq<Soil>,
    stats4: PopulationStats,
    id4: u64,
) -> bool {
    &&& state_pass_rel(pre.creatures@, c1, pre.config, dt_ms)
    &&& eating_rel(c1, c2, pre.plants@, p2, pre.soils@, s2, pre.config)
    &&& predation_rel(c2, c3, pre.config)
    &&& reproduction_rel(c3, c4, pre.stats, stats4, pre.next_id, id4, pre.config)
    &&& movement_rel(c4, c5, live_cells(p2), pre.config, pre.grid, dt_ms)
    &&& growth_rel(p2, p6, s2, pre.grid, pre.config)
    &&& drowning_rel(c5, c7, pre.grid)
    &&& post.creatures@ == reaped(c7)
    &&& post.plants@ == reaped_plants(p6)
    &&& post.soils@ == decay_survivors(s2, dt_ms)
    &&& post.stats == stats4
    &&& post.next_id == id4
    &&& post.config == pre.config
    &&& post.grid == pre.grid
    &&& post.elapsed_ms == sat_add_u64(pre.elapsed_ms, dt_ms)
}

/// What one tick does: there exist intermediate states under which the
/// eight passes, in their fixed order, produce exactly the post-state.
/// Opaque: reveal it, then destruct the existential, to use it.
#[verifier::opaque]
pub open spec fn tick_rel(pre: World, post: World, dt_ms: u64) -> bool {
    exists|
        c1: Seq<Creature>,
        c2: Seq<Creature>,
        c3: Seq<Creature>,
        c4: Seq<Creature>,
        c5: Seq<Creature>,
        c7: Seq<Creature>,
        p2: Seq<Plant>,
        p6: Seq<Plant>,
        s2: Seq<Soil>,
        stats4: PopulationStats,
        id4: u64,
    |
        #[trigger] tick_passes(pre, post, dt_ms, c1, c2, c3, c4, c5, c7, p2, p6, s2, stats4, id4)
}

impl World {
    /// One simulation step of `dt_ms` elapsed milliseconds, drawing every
    /// random decision from `rng`.  The passes run in a fixed order:
    /// internal state (age, hunger burn, cooldown and overfed decay,
    /// starvation), eating, predation, reproduction, movement, environment
    /// dynamics (plant growth and soil decay), drowning, and finally the
    /// reap of everything flagged dead.  No pass observes a half-dead
    /// entity: dead-flagged creatures are excluded from every interaction
    /// and removed before the tick returns.
    #[verifier::rlimit(100)]
    pub fn tick(&mut self, dt_ms: u64, rng: &mut SimRng)
        requires
            old(self).wf(),
            1 <= dt_ms <= 86_400_000,
        ensures
            final(self).wf(),
            tick_rel(*old(self), *final(self), dt_ms),
            final(self).config == old(self).config,
            final(self).grid == old(self).grid,
            final(self).elapsed_ms == sat_add_u64(old(self).elapsed_ms, dt_ms),
            final(self).stats.at_least(old(self).stats),
            final(self).next_id >= old(self).next_id,
            // Hunger of everything that survives a tick stays within the
            // overheal floor and the starvation cap.
            forall|j: int| 0 <= j < final(self).creatures@.len() ==> -5_000 <= (#[trigger] final(self).creatures@[j]).hunger_milli <= 100_000,
            // A creature that began the tick digesting or berry-stunned
            // stands, if it survived, exactly where it began it.
            forall|i: int, j: int|
                0 <= i < old(self).creatures@.len() && 0 <= j < final(self).creatures@.len()
                    && blocked(#[trigger] old(self).creatures@[i]) && (#[trigger] final(self).creatures@[j]).id == old(self).creatures@[i].id ==> final(self).creatures@[j].x
                    == old(self).creatures@[i].x && final(self).creatures@[j].y == old(
                    self,
                ).creatures@[i].y,
    {
        let cfg = self.config;
        let ghost g = self.grid;
        let ghost g0 = self.creatures@;
        let ghost p0 = self.plants@;
        let ghost s0 = self.soils@;
        let ghost id0 = self.next_id;

        // 1. Age, hunger, cooldowns, starvation.
        phase_state_update(&mut self.creatures, &cfg, dt_ms);
        let ghost g1 = self.creatures@;
        proof {
            assert forall|i: int| 0 <= i < g0.len() implies creature_wf(#[trigger] g1[i], cfg, g)
                && g1[i].id == g0[i].id && g1[i].x == g0[i].x && g1[i].y == g0[i].y && (blocked(
                g0[i],
            ) ==> blocked(g1[i])) by {
                assert(creature_wf(g0[i], cfg, g));
            }
        }

        // 2. Eating.
        phase_eating(&mut self.creatures, &mut self.plants, &mut self.soils, &cfg);
        let ghost g2 = self.creatures@;
        let ghost p2 = self.plants@;
        let ghost s2 = self.soils@;
        proof {
            assert forall|i: int| 0 <= i < g0.len() implies creature_wf(#[trigger] g2[i], cfg, g)
                && g2[i].id == g0[i].id && g2[i].x == g0[i].x && g2[i].y == g0[i].y && (blocked(
                g0[i],
            ) ==> blocked(g2[i])) by {
                assert(eating_step(g1[i], g2[i], g1, i, p0, cfg));
                assert(creature_wf(g1[i], cfg, g));
            }
            assert forall|p: int| 0 <= p < p2.len() implies g.in_bounds(
                (#[trigger] p2[p]).x as int,
                p2[p].y as int,
            ) by {
                assert(plant_step(p0[p], p2[p]));
                assert(g.in_bounds(p0[p].x as int, p0[p].y as int));
            }
            assert forall|k: int| 0 <= k < s2.len() implies g.in_bounds(
                (#[trigger] s2[k]).x as int,
                s2[k].y as int,
            ) by {
                if k < s0.len() {
                    assert(s2[k] == s0[k]);
                    assert(g.in_bounds(s0[k].x as int, s0[k].y as int));
                } else {
                    assert(soil_from_plants(p0, s2[k], cfg));
                    let p = choose|p: int|
                        0 <= p < p0.len() && !(#[trigger] p0[p]).dead && s2[k] == (Soil {
                            x: p0[p].x,
                            y: p0[p].y,
                            remaining_ms: cfg.soil_exhaust_ms,
                        });
                    assert(g.in_bounds(p0[p].x as int, p0[p].y as int));
                }
            }
        }

        // 3. Predation.
        phase_predation(&mut self.creatures, &cfg);
        let ghost g3 = self.creatures@;
        proof {
            assert forall|i: int| 0 <= i < g0.len() implies creature_wf(#[trigger] g3[i], cfg, g)
                && g3[i].id == g0[i].id && g3[i].x == g0[i].x && g3[i].y == g0[i].y && (blocked(
                g0[i],
            ) ==> blocked(g3[i])) by {
                assert(predation_step(g2[i], g3[i], cfg));
                assert(creature_wf(g2[i], cfg, g));
            }
        }

        // 4. Reproduction.
        phase_reproduction(&mut self.creatures, &mut self.stats, &mut self.next_id, &cfg, rng);
        let ghost g4 = self.creatures@;
        let ghost id4 = self.next_id;
        let ghost stats4 = self.stats;
        proof {
            assert forall|i: int| 0 <= i < g0.len() implies creature_wf(#[trigger] g4[i], cfg, g)
                && g4[i].id == g0[i].id && g4[i].x == g0[i].x && g4[i].y == g0[i].y && (blocked(
                g0[i],
            ) ==> blocked(g4[i])) by {
                assert(repro_step(g3[i], g4[i], cfg));
                assert(creature_wf(g3[i], cfg, g));
            }
            assert forall|k: int| g0.len() <= k < g4.len() implies creature_wf(
                #[trigger] g4[k],
                cfg,
                g,
            ) && g4[k].id == id0 + (k - g0.len()) && !blocked(g4[k]) by {
                assert(born_into(g3, g4[k], cfg));
                let (a, b) = choose|a: int, b: int|
                    #[trigger] eligible_pair(g3, a, b) && g4[k] == baby_of(
                        g3[a],
                        cfg.species_spec(g3[a].species),
                        g4[k].id,
                    );
                assert(creature_wf(g3[a], cfg, g));
            }
            assert forall|i: int, j: int| 0 <= i < j < g4.len() implies (#[trigger] g4[i]).id != (
            #[trigger] g4[j]).id by {
                if j < g0.len() {
                    assert(g0[i].id != g0[j].id);
                } else if i < g0.len() {
                    assert(g4[i].id == g0[i].id && g0[i].id < id0);
                }
            }
            assert forall|i: int| 0 <= i < g4.len() implies (#[trigger] g4[i]).id < id4 by {
                if i < g0.len() {
                    assert(g4[i].id == g0[i].id && g0[i].id < id0);
                }
            }
        }

        // 5. Movement, on the pre-pass snapshot of creatures and plants.
        let plant_cells = live_plant_cells(&self.plants);
        phase_movement(&mut self.creatures, &self.grid, &plant_cells, &cfg, dt_ms, rng);
        let ghost g5 = self.creatures@;
        proof {
            assert forall|i: int| 0 <= i < g5.len() implies creature_wf(#[trigger] g5[i], cfg, g)
                && g5[i].id == g4[i].id && (blocked(g4[i]) ==> g5[i].x == g4[i].x && g5[i].y
                == g4[i].y) by {
                assert(moved_creature(g4, i, g5[i], live_cells(p2), cfg, g, dt_ms));
                assert(creature_wf(g4[i], cfg, g));
            }
        }

        // 6. Environment dynamics: growth attempt, then soil decay.
        growth_pass(&mut self.plants, &self.soils, &self.grid, &cfg, rng);
        let ghost p6 = self.plants@;
        phase_soils(&mut self.soils, dt_ms);
        let ghost s6 = self.soils@;
        proof {
            lemma_decay_membership(s2, dt_ms);
            assert forall|k: int| 0 <= k < s6.len() implies g.in_bounds(
                (#[trigger] s6[k]).x as int,
                s6[k].y as int,
            ) by {
                let j = choose|j: int|
                    0 <= j < s2.len() && #[trigger] s6[k] == crate::environment::decayed(
                        s2[j],
                        dt_ms,
                    ) && s2[j].remaining_ms > dt_ms;
                assert(g.in_bounds(s2[j].x as int, s2[j].y as int));
            }
        }

        // 7. Drowning.
        phase_drowning(&mut self.creatures, &self.grid);
        let ghost g7 = self.creatures@;
        proof {
            assert forall|i: int| 0 <= i < g7.len() implies creature_wf(#[trigger] g7[i], cfg, g)
                && g7[i].id == g5[i].id && g7[i].x == g5[i].x && g7[i].y == g5[i].y by {
                assert(creature_wf(g5[i], cfg, g));
            }
        }

        // 8. Reap everything flagged dead.
        reap_creatures(&mut self.creatures);
        reap_plants(&mut self.plants);
        let ghost gf = self.creatures@;
        let ghost pf = self.plants@;
        proof {
            lemma_reaped_membership(g7);
            assert forall|i: int, j: int| 0 <= i < j < g7.len() implies (#[trigger] g7[i]).id != (
            #[trigger] g7[j]).id by {
                assert(g4[i].id != g4[j].id);
            }
            lemma_reaped_unique_ids(g7);
            lemma_reaped_plants_membership(p6);
            assert forall|j: int| 0 <= j < gf.len() implies creature_wf(#[trigger] gf[j], cfg, g)
                && gf[j].id < id4 by {
                let i = choose|i: int| 0 <= i < g7.len() && gf[j] == #[trigger] g7[i] && !g7[i].dead;
                assert(creature_wf(g7[i], cfg, g));
                assert(g7[i].id == g4[i].id && g4[i].id < id4);
            }
            assert forall|p: int| 0 <= p < pf.len() implies g.in_bounds(
                (#[trigger] pf[p]).x as int,
                pf[p].y as int,
            ) by {
                let i = choose|i: int| 0 <= i < p6.len() && pf[p] == #[trigger] p6[i] && !p6[i].dead;
                assert(g.in_bounds(p6[i].x as int, p6[i].y as int));
            }
            // A blocked survivor kept its cell: its identity pins it to its
            // pre-tick entry, whose position every pass preserved.
            assert forall|i: int, j: int|
                0 <= i < g0.len() && 0 <= j < gf.len() && blocked(#[trigger] g0[i]) && (
                #[trigger] gf[j]).id == g0[i].id implies gf[j].x == g0[i].x && gf[j].y
                == g0[i].y by {
                let i7 = choose|i7: int| 0 <= i7 < g7.len() && gf[j] == #[trigger] g7[i7] && !g7[i7].dead;
                assert(g7[i7].id == g4[i7].id);
                if i7 >= g0.len() {
                    assert(g4[i7].id == id0 + (i7 - g0.len()));
                    assert(g0[i].id < id0);
                    assert(false);
                } else {
                    assert(g4[i7].id == g0[i7].id);
                    if i7 != i {
                        assert(g0[i7].id != g0[i].id);
                        assert(false);
                    }
                    assert(blocked(g4[i]));
                    assert(g5[i].x == g4[i].x && g5[i].y == g4[i].y);
                    assert(gf[j].x == g0[i].x && gf[j].y == g0[i].y);
                }
            }
        }

        self.elapsed_ms = if self.elapsed_ms <= u64::MAX - dt_ms {
            self.elapsed_ms + dt_ms
        } else {
            u64::MAX
        };
        proof {
            reveal(tick_rel);
            assert(tick_passes(
                *old(self),
                *self,
                dt_ms,
                g1,
                g2,
                g3,
                g4,
                g5,
                g7,
                p2,
                p6,
                s2,
                stats4,
                id4,
            ));
        }
    }
}

/// Removes every dead-flagged plant, keeping order.
pub fn reap_plants(plants: &mut Vec<Plant>)
    ensures
        final(plants)@ == reaped_plants(old(plants)@),
{
    let n = plants.len();
    let mut kept: Vec<Plant> = Vec::new();
    let mut i: usize = 0;
    while i < n
        invariant
            n == plants@.len(),
            plants@ == old(plants)@,
            i <= n,
            kept@ == reaped_plants(plants@.subrange(0, i as int)),
        decreases n - i,
    {
        proof {
            assert(plants@.subrange(0, i as int + 1).drop_last() =~= plants@.subrange(
                0,
                i as int,
            ));
            assert(plants@.subrange(0, i as int + 1).last() == plants@[i as int]);
        }
        let p = plants[i];
        if !p.dead {
            kept.push(p);
        }
        i = i + 1;
    }
    proof {
        assert(plants@.subrange(0, n as int) =~= plants@);
    }
    *plants = kept;
}

} // verus!
