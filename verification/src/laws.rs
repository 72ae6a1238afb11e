//! Laws of the simulation, stated once over the spec functions that the
//! passes' contracts use.
//!
//! Two more laws live directly in contracts: hunger stays within the
//! overheal floor and the starvation cap (`World::tick`) and only rises
//! outside eating and predation (`creature_state_update`), and a creature
//! that begins a tick digesting or berry-stunned never changes cell
//! (`World::tick`).

use vstd::prelude::*;
use crate::config::Terrain;
use crate::creature::Creature;
use crate::environment::valid_growth_cell;
use crate::interact::{eligible_pair, predation_pair};
use crate::world::{terrain_edit_rel, World};

verus! {

/// A creature that is digesting, overfed or in reproduction cooldown is
/// no member of any eligible pair: it cannot reproduce this tick, on
/// either side of the pair.
pub proof fn blocked_or_cooling_cannot_reproduce(s: Seq<Creature>, a: int, b: int)
    requires
        0 <= a < s.len(),
        s[a].state is Digesting || s[a].state is Overfed || s[a].cooldown_ms > 0,
    ensures
        !eligible_pair(s, a, b),
        !eligible_pair(s, b, a),
{
}

/// Predation demands predator adulthood and exact cell equality: every
/// predation pair stands on one and the same cell, with an adult killer.
pub proof fn predation_requires_colocated_adult(pred: Creature, prey: Creature)
    requires
        predation_pair(pred, prey),
    ensures
        pred.x == prey.x && pred.y == prey.y,
        pred.is_adult,
{
}

/// A baby predator never kills: colocated with prey or not, it makes no
/// predation pair.
pub proof fn baby_predator_never_kills(pred: Creature, prey: Creature)
    requires
        !pred.is_adult,
    ensures
        !predation_pair(pred, prey),
{
}

/// The terrain round trip: toggling a cell to water (which clears the
/// cell's plants and soil markers) and straight back to land restores its
/// eligibility as growth ground — nothing is left to block regrowth.
pub proof fn terrain_round_trip(w0: World, w1: World, w2: World, x: int, y: int)
    requires
        w0.grid.in_bounds(x, y),
        terrain_edit_rel(w0, w1, x, y, Terrain::Water),
        terrain_edit_rel(w1, w2, x, y, Terrain::Land),
    ensures
        valid_growth_cell(w2.grid, w2.plants@, w2.soils@, x, y),
{
    assert(w1.grid.in_bounds(x, y));
    assert(w2.grid.in_bounds(x, y));
    assert(!w2.grid.water_at(x, y));
    assert(w2.plants@ == w1.plants@ && w2.soils@ == w1.soils@);
}

} // verus!
