//! Environment dynamics: plants, soil-exhaustion markers, spontaneous
//! growth, and the decay of exhausted soil.

use vstd::prelude::*;
use crate::grid::Grid;

verus! {

/// A plant on a cell.  A plant flagged dead is reaped at the end of the
/// tick that ate it.
#[derive(Clone, Copy, PartialEq, Eq, Structural, Debug)]
pub struct Plant {
    pub x: i32,
    pub y: i32,
    pub dead: bool,
}

/// A soil-exhaustion marker: blocks plant growth on its cell until its
/// timer elapses.
#[derive(Clone, Copy, PartialEq, Eq, Structural, Debug)]
pub struct Soil {
    pub x: i32,
    pub y: i32,
    pub remaining_ms: u64,
}

/// Whether a live plant stands on cell `(x, y)`.
pub open spec fn live_plant_at(plants: Seq<Plant>, x: int, y: int) -> bool {
    exists|k: int|
        0 <= k < plants.len() && #[trigger] plants[k].x == x && plants[k].y == y && !plants[k].dead
}

/// Whether a soil-exhaustion marker stands on cell `(x, y)`.
pub open spec fn soil_at(soils: Seq<Soil>, x: int, y: int) -> bool {
    exists|k: int| 0 <= k < soils.len() && #[trigger] soils[k].x == x && soils[k].y == y
}

/// Valid growth ground: a land cell of the grid with neither a live plant
/// nor a soil-exhaustion marker on it.
pub open spec fn valid_growth_cell(g: Grid, plants: Seq<Plant>, soils: Seq<Soil>, x: int, y: int) -> bool {
    &&& g.in_bounds(x, y)
    &&& !g.water_at(x, y)
    &&& !live_plant_at(plants, x, y)
    &&& !soil_at(soils, x, y)
}

/// One growth attempt at cell `(x, y)`: a plant sprouts there exactly when
/// the cell is valid growth ground.
pub fn plant_growth_attempt(plants: &mut Vec<Plant>, soils: &Vec<Soil>, g: &Grid, x: i32, y: i32)
    requires
        g.wf(),
    ensures
        final(plants)@ == if valid_growth_cell(*g, old(plants)@, soils@, x as int, y as int) {
            old(plants)@.push(Plant { x, y, dead: false })
        } else {
            old(plants)@
        },
{
    if x < -g.half || x >= g.half || y < -g.half || y >= g.half {
        return ;
    }
    if g.is_water(x, y) {
        return ;
    }
    let mut k: usize = 0;
    while k < plants.len()
        invariant
            k <= plants@.len(),
            plants@ == old(plants)@,
            forall|j: int| 0 <= j < k ==> !(#[trigger] plants@[j].x == x && plants@[j].y == y
                && !plants@[j].dead),
        decreases plants@.len() - k,
    {
        let p = plants[k];
        if p.x == x && p.y == y && !p.dead {
            return ;
        }
        k = k + 1;
    }
    let mut m: usize = 0;
    while m < soils.len()
        invariant
            m <= soils@.len(),
            plants@ == old(plants)@,
            forall|j: int| 0 <= j < m ==> !(#[trigger] soils@[j].x == x && soils@[j].y == y),
        decreases soils@.len() - m,
    {
        let s = soils[m];
        if s.x == x && s.y == y {
            return ;
        }
        m = m + 1;
    }
    plants.push(Plant { x, y, dead: false });
}

/// `s`, with `dt_ms` of its lifetime spent.
pub open spec fn decayed(s: Soil, dt_ms: u64) -> Soil {
    Soil { remaining_ms: (s.remaining_ms - dt_ms) as u64, ..s }
}

/// The markers of `s` that outlive `dt_ms`, each decayed, in order.
pub open spec fn decay_survivors(s: Seq<Soil>, dt_ms: u64) -> Seq<Soil>
    decreases s.len(),
{
    if s.len() == 0 {
        Seq::empty()
    } else {
        let prev = decay_survivors(s.drop_last(), dt_ms);
        if s.last().remaining_ms > dt_ms {
            prev.push(decayed(s.last(), dt_ms))
        } else {
            prev
        }
    }
}

/// Every survivor of the decay stems from a distinct marker that had time
/// left.
pub proof fn lemma_decay_membership(s: Seq<Soil>, dt_ms: u64)
    ensures
        forall|k: int| 0 <= k < decay_survivors(s, dt_ms).len() ==> exists|j: int|
            0 <= j < s.len() && #[trigger] decay_survivors(s, dt_ms)[k] == decayed(s[j], dt_ms)
                && s[j].remaining_ms > dt_ms,
        decay_survivors(s, dt_ms).len() <= s.len(),
    decreases s.len(),
{
    if s.len() > 0 {
        lemma_decay_membership(s.drop_last(), dt_ms);
        let prev = decay_survivors(s.drop_last(), dt_ms);
        assert forall|k: int| 0 <= k < decay_survivors(s, dt_ms).len() implies exists|j: int|
            0 <= j < s.len() && #[trigger] decay_survivors(s, dt_ms)[k] == decayed(s[j], dt_ms)
                && s[j].remaining_ms > dt_ms by {
            if k < prev.len() {
                let j = choose|j: int|
                    0 <= j < s.drop_last().len() && #[trigger] prev[k] == decayed(
                        s.drop_last()[j],
                        dt_ms,
                    ) && s.drop_last()[j].remaining_ms > dt_ms;
                assert(decay_survivors(s, dt_ms)[k] == decayed(s[j], dt_ms));
            } else {
                assert(decay_survivors(s, dt_ms)[k] == decayed(s[s.len() - 1], dt_ms));
            }
        }
    }
}

/// The soil pass of a tick: every marker counts down, and one whose timer
/// elapses is removed outright, keeping the order of the rest.
pub fn phase_soils(soils: &mut Vec<Soil>, dt_ms: u64)
    ensures
        final(soils)@ == decay_survivors(old(soils)@, dt_ms),
{
    let n = soils.len();
    let mut kept: Vec<Soil> = Vec::new();
    let mut i: usize = 0;
    while i < n
        invariant
            n == soils@.len(),
            soils@ == old(soils)@,
            i <= n,
            kept@ == decay_survivors(soils@.subrange(0, i as int), dt_ms),
        decreases n - i,
    {
        proof {
            assert(soils@.subrange(0, i as int + 1).drop_last() =~= soils@.subrange(0, i as int));
            assert(soils@.subrange(0, i as int + 1).last() == soils@[i as int]);
        }
        let s = soils[i];
        if s.remaining_ms > dt_ms {
            kept.push(Soil { x: s.x, y: s.y, remaining_ms: s.remaining_ms - dt_ms });
        }
        i = i + 1;
    }
    proof {
        assert(soils@.subrange(0, n as int) =~= soils@);
    }
    *soils = kept;
}

} // verus!
