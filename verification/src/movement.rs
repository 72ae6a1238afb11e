//! Move scoring and the movement pass of a tick.
//!
//! A creature due to move evaluates the four orthogonal steps that stay on
//! the grid.  Each candidate scores a uniform random term in `[0, 20)`,
//! a heavy penalty if it lands on water and the creature fears water, a
//! penalty for stepping back onto the previous cell, and a directional
//! term that pulls toward food, mate and hunt targets and pushes away from
//! flee targets.  The first candidate with the maximum score wins, in the
//! fixed scan order down, up, left, right.

use vstd::prelude::*;
use crate::config::SimConfig;
use crate::creature::{Activity, Creature};
use crate::grid::Grid;
use crate::rng::SimRng;
use crate::target::{
    dist, manhattan, make_views, select_target, spec_select_target, views_of, Cell, Target,
    TargetKind,
};

verus! {

/// Penalty for stepping onto water when the creature fears it.
pub const WATER_PENALTY: i64 = 1_000;

/// Penalty for stepping back onto the previous cell.
pub const BACKTRACK_PENALTY: i64 = 30;

/// Exclusive bound of the uniform random score term.
pub const RANDOM_SCORE_SPAN: u64 = 20;

/// A score below that of any in-bounds candidate.
pub const SCORE_FLOOR: i64 = -9_999;

/// The score of stepping onto `(nx, ny)`, given the random term drawn for
/// this candidate.
pub open spec fn move_score(
    me: Creature,
    g: Grid,
    target: Option<Target>,
    nx: int,
    ny: int,
    rand_term: int,
) -> int {
    let water_pen: int = if me.scared_of_water && g.water_at(nx, ny) {
        WATER_PENALTY as int
    } else {
        0
    };
    let back_pen: int = if nx == me.last_x as int && ny == me.last_y as int {
        BACKTRACK_PENALTY as int
    } else {
        0
    };
    let directional: int = match target {
        Option::Some(t) => {
            let delta = dist(nx, ny, t.x as int, t.y as int) - dist(
                me.x as int,
                me.y as int,
                t.x as int,
                t.y as int,
            );
            match t.kind {
                TargetKind::Flee => delta * t.weight,
                _ => -(delta * t.weight),
            }
        },
        Option::None => 0,
    };
    rand_term - water_pen - back_pen + directional
}

/// The four candidate steps, in scan order: down, up, left, right.
pub open spec fn cand_steps() -> Seq<(int, int)> {
    seq![(0int, 1int), (0int, -1int), (-1int, 0int), (1int, 0int)]
}

/// Folds one candidate into the running best: an out-of-bounds candidate
/// is skipped, and only a strictly greater score replaces the best, so the
/// first candidate at the maximum wins.
pub open spec fn step_once(
    me: Creature,
    g: Grid,
    target: Option<Target>,
    dx: int,
    dy: int,
    rand_term: int,
    prev: ((int, int), int),
) -> ((int, int), int) {
    let nx = me.x + dx;
    let ny = me.y + dy;
    if g.in_bounds(nx, ny) {
        let s = move_score(me, g, target, nx, ny, rand_term);
        if s > prev.1 {
            ((dx, dy), s)
        } else {
            prev
        }
    } else {
        prev
    }
}

/// The best step after considering the first `k` candidates.
pub open spec fn best_step_upto(
    me: Creature,
    g: Grid,
    target: Option<Target>,
    rands: Seq<int>,
    k: int,
) -> ((int, int), int)
    decreases k,
{
    if k <= 0 {
        ((0int, 0int), SCORE_FLOOR as int)
    } else {
        step_once(
            me,
            g,
            target,
            cand_steps()[k - 1].0,
            cand_steps()[k - 1].1,
            rands[k - 1],
            best_step_upto(me, g, target, rands, k - 1),
        )
    }
}

/// The step a creature takes, given the four random terms: the first of
/// the in-bounds candidates down, up, left, right to reach the maximum
/// score, or no step if every candidate leaves the grid.
pub open spec fn spec_choose_step(
    me: Creature,
    g: Grid,
    target: Option<Target>,
    rands: Seq<int>,
) -> (int, int) {
    best_step_upto(me, g, target, rands, 4).0
}

/// The integer view of the running best (step and score).
pub open spec fn lift_best(b: ((i32, i32), i64)) -> ((int, int), int) {
    ((b.0.0 as int, b.0.1 as int), b.1 as int)
}

/// Folds one candidate step into the running best.
fn consider_step(
    me: &Creature,
    g: &Grid,
    target: Option<Target>,
    dx: i32,
    dy: i32,
    rand_term: i64,
    best: &mut ((i32, i32), i64),
)
    requires
        g.wf(),
        g.in_bounds(me.x as int, me.y as int),
        -1 <= dx <= 1 && -1 <= dy <= 1,
        0 <= rand_term < RANDOM_SCORE_SPAN,
        target matches Some(t) ==> 0 <= t.weight <= 1_000_000,
        old(best).1 >= SCORE_FLOOR,
    ensures
        lift_best(*final(best)) == step_once(
            *me,
            *g,
            target,
            dx as int,
            dy as int,
            rand_term as int,
            lift_best(*old(best)),
        ),
        final(best).0 == old(best).0 || g.in_bounds(me.x + dx, me.y + dy) && final(best).0 == (
            dx,
            dy,
        ),
        final(best).1 >= SCORE_FLOOR,
{
    let nx = me.x + dx;
    let ny = me.y + dy;
    if nx < -g.half || nx >= g.half || ny < -g.half || ny >= g.half {
        return ;
    }
    let mut score: i64 = rand_term;
    if me.scared_of_water && g.is_water(nx, ny) {
        score = score - WATER_PENALTY;
    }
    if nx == me.last_x && ny == me.last_y {
        score = score - BACKTRACK_PENALTY;
    }
    match target {
        Option::Some(t) => {
            let d_after = manhattan(nx, ny, t.x, t.y);
            let d_now = manhattan(me.x, me.y, t.x, t.y);
            let delta = d_after - d_now;
            proof {
                assert(-8_589_934_592_000_000i64 <= delta * t.weight <= 8_589_934_592_000_000i64)
                    by (nonlinear_arith)
                    requires
                        -8_589_934_592i64 <= delta <= 8_589_934_592i64,
                        0 <= t.weight <= 1_000_000,
                ;
            }
            let directional = delta * t.weight;
            match t.kind {
                TargetKind::Flee => {
                    score = score + directional;
                },
                _ => {
                    score = score - directional;
                },
            }
        },
        Option::None => {},
    }
    if score > best.1 {
        *best = ((dx, dy), score);
    }
}

/// Picks the step of a creature due to move, from the four random terms
/// drawn for the four candidates.
pub fn choose_step(
    me: &Creature,
    g: &Grid,
    target: Option<Target>,
    r0: i64,
    r1: i64,
    r2: i64,
    r3: i64,
) -> (step: (i32, i32))
    requires
        g.wf(),
        g.in_bounds(me.x as int, me.y as int),
        0 <= r0 < RANDOM_SCORE_SPAN,
        0 <= r1 < RANDOM_SCORE_SPAN,
        0 <= r2 < RANDOM_SCORE_SPAN,
        0 <= r3 < RANDOM_SCORE_SPAN,
        target matches Some(t) ==> 0 <= t.weight <= 1_000_000,
    ensures
        (step.0 as int, step.1 as int) == spec_choose_step(
            *me,
            *g,
            target,
            seq![r0 as int, r1 as int, r2 as int, r3 as int],
        ),
        g.in_bounds(me.x + step.0, me.y + step.1),
        crate::target::iabs(step.0 as int) + crate::target::iabs(step.1 as int) <= 1,
{
    let ghost rands: Seq<int> = seq![r0 as int, r1 as int, r2 as int, r3 as int];
    let mut best: ((i32, i32), i64) = ((0, 0), SCORE_FLOOR);
    proof {
        assert(cand_steps()[0] == (0int, 1int));
        assert(cand_steps()[1] == (0int, -1int));
        assert(cand_steps()[2] == (-1int, 0int));
        assert(cand_steps()[3] == (1int, 0int));
        assert(rands[0] == r0 as int && rands[1] == r1 as int && rands[2] == r2 as int
            && rands[3] == r3 as int);
        assert(best_step_upto(*me, *g, target, rands, 0) == ((0int, 0int), SCORE_FLOOR as int));
    }
    consider_step(me, g, target, 0, 1, r0, &mut best);
    proof {
        assert(lift_best(best) == best_step_upto(*me, *g, target, rands, 1));
    }
    consider_step(me, g, target, 0, -1, r1, &mut best);
    proof {
        assert(lift_best(best) == best_step_upto(*me, *g, target, rands, 2));
    }
    consider_step(me, g, target, -1, 0, r2, &mut best);
    proof {
        assert(lift_best(best) == best_step_upto(*me, *g, target, rands, 3));
    }
    consider_step(me, g, target, 1, 0, r3, &mut best);
    proof {
        assert(lift_best(best) == best_step_upto(*me, *g, target, rands, 4));
    }
    best.0
}

/// The move interval of a creature: the reproduction interval while a
/// cooldown runs, stretched by the overfed multiplier while overfed,
/// otherwise the base interval.
pub open spec fn move_interval_ms(c: Creature, cfg: SimConfig) -> u64 {
    if c.state is Overfed {
        (cfg.base_move_ms * cfg.overfed_move_multiplier_tenths / 10) as u64
    } else if c.cooldown_ms > 0 {
        cfg.reproduction_move_ms
    } else {
        cfg.base_move_ms
    }
}

/// Every creature of `s`, and its remembered previous cell, lies on the
/// grid.
pub open spec fn all_in_bounds(s: Seq<Creature>, g: Grid) -> bool {
    forall|i: int| 0 <= i < s.len() ==> #[trigger] g.in_bounds(s[i].x as int, s[i].y as int)
        && g.in_bounds(s[i].last_x as int, s[i].last_y as int)
}

/// The applied step is one the verified scorer picks: there exist four
/// random terms in range under which the scoring pipeline — fed this
/// creature's target, selected over the pre-pass snapshot of all
/// creatures and the live plant cells — chooses exactly the step from the
/// creature's old cell to its new one.
pub open spec fn scored_step(
    pre_all: Seq<Creature>,
    i: int,
    post: Creature,
    cells: Seq<Cell>,
    cfg: SimConfig,
    g: Grid,
) -> bool {
    exists|rands: Seq<int>|
        {
            let step = #[trigger] spec_choose_step(
                pre_all[i],
                g,
                spec_select_target(pre_all[i], i, views_of(pre_all), cells, cfg),
                rands,
            );
            &&& rands.len() == 4
            &&& (forall|q: int| 0 <= q < 4 ==> 0 <= #[trigger] rands[q] < RANDOM_SCORE_SPAN)
            &&& post.x as int == pre_all[i].x + step.0
            &&& post.y as int == pre_all[i].y + step.1
        }
}

/// What the movement pass does to one creature.  A berry-stunned
/// creature only counts its stun down (and wakes at zero); a digesting
/// creature only waits for its overheal to burn off (and turns overfed at
/// zero); neither moves.  An unblocked creature whose move timer has not
/// yet reached its interval only accumulates time; one whose timer fired
/// takes one in-bounds step (possibly of zero cells), remembers the cell
/// it stood on, and restarts its timer.  Only the step taken is left open
/// here: it depends on the random terms drawn.
pub open spec fn moved_creature(
    pre_all: Seq<Creature>,
    i: int,
    post: Creature,
    cells: Seq<Cell>,
    cfg: SimConfig,
    g: Grid,
    dt_ms: u64,
) -> bool {
    let pre = pre_all[i];
    if pre.dead {
        post == pre
    } else if pre.state is BerryStunned {
        post == (Creature {
            state: match pre.state {
                Activity::BerryStunned { remaining_ms } => if remaining_ms <= dt_ms {
                    Activity::Active
                } else {
                    Activity::BerryStunned { remaining_ms: (remaining_ms - dt_ms) as u64 }
                },
                s => s,
            },
            ..pre
        })
    } else if pre.state is Digesting {
        post == (Creature {
            state: if pre.hunger_milli >= 0 {
                Activity::Overfed { remaining_ms: cfg.overfed_duration_ms }
            } else {
                Activity::Digesting
            },
            ..pre
        })
    } else if crate::creature::sat_add_u64(pre.move_elapsed_ms, dt_ms) < move_interval_ms(
        pre,
        cfg,
    ) {
        post == (Creature {
            move_elapsed_ms: crate::creature::sat_add_u64(pre.move_elapsed_ms, dt_ms),
            ..pre
        })
    } else {
        &&& post == (Creature {
            x: post.x,
            y: post.y,
            last_x: pre.x,
            last_y: pre.y,
            move_elapsed_ms: 0,
            ..pre
        })
        &&& g.in_bounds(post.x as int, post.y as int)
        &&& dist(pre.x as int, pre.y as int, post.x as int, post.y as int) <= 1
        &&& scored_step(pre_all, i, post, cells, cfg, g)
    }
}

/// The cells of the live plants of `s`, in order.
pub open spec fn live_cells(s: Seq<crate::environment::Plant>) -> Seq<Cell>
    decreases s.len(),
{
    if s.len() == 0 {
        Seq::empty()
    } else {
        let prev = live_cells(s.drop_last());
        if s.last().dead {
            prev
        } else {
            prev.push(Cell { x: s.last().x, y: s.last().y })
        }
    }
}

/// Snapshots the cells of all live plants, in order.
pub fn live_plant_cells(plants: &Vec<crate::environment::Plant>) -> (cells: Vec<Cell>)
    ensures
        cells@ == live_cells(plants@),
{
    let n = plants.len();
    let mut cells: Vec<Cell> = Vec::new();
    let mut i: usize = 0;
    while i < n
        invariant
            n == plants@.len(),
            i <= n,
            cells@ == live_cells(plants@.subrange(0, i as int)),
        decreases n - i,
    {
        proof {
            assert(plants@.subrange(0, i as int + 1).drop_last() =~= plants@.subrange(0, i as int));
            assert(plants@.subrange(0, i as int + 1).last() == plants@[i as int]);
        }
        let p = plants[i];
        if !p.dead {
            cells.push(Cell { x: p.x, y: p.y });
        }
        i = i + 1;
    }
    proof {
        assert(plants@.subrange(0, n as int) =~= plants@);
    }
    cells
}

/// The movement pass of a tick: counts down stun and digestion, and moves
/// every live, unblocked creature whose move timer has elapsed, each
/// acting on the pre-pass snapshot of all creatures and plants.
pub fn phase_movement(
    creatures: &mut Vec<Creature>,
    g: &Grid,
    plant_cells: &Vec<Cell>,
    cfg: &SimConfig,
    dt_ms: u64,
    rng: &mut SimRng,
)
    requires
        g.wf(),
        cfg.wf(),
        1 <= dt_ms <= 86_400_000,
        all_in_bounds(old(creatures)@, *g),
    ensures
        final(creatures)@.len() == old(creatures)@.len(),
        forall|i: int| 0 <= i < old(creatures)@.len() ==> moved_creature(
            old(creatures)@,
            i,
            #[trigger] final(creatures)@[i],
            plant_cells@,
            *cfg,
            *g,
            dt_ms,
        ),
{
    let views = make_views(creatures);
    let n = creatures.len();
    let mut i: usize = 0;
    while i < n
        invariant
            n == old(creatures)@.len(),
            creatures@.len() == n,
            views@.len() == n,
            i <= n,
            g.wf(),
            cfg.wf(),
            1 <= dt_ms <= 86_400_000,
            all_in_bounds(old(creatures)@, *g),
            views@ == views_of(old(creatures)@),
            forall|k: int| 0 <= k < i ==> moved_creature(
                old(creatures)@,
                k,
                #[trigger] creatures@[k],
                plant_cells@,
                *cfg,
                *g,
                dt_ms,
            ),
            forall|k: int| i <= k < n ==> creatures@[k] == old(creatures)@[k],
        decreases n - i,
    {
        let mut c = creatures[i];
        if c.dead {
            i = i + 1;
            continue;
        }
        match c.state {
            Activity::BerryStunned { remaining_ms } => {
                c.state = if remaining_ms <= dt_ms {
                    Activity::Active
                } else {
                    Activity::BerryStunned { remaining_ms: remaining_ms - dt_ms }
                };
                creatures.set(i, c);
                i = i + 1;
                continue;
            },
            Activity::Digesting => {
                if c.hunger_milli >= 0 {
                    c.state = Activity::Overfed { remaining_ms: cfg.overfed_duration_ms };
                    creatures.set(i, c);
                }
                i = i + 1;
                continue;
            },
            _ => {},
        }

        let interval: u64 = if matches!(c.state, Activity::Overfed { .. }) {
            proof {
                assert(cfg.base_move_ms * cfg.overfed_move_multiplier_tenths
                    <= 86_400_000_000u64) by (nonlinear_arith)
                    requires
                        1 <= cfg.base_move_ms <= 86_400_000,
                        1 <= cfg.overfed_move_multiplier_tenths <= 1_000,
                ;
            }
            cfg.base_move_ms * cfg.overfed_move_multiplier_tenths / 10
        } else if c.cooldown_ms > 0 {
            cfg.reproduction_move_ms
        } else {
            cfg.base_move_ms
        };

        let elapsed: u64 = if c.move_elapsed_ms <= u64::MAX - dt_ms {
            c.move_elapsed_ms + dt_ms
        } else {
            u64::MAX
        };
        if elapsed < interval {
            c.move_elapsed_ms = elapsed;
            creatures.set(i, c);
            i = i + 1;
            continue;
        }

        // The creature is due to move: select its target and score the
        // step over the untouched pre-pass entry.
        let target = select_target(&c, i, &views, plant_cells, cfg);
        let r0 = rng.below(RANDOM_SCORE_SPAN) as i64;
        let r1 = rng.below(RANDOM_SCORE_SPAN) as i64;
        let r2 = rng.below(RANDOM_SCORE_SPAN) as i64;
        let r3 = rng.below(RANDOM_SCORE_SPAN) as i64;
        let step = choose_step(&c, g, target, r0, r1, r2, r3);
        let old_x = c.x;
        let old_y = c.y;
        c.move_elapsed_ms = 0;
        c.x = c.x + step.0;
        c.y = c.y + step.1;
        c.last_x = old_x;
        c.last_y = old_y;
        creatures.set(i, c);
        proof {
            let pre_all = old(creatures)@;
            let rands: Seq<int> = seq![r0 as int, r1 as int, r2 as int, r3 as int];
            let spec_step = spec_choose_step(
                pre_all[i as int],
                *g,
                spec_select_target(
                    pre_all[i as int],
                    i as int,
                    views_of(pre_all),
                    plant_cells@,
                    *cfg,
                ),
                rands,
            );
            assert(rands.len() == 4);
            assert(forall|q: int| 0 <= q < 4 ==> 0 <= #[trigger] rands[q] < RANDOM_SCORE_SPAN);
            assert(creatures@[i as int].x as int == pre_all[i as int].x + spec_step.0
                && creatures@[i as int].y as int == pre_all[i as int].y + spec_step.1);
            assert(scored_step(pre_all, i as int, creatures@[i as int], plant_cells@, *cfg, *g));
        }
        i = i + 1;
    }
}

} // verus!
