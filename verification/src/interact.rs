//! Creature-to-creature and creature-to-plant interactions: predation,
//! eating, and reproduction.

use vstd::prelude::*;
use crate::config::{SimConfig, Species, SpeciesConfig};
use crate::creature::{blocked, Activity, Creature};
use crate::environment::{live_plant_at, Plant, Soil};
use crate::rng::SimRng;
use crate::target::{dist, manhattan, PRED_FRUIT_MAX_MILLI};

verus! {

/// An altruistic herbivore below this hunger abstains from eating when kin
/// is in sight.
pub const ALTRUISM_MILLI: i64 = 20_000;

/// `c`, flagged dead.
pub open spec fn killed(c: Creature) -> Creature {
    Creature { dead: true, ..c }
}

/// `c` right after a kill: hunger forced to the overheal and digesting.
pub open spec fn gorged(c: Creature, cfg: SimConfig) -> Creature {
    Creature { hunger_milli: cfg.kill_overheal_milli, state: Activity::Digesting, ..c }
}

/// A predation event: a live adult predator on exactly the cell of live
/// prey.  Baby predators never qualify.
pub open spec fn predation_pair(pred: Creature, prey: Creature) -> bool {
    &&& !pred.dead && !prey.dead
    &&& pred.species is Predator
    &&& pred.is_adult
    &&& prey.species is Herbivore
    &&& pred.x == prey.x && pred.y == prey.y
}

/// What the predation pass may do to one creature: leave it, kill it as
/// prey, or gorge it as a killer.
pub open spec fn predation_step(pre: Creature, post: Creature, cfg: SimConfig) -> bool {
    ||| post == pre
    ||| (pre.species is Herbivore && post == killed(pre))
    ||| (pre.species is Predator && pre.is_adult && !pre.dead && post == gorged(pre, cfg))
}

/// The joint outcomes of the predation pass, tying deaths and meals
/// together.  A death has a live adult predator on exactly the same cell
/// behind it, now digesting its overheal; a hunger change means this
/// creature killed, and its prey is dead; and no kill is missed: a
/// predator that stood in a predation pair either digests now, or every
/// prey on its cell fell to others.  Opaque: reveal it where needed.
#[verifier::opaque]
pub open spec fn predation_outcomes(pre: Seq<Creature>, post: Seq<Creature>, cfg: SimConfig) -> bool {
    &&& (forall|i: int| 0 <= i < pre.len() && post.len() == pre.len() && post[i].dead
        && !pre[i].dead ==> exists|w: int|
        0 <= w < pre.len() && w != i && #[trigger] predation_pair(pre[w], pre[i]) && post[w].state
            is Digesting && post[w].hunger_milli == cfg.kill_overheal_milli)
    &&& (forall|i: int| 0 <= i < pre.len() && post.len() == pre.len()
        && (#[trigger] post[i].hunger_milli) != pre[i].hunger_milli ==> {
        &&& post[i] == gorged(pre[i], cfg)
        &&& exists|s: int| 0 <= s < pre.len() && s != i && #[trigger] predation_pair(
            pre[i],
            pre[s],
        ) && post[s].dead
    })
    &&& (forall|w: int, s: int|
        0 <= w < pre.len() && 0 <= s < pre.len() && post.len() == pre.len() && s != w
            && #[trigger] predation_pair(pre[w], pre[s]) ==> post[w].state is Digesting
            || post[s].dead)
}

/// The predation pass: every live adult predator kills the first live prey
/// found on its own cell — at most one kill per predator per tick.  The
/// predator's hunger is forced to the overheal and it starts digesting;
/// the prey is flagged dead, to be reaped at the end of the tick.
#[verifier::spinoff_prover]
pub fn phase_predation(creatures: &mut Vec<Creature>, cfg: &SimConfig)
    requires
        cfg.wf(),
    ensures
        final(creatures)@.len() == old(creatures)@.len(),
        // Each creature is untouched, or killed as prey, or gorged as a killer.
        forall|i: int| 0 <= i < old(creatures)@.len() ==> predation_step(
            #[trigger] old(creatures)@[i],
            final(creatures)@[i],
            *cfg,
        ),
        predation_outcomes(old(creatures)@, final(creatures)@, *cfg),
{
    let n = creatures.len();
    let ghost old_c = old(creatures)@;
    let mut w: usize = 0;
    while w < n
        invariant
            old_c == old(creatures)@,
            n == old_c.len(),
            creatures@.len() == n,
            w <= n,
            cfg.wf(),
            forall|i: int| 0 <= i < n ==> predation_step(#[trigger] old_c[i], creatures@[i], *cfg),
            forall|i: int| 0 <= i < n && creatures@[i].dead && !old_c[i].dead ==> exists|v: int|
                0 <= v < n && v != i && #[trigger] predation_pair(old_c[v], old_c[i])
                    && creatures@[v].state is Digesting && creatures@[v].hunger_milli
                    == cfg.kill_overheal_milli,
            forall|i: int| 0 <= i < n && #[trigger] creatures@[i].hunger_milli
                != old_c[i].hunger_milli ==> {
                &&& creatures@[i] == gorged(old_c[i], *cfg)
                &&& exists|t: int| 0 <= t < n && t != i && #[trigger] predation_pair(
                    old_c[i],
                    old_c[t],
                ) && creatures@[t].dead
            },
            forall|w2: int, s2: int|
                0 <= w2 < w && 0 <= s2 < n && s2 != w2 && #[trigger] predation_pair(
                    old_c[w2],
                    old_c[s2],
                ) ==> creatures@[w2].state is Digesting || creatures@[s2].dead,
        decreases n - w,
    {
        let wolf = creatures[w];
        if wolf.dead || !wolf.is_adult || !matches!(wolf.species, Species::Predator) {
            proof {
                // This entry never stood in a pair as a predator.
                assert forall|s2: int|
                    0 <= s2 < n && s2 != w && #[trigger] predation_pair(
                        old_c[w as int],
                        old_c[s2],
                    ) implies creatures@[w as int].state is Digesting || creatures@[s2].dead by {
                    assert(predation_step(old_c[w as int], creatures@[w as int], *cfg));
                }
            }
            w = w + 1;
            continue;
        }
        // Scan for the first live prey on the wolf's cell; nothing mutates
        // during the scan.
        let mut s: usize = 0;
        let mut prey_idx: usize = n;
        while s < n && prey_idx == n
            invariant
                n == creatures@.len(),
                s <= n,
                w < n,
                wolf == creatures@[w as int],
                prey_idx == n || (prey_idx < n && prey_idx != w && {
                    let p = creatures@[prey_idx as int];
                    &&& !p.dead
                    &&& p.species is Herbivore
                    &&& p.x == wolf.x && p.y == wolf.y
                }),
                prey_idx == n ==> forall|s2: int|
                    0 <= s2 < s ==> !(s2 != w && !(#[trigger] creatures@[s2]).dead
                        && creatures@[s2].species is Herbivore && creatures@[s2].x == wolf.x
                        && creatures@[s2].y == wolf.y),
            decreases n - s,
        {
            let cand = creatures[s];
            if s != w && !cand.dead && matches!(cand.species, Species::Herbivore) && wolf.x
                == cand.x && wolf.y == cand.y {
                prey_idx = s;
            }
            s = s + 1;
        }
        if prey_idx < n {
            let s_idx = prey_idx;
            let sheep = creatures[s_idx];
            proof {
                let ow = old_c[w as int];
                let os = old_c[s_idx as int];
                assert(predation_step(ow, creatures@[w as int], *cfg));
                assert(predation_step(os, creatures@[s_idx as int], *cfg));
                // The killer is `ow` untouched or already gorged; the prey
                // is `os` untouched: both were live on this very cell.
                assert(wolf == ow || wolf == gorged(ow, *cfg));
                assert(sheep == os);
                assert(predation_pair(ow, os));
            }
            let ghost mid = creatures@;
            creatures.set(s_idx, Creature { dead: true, ..sheep });
            creatures.set(
                w,
                Creature {
                    hunger_milli: cfg.kill_overheal_milli,
                    state: Activity::Digesting,
                    ..wolf
                },
            );
            proof {
                let ow = old_c[w as int];
                let os = old_c[s_idx as int];
                assert(creatures@[s_idx as int] == killed(os));
                assert(creatures@[w as int] == gorged(ow, *cfg));
                assert forall|i: int| 0 <= i < n && creatures@[i].dead && !old_c[i].dead
                    implies exists|v: int|
                    0 <= v < n && v != i && #[trigger] predation_pair(old_c[v], old_c[i])
                        && creatures@[v].state is Digesting && creatures@[v].hunger_milli
                        == cfg.kill_overheal_milli by {
                    if i == s_idx as int {
                        assert(predation_pair(ow, os));
                        assert(creatures@[w as int].state is Digesting
                            && creatures@[w as int].hunger_milli == cfg.kill_overheal_milli);
                    } else if i != w as int {
                        let v0 = choose|v0: int|
                            0 <= v0 < n && v0 != i && #[trigger] predation_pair(old_c[v0], old_c[i])
                                && mid[v0].state is Digesting && mid[v0].hunger_milli
                                == cfg.kill_overheal_milli;
                        assert(v0 != s_idx as int);
                        if v0 == w as int {
                            assert(creatures@[v0].state is Digesting && creatures@[v0].hunger_milli
                                == cfg.kill_overheal_milli);
                        } else {
                            assert(creatures@[v0] == mid[v0]);
                        }
                    }
                }
                assert forall|i: int|
                    0 <= i < n && #[trigger] creatures@[i].hunger_milli != old_c[i].hunger_milli
                        implies {
                    &&& creatures@[i] == gorged(old_c[i], *cfg)
                    &&& exists|t: int| 0 <= t < n && t != i && #[trigger] predation_pair(
                        old_c[i],
                        old_c[t],
                    ) && creatures@[t].dead
                } by {
                    if i == w as int {
                        assert(predation_pair(ow, os) && creatures@[s_idx as int].dead);
                    } else if i != s_idx as int {
                        assert(mid[i] == creatures@[i]);
                        if mid[i].hunger_milli != old_c[i].hunger_milli {
                            let t0 = choose|t0: int|
                                0 <= t0 < n && t0 != i && #[trigger] predation_pair(
                                    old_c[i],
                                    old_c[t0],
                                ) && mid[t0].dead;
                            assert(creatures@[t0].dead);
                        }
                    }
                }
                assert forall|w2: int, s2: int|
                    0 <= w2 < w + 1 && 0 <= s2 < n && s2 != w2 && #[trigger] predation_pair(
                        old_c[w2],
                        old_c[s2],
                    ) implies creatures@[w2].state is Digesting || creatures@[s2].dead by {
                    if w2 == w as int {
                        assert(creatures@[w as int].state is Digesting);
                    } else {
                        assert(mid[w2].state is Digesting || mid[s2].dead);
                        assert(mid[w2].species is Predator || !(old_c[w2].species is Predator));
                        if mid[w2].state is Digesting {
                            assert(creatures@[w2].state is Digesting);
                        } else {
                            assert(creatures@[s2].dead);
                        }
                    }
                }
            }
        } else {
            proof {
                // No live prey shares the wolf's cell: every pair's prey
                // already fell.
                assert forall|s2: int|
                    0 <= s2 < n && s2 != w && #[trigger] predation_pair(
                        old_c[w as int],
                        old_c[s2],
                    ) implies creatures@[w as int].state is Digesting || creatures@[s2].dead by {
                    assert(predation_step(old_c[w as int], creatures@[w as int], *cfg));
                    assert(predation_step(old_c[s2], creatures@[s2], *cfg));
                    assert(wolf.x == old_c[w as int].x && wolf.y == old_c[w as int].y);
                }
            }
        }
        w = w + 1;
    }
    proof {
        reveal(predation_outcomes);
        assert(predation_outcomes(old_c, creatures@, *cfg));
    }
}

/// The berry stun a predator takes after eating a plant.
pub open spec fn stun_ms(cfg: SimConfig) -> u64 {
    (cfg.base_move_ms * cfg.predator_berry_stun_ticks) as u64
}

/// `c` right after eating a plant: hunger reset, and a predator stunned.
pub open spec fn ate(pre: Creature, cfg: SimConfig) -> Creature {
    Creature {
        hunger_milli: 0,
        state: if pre.species is Predator {
            Activity::BerryStunned { remaining_ms: stun_ms(cfg) }
        } else {
            pre.state
        },
        ..pre
    }
}

/// A predator may eat plants only as a baby, or full enough, or
/// desperately hungry.
pub open spec fn predator_may_forage(c: Creature, cfg: SimConfig) -> bool {
    ||| !c.is_adult
    ||| c.hunger_milli <= PRED_FRUIT_MAX_MILLI
    ||| c.hunger_milli >= cfg.predator_low_health_milli
}

/// Whether creature `i` has live kin (same species) within its sight.
pub open spec fn kin_within_sight(s: Seq<Creature>, i: int) -> bool {
    exists|j: int|
        0 <= j < s.len() && j != i && !(#[trigger] s[j]).dead && s[j].species == s[i].species
            && dist(s[i].x as int, s[i].y as int, s[j].x as int, s[j].y as int)
            <= s[i].sight_range as int
}

/// A creature that would eat a plant on its own cell: live and unblocked,
/// hungry enough, entitled by the forage rule, and not held back by
/// altruism.
pub open spec fn wants_to_eat(s: Seq<Creature>, i: int, cfg: SimConfig) -> bool {
    &&& 0 <= i < s.len()
    &&& !s[i].dead && !blocked(s[i])
    &&& s[i].hunger_milli >= cfg.eat_skip_below_milli
    &&& (s[i].species is Predator ==> predator_may_forage(s[i], cfg))
    &&& (s[i].species is Herbivore && s[i].altruistic && s[i].hunger_milli < ALTRUISM_MILLI
        ==> !kin_within_sight(s, i))
}

/// Whether creature `i` of state `s` would eat a plant on cell
/// `(px, py)` right now.
pub open spec fn eats_now(s: Seq<Creature>, i: int, px: int, py: int, cfg: SimConfig) -> bool {
    &&& wants_to_eat(s, i, cfg)
    &&& s[i].x == px && s[i].y == py
}

/// One owed soil marker per plant the pass killed, in plant order: on the
/// plant's cell, with the configured lifetime.
pub open spec fn soil_trail(pre: Seq<Plant>, post: Seq<Plant>, cfg: SimConfig) -> Seq<Soil>
    decreases pre.len(),
{
    if pre.len() == 0 || post.len() != pre.len() {
        Seq::empty()
    } else {
        let prev = soil_trail(pre.drop_last(), post.drop_last(), cfg);
        if !pre.last().dead && post.last().dead {
            prev.push(
                Soil { x: pre.last().x, y: pre.last().y, remaining_ms: cfg.soil_exhaust_ms },
            )
        } else {
            prev
        }
    }
}

/// Nothing killed, nothing owed.
pub proof fn lemma_soil_trail_refl(s: Seq<Plant>, cfg: SimConfig)
    ensures
        soil_trail(s, s, cfg) == Seq::<Soil>::empty(),
    decreases s.len(),
{
    if s.len() > 0 {
        lemma_soil_trail_refl(s.drop_last(), cfg);
    }
}

/// Killing the plant at `k` — with every later plant untouched — owes
/// exactly one more marker, appended at the end of the trail.
pub proof fn lemma_soil_trail_kill(pre: Seq<Plant>, post: Seq<Plant>, k: int, cfg: SimConfig)
    requires
        pre.len() == post.len(),
        0 <= k < pre.len(),
        !pre[k].dead,
        post[k] == pre[k],
        forall|j: int| k < j < pre.len() ==> post[j] == pre[j],
    ensures
        soil_trail(pre, post.update(k, Plant { dead: true, ..pre[k] }), cfg) == soil_trail(
            pre,
            post,
            cfg,
        ).push(Soil { x: pre[k].x, y: pre[k].y, remaining_ms: cfg.soil_exhaust_ms }),
    decreases pre.len(),
{
    let upd = post.update(k, Plant { dead: true, ..pre[k] });
    if k == pre.len() - 1 {
        assert(upd.drop_last() =~= post.drop_last());
        assert(soil_trail(pre, post, cfg) == soil_trail(pre.drop_last(), post.drop_last(), cfg));
    } else {
        lemma_soil_trail_kill(pre.drop_last(), post.drop_last(), k, cfg);
        assert(upd.drop_last() =~= post.drop_last().update(k, Plant { dead: true, ..pre[k] }));
        assert(upd.last() == post.last() && post.last() == pre.last());
    }
}

/// On how many entries two equally long creature sequences disagree.
pub open spec fn changed_count(pre: Seq<Creature>, post: Seq<Creature>) -> int
    decreases pre.len(),
{
    if pre.len() == 0 || post.len() != pre.len() {
        0
    } else {
        changed_count(pre.drop_last(), post.drop_last()) + if post.last() != pre.last() {
            1int
        } else {
            0int
        }
    }
}

/// A sequence does not disagree with itself.
pub proof fn lemma_changed_count_refl(s: Seq<Creature>)
    ensures
        changed_count(s, s) == 0,
    decreases s.len(),
{
    if s.len() > 0 {
        lemma_changed_count_refl(s.drop_last());
    }
}

/// How one update moves the disagreement count.
pub proof fn lemma_changed_count_update(pre: Seq<Creature>, post: Seq<Creature>, k: int, v: Creature)
    requires
        pre.len() == post.len(),
        0 <= k < pre.len(),
    ensures
        changed_count(pre, post.update(k, v)) == changed_count(pre, post) + (if v != pre[k] {
            1int
        } else {
            0int
        }) - (if post[k] != pre[k] {
            1int
        } else {
            0int
        }),
    decreases pre.len(),
{
    let upd = post.update(k, v);
    if k == pre.len() - 1 {
        assert(upd.drop_last() =~= post.drop_last());
    } else {
        lemma_changed_count_update(pre.drop_last(), post.drop_last(), k, v);
        assert(upd.drop_last() =~= post.drop_last().update(k, v));
        assert(upd.last() == post.last());
    }
}

/// The joint accounting of the eating pass.  The pass appends exactly one
/// soil marker per plant it killed, in plant order, on the plant's cell
/// with the configured lifetime; and exactly as many creatures changed as
/// plants were killed — one eater per meal, one meal per eater.  Opaque:
/// reveal it where needed.
#[verifier::opaque]
pub open spec fn eating_outcomes(
    pre_c: Seq<Creature>,
    post_c: Seq<Creature>,
    pre_p: Seq<Plant>,
    post_p: Seq<Plant>,
    pre_s: Seq<Soil>,
    post_s: Seq<Soil>,
    cfg: SimConfig,
) -> bool {
    &&& post_s == pre_s + soil_trail(pre_p, post_p, cfg)
    &&& changed_count(pre_c, post_c) == post_s.len() - pre_s.len()
}

/// What the eating pass may do to one creature: leave it, or let it eat —
/// which requires it live and unblocked, hungry enough, standing on a live
/// plant, entitled to plants (the predator forage rule), and, for an
/// altruistic herbivore still below the altruism bound, without kin in
/// sight.
pub open spec fn eating_step(
    pre: Creature,
    post: Creature,
    pre_creatures: Seq<Creature>,
    i: int,
    pre_plants: Seq<Plant>,
    cfg: SimConfig,
) -> bool {
    ||| post == pre
    ||| {
        &&& post == ate(pre, cfg)
        &&& !pre.dead && !blocked(pre)
        &&& pre.hunger_milli >= cfg.eat_skip_below_milli
        &&& live_plant_at(pre_plants, pre.x as int, pre.y as int)
        &&& (pre.species is Predator ==> predator_may_forage(pre, cfg))
        &&& (pre.species is Herbivore && pre.altruistic && pre.hunger_milli < ALTRUISM_MILLI
            ==> !kin_within_sight(pre_creatures, i))
    }
}

/// Whether `s` is a fresh marker standing where some live plant of
/// `plants` stood, with the configured lifetime.
pub open spec fn soil_from_plants(plants: Seq<Plant>, s: Soil, cfg: SimConfig) -> bool {
    exists|p: int|
        0 <= p < plants.len() && !(#[trigger] plants[p]).dead && s == (Soil {
            x: plants[p].x,
            y: plants[p].y,
            remaining_ms: cfg.soil_exhaust_ms,
        })
}

/// What the eating pass may do to one plant.
pub open spec fn plant_step(pre: Plant, post: Plant) -> bool {
    post == pre || post == (Plant { dead: true, ..pre })
}

/// Whether creature `i` has live kin within its sight range.
fn kin_near(creatures: &Vec<Creature>, i: usize) -> (r: bool)
    requires
        i < creatures@.len(),
    ensures
        r == kin_within_sight(creatures@, i as int),
{
    let me = creatures[i];
    let n = creatures.len();
    let mut j: usize = 0;
    let mut found: bool = false;
    while j < n
        invariant
            n == creatures@.len(),
            i < n,
            j <= n,
            me == creatures@[i as int],
            found == exists|k: int|
                0 <= k < j && k != i && !(#[trigger] creatures@[k]).dead && creatures@[k].species
                    == creatures@[i as int].species && dist(
                    creatures@[i as int].x as int,
                    creatures@[i as int].y as int,
                    creatures@[k].x as int,
                    creatures@[k].y as int,
                ) <= creatures@[i as int].sight_range as int,
        decreases n - j,
    {
        let o = creatures[j];
        if j != i && !o.dead && o.species == me.species {
            let d = manhattan(me.x, me.y, o.x, o.y);
            if d <= me.sight_range as i64 {
                found = true;
            }
        }
        j = j + 1;
    }
    found
}

/// The eating pass: for every live plant, the first live, unblocked
/// creature standing on its cell and entitled to eat consumes it — hunger
/// resets to zero, the plant is flagged dead, a soil-exhaustion marker is
/// spawned on the cell, and a predator is berry-stunned.  An altruistic,
/// not-yet-desperate herbivore abstains while kin is in sight.
pub fn phase_eating(
    creatures: &mut Vec<Creature>,
    plants: &mut Vec<Plant>,
    soils: &mut Vec<Soil>,
    cfg: &SimConfig,
)
    requires
        cfg.wf(),
    ensures
        final(creatures)@.len() == old(creatures)@.len(),
        final(plants)@.len() == old(plants)@.len(),
        final(soils)@.len() >= old(soils)@.len(),
        forall|i: int| 0 <= i < old(creatures)@.len() ==> eating_step(
            #[trigger] old(creatures)@[i],
            final(creatures)@[i],
            old(creatures)@,
            i,
            old(plants)@,
            *cfg,
        ),
        forall|p: int| 0 <= p < old(plants)@.len() ==> plant_step(
            #[trigger] old(plants)@[p],
            final(plants)@[p],
        ),
        // A plant death has a real eater on its cell behind it: a creature
        // that this pass visibly changed by the meal.
        forall|p: int| 0 <= p < old(plants)@.len() && final(plants)@[p].dead
            && !old(plants)@[p].dead ==> exists|i: int|
            0 <= i < old(creatures)@.len() && #[trigger] final(creatures)@[i] == ate(
                old(creatures)@[i],
                *cfg,
            ) && final(creatures)@[i] != old(creatures)@[i] && old(creatures)@[i].x
            == old(plants)@[p].x && old(creatures)@[i].y == old(plants)@[p].y,
        // No meal is missed: a live plant with a willing eater on its cell
        // is eaten — or that very eater already ate on this cell this pass.
        forall|p: int, i: int|
            0 <= p < old(plants)@.len() && !(#[trigger] old(plants)@[p]).dead && #[trigger] wants_to_eat(
                old(creatures)@,
                i,
                *cfg,
            ) && old(creatures)@[i].x == old(plants)@[p].x && old(creatures)@[i].y
                == old(plants)@[p].y ==> final(plants)@[p].dead || (final(creatures)@[i] == ate(
                old(creatures)@[i],
                *cfg,
            ) && final(creatures)@[i] != old(creatures)@[i]),
        forall|k: int| 0 <= k < old(soils)@.len() ==> final(soils)@[k] == old(soils)@[k],
        // Every new marker stands where a plant stood, with the configured
        // lifetime.
        forall|k: int| old(soils)@.len() <= k < final(soils)@.len() ==> soil_from_plants(
            old(plants)@,
            #[trigger] final(soils)@[k],
            *cfg,
        ),
        eating_outcomes(
            old(creatures)@,
            final(creatures)@,
            old(plants)@,
            final(plants)@,
            old(soils)@,
            final(soils)@,
            *cfg,
        ),
{
    let n = creatures.len();
    let pn = plants.len();
    let ghost old_c = old(creatures)@;
    let ghost old_p = old(plants)@;
    let ghost old_s = old(soils)@;
    proof {
        lemma_soil_trail_refl(old_p, *cfg);
        lemma_changed_count_refl(old_c);
        assert(soils@ =~= old_s + soil_trail(old_p, plants@, *cfg));
    }
    let mut p_idx: usize = 0;
    while p_idx < pn
        invariant
            old_c == old(creatures)@,
            old_p == old(plants)@,
            old_s == old(soils)@,
            n == old_c.len(),
            pn == old_p.len(),
            creatures@.len() == n,
            plants@.len() == pn,
            soils@.len() >= old_s.len(),
            p_idx <= pn,
            cfg.wf(),
            forall|i: int| 0 <= i < n ==> eating_step(
                #[trigger] old_c[i],
                creatures@[i],
                old_c,
                i,
                old_p,
                *cfg,
            ),
            forall|p: int| 0 <= p < pn ==> plant_step(#[trigger] old_p[p], plants@[p]),
            forall|p: int| 0 <= p < pn && plants@[p].dead && !old_p[p].dead ==> exists|i: int|
                0 <= i < n && #[trigger] creatures@[i] == ate(old_c[i], *cfg) && creatures@[i]
                    != old_c[i] && old_c[i].x == old_p[p].x && old_c[i].y == old_p[p].y,
            forall|j: int| p_idx <= j < pn ==> plants@[j] == old_p[j],
            soils@ == old_s + soil_trail(old_p, plants@, *cfg),
            changed_count(old_c, creatures@) == soils@.len() - old_s.len(),
            forall|p: int, i: int|
                0 <= p < p_idx && !(#[trigger] old_p[p]).dead && !plants@[p].dead
                    && #[trigger] wants_to_eat(old_c, i, *cfg) && old_c[i].x == old_p[p].x
                    && old_c[i].y == old_p[p].y ==> creatures@[i] == ate(old_c[i], *cfg)
                    && creatures@[i] != old_c[i],
            forall|k: int| 0 <= k < old_s.len() ==> soils@[k] == old_s[k],
            forall|k: int| old_s.len() <= k < soils@.len() ==> soil_from_plants(
                old_p,
                #[trigger] soils@[k],
                *cfg,
            ),
        decreases pn - p_idx,
    {
        let plant = plants[p_idx];
        if plant.dead {
            p_idx = p_idx + 1;
            continue;
        }
        proof {
            // A plant still live mid-pass is untouched since the pass began.
            assert(plant_step(old_p[p_idx as int], plants@[p_idx as int]));
            assert(plant == old_p[p_idx as int]);
        }
        let mut c_idx: usize = 0;
        let mut eaten: bool = false;
        while c_idx < n && !eaten
            invariant
                old_c == old(creatures)@,
                old_p == old(plants)@,
                old_s == old(soils)@,
                n == old_c.len(),
                pn == old_p.len(),
                creatures@.len() == n,
                plants@.len() == pn,
                soils@.len() >= old_s.len(),
                p_idx < pn,
                c_idx <= n,
                cfg.wf(),
                plant == old_p[p_idx as int],
                !plant.dead,
                !eaten ==> plants@[p_idx as int] == plant,
                eaten ==> plants@[p_idx as int].dead,
                forall|i: int| 0 <= i < n ==> eating_step(
                    #[trigger] old_c[i],
                    creatures@[i],
                    old_c,
                    i,
                    old_p,
                    *cfg,
                ),
                forall|p: int| 0 <= p < pn ==> plant_step(#[trigger] old_p[p], plants@[p]),
                forall|p: int| 0 <= p < pn && plants@[p].dead && !old_p[p].dead ==> exists|i: int|
                    0 <= i < n && #[trigger] creatures@[i] == ate(old_c[i], *cfg) && creatures@[i]
                        != old_c[i] && old_c[i].x == old_p[p].x && old_c[i].y == old_p[p].y,
                forall|j: int| p_idx < j < pn ==> plants@[j] == old_p[j],
                soils@ == old_s + soil_trail(old_p, plants@, *cfg),
                changed_count(old_c, creatures@) == soils@.len() - old_s.len(),
                forall|p: int, i: int|
                    0 <= p < p_idx && !(#[trigger] old_p[p]).dead && !plants@[p].dead
                        && #[trigger] wants_to_eat(old_c, i, *cfg) && old_c[i].x == old_p[p].x
                        && old_c[i].y == old_p[p].y ==> creatures@[i] == ate(old_c[i], *cfg)
                        && creatures@[i] != old_c[i],
                !eaten ==> forall|c2: int| 0 <= c2 < c_idx ==> !eats_now(
                    creatures@,
                    c2,
                    plant.x as int,
                    plant.y as int,
                    *cfg,
                ),
                forall|k: int| 0 <= k < old_s.len() ==> soils@[k] == old_s[k],
                forall|k: int| old_s.len() <= k < soils@.len() ==> soil_from_plants(
                    old_p,
                    #[trigger] soils@[k],
                    *cfg,
                ),
            decreases n - c_idx,
        {
            let c = creatures[c_idx];
            let is_blocked = matches!(c.state, Activity::Digesting)
                || matches!(c.state, Activity::BerryStunned { .. });
            if c.dead || is_blocked || c.x != plant.x || c.y != plant.y {
                c_idx = c_idx + 1;
                continue;
            }
            let forage_ok = match c.species {
                Species::Herbivore => true,
                Species::Predator => !c.is_adult || c.hunger_milli <= PRED_FRUIT_MAX_MILLI
                    || c.hunger_milli >= cfg.predator_low_health_milli,
            };
            if !forage_ok {
                c_idx = c_idx + 1;
                continue;
            }
            if c.hunger_milli < cfg.eat_skip_below_milli {
                c_idx = c_idx + 1;
                continue;
            }
            if matches!(c.species, Species::Herbivore) && c.altruistic && c.hunger_milli
                < ALTRUISM_MILLI {
                let abstain = kin_near(creatures, c_idx);
                proof {
                    assert forall|k: int| 0 <= k < old_c.len() implies (#[trigger] creatures@[k])
                        == old_c[k] || creatures@[k] == ate(old_c[k], *cfg) by {
                        assert(eating_step(old_c[k], creatures@[k], old_c, k, old_p, *cfg));
                    }
                    lemma_kin_stable(creatures@, old_c, *cfg, c_idx as int);
                }
                if abstain {
                    c_idx = c_idx + 1;
                    continue;
                }
            }
            // Eat: reset hunger, stun a predator, kill the plant, leave a
            // soil-exhaustion marker.
            proof {
                assert(eating_step(old_c[c_idx as int], creatures@[c_idx as int], old_c, c_idx as int, old_p, *cfg));
                assert(live_plant_at(old_p, c.x as int, c.y as int)) by {
                    assert(old_p[p_idx as int].x == c.x as int && old_p[p_idx as int].y == c.y as int
                        && !old_p[p_idx as int].dead);
                }
            }
            let stun: u64 = {
                proof {
                    assert(cfg.base_move_ms * (cfg.predator_berry_stun_ticks as u64)
                        <= 86_400_000_000u64) by (nonlinear_arith)
                        requires
                            1 <= cfg.base_move_ms <= 86_400_000,
                            cfg.predator_berry_stun_ticks <= 1_000,
                    ;
                }
                cfg.base_move_ms * (cfg.predator_berry_stun_ticks as u64)
            };
            let new_state = match c.species {
                Species::Predator => Activity::BerryStunned { remaining_ms: stun },
                Species::Herbivore => c.state,
            };
            let ghost mid_c = creatures@;
            let ghost mid_p = plants@;
            let ghost mid_s = soils@;
            creatures.set(c_idx, Creature { hunger_milli: 0, state: new_state, ..c });
            proof {
                assert(creatures@[c_idx as int] == ate(old_c[c_idx as int], *cfg));
                // The eater was untouched (its hunger still clears the
                // threshold) and the meal visibly changes it.
                assert(mid_c[c_idx as int] == old_c[c_idx as int]);
                assert(creatures@[c_idx as int] != old_c[c_idx as int]);
                lemma_changed_count_update(
                    old_c,
                    mid_c,
                    c_idx as int,
                    ate(old_c[c_idx as int], *cfg),
                );
                assert(creatures@ =~= mid_c.update(c_idx as int, ate(old_c[c_idx as int], *cfg)));
                assert(changed_count(old_c, creatures@) == soils@.len() - old_s.len() + 1);
            }
            plants.set(p_idx, Plant { dead: true, ..plant });
            proof {
                lemma_soil_trail_kill(old_p, mid_p, p_idx as int, *cfg);
                assert(plants@ =~= mid_p.update(
                    p_idx as int,
                    Plant { dead: true, ..old_p[p_idx as int] },
                ));
            }
            soils.push(Soil { x: c.x, y: c.y, remaining_ms: cfg.soil_exhaust_ms });
            proof {
                assert(soils@ =~= old_s + soil_trail(old_p, plants@, *cfg));
                assert(old_c[c_idx as int].x == old_p[p_idx as int].x && old_c[c_idx as int].y
                    == old_p[p_idx as int].y);
                assert(soils@[soils@.len() - 1] == (Soil {
                    x: old_p[p_idx as int].x,
                    y: old_p[p_idx as int].y,
                    remaining_ms: cfg.soil_exhaust_ms,
                }));
                assert forall|p: int| 0 <= p < pn && plants@[p].dead && !old_p[p].dead
                    implies exists|i: int|
                    0 <= i < n && #[trigger] creatures@[i] == ate(old_c[i], *cfg) && creatures@[i]
                        != old_c[i] && old_c[i].x == old_p[p].x && old_c[i].y == old_p[p].y by {
                    if p == p_idx as int {
                        assert(creatures@[c_idx as int] == ate(old_c[c_idx as int], *cfg)
                            && creatures@[c_idx as int] != old_c[c_idx as int]);
                    } else {
                        let i0 = choose|i0: int|
                            0 <= i0 < n && #[trigger] mid_c[i0] == ate(old_c[i0], *cfg) && mid_c[i0]
                                != old_c[i0] && old_c[i0].x == old_p[p].x && old_c[i0].y
                                == old_p[p].y;
                        assert(creatures@[i0] == ate(old_c[i0], *cfg) && creatures@[i0]
                            != old_c[i0]);
                    }
                }
                assert forall|k: int| old_s.len() <= k < soils@.len() implies soil_from_plants(
                    old_p,
                    #[trigger] soils@[k],
                    *cfg,
                ) by {
                    if k < soils@.len() - 1 {
                        assert(soils@[k] == mid_s[k]);
                        assert(soil_from_plants(old_p, mid_s[k], *cfg));
                    } else {
                        assert(!old_p[p_idx as int].dead);
                        assert(soils@[k] == (Soil {
                            x: old_p[p_idx as int].x,
                            y: old_p[p_idx as int].y,
                            remaining_ms: cfg.soil_exhaust_ms,
                        }));
                    }
                }
            }
            eaten = true;
            c_idx = c_idx + 1;
        }
        proof {
            if !eaten {
                // Nobody ate this plant, so every willing eater on its cell
                // must have eaten already: an untouched one would eat now.
                assert forall|i: int|
                    #[trigger] wants_to_eat(old_c, i, *cfg) && old_c[i].x == old_p[p_idx as int].x
                        && old_c[i].y == old_p[p_idx as int].y implies creatures@[i] == ate(
                    old_c[i],
                    *cfg,
                ) && creatures@[i] != old_c[i] by {
                    assert(!eats_now(creatures@, i, plant.x as int, plant.y as int, *cfg));
                    assert(eating_step(old_c[i], creatures@[i], old_c, i, old_p, *cfg));
                    if creatures@[i] == old_c[i] {
                        assert forall|k: int| 0 <= k < old_c.len() implies (#[trigger] creatures@[k])
                            == old_c[k] || creatures@[k] == ate(old_c[k], *cfg) by {
                            assert(eating_step(old_c[k], creatures@[k], old_c, k, old_p, *cfg));
                        }
                        lemma_kin_stable(creatures@, old_c, *cfg, i);
                        assert(eats_now(creatures@, i, plant.x as int, plant.y as int, *cfg));
                        assert(false);
                    }
                }
            }
        }
        p_idx = p_idx + 1;
    }
    proof {
        reveal(eating_outcomes);
        assert(eating_outcomes(old_c, creatures@, old_p, plants@, old_s, soils@, *cfg));
    }
}

/// Kin-in-sight depends only on positions, species, liveness and sight,
/// none of which the eating pass changes: mid-pass and pre-pass agree.
proof fn lemma_kin_stable(mid: Seq<Creature>, pre: Seq<Creature>, cfg: SimConfig, i: int)
    requires
        mid.len() == pre.len(),
        0 <= i < pre.len(),
        forall|k: int| 0 <= k < pre.len() ==> (#[trigger] mid[k]) == pre[k] || mid[k] == ate(
            pre[k],
            cfg,
        ),
    ensures
        kin_within_sight(mid, i) == kin_within_sight(pre, i),
{
    assert forall|k: int| 0 <= k < pre.len() implies (#[trigger] mid[k]).x == pre[k].x && mid[k].y
        == pre[k].y && mid[k].species == pre[k].species && mid[k].dead == pre[k].dead
        && mid[k].sight_range == pre[k].sight_range by {
        assert(mid[k] == pre[k] || mid[k] == ate(pre[k], cfg));
    }
    if kin_within_sight(mid, i) {
        let j = choose|j: int|
            0 <= j < mid.len() && j != i && !(#[trigger] mid[j]).dead && mid[j].species
                == mid[i].species && dist(
                mid[i].x as int,
                mid[i].y as int,
                mid[j].x as int,
                mid[j].y as int,
            ) <= mid[i].sight_range as int;
        assert(!pre[j].dead && pre[j].species == pre[i].species && dist(
            pre[i].x as int,
            pre[i].y as int,
            pre[j].x as int,
            pre[j].y as int,
        ) <= pre[i].sight_range as int);
        assert(kin_within_sight(pre, i));
    }
    if kin_within_sight(pre, i) {
        let j = choose|j: int|
            0 <= j < pre.len() && j != i && !(#[trigger] pre[j]).dead && pre[j].species
                == pre[i].species && dist(
                pre[i].x as int,
                pre[i].y as int,
                pre[j].x as int,
                pre[j].y as int,
            ) <= pre[i].sight_range as int;
        assert(!mid[j].dead && mid[j].species == mid[i].species && dist(
            mid[i].x as int,
            mid[i].y as int,
            mid[j].x as int,
            mid[j].y as int,
        ) <= mid[i].sight_range as int);
        assert(kin_within_sight(mid, i));
    }
}

/// Per-species population counters: cumulative and never decremented.
#[derive(Clone, Copy, PartialEq, Eq, Structural, Debug)]
pub struct SpeciesCounters {
    /// Individuals born via reproduction.
    pub born: u64,
    /// Total ever spawned: initial stock plus births.
    pub total_ever: u64,
}

/// The population counters of both species.
#[derive(Clone, Copy, PartialEq, Eq, Structural, Debug)]
pub struct PopulationStats {
    pub herbivore: SpeciesCounters,
    pub predator: SpeciesCounters,
}

impl PopulationStats {
    /// All counters zero.
    pub open spec fn zero() -> PopulationStats {
        PopulationStats {
            herbivore: SpeciesCounters { born: 0, total_ever: 0 },
            predator: SpeciesCounters { born: 0, total_ever: 0 },
        }
    }

    /// The counters of one species.
    pub open spec fn of_species(self, s: Species) -> SpeciesCounters {
        match s {
            Species::Herbivore => self.herbivore,
            Species::Predator => self.predator,
        }
    }

    /// All four counters at most `bound`: increments can never overflow
    /// while identities below `bound` remain to hand out.
    pub open spec fn bounded_by(self, bound: u64) -> bool {
        &&& self.herbivore.born <= bound
        &&& self.herbivore.total_ever <= bound
        &&& self.predator.born <= bound
        &&& self.predator.total_ever <= bound
    }

    /// No counter of `self` is below its counterpart in `prev`.
    pub open spec fn at_least(self, prev: PopulationStats) -> bool {
        &&& self.herbivore.born >= prev.herbivore.born
        &&& self.herbivore.total_ever >= prev.herbivore.total_ever
        &&& self.predator.born >= prev.predator.born
        &&& self.predator.total_ever >= prev.predator.total_ever
    }

}

/// How many creatures of `s` belong to species `sp`.
pub open spec fn count_species(s: Seq<Creature>, sp: Species) -> int
    decreases s.len(),
{
    if s.len() == 0 {
        0
    } else {
        count_species(s.drop_last(), sp) + if s.last().species == sp {
            1int
        } else {
            0int
        }
    }
}

/// `c` with a fresh reproduction cooldown.
pub open spec fn with_cooldown(c: Creature, cooldown_ms: u64) -> Creature {
    Creature { cooldown_ms, ..c }
}

/// A pair that may conceive: two distinct live adults of one species, both
/// cooldown-free and fully active (not digesting, overfed or stunned), at
/// most one cell apart.
pub open spec fn eligible_pair(s: Seq<Creature>, a: int, b: int) -> bool {
    &&& 0 <= a < s.len() && 0 <= b < s.len() && a != b
    &&& !s[a].dead && !s[b].dead
    &&& s[a].is_adult && s[b].is_adult
    &&& s[a].cooldown_ms == 0 && s[b].cooldown_ms == 0
    &&& s[a].state is Active && s[b].state is Active
    &&& s[a].species == s[b].species
    &&& dist(s[a].x as int, s[a].y as int, s[b].x as int, s[b].y as int) <= 1
}

/// The newborn of `parent`: on the parent's cell, age zero and not adult,
/// full, free of any state or cooldown, with the parent's behavior traits
/// and the species' sight range.
pub open spec fn baby_of(parent: Creature, sc: SpeciesConfig, id: u64) -> Creature {
    Creature {
        id,
        x: parent.x,
        y: parent.y,
        species: parent.species,
        age_ms: 0,
        is_adult: false,
        hunger_milli: 0,
        scared_of_water: parent.scared_of_water,
        altruistic: parent.altruistic,
        last_x: parent.x,
        last_y: parent.y,
        sight_range: sc.sight_range,
        state: Activity::Active,
        cooldown_ms: 0,
        move_elapsed_ms: 0,
        dead: false,
    }
}

/// What the reproduction pass may do to a pre-existing creature: leave it,
/// or put it — a live, cooldown-free, active adult that became a parent —
/// into its species' reproduction cooldown.
pub open spec fn repro_step(pre: Creature, post: Creature, cfg: SimConfig) -> bool {
    ||| post == pre
    ||| {
        &&& post == with_cooldown(pre, cfg.species_spec(pre.species).reproduction_cooldown_ms)
        &&& !pre.dead && pre.is_adult && pre.cooldown_ms == 0 && pre.state is Active
    }
}

/// Whether `baby` was conceived by some pair that was eligible before the
/// pass, inheriting the first parent's traits.
pub open spec fn born_into(pre: Seq<Creature>, baby: Creature, cfg: SimConfig) -> bool {
    exists|a: int, b: int|
        #[trigger] eligible_pair(pre, a, b) && baby == baby_of(
            pre[a],
            cfg.species_spec(pre[a].species),
            baby.id,
        )
}

/// Whether `baby` was conceived by a pair eligible before the pass whose
/// two members now carry their species' fresh reproduction cooldown.
pub open spec fn born_with_parents(
    pre: Seq<Creature>,
    post: Seq<Creature>,
    baby: Creature,
    cfg: SimConfig,
) -> bool {
    exists|a: int, b: int|
        #[trigger] eligible_pair(pre, a, b) && baby == baby_of(
            pre[a],
            cfg.species_spec(pre[a].species),
            baby.id,
        ) && post[a].cooldown_ms == cfg.species_spec(pre[a].species).reproduction_cooldown_ms
            && post[b].cooldown_ms == cfg.species_spec(pre[b].species).reproduction_cooldown_ms
}

/// The joint outcomes of the reproduction pass.  Exactly two pre-existing
/// creatures change per birth — the parents, who enter their species'
/// cooldown — so no cooldown appears without a conception and no pair
/// bears twice in one pass; and each species' `born` and `total_ever`
/// counters rise by exactly its own newborn count.  Opaque: reveal it
/// where needed.
#[verifier::opaque]
pub open spec fn reproduction_outcomes(
    pre: Seq<Creature>,
    post: Seq<Creature>,
    pre_stats: PopulationStats,
    post_stats: PopulationStats,
    cfg: SimConfig,
) -> bool {
    &&& pre.len() <= post.len()
    &&& changed_count(pre, post.subrange(0, pre.len() as int)) == 2 * (post.len() - pre.len())
    &&& post_stats.herbivore.born == pre_stats.herbivore.born + count_species(
        post.subrange(pre.len() as int, post.len() as int),
        Species::Herbivore,
    )
    &&& post_stats.predator.born == pre_stats.predator.born + count_species(
        post.subrange(pre.len() as int, post.len() as int),
        Species::Predator,
    )
    &&& post_stats.herbivore.total_ever == pre_stats.herbivore.total_ever + count_species(
        post.subrange(pre.len() as int, post.len() as int),
        Species::Herbivore,
    )
    &&& post_stats.predator.total_ever == pre_stats.predator.total_ever + count_species(
        post.subrange(pre.len() as int, post.len() as int),
        Species::Predator,
    )
    &&& (forall|k: int| pre.len() <= k < post.len() ==> born_with_parents(
        pre,
        post,
        #[trigger] post[k],
        cfg,
    ))
}

/// The reproduction pass: every unordered pair of live creatures that is
/// eligible — both adult, cooldown-free, fully active, same species, at
/// most one cell apart — conceives with the species' probability.  A birth
/// spawns one baby on the first parent's cell with the first parent's
/// traits, puts both parents into the species' cooldown, and bumps the
/// species' counters.  A pair of certain probability always conceives.
pub fn phase_reproduction(
    creatures: &mut Vec<Creature>,
    stats: &mut PopulationStats,
    next_id: &mut u64,
    cfg: &SimConfig,
    rng: &mut SimRng,
)
    requires
        cfg.wf(),
        old(stats).bounded_by(*old(next_id)),
    ensures
        old(creatures)@.len() <= final(creatures)@.len(),
        *final(next_id) == *old(next_id) + (final(creatures)@.len() - old(creatures)@.len()),
        final(stats).bounded_by(*final(next_id)),
        final(stats).at_least(*old(stats)),
        reproduction_outcomes(
            old(creatures)@,
            final(creatures)@,
            *old(stats),
            *final(stats),
            *cfg,
        ),
        // Pre-existing creatures gain at most a cooldown, and only parents do.
        forall|i: int| 0 <= i < old(creatures)@.len() ==> repro_step(
            #[trigger] old(creatures)@[i],
            final(creatures)@[i],
            *cfg,
        ),
        // Every baby stems from a pair that was eligible before the pass,
        // and carries a fresh identity.
        forall|k: int| old(creatures)@.len() <= k < final(creatures)@.len() ==> born_into(
            old(creatures)@,
            #[trigger] final(creatures)@[k],
            *cfg,
        ) && final(creatures)@[k].id == *old(next_id) + (k - old(creatures)@.len()),
        // A pair of certain probability conceives: with an eligible pair of
        // certain chance on the board, the pass bears at least one baby.
        (*old(next_id) < u64::MAX && exists|a: int, b: int|
            #[trigger] eligible_pair(old(creatures)@, a, b) && cfg.species_spec(
                old(creatures)@[a].species,
            ).reproduction_chance_ppm >= 1_000_000) ==> final(creatures)@.len()
            > old(creatures)@.len(),
{
    let n = creatures.len();
    let ghost old_c = old(creatures)@;
    let ghost old_next = *next_id;
    let ghost old_stats = *stats;
    proof {
        lemma_changed_count_refl(old_c);
        assert(creatures@.subrange(0, n as int) =~= old_c);
        assert(creatures@.subrange(n as int, n as int) =~= Seq::<Creature>::empty());
    }
    let mut a: usize = 0;
    while a < n
        invariant
            old_c == old(creatures)@,
            old_next == *old(next_id),
            old_stats == *old(stats),
            n == old_c.len(),
            creatures@.len() >= n,
            a <= n,
            cfg.wf(),
            *next_id == old_next + (creatures@.len() - n),
            stats.bounded_by(*next_id),
            stats.at_least(old_stats),
            changed_count(old_c, creatures@.subrange(0, n as int)) == 2 * (creatures@.len() - n),
            stats.herbivore.born == old_stats.herbivore.born + count_species(
                creatures@.subrange(n as int, creatures@.len() as int),
                Species::Herbivore,
            ),
            stats.predator.born == old_stats.predator.born + count_species(
                creatures@.subrange(n as int, creatures@.len() as int),
                Species::Predator,
            ),
            stats.herbivore.total_ever == old_stats.herbivore.total_ever + count_species(
                creatures@.subrange(n as int, creatures@.len() as int),
                Species::Herbivore,
            ),
            stats.predator.total_ever == old_stats.predator.total_ever + count_species(
                creatures@.subrange(n as int, creatures@.len() as int),
                Species::Predator,
            ),
            forall|i: int| 0 <= i < n ==> repro_step(#[trigger] old_c[i], creatures@[i], *cfg),
            forall|k: int| n <= k < creatures@.len() ==> born_into(
                old_c,
                #[trigger] creatures@[k],
                *cfg,
            ) && creatures@[k].id == old_next + (k - n),
            forall|k: int| n <= k < creatures@.len() ==> born_with_parents(
                old_c,
                creatures@,
                #[trigger] creatures@[k],
                *cfg,
            ),
            creatures@.len() == n ==> creatures@ =~= old_c && *stats == old_stats,
            (creatures@.len() == n && old_next < u64::MAX) ==> forall|x: int, y: int|
                0 <= x < a && x < y < n && #[trigger] eligible_pair(old_c, x, y)
                    ==> cfg.species_spec(old_c[x].species).reproduction_chance_ppm < 1_000_000,
        decreases n - a,
    {
        let mut b: usize = a + 1;
        while b < n
            invariant
                old_c == old(creatures)@,
                old_next == *old(next_id),
                old_stats == *old(stats),
                n == old_c.len(),
                creatures@.len() >= n,
                a < n,
                a < b <= n,
                cfg.wf(),
                *next_id == old_next + (creatures@.len() - n),
                stats.bounded_by(*next_id),
                stats.at_least(old_stats),
                changed_count(old_c, creatures@.subrange(0, n as int)) == 2 * (creatures@.len()
                    - n),
                stats.herbivore.born == old_stats.herbivore.born + count_species(
                    creatures@.subrange(n as int, creatures@.len() as int),
                    Species::Herbivore,
                ),
                stats.predator.born == old_stats.predator.born + count_species(
                    creatures@.subrange(n as int, creatures@.len() as int),
                    Species::Predator,
                ),
                stats.herbivore.total_ever == old_stats.herbivore.total_ever + count_species(
                    creatures@.subrange(n as int, creatures@.len() as int),
                    Species::Herbivore,
                ),
                stats.predator.total_ever == old_stats.predator.total_ever + count_species(
                    creatures@.subrange(n as int, creatures@.len() as int),
                    Species::Predator,
                ),
                forall|i: int| 0 <= i < n ==> repro_step(#[trigger] old_c[i], creatures@[i], *cfg),
                forall|k: int| n <= k < creatures@.len() ==> born_into(
                    old_c,
                    #[trigger] creatures@[k],
                    *cfg,
                ) && creatures@[k].id == old_next + (k - n),
                forall|k: int| n <= k < creatures@.len() ==> born_with_parents(
                    old_c,
                    creatures@,
                    #[trigger] creatures@[k],
                    *cfg,
                ),
                creatures@.len() == n ==> creatures@ =~= old_c && *stats == old_stats,
                (creatures@.len() == n && old_next < u64::MAX) ==> forall|x: int, y: int|
                    0 <= x < a && x < y < n && #[trigger] eligible_pair(old_c, x, y)
                        ==> cfg.species_spec(old_c[x].species).reproduction_chance_ppm < 1_000_000,
                (creatures@.len() == n && old_next < u64::MAX) ==> forall|y: int|
                    a < y < b && #[trigger] eligible_pair(old_c, a as int, y) ==> cfg.species_spec(
                        old_c[a as int].species,
                    ).reproduction_chance_ppm < 1_000_000,
            decreases n - b,
        {
            let ca = creatures[a];
            let cb = creatures[b];
            let pair_ok = !ca.dead && !cb.dead && ca.is_adult && cb.is_adult && ca.cooldown_ms == 0
                && cb.cooldown_ms == 0 && matches!(ca.state, Activity::Active) && matches!(
                cb.state,
                Activity::Active,
            ) && ca.species == cb.species;
            if pair_ok && manhattan(ca.x, ca.y, cb.x, cb.y) <= 1 && *next_id < u64::MAX {
                proof {
                    // Cooldown-free creatures are untouched so far: a parent
                    // would carry its fresh (nonzero) cooldown.
                    assert(repro_step(old_c[a as int], creatures@[a as int], *cfg));
                    assert(repro_step(old_c[b as int], creatures@[b as int], *cfg));
                    assert(ca == old_c[a as int] && cb == old_c[b as int]);
                    assert(eligible_pair(old_c, a as int, b as int));
                }
                let sc = cfg.species(ca.species);
                if rng.chance_ppm(sc.reproduction_chance_ppm) {
                    let ghost mid_c = creatures@;
                    let baby = Creature {
                        id: *next_id,
                        x: ca.x,
                        y: ca.y,
                        species: ca.species,
                        age_ms: 0,
                        is_adult: false,
                        hunger_milli: 0,
                        scared_of_water: ca.scared_of_water,
                        altruistic: ca.altruistic,
                        last_x: ca.x,
                        last_y: ca.y,
                        sight_range: sc.sight_range,
                        state: Activity::Active,
                        cooldown_ms: 0,
                        move_elapsed_ms: 0,
                        dead: false,
                    };
                    creatures.push(baby);
                    let ghost after_push = creatures@;
                    creatures.set(a, Creature { cooldown_ms: sc.reproduction_cooldown_ms, ..ca });
                    let ghost after_a = creatures@;
                    creatures.set(b, Creature { cooldown_ms: sc.reproduction_cooldown_ms, ..cb });
                    proof {
                        let wc_a = Creature { cooldown_ms: sc.reproduction_cooldown_ms, ..ca };
                        let wc_b = Creature { cooldown_ms: sc.reproduction_cooldown_ms, ..cb };
                        assert(after_push.subrange(0, n as int) =~= mid_c.subrange(0, n as int));
                        assert(after_a.subrange(0, n as int) =~= after_push.subrange(
                            0,
                            n as int,
                        ).update(a as int, wc_a));
                        assert(creatures@.subrange(0, n as int) =~= after_a.subrange(
                            0,
                            n as int,
                        ).update(b as int, wc_b));
                        lemma_changed_count_update(
                            old_c,
                            after_push.subrange(0, n as int),
                            a as int,
                            wc_a,
                        );
                        lemma_changed_count_update(
                            old_c,
                            after_a.subrange(0, n as int),
                            b as int,
                            wc_b,
                        );
                        assert(after_push.subrange(0, n as int)[a as int] == old_c[a as int]);
                        assert(after_a.subrange(0, n as int)[b as int] == old_c[b as int]);
                        assert(changed_count(old_c, creatures@.subrange(0, n as int)) == 2 * (
                        creatures@.len() - n));
                        assert(creatures@.subrange(n as int, creatures@.len() as int).drop_last()
                            =~= mid_c.subrange(n as int, mid_c.len() as int));
                        assert(creatures@.subrange(n as int, creatures@.len() as int).last()
                            == baby);
                    }
                    match ca.species {
                        Species::Herbivore => {
                            stats.herbivore.born = stats.herbivore.born + 1;
                            stats.herbivore.total_ever = stats.herbivore.total_ever + 1;
                        },
                        Species::Predator => {
                            stats.predator.born = stats.predator.born + 1;
                            stats.predator.total_ever = stats.predator.total_ever + 1;
                        },
                    }
                    *next_id = *next_id + 1;
                    proof {
                        let nl = creatures@.len();
                        assert(creatures@[nl - 1] == baby_of(
                            old_c[a as int],
                            cfg.species_spec(old_c[a as int].species),
                            baby.id,
                        ));
                        assert(born_into(old_c, creatures@[nl - 1], *cfg));
                        assert forall|k: int| n <= k < nl implies born_into(
                            old_c,
                            #[trigger] creatures@[k],
                            *cfg,
                        ) && creatures@[k].id == old_next + (k - n) by {
                            if k < nl - 1 {
                                assert(creatures@[k] == mid_c[k]);
                                assert(born_into(old_c, mid_c[k], *cfg));
                            }
                        }
                        let cd_a = cfg.species_spec(old_c[a as int].species)
                            .reproduction_cooldown_ms;
                        assert(creatures@[a as int].cooldown_ms == cd_a && creatures@[
                        b as int].cooldown_ms == cd_a);
                        assert forall|k: int| n <= k < nl implies born_with_parents(
                            old_c,
                            creatures@,
                            #[trigger] creatures@[k],
                            *cfg,
                        ) by {
                            if k < nl - 1 {
                                assert(creatures@[k] == mid_c[k]);
                                assert(born_with_parents(old_c, mid_c, mid_c[k], *cfg));
                                let (a0, b0) = choose|a0: int, b0: int|
                                    #[trigger] eligible_pair(old_c, a0, b0) && mid_c[k] == baby_of(
                                        old_c[a0],
                                        cfg.species_spec(old_c[a0].species),
                                        mid_c[k].id,
                                    ) && mid_c[a0].cooldown_ms == cfg.species_spec(
                                        old_c[a0].species,
                                    ).reproduction_cooldown_ms && mid_c[b0].cooldown_ms
                                        == cfg.species_spec(
                                        old_c[b0].species,
                                    ).reproduction_cooldown_ms;
                                // Earlier parents carry nonzero cooldowns, so
                                // the two fresh parents are someone else.
                                assert(a0 != a as int && a0 != b as int);
                                assert(b0 != a as int && b0 != b as int);
                                assert(creatures@[a0] == mid_c[a0] && creatures@[b0] == mid_c[b0]);
                            } else {
                                assert(eligible_pair(old_c, a as int, b as int));
                                assert(creatures@[k] == baby);
                            }
                        }
                    }
                }
            }
            b = b + 1;
        }
        a = a + 1;
    }
    proof {
        reveal(reproduction_outcomes);
        assert(reproduction_outcomes(old_c, creatures@, old_stats, *stats, *cfg));
        if *next_id == old_next && old_next < u64::MAX {
            if exists|x: int, y: int|
                #[trigger] eligible_pair(old_c, x, y) && cfg.species_spec(
                    old_c[x].species,
                ).reproduction_chance_ppm >= 1_000_000 {
                let (x, y) = choose|x: int, y: int|
                    #[trigger] eligible_pair(old_c, x, y) && cfg.species_spec(
                        old_c[x].species,
                    ).reproduction_chance_ppm >= 1_000_000;
                if x < y {
                    assert(eligible_pair(old_c, x, y));
                    assert(false);
                } else {
                    assert(dist(old_c[y].x as int, old_c[y].y as int, old_c[x].x as int,
                        old_c[x].y as int) == dist(old_c[x].x as int, old_c[x].y as int,
                        old_c[y].x as int, old_c[y].y as int));
                    assert(eligible_pair(old_c, y, x));
                    assert(cfg.species_spec(old_c[y].species).reproduction_chance_ppm
                        >= 1_000_000);
                    assert(false);
                }
            }
        }
    }
}

} // verus!
