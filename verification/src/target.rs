//! Target selection: what a creature heads for (or flees from) this move.
//!
//! Before any creature moves, the tick snapshots every creature's position,
//! species and adulthood, so that all creatures act on one consistent view.
//! A creature then picks at most one target by decreasing priority:
//! a mate, food, a threat to flee from, or prey to hunt — with the
//! desperation override that a critically hungry predator prefers plants
//! over prey.

use vstd::prelude::*;
use crate::config::{SimConfig, Species};
use crate::creature::{Activity, Creature};

verus! {

/// A herbivore at or below this hunger counts as full.
pub const HERB_FULL_MILLI: i64 = 10_000;

/// A herbivore seeks food only above this hunger.
pub const HERB_SEEK_FOOD_MILLI: i64 = 30_000;

/// A predator seeks a mate only at or below this hunger.
pub const PRED_MATE_MAX_MILLI: i64 = 50_000;

/// An adult predator may eat plants at or below this hunger.
pub const PRED_FRUIT_MAX_MILLI: i64 = 30_000;

/// The default directional weight of a target.
pub const BASE_TARGET_WEIGHT: i64 = 20;

/// The directional weight of a predator's mate target.
pub const PRED_MATE_WEIGHT: i64 = 60;

/// A grid cell.
#[derive(Clone, Copy, PartialEq, Eq, Structural, Debug)]
pub struct Cell {
    pub x: i32,
    pub y: i32,
}

/// The pre-tick snapshot of one creature, as others see it.
#[derive(Clone, Copy, PartialEq, Eq, Structural, Debug)]
pub struct CreatureView {
    pub x: i32,
    pub y: i32,
    pub species: Species,
    pub is_adult: bool,
    /// Whether the creature was live (not flagged dead) when snapshotted.
    pub alive: bool,
}

/// What kind of goal a target is.
#[derive(Clone, Copy, PartialEq, Eq, Structural, Debug)]
pub enum TargetKind {
    /// A plant to walk to and eat.
    Food,
    /// A same-species adult to approach.
    Mate,
    /// Prey to chase.
    Hunt,
    /// A predator to run from.
    Flee,
}

/// A movement goal: a cell, what it is, and how strongly it pulls
/// (or, for `Flee`, pushes).
#[derive(Clone, Copy, PartialEq, Eq, Structural, Debug)]
pub struct Target {
    pub x: i32,
    pub y: i32,
    pub kind: TargetKind,
    pub weight: i64,
}

/// The absolute value.
pub open spec fn iabs(a: int) -> int {
    if a < 0 {
        -a
    } else {
        a
    }
}

/// Manhattan distance between two cells.
pub open spec fn dist(x1: int, y1: int, x2: int, y2: int) -> int {
    iabs(x1 - x2) + iabs(y1 - y2)
}

/// Manhattan distance, computed without overflow for any coordinates.
pub fn manhattan(x1: i32, y1: i32, x2: i32, y2: i32) -> (d: i64)
    ensures
        d == dist(x1 as int, y1 as int, x2 as int, y2 as int),
{
    let dx: i64 = x1 as i64 - x2 as i64;
    let dy: i64 = y1 as i64 - y2 as i64;
    let ax: i64 = if dx < 0 {
        -dx
    } else {
        dx
    };
    let ay: i64 = if dy < 0 {
        -dy
    } else {
        dy
    };
    ax + ay
}

/// The snapshot view of one creature.
pub open spec fn view_of(c: Creature) -> CreatureView {
    CreatureView { x: c.x, y: c.y, species: c.species, is_adult: c.is_adult, alive: !c.dead }
}

/// The snapshot views of a whole sequence, in order.
pub open spec fn views_of(s: Seq<Creature>) -> Seq<CreatureView> {
    Seq::new(s.len(), |k: int| view_of(s[k]))
}

/// Snapshots every creature, in order.
pub fn make_views(creatures: &Vec<Creature>) -> (views: Vec<CreatureView>)
    ensures
        views@ == views_of(creatures@),
{
    let mut views: Vec<CreatureView> = Vec::new();
    let mut i: usize = 0;
    while i < creatures.len()
        invariant
            i <= creatures@.len(),
            views@.len() == i,
            forall|k: int| 0 <= k < i ==> views@[k] == view_of(creatures@[k]),
        decreases creatures@.len() - i,
    {
        let c = creatures[i];
        views.push(CreatureView {
            x: c.x,
            y: c.y,
            species: c.species,
            is_adult: c.is_adult,
            alive: !c.dead,
        });
        i = i + 1;
    }
    proof {
        assert(views@ =~= views_of(creatures@));
    }
    views
}

/// A live same-species adult, closer than the sight range and further than
/// one step: a mate candidate.
pub open spec fn mate_candidate(mx: int, my: int, sight: int, sp: Species, o: CreatureView) -> bool {
    &&& o.alive
    &&& o.species == sp
    &&& o.is_adult
    &&& 1 < dist(mx, my, o.x as int, o.y as int) < sight
}

/// A live adult predator within sight: a threat.  Baby predators never
/// count as threats.
pub open spec fn threat_candidate(mx: int, my: int, sight: int, o: CreatureView) -> bool {
    &&& o.alive
    &&& o.species is Predator
    &&& o.is_adult
    &&& dist(mx, my, o.x as int, o.y as int) < sight
}

/// A live herbivore within sight: prey.
pub open spec fn prey_candidate(mx: int, my: int, sight: int, o: CreatureView) -> bool {
    &&& o.alive
    &&& o.species is Herbivore
    &&& dist(mx, my, o.x as int, o.y as int) < sight
}

/// A plant within sight, not on the creature's own cell.
pub open spec fn plant_candidate(mx: int, my: int, sight: int, c: Cell) -> bool {
    1 <= dist(mx, my, c.x as int, c.y as int) < sight
}

/// Whether `o` is strictly closer than the best candidate so far; the
/// first candidate found at the least distance wins.
pub open spec fn closer_view(mx: int, my: int, o: CreatureView, prev: Option<CreatureView>) -> bool {
    match prev {
        Option::None => true,
        Option::Some(b) => dist(mx, my, o.x as int, o.y as int) < dist(
            mx,
            my,
            b.x as int,
            b.y as int,
        ),
    }
}

/// Whether cell `c` is strictly closer than the best cell so far.
pub open spec fn closer_cell(mx: int, my: int, c: Cell, prev: Option<Cell>) -> bool {
    match prev {
        Option::None => true,
        Option::Some(b) => dist(mx, my, c.x as int, c.y as int) < dist(
            mx,
            my,
            b.x as int,
            b.y as int,
        ),
    }
}

/// The first-found nearest mate candidate, scanning the snapshot in order
/// and skipping the creature's own entry.
pub open spec fn nearest_mate_spec(
    s: Seq<CreatureView>,
    skip: int,
    mx: int,
    my: int,
    sight: int,
    sp: Species,
) -> Option<CreatureView>
    decreases s.len(),
{
    if s.len() == 0 {
        Option::None
    } else {
        let prev = nearest_mate_spec(s.drop_last(), skip, mx, my, sight, sp);
        let k = s.len() - 1;
        let o = s.last();
        if k != skip && mate_candidate(mx, my, sight, sp, o) && closer_view(mx, my, o, prev) {
            Option::Some(o)
        } else {
            prev
        }
    }
}

/// The first-found nearest threat, scanning the snapshot in order.
pub open spec fn nearest_threat_spec(
    s: Seq<CreatureView>,
    skip: int,
    mx: int,
    my: int,
    sight: int,
) -> Option<CreatureView>
    decreases s.len(),
{
    if s.len() == 0 {
        Option::None
    } else {
        let prev = nearest_threat_spec(s.drop_last(), skip, mx, my, sight);
        let k = s.len() - 1;
        let o = s.last();
        if k != skip && threat_candidate(mx, my, sight, o) && closer_view(mx, my, o, prev) {
            Option::Some(o)
        } else {
            prev
        }
    }
}

/// The first-found nearest prey, scanning the snapshot in order.
pub open spec fn nearest_prey_spec(
    s: Seq<CreatureView>,
    skip: int,
    mx: int,
    my: int,
    sight: int,
) -> Option<CreatureView>
    decreases s.len(),
{
    if s.len() == 0 {
        Option::None
    } else {
        let prev = nearest_prey_spec(s.drop_last(), skip, mx, my, sight);
        let k = s.len() - 1;
        let o = s.last();
        if k != skip && prey_candidate(mx, my, sight, o) && closer_view(mx, my, o, prev) {
            Option::Some(o)
        } else {
            prev
        }
    }
}

/// The first-found nearest plant cell within sight.
pub open spec fn nearest_plant_spec(s: Seq<Cell>, mx: int, my: int, sight: int) -> Option<Cell>
    decreases s.len(),
{
    if s.len() == 0 {
        Option::None
    } else {
        let prev = nearest_plant_spec(s.drop_last(), mx, my, sight);
        let c = s.last();
        if plant_candidate(mx, my, sight, c) && closer_cell(mx, my, c, prev) {
            Option::Some(c)
        } else {
            prev
        }
    }
}

/// The first-found nearest mate candidate.
pub fn nearest_mate(
    s: &Vec<CreatureView>,
    skip: usize,
    mx: i32,
    my: i32,
    sight: i32,
    sp: Species,
) -> (r: Option<CreatureView>)
    ensures
        r == nearest_mate_spec(s@, skip as int, mx as int, my as int, sight as int, sp),
{
    let mut best: Option<CreatureView> = Option::None;
    let mut i: usize = 0;
    while i < s.len()
        invariant
            i <= s@.len(),
            best == nearest_mate_spec(
                s@.subrange(0, i as int),
                skip as int,
                mx as int,
                my as int,
                sight as int,
                sp,
            ),
        decreases s@.len() - i,
    {
        proof {
            assert(s@.subrange(0, i as int + 1).drop_last() =~= s@.subrange(0, i as int));
            assert(s@.subrange(0, i as int + 1).last() == s@[i as int]);
        }
        let o = s[i];
        if i != skip && o.alive && o.is_adult {
            let same = match (o.species, sp) {
                (Species::Herbivore, Species::Herbivore) => true,
                (Species::Predator, Species::Predator) => true,
                _ => false,
            };
            if same {
                let d = manhattan(mx, my, o.x, o.y);
                if 1 < d && d < sight as i64 {
                    let replace = match best {
                        Option::None => true,
                        Option::Some(b) => d < manhattan(mx, my, b.x, b.y),
                    };
                    if replace {
                        best = Option::Some(o);
                    }
                }
            }
        }
        i = i + 1;
    }
    proof {
        assert(s@.subrange(0, s@.len() as int) =~= s@);
    }
    best
}

/// The first-found nearest threat.
pub fn nearest_threat(s: &Vec<CreatureView>, skip: usize, mx: i32, my: i32, sight: i32) -> (r:
    Option<CreatureView>)
    ensures
        r == nearest_threat_spec(s@, skip as int, mx as int, my as int, sight as int),
{
    let mut best: Option<CreatureView> = Option::None;
    let mut i: usize = 0;
    while i < s.len()
        invariant
            i <= s@.len(),
            best == nearest_threat_spec(
                s@.subrange(0, i as int),
                skip as int,
                mx as int,
                my as int,
                sight as int,
            ),
        decreases s@.len() - i,
    {
        proof {
            assert(s@.subrange(0, i as int + 1).drop_last() =~= s@.subrange(0, i as int));
            assert(s@.subrange(0, i as int + 1).last() == s@[i as int]);
        }
        let o = s[i];
        if i != skip && o.alive && o.is_adult && matches!(o.species, Species::Predator) {
            let d = manhattan(mx, my, o.x, o.y);
            if d < sight as i64 {
                let replace = match best {
                    Option::None => true,
                    Option::Some(b) => d < manhattan(mx, my, b.x, b.y),
                };
                if replace {
                    best = Option::Some(o);
                }
            }
        }
        i = i + 1;
    }
    proof {
        assert(s@.subrange(0, s@.len() as int) =~= s@);
    }
    best
}

/// The first-found nearest prey.
pub fn nearest_prey(s: &Vec<CreatureView>, skip: usize, mx: i32, my: i32, sight: i32) -> (r:
    Option<CreatureView>)
    ensures
        r == nearest_prey_spec(s@, skip as int, mx as int, my as int, sight as int),
{
    let mut best: Option<CreatureView> = Option::None;
    let mut i: usize = 0;
    while i < s.len()
        invariant
            i <= s@.len(),
            best == nearest_prey_spec(
                s@.subrange(0, i as int),
                skip as int,
                mx as int,
                my as int,
                sight as int,
            ),
        decreases s@.len() - i,
    {
        proof {
            assert(s@.subrange(0, i as int + 1).drop_last() =~= s@.subrange(0, i as int));
            assert(s@.subrange(0, i as int + 1).last() == s@[i as int]);
        }
        let o = s[i];
        if i != skip && o.alive && matches!(o.species, Species::Herbivore) {
            let d = manhattan(mx, my, o.x, o.y);
            if d < sight as i64 {
                let replace = match best {
                    Option::None => true,
                    Option::Some(b) => d < manhattan(mx, my, b.x, b.y),
                };
                if replace {
                    best = Option::Some(o);
                }
            }
        }
        i = i + 1;
    }
    proof {
        assert(s@.subrange(0, s@.len() as int) =~= s@);
    }
    best
}

/// The first-found nearest plant within sight.
pub fn nearest_plant(s: &Vec<Cell>, mx: i32, my: i32, sight: i32) -> (r: Option<Cell>)
    ensures
        r == nearest_plant_spec(s@, mx as int, my as int, sight as int),
{
    let mut best: Option<Cell> = Option::None;
    let mut i: usize = 0;
    while i < s.len()
        invariant
            i <= s@.len(),
            best == nearest_plant_spec(s@.subrange(0, i as int), mx as int, my as int, sight as int),
        decreases s@.len() - i,
    {
        proof {
            assert(s@.subrange(0, i as int + 1).drop_last() =~= s@.subrange(0, i as int));
            assert(s@.subrange(0, i as int + 1).last() == s@[i as int]);
        }
        let c = s[i];
        let d = manhattan(mx, my, c.x, c.y);
        if 1 <= d && d < sight as i64 {
            let replace = match best {
                Option::None => true,
                Option::Some(b) => d < manhattan(mx, my, b.x, b.y),
            };
            if replace {
                best = Option::Some(c);
            }
        }
        i = i + 1;
    }
    proof {
        assert(s@.subrange(0, s@.len() as int) =~= s@);
    }
    best
}

/// Adult, cooldown-free and not overfed: allowed to seek a mate.
pub open spec fn breeding_ready(me: Creature) -> bool {
    me.is_adult && me.cooldown_ms == 0 && !(me.state is Overfed)
}

/// Whether a chosen target is a mate target.
pub open spec fn is_mate_target(t: Option<Target>) -> bool {
    match t {
        Option::Some(tg) => tg.kind is Mate,
        Option::None => false,
    }
}

/// Whether a chosen target is a hunt target.
pub open spec fn is_hunt_target(t: Option<Target>) -> bool {
    match t {
        Option::Some(tg) => tg.kind is Hunt,
        Option::None => false,
    }
}

/// Priority stage one — mates and herbivore food.  A full, breeding-ready
/// herbivore seeks the nearest mate; failing that, a herbivore hungrier
/// than the food threshold seeks the nearest plant.  A breeding-ready
/// predator at most at the mate hunger bound seeks the nearest adult mate
/// with a raised weight.
pub open spec fn stage_mate_food(
    me: Creature,
    idx: int,
    others: Seq<CreatureView>,
    plants: Seq<Cell>,
) -> Option<Target> {
    let mx = me.x as int;
    let my = me.y as int;
    let sight = me.sight_range as int;
    match me.species {
        Species::Herbivore => {
            let mate = if me.hunger_milli <= HERB_FULL_MILLI && breeding_ready(me) {
                nearest_mate_spec(others, idx, mx, my, sight, Species::Herbivore)
            } else {
                Option::None
            };
            match mate {
                Option::Some(o) => Option::Some(
                    Target { x: o.x, y: o.y, kind: TargetKind::Mate, weight: BASE_TARGET_WEIGHT },
                ),
                Option::None => {
                    if me.hunger_milli > HERB_SEEK_FOOD_MILLI {
                        match nearest_plant_spec(plants, mx, my, sight) {
                            Option::Some(c) => Option::Some(
                                Target {
                                    x: c.x,
                                    y: c.y,
                                    kind: TargetKind::Food,
                                    weight: BASE_TARGET_WEIGHT,
                                },
                            ),
                            Option::None => Option::None,
                        }
                    } else {
                        Option::None
                    }
                },
            }
        },
        Species::Predator => {
            let mate = if breeding_ready(me) && me.hunger_milli <= PRED_MATE_MAX_MILLI {
                nearest_mate_spec(others, idx, mx, my, sight, Species::Predator)
            } else {
                Option::None
            };
            match mate {
                Option::Some(o) => Option::Some(
                    Target { x: o.x, y: o.y, kind: TargetKind::Mate, weight: PRED_MATE_WEIGHT },
                ),
                Option::None => Option::None,
            }
        },
    }
}

/// Priority stage two — flee and hunt overrides.  A herbivore with an
/// adult predator in sight always flees the nearest one.  An adult
/// predator not already on a mate target hunts the nearest prey.
pub open spec fn stage_flee_hunt(
    me: Creature,
    idx: int,
    others: Seq<CreatureView>,
    t1: Option<Target>,
) -> Option<Target> {
    let mx = me.x as int;
    let my = me.y as int;
    let sight = me.sight_range as int;
    let threat = if me.species is Herbivore {
        nearest_threat_spec(others, idx, mx, my, sight)
    } else {
        Option::None
    };
    let t2 = match threat {
        Option::Some(o) => Option::Some(
            Target { x: o.x, y: o.y, kind: TargetKind::Flee, weight: BASE_TARGET_WEIGHT },
        ),
        Option::None => t1,
    };
    let prey = if me.species is Predator && me.is_adult && !is_mate_target(t1) {
        nearest_prey_spec(others, idx, mx, my, sight)
    } else {
        Option::None
    };
    match prey {
        Option::Some(o) => if !is_mate_target(t2) {
            Option::Some(Target { x: o.x, y: o.y, kind: TargetKind::Hunt, weight: BASE_TARGET_WEIGHT })
        } else {
            t2
        },
        Option::None => t2,
    }
}

/// Priority stage three — the predator fruit fallback.  A predator may
/// target plants when it is a baby, or full enough, or desperately hungry;
/// at desperation the plant weight rises and any concurrent hunt target's
/// weight is suppressed, so a critically hungry predator forages rather
/// than hunts.
pub open spec fn stage_fruit(
    me: Creature,
    plants: Seq<Cell>,
    t2: Option<Target>,
    cfg: SimConfig,
) -> Option<Target> {
    if !(me.species is Predator) {
        t2
    } else {
        let mx = me.x as int;
        let my = me.y as int;
        let sight = me.sight_range as int;
        let low = me.hunger_milli >= cfg.predator_low_health_milli;
        let can_fruit = !me.is_adult || me.hunger_milli <= PRED_FRUIT_MAX_MILLI || low;
        let t3 = if low && is_hunt_target(t2) {
            match t2 {
                Option::Some(tg) => Option::Some(
                    Target { weight: cfg.predator_low_health_weight_meat, ..tg },
                ),
                Option::None => Option::None,
            }
        } else {
            t2
        };
        if can_fruit && !is_mate_target(t3) && (!is_hunt_target(t3) || low) {
            match nearest_plant_spec(plants, mx, my, sight) {
                Option::Some(c) => Option::Some(
                    Target {
                        x: c.x,
                        y: c.y,
                        kind: TargetKind::Food,
                        weight: if low {
                            cfg.predator_low_health_weight_fruit
                        } else {
                            BASE_TARGET_WEIGHT
                        },
                    },
                ),
                Option::None => t3,
            }
        } else {
            t3
        }
    }
}

/// The movement goal of creature `idx` for this move, over the snapshot of
/// all creatures and the live plant cells: the three priority stages in
/// order.
pub open spec fn spec_select_target(
    me: Creature,
    idx: int,
    others: Seq<CreatureView>,
    plants: Seq<Cell>,
    cfg: SimConfig,
) -> Option<Target> {
    stage_fruit(
        me,
        plants,
        stage_flee_hunt(me, idx, others, stage_mate_food(me, idx, others, plants)),
        cfg,
    )
}

/// Picks the movement goal of creature `idx`: a mate, food, prey, or a
/// threat to flee, by the documented priorities.
pub fn select_target(
    me: &Creature,
    idx: usize,
    others: &Vec<CreatureView>,
    plants: &Vec<Cell>,
    cfg: &SimConfig,
) -> (r: Option<Target>)
    requires
        cfg.wf(),
    ensures
        r == spec_select_target(*me, idx as int, others@, plants@, *cfg),
        r matches Some(t) ==> 0 <= t.weight <= 1_000_000,
{
    let mx = me.x;
    let my = me.y;
    let sight = me.sight_range;

    // Stage one: mates, and herbivore food.
    let t1: Option<Target> = match me.species {
        Species::Herbivore => {
            let ready = me.is_adult && me.cooldown_ms == 0 && !matches!(
                me.state,
                Activity::Overfed { .. },
            );
            let mate = if me.hunger_milli <= HERB_FULL_MILLI && ready {
                nearest_mate(others, idx, mx, my, sight, Species::Herbivore)
            } else {
                Option::None
            };
            match mate {
                Option::Some(o) => Option::Some(
                    Target { x: o.x, y: o.y, kind: TargetKind::Mate, weight: BASE_TARGET_WEIGHT },
                ),
                Option::None => {
                    if me.hunger_milli > HERB_SEEK_FOOD_MILLI {
                        match nearest_plant(plants, mx, my, sight) {
                            Option::Some(c) => Option::Some(
                                Target {
                                    x: c.x,
                                    y: c.y,
                                    kind: TargetKind::Food,
                                    weight: BASE_TARGET_WEIGHT,
                                },
                            ),
                            Option::None => Option::None,
                        }
                    } else {
                        Option::None
                    }
                },
            }
        },
        Species::Predator => {
            let ready = me.is_adult && me.cooldown_ms == 0 && !matches!(
                me.state,
                Activity::Overfed { .. },
            );
            let mate = if ready && me.hunger_milli <= PRED_MATE_MAX_MILLI {
                nearest_mate(others, idx, mx, my, sight, Species::Predator)
            } else {
                Option::None
            };
            match mate {
                Option::Some(o) => Option::Some(
                    Target { x: o.x, y: o.y, kind: TargetKind::Mate, weight: PRED_MATE_WEIGHT },
                ),
                Option::None => Option::None,
            }
        },
    };

    // Stage two: flee and hunt overrides.
    let threat = if matches!(me.species, Species::Herbivore) {
        nearest_threat(others, idx, mx, my, sight)
    } else {
        Option::None
    };
    let t2 = match threat {
        Option::Some(o) => Option::Some(
            Target { x: o.x, y: o.y, kind: TargetKind::Flee, weight: BASE_TARGET_WEIGHT },
        ),
        Option::None => t1,
    };
    let t1_is_mate = matches!(t1, Option::Some(Target { kind: TargetKind::Mate, .. }));
    let prey = if matches!(me.species, Species::Predator) && me.is_adult && !t1_is_mate {
        nearest_prey(others, idx, mx, my, sight)
    } else {
        Option::None
    };
    let t2_is_mate = matches!(t2, Option::Some(Target { kind: TargetKind::Mate, .. }));
    let t3 = match prey {
        Option::Some(o) => if !t2_is_mate {
            Option::Some(Target { x: o.x, y: o.y, kind: TargetKind::Hunt, weight: BASE_TARGET_WEIGHT })
        } else {
            t2
        },
        Option::None => t2,
    };

    // Stage three: the predator fruit fallback.
    if !matches!(me.species, Species::Predator) {
        t3
    } else {
        let low = me.hunger_milli >= cfg.predator_low_health_milli;
        let can_fruit = !me.is_adult || me.hunger_milli <= PRED_FRUIT_MAX_MILLI || low;
        let t3_is_hunt = matches!(t3, Option::Some(Target { kind: TargetKind::Hunt, .. }));
        let t4 = if low && t3_is_hunt {
            match t3 {
                Option::Some(tg) => Option::Some(
                    Target { weight: cfg.predator_low_health_weight_meat, ..tg },
                ),
                Option::None => Option::None,
            }
        } else {
            t3
        };
        let t4_is_mate = matches!(t4, Option::Some(Target { kind: TargetKind::Mate, .. }));
        let t4_is_hunt = matches!(t4, Option::Some(Target { kind: TargetKind::Hunt, .. }));
        if can_fruit && !t4_is_mate && (!t4_is_hunt || low) {
            match nearest_plant(plants, mx, my, sight) {
                Option::Some(c) => Option::Some(
                    Target {
                        x: c.x,
                        y: c.y,
                        kind: TargetKind::Food,
                        weight: if low {
                            cfg.predator_low_health_weight_fruit
                        } else {
                            BASE_TARGET_WEIGHT
                        },
                    },
                ),
                Option::None => t4,
            }
        } else {
            t4
        }
    }
}

} // verus!
