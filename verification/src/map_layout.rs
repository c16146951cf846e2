//! The weighted spawn table.
//!
//! Enemies enter the world through an ordered list of `Structure`s, each a
//! weighted group of spawn offsets. The weights are kept as a running
//! cumulative sum (a prefix sum of the individual weights), so a sampling
//! tick draws one uniform value against the final cumulative weight and takes
//! the first structure whose cumulative weight reaches the draw. Pre-authored
//! structures imported from files are consumed first, one structure per tick;
//! random sampling starts once they are exhausted.
//!
//! Weights are stored in tenths of a weight point, so a weight of `0.2`
//! becomes `2`.

use vstd::prelude::*;

use crate::rng::rand_below;
use crate::units::UNIT;

verus! {

/// The kinds of object the table can spawn.
#[derive(Clone, Copy, Debug, PartialEq, Eq, Structural)]
pub enum EnemyKind {
    /// Black hole: harmless but pulls the player in strongly.
    Hole,
    /// Energy pickup.
    EnergyBar,
    /// Homing rainbow that leaves damaging trails.
    Rainbow,
    /// Sensor line that releases a plane when touched.
    Plane,
    /// Solid planet with a gentle pull.
    Planet,
    /// Plain falling hazard with no special effect.
    Basic,
}

/// One planned spawn: a position (missing parts are filled at spawn time) and
/// the kind of enemy to place there.
#[derive(Clone, Copy, Debug, PartialEq, Eq)]
pub struct SpawnEvent {
    /// Horizontal position in pixels; `None` draws one inside the screen.
    pub x: Option<i32>,
    /// Vertical position in pixels; `None` uses the fixed spawn height.
    pub y: Option<i32>,
    pub enemy: EnemyKind,
}

/// A weighted group of spawn offsets treated as a single sampling unit.
/// After `set_to_sums`, `spawn_chance` holds the cumulative weight of this
/// and every earlier structure.
#[derive(Debug, PartialEq, Eq)]
pub struct Structure {
    /// Weight in tenths of a weight point; cumulative once summed.
    pub spawn_chance: u64,
    /// The offsets spawned together when this structure is chosen.
    pub structure: Vec<SpawnEvent>,
}

/// Horizontal half-range, in millionths of a pixel, for a spawn without an
/// explicit `x`: the draw is uniform in `[-320, 320)` pixels.
pub const SPAWN_X_HALF_RANGE: i64 = 320_000_000;

/// Vertical position, in millionths of a pixel, for a spawn without an
/// explicit `y`: a fixed height above the viewport.
pub const SPAWN_HEIGHT: i64 = 500_000_000;

/// Largest pixel magnitude a planned spawn coordinate may carry.
pub const EVENT_COORD_MAX: i32 = 2_000_000;

/// A planned spawn whose coordinates stay within the arena.
pub open spec fn event_wf(ev: SpawnEvent) -> bool {
    &&& match ev.x {
        Some(v) => -EVENT_COORD_MAX <= v <= EVENT_COORD_MAX,
        None => true,
    }
    &&& match ev.y {
        Some(v) => -EVENT_COORD_MAX <= v <= EVENT_COORD_MAX,
        None => true,
    }
}

/// A structure all of whose planned spawns are within the arena.
pub open spec fn structure_wf(s: Structure) -> bool {
    forall|k: int| 0 <= k < s.structure@.len() ==> event_wf(#[trigger] s.structure@[k])
}

/// Sum of the first `n` individual weights of `s` (before `set_to_sums`, the
/// `spawn_chance` fields are the individual weights).
pub open spec fn sum_weights(s: Seq<Structure>, n: int) -> int
    decreases n,
{
    if n <= 0 {
        0
    } else {
        sum_weights(s, n - 1) + s[n - 1].spawn_chance as int
    }
}

/// Prefix sums of non-negative weights never decrease as more weights are
/// taken in.
pub proof fn lemma_sum_weights_mono(s: Seq<Structure>, i: int, j: int)
    requires
        0 <= i <= j,
    ensures
        sum_weights(s, i) <= sum_weights(s, j),
    decreases j,
{
    if i < j {
        lemma_sum_weights_mono(s, i, j - 1);
    }
}

/// The cumulative weight sequence is non-decreasing in table order.
pub open spec fn cumulative_ok(s: Seq<Structure>) -> bool {
    forall|i: int| 0 < i < s.len() ==> s[i - 1].spawn_chance <= #[trigger] s[i].spawn_chance
}

/// In a table with non-decreasing cumulative weights, any earlier structure
/// carries a cumulative weight no larger than any later one.
pub proof fn lemma_cumulative_mono(s: Seq<Structure>, i: int, j: int)
    requires
        cumulative_ok(s),
        0 <= i <= j < s.len(),
    ensures
        s[i].spawn_chance <= s[j].spawn_chance,
    decreases j - i,
{
    if i < j {
        lemma_cumulative_mono(s, i, j - 1);
    }
}

/// Replace each structure's individual weight by the cumulative weight of it
/// and all earlier structures. The offsets are untouched, and the resulting
/// cumulative sequence is non-decreasing.
pub fn set_to_sums(vec: &mut Vec<Structure>)
    requires
        sum_weights(old(vec)@, old(vec)@.len() as int) <= u64::MAX,
    ensures
        final(vec)@.len() == old(vec)@.len(),
        forall|i: int| 0 <= i < final(vec)@.len() ==> #[trigger] final(vec)@[i].spawn_chance
            == sum_weights(old(vec)@, i + 1),
        forall|i: int| 0 <= i < final(vec)@.len() ==> #[trigger] final(vec)@[i].structure
            == old(vec)@[i].structure,
        cumulative_ok(final(vec)@),
{
    let ghost orig: Seq<Structure> = vec@;
    let mut sum: u64 = 0;
    let mut i: usize = 0;
    while i < vec.len()
        invariant
            i <= vec@.len(),
            vec@.len() == orig.len(),
            sum == sum_weights(orig, i as int),
            sum_weights(orig, orig.len() as int) <= u64::MAX,
            forall|j: int| 0 <= j < i ==> #[trigger] vec@[j].spawn_chance
                == sum_weights(orig, j + 1),
            forall|j: int| 0 <= j < i ==> #[trigger] vec@[j].structure == orig[j].structure,
            forall|j: int| i <= j < vec@.len() ==> #[trigger] vec@[j] == orig[j],
        decreases vec@.len() - i,
    {
        proof {
            lemma_sum_weights_mono(orig, i as int + 1, orig.len() as int);
        }
        let before: u64 = vec[i].spawn_chance;
        vec[i].spawn_chance = sum + before;
        sum = sum + before;
        i = i + 1;
    }
    proof {
        assert forall|i2: int| 0 < i2 < vec@.len() implies vec@[i2 - 1].spawn_chance
            <= #[trigger] vec@[i2].spawn_chance by {
            assert(vec@[i2 - 1].spawn_chance == sum_weights(orig, i2));
            assert(vec@[i2].spawn_chance == sum_weights(orig, i2 + 1));
            lemma_sum_weights_mono(orig, i2, i2 + 1);
        }
    }
}

/// The total cumulative weight of a summed table.
pub open spec fn total_weight(s: Seq<Structure>) -> int {
    if s.len() == 0 {
        0
    } else {
        s[s.len() - 1].spawn_chance as int
    }
}

/// The draw `draw` selects index `i`: `i` is the first position whose
/// cumulative weight reaches the draw.
pub open spec fn selects(s: Seq<Structure>, draw: int, i: int) -> bool {
    &&& 0 <= i < s.len()
    &&& s[i].spawn_chance >= draw
    &&& forall|j: int| 0 <= j < i ==> (#[trigger] s[j].spawn_chance) < draw
}

/// At most one index is selected by a given draw.
pub proof fn lemma_selects_unique(s: Seq<Structure>, draw: int, i: int, j: int)
    requires
        selects(s, draw, i),
        selects(s, draw, j),
    ensures
        i == j,
{
}

/// Scan the summed table for the first structure whose cumulative weight
/// reaches the draw. A draw equal to a cumulative boundary shared with
/// earlier structures resolves to the earliest of them.
pub fn select_structure(map: &Vec<Structure>, draw: u64) -> (i: usize)
    requires
        map@.len() > 0,
        draw <= total_weight(map@),
    ensures
        selects(map@, draw as int, i as int),
{
    let n: usize = map.len();
    let mut i: usize = 0;
    while map[i].spawn_chance < draw
        invariant
            0 < n == map@.len(),
            i < n,
            draw <= total_weight(map@),
            forall|j: int| 0 <= j < i ==> (#[trigger] map@[j].spawn_chance) < draw,
        decreases n - i,
    {
        i = i + 1;
    }
    i
}

/// A structure with positive individual weight (after summing: one whose
/// cumulative weight strictly exceeds its predecessor's) can be chosen by
/// some draw; zero-weight structures are unreachable.
pub open spec fn selectable(s: Seq<Structure>, i: int) -> bool {
    &&& 0 <= i < s.len()
    &&& if i == 0 {
        s[0].spawn_chance > 0
    } else {
        s[i].spawn_chance > s[i - 1].spawn_chance
    }
}

/// Boundary inclusivity: when the last structure has positive weight, a draw
/// of exactly the final cumulative weight selects the last structure.
pub proof fn lemma_final_draw_selects_last(s: Seq<Structure>)
    requires
        cumulative_ok(s),
        s.len() > 0,
        selectable(s, s.len() - 1),
    ensures
        selects(s, total_weight(s), s.len() - 1),
{
    let last = s.len() - 1;
    assert forall|j: int| 0 <= j < last implies (#[trigger] s[j].spawn_chance)
        < total_weight(s) by {
        if last > 0 {
            lemma_cumulative_mono(s, j, last - 1);
        }
    }
}

/// A selected structure always has positive weight: a draw of at least one
/// can never land on a zero-weight structure.
pub proof fn lemma_selected_is_selectable(s: Seq<Structure>, draw: int, i: int)
    requires
        selects(s, draw, i),
        draw >= 1,
    ensures
        selectable(s, i),
{
}

/// The default table: six single-offset structures with the configured
/// weights (in tenths), summed to `[70, 190, 192, 572, 762, 1952]`.
pub fn spawn_map(imported: Vec<Structure>) -> (t: SpawnTable)
    requires
        forall|i: int| 0 <= i < imported@.len() ==> structure_wf(#[trigger] imported@[i]),
    ensures
        t.wf(),
        t.queue@ == imported@,
        t.map@.len() == 6,
        forall|i: int| 0 <= i < 6 ==> (#[trigger] t.map@[i].structure@).len() == 1
            && t.map@[i].structure@[0].x is None && t.map@[i].structure@[0].y is None,
        t.map@[0].spawn_chance == 70 && t.map@[0].structure@[0].enemy == EnemyKind::Hole,
        t.map@[1].spawn_chance == 190 && t.map@[1].structure@[0].enemy == EnemyKind::EnergyBar,
        t.map@[2].spawn_chance == 192 && t.map@[2].structure@[0].enemy == EnemyKind::Rainbow,
        t.map@[3].spawn_chance == 572 && t.map@[3].structure@[0].enemy == EnemyKind::Plane,
        t.map@[4].spawn_chance == 762 && t.map@[4].structure@[0].enemy == EnemyKind::Planet,
        t.map@[5].spawn_chance == 1952 && t.map@[5].structure@[0].enemy == EnemyKind::Basic,
{
    let mut map: Vec<Structure> = Vec::new();
    push_singleton(&mut map, 70, EnemyKind::Hole);
    push_singleton(&mut map, 120, EnemyKind::EnergyBar);
    push_singleton(&mut map, 2, EnemyKind::Rainbow);
    push_singleton(&mut map, 380, EnemyKind::Plane);
    push_singleton(&mut map, 190, EnemyKind::Planet);
    push_singleton(&mut map, 1190, EnemyKind::Basic);
    proof {
        reveal_with_fuel(sum_weights, 7);
    }
    set_to_sums(&mut map);
    SpawnTable { map, queue: imported }
}

/// Append a one-offset structure with both coordinates left to be drawn at
/// spawn time.
fn push_singleton(vec: &mut Vec<Structure>, weight: u64, enemy: EnemyKind)
    ensures
        final(vec)@.len() == old(vec)@.len() + 1,
        forall|i: int| 0 <= i < old(vec)@.len() ==> final(vec)@[i] == #[trigger] old(vec)@[i],
        final(vec)@[old(vec)@.len() as int].spawn_chance == weight,
        final(vec)@[old(vec)@.len() as int].structure@.len() == 1,
        final(vec)@[old(vec)@.len() as int].structure@[0] == (SpawnEvent {
            x: None,
            y: None,
            enemy,
        }),
{
    let mut events: Vec<SpawnEvent> = Vec::new();
    events.push(SpawnEvent { x: None, y: None, enemy });
    vec.push(Structure { spawn_chance: weight, structure: events });
}

/// The sampling period at the given speed, in milliseconds: the base period
/// of seven tenths of a second shrinks as the multiplier grows.
pub fn spawn_period(speed: &crate::speed::Speed) -> (p: u64)
    requires
        speed.wf(),
    ensures
        p as int == 700_000_000int / speed.speed as int,
{
    700_000_000 / speed.speed
}

/// The random table together with the pre-authored structures still waiting
/// to be replayed.
#[derive(Debug)]
pub struct SpawnTable {
    /// The summed random table.
    pub map: Vec<Structure>,
    /// Imported structures, consumed front to back before random sampling.
    pub queue: Vec<Structure>,
}

impl SpawnTable {
    /// A table fit for sampling: non-empty, cumulative weights summed and
    /// non-decreasing, at least one reachable structure, and every planned
    /// coordinate inside the arena.
    pub open spec fn wf(self) -> bool {
        &&& self.map@.len() > 0
        &&& cumulative_ok(self.map@)
        &&& total_weight(self.map@) >= 1
        &&& forall|i: int| 0 <= i < self.map@.len() ==> structure_wf(#[trigger] self.map@[i])
        &&& forall|i: int| 0 <= i < self.queue@.len() ==> structure_wf(#[trigger] self.queue@[i])
    }
}

/// A spawn with its position fully decided, in millionths of a pixel.
#[derive(Clone, Copy, Debug, PartialEq, Eq)]
pub struct ResolvedSpawn {
    pub x: i64,
    pub y: i64,
    pub enemy: EnemyKind,
}

/// `r` carries out the planned spawn `ev`: explicit coordinates are kept
/// (scaled to millionths), a missing `x` lies in the screen-wide band, a
/// missing `y` is the fixed spawn height.
pub open spec fn resolves_event(ev: SpawnEvent, r: ResolvedSpawn) -> bool {
    &&& r.enemy == ev.enemy
    &&& match ev.x {
        Some(v) => r.x == v * UNIT,
        None => -SPAWN_X_HALF_RANGE <= r.x < SPAWN_X_HALF_RANGE,
    }
    &&& match ev.y {
        Some(v) => r.y == v * UNIT,
        None => r.y == SPAWN_HEIGHT,
    }
}

/// `rs` carries out exactly the planned spawns `evs`, in order.
pub open spec fn resolves_structure(evs: Seq<SpawnEvent>, rs: Seq<ResolvedSpawn>) -> bool {
    &&& rs.len() == evs.len()
    &&& forall|k: int| 0 <= k < evs.len() ==> resolves_event(evs[k], #[trigger] rs[k])
}

/// Decide the position of one planned spawn, drawing the missing parts.
fn resolve_event(ev: SpawnEvent) -> (r: ResolvedSpawn)
    requires
        event_wf(ev),
    ensures
        resolves_event(ev, r),
{
    let x: i64 = match ev.x {
        Some(v) => (v as i64) * (UNIT as i64),
        None => {
            let draw: u64 = rand_below(2 * SPAWN_X_HALF_RANGE as u64);
            (draw as i64) - SPAWN_X_HALF_RANGE
        },
    };
    let y: i64 = match ev.y {
        Some(v) => (v as i64) * (UNIT as i64),
        None => SPAWN_HEIGHT,
    };
    ResolvedSpawn { x, y, enemy: ev.enemy }
}

/// One sampling tick. While pre-authored structures remain, the front one is
/// replayed and removed; afterwards, a uniform draw in `[1, total]` against
/// the cumulative weights picks a random structure, so only structures with
/// positive weight can ever come out. Either way the result carries out every
/// offset of one structure.
pub fn spawning(t: &mut SpawnTable) -> (r: Vec<ResolvedSpawn>)
    requires
        old(t).wf(),
    ensures
        final(t).wf(),
        final(t).map@ == old(t).map@,
        old(t).queue@.len() > 0 ==> final(t).queue@ == old(t).queue@.remove(0)
            && resolves_structure(old(t).queue@[0].structure@, r@),
        old(t).queue@.len() == 0 ==> final(t).queue@ == old(t).queue@
            && exists|i: int| selectable(old(t).map@, i)
                && resolves_structure(#[trigger] old(t).map@[i].structure@, r@),
{
    if t.queue.len() > 0 {
        let chosen: Structure = t.queue.remove(0);
        resolve_structure(&chosen)
    } else {
        let total: u64 = t.map[t.map.len() - 1].spawn_chance;
        let draw: u64 = rand_below(total) + 1;
        let idx: usize = select_structure(&t.map, draw);
        proof {
            lemma_selected_is_selectable(t.map@, draw as int, idx as int);
        }
        let chosen: &Structure = &t.map[idx];
        let out: Vec<ResolvedSpawn> = resolve_structure(chosen);
        proof {
            assert(selectable(t.map@, idx as int));
            assert(resolves_structure(t.map@[idx as int].structure@, out@));
        }
        out
    }
}

/// Carry out every planned spawn of one structure, in order.
fn resolve_structure(s: &Structure) -> (r: Vec<ResolvedSpawn>)
    requires
        structure_wf(*s),
    ensures
        resolves_structure(s.structure@, r@),
{
    let mut out: Vec<ResolvedSpawn> = Vec::new();
    let n: usize = s.structure.len();
    let mut k: usize = 0;
    while k < n
        invariant
            k <= n == s.structure@.len(),
            structure_wf(*s),
            out@.len() == k,
            forall|j: int| 0 <= j < k ==> resolves_event(s.structure@[j], #[trigger] out@[j]),
        decreases n - k,
    {
        let ev: SpawnEvent = s.structure[k];
        out.push(resolve_event(ev));
        k = k + 1;
    }
    out
}

} // verus!
