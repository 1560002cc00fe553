//! Snapshot history, full and delta updates, and lag compensation.

use vstd::prelude::*;
use vstd::std_specs::iter::IteratorSpec;
use std::collections::HashMap;
use crate::clock::{elapsed_micros, monotonic_now};
use crate::events::{clone_events, event_views, GameEvent, GameEventView};
use crate::proto::{
    ActivePowerUp,
    clone_power_ups, clone_projectiles, clone_scores, clone_tanks, low_bits, projectile_views,
    score_views, tank_views, tick_low_bits, GameStateUpdate, GameStateUpdateView, MessageType,
    NetworkMessage, PlayerScore, PlayerScoreView, PowerUpState, ProjectileState,
    ProjectileStateView, TankState, TankStateView,
};
use crate::types::{distance_squared, PlayerId};

verus! {

/// The replicable state of the match at one tick.
#[derive(Debug)]
pub struct GameStateSnapshot {
    pub tick: u64,
    pub timestamp: std::time::Instant,
    pub round_time_remaining: u64,
    pub tanks: Vec<TankState>,
    pub projectiles: Vec<ProjectileState>,
    pub power_ups: Vec<PowerUpState>,
    pub events: Vec<GameEvent>,
    pub scores: Vec<PlayerScore>,
}

/// What a snapshot holds, without the moment at which it was taken.
pub struct GameStateSnapshotView {
    pub tick: u64,
    pub round_time_remaining: u64,
    pub tanks: Seq<TankStateView>,
    pub projectiles: Seq<ProjectileStateView>,
    pub power_ups: Seq<PowerUpState>,
    pub events: Seq<GameEventView>,
    pub scores: Seq<PlayerScoreView>,
}

impl View for GameStateSnapshot {
    type V = GameStateSnapshotView;

    open spec fn view(&self) -> GameStateSnapshotView {
        GameStateSnapshotView {
            tick: self.tick,
            round_time_remaining: self.round_time_remaining,
            tanks: tank_views(self.tanks@),
            projectiles: projectile_views(self.projectiles@),
            power_ups: self.power_ups@,
            events: event_views(self.events@),
            scores: score_views(self.scores@),
        }
    }
}

impl Clone for GameStateSnapshot {
    fn clone(&self) -> (r: GameStateSnapshot)
        ensures
            r@ == self@,
    {
        GameStateSnapshot {
            tick: self.tick,
            timestamp: self.timestamp,
            round_time_remaining: self.round_time_remaining,
            tanks: clone_tanks(&self.tanks),
            projectiles: clone_projectiles(&self.projectiles),
            power_ups: clone_power_ups(&self.power_ups),
            events: clone_events(&self.events),
            scores: clone_scores(&self.scores),
        }
    }
}

impl GameStateSnapshot {
    /// An empty snapshot for `tick`, taken now.
    pub fn new(tick: u64) -> (s: GameStateSnapshot)
        ensures
            s@ == (GameStateSnapshotView {
                tick,
                round_time_remaining: 0,
                tanks: Seq::<TankStateView>::empty(),
                projectiles: Seq::<ProjectileStateView>::empty(),
                power_ups: Seq::<PowerUpState>::empty(),
                events: Seq::<GameEventView>::empty(),
                scores: Seq::<PlayerScoreView>::empty(),
            }),
    {
        let s = GameStateSnapshot {
            tick,
            timestamp: monotonic_now(),
            round_time_remaining: 0,
            tanks: Vec::new(),
            projectiles: Vec::new(),
            power_ups: Vec::new(),
            events: Vec::new(),
            scores: Vec::new(),
        };
        assert(s@.tanks =~= Seq::<TankStateView>::empty());
        assert(s@.projectiles =~= Seq::<ProjectileStateView>::empty());
        assert(s@.events =~= Seq::<GameEventView>::empty());
        assert(s@.scores =~= Seq::<PlayerScoreView>::empty());
        s
    }
}

/// The last tank of `list` that carries `id`.
pub open spec fn find_tank(list: Seq<TankStateView>, id: u32) -> Option<TankStateView>
    decreases list.len(),
{
    if list.len() == 0 {
        None
    } else if list.last().entity_id == id {
        Some(list.last())
    } else {
        find_tank(list.drop_last(), id)
    }
}

/// The last power-up of `list` that carries `id`.
pub open spec fn find_power_up(list: Seq<PowerUpState>, id: u32) -> Option<PowerUpState>
    decreases list.len(),
{
    if list.len() == 0 {
        None
    } else if list.last().entity_id == id {
        Some(list.last())
    } else {
        find_power_up(list.drop_last(), id)
    }
}

/// Distance between two angles.
pub open spec fn angle_gap(a: i32, b: i32) -> int {
    if a >= b {
        a - b
    } else {
        b - a
    }
}

/// Whether two lists of power-ups hold the same entries in the same order.
fn same_powerups(a: &Vec<ActivePowerUp>, b: &Vec<ActivePowerUp>) -> (same: bool)
    ensures
        same == (a@ == b@),
{
    if a.len() != b.len() {
        return false;
    }
    let mut i: usize = 0;
    while i < a.len()
        invariant
            i <= a.len(),
            a.len() == b.len(),
            a@.take(i as int) == b@.take(i as int),
        decreases a.len() - i,
    {
        if a[i].power_up_type != b[i].power_up_type || a[i].time_remaining != b[i].time_remaining {
            assert(a@[i as int] != b@[i as int]);
            return false;
        }
        assert(a@.take(i + 1) =~= a@.take(i as int).push(a@[i as int]));
        assert(b@.take(i + 1) =~= b@.take(i as int).push(b@[i as int]));
        i += 1;
    }
    assert(a@.take(a.len() as int) =~= a@);
    assert(b@.take(b.len() as int) =~= b@);
    true
}

/// Whether a tank differs from its earlier state by more than the thresholds
/// allow: it moved further than `position_threshold`, its body or turret
/// turned by more than `rotation_threshold`, or its health, its power-ups or
/// its invulnerability changed.
pub open spec fn tank_changed(
    old: TankStateView,
    new: TankStateView,
    position_threshold: u32,
    rotation_threshold: u32,
) -> bool {
    ||| (old.position is Some && new.position is Some && distance_squared(
        new.position->0,
        old.position->0,
    ) > position_threshold * position_threshold)
    ||| angle_gap(new.body_rotation, old.body_rotation) > rotation_threshold
    ||| angle_gap(new.turret_rotation, old.turret_rotation) > rotation_threshold
    ||| old.health != new.health
    ||| old.active_powerups != new.active_powerups
    ||| old.is_invulnerable != new.is_invulnerable
}

/// Whether a tank of the current state goes into a delta: it is new, or it
/// changed against the reference.
pub open spec fn tank_kept(
    reference: Seq<TankStateView>,
    position_threshold: u32,
    rotation_threshold: u32,
) -> spec_fn(TankStateView) -> bool {
    |t: TankStateView|
        match find_tank(reference, t.entity_id) {
            Some(o) => tank_changed(o, t, position_threshold, rotation_threshold),
            None => true,
        }
}

/// Whether a tank of the reference is gone from the current state.
pub open spec fn tank_gone(current: Seq<TankStateView>) -> spec_fn(TankStateView) -> bool {
    |o: TankStateView| find_tank(current, o.entity_id) is None
}

/// A tank marked as removed: its health is zero.
pub open spec fn removal_mark() -> spec_fn(TankStateView) -> TankStateView {
    |o: TankStateView| TankStateView { health: 0, ..o }
}

/// The tanks of a delta: the new and the changed ones in the order of the
/// current state, then those that left, marked with zero health, in the order
/// of the reference.
pub open spec fn tank_delta(
    reference: Seq<TankStateView>,
    current: Seq<TankStateView>,
    position_threshold: u32,
    rotation_threshold: u32,
) -> Seq<TankStateView> {
    current.filter(tank_kept(reference, position_threshold, rotation_threshold))
        + reference.filter(tank_gone(current)).map_values(removal_mark())
}

/// Distance between two timers.
pub open spec fn timer_gap(a: u64, b: u64) -> int {
    if a >= b {
        a - b
    } else {
        b - a
    }
}

/// Whether a power-up of the current state goes into a delta: it is new, its
/// availability changed, or its timer moved by more than the threshold.
pub open spec fn power_up_kept(reference: Seq<PowerUpState>, timer_threshold: u64) -> spec_fn(
    PowerUpState,
) -> bool {
    |p: PowerUpState|
        match find_power_up(reference, p.entity_id) {
            Some(o) => o.is_available != p.is_available || timer_gap(
                o.respawn_timer,
                p.respawn_timer,
            ) > timer_threshold,
            None => true,
        }
}

/// The power-ups of a delta, in the order of the current state.
pub open spec fn power_up_delta(
    reference: Seq<PowerUpState>,
    current: Seq<PowerUpState>,
    timer_threshold: u64,
) -> Seq<PowerUpState> {
    current.filter(power_up_kept(reference, timer_threshold))
}

/// One step of `Seq::filter` at the end of a prefix.
pub proof fn lemma_filter_step<A>(s: Seq<A>, pred: spec_fn(A) -> bool, i: int)
    requires
        0 <= i < s.len(),
    ensures
        s.take(i + 1).filter(pred) == if pred(s[i]) {
            s.take(i).filter(pred).push(s[i])
        } else {
            s.take(i).filter(pred)
        },
{
    reveal(Seq::filter);
    assert(s.take(i + 1).drop_last() =~= s.take(i));
}

/// Filtering nothing gives nothing.
pub proof fn lemma_filter_empty<A>(s: Seq<A>, pred: spec_fn(A) -> bool)
    requires
        s.len() == 0,
    ensures
        s.filter(pred) == Seq::<A>::empty(),
{
    reveal(Seq::filter);
    assert(s =~= Seq::<A>::empty());
}

/// Position of the last tank with `id`, if any.
fn find_tank_index(list: &Vec<TankState>, id: u32) -> (r: Option<usize>)
    ensures
        match r {
            Some(i) => i < list.len() && find_tank(tank_views(list@), id) == Some(list[i as int]@),
            None => find_tank(tank_views(list@), id) is None,
        },
{
    let mut i: usize = list.len();
    let ghost views = tank_views(list@);
    assert(views.take(i as int) =~= views);
    while i > 0
        invariant
            i <= list.len(),
            views == tank_views(list@),
            find_tank(views, id) == find_tank(views.take(i as int), id),
        decreases i,
    {
        i -= 1;
        proof {
            let prefix = views.take(i + 1);
            assert(prefix.last() == list[i as int]@);
            assert(prefix.drop_last() =~= views.take(i as int));
        }
        if list[i].entity_id == id {
            return Some(i);
        }
    }
    None
}

/// Position of the last power-up with `id`, if any.
fn find_power_up_index(list: &Vec<PowerUpState>, id: u32) -> (r: Option<usize>)
    ensures
        match r {
            Some(i) => i < list.len() && find_power_up(list@, id) == Some(list[i as int]),
            None => find_power_up(list@, id) is None,
        },
{
    let mut i: usize = list.len();
    assert(list@.take(i as int) =~= list@);
    while i > 0
        invariant
            i <= list.len(),
            find_power_up(list@, id) == find_power_up(list@.take(i as int), id),
        decreases i,
    {
        i -= 1;
        proof {
            let prefix = list@.take(i + 1);
            assert(prefix.last() == list[i as int]);
            assert(prefix.drop_last() =~= list@.take(i as int));
        }
        if list[i].entity_id == id {
            return Some(i);
        }
    }
    None
}

/// The ticks that a history of `window` ticks keeps once `tick` is stored:
/// those less than `window` ticks older than it.
pub open spec fn retained(window: usize, tick: u64) -> Set<u64> {
    Set::new(|k: u64| k + window > tick)
}

/// When an update carries the full state: no reference was named, the last
/// full state lies at least `interval` ticks back (or ahead of `tick`), or
/// the history no longer holds the reference.
pub open spec fn sends_full(
    reference_tick: Option<u64>,
    tick: u64,
    last_full_state_tick: u64,
    interval: u64,
    history: Set<u64>,
) -> bool {
    ||| reference_tick is None
    ||| tick < last_full_state_tick
    ||| tick - last_full_state_tick >= interval
    ||| !history.contains(reference_tick->0)
}

/// The update that `create_delta_update` builds from the current snapshot
/// and, for a delta, the reference snapshot.
pub open spec fn update_for(
    current: GameStateSnapshotView,
    reference: Option<GameStateSnapshotView>,
    full_state_tick: u64,
    position_threshold: u32,
    rotation_threshold: u32,
    timer_threshold: u64,
) -> GameStateUpdateView {
    match reference {
        None => GameStateUpdateView {
            tick: current.tick,
            round_time_remaining: current.round_time_remaining,
            tanks: current.tanks,
            projectiles: current.projectiles,
            power_ups: current.power_ups,
            events: current.events,
            scores: current.scores,
            is_delta_update: false,
            full_state_tick: tick_low_bits(full_state_tick),
        },
        Some(r) => GameStateUpdateView {
            tick: current.tick,
            round_time_remaining: current.round_time_remaining,
            tanks: tank_delta(r.tanks, current.tanks, position_threshold, rotation_threshold),
            projectiles: current.projectiles,
            power_ups: power_up_delta(r.power_ups, current.power_ups, timer_threshold),
            events: current.events,
            scores: current.scores,
            is_delta_update: true,
            full_state_tick: tick_low_bits(full_state_tick),
        },
    }
}

/// Keeps a bounded history of snapshots and turns the current snapshot into
/// a full or a delta update.
pub struct StateSynchronizer {
    state_history: HashMap<u64, GameStateSnapshot>,
    max_history_size: usize,
    full_state_interval: u64,
    last_full_state_tick: u64,
    position_threshold: u32,
    rotation_threshold: u32,
    timer_threshold: u64,
}

impl StateSynchronizer {
    /// The stored snapshots, by tick.
    pub closed spec fn history(&self) -> Map<u64, GameStateSnapshotView> {
        Map::new(
            |tick: u64| self.state_history@.contains_key(tick),
            |tick: u64| self.state_history@[tick]@,
        )
    }

    /// The number of ticks that the history spans.
    pub closed spec fn window(&self) -> usize {
        self.max_history_size
    }

    /// The interval, in ticks, between two full states.
    pub closed spec fn interval(&self) -> u64 {
        self.full_state_interval
    }

    /// The tick of the last full state sent.
    pub closed spec fn last_full(&self) -> u64 {
        self.last_full_state_tick
    }

    /// The thresholds below which a change stays out of a delta: position,
    /// rotation, power-up timer.
    pub closed spec fn thresholds(&self) -> (u32, u32, u64) {
        (self.position_threshold, self.rotation_threshold, self.timer_threshold)
    }

    /// Every snapshot is stored under its own tick, and the window is not empty.
    pub closed spec fn wf(&self) -> bool {
        &&& self.max_history_size >= 1
        &&& forall|tick: u64| #[trigger]
            self.state_history@.contains_key(tick) ==> self.state_history@[tick].tick == tick
    }

    /// A synchronizer with an empty history, a window of 300 ticks, a full state
    /// every 30 ticks, and thresholds of a tenth of a unit, a twentieth of a
    /// radian and a tenth of a second.
    pub fn new() -> (s: StateSynchronizer)
        ensures
            s.wf(),
            s.history() == Map::<u64, GameStateSnapshotView>::empty(),
            s.window() == 300,
            s.interval() == 30,
            s.last_full() == 0,
            s.thresholds() == (100u32, 50u32, 100_000u64),
    {
        let s = StateSynchronizer {
            state_history: HashMap::new(),
            max_history_size: 300,
            full_state_interval: 30,
            last_full_state_tick: 0,
            position_threshold: 100,
            rotation_threshold: 50,
            timer_threshold: 100_000,
        };
        assert(s.history() =~= Map::<u64, GameStateSnapshotView>::empty());
        s
    }

    /// The number of stored snapshots.
    pub fn history_len(&self) -> (n: usize)
        ensures
            n == self.history().dom().len(),
            self.history().dom().finite(),
    {
        proof {
            self.lemma_history_finite();
        }
        self.state_history.len()
    }

    /// The history holds finitely many snapshots.
    proof fn lemma_history_finite(&self)
        ensures
            self.history().dom().finite(),
            self.history().dom() == self.state_history@.dom(),
            self.history().dom().len() == self.state_history@.len(),
    {
        broadcast use vstd::std_specs::hash::group_hash_axioms;

        assert(self.history().dom() =~= self.state_history@.dom());
    }

    /// The history is bounded: while no snapshot of a tick later than the
    /// last stored one is kept, as when ticks are stored in rising order, the
    /// history never holds more snapshots than its window has ticks.
    pub proof fn lemma_history_bounded(&self, latest: u64)
        requires
            self.wf(),
            forall|k: u64| #[trigger]
                self.history().contains_key(k) ==> k <= latest && k + self.window() > latest,
        ensures
            self.history().dom().finite(),
            self.history().dom().len() <= self.window(),
    {
        self.lemma_history_finite();
        let ticks = self.history().dom();
        let as_int = |k: u64| k as int;
        let image = ticks.map(as_int);
        let range = vstd::set_lib::set_int_range(latest - self.window() + 1, latest + 1);
        assert(vstd::relations::injective_on(as_int, ticks));
        vstd::set_lib::lemma_map_size(ticks, image, as_int);
        vstd::set_lib::lemma_int_range(latest - self.window() + 1, latest + 1);
        assert(image.subset_of(range)) by {
            assert forall|i: int| image.contains(i) implies range.contains(i) by {
                let k = choose|k: u64| ticks.contains(k) && as_int(k) == i;
                assert(self.history().contains_key(k));
            }
        }
        vstd::set_lib::lemma_len_subset(image, range);
    }

    /// The tick of the last full state sent.
    pub fn last_full_state_tick(&self) -> (t: u64)
        ensures
            t == self.last_full(),
    {
        self.last_full_state_tick
    }

    /// Sets the interval between two full states.
    pub fn set_full_state_interval(&mut self, interval: u64)
        requires
            old(self).wf(),
        ensures
            final(self).wf(),
            final(self).interval() == interval,
            final(self).history() == old(self).history(),
            final(self).window() == old(self).window(),
            final(self).last_full() == old(self).last_full(),
            final(self).thresholds() == old(self).thresholds(),
    {
        self.full_state_interval = interval;
        assert(final(self).history() =~= old(self).history());
    }

    /// Sets the thresholds below which a change stays out of a delta.
    pub fn set_thresholds(&mut self, position: u32, rotation: u32, timer: u64)
        requires
            old(self).wf(),
        ensures
            final(self).wf(),
            final(self).thresholds() == (position, rotation, timer),
            final(self).history() == old(self).history(),
            final(self).window() == old(self).window(),
            final(self).interval() == old(self).interval(),
            final(self).last_full() == old(self).last_full(),
    {
        self.position_threshold = position;
        self.rotation_threshold = rotation;
        self.timer_threshold = timer;
        assert(final(self).history() =~= old(self).history());
    }

    /// The ticks of the stored snapshots, each once.
    fn stored_ticks(&self) -> (ticks: Vec<u64>)
        ensures
            ticks@.no_duplicates(),
            ticks@.to_set() == self.state_history@.dom(),
    {
        broadcast use vstd::std_specs::hash::group_hash_axioms;

        let mut ticks: Vec<u64> = Vec::new();
        let keys = self.state_history.keys();
        for tick in iter: keys
            invariant
                ticks.len() == iter.index(),
                forall|i: int| 0 <= i < ticks.len() ==> ticks@[i] == *iter.seq()[i],
        {
            ticks.push(*tick);
        }
        assert(ticks@ =~= self.state_history.keys().remaining().unref());
        ticks
    }

    /// Stores a snapshot under its tick, in place of one stored for that tick
    /// before, and drops the snapshots that are `window` or more ticks older.
    pub fn store_snapshot(&mut self, snapshot: GameStateSnapshot)
        requires
            old(self).wf(),
        ensures
            final(self).wf(),
            final(self).history() == old(self).history().insert(
                snapshot.tick,
                snapshot@,
            ).restrict(retained(old(self).window(), snapshot.tick)),
            final(self).history().contains_key(snapshot.tick),
            final(self).history()[snapshot.tick] == snapshot@,
            final(self).window() == old(self).window(),
            final(self).interval() == old(self).interval(),
            final(self).last_full() == old(self).last_full(),
            final(self).thresholds() == old(self).thresholds(),
    {
        broadcast use vstd::std_specs::hash::group_hash_axioms;

        let tick = snapshot.tick;
        let window = self.max_history_size;
        let _ = self.state_history.insert(tick, snapshot);
        let ghost stored = self.state_history@;
        let ticks = self.stored_ticks();
        let mut i: usize = 0;
        while i < ticks.len()
            invariant
                i <= ticks.len(),
                window >= 1,
                window == old(self).max_history_size,
                self.max_history_size == old(self).max_history_size,
                self.full_state_interval == old(self).full_state_interval,
                self.last_full_state_tick == old(self).last_full_state_tick,
                self.position_threshold == old(self).position_threshold,
                self.rotation_threshold == old(self).rotation_threshold,
                self.timer_threshold == old(self).timer_threshold,
                ticks@.to_set() == stored.dom(),
                forall|t: u64| #[trigger]
                    self.state_history@.contains_key(t) <==> stored.contains_key(t) && (retained(
                        window,
                        tick,
                    ).contains(t) || !ticks@.take(i as int).contains(t)),
                forall|t: u64| #[trigger]
                    self.state_history@.contains_key(t) ==> self.state_history@[t] == stored[t],
            decreases ticks.len() - i,
        {
            let t = ticks[i];
            let keep = t > tick || tick - t < (window as u64);
            if !keep {
                let _ = self.state_history.remove(&t);
            }
            proof {
                let done = ticks@.take(i as int);
                let more = ticks@.take(i + 1);
                assert(more =~= done.push(t));
                assert(keep == retained(window, tick).contains(t));
                assert forall|k: u64| more.contains(k) <==> done.contains(k) || k == t by {
                    if more.contains(k) {
                        let j = choose|j: int| 0 <= j < more.len() && more[j] == k;
                        if j < done.len() {
                            assert(done[j] == k);
                        }
                    }
                    if done.contains(k) {
                        let j = choose|j: int| 0 <= j < done.len() && done[j] == k;
                        assert(more[j] == k);
                    }
                    if k == t {
                        assert(more[i as int] == k);
                    }
                }
            }
            i += 1;
        }
        proof {
            assert(ticks@.take(ticks.len() as int) =~= ticks@);
            let before = old(self).history();
            let after = self.history();
            let expected = before.insert(snapshot.tick, snapshot@).restrict(
                retained(old(self).window(), snapshot.tick),
            );
            assert forall|t: u64| after.contains_key(t) <==> expected.contains_key(t) by {
                if stored.contains_key(t) {
                    assert(ticks@.to_set().contains(t));
                    assert(ticks@.contains(t));
                }
            }
            assert(after =~= expected);
        }
    }

    /// The stored snapshot of `tick`.
    pub fn get_snapshot(&self, tick: u64) -> (r: Option<&GameStateSnapshot>)
        requires
            self.wf(),
        ensures
            match r {
                Some(s) => self.history().contains_key(tick) && s@ == self.history()[tick],
                None => !self.history().contains_key(tick),
            },
    {
        broadcast use vstd::std_specs::hash::group_hash_axioms;

        self.state_history.get(&tick)
    }

    /// The stored snapshot with the highest tick.
    pub fn get_latest_snapshot(&self) -> (r: Option<&GameStateSnapshot>)
        requires
            self.wf(),
        ensures
            match r {
                Some(s) => self.history().contains_key(s.tick) && s@ == self.history()[s.tick]
                    && forall|t: u64| self.history().contains_key(t) ==> t <= s.tick,
                None => self.history() == Map::<u64, GameStateSnapshotView>::empty(),
            },
    {
        broadcast use vstd::std_specs::hash::group_hash_axioms;

        let ticks = self.stored_ticks();
        if ticks.len() == 0 {
            assert forall|t: u64| !self.state_history@.contains_key(t) by {
                if self.state_history@.contains_key(t) {
                    assert(ticks@.to_set().contains(t));
                    assert(ticks@.contains(t));
                }
            }
            assert(self.history() =~= Map::<u64, GameStateSnapshotView>::empty());
            return None;
        }
        let mut best: u64 = ticks[0];
        let mut i: usize = 1;
        while i < ticks.len()
            invariant
                1 <= i <= ticks.len(),
                ticks@.contains(best),
                forall|j: int| 0 <= j < i ==> ticks[j] <= best,
            decreases ticks.len() - i,
        {
            if ticks[i] > best {
                best = ticks[i];
            }
            i += 1;
        }
        proof {
            assert(ticks@.to_set().contains(best));
            assert(self.state_history@.contains_key(best));
            assert forall|t: u64| self.history().contains_key(t) implies t <= best by {
                assert(ticks@.to_set().contains(t));
                let j = choose|j: int| 0 <= j < ticks.len() && ticks[j] == t;
                assert(ticks[j] <= best);
            }
        }
        self.state_history.get(&best)
    }

    /// Whether `new_tank` differs from `old_tank` by more than the thresholds allow.
    pub fn tank_has_changed(&self, old_tank: &TankState, new_tank: &TankState) -> (changed: bool)
        ensures
            changed == tank_changed(
                old_tank@,
                new_tank@,
                self.thresholds().0,
                self.thresholds().1,
            ),
    {
        assert(self.position_threshold * self.position_threshold <= 0xffff_ffff * 0xffff_ffff)
            by (nonlinear_arith)
            requires
                0 <= self.position_threshold <= 0xffff_ffff,
        ;
        let limit: u128 = (self.position_threshold as u128) * (self.position_threshold as u128);
        let moved = match (&old_tank.position, &new_tank.position) {
            (Some(old_pos), Some(new_pos)) => new_pos.distance_squared(old_pos) > limit,
            _ => false,
        };
        if moved {
            return true;
        }
        let body_gap: i64 = if new_tank.body_rotation >= old_tank.body_rotation {
            new_tank.body_rotation as i64 - old_tank.body_rotation as i64
        } else {
            old_tank.body_rotation as i64 - new_tank.body_rotation as i64
        };
        let turret_gap: i64 = if new_tank.turret_rotation >= old_tank.turret_rotation {
            new_tank.turret_rotation as i64 - old_tank.turret_rotation as i64
        } else {
            old_tank.turret_rotation as i64 - new_tank.turret_rotation as i64
        };
        if body_gap > self.rotation_threshold as i64 || turret_gap
            > self.rotation_threshold as i64 {
            return true;
        }
        if old_tank.health != new_tank.health {
            return true;
        }
        if !same_powerups(&old_tank.active_powerups, &new_tank.active_powerups) {
            return true;
        }
        if old_tank.is_invulnerable != new_tank.is_invulnerable {
            return true;
        }
        false
    }

    /// The tanks of a delta from `old_tanks` to `new_tanks`.
    pub fn compute_tank_delta(&self, old_tanks: &Vec<TankState>, new_tanks: &Vec<TankState>) -> (delta:
        Vec<TankState>)
        ensures
            tank_views(delta@) == tank_delta(
                tank_views(old_tanks@),
                tank_views(new_tanks@),
                self.thresholds().0,
                self.thresholds().1,
            ),
    {
        let ghost reference = tank_views(old_tanks@);
        let ghost current = tank_views(new_tanks@);
        let ghost kept = tank_kept(reference, self.position_threshold, self.rotation_threshold);
        let ghost gone = tank_gone(current);
        let mut delta: Vec<TankState> = Vec::new();
        let mut i: usize = 0;
        proof {
            lemma_filter_empty(current.take(0), kept);
        }
        while i < new_tanks.len()
            invariant
                i <= new_tanks.len(),
                reference == tank_views(old_tanks@),
                current == tank_views(new_tanks@),
                kept == tank_kept(reference, self.position_threshold, self.rotation_threshold),
                tank_views(delta@) == current.take(i as int).filter(kept),
            decreases new_tanks.len() - i,
        {
            let new_tank = &new_tanks[i];
            let wanted = match find_tank_index(old_tanks, new_tank.entity_id) {
                Some(j) => self.tank_has_changed(&old_tanks[j], new_tank),
                None => true,
            };
            proof {
                lemma_filter_step(current, kept, i as int);
                assert(current[i as int] == new_tank@);
                assert(wanted == kept(new_tank@));
            }
            if wanted {
                let copy = new_tank.clone();
                let ghost before = tank_views(delta@);
                delta.push(copy);
                assert(tank_views(delta@) =~= before.push(copy@));
            }
            i += 1;
        }
        assert(current.take(new_tanks.len() as int) =~= current);
        let ghost first = tank_views(delta@);
        let mut j: usize = 0;
        proof {
            lemma_filter_empty(reference.take(0), gone);
            assert(reference.take(0).filter(gone).map_values(removal_mark()) =~= Seq::<
                TankStateView,
            >::empty());
            assert(first + Seq::<TankStateView>::empty() =~= first);
        }
        while j < old_tanks.len()
            invariant
                j <= old_tanks.len(),
                reference == tank_views(old_tanks@),
                current == tank_views(new_tanks@),
                gone == tank_gone(current),
                first == current.filter(kept),
                tank_views(delta@) == first + reference.take(j as int).filter(gone).map_values(
                    removal_mark(),
                ),
            decreases old_tanks.len() - j,
        {
            let old_tank = &old_tanks[j];
            let absent = find_tank_index(new_tanks, old_tank.entity_id).is_none();
            proof {
                lemma_filter_step(reference, gone, j as int);
                assert(reference[j as int] == old_tank@);
                assert(absent == gone(old_tank@));
            }
            if absent {
                let mut removed = old_tank.clone();
                removed.health = 0;
                let ghost before = tank_views(delta@);
                let ghost marked = reference.take(j as int).filter(gone);
                delta.push(removed);
                assert(removed@ == removal_mark()(old_tank@));
                assert(tank_views(delta@) =~= before.push(removed@));
                assert(marked.push(old_tank@).map_values(removal_mark()) =~= marked.map_values(
                    removal_mark(),
                ).push(removed@));
                assert(tank_views(delta@) =~= first + marked.push(old_tank@).map_values(
                    removal_mark(),
                ));
            }
            j += 1;
        }
        assert(reference.take(old_tanks.len() as int) =~= reference);
        delta
    }

    /// The projectiles of a delta: all the current ones, whatever the reference holds.
    pub fn compute_projectile_delta(
        &self,
        _old_projectiles: &Vec<ProjectileState>,
        new_projectiles: &Vec<ProjectileState>,
    ) -> (delta: Vec<ProjectileState>)
        ensures
            projectile_views(delta@) == projectile_views(new_projectiles@),
    {
        clone_projectiles(new_projectiles)
    }

    /// The power-ups of a delta from `old_power_ups` to `new_power_ups`.
    pub fn compute_power_up_delta(
        &self,
        old_power_ups: &Vec<PowerUpState>,
        new_power_ups: &Vec<PowerUpState>,
    ) -> (delta: Vec<PowerUpState>)
        ensures
            delta@ == power_up_delta(old_power_ups@, new_power_ups@, self.thresholds().2),
    {
        let ghost kept = power_up_kept(old_power_ups@, self.timer_threshold);
        let mut delta: Vec<PowerUpState> = Vec::new();
        let mut i: usize = 0;
        proof {
            lemma_filter_empty(new_power_ups@.take(0), kept);
        }
        while i < new_power_ups.len()
            invariant
                i <= new_power_ups.len(),
                kept == power_up_kept(old_power_ups@, self.timer_threshold),
                delta@ == new_power_ups@.take(i as int).filter(kept),
            decreases new_power_ups.len() - i,
        {
            let new_power_up = new_power_ups[i];
            let wanted = match find_power_up_index(old_power_ups, new_power_up.entity_id) {
                Some(j) => {
                    let old_power_up = old_power_ups[j];
                    let gap: u64 = if old_power_up.respawn_timer >= new_power_up.respawn_timer {
                        old_power_up.respawn_timer - new_power_up.respawn_timer
                    } else {
                        new_power_up.respawn_timer - old_power_up.respawn_timer
                    };
                    old_power_up.is_available != new_power_up.is_available || gap
                        > self.timer_threshold
                },
                None => true,
            };
            proof {
                lemma_filter_step(new_power_ups@, kept, i as int);
                assert(wanted == kept(new_power_up));
            }
            if wanted {
                delta.push(new_power_up);
            }
            i += 1;
        }
        assert(new_power_ups@.take(new_power_ups.len() as int) =~= new_power_ups@);
        delta
    }

    /// Builds the update for `current_snapshot`: the full state where
    /// `sends_full` holds, and then records its tick as that of the last full
    /// state; else the delta against the stored snapshot of `reference_tick`.
    pub fn build_update(
        &mut self,
        current_snapshot: &GameStateSnapshot,
        reference_tick: Option<u64>,
    ) -> (update: GameStateUpdate)
        requires
            old(self).wf(),
        ensures
            final(self).wf(),
            final(self).history() == old(self).history(),
            final(self).window() == old(self).window(),
            final(self).interval() == old(self).interval(),
            final(self).thresholds() == old(self).thresholds(),
            update.is_delta_update == !sends_full(
                reference_tick,
                current_snapshot.tick,
                old(self).last_full(),
                old(self).interval(),
                old(self).history().dom(),
            ),
            final(self).last_full() == if update.is_delta_update {
                old(self).last_full()
            } else {
                current_snapshot.tick
            },
            update@ == update_for(
                current_snapshot@,
                if update.is_delta_update {
                    Some(old(self).history()[reference_tick->0])
                } else {
                    None
                },
                final(self).last_full(),
                old(self).thresholds().0,
                old(self).thresholds().1,
                old(self).thresholds().2,
            ),
    {
        let tick = current_snapshot.tick;
        let due = tick < self.last_full_state_tick || tick - self.last_full_state_tick
            >= self.full_state_interval;
        let reference: Option<&GameStateSnapshot> = match reference_tick {
            Some(t) => if due {
                None
            } else {
                self.state_history.get(&t)
            },
            None => None,
        };
        match reference {
            Some(reference_snapshot) => {
                let tanks = self.compute_tank_delta(
                    &reference_snapshot.tanks,
                    &current_snapshot.tanks,
                );
                let projectiles = self.compute_projectile_delta(
                    &reference_snapshot.projectiles,
                    &current_snapshot.projectiles,
                );
                let power_ups = self.compute_power_up_delta(
                    &reference_snapshot.power_ups,
                    &current_snapshot.power_ups,
                );
                GameStateUpdate {
                    tick,
                    round_time_remaining: current_snapshot.round_time_remaining,
                    tanks,
                    projectiles,
                    power_ups,
                    events: clone_events(&current_snapshot.events),
                    scores: clone_scores(&current_snapshot.scores),
                    is_delta_update: true,
                    full_state_tick: low_bits(self.last_full_state_tick),
                }
            },
            None => {
                self.last_full_state_tick = tick;
                assert(final(self).history() =~= old(self).history());
                GameStateUpdate {
                    tick,
                    round_time_remaining: current_snapshot.round_time_remaining,
                    tanks: clone_tanks(&current_snapshot.tanks),
                    projectiles: clone_projectiles(&current_snapshot.projectiles),
                    power_ups: clone_power_ups(&current_snapshot.power_ups),
                    events: clone_events(&current_snapshot.events),
                    scores: clone_scores(&current_snapshot.scores),
                    is_delta_update: false,
                    full_state_tick: low_bits(tick),
                }
            },
        }
    }

    /// Builds the update for `current_snapshot` as `build_update` does and
    /// wraps it in a message, stamped with the age of the snapshot in
    /// milliseconds.
    pub fn create_delta_update(
        &mut self,
        current_snapshot: &GameStateSnapshot,
        reference_tick: Option<u64>,
    ) -> (message: NetworkMessage)
        requires
            old(self).wf(),
        ensures
            final(self).wf(),
            final(self).history() == old(self).history(),
            final(self).window() == old(self).window(),
            final(self).interval() == old(self).interval(),
            final(self).thresholds() == old(self).thresholds(),
            message.message_type matches Some(MessageType::GameStateUpdate(update)) && {
                &&& update.is_delta_update == !sends_full(
                    reference_tick,
                    current_snapshot.tick,
                    old(self).last_full(),
                    old(self).interval(),
                    old(self).history().dom(),
                )
                &&& final(self).last_full() == if update.is_delta_update {
                    old(self).last_full()
                } else {
                    current_snapshot.tick
                }
                &&& update@ == update_for(
                    current_snapshot@,
                    if update.is_delta_update {
                        Some(old(self).history()[reference_tick->0])
                    } else {
                        None
                    },
                    final(self).last_full(),
                    old(self).thresholds().0,
                    old(self).thresholds().1,
                    old(self).thresholds().2,
                )
            },
    {
        let update = self.build_update(current_snapshot, reference_tick);
        NetworkMessage {
            timestamp: elapsed_micros(&current_snapshot.timestamp) / 1000,
            message_type: Some(MessageType::GameStateUpdate(update)),
        }
    }
}

/// The tick of the last full state after `calls` further updates, where a
/// full state went out at tick `start`, the updates are made for the ticks
/// `start + 1`, `start + 2`, and so on, and each names a reference that the
/// history still holds.
pub open spec fn last_full_after(start: u64, interval: u64, calls: nat) -> int
    decreases calls,
{
    if calls == 0 {
        start as int
    } else {
        let before = last_full_after(start, interval, (calls - 1) as nat);
        let tick = start + calls;
        if tick - before >= interval {
            tick
        } else {
            before
        }
    }
}

/// The cadence of full states: with an interval of `interval` ticks, of the
/// updates that follow a full state tick by tick, each with a reference that
/// the history holds, exactly every `interval`-th carries the full state,
/// whatever the snapshots hold.
pub proof fn lemma_full_state_cadence(start: u64, interval: u64, calls: nat)
    requires
        interval >= 1,
        start + calls <= u64::MAX,
    ensures
        last_full_after(start, interval, calls) == start + (calls / (interval as nat)) * interval,
        start <= last_full_after(start, interval, calls) <= start + calls,
        calls >= 1 ==> forall|reference: u64, history: Set<u64>|
            history.contains(reference) ==> (#[trigger] sends_full(
                Some(reference),
                (start + calls) as u64,
                last_full_after(start, interval, (calls - 1) as nat) as u64,
                interval,
                history,
            ) <==> calls % (interval as nat) == 0),
    decreases calls,
{
    let n = interval as int;
    if calls == 0 {
        assert(0int / n == 0) by (nonlinear_arith)
            requires
                n >= 1,
        ;
    } else {
        lemma_full_state_cadence(start, interval, (calls - 1) as nat);
        let k = calls as int;
        let q = (k - 1) / n;
        let r = (k - 1) % n;
        vstd::arithmetic::div_mod::lemma_fundamental_div_mod(k - 1, n);
        vstd::arithmetic::div_mod::lemma_mod_bound(k - 1, n);
        assert(k - 1 == n * q + r);
        assert(n * q == q * n) by (nonlinear_arith);
        let before = last_full_after(start, interval, (calls - 1) as nat);
        assert(before == start + q * n);
        if r == n - 1 {
            assert(k == (q + 1) * n + 0) by (nonlinear_arith)
                requires
                    k - 1 == q * n + r,
                    r == n - 1,
            ;
            vstd::arithmetic::div_mod::lemma_fundamental_div_mod_converse(k, n, q + 1, 0);
        } else {
            assert(k == q * n + (r + 1));
            vstd::arithmetic::div_mod::lemma_fundamental_div_mod_converse(k, n, q, r + 1);
        }
    }
}

/// The ticks by which an input is moved back for a one-way latency of
/// `latency` microseconds at `tick_rate` ticks per second: the latency in
/// ticks, rounded to the nearest tick.
pub open spec fn compensation_ticks(latency: u64, tick_rate: u32) -> int {
    (latency * tick_rate + 500_000) / 1_000_000
}

/// The tick at which an input that arrives at `current_tick` is taken to
/// have been given: `current_tick` less the latency in ticks, and no less
/// than zero; `current_tick` itself where no latency is known.
pub open spec fn compensated_tick(latency: Option<u64>, current_tick: u64, tick_rate: u32) -> u64 {
    match latency {
        Some(l) => if compensation_ticks(l, tick_rate) >= current_tick {
            0
        } else {
            (current_tick - compensation_ticks(l, tick_rate)) as u64
        },
        None => current_tick,
    }
}

/// A longer latency never yields a later tick, and no latency yields a tick
/// after the current one.
pub proof fn lemma_compensation_monotonic(
    shorter: u64,
    longer: u64,
    current_tick: u64,
    tick_rate: u32,
)
    requires
        shorter <= longer,
    ensures
        compensated_tick(Some(longer), current_tick, tick_rate) <= compensated_tick(
            Some(shorter),
            current_tick,
            tick_rate,
        ),
        compensated_tick(Some(shorter), current_tick, tick_rate) <= current_tick,
        compensated_tick(None, current_tick, tick_rate) == current_tick,
{
    assert(shorter * tick_rate <= longer * tick_rate) by (nonlinear_arith)
        requires
            shorter <= longer,
            tick_rate >= 0,
    ;
    assert(0 <= shorter * tick_rate) by (nonlinear_arith)
        requires
            shorter >= 0,
            tick_rate >= 0,
    ;
    assert(compensation_ticks(shorter, tick_rate) <= compensation_ticks(longer, tick_rate));
    assert(0 <= compensation_ticks(shorter, tick_rate));
}

/// Remembers the one-way latency of each player and moves the tick of an
/// input back by it.
pub struct LagCompensator {
    player_latencies: HashMap<PlayerId, u64>,
    max_compensation: u64,
}

impl LagCompensator {
    /// The recorded latencies, in microseconds, by player.
    pub closed spec fn latencies(&self) -> Map<PlayerId, u64> {
        self.player_latencies@
    }

    /// The largest latency that is ever recorded.
    pub closed spec fn limit(&self) -> u64 {
        self.max_compensation
    }

    /// A compensator without latencies, with a limit of 200 milliseconds.
    pub fn new() -> (c: LagCompensator)
        ensures
            c.latencies() == Map::<PlayerId, u64>::empty(),
            c.limit() == 200_000,
    {
        LagCompensator { player_latencies: HashMap::new(), max_compensation: 200_000 }
    }

    /// Records the latency of a player, cut down to the limit.
    pub fn update_player_latency(&mut self, player_id: PlayerId, latency: u64)
        ensures
            final(self).limit() == old(self).limit(),
            final(self).latencies() == old(self).latencies().insert(
                player_id,
                if latency <= old(self).limit() {
                    latency
                } else {
                    old(self).limit()
                },
            ),
    {
        let clamped = if latency <= self.max_compensation {
            latency
        } else {
            self.max_compensation
        };
        self.player_latencies.insert(player_id, clamped);
    }

    /// The tick at which an input of `player_id` that arrives at
    /// `current_tick` is taken to have been given.
    pub fn get_compensated_tick(&self, player_id: PlayerId, current_tick: u64, tick_rate: u32) -> (tick:
        u64)
        ensures
            tick == compensated_tick(
                if self.latencies().contains_key(player_id) {
                    Some(self.latencies()[player_id])
                } else {
                    None
                },
                current_tick,
                tick_rate,
            ),
            tick <= current_tick,
    {
        match self.player_latencies.get(&player_id) {
            Some(latency) => {
                let latency: u64 = *latency;
                assert(latency * tick_rate <= 0xffff_ffff_ffff_ffff * 0xffff_ffff)
                    by (nonlinear_arith)
                    requires
                        0 <= latency <= 0xffff_ffff_ffff_ffff,
                        0 <= tick_rate <= 0xffff_ffff,
                ;
                let ticks: u128 = ((latency as u128) * (tick_rate as u128) + 500_000) / 1_000_000;
                if ticks >= current_tick as u128 {
                    0
                } else {
                    current_tick - (ticks as u64)
                }
            },
            None => current_tick,
        }
    }

    /// The recorded latency of a player.
    pub fn get_player_latency(&self, player_id: PlayerId) -> (latency: Option<u64>)
        ensures
            latency == if self.latencies().contains_key(player_id) {
                Some(self.latencies()[player_id])
            } else {
                None::<u64>
            },
    {
        match self.player_latencies.get(&player_id) {
            Some(latency) => Some(*latency),
            None => None,
        }
    }
}

} // verus!
