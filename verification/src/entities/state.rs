//! Per-entity runtime state: last value and availability.
//!
//! Availability is derived here, in one place, from what drivers report and
//! the entity type's contract; drivers themselves never set availability.
//! Bindings react to availability, not just values: a display binding shows a
//! placeholder instead of a frozen last-known value once its source goes stale.

use vstd::prelude::*;

use crate::entities::contract::{sensor_contract, staleness_nanos, unavailability_nanos};
use crate::entities::id::{EntityAddress, EntityId};
use crate::entities::map::EntityMap;
use crate::entities::{sensor_type_in, EntityIndex, SensorType, SensorValue};
use crate::time::Instant;

verus! {

/// Availability of an entity's data.
#[derive(Debug, Clone, Copy, PartialEq, Eq, Structural)]
pub enum Availability {
    /// Fresh data within the type contract's staleness window.
    Online,
    /// Last reading is older than the staleness window; value is untrustworthy.
    Stale,
    /// No reading yet, or the driver reported an error.
    Unavailable,
}

/// Runtime state of one sensor entity.
#[derive(Debug, Clone, Copy, PartialEq)]
pub struct EntityState {
    pub availability: Availability,
    pub value: Option<SensorValue>,
    pub last_update: Option<Instant>,
}

/// The state before any reading.
pub open spec fn no_reading_yet() -> EntityState {
    EntityState { availability: Availability::Unavailable, value: None, last_update: None }
}

/// The state right after a reading.
pub open spec fn fresh(value: SensorValue, now: Instant) -> EntityState {
    EntityState {
        availability: Availability::Online,
        value: Some(value),
        last_update: Some(now),
    }
}

/// The state after a driver error.
pub open spec fn failed(state: EntityState) -> EntityState {
    EntityState { availability: Availability::Unavailable, value: None, ..state }
}

/// The state once the clock shows `now`, with no reading in between.
pub open spec fn aged(
    state: EntityState,
    sensor_type: Option<SensorType>,
    now: Instant,
) -> EntityState {
    match (state.last_update, sensor_type) {
        (Some(last), Some(t)) => {
            if state.availability == Availability::Unavailable {
                state
            } else if now.since(last) > unavailability_nanos(t) {
                failed(state)
            } else if now.since(last) > staleness_nanos(t) {
                EntityState { availability: Availability::Stale, ..state }
            } else {
                state
            }
        },
        _ => state,
    }
}

/// What holds of every state: a value is present exactly while the entity is
/// not unavailable, and it has been read at some time.
pub open spec fn coherent(state: EntityState) -> bool {
    &&& (state.value is Some <==> state.availability != Availability::Unavailable)
    &&& (state.value is Some ==> state.last_update is Some)
}

impl EntityState {
    fn unavailable() -> (state: Self)
        ensures
            state == no_reading_yet(),
    {
        EntityState { availability: Availability::Unavailable, value: None, last_update: None }
    }
}

/// State store for all sensor entities, keyed by `device_id.entity_id`.
#[derive(Debug)]
pub struct StateStore {
    states: EntityMap<EntityState>,
}

impl View for StateStore {
    type V = Map<EntityAddress, EntityState>;

    closed spec fn view(&self) -> Map<EntityAddress, EntityState> {
        self.states@
    }
}

/// The store that knows exactly these sensors, none of them read yet.
pub open spec fn all_unread(ids: Seq<EntityId>) -> Map<EntityAddress, EntityState> {
    Map::new(
        |a: EntityAddress| exists|i: int| 0 <= i < ids.len() && #[trigger] ids[i]@ == a,
        |a: EntityAddress| no_reading_yet(),
    )
}

/// A store with one reading recorded; a reading of an unknown entity changes nothing.
pub open spec fn with_reading(
    states: Map<EntityAddress, EntityState>,
    a: EntityAddress,
    value: SensorValue,
    now: Instant,
) -> Map<EntityAddress, EntityState> {
    if states.contains_key(a) {
        states.insert(a, fresh(value, now))
    } else {
        states
    }
}

/// A store with a driver error recorded for one entity.
pub open spec fn with_failure(
    states: Map<EntityAddress, EntityState>,
    a: EntityAddress,
) -> Map<EntityAddress, EntityState> {
    if states.contains_key(a) {
        states.insert(a, failed(states[a]))
    } else {
        states
    }
}

/// A store once the clock shows `now`.
pub open spec fn all_aged(
    states: Map<EntityAddress, EntityState>,
    index: Map<EntityAddress, crate::entities::EntityType>,
    now: Instant,
) -> Map<EntityAddress, EntityState> {
    Map::new(
        |a: EntityAddress| states.contains_key(a),
        |a: EntityAddress| aged(states[a], sensor_type_in(index, a), now),
    )
}

/// Whether a reading says something new of a known entity: a value other than
/// the stored one, or that the entity is back online.
pub open spec fn news(
    states: Map<EntityAddress, EntityState>,
    a: EntityAddress,
    value: SensorValue,
) -> bool {
    states.contains_key(a) && !{
        &&& states[a].availability == Availability::Online
        &&& states[a].value matches Some(last)
        &&& last.equals(value)
    }
}

impl Default for StateStore {
    fn default() -> (store: Self)
        ensures
            store@ == Map::<EntityAddress, EntityState>::empty(),
    {
        StateStore { states: EntityMap::new() }
    }
}

impl StateStore {
    /// Every configured sensor entity starts unavailable until its driver
    /// produces a first reading.
    pub fn new(sensor_ids: Vec<EntityId>) -> (store: Self)
        ensures
            store@ == all_unread(sensor_ids@),
    {
        let mut states: EntityMap<EntityState> = EntityMap::new();
        let mut i: usize = 0;
        assert(states@ =~= all_unread(sensor_ids@.take(0)));
        while i < sensor_ids.len()
            invariant
                i <= sensor_ids@.len(),
                states@ == all_unread(sensor_ids@.take(i as int)),
            decreases sensor_ids@.len() - i,
        {
            states.insert(sensor_ids[i].clone(), EntityState::unavailable());
            proof {
                let before = sensor_ids@.take(i as int);
                let after = sensor_ids@.take(i + 1);
                assert(after[i as int] == sensor_ids@[i as int]);
                assert forall|a: EntityAddress| all_unread(before).contains_key(a) implies all_unread(
                    after,
                ).contains_key(a) by {
                    let k = choose|k: int| 0 <= k < before.len() && #[trigger] before[k]@ == a;
                    assert(after[k]@ == a);
                }
                assert forall|a: EntityAddress|
                    all_unread(after).contains_key(a) && a != sensor_ids@[i as int]@ implies all_unread(
                    before,
                ).contains_key(a) by {
                    let k = choose|k: int| 0 <= k < after.len() && #[trigger] after[k]@ == a;
                    assert(before[k]@ == a);
                }
                assert(states@ =~= all_unread(after));
            }
            i += 1;
        }
        assert(sensor_ids@.take(i as int) =~= sensor_ids@);
        StateStore { states }
    }

    /// Record a fresh reading. Returns `true` if the stored value or
    /// availability changed (used for change-only logging).
    pub fn apply_reading(&mut self, id: &EntityId, value: SensorValue, now: Instant) -> (changed:
        bool)
        ensures
            final(self)@ == with_reading(old(self)@, id@, value, now),
            changed == news(old(self)@, id@, value),
    {
        let changed: bool = match self.states.get(id) {
            None => {
                return false;
            },
            Some(state) => state.value != Some(value) || state.availability
                != Availability::Online,
        };
        self.states.insert(
            id.clone(),
            EntityState {
                availability: Availability::Online,
                value: Some(value),
                last_update: Some(now),
            },
        );
        changed
    }

    /// Record a driver error for an entity: its data can no longer be trusted.
    pub fn mark_unavailable(&mut self, id: &EntityId)
        ensures
            final(self)@ == with_failure(old(self)@, id@),
    {
        let state: EntityState = match self.states.get(id) {
            None => {
                return ;
            },
            Some(state) => *state,
        };
        self.states.insert(
            id.clone(),
            EntityState {
                availability: Availability::Unavailable,
                value: None,
                last_update: state.last_update,
            },
        );
    }

    /// Demote entities whose last reading has gone stale, and further to
    /// unavailable if no fresh reading arrives in time. Without the second
    /// step, a driver that silently stops producing readings would leave the
    /// entity looking merely delayed, forever.
    pub fn refresh_availability(&mut self, now: Instant, index: &EntityIndex)
        ensures
            final(self)@ == all_aged(old(self)@, index@, now),
    {
        let n: usize = self.states.len();
        let ghost before = self@;
        let ghost keys = self.states.keys();
        let mut i: usize = 0;
        while i < n
            invariant
                n == keys.len(),
                keys.no_duplicates(),
                self.states.keys() == keys,
                i <= n,
                forall|a: EntityAddress| before.contains_key(a) <==> keys.contains(a),
                forall|a: EntityAddress| self@.contains_key(a) <==> keys.contains(a),
                forall|j: int|
                    0 <= j < i ==> self@[#[trigger] keys[j]] == aged(
                        before[keys[j]],
                        sensor_type_in(index@, keys[j]),
                        now,
                    ),
                forall|j: int| i <= j < n ==> self@[#[trigger] keys[j]] == before[keys[j]],
            decreases n - i,
        {
            let state: EntityState = *self.states.value_at(i);
            let sensor_type: Option<SensorType> = index.sensor_type(self.states.key_at(i));
            let next: EntityState = aged_state(state, sensor_type, now);
            self.states.set_at(i, next);
            i += 1;
        }
        assert(self@ =~= all_aged(before, index@, now));
    }

    pub fn get(&self, id: &EntityId) -> (found: Option<&EntityState>)
        ensures
            match found {
                Some(state) => self@.contains_key(id@) && *state == self@[id@],
                None => !self@.contains_key(id@),
            },
    {
        self.states.get(id)
    }
}

fn aged_state(state: EntityState, sensor_type: Option<SensorType>, now: Instant) -> (next:
    EntityState)
    ensures
        next == aged(state, sensor_type, now),
{
    if state.availability == Availability::Unavailable {
        return state;
    }
    match (state.last_update, sensor_type) {
        (Some(last), Some(t)) => {
            let contract = sensor_contract(t);
            let elapsed = now.duration_since(last);
            if elapsed.nanos > contract.unavailable_after.nanos {
                EntityState {
                    availability: Availability::Unavailable,
                    value: None,
                    last_update: state.last_update,
                }
            } else if elapsed.nanos > contract.staleness_after.nanos {
                EntityState {
                    availability: Availability::Stale,
                    value: state.value,
                    last_update: state.last_update,
                }
            } else {
                state
            }
        },
        _ => state,
    }
}

/// Every operation keeps every state coherent: a value is on record exactly
/// while the entity is online or stale, so a reader may go by the value alone.
pub proof fn law_states_stay_coherent(
    states: Map<EntityAddress, EntityState>,
    index: Map<EntityAddress, crate::entities::EntityType>,
    ids: Seq<EntityId>,
    a: EntityAddress,
    value: SensorValue,
    now: Instant,
)
    requires
        forall|k: EntityAddress| states.contains_key(k) ==> coherent(#[trigger] states[k]),
    ensures
        forall|k: EntityAddress|
            all_unread(ids).contains_key(k) ==> coherent(#[trigger] all_unread(ids)[k]),
        forall|k: EntityAddress|
            with_reading(states, a, value, now).contains_key(k) ==> coherent(
                #[trigger] with_reading(states, a, value, now)[k],
            ),
        forall|k: EntityAddress|
            with_failure(states, a).contains_key(k) ==> coherent(
                #[trigger] with_failure(states, a)[k],
            ),
        forall|k: EntityAddress|
            all_aged(states, index, now).contains_key(k) ==> coherent(
                #[trigger] all_aged(states, index, now)[k],
            ),
{
}

/// No operation adds or forgets an entity.
pub proof fn law_known_entities_are_fixed(
    states: Map<EntityAddress, EntityState>,
    index: Map<EntityAddress, crate::entities::EntityType>,
    a: EntityAddress,
    value: SensorValue,
    now: Instant,
)
    ensures
        with_reading(states, a, value, now).dom() == states.dom(),
        with_failure(states, a).dom() == states.dom(),
        all_aged(states, index, now).dom() == states.dom(),
{
    assert(with_reading(states, a, value, now).dom() =~= states.dom());
    assert(with_failure(states, a).dom() =~= states.dom());
    assert(all_aged(states, index, now).dom() =~= states.dom());
}

/// A fresh reading brings a known entity online from any prior state, and
/// leaves every other entity alone.
pub proof fn law_reading_brings_online(
    states: Map<EntityAddress, EntityState>,
    a: EntityAddress,
    other: EntityAddress,
    value: SensorValue,
    now: Instant,
)
    requires
        states.contains_key(a),
        other != a,
    ensures
        with_reading(states, a, value, now)[a] == fresh(value, now),
        states.contains_key(other) ==> with_reading(states, a, value, now)[other] == states[other],
{
}

/// How far down an availability is.
pub open spec fn decline(availability: Availability) -> nat {
    match availability {
        Availability::Online => 0,
        Availability::Stale => 1,
        Availability::Unavailable => 2,
    }
}

/// Without readings, availability only ever declines, and a value only ever
/// stays as it is or disappears.
pub proof fn law_aging_only_declines(
    state: EntityState,
    sensor_type: Option<SensorType>,
    now: Instant,
)
    ensures
        decline(aged(state, sensor_type, now).availability) >= decline(state.availability),
        aged(state, sensor_type, now).value == state.value || aged(
            state,
            sensor_type,
            now,
        ).value is None,
        aged(state, sensor_type, now).last_update == state.last_update,
{
}

/// A reading of a sensor stays online up to and including two seconds, is stale
/// with its value kept up to and including ten, and is gone after that.
pub proof fn law_reading_lifetime(value: SensorValue, at: Instant, t: SensorType, now: Instant)
    ensures
        now.since(at) <= staleness_nanos(t) ==> aged(fresh(value, at), Some(t), now) == fresh(
            value,
            at,
        ),
        staleness_nanos(t) < now.since(at) <= unavailability_nanos(t) ==> aged(
            fresh(value, at),
            Some(t),
            now,
        ) == (EntityState { availability: Availability::Stale, ..fresh(value, at) }),
        now.since(at) > unavailability_nanos(t) ==> aged(fresh(value, at), Some(t), now) == failed(
            fresh(value, at),
        ),
{
}

/// Refreshing at two successive moments is the same as refreshing at the later
/// one alone, so how often the loop refreshes does not matter.
pub proof fn law_aging_composes(
    state: EntityState,
    sensor_type: Option<SensorType>,
    first: Instant,
    second: Instant,
)
    requires
        first.nanos <= second.nanos,
    ensures
        aged(aged(state, sensor_type, first), sensor_type, second) == aged(
            state,
            sensor_type,
            second,
        ),
{
}

/// A reading of a known entity makes it online with that value, read at that moment;
/// a reading of an unknown entity leaves the store as it is; and in either case no
/// other entity changes.
pub proof fn law_readings_are_recorded_as_read(
    states: Map<EntityAddress, EntityState>,
    a: EntityAddress,
    value: SensorValue,
    now: Instant,
)
    ensures
        ({
            let after = with_reading(states, a, value, now);
            &&& states.contains_key(a) ==> after[a].availability == Availability::Online
                && after[a].value == Some(value) && after[a].last_update == Some(now)
            &&& !states.contains_key(a) ==> after == states
            &&& forall|k: EntityAddress| k != a ==> #[trigger] after[k] == states[k]
        }),
{
}

/// A driver error makes a known entity unavailable, without a value, and keeps the
/// time of its last reading; no other entity changes, and an unknown one stays unknown.
pub proof fn law_failures_hide_the_value(
    states: Map<EntityAddress, EntityState>,
    a: EntityAddress,
)
    ensures
        ({
            let after = with_failure(states, a);
            &&& states.contains_key(a) ==> after[a].availability == Availability::Unavailable
                && after[a].value is None && after[a].last_update == states[a].last_update
            &&& !states.contains_key(a) ==> after == states
            &&& forall|k: EntityAddress| k != a ==> #[trigger] after[k] == states[k]
        }),
{
}

/// A new store knows exactly the given sensors, all of them unavailable, without a
/// value, and never read.
pub proof fn law_new_stores_have_read_nothing(ids: Seq<EntityId>, a: EntityAddress)
    ensures
        all_unread(ids).contains_key(a) <==> exists|i: int|
            0 <= i < ids.len() && #[trigger] ids[i]@ == a,
        all_unread(ids).contains_key(a) ==> {
            let state = all_unread(ids)[a];
            &&& state.availability == Availability::Unavailable
            &&& state.value is None
            &&& state.last_update is None
        },
{
}

/// What refreshing makes of a sensor that was online or stale, read `at` some time and
/// of either type: up to and including two seconds later it stays as it was; up to and
/// including ten seconds it is stale, with its value; after that it is unavailable,
/// without one. A sensor that is unavailable stays so, and one that was never read or
/// is not in the index is left alone.
pub proof fn law_refreshing_goes_by_the_clock(
    states: Map<EntityAddress, EntityState>,
    index: Map<EntityAddress, crate::entities::EntityType>,
    a: EntityAddress,
    now: Instant,
)
    requires
        states.contains_key(a),
    ensures
        ({
            let before = states[a];
            let after = all_aged(states, index, now)[a];
            &&& all_aged(states, index, now).contains_key(a)
            &&& after.last_update == before.last_update
            &&& before.availability == Availability::Unavailable ==> after == before
            &&& before.last_update is None ==> after == before
            &&& !(index.contains_key(a) && index[a] is Sensor) ==> after == before
            &&& before.availability != Availability::Unavailable && index.contains_key(a)
                && index[a] is Sensor ==> match before.last_update {
                None => true,
                Some(at) => if now.nanos <= at.nanos + 2_000_000_000 {
                    after == before
                } else if now.nanos <= at.nanos + 10_000_000_000 {
                    after.availability == Availability::Stale && after.value == before.value
                } else {
                    after.availability == Availability::Unavailable && after.value is None
                },
            }
        }),
{
}

/// A reading is news exactly if the entity is known, and was not online or had another
/// value (or none). So the same reading twice is news at most once, provided that its
/// value equals itself.
pub proof fn law_repeated_readings_are_no_news(
    states: Map<EntityAddress, EntityState>,
    a: EntityAddress,
    first: SensorValue,
    second: SensorValue,
    now: Instant,
)
    ensures
        news(states, a, first) ==> states.contains_key(a),
        states.contains_key(a) && states[a].availability != Availability::Online ==> news(
            states,
            a,
            first,
        ),
        states.contains_key(a) && states[a].value is None ==> news(states, a, first),
        states.contains_key(a) ==> (news(with_reading(states, a, first, now), a, second)
            <==> !first.equals(second)),
{
}

} // verus!
