//! The gateway's main loop, apart from its drivers: what polls and commands have
//! to do with each other.

use vstd::prelude::*;

use crate::automations::{
    binding_views, delivered, first_binding_fault, Binding, BindingEngine, BindingView,
};
use crate::drivers::Reading;
use crate::entities::contract::{staleness_nanos, unavailability_nanos};
use crate::entities::id::EntityAddress;
use crate::entities::map::EntityMap;
use crate::entities::state::{
    all_aged, no_reading_yet, news, with_failure, with_reading, Availability, EntityState,
    StateStore,
};
use crate::entities::{
    sensor_type_in, types_by_address, ActuatorCommand, Entity, EntityId, EntityIndex, EntityType,
    SensorValue,
};
use crate::error::BindingError;
use crate::time::Instant;

verus! {

/// All entities that drivers expose, driver by driver.
pub open spec fn all_exposed(drivers: Seq<Vec<Entity>>) -> Seq<Entity>
    decreases drivers.len(),
{
    if drivers.len() == 0 {
        Seq::empty()
    } else {
        all_exposed(drivers.drop_last()) + drivers.last()@
    }
}

/// Routes with those to the first `n` entities of one driver added.
pub open spec fn with_routes(
    routes: Map<EntityAddress, usize>,
    entities: Seq<Entity>,
    n: nat,
    driver: usize,
) -> Map<EntityAddress, usize>
    decreases n,
{
    if n == 0 {
        routes
    } else {
        with_routes(routes, entities, (n - 1) as nat, driver).insert(
            entities[n - 1].id@,
            driver,
        )
    }
}

/// Which of the first `n` drivers exposes an entity; the last one if several do.
pub open spec fn routes_to(drivers: Seq<Vec<Entity>>, n: nat) -> Map<EntityAddress, usize>
    decreases n,
{
    if n == 0 {
        Map::empty()
    } else {
        with_routes(
            routes_to(drivers, (n - 1) as nat),
            drivers[n - 1]@,
            drivers[n - 1]@.len(),
            (n - 1) as usize,
        )
    }
}

/// States in which every sensor of an index is known and none has been read.
pub open spec fn unread_sensors(index: Map<EntityAddress, EntityType>) -> Map<
    EntityAddress,
    EntityState,
> {
    Map::new(
        |a: EntityAddress| sensor_type_in(index, a) is Some,
        |a: EntityAddress| no_reading_yet(),
    )
}

/// States after the first `n` readings of a poll.
pub open spec fn after_readings(
    states: Map<EntityAddress, EntityState>,
    readings: Seq<Reading>,
    n: nat,
    now: Instant,
) -> Map<EntityAddress, EntityState>
    decreases n,
{
    if n == 0 {
        states
    } else {
        with_reading(
            after_readings(states, readings, (n - 1) as nat, now),
            readings[n - 1].entity@,
            readings[n - 1].value,
            now,
        )
    }
}

/// Those of the first `n` readings of a poll that say something new.
pub open spec fn fresh_readings(
    states: Map<EntityAddress, EntityState>,
    readings: Seq<Reading>,
    n: nat,
    now: Instant,
) -> Seq<Reading>
    decreases n,
{
    if n == 0 {
        Seq::empty()
    } else {
        let before = fresh_readings(states, readings, (n - 1) as nat, now);
        let reading = readings[n - 1];
        if news(
            after_readings(states, readings, (n - 1) as nat, now),
            reading.entity@,
            reading.value,
        ) {
            before.push(reading)
        } else {
            before
        }
    }
}

/// States after a failed poll of a driver that exposes the first `n` entities.
pub open spec fn after_failure(
    states: Map<EntityAddress, EntityState>,
    entities: Seq<Entity>,
    n: nat,
) -> Map<EntityAddress, EntityState>
    decreases n,
{
    if n == 0 {
        states
    } else {
        with_failure(
            after_failure(states, entities, (n - 1) as nat),
            entities[n - 1].id@,
        )
    }
}

/// A command on its way: to which driver, if any exposes the target.
#[derive(Debug, PartialEq)]
pub struct Dispatch {
    pub driver: Option<usize>,
    pub target: EntityId,
    pub command: ActuatorCommand,
}

/// States, bindings and routes of a running gateway.
#[derive(Debug)]
pub struct Gateway {
    index: EntityIndex,
    states: StateStore,
    engine: BindingEngine,
    routes: EntityMap<usize>,
}

/// The contents of a [`Gateway`].
#[verifier::ext_equal]
pub struct GatewayView {
    pub index: Map<EntityAddress, EntityType>,
    pub states: Map<EntityAddress, EntityState>,
    pub bindings: Seq<BindingView>,
    pub routes: Map<EntityAddress, usize>,
}

impl View for Gateway {
    type V = GatewayView;

    closed spec fn view(&self) -> GatewayView {
        GatewayView {
            index: self.index@,
            states: self.states@,
            bindings: self.engine@,
            routes: self.routes@,
        }
    }
}

fn gather_entities(drivers: &Vec<Vec<Entity>>) -> (entities: Vec<Entity>)
    ensures
        entities@ == all_exposed(drivers@),
{
    let mut entities: Vec<Entity> = Vec::new();
    let mut i: usize = 0;
    while i < drivers.len()
        invariant
            i <= drivers@.len(),
            entities@ == all_exposed(drivers@.take(i as int)),
        decreases drivers@.len() - i,
    {
        let ghost before = entities@;
        let mut j: usize = 0;
        while j < drivers[i].len()
            invariant
                i < drivers@.len(),
                j <= drivers@[i as int]@.len(),
                entities@ == before + drivers@[i as int]@.take(j as int),
            decreases drivers@[i as int]@.len() - j,
        {
            entities.push(drivers[i][j].clone());
            j += 1;
            assert(entities@ =~= before + drivers@[i as int]@.take(j as int));
        }
        assert(drivers@.take(i + 1).drop_last() =~= drivers@.take(i as int));
        assert(drivers@[i as int]@.take(j as int) =~= drivers@[i as int]@);
        i += 1;
    }
    assert(drivers@.take(i as int) =~= drivers@);
    entities
}

fn route_entities(drivers: &Vec<Vec<Entity>>) -> (routes: EntityMap<usize>)
    ensures
        routes@ == routes_to(drivers@, drivers@.len()),
{
    let mut routes: EntityMap<usize> = EntityMap::new();
    let mut i: usize = 0;
    while i < drivers.len()
        invariant
            i <= drivers@.len(),
            routes@ == routes_to(drivers@, i as nat),
        decreases drivers@.len() - i,
    {
        let ghost before = routes@;
        let mut j: usize = 0;
        while j < drivers[i].len()
            invariant
                i < drivers@.len(),
                j <= drivers@[i as int]@.len(),
                routes@ == with_routes(before, drivers@[i as int]@, j as nat, i),
            decreases drivers@[i as int]@.len() - j,
        {
            routes.insert(drivers[i][j].id.clone(), i);
            j += 1;
        }
        i += 1;
    }
    routes
}

impl Gateway {
    /// A gateway over drivers that expose these entities (one list per driver, in
    /// order), every sensor unread.
    pub fn new(drivers: &Vec<Vec<Entity>>, bindings: Vec<Binding>) -> (made: Result<
        Self,
        BindingError,
    >)
        ensures
            ({
                let index = types_by_address(all_exposed(drivers@));
                match made {
                    Ok(gateway) => {
                        &&& first_binding_fault(binding_views(bindings@), 0, index) is None
                        &&& gateway@ == (GatewayView {
                            index,
                            states: unread_sensors(index),
                            bindings: binding_views(bindings@),
                            routes: routes_to(drivers@, drivers@.len()),
                        })
                    },
                    Err(e) => first_binding_fault(binding_views(bindings@), 0, index) == Some(e@),
                }
            }),
    {
        let entities: Vec<Entity> = gather_entities(drivers);
        let index: EntityIndex = EntityIndex::from_entities(entities.as_slice());
        let sensors: Vec<EntityId> = index.sensor_ids();
        let states: StateStore = StateStore::new(sensors);
        assert(states@ =~= unread_sensors(index@));
        match BindingEngine::new(bindings, &index) {
            Err(e) => Err(e),
            Ok(engine) => Ok(Gateway { index, states, engine, routes: route_entities(drivers) }),
        }
    }

    /// The state of a sensor.
    pub fn state(&self, id: &EntityId) -> (found: Option<&EntityState>)
        ensures
            match found {
                Some(state) => self@.states.contains_key(id@) && *state == self@.states[id@],
                None => !self@.states.contains_key(id@),
            },
    {
        self.states.get(id)
    }

    /// Record what a poll produced. Returns the readings that say something new
    /// (for change-only logging).
    pub fn poll_succeeded(&mut self, readings: Vec<Reading>, now: Instant) -> (fresh: Vec<Reading>)
        ensures
            fresh@ == fresh_readings(old(self)@.states, readings@, readings@.len(), now),
            final(self)@ == (GatewayView {
                states: after_readings(old(self)@.states, readings@, readings@.len(), now),
                ..old(self)@
            }),
    {
        let ghost before = self@;
        let ghost all = readings@;
        let mut fresh: Vec<Reading> = Vec::new();
        for reading in it: readings.into_iter()
            invariant
                all == it.seq(),
                fresh@ == fresh_readings(before.states, all, it.index() as nat, now),
                self@ == (GatewayView {
                    states: after_readings(before.states, all, it.index() as nat, now),
                    ..before
                }),
        {
            if self.states.apply_reading(&reading.entity, reading.value, now) {
                fresh.push(reading);
            }
        }
        fresh
    }

    /// Record that polling a driver failed: none of its data can be trusted.
    pub fn poll_failed(&mut self, entities: &[Entity])
        ensures
            final(self)@ == (GatewayView {
                states: after_failure(old(self)@.states, entities@, entities@.len()),
                ..old(self)@
            }),
    {
        let ghost before = self@;
        let mut i: usize = 0;
        while i < entities.len()
            invariant
                i <= entities@.len(),
                self@ == (GatewayView {
                    states: after_failure(before.states, entities@, i as nat),
                    ..before
                }),
            decreases entities@.len() - i,
        {
            self.states.mark_unavailable(&entities[i].id);
            i += 1;
        }
    }

    /// Age the states, and tell what every binding has to deliver now, and to
    /// which driver.
    pub fn commands(&mut self, now: Instant) -> (dispatches: Vec<Dispatch>)
        ensures
            final(self)@ == (GatewayView {
                states: all_aged(old(self)@.states, old(self)@.index, now),
                ..old(self)@
            }),
            dispatches@.len() == old(self)@.bindings.len(),
            forall|i: int|
                #![trigger dispatches@[i]]
                0 <= i < dispatches@.len() ==> {
                    let binding = old(self)@.bindings[i];
                    &&& dispatches@[i].target@ == binding.target
                    &&& dispatches@[i].command == delivered(final(self)@.states, binding.source)
                    &&& dispatches@[i].driver == if old(self)@.routes.contains_key(
                        binding.target,
                    ) {
                        Some(old(self)@.routes[binding.target])
                    } else {
                        None
                    }
                },
    {
        self.states.refresh_availability(now, &self.index);
        let commands: Vec<(EntityId, ActuatorCommand)> = self.engine.desired_commands(
            &self.states,
        );
        let ghost all = commands@;
        let mut dispatches: Vec<Dispatch> = Vec::new();
        for command in it: commands.into_iter()
            invariant
                all == it.seq(),
                self@.bindings == old(self)@.bindings,
                self@.routes == old(self)@.routes,
                all.len() == self@.bindings.len(),
                forall|i: int|
                    0 <= i < all.len() ==> (#[trigger] all[i]).0@ == self@.bindings[i].target
                        && all[i].1 == delivered(self@.states, self@.bindings[i].source),
                dispatches@.len() == it.index(),
                forall|i: int|
                    #![trigger dispatches@[i]]
                    0 <= i < dispatches@.len() ==> {
                        let binding = self@.bindings[i];
                        &&& dispatches@[i].target@ == binding.target
                        &&& dispatches@[i].command == delivered(self@.states, binding.source)
                        &&& dispatches@[i].driver == if self@.routes.contains_key(binding.target) {
                            Some(self@.routes[binding.target])
                        } else {
                            None
                        }
                    },
        {
            let (target, command) = command;
            let driver: Option<usize> = match self.routes.get(&target) {
                Some(driver) => Some(*driver),
                None => None,
            };
            dispatches.push(Dispatch { driver, target, command });
        }
        dispatches
    }
}

proof fn lemma_routes(
    routes: Map<EntityAddress, usize>,
    entities: Seq<Entity>,
    n: nat,
    driver: usize,
    a: EntityAddress,
)
    requires
        n <= entities.len(),
    ensures
        with_routes(routes, entities, n, driver).contains_key(a) <==> routes.contains_key(a) || (
        exists|k: int| 0 <= k < n && #[trigger] entities[k].id@ == a),
        with_routes(routes, entities, n, driver).contains_key(a) ==> with_routes(
            routes,
            entities,
            n,
            driver,
        )[a] == if exists|k: int| 0 <= k < n && #[trigger] entities[k].id@ == a {
            driver
        } else {
            routes[a]
        },
    decreases n,
{
    if n > 0 {
        lemma_routes(routes, entities, (n - 1) as nat, driver, a);
        assert(entities[n - 1].id@ == entities[n - 1].id@);
    }
}

/// Every route leads to a driver that exposes the entity, and every entity that a
/// driver exposes has a route.
pub proof fn law_routes_lead_to_exposing_drivers(
    drivers: Seq<Vec<Entity>>,
    n: nat,
    a: EntityAddress,
)
    requires
        n <= drivers.len() <= usize::MAX,
    ensures
        routes_to(drivers, n).contains_key(a) ==> {
            let d = routes_to(drivers, n)[a];
            d < n && exists|k: int|
                0 <= k < drivers[d as int]@.len() && #[trigger] drivers[d as int]@[k].id@ == a
        },
        forall|d: int, k: int|
            0 <= d < n && 0 <= k < drivers[d]@.len() && #[trigger] drivers[d]@[k].id@ == a
                ==> routes_to(drivers, n).contains_key(a),
    decreases n,
{
    if n > 0 {
        law_routes_lead_to_exposing_drivers(drivers, (n - 1) as nat, a);
        let last = drivers[n - 1]@;
        lemma_routes(
            routes_to(drivers, (n - 1) as nat),
            last,
            last.len(),
            (n - 1) as usize,
            a,
        );
    }
}

proof fn lemma_index_entities(entities: Seq<Entity>, a: EntityAddress)
    ensures
        types_by_address(entities).contains_key(a) ==> exists|k: int|
            0 <= k < entities.len() && #[trigger] entities[k].id@ == a,
    decreases entities.len(),
{
    if entities.len() > 0 {
        let last = entities.len() - 1;
        lemma_index_entities(entities.drop_last(), a);
        if types_by_address(entities.drop_last()).contains_key(a) {
            let k = choose|k: int|
                0 <= k < last && #[trigger] entities.drop_last()[k].id@ == a;
            assert(entities[k].id@ == a);
        } else if types_by_address(entities).contains_key(a) {
            assert(entities[last].id@ == a);
        }
    }
}

proof fn lemma_exposed_by_some_driver(drivers: Seq<Vec<Entity>>, k: int) -> (place: (int, int))
    requires
        0 <= k < all_exposed(drivers).len(),
    ensures
        0 <= place.0 < drivers.len(),
        0 <= place.1 < drivers[place.0]@.len(),
        drivers[place.0]@[place.1] == all_exposed(drivers)[k],
    decreases drivers.len(),
{
    let before = all_exposed(drivers.drop_last());
    if k < before.len() {
        lemma_exposed_by_some_driver(drivers.drop_last(), k)
    } else {
        (drivers.len() - 1, k - before.len())
    }
}

/// A running gateway never finds a command without a driver: every target that
/// the binding engine accepted is exposed by one.
pub proof fn law_every_target_has_a_driver(drivers: Seq<Vec<Entity>>, bindings: Seq<BindingView>, i: int)
    requires
        drivers.len() <= usize::MAX,
        first_binding_fault(bindings, 0, types_by_address(all_exposed(drivers))) is None,
        0 <= i < bindings.len(),
    ensures
        routes_to(drivers, drivers.len()).contains_key(bindings[i].target),
{
    let index = types_by_address(all_exposed(drivers));
    crate::automations::law_accepted_bindings_are_servable(bindings, index);
    let a = bindings[i].target;
    lemma_index_entities(all_exposed(drivers), a);
    let k = choose|k: int|
        0 <= k < all_exposed(drivers).len() && #[trigger] all_exposed(drivers)[k].id@ == a;
    let (d, j) = lemma_exposed_by_some_driver(drivers, k);
    law_routes_lead_to_exposing_drivers(drivers, drivers.len(), a);
    assert(drivers[d]@[j].id@ == a);
}

/// A failed poll leaves every entity of the driver unavailable and without a
/// value, and no other entity changed.
pub proof fn law_failed_poll_hides_all_its_data(
    states: Map<EntityAddress, EntityState>,
    entities: Seq<Entity>,
    n: nat,
    a: EntityAddress,
)
    requires
        n <= entities.len(),
        states.contains_key(a),
    ensures
        after_failure(states, entities, n).contains_key(a),
        after_failure(states, entities, n)[a] == if exists|k: int|
            0 <= k < n && #[trigger] entities[k].id@ == a {
            crate::entities::state::failed(states[a])
        } else {
            states[a]
        },
    decreases n,
{
    if n > 0 {
        law_failed_poll_hides_all_its_data(states, entities, (n - 1) as nat, a);
        assert(entities[n - 1].id@ == entities[n - 1].id@);
    }
}

/// What became of a reading when a binding delivers it later: the value as online
/// while it is fresh, the same value as stale until it has been silent for too
/// long, and then nothing.
pub proof fn law_reading_is_delivered_until_it_expires(
    states: Map<EntityAddress, EntityState>,
    index: Map<EntityAddress, EntityType>,
    a: EntityAddress,
    value: SensorValue,
    read: Instant,
    now: Instant,
)
    requires
        states.contains_key(a),
        sensor_type_in(index, a) is Some,
    ensures
        ({
            let sensor_type = sensor_type_in(index, a)->0;
            let later = all_aged(with_reading(states, a, value, read), index, now);
            delivered(later, a) == if now.since(read) <= staleness_nanos(sensor_type) {
                ActuatorCommand::SourceUpdate {
                    availability: Availability::Online,
                    value: Some(value),
                }
            } else if now.since(read) <= unavailability_nanos(sensor_type) {
                ActuatorCommand::SourceUpdate {
                    availability: Availability::Stale,
                    value: Some(value),
                }
            } else {
                ActuatorCommand::SourceUpdate {
                    availability: Availability::Unavailable,
                    value: None,
                }
            }
        }),
{
}

/// The entities of all drivers stand in the order of the drivers, and those of one
/// driver in their own order; none is left out and none added.
pub proof fn law_entities_are_gathered_in_order(drivers: Seq<Vec<Entity>>, d: int)
    requires
        0 <= d < drivers.len(),
    ensures
        ({
            let before = all_exposed(drivers.take(d));
            let all = all_exposed(drivers);
            &&& before.len() + drivers[d]@.len() <= all.len()
            &&& forall|k: int|
                0 <= k < drivers[d]@.len() ==> all[before.len() + k] == #[trigger] drivers[d]@[k]
            &&& forall|k: int| 0 <= k < before.len() ==> all[k] == #[trigger] before[k]
            &&& d == drivers.len() - 1 ==> all.len() == before.len() + drivers[d]@.len()
        }),
    decreases drivers.len(),
{
    let rest = drivers.drop_last();
    if d == drivers.len() - 1 {
        assert(drivers.take(d) =~= rest);
    } else {
        law_entities_are_gathered_in_order(rest, d);
        assert(rest.take(d) =~= drivers.take(d));
        assert(rest[d] == drivers[d]);
    }
}

/// A command goes to the last driver that exposes its target.
pub proof fn law_routes_lead_to_the_last_driver(
    drivers: Seq<Vec<Entity>>,
    n: nat,
    d: int,
    k: int,
    a: EntityAddress,
)
    requires
        n <= drivers.len() <= usize::MAX,
        0 <= d < n,
        0 <= k < drivers[d]@.len(),
        drivers[d]@[k].id@ == a,
        forall|e: int, l: int|
            d < e < n && 0 <= l < drivers[e]@.len() ==> #[trigger] drivers[e]@[l].id@ != a,
    ensures
        routes_to(drivers, n).contains_key(a),
        routes_to(drivers, n)[a] == d,
    decreases n,
{
    let last = drivers[n - 1]@;
    let before = routes_to(drivers, (n - 1) as nat);
    lemma_routes(before, last, last.len(), (n - 1) as usize, a);
    if d == n - 1 {
        assert(last[k].id@ == a);
    } else {
        law_routes_lead_to_the_last_driver(drivers, (n - 1) as nat, d, k, a);
        assert forall|l: int| 0 <= l < last.len() implies #[trigger] last[l].id@ != a by {
            assert(drivers[n - 1]@[l].id@ != a);
        }
    }
}

/// After a poll an entity has the last of its readings, online and read at the time of
/// the poll.
pub proof fn law_the_last_reading_of_a_poll_counts(
    states: Map<EntityAddress, EntityState>,
    readings: Seq<Reading>,
    n: nat,
    now: Instant,
    k: int,
)
    requires
        n <= readings.len(),
        0 <= k < n,
        states.contains_key(readings[k].entity@),
        forall|l: int|
            k < l < n ==> (#[trigger] readings[l]).entity@ != readings[k].entity@,
    ensures
        ({
            let state = after_readings(states, readings, n, now)[readings[k].entity@];
            &&& state.availability == Availability::Online
            &&& state.value == Some(readings[k].value)
            &&& state.last_update == Some(now)
        }),
    decreases n,
{
    law_polls_change_only_what_they_read(states, readings, (n - 1) as nat, now, readings[k].entity@);
    if k < n - 1 {
        law_the_last_reading_of_a_poll_counts(states, readings, (n - 1) as nat, now, k);
        assert(readings[n - 1].entity@ != readings[k].entity@);
    }
}

/// A poll adds and forgets no entity, and changes none that it has no reading of.
pub proof fn law_polls_change_only_what_they_read(
    states: Map<EntityAddress, EntityState>,
    readings: Seq<Reading>,
    n: nat,
    now: Instant,
    a: EntityAddress,
)
    requires
        n <= readings.len(),
    ensures
        after_readings(states, readings, n, now).contains_key(a) <==> states.contains_key(a),
        (forall|k: int| 0 <= k < n ==> (#[trigger] readings[k]).entity@ != a) ==> after_readings(
            states,
            readings,
            n,
            now,
        )[a] == states[a],
    decreases n,
{
    if n > 0 {
        law_polls_change_only_what_they_read(states, readings, (n - 1) as nat, now, a);
        if forall|k: int| 0 <= k < n ==> (#[trigger] readings[k]).entity@ != a {
            assert(readings[n - 1].entity@ != a);
        }
    }
}

/// One more reading is reported as new, last in order, exactly if its entity is known
/// and, after the readings before it, was not online or had not that value; what was
/// reported before stays reported.
pub proof fn law_new_readings_are_reported_in_order(
    states: Map<EntityAddress, EntityState>,
    readings: Seq<Reading>,
    n: nat,
    now: Instant,
)
    requires
        n < readings.len(),
    ensures
        ({
            let so_far = fresh_readings(states, readings, n, now);
            let reading = readings[n as int];
            let then = after_readings(states, readings, n, now);
            let known = then.contains_key(reading.entity@);
            let state = then[reading.entity@];
            let shown = state.availability == Availability::Online && match state.value {
                Some(value) => value.equals(reading.value),
                None => false,
            };
            fresh_readings(states, readings, n + 1, now) == if known && !shown {
                so_far + seq![reading]
            } else {
                so_far
            }
        }),
        fresh_readings(states, readings, 0, now).len() == 0,
{
    let so_far = fresh_readings(states, readings, n, now);
    assert(so_far.push(readings[n as int]) =~= so_far + seq![readings[n as int]]);
}

/// A new gateway knows a state for exactly the sensors of its index: unavailable,
/// without a value, never read.
pub proof fn law_new_gateways_have_read_nothing(
    index: Map<EntityAddress, EntityType>,
    a: EntityAddress,
)
    ensures
        unread_sensors(index).contains_key(a) <==> index.contains_key(a) && index[a] is Sensor,
        unread_sensors(index).contains_key(a) ==> {
            let state = unread_sensors(index)[a];
            &&& state.availability == Availability::Unavailable
            &&& state.value is None
            &&& state.last_update is None
        },
{
}

/// How long a binding delivers a reading, by the clock: as online up to and including
/// two seconds after it was read, as stale up to and including ten, both with the value
/// unchanged; after that as unavailable, without a value.
pub proof fn law_readings_are_delivered_by_the_clock(
    states: Map<EntityAddress, EntityState>,
    index: Map<EntityAddress, EntityType>,
    a: EntityAddress,
    value: SensorValue,
    read: Instant,
    now: Instant,
)
    requires
        states.contains_key(a),
        index.contains_key(a),
        index[a] is Sensor,
    ensures
        ({
            let later = all_aged(with_reading(states, a, value, read), index, now);
            let ActuatorCommand::SourceUpdate { availability, value: shown } = delivered(later, a);
            if now.nanos <= read.nanos + 2_000_000_000 {
                availability == Availability::Online && shown == Some(value)
            } else if now.nanos <= read.nanos + 10_000_000_000 {
                availability == Availability::Stale && shown == Some(value)
            } else {
                availability == Availability::Unavailable && shown is None
            }
        }),
{
}

} // verus!
