use firmware::entities::state::{Availability, StateStore};
use firmware::entities::{Entity, EntityId, EntityIndex, EntityType, SensorType, SensorValue};
use firmware::time::{Duration, Instant};

fn rpm_id() -> EntityId {
    "gateway.rpm".parse().unwrap()
}

fn index() -> EntityIndex {
    EntityIndex::from_entities(&[Entity {
        id: rpm_id(),
        entity_type: EntityType::Sensor(SensorType::Rpm),
        name: None,
    }])
}

/// An arbitrary time, and times after it.
fn start() -> Instant {
    Instant::at(Duration::from_secs(1_000))
}

fn after_millis(millis: u64) -> Instant {
    Instant::at(Duration::from_millis(1_000_000 + millis))
}

#[test]
fn starts_unavailable_then_goes_online() {
    let mut store = StateStore::new(vec![rpm_id()]);
    assert_eq!(
        store.get(&rpm_id()).unwrap().availability,
        Availability::Unavailable
    );

    let changed = store.apply_reading(&rpm_id(), SensorValue::Rpm(600), start());
    assert!(changed);
    let state = store.get(&rpm_id()).unwrap();
    assert_eq!(state.availability, Availability::Online);
    assert_eq!(state.value, Some(SensorValue::Rpm(600)));
}

#[test]
fn unchanged_reading_reports_no_change() {
    let mut store = StateStore::new(vec![rpm_id()]);
    assert!(store.apply_reading(&rpm_id(), SensorValue::Rpm(0), start()));
    assert!(!store.apply_reading(&rpm_id(), SensorValue::Rpm(0), start()));
    assert!(store.apply_reading(&rpm_id(), SensorValue::Rpm(120), start()));
}

#[test]
fn goes_stale_after_contract_window() {
    let mut store = StateStore::new(vec![rpm_id()]);
    store.apply_reading(&rpm_id(), SensorValue::Rpm(600), start());

    store.refresh_availability(after_millis(500), &index());
    assert_eq!(
        store.get(&rpm_id()).unwrap().availability,
        Availability::Online
    );

    store.refresh_availability(after_millis(3_000), &index());
    assert_eq!(
        store.get(&rpm_id()).unwrap().availability,
        Availability::Stale
    );
}

#[test]
fn goes_unavailable_after_extended_silence_and_drops_the_stale_value() {
    let mut store = StateStore::new(vec![rpm_id()]);
    store.apply_reading(&rpm_id(), SensorValue::Rpm(600), start());

    // Well past staleness_after (2s) but not yet unavailable_after (10s): still
    // Stale, and the last value is still there for a gauge to freeze on.
    store.refresh_availability(after_millis(5_000), &index());
    let state = store.get(&rpm_id()).unwrap();
    assert_eq!(state.availability, Availability::Stale);
    assert_eq!(state.value, Some(SensorValue::Rpm(600)));

    // Past unavailable_after: no fresh reading ever arrived, so a driver that
    // silently stopped updating must not leave this frozen as Stale forever.
    store.refresh_availability(after_millis(11_000), &index());
    let state = store.get(&rpm_id()).unwrap();
    assert_eq!(state.availability, Availability::Unavailable);
    assert_eq!(state.value, None);
}

#[test]
fn fresh_reading_returns_to_online_from_any_prior_state() {
    let mut store = StateStore::new(vec![rpm_id()]);
    store.apply_reading(&rpm_id(), SensorValue::Rpm(600), start());
    store.refresh_availability(after_millis(11_000), &index());
    assert_eq!(
        store.get(&rpm_id()).unwrap().availability,
        Availability::Unavailable
    );

    store.apply_reading(&rpm_id(), SensorValue::Rpm(700), after_millis(11_000));
    let state = store.get(&rpm_id()).unwrap();
    assert_eq!(state.availability, Availability::Online);
    assert_eq!(state.value, Some(SensorValue::Rpm(700)));
}

#[test]
fn driver_error_marks_unavailable() {
    let mut store = StateStore::new(vec![rpm_id()]);
    store.apply_reading(&rpm_id(), SensorValue::Rpm(600), start());
    store.mark_unavailable(&rpm_id());
    let state = store.get(&rpm_id()).unwrap();
    assert_eq!(state.availability, Availability::Unavailable);
    assert_eq!(state.value, None);
}

#[test]
fn the_windows_end_exactly_at_their_length() {
    let mut store = StateStore::new(vec![rpm_id()]);
    store.apply_reading(&rpm_id(), SensorValue::Rpm(600), start());
    store.refresh_availability(after_millis(2_000), &index());
    assert_eq!(
        store.get(&rpm_id()).unwrap().availability,
        Availability::Online
    );
    store.refresh_availability(after_millis(2_001), &index());
    assert_eq!(
        store.get(&rpm_id()).unwrap().availability,
        Availability::Stale
    );
    store.refresh_availability(after_millis(10_000), &index());
    assert_eq!(
        store.get(&rpm_id()).unwrap().availability,
        Availability::Stale
    );
    store.refresh_availability(after_millis(10_001), &index());
    assert_eq!(
        store.get(&rpm_id()).unwrap().availability,
        Availability::Unavailable
    );
}

#[test]
fn unknown_entities_are_left_alone() {
    let ghost: EntityId = "gateway.ghost".parse().unwrap();
    let mut store = StateStore::new(vec![rpm_id()]);
    assert!(!store.apply_reading(&ghost, SensorValue::Rpm(1), start()));
    store.mark_unavailable(&ghost);
    assert!(store.get(&ghost).is_none());
    // An entity the index does not know never ages.
    store.apply_reading(&rpm_id(), SensorValue::Rpm(5), start());
    store.refresh_availability(after_millis(60_000), &EntityIndex::from_entities(&[]));
    assert_eq!(
        store.get(&rpm_id()).unwrap().availability,
        Availability::Online
    );
}

#[test]
fn a_reading_after_an_outage_is_news_even_if_the_value_is_the_same() {
    let mut store = StateStore::new(vec![rpm_id()]);
    assert!(store.apply_reading(&rpm_id(), SensorValue::Rpm(600), start()));
    store.refresh_availability(after_millis(3_000), &index());
    assert!(store.apply_reading(&rpm_id(), SensorValue::Rpm(600), after_millis(3_000)));
}

#[test]
fn aging_in_steps_ends_where_aging_at_once_does() {
    let mut stepwise = StateStore::new(vec![rpm_id()]);
    let mut at_once = StateStore::new(vec![rpm_id()]);
    for store in [&mut stepwise, &mut at_once] {
        store.apply_reading(&rpm_id(), SensorValue::Rpm(600), start());
    }
    for millis in [500, 2_500, 4_000, 9_000] {
        stepwise.refresh_availability(after_millis(millis), &index());
    }
    at_once.refresh_availability(after_millis(9_000), &index());
    assert_eq!(stepwise.get(&rpm_id()), at_once.get(&rpm_id()));
}

#[test]
fn a_value_is_there_exactly_while_the_entity_is_not_unavailable() {
    let mut store = StateStore::new(vec![rpm_id()]);
    let coherent = |store: &StateStore| {
        let state = store.get(&rpm_id()).unwrap();
        assert_eq!(
            state.value.is_some(),
            state.availability != Availability::Unavailable
        );
    };
    coherent(&store);
    store.apply_reading(&rpm_id(), SensorValue::Rpm(600), start());
    coherent(&store);
    for millis in [100, 2_100, 9_000, 10_100, 20_000] {
        store.refresh_availability(after_millis(millis), &index());
        coherent(&store);
    }
    store.apply_reading(&rpm_id(), SensorValue::Rpm(1), after_millis(21_000));
    store.mark_unavailable(&rpm_id());
    coherent(&store);
}

#[test]
fn only_a_reading_brings_an_entity_back() {
    let mut store = StateStore::new(vec![rpm_id()]);
    store.apply_reading(&rpm_id(), SensorValue::Rpm(600), start());
    store.refresh_availability(after_millis(3_000), &index());
    // The clock reads less than before; that is no reason to trust the value.
    store.refresh_availability(after_millis(10), &index());
    assert_eq!(
        store.get(&rpm_id()).unwrap().availability,
        Availability::Stale
    );
    assert!(StateStore::default().get(&rpm_id()).is_none());
}
