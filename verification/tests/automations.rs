use firmware::automations::{Binding, BindingEngine};
use firmware::drivers::Reading;
use firmware::entities::state::{Availability, StateStore};
use firmware::entities::{
    ActuatorCommand, ActuatorType, Entity, EntityId, EntityIndex, EntityType, SensorType,
    SensorValue,
};
use firmware::error::BindingError;
use firmware::gateway::{Dispatch, Gateway};
use firmware::time::{Duration, Instant};

fn rpm_id() -> EntityId {
    "gateway.rpm".parse().unwrap()
}

fn zone_id() -> EntityId {
    "gateway.display.top".parse().unwrap()
}

fn rpm() -> Entity {
    Entity {
        id: rpm_id(),
        entity_type: EntityType::Sensor(SensorType::Rpm),
        name: None,
    }
}

fn zone() -> Entity {
    Entity {
        id: zone_id(),
        entity_type: EntityType::Actuator(ActuatorType::DisplayRegion),
        name: None,
    }
}

fn index() -> EntityIndex {
    EntityIndex::from_entities(&[rpm(), zone()])
}

fn binding() -> Binding {
    Binding {
        source: rpm_id(),
        target: zone_id(),
    }
}

fn engine() -> BindingEngine {
    BindingEngine::new(vec![binding()], &index()).unwrap()
}

fn now() -> Instant {
    Instant::at(Duration::from_secs(7))
}

#[test]
fn online_source_forwards_value_and_availability() {
    let mut states = StateStore::new(vec![rpm_id()]);
    states.apply_reading(&rpm_id(), SensorValue::Rpm(600), now());

    let commands = engine().desired_commands(&states);
    assert_eq!(commands.len(), 1);
    assert_eq!(commands[0].0, zone_id());
    assert_eq!(
        commands[0].1,
        ActuatorCommand::SourceUpdate {
            availability: Availability::Online,
            value: Some(SensorValue::Rpm(600)),
        }
    );
}

#[test]
fn unavailable_source_forwards_unavailability_not_a_value() {
    let mut states = StateStore::new(vec![rpm_id()]);
    states.apply_reading(&rpm_id(), SensorValue::Rpm(600), now());
    states.mark_unavailable(&rpm_id());

    let commands = engine().desired_commands(&states);
    assert_eq!(
        commands[0].1,
        ActuatorCommand::SourceUpdate {
            availability: Availability::Unavailable,
            value: None,
        }
    );
}

#[test]
fn rejects_binding_to_unsupported_actuator_type() {
    let audio_id: EntityId = "phone.audio".parse().unwrap();
    let index = EntityIndex::from_entities(&[
        Entity {
            id: rpm_id(),
            entity_type: EntityType::Sensor(SensorType::Rpm),
            name: None,
        },
        Entity {
            id: audio_id.clone(),
            entity_type: EntityType::Actuator(ActuatorType::AudioPlayer),
            name: None,
        },
    ]);
    let result = BindingEngine::new(
        vec![Binding {
            source: rpm_id(),
            target: audio_id,
        }],
        &index,
    );
    assert!(matches!(
        result,
        Err(BindingError::UnsupportedTarget { .. })
    ));
}

#[test]
fn rejects_two_bindings_onto_one_target() {
    let result = BindingEngine::new(
        vec![
            Binding {
                source: rpm_id(),
                target: zone_id(),
            },
            Binding {
                source: rpm_id(),
                target: zone_id(),
            },
        ],
        &index(),
    );
    assert!(matches!(result, Err(BindingError::DuplicateTarget(_))));
}

#[test]
fn unknown_ends_of_a_binding_are_named() {
    let ghost: EntityId = "gateway.ghost".parse().unwrap();
    let engine = |source: EntityId, target: EntityId| {
        BindingEngine::new(vec![Binding { source, target }], &index()).map(|_| ())
    };
    assert_eq!(
        engine(ghost.clone(), zone_id()),
        Err(BindingError::UnknownSource(ghost.clone()))
    );
    assert_eq!(
        engine(zone_id(), zone_id()),
        Err(BindingError::UnknownSource(zone_id())),
        "an actuator is no source"
    );
    assert_eq!(
        engine(rpm_id(), ghost.clone()),
        Err(BindingError::UnknownTarget(ghost.clone()))
    );
    assert_eq!(
        engine(rpm_id(), rpm_id()),
        Err(BindingError::UnsupportedTarget {
            target: rpm_id(),
            entity_type: "rpm"
        })
    );
    assert_eq!(
        BindingError::UnsupportedTarget {
            target: rpm_id(),
            entity_type: "rpm"
        }
        .message(),
        "binding target 'gateway.rpm' has entity type 'rpm', which cannot receive continuous \
         source updates"
    );
    assert_eq!(
        BindingError::UnknownSource(ghost.clone()).message(),
        "binding source 'gateway.ghost' is not a known sensor entity"
    );
    assert_eq!(
        BindingError::UnknownTarget(ghost).message(),
        "binding target 'gateway.ghost' is not a known actuator entity"
    );
    assert_eq!(
        BindingError::DuplicateTarget(zone_id()).message(),
        "binding target 'gateway.display.top' is bound more than once; a target can have at most \
         one binding"
    );
}

#[test]
fn a_source_without_a_state_is_delivered_as_unavailable() {
    let states = StateStore::new(vec![]);
    assert_eq!(
        engine().desired_commands(&states),
        vec![(
            zone_id(),
            ActuatorCommand::SourceUpdate {
                availability: Availability::Unavailable,
                value: None,
            }
        )]
    );
}

#[test]
fn gateway_routes_each_command_to_the_driver_that_exposes_its_target() {
    let drivers = vec![vec![rpm()], vec![zone()]];
    let mut gateway = Gateway::new(&drivers, vec![binding()]).unwrap();
    let fresh = gateway.poll_succeeded(
        vec![
            Reading {
                entity: rpm_id(),
                value: SensorValue::Rpm(600),
            },
            Reading {
                entity: rpm_id(),
                value: SensorValue::Rpm(600),
            },
            Reading {
                entity: zone_id(),
                value: SensorValue::Rpm(1),
            },
        ],
        now(),
    );
    assert_eq!(
        fresh,
        vec![Reading {
            entity: rpm_id(),
            value: SensorValue::Rpm(600),
        }],
        "only what is new of a known sensor"
    );
    assert_eq!(
        gateway.commands(now()),
        vec![Dispatch {
            driver: Some(1),
            target: zone_id(),
            command: ActuatorCommand::SourceUpdate {
                availability: Availability::Online,
                value: Some(SensorValue::Rpm(600)),
            },
        }]
    );
}

#[test]
fn gateway_ages_states_before_delivering_them() {
    let drivers = vec![vec![rpm(), zone()]];
    let mut gateway = Gateway::new(&drivers, vec![binding()]).unwrap();
    gateway.poll_succeeded(
        vec![Reading {
            entity: rpm_id(),
            value: SensorValue::Rpm(600),
        }],
        now(),
    );
    let later = Instant::at(Duration::from_secs(12));
    let commands = gateway.commands(later);
    assert_eq!(commands[0].driver, Some(0));
    assert_eq!(
        commands[0].command,
        ActuatorCommand::SourceUpdate {
            availability: Availability::Stale,
            value: Some(SensorValue::Rpm(600)),
        }
    );
    let much_later = Instant::at(Duration::from_secs(18));
    assert_eq!(
        gateway.commands(much_later)[0].command,
        ActuatorCommand::SourceUpdate {
            availability: Availability::Unavailable,
            value: None,
        }
    );
}

#[test]
fn a_failed_poll_makes_all_entities_of_the_driver_unavailable() {
    let other = Entity {
        id: "gateway.speed".parse().unwrap(),
        entity_type: EntityType::Sensor(SensorType::Speed),
        name: None,
    };
    let drivers = vec![vec![rpm(), zone()], vec![other.clone()]];
    let mut gateway = Gateway::new(&drivers, vec![]).unwrap();
    for entity in [rpm_id(), other.id.clone()] {
        gateway.poll_succeeded(
            vec![Reading {
                entity,
                value: SensorValue::Rpm(600),
            }],
            now(),
        );
    }
    gateway.poll_failed(&drivers[0]);
    assert_eq!(
        gateway.state(&rpm_id()).unwrap().availability,
        Availability::Unavailable
    );
    assert_eq!(gateway.state(&rpm_id()).unwrap().value, None);
    assert_eq!(
        gateway.state(&other.id).unwrap().availability,
        Availability::Online
    );
    assert!(gateway.state(&zone_id()).is_none());
}

#[test]
fn the_last_driver_that_exposes_an_entity_gets_its_commands() {
    let drivers = vec![vec![zone()], vec![rpm()], vec![zone()]];
    let mut gateway = Gateway::new(&drivers, vec![binding()]).unwrap();
    assert_eq!(gateway.commands(now())[0].driver, Some(2));
}
