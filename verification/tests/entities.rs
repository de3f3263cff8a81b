use firmware::entities::contract::{sensor_contract, UpdateRate, ValueKind};
use firmware::entities::map::EntityMap;
use firmware::entities::{
    is_valid_id, ActuatorType, DeviceId, Entity, EntityDomain, EntityId, EntityIndex, EntityType,
    SensorType, SensorValue,
};
use firmware::error::IdParseError;
use firmware::ieee::Binary32;

fn speed(v: f32) -> SensorValue {
    SensorValue::Speed(Binary32::from_bits(v.to_bits()))
}

#[test]
fn entity_id_round_trips() {
    let id: EntityId = "gateway.rpm".parse().unwrap();
    assert_eq!(id.device().as_str(), "gateway");
    assert_eq!(id.entity(), "rpm");
    assert_eq!(id.to_string(), "gateway.rpm");
}

#[test]
fn entity_id_supports_dotted_zone_convention() {
    let id: EntityId = "gateway.display.top".parse().unwrap();
    assert_eq!(id.device().as_str(), "gateway");
    assert_eq!(id.entity(), "display.top");
    assert_eq!(id.to_string(), "gateway.display.top");
}

#[test]
fn entity_id_rejects_bare_and_malformed_addresses() {
    assert!("rpm".parse::<EntityId>().is_err());
    assert!("Gateway.rpm".parse::<EntityId>().is_err());
    assert!("gateway.".parse::<EntityId>().is_err());
    assert!(".rpm".parse::<EntityId>().is_err());
    assert!("gateway.r-pm".parse::<EntityId>().is_err());
    assert!("gateway.display..top".parse::<EntityId>().is_err());
    assert!("gateway.display.".parse::<EntityId>().is_err());
}

#[test]
fn sensor_values_match_their_contracts() {
    for value in [SensorValue::Rpm(1200), speed(48.25)] {
        let contract = sensor_contract(value.sensor_type());
        assert_eq!(value.value_kind(), contract.value_kind);
    }
}

#[test]
fn values_format_per_contract_precision() {
    assert_eq!(SensorValue::Rpm(1200).format_value(), "1200");
    assert_eq!(SensorValue::Rpm(1200).unit(), "rpm");
    assert_eq!(speed(48.25).format_value(), "48.2");
    assert_eq!(speed(48.25).unit(), "km/h");
}

#[test]
fn id_errors_say_what_was_wrong() {
    assert_eq!(
        EntityId::parse("rpm").unwrap_err(),
        IdParseError::InvalidAddress("rpm".to_owned())
    );
    assert_eq!(
        EntityId::parse("Gateway.rpm").unwrap_err(),
        IdParseError::InvalidId("Gateway".to_owned())
    );
    assert_eq!(
        EntityId::parse("gateway.display..top").unwrap_err(),
        IdParseError::InvalidId("display..top".to_owned())
    );
    assert_eq!(
        IdParseError::InvalidId("9x".to_owned()).message(),
        "invalid id '9x': ids must match [a-z][a-z0-9_]*"
    );
    assert_eq!(
        IdParseError::InvalidAddress("rpm".to_owned()).message(),
        "invalid entity address 'rpm': expected 'device_id.entity_id'"
    );
}

#[test]
fn plain_ids_start_with_a_letter_and_hold_no_other_characters() {
    for valid in ["a", "rpm", "z9_", "a_b_2"] {
        assert!(is_valid_id(valid), "{valid}");
    }
    for invalid in ["", "_a", "9a", "A", "a.b", "a-b", "a b", "gr\u{fc}n"] {
        assert!(!is_valid_id(invalid), "{invalid}");
    }
    assert!(DeviceId::new("gateway").is_ok());
    assert_eq!(
        DeviceId::new("Gateway").unwrap_err(),
        IdParseError::InvalidId("Gateway".to_owned())
    );
}

#[test]
fn every_written_address_parses_back() {
    for text in ["gateway.rpm", "gateway.display.top", "a.b.c.d", "x1.y_2"] {
        let id = EntityId::parse(text).unwrap();
        assert_eq!(id.to_string(), text);
        assert_eq!(EntityId::parse(&id.to_string()).unwrap(), id);
    }
    assert_ne!(
        EntityId::parse("a.b_c").unwrap(),
        EntityId::parse("a_b.c").unwrap()
    );
}

#[test]
fn speeds_print_like_floats_do() {
    for v in [
        0.0f32, -0.0, 0.05, 0.15, 0.25, 0.35, 1.0, 9.95, 48.25, 48.35, 99.949, 123456.78, 1e-20,
        3.4e38, -7.65, 16777216.0, 8388607.5, 0.45, 2.5, 1e10, 5e-45,
    ] {
        assert_eq!(speed(v).format_value(), format!("{v:.1}"), "{v:?}");
    }
    assert_eq!(speed(f32::INFINITY).format_value(), "inf");
    assert_eq!(speed(f32::NEG_INFINITY).format_value(), "-inf");
    assert_eq!(speed(f32::NAN).format_value(), "NaN");
}

#[test]
fn values_compare_like_floats_do() {
    assert_eq!(speed(0.0), speed(-0.0));
    assert_ne!(speed(f32::NAN), speed(f32::NAN));
    assert_ne!(speed(1.0), speed(2.0));
    assert_ne!(SensorValue::Rpm(1), speed(1.0));
    assert_eq!(SensorValue::Rpm(7), SensorValue::Rpm(7));
}

#[test]
fn contracts_are_fixed_per_type() {
    let rpm = sensor_contract(SensorType::Rpm);
    assert_eq!(rpm.unit_of_measurement, "rpm");
    assert_eq!(rpm.value_kind, ValueKind::U32);
    assert_eq!(rpm.precision, 0);
    assert_eq!(rpm.update_rate, UpdateRate::Realtime);
    let speed = sensor_contract(SensorType::Speed);
    assert_eq!(speed.unit_of_measurement, "km/h");
    assert_eq!(speed.value_kind, ValueKind::F32);
    assert_eq!(speed.precision, 1);
    for contract in [rpm, speed] {
        assert_eq!(contract.staleness_after.as_millis(), 2_000);
        assert_eq!(contract.unavailable_after.as_millis(), 10_000);
        assert!(contract.staleness_after.nanos < contract.unavailable_after.nanos);
    }
}

#[test]
fn entity_types_have_names_and_domains() {
    assert_eq!(SensorType::Rpm.display_name(), "RPM");
    assert_eq!(SensorType::Speed.display_name(), "Speed");
    for (entity_type, name, domain) in [
        (EntityType::Sensor(SensorType::Rpm), "rpm", EntityDomain::Sensor),
        (EntityType::Sensor(SensorType::Speed), "speed", EntityDomain::Sensor),
        (
            EntityType::Actuator(ActuatorType::DisplayPanel),
            "display_panel",
            EntityDomain::Actuator,
        ),
        (
            EntityType::Actuator(ActuatorType::DisplayRegion),
            "display_region",
            EntityDomain::Actuator,
        ),
        (
            EntityType::Actuator(ActuatorType::AudioPlayer),
            "audio_player",
            EntityDomain::Actuator,
        ),
    ] {
        assert_eq!(entity_type.as_str(), name);
        assert_eq!(entity_type.domain(), domain);
    }
}

#[test]
fn index_finds_types_and_lists_sensors_once() {
    let entity = |id: &str, entity_type| Entity {
        id: id.parse().unwrap(),
        entity_type,
        name: None,
    };
    let index = EntityIndex::from_entities(&[
        entity("gateway.rpm", EntityType::Sensor(SensorType::Rpm)),
        entity(
            "gateway.display.top",
            EntityType::Actuator(ActuatorType::DisplayRegion),
        ),
        entity("gateway.speed", EntityType::Sensor(SensorType::Rpm)),
        entity("gateway.speed", EntityType::Sensor(SensorType::Speed)),
    ]);
    let id = |s: &str| s.parse::<EntityId>().unwrap();
    assert_eq!(index.sensor_type(&id("gateway.rpm")), Some(SensorType::Rpm));
    assert_eq!(
        index.sensor_type(&id("gateway.speed")),
        Some(SensorType::Speed),
        "the last entry for an id counts"
    );
    assert_eq!(index.sensor_type(&id("gateway.display.top")), None);
    assert_eq!(
        index.entity_type(&id("gateway.display.top")),
        Some(EntityType::Actuator(ActuatorType::DisplayRegion))
    );
    assert_eq!(index.entity_type(&id("gateway.ghost")), None);
    let mut sensors: Vec<String> = index.sensor_ids().iter().map(|id| id.to_string()).collect();
    sensors.sort();
    assert_eq!(sensors, ["gateway.rpm", "gateway.speed"]);
}

#[test]
fn entity_map_replaces_values_and_keeps_keys() {
    let a: EntityId = "g.a".parse().unwrap();
    let b: EntityId = "g.b".parse().unwrap();
    let mut map: EntityMap<u32> = EntityMap::new();
    map.insert(a.clone(), 1);
    map.insert(b.clone(), 2);
    map.insert(a.clone(), 3);
    assert_eq!(map.len(), 2);
    assert_eq!(map.get(&a), Some(&3));
    assert_eq!(map.get(&b), Some(&2));
    map.set_at(0, 9);
    assert_eq!(map.get(map.key_at(0)), Some(&9));
    assert_eq!(map.get(&"g.c".parse().unwrap()), None);
}

#[test]
fn entity_type_deserializes_by_domain() {
    let read = |json: &str| {
        let name: String = serde_json::from_str(json).unwrap();
        EntityType::from_name(&name)
    };
    let t = read("\"rpm\"").unwrap();
    assert_eq!(t, EntityType::Sensor(SensorType::Rpm));
    assert_eq!(t.domain(), EntityDomain::Sensor);

    let t = read("\"display_panel\"").unwrap();
    assert_eq!(t, EntityType::Actuator(ActuatorType::DisplayPanel));
    assert_eq!(t.domain(), EntityDomain::Actuator);

    assert!(read("\"warp_drive\"").is_none());
}

#[test]
fn names_of_entity_types_read_back_and_never_clash() {
    let types = [
        EntityType::Sensor(SensorType::Rpm),
        EntityType::Sensor(SensorType::Speed),
        EntityType::Actuator(ActuatorType::DisplayPanel),
        EntityType::Actuator(ActuatorType::DisplayRegion),
        EntityType::Actuator(ActuatorType::AudioPlayer),
    ];
    for a in types {
        assert_eq!(EntityType::from_name(a.as_str()), Some(a));
        for b in types {
            assert_eq!(a.as_str() == b.as_str(), a == b);
        }
    }
    for unknown in ["", "Rpm", "RPM", "rpm ", "display", "audio_players"] {
        assert_eq!(EntityType::from_name(unknown), None);
    }
}
