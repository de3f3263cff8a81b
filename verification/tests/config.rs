use firmware::config::{
    parse_config, RawBinding, RawConfig, RawDevice, RawEntity, ValidatedConfig,
};
use firmware::drivers::display::default_render_interval_ms;
use firmware::drivers::display::layout::ZoneConfig;
use firmware::drivers::display::widgets::{Align, ArcGaugeStyle, FontSize, WidgetConfig};
use firmware::drivers::pulse_counter::{
    default_pulses_per_revolution, default_sample_window_ms, PulseCounterConfig,
};
use firmware::drivers::ssd1306_display::{self, Ssd1306Config};
use firmware::drivers::{pulse_counter, DriverDocument, BUILTIN_DRIVER_KINDS};
use firmware::entities::{ActuatorType, Entity, EntityId, EntityType, SensorType};
use firmware::error::{AppError, BindingError, ConfigError, DriverError, IdParseError};
use firmware::gateway::Gateway;
use firmware::ieee::Binary64;
use firmware::time::{Duration, Instant};

fn id(s: &str) -> EntityId {
    s.parse().unwrap()
}

fn number(x: f64) -> Binary64 {
    Binary64::from_bits(x.to_bits())
}

fn document(json: &str) -> DriverDocument {
    DriverDocument {
        value: serde_json::from_str(json).unwrap(),
        pulse_counter: Err("not a pulse counter".to_owned()),
        ssd1306: Err("not an SSD1306".to_owned()),
        ili9341: Err("not an ILI9341".to_owned()),
    }
}

fn rpm_entity() -> RawEntity {
    let mut driver_config = document(r#"{ "pin": 4, "sample_window_ms": 500 }"#);
    driver_config.pulse_counter = Ok(PulseCounterConfig {
        pin: 4,
        pulses_per_revolution: default_pulses_per_revolution(),
        sample_window_ms: default_sample_window_ms(),
        meters_per_revolution: None,
    });
    RawEntity {
        id: "rpm".to_owned(),
        entity_type: EntityType::Sensor(SensorType::Rpm),
        driver: "pulse_counter".to_owned(),
        driver_config,
        name: None,
    }
}

fn zone(id: &str, y: u32, height: u32, widget: WidgetConfig) -> ZoneConfig {
    ZoneConfig {
        id: id.to_owned(),
        x: 0,
        y,
        width: 128,
        height,
        widget,
    }
}

fn display_entity(second_zone_y: u32) -> RawEntity {
    let mut driver_config = document(r#"{ "i2c_sda": 21, "i2c_scl": 22 }"#);
    driver_config.ssd1306 = Ok(Ssd1306Config {
        i2c_sda: 21,
        i2c_scl: 22,
        address: ssd1306_display::default_address(),
        baudrate_hz: ssd1306_display::default_baudrate_hz(),
        width: ssd1306_display::default_width(),
        height: ssd1306_display::default_height(),
        rotation: 0,
        render_interval_ms: default_render_interval_ms(),
        layout: vec![
            zone(
                "dial",
                0,
                40,
                WidgetConfig::GaugeArc {
                    min: number(0.0),
                    max: number(10000.0),
                    redline: None,
                    style: ArcGaugeStyle::default(),
                },
            ),
            zone(
                "bottom",
                second_zone_y,
                24,
                WidgetConfig::Text {
                    template: "RPM: {{value}}".to_owned(),
                    font: FontSize::default(),
                    align: Align::default(),
                },
            ),
        ],
    });
    RawEntity {
        id: "display".to_owned(),
        entity_type: EntityType::Actuator(ActuatorType::DisplayPanel),
        driver: "ssd1306_display".to_owned(),
        driver_config,
        name: None,
    }
}

fn bound(source: &str, target: &str) -> RawBinding {
    RawBinding {
        source: id(source),
        target: id(target),
    }
}

fn valid() -> RawConfig {
    RawConfig {
        devices: vec![RawDevice {
            id: "gateway".to_owned(),
            name: Some("ESP32 Gateway".to_owned()),
            entities: vec![rpm_entity(), display_entity(40)],
        }],
        bindings: vec![bound("gateway.rpm", "gateway.display.dial")],
    }
}

fn parse(raw: RawConfig) -> Result<ValidatedConfig, ConfigError> {
    parse_config(raw, &BUILTIN_DRIVER_KINDS)
}

#[test]
fn valid_config_parses() {
    let config = parse(valid()).unwrap();

    assert_eq!(config.devices.len(), 1);
    assert_eq!(config.devices[0].name, "ESP32 Gateway");

    assert_eq!(config.driver_specs.len(), 2);
    let rpm = &config.driver_specs[0];
    assert_eq!(rpm.instance_id, "gateway.rpm");
    assert_eq!(rpm.kind, "pulse_counter");
    assert_eq!(
        rpm.entities[0].entity_type,
        EntityType::Sensor(SensorType::Rpm)
    );
    assert_eq!(rpm.config.value["pin"], 4);

    // One display driver instance exposing one entity per config zone.
    let display = &config.driver_specs[1];
    assert_eq!(display.instance_id, "gateway.display");
    assert_eq!(display.entities.len(), 2);
    assert_eq!(display.entities[0].id.to_string(), "gateway.display.dial");
    assert_eq!(display.entities[1].id.to_string(), "gateway.display.bottom");
    assert!(display
        .entities
        .iter()
        .all(|e| e.entity_type == EntityType::Actuator(ActuatorType::DisplayRegion)));

    assert_eq!(config.bindings.len(), 1);
    assert_eq!(config.bindings[0].source.to_string(), "gateway.rpm");
    assert_eq!(
        config.bindings[0].target.to_string(),
        "gateway.display.dial"
    );
}

#[test]
fn binding_may_target_zone_but_not_the_panel_itself() {
    let mut raw = valid();
    raw.bindings = vec![bound("gateway.rpm", "gateway.display")];
    assert!(matches!(
        parse(raw),
        Err(ConfigError::UnknownBindingTarget(id)) if id.to_string() == "gateway.display"
    ));
}

#[test]
fn invalid_zone_layout_is_a_config_error() {
    // Second zone moved up so it overlaps the first.
    let mut raw = valid();
    raw.devices[0].entities[1] = display_entity(30);
    assert!(matches!(
        parse(raw),
        Err(ConfigError::InvalidDriverConfig { entity, message })
            if entity.to_string() == "gateway.display" && message.contains("overlap")
    ));
}

#[test]
fn rejects_unknown_driver_kind() {
    let mut raw = valid();
    raw.devices[0].entities[0].driver = "quantum_counter".to_owned();
    assert!(matches!(
        parse(raw),
        Err(ConfigError::UnknownDriverKind { kind, .. }) if kind == "quantum_counter"
    ));
}

#[test]
fn rejects_duplicate_entity_ids() {
    let mut raw = valid();
    raw.devices[0].entities[1].id = "rpm".to_owned();
    assert!(matches!(
        parse(raw),
        Err(ConfigError::DuplicateEntity(id)) if id.to_string() == "gateway.rpm"
    ));
}

#[test]
fn rejects_binding_to_missing_entity() {
    let mut raw = valid();
    raw.bindings = vec![bound("gateway.rpm", "gateway.ghost.dial")];
    assert!(matches!(
        parse(raw),
        Err(ConfigError::UnknownBindingTarget(_))
    ));
}

#[test]
fn rejects_binding_with_swapped_domains() {
    let mut raw = valid();
    raw.bindings = vec![bound("gateway.display.dial", "gateway.rpm")];
    assert!(matches!(
        parse(raw),
        Err(ConfigError::BindingSourceNotSensor(_))
    ));
}

#[test]
fn invalid_and_duplicate_device_ids_are_config_errors() {
    let mut raw = valid();
    raw.devices[0].id = "Gateway".to_owned();
    assert_eq!(
        parse(raw).unwrap_err(),
        ConfigError::Id(IdParseError::InvalidId("Gateway".to_owned()))
    );

    let mut raw = valid();
    raw.devices.push(RawDevice {
        id: "gateway".to_owned(),
        name: None,
        entities: vec![],
    });
    assert_eq!(
        parse(raw).unwrap_err(),
        ConfigError::DuplicateDevice("gateway".to_owned())
    );

    let mut raw = valid();
    raw.devices[0].entities[0].id = "r-pm".to_owned();
    assert_eq!(
        parse(raw).unwrap_err(),
        ConfigError::Id(IdParseError::InvalidId("r-pm".to_owned()))
    );
}

#[test]
fn a_zone_may_not_take_the_id_of_another_entity() {
    // `display.dial` as an entity of its own, declared before and after the panel.
    let mut taken = rpm_entity();
    taken.id = "display.dial".to_owned();
    for at in [0, 2] {
        let mut raw = valid();
        let mut other = rpm_entity();
        other.id = taken.id.clone();
        raw.devices[0].entities.insert(at, other);
        assert_eq!(
            parse(raw).unwrap_err(),
            ConfigError::DuplicateEntity(id("gateway.display.dial"))
        );
    }
}

#[test]
fn the_same_entity_id_on_another_device_is_fine_and_names_default_to_ids() {
    let mut raw = valid();
    raw.devices.push(RawDevice {
        id: "phone".to_owned(),
        name: None,
        entities: vec![rpm_entity()],
    });
    let config = parse(raw).unwrap();
    assert_eq!(config.devices[1].name, "phone");
    assert_eq!(config.driver_specs[2].instance_id, "phone.rpm");
}

#[test]
fn unknown_and_misplaced_binding_ends_are_told_apart() {
    let error = |source: &str, target: &str| {
        let mut raw = valid();
        raw.bindings.push(bound(source, target));
        parse(raw).unwrap_err()
    };
    assert_eq!(
        error("gateway.ghost", "gateway.display.dial"),
        ConfigError::UnknownBindingSource(id("gateway.ghost"))
    );
    assert_eq!(
        error("gateway.rpm", "gateway.rpm"),
        ConfigError::BindingTargetNotActuator(id("gateway.rpm"))
    );
}

#[test]
fn a_document_that_cannot_be_read_is_a_driver_config_error() {
    let mut raw = valid();
    raw.devices[0].entities[1].driver_config.ssd1306 = Err("missing field `i2c_sda`".to_owned());
    assert_eq!(
        parse(raw).unwrap_err(),
        ConfigError::InvalidDriverConfig {
            entity: id("gateway.display"),
            message: "missing field `i2c_sda`".to_owned()
        }
    );
    // A kind that does not expand never reads the display documents.
    let mut raw = valid();
    raw.devices[0].entities[1].driver = "pulse_counter".to_owned();
    raw.bindings.clear();
    let config = parse(raw).unwrap();
    assert_eq!(config.driver_specs[1].entities[0].id, id("gateway.display"));
}

#[test]
fn accepted_specs_start_up_to_the_hardware() {
    let config = parse(valid()).unwrap();
    let palette = firmware::drivers::display::widgets::WidgetPalette {
        foreground: 1u8,
        background: 0u8,
        dim: 1u8,
    };
    let now = Instant::at(Duration::from_secs(3));
    let counter = pulse_counter::factory(&config.driver_specs[0], now).unwrap();
    assert_eq!(counter.entity_id, id("gateway.rpm"));
    let display = ssd1306_display::factory(&config.driver_specs[1], palette).unwrap();
    assert_eq!(display.instance_id(), "gateway.display");
    assert_eq!(display.entities().len(), 2);
    assert_eq!(display.compositor.zones.len(), 2);
    assert_eq!(display.compositor.zones[1].rect.top_left.y, 40);
    assert_eq!(display.compositor.render_interval.as_millis(), 80);
    assert!(display.compositor.scratch.is_none());
}

#[test]
fn messages_of_config_errors() {
    for (error, message) in [
        (
            ConfigError::Json("expected value".to_owned()),
            "config is not valid JSON: expected value",
        ),
        (
            ConfigError::from(IdParseError::InvalidId("A".to_owned())),
            "invalid id 'A': ids must match [a-z][a-z0-9_]*",
        ),
        (
            ConfigError::DuplicateDevice("g".to_owned()),
            "duplicate device id 'g'",
        ),
        (
            ConfigError::DuplicateEntity(id("g.e")),
            "duplicate entity id 'g.e'",
        ),
        (
            ConfigError::UnknownDriverKind {
                entity: id("g.e"),
                kind: "k".to_owned(),
            },
            "entity 'g.e' uses unknown driver kind 'k'",
        ),
        (
            ConfigError::InvalidDriverConfig {
                entity: id("g.e"),
                message: "m".to_owned(),
            },
            "invalid driver config for entity 'g.e': m",
        ),
        (
            ConfigError::DomainMismatch {
                entity: id("g.e"),
                declared: "sensor",
                kind: "k".to_owned(),
            },
            "entity 'g.e' declares domain 'sensor' but driver kind 'k' cannot provide it",
        ),
        (
            ConfigError::UnknownBindingSource(id("g.e")),
            "binding source 'g.e' does not refer to a configured entity",
        ),
        (
            ConfigError::UnknownBindingTarget(id("g.e")),
            "binding target 'g.e' does not refer to a configured entity",
        ),
        (
            ConfigError::BindingSourceNotSensor(id("g.e")),
            "binding source 'g.e' is not a sensor entity",
        ),
        (
            ConfigError::BindingTargetNotActuator(id("g.e")),
            "binding target 'g.e' is not an actuator entity",
        ),
    ] {
        assert_eq!(error.message(), message);
    }
    assert_eq!(
        AppError::from(ConfigError::DuplicateDevice("g".to_owned())).message(),
        "configuration error: duplicate device id 'g'"
    );
    assert_eq!(
        AppError::from(DriverError::UnknownKind("k".to_owned())).message(),
        "driver error: unknown driver kind 'k'"
    );
    assert_eq!(
        AppError::from(BindingError::UnknownSource(id("g.e"))).message(),
        "binding error: binding source 'g.e' is not a known sensor entity"
    );
}

#[test]
fn accepted_bindings_are_known_to_the_gateway() {
    let mut raw = valid();
    raw.bindings
        .push(bound("gateway.rpm", "gateway.display.bottom"));
    let config = parse(raw).unwrap();
    let drivers: Vec<Vec<Entity>> = config
        .driver_specs
        .iter()
        .map(|spec| spec.entities.clone())
        .collect();
    let mut gateway = Gateway::new(&drivers, config.bindings).unwrap();
    let commands = gateway.commands(Instant::at(Duration::from_secs(1)));
    assert_eq!(commands.len(), 2);
    assert!(commands.iter().all(|c| c.driver == Some(1)));

    // Two bindings onto one zone pass validation; the engine refuses them.
    let mut raw = valid();
    raw.bindings
        .push(bound("gateway.rpm", "gateway.display.dial"));
    let config = parse(raw).unwrap();
    assert_eq!(
        Gateway::new(&drivers, config.bindings).map(|_| ()),
        Err(BindingError::DuplicateTarget(id("gateway.display.dial")))
    );
}

#[test]
fn no_entity_takes_the_address_of_another_instance() {
    // The panel's own address is not exposed, but it is taken.
    let mut raw = valid();
    let mut other = rpm_entity();
    other.id = "display".to_owned();
    raw.devices[0].entities.push(other);
    assert_eq!(
        parse(raw).unwrap_err(),
        ConfigError::DuplicateEntity(id("gateway.display"))
    );
}

#[test]
fn copies_of_an_accepted_config_are_equal_and_independent() {
    let config = parse(valid()).unwrap();
    let mut copy = config.clone();
    assert_eq!(copy, config);
    assert_eq!(copy.driver_specs[0].config.value["pin"], 4);
    copy.driver_specs[1]
        .config
        .ssd1306
        .as_mut()
        .unwrap()
        .layout
        .clear();
    copy.driver_specs[0].config.value = serde_json::Value::Null;
    assert_ne!(copy, config);
    assert_eq!(config.driver_specs[0].config.value["pin"], 4);
}
