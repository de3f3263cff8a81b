use firmware::drivers::hw::{HardwarePool, ESP_ERR_NOT_FOUND};
use firmware::drivers::pulse_counter::{
    self, CountedWindow, PollAction, PollEvent, PulseCounterConfig,
};
use firmware::drivers::registry::DriverRegistry;
use firmware::drivers::{DriverDocument, DriverSpec, Reading, BUILTIN_DRIVER_KINDS};
use firmware::entities::{ActuatorType, Entity, EntityType, SensorType, SensorValue};
use firmware::error::DriverError;
use firmware::ieee::Binary64;
use firmware::time::{Duration, Instant};

fn conflict(message: &str) -> DriverError {
    DriverError::ResourceConflict(message.to_owned())
}

#[test]
fn a_pin_is_handed_out_once() {
    let mut pool = HardwarePool::new();
    assert_eq!(pool.claim_pin(4), Ok(4));
    assert_eq!(
        pool.claim_pin(4),
        Err(conflict("GPIO 4 is already in use by another entity"))
    );
    assert_eq!(pool.claim_pin(39), Ok(39));
    assert_eq!(pool.claim_pin(0), Ok(0));
    assert_eq!(
        pool.claim_pin(40),
        Err(conflict("GPIO 40 does not exist on the ESP32"))
    );
    assert_eq!(
        pool.claim_pin(-1),
        Err(conflict("GPIO -1 does not exist on the ESP32"))
    );
    assert_eq!(
        pool.claim_pin(i32::MIN),
        Err(conflict("GPIO -2147483648 does not exist on the ESP32"))
    );
    assert_eq!(
        pool.claim_pin(260),
        Err(conflict("GPIO 260 does not exist on the ESP32"))
    );
}

#[test]
fn a_controller_is_handed_out_once() {
    let mut pool = HardwarePool::new();
    assert_eq!(pool.claim_i2c(21, 22), Ok((21, 22)));
    assert_eq!(
        pool.claim_i2c(25, 26),
        Err(conflict("I2C0 is already in use"))
    );
    assert_eq!(pool.claim_spi(18, 23, 15), Ok((18, 23, 15)));
    assert_eq!(
        pool.claim_spi(1, 2, 3),
        Err(conflict("SPI2 is already in use"))
    );
    // The pins of a failed claim stay claimed.
    for pin in [25, 26, 1, 2, 3] {
        assert!(pool.claim_pin(pin).is_err());
    }
}

#[test]
fn a_bus_needs_pins_of_its_own() {
    let mut pool = HardwarePool::new();
    assert_eq!(
        pool.claim_i2c(21, 21),
        Err(conflict("GPIO 21 is already in use by another entity"))
    );
    assert_eq!(
        pool.claim_spi(5, 99, 6),
        Err(conflict("GPIO 99 does not exist on the ESP32"))
    );
    // Neither controller was taken, nor the pin after the one that failed.
    assert_eq!(pool.claim_i2c(22, 23), Ok((22, 23)));
    assert_eq!(pool.claim_spi(6, 7, 8), Ok((6, 7, 8)));
}

#[test]
fn running_out_of_counting_units_is_a_conflict() {
    let mut pool = HardwarePool::new();
    assert_eq!(pool.claim_pcnt_unit(Ok::<u8, (i32, String)>(3)), Ok(3));
    assert_eq!(
        pool.claim_pcnt_unit::<u8>(Err((ESP_ERR_NOT_FOUND, "ESP_ERR_NOT_FOUND".to_owned()))),
        Err(conflict("all PCNT units are already in use"))
    );
    let other = pool
        .claim_pcnt_unit::<u8>(Err((258, "ESP_ERR_INVALID_ARG".to_owned())))
        .unwrap_err();
    assert_eq!(
        other,
        DriverError::Esp {
            code: 258,
            description: "ESP_ERR_INVALID_ARG".to_owned()
        }
    );
    assert_eq!(other.message(), "esp-idf error: ESP_ERR_INVALID_ARG");
}

#[test]
fn messages_of_driver_errors() {
    assert_eq!(
        conflict("x").message(),
        "hardware resource conflict: x"
    );
    assert_eq!(
        DriverError::Display("y".to_owned()).message(),
        "display error: y"
    );
    assert_eq!(
        DriverError::UnsupportedCommand {
            instance: "i".to_owned(),
            entity: "g.e".parse().unwrap()
        }
        .message(),
        "driver instance 'i' cannot handle command for 'g.e'"
    );
}

fn document(config: PulseCounterConfig) -> DriverDocument {
    DriverDocument {
        value: serde_json::Value::Null,
        pulse_counter: Ok(config),
        ssd1306: Err("no display".to_owned()),
        ili9341: Err("no display".to_owned()),
    }
}

fn config() -> PulseCounterConfig {
    PulseCounterConfig {
        pin: 4,
        pulses_per_revolution: pulse_counter::default_pulses_per_revolution(),
        sample_window_ms: pulse_counter::default_sample_window_ms(),
        meters_per_revolution: None,
    }
}

fn entity(entity_type: EntityType) -> Entity {
    Entity {
        id: "gateway.rpm".parse().unwrap(),
        entity_type,
        name: None,
    }
}

fn spec(config: PulseCounterConfig, entities: Vec<Entity>) -> DriverSpec {
    DriverSpec {
        instance_id: "gateway.rpm".to_owned(),
        kind: "pulse_counter".to_owned(),
        entities,
        config: document(config),
    }
}

fn at(millis: u64) -> Instant {
    Instant::at(Duration::from_millis(9_000 + millis))
}

const RPM: EntityType = EntityType::Sensor(SensorType::Rpm);
const SPEED: EntityType = EntityType::Sensor(SensorType::Speed);

#[test]
fn a_pulse_counter_checks_its_spec() {
    let error = |spec: DriverSpec| match pulse_counter::factory(&spec, at(0)) {
        Err(DriverError::InvalidConfig { instance, message }) => {
            assert_eq!(instance, "gateway.rpm");
            message
        }
        other => panic!("{other:?}"),
    };
    let mut unread = spec(config(), vec![entity(RPM)]);
    unread.config.pulse_counter = Err("missing field `pin`".to_owned());
    assert_eq!(error(unread), "missing field `pin`");
    let mut c = config();
    c.pulses_per_revolution = 0;
    assert_eq!(
        error(spec(c, vec![entity(RPM)])),
        "pulses_per_revolution must be >= 1"
    );
    let mut c = config();
    c.sample_window_ms = 0;
    assert_eq!(
        error(spec(c, vec![entity(RPM)])),
        "sample_window_ms must be >= 1"
    );
    assert_eq!(
        error(spec(config(), vec![])),
        "pulse_counter exposes exactly one entity, got 0"
    );
    assert_eq!(
        error(spec(config(), vec![entity(RPM), entity(RPM)])),
        "pulse_counter exposes exactly one entity, got 2"
    );
    assert_eq!(
        error(spec(
            config(),
            vec![entity(EntityType::Actuator(ActuatorType::AudioPlayer))]
        )),
        "pulse_counter cannot provide actuator entity 'gateway.rpm'"
    );
    assert_eq!(
        error(spec(config(), vec![entity(SPEED)])),
        "meters_per_revolution is required for a 'speed' entity"
    );
    let mut c = config();
    c.meters_per_revolution = Some(Binary64::from_bits(1.9f64.to_bits()));
    let driver = pulse_counter::factory(&spec(c, vec![entity(SPEED)]), at(0)).unwrap();
    assert_eq!(driver.output, SensorType::Speed);
    assert_eq!(driver.instance_id(), "gateway.rpm");
    assert_eq!(driver.entities(), &[entity(SPEED)]);
}

#[test]
fn a_pulse_counter_reads_once_per_window() {
    let mut driver = pulse_counter::factory(&spec(config(), vec![entity(RPM)]), at(0)).unwrap();
    assert_eq!(
        driver.poll(PollEvent::Start(at(499))),
        PollAction::Finish(Ok(vec![]))
    );
    assert_eq!(
        driver.poll(PollEvent::Start(at(512))),
        PollAction::ReadCounter
    );
    assert_eq!(
        driver.poll(PollEvent::Counted {
            now: at(512),
            count: 17
        }),
        PollAction::Convert(CountedWindow {
            pulses: 17,
            millis: 512
        })
    );
    assert_eq!(
        driver.poll(PollEvent::Converted(SensorValue::Rpm(1992))),
        PollAction::Finish(Ok(vec![Reading {
            entity: "gateway.rpm".parse().unwrap(),
            value: SensorValue::Rpm(1992)
        }]))
    );
    // The next window starts where this one was closed.
    assert_eq!(
        driver.poll(PollEvent::Start(at(1011))),
        PollAction::Finish(Ok(vec![]))
    );
    assert_eq!(
        driver.poll(PollEvent::Start(at(1012))),
        PollAction::ReadCounter
    );
    // A counter below zero counts as none, and a failed read keeps the window.
    assert_eq!(
        driver.poll(PollEvent::CounterFailed(conflict("x"))),
        PollAction::Finish(Err(conflict("x")))
    );
    assert_eq!(driver.window_start, at(512));
    assert_eq!(
        driver.poll(PollEvent::Counted {
            now: at(1100),
            count: -3
        }),
        PollAction::Convert(CountedWindow {
            pulses: 0,
            millis: 588
        })
    );
}

#[test]
fn the_registry_knows_the_builtins_and_what_is_registered_since() {
    let mut registry = DriverRegistry::with_builtins(1u8, 2u8, 3u8);
    let of_kind = |kind: &str| {
        let mut spec = spec(config(), vec![]);
        spec.kind = kind.to_owned();
        spec
    };
    for (kind, factory) in BUILTIN_DRIVER_KINDS.into_iter().zip([1u8, 2, 3]) {
        assert_eq!(registry.instantiate(&of_kind(kind)), Ok(&factory));
    }
    assert_eq!(
        registry.instantiate(&of_kind("quantum_counter")),
        Err(DriverError::UnknownKind("quantum_counter".to_owned()))
    );
    registry.register("quantum_counter", 4);
    registry.register("pulse_counter", 5);
    assert_eq!(registry.instantiate(&of_kind("quantum_counter")), Ok(&4));
    assert_eq!(registry.instantiate(&of_kind("pulse_counter")), Ok(&5));
    assert_eq!(registry.instantiate(&of_kind("ssd1306_display")), Ok(&2));
}
