use firmware::drivers::display::layout::ZoneConfig;
use firmware::drivers::display::widgets::{ArcGaugeStyle, WidgetConfig, WidgetPalette};
use firmware::drivers::display::{
    default_render_interval_ms, turn_of, validate_rotation, Turn,
};
use firmware::drivers::ili9341_display::{self, Ili9341Config, NATIVE_HEIGHT, NATIVE_WIDTH};
use firmware::drivers::ssd1306_display::{self, Ssd1306Config, SUPPORTED_SIZES};
use firmware::drivers::{expand_entities, DriverDocument, DriverSpec};
use firmware::entities::{ActuatorType, Entity, EntityType, SensorType};
use firmware::error::DriverError;
use firmware::ieee::Binary64;

fn number(x: f64) -> Binary64 {
    Binary64::from_bits(x.to_bits())
}

fn dial(id: &str, width: u32, height: u32, max: f64) -> ZoneConfig {
    ZoneConfig {
        id: id.to_owned(),
        x: 0,
        y: 0,
        width,
        height,
        widget: WidgetConfig::GaugeArc {
            min: number(0.0),
            max: number(max),
            redline: None,
            style: ArcGaugeStyle::default(),
        },
    }
}

fn ili9341(rotation: u16) -> Ili9341Config {
    Ili9341Config {
        spi_sck: 18,
        spi_mosi: 23,
        spi_cs: 15,
        spi_dc: 2,
        spi_rst: 16,
        baudrate_hz: ili9341_display::default_baudrate_hz(),
        width: ili9341_display::default_width(),
        height: ili9341_display::default_height(),
        offset_x: 0,
        offset_y: 0,
        rotation,
        mirrored: false,
        render_interval_ms: default_render_interval_ms(),
        layout: vec![dial("dial", 200, 200, 500.0)],
    }
}

fn ssd1306() -> Ssd1306Config {
    Ssd1306Config {
        i2c_sda: 21,
        i2c_scl: 22,
        address: ssd1306_display::default_address(),
        baudrate_hz: ssd1306_display::default_baudrate_hz(),
        width: ssd1306_display::default_width(),
        height: ssd1306_display::default_height(),
        rotation: 0,
        render_interval_ms: default_render_interval_ms(),
        layout: vec![],
    }
}

fn read<C>(config: C) -> Result<C, String> {
    Ok(config)
}

#[test]
fn parses_full_config_and_applies_defaults() {
    let read = read(ili9341(0));
    let config = ili9341_display::parse_config(&read).unwrap();
    assert_eq!(config.spi_sck, 18);
    assert_eq!(config.baudrate_hz, 26_000_000);
    assert_eq!(config.dimensions(), (240, 320));
}

#[test]
fn rotation_swaps_dimensions() {
    for (rotation, dimensions) in [(90, (320, 240)), (180, (240, 320)), (270, (320, 240))] {
        let read = read(ili9341(rotation));
        assert_eq!(
            ili9341_display::parse_config(&read).unwrap().dimensions(),
            dimensions
        );
    }
}

#[test]
fn ili9341_display_rejects_invalid_rotation() {
    let read = read(ili9341(45));
    let err = ili9341_display::parse_config(&read).unwrap_err();
    assert!(err.contains("rotation"), "{err}");
}

#[test]
fn sub_native_panel_size_flows_into_dimensions() {
    let mut config = ili9341(90);
    config.width = 200;
    config.height = 280;
    config.offset_x = 40;
    config.offset_y = 40;
    let read = read(config);
    let config = ili9341_display::parse_config(&read).unwrap();
    assert_eq!(config.dimensions(), (280, 200), "rotated sub-native size");
}

#[test]
fn rejects_panel_area_exceeding_the_framebuffer() {
    for (width, height, offset_x, offset_y) in [
        (241, 320, 0, 0),
        (240, 321, 0, 0),
        (240, 320, 1, 0),
        (0, 320, 0, 0),
    ] {
        let mut config = ili9341(0);
        config.width = width;
        config.height = height;
        config.offset_x = offset_x;
        config.offset_y = offset_y;
        let read = read(config);
        let err = ili9341_display::parse_config(&read).unwrap_err();
        assert!(
            err.contains("framebuffer"),
            "{width}x{height}+({offset_x},{offset_y}): {err}"
        );
    }
}

#[test]
fn parses_full_config_with_layout() {
    let mut config = ssd1306();
    config.layout = vec![ZoneConfig {
        id: "top".to_owned(),
        x: 0,
        y: 0,
        width: 128,
        height: 40,
        widget: WidgetConfig::Text {
            template: "{{value}}".to_owned(),
            font: Default::default(),
            align: Default::default(),
        },
    }];
    let read = read(config);
    let config = ssd1306_display::parse_config(&read).unwrap();
    assert_eq!(config.i2c_sda, 21);
    assert_eq!(config.address, 0x3C);
    assert_eq!(config.baudrate_hz, 400_000);
    assert_eq!(config.dimensions(), (128, 64), "size defaults to 128x64");
    assert_eq!(config.render_interval_ms, 80);
    assert_eq!(config.layout.len(), 1);
}

#[test]
fn accepts_supported_module_sizes_and_rotation_swaps_dimensions() {
    let mut config = ssd1306();
    config.width = 128;
    config.height = 32;
    config.rotation = 90;
    let read = read(config);
    let config = ssd1306_display::parse_config(&read).unwrap();
    assert_eq!(config.dimensions(), (32, 128));
}

#[test]
fn rejects_unsupported_module_size() {
    let mut config = ssd1306();
    config.width = 100;
    config.height = 50;
    let read = read(config);
    let err = ssd1306_display::parse_config(&read).unwrap_err();
    assert!(err.contains("100x50"), "{err}");
    assert!(err.contains("128x64"), "should list supported sizes: {err}");
}

#[test]
fn ssd1306_display_rejects_invalid_rotation() {
    let mut config = ssd1306();
    config.rotation = 45;
    let read = read(config);
    let err = ssd1306_display::parse_config(&read).unwrap_err();
    assert!(err.contains("rotation"), "{err}");
}

#[test]
fn every_supported_size_is_accepted_and_messages_are_exact() {
    for (width, height) in SUPPORTED_SIZES {
        let mut config = ssd1306();
        config.width = width;
        config.height = height;
        let read = read(config);
        assert!(ssd1306_display::parse_config(&read).is_ok());
    }
    let mut config = ssd1306();
    config.width = 64;
    let read = read(config);
    assert_eq!(
        ssd1306_display::parse_config(&read).unwrap_err(),
        "unsupported SSD1306 module size 64x64; supported: 128x64, 128x32, 96x16, 72x40, 64x48, \
         64x32"
    );
    assert_eq!(
        validate_rotation(45).unwrap_err(),
        "rotation must be 0, 90, 180 or 270, got 45"
    );
    let mut config = ili9341(0);
    config.width = u32::MAX;
    config.offset_x = 7;
    let read = Ok(config);
    assert_eq!(
        ili9341_display::parse_config(&read).unwrap_err(),
        "panel area 4294967295x320 at offset (7, 0) does not fit the ILI9341's 240x320 framebuffer"
    );
    assert_eq!((NATIVE_WIDTH, NATIVE_HEIGHT), (240, 320));
    assert_eq!(
        ssd1306_display::parse_config(&Err("missing field `i2c_sda`".to_owned())).unwrap_err(),
        "missing field `i2c_sda`"
    );
    assert_eq!(
        ili9341_display::parse_config(&Err("unknown field `wat`".to_owned())).unwrap_err(),
        "unknown field `wat`"
    );
}

#[test]
fn rotations_are_the_four_right_angles() {
    for (rotation, turn) in [
        (0, Turn::Upright),
        (90, Turn::Quarter),
        (180, Turn::Half),
        (270, Turn::ThreeQuarters),
    ] {
        assert_eq!(validate_rotation(rotation), Ok(()));
        assert_eq!(turn_of(rotation), turn);
    }
    for rotation in [1, 45, 89, 91, 360, u16::MAX] {
        assert!(validate_rotation(rotation).is_err());
    }
}

fn document() -> DriverDocument {
    DriverDocument {
        value: serde_json::Value::Null,
        pulse_counter: Err("no pulse counter".to_owned()),
        ssd1306: Ok(Ssd1306Config {
            layout: vec![dial("dial", 64, 64, 10.0)],
            ..ssd1306()
        }),
        ili9341: Ok(ili9341(90)),
    }
}

fn panel(entity_type: EntityType) -> Entity {
    Entity {
        id: "gateway.display".parse().unwrap(),
        entity_type,
        name: Some("Dash".to_owned()),
    }
}

const PANEL: EntityType = EntityType::Actuator(ActuatorType::DisplayPanel);

#[test]
fn displays_expand_and_other_kinds_do_not() {
    for kind in ["ssd1306_display", "ili9341_display"] {
        let entities = expand_entities(kind, &panel(PANEL), &document()).unwrap();
        assert_eq!(entities.len(), 1);
        assert_eq!(entities[0].id.to_string(), "gateway.display.dial");
    }
    let rpm = panel(EntityType::Sensor(SensorType::Rpm));
    assert_eq!(
        expand_entities("pulse_counter", &rpm, &document()).unwrap(),
        vec![rpm.clone()]
    );
    assert_eq!(
        expand_entities("ssd1306_display", &rpm, &document()).unwrap_err(),
        "a partitioned display must be declared as a 'display_panel' entity, not 'rpm'"
    );
    // The layout is validated against the rotated size.
    let mut tall = document();
    tall.ili9341.as_mut().unwrap().layout[0].height = 241;
    assert_eq!(
        expand_entities("ili9341_display", &panel(PANEL), &tall).unwrap_err(),
        "zone 'dial' exceeds the 320x240 panel"
    );
}

fn spec(kind: &str) -> DriverSpec {
    DriverSpec {
        instance_id: "gateway.display".to_owned(),
        kind: kind.to_owned(),
        entities: expand_entities(kind, &panel(PANEL), &document()).unwrap(),
        config: document(),
    }
}

fn palette() -> WidgetPalette<u8> {
    WidgetPalette {
        foreground: 2,
        background: 0,
        dim: 1,
    }
}

fn invalid(message: &str) -> DriverError {
    DriverError::InvalidConfig {
        instance: "gateway.display".to_owned(),
        message: message.to_owned(),
    }
}

#[test]
fn display_factories_cross_check_their_entities() {
    let driver = ili9341_display::factory(&spec("ili9341_display"), palette()).unwrap();
    assert!(
        driver.compositor.scratch.is_some(),
        "a write-through panel is buffered"
    );
    assert_eq!(driver.compositor.palette.dim, 1);
    let driver = ssd1306_display::factory(&spec("ssd1306_display"), palette()).unwrap();
    assert!(driver.compositor.scratch.is_none());
    assert_eq!(driver.compositor.zones[0].rect.size.width, 64);

    let mut wrong = spec("ssd1306_display");
    wrong.entities.clear();
    assert_eq!(
        ssd1306_display::factory(&wrong, palette()).unwrap_err(),
        invalid("spec entities do not match the zones in the layout config")
    );
    let mut wrong = spec("ssd1306_display");
    wrong.entities[0].id = "gateway.display.other".parse().unwrap();
    assert_eq!(
        ssd1306_display::factory(&wrong, palette()).unwrap_err(),
        invalid("spec entities do not match the zones in the layout config")
    );
    let mut wrong = spec("ili9341_display");
    wrong.config.ili9341.as_mut().unwrap().layout.clear();
    assert_eq!(
        ili9341_display::factory(&wrong, palette()).unwrap_err(),
        invalid("layout must define at least one zone")
    );
    let mut wrong = spec("ili9341_display");
    wrong.config.ili9341.as_mut().unwrap().rotation = 1;
    assert_eq!(
        ili9341_display::factory(&wrong, palette()).unwrap_err(),
        invalid("rotation must be 0, 90, 180 or 270, got 1")
    );
    let mut wrong = spec("ssd1306_display");
    wrong.instance_id = "nowhere".to_owned();
    let error = ssd1306_display::factory(&wrong, palette()).unwrap_err();
    assert_eq!(
        error.message(),
        "invalid config for driver instance 'nowhere': instance id is not a valid entity address"
    );
}
