//! Driver kinds, driver instance specs, and the decisions of the built-in drivers.
//!
//! A *driver* implements how an entity type is actually produced or controlled.
//! The rest of the system (main loop, bindings) only ever sees readings, commands
//! and entity ids, never a concrete driver.

pub mod display;
pub mod hw;
pub mod ili9341_display;
pub mod pulse_counter;
pub mod registry;
pub mod ssd1306_display;

use vstd::prelude::*;

use crate::drivers::display::layout::{
    expanded_zones, layout_fault, validate_layout, yields, zone_entities, ZoneConfig,
};
use crate::drivers::display::rotated_size;
use crate::drivers::ili9341_display::{panel_fault, Ili9341Config};
use crate::drivers::pulse_counter::PulseCounterConfig;
use crate::drivers::ssd1306_display::{module_fault, Ssd1306Config};
use crate::entities::{
    clone_entities, entity_views, ActuatorType, Entity, EntityId, EntityType, EntityView,
    SensorValue,
};
use crate::text::str_eq;

verus! {

/// Driver kind names as used in the config's `driver` field.
pub const PULSE_COUNTER_KIND: &'static str = "pulse_counter";

pub const SSD1306_DISPLAY_KIND: &'static str = "ssd1306_display";

pub const ILI9341_DISPLAY_KIND: &'static str = "ili9341_display";

/// All built-in driver kinds. The config validation layer takes the known kinds
/// as a parameter; this constant is the canonical list callers pass in.
pub const BUILTIN_DRIVER_KINDS: [&'static str; 3] = [
    PULSE_COUNTER_KIND,
    SSD1306_DISPLAY_KIND,
    ILI9341_DISPLAY_KIND,
];

/// `serde_json::Value`, carried from the document to the driver unread.
#[verifier::external_type_specification]
#[verifier::external_body]
pub struct ExValue(serde_json::Value);

/// A driver's own configuration: the document as written, and how each built-in
/// driver reads it (the reader's message where it does not have the driver's
/// shape).
#[derive(Debug, PartialEq)]
pub struct DriverDocument {
    pub value: serde_json::Value,
    pub pulse_counter: Result<PulseCounterConfig, String>,
    pub ssd1306: Result<Ssd1306Config, String>,
    pub ili9341: Result<Ili9341Config, String>,
}

/// `Value::clone` of serde_json, as derived: a deep copy, which is the same JSON
/// value.
pub assume_specification [<serde_json::Value as std::clone::Clone>::clone] (
    value: &serde_json::Value,
) -> (copy: serde_json::Value)
    ensures
        copy == *value,
;

impl DriverDocument {
    /// Whether two documents say the same, and every driver reads the same in
    /// them.
    pub open spec fn same_as(self, other: Self) -> bool {
        &&& self.value == other.value
        &&& self.pulse_counter == other.pulse_counter
        &&& match (self.ssd1306, other.ssd1306) {
            (Ok(a), Ok(b)) => a.same_as(b),
            (Err(a), Err(b)) => a == b,
            _ => false,
        }
        &&& match (self.ili9341, other.ili9341) {
            (Ok(a), Ok(b)) => a.same_as(b),
            (Err(a), Err(b)) => a == b,
            _ => false,
        }
    }
}

impl Clone for DriverDocument {
    fn clone(&self) -> (copy: Self)
        ensures
            copy.same_as(*self),
    {
        DriverDocument {
            value: self.value.clone(),
            pulse_counter: match &self.pulse_counter {
                Ok(config) => Ok(*config),
                Err(message) => Err(message.clone()),
            },
            ssd1306: match &self.ssd1306 {
                Ok(config) => Ok(config.clone()),
                Err(message) => Err(message.clone()),
            },
            ili9341: match &self.ili9341 {
                Ok(config) => Ok(config.clone()),
                Err(message) => Err(message.clone()),
            },
        }
    }
}

/// Everything the runtime needs to instantiate one driver instance, produced by
/// config validation. Target-independent: contains no hardware handles.
#[derive(Debug, PartialEq)]
pub struct DriverSpec {
    /// Unique instance id; currently the address of the entity it backs.
    pub instance_id: String,
    /// Driver kind (`pulse_counter`, ...), resolved via the registry.
    pub kind: String,
    /// The entities this instance must expose. One for simple drivers; display
    /// drivers list one per zone.
    pub entities: Vec<Entity>,
    /// Driver-specific configuration.
    pub config: DriverDocument,
}

/// The contents of a [`DriverSpec`].
#[verifier::ext_equal]
pub struct DriverSpecView {
    pub instance_id: Seq<char>,
    pub kind: Seq<char>,
    pub entities: Seq<EntityView>,
    pub config: DriverDocument,
}

impl View for DriverSpec {
    type V = DriverSpecView;

    open spec fn view(&self) -> DriverSpecView {
        DriverSpecView {
            instance_id: self.instance_id@,
            kind: self.kind@,
            entities: entity_views(self.entities@),
            config: self.config,
        }
    }
}

impl DriverSpec {
    /// Whether two specs describe the same instance.
    pub open spec fn same_as(self, other: Self) -> bool {
        &&& self.instance_id == other.instance_id
        &&& self.kind == other.kind
        &&& self.entities@ == other.entities@
        &&& self.config.same_as(other.config)
    }
}

impl Clone for DriverSpec {
    fn clone(&self) -> (copy: Self)
        ensures
            copy.same_as(*self),
    {
        DriverSpec {
            instance_id: self.instance_id.clone(),
            kind: self.kind.clone(),
            entities: clone_entities(&self.entities),
            config: self.config.clone(),
        }
    }
}

/// One fresh sensor reading.
#[derive(Debug, PartialEq)]
pub struct Reading {
    pub entity: EntityId,
    pub value: SensorValue,
}

impl Clone for Reading {
    fn clone(&self) -> (copy: Self)
        ensures
            copy == *self,
    {
        Reading { entity: self.entity.clone(), value: self.value }
    }
}

/// The entities of a display of the given size: its zones, if the layout can be
/// shown on it.
pub open spec fn display_entities(
    declared: EntityView,
    layout: Seq<ZoneConfig>,
    size: (u32, u32),
) -> Result<Seq<EntityView>, Seq<char>> {
    match layout_fault(layout, size.0, size.1) {
        Some(message) => Err(message),
        None => expanded_zones(declared, layout),
    }
}

/// The entities that a driver of a kind exposes for a declared entity.
pub open spec fn exposed_entities(
    kind: Seq<char>,
    declared: EntityView,
    config: DriverDocument,
) -> Result<Seq<EntityView>, Seq<char>> {
    if kind == SSD1306_DISPLAY_KIND@ {
        match config.ssd1306 {
            Err(message) => Err(message@),
            Ok(c) => match module_fault(c) {
                Some(message) => Err(message),
                None => display_entities(
                    declared,
                    c.layout@,
                    rotated_size(c.rotation, c.width, c.height),
                ),
            },
        }
    } else if kind == ILI9341_DISPLAY_KIND@ {
        match config.ili9341 {
            Err(message) => Err(message@),
            Ok(c) => match panel_fault(c) {
                Some(message) => Err(message),
                None => display_entities(
                    declared,
                    c.layout@,
                    rotated_size(c.rotation, c.width, c.height),
                ),
            },
        }
    } else {
        Ok(seq![declared])
    }
}

fn expand_display(declared: &Entity, layout: &Vec<ZoneConfig>, size: (u32, u32)) -> (made: Result<
    Vec<Entity>,
    String,
>)
    ensures
        yields(made, display_entities(declared@, layout@, size)),
{
    match validate_layout(layout.as_slice(), size.0, size.1) {
        Err(message) => Err(message),
        Ok(_) => zone_entities(declared, layout.as_slice()),
    }
}

/// A driver's entity count is generally config-driven, not fixed at 1
/// (config-partitioned actuators like display zones). Given the entity as
/// declared in config, this returns the entities the driver will actually expose;
/// config validation calls it so bindings against derived entities (e.g.
/// `gateway.display.top`) validate without hardware.
///
/// Errors are human-readable messages for the config layer to wrap with entity
/// context.
pub fn expand_entities(kind: &str, declared: &Entity, driver_config: &DriverDocument) -> (made:
    Result<Vec<Entity>, String>)
    ensures
        yields(made, exposed_entities(kind@, declared@, *driver_config)),
{
    if str_eq(kind, SSD1306_DISPLAY_KIND) {
        match ssd1306_display::parse_config(&driver_config.ssd1306) {
            Err(message) => Err(message),
            Ok(config) => expand_display(declared, &config.layout, config.dimensions()),
        }
    } else if str_eq(kind, ILI9341_DISPLAY_KIND) {
        match ili9341_display::parse_config(&driver_config.ili9341) {
            Err(message) => Err(message),
            Ok(config) => expand_display(declared, &config.layout, config.dimensions()),
        }
    } else {
        let mut entities: Vec<Entity> = Vec::new();
        entities.push(declared.clone());
        assert(entity_views(entities@) =~= seq![declared@]);
        Ok(entities)
    }
}

/// A copied spec is as good as its model: the same entities are exposed for it,
/// and the same factories accept it.
pub proof fn law_copied_specs_behave_alike(
    copy: DriverSpec,
    model: DriverSpec,
    kind: Seq<char>,
    declared: EntityView,
)
    requires
        copy.same_as(model),
    ensures
        exposed_entities(kind, declared, copy.config) == exposed_entities(
            kind,
            declared,
            model.config,
        ),
        pulse_counter::factory_fault(copy) == pulse_counter::factory_fault(model),
        ssd1306_display::factory_fault(copy) == ssd1306_display::factory_fault(model),
        ili9341_display::factory_fault(copy) == ili9341_display::factory_fault(model),
{
}

/// A driver that is not one of a display exposes the declared entity, as declared, and
/// no other, whatever its configuration.
pub proof fn law_plain_drivers_expose_what_is_declared(
    kind: Seq<char>,
    declared: EntityView,
    config: DriverDocument,
)
    requires
        kind != "ssd1306_display"@,
        kind != "ili9341_display"@,
    ensures
        exposed_entities(kind, declared, config) matches Ok(entities) && entities.len() == 1
            && entities[0] == declared,
{
}

/// A display exposes entities exactly if its configuration was read, states sound facts
/// of the hardware and a layout that fits the rotated panel, and the entity is declared
/// as a panel with a valid id; then one entity per zone.
pub proof fn law_displays_expose_their_zones(declared: EntityView, config: DriverDocument)
    requires
        crate::entities::id::valid_local_id(declared.id.entity),
    ensures
        ({
            let panel = declared.entity_type == EntityType::Actuator(ActuatorType::DisplayPanel);
            let exposed = exposed_entities("ssd1306_display"@, declared, config);
            &&& exposed is Ok <==> panel && match config.ssd1306 {
                Ok(c) => {
                    let size = rotated_size(c.rotation, c.width, c.height);
                    module_fault(c) is None && layout_fault(c.layout@, size.0, size.1) is None
                },
                Err(_) => false,
            }
            &&& exposed matches Ok(entities) ==> entities.len()
                == config.ssd1306->Ok_0.layout@.len()
        }),
        ({
            let panel = declared.entity_type == EntityType::Actuator(ActuatorType::DisplayPanel);
            let exposed = exposed_entities("ili9341_display"@, declared, config);
            &&& exposed is Ok <==> panel && match config.ili9341 {
                Ok(c) => {
                    let size = rotated_size(c.rotation, c.width, c.height);
                    panel_fault(c) is None && layout_fault(c.layout@, size.0, size.1) is None
                },
                Err(_) => false,
            }
            &&& exposed matches Ok(entities) ==> entities.len()
                == config.ili9341->Ok_0.layout@.len()
        }),
{
    reveal_strlit("ssd1306_display");
    reveal_strlit("ili9341_display");
    assert("ssd1306_display"@[0] != "ili9341_display"@[0]);
    if let Ok(c) = config.ssd1306 {
        let size = rotated_size(c.rotation, c.width, c.height);
        lemma_accepted_panels_expand(declared, c.layout@, size);
    }
    if let Ok(c) = config.ili9341 {
        let size = rotated_size(c.rotation, c.width, c.height);
        lemma_accepted_panels_expand(declared, c.layout@, size);
    }
}

proof fn lemma_accepted_panels_expand(
    declared: EntityView,
    layout: Seq<ZoneConfig>,
    size: (u32, u32),
)
    requires
        crate::entities::id::valid_local_id(declared.id.entity),
    ensures
        display_entities(declared, layout, size) is Ok <==> declared.entity_type
            == EntityType::Actuator(ActuatorType::DisplayPanel) && layout_fault(
            layout,
            size.0,
            size.1,
        ) is None,
        display_entities(declared, layout, size) matches Ok(entities) ==> entities.len()
            == layout.len(),
{
    if layout_fault(layout, size.0, size.1) is None && declared.entity_type == EntityType::Actuator(
        ActuatorType::DisplayPanel,
    ) {
        display::layout::law_accepted_layouts_are_valid(layout, size.0, size.1);
        display::layout::law_valid_layouts_expand(declared, layout, size.0, size.1);
    }
}

/// A copy of a driver's configuration has everything that the model has.
pub proof fn law_copied_configurations_are_complete(
    a: Ssd1306Config,
    b: Ssd1306Config,
    c: Ili9341Config,
    d: Ili9341Config,
)
    ensures
        a.same_as(b) <==> {
            &&& a.i2c_sda == b.i2c_sda
            &&& a.i2c_scl == b.i2c_scl
            &&& a.address == b.address
            &&& a.baudrate_hz == b.baudrate_hz
            &&& a.width == b.width
            &&& a.height == b.height
            &&& a.rotation == b.rotation
            &&& a.render_interval_ms == b.render_interval_ms
            &&& a.layout@ == b.layout@
        },
        c.same_as(d) <==> {
            &&& c.spi_sck == d.spi_sck
            &&& c.spi_mosi == d.spi_mosi
            &&& c.spi_cs == d.spi_cs
            &&& c.spi_dc == d.spi_dc
            &&& c.spi_rst == d.spi_rst
            &&& c.baudrate_hz == d.baudrate_hz
            &&& c.width == d.width
            &&& c.height == d.height
            &&& c.offset_x == d.offset_x
            &&& c.offset_y == d.offset_y
            &&& c.rotation == d.rotation
            &&& c.mirrored == d.mirrored
            &&& c.render_interval_ms == d.render_interval_ms
            &&& c.layout@ == d.layout@
        },
{
}

/// A copy of a spec names the same instance, kind and entities, and holds the same
/// document, read in the same way by every driver.
pub proof fn law_copied_specs_are_complete(copy: DriverSpec, model: DriverSpec)
    requires
        copy.same_as(model),
    ensures
        copy.instance_id@ == model.instance_id@,
        copy.kind@ == model.kind@,
        copy.entities@ == model.entities@,
        copy.config.value == model.config.value,
        copy.config.pulse_counter == model.config.pulse_counter,
        copy.config.ssd1306 is Ok <==> model.config.ssd1306 is Ok,
        copy.config.ssd1306 is Ok ==> copy.config.ssd1306->Ok_0.same_as(
            model.config.ssd1306->Ok_0,
        ),
        copy.config.ssd1306 is Err ==> copy.config.ssd1306->Err_0 == model.config.ssd1306->Err_0,
        copy.config.ili9341 is Ok <==> model.config.ili9341 is Ok,
        copy.config.ili9341 is Ok ==> copy.config.ili9341->Ok_0.same_as(
            model.config.ili9341->Ok_0,
        ),
        copy.config.ili9341 is Err ==> copy.config.ili9341->Err_0 == model.config.ili9341->Err_0,
{
}

/// What is said of a spec leaves nothing of it out.
pub proof fn law_specs_are_told_in_full(spec: DriverSpec)
    ensures
        spec@.instance_id == spec.instance_id@,
        spec@.kind == spec.kind@,
        spec@.entities == entity_views(spec.entities@),
        spec@.config == spec.config,
{
}

/// Entities are made exactly as expected: those, or the very message that there are none.
pub proof fn law_expansions_are_told_in_full(
    entities: Vec<Entity>,
    message: String,
    expected: Result<Seq<EntityView>, Seq<char>>,
)
    ensures
        yields(Ok(entities), expected) <==> expected is Ok && expected->Ok_0 == entity_views(
            entities@,
        ),
        yields(Err(message), expected) <==> expected is Err && expected->Err_0 == message@,
{
}

} // verus!
