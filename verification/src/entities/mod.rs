//! Device / Entity types and `device_id.entity_id` addressing.
//!
//! Entities carry their domain (sensor / actuator) and concrete type (rpm,
//! display_panel, ...) in the type system. Bindings and any UI only ever
//! interact with entity types and entity ids, never with drivers.

pub mod contract;
pub mod id;
pub mod map;
pub mod state;

use vstd::prelude::*;

use crate::entities::contract::{kind_of, precision_of, sensor_contract, unit_of, ValueKind};
use crate::entities::id::EntityAddress;
use crate::entities::map::EntityMap;
use crate::ieee::{
    fixed_point, fixed_point_text, law_printed_digits_are_nearest, nearest_units, Binary32,
};
use crate::text::{
    all_digits, append_decimal, decimal, digits_value, law_numerals_read_back, str_eq,
};

pub use crate::entities::id::{is_valid_id, DeviceId, EntityId};

verus! {

/// The two entity domains. Sensors produce read-only data; actuators are
/// commanded.
#[derive(Debug, Clone, Copy, PartialEq, Eq, Hash, Structural)]
pub enum EntityDomain {
    Sensor,
    Actuator,
}

/// Sensor entity types. Every variant has an entry in the centralized type
/// contract registry ([`sensor_contract`]).
#[derive(Debug, Clone, Copy, PartialEq, Eq, Hash, Structural)]
pub enum SensorType {
    Rpm,
    Speed,
}

impl SensorType {
    /// Human-facing label, e.g. for display bindings.
    pub fn display_name(&self) -> (name: &'static str)
        ensures
            name@ == match *self {
                SensorType::Rpm => "RPM"@,
                SensorType::Speed => "Speed"@,
            },
    {
        match self {
            SensorType::Rpm => "RPM",
            SensorType::Speed => "Speed",
        }
    }

    /// The name used in configuration.
    pub open spec fn name(self) -> Seq<char> {
        match self {
            SensorType::Rpm => "rpm"@,
            SensorType::Speed => "speed"@,
        }
    }

    pub fn as_str(&self) -> (name: &'static str)
        ensures
            name@ == self.name(),
    {
        match self {
            SensorType::Rpm => "rpm",
            SensorType::Speed => "speed",
        }
    }
}

/// Actuator entity types.
#[derive(Debug, Clone, Copy, PartialEq, Eq, Hash, Structural)]
pub enum ActuatorType {
    /// A whole physical display, as declared in config. Drivers that
    /// partition their display into zones expose `DisplayRegion` entities
    /// instead of one entity of this type.
    DisplayPanel,
    /// One config-defined zone of a partitioned display
    /// (`gateway.display.top`); the addressable unit bindings target.
    DisplayRegion,
    AudioPlayer,
}

impl ActuatorType {
    /// The name used in configuration.
    pub open spec fn name(self) -> Seq<char> {
        match self {
            ActuatorType::DisplayPanel => "display_panel"@,
            ActuatorType::DisplayRegion => "display_region"@,
            ActuatorType::AudioPlayer => "audio_player"@,
        }
    }

    pub fn as_str(&self) -> (name: &'static str)
        ensures
            name@ == self.name(),
    {
        match self {
            ActuatorType::DisplayPanel => "display_panel",
            ActuatorType::DisplayRegion => "display_region",
            ActuatorType::AudioPlayer => "audio_player",
        }
    }
}

/// An entity's concrete type, carrying its domain structurally: a sensor
/// entity of type `display_panel` is unrepresentable.
#[derive(Debug, Clone, Copy, PartialEq, Eq, Hash, Structural)]
pub enum EntityType {
    Sensor(SensorType),
    Actuator(ActuatorType),
}

impl EntityType {
    pub open spec fn domain_of(self) -> EntityDomain {
        match self {
            EntityType::Sensor(_) => EntityDomain::Sensor,
            EntityType::Actuator(_) => EntityDomain::Actuator,
        }
    }

    pub fn domain(&self) -> (domain: EntityDomain)
        ensures
            domain == self.domain_of(),
    {
        match self {
            EntityType::Sensor(_) => EntityDomain::Sensor,
            EntityType::Actuator(_) => EntityDomain::Actuator,
        }
    }

    /// The name used in configuration.
    pub open spec fn name(self) -> Seq<char> {
        match self {
            EntityType::Sensor(t) => t.name(),
            EntityType::Actuator(t) => t.name(),
        }
    }

    pub fn as_str(&self) -> (name: &'static str)
        ensures
            name@ == self.name(),
    {
        match self {
            EntityType::Sensor(t) => t.as_str(),
            EntityType::Actuator(t) => t.as_str(),
        }
    }
}

/// The entity type that a name stands for, if any.
pub open spec fn type_named(name: Seq<char>) -> Option<EntityType> {
    if name == "rpm"@ {
        Some(EntityType::Sensor(SensorType::Rpm))
    } else if name == "speed"@ {
        Some(EntityType::Sensor(SensorType::Speed))
    } else if name == "display_panel"@ {
        Some(EntityType::Actuator(ActuatorType::DisplayPanel))
    } else if name == "display_region"@ {
        Some(EntityType::Actuator(ActuatorType::DisplayRegion))
    } else if name == "audio_player"@ {
        Some(EntityType::Actuator(ActuatorType::AudioPlayer))
    } else {
        None
    }
}

impl EntityType {
    /// The type of the given name: sensors and actuators share one set of names,
    /// so the name alone tells the domain as well.
    pub fn from_name(name: &str) -> (found: Option<EntityType>)
        ensures
            found == type_named(name@),
            forall|t: EntityType| found == Some(t) <==> name@ == #[trigger] t.name(),
    {
        let found: Option<EntityType> = if str_eq(name, "rpm") {
            Some(EntityType::Sensor(SensorType::Rpm))
        } else if str_eq(name, "speed") {
            Some(EntityType::Sensor(SensorType::Speed))
        } else if str_eq(name, "display_panel") {
            Some(EntityType::Actuator(ActuatorType::DisplayPanel))
        } else if str_eq(name, "display_region") {
            Some(EntityType::Actuator(ActuatorType::DisplayRegion))
        } else if str_eq(name, "audio_player") {
            Some(EntityType::Actuator(ActuatorType::AudioPlayer))
        } else {
            None
        };
        proof {
            assert forall|t: EntityType| found == Some(t) <==> name@ == #[trigger] t.name() by {
                law_type_names_read_back(t, t);
                if let Some(f) = found {
                    law_type_names_read_back(f, t);
                }
            }
        }
        found
    }
}

/// Reading the name of an entity type gives that type back, and no two types, be
/// they sensors or actuators, have the same name.
pub proof fn law_type_names_read_back(a: EntityType, b: EntityType)
    ensures
        type_named(a.name()) == Some(a),
        a.name() == b.name() <==> a == b,
{
    reveal_strlit("rpm");
    reveal_strlit("speed");
    reveal_strlit("display_panel");
    reveal_strlit("display_region");
    reveal_strlit("audio_player");
    assert("rpm"@.len() == 3);
    assert("speed"@.len() == 5);
    assert("display_panel"@.len() == 13);
    assert("display_region"@.len() == 14);
    assert("audio_player"@.len() == 12);
}

/// A single capability a device exposes.
#[derive(Debug, PartialEq)]
pub struct Entity {
    pub id: EntityId,
    pub entity_type: EntityType,
    /// Human-facing name; defaults to the entity type's label when absent.
    pub name: Option<String>,
}

/// The contents of an [`Entity`].
#[verifier::ext_equal]
pub struct EntityView {
    pub id: EntityAddress,
    pub entity_type: EntityType,
    pub name: Option<Seq<char>>,
}

/// An optional string by its characters.
pub open spec fn optional_text(s: Option<String>) -> Option<Seq<char>> {
    match s {
        Some(s) => Some(s@),
        None => None,
    }
}

impl View for Entity {
    type V = EntityView;

    open spec fn view(&self) -> EntityView {
        EntityView {
            id: self.id@,
            entity_type: self.entity_type,
            name: optional_text(self.name),
        }
    }
}

impl Clone for Entity {
    fn clone(&self) -> (copy: Self)
        ensures
            copy == *self,
    {
        let name: Option<String> = match &self.name {
            Some(name) => Some(name.clone()),
            None => None,
        };
        Entity { id: self.id.clone(), entity_type: self.entity_type, name }
    }
}

/// The contents of a list of entities.
pub open spec fn entity_views(entities: Seq<Entity>) -> Seq<EntityView> {
    entities.map_values(|e: Entity| e@)
}

/// Copy a list of entities.
pub fn clone_entities(entities: &Vec<Entity>) -> (copy: Vec<Entity>)
    ensures
        copy@ == entities@,
{
    let mut copy: Vec<Entity> = Vec::new();
    let mut i: usize = 0;
    while i < entities.len()
        invariant
            i <= entities@.len(),
            copy@ == entities@.take(i as int),
        decreases entities@.len() - i,
    {
        copy.push(entities[i].clone());
        i += 1;
    }
    assert(entities@.take(i as int) =~= entities@);
    copy
}

/// A physical/logical host exposing one or more entities.
#[derive(Debug, PartialEq)]
pub struct Device {
    pub id: DeviceId,
    pub name: String,
}

/// The contents of a [`Device`].
#[verifier::ext_equal]
pub struct DeviceView {
    pub id: Seq<char>,
    pub name: Seq<char>,
}

impl View for Device {
    type V = DeviceView;

    open spec fn view(&self) -> DeviceView {
        DeviceView { id: self.id@, name: self.name@ }
    }
}

impl Clone for Device {
    fn clone(&self) -> (copy: Self)
        ensures
            copy == *self,
    {
        Device { id: self.id.clone(), name: self.name.clone() }
    }
}

/// A typed sensor reading. The variant fixes both the sensor type and the
/// value representation, so a driver cannot produce an `rpm` value with the
/// wrong kind.
#[derive(Debug, Clone, Copy)]
pub enum SensorValue {
    /// Revolutions per minute. Contract: `u32`, unit `rpm`.
    Rpm(u32),
    /// Speed. Contract: single precision, unit `km/h`.
    Speed(Binary32),
}

impl SensorValue {
    /// Equality of readings: numeric, so a NaN differs from everything.
    pub open spec fn equals(self, other: Self) -> bool {
        match (self, other) {
            (SensorValue::Rpm(a), SensorValue::Rpm(b)) => a == b,
            (SensorValue::Speed(a), SensorValue::Speed(b)) => a.equals(b),
            _ => false,
        }
    }

    pub open spec fn type_of(self) -> SensorType {
        match self {
            SensorValue::Rpm(_) => SensorType::Rpm,
            SensorValue::Speed(_) => SensorType::Speed,
        }
    }

    /// The numeric part, printed to the type's precision.
    pub open spec fn numeral(self) -> Seq<char> {
        match self {
            SensorValue::Rpm(v) => decimal(v as nat),
            SensorValue::Speed(v) => fixed_point(v, precision_of(SensorType::Speed)),
        }
    }

    pub fn sensor_type(&self) -> (sensor_type: SensorType)
        ensures
            sensor_type == self.type_of(),
    {
        match self {
            SensorValue::Rpm(_) => SensorType::Rpm,
            SensorValue::Speed(_) => SensorType::Speed,
        }
    }

    /// The representation of this value, which is the one its type's contract
    /// prescribes.
    pub fn value_kind(&self) -> (kind: ValueKind)
        ensures
            kind == kind_of(self.type_of()),
    {
        match self {
            SensorValue::Rpm(_) => ValueKind::U32,
            SensorValue::Speed(_) => ValueKind::F32,
        }
    }

    /// Format the numeric part per the type contract's precision (no unit).
    pub fn format_value(&self) -> (text: String)
        ensures
            text@ == self.numeral(),
    {
        let precision: u8 = sensor_contract(self.sensor_type()).precision;
        match self {
            SensorValue::Rpm(v) => {
                let mut text: String = String::new();
                append_decimal(&mut text, *v as u128);
                assert(text@ =~= decimal(*v as nat));
                text
            },
            SensorValue::Speed(v) => fixed_point_text(*v, precision),
        }
    }

    /// The contract-defined unit of measurement for this value's type.
    pub fn unit(&self) -> (unit: &'static str)
        ensures
            unit@ == unit_of(self.type_of()),
    {
        sensor_contract(self.sensor_type()).unit_of_measurement
    }
}

impl PartialEq for SensorValue {
    fn eq(&self, other: &Self) -> (same: bool) {
        match (self, other) {
            (SensorValue::Rpm(a), SensorValue::Rpm(b)) => *a == *b,
            (SensorValue::Speed(a), SensorValue::Speed(b)) => *a == *b,
            _ => false,
        }
    }
}

impl vstd::std_specs::cmp::PartialEqSpecImpl for SensorValue {
    open spec fn obeys_eq_spec() -> bool {
        true
    }

    open spec fn eq_spec(&self, other: &Self) -> bool {
        self.equals(*other)
    }
}

/// Commands that can be sent to actuator entities. Which commands an entity
/// accepts follows from its [`ActuatorType`].
#[derive(Debug, Clone, Copy, PartialEq)]
pub enum ActuatorCommand {
    /// Reflect the current state of a bound sensor entity on this actuator,
    /// what a binding continuously delivers. How the state is presented
    /// (text, gauge, placeholder while stale, ...) is entirely the receiving
    /// driver's concern; the value must not be pre-formatted upstream.
    SourceUpdate {
        availability: state::Availability,
        /// Last known value; may be present while stale: the availability
        /// decides whether it is trustworthy.
        value: Option<SensorValue>,
    },
}

/// Lookup from entity id to its declared type, built once at boot from the
/// validated config. Shared by the state store and the binding engine.
#[derive(Debug)]
pub struct EntityIndex {
    map: EntityMap<EntityType>,
}

/// The types of a list of entities by address, a later entity replacing an
/// earlier one of the same address.
pub open spec fn types_by_address(entities: Seq<Entity>) -> Map<EntityAddress, EntityType>
    decreases entities.len(),
{
    if entities.len() == 0 {
        Map::empty()
    } else {
        types_by_address(entities.drop_last()).insert(
            entities.last().id@,
            entities.last().entity_type,
        )
    }
}

/// The sensor type an index gives an address, if it is a sensor.
pub open spec fn sensor_type_in(
    index: Map<EntityAddress, EntityType>,
    a: EntityAddress,
) -> Option<SensorType> {
    if index.contains_key(a) {
        match index[a] {
            EntityType::Sensor(t) => Some(t),
            EntityType::Actuator(_) => None,
        }
    } else {
        None
    }
}

impl View for EntityIndex {
    type V = Map<EntityAddress, EntityType>;

    closed spec fn view(&self) -> Map<EntityAddress, EntityType> {
        self.map@
    }
}

impl Default for EntityIndex {
    fn default() -> (index: Self)
        ensures
            index@ == Map::<EntityAddress, EntityType>::empty(),
    {
        EntityIndex { map: EntityMap::new() }
    }
}

impl Clone for EntityIndex {
    fn clone(&self) -> (copy: Self)
        ensures
            copy@ == self@,
    {
        EntityIndex { map: self.map.copied() }
    }
}

impl EntityIndex {
    pub fn from_entities(entities: &[Entity]) -> (index: Self)
        ensures
            index@ == types_by_address(entities@),
    {
        let mut map: EntityMap<EntityType> = EntityMap::new();
        let mut i: usize = 0;
        while i < entities.len()
            invariant
                i <= entities@.len(),
                map@ == types_by_address(entities@.take(i as int)),
            decreases entities@.len() - i,
        {
            let ghost next = entities@.take(i + 1);
            assert(next.drop_last() =~= entities@.take(i as int));
            assert(next.last() == entities@[i as int]);
            map.insert(entities[i].id.clone(), entities[i].entity_type);
            i += 1;
        }
        assert(entities@.take(i as int) =~= entities@);
        EntityIndex { map }
    }

    pub fn entity_type(&self, id: &EntityId) -> (found: Option<EntityType>)
        ensures
            found == (if self@.contains_key(id@) {
                Some(self@[id@])
            } else {
                None
            }),
    {
        match self.map.get(id) {
            Some(t) => Some(*t),
            None => None,
        }
    }

    pub fn sensor_type(&self, id: &EntityId) -> (found: Option<SensorType>)
        ensures
            found == sensor_type_in(self@, id@),
    {
        match self.entity_type(id) {
            Some(EntityType::Sensor(t)) => Some(t),
            _ => None,
        }
    }

    /// The sensor entities, each once.
    pub fn sensor_ids(&self) -> (ids: Vec<EntityId>)
        ensures
            forall|a: EntityAddress|
                (exists|i: int| 0 <= i < ids@.len() && #[trigger] ids@[i]@ == a)
                    <==> sensor_type_in(self@, a) is Some,
            forall|i: int, j: int| 0 <= i < j < ids@.len() ==> ids@[i]@ != ids@[j]@,
    {
        let n: usize = self.map.len();
        let mut ids: Vec<EntityId> = Vec::new();
        let mut i: usize = 0;
        while i < n
            invariant
                n == self.map.keys().len(),
                self.map.keys().no_duplicates(),
                i <= n,
                forall|k: int|
                    0 <= k < ids@.len() ==> sensor_type_in(self@, #[trigger] ids@[k]@) is Some
                        && self.map.keys().take(i as int).contains(ids@[k]@),
                forall|j: int|
                    0 <= j < i && sensor_type_in(self@, #[trigger] self.map.keys()[j]) is Some
                        ==> exists|k: int|
                        0 <= k < ids@.len() && #[trigger] ids@[k]@ == self.map.keys()[j],
                forall|k: int, l: int| 0 <= k < l < ids@.len() ==> ids@[k]@ != ids@[l]@,
            decreases n - i,
        {
            let id: &EntityId = self.map.key_at(i);
            let ghost keys = self.map.keys();
            let ghost before = ids@;
            assert(keys.take(i + 1) =~= keys.take(i as int).push(id@));
            assert(keys.take(i + 1)[i as int] == id@);
            assert(!keys.take(i as int).contains(id@));
            if self.map.value_at(i).domain() == EntityDomain::Sensor {
                ids.push(id.clone());
                assert(ids@[before.len() as int]@ == id@);
            }
            proof {
                assert forall|k: int| 0 <= k < ids@.len() implies keys.take(i + 1).contains(
                    #[trigger] ids@[k]@,
                ) by {
                    if k < before.len() {
                        let j = keys.take(i as int).index_of(before[k]@);
                        assert(keys.take(i + 1)[j] == before[k]@);
                    }
                }
                assert forall|j: int|
                    0 <= j < i + 1 && sensor_type_in(self@, #[trigger] keys[j]) is Some implies exists|
                    k: int,
                | 0 <= k < ids@.len() && #[trigger] ids@[k]@ == keys[j] by {
                    if j < i {
                        let k = choose|k: int| 0 <= k < before.len() && #[trigger] before[k]@ == keys[j];
                        assert(ids@[k]@ == keys[j]);
                    }
                }
            }
            i += 1;
        }
        assert forall|a: EntityAddress| sensor_type_in(self@, a) is Some implies exists|k: int|
            0 <= k < ids@.len() && #[trigger] ids@[k]@ == a by {
            let j = self.map.keys().index_of(a);
            assert(self.map.keys()[j] == a);
        }
        ids
    }
}

/// The index knows the address of every listed entity and no other.
pub proof fn law_index_knows_the_listed_entities(entities: Seq<Entity>, a: EntityAddress)
    ensures
        types_by_address(entities).contains_key(a) <==> exists|k: int|
            0 <= k < entities.len() && #[trigger] entities[k].id@ == a,
    decreases entities.len(),
{
    if entities.len() > 0 {
        let last = entities.len() - 1;
        let rest = entities.drop_last();
        law_index_knows_the_listed_entities(rest, a);
        if types_by_address(rest).contains_key(a) {
            let k = choose|k: int| 0 <= k < rest.len() && #[trigger] rest[k].id@ == a;
            assert(entities[k].id@ == a);
        } else if entities[last].id@ != a {
            assert forall|k: int| 0 <= k < entities.len() implies #[trigger] entities[k].id@ != a by {
                if k < last {
                    assert(rest[k].id@ != a);
                }
            }
        }
    }
}

/// Of several entities with one address the index holds the type of the last.
pub proof fn law_index_holds_the_last_type(entities: Seq<Entity>, k: int)
    requires
        0 <= k < entities.len(),
        forall|l: int|
            k < l < entities.len() ==> #[trigger] entities[l].id@ != entities[k].id@,
    ensures
        types_by_address(entities)[entities[k].id@] == entities[k].entity_type,
    decreases entities.len(),
{
    let last = entities.len() - 1;
    if k < last {
        let rest = entities.drop_last();
        assert(entities[last].id@ != entities[k].id@);
        assert forall|l: int| k < l < rest.len() implies #[trigger] rest[l].id@ != rest[k].id@ by {
            assert(entities[l].id@ != entities[k].id@);
        }
        law_index_holds_the_last_type(rest, k);
    }
}

/// An address is a sensor's exactly if the index lists it as one, and of that type.
pub proof fn law_sensors_are_listed_as_such(
    index: Map<EntityAddress, EntityType>,
    a: EntityAddress,
    t: SensorType,
)
    ensures
        sensor_type_in(index, a) == Some(t) <==> index.contains_key(a) && index[a]
            == EntityType::Sensor(t),
{
}

/// A type's domain is the half of the type system that it stands in.
pub proof fn law_domains_follow_from_types(t: EntityType)
    ensures
        t.domain_of() == EntityDomain::Sensor <==> t is Sensor,
        t.domain_of() == EntityDomain::Actuator <==> t is Actuator,
{
}

/// Readings of different types are never equal, and counts are equal only if they are
/// the same. Two speeds are equal if and only if, as numbers, they are.
pub proof fn law_equal_readings_are_of_one_type(a: SensorValue, b: SensorValue)
    ensures
        a.equals(b) ==> a.type_of() == b.type_of(),
        a.equals(b) == b.equals(a),
        (a is Rpm && b is Rpm) ==> (a.equals(b) <==> a == b),
        (a is Speed && b is Speed) ==> (a.equals(b) <==> a->Speed_0.equals(b->Speed_0)),
        a is Rpm <==> a.type_of() == SensorType::Rpm,
{
}

/// Revolutions are printed in full; a speed in km/h is printed to a tenth, the nearest
/// one.
pub proof fn law_readings_are_printed_to_their_precision(value: SensorValue)
    ensures
        match value {
            SensorValue::Rpm(n) => all_digits(value.numeral()) && digits_value(value.numeral())
                == n,
            SensorValue::Speed(x) => (x.bits / 0x80_0000) % 0x100 != 0xff ==> {
                let text = value.numeral();
                let body = if x.bits >= 0x8000_0000 {
                    text.skip(1)
                } else {
                    text
                };
                &&& x.bits >= 0x8000_0000 <==> text[0] == '-'
                &&& body.len() >= 3
                &&& body[body.len() - 2] == '.'
                &&& all_digits(body.take(body.len() - 2))
                &&& '0' <= body.last() <= '9'
                &&& nearest_units(
                    x,
                    1,
                    (digits_value(body.take(body.len() - 2)) * 10 + (body.last() as int
                        - '0' as int)) as nat,
                )
            },
        },
{
    match value {
        SensorValue::Rpm(n) => {
            law_numerals_read_back(n as nat);
        },
        SensorValue::Speed(x) => {
            if (x.bits / 0x80_0000) % 0x100 != 0xff {
                law_printed_digits_are_nearest(x, 1);
                let text = value.numeral();
                let body = if x.bits >= 0x8000_0000 {
                    text.skip(1)
                } else {
                    text
                };
                vstd::arithmetic::power::lemma_pow1(10);
                let tenths = body.skip(body.len() - 1);
                assert(tenths.drop_last() =~= Seq::<char>::empty());
                assert(digits_value(Seq::<char>::empty()) == 0);
                assert(tenths[0] == body.last());
                assert(digits_value(tenths) == body.last() as int - '0' as int);
            }
        },
    }
}

/// The name of each entity type in configuration.
pub proof fn law_type_names(t: EntityType)
    ensures
        t.name() == match t {
            EntityType::Sensor(SensorType::Rpm) => "rpm"@,
            EntityType::Sensor(SensorType::Speed) => "speed"@,
            EntityType::Actuator(ActuatorType::DisplayPanel) => "display_panel"@,
            EntityType::Actuator(ActuatorType::DisplayRegion) => "display_region"@,
            EntityType::Actuator(ActuatorType::AudioPlayer) => "audio_player"@,
        },
{
}

/// What is said of entities and devices leaves nothing of them out: two that are said to
/// be the same have the same id, type and name.
pub proof fn law_entities_are_told_in_full(a: Entity, b: Entity, d: Device, e: Device)
    ensures
        a@ == b@ <==> a.id@ == b.id@ && a.entity_type == b.entity_type && match (a.name, b.name) {
            (Some(x), Some(y)) => x@ == y@,
            (None, None) => true,
            _ => false,
        },
        d@ == e@ <==> d.id@ == e.id@ && d.name@ == e.name@,
{
}

/// What is said of a list of entities is said of each of them, in order.
pub proof fn law_entity_lists_are_told_in_order(entities: Seq<Entity>, i: int)
    requires
        0 <= i < entities.len(),
    ensures
        entity_views(entities).len() == entities.len(),
        entity_views(entities)[i].id == entities[i].id@,
        entity_views(entities)[i].entity_type == entities[i].entity_type,
        entity_views(entities)[i].name is Some <==> entities[i].name is Some,
        entities[i].name matches Some(name) ==> entity_views(entities)[i].name == Some(name@),
{
}

} // verus!
