//! Centralized entity-type contract registry.
//!
//! One shared registry fixes, per sensor entity type: the unit of
//! measurement, the value kind, the display precision, the expected update
//! rate (QoS), and the staleness window. Two RPM-producing drivers cannot
//! disagree on units or representation, because neither of them defines those
//! things.

use vstd::prelude::*;

use crate::entities::SensorType;
use crate::time::Duration;

verus! {

/// The value representation an entity type's readings must use.
#[derive(Debug, Clone, Copy, PartialEq, Eq, Structural)]
pub enum ValueKind {
    U32,
    F32,
}

/// Declared update-rate / QoS class of an entity type.
#[derive(Debug, Clone, Copy, PartialEq, Eq, Structural)]
pub enum UpdateRate {
    /// Near-real-time; consumers assume sub-second freshness (e.g. rpm).
    Realtime,
    /// Periodic updates at roughly the given interval (e.g. gps_position ~1s).
    Periodic(Duration),
    /// Rarely changes (e.g. configuration-like values).
    Static,
}

/// The fixed, centrally defined contract for a sensor entity type.
#[derive(Debug, Clone, Copy, PartialEq, Eq)]
pub struct TypeContract {
    pub unit_of_measurement: &'static str,
    pub value_kind: ValueKind,
    /// Decimal places when formatting for humans.
    pub precision: u8,
    pub update_rate: UpdateRate,
    /// With no fresh reading for this long, the entity is stale.
    pub staleness_after: Duration,
    /// With no fresh reading for this long, the entity is unavailable: this
    /// bounds how long a stale reading can sit unrefreshed before it is treated
    /// as gone rather than merely delayed.
    pub unavailable_after: Duration,
}

/// Unit of measurement of a sensor type.
pub open spec fn unit_of(sensor_type: SensorType) -> Seq<char> {
    match sensor_type {
        SensorType::Rpm => "rpm"@,
        SensorType::Speed => "km/h"@,
    }
}

/// Value representation of a sensor type.
pub open spec fn kind_of(sensor_type: SensorType) -> ValueKind {
    match sensor_type {
        SensorType::Rpm => ValueKind::U32,
        SensorType::Speed => ValueKind::F32,
    }
}

/// Decimal places of a sensor type.
pub open spec fn precision_of(sensor_type: SensorType) -> nat {
    match sensor_type {
        SensorType::Rpm => 0,
        SensorType::Speed => 1,
    }
}

/// Nanoseconds without a reading after which a value is stale: two seconds.
pub open spec fn staleness_nanos(sensor_type: SensorType) -> nat {
    2_000_000_000
}

/// Nanoseconds without a reading after which a value is gone: ten seconds.
pub open spec fn unavailability_nanos(sensor_type: SensorType) -> nat {
    10_000_000_000
}

/// The registry itself, one entry per [`SensorType`].
pub fn sensor_contract(sensor_type: SensorType) -> (contract: TypeContract)
    ensures
        contract.unit_of_measurement@ == unit_of(sensor_type),
        contract.value_kind == kind_of(sensor_type),
        contract.precision == precision_of(sensor_type),
        contract.update_rate == UpdateRate::Realtime,
        contract.staleness_after.nanos == staleness_nanos(sensor_type),
        contract.unavailable_after.nanos == unavailability_nanos(sensor_type),
{
    match sensor_type {
        SensorType::Rpm => TypeContract {
            unit_of_measurement: "rpm",
            value_kind: ValueKind::U32,
            precision: 0,
            update_rate: UpdateRate::Realtime,
            staleness_after: Duration::from_secs(2),
            unavailable_after: Duration::from_secs(10),
        },
        SensorType::Speed => TypeContract {
            unit_of_measurement: "km/h",
            value_kind: ValueKind::F32,
            precision: 1,
            update_rate: UpdateRate::Realtime,
            staleness_after: Duration::from_secs(2),
            unavailable_after: Duration::from_secs(10),
        },
    }
}

/// Every sensor type goes stale before it goes unavailable.
pub proof fn law_staleness_precedes_unavailability(sensor_type: SensorType)
    ensures
        staleness_nanos(sensor_type) < unavailability_nanos(sensor_type),
{
}

/// What the registry fixes for each sensor type: revolutions are whole, in rpm; speeds
/// have one decimal place, in km/h; and both are stale after two seconds of silence and
/// gone after ten.
pub proof fn law_sensor_contracts(sensor_type: SensorType)
    ensures
        sensor_type == SensorType::Rpm ==> unit_of(sensor_type) == "rpm"@ && kind_of(sensor_type)
            == ValueKind::U32 && precision_of(sensor_type) == 0,
        sensor_type == SensorType::Speed ==> unit_of(sensor_type) == "km/h"@ && kind_of(sensor_type)
            == ValueKind::F32 && precision_of(sensor_type) == 1,
        staleness_nanos(sensor_type) == 2 * 1_000_000_000,
        unavailability_nanos(sensor_type) == 10 * 1_000_000_000,
{
}

} // verus!
