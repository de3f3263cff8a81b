//! Automation stubs: kept as distinct types so the concepts (and the
//! action-as-service-call shape) are locked in before anything grows around them.

use vstd::prelude::*;

use crate::entities::{ActuatorCommand, EntityId};
use crate::ieee::Binary64;

verus! {

/// What starts an automation.
#[derive(Debug, Clone, PartialEq)]
pub enum Trigger {
    /// A sensor entity crossing a threshold for a sustained duration.
    SensorAbove { entity: EntityId, threshold: Binary64, for_ms: u64 },
}

/// Optional gate between trigger and action.
#[derive(Debug, Clone, PartialEq)]
pub enum Condition {
    EntityOnline(EntityId),
}

/// A "service call", deliberately broader than "command an actuator": logging,
/// notifications, or triggering other automations belong here too. Commanding an
/// actuator is just the most common case.
#[derive(Debug, Clone, PartialEq)]
pub enum Action {
    CommandActuator { target: EntityId, command: ActuatorCommand },
    Log { message: String },
}

/// Trigger (+ optional Condition) -> Action.
#[derive(Debug, Clone, PartialEq)]
pub struct Automation {
    pub trigger: Trigger,
    pub condition: Option<Condition>,
    pub action: Action,
}

} // verus!
