//! BoardCOM gateway: the logic of the firmware, verified.
//!
//! Layering:
//! - [`entities`]: Device / Entity types, `device_id.entity_id` addressing,
//!   availability state, and the centralized entity-type contract registry (unit
//!   of measurement, value kind, precision, update rate).
//! - [`drivers`]: driver kinds and specs, what the built-in drivers decide, the
//!   driver registry, and the hardware resource pool.
//! - [`config`]: the configuration schema and the pure validation step that turns
//!   a configuration into device/entity/driver specs.
//! - [`automations`]: Bindings (continuous entity -> actuator mappings) and the
//!   Automation stub types.
//! - [`gateway`]: the main loop's part between polls and commands.
//! - [`text`], [`time`], [`ieee`]: text, monotonic time, and floating-point
//!   numbers held as bit patterns.

pub mod automations;
pub mod config;
pub mod drivers;
pub mod entities;
pub mod error;
pub mod gateway;
pub mod ieee;
pub mod text;
pub mod time;
