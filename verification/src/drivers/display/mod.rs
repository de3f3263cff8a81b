//! Display driver internals, decoupled from any specific display chip.
//!
//! - [`widgets`]: pure rendering. Given a value, a widget's own config, and a
//!   target region, yields drawing operations. No hardware knowledge, and generic
//!   over pixel color.
//! - [`layout`] and [`compositor`]: zone management. Validates how a display is
//!   partitioned, tracks what changed, and decouples render ticks from raw value
//!   updates (samples the latest staged value at a fixed interval instead of
//!   rendering on every update).
//! - [`generic`]: the driver that every display chip shares.

pub mod compositor;
pub mod compositor_laws;
pub mod generic;
pub mod geometry;
pub mod layout;
pub mod layout_laws;
pub mod panel;
pub mod scratch;
pub mod sweep;
pub mod widget_laws;
pub mod widgets;

use vstd::prelude::*;

use crate::drivers::display::widgets::reports;
use crate::text::{append_decimal, decimal};

verus! {

/// Default for the `render_interval_ms` config field every display driver
/// exposes; the compositor's default, so there is one canonical rate.
pub fn default_render_interval_ms() -> (millis: u32)
    ensures
        millis == compositor::DEFAULT_RENDER_INTERVAL,
        millis == 80,
{
    compositor::DEFAULT_RENDER_INTERVAL as u32
}

/// What is wrong with a rotation, if anything: it must be one of the four right
/// angles.
pub open spec fn rotation_fault(rotation: u16) -> Option<Seq<char>> {
    if rotation == 0 || rotation == 90 || rotation == 180 || rotation == 270 {
        None
    } else {
        Some("rotation must be 0, 90, 180 or 270, got "@ + decimal(rotation as nat))
    }
}

/// Shared config validation for the `rotation` field every display driver
/// exposes (degrees; the four right angles only).
pub fn validate_rotation(rotation: u16) -> (checked: Result<(), String>)
    ensures
        reports(checked, rotation_fault(rotation)),
{
    if matches!(rotation, 0 | 90 | 180 | 270) {
        Ok(())
    } else {
        let mut text: String = "rotation must be 0, 90, 180 or 270, got ".to_owned();
        append_decimal(&mut text, rotation as u128);
        Err(text)
    }
}

/// A turn by a multiple of a right angle.
#[derive(Debug, Clone, Copy, PartialEq, Eq, Structural)]
pub enum Turn {
    Upright,
    Quarter,
    Half,
    ThreeQuarters,
}

/// The turn that a rotation in degrees stands for; upright if it is not one of
/// the four right angles.
pub fn turn_of(rotation: u16) -> (turn: Turn)
    ensures
        turn == if rotation == 90 {
            Turn::Quarter
        } else if rotation == 180 {
            Turn::Half
        } else if rotation == 270 {
            Turn::ThreeQuarters
        } else {
            Turn::Upright
        },
{
    match rotation {
        90 => Turn::Quarter,
        180 => Turn::Half,
        270 => Turn::ThreeQuarters,
        _ => Turn::Upright,
    }
}

/// The size of a panel after rotation: a quarter turn swaps the sides.
pub open spec fn rotated_size(rotation: u16, width: u32, height: u32) -> (u32, u32) {
    if rotation == 90 || rotation == 270 {
        (height, width)
    } else {
        (width, height)
    }
}

/// A rotation is accepted exactly if it is a multiple of a right angle and less than a
/// full turn.
pub proof fn law_rotations_are_right_angles(rotation: u16)
    ensures
        rotation_fault(rotation) is None <==> rotation % 90 == 0 && rotation < 360,
{
}

/// An accepted rotation swaps the sides of a panel exactly if it is an odd number of
/// right angles; rotating by another odd number swaps them back.
pub proof fn law_quarter_turns_swap_the_sides(rotation: u16, other: u16, width: u32, height: u32)
    requires
        rotation_fault(rotation) is None,
        rotation_fault(other) is None,
    ensures
        rotated_size(rotation, width, height) == if (rotation / 90) % 2 == 1 {
            (height, width)
        } else {
            (width, height)
        },
        rotation % 180 == 90 && other % 180 == 90 ==> {
            let turned = rotated_size(rotation, width, height);
            rotated_size(other, turned.0, turned.1) == (width, height)
        },
{
}

} // verus!
