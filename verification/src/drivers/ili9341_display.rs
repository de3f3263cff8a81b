//! `ili9341_display` driver: what is specific to the ILI9341 (SPI color TFT) in
//! configuration.
//!
//! Everything here is a hardware fact (SPI pins, panel resolution, rotation) or
//! follows from one. Zones and widgets are the business of
//! [`crate::drivers::display`].
//!
//! Drawing to this panel writes straight through over SPI: a 320x240 RGB565
//! framebuffer would be half the usable RAM, so buffering is not an option. The
//! compositor's dirty-tracking still ensures zones are only redrawn (bytes only
//! cross the bus) when their content changed.

use vstd::prelude::*;

use crate::drivers::display::generic::GenericDisplayDriver;
use crate::drivers::display::geometry::Size;
use crate::drivers::display::layout::{clone_layout, ZoneConfig};
use crate::drivers::display::panel::{
    display_driver, display_spec_fault, fresh_display, lemma_zones_renderable, made_for,
    renderable, zones_of_spec,
};
use crate::drivers::display::scratch::Raster;
use crate::drivers::display::widgets::WidgetPalette;
use crate::drivers::display::{rotated_size, rotation_fault, validate_rotation};
use crate::drivers::DriverSpec;
use crate::error::{DriverError, DriverFault};
use crate::text::{append_decimal, decimal};

verus! {

/// The ILI9341 controller's framebuffer (rotation 0). Modules with smaller glass
/// configure `width`/`height`/`offset_*` below within these limits.
pub const NATIVE_WIDTH: u32 = 240;

pub const NATIVE_HEIGHT: u32 = 320;

#[derive(Debug, PartialEq)]
pub struct Ili9341Config {
    pub spi_sck: i32,
    pub spi_mosi: i32,
    pub spi_cs: i32,
    /// Data/command select pin (often labelled D/C or RS).
    pub spi_dc: i32,
    /// Hardware reset pin.
    pub spi_rst: i32,
    pub baudrate_hz: u32,
    /// Native (pre-rotation) visible panel size; defaults to the controller's
    /// full framebuffer. Modules with smaller glass set this (plus
    /// `offset_x`/`offset_y` for where their glass sits in the framebuffer).
    pub width: u32,
    pub height: u32,
    pub offset_x: u16,
    pub offset_y: u16,
    /// Panel rotation in degrees: 0, 90, 180, or 270. 90/270 swap the panel's
    /// logical width/height (landscape).
    pub rotation: u16,
    /// Mirror the output. Some modules scan in the opposite direction, which
    /// shows as horizontally mirrored output.
    pub mirrored: bool,
    /// How often changed zones are actually redrawn, in milliseconds.
    pub render_interval_ms: u32,
    /// The zones this display is partitioned into; each becomes one
    /// `display_region` entity named `<display_entity_id>.<zone_id>`.
    pub layout: Vec<ZoneConfig>,
}

pub fn default_width() -> (width: u32)
    ensures
        width == NATIVE_WIDTH,
{
    NATIVE_WIDTH
}

pub fn default_height() -> (height: u32)
    ensures
        height == NATIVE_HEIGHT,
{
    NATIVE_HEIGHT
}

/// The ESP32 caps SPI routed through the GPIO matrix at 26.67 MHz and aborts at
/// bus setup above that. This is the safe rate that works on any pins; a wiring
/// that uses the dedicated pins can raise it in config.
pub fn default_baudrate_hz() -> (baudrate: u32)
    ensures
        baudrate == 26_000_000,
{
    26_000_000
}

impl Clone for Ili9341Config {
    fn clone(&self) -> (copy: Self)
        ensures
            copy.same_as(*self),
    {
        Ili9341Config {
            spi_sck: self.spi_sck,
            spi_mosi: self.spi_mosi,
            spi_cs: self.spi_cs,
            spi_dc: self.spi_dc,
            spi_rst: self.spi_rst,
            baudrate_hz: self.baudrate_hz,
            width: self.width,
            height: self.height,
            offset_x: self.offset_x,
            offset_y: self.offset_y,
            rotation: self.rotation,
            mirrored: self.mirrored,
            render_interval_ms: self.render_interval_ms,
            layout: clone_layout(&self.layout),
        }
    }
}

impl Ili9341Config {
    /// Whether two configs say the same.
    pub open spec fn same_as(self, other: Self) -> bool {
        &&& self.layout@ == other.layout@
        &&& self == (Ili9341Config { layout: self.layout, ..other })
    }

    /// Logical panel resolution after rotation: what the zone layout is
    /// validated against.
    pub fn dimensions(&self) -> (size: (u32, u32))
        ensures
            size == rotated_size(self.rotation, self.width, self.height),
    {
        if self.rotation == 90 || self.rotation == 270 {
            (self.height, self.width)
        } else {
            (self.width, self.height)
        }
    }
}

/// Whether the visible area has pixels, and all of them in the framebuffer.
pub open spec fn area_fits(config: Ili9341Config) -> bool {
    &&& config.width > 0
    &&& config.height > 0
    &&& config.width + config.offset_x <= NATIVE_WIDTH
    &&& config.height + config.offset_y <= NATIVE_HEIGHT
}

/// What is wrong with a panel's own facts, if anything.
pub open spec fn panel_fault(config: Ili9341Config) -> Option<Seq<char>> {
    match rotation_fault(config.rotation) {
        Some(message) => Some(message),
        None => if area_fits(config) {
            None
        } else {
            Some(
                "panel area "@ + decimal(config.width as nat) + "x"@ + decimal(config.height as nat)
                    + " at offset ("@ + decimal(config.offset_x as nat) + ", "@ + decimal(
                    config.offset_y as nat,
                ) + ") does not fit the ILI9341's 240x320 framebuffer"@,
            )
        },
    }
}

/// Whether a checked config is the one that was read, if it is sound, or the
/// message of what is wrong with it.
pub open spec fn accepted(
    checked: Result<&Ili9341Config, String>,
    read: Result<Ili9341Config, String>,
) -> bool {
    match (checked, read) {
        (Ok(config), Ok(given)) => *config == given && panel_fault(given) is None,
        (Err(message), Ok(given)) => panel_fault(given) == Some(message@),
        (Err(message), Err(e)) => message@ == e@,
        (Ok(_), Err(_)) => false,
    }
}

/// Check the driver's own config, as read from its document (or the reader's
/// message, if the document does not have the shape of one). Shared by
/// config-time entity expansion and the hardware factory, so both reject the same
/// malformed documents with the same messages.
pub fn parse_config(read: &Result<Ili9341Config, String>) -> (checked: Result<
    &Ili9341Config,
    String,
>)
    ensures
        accepted(checked, *read),
{
    match read {
        Err(message) => Err(message.clone()),
        Ok(config) => {
            if let Err(message) = validate_rotation(config.rotation) {
                return Err(message);
            }
            if config.width == 0 || config.height == 0 || config.width as u64
                + config.offset_x as u64 > NATIVE_WIDTH as u64 || config.height as u64
                + config.offset_y as u64 > NATIVE_HEIGHT as u64 {
                let mut text: String = "panel area ".to_owned();
                append_decimal(&mut text, config.width as u128);
                text.append("x");
                append_decimal(&mut text, config.height as u128);
                text.append(" at offset (");
                append_decimal(&mut text, config.offset_x as u128);
                text.append(", ");
                append_decimal(&mut text, config.offset_y as u128);
                text.append(") does not fit the ILI9341's 240x320 framebuffer");
                return Err(text);
            }
            Ok(config)
        },
    }
}

/// What keeps a spec from becoming an ILI9341 driver, if anything.
pub open spec fn factory_fault(spec: DriverSpec) -> Option<Seq<char>> {
    match spec.config.ili9341 {
        Err(message) => Some(message@),
        Ok(config) => match panel_fault(config) {
            Some(message) => Some(message),
            None => display_spec_fault(
                spec,
                config.layout@,
                rotated_size(config.rotation, config.width, config.height),
            ),
        },
    }
}

/// The driver of an ILI9341 display, before its first frame is drawn: its config
/// checked, and its zones cross-checked against the entities of the spec.
///
/// Zone buffering is required on a write-through panel: drawn directly,
/// fine-grained widget output (dither, arc strokes, glyphs) becomes one bus
/// transaction per pixel, each carrying full address-window overhead.
pub fn factory<C: Copy>(spec: &DriverSpec, palette: WidgetPalette<C>) -> (made: Result<
    GenericDisplayDriver<C>,
    DriverError,
>)
    ensures
        match made {
            Ok(driver) => factory_fault(*spec) is None && made_for(
                driver,
                *spec,
                fresh_display(
                    *spec,
                    spec.config.ili9341->Ok_0.layout@,
                    palette,
                    spec.config.ili9341->Ok_0.render_interval_ms,
                    Some(Raster { size: Size { width: 0, height: 0 }, pixels: Seq::empty() }),
                ),
            ) && renderable(driver.compositor@.zones),
            Err(e) => factory_fault(*spec) matches Some(message) && e@ == (
            DriverFault::InvalidConfig { instance: spec.instance_id@, message }),
        },
{
    let config: &Ili9341Config = match parse_config(&spec.config.ili9341) {
        Ok(config) => config,
        Err(message) => {
            return Err(
                DriverError::InvalidConfig { instance: spec.instance_id.clone(), message },
            );
        },
    };
    match zones_of_spec(spec, &config.layout, config.dimensions()) {
        Err(e) => Err(e),
        Ok(zones) => {
            let driver = display_driver(spec, zones, palette, config.render_interval_ms, true);
            proof {
                let size = rotated_size(config.rotation, config.width, config.height);
                assert(size.0 * size.1 <= u32::MAX) by (nonlinear_arith)
                    requires
                        size.0 <= 320,
                        size.1 <= 320,
                ;
                lemma_zones_renderable(
                    spec.entities@,
                    config.layout@,
                    size,
                    driver.compositor@.zones,
                );
            }
            Ok(driver)
        },
    }
}

/// A panel's facts are accepted exactly if its rotation is a multiple of a right angle,
/// less than a full turn, and its glass has pixels, every one of them at a place of the
/// controller's framebuffer of 240 by 320.
pub proof fn law_panels_lie_in_the_framebuffer(config: Ili9341Config)
    ensures
        panel_fault(config) is None <==> {
            &&& config.rotation % 90 == 0
            &&& config.rotation < 360
            &&& config.width * config.height > 0
            &&& forall|x: int, y: int|
                0 <= x < config.width && 0 <= y < config.height ==> #[trigger] in_framebuffer(
                    x + config.offset_x,
                    y + config.offset_y,
                )
        },
{
    crate::drivers::display::law_rotations_are_right_angles(config.rotation);
    assert(config.width * config.height > 0 <==> config.width > 0 && config.height > 0)
        by (nonlinear_arith)
        requires
            config.width >= 0,
            config.height >= 0,
    ;
    if config.width > 0 && config.height > 0 {
        let x = config.width - 1;
        let y = config.height - 1;
        if in_framebuffer(x + config.offset_x, y + config.offset_y) {
            assert(area_fits(config));
        }
    }
}

/// Whether a place is one of the controller's framebuffer.
pub open spec fn in_framebuffer(x: int, y: int) -> bool {
    0 <= x < 240 && 0 <= y < 320
}

} // verus!
