//! `ssd1306_display` driver: what is specific to the SSD1306 in configuration.
//!
//! Everything here is a hardware fact (I2C pins/address/baudrate, module
//! resolution, rotation) or follows from one. Zones and widgets are the business
//! of [`crate::drivers::display`].

use vstd::prelude::*;

use crate::drivers::display::generic::GenericDisplayDriver;
use crate::drivers::display::layout::{clone_layout, ZoneConfig};
use crate::drivers::display::panel::{
    display_driver, display_spec_fault, fresh_display, lemma_zones_renderable, made_for,
    renderable, zones_of_spec,
};
use crate::drivers::display::widgets::WidgetPalette;
use crate::drivers::display::{rotated_size, rotation_fault, validate_rotation};
use crate::drivers::DriverSpec;
use crate::error::{DriverError, DriverFault};
use crate::text::{append_decimal, decimal};

verus! {

/// Module resolutions the controller crate supports. The controller drives many
/// glass sizes; which one is attached is a per-instance config fact.
pub const SUPPORTED_SIZES: [(u32, u32); 6] = [
    (128, 64),
    (128, 32),
    (96, 16),
    (72, 40),
    (64, 48),
    (64, 32),
];

#[derive(Debug, PartialEq)]
pub struct Ssd1306Config {
    pub i2c_sda: i32,
    pub i2c_scl: i32,
    /// 7-bit I2C address; 0x3C on virtually every SSD1306 module.
    pub address: u8,
    pub baudrate_hz: u32,
    /// Native (pre-rotation) module resolution; must be one of
    /// [`SUPPORTED_SIZES`]. Defaults to the ubiquitous 128x64.
    pub width: u32,
    pub height: u32,
    /// Panel rotation in degrees: 0, 90, 180, or 270. 90/270 swap the module's
    /// logical width/height.
    pub rotation: u16,
    /// How often changed zones are actually redrawn, in milliseconds.
    pub render_interval_ms: u32,
    /// The zones this display is partitioned into; each becomes one
    /// `display_region` entity named `<display_entity_id>.<zone_id>`.
    pub layout: Vec<ZoneConfig>,
}

pub fn default_width() -> (width: u32)
    ensures
        width == 128,
{
    128
}

pub fn default_height() -> (height: u32)
    ensures
        height == 64,
{
    64
}

pub fn default_address() -> (address: u8)
    ensures
        address == 0x3C,
{
    0x3C
}

pub fn default_baudrate_hz() -> (baudrate: u32)
    ensures
        baudrate == 400_000,
{
    400_000
}

impl Clone for Ssd1306Config {
    fn clone(&self) -> (copy: Self)
        ensures
            copy.same_as(*self),
    {
        Ssd1306Config {
            i2c_sda: self.i2c_sda,
            i2c_scl: self.i2c_scl,
            address: self.address,
            baudrate_hz: self.baudrate_hz,
            width: self.width,
            height: self.height,
            rotation: self.rotation,
            render_interval_ms: self.render_interval_ms,
            layout: clone_layout(&self.layout),
        }
    }
}

impl Ssd1306Config {
    /// Whether two configs say the same.
    pub open spec fn same_as(self, other: Self) -> bool {
        &&& self.layout@ == other.layout@
        &&& self == (Ssd1306Config { layout: self.layout, ..other })
    }

    /// Logical panel resolution after rotation: what the zone layout is
    /// validated against.
    pub fn dimensions(&self) -> (size: (u32, u32))
        ensures
            size == rotated_size(self.rotation, self.width, self.height),
    {
        if self.rotation == 90 || self.rotation == 270 {
            (self.height, self.width)
        } else {
            (self.width, self.height)
        }
    }
}

/// Whether a module size is one the controller crate supports.
pub open spec fn supported(width: u32, height: u32) -> bool {
    SUPPORTED_SIZES@.contains((width, height))
}

/// The sizes from `from` on, written out with commas between them.
pub open spec fn size_list(from: int) -> Seq<char>
    decreases SUPPORTED_SIZES@.len() - from,
{
    if from >= SUPPORTED_SIZES@.len() {
        Seq::empty()
    } else {
        let (w, h) = SUPPORTED_SIZES@[from];
        (if from > 0 {
            ", "@
        } else {
            Seq::empty()
        }) + decimal(w as nat) + "x"@ + decimal(h as nat) + size_list(from + 1)
    }
}

/// What is wrong with a module's own facts, if anything.
pub open spec fn module_fault(config: Ssd1306Config) -> Option<Seq<char>> {
    if !supported(config.width, config.height) {
        Some(
            "unsupported SSD1306 module size "@ + decimal(config.width as nat) + "x"@ + decimal(
                config.height as nat,
            ) + "; supported: "@ + size_list(0),
        )
    } else {
        rotation_fault(config.rotation)
    }
}

fn is_supported(width: u32, height: u32) -> (r: bool)
    ensures
        r == supported(width, height),
{
    let mut i: usize = 0;
    while i < 6
        invariant
            i <= 6,
            forall|k: int| 0 <= k < i ==> #[trigger] SUPPORTED_SIZES@[k] != (width, height),
        decreases 6 - i,
    {
        let (w, h) = SUPPORTED_SIZES[i];
        if w == width && h == height {
            assert(SUPPORTED_SIZES@[i as int] == (width, height));
            return true;
        }
        i += 1;
    }
    false
}

fn append_sizes(out: &mut String)
    ensures
        final(out)@ == old(out)@ + size_list(0),
{
    let mut i: usize = 0;
    while i < 6
        invariant
            i <= 6,
            out@ + size_list(i as int) =~= old(out)@ + size_list(0),
        decreases 6 - i,
    {
        let ghost before = out@;
        if i > 0 {
            out.append(", ");
        }
        let (w, h) = SUPPORTED_SIZES[i];
        append_decimal(out, w as u128);
        out.append("x");
        append_decimal(out, h as u128);
        i += 1;
        assert(out@ + size_list(i as int) =~= before + size_list(i - 1));
    }
    assert(out@ + size_list(6) =~= out@);
}

/// Whether a checked config is the one that was read, if it is sound, or the
/// message of what is wrong with it.
pub open spec fn accepted(
    checked: Result<&Ssd1306Config, String>,
    read: Result<Ssd1306Config, String>,
) -> bool {
    match (checked, read) {
        (Ok(config), Ok(given)) => *config == given && module_fault(given) is None,
        (Err(message), Ok(given)) => module_fault(given) == Some(message@),
        (Err(message), Err(e)) => message@ == e@,
        (Ok(_), Err(_)) => false,
    }
}

/// Check the driver's own config, as read from its document (or the reader's
/// message, if the document does not have the shape of one). Shared by
/// config-time entity expansion and the hardware factory, so both reject the same
/// malformed documents with the same messages.
pub fn parse_config(read: &Result<Ssd1306Config, String>) -> (checked: Result<
    &Ssd1306Config,
    String,
>)
    ensures
        accepted(checked, *read),
{
    match read {
        Err(message) => Err(message.clone()),
        Ok(config) => {
            if !is_supported(config.width, config.height) {
                let mut text: String = "unsupported SSD1306 module size ".to_owned();
                append_decimal(&mut text, config.width as u128);
                text.append("x");
                append_decimal(&mut text, config.height as u128);
                text.append("; supported: ");
                append_sizes(&mut text);
                return Err(text);
            }
            match validate_rotation(config.rotation) {
                Ok(_) => Ok(config),
                Err(message) => Err(message),
            }
        },
    }
}

/// The driver of an SSD1306 display, before its first frame is drawn: its config
/// checked, and its zones cross-checked against the entities of the spec. The
/// controller's own RAM holds a frame, so zones are drawn directly.
pub fn factory<C: Copy>(spec: &DriverSpec, palette: WidgetPalette<C>) -> (made: Result<
    GenericDisplayDriver<C>,
    DriverError,
>)
    ensures
        match made {
            Ok(driver) => factory_fault(*spec) is None && made_for(
                driver,
                *spec,
                fresh_display(
                    *spec,
                    spec.config.ssd1306->Ok_0.layout@,
                    palette,
                    spec.config.ssd1306->Ok_0.render_interval_ms,
                    None,
                ),
            ) && renderable(driver.compositor@.zones),
            Err(e) => factory_fault(*spec) matches Some(message) && e@ == (
            DriverFault::InvalidConfig { instance: spec.instance_id@, message }),
        },
{
    let config: &Ssd1306Config = match parse_config(&spec.config.ssd1306) {
        Ok(config) => config,
        Err(message) => {
            return Err(
                DriverError::InvalidConfig { instance: spec.instance_id.clone(), message },
            );
        },
    };
    proof {
        lemma_supported_sizes_are_small(config.width, config.height);
    }
    match zones_of_spec(spec, &config.layout, config.dimensions()) {
        Err(e) => Err(e),
        Ok(zones) => {
            let driver = display_driver(spec, zones, palette, config.render_interval_ms, false);
            proof {
                let size = rotated_size(config.rotation, config.width, config.height);
                assert(size.0 * size.1 <= u32::MAX) by (nonlinear_arith)
                    requires
                        size.0 <= 128,
                        size.1 <= 128,
                ;
                lemma_zones_renderable(
                    spec.entities@,
                    config.layout@,
                    size,
                    driver.compositor@.zones,
                );
            }
            Ok(driver)
        },
    }
}

/// What keeps a spec from becoming an SSD1306 driver, if anything.
pub open spec fn factory_fault(spec: DriverSpec) -> Option<Seq<char>> {
    match spec.config.ssd1306 {
        Err(message) => Some(message@),
        Ok(config) => match module_fault(config) {
            Some(message) => Some(message),
            None => display_spec_fault(
                spec,
                config.layout@,
                rotated_size(config.rotation, config.width, config.height),
            ),
        },
    }
}

proof fn lemma_supported_sizes_are_small(width: u32, height: u32)
    requires
        supported(width, height),
    ensures
        width <= 128,
        height <= 64,
{
    let i = choose|i: int|
        0 <= i < SUPPORTED_SIZES@.len() && SUPPORTED_SIZES@[i] == (width, height);
    assert(SUPPORTED_SIZES@[i] == (width, height));
}

/// A module's facts are accepted exactly if its size is one of the six that the
/// controller supports and its rotation is a multiple of a right angle, less than a full
/// turn.
pub proof fn law_modules_have_supported_sizes(config: Ssd1306Config)
    ensures
        module_fault(config) is None <==> {
            let (w, h) = (config.width, config.height);
            &&& (w == 128 && (h == 64 || h == 32)) || (w == 96 && h == 16) || (w == 72 && h == 40)
                || (w == 64 && (h == 48 || h == 32))
            &&& config.rotation % 90 == 0
            &&& config.rotation < 360
        },
{
    let (w, h) = (config.width, config.height);
    crate::drivers::display::law_rotations_are_right_angles(config.rotation);
    let sizes = SUPPORTED_SIZES@;
    assert(sizes[0] == (128u32, 64u32));
    assert(sizes[1] == (128u32, 32u32));
    assert(sizes[2] == (96u32, 16u32));
    assert(sizes[3] == (72u32, 40u32));
    assert(sizes[4] == (64u32, 48u32));
    assert(sizes[5] == (64u32, 32u32));
    if supported(w, h) {
        let i = choose|i: int| 0 <= i < sizes.len() && sizes[i] == (w, h);
        assert(i == 0 || i == 1 || i == 2 || i == 3 || i == 4 || i == 5);
    }
}

} // verus!
