//! Hardware resource pool: hands out config-level resource numbers (GPIO pins,
//! peripheral controllers), each at most once.
//!
//! Drivers never pick hardware themselves; they claim what their config names
//! from this pool, and double-claims fail with a meaningful error instead of a
//! panic or silent aliasing.

use std::collections::HashSet;

use vstd::prelude::*;

use crate::error::{DriverError, DriverFault};
use crate::text::{append_signed_decimal, signed_decimal};

verus! {

/// The ESP-IDF's code for a resource that is not there.
pub const ESP_ERR_NOT_FOUND: i32 = 0x105;

/// What has been handed out, and what has not.
#[derive(Debug)]
pub struct HardwarePool {
    claimed_pins: HashSet<u8>,
    i2c0_free: bool,
    spi2_free: bool,
}

/// The contents of a [`HardwarePool`].
#[verifier::ext_equal]
pub struct Claims {
    pub pins: Set<u8>,
    pub i2c0_free: bool,
    pub spi2_free: bool,
}

impl View for HardwarePool {
    type V = Claims;

    closed spec fn view(&self) -> Claims {
        Claims {
            pins: self.claimed_pins@,
            i2c0_free: self.i2c0_free,
            spi2_free: self.spi2_free,
        }
    }
}

/// The GPIO that a number names: the ESP32 has 0 to 39. (GPIOs 34-39 are
/// input-only but still valid to claim; the driver using them decides direction.)
pub open spec fn is_gpio(gpio: i32) -> bool {
    0 <= gpio <= 39
}

impl Claims {
    /// What keeps a pin from being claimed, if anything.
    pub open spec fn pin_fault(self, gpio: i32) -> Option<DriverFault> {
        if !is_gpio(gpio) {
            Some(
                DriverFault::ResourceConflict(
                    "GPIO "@ + signed_decimal(gpio as int) + " does not exist on the ESP32"@,
                ),
            )
        } else if self.pins.contains(gpio as u8) {
            Some(
                DriverFault::ResourceConflict(
                    "GPIO "@ + signed_decimal(gpio as int)
                        + " is already in use by another entity"@,
                ),
            )
        } else {
            None
        }
    }

    /// The claims once a pin, if it could be, is claimed as well.
    pub open spec fn with_pin(self, gpio: i32) -> Claims {
        if self.pin_fault(gpio) is None {
            Claims { pins: self.pins.insert(gpio as u8), ..self }
        } else {
            self
        }
    }

    /// What keeps pins from being claimed one after another, if anything: the
    /// fault of the first that cannot be.
    pub open spec fn pins_fault(self, gpios: Seq<i32>) -> Option<DriverFault>
        decreases gpios.len(),
    {
        if gpios.len() == 0 {
            None
        } else {
            match self.pin_fault(gpios[0]) {
                Some(fault) => Some(fault),
                None => self.with_pin(gpios[0]).pins_fault(gpios.skip(1)),
            }
        }
    }

    /// The claims once pins are claimed one after another, up to the first that
    /// cannot be: what was claimed before a failure stays claimed.
    pub open spec fn with_pins(self, gpios: Seq<i32>) -> Claims
        decreases gpios.len(),
    {
        if gpios.len() == 0 || self.pin_fault(gpios[0]) is Some {
            self
        } else {
            self.with_pin(gpios[0]).with_pins(gpios.skip(1))
        }
    }
}

/// Whether a claim came out as `fault` says.
pub open spec fn claimed<T>(claim: Result<T, DriverError>, fault: Option<DriverFault>) -> bool {
    match claim {
        Ok(_) => fault is None,
        Err(e) => fault == Some(e@),
    }
}

fn pin_conflict(gpio: i32, problem: &str) -> (e: DriverError)
    ensures
        e@ == DriverFault::ResourceConflict("GPIO "@ + signed_decimal(gpio as int) + problem@),
{
    let mut text: String = "GPIO ".to_owned();
    append_signed_decimal(&mut text, gpio);
    text.append(problem);
    DriverError::ResourceConflict(text)
}

impl HardwarePool {
    /// A pool of which nothing has been handed out.
    pub fn new() -> (pool: Self)
        ensures
            pool@ == (Claims { pins: Set::empty(), i2c0_free: true, spi2_free: true }),
    {
        HardwarePool { claimed_pins: HashSet::new(), i2c0_free: true, spi2_free: true }
    }

    /// Claim a GPIO by number. Fails if out of range or already claimed.
    pub fn claim_pin(&mut self, gpio: i32) -> (claim: Result<u8, DriverError>)
        ensures
            claimed(claim, old(self)@.pin_fault(gpio)),
            claim matches Ok(pin) ==> pin == gpio,
            final(self)@ == old(self)@.with_pin(gpio),
    {
        if gpio < 0 || gpio > 39 {
            return Err(pin_conflict(gpio, " does not exist on the ESP32"));
        }
        let pin: u8 = gpio as u8;
        if !self.claimed_pins.insert(pin) {
            assert(self@.pins =~= old(self)@.pins);
            return Err(pin_conflict(gpio, " is already in use by another entity"));
        }
        Ok(pin)
    }

    /// What came of opening a pulse-counting unit. The ESP-IDF allocates units
    /// itself; exhaustion (more pulse-counting entities than hardware units) is
    /// reported as a resource conflict rather than a raw error.
    pub fn claim_pcnt_unit<U>(&mut self, opened: Result<U, (i32, String)>) -> (claim: Result<
        U,
        DriverError,
    >)
        ensures
            final(self)@ == old(self)@,
            match (claim, opened) {
                (Ok(unit), Ok(given)) => unit == given,
                (Err(e), Err((code, description))) => e@ == if code == ESP_ERR_NOT_FOUND {
                    DriverFault::ResourceConflict("all PCNT units are already in use"@)
                } else {
                    DriverFault::Esp { code, description: description@ }
                },
                _ => false,
            },
    {
        match opened {
            Ok(unit) => Ok(unit),
            Err((code, description)) => {
                if code == ESP_ERR_NOT_FOUND {
                    Err(
                        DriverError::ResourceConflict(
                            "all PCNT units are already in use".to_owned(),
                        ),
                    )
                } else {
                    Err(DriverError::Esp { code, description })
                }
            },
        }
    }

    /// Claim the SPI2 (HSPI) controller as a single write-only device on the
    /// given pins. MISO is deliberately not wired: the only SPI peripherals in
    /// the system are displays, which are write-only.
    pub fn claim_spi(&mut self, sclk: i32, mosi: i32, cs: i32) -> (claim: Result<
        (u8, u8, u8),
        DriverError,
    >)
        ensures
            ({
                let pins = seq![sclk, mosi, cs];
                let claims = old(self)@.with_pins(pins);
                match old(self)@.pins_fault(pins) {
                    Some(fault) => claim is Err && claim->Err_0@ == fault && final(self)@ == claims,
                    None => {
                        &&& final(self)@ == (Claims { spi2_free: false, ..claims })
                        &&& if claims.spi2_free {
                            claim matches Ok(got) && got.0 == sclk && got.1 == mosi && got.2 == cs
                        } else {
                            claim matches Err(e) && e@ == DriverFault::ResourceConflict(
                                "SPI2 is already in use"@,
                            )
                        }
                    },
                }
            }),
    {
        proof {
            let pins = seq![sclk, mosi, cs];
            assert(pins.skip(1) =~= seq![mosi, cs]);
            assert(seq![mosi, cs].skip(1) =~= seq![cs]);
            assert(seq![cs].skip(1) =~= Seq::<i32>::empty());
            reveal_with_fuel(Claims::pins_fault, 4);
            reveal_with_fuel(Claims::with_pins, 4);
        }
        let sclk_pin: u8 = match self.claim_pin(sclk) {
            Ok(pin) => pin,
            Err(e) => {
                return Err(e);
            },
        };
        let mosi_pin: u8 = match self.claim_pin(mosi) {
            Ok(pin) => pin,
            Err(e) => {
                return Err(e);
            },
        };
        let cs_pin: u8 = match self.claim_pin(cs) {
            Ok(pin) => pin,
            Err(e) => {
                return Err(e);
            },
        };
        if !self.spi2_free {
            return Err(DriverError::ResourceConflict("SPI2 is already in use".to_owned()));
        }
        self.spi2_free = false;
        Ok((sclk_pin, mosi_pin, cs_pin))
    }

    /// Claim the I2C0 controller on the given pins.
    pub fn claim_i2c(&mut self, sda: i32, scl: i32) -> (claim: Result<(u8, u8), DriverError>)
        ensures
            ({
                let pins = seq![sda, scl];
                let claims = old(self)@.with_pins(pins);
                match old(self)@.pins_fault(pins) {
                    Some(fault) => claim is Err && claim->Err_0@ == fault && final(self)@ == claims,
                    None => {
                        &&& final(self)@ == (Claims { i2c0_free: false, ..claims })
                        &&& if claims.i2c0_free {
                            claim matches Ok(got) && got.0 == sda && got.1 == scl
                        } else {
                            claim matches Err(e) && e@ == DriverFault::ResourceConflict(
                                "I2C0 is already in use"@,
                            )
                        }
                    },
                }
            }),
    {
        proof {
            let pins = seq![sda, scl];
            assert(pins.skip(1) =~= seq![scl]);
            assert(seq![scl].skip(1) =~= Seq::<i32>::empty());
            reveal_with_fuel(Claims::pins_fault, 3);
            reveal_with_fuel(Claims::with_pins, 3);
        }
        let sda_pin: u8 = match self.claim_pin(sda) {
            Ok(pin) => pin,
            Err(e) => {
                return Err(e);
            },
        };
        let scl_pin: u8 = match self.claim_pin(scl) {
            Ok(pin) => pin,
            Err(e) => {
                return Err(e);
            },
        };
        if !self.i2c0_free {
            return Err(DriverError::ResourceConflict("I2C0 is already in use".to_owned()));
        }
        self.i2c0_free = false;
        Ok((sda_pin, scl_pin))
    }
}

/// A pin is handed out at most once: after it was claimed, every later claim of
/// it fails, whatever was claimed in between.
pub proof fn law_pins_are_claimed_once(claims: Claims, gpio: i32, between: Seq<i32>)
    requires
        claims.pin_fault(gpio) is None,
    ensures
        claims.with_pin(gpio).with_pins(between).pin_fault(gpio) is Some,
{
    lemma_claims_persist(claims.with_pin(gpio), between, gpio as u8);
}

/// What is claimed stays claimed.
proof fn lemma_claims_persist(claims: Claims, gpios: Seq<i32>, pin: u8)
    requires
        claims.pins.contains(pin),
    ensures
        claims.with_pins(gpios).pins.contains(pin),
    decreases gpios.len(),
{
    if gpios.len() > 0 && claims.pin_fault(gpios[0]) is None {
        lemma_claims_persist(claims.with_pin(gpios[0]), gpios.skip(1), pin);
    }
}

/// Pins of one accepted claim are all different.
pub proof fn law_claimed_pins_differ(claims: Claims, gpios: Seq<i32>, i: int, j: int)
    requires
        claims.pins_fault(gpios) is None,
        0 <= i < j < gpios.len(),
    ensures
        gpios[i] != gpios[j],
        !claims.pins.contains(gpios[i] as u8),
    decreases gpios.len(),
{
    let next = claims.with_pin(gpios[0]);
    let rest = gpios.skip(1);
    if i > 0 {
        law_claimed_pins_differ(next, rest, i - 1, j - 1);
        assert(rest[i - 1] == gpios[i]);
    } else {
        lemma_taken_pin_fails(next, rest, j - 1);
    }
}

proof fn lemma_taken_pin_fails(claims: Claims, gpios: Seq<i32>, j: int)
    requires
        claims.pins_fault(gpios) is None,
        0 <= j < gpios.len(),
    ensures
        !claims.pins.contains(gpios[j] as u8),
    decreases gpios.len(),
{
    if j > 0 {
        lemma_taken_pin_fails(claims.with_pin(gpios[0]), gpios.skip(1), j - 1);
    }
}

/// A pin can be claimed exactly if it is one of GPIO 0 to 39 and has not been claimed
/// yet; the claim then adds that pin and touches nothing else, and a claim that fails
/// leaves everything as it was.
pub proof fn law_free_pins_can_be_claimed(claims: Claims, gpio: i32)
    ensures
        claims.pin_fault(gpio) is None <==> gpio >= 0 && gpio < 40 && !claims.pins.contains(
            gpio as u8,
        ),
        claims.pin_fault(gpio) is Some ==> claims.with_pin(gpio) == claims,
        claims.pin_fault(gpio) is None ==> {
            let after = claims.with_pin(gpio);
            &&& forall|pin: u8|
                #[trigger] after.pins.contains(pin) <==> claims.pins.contains(pin) || pin == gpio
            &&& after.i2c0_free == claims.i2c0_free
            &&& after.spi2_free == claims.spi2_free
        },
{
}

/// A refused claim of a pin says which pin, and whether it does not exist or is taken.
pub proof fn law_refused_pins_are_named(claims: Claims, gpio: i32)
    ensures
        gpio < 0 || gpio > 39 ==> claims.pin_fault(gpio) == Some(
            DriverFault::ResourceConflict(
                "GPIO "@ + signed_decimal(gpio as int) + " does not exist on the ESP32"@,
            ),
        ),
        0 <= gpio <= 39 && claims.pins.contains(gpio as u8) ==> claims.pin_fault(gpio) == Some(
            DriverFault::ResourceConflict(
                "GPIO "@ + signed_decimal(gpio as int) + " is already in use by another entity"@,
            ),
        ),
{
}

/// Several pins can be claimed together exactly if each of them is one of GPIO 0 to 39,
/// none has been claimed yet, and none is named twice; then they are all claimed, and
/// no others.
pub proof fn law_pins_are_claimed_together(claims: Claims, gpios: Seq<i32>)
    ensures
        claims.pins_fault(gpios) is None <==> {
            &&& forall|i: int|
                0 <= i < gpios.len() ==> 0 <= #[trigger] gpios[i] < 40 && !claims.pins.contains(
                    gpios[i] as u8,
                )
            &&& forall|i: int, j: int|
                0 <= i < j < gpios.len() ==> #[trigger] gpios[i] != #[trigger] gpios[j]
        },
        claims.pins_fault(gpios) is None ==> {
            let after = claims.with_pins(gpios);
            &&& forall|pin: u8| #[trigger]
                after.pins.contains(pin) <==> claims.pins.contains(pin) || gpios.contains(
                    pin as i32,
                )
            &&& after.i2c0_free == claims.i2c0_free
            &&& after.spi2_free == claims.spi2_free
        },
    decreases gpios.len(),
{
    if gpios.len() > 0 {
        let next = claims.with_pin(gpios[0]);
        let rest = gpios.skip(1);
        law_free_pins_can_be_claimed(claims, gpios[0]);
        law_pins_are_claimed_together(next, rest);
        assert forall|i: int| 1 <= i < gpios.len() implies #[trigger] gpios[i] == rest[i - 1] by {}
        if claims.pins_fault(gpios) is None {
            assert forall|i: int| 0 <= i < gpios.len() implies 0 <= #[trigger] gpios[i] < 40
                && !claims.pins.contains(gpios[i] as u8) by {
                if i > 0 {
                    assert(rest[i - 1] == gpios[i]);
                }
            }
            assert forall|i: int, j: int| 0 <= i < j < gpios.len() implies #[trigger] gpios[i]
                != #[trigger] gpios[j] by {
                assert(rest[j - 1] == gpios[j]);
                if i > 0 {
                    assert(rest[i - 1] == gpios[i]);
                }
            }
            let after = claims.with_pins(gpios);
            assert(after == next.with_pins(rest));
            assert forall|pin: u8| #[trigger] after.pins.contains(pin) <==> claims.pins.contains(pin)
                || gpios.contains(pin as i32) by {
                if rest.contains(pin as i32) {
                    assert(gpios[rest.index_of(pin as i32) + 1] == pin as i32);
                }
                if gpios.contains(pin as i32) {
                    let k = gpios.index_of(pin as i32);
                    if k > 0 {
                        assert(rest[k - 1] == pin as i32);
                    }
                }
            }
        } else if (forall|i: int|
            0 <= i < gpios.len() ==> 0 <= #[trigger] gpios[i] < 40 && !claims.pins.contains(
                gpios[i] as u8,
            )) && (forall|i: int, j: int|
            0 <= i < j < gpios.len() ==> #[trigger] gpios[i] != #[trigger] gpios[j]) {
            assert(claims.pin_fault(gpios[0]) is None);
            assert forall|i: int| 0 <= i < rest.len() implies 0 <= #[trigger] rest[i] < 40
                && !next.pins.contains(rest[i] as u8) by {
                assert(rest[i] == gpios[i + 1]);
                assert(gpios[0] != gpios[i + 1]);
            }
            assert forall|i: int, j: int| 0 <= i < j < rest.len() implies #[trigger] rest[i]
                != #[trigger] rest[j] by {
                assert(gpios[i + 1] != gpios[j + 1]);
            }
        }
    } else {
        assert(claims.with_pins(gpios) == claims);
    }
}

/// Where several pins cannot all be claimed, the first that cannot be is reported, and
/// those before it stay claimed.
pub proof fn law_the_first_refused_pin_is_reported(claims: Claims, gpios: Seq<i32>, k: int)
    requires
        0 <= k < gpios.len(),
        claims.pins_fault(gpios.take(k)) is None,
        claims.with_pins(gpios.take(k)).pin_fault(gpios[k]) is Some,
    ensures
        claims.pins_fault(gpios) == claims.with_pins(gpios.take(k)).pin_fault(gpios[k]),
        claims.with_pins(gpios) == claims.with_pins(gpios.take(k)),
    decreases k,
{
    if k > 0 {
        let start = gpios.take(k);
        let rest = gpios.skip(1);
        assert(start[0] == gpios[0]);
        assert(start.skip(1) =~= rest.take(k - 1));
        assert(rest[k - 1] == gpios[k]);
        law_the_first_refused_pin_is_reported(claims.with_pin(gpios[0]), rest, k - 1);
    } else {
        assert(gpios.take(0) =~= Seq::<i32>::empty());
    }
}

/// A claim succeeds exactly if there is no fault, and fails with the very one there is.
pub proof fn law_claims_tell_the_fault<T>(fault: Option<DriverFault>, got: T, e: DriverError)
    ensures
        claimed(Ok::<T, DriverError>(got), fault) <==> fault is None,
        claimed(Err::<T, DriverError>(e), fault) <==> fault is Some && fault->0 == e@,
{
}

} // verus!
