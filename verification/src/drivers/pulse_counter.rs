//! `pulse_counter` driver: turns pulses counted on a GPIO into a rate-based
//! sensor value.
//!
//! One generic driver covers every "pulse train in, rate out" sensor:
//! - entity type `rpm`: rate = pulses / pulses_per_revolution, in rev/min
//! - entity type `speed`: additionally scaled by `meters_per_revolution`
//!
//! A new instance (another pickup on another pin) is pure config.

use vstd::prelude::*;

use crate::drivers::{DriverSpec, Reading};
use crate::entities::id::{address_text, EntityAddress};
use crate::entities::{clone_entities, Entity, EntityId, EntityType, SensorType, SensorValue};
use crate::error::{DriverError, DriverFault};
use crate::ieee::Binary64;
use crate::text::{append_decimal, decimal};
use crate::time::{Duration, Instant};

verus! {

#[derive(Debug, Clone, Copy, PartialEq)]
pub struct PulseCounterConfig {
    /// GPIO the (already signal-conditioned) pulse train arrives on.
    pub pin: i32,
    /// Pulses per revolution of the measured shaft/wheel.
    pub pulses_per_revolution: u32,
    /// Length of one counting window; one reading is produced per window.
    pub sample_window_ms: u64,
    /// Distance travelled per revolution; required for `speed` entities.
    pub meters_per_revolution: Option<Binary64>,
}

pub fn default_pulses_per_revolution() -> (pulses: u32)
    ensures
        pulses == 1,
{
    1
}

pub fn default_sample_window_ms() -> (millis: u64)
    ensures
        millis == 500,
{
    500
}

/// A pulse counter at work.
#[derive(Debug)]
pub struct PulseCounterDriver {
    pub instance_id: String,
    pub entities: Vec<Entity>,
    pub entity_id: EntityId,
    pub output: SensorType,
    pub config: PulseCounterConfig,
    pub window_start: Instant,
}

/// What keeps a spec from becoming a pulse counter, if anything.
pub open spec fn factory_fault(spec: DriverSpec) -> Option<Seq<char>> {
    match spec.config.pulse_counter {
        Err(message) => Some(message@),
        Ok(config) => if config.pulses_per_revolution == 0 {
            Some("pulses_per_revolution must be >= 1"@)
        } else if config.sample_window_ms == 0 {
            Some("sample_window_ms must be >= 1"@)
        } else if spec.entities@.len() != 1 {
            Some(
                "pulse_counter exposes exactly one entity, got "@ + decimal(
                    spec.entities@.len(),
                ),
            )
        } else {
            match spec.entities@[0].entity_type {
                EntityType::Actuator(_) => Some(
                    "pulse_counter cannot provide actuator entity '"@ + address_text(
                        spec.entities@[0].id@,
                    ) + "'"@,
                ),
                EntityType::Sensor(output) => if output == SensorType::Speed
                    && config.meters_per_revolution is None {
                    Some("meters_per_revolution is required for a 'speed' entity"@)
                } else {
                    None
                },
            }
        },
    }
}

fn invalid(spec: &DriverSpec, message: String) -> (e: DriverError)
    ensures
        e@ == (DriverFault::InvalidConfig { instance: spec.instance_id@, message: message@ }),
{
    DriverError::InvalidConfig { instance: spec.instance_id.clone(), message }
}

/// The pulse counter a spec describes, its first window starting at `now`.
pub fn factory(spec: &DriverSpec, now: Instant) -> (made: Result<PulseCounterDriver, DriverError>)
    ensures
        match made {
            Ok(driver) => {
                &&& factory_fault(*spec) is None
                &&& driver.wf()
                &&& driver.instance_id@ == spec.instance_id@
                &&& driver.entities@ == spec.entities@
                &&& driver.entity_id@ == spec.entities@[0].id@
                &&& spec.entities@[0].entity_type == EntityType::Sensor(driver.output)
                &&& spec.config.pulse_counter == Ok::<PulseCounterConfig, String>(driver.config)
                &&& driver.window_start == now
            },
            Err(e) => factory_fault(*spec) matches Some(message) && e@ == (
            DriverFault::InvalidConfig { instance: spec.instance_id@, message }),
        },
{
    let config: PulseCounterConfig = match &spec.config.pulse_counter {
        Ok(config) => *config,
        Err(message) => {
            return Err(invalid(spec, message.clone()));
        },
    };
    if config.pulses_per_revolution == 0 {
        return Err(invalid(spec, "pulses_per_revolution must be >= 1".to_owned()));
    }
    if config.sample_window_ms == 0 {
        return Err(invalid(spec, "sample_window_ms must be >= 1".to_owned()));
    }
    if spec.entities.len() != 1 {
        let mut text: String = "pulse_counter exposes exactly one entity, got ".to_owned();
        append_decimal(&mut text, spec.entities.len() as u128);
        return Err(invalid(spec, text));
    }
    let entity: &Entity = &spec.entities[0];
    let output: SensorType = match entity.entity_type {
        EntityType::Sensor(t) => t,
        EntityType::Actuator(_) => {
            let mut text: String = "pulse_counter cannot provide actuator entity '".to_owned();
            text.append(entity.id.to_string().as_str());
            text.append("'");
            return Err(invalid(spec, text));
        },
    };
    if output == SensorType::Speed && config.meters_per_revolution.is_none() {
        return Err(
            invalid(spec, "meters_per_revolution is required for a 'speed' entity".to_owned()),
        );
    }
    Ok(
        PulseCounterDriver {
            instance_id: spec.instance_id.clone(),
            entities: clone_entities(&spec.entities),
            entity_id: entity.id.clone(),
            output,
            config,
            window_start: now,
        },
    )
}

/// The pulses of one closed counting window, and how long it was.
#[derive(Debug, Clone, Copy, PartialEq, Eq, Structural)]
pub struct CountedWindow {
    pub pulses: u32,
    pub millis: u128,
}

/// What drives a poll: its start, and what came of the work it asked for.
#[derive(Debug, PartialEq)]
pub enum PollEvent {
    Start(Instant),
    /// The counter was read and cleared at the time the poll started.
    Counted { now: Instant, count: i32 },
    /// Reading or clearing the counter failed.
    CounterFailed(DriverError),
    /// The rate that the counted window amounts to.
    Converted(SensorValue),
}

/// What a poll asks for, or what came of it.
#[derive(Debug, PartialEq)]
pub enum PollAction {
    /// Read the counter and clear it.
    ReadCounter,
    /// Convert a counted window into a rate of the driver's output type.
    Convert(CountedWindow),
    Finish(Result<Vec<Reading>, DriverError>),
}

/// The contents of a [`PollAction`].
#[verifier::ext_equal]
pub enum PollRequest {
    ReadCounter,
    Convert(CountedWindow),
    /// The readings the poll produced.
    Readings(Seq<(EntityAddress, SensorValue)>),
    Failed(DriverError),
}

impl View for PollAction {
    type V = PollRequest;

    open spec fn view(&self) -> PollRequest {
        match *self {
            PollAction::ReadCounter => PollRequest::ReadCounter,
            PollAction::Convert(window) => PollRequest::Convert(window),
            PollAction::Finish(Ok(readings)) => PollRequest::Readings(
                readings@.map_values(|r: Reading| (r.entity@, r.value)),
            ),
            PollAction::Finish(Err(e)) => PollRequest::Failed(e),
        }
    }
}

/// One step of a poll: what becomes of the driver, and what it asks for.
pub open spec fn poll_step(driver: PulseCounterDriver, event: PollEvent) -> (
    PulseCounterDriver,
    PollRequest,
) {
    match event {
        PollEvent::Start(now) => (
            driver,
            if driver.millis_at(now) < driver.config.sample_window_ms {
                PollRequest::Readings(Seq::empty())
            } else {
                PollRequest::ReadCounter
            },
        ),
        PollEvent::Counted { now, count } => (
            PulseCounterDriver { window_start: now, ..driver },
            PollRequest::Convert(driver.window_at(now, count)),
        ),
        PollEvent::CounterFailed(e) => (driver, PollRequest::Failed(e)),
        PollEvent::Converted(value) => (
            driver,
            PollRequest::Readings(seq![(driver.entity_id@, value)]),
        ),
    }
}

impl PulseCounterDriver {
    /// What the factory has checked.
    pub open spec fn wf(self) -> bool {
        &&& self.config.pulses_per_revolution > 0
        &&& self.config.sample_window_ms > 0
        &&& self.output == SensorType::Speed ==> self.config.meters_per_revolution is Some
    }

    /// Whole milliseconds since the window began.
    pub open spec fn millis_at(self, now: Instant) -> nat {
        now.since(self.window_start) / 1_000_000
    }

    /// The window that closes at `now` with the counter at `count`; a counter below
    /// zero counts as none.
    pub open spec fn window_at(self, now: Instant, count: i32) -> CountedWindow {
        CountedWindow {
            pulses: if count > 0 {
                count as u32
            } else {
                0
            },
            millis: self.millis_at(now) as u128,
        }
    }

    pub fn instance_id(&self) -> (id: &str)
        ensures
            id@ == self.instance_id@,
    {
        self.instance_id.as_str()
    }

    /// The entities this instance exposes.
    pub fn entities(&self) -> (entities: &[Entity])
        ensures
            entities@ == self.entities@,
    {
        self.entities.as_slice()
    }

    /// Called every main-loop tick. Produces one reading per elapsed sampling
    /// window; before that, nothing new.
    ///
    /// A poll starts with [`PollEvent::Start`]; each action it asks for is
    /// reported back, until it finishes.
    pub fn poll(&mut self, event: PollEvent) -> (asked: PollAction)
        ensures
            (*final(self), asked@) == poll_step(*old(self), event),
            event matches PollEvent::Counted { now, count } ==> {
                &&& asked matches PollAction::Convert(window)
                &&& window.pulses == if count >= 0 {
                    count as int
                } else {
                    0
                }
                &&& now.nanos >= old(self).window_start.nanos ==> window.millis == (now.nanos
                    - old(self).window_start.nanos) / 1_000_000
                &&& final(self).window_start == now
            },
    {
        match event {
            PollEvent::Start(now) => {
                let elapsed: Duration = now.duration_since(self.window_start);
                if elapsed.as_millis() < self.config.sample_window_ms as u128 {
                    let readings: Vec<Reading> = Vec::new();
                    assert(readings@.map_values(|r: Reading| (r.entity@, r.value)) =~= Seq::empty());
                    PollAction::Finish(Ok(readings))
                } else {
                    PollAction::ReadCounter
                }
            },
            PollEvent::Counted { now, count } => {
                let elapsed: Duration = now.duration_since(self.window_start);
                self.window_start = now;
                let pulses: u32 = if count > 0 {
                    count as u32
                } else {
                    0
                };
                PollAction::Convert(CountedWindow { pulses, millis: elapsed.as_millis() })
            },
            PollEvent::CounterFailed(e) => PollAction::Finish(Err(e)),
            PollEvent::Converted(value) => {
                let mut readings: Vec<Reading> = Vec::new();
                readings.push(Reading { entity: self.entity_id.clone(), value });
                assert(readings@.map_values(|r: Reading| (r.entity@, r.value)) =~= seq![
                    (self.entity_id@, value),
                ]);
                PollAction::Finish(Ok(readings))
            },
        }
    }
}

/// A whole poll at `now` in which every request is met: the counter reads `count`,
/// and `rate` says what a window amounts to.
pub open spec fn whole_poll(
    driver: PulseCounterDriver,
    now: Instant,
    count: i32,
    rate: spec_fn(CountedWindow) -> SensorValue,
) -> (PulseCounterDriver, PollRequest) {
    match poll_step(driver, PollEvent::Start(now)) {
        (started, PollRequest::ReadCounter) => match poll_step(
            started,
            PollEvent::Counted { now, count },
        ) {
            (counted, PollRequest::Convert(window)) => poll_step(
                counted,
                PollEvent::Converted(rate(window)),
            ),
            other => other,
        },
        other => other,
    }
}

/// A poll before the window has elapsed produces nothing and changes nothing; from
/// then on it produces exactly one reading, of the driver's entity, for all that
/// was counted since the window began, and begins the next window.
pub proof fn law_poll_produces_one_reading_per_window(
    driver: PulseCounterDriver,
    now: Instant,
    count: i32,
    rate: spec_fn(CountedWindow) -> SensorValue,
)
    ensures
        whole_poll(driver, now, count, rate) == if driver.millis_at(now)
            < driver.config.sample_window_ms {
            (driver, PollRequest::Readings(Seq::empty()))
        } else {
            (
                PulseCounterDriver { window_start: now, ..driver },
                PollRequest::Readings(
                    seq![(driver.entity_id@, rate(driver.window_at(now, count)))],
                ),
            )
        },
{
}

/// At most one reading per window: from the moment a window is closed until the
/// next one has elapsed, a poll has nothing new.
pub proof fn law_one_reading_per_window(driver: PulseCounterDriver, closed: Instant, now: Instant)
    requires
        driver.window_start == closed,
        now.since(closed) < driver.config.sample_window_ms * 1_000_000,
    ensures
        driver.millis_at(now) < driver.config.sample_window_ms,
{
}

/// A window that is due to be closed is never empty, so a rate over it is always
/// defined.
pub proof fn law_counted_windows_last(driver: PulseCounterDriver, now: Instant)
    requires
        driver.wf(),
        driver.millis_at(now) >= driver.config.sample_window_ms,
    ensures
        driver.millis_at(now) >= 1,
        driver.config.pulses_per_revolution >= 1,
{
}

/// Once the counter has been read, the poll asks for the conversion of all it
/// counted, whatever the configuration: as many pulses as the counter shows, or none
/// where it shows less than zero, over the whole milliseconds since the window began.
/// The next window begins at that very moment; nothing else of the driver changes.
pub proof fn law_all_pulses_are_converted(driver: PulseCounterDriver, now: Instant, count: i32)
    ensures
        ({
            let (next, asked) = poll_step(driver, PollEvent::Counted { now, count });
            &&& asked matches PollRequest::Convert(window)
            &&& count >= 0 ==> window.pulses == count
            &&& count < 0 ==> window.pulses == 0
            &&& now.nanos >= driver.window_start.nanos ==> window.millis * 1_000_000 <= now.nanos
                - driver.window_start.nanos < (window.millis + 1) * 1_000_000
            &&& now.nanos < driver.window_start.nanos ==> window.millis == 0
            &&& next == (PulseCounterDriver { window_start: now, ..driver })
        }),
{
}

/// How pulses are counted does not depend on how they are converted: drivers that
/// differ in their configuration alone ask for the conversion of the same windows.
pub proof fn law_windows_do_not_depend_on_configuration(
    a: PulseCounterDriver,
    b: PulseCounterDriver,
    now: Instant,
    count: i32,
)
    requires
        a.window_start == b.window_start,
    ensures
        poll_step(a, PollEvent::Counted { now, count }).1 == poll_step(
            b,
            PollEvent::Counted { now, count },
        ).1,
{
}

/// No pulse is lost or counted twice: of two counter states the higher one is
/// converted to as many more pulses.
pub proof fn law_pulses_add_up(driver: PulseCounterDriver, now: Instant, count: i32, more: i32)
    requires
        0 <= count,
        0 <= more,
        count + more <= i32::MAX,
    ensures
        match (
            poll_step(driver, PollEvent::Counted { now, count }).1,
            poll_step(driver, PollEvent::Counted { now, count: (count + more) as i32 }).1,
        ) {
            (PollRequest::Convert(fewer), PollRequest::Convert(all)) => all.pulses == fewer.pulses
                + more,
            _ => false,
        },
{
}

/// A poll reads the counter exactly if the configured number of milliseconds has gone
/// by since the window began, and otherwise reports that there is nothing new. Either
/// way the driver stays as it is until the counter has been read.
pub proof fn law_counter_is_read_once_the_window_has_elapsed(
    driver: PulseCounterDriver,
    now: Instant,
)
    requires
        driver.window_start.nanos <= now.nanos,
    ensures
        ({
            let (next, asked) = poll_step(driver, PollEvent::Start(now));
            &&& next == driver
            &&& asked == if now.nanos >= driver.window_start.nanos
                + driver.config.sample_window_ms * 1_000_000 {
                PollRequest::ReadCounter
            } else {
                PollRequest::Readings(Seq::empty())
            }
        }),
{
}

/// What came of a conversion is the driver's one reading, unchanged and under the
/// driver's own entity; and a failure of the counter is passed on as it is, with the
/// window still open.
pub proof fn law_results_are_passed_on(
    driver: PulseCounterDriver,
    value: SensorValue,
    e: DriverError,
)
    ensures
        ({
            let (next, asked) = poll_step(driver, PollEvent::Converted(value));
            &&& next == driver
            &&& asked matches PollRequest::Readings(readings)
            &&& readings.len() == 1
            &&& readings[0].0 == driver.entity_id@
            &&& readings[0].1 == value
        }),
        poll_step(driver, PollEvent::CounterFailed(e)) == (driver, PollRequest::Failed(e)),
{
}

/// A pulse counter can be made exactly if its configuration was read and has at least
/// one pulse per revolution and at least a millisecond of window, and the spec lists one
/// entity, a sensor, which if it is a speed has a distance per revolution.
pub proof fn law_pulse_counters_have_one_sensor(spec: DriverSpec)
    ensures
        factory_fault(spec) is None <==> match spec.config.pulse_counter {
            Err(_) => false,
            Ok(config) => {
                &&& config.pulses_per_revolution >= 1
                &&& config.sample_window_ms >= 1
                &&& spec.entities@.len() == 1
                &&& spec.entities@[0].entity_type is Sensor
                &&& spec.entities@[0].entity_type == EntityType::Sensor(SensorType::Speed)
                    ==> config.meters_per_revolution is Some
            },
        },
{
}

/// Why a spec is refused, in this order: the reader's message, no pulse per revolution,
/// no window, not one entity, no sensor, and a speed without a distance.
pub proof fn law_refused_pulse_counters_are_told_why(spec: DriverSpec)
    ensures
        spec.config.pulse_counter matches Err(message) ==> factory_fault(spec) == Some(message@),
        spec.config.pulse_counter matches Ok(config) ==> {
            let fault = factory_fault(spec);
            let turning = config.pulses_per_revolution >= 1;
            let sampling = turning && config.sample_window_ms >= 1;
            let single = sampling && spec.entities@.len() == 1;
            &&& !turning ==> fault == Some("pulses_per_revolution must be >= 1"@)
            &&& turning && !sampling ==> fault == Some("sample_window_ms must be >= 1"@)
            &&& sampling && !single ==> fault == Some(
                "pulse_counter exposes exactly one entity, got "@ + decimal(spec.entities@.len()),
            )
            &&& single && spec.entities@[0].entity_type is Actuator ==> fault == Some(
                "pulse_counter cannot provide actuator entity '"@ + address_text(
                    spec.entities@[0].id@,
                ) + "'"@,
            )
            &&& single && spec.entities@[0].entity_type == EntityType::Sensor(SensorType::Speed)
                && config.meters_per_revolution is None ==> fault == Some(
                "meters_per_revolution is required for a 'speed' entity"@,
            )
        },
{
}

/// What is said of a poll's action leaves nothing of it out: the window, the readings in
/// order, or the error.
pub proof fn law_poll_actions_are_told_in_full(action: PollAction)
    ensures
        match (action, action@) {
            (PollAction::ReadCounter, PollRequest::ReadCounter) => true,
            (PollAction::Convert(a), PollRequest::Convert(b)) => a == b,
            (PollAction::Finish(Ok(readings)), PollRequest::Readings(told)) => told.len()
                == readings@.len() && forall|i: int|
                0 <= i < told.len() ==> (#[trigger] told[i]).0 == readings@[i].entity@ && told[i].1
                    == readings@[i].value,
            (PollAction::Finish(Err(e)), PollRequest::Failed(f)) => e == f,
            _ => false,
        },
{
}

} // verus!
