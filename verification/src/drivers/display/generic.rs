//! The display driver shared by every chip: the last mile of decoupling hardware
//! from rendering.
//!
//! Every display exposes its zones as entities, stages what bindings deliver, and
//! draws and flushes on its own schedule; only hardware initialization, drawing
//! and the flush over the wire differ between chips. What is common to all is
//! decided here, once.

use vstd::prelude::*;

use crate::drivers::display::compositor::{
    carried_out, law_dirty_means_drawn, lemma_next_outdated, next_outdated, whole_tick, zone_of,
    Composition, Compositor, TickAction, TickEvent,
};
use crate::entities::{ActuatorCommand, Entity, EntityId};
use crate::error::{DriverError, DriverFault};
use crate::time::Instant;

verus! {

/// One actuator driver, shared by every display chip: wires commands and flushes
/// against a [`Compositor`]. A command only stages the update; a flush is where
/// the tick actually happens and, only if anything changed, the hardware flush.
#[derive(Debug)]
pub struct GenericDisplayDriver<C> {
    pub instance_id: String,
    pub entities: Vec<Entity>,
    pub compositor: Compositor<C>,
}

/// What drives a flush: its start, and how the work it asked for went.
#[derive(Debug, PartialEq)]
pub enum FlushEvent {
    Start(Instant),
    ZoneDrawn(usize),
    /// Drawing a zone failed; the message says how.
    DrawFailed(String),
    HardwareFlushed(Result<(), DriverError>),
}

/// What a flush asks for, or what came of it.
#[derive(Debug, PartialEq)]
pub enum FlushAction {
    DrawZone(usize),
    FlushHardware,
    Finish(Result<(), DriverError>),
}

/// What a flush does once the tick asks for `action`: draw on, or flush the
/// hardware if anything changed since that was last done.
pub open spec fn flush_next<C>(before: Composition<C>, action: TickAction) -> (
    Composition<C>,
    FlushAction,
) {
    match action {
        TickAction::DrawZone(i) => (before, FlushAction::DrawZone(i)),
        TickAction::Done => (
            Composition { dirty: false, ..before },
            if before.dirty {
                FlushAction::FlushHardware
            } else {
                FlushAction::Finish(Ok(()))
            },
        ),
    }
}

/// One step of a flush: what the compositor holds after `event`, and what is
/// asked for.
pub open spec fn flush_step<C>(before: Composition<C>, event: FlushEvent) -> (
    Composition<C>,
    FlushAction,
) {
    match event {
        FlushEvent::Start(now) => {
            let (ticked, action) = before.step(TickEvent::Start(now));
            flush_next(ticked, action)
        },
        FlushEvent::ZoneDrawn(i) => {
            let (ticked, action) = before.step(TickEvent::ZoneDrawn(i));
            flush_next(ticked, action)
        },
        FlushEvent::DrawFailed(message) => (
            before,
            FlushAction::Finish(Err(DriverError::Display(message))),
        ),
        FlushEvent::HardwareFlushed(outcome) => (before, FlushAction::Finish(outcome)),
    }
}

/// What came of a flush.
#[verifier::ext_equal]
pub struct FlushRun<C> {
    /// What the compositor holds in the end.
    pub contents: Composition<C>,
    /// The zones that were drawn, in order.
    pub drawn: Seq<int>,
    pub hardware_flushes: nat,
    /// Whether the flush finished, and without an error.
    pub succeeded: bool,
}

/// The rest of a flush in which every request is met, at most `fuel` of them.
pub open spec fn flush_carried_out<C>(
    c: Composition<C>,
    asked: FlushAction,
    fuel: nat,
) -> FlushRun<C>
    decreases fuel,
{
    match asked {
        FlushAction::Finish(outcome) => FlushRun {
            contents: c,
            drawn: Seq::empty(),
            hardware_flushes: 0,
            succeeded: outcome is Ok,
        },
        FlushAction::DrawZone(i) => if fuel == 0 {
            FlushRun { contents: c, drawn: Seq::empty(), hardware_flushes: 0, succeeded: false }
        } else {
            let (next, request) = flush_step(c, FlushEvent::ZoneDrawn(i));
            let rest = flush_carried_out(next, request, (fuel - 1) as nat);
            FlushRun { drawn: seq![i as int] + rest.drawn, ..rest }
        },
        FlushAction::FlushHardware => if fuel == 0 {
            FlushRun { contents: c, drawn: Seq::empty(), hardware_flushes: 0, succeeded: false }
        } else {
            let (next, request) = flush_step(c, FlushEvent::HardwareFlushed(Ok(())));
            let rest = flush_carried_out(next, request, (fuel - 1) as nat);
            FlushRun { hardware_flushes: rest.hardware_flushes + 1, ..rest }
        },
    }
}

/// A whole flush in which every request is met: each zone at most once, and then
/// the hardware.
pub open spec fn whole_flush<C>(c: Composition<C>, now: Instant) -> FlushRun<C> {
    let (started, request) = flush_step(c, FlushEvent::Start(now));
    flush_carried_out(started, request, c.zones.len() + 1)
}

impl<C: Copy> GenericDisplayDriver<C> {
    pub fn new(instance_id: String, entities: Vec<Entity>, compositor: Compositor<C>) -> (driver:
        Self)
        ensures
            driver.instance_id == instance_id,
            driver.entities == entities,
            driver.compositor == compositor,
    {
        GenericDisplayDriver { instance_id, entities, compositor }
    }

    pub fn instance_id(&self) -> (id: &str)
        ensures
            id@ == self.instance_id@,
    {
        self.instance_id.as_str()
    }

    /// The entities this instance exposes.
    pub fn entities(&self) -> (entities: &[Entity])
        ensures
            entities@ == self.entities@,
    {
        self.entities.as_slice()
    }

    /// Stage the state a command delivers for one of the display's zones.
    pub fn execute(&mut self, target: &EntityId, command: &ActuatorCommand) -> (outcome: Result<
        (),
        DriverError,
    >)
        ensures
            final(self).instance_id == old(self).instance_id,
            final(self).entities == old(self).entities,
            match zone_of(old(self).compositor@.zones, target@, 0) {
                Some(i) => {
                    let ActuatorCommand::SourceUpdate { availability, value } = *command;
                    &&& outcome is Ok
                    &&& final(self).compositor@ == (Composition {
                        zones: old(self).compositor@.zones.update(
                            i,
                            old(self).compositor@.zones[i].with_staged(availability, value),
                        ),
                        ..old(self).compositor@
                    })
                },
                None => {
                    &&& outcome matches Err(e)
                    &&& e@ == (DriverFault::UnknownEntity {
                        instance: old(self).instance_id@,
                        entity: target@,
                    })
                    &&& final(self).compositor@ == old(self).compositor@
                },
            },
    {
        match self.compositor.zone_index(target) {
            None => Err(
                DriverError::UnknownEntity {
                    instance: self.instance_id.clone(),
                    entity: target.clone(),
                },
            ),
            Some(idx) => {
                let ActuatorCommand::SourceUpdate { availability, value } = *command;
                self.compositor.stage(idx, availability, value);
                Ok(())
            },
        }
    }

    fn after_tick(&mut self, action: TickAction) -> (asked: FlushAction)
        ensures
            final(self).instance_id == old(self).instance_id,
            final(self).entities == old(self).entities,
            (final(self).compositor@, asked) == flush_next(old(self).compositor@, action),
    {
        match action {
            TickAction::DrawZone(i) => FlushAction::DrawZone(i),
            TickAction::Done => {
                if self.compositor.take_dirty() {
                    FlushAction::FlushHardware
                } else {
                    FlushAction::Finish(Ok(()))
                }
            },
        }
    }

    /// Called once per main-loop tick, after all commands for it were delivered.
    /// Several zone updates share one flush: the zones that changed are drawn,
    /// then the hardware is flushed exactly once, and only if something actually
    /// changed.
    ///
    /// A flush starts with [`FlushEvent::Start`]; each action it asks for is
    /// reported back, until it finishes.
    pub fn flush(&mut self, event: FlushEvent) -> (asked: FlushAction)
        ensures
            final(self).instance_id == old(self).instance_id,
            final(self).entities == old(self).entities,
            (final(self).compositor@, asked) == flush_step(old(self).compositor@, event),
    {
        match event {
            FlushEvent::Start(now) => {
                let action: TickAction = self.compositor.tick(TickEvent::Start(now));
                self.after_tick(action)
            },
            FlushEvent::ZoneDrawn(i) => {
                let action: TickAction = self.compositor.tick(TickEvent::ZoneDrawn(i));
                self.after_tick(action)
            },
            FlushEvent::DrawFailed(message) => FlushAction::Finish(
                Err(DriverError::Display(message)),
            ),
            FlushEvent::HardwareFlushed(outcome) => FlushAction::Finish(outcome),
        }
    }
}

/// A flush goes on from a tick's request as the tick does, and then flushes the
/// hardware if the tick left the dirty flag raised.
proof fn lemma_flush_follows_tick<C>(c: Composition<C>, from: int, fuel: nat)
    requires
        0 <= from <= c.zones.len() <= usize::MAX,
        fuel >= c.zones.len() - from,
    ensures
        ({
            let (end, drawn) = carried_out(c, c.request(from), fuel);
            let (next, asked) = flush_next(c, c.request(from));
            flush_carried_out(next, asked, fuel + 1) == (FlushRun {
                contents: Composition { dirty: false, ..end },
                drawn,
                hardware_flushes: if end.dirty {
                    1
                } else {
                    0
                },
                succeeded: true,
            })
        }),
    decreases c.zones.len() - from,
{
    lemma_next_outdated(c.zones, from);
    match next_outdated(c.zones, from) {
        None => {
            lemma_flush_ends(c, fuel);
        },
        Some(i) => {
            assert(c.request(from) == TickAction::DrawZone(i as usize));
            lemma_flush_follows_tick(c.after_drawing(i), i + 1, (fuel - 1) as nat);
        },
    }
}

/// A flush whose tick has nothing more to draw ends after at most one hardware
/// flush.
proof fn lemma_flush_ends<C>(c: Composition<C>, fuel: nat)
    ensures
        ({
            let (next, asked) = flush_next(c, TickAction::Done);
            flush_carried_out(next, asked, fuel + 1) == (FlushRun {
                contents: Composition { dirty: false, ..c },
                drawn: Seq::<int>::empty(),
                hardware_flushes: if c.dirty {
                    1
                } else {
                    0
                },
                succeeded: true,
            })
        }),
{
    reveal_with_fuel(flush_carried_out, 2);
}

/// A flush draws what its tick draws, and then flushes the hardware exactly once,
/// and only if something changed since that was last done; it leaves what the tick
/// leaves, with the dirty flag taken.
pub proof fn law_flush_draws_then_flushes_once_if_changed<C>(c: Composition<C>, now: Instant)
    requires
        c.zones.len() <= usize::MAX,
    ensures
        whole_flush(c, now).contents == (Composition { dirty: false, ..whole_tick(c, now).0 }),
        whole_flush(c, now).drawn == whole_tick(c, now).1,
        whole_flush(c, now).hardware_flushes == if c.dirty || whole_tick(c, now).1.len() > 0 {
            1nat
        } else {
            0nat
        },
        whole_flush(c, now).succeeded,
{
    law_dirty_means_drawn(c, now);
    if c.due(now) {
        let started = Composition { last_render: Some(now), ..c };
        assert(started.request(0) == c.request(0));
        lemma_flush_follows_tick(started, 0, c.zones.len());
    } else {
        lemma_flush_ends(c, c.zones.len());
    }
}

/// A display with nothing new to show asks for no drawing and no hardware flush:
/// the flush finishes at once.
pub proof fn law_quiet_flush_touches_no_hardware<C>(c: Composition<C>, now: Instant)
    requires
        !c.dirty,
        forall|k: int| 0 <= k < c.zones.len() ==> !(#[trigger] c.zones[k]).outdated(),
    ensures
        flush_step(c, FlushEvent::Start(now)).1 == FlushAction::Finish(Ok(())),
        flush_step(c, FlushEvent::Start(now)).0.zones == c.zones,
        !flush_step(c, FlushEvent::Start(now)).0.dirty,
{
    if c.due(now) {
        lemma_next_outdated(c.zones, 0);
    }
}

/// A flush in which drawing a zone fails ends there: with that failure as its outcome,
/// the hardware not flushed, and what had changed before still marked as changed. What
/// the hardware says of its own flush is the outcome as it is.
pub proof fn law_failures_end_the_flush<C>(
    c: Composition<C>,
    message: String,
    outcome: Result<(), DriverError>,
)
    ensures
        flush_step(c, FlushEvent::DrawFailed(message)) == (
            c,
            FlushAction::Finish(Err(DriverError::Display(message))),
        ),
        flush_step(c, FlushEvent::HardwareFlushed(outcome)) == (c, FlushAction::Finish(outcome)),
{
}

} // verus!
