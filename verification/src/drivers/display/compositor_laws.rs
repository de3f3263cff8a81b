//! What a tick does to the zones of a display, zone by zone.

use vstd::prelude::*;

use crate::drivers::display::compositor::{
    fresh_zone, law_dirty_means_drawn, law_tick_draws_outdated_zones_once, lemma_next_outdated,
    shows, whole_tick, zone_of, Composition, Compositor, TickAction, TickEvent, ZoneFrame, ZoneState,
};
use crate::drivers::display::geometry::Rectangle;
use crate::drivers::display::widgets::{
    op_views, widget_ops, GaugeMarks, WidgetConfig, WidgetPalette,
};
use crate::entities::id::EntityAddress;
use crate::entities::state::Availability;
use crate::entities::{EntityId, SensorValue};
use crate::time::Instant;

verus! {

/// Two readings are the same number: equal counts; or speeds that are numbers at
/// all, with the same bits or both a zero of either sign.
pub open spec fn same_number(a: SensorValue, b: SensorValue) -> bool {
    match (a, b) {
        (SensorValue::Rpm(x), SensorValue::Rpm(y)) => x == y,
        (SensorValue::Speed(x), SensorValue::Speed(y)) => {
            &&& x.bits % 0x8000_0000 <= 0x7f80_0000
            &&& y.bits % 0x8000_0000 <= 0x7f80_0000
            &&& x.bits == y.bits || (x.bits % 0x8000_0000 == 0 && y.bits % 0x8000_0000 == 0)
        },
        _ => false,
    }
}

/// A tick that lies a whole render interval after the last render, or comes before
/// any render, leaves out a zone exactly if the zone was rendered with the very
/// availability that is staged, and with the same number as is staged, or with none
/// where none is.
pub proof fn law_tick_skips_exactly_what_is_shown<C>(c: Composition<C>, now: Instant, k: int)
    requires
        c.zones.len() <= usize::MAX,
        c.last_render matches Some(last) ==> now.nanos >= last.nanos + c.render_interval.nanos,
        0 <= k < c.zones.len(),
    ensures
        ({
            let zone = c.zones[k];
            !whole_tick(c, now).1.contains(k) <==> match zone.rendered {
                None => false,
                Some((availability, value)) => availability == zone.staged.0 && match (
                    value,
                    zone.staged.1,
                ) {
                    (None, None) => true,
                    (Some(shown), Some(staged)) => same_number(shown, staged),
                    _ => false,
                },
            }
        }),
{
    law_tick_draws_outdated_zones_once(c, now);
}

/// A new availability reaches the display with the next tick that is due, even if
/// the value has not changed.
pub proof fn law_new_availability_is_drawn<C>(
    c: Composition<C>,
    now: Instant,
    k: int,
    shown: (Availability, Option<SensorValue>),
)
    requires
        c.zones.len() <= usize::MAX,
        c.last_render matches Some(last) ==> now.nanos >= last.nanos + c.render_interval.nanos,
        0 <= k < c.zones.len(),
        c.zones[k].rendered == Some(shown),
        shown.0 != c.zones[k].staged.0,
    ensures
        whole_tick(c, now).1.contains(k),
        whole_tick(c, now).0.zones[k].rendered == Some(c.zones[k].staged),
        whole_tick(c, now).0.dirty,
{
    law_tick_draws_outdated_zones_once(c, now);
    lemma_next_outdated(c.zones, 0);
}

/// A tick that is due makes what it draws of a zone the zone's staged state, and
/// leaves everything else as it was: the other zones, each zone's place, widget and
/// staged state, and the compositor's settings. It notes the time of the render even
/// if there was nothing to draw.
pub proof fn law_tick_updates_only_what_it_draws<C>(c: Composition<C>, now: Instant)
    requires
        c.zones.len() <= usize::MAX,
        c.last_render matches Some(last) ==> now.nanos >= last.nanos + c.render_interval.nanos,
    ensures
        whole_tick(c, now).0.zones.len() == c.zones.len(),
        forall|k: int|
            0 <= k < c.zones.len() ==> {
                let after = #[trigger] whole_tick(c, now).0.zones[k];
                &&& after.entity_id == c.zones[k].entity_id
                &&& after.rect == c.zones[k].rect
                &&& after.widget == c.zones[k].widget
                &&& after.staged == c.zones[k].staged
                &&& after.rendered == if whole_tick(c, now).1.contains(k) {
                    Some(c.zones[k].staged)
                } else {
                    c.zones[k].rendered
                }
            },
        forall|a: int, b: int|
            0 <= a < b < whole_tick(c, now).1.len() ==> #[trigger] whole_tick(c, now).1[a]
                < #[trigger] whole_tick(c, now).1[b],
        whole_tick(c, now).0.palette == c.palette,
        whole_tick(c, now).0.render_interval == c.render_interval,
        whole_tick(c, now).0.last_render == Some(now),
        whole_tick(c, now).0.scratch == c.scratch,
        whole_tick(c, now).0.dirty == (c.dirty || whole_tick(c, now).1.len() > 0),
{
    law_tick_draws_outdated_zones_once(c, now);
    law_dirty_means_drawn(c, now);
    let end = whole_tick(c, now).0;
    let drawn = whole_tick(c, now).1;
    assert forall|k: int| 0 <= k < c.zones.len() implies {
        let after = #[trigger] end.zones[k];
        &&& after.entity_id == c.zones[k].entity_id
        &&& after.rect == c.zones[k].rect
        &&& after.widget == c.zones[k].widget
        &&& after.staged == c.zones[k].staged
        &&& after.rendered == if drawn.contains(k) {
            Some(c.zones[k].staged)
        } else {
            c.zones[k].rendered
        }
    } by {
        assert(drawn.contains(k) <==> c.zones[k].outdated());
    }
}

/// A tick less than the render interval after the last render does nothing at all.
pub proof fn law_early_tick_does_nothing<C>(c: Composition<C>, last: Instant, now: Instant)
    requires
        c.last_render == Some(last),
        c.render_interval.nanos > 0,
        now.nanos < last.nanos + c.render_interval.nanos,
    ensures
        whole_tick(c, now) == (c, Seq::<int>::empty()),
{
}

/// Only a report marks a zone as drawn: the start of a tick marks none, and the report
/// about one zone concerns no other.
pub proof fn law_only_reported_zones_count_as_drawn<C>(c: Composition<C>, now: Instant, i: usize)
    ensures
        c.step(TickEvent::Start(now)).0.zones == c.zones,
        c.step(TickEvent::Start(now)).0.dirty == c.dirty,
        ({
            let next = c.step(TickEvent::ZoneDrawn(i)).0;
            &&& next.zones.len() == c.zones.len()
            &&& forall|k: int|
                0 <= k < c.zones.len() && k != i ==> #[trigger] next.zones[k] == c.zones[k]
            &&& i < c.zones.len() ==> next.dirty && next.zones[i as int].rendered == Some(
                c.zones[i as int].staged,
            )
            &&& i >= c.zones.len() ==> next == c && c.step(TickEvent::ZoneDrawn(i)).1
                == TickAction::Done
            &&& next.last_render == c.last_render
        }),
{
}

/// Staging a state changes what is staged for the zone and nothing else of it, and
/// drawing a zone changes what is shown and nothing else.
pub proof fn law_staging_and_drawing_are_apart(
    zone: ZoneState,
    availability: Availability,
    value: Option<SensorValue>,
)
    ensures
        ({
            let staged = zone.with_staged(availability, value);
            &&& staged.staged == (availability, value)
            &&& staged.rendered == zone.rendered
            &&& staged.entity_id == zone.entity_id
            &&& staged.rect == zone.rect
            &&& staged.widget == zone.widget
        }),
        ({
            let drawn = zone.with_drawn();
            &&& drawn.rendered == Some(zone.staged)
            &&& drawn.staged == zone.staged
            &&& drawn.entity_id == zone.entity_id
            &&& drawn.rect == zone.rect
            &&& drawn.widget == zone.widget
        }),
{
}

/// A new zone shows nothing yet, and its source counts as unavailable, without a
/// value.
pub proof fn law_new_zones_are_blank(zone: (EntityId, Rectangle, WidgetConfig))
    ensures
        ({
            let fresh = fresh_zone(zone);
            &&& fresh.rendered is None
            &&& fresh.staged.0 == Availability::Unavailable
            &&& fresh.staged.1 is None
            &&& fresh.entity_id == zone.0
            &&& fresh.rect == zone.1
            &&& fresh.widget == zone.2
        }),
{
}

/// The zone found for an entity is the first that has the entity's address; none is
/// found exactly if no zone has it.
pub proof fn law_zone_of_finds_the_first(zones: Seq<ZoneState>, entity: EntityAddress, from: int)
    requires
        0 <= from <= zones.len(),
    ensures
        match zone_of(zones, entity, from) {
            Some(i) => from <= i < zones.len() && zones[i].entity_id@ == entity && forall|k: int|
                from <= k < i ==> (#[trigger] zones[k]).entity_id@ != entity,
            None => forall|k: int|
                from <= k < zones.len() ==> (#[trigger] zones[k]).entity_id@ != entity,
        },
    decreases zones.len() - from,
{
    if from < zones.len() {
        law_zone_of_finds_the_first(zones, entity, from + 1);
    }
}

/// What is drawn for a zone shows the staged state, not the one that was shown
/// before: two zones that differ only in what they showed get the same frame.
pub proof fn law_frames_show_what_is_staged<C>(
    frame: ZoneFrame<C>,
    a: ZoneState,
    b: ZoneState,
    palette: WidgetPalette<C>,
    marks: GaugeMarks,
)
    requires
        a.rect == b.rect,
        a.widget == b.widget,
        a.staged == b.staged,
    ensures
        shows(frame, a, palette, marks) == shows(frame, b, palette, marks),
        shows(frame, a, palette, marks) ==> frame.rect == a.rect && frame.background
            == palette.background,
        shows(frame, a, palette, marks) ==> op_views(frame.ops@)
            == widget_ops(
            b.widget,
            b.rect,
            palette,
            b.staged.0,
            b.staged.1,
            marks,
        ),
{
}

/// What is said of a compositor leaves nothing of it out.
pub proof fn law_compositors_are_told_in_full<C>(compositor: Compositor<C>)
    ensures
        compositor@.zones == compositor.zones@,
        compositor@.palette == compositor.palette,
        compositor@.dirty == compositor.dirty,
        compositor@.render_interval == compositor.render_interval,
        compositor@.last_render == compositor.last_render,
        compositor@.scratch is Some <==> compositor.scratch is Some,
        compositor.scratch matches Some(scratch) ==> compositor@.scratch == Some(scratch@),
{
}

} // verus!
