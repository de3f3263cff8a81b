//! Zone management: owns per-zone rendering state, decides which zones have to
//! be drawn again, and tracks what actually changed so the driver only flushes
//! hardware when necessary.
//!
//! Generic over pixel color only: a [`Compositor`] never needs to know which
//! physical display it's ultimately talking to. Drawing is the caller's: a tick
//! names the zones to draw one by one and hears back about each.

use vstd::prelude::*;

use crate::drivers::display::geometry::{Rectangle, Size};
use crate::drivers::display::scratch::{blank, Raster, ZoneScratch};
use crate::drivers::display::widgets::{
    marks_fit, op_views, widget_ops, DrawOp, GaugeMarks, WidgetConfig, WidgetPalette,
};
use crate::entities::id::EntityAddress;
use crate::entities::state::Availability;
use crate::entities::{EntityId, SensorValue};
use crate::time::{Duration, Instant};

pub use crate::drivers::display::layout::{validate_layout, zone_entities, ZoneConfig};

verus! {

/// Default render-tick rate, in milliseconds: near-real-time sensors can update
/// far faster than this without every update reaching the physical display.
pub const DEFAULT_RENDER_INTERVAL: u64 = 80;

/// One zone and what is known and shown of its source.
#[derive(Debug)]
pub struct ZoneState {
    pub entity_id: EntityId,
    pub rect: Rectangle,
    pub widget: WidgetConfig,
    /// Latest state delivered via [`Compositor::stage`], whether or not it has
    /// actually been rendered yet.
    pub staged: (Availability, Option<SensorValue>),
    /// What's currently drawn for this zone, if anything has been rendered yet.
    pub rendered: Option<(Availability, Option<SensorValue>)>,
}

/// Whether two source states look the same to a comparison of their values.
pub open spec fn same_state(
    a: (Availability, Option<SensorValue>),
    b: (Availability, Option<SensorValue>),
) -> bool {
    &&& a.0 == b.0
    &&& match (a.1, b.1) {
        (None, None) => true,
        (Some(x), Some(y)) => x.equals(y),
        _ => false,
    }
}

impl ZoneState {
    /// Whether what is shown is not the staged state.
    pub open spec fn outdated(self) -> bool {
        !(self.rendered matches Some(shown) && same_state(shown, self.staged))
    }

    /// The zone after a new state was staged.
    pub open spec fn with_staged(
        self,
        availability: Availability,
        value: Option<SensorValue>,
    ) -> ZoneState {
        ZoneState { staged: (availability, value), ..self }
    }

    /// The zone after its staged state was drawn.
    pub open spec fn with_drawn(self) -> ZoneState {
        ZoneState { rendered: Some(self.staged), ..self }
    }

    fn is_outdated(&self) -> (r: bool)
        ensures
            r == self.outdated(),
    {
        match self.rendered {
            None => true,
            Some((availability, value)) => availability != self.staged.0 || value != self.staged.1,
        }
    }
}

/// Shared zone-state manager for one partitioned display.
///
/// Value updates and render ticks are deliberately decoupled: [`Self::stage`]
/// just records the latest state for a zone, and [`Self::tick`] is what samples
/// staged state into drawing, at most once per `render_interval`, regardless of
/// how often `stage` was called in between.
#[derive(Debug)]
pub struct Compositor<C> {
    pub zones: Vec<ZoneState>,
    pub palette: WidgetPalette<C>,
    pub dirty: bool,
    pub render_interval: Duration,
    pub last_render: Option<Instant>,
    /// When present, zones render into this RAM buffer and reach the display as
    /// one contiguous block.
    pub scratch: Option<ZoneScratch<C>>,
}

/// The contents of a [`Compositor`].
#[verifier::ext_equal]
pub struct Composition<C> {
    pub zones: Seq<ZoneState>,
    pub palette: WidgetPalette<C>,
    pub dirty: bool,
    pub render_interval: Duration,
    pub last_render: Option<Instant>,
    pub scratch: Option<Raster<C>>,
}

impl<C> View for Compositor<C> {
    type V = Composition<C>;

    open spec fn view(&self) -> Composition<C> {
        Composition {
            zones: self.zones@,
            palette: self.palette,
            dirty: self.dirty,
            render_interval: self.render_interval,
            last_render: self.last_render,
            scratch: match self.scratch {
                Some(scratch) => Some(scratch@),
                None => None,
            },
        }
    }
}

/// A zone before anything was staged or drawn.
pub open spec fn fresh_zone(zone: (EntityId, Rectangle, WidgetConfig)) -> ZoneState {
    ZoneState {
        entity_id: zone.0,
        rect: zone.1,
        widget: zone.2,
        staged: (Availability::Unavailable, None),
        rendered: None,
    }
}

/// The first zone from `from` on that belongs to an entity.
pub open spec fn zone_of(zones: Seq<ZoneState>, entity: EntityAddress, from: int) -> Option<int>
    decreases zones.len() - from,
{
    if from >= zones.len() {
        None
    } else if zones[from].entity_id@ == entity {
        Some(from)
    } else {
        zone_of(zones, entity, from + 1)
    }
}

/// The first outdated zone from `from` on.
pub open spec fn next_outdated(zones: Seq<ZoneState>, from: int) -> Option<int>
    decreases zones.len() - from,
{
    if from >= zones.len() {
        None
    } else if zones[from].outdated() {
        Some(from)
    } else {
        next_outdated(zones, from + 1)
    }
}

/// What drives a tick: its start, and word that a zone has been drawn.
#[derive(Debug, Clone, Copy, PartialEq, Eq, Structural)]
pub enum TickEvent {
    Start(Instant),
    ZoneDrawn(usize),
}

/// What a tick asks for: a zone to be drawn, or nothing more.
#[derive(Debug, Clone, Copy, PartialEq, Eq, Structural)]
pub enum TickAction {
    DrawZone(usize),
    Done,
}

impl<C> Composition<C> {
    /// Whether enough time has passed since the last render; the very first
    /// render is always due.
    pub open spec fn due(self, now: Instant) -> bool {
        self.last_render matches Some(last) ==> now.since(last) >= self.render_interval.nanos
    }

    /// The request for the first outdated zone from `from` on.
    pub open spec fn request(self, from: int) -> TickAction {
        match next_outdated(self.zones, from) {
            Some(i) => TickAction::DrawZone(i as usize),
            None => TickAction::Done,
        }
    }

    /// The contents after word that zone `i` has been drawn.
    pub open spec fn after_drawing(self, i: int) -> Composition<C> {
        Composition {
            zones: self.zones.update(i, self.zones[i].with_drawn()),
            dirty: true,
            ..self
        }
    }

    /// One step of a tick.
    pub open spec fn step(self, event: TickEvent) -> (Composition<C>, TickAction) {
        match event {
            TickEvent::Start(now) => if self.due(now) {
                (Composition { last_render: Some(now), ..self }, self.request(0))
            } else {
                (self, TickAction::Done)
            },
            TickEvent::ZoneDrawn(i) => if i < self.zones.len() {
                (self.after_drawing(i as int), self.after_drawing(i as int).request(i + 1))
            } else {
                (self, TickAction::Done)
            },
        }
    }

    /// The contents after a whole tick whose drawing never failed.
    pub open spec fn after_tick(self, now: Instant) -> Composition<C> {
        if self.due(now) {
            Composition {
                zones: self.zones.map_values(
                    |zone: ZoneState|
                        if zone.outdated() {
                            zone.with_drawn()
                        } else {
                            zone
                        },
                ),
                dirty: self.dirty || next_outdated(self.zones, 0) is Some,
                last_render: Some(now),
                ..self
            }
        } else {
            self
        }
    }
}

/// What one zone's drawing consists of: the zone is cleared to the background,
/// then the operations are drawn, clipped to the zone.
#[derive(Debug)]
pub struct ZoneFrame<C> {
    pub rect: Rectangle,
    pub background: C,
    pub ops: Vec<DrawOp<C>>,
}

/// Whether a frame shows the staged state of a zone.
pub open spec fn shows<C>(
    frame: ZoneFrame<C>,
    zone: ZoneState,
    palette: WidgetPalette<C>,
    marks: GaugeMarks,
) -> bool {
    &&& frame.rect == zone.rect
    &&& frame.background == palette.background
    &&& op_views(frame.ops@) == widget_ops(
        zone.widget,
        zone.rect,
        palette,
        zone.staged.0,
        zone.staged.1,
        marks,
    )
}

impl<C: Copy> Compositor<C> {
    pub fn new(
        zones: Vec<(EntityId, Rectangle, WidgetConfig)>,
        palette: WidgetPalette<C>,
    ) -> (compositor: Self)
        ensures
            compositor@ == (Composition {
                zones: zones@.map_values(|zone: (EntityId, Rectangle, WidgetConfig)| fresh_zone(zone)),
                palette,
                dirty: false,
                render_interval: Duration { nanos: 80_000_000 },
                last_render: None,
                scratch: None,
            }),
    {
        let ghost expected = zones@.map_values(
            |zone: (EntityId, Rectangle, WidgetConfig)| fresh_zone(zone),
        );
        let mut states: Vec<ZoneState> = Vec::new();
        for zone in it: zones.into_iter()
            invariant
                expected == it.seq().map_values(
                    |zone: (EntityId, Rectangle, WidgetConfig)| fresh_zone(zone),
                ),
                states@ == expected.take(it.index()),
        {
            let ghost i = it.index();
            states.push(
                ZoneState {
                    entity_id: zone.0,
                    rect: zone.1,
                    widget: zone.2,
                    staged: (Availability::Unavailable, None),
                    rendered: None,
                },
            );
            assert(states@ =~= expected.take(i + 1));
        }
        assert(expected.take(expected.len() as int) =~= expected);
        Compositor {
            zones: states,
            palette,
            dirty: false,
            render_interval: Duration::from_millis(DEFAULT_RENDER_INTERVAL),
            last_render: None,
            scratch: None,
        }
    }

    /// Override the default render-tick rate.
    #[must_use]
    pub fn with_render_interval(self, interval: Duration) -> (compositor: Self)
        ensures
            compositor@ == (Composition { render_interval: interval, ..self@ }),
    {
        let mut compositor: Self = self;
        compositor.render_interval = interval;
        compositor
    }

    /// Render zones via a RAM scratch buffer and write each as one contiguous
    /// block. For write-through displays; pointless (one extra copy) for
    /// displays that already buffer a frame in RAM.
    #[must_use]
    pub fn with_zone_buffering(self) -> (compositor: Self)
        ensures
            compositor@ == (Composition {
                scratch: Some(
                    Raster { size: Size { width: 0, height: 0 }, pixels: Seq::empty() },
                ),
                ..self@
            }),
    {
        let mut compositor: Self = self;
        compositor.scratch = Some(ZoneScratch::new());
        compositor
    }

    /// The zone index for a bound entity, if any zone this compositor manages is
    /// addressed by it.
    pub fn zone_index(&self, entity_id: &EntityId) -> (found: Option<usize>)
        ensures
            match found {
                Some(i) => i < self@.zones.len() && zone_of(self@.zones, entity_id@, 0) == Some(
                    i as int,
                ),
                None => zone_of(self@.zones, entity_id@, 0) is None,
            },
    {
        let mut i: usize = 0;
        while i < self.zones.len()
            invariant
                i <= self@.zones.len(),
                zone_of(self@.zones, entity_id@, 0) == zone_of(
                    self@.zones,
                    entity_id@,
                    i as int,
                ),
            decreases self@.zones.len() - i,
        {
            if self.zones[i].entity_id == *entity_id {
                return Some(i);
            }
            i += 1;
        }
        None
    }

    /// Record the latest state for a zone (by index from [`Self::zone_index`]).
    /// Does not draw anything: only a tick does, and only at the configured
    /// interval.
    pub fn stage(&mut self, zone_idx: usize, availability: Availability, value: Option<SensorValue>)
        requires
            zone_idx < old(self)@.zones.len(),
        ensures
            final(self)@ == (Composition {
                zones: old(self)@.zones.update(
                    zone_idx as int,
                    old(self)@.zones[zone_idx as int].with_staged(availability, value),
                ),
                ..old(self)@
            }),
    {
        self.zones[zone_idx].staged = (availability, value);
    }

    fn next_outdated_zone(&self, from: usize) -> (action: TickAction)
        requires
            from <= self@.zones.len(),
        ensures
            action == self@.request(from as int),
    {
        let mut i: usize = from;
        while i < self.zones.len()
            invariant
                i <= self@.zones.len(),
                next_outdated(self@.zones, from as int) == next_outdated(self@.zones, i as int),
            decreases self@.zones.len() - i,
        {
            if self.zones[i].is_outdated() {
                return TickAction::DrawZone(i);
            }
            i += 1;
        }
        TickAction::Done
    }

    /// Sample every zone's latest staged state, but only if `render_interval`
    /// has elapsed since the last render (the very first tick always renders,
    /// giving every zone its initial frame for free). Zones whose staged state
    /// hasn't changed since they were last rendered are skipped even when a
    /// render does happen.
    ///
    /// A tick starts with [`TickEvent::Start`] and goes on with
    /// [`TickEvent::ZoneDrawn`] for each zone it asks for, until it is done. If
    /// drawing a zone fails, the tick ends there, and the zones not drawn stay
    /// outdated.
    pub fn tick(&mut self, event: TickEvent) -> (action: TickAction)
        ensures
            (final(self)@, action) == old(self)@.step(event),
    {
        match event {
            TickEvent::Start(now) => {
                if let Some(last) = self.last_render {
                    if now.duration_since(last).nanos < self.render_interval.nanos {
                        return TickAction::Done;
                    }
                }
                self.last_render = Some(now);
                self.next_outdated_zone(0)
            },
            TickEvent::ZoneDrawn(i) => {
                if i >= self.zones.len() {
                    return TickAction::Done;
                }
                let shown: (Availability, Option<SensorValue>) = self.zones[i].staged;
                self.zones[i].rendered = Some(shown);
                self.dirty = true;
                self.next_outdated_zone(i + 1)
            },
        }
    }

    /// Whether any zone changed since the last call to this method; clears the
    /// flag. The driver calls this once per tick to decide whether the physical
    /// display needs a flush at all.
    pub fn take_dirty(&mut self) -> (dirty: bool)
        ensures
            dirty == old(self)@.dirty,
            final(self)@ == (Composition { dirty: false, ..old(self)@ }),
    {
        let dirty: bool = self.dirty;
        self.dirty = false;
        dirty
    }

    /// What drawing one zone's staged state consists of.
    pub fn render_zone(&self, zone_idx: usize, marks: &GaugeMarks) -> (frame: ZoneFrame<C>)
        requires
            zone_idx < self@.zones.len(),
            self@.zones[zone_idx as int].rect.in_range(),
            marks_fit(
                self@.zones[zone_idx as int].widget,
                self@.zones[zone_idx as int].rect,
                *marks,
            ),
        ensures
            shows(frame, self@.zones[zone_idx as int], self@.palette, *marks),
    {
        let zone: &ZoneState = &self.zones[zone_idx];
        let (availability, value) = zone.staged;
        let ops: Vec<DrawOp<C>> = zone.widget.render(
            zone.rect,
            self.palette,
            availability,
            value,
            marks,
        );
        ZoneFrame { rect: zone.rect, background: self.palette.background, ops }
    }

    /// [`Self::render_zone`], but via the scratch buffer: the buffer becomes an
    /// empty picture of the zone, which the frame's operations are then drawn
    /// into, moved so that the zone's corner falls on the buffer's.
    pub fn render_zone_buffered(&mut self, zone_idx: usize, marks: &GaugeMarks) -> (frame: ZoneFrame<
        C,
    >)
        requires
            zone_idx < old(self)@.zones.len(),
            old(self)@.zones[zone_idx as int].rect.in_range(),
            ({
                let size = old(self)@.zones[zone_idx as int].rect.size;
                size.width * size.height <= u32::MAX
            }),
            marks_fit(
                old(self)@.zones[zone_idx as int].widget,
                old(self)@.zones[zone_idx as int].rect,
                *marks,
            ),
        ensures
            shows(frame, old(self)@.zones[zone_idx as int], old(self)@.palette, *marks),
            final(self)@ == (Composition {
                scratch: Some(
                    blank(
                        old(self)@.zones[zone_idx as int].rect.size,
                        old(self)@.palette.background,
                    ),
                ),
                ..old(self)@
            }),
    {
        let frame: ZoneFrame<C> = self.render_zone(zone_idx, marks);
        let mut scratch: ZoneScratch<C> = match self.scratch.take() {
            Some(scratch) => scratch,
            None => ZoneScratch::new(),
        };
        scratch.reset(frame.rect.size, frame.background);
        self.scratch = Some(scratch);
        frame
    }

    /// What drawing one zone's staged state consists of, and whether it goes
    /// through the scratch buffer: it does where there is one.
    pub fn render_staged(&mut self, zone_idx: usize, marks: &GaugeMarks) -> (rendered: (
        ZoneFrame<C>,
        bool,
    ))
        requires
            zone_idx < old(self)@.zones.len(),
            old(self)@.zones[zone_idx as int].rect.in_range(),
            old(self)@.scratch is Some ==> {
                let size = old(self)@.zones[zone_idx as int].rect.size;
                size.width * size.height <= u32::MAX
            },
            marks_fit(
                old(self)@.zones[zone_idx as int].widget,
                old(self)@.zones[zone_idx as int].rect,
                *marks,
            ),
        ensures
            shows(rendered.0, old(self)@.zones[zone_idx as int], old(self)@.palette, *marks),
            rendered.1 == (old(self)@.scratch is Some),
            final(self)@ == (Composition {
                scratch: if rendered.1 {
                    Some(
                        blank(
                            old(self)@.zones[zone_idx as int].rect.size,
                            old(self)@.palette.background,
                        ),
                    )
                } else {
                    None
                },
                ..old(self)@
            }),
    {
        if self.scratch.is_some() {
            (self.render_zone_buffered(zone_idx, marks), true)
        } else {
            (self.render_zone(zone_idx, marks), false)
        }
    }
}

/// The rest of a tick in which all requests are met: what the compositor holds
/// in the end, and which zones were drawn.
pub open spec fn carried_out<C>(c: Composition<C>, action: TickAction, fuel: nat) -> (
    Composition<C>,
    Seq<int>,
)
    decreases fuel,
{
    match action {
        TickAction::Done => (c, Seq::empty()),
        TickAction::DrawZone(i) => if fuel == 0 {
            (c, Seq::empty())
        } else {
            let (next, request) = c.step(TickEvent::ZoneDrawn(i));
            let (end, drawn) = carried_out(next, request, (fuel - 1) as nat);
            (end, seq![i as int] + drawn)
        },
    }
}

/// A whole tick in which all requests are met.
pub open spec fn whole_tick<C>(c: Composition<C>, now: Instant) -> (Composition<C>, Seq<int>) {
    let (started, request) = c.step(TickEvent::Start(now));
    carried_out(started, request, c.zones.len())
}

/// The next outdated zone is outdated, and none before it is.
pub proof fn lemma_next_outdated(zones: Seq<ZoneState>, from: int)
    requires
        0 <= from <= zones.len(),
    ensures
        match next_outdated(zones, from) {
            Some(i) => from <= i < zones.len() && zones[i].outdated() && forall|k: int|
                from <= k < i ==> !(#[trigger] zones[k]).outdated(),
            None => forall|k: int| from <= k < zones.len() ==> !(#[trigger] zones[k]).outdated(),
        },
    decreases zones.len() - from,
{
    if from < zones.len() {
        lemma_next_outdated(zones, from + 1);
    }
}

/// What the rest of a tick does once everything before `from` is done.
proof fn lemma_carried_out<C>(c: Composition<C>, from: int, fuel: nat)
    requires
        0 <= from <= c.zones.len() <= usize::MAX,
        fuel >= c.zones.len() - from,
    ensures
        ({
            let (end, drawn) = carried_out(c, c.request(from), fuel);
            &&& end.zones.len() == c.zones.len()
            &&& forall|k: int|
                0 <= k < c.zones.len() ==> #[trigger] end.zones[k] == if from <= k
                    && c.zones[k].outdated() {
                    c.zones[k].with_drawn()
                } else {
                    c.zones[k]
                }
            &&& end == (Composition {
                zones: end.zones,
                dirty: c.dirty || next_outdated(c.zones, from) is Some,
                ..c
            })
            &&& forall|k: int|
                #[trigger] drawn.contains(k) <==> from <= k < c.zones.len()
                    && c.zones[k].outdated()
            &&& forall|a: int, b: int| 0 <= a < b < drawn.len() ==> drawn[a] < drawn[b]
        }),
    decreases c.zones.len() - from,
{
    lemma_next_outdated(c.zones, from);
    match next_outdated(c.zones, from) {
        None => {
            assert(carried_out(c, c.request(from), fuel).1 =~= Seq::<int>::empty());
        },
        Some(i) => {
            assert(c.request(from) == TickAction::DrawZone(i as usize));
            let next = c.after_drawing(i);
            lemma_carried_out(next, i + 1, (fuel - 1) as nat);
            let (end, drawn) = carried_out(next, next.request(i + 1), (fuel - 1) as nat);
            let all = seq![i] + drawn;
            assert(carried_out(c, c.request(from), fuel) == (end, all));
            assert forall|k: int| #[trigger] all.contains(k) <==> from <= k < c.zones.len()
                && c.zones[k].outdated() by {
                if drawn.contains(k) {
                    assert(all[1 + drawn.index_of(k)] == k);
                }
                if k == i {
                    assert(all[0] == k);
                }
                if all.contains(k) {
                    let at = all.index_of(k);
                    if at > 0 {
                        assert(drawn[at - 1] == k);
                        assert(drawn.contains(k));
                    }
                }
            }
            assert forall|a: int, b: int| 0 <= a < b < all.len() implies all[a] < all[b] by {
                assert(all[b] == drawn[b - 1]);
                assert(drawn.contains(drawn[b - 1]));
                if a > 0 {
                    assert(all[a] == drawn[a - 1]);
                }
            }
        },
    }
}

/// A tick that is due draws exactly the outdated zones, each once, in order, and
/// sets the dirty flag if it drew anything.
pub proof fn law_tick_draws_outdated_zones_once<C>(c: Composition<C>, now: Instant)
    requires
        c.zones.len() <= usize::MAX,
        c.due(now),
    ensures
        whole_tick(c, now).0 == c.after_tick(now),
        forall|k: int|
            #[trigger] whole_tick(c, now).1.contains(k) <==> 0 <= k < c.zones.len()
                && c.zones[k].outdated(),
        forall|a: int, b: int|
            0 <= a < b < whole_tick(c, now).1.len() ==> whole_tick(c, now).1[a] < whole_tick(
                c,
                now,
            ).1[b],
{
    let started = Composition { last_render: Some(now), ..c };
    lemma_carried_out(started, 0, c.zones.len());
    assert(whole_tick(c, now).0.zones =~= c.after_tick(now).zones);
}

/// The dirty flag tells whether anything was drawn since it was last taken: a
/// tick raises it exactly if it draws a zone, and never lowers it.
pub proof fn law_dirty_means_drawn<C>(c: Composition<C>, now: Instant)
    requires
        c.zones.len() <= usize::MAX,
    ensures
        whole_tick(c, now).0.dirty <==> c.dirty || whole_tick(c, now).1.len() > 0,
{
    let drawn = whole_tick(c, now).1;
    if c.due(now) {
        law_tick_draws_outdated_zones_once(c, now);
        lemma_next_outdated(c.zones, 0);
        if drawn.len() > 0 {
            assert(drawn.contains(drawn[0]));
        }
        if let Some(i) = next_outdated(c.zones, 0) {
            assert(drawn.contains(i));
        }
    }
}

/// Without staging in between, a tick after a tick draws nothing and sets no
/// flag. (A value that does not even equal itself is always drawn again.)
pub proof fn law_idle_tick_draws_nothing<C>(c: Composition<C>, first: Instant, second: Instant)
    requires
        c.zones.len() <= usize::MAX,
        c.due(first),
        forall|k: int|
            0 <= k < c.zones.len() ==> same_state(
                (#[trigger] c.zones[k]).staged,
                c.zones[k].staged,
            ),
    ensures
        whole_tick(c.after_tick(first), second).1 == Seq::<int>::empty(),
        whole_tick(c.after_tick(first), second).0.dirty == c.after_tick(first).dirty,
        whole_tick(c.after_tick(first), second).0.zones == c.after_tick(first).zones,
{
    let quiet = c.after_tick(first);
    if quiet.due(second) {
        law_tick_draws_outdated_zones_once(quiet, second);
        let drawn = whole_tick(quiet, second).1;
        if drawn.len() > 0 {
            assert(drawn.contains(drawn[0]));
        }
        lemma_next_outdated(quiet.zones, 0);
        assert(quiet.after_tick(second).zones =~= quiet.zones);
    }
}

/// Between two renders lies at least the render interval: a tick sooner than
/// that draws nothing and changes nothing, however much was staged.
pub proof fn law_no_tick_within_interval<C>(c: Composition<C>, last: Instant, now: Instant)
    requires
        c.last_render == Some(last),
        now.since(last) < c.render_interval.nanos,
    ensures
        whole_tick(c, now) == (c, Seq::<int>::empty()),
{
}

/// The first tick of a new compositor draws every zone.
pub proof fn law_first_tick_draws_all<C>(c: Composition<C>, now: Instant)
    requires
        c.zones.len() <= usize::MAX,
        c.last_render is None,
        forall|k: int| 0 <= k < c.zones.len() ==> (#[trigger] c.zones[k]).rendered is None,
    ensures
        forall|k: int| 0 <= k < c.zones.len() ==> #[trigger] whole_tick(c, now).1.contains(k),
        c.zones.len() > 0 ==> whole_tick(c, now).0.dirty,
{
    law_tick_draws_outdated_zones_once(c, now);
    lemma_next_outdated(c.zones, 0);
    if c.zones.len() > 0 {
        assert(c.zones[0].outdated());
    }
}

/// Staging what is already shown leaves a zone up to date, and a tick after that
/// does not draw it.
pub proof fn law_unchanged_state_is_skipped<C>(
    c: Composition<C>,
    i: int,
    availability: Availability,
    value: Option<SensorValue>,
    now: Instant,
)
    requires
        c.zones.len() <= usize::MAX,
        0 <= i < c.zones.len(),
        c.zones[i].rendered matches Some(shown) && same_state(shown, (availability, value)),
    ensures
        ({
            let staged = Composition {
                zones: c.zones.update(i, c.zones[i].with_staged(availability, value)),
                ..c
            };
            !whole_tick(staged, now).1.contains(i)
        }),
{
    let staged = Composition {
        zones: c.zones.update(i, c.zones[i].with_staged(availability, value)),
        ..c
    };
    if staged.due(now) {
        law_tick_draws_outdated_zones_once(staged, now);
    }
}

/// Only the state staged last before a tick counts.
pub proof fn law_last_staged_wins<C>(
    c: Composition<C>,
    i: int,
    first: (Availability, Option<SensorValue>),
    second: (Availability, Option<SensorValue>),
)
    requires
        0 <= i < c.zones.len(),
    ensures
        ({
            let once = c.zones.update(i, c.zones[i].with_staged(second.0, second.1));
            let burst = c.zones.update(i, c.zones[i].with_staged(first.0, first.1));
            burst.update(i, burst[i].with_staged(second.0, second.1)) == once
        }),
{
    let once = c.zones.update(i, c.zones[i].with_staged(second.0, second.1));
    let burst = c.zones.update(i, c.zones[i].with_staged(first.0, first.1));
    assert(burst.update(i, burst[i].with_staged(second.0, second.1)) =~= once);
}

} // verus!
