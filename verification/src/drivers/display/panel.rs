//! From a driver spec to the zones of a display: what every display driver's
//! factory has in common.

use vstd::prelude::*;

use crate::drivers::display::compositor::{fresh_zone, Composition, Compositor, ZoneState};
use crate::drivers::display::generic::GenericDisplayDriver;
use crate::drivers::display::geometry::{Point, Rectangle, Size};
use crate::drivers::display::layout::{
    expanded_zones, law_accepted_layouts_are_valid, layout_fault, validate_layout, valid_layout,
    zone_entities, ZoneConfig,
};
use crate::drivers::display::scratch::Raster;
use crate::drivers::display::widgets::{WidgetConfig, WidgetPalette};
use crate::drivers::DriverSpec;
use crate::entities::id::{parsed_address, EntityAddress};
use crate::entities::{
    clone_entities, entity_views, ActuatorType, Entity, EntityId, EntityType, EntityView,
};
use crate::error::{DriverError, DriverFault};
use crate::time::Duration;

verus! {

/// The display panel that an instance is named after.
pub open spec fn declared_panel(id: EntityAddress) -> EntityView {
    EntityView {
        id,
        entity_type: EntityType::Actuator(ActuatorType::DisplayPanel),
        name: None,
    }
}

/// The addresses of entities.
pub open spec fn addresses(entities: Seq<EntityView>) -> Seq<EntityAddress> {
    entities.map_values(|e: EntityView| e.id)
}

/// What is wrong with a display's spec, if anything: its layout cannot be shown,
/// its instance id is no address, or the entities it lists are not those of its
/// zones.
pub open spec fn display_spec_fault(
    spec: DriverSpec,
    layout: Seq<ZoneConfig>,
    size: (u32, u32),
) -> Option<Seq<char>> {
    match layout_fault(layout, size.0, size.1) {
        Some(message) => Some(message),
        None => match parsed_address(spec.instance_id@) {
            Err(_) => Some("instance id is not a valid entity address"@),
            Ok(id) => match expanded_zones(declared_panel(id), layout) {
                Err(message) => Some(message),
                Ok(expected) => if addresses(expected) == addresses(entity_views(spec.entities@)) {
                    None
                } else {
                    Some("spec entities do not match the zones in the layout config"@)
                },
            },
        },
    }
}

/// A zone of the layout, with the entity it belongs to.
pub open spec fn placed(entity: Entity, zone: ZoneConfig) -> (EntityId, Rectangle, WidgetConfig) {
    (
        entity.id,
        Rectangle {
            top_left: Point { x: zone.x as i32, y: zone.y as i32 },
            size: Size { width: zone.width, height: zone.height },
        },
        zone.widget,
    )
}

/// The zones of a layout, each with the entity it belongs to.
pub open spec fn placed_zones(entities: Seq<Entity>, layout: Seq<ZoneConfig>) -> Seq<
    (EntityId, Rectangle, WidgetConfig),
> {
    Seq::new(layout.len(), |i: int| placed(entities[i], layout[i]))
}

fn same_addresses(expected: &Vec<Entity>, listed: &Vec<Entity>) -> (same: bool)
    ensures
        same == (addresses(entity_views(expected@)) == addresses(entity_views(listed@))),
{
    let ghost a = addresses(entity_views(expected@));
    let ghost b = addresses(entity_views(listed@));
    if expected.len() != listed.len() {
        assert(a.len() != b.len());
        return false;
    }
    let mut i: usize = 0;
    while i < expected.len()
        invariant
            a == addresses(entity_views(expected@)),
            b == addresses(entity_views(listed@)),
            i <= expected@.len() == listed@.len(),
            forall|k: int| 0 <= k < i ==> a[k] == b[k],
        decreases expected@.len() - i,
    {
        assert(a[i as int] == expected@[i as int].id@);
        assert(b[i as int] == listed@[i as int].id@);
        if expected[i].id != listed[i].id {
            return false;
        }
        i += 1;
    }
    assert(a =~= b);
    true
}

fn invalid(spec: &DriverSpec, message: String) -> (e: DriverError)
    ensures
        e@ == (DriverFault::InvalidConfig { instance: spec.instance_id@, message: message@ }),
{
    DriverError::InvalidConfig { instance: spec.instance_id.clone(), message }
}

/// The zones a display driver is to manage, in layout order.
///
/// The entities of a spec were derived from its layout by config validation;
/// they are derived again here and cross-checked, so the zone list and the entity
/// list cannot silently desynchronize.
pub fn zones_of_spec(spec: &DriverSpec, layout: &Vec<ZoneConfig>, size: (u32, u32)) -> (made: Result<
    Vec<(EntityId, Rectangle, WidgetConfig)>,
    DriverError,
>)
    requires
        size.0 < i32::MAX,
        size.1 < i32::MAX,
    ensures
        match made {
            Ok(zones) => display_spec_fault(*spec, layout@, size) is None && zones@
                == placed_zones(spec.entities@, layout@),
            Err(e) => display_spec_fault(*spec, layout@, size) matches Some(message) && e@ == (
            DriverFault::InvalidConfig { instance: spec.instance_id@, message }),
        },
{
    if let Err(message) = validate_layout(layout.as_slice(), size.0, size.1) {
        return Err(invalid(spec, message));
    }
    let declared_id: EntityId = match EntityId::parse(spec.instance_id.as_str()) {
        Ok(id) => id,
        Err(_) => {
            return Err(
                invalid(spec, "instance id is not a valid entity address".to_owned()),
            );
        },
    };
    let declared: Entity = Entity {
        id: declared_id,
        entity_type: EntityType::Actuator(ActuatorType::DisplayPanel),
        name: None,
    };
    assert(declared@ == declared_panel(declared_id@));
    let expected: Vec<Entity> = match zone_entities(&declared, layout.as_slice()) {
        Ok(expected) => expected,
        Err(message) => {
            return Err(invalid(spec, message));
        },
    };
    if !same_addresses(&expected, &spec.entities) {
        return Err(
            invalid(
                spec,
                "spec entities do not match the zones in the layout config".to_owned(),
            ),
        );
    }
    proof {
        law_accepted_layouts_are_valid(layout@, size.0, size.1);
        assert(addresses(entity_views(expected@)).len() == layout@.len());
        assert(addresses(entity_views(spec.entities@)).len() == spec.entities@.len());
    }
    let mut zones: Vec<(EntityId, Rectangle, WidgetConfig)> = Vec::new();
    let mut i: usize = 0;
    while i < layout.len()
        invariant
            i <= layout@.len() == spec.entities@.len(),
            zones@ == placed_zones(spec.entities@, layout@).take(i as int),
        decreases layout@.len() - i,
    {
        let zone: &ZoneConfig = &layout[i];
        zones.push(
            (
                spec.entities[i].id.clone(),
                Rectangle {
                    top_left: Point { x: zone.x as i32, y: zone.y as i32 },
                    size: Size { width: zone.width, height: zone.height },
                },
                zone.widget.clone(),
            ),
        );
        i += 1;
        assert(zones@ =~= placed_zones(spec.entities@, layout@).take(i as int));
    }
    assert(zones@ =~= placed_zones(spec.entities@, layout@));
    Ok(zones)
}

/// What a new display driver holds.
pub open spec fn fresh_display<C>(
    spec: DriverSpec,
    layout: Seq<ZoneConfig>,
    palette: WidgetPalette<C>,
    render_interval_ms: u32,
    scratch: Option<Raster<C>>,
) -> Composition<C> {
    Composition {
        zones: placed_zones(spec.entities@, layout).map_values(
            |zone: (EntityId, Rectangle, WidgetConfig)| fresh_zone(zone),
        ),
        palette,
        dirty: false,
        render_interval: Duration { nanos: (render_interval_ms * 1_000_000) as u128 },
        last_render: None,
        scratch,
    }
}

/// Whether a display driver was made for a spec as its config says.
pub open spec fn made_for<C>(
    driver: GenericDisplayDriver<C>,
    spec: DriverSpec,
    contents: Composition<C>,
) -> bool {
    &&& driver.instance_id@ == spec.instance_id@
    &&& driver.entities@ == spec.entities@
    &&& driver.compositor@ == contents
}

/// The driver of a display whose zones are known.
pub fn display_driver<C: Copy>(
    spec: &DriverSpec,
    zones: Vec<(EntityId, Rectangle, WidgetConfig)>,
    palette: WidgetPalette<C>,
    render_interval_ms: u32,
    buffered: bool,
) -> (driver: GenericDisplayDriver<C>)
    ensures
        driver.instance_id@ == spec.instance_id@,
        driver.entities@ == spec.entities@,
        driver.compositor@ == (Composition {
            zones: zones@.map_values(|zone: (EntityId, Rectangle, WidgetConfig)| fresh_zone(zone)),
            palette,
            dirty: false,
            render_interval: Duration { nanos: (render_interval_ms * 1_000_000) as u128 },
            last_render: None,
            scratch: if buffered {
                Some(Raster { size: Size { width: 0, height: 0 }, pixels: Seq::empty() })
            } else {
                None
            },
        }),
{
    let compositor: Compositor<C> = Compositor::new(zones, palette).with_render_interval(
        Duration::from_millis(render_interval_ms as u64),
    );
    let compositor: Compositor<C> = if buffered {
        compositor.with_zone_buffering()
    } else {
        compositor
    };
    GenericDisplayDriver::new(
        spec.instance_id.clone(),
        clone_entities(&spec.entities),
        compositor,
    )
}

/// The rectangles of an accepted layout can always be rendered, directly and
/// through a buffer.
pub proof fn law_placed_zones_are_renderable(
    entities: Seq<Entity>,
    layout: Seq<ZoneConfig>,
    size: (u32, u32),
    i: int,
)
    requires
        size.0 < i32::MAX,
        size.1 < i32::MAX,
        size.0 * size.1 <= u32::MAX,
        valid_layout(layout, size.0, size.1),
        0 <= i < layout.len(),
    ensures
        placed_zones(entities, layout)[i].1.in_range(),
        placed_zones(entities, layout)[i].1.size.width * placed_zones(
            entities,
            layout,
        )[i].1.size.height <= u32::MAX,
        forall|x: int, y: int|
            placed_zones(entities, layout)[i].1.covers(x, y) <==> layout[i].holds(x, y),
{
    let zone = layout[i];
    assert(zone.width * zone.height <= size.0 * size.1) by (nonlinear_arith)
        requires
            zone.width <= size.0,
            zone.height <= size.1,
    ;
}

/// Whether zones can be rendered, directly and through a buffer.
pub open spec fn renderable(zones: Seq<ZoneState>) -> bool {
    forall|i: int|
        0 <= i < zones.len() ==> {
            let rect = (#[trigger] zones[i]).rect;
            rect.in_range() && rect.size.width * rect.size.height <= u32::MAX
        }
}

/// The zones of an accepted layout can be rendered.
pub proof fn lemma_zones_renderable(
    entities: Seq<Entity>,
    layout: Seq<ZoneConfig>,
    size: (u32, u32),
    zones: Seq<ZoneState>,
)
    requires
        size.0 < i32::MAX,
        size.1 < i32::MAX,
        size.0 * size.1 <= u32::MAX,
        layout_fault(layout, size.0, size.1) is None,
        zones == placed_zones(entities, layout).map_values(
            |zone: (EntityId, Rectangle, WidgetConfig)| fresh_zone(zone),
        ),
    ensures
        renderable(zones),
{
    law_accepted_layouts_are_valid(layout, size.0, size.1);
    assert forall|i: int| 0 <= i < zones.len() implies {
        let rect = (#[trigger] zones[i]).rect;
        rect.in_range() && rect.size.width * rect.size.height <= u32::MAX
    } by {
        law_placed_zones_are_renderable(entities, layout, size, i);
        assert(zones[i].rect == placed_zones(entities, layout)[i].1);
    }
}

/// A new display has one zone per zone of its layout, in order, each of the entity that
/// the spec lists at that place, with the layout's corner, size and widget; nothing is
/// staged or shown yet, and nothing is marked as changed. It renders at the configured
/// interval, in the given colors.
pub proof fn law_new_displays_follow_their_layout<C>(
    spec: DriverSpec,
    layout: Seq<ZoneConfig>,
    palette: WidgetPalette<C>,
    render_interval_ms: u32,
    scratch: Option<Raster<C>>,
    i: int,
)
    requires
        0 <= i < layout.len(),
        layout[i].x <= i32::MAX,
        layout[i].y <= i32::MAX,
    ensures
        ({
            let display = fresh_display(spec, layout, palette, render_interval_ms, scratch);
            let zone = display.zones[i];
            &&& display.zones.len() == layout.len()
            &&& zone.entity_id == spec.entities@[i].id
            &&& zone.rect.top_left.x == layout[i].x
            &&& zone.rect.top_left.y == layout[i].y
            &&& zone.rect.size.width == layout[i].width
            &&& zone.rect.size.height == layout[i].height
            &&& zone.widget == layout[i].widget
            &&& zone.rendered is None
            &&& zone.staged.1 is None
            &&& !display.dirty
            &&& display.last_render is None
            &&& display.palette == palette
            &&& display.render_interval.nanos == render_interval_ms * 1_000_000
            &&& display.scratch == scratch
        }),
{
}

/// A display's spec is accepted exactly if its layout is, its instance id is an address
/// under which all zones can be named, and it lists one entity per zone, in order, each
/// under the instance's device and under its entity id, a dot and the zone's id.
pub proof fn law_display_specs_list_their_zones(
    spec: DriverSpec,
    layout: Seq<ZoneConfig>,
    size: (u32, u32),
)
    ensures
        display_spec_fault(spec, layout, size) is None <==> {
            &&& layout_fault(layout, size.0, size.1) is None
            &&& parsed_address(spec.instance_id@) is Ok
            &&& spec.entities@.len() == layout.len()
            &&& forall|i: int|
                0 <= i < layout.len() ==> {
                    let id = parsed_address(spec.instance_id@)->Ok_0;
                    let zone = #[trigger] layout[i];
                    &&& spec.entities@[i].id@.device == id.device
                    &&& spec.entities@[i].id@.entity == id.entity + seq!['.'] + zone.id@
                }
        },
{
    if layout_fault(layout, size.0, size.1) is None && parsed_address(spec.instance_id@) is Ok {
        let id = parsed_address(spec.instance_id@)->Ok_0;
        law_accepted_layouts_are_valid(layout, size.0, size.1);
        crate::entities::id::law_parsed_address_is_canonical(spec.instance_id@);
        crate::drivers::display::layout::law_valid_layouts_expand(
            declared_panel(id),
            layout,
            size.0,
            size.1,
        );
        let expected = expanded_zones(declared_panel(id), layout)->Ok_0;
        let listed = entity_views(spec.entities@);
        assert(expected.len() == layout.len());
        assert forall|i: int| 0 <= i < layout.len() implies (#[trigger] layout[i]).id@ == layout[i].id@
            && expected[i].id.device == id.device && expected[i].id.entity == id.entity + seq!['.']
            + layout[i].id@ by {
            crate::drivers::display::layout_laws::law_zone_entities_are_named_after_zones(
                declared_panel(id),
                layout,
                i,
            );
        }
        if display_spec_fault(spec, layout, size) is None {
            assert(addresses(expected) == addresses(listed));
            assert(addresses(expected).len() == layout.len());
            assert(addresses(listed).len() == spec.entities@.len());
            assert forall|i: int| 0 <= i < layout.len() implies {
                let zone = #[trigger] layout[i];
                &&& spec.entities@[i].id@.device == id.device
                &&& spec.entities@[i].id@.entity == id.entity + seq!['.'] + zone.id@
            } by {
                assert(addresses(expected)[i] == expected[i].id);
                assert(addresses(listed)[i] == spec.entities@[i].id@);
            }
        }
        if spec.entities@.len() == layout.len() && (forall|i: int|
            0 <= i < layout.len() ==> {
                let zone = #[trigger] layout[i];
                &&& spec.entities@[i].id@.device == id.device
                &&& spec.entities@[i].id@.entity == id.entity + seq!['.'] + zone.id@
            }) {
            assert forall|i: int| 0 <= i < layout.len() implies addresses(expected)[i] == addresses(
                listed,
            )[i] by {
                assert(layout[i].id@ == layout[i].id@);
                assert(addresses(listed)[i] == spec.entities@[i].id@);
                assert(addresses(expected)[i] =~= addresses(listed)[i]);
            }
            assert(addresses(expected) =~= addresses(listed));
        }
    }
}

/// A driver made for a spec has the spec's instance id and entities, and starts with
/// the given contents.
pub proof fn law_drivers_are_made_for_their_spec<C>(
    driver: GenericDisplayDriver<C>,
    spec: DriverSpec,
    contents: Composition<C>,
)
    ensures
        made_for(driver, spec, contents) <==> driver.instance_id@ == spec.instance_id@
            && driver.entities@ == spec.entities@ && driver.compositor@ == contents,
{
}

} // verus!
