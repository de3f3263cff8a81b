//! Which layouts are accepted, in terms of ids and pixels, and what becomes of an
//! accepted one.

use vstd::prelude::*;

use crate::drivers::display::layout::{
    expanded_zones, first_overlap, first_zone_fault, law_accepted_layouts_are_valid, layout_fault,
    repeats_id, zone_fault, ZoneConfig,
};
use crate::drivers::display::widgets::widget_fault;
use crate::entities::id::valid_id;
use crate::entities::{ActuatorType, EntityType, EntityView};
use crate::text::decimal;

verus! {

/// Whether the pixel in column `x` and row `y` of the panel is part of a zone.
pub open spec fn has_pixel(zone: ZoneConfig, x: int, y: int) -> bool {
    0 <= x - zone.x < zone.width && 0 <= y - zone.y < zone.height
}

/// Whether some pixel is part of two zones.
pub open spec fn share_pixel(a: ZoneConfig, b: ZoneConfig) -> bool {
    exists|x: int, y: int| has_pixel(a, x, y) && has_pixel(b, x, y)
}

/// The larger of two coordinates.
spec fn later(a: u32, b: u32) -> int {
    if a >= b {
        a as int
    } else {
        b as int
    }
}

/// Two zones that have pixels at all are clear of each other exactly if they have no
/// pixel in common, and it does not matter which of them is asked.
pub proof fn law_clear_zones_share_no_pixel(a: ZoneConfig, b: ZoneConfig)
    requires
        a.width > 0,
        a.height > 0,
        b.width > 0,
        b.height > 0,
    ensures
        a.clear_of(b) <==> !share_pixel(a, b),
        b.clear_of(a) <==> !share_pixel(a, b),
{
    if !a.clear_of(b) || !b.clear_of(a) {
        let x = later(a.x, b.x);
        let y = later(a.y, b.y);
        assert(has_pixel(a, x, y) && has_pixel(b, x, y));
    }
}

/// Whether all pixels of a zone are on the panel.
pub open spec fn on_panel(zone: ZoneConfig, panel_width: u32, panel_height: u32) -> bool {
    forall|x: int, y: int|
        #[trigger] has_pixel(zone, x, y) ==> 0 <= x < panel_width && 0 <= y < panel_height
}

/// A zone that has pixels fits the panel exactly if they are all on it.
pub proof fn law_fitting_zones_are_on_the_panel(
    zone: ZoneConfig,
    panel_width: u32,
    panel_height: u32,
)
    requires
        zone.width > 0,
        zone.height > 0,
    ensures
        zone.fits(panel_width, panel_height) <==> on_panel(zone, panel_width, panel_height),
{
    if on_panel(zone, panel_width, panel_height) {
        assert(has_pixel(zone, zone.x + zone.width - 1, zone.y + zone.height - 1));
    }
}

/// A layout is accepted exactly if it has a zone; every zone has a valid id, some
/// pixels, all of them on the panel, and a sound widget; no two zones have the same
/// id; and no pixel is part of two zones.
pub proof fn law_layouts_are_accepted_by_their_pixels(
    layout: Seq<ZoneConfig>,
    panel_width: u32,
    panel_height: u32,
)
    ensures
        layout_fault(layout, panel_width, panel_height) is None <==> {
            &&& layout.len() > 0
            &&& forall|i: int|
                0 <= i < layout.len() ==> {
                    let zone = #[trigger] layout[i];
                    &&& valid_id(zone.id@)
                    &&& zone.width > 0
                    &&& zone.height > 0
                    &&& on_panel(zone, panel_width, panel_height)
                    &&& widget_fault(zone.widget) is None
                }
            &&& forall|i: int, j: int|
                0 <= i < layout.len() && 0 <= j < layout.len() && i != j ==> (
                #[trigger] layout[i]).id@ != (#[trigger] layout[j]).id@ && !share_pixel(
                    layout[i],
                    layout[j],
                )
        },
{
    law_accepted_layouts_are_valid(layout, panel_width, panel_height);
    assert forall|i: int|
        0 <= i < layout.len() && layout[i].width > 0 && layout[i].height > 0 implies (
    #[trigger] layout[i]).fits(panel_width, panel_height) == on_panel(
        layout[i],
        panel_width,
        panel_height,
    ) by {
        law_fitting_zones_are_on_the_panel(layout[i], panel_width, panel_height);
    }
    assert forall|i: int, j: int|
        0 <= i < layout.len() && 0 <= j < layout.len() && layout[i].width > 0 && layout[i].height
            > 0 && layout[j].width > 0 && layout[j].height > 0 implies (
    #[trigger] layout[i]).clear_of(#[trigger] layout[j]) == !share_pixel(layout[i], layout[j])
        && layout[j].clear_of(layout[i]) == !share_pixel(layout[i], layout[j]) by {
        law_clear_zones_share_no_pixel(layout[i], layout[j]);
    }
}

/// Whether a layout is accepted does not depend on the order of its zones: two of
/// them may change places.
pub proof fn law_zone_order_does_not_matter(
    layout: Seq<ZoneConfig>,
    a: int,
    b: int,
    panel_width: u32,
    panel_height: u32,
)
    requires
        0 <= a < layout.len(),
        0 <= b < layout.len(),
    ensures
        layout_fault(layout, panel_width, panel_height) is None <==> layout_fault(
            layout.update(a, layout[b]).update(b, layout[a]),
            panel_width,
            panel_height,
        ) is None,
{
    let swapped = layout.update(a, layout[b]).update(b, layout[a]);
    law_layouts_are_accepted_by_their_pixels(layout, panel_width, panel_height);
    law_layouts_are_accepted_by_their_pixels(swapped, panel_width, panel_height);
    let place = |i: int|
        if i == a {
            b
        } else if i == b {
            a
        } else {
            i
        };
    assert forall|i: int| 0 <= i < layout.len() implies #[trigger] swapped[i] == layout[place(
        i,
    )] && layout[i] == swapped[place(i)] by {}
    if layout_fault(layout, panel_width, panel_height) is None {
        assert forall|i: int, j: int|
            0 <= i < swapped.len() && 0 <= j < swapped.len() && i != j implies (
        #[trigger] swapped[i]).id@ != (#[trigger] swapped[j]).id@ && !share_pixel(
            swapped[i],
            swapped[j],
        ) by {
            assert(layout[place(i)].id@ != layout[place(j)].id@);
        }
    }
    if layout_fault(swapped, panel_width, panel_height) is None {
        assert forall|i: int| 0 <= i < layout.len() implies {
            let zone = #[trigger] layout[i];
            &&& valid_id(zone.id@)
            &&& zone.width > 0
            &&& zone.height > 0
            &&& on_panel(zone, panel_width, panel_height)
            &&& widget_fault(zone.widget) is None
        } by {
            assert(swapped[place(i)] == layout[i]);
        }
        assert forall|i: int, j: int|
            0 <= i < layout.len() && 0 <= j < layout.len() && i != j implies (
        #[trigger] layout[i]).id@ != (#[trigger] layout[j]).id@ && !share_pixel(
            layout[i],
            layout[j],
        ) by {
            assert(swapped[place(i)].id@ != swapped[place(j)].id@);
        }
    }
}

/// The entities of an accepted panel: one per zone, in order, on the panel's device,
/// under the panel's id followed by a dot and the zone's id, each a display region
/// named after its zone. Anything but a panel is refused.
pub proof fn law_zone_entities_are_named_after_zones(
    declared: EntityView,
    layout: Seq<ZoneConfig>,
    i: int,
)
    requires
        0 <= i < layout.len(),
    ensures
        match expanded_zones(declared, layout) {
            Ok(entities) => {
                &&& declared.entity_type == EntityType::Actuator(ActuatorType::DisplayPanel)
                &&& entities.len() == layout.len()
                &&& entities[i].id.device == declared.id.device
                &&& entities[i].id.entity == declared.id.entity + seq!['.'] + layout[i].id@
                &&& entities[i].entity_type == EntityType::Actuator(ActuatorType::DisplayRegion)
                &&& entities[i].name == Some(layout[i].id@)
            },
            Err(_) => true,
        },
        declared.entity_type != EntityType::Actuator(ActuatorType::DisplayPanel) ==> expanded_zones(
            declared,
            layout,
        ) is Err,
{
    reveal_strlit(".");
    assert("."@ =~= seq!['.']);
}

proof fn lemma_same_overlaps(layout: Seq<ZoneConfig>, n: int, k: int, from: int)
    requires
        0 <= from <= k < n <= layout.len(),
    ensures
        first_overlap(layout.take(n), k, from) == first_overlap(layout, k, from),
    decreases k - from,
{
    if from < k {
        lemma_same_overlaps(layout, n, k, from + 1);
    }
}

proof fn lemma_faultless_start(
    layout: Seq<ZoneConfig>,
    n: int,
    from: int,
    panel_width: u32,
    panel_height: u32,
)
    requires
        0 <= from <= n <= layout.len(),
        first_zone_fault(layout.take(n), from, panel_width, panel_height) is None,
    ensures
        first_zone_fault(layout, from, panel_width, panel_height) == first_zone_fault(
            layout,
            n,
            panel_width,
            panel_height,
        ),
    decreases n - from,
{
    if from < n {
        let start = layout.take(n);
        lemma_same_overlaps(layout, n, from, 0);
        assert(start[from] == layout[from]);
        if repeats_id(layout, from) {
            let j = choose|j: int| 0 <= j < from && (#[trigger] layout[j]).id@ == layout[from].id@;
            assert(start[j].id@ == start[from].id@);
        }
        assert(zone_fault(start, from, panel_width, panel_height) is None);
        lemma_faultless_start(layout, n, from + 1, panel_width, panel_height);
    }
}

/// The overlap reported for a zone is with the first zone before it that it shares a
/// pixel with.
proof fn lemma_first_shared(layout: Seq<ZoneConfig>, i: int, j: int, from: int)
    requires
        0 <= from <= j < i < layout.len(),
        forall|k: int|
            from <= k <= i ==> (#[trigger] layout[k]).width > 0 && layout[k].height > 0,
        share_pixel(layout[j], layout[i]),
        forall|k: int| from <= k < j ==> !share_pixel(#[trigger] layout[k], layout[i]),
    ensures
        first_overlap(layout, i, from) == Some(j),
    decreases j - from,
{
    law_clear_zones_share_no_pixel(layout[from], layout[i]);
    if from < j {
        assert(!share_pixel(layout[from], layout[i]));
        lemma_first_shared(layout, i, j, from + 1);
    }
}

/// The first zone that spoils a layout is the one reported: for its id, if that is not
/// valid or an earlier zone has it; or else for having no pixels, or pixels off the
/// panel; or else with the first earlier zone it shares a pixel with; or else for what is
/// wrong with its widget.
pub proof fn law_the_first_faulty_zone_is_reported(
    layout: Seq<ZoneConfig>,
    i: int,
    panel_width: u32,
    panel_height: u32,
)
    requires
        0 <= i < layout.len(),
        i > 0 ==> layout_fault(layout.take(i), panel_width, panel_height) is None,
    ensures
        ({
            let zone = layout[i];
            let fault = layout_fault(layout, panel_width, panel_height);
            let repeated = exists|j: int| 0 <= j < i && (#[trigger] layout[j]).id@ == zone.id@;
            let named = valid_id(zone.id@) && !repeated;
            let solid = named && zone.width > 0 && zone.height > 0;
            let placed = solid && on_panel(zone, panel_width, panel_height);
            let apart = placed && forall|j: int|
                0 <= j < i ==> !share_pixel(#[trigger] layout[j], zone);
            &&& !valid_id(zone.id@) ==> fault == Some(
                "zone id '"@ + zone.id@ + "' is invalid: ids must match [a-z][a-z0-9_]*"@,
            )
            &&& valid_id(zone.id@) && repeated ==> fault == Some(
                "duplicate zone id '"@ + zone.id@ + "'"@,
            )
            &&& named && !solid ==> fault == Some(
                "zone '"@ + zone.id@ + "' has zero width or height"@,
            )
            &&& solid && !placed ==> fault == Some(
                "zone '"@ + zone.id@ + "' exceeds the "@ + decimal(panel_width as nat) + "x"@
                    + decimal(panel_height as nat) + " panel"@,
            )
            &&& forall|j: int|
                placed && 0 <= j < i && share_pixel(#[trigger] layout[j], zone) && (forall|k: int|
                    0 <= k < j ==> !share_pixel(#[trigger] layout[k], zone)) ==> fault == Some(
                    "zones '"@ + layout[j].id@ + "' and '"@ + zone.id@ + "' overlap"@,
                )
            &&& apart ==> (widget_fault(zone.widget) matches Some(message) ==> fault == Some(
                "zone '"@ + zone.id@ + "': "@ + message,
            ))
        }),
{
    let zone = layout[i];
    let fault = layout_fault(layout, panel_width, panel_height);
    if i > 0 {
        lemma_faultless_start(layout, i, 0, panel_width, panel_height);
        law_layouts_are_accepted_by_their_pixels(layout.take(i), panel_width, panel_height);
        assert forall|k: int| 0 <= k < i implies (#[trigger] layout[k]).width > 0
            && layout[k].height > 0 by {
            assert(layout.take(i)[k] == layout[k]);
        }
    }
    assert(fault == first_zone_fault(layout, i, panel_width, panel_height));
    if zone.width > 0 && zone.height > 0 {
        law_fitting_zones_are_on_the_panel(zone, panel_width, panel_height);
        assert forall|j: int|
            0 <= j < i && share_pixel(#[trigger] layout[j], zone) && (forall|k: int|
                0 <= k < j ==> !share_pixel(#[trigger] layout[k], zone)) implies first_overlap(
            layout,
            i,
            0,
        ) == Some(j) by {
            lemma_first_shared(layout, i, j, 0);
        }
        if forall|j: int| 0 <= j < i ==> !share_pixel(#[trigger] layout[j], zone) {
            lemma_none_shared(layout, i, 0);
        }
    }
}

proof fn lemma_none_shared(layout: Seq<ZoneConfig>, i: int, from: int)
    requires
        0 <= from <= i < layout.len(),
        forall|k: int|
            from <= k <= i ==> (#[trigger] layout[k]).width > 0 && layout[k].height > 0,
        forall|k: int| from <= k < i ==> !share_pixel(#[trigger] layout[k], layout[i]),
    ensures
        first_overlap(layout, i, from) is None,
    decreases i - from,
{
    if from < i {
        law_clear_zones_share_no_pixel(layout[from], layout[i]);
        assert(!share_pixel(layout[from], layout[i]));
        lemma_none_shared(layout, i, from + 1);
    }
}

/// A layout without zones is refused as such.
pub proof fn law_empty_layouts_are_refused(panel_width: u32, panel_height: u32)
    ensures
        layout_fault(Seq::empty(), panel_width, panel_height) == Some(
            "layout must define at least one zone"@,
        ),
{
}

} // verus!
