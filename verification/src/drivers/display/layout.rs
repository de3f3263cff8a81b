//! Zone layouts: how one display is partitioned, and the entities that result.

use vstd::prelude::*;

use crate::drivers::display::widgets::{reports, widget_fault, WidgetConfig};
use crate::entities::id::{valid_id, valid_local_id, EntityAddress};
use crate::entities::{
    entity_views, is_valid_id, ActuatorType, Entity, EntityId, EntityType, EntityView,
};
use crate::error::{id_fault_message, IdFault};
use crate::text::{append_decimal, decimal, str_eq};

verus! {

/// One zone of a partitioned display, as declared in config.
#[derive(Debug, PartialEq)]
pub struct ZoneConfig {
    pub id: String,
    pub x: u32,
    pub y: u32,
    pub width: u32,
    pub height: u32,
    pub widget: WidgetConfig,
}

impl Clone for ZoneConfig {
    fn clone(&self) -> (copy: Self)
        ensures
            copy == *self,
    {
        ZoneConfig {
            id: self.id.clone(),
            x: self.x,
            y: self.y,
            width: self.width,
            height: self.height,
            widget: self.widget.clone(),
        }
    }
}

/// A layout of its own with the same zones.
pub fn clone_layout(layout: &Vec<ZoneConfig>) -> (copy: Vec<ZoneConfig>)
    ensures
        copy@ == layout@,
{
    let mut copy: Vec<ZoneConfig> = Vec::new();
    let mut i: usize = 0;
    while i < layout.len()
        invariant
            i <= layout@.len(),
            copy@ == layout@.take(i as int),
        decreases layout@.len() - i,
    {
        copy.push(layout[i].clone());
        i += 1;
        assert(copy@ =~= layout@.take(i as int));
    }
    assert(copy@ =~= layout@);
    copy
}

impl ZoneConfig {
    /// Whether a panel pixel belongs to the zone.
    pub open spec fn holds(self, x: int, y: int) -> bool {
        self.x <= x < self.x + self.width && self.y <= y < self.y + self.height
    }

    /// Whether the zone ends within the panel.
    pub open spec fn fits(self, panel_width: u32, panel_height: u32) -> bool {
        self.x + self.width <= panel_width && self.y + self.height <= panel_height
    }

    /// Whether one zone lies beside, above or below another.
    pub open spec fn clear_of(self, other: ZoneConfig) -> bool {
        ||| self.x >= other.x + other.width
        ||| other.x >= self.x + self.width
        ||| self.y >= other.y + other.height
        ||| other.y >= self.y + self.height
    }
}

/// Whether an earlier zone has the id of zone `i`.
pub open spec fn repeats_id(layout: Seq<ZoneConfig>, i: int) -> bool {
    exists|j: int| 0 <= j < i && (#[trigger] layout[j]).id@ == layout[i].id@
}

/// The first zone from `from` on, and before zone `i`, that zone `i` overlaps.
pub open spec fn first_overlap(layout: Seq<ZoneConfig>, i: int, from: int) -> Option<int>
    decreases i - from,
{
    if from >= i {
        None
    } else if !layout[i].clear_of(layout[from]) {
        Some(from)
    } else {
        first_overlap(layout, i, from + 1)
    }
}

/// What is wrong with zone `i`, taken with the zones before it.
pub open spec fn zone_fault(
    layout: Seq<ZoneConfig>,
    i: int,
    panel_width: u32,
    panel_height: u32,
) -> Option<Seq<char>> {
    let zone = layout[i];
    if !valid_id(zone.id@) {
        Some("zone id '"@ + zone.id@ + "' is invalid: ids must match [a-z][a-z0-9_]*"@)
    } else if repeats_id(layout, i) {
        Some("duplicate zone id '"@ + zone.id@ + "'"@)
    } else if zone.width == 0 || zone.height == 0 {
        Some("zone '"@ + zone.id@ + "' has zero width or height"@)
    } else if !zone.fits(panel_width, panel_height) {
        Some(
            "zone '"@ + zone.id@ + "' exceeds the "@ + decimal(panel_width as nat) + "x"@ + decimal(
                panel_height as nat,
            ) + " panel"@,
        )
    } else {
        match (first_overlap(layout, i, 0), widget_fault(zone.widget)) {
            (Some(j), _) => Some(
                "zones '"@ + layout[j].id@ + "' and '"@ + zone.id@ + "' overlap"@,
            ),
            (None, Some(message)) => Some("zone '"@ + zone.id@ + "': "@ + message),
            (None, None) => None,
        }
    }
}

/// What is wrong with the first faulty zone from `from` on.
pub open spec fn first_zone_fault(
    layout: Seq<ZoneConfig>,
    from: int,
    panel_width: u32,
    panel_height: u32,
) -> Option<Seq<char>>
    decreases layout.len() - from,
{
    if from >= layout.len() {
        None
    } else {
        match zone_fault(layout, from, panel_width, panel_height) {
            Some(message) => Some(message),
            None => first_zone_fault(layout, from + 1, panel_width, panel_height),
        }
    }
}

/// What is wrong with a layout, if anything.
pub open spec fn layout_fault(
    layout: Seq<ZoneConfig>,
    panel_width: u32,
    panel_height: u32,
) -> Option<Seq<char>> {
    if layout.len() == 0 {
        Some("layout must define at least one zone"@)
    } else {
        first_zone_fault(layout, 0, panel_width, panel_height)
    }
}

/// A layout that can be shown: at least one zone; each with a plain id, some
/// pixels, all of them on the panel, and a sound widget; no two with the same id
/// or a common pixel.
pub open spec fn valid_layout(
    layout: Seq<ZoneConfig>,
    panel_width: u32,
    panel_height: u32,
) -> bool {
    &&& layout.len() > 0
    &&& forall|i: int|
        0 <= i < layout.len() ==> {
            let zone = #[trigger] layout[i];
            &&& valid_id(zone.id@)
            &&& zone.width > 0
            &&& zone.height > 0
            &&& zone.fits(panel_width, panel_height)
            &&& widget_fault(zone.widget) is None
        }
    &&& forall|i: int, j: int|
        0 <= i < j < layout.len() ==> (#[trigger] layout[i]).id@ != (#[trigger] layout[j]).id@
            && layout[j].clear_of(layout[i])
}

fn quoted(before: &str, id: &str, after: &str) -> (text: String)
    ensures
        text@ == before@ + id@ + after@,
{
    let mut text: String = before.to_owned();
    text.append(id);
    text.append(after);
    text
}

fn zone_fits(zone: &ZoneConfig, panel_width: u32, panel_height: u32) -> (r: bool)
    ensures
        r == zone.fits(panel_width, panel_height),
{
    zone.x as u64 + zone.width as u64 <= panel_width as u64 && zone.y as u64 + zone.height as u64
        <= panel_height as u64
}

fn zone_is_clear_of(zone: &ZoneConfig, other: &ZoneConfig) -> (r: bool)
    ensures
        r == zone.clear_of(*other),
{
    zone.x as u64 >= other.x as u64 + other.width as u64 || other.x as u64 >= zone.x as u64
        + zone.width as u64 || zone.y as u64 >= other.y as u64 + other.height as u64
        || other.y as u64 >= zone.y as u64 + zone.height as u64
}

fn id_seen_before(layout: &[ZoneConfig], i: usize) -> (seen: bool)
    requires
        i < layout@.len(),
    ensures
        seen == repeats_id(layout@, i as int),
{
    let mut j: usize = 0;
    while j < i
        invariant
            j <= i < layout@.len(),
            forall|k: int| 0 <= k < j ==> (#[trigger] layout@[k]).id@ != layout@[i as int].id@,
        decreases i - j,
    {
        if str_eq(layout[j].id.as_str(), layout[i].id.as_str()) {
            return true;
        }
        j += 1;
    }
    false
}

fn find_overlap(layout: &[ZoneConfig], i: usize) -> (found: Option<usize>)
    requires
        i < layout@.len(),
    ensures
        match found {
            Some(j) => j < i && first_overlap(layout@, i as int, 0) == Some(j as int),
            None => first_overlap(layout@, i as int, 0) is None,
        },
{
    let mut j: usize = 0;
    while j < i
        invariant
            j <= i < layout@.len(),
            first_overlap(layout@, i as int, 0) == first_overlap(layout@, i as int, j as int),
        decreases i - j,
    {
        if !zone_is_clear_of(&layout[i], &layout[j]) {
            return Some(j);
        }
        j += 1;
    }
    None
}

fn validate_zone(layout: &[ZoneConfig], i: usize, panel_width: u32, panel_height: u32) -> (checked:
    Result<(), String>)
    requires
        i < layout@.len(),
    ensures
        reports(checked, zone_fault(layout@, i as int, panel_width, panel_height)),
{
    let zone: &ZoneConfig = &layout[i];
    let id: &str = zone.id.as_str();
    if !is_valid_id(id) {
        return Err(quoted("zone id '", id, "' is invalid: ids must match [a-z][a-z0-9_]*"));
    }
    if id_seen_before(layout, i) {
        return Err(quoted("duplicate zone id '", id, "'"));
    }
    if zone.width == 0 || zone.height == 0 {
        return Err(quoted("zone '", id, "' has zero width or height"));
    }
    if !zone_fits(zone, panel_width, panel_height) {
        let mut text: String = quoted("zone '", id, "' exceeds the ");
        append_decimal(&mut text, panel_width as u128);
        text.append("x");
        append_decimal(&mut text, panel_height as u128);
        text.append(" panel");
        return Err(text);
    }
    if let Some(j) = find_overlap(layout, i) {
        let mut text: String = quoted("zones '", layout[j].id.as_str(), "' and '");
        text.append(id);
        text.append("' overlap");
        return Err(text);
    }
    match zone.widget.validate() {
        Ok(_) => Ok(()),
        Err(message) => {
            let mut text: String = quoted("zone '", id, "': ");
            text.append(message.as_str());
            Err(text)
        },
    }
}

/// Validate a zone layout: ids, panel bounds, pairwise overlap, and each zone's
/// own widget config. The panel's size is the physical display's resolution,
/// supplied by the caller.
pub fn validate_layout(layout: &[ZoneConfig], panel_width: u32, panel_height: u32) -> (checked:
    Result<(), String>)
    ensures
        reports(checked, layout_fault(layout@, panel_width, panel_height)),
{
    if layout.len() == 0 {
        return Err("layout must define at least one zone".to_owned());
    }
    let mut i: usize = 0;
    while i < layout.len()
        invariant
            i <= layout@.len(),
            first_zone_fault(layout@, 0, panel_width, panel_height) == first_zone_fault(
                layout@,
                i as int,
                panel_width,
                panel_height,
            ),
        decreases layout@.len() - i,
    {
        match validate_zone(layout, i, panel_width, panel_height) {
            Ok(_) => {},
            Err(message) => {
                return Err(message);
            },
        }
        i += 1;
    }
    Ok(())
}

/// The local id of a zone's entity.
pub open spec fn zone_local_id(declared: EntityAddress, zone: ZoneConfig) -> Seq<char> {
    declared.entity + "."@ + zone.id@
}

/// The entity of a zone: `<declared entity id>.<zone id>` on the same device.
pub open spec fn zone_entity(declared: EntityAddress, zone: ZoneConfig) -> EntityView {
    EntityView {
        id: EntityAddress { device: declared.device, entity: zone_local_id(declared, zone) },
        entity_type: EntityType::Actuator(ActuatorType::DisplayRegion),
        name: Some(zone.id@),
    }
}

/// The first zone from `from` on whose entity would not have a valid id.
pub open spec fn first_unnamable(
    declared: EntityAddress,
    layout: Seq<ZoneConfig>,
    from: int,
) -> Option<int>
    decreases layout.len() - from,
{
    if from >= layout.len() {
        None
    } else if !valid_local_id(zone_local_id(declared, layout[from])) {
        Some(from)
    } else {
        first_unnamable(declared, layout, from + 1)
    }
}

/// The entities that a partitioned display exposes: one per zone, in layout
/// order. The panel has to be declared as such.
pub open spec fn expanded_zones(declared: EntityView, layout: Seq<ZoneConfig>) -> Result<
    Seq<EntityView>,
    Seq<char>,
> {
    if declared.entity_type != EntityType::Actuator(ActuatorType::DisplayPanel) {
        Err(
            "a partitioned display must be declared as a 'display_panel' entity, not '"@
                + declared.entity_type.name() + "'"@,
        )
    } else {
        match first_unnamable(declared.id, layout, 0) {
            Some(i) => Err(
                id_fault_message(IdFault::InvalidId(zone_local_id(declared.id, layout[i]))),
            ),
            None => Ok(layout.map_values(|zone: ZoneConfig| zone_entity(declared.id, zone))),
        }
    }
}

/// Whether entities, or the message that there are none, are as `expected`.
pub open spec fn yields(
    made: Result<Vec<Entity>, String>,
    expected: Result<Seq<EntityView>, Seq<char>>,
) -> bool {
    match made {
        Ok(entities) => expected == Ok::<Seq<EntityView>, Seq<char>>(entity_views(entities@)),
        Err(message) => expected == Err::<Seq<EntityView>, Seq<char>>(message@),
    }
}

fn expand_zone(declared: &EntityId, zone: &ZoneConfig) -> (made: Result<Entity, String>)
    ensures
        match made {
            Ok(entity) => valid_local_id(zone_local_id(declared@, *zone)) && entity@ == zone_entity(
                declared@,
                *zone,
            ),
            Err(message) => !valid_local_id(zone_local_id(declared@, *zone)) && message@
                == id_fault_message(IdFault::InvalidId(zone_local_id(declared@, *zone))),
        },
{
    let local: String = quoted(declared.entity(), ".", zone.id.as_str());
    match EntityId::new(declared.device().clone(), local.as_str()) {
        Ok(id) => Ok(
            Entity {
                id,
                entity_type: EntityType::Actuator(ActuatorType::DisplayRegion),
                name: Some(zone.id.clone()),
            },
        ),
        Err(e) => Err(e.message()),
    }
}

/// Zone to entity expansion: one `display_region` actuator entity per zone,
/// addressed as `<declared_entity_id>.<zone_id>`. The dotted names stay ordinary
/// `device_id.entity_id` addresses. `declared` must be a `display_panel` entity;
/// the panel itself is never directly addressable once partitioned.
pub fn zone_entities(declared: &Entity, layout: &[ZoneConfig]) -> (made: Result<
    Vec<Entity>,
    String,
>)
    ensures
        yields(made, expanded_zones(declared@, layout@)),
{
    if declared.entity_type != EntityType::Actuator(ActuatorType::DisplayPanel) {
        return Err(
            quoted(
                "a partitioned display must be declared as a 'display_panel' entity, not '",
                declared.entity_type.as_str(),
                "'",
            ),
        );
    }
    let ghost address = declared.id@;
    let ghost expected = layout@.map_values(|zone: ZoneConfig| zone_entity(address, zone));
    let mut entities: Vec<Entity> = Vec::new();
    let mut i: usize = 0;
    while i < layout.len()
        invariant
            i <= layout@.len(),
            address == declared.id@,
            expected == layout@.map_values(|zone: ZoneConfig| zone_entity(address, zone)),
            declared.entity_type == EntityType::Actuator(ActuatorType::DisplayPanel),
            first_unnamable(address, layout@, 0) == first_unnamable(address, layout@, i as int),
            entities@.len() == i,
            forall|k: int| 0 <= k < i ==> (#[trigger] entities@[k])@ == expected[k],
        decreases layout@.len() - i,
    {
        match expand_zone(&declared.id, &layout[i]) {
            Ok(entity) => {
                entities.push(entity);
            },
            Err(message) => {
                return Err(message);
            },
        }
        i += 1;
    }
    assert(entity_views(entities@) =~= expected);
    Ok(entities)
}

proof fn lemma_overlap_found(layout: Seq<ZoneConfig>, i: int, from: int)
    requires
        0 <= from <= i < layout.len(),
    ensures
        first_overlap(layout, i, from) is None <==> forall|j: int|
            from <= j < i ==> layout[i].clear_of(#[trigger] layout[j]),
    decreases i - from,
{
    if from < i {
        lemma_overlap_found(layout, i, from + 1);
        if layout[i].clear_of(layout[from]) {
            assert(first_overlap(layout, i, from) == first_overlap(layout, i, from + 1));
        }
    }
}

proof fn lemma_no_zone_fault(layout: Seq<ZoneConfig>, from: int, panel_width: u32, panel_height: u32)
    requires
        0 <= from <= layout.len(),
    ensures
        first_zone_fault(layout, from, panel_width, panel_height) is None <==> forall|i: int|
            #![trigger layout[i]]
            from <= i < layout.len() ==> zone_fault(layout, i, panel_width, panel_height) is None,
    decreases layout.len() - from,
{
    if from < layout.len() {
        lemma_no_zone_fault(layout, from + 1, panel_width, panel_height);
        if zone_fault(layout, from, panel_width, panel_height) is Some {
            assert(layout[from] == layout[from]);
        }
    }
}

/// Validation accepts exactly the layouts that can be shown.
pub proof fn law_accepted_layouts_are_valid(
    layout: Seq<ZoneConfig>,
    panel_width: u32,
    panel_height: u32,
)
    ensures
        layout_fault(layout, panel_width, panel_height) is None <==> valid_layout(
            layout,
            panel_width,
            panel_height,
        ),
{
    if layout.len() > 0 {
        lemma_no_zone_fault(layout, 0, panel_width, panel_height);
        assert forall|i: int| 0 <= i < layout.len() implies (#[trigger] first_overlap(layout, i, 0)
            is None <==> forall|j: int|
            0 <= j < i ==> layout[i].clear_of(#[trigger] layout[j])) by {
            lemma_overlap_found(layout, i, 0);
        }
        if layout_fault(layout, panel_width, panel_height) is None {
            assert forall|i: int, j: int| 0 <= i < j < layout.len() implies (
            #[trigger] layout[i]).id@ != (#[trigger] layout[j]).id@ && layout[j].clear_of(
                layout[i],
            ) by {
                assert(zone_fault(layout, j, panel_width, panel_height) is None);
                assert(first_overlap(layout, j, 0) is None);
            }
        }
        if valid_layout(layout, panel_width, panel_height) {
            assert forall|i: int| #![trigger layout[i]] 0 <= i < layout.len() implies zone_fault(
                layout,
                i,
                panel_width,
                panel_height,
            ) is None by {
                assert(first_overlap(layout, i, 0) is None);
            }
        }
    }
}

/// In a valid layout every pixel of a zone is on the panel, and no pixel belongs
/// to two zones.
pub proof fn law_zones_partition_pixels(
    layout: Seq<ZoneConfig>,
    panel_width: u32,
    panel_height: u32,
    i: int,
    j: int,
    x: int,
    y: int,
)
    requires
        valid_layout(layout, panel_width, panel_height),
        0 <= i < layout.len(),
        0 <= j < layout.len(),
        layout[i].holds(x, y),
    ensures
        0 <= x < panel_width,
        0 <= y < panel_height,
        layout[j].holds(x, y) ==> i == j,
{
}

/// Dots join valid local ids to valid local ids.
proof fn lemma_joined_local_id(a: Seq<char>, b: Seq<char>)
    requires
        valid_local_id(a),
        valid_id(b),
    ensures
        valid_local_id(a + "."@ + b),
{
    reveal_strlit(".");
    let s = a + "."@ + b;
    assert(s[a.len() as int] == '.');
    assert forall|i: int, j: int| #[trigger] crate::entities::id::is_segment(s, i, j) implies valid_id(
        s.subrange(i, j),
    ) by {
        if i > a.len() {
            if i > a.len() + 1 {
                assert(s[i - 1] == b[i - 1 - a.len() - 1]);
            }
            if j < s.len() {
                assert(s[j] == b[j - a.len() - 1]);
            }
            assert(s.subrange(i, j) =~= b);
        } else {
            if j > a.len() {
                assert(s[a.len() as int] == '.');
            }
            assert(a.subrange(i, j) =~= s.subrange(i, j));
            if i > 0 {
                assert(a[i - 1] == s[i - 1]);
            }
            if j < a.len() {
                assert(a[j] == s[j]);
            }
            assert forall|k: int| i <= k < j implies #[trigger] a[k] != '.' by {
                assert(s[k] == a[k]);
            }
            assert(crate::entities::id::is_segment(a, i, j));
        }
    }
}

proof fn lemma_all_namable(
    declared: EntityAddress,
    layout: Seq<ZoneConfig>,
    panel_width: u32,
    panel_height: u32,
    from: int,
)
    requires
        valid_local_id(declared.entity),
        valid_layout(layout, panel_width, panel_height),
        0 <= from <= layout.len(),
    ensures
        first_unnamable(declared, layout, from) is None,
    decreases layout.len() - from,
{
    if from < layout.len() {
        lemma_all_namable(declared, layout, panel_width, panel_height, from + 1);
        lemma_joined_local_id(declared.entity, layout[from].id@);
    }
}

/// A panel with a valid layout always expands, to one entity per zone, in
/// layout order.
pub proof fn law_valid_layouts_expand(
    declared: EntityView,
    layout: Seq<ZoneConfig>,
    panel_width: u32,
    panel_height: u32,
)
    requires
        declared.entity_type == EntityType::Actuator(ActuatorType::DisplayPanel),
        valid_local_id(declared.id.entity),
        valid_layout(layout, panel_width, panel_height),
    ensures
        expanded_zones(declared, layout) == Ok::<Seq<EntityView>, Seq<char>>(
            layout.map_values(|zone: ZoneConfig| zone_entity(declared.id, zone)),
        ),
{
    lemma_all_namable(declared.id, layout, panel_width, panel_height, 0);
}

/// Zones with different ids have different addresses, and none has the
/// address of the panel.
pub proof fn law_zone_addresses_are_distinct(declared: EntityAddress, a: ZoneConfig, b: ZoneConfig)
    ensures
        a.id@ != b.id@ ==> zone_entity(declared, a).id != zone_entity(declared, b).id,
        zone_entity(declared, a).id != declared,
{
    reveal_strlit(".");
    let la = zone_local_id(declared, a);
    let lb = zone_local_id(declared, b);
    let n = declared.entity.len() + 1;
    assert(la.skip(n as int) =~= a.id@);
    assert(lb.skip(n as int) =~= b.id@);
    assert(la.len() != declared.entity.len());
}

} // verus!
