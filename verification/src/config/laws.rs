//! What holds of every accepted configuration.

use vstd::prelude::*;

use crate::automations::{first_binding_fault, BindingView};
use crate::config::{
    domain_in, enter_devices, enter_entities, enter_entity, enter_exposed, first_raw_binding_fault,
    knows, named_device, raw_binding_fault, validated, Gathered, RawBinding, RawConfig, RawDevice,
    RawEntity,
};
use crate::drivers::display::layout::{
    expanded_zones, law_zone_addresses_are_distinct, zone_entity, ZoneConfig,
};
use crate::drivers::display::panel::declared_panel;
use crate::drivers::{
    exposed_entities, ili9341_display, ssd1306_display, DriverSpec, DriverSpecView,
    ILI9341_DISPLAY_KIND, SSD1306_DISPLAY_KIND,
};
use crate::entities::id::{
    address_text, law_address_round_trip, parsed_address, valid_address, valid_id, EntityAddress,
};
use crate::entities::{
    entity_views, sensor_type_in, types_by_address, DeviceView, Entity, EntityDomain, EntityType,
    EntityView,
};
use crate::error::BindingFault;

verus! {

/// The addresses and types of all entities that specs list, in order.
pub open spec fn listed(specs: Seq<DriverSpecView>) -> Seq<(EntityAddress, EntityType)>
    decreases specs.len(),
{
    if specs.len() == 0 {
        Seq::empty()
    } else {
        listed(specs.drop_last()) + typed(specs.last().entities)
    }
}

/// The addresses and types of entities.
pub open spec fn typed(entities: Seq<EntityView>) -> Seq<(EntityAddress, EntityType)> {
    entities.map_values(|e: EntityView| (e.id, e.entity_type))
}

/// Whether no two entries have the same address.
pub open spec fn distinct(entries: Seq<(EntityAddress, EntityType)>) -> bool {
    forall|i: int, j: int|
        0 <= i < j < entries.len() ==> (#[trigger] entries[i]).0 != (#[trigger] entries[j]).0
}

/// The address of the entity that a driver instance was declared for.
pub open spec fn instance_address(spec: DriverSpecView) -> EntityAddress {
    parsed_address(spec.instance_id)->Ok_0
}

/// A spec as validation makes it: named after a valid address, of a known kind,
/// and listing what a driver of that kind exposes.
pub open spec fn sound_spec(spec: DriverSpecView, kinds: Seq<&str>) -> bool {
    &&& knows(kinds, spec.kind)
    &&& parsed_address(spec.instance_id) is Ok
    &&& valid_address(instance_address(spec))
    &&& spec.instance_id == address_text(instance_address(spec))
    &&& exists|declared: EntityView|
        #![trigger exposed_entities(spec.kind, declared, spec.config)]
        declared.id == instance_address(spec) && exposed_entities(
            spec.kind,
            declared,
            spec.config,
        ) == Ok::<Seq<EntityView>, Seq<char>>(spec.entities)
}

/// Devices as validation makes them: valid ids, none twice.
pub open spec fn sound_devices(devices: Seq<DeviceView>) -> bool {
    &&& forall|i: int| 0 <= i < devices.len() ==> valid_id((#[trigger] devices[i]).id)
    &&& forall|i: int, j: int|
        0 <= i < j < devices.len() ==> (#[trigger] devices[i]).id != (#[trigger] devices[j]).id
}

/// Specs as validation makes them: each sound, no instance id twice, and no
/// entity listed twice.
pub open spec fn sound_specs(specs: Seq<DriverSpecView>, kinds: Seq<&str>) -> bool {
    &&& forall|i: int| 0 <= i < specs.len() ==> sound_spec(#[trigger] specs[i], kinds)
    &&& forall|i: int, j: int|
        0 <= i < j < specs.len() ==> (#[trigger] specs[i]).instance_id != (
        #[trigger] specs[j]).instance_id
    &&& distinct(listed(specs))
}

/// Whether no driver instance is named after an entity that another one lists.
pub open spec fn instances_stand_apart(specs: Seq<DriverSpecView>) -> bool {
    forall|i: int, j: int, k: int|
        0 <= i < specs.len() && 0 <= j < specs.len() && i != j && 0 <= k < specs[j].entities.len()
            ==> (#[trigger] specs[j].entities[k]).id != instance_address(#[trigger] specs[i])
}

/// What holds throughout gathering.
spec fn sound(g: Gathered, kinds: Seq<&str>) -> bool {
    &&& sound_devices(g.devices)
    &&& sound_specs(g.driver_specs, kinds)
    &&& g.exposed == listed(g.driver_specs)
    &&& forall|i: int| 0 <= i < g.exposed.len() ==> g.taken.contains((#[trigger] g.exposed[i]).0)
    &&& forall|i: int|
        0 <= i < g.driver_specs.len() ==> g.taken.contains(
            instance_address(#[trigger] g.driver_specs[i]),
        )
    &&& forall|j: int, k: int|
        0 <= j < g.driver_specs.len() && 0 <= k < g.driver_specs[j].entities.len()
            ==> g.taken.contains((#[trigger] g.driver_specs[j].entities[k]).id)
    &&& instances_stand_apart(g.driver_specs)
}

/// What a driver exposes is the declared entity alone, or only others.
proof fn lemma_exposed_shape(kind: Seq<char>, declared: EntityView, config: crate::drivers::DriverDocument)
    requires
        exposed_entities(kind, declared, config) is Ok,
    ensures
        ({
            let entities = exposed_entities(kind, declared, config)->Ok_0;
            entities == seq![declared] || forall|k: int|
                0 <= k < entities.len() ==> (#[trigger] entities[k]).id != declared.id
        }),
{
    assert forall|zone: ZoneConfig| #[trigger] zone_entity(declared.id, zone).id != declared.id by {
        law_zone_addresses_are_distinct(declared.id, zone, zone);
    }
}

proof fn lemma_enter_exposed(
    g: Gathered,
    declared: EntityAddress,
    entities: Seq<EntityView>,
    from: int,
)
    requires
        0 <= from <= entities.len(),
        distinct(g.exposed),
        forall|i: int| 0 <= i < g.exposed.len() ==> g.taken.contains((#[trigger] g.exposed[i]).0),
        forall|k: int| from <= k < entities.len() ==> (#[trigger] entities[k]).id != declared || (
        entities.len() == 1 && forall|i: int|
            0 <= i < g.exposed.len() ==> (#[trigger] g.exposed[i]).0 != declared),
        enter_exposed(g, declared, entities, from) is Ok,
    ensures
        ({
            let entered = enter_exposed(g, declared, entities, from)->Ok_0;
            &&& entered.exposed == g.exposed + typed(entities).skip(from)
            &&& distinct(entered.exposed)
            &&& forall|i: int|
                0 <= i < entered.exposed.len() ==> entered.taken.contains(
                    (#[trigger] entered.exposed[i]).0,
                )
            &&& g.taken.subset_of(entered.taken)
            &&& forall|k: int|
                from <= k < entities.len() ==> entered.taken.contains((#[trigger] entities[k]).id)
                    && (entities[k].id == declared || !g.taken.contains(entities[k].id))
            &&& entered.devices == g.devices
            &&& entered.driver_specs == g.driver_specs
        }),
    decreases entities.len() - from,
{
    if from < entities.len() {
        let e = entities[from];
        let next = Gathered {
            exposed: g.exposed.push((e.id, e.entity_type)),
            taken: g.taken.insert(e.id),
            ..g
        };
        lemma_enter_exposed(next, declared, entities, from + 1);
        assert(typed(entities).skip(from) =~= seq![(e.id, e.entity_type)] + typed(entities).skip(
            from + 1,
        ));
        assert(g.exposed.push((e.id, e.entity_type)) + typed(entities).skip(from + 1) =~= g.exposed
            + typed(entities).skip(from));
    } else {
        assert(g.exposed + typed(entities).skip(from) =~= g.exposed);
    }
}

proof fn lemma_entity_sound(g: Gathered, device: Seq<char>, raw: RawEntity, kinds: Seq<&str>)
    requires
        sound(g, kinds),
        valid_id(device),
        enter_entity(g, device, raw, kinds) is Ok,
    ensures
        sound(enter_entity(g, device, raw, kinds)->Ok_0, kinds),
        enter_entity(g, device, raw, kinds)->Ok_0.devices == g.devices,
{
    let id = EntityAddress { device, entity: raw.id@ };
    let declared = crate::config::declared_entity(id, raw);
    let entities = exposed_entities(raw.driver@, declared, raw.driver_config)->Ok_0;
    let start = Gathered { taken: g.taken.insert(id), ..g };
    lemma_exposed_shape(raw.driver@, declared, raw.driver_config);
    lemma_enter_exposed(start, id, entities, 0);
    let after = enter_entity(g, device, raw, kinds)->Ok_0;
    let spec = after.driver_specs.last();
    assert(after.driver_specs.drop_last() =~= g.driver_specs);
    assert(typed(entities).skip(0) =~= typed(entities));
    assert(after.exposed == listed(after.driver_specs));
    law_address_round_trip(id);
    assert(instance_address(spec) == id);
    assert(exposed_entities(spec.kind, declared, spec.config) == Ok::<Seq<EntityView>, Seq<char>>(
        spec.entities,
    ));
    assert(sound_spec(spec, kinds));
    assert forall|i: int, j: int| 0 <= i < j < after.driver_specs.len() implies (
    #[trigger] after.driver_specs[i]).instance_id != (
    #[trigger] after.driver_specs[j]).instance_id by {
        if j == g.driver_specs.len() {
            assert(g.taken.contains(instance_address(g.driver_specs[i])));
        }
    }
    assert(g.taken.subset_of(after.taken));
    assert(after.taken.contains(id)) by {
        assert(start.taken.contains(id));
    }
    assert(spec.entities == entities);
    assert forall|j: int, k: int|
        0 <= j < after.driver_specs.len() && 0 <= k
            < after.driver_specs[j].entities.len() implies after.taken.contains(
        (#[trigger] after.driver_specs[j].entities[k]).id,
    ) by {
        if j < g.driver_specs.len() {
            assert(after.driver_specs[j] == g.driver_specs[j]);
            assert(g.taken.contains(g.driver_specs[j].entities[k].id));
        } else {
            assert(after.taken.contains(entities[k].id));
        }
    }
    assert forall|i: int, j: int, k: int|
        0 <= i < after.driver_specs.len() && 0 <= j < after.driver_specs.len() && i != j && 0 <= k
            < after.driver_specs[j].entities.len() implies (
    #[trigger] after.driver_specs[j].entities[k]).id != instance_address(
        #[trigger] after.driver_specs[i],
    ) by {
        let last = g.driver_specs.len();
        if i == last {
            assert(after.driver_specs[j] == g.driver_specs[j]);
            assert(g.taken.contains(g.driver_specs[j].entities[k].id));
        } else {
            assert(after.driver_specs[i] == g.driver_specs[i]);
            assert(g.taken.contains(instance_address(g.driver_specs[i])));
            if j == last {
                assert(entities[k].id == id || !start.taken.contains(entities[k].id));
            } else {
                assert(after.driver_specs[j] == g.driver_specs[j]);
                assert(g.driver_specs[j].entities[k].id != instance_address(g.driver_specs[i]));
            }
        }
    }
    assert forall|i: int| 0 <= i < after.driver_specs.len() implies after.taken.contains(
        instance_address(#[trigger] after.driver_specs[i]),
    ) by {
        if i < g.driver_specs.len() {
            assert(after.driver_specs[i] == g.driver_specs[i]);
        }
    }
}

proof fn lemma_entities_sound(
    g: Gathered,
    device: Seq<char>,
    raws: Seq<RawEntity>,
    n: nat,
    kinds: Seq<&str>,
)
    requires
        sound(g, kinds),
        valid_id(device),
        n <= raws.len(),
        enter_entities(g, device, raws, n, kinds) is Ok,
    ensures
        sound(enter_entities(g, device, raws, n, kinds)->Ok_0, kinds),
    decreases n,
{
    if n > 0 {
        lemma_entities_sound(g, device, raws, (n - 1) as nat, kinds);
        let before = enter_entities(g, device, raws, (n - 1) as nat, kinds)->Ok_0;
        lemma_entity_sound(before, device, raws[n - 1], kinds);
    }
}

proof fn lemma_devices_sound(raws: Seq<RawDevice>, n: nat, kinds: Seq<&str>)
    requires
        n <= raws.len(),
        enter_devices(raws, n, kinds) is Ok,
    ensures
        sound(enter_devices(raws, n, kinds)->Ok_0, kinds),
    decreases n,
{
    if n > 0 {
        lemma_devices_sound(raws, (n - 1) as nat, kinds);
        let g = enter_devices(raws, (n - 1) as nat, kinds)->Ok_0;
        let raw = raws[n - 1];
        let start = Gathered { devices: g.devices.push(named_device(raw)), ..g };
        assert(sound(start, kinds));
        lemma_entities_sound(start, raw.id@, raw.entities@, raw.entities@.len(), kinds);
    }
}

/// In an accepted configuration device ids are valid and unique, every driver
/// instance is of a known kind and has an id of its own (the address it was
/// declared under), and no entity is exposed twice.
pub proof fn law_accepted_ids_are_unique(raw: RawConfig, kinds: Seq<&str>)
    requires
        validated(raw, kinds) is Ok,
    ensures
        sound_devices(validated(raw, kinds)->Ok_0.devices),
        sound_specs(validated(raw, kinds)->Ok_0.driver_specs, kinds),
{
    lemma_devices_sound(raw.devices@, raw.devices@.len(), kinds);
}

/// In an accepted configuration no entity has the address that another driver
/// instance is named after: a partitioned panel's own address stays its own,
/// though it is not exposed.
pub proof fn law_instance_addresses_stay_apart(
    raw: RawConfig,
    kinds: Seq<&str>,
    i: int,
    j: int,
    k: int,
)
    requires
        validated(raw, kinds) is Ok,
        0 <= i < validated(raw, kinds)->Ok_0.driver_specs.len(),
        0 <= j < validated(raw, kinds)->Ok_0.driver_specs.len(),
        i != j,
        0 <= k < validated(raw, kinds)->Ok_0.driver_specs[j].entities.len(),
    ensures
        ({
            let specs = validated(raw, kinds)->Ok_0.driver_specs;
            specs[j].entities[k].id != instance_address(specs[i])
        }),
{
    lemma_devices_sound(raw.devices@, raw.devices@.len(), kinds);
    let specs = validated(raw, kinds)->Ok_0.driver_specs;
    assert(specs[j].entities[k].id != instance_address(specs[i]));
}

proof fn lemma_domain_found(
    exposed: Seq<(EntityAddress, EntityType)>,
    id: EntityAddress,
    from: int,
)
    requires
        0 <= from <= exposed.len(),
    ensures
        domain_in(exposed, id, from) matches Some(domain) ==> exists|i: int|
            from <= i < exposed.len() && (#[trigger] exposed[i]).0 == id
                && exposed[i].1.domain_of() == domain,
    decreases exposed.len() - from,
{
    if from < exposed.len() && exposed[from].0 != id {
        lemma_domain_found(exposed, id, from + 1);
    }
}

/// Whether an entity of a domain is among the entries.
pub open spec fn lists(
    entries: Seq<(EntityAddress, EntityType)>,
    id: EntityAddress,
    domain: EntityDomain,
) -> bool {
    exists|i: int|
        0 <= i < entries.len() && (#[trigger] entries[i]).0 == id && entries[i].1.domain_of()
            == domain
}

proof fn lemma_bindings_checked(
    exposed: Seq<(EntityAddress, EntityType)>,
    raws: Seq<RawBinding>,
    from: int,
)
    requires
        0 <= from <= raws.len(),
        first_raw_binding_fault(exposed, raws, from) is None,
    ensures
        forall|i: int|
            from <= i < raws.len() ==> raw_binding_fault(exposed, #[trigger] raws[i]) is None,
    decreases raws.len() - from,
{
    if from < raws.len() {
        lemma_bindings_checked(exposed, raws, from + 1);
    }
}

/// In an accepted configuration every binding leads from a sensor that some driver
/// exposes to an actuator that some driver exposes. (A partitioned panel itself is
/// not exposed, so it cannot be bound.)
pub proof fn law_accepted_bindings_resolve(raw: RawConfig, kinds: Seq<&str>, i: int)
    requires
        validated(raw, kinds) is Ok,
        0 <= i < validated(raw, kinds)->Ok_0.bindings.len(),
    ensures
        ({
            let config = validated(raw, kinds)->Ok_0;
            let entries = listed(config.driver_specs);
            &&& lists(entries, config.bindings[i].source, EntityDomain::Sensor)
            &&& lists(entries, config.bindings[i].target, EntityDomain::Actuator)
        }),
{
    lemma_devices_sound(raw.devices@, raw.devices@.len(), kinds);
    let g = enter_devices(raw.devices@, raw.devices@.len(), kinds)->Ok_0;
    lemma_bindings_checked(g.exposed, raw.bindings@, 0);
    let binding = raw.bindings@[i];
    assert(raw_binding_fault(g.exposed, binding) is None);
    lemma_domain_found(g.exposed, binding.source@, 0);
    lemma_domain_found(g.exposed, binding.target@, 0);
}

proof fn lemma_index_has_all(entities: Seq<Entity>, k: int)
    requires
        distinct(typed(entity_views(entities))),
        0 <= k < entities.len(),
    ensures
        types_by_address(entities).contains_key(entities[k].id@),
        types_by_address(entities)[entities[k].id@] == entities[k].entity_type,
    decreases entities.len(),
{
    let last = entities.len() - 1;
    let entries = typed(entity_views(entities));
    if k < last {
        let rest = entities.drop_last();
        assert(typed(entity_views(rest)) =~= entries.drop_last());
        assert(distinct(typed(entity_views(rest)))) by {
            assert forall|i: int, j: int| 0 <= i < j < rest.len() implies (
            #[trigger] typed(entity_views(rest))[i]).0 != (
            #[trigger] typed(entity_views(rest))[j]).0 by {
                assert(entries[i].0 != entries[j].0);
            }
        }
        lemma_index_has_all(rest, k);
        assert(entries[k].0 != entries[last].0);
        assert(entries[k].0 == entities[k].id@);
        assert(entries[last].0 == entities[last].id@);
    }
}

/// Once all drivers of an accepted configuration are up, its bindings can be
/// refused only because a target takes no source updates or is bound twice; no
/// source or target is ever unknown.
pub proof fn law_accepted_bindings_are_known(raw: RawConfig, kinds: Seq<&str>, entities: Seq<Entity>)
    requires
        validated(raw, kinds) is Ok,
        typed(entity_views(entities)) == listed(validated(raw, kinds)->Ok_0.driver_specs),
    ensures
        match first_binding_fault(
            validated(raw, kinds)->Ok_0.bindings,
            0,
            types_by_address(entities),
        ) {
            Some(BindingFault::UnknownSource(_)) => false,
            Some(BindingFault::UnknownTarget(_)) => false,
            _ => true,
        },
{
    law_accepted_ids_are_unique(raw, kinds);
    let config = validated(raw, kinds)->Ok_0;
    let entries = listed(config.driver_specs);
    let index = types_by_address(entities);
    assert forall|i: int| 0 <= i < config.bindings.len() implies sensor_type_in(
        index,
        (#[trigger] config.bindings[i]).source,
    ) is Some && index.contains_key(config.bindings[i].target) by {
        law_accepted_bindings_resolve(raw, kinds, i);
        let s = choose|s: int|
            0 <= s < entries.len() && (#[trigger] entries[s]).0 == config.bindings[i].source
                && entries[s].1.domain_of() == EntityDomain::Sensor;
        lemma_index_has_all(entities, s);
        assert(entries[s] == (entities[s].id@, entities[s].entity_type));
        let t = choose|t: int|
            0 <= t < entries.len() && (#[trigger] entries[t]).0 == config.bindings[i].target
                && entries[t].1.domain_of() == EntityDomain::Actuator;
        lemma_index_has_all(entities, t);
        assert(entries[t] == (entities[t].id@, entities[t].entity_type));
    }
    lemma_known_bindings(config.bindings, 0, index);
}

proof fn lemma_known_bindings(
    bindings: Seq<BindingView>,
    from: int,
    index: Map<EntityAddress, EntityType>,
)
    requires
        0 <= from <= bindings.len(),
        forall|i: int|
            0 <= i < bindings.len() ==> sensor_type_in(index, (#[trigger] bindings[i]).source) is Some
                && index.contains_key(bindings[i].target),
    ensures
        match first_binding_fault(bindings, from, index) {
            Some(BindingFault::UnknownSource(_)) => false,
            Some(BindingFault::UnknownTarget(_)) => false,
            _ => true,
        },
    decreases bindings.len() - from,
{
    if from < bindings.len() {
        lemma_known_bindings(bindings, from + 1, index);
        assert(sensor_type_in(index, bindings[from].source) is Some);
    }
}

/// A display that an accepted configuration describes can always be set up: the
/// factory of its kind finds nothing wrong with its spec. What may still fail is
/// the hardware.
pub proof fn law_accepted_displays_can_start(
    raw: RawConfig,
    kinds: Seq<&str>,
    i: int,
    spec: DriverSpec,
)
    requires
        validated(raw, kinds) is Ok,
        0 <= i < validated(raw, kinds)->Ok_0.driver_specs.len(),
        spec@ == validated(raw, kinds)->Ok_0.driver_specs[i],
    ensures
        spec.kind@ == SSD1306_DISPLAY_KIND@ ==> ssd1306_display::factory_fault(spec) is None,
        spec.kind@ == ILI9341_DISPLAY_KIND@ ==> ili9341_display::factory_fault(spec) is None,
{
    law_accepted_ids_are_unique(raw, kinds);
    reveal_strlit("ssd1306_display");
    reveal_strlit("ili9341_display");
    assert(SSD1306_DISPLAY_KIND@[0] != ILI9341_DISPLAY_KIND@[0]);
    let view = spec@;
    assert(sound_spec(view, kinds));
    let declared = choose|declared: EntityView|
        #![trigger exposed_entities(view.kind, declared, view.config)]
        declared.id == instance_address(view) && exposed_entities(
            view.kind,
            declared,
            view.config,
        ) == Ok::<Seq<EntityView>, Seq<char>>(view.entities);
    assert(exposed_entities(view.kind, declared, view.config) == Ok::<
        Seq<EntityView>,
        Seq<char>,
    >(view.entities));
    assert forall|layout: Seq<ZoneConfig>|
        #[trigger] expanded_zones(declared, layout) is Ok implies expanded_zones(
        declared_panel(declared.id),
        layout,
    ) == expanded_zones(declared, layout) by {
        assert(layout.map_values(|zone: ZoneConfig| zone_entity(declared.id, zone))
            =~= layout.map_values(
            |zone: ZoneConfig| zone_entity(declared_panel(declared.id).id, zone),
        ));
    }
}

/// What devices that can all be entered expose is distinct.
pub proof fn law_gathered_entities_are_distinct(raws: Seq<RawDevice>, kinds: Seq<&str>)
    requires
        enter_devices(raws, raws.len(), kinds) is Ok,
    ensures
        distinct(enter_devices(raws, raws.len(), kinds)->Ok_0.exposed),
{
    lemma_devices_sound(raws, raws.len(), kinds);
}

} // verus!
