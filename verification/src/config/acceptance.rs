//! Which configurations are accepted, and what an accepted one becomes, in terms of
//! what it declares.

use vstd::prelude::*;

use crate::config::laws::{distinct, law_gathered_entities_are_distinct, listed, typed};
use crate::config::{
    domain_in, enter_devices, enter_entities, enter_entity, enter_exposed, first_raw_binding_fault,
    knows, raw_binding_fault, validated, Gathered, RawBinding, RawConfig, RawDevice, RawEntity,
};
use crate::drivers::display::layout::{
    law_accepted_layouts_are_valid, law_zone_addresses_are_distinct, layout_fault, ZoneConfig,
};
use crate::drivers::{display_entities, exposed_entities, DriverSpecView};
use crate::entities::id::{valid_id, valid_local_id, EntityAddress};
use crate::entities::{optional_text, EntityDomain, EntityType, EntityView};
use crate::error::{ConfigFault, IdFault};

verus! {

/// An entity as a configuration declares it: the id of its device, and what is said of
/// the entity.
pub struct Declaration {
    pub device: Seq<char>,
    pub raw: RawEntity,
}

impl Declaration {
    /// The address that the entity is declared under.
    pub open spec fn id(self) -> EntityAddress {
        EntityAddress { device: self.device, entity: self.raw.id@ }
    }

    /// What its driver exposes for it, or why it cannot.
    pub open spec fn exposed(self) -> Result<Seq<EntityView>, Seq<char>> {
        exposed_entities(
            self.raw.driver@,
            EntityView {
                id: self.id(),
                entity_type: self.raw.entity_type,
                name: optional_text(self.raw.name),
            },
            self.raw.driver_config,
        )
    }

    /// Whether it is sound in itself: a valid id, a known kind of driver, and a
    /// configuration that the driver can expose entities for.
    pub open spec fn sound(self, kinds: Seq<&str>) -> bool {
        valid_local_id(self.raw.id@) && knows(kinds, self.raw.driver@) && self.exposed() is Ok
    }

    /// Whether it exposes an entity of an address and type.
    pub open spec fn exposes(self, a: EntityAddress, t: EntityType) -> bool {
        exists|k: int|
            0 <= k < self.exposed()->Ok_0.len() && (#[trigger] self.exposed()->Ok_0[k]).id == a
                && self.exposed()->Ok_0[k].entity_type == t
    }

    /// Whether it takes an address: the one it is declared under, or one that it exposes.
    pub open spec fn claims(self, a: EntityAddress) -> bool {
        a == self.id() || exists|k: int|
            0 <= k < self.exposed()->Ok_0.len() && (#[trigger] self.exposed()->Ok_0[k]).id == a
    }
}

/// The declarations of a device, in order.
pub open spec fn declared_on(raw: RawDevice) -> Seq<Declaration> {
    Seq::new(
        raw.entities@.len(),
        |i: int| Declaration { device: raw.id@, raw: raw.entities@[i] },
    )
}

/// The declarations of all devices, in order.
pub open spec fn declarations(raws: Seq<RawDevice>) -> Seq<Declaration>
    decreases raws.len(),
{
    if raws.len() == 0 {
        Seq::empty()
    } else {
        declarations(raws.drop_last()) + declared_on(raws.last())
    }
}

/// Whether declarations are sound, each in itself, and no two take the same address.
pub open spec fn compatible(all: Seq<Declaration>, kinds: Seq<&str>) -> bool {
    &&& forall|i: int| 0 <= i < all.len() ==> (#[trigger] all[i]).sound(kinds)
    &&& forall|i: int, j: int, a: EntityAddress|
        0 <= i < j < all.len() && #[trigger] all[i].claims(a) ==> !#[trigger] all[j].claims(a)
}

/// Whether devices have valid ids, no two the same.
pub open spec fn distinct_devices(raws: Seq<RawDevice>) -> bool {
    &&& forall|i: int| 0 <= i < raws.len() ==> valid_id((#[trigger] raws[i]).id@)
    &&& forall|i: int, j: int|
        0 <= i < j < raws.len() ==> (#[trigger] raws[i]).id@ != (#[trigger] raws[j]).id@
}

/// Whether some declaration exposes a sensor under an address.
pub open spec fn is_sensor(all: Seq<Declaration>, a: EntityAddress) -> bool {
    exists|i: int, t: EntityType|
        0 <= i < all.len() && t is Sensor && #[trigger] all[i].exposes(a, t)
}

/// Whether some declaration exposes an actuator under an address.
pub open spec fn is_actuator(all: Seq<Declaration>, a: EntityAddress) -> bool {
    exists|i: int, t: EntityType|
        0 <= i < all.len() && t is Actuator && #[trigger] all[i].exposes(a, t)
}

/// Whether some of the declarations takes an address.
spec fn taken_by(all: Seq<Declaration>, a: EntityAddress) -> bool {
    exists|i: int| 0 <= i < all.len() && #[trigger] all[i].claims(a)
}

/// The spec that a declaration becomes.
pub open spec fn becomes(d: Declaration, spec: DriverSpecView) -> bool {
    &&& spec.instance_id == d.device + seq!['.'] + d.raw.id@
    &&& spec.kind == d.raw.driver@
    &&& spec.entities == d.exposed()->Ok_0
    &&& spec.config == d.raw.driver_config
}

/// Whether what has been gathered is what declarations amount to.
spec fn gathered_from(g: Gathered, all: Seq<Declaration>) -> bool {
    &&& g.driver_specs.len() == all.len()
    &&& forall|i: int| 0 <= i < all.len() ==> becomes(all[i], #[trigger] g.driver_specs[i])
    &&& forall|a: EntityAddress| #[trigger] g.taken.contains(a) <==> taken_by(all, a)
    &&& g.exposed == listed(g.driver_specs)
}

/// A driver never exposes two entities under one address.
proof fn lemma_exposed_ids_differ(d: Declaration)
    requires
        d.exposed() is Ok,
    ensures
        forall|k: int, l: int|
            0 <= k < l < d.exposed()->Ok_0.len() ==> (#[trigger] d.exposed()->Ok_0[k]).id != (
            #[trigger] d.exposed()->Ok_0[l]).id,
{
    let declared = EntityView {
        id: d.id(),
        entity_type: d.raw.entity_type,
        name: optional_text(d.raw.name),
    };
    if let Ok(c) = d.raw.driver_config.ssd1306 {
        lemma_zone_ids_differ(
            declared,
            c.layout@,
            crate::drivers::display::rotated_size(c.rotation, c.width, c.height),
        );
    }
    if let Ok(c) = d.raw.driver_config.ili9341 {
        lemma_zone_ids_differ(
            declared,
            c.layout@,
            crate::drivers::display::rotated_size(c.rotation, c.width, c.height),
        );
    }
}

proof fn lemma_zone_ids_differ(declared: EntityView, layout: Seq<ZoneConfig>, size: (u32, u32))
    ensures
        display_entities(declared, layout, size) matches Ok(entities) ==> forall|k: int, l: int|
            0 <= k < l < entities.len() ==> (#[trigger] entities[k]).id != (
            #[trigger] entities[l]).id,
{
    if layout_fault(layout, size.0, size.1) is None {
        law_accepted_layouts_are_valid(layout, size.0, size.1);
        if let Ok(entities) = display_entities(declared, layout, size) {
            assert forall|k: int, l: int| 0 <= k < l < entities.len() implies (
            #[trigger] entities[k]).id != (#[trigger] entities[l]).id by {
                assert(layout[k].id@ != layout[l].id@);
                law_zone_addresses_are_distinct(declared.id, layout[k], layout[l]);
            }
        }
    }
}

/// Entering exposed entities works out exactly if none of their addresses, but that of
/// the declared entity, is taken.
proof fn lemma_exposing_works(
    g: Gathered,
    declared: EntityAddress,
    entities: Seq<EntityView>,
    from: int,
)
    requires
        0 <= from <= entities.len(),
        forall|k: int, l: int|
            0 <= k < l < entities.len() ==> (#[trigger] entities[k]).id != (
            #[trigger] entities[l]).id,
    ensures
        enter_exposed(g, declared, entities, from) is Ok <==> forall|k: int|
            from <= k < entities.len() ==> (#[trigger] entities[k]).id == declared
                || !g.taken.contains(entities[k].id),
        enter_exposed(g, declared, entities, from) matches Ok(entered) ==> {
            &&& entered.exposed == g.exposed + typed(entities).skip(from)
            &&& entered.driver_specs == g.driver_specs
            &&& entered.devices == g.devices
            &&& forall|a: EntityAddress| #[trigger]
                entered.taken.contains(a) <==> g.taken.contains(a) || exists|k: int|
                    from <= k < entities.len() && (#[trigger] entities[k]).id == a
        },
    decreases entities.len() - from,
{
    if from < entities.len() {
        let e = entities[from];
        let next = Gathered {
            exposed: g.exposed.push((e.id, e.entity_type)),
            taken: g.taken.insert(e.id),
            ..g
        };
        lemma_exposing_works(next, declared, entities, from + 1);
        assert forall|k: int| from < k < entities.len() implies (#[trigger] entities[k]).id
            != entities[from].id by {}
        assert(typed(entities).skip(from) =~= seq![(e.id, e.entity_type)] + typed(entities).skip(
            from + 1,
        ));
        assert(g.exposed.push((e.id, e.entity_type)) + typed(entities).skip(from + 1) =~= g.exposed
            + typed(entities).skip(from));
    } else {
        assert(g.exposed + typed(entities).skip(from) =~= g.exposed);
    }
}

proof fn lemma_entity_enters(g: Gathered, all: Seq<Declaration>, d: Declaration, kinds: Seq<&str>)
    requires
        gathered_from(g, all),
    ensures
        enter_entity(g, d.device, d.raw, kinds) is Ok <==> d.sound(kinds) && forall|
            a: EntityAddress,
        | #[trigger] d.claims(a) ==> !taken_by(all, a),
        enter_entity(g, d.device, d.raw, kinds) matches Ok(entered) ==> gathered_from(
            entered,
            all.push(d),
        ) && entered.devices == g.devices,
{
    let id = d.id();
    let start = Gathered { taken: g.taken.insert(id), ..g };
    if d.sound(kinds) {
        let entities = d.exposed()->Ok_0;
        lemma_exposed_ids_differ(d);
        lemma_exposing_works(start, id, entities, 0);
        assert(d.claims(id));
        assert forall|k: int| 0 <= k < entities.len() implies d.claims((#[trigger] entities[k]).id) by {}
        if enter_entity(g, d.device, d.raw, kinds) is Ok {
            let entered = enter_entity(g, d.device, d.raw, kinds)->Ok_0;
            let more = all.push(d);
            assert forall|a: EntityAddress| #[trigger] d.claims(a) implies !taken_by(all, a) by {
                if a == id {
                    assert(!g.taken.contains(id));
                } else {
                    let k = choose|k: int| 0 <= k < entities.len() && (#[trigger] entities[k]).id == a;
                    assert(!start.taken.contains(entities[k].id));
                    assert(!g.taken.contains(a));
                }
            }
            crate::entities::id::law_addresses_are_written_in_two_parts(id);
            assert(becomes(d, entered.driver_specs.last()));
            assert forall|i: int| 0 <= i < more.len() implies becomes(
                more[i],
                #[trigger] entered.driver_specs[i],
            ) by {
                if i < all.len() {
                    assert(becomes(all[i], g.driver_specs[i]));
                }
            }
            assert forall|a: EntityAddress| #[trigger] entered.taken.contains(a) <==> taken_by(
                more,
                a,
            ) by {
                if taken_by(all, a) {
                    let i = choose|i: int| 0 <= i < all.len() && #[trigger] all[i].claims(a);
                    assert(more[i].claims(a));
                    assert(g.taken.contains(a));
                }
                if taken_by(more, a) {
                    let i = choose|i: int| 0 <= i < more.len() && #[trigger] more[i].claims(a);
                    if i < all.len() {
                        assert(all[i].claims(a));
                        assert(g.taken.contains(a));
                    }
                }
                if d.claims(a) {
                    assert(more[all.len() as int].claims(a));
                }
            }
            assert(entered.driver_specs.drop_last() =~= g.driver_specs);
            assert(typed(entities).skip(0) =~= typed(entities));
            assert(entered.exposed =~= listed(entered.driver_specs));
        } else if forall|a: EntityAddress| #[trigger] d.claims(a) ==> !taken_by(all, a) {
            assert(!g.taken.contains(id));
            assert forall|k: int| 0 <= k < entities.len() implies (#[trigger] entities[k]).id == id
                || !start.taken.contains(entities[k].id) by {
                assert(d.claims(entities[k].id));
                assert(!taken_by(all, entities[k].id));
                assert(!g.taken.contains(entities[k].id));
            }
        }
    }
}

/// One more declaration is compatible exactly if it is sound and takes no address that
/// is taken.
proof fn lemma_compatible_push(all: Seq<Declaration>, d: Declaration, kinds: Seq<&str>)
    ensures
        compatible(all.push(d), kinds) <==> compatible(all, kinds) && d.sound(kinds) && forall|
            a: EntityAddress,
        | #[trigger] d.claims(a) ==> !taken_by(all, a),
{
    let more = all.push(d);
    let last = all.len() as int;
    assert(more[last] == d);
    assert forall|i: int| 0 <= i < last implies #[trigger] more[i] == all[i] by {}
    if compatible(more, kinds) {
        assert(more[last].sound(kinds));
        assert forall|i: int| 0 <= i < all.len() implies (#[trigger] all[i]).sound(kinds) by {
            assert(more[i].sound(kinds));
        }
        assert forall|i: int, j: int, a: EntityAddress|
            0 <= i < j < all.len() && #[trigger] all[i].claims(a) implies !#[trigger] all[j].claims(
            a,
        ) by {
            assert(more[i].claims(a));
            assert(!more[j].claims(a));
        }
        assert forall|a: EntityAddress| #[trigger] d.claims(a) implies !taken_by(all, a) by {
            if taken_by(all, a) {
                let i = choose|i: int| 0 <= i < all.len() && #[trigger] all[i].claims(a);
                assert(more[i].claims(a));
                assert(!more[last].claims(a));
            }
        }
    }
    if compatible(all, kinds) && d.sound(kinds) && (forall|a: EntityAddress| #[trigger]
        d.claims(a) ==> !taken_by(all, a)) {
        assert forall|i: int, j: int, a: EntityAddress|
            0 <= i < j < more.len() && #[trigger] more[i].claims(a) implies !#[trigger] more[j].claims(
            a,
        ) by {
            assert(all[i].claims(a));
            if j == last {
                assert(taken_by(all, a));
            } else {
                assert(!all[j].claims(a));
            }
        }
    }
}

proof fn lemma_entities_enter(
    g: Gathered,
    all: Seq<Declaration>,
    raw: RawDevice,
    n: nat,
    kinds: Seq<&str>,
)
    requires
        gathered_from(g, all),
        compatible(all, kinds),
        n <= raw.entities@.len(),
    ensures
        enter_entities(g, raw.id@, raw.entities@, n, kinds) is Ok <==> compatible(
            all + declared_on(raw).take(n as int),
            kinds,
        ),
        enter_entities(g, raw.id@, raw.entities@, n, kinds) matches Ok(entered) ==> gathered_from(
            entered,
            all + declared_on(raw).take(n as int),
        ) && entered.devices == g.devices,
    decreases n,
{
    let own = declared_on(raw);
    if n == 0 {
        assert(all + own.take(0) =~= all);
    } else {
        let before = all + own.take(n - 1);
        let d = own[n - 1];
        assert(all + own.take(n as int) =~= before.push(d));
        lemma_entities_enter(g, all, raw, (n - 1) as nat, kinds);
        lemma_compatible_push(before, d, kinds);
        if let Ok(entered) = enter_entities(g, raw.id@, raw.entities@, (n - 1) as nat, kinds) {
            lemma_entity_enters(entered, before, d, kinds);
        }
    }
}

/// Declarations that go on from others are compatible only if those are.
proof fn lemma_compatible_start(all: Seq<Declaration>, more: Seq<Declaration>, kinds: Seq<&str>)
    requires
        compatible(all + more, kinds),
    ensures
        compatible(all, kinds),
    decreases more.len(),
{
    if more.len() == 0 {
        assert(all + more =~= all);
    } else {
        assert(all + more =~= (all + more.drop_last()).push(more.last()));
        lemma_compatible_push(all + more.drop_last(), more.last(), kinds);
        lemma_compatible_start(all, more.drop_last(), kinds);
    }
}

/// Whether gathered devices are those of a configuration, each named as it says or after
/// its id.
pub open spec fn named_as_said(
    devices: Seq<crate::entities::DeviceView>,
    raws: Seq<RawDevice>,
) -> bool {
    &&& devices.len() == raws.len()
    &&& forall|i: int|
        0 <= i < raws.len() ==> {
            let device = #[trigger] devices[i];
            &&& device.id == raws[i].id@
            &&& raws[i].name matches Some(name) ==> device.name == name@
            &&& raws[i].name is None ==> device.name == raws[i].id@
        }
}

proof fn lemma_devices_enter(raws: Seq<RawDevice>, n: nat, kinds: Seq<&str>)
    requires
        n <= raws.len(),
    ensures
        enter_devices(raws, n, kinds) is Ok <==> distinct_devices(raws.take(n as int))
            && compatible(declarations(raws.take(n as int)), kinds),
        enter_devices(raws, n, kinds) matches Ok(g) ==> gathered_from(
            g,
            declarations(raws.take(n as int)),
        ) && named_as_said(g.devices, raws.take(n as int)),
    decreases n,
{
    let now = raws.take(n as int);
    if n == 0 {
        assert(declarations(now) =~= Seq::<Declaration>::empty());
        let g = crate::config::nothing();
        assert(g.exposed =~= listed(g.driver_specs));
    } else {
        let before = raws.take(n - 1);
        let raw = raws[n - 1];
        assert(now.drop_last() =~= before);
        assert(now.last() == raw);
        let earlier = declarations(before);
        let own = declared_on(raw);
        assert(own.take(own.len() as int) =~= own);
        lemma_devices_enter(raws, (n - 1) as nat, kinds);
        assert forall|i: int| 0 <= i < before.len() implies #[trigger] before[i] == now[i] by {}
        if compatible(declarations(now), kinds) {
            lemma_compatible_start(earlier, own, kinds);
        }
        if distinct_devices(now) {
            assert forall|i: int| 0 <= i < before.len() implies valid_id(
                (#[trigger] before[i]).id@,
            ) by {
                assert(valid_id(now[i].id@));
            }
            assert forall|i: int, j: int| 0 <= i < j < before.len() implies (
            #[trigger] before[i]).id@ != (#[trigger] before[j]).id@ by {
                assert(now[i].id@ != now[j].id@);
            }
            assert(distinct_devices(before));
        }
        if let Ok(g) = enter_devices(raws, (n - 1) as nat, kinds) {
            let taken = exists|i: int|
                0 <= i < g.devices.len() && (#[trigger] g.devices[i]).id == raw.id@;
            if taken {
                let i = choose|i: int|
                    0 <= i < g.devices.len() && (#[trigger] g.devices[i]).id == raw.id@;
                assert(now[i].id@ == now[n - 1].id@);
                assert(!distinct_devices(now));
            } else if !valid_id(raw.id@) {
                assert(!valid_id(now[n - 1].id@));
                assert(!distinct_devices(now));
            } else {
                assert forall|i: int| 0 <= i < before.len() implies (#[trigger] before[i]).id@
                    != raw.id@ by {
                    assert(g.devices[i].id == before[i].id@);
                }
                assert(distinct_devices(now)) by {
                    assert forall|i: int, j: int| 0 <= i < j < now.len() implies (
                    #[trigger] now[i]).id@ != (#[trigger] now[j]).id@ by {
                        assert(before[i].id@ == now[i].id@);
                        if j < before.len() {
                            assert(before[j].id@ == now[j].id@);
                        }
                    }
                    assert forall|i: int| 0 <= i < now.len() implies valid_id(
                        (#[trigger] now[i]).id@,
                    ) by {
                        if i < before.len() {
                            assert(valid_id(before[i].id@));
                        }
                    }
                }
                let start = Gathered {
                    devices: g.devices.push(crate::config::named_device(raw)),
                    ..g
                };
                assert(gathered_from(start, earlier));
                lemma_entities_enter(start, earlier, raw, raw.entities@.len(), kinds);
                assert(named_as_said(start.devices, now)) by {
                    assert forall|i: int| 0 <= i < now.len() implies {
                        let device = #[trigger] start.devices[i];
                        &&& device.id == now[i].id@
                        &&& now[i].name matches Some(name) ==> device.name == name@
                        &&& now[i].name is None ==> device.name == now[i].id@
                    } by {
                        if i < before.len() {
                            assert(start.devices[i] == g.devices[i]);
                            assert(before[i] == now[i]);
                        }
                    }
                }
            }
        }
    }
}

proof fn lemma_listed(specs: Seq<DriverSpecView>, a: EntityAddress, t: EntityType)
    ensures
        (exists|k: int| 0 <= k < listed(specs).len() && #[trigger] listed(specs)[k] == (a, t))
            <==> exists|i: int, k: int|
            0 <= i < specs.len() && 0 <= k < specs[i].entities.len() && (
            #[trigger] specs[i].entities[k]).id == a && specs[i].entities[k].entity_type == t,
    decreases specs.len(),
{
    if specs.len() > 0 {
        let rest = specs.drop_last();
        let last = specs.len() - 1;
        let before = listed(rest);
        let own = typed(specs.last().entities);
        lemma_listed(rest, a, t);
        if exists|k: int| 0 <= k < listed(specs).len() && #[trigger] listed(specs)[k] == (a, t) {
            let k = choose|k: int|
                0 <= k < listed(specs).len() && #[trigger] listed(specs)[k] == (a, t);
            if k < before.len() {
                assert(before[k] == (a, t));
                let (i, l) = choose|i: int, l: int|
                    0 <= i < rest.len() && 0 <= l < rest[i].entities.len() && (
                    #[trigger] rest[i].entities[l]).id == a && rest[i].entities[l].entity_type == t;
                assert(specs[i].entities[l].id == a);
            } else {
                assert(own[k - before.len()] == (a, t));
                assert(specs[last].entities[k - before.len()].id == a);
            }
        }
        if exists|i: int, k: int|
            0 <= i < specs.len() && 0 <= k < specs[i].entities.len() && (
            #[trigger] specs[i].entities[k]).id == a && specs[i].entities[k].entity_type == t {
            let (i, k) = choose|i: int, k: int|
                0 <= i < specs.len() && 0 <= k < specs[i].entities.len() && (
                #[trigger] specs[i].entities[k]).id == a && specs[i].entities[k].entity_type == t;
            if i < last {
                assert(rest[i].entities[k].id == a);
                let l = choose|l: int| 0 <= l < before.len() && #[trigger] before[l] == (a, t);
                assert(listed(specs)[l] == (a, t));
            } else {
                assert(own[k] == (a, t));
                assert(listed(specs)[before.len() + k] == (a, t));
            }
        }
    }
}

proof fn lemma_domain_of_entry(
    entries: Seq<(EntityAddress, EntityType)>,
    a: EntityAddress,
    from: int,
)
    requires
        0 <= from <= entries.len(),
        distinct(entries),
    ensures
        domain_in(entries, a, from) == Some(EntityDomain::Sensor) <==> exists|k: int|
            from <= k < entries.len() && (#[trigger] entries[k]).0 == a && entries[k].1 is Sensor,
        domain_in(entries, a, from) == Some(EntityDomain::Actuator) <==> exists|k: int|
            from <= k < entries.len() && (#[trigger] entries[k]).0 == a && entries[k].1 is Actuator,
    decreases entries.len() - from,
{
    if from < entries.len() {
        lemma_domain_of_entry(entries, a, from + 1);
        if entries[from].0 == a {
            assert forall|k: int| from < k < entries.len() implies (#[trigger] entries[k]).0 != a by {
                assert(entries[from].0 != entries[k].0);
            }
        }
    }
}

/// An entry is among the gathered ones exactly if a declaration exposes it.
proof fn lemma_entry(g: Gathered, all: Seq<Declaration>, a: EntityAddress, t: EntityType)
    requires
        gathered_from(g, all),
    ensures
        (exists|k: int| 0 <= k < g.exposed.len() && #[trigger] g.exposed[k] == (a, t)) <==> (exists|
            i: int,
        | 0 <= i < all.len() && #[trigger] all[i].exposes(a, t)),
{
    lemma_listed(g.driver_specs, a, t);
    if exists|i: int, k: int|
        0 <= i < g.driver_specs.len() && 0 <= k < g.driver_specs[i].entities.len() && (
        #[trigger] g.driver_specs[i].entities[k]).id == a
            && g.driver_specs[i].entities[k].entity_type == t {
        let (i, k) = choose|i: int, k: int|
            0 <= i < g.driver_specs.len() && 0 <= k < g.driver_specs[i].entities.len() && (
            #[trigger] g.driver_specs[i].entities[k]).id == a
                && g.driver_specs[i].entities[k].entity_type == t;
        assert(becomes(all[i], g.driver_specs[i]));
        assert(all[i].exposed()->Ok_0[k].id == a);
        assert(all[i].exposes(a, t));
    }
    if exists|i: int| 0 <= i < all.len() && #[trigger] all[i].exposes(a, t) {
        let i = choose|i: int| 0 <= i < all.len() && #[trigger] all[i].exposes(a, t);
        let k = choose|k: int|
            0 <= k < all[i].exposed()->Ok_0.len() && (#[trigger] all[i].exposed()->Ok_0[k]).id
                == a && all[i].exposed()->Ok_0[k].entity_type == t;
        assert(becomes(all[i], g.driver_specs[i]));
        assert(g.driver_specs[i].entities[k].id == a);
    }
}

/// What is exposed under an address, by the gathered entries, is what declarations
/// expose there.
proof fn lemma_domains(g: Gathered, all: Seq<Declaration>, a: EntityAddress)
    requires
        gathered_from(g, all),
        distinct(g.exposed),
    ensures
        domain_in(g.exposed, a, 0) == Some(EntityDomain::Sensor) <==> is_sensor(all, a),
        domain_in(g.exposed, a, 0) == Some(EntityDomain::Actuator) <==> is_actuator(all, a),
{
    lemma_domain_of_entry(g.exposed, a, 0);
    if exists|k: int|
        0 <= k < g.exposed.len() && (#[trigger] g.exposed[k]).0 == a && g.exposed[k].1 is Sensor {
        let k = choose|k: int|
            0 <= k < g.exposed.len() && (#[trigger] g.exposed[k]).0 == a && g.exposed[k].1 is Sensor;
        let t = g.exposed[k].1;
        assert(g.exposed[k] == (a, t));
        lemma_entry(g, all, a, t);
        let i = choose|i: int| 0 <= i < all.len() && #[trigger] all[i].exposes(a, t);
        assert(all[i].exposes(a, t));
    }
    if is_sensor(all, a) {
        let (i, t) = choose|i: int, t: EntityType|
            0 <= i < all.len() && t is Sensor && #[trigger] all[i].exposes(a, t);
        lemma_entry(g, all, a, t);
        let k = choose|k: int| 0 <= k < g.exposed.len() && #[trigger] g.exposed[k] == (a, t);
        assert(g.exposed[k].0 == a);
    }
    if exists|k: int|
        0 <= k < g.exposed.len() && (#[trigger] g.exposed[k]).0 == a && g.exposed[k].1 is Actuator {
        let k = choose|k: int|
            0 <= k < g.exposed.len() && (#[trigger] g.exposed[k]).0 == a
                && g.exposed[k].1 is Actuator;
        let t = g.exposed[k].1;
        assert(g.exposed[k] == (a, t));
        lemma_entry(g, all, a, t);
        let i = choose|i: int| 0 <= i < all.len() && #[trigger] all[i].exposes(a, t);
        assert(all[i].exposes(a, t));
    }
    if is_actuator(all, a) {
        let (i, t) = choose|i: int, t: EntityType|
            0 <= i < all.len() && t is Actuator && #[trigger] all[i].exposes(a, t);
        lemma_entry(g, all, a, t);
        let k = choose|k: int| 0 <= k < g.exposed.len() && #[trigger] g.exposed[k] == (a, t);
        assert(g.exposed[k].0 == a);
    }
}

proof fn lemma_bindings_faultless(
    exposed: Seq<(EntityAddress, EntityType)>,
    raws: Seq<RawBinding>,
    from: int,
)
    requires
        0 <= from <= raws.len(),
    ensures
        first_raw_binding_fault(exposed, raws, from) is None <==> forall|i: int|
            from <= i < raws.len() ==> raw_binding_fault(exposed, #[trigger] raws[i]) is None,
    decreases raws.len() - from,
{
    if from < raws.len() {
        lemma_bindings_faultless(exposed, raws, from + 1);
        assert(raws[from] == raws[from]);
    }
}

/// A configuration is accepted exactly if its devices have valid ids, no two the same;
/// each entity is declared soundly, in itself; no two declarations take the same address
/// (the declared one, or one that the driver exposes); and each binding leads from an
/// exposed sensor to an exposed actuator.
pub proof fn law_configurations_are_accepted_by_what_they_declare(raw: RawConfig, kinds: Seq<&str>)
    ensures
        validated(raw, kinds) is Ok <==> {
            let all = declarations(raw.devices@);
            &&& distinct_devices(raw.devices@)
            &&& compatible(all, kinds)
            &&& forall|i: int|
                0 <= i < raw.bindings@.len() ==> is_sensor(
                    all,
                    (#[trigger] raw.bindings@[i]).source@,
                ) && is_actuator(all, raw.bindings@[i].target@)
        },
{
    let raws = raw.devices@;
    let all = declarations(raws);
    assert(raws.take(raws.len() as int) =~= raws);
    lemma_devices_enter(raws, raws.len(), kinds);
    if let Ok(g) = enter_devices(raws, raws.len(), kinds) {
        law_gathered_entities_are_distinct(raws, kinds);
        lemma_bindings_faultless(g.exposed, raw.bindings@, 0);
        assert forall|i: int| 0 <= i < raw.bindings@.len() implies (raw_binding_fault(
            g.exposed,
            #[trigger] raw.bindings@[i],
        ) is None <==> is_sensor(all, raw.bindings@[i].source@) && is_actuator(
            all,
            raw.bindings@[i].target@,
        )) by {
            lemma_domains(g, all, raw.bindings@[i].source@);
            lemma_domains(g, all, raw.bindings@[i].target@);
        }
    }
}

/// An accepted configuration becomes its devices, in order and named as it says or after
/// their ids; one driver spec per declared entity, in order, under the entity's address,
/// of its kind, with its configuration and with what its driver exposes; and its
/// bindings, in order and unchanged.
pub proof fn law_configurations_are_kept_in_order(raw: RawConfig, kinds: Seq<&str>)
    requires
        validated(raw, kinds) is Ok,
    ensures
        ({
            let config = validated(raw, kinds)->Ok_0;
            let all = declarations(raw.devices@);
            &&& named_as_said(config.devices, raw.devices@)
            &&& config.driver_specs.len() == all.len()
            &&& forall|i: int|
                0 <= i < all.len() ==> becomes(all[i], #[trigger] config.driver_specs[i])
            &&& config.bindings.len() == raw.bindings@.len()
            &&& forall|i: int|
                0 <= i < raw.bindings@.len() ==> (#[trigger] config.bindings[i]).source
                    == raw.bindings@[i].source@ && config.bindings[i].target
                    == raw.bindings@[i].target@
        }),
{
    let raws = raw.devices@;
    assert(raws.take(raws.len() as int) =~= raws);
    lemma_devices_enter(raws, raws.len(), kinds);
}

/// Declarations are in the order in which they stand in the configuration: device by
/// device, and on each device entity by entity.
pub proof fn law_declarations_are_in_order(raws: Seq<RawDevice>, d: int, k: int)
    requires
        0 <= d < raws.len(),
        0 <= k < raws[d].entities@.len(),
    ensures
        ({
            let before = declarations(raws.take(d)).len();
            let all = declarations(raws);
            &&& before + k < all.len()
            &&& all[before + k].device == raws[d].id@
            &&& all[before + k].raw == raws[d].entities@[k]
        }),
    decreases raws.len(),
{
    let rest = raws.drop_last();
    if d == raws.len() - 1 {
        assert(raws.take(d) =~= rest);
    } else {
        law_declarations_are_in_order(rest, d, k);
        assert(rest.take(d) =~= raws.take(d));
    }
}

/// Why a declared entity is refused, once others have been entered: for its id, if that
/// is not valid; or else because its address is taken; or else for its driver's kind, if
/// that is unknown; or else for what the driver finds wrong.
pub proof fn law_refused_entities_are_named(
    g: Gathered,
    d: Declaration,
    kinds: Seq<&str>,
    message: Seq<char>,
)
    ensures
        ({
            let refused = enter_entity(g, d.device, d.raw, kinds);
            let valid = valid_local_id(d.raw.id@);
            let free = !g.taken.contains(d.id());
            let known = knows(kinds, d.raw.driver@);
            &&& !valid ==> refused == Err::<Gathered, ConfigFault>(
                ConfigFault::Id(IdFault::InvalidId(d.raw.id@)),
            )
            &&& valid && !free ==> refused == Err::<Gathered, ConfigFault>(
                ConfigFault::DuplicateEntity(d.id()),
            )
            &&& valid && free && !known ==> refused == Err::<Gathered, ConfigFault>(
                ConfigFault::UnknownDriverKind { entity: d.id(), kind: d.raw.driver@ },
            )
            &&& valid && free && known && d.exposed() == Err::<Seq<EntityView>, Seq<char>>(message)
                ==> refused == Err::<Gathered, ConfigFault>(
                ConfigFault::InvalidDriverConfig { entity: d.id(), message },
            )
        }),
{
}

/// Why a binding is refused: for its source, if that is not exposed or no sensor; or
/// else for its target, if that is not exposed or no actuator.
pub proof fn law_refused_bindings_are_named(
    exposed: Seq<(EntityAddress, EntityType)>,
    raw: RawBinding,
)
    requires
        distinct(exposed),
    ensures
        ({
            let fault = raw_binding_fault(exposed, raw);
            let sensor = lists_a_sensor(exposed, raw.source@);
            &&& !lists_any(exposed, raw.source@) ==> fault == Some(
                ConfigFault::UnknownBindingSource(raw.source@),
            )
            &&& lists_any(exposed, raw.source@) && !sensor ==> fault == Some(
                ConfigFault::BindingSourceNotSensor(raw.source@),
            )
            &&& sensor && !lists_any(exposed, raw.target@) ==> fault == Some(
                ConfigFault::UnknownBindingTarget(raw.target@),
            )
            &&& sensor && lists_a_sensor(exposed, raw.target@) ==> fault == Some(
                ConfigFault::BindingTargetNotActuator(raw.target@),
            )
        }),
{
    lemma_domain_of_entry(exposed, raw.source@, 0);
    lemma_domain_of_entry(exposed, raw.target@, 0);
}

/// Whether an entity of an address is among entries.
pub open spec fn lists_any(entries: Seq<(EntityAddress, EntityType)>, a: EntityAddress) -> bool {
    exists|k: int| 0 <= k < entries.len() && (#[trigger] entries[k]).0 == a
}

/// Whether a sensor of an address is among entries.
pub open spec fn lists_a_sensor(entries: Seq<(EntityAddress, EntityType)>, a: EntityAddress) -> bool {
    exists|k: int|
        0 <= k < entries.len() && (#[trigger] entries[k]).0 == a && entries[k].1 is Sensor
}

/// A configuration that is refused for its first devices is refused for the same reason
/// whatever devices follow.
pub proof fn law_the_first_fault_is_reported(raws: Seq<RawDevice>, n: nat, m: nat, kinds: Seq<&str>)
    requires
        n <= m,
        enter_devices(raws, n, kinds) is Err,
    ensures
        enter_devices(raws, m, kinds) == enter_devices(raws, n, kinds),
    decreases m,
{
    if n < m {
        law_the_first_fault_is_reported(raws, n, (m - 1) as nat, kinds);
    }
}

/// Why a device is refused, once others have been entered: for its id, if that is not
/// valid; or else because another device has it; or else for one of its entities.
pub proof fn law_refused_devices_are_named(
    raws: Seq<RawDevice>,
    n: nat,
    kinds: Seq<&str>,
    g: Gathered,
)
    requires
        n < raws.len(),
        enter_devices(raws, n, kinds) == Ok::<Gathered, ConfigFault>(g),
    ensures
        ({
            let raw = raws[n as int];
            let refused = enter_devices(raws, n + 1, kinds);
            let repeated = exists|i: int| 0 <= i < n && (#[trigger] raws[i]).id@ == raw.id@;
            &&& !valid_id(raw.id@) ==> refused == Err::<Gathered, ConfigFault>(
                ConfigFault::Id(IdFault::InvalidId(raw.id@)),
            )
            &&& valid_id(raw.id@) && repeated ==> refused == Err::<Gathered, ConfigFault>(
                ConfigFault::DuplicateDevice(raw.id@),
            )
        }),
{
    lemma_devices_enter(raws, n, kinds);
    let raw = raws[n as int];
    if exists|i: int| 0 <= i < n && (#[trigger] raws[i]).id@ == raw.id@ {
        let i = choose|i: int| 0 <= i < n && (#[trigger] raws[i]).id@ == raw.id@;
        assert(raws.take(n as int)[i] == raws[i]);
        assert(g.devices[i].id == raw.id@);
    }
}

/// An exposed entity whose address is taken already, by an earlier declaration, is
/// reported as a duplicate.
pub proof fn law_taken_addresses_are_reported(
    g: Gathered,
    declared: EntityAddress,
    entities: Seq<EntityView>,
    from: int,
    k: int,
)
    requires
        0 <= from <= k < entities.len(),
        entities[k].id != declared,
        g.taken.contains(entities[k].id),
        forall|l: int|
            from <= l < k ==> !g.taken.contains((#[trigger] entities[l]).id) || entities[l].id
                == declared,
        forall|l: int, m: int|
            0 <= l < m < entities.len() ==> (#[trigger] entities[l]).id != (
            #[trigger] entities[m]).id,
    ensures
        enter_exposed(g, declared, entities, from) == Err::<Gathered, ConfigFault>(
            ConfigFault::DuplicateEntity(entities[k].id),
        ),
    decreases k - from,
{
    if from < k {
        let e = entities[from];
        let next = Gathered {
            exposed: g.exposed.push((e.id, e.entity_type)),
            taken: g.taken.insert(e.id),
            ..g
        };
        assert forall|l: int| from + 1 <= l < k implies !next.taken.contains(
            (#[trigger] entities[l]).id,
        ) || entities[l].id == declared by {
            assert(entities[from].id != entities[l].id);
        }
        law_taken_addresses_are_reported(next, declared, entities, from + 1, k);
    }
}

/// What is said of a validated configuration is said of each of its devices, specs and
/// bindings, in order.
pub proof fn law_configurations_are_told_in_order(config: crate::config::ValidatedConfig)
    ensures
        config@.devices.len() == config.devices@.len(),
        forall|i: int|
            0 <= i < config.devices@.len() ==> #[trigger] config@.devices[i] == config.devices@[i]@,
        config@.driver_specs.len() == config.driver_specs@.len(),
        forall|i: int|
            0 <= i < config.driver_specs@.len() ==> #[trigger] config@.driver_specs[i]
                == config.driver_specs@[i]@,
        config@.bindings.len() == config.bindings@.len(),
        forall|i: int|
            0 <= i < config.bindings@.len() ==> #[trigger] config@.bindings[i]
                == config.bindings@[i]@,
{
}

} // verus!
