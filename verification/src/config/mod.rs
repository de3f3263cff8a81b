//! Configuration: schema types and the pure validation step.
//!
//! [`parse_config`] turns a configuration, as read from its JSON document, into
//! validated devices, driver specs, and bindings. It is a pure function of its
//! inputs (the configuration and the known driver kinds) with no hardware
//! dependency. Hardware only enters the picture later, when the returned specs
//! are instantiated.

pub mod acceptance;
pub mod laws;

use vstd::prelude::*;

use crate::automations::{binding_views, Binding, BindingView};
use crate::drivers::{exposed_entities, expand_entities, DriverDocument, DriverSpec, DriverSpecView};
use crate::entities::id::{address_text, valid_id, valid_local_id, EntityAddress};
use crate::entities::map::EntityMap;
use crate::entities::{
    entity_views, optional_text, Device, DeviceId, DeviceView, Entity, EntityDomain, EntityId,
    EntityType, EntityView,
};
use crate::error::{ConfigError, ConfigFault, IdFault};
use crate::text::str_eq;

verus! {

/// The configuration exactly as written by the user / management app.
#[derive(Debug, PartialEq)]
pub struct RawConfig {
    pub devices: Vec<RawDevice>,
    pub bindings: Vec<RawBinding>,
}

#[derive(Debug, PartialEq)]
pub struct RawDevice {
    pub id: String,
    pub name: Option<String>,
    pub entities: Vec<RawEntity>,
}

#[derive(Debug, PartialEq)]
pub struct RawEntity {
    pub id: String,
    pub entity_type: EntityType,
    pub driver: String,
    pub driver_config: DriverDocument,
    pub name: Option<String>,
}

#[derive(Debug, PartialEq)]
pub struct RawBinding {
    pub source: EntityId,
    pub target: EntityId,
}

/// The validated result: real domain types, ready for instantiation.
#[derive(Debug, PartialEq)]
pub struct ValidatedConfig {
    pub devices: Vec<Device>,
    pub driver_specs: Vec<DriverSpec>,
    pub bindings: Vec<Binding>,
}

/// The contents of a [`ValidatedConfig`].
#[verifier::ext_equal]
pub struct ValidatedView {
    pub devices: Seq<DeviceView>,
    pub driver_specs: Seq<DriverSpecView>,
    pub bindings: Seq<BindingView>,
}

impl View for ValidatedConfig {
    type V = ValidatedView;

    open spec fn view(&self) -> ValidatedView {
        ValidatedView {
            devices: self.devices@.map_values(|d: Device| d@),
            driver_specs: self.driver_specs@.map_values(|s: DriverSpec| s@),
            bindings: binding_views(self.bindings@),
        }
    }
}

impl Clone for ValidatedConfig {
    fn clone(&self) -> (copy: Self)
        ensures
            copy.devices@ == self.devices@,
            copy.driver_specs@.len() == self.driver_specs@.len(),
            forall|i: int|
                0 <= i < self.driver_specs@.len() ==> (#[trigger] copy.driver_specs@[i]).same_as(
                    self.driver_specs@[i],
                ),
            copy.bindings@ == self.bindings@,
    {
        let mut devices: Vec<Device> = Vec::new();
        let mut i: usize = 0;
        while i < self.devices.len()
            invariant
                i <= self.devices@.len(),
                devices@ == self.devices@.take(i as int),
            decreases self.devices@.len() - i,
        {
            devices.push(self.devices[i].clone());
            i += 1;
            assert(devices@ =~= self.devices@.take(i as int));
        }
        let mut driver_specs: Vec<DriverSpec> = Vec::new();
        let mut j: usize = 0;
        while j < self.driver_specs.len()
            invariant
                j <= self.driver_specs@.len(),
                driver_specs@.len() == j,
                forall|k: int|
                    0 <= k < j ==> (#[trigger] driver_specs@[k]).same_as(self.driver_specs@[k]),
            decreases self.driver_specs@.len() - j,
        {
            driver_specs.push(self.driver_specs[j].clone());
            j += 1;
        }
        let mut bindings: Vec<Binding> = Vec::new();
        let mut k: usize = 0;
        while k < self.bindings.len()
            invariant
                k <= self.bindings@.len(),
                bindings@ == self.bindings@.take(k as int),
            decreases self.bindings@.len() - k,
        {
            bindings.push(self.bindings[k].clone());
            k += 1;
            assert(bindings@ =~= self.bindings@.take(k as int));
        }
        assert(devices@ =~= self.devices@);
        assert(bindings@ =~= self.bindings@);
        ValidatedConfig { devices, driver_specs, bindings }
    }
}

/// What has been gathered from the devices of a configuration so far.
#[verifier::ext_equal]
pub struct Gathered {
    pub devices: Seq<DeviceView>,
    pub driver_specs: Seq<DriverSpecView>,
    /// Addressable entities (what bindings may reference): the *expanded* list.
    pub exposed: Seq<(EntityAddress, EntityType)>,
    /// All ids taken. Declared ids of expanding drivers (e.g. `gateway.display`)
    /// are not addressable but still must be unique.
    pub taken: Set<EntityAddress>,
}

/// Nothing gathered yet.
pub open spec fn nothing() -> Gathered {
    Gathered {
        devices: Seq::empty(),
        driver_specs: Seq::empty(),
        exposed: Seq::empty(),
        taken: Set::empty(),
    }
}

/// Enter the entities that a declared entity exposes, from the `from`th on: each
/// has to have an id of its own, or that of the declared entity.
pub open spec fn enter_exposed(
    g: Gathered,
    declared: EntityAddress,
    entities: Seq<EntityView>,
    from: int,
) -> Result<Gathered, ConfigFault>
    decreases entities.len() - from,
{
    if from >= entities.len() {
        Ok(g)
    } else {
        let e = entities[from];
        if e.id != declared && g.taken.contains(e.id) {
            Err(ConfigFault::DuplicateEntity(e.id))
        } else {
            enter_exposed(
                Gathered {
                    exposed: g.exposed.push((e.id, e.entity_type)),
                    taken: g.taken.insert(e.id),
                    ..g
                },
                declared,
                entities,
                from + 1,
            )
        }
    }
}

/// An entity as declared.
pub open spec fn declared_entity(id: EntityAddress, raw: RawEntity) -> EntityView {
    EntityView { id, entity_type: raw.entity_type, name: optional_text(raw.name) }
}

/// Enter one declared entity of a device: check its id and driver kind, expand it,
/// and add its driver spec.
pub open spec fn enter_entity(
    g: Gathered,
    device: Seq<char>,
    raw: RawEntity,
    kinds: Seq<&str>,
) -> Result<Gathered, ConfigFault> {
    let id = EntityAddress { device, entity: raw.id@ };
    if !valid_local_id(raw.id@) {
        Err(ConfigFault::Id(IdFault::InvalidId(raw.id@)))
    } else if g.taken.contains(id) {
        Err(ConfigFault::DuplicateEntity(id))
    } else if !knows(kinds, raw.driver@) {
        Err(ConfigFault::UnknownDriverKind { entity: id, kind: raw.driver@ })
    } else {
        match exposed_entities(raw.driver@, declared_entity(id, raw), raw.driver_config) {
            Err(message) => Err(ConfigFault::InvalidDriverConfig { entity: id, message }),
            Ok(entities) => match enter_exposed(
                Gathered { taken: g.taken.insert(id), ..g },
                id,
                entities,
                0,
            ) {
                Err(fault) => Err(fault),
                Ok(entered) => Ok(
                    Gathered {
                        driver_specs: g.driver_specs.push(
                            DriverSpecView {
                                instance_id: address_text(id),
                                kind: raw.driver@,
                                entities,
                                config: raw.driver_config,
                            },
                        ),
                        ..entered
                    },
                ),
            },
        }
    }
}

/// Whether a driver kind is among the known ones.
pub open spec fn knows(kinds: Seq<&str>, kind: Seq<char>) -> bool {
    exists|i: int| 0 <= i < kinds.len() && #[trigger] kinds[i]@ == kind
}

/// Enter the first `n` entities of a device.
pub open spec fn enter_entities(
    g: Gathered,
    device: Seq<char>,
    raws: Seq<RawEntity>,
    n: nat,
    kinds: Seq<&str>,
) -> Result<Gathered, ConfigFault>
    decreases n,
{
    if n == 0 {
        Ok(g)
    } else {
        match enter_entities(g, device, raws, (n - 1) as nat, kinds) {
            Err(fault) => Err(fault),
            Ok(entered) => enter_entity(entered, device, raws[n - 1], kinds),
        }
    }
}

/// A device, once its id is known to be valid: its name defaults to its id.
pub open spec fn named_device(raw: RawDevice) -> DeviceView {
    DeviceView {
        id: raw.id@,
        name: match raw.name {
            Some(name) => name@,
            None => raw.id@,
        },
    }
}

/// Enter one device and its entities.
pub open spec fn enter_device(g: Gathered, raw: RawDevice, kinds: Seq<&str>) -> Result<
    Gathered,
    ConfigFault,
> {
    if !valid_id(raw.id@) {
        Err(ConfigFault::Id(IdFault::InvalidId(raw.id@)))
    } else if exists|i: int| 0 <= i < g.devices.len() && (#[trigger] g.devices[i]).id == raw.id@ {
        Err(ConfigFault::DuplicateDevice(raw.id@))
    } else {
        enter_entities(
            Gathered { devices: g.devices.push(named_device(raw)), ..g },
            raw.id@,
            raw.entities@,
            raw.entities@.len(),
            kinds,
        )
    }
}

/// Enter the first `n` devices.
pub open spec fn enter_devices(raws: Seq<RawDevice>, n: nat, kinds: Seq<&str>) -> Result<
    Gathered,
    ConfigFault,
>
    decreases n,
{
    if n == 0 {
        Ok(nothing())
    } else {
        match enter_devices(raws, (n - 1) as nat, kinds) {
            Err(fault) => Err(fault),
            Ok(g) => enter_device(g, raws[n - 1], kinds),
        }
    }
}

/// The domain of an addressable entity, from the `from`th on.
pub open spec fn domain_in(
    exposed: Seq<(EntityAddress, EntityType)>,
    id: EntityAddress,
    from: int,
) -> Option<EntityDomain>
    decreases exposed.len() - from,
{
    if from >= exposed.len() {
        None
    } else if exposed[from].0 == id {
        Some(exposed[from].1.domain_of())
    } else {
        domain_in(exposed, id, from + 1)
    }
}

/// What is wrong with a binding, if anything: it must lead from an addressable
/// sensor to an addressable actuator.
pub open spec fn raw_binding_fault(
    exposed: Seq<(EntityAddress, EntityType)>,
    raw: RawBinding,
) -> Option<ConfigFault> {
    match domain_in(exposed, raw.source@, 0) {
        None => Some(ConfigFault::UnknownBindingSource(raw.source@)),
        Some(EntityDomain::Actuator) => Some(ConfigFault::BindingSourceNotSensor(raw.source@)),
        Some(EntityDomain::Sensor) => match domain_in(exposed, raw.target@, 0) {
            None => Some(ConfigFault::UnknownBindingTarget(raw.target@)),
            Some(EntityDomain::Sensor) => Some(
                ConfigFault::BindingTargetNotActuator(raw.target@),
            ),
            Some(EntityDomain::Actuator) => None,
        },
    }
}

/// What is wrong with the first faulty binding from `from` on.
pub open spec fn first_raw_binding_fault(
    exposed: Seq<(EntityAddress, EntityType)>,
    raws: Seq<RawBinding>,
    from: int,
) -> Option<ConfigFault>
    decreases raws.len() - from,
{
    if from >= raws.len() {
        None
    } else {
        match raw_binding_fault(exposed, raws[from]) {
            Some(fault) => Some(fault),
            None => first_raw_binding_fault(exposed, raws, from + 1),
        }
    }
}

/// The contents of raw bindings.
pub open spec fn raw_binding_views(raws: Seq<RawBinding>) -> Seq<BindingView> {
    raws.map_values(|raw: RawBinding| BindingView { source: raw.source@, target: raw.target@ })
}

/// What a configuration amounts to, or its first fault: devices and their entities
/// are taken in order, then the bindings.
pub open spec fn validated(raw: RawConfig, kinds: Seq<&str>) -> Result<ValidatedView, ConfigFault> {
    match enter_devices(raw.devices@, raw.devices@.len(), kinds) {
        Err(fault) => Err(fault),
        Ok(g) => match first_raw_binding_fault(g.exposed, raw.bindings@, 0) {
            Some(fault) => Err(fault),
            None => Ok(
                ValidatedView {
                    devices: g.devices,
                    driver_specs: g.driver_specs,
                    bindings: raw_binding_views(raw.bindings@),
                },
            ),
        },
    }
}

/// [`Gathered`], at work.
struct Gathering {
    devices: Vec<Device>,
    driver_specs: Vec<DriverSpec>,
    exposed: Vec<(EntityId, EntityType)>,
    taken: EntityMap<()>,
}

spec fn exposed_views(exposed: Seq<(EntityId, EntityType)>) -> Seq<(EntityAddress, EntityType)> {
    exposed.map_values(|e: (EntityId, EntityType)| (e.0@, e.1))
}

impl View for Gathering {
    type V = Gathered;

    closed spec fn view(&self) -> Gathered {
        Gathered {
            devices: self.devices@.map_values(|d: Device| d@),
            driver_specs: self.driver_specs@.map_values(|s: DriverSpec| s@),
            exposed: exposed_views(self.exposed@),
            taken: self.taken@.dom(),
        }
    }
}

fn is_known(kinds: &[&str], kind: &str) -> (known: bool)
    ensures
        known == knows(kinds@, kind@),
{
    let mut i: usize = 0;
    while i < kinds.len()
        invariant
            i <= kinds@.len(),
            forall|k: int| 0 <= k < i ==> #[trigger] kinds@[k]@ != kind@,
        decreases kinds@.len() - i,
    {
        if str_eq(kinds[i], kind) {
            return true;
        }
        i += 1;
    }
    false
}

impl Gathering {
    fn new() -> (gathering: Self)
        ensures
            gathering@ == nothing(),
    {
        let gathering = Gathering {
            devices: Vec::new(),
            driver_specs: Vec::new(),
            exposed: Vec::new(),
            taken: EntityMap::new(),
        };
        assert(gathering@ =~= nothing());
        gathering
    }

    fn enter_exposed(&mut self, declared: &EntityId, entities: &Vec<Entity>) -> (entered: Result<
        (),
        ConfigError,
    >)
        ensures
            match entered {
                Ok(_) => enter_exposed(old(self)@, declared@, entity_views(entities@), 0) == Ok::<
                    Gathered,
                    ConfigFault,
                >(final(self)@),
                Err(e) => enter_exposed(old(self)@, declared@, entity_views(entities@), 0) == Err::<
                    Gathered,
                    ConfigFault,
                >(e@),
            },
    {
        let ghost views = entity_views(entities@);
        let ghost start = self@;
        let mut i: usize = 0;
        while i < entities.len()
            invariant
                views == entity_views(entities@),
                start == old(self)@,
                i <= entities@.len(),
                enter_exposed(start, declared@, views, 0) == enter_exposed(
                    self@,
                    declared@,
                    views,
                    i as int,
                ),
            decreases entities@.len() - i,
        {
            let entity: &Entity = &entities[i];
            assert(views[i as int] == entity@);
            let ghost before = self@;
            if entity.id != *declared && self.taken.get(&entity.id).is_some() {
                return Err(ConfigError::DuplicateEntity(entity.id.clone()));
            }
            self.taken.insert(entity.id.clone(), ());
            self.exposed.push((entity.id.clone(), entity.entity_type));
            proof {
                assert(self@ =~= (Gathered {
                    exposed: before.exposed.push((entity@.id, entity@.entity_type)),
                    taken: before.taken.insert(entity@.id),
                    ..before
                }));
            }
            i += 1;
        }
        Ok(())
    }

    fn enter_entity(&mut self, device_id: &DeviceId, raw: RawEntity, kinds: &[&str]) -> (entered:
        Result<(), ConfigError>)
        ensures
            match entered {
                Ok(_) => enter_entity(old(self)@, device_id@, raw, kinds@) == Ok::<
                    Gathered,
                    ConfigFault,
                >(final(self)@),
                Err(e) => enter_entity(old(self)@, device_id@, raw, kinds@) == Err::<
                    Gathered,
                    ConfigFault,
                >(e@),
            },
    {
        let ghost before = self@;
        let entity_id: EntityId = match EntityId::new(device_id.clone(), raw.id.as_str()) {
            Ok(id) => id,
            Err(e) => {
                return Err(ConfigError::Id(e));
            },
        };
        if self.taken.get(&entity_id).is_some() {
            return Err(ConfigError::DuplicateEntity(entity_id));
        }
        self.taken.insert(entity_id.clone(), ());
        assert(self@ =~= (Gathered { taken: before.taken.insert(entity_id@), ..before }));
        if !is_known(kinds, raw.driver.as_str()) {
            return Err(ConfigError::UnknownDriverKind { entity: entity_id, kind: raw.driver });
        }
        let declared: Entity = Entity {
            id: entity_id.clone(),
            entity_type: raw.entity_type,
            name: raw.name,
        };
        assert(declared@ == declared_entity(entity_id@, raw));
        // A driver's entity count is config-driven, not fixed at 1: a partitioned
        // actuator (display zones) expands one declared entity into several
        // addressable ones.
        let exposed: Vec<Entity> = match expand_entities(
            raw.driver.as_str(),
            &declared,
            &raw.driver_config,
        ) {
            Ok(exposed) => exposed,
            Err(message) => {
                return Err(ConfigError::InvalidDriverConfig { entity: entity_id, message });
            },
        };
        if let Err(e) = self.enter_exposed(&entity_id, &exposed) {
            return Err(e);
        }
        let ghost entered = self@;
        let ghost specs = self.driver_specs@;
        let spec: DriverSpec = DriverSpec {
            instance_id: entity_id.to_string(),
            kind: raw.driver,
            entities: exposed,
            config: raw.driver_config,
        };
        self.driver_specs.push(spec);
        proof {
            assert(self.driver_specs@.map_values(|s: DriverSpec| s@) =~= specs.map_values(
                |s: DriverSpec| s@,
            ).push(spec@));
            lemma_exposing_adds_no_spec(
                Gathered { taken: before.taken.insert(entity_id@), ..before },
                entity_id@,
                entity_views(exposed@),
                0,
            );
        }
        Ok(())
    }

    fn enter_device(&mut self, raw: RawDevice, kinds: &[&str]) -> (entered: Result<
        (),
        ConfigError,
    >)
        ensures
            match entered {
                Ok(_) => enter_device(old(self)@, raw, kinds@) == Ok::<Gathered, ConfigFault>(
                    final(self)@,
                ),
                Err(e) => enter_device(old(self)@, raw, kinds@) == Err::<Gathered, ConfigFault>(e@),
            },
    {
        let ghost before = self@;
        let device_id: DeviceId = match DeviceId::new(raw.id.as_str()) {
            Ok(id) => id,
            Err(e) => {
                return Err(ConfigError::Id(e));
            },
        };
        if self.has_device(&device_id) {
            return Err(ConfigError::DuplicateDevice(raw.id));
        }
        let name: String = match raw.name {
            Some(name) => name,
            None => raw.id.clone(),
        };
        let device: Device = Device { id: device_id.clone(), name };
        let ghost devices = self.devices@;
        self.devices.push(device);
        let ghost start = Gathered { devices: before.devices.push(named_device(raw)), ..before };
        proof {
            assert(self.devices@.map_values(|d: Device| d@) =~= devices.map_values(
                |d: Device| d@,
            ).push(device@));
            assert(self@ =~= start);
        }
        let ghost raws = raw.entities@;
        for raw_entity in it: raw.entities.into_iter()
            invariant
                raws == it.seq(),
                before == old(self)@,
                device_id@ == raw.id@,
                valid_id(raw.id@),
                enter_entities(start, raw.id@, raws, it.index() as nat, kinds@) == Ok::<
                    Gathered,
                    ConfigFault,
                >(self@),
                enter_device(before, raw, kinds@) == enter_entities(
                    start,
                    raw.id@,
                    raws,
                    raws.len(),
                    kinds@,
                ),
        {
            let ghost i = it.index();
            if let Err(e) = self.enter_entity(&device_id, raw_entity, kinds) {
                proof {
                    lemma_entity_fault_stays(
                        start,
                        raw.id@,
                        raws,
                        (i + 1) as nat,
                        raws.len(),
                        kinds@,
                    );
                }
                return Err(e);
            }
        }
        Ok(())
    }

    fn has_device(&self, id: &DeviceId) -> (found: bool)
        ensures
            found == exists|i: int|
                0 <= i < self@.devices.len() && (#[trigger] self@.devices[i]).id == id@,
    {
        let mut i: usize = 0;
        while i < self.devices.len()
            invariant
                i <= self.devices@.len(),
                forall|k: int| 0 <= k < i ==> (#[trigger] self@.devices[k]).id != id@,
            decreases self.devices@.len() - i,
        {
            assert(self@.devices[i as int] == self.devices@[i as int]@);
            if self.devices[i].id == *id {
                return true;
            }
            i += 1;
        }
        false
    }

    fn domain_of(&self, id: &EntityId) -> (domain: Option<EntityDomain>)
        ensures
            domain == domain_in(self@.exposed, id@, 0),
    {
        let mut i: usize = 0;
        while i < self.exposed.len()
            invariant
                i <= self.exposed@.len(),
                domain_in(self@.exposed, id@, 0) == domain_in(self@.exposed, id@, i as int),
            decreases self.exposed@.len() - i,
        {
            if self.exposed[i].0 == *id {
                return Some(self.exposed[i].1.domain());
            }
            i += 1;
        }
        None
    }

    fn check_binding(&self, raw: &RawBinding) -> (checked: Result<(), ConfigError>)
        ensures
            match checked {
                Ok(_) => raw_binding_fault(self@.exposed, *raw) is None,
                Err(e) => raw_binding_fault(self@.exposed, *raw) == Some(e@),
            },
    {
        match self.domain_of(&raw.source) {
            None => {
                return Err(ConfigError::UnknownBindingSource(raw.source.clone()));
            },
            Some(EntityDomain::Actuator) => {
                return Err(ConfigError::BindingSourceNotSensor(raw.source.clone()));
            },
            Some(EntityDomain::Sensor) => {},
        }
        match self.domain_of(&raw.target) {
            None => Err(ConfigError::UnknownBindingTarget(raw.target.clone())),
            Some(EntityDomain::Sensor) => Err(
                ConfigError::BindingTargetNotActuator(raw.target.clone()),
            ),
            Some(EntityDomain::Actuator) => Ok(()),
        }
    }
}

proof fn lemma_exposing_adds_no_spec(
    g: Gathered,
    declared: EntityAddress,
    entities: Seq<EntityView>,
    from: int,
)
    requires
        0 <= from,
    ensures
        enter_exposed(g, declared, entities, from) matches Ok(entered) ==> entered.driver_specs
            == g.driver_specs && entered.devices == g.devices,
    decreases entities.len() - from,
{
    if from < entities.len() {
        let e = entities[from];
        lemma_exposing_adds_no_spec(
            Gathered {
                exposed: g.exposed.push((e.id, e.entity_type)),
                taken: g.taken.insert(e.id),
                ..g
            },
            declared,
            entities,
            from + 1,
        );
    }
}

/// A fault among the first `n` entities is a fault of the first `m`.
proof fn lemma_entity_fault_stays(
    g: Gathered,
    device: Seq<char>,
    raws: Seq<RawEntity>,
    n: nat,
    m: nat,
    kinds: Seq<&str>,
)
    requires
        n <= m,
        enter_entities(g, device, raws, n, kinds) is Err,
    ensures
        enter_entities(g, device, raws, m, kinds) == enter_entities(g, device, raws, n, kinds),
    decreases m,
{
    if n < m {
        lemma_entity_fault_stays(g, device, raws, n, (m - 1) as nat, kinds);
    }
}

/// A fault among the first `n` devices is a fault of the first `m`.
proof fn lemma_device_fault_stays(raws: Seq<RawDevice>, n: nat, m: nat, kinds: Seq<&str>)
    requires
        n <= m,
        enter_devices(raws, n, kinds) is Err,
    ensures
        enter_devices(raws, m, kinds) == enter_devices(raws, n, kinds),
    decreases m,
{
    if n < m {
        lemma_device_fault_stays(raws, n, (m - 1) as nat, kinds);
    }
}

/// Validate a configuration.
///
/// `known_driver_kinds` is passed in to keep this a pure function; callers pass
/// [`crate::drivers::BUILTIN_DRIVER_KINDS`] plus any plugin kinds.
///
/// Currently each entity gets its own driver instance (`instance_id` = entity
/// address).
pub fn parse_config(raw: RawConfig, known_driver_kinds: &[&str]) -> (made: Result<
    ValidatedConfig,
    ConfigError,
>)
    ensures
        match made {
            Ok(config) => validated(raw, known_driver_kinds@) == Ok::<ValidatedView, ConfigFault>(
                config@,
            ),
            Err(e) => validated(raw, known_driver_kinds@) == Err::<ValidatedView, ConfigFault>(e@),
        },
{
    let mut gathering: Gathering = Gathering::new();
    let ghost raws = raw.devices@;
    for raw_device in it: raw.devices.into_iter()
        invariant
            raws == it.seq(),
            raws == raw.devices@,
            enter_devices(raws, it.index() as nat, known_driver_kinds@) == Ok::<
                Gathered,
                ConfigFault,
            >(gathering@),
    {
        let ghost i = it.index();
        if let Err(e) = gathering.enter_device(raw_device, known_driver_kinds) {
            proof {
                lemma_device_fault_stays(raws, (i + 1) as nat, raws.len(), known_driver_kinds@);
            }
            return Err(e);
        }
    }
    let ghost g = gathering@;
    let ghost raw_bindings = raw.bindings@;
    let mut bindings: Vec<Binding> = Vec::new();
    for raw_binding in it: raw.bindings.into_iter()
        invariant
            raw_bindings == it.seq(),
            raw_bindings == raw.bindings@,
            g == gathering@,
            enter_devices(raw.devices@, raw.devices@.len(), known_driver_kinds@) == Ok::<
                Gathered,
                ConfigFault,
            >(g),
            first_raw_binding_fault(g.exposed, raw_bindings, 0) == first_raw_binding_fault(
                g.exposed,
                raw_bindings,
                it.index(),
            ),
            binding_views(bindings@) == raw_binding_views(raw_bindings).take(it.index()),
    {
        let ghost i = it.index();
        if let Err(e) = gathering.check_binding(&raw_binding) {
            return Err(e);
        }
        let ghost before = bindings@;
        let binding: Binding = Binding { source: raw_binding.source, target: raw_binding.target };
        bindings.push(binding);
        assert(binding_views(bindings@) =~= binding_views(before).push(binding@));
        assert(raw_binding_views(raw_bindings).take(i + 1) =~= raw_binding_views(
            raw_bindings,
        ).take(i).push(binding@));
    }
    assert(raw_binding_views(raw_bindings).take(raw_bindings.len() as int) =~= raw_binding_views(
        raw_bindings,
    ));
    Ok(
        ValidatedConfig {
            devices: gathering.devices,
            driver_specs: gathering.driver_specs,
            bindings,
        },
    )
}

} // verus!
