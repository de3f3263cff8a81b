//! Bindings and (stub) Automations.
//!
//! A **Binding** is a continuous, always-active mapping from a sensor entity to an
//! actuator entity, with no trigger or condition ("always show RPM on the
//! display"). An **Automation** is Trigger (+ optional Condition) -> Action. They
//! are deliberately separate concepts: a binding is *not* modeled as an
//! always-true automation.
//!
//! The engine deliberately knows nothing about presentation: it forwards the
//! source entity's state (value + availability) to the target actuator and the
//! actuator's driver decides how to render it. Display zones are ordinary actuator
//! entities here.

pub mod automation;

use vstd::prelude::*;

use crate::entities::id::EntityAddress;
use crate::entities::state::{Availability, EntityState, StateStore};
use crate::entities::{
    sensor_type_in, ActuatorCommand, ActuatorType, EntityId, EntityIndex, EntityType,
};
use crate::error::{BindingError, BindingFault};

verus! {

/// Continuous mapping: the source entity's value is always reflected on the
/// target actuator.
#[derive(Debug, PartialEq, Eq)]
pub struct Binding {
    pub source: EntityId,
    pub target: EntityId,
}

/// The contents of a [`Binding`].
#[verifier::ext_equal]
pub struct BindingView {
    pub source: EntityAddress,
    pub target: EntityAddress,
}

impl View for Binding {
    type V = BindingView;

    open spec fn view(&self) -> BindingView {
        BindingView { source: self.source@, target: self.target@ }
    }
}

impl Clone for Binding {
    fn clone(&self) -> (copy: Self)
        ensures
            copy == *self,
    {
        Binding { source: self.source.clone(), target: self.target.clone() }
    }
}

/// The contents of a list of bindings.
pub open spec fn binding_views(bindings: Seq<Binding>) -> Seq<BindingView> {
    bindings.map_values(|b: Binding| b@)
}

/// Whether an entity type accepts continuous source updates: displays and
/// display zones do.
pub open spec fn takes_updates(entity_type: EntityType) -> bool {
    ||| entity_type == EntityType::Actuator(ActuatorType::DisplayPanel)
    ||| entity_type == EntityType::Actuator(ActuatorType::DisplayRegion)
}

/// Whether an earlier binding has the target of binding `i`.
pub open spec fn repeats_target(bindings: Seq<BindingView>, i: int) -> bool {
    exists|j: int| 0 <= j < i && (#[trigger] bindings[j]).target == bindings[i].target
}

/// What keeps binding `i` from being served, taken with those before it.
pub open spec fn binding_fault(
    bindings: Seq<BindingView>,
    i: int,
    index: Map<EntityAddress, EntityType>,
) -> Option<BindingFault> {
    let binding = bindings[i];
    if sensor_type_in(index, binding.source) is None {
        Some(BindingFault::UnknownSource(binding.source))
    } else if !index.contains_key(binding.target) {
        Some(BindingFault::UnknownTarget(binding.target))
    } else if !takes_updates(index[binding.target]) {
        Some(
            BindingFault::UnsupportedTarget {
                target: binding.target,
                entity_type: index[binding.target].name(),
            },
        )
    } else if repeats_target(bindings, i) {
        Some(BindingFault::DuplicateTarget(binding.target))
    } else {
        None
    }
}

/// What keeps the first faulty binding from `from` on from being served.
pub open spec fn first_binding_fault(
    bindings: Seq<BindingView>,
    from: int,
    index: Map<EntityAddress, EntityType>,
) -> Option<BindingFault>
    decreases bindings.len() - from,
{
    if from >= bindings.len() {
        None
    } else {
        match binding_fault(bindings, from, index) {
            Some(fault) => Some(fault),
            None => first_binding_fault(bindings, from + 1, index),
        }
    }
}

/// Bindings that can all be served: known sensors to displays, and no target
/// bound twice.
pub open spec fn servable(
    bindings: Seq<BindingView>,
    index: Map<EntityAddress, EntityType>,
) -> bool {
    &&& forall|i: int|
        0 <= i < bindings.len() ==> {
            let binding = #[trigger] bindings[i];
            &&& sensor_type_in(index, binding.source) is Some
            &&& index.contains_key(binding.target)
            &&& takes_updates(index[binding.target])
        }
    &&& forall|i: int, j: int|
        0 <= i < j < bindings.len() ==> (#[trigger] bindings[i]).target != (
        #[trigger] bindings[j]).target
}

/// What a binding delivers: the state of its source, as far as one is known.
pub open spec fn delivered(
    states: Map<EntityAddress, EntityState>,
    source: EntityAddress,
) -> ActuatorCommand {
    if states.contains_key(source) {
        ActuatorCommand::SourceUpdate {
            availability: states[source].availability,
            value: states[source].value,
        }
    } else {
        ActuatorCommand::SourceUpdate { availability: Availability::Unavailable, value: None }
    }
}

/// Evaluates bindings against the current entity states and produces the actuator
/// commands that would realize them. Pure with respect to hardware: the main loop
/// routes the returned commands to actuator drivers.
#[derive(Debug)]
pub struct BindingEngine {
    bindings: Vec<Binding>,
}

impl View for BindingEngine {
    type V = Seq<BindingView>;

    closed spec fn view(&self) -> Seq<BindingView> {
        binding_views(self.bindings@)
    }
}

fn target_seen_before(bindings: &Vec<Binding>, i: usize) -> (seen: bool)
    requires
        i < bindings@.len(),
    ensures
        seen == repeats_target(binding_views(bindings@), i as int),
{
    let ghost views = binding_views(bindings@);
    let mut j: usize = 0;
    while j < i
        invariant
            views == binding_views(bindings@),
            j <= i < bindings@.len(),
            forall|k: int| 0 <= k < j ==> (#[trigger] views[k]).target != views[i as int].target,
        decreases i - j,
    {
        assert(views[j as int] == bindings@[j as int]@);
        assert(views[i as int] == bindings@[i as int]@);
        if bindings[j].target == bindings[i].target {
            return true;
        }
        j += 1;
    }
    false
}

impl BindingEngine {
    /// Validates that every binding can actually be served: the source must be a
    /// known sensor entity, the target an actuator entity type that accepts
    /// continuous source updates (displays and display zones), and each target may
    /// have at most one binding, since a continuous mapping with two sources has
    /// no meaning.
    pub fn new(bindings: Vec<Binding>, index: &EntityIndex) -> (made: Result<Self, BindingError>)
        ensures
            match made {
                Ok(engine) => first_binding_fault(binding_views(bindings@), 0, index@) is None
                    && engine@ == binding_views(bindings@),
                Err(e) => first_binding_fault(binding_views(bindings@), 0, index@) == Some(e@),
            },
    {
        let ghost views = binding_views(bindings@);
        let mut i: usize = 0;
        while i < bindings.len()
            invariant
                views == binding_views(bindings@),
                i <= bindings@.len(),
                first_binding_fault(views, 0, index@) == first_binding_fault(
                    views,
                    i as int,
                    index@,
                ),
            decreases bindings@.len() - i,
        {
            let binding: &Binding = &bindings[i];
            assert(views[i as int] == binding@);
            if index.sensor_type(&binding.source).is_none() {
                return Err(BindingError::UnknownSource(binding.source.clone()));
            }
            match index.entity_type(&binding.target) {
                Some(
                    EntityType::Actuator(ActuatorType::DisplayPanel | ActuatorType::DisplayRegion),
                ) => {},
                Some(entity_type) => {
                    return Err(
                        BindingError::UnsupportedTarget {
                            target: binding.target.clone(),
                            entity_type: entity_type.as_str(),
                        },
                    );
                },
                None => {
                    return Err(BindingError::UnknownTarget(binding.target.clone()));
                },
            }
            if target_seen_before(&bindings, i) {
                return Err(BindingError::DuplicateTarget(binding.target.clone()));
            }
            i += 1;
        }
        Ok(BindingEngine { bindings })
    }

    /// The commands that bring all binding targets in line with the current source
    /// states, in the order of the bindings.
    pub fn desired_commands(&self, states: &StateStore) -> (commands: Vec<
        (EntityId, ActuatorCommand),
    >)
        ensures
            commands@.len() == self@.len(),
            forall|i: int|
                0 <= i < self@.len() ==> (#[trigger] commands@[i]).0@ == self@[i].target
                    && commands@[i].1 == delivered(states@, self@[i].source),
    {
        let mut commands: Vec<(EntityId, ActuatorCommand)> = Vec::new();
        let mut i: usize = 0;
        while i < self.bindings.len()
            invariant
                i <= self.bindings@.len() == self@.len(),
                commands@.len() == i,
                forall|k: int|
                    0 <= k < i ==> (#[trigger] commands@[k]).0@ == self@[k].target
                        && commands@[k].1 == delivered(states@, self@[k].source),
            decreases self.bindings@.len() - i,
        {
            let binding: &Binding = &self.bindings[i];
            assert(self@[i as int] == binding@);
            let command: ActuatorCommand = match states.get(&binding.source) {
                Some(state) => ActuatorCommand::SourceUpdate {
                    availability: state.availability,
                    value: state.value,
                },
                None => ActuatorCommand::SourceUpdate {
                    availability: Availability::Unavailable,
                    value: None,
                },
            };
            commands.push((binding.target.clone(), command));
            i += 1;
        }
        commands
    }
}

proof fn lemma_no_binding_fault(
    bindings: Seq<BindingView>,
    from: int,
    index: Map<EntityAddress, EntityType>,
)
    requires
        0 <= from <= bindings.len(),
    ensures
        first_binding_fault(bindings, from, index) is None <==> forall|i: int|
            #![trigger bindings[i]]
            from <= i < bindings.len() ==> binding_fault(bindings, i, index) is None,
    decreases bindings.len() - from,
{
    if from < bindings.len() {
        lemma_no_binding_fault(bindings, from + 1, index);
        if binding_fault(bindings, from, index) is Some {
            assert(bindings[from] == bindings[from]);
        }
    }
}

/// The engine accepts exactly the bindings that can all be served.
pub proof fn law_accepted_bindings_are_servable(
    bindings: Seq<BindingView>,
    index: Map<EntityAddress, EntityType>,
)
    ensures
        first_binding_fault(bindings, 0, index) is None <==> servable(bindings, index),
{
    lemma_no_binding_fault(bindings, 0, index);
    if first_binding_fault(bindings, 0, index) is None {
        assert forall|i: int, j: int| 0 <= i < j < bindings.len() implies (
        #[trigger] bindings[i]).target != (#[trigger] bindings[j]).target by {
            assert(binding_fault(bindings, j, index) is None);
        }
    }
}

/// A source that is not online never delivers a value as if it were: an
/// unavailable source delivers none at all.
pub proof fn law_unavailable_sources_deliver_no_value(
    states: Map<EntityAddress, EntityState>,
    source: EntityAddress,
)
    requires
        states.contains_key(source) ==> crate::entities::state::coherent(states[source]),
    ensures
        delivered(states, source) matches ActuatorCommand::SourceUpdate { availability, value }
            && (availability == Availability::Unavailable <==> value is None),
{
}

/// Bindings are accepted exactly if every source is a sensor in the index, every target
/// is a display panel or a display region in it, and no two bindings have the same
/// target.
pub proof fn law_bindings_lead_from_sensors_to_displays(
    bindings: Seq<BindingView>,
    index: Map<EntityAddress, EntityType>,
)
    ensures
        first_binding_fault(bindings, 0, index) is None <==> {
            &&& forall|i: int|
                0 <= i < bindings.len() ==> {
                    let binding = #[trigger] bindings[i];
                    &&& index.contains_key(binding.source)
                    &&& index[binding.source] is Sensor
                    &&& index.contains_key(binding.target)
                    &&& index[binding.target] == EntityType::Actuator(ActuatorType::DisplayPanel)
                        || index[binding.target] == EntityType::Actuator(
                        ActuatorType::DisplayRegion,
                    )
                }
            &&& forall|i: int, j: int|
                0 <= i < bindings.len() && 0 <= j < bindings.len() && (
                #[trigger] bindings[i]).target == (#[trigger] bindings[j]).target ==> i == j
        },
{
    law_accepted_bindings_are_servable(bindings, index);
    if servable(bindings, index) {
        assert forall|i: int, j: int|
            0 <= i < bindings.len() && 0 <= j < bindings.len() && (#[trigger] bindings[i]).target
                == (#[trigger] bindings[j]).target implies i == j by {
            if i < j {
                assert(bindings[i].target != bindings[j].target);
            }
            if j < i {
                assert(bindings[j].target != bindings[i].target);
            }
        }
    }
}

/// The first binding that cannot be served is the one reported: for its source, if that
/// is no sensor in the index; or else for its target, if that is not in the index, takes
/// no updates, or has been bound before.
pub proof fn law_the_first_faulty_binding_is_reported(
    bindings: Seq<BindingView>,
    i: int,
    index: Map<EntityAddress, EntityType>,
)
    requires
        0 <= i < bindings.len(),
        first_binding_fault(bindings.take(i), 0, index) is None,
    ensures
        ({
            let binding = bindings[i];
            let fault = first_binding_fault(bindings, 0, index);
            let known = index.contains_key(binding.source) && index[binding.source] is Sensor;
            let display = index[binding.target] == EntityType::Actuator(ActuatorType::DisplayPanel)
                || index[binding.target] == EntityType::Actuator(ActuatorType::DisplayRegion);
            &&& !known ==> fault == Some(BindingFault::UnknownSource(binding.source))
            &&& known && !index.contains_key(binding.target) ==> fault == Some(
                BindingFault::UnknownTarget(binding.target),
            )
            &&& known && index.contains_key(binding.target) && !display ==> fault == Some(
                BindingFault::UnsupportedTarget {
                    target: binding.target,
                    entity_type: index[binding.target].name(),
                },
            )
            &&& known && index.contains_key(binding.target) && display && (exists|j: int|
                0 <= j < i && (#[trigger] bindings[j]).target == binding.target) ==> fault == Some(
                BindingFault::DuplicateTarget(binding.target),
            )
        }),
{
    lemma_faultless_start(bindings, i, 0, index);
}

proof fn lemma_faultless_start(
    bindings: Seq<BindingView>,
    i: int,
    from: int,
    index: Map<EntityAddress, EntityType>,
)
    requires
        0 <= from <= i <= bindings.len(),
        first_binding_fault(bindings.take(i), from, index) is None,
    ensures
        first_binding_fault(bindings, from, index) == first_binding_fault(bindings, i, index),
    decreases i - from,
{
    if from < i {
        let start = bindings.take(i);
        assert(start[from] == bindings[from]);
        if repeats_target(bindings, from) {
            let j = choose|j: int|
                0 <= j < from && (#[trigger] bindings[j]).target == bindings[from].target;
            assert(start[j].target == start[from].target);
            assert(repeats_target(start, from));
        }
        if repeats_target(start, from) {
            let j = choose|j: int|
                0 <= j < from && (#[trigger] start[j]).target == start[from].target;
            assert(bindings[j].target == bindings[from].target);
        }
        assert(binding_fault(start, from, index) is None);
        lemma_faultless_start(bindings, i, from + 1, index);
    }
}

/// A binding delivers the source's availability and value exactly as they are on
/// record, stale ones included; of a source without a record, that it is unavailable.
pub proof fn law_states_are_delivered_as_recorded(
    states: Map<EntityAddress, EntityState>,
    source: EntityAddress,
)
    ensures
        ({
            let ActuatorCommand::SourceUpdate { availability, value } = delivered(states, source);
            if states.contains_key(source) {
                availability == states[source].availability && value == states[source].value
            } else {
                availability == Availability::Unavailable && value is None
            }
        }),
{
}

/// What is said of a list of bindings is said of each of them, in order, source and
/// target both.
pub proof fn law_bindings_are_told_in_order(bindings: Seq<Binding>, i: int)
    requires
        0 <= i < bindings.len(),
    ensures
        binding_views(bindings).len() == bindings.len(),
        binding_views(bindings)[i].source == bindings[i].source@,
        binding_views(bindings)[i].target == bindings[i].target@,
{
}

} // verus!
