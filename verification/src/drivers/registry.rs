//! Driver registry: maps config-level driver kind names to factories.
//!
//! The main loop never names a concrete driver type; it asks the registry for
//! whatever the validated config specifies.

use vstd::prelude::*;

use crate::drivers::{
    DriverSpec, BUILTIN_DRIVER_KINDS, ILI9341_DISPLAY_KIND, PULSE_COUNTER_KIND, SSD1306_DISPLAY_KIND,
};
use crate::error::{DriverError, DriverFault};
use crate::text::str_eq;

verus! {

/// Factories by kind. What a factory is, its callers decide.
#[derive(Debug)]
pub struct DriverRegistry<F> {
    factories: Vec<(&'static str, F)>,
}

/// Where a kind stands first from `from` on.
spec fn position<F>(factories: Seq<(&'static str, F)>, kind: Seq<char>, from: int) -> Option<int>
    decreases factories.len() - from,
{
    if from >= factories.len() {
        None
    } else if factories[from].0@ == kind {
        Some(from)
    } else {
        position(factories, kind, from + 1)
    }
}

proof fn lemma_position<F>(factories: Seq<(&'static str, F)>, kind: Seq<char>, from: int)
    requires
        0 <= from <= factories.len(),
    ensures
        match position(factories, kind, from) {
            Some(i) => from <= i < factories.len() && factories[i].0@ == kind && forall|k: int|
                from <= k < i ==> (#[trigger] factories[k]).0@ != kind,
            None => forall|k: int|
                from <= k < factories.len() ==> (#[trigger] factories[k]).0@ != kind,
        },
    decreases factories.len() - from,
{
    if from < factories.len() {
        lemma_position(factories, kind, from + 1);
    }
}

impl<F> View for DriverRegistry<F> {
    type V = Map<Seq<char>, F>;

    closed spec fn view(&self) -> Map<Seq<char>, F> {
        Map::new(
            |kind: Seq<char>| position(self.factories@, kind, 0) is Some,
            |kind: Seq<char>| self.factories@[position(self.factories@, kind, 0)->0].1,
        )
    }
}

impl<F> DriverRegistry<F> {
    /// An empty registry.
    pub fn new() -> (registry: Self)
        ensures
            registry@ == Map::<Seq<char>, F>::empty(),
    {
        let registry = DriverRegistry { factories: Vec::new() };
        assert(registry@ =~= Map::<Seq<char>, F>::empty());
        registry
    }

    /// Registry with all built-in drivers registered.
    pub fn with_builtins(pulse_counter: F, ssd1306_display: F, ili9341_display: F) -> (registry:
        Self)
        ensures
            registry@ == builtins(pulse_counter, ssd1306_display, ili9341_display),
    {
        let mut registry: Self = DriverRegistry::new();
        registry.register(PULSE_COUNTER_KIND, pulse_counter);
        registry.register(SSD1306_DISPLAY_KIND, ssd1306_display);
        registry.register(ILI9341_DISPLAY_KIND, ili9341_display);
        registry
    }

    fn find(&self, kind: &str) -> (found: Option<usize>)
        ensures
            match found {
                Some(i) => i < self.factories@.len() && position(self.factories@, kind@, 0)
                    == Some(i as int),
                None => position(self.factories@, kind@, 0) is None,
            },
    {
        let mut i: usize = 0;
        while i < self.factories.len()
            invariant
                i <= self.factories@.len(),
                position(self.factories@, kind@, 0) == position(
                    self.factories@,
                    kind@,
                    i as int,
                ),
            decreases self.factories@.len() - i,
        {
            if str_eq(self.factories[i].0, kind) {
                return Some(i);
            }
            i += 1;
        }
        None
    }

    /// Register a factory, in place of an earlier one for the same kind.
    pub fn register(&mut self, kind: &'static str, factory: F)
        ensures
            final(self)@ == old(self)@.insert(kind@, factory),
    {
        let ghost before = self.factories@;
        match self.find(kind) {
            Some(i) => {
                self.factories[i] = (kind, factory);
            },
            None => {
                self.factories.push((kind, factory));
            },
        }
        proof {
            let after = self.factories@;
            assert forall|k: Seq<char>| #![trigger position(after, k, 0)]
                if k == kind@ {
                    position(after, k, 0) is Some && after[position(after, k, 0)->0].1 == factory
                } else {
                    &&& position(after, k, 0) == position(before, k, 0)
                    &&& position(before, k, 0) matches Some(i) ==> after[i] == before[i]
                } by {
                lemma_position(before, k, 0);
                lemma_position(after, k, 0);
                lemma_position(before, kind@, 0);
                match position(before, kind@, 0) {
                    Some(i) => {
                        assert(after[i].0@ == kind@);
                    },
                    None => {
                        assert(after[before.len() as int].0@ == kind@);
                    },
                }
                if let Some(i) = position(before, k, 0) {
                    assert(after[i].0@ == k);
                }
                if let Some(i) = position(after, k, 0) {
                    if i < before.len() {
                        assert(before[i].0@ == after[i].0@);
                    }
                }
            }
            assert(self@ =~= old(self)@.insert(kind@, factory));
        }
    }

    /// The factory that instantiates a spec.
    pub fn instantiate(&self, spec: &DriverSpec) -> (found: Result<&F, DriverError>)
        ensures
            match found {
                Ok(factory) => self@.contains_key(spec.kind@) && *factory == self@[spec.kind@],
                Err(e) => !self@.contains_key(spec.kind@) && e@ == DriverFault::UnknownKind(
                    spec.kind@,
                ),
            },
    {
        match self.find(spec.kind.as_str()) {
            Some(i) => Ok(&self.factories[i].1),
            None => Err(DriverError::UnknownKind(spec.kind.clone())),
        }
    }
}

/// What [`DriverRegistry::with_builtins`] registers.
pub open spec fn builtins<F>(pulse_counter: F, ssd1306_display: F, ili9341_display: F) -> Map<
    Seq<char>,
    F,
> {
    Map::empty().insert(PULSE_COUNTER_KIND@, pulse_counter).insert(
        SSD1306_DISPLAY_KIND@,
        ssd1306_display,
    ).insert(ILI9341_DISPLAY_KIND@, ili9341_display)
}

/// The registry of built-in drivers has a factory for each built-in kind, its
/// own, and for no other kind.
pub proof fn law_builtin_kinds_have_factories<F>(
    pulse_counter: F,
    ssd1306_display: F,
    ili9341_display: F,
    kind: Seq<char>,
)
    ensures
        ({
            let registry = builtins(pulse_counter, ssd1306_display, ili9341_display);
            &&& registry.contains_key(kind) <==> crate::config::knows(BUILTIN_DRIVER_KINDS@, kind)
            &&& registry[PULSE_COUNTER_KIND@] == pulse_counter
            &&& registry[SSD1306_DISPLAY_KIND@] == ssd1306_display
            &&& registry[ILI9341_DISPLAY_KIND@] == ili9341_display
        }),
{
    reveal_strlit("pulse_counter");
    reveal_strlit("ssd1306_display");
    reveal_strlit("ili9341_display");
    assert(PULSE_COUNTER_KIND@[0] == 'p');
    assert(SSD1306_DISPLAY_KIND@[0] == 's');
    assert(ILI9341_DISPLAY_KIND@[0] == 'i');
    assert(BUILTIN_DRIVER_KINDS@[0] == PULSE_COUNTER_KIND);
    assert(BUILTIN_DRIVER_KINDS@[1] == SSD1306_DISPLAY_KIND);
    assert(BUILTIN_DRIVER_KINDS@[2] == ILI9341_DISPLAY_KIND);
    assert(BUILTIN_DRIVER_KINDS@[0]@ == PULSE_COUNTER_KIND@);
    assert(BUILTIN_DRIVER_KINDS@[1]@ == SSD1306_DISPLAY_KIND@);
    assert(BUILTIN_DRIVER_KINDS@[2]@ == ILI9341_DISPLAY_KIND@);
}

} // verus!
