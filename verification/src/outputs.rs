//! The per-output bar registry.
//!
//! Tracks which Wayland outputs currently have a bar, keyed by output id, and
//! owns the lifecycle decisions: build a surface the first time an output is
//! seen, tear it down when the output is removed, and ignore repeats. The actual
//! layer-shell surface is the generic payload `S`, built lazily by the caller
//! from each output's resolved [`Config`].

use crate::config::Config;
use crate::indexed;
use crate::text;
use std::collections::HashMap;
use vstd::prelude::*;

verus! {

/// A Wayland output's global registry name.
///
/// Unique and stable for the output's lifetime, so per-output bar state keys on
/// it: the same physical monitor unplugged and replugged gets a fresh id, which
/// is exactly the lifecycle we want to track.
pub type OutputId = u32;

/// The per-output bars the app is showing, keyed by [`OutputId`].
pub struct Outputs<S> {
    base: Config,
    entries: HashMap<OutputId, S>,
}

/// The contents of [`Outputs`].
#[verifier::ext_equal]
pub struct OutputsView<S> {
    /// The shared base configuration.
    pub base: Config,
    /// The surfaces, by output.
    pub bars: Map<OutputId, S>,
}

impl<S> View for Outputs<S> {
    type V = OutputsView<S>;

    closed spec fn view(&self) -> OutputsView<S> {
        OutputsView { base: self.base, bars: self.entries@ }
    }
}

impl<S> Outputs<S> {
    /// Create an empty registry resolving per-output config against `base`.
    pub fn new(base: Config) -> (outputs: Self)
        ensures
            outputs@ == (OutputsView { base, bars: Map::<OutputId, S>::empty() }),
    {
        Outputs { base, entries: HashMap::new() }
    }

    /// Replace the base config used for new outputs and for
    /// [`config_for`](Self::config_for) resolution (config hot-reload).
    pub fn set_base(&mut self, base: Config)
        ensures
            final(self)@ == (OutputsView { base, ..old(self)@ }),
    {
        self.base = base;
    }

    /// The shared base configuration every output resolves against.
    pub fn base(&self) -> (base: &Config)
        ensures
            *base == self@.base,
    {
        &self.base
    }

    /// The effective [`Config`] an output named `name` should run on: a matching
    /// monitor entry folded onto the base, or the global values for an unmatched
    /// or unnamed output.
    pub fn config_for(&self, name: Option<&str>) -> (config: Config)
        ensures
            config@ == self@.base@.for_output(text::optional_str(name)),
    {
        self.base.resolve_for_output(name)
    }

    /// Ensure output `id` has a surface, building one if it is new.
    ///
    /// Idempotent: when the output already has a surface, `build` is **not**
    /// called and the live surface is kept. `build` receives the output's
    /// resolved config. Returns `true` when a new surface was built, `false` when
    /// the output was already present.
    pub fn ensure<F: FnOnce(Config) -> S>(
        &mut self,
        id: OutputId,
        name: Option<&str>,
        build: F,
    ) -> (built: bool)
        requires
            !old(self)@.bars.dom().contains(id) ==> forall|config: Config|
                config@ == old(self)@.base@.for_output(text::optional_str(name))
                    ==> #[trigger] call_requires(build, (config,)),
        ensures
            built == !old(self)@.bars.dom().contains(id),
            final(self)@ == if built {
                OutputsView {
                    bars: old(self)@.bars.insert(id, final(self)@.bars[id]),
                    ..old(self)@
                }
            } else {
                old(self)@
            },
            built ==> exists|config: Config|
                config@ == old(self)@.base@.for_output(text::optional_str(name))
                    && #[trigger] call_ensures(build, (config,), final(self)@.bars[id]),
    {
        if self.entries.contains_key(&id) {
            return false;
        }
        let config: Config = self.base.resolve_for_output(name);
        let surface: S = build(config);
        self.entries.insert(id, surface);
        true
    }

    /// Remove output `id`, returning its surface so the caller can tear the
    /// layer surface down.
    ///
    /// Idempotent: returns `None` if the output was not tracked, so a duplicate
    /// destroy is harmless and never leaves stale state behind.
    pub fn remove(&mut self, id: OutputId) -> (surface: Option<S>)
        ensures
            final(self)@ == (OutputsView { bars: old(self)@.bars.remove(id), ..old(self)@ }),
            match surface {
                Some(s) => old(self)@.bars.dom().contains(id) && s == old(self)@.bars[id],
                None => !old(self)@.bars.dom().contains(id),
            },
    {
        self.entries.remove(&id)
    }

    /// The surface for output `id`, if tracked.
    pub fn get(&self, id: OutputId) -> (surface: Option<&S>)
        ensures
            match surface {
                Some(s) => self@.bars.dom().contains(id) && *s == self@.bars[id],
                None => !self@.bars.dom().contains(id),
            },
    {
        self.entries.get(&id)
    }

    /// The surface for output `id`, if tracked, mutably.
    pub fn get_mut(&mut self, id: OutputId) -> (surface: Option<&mut S>)
        ensures
            match surface {
                Some(s) => {
                    &&& old(self)@.bars.dom().contains(id)
                    &&& *s == old(self)@.bars[id]
                    &&& final(self)@ == (OutputsView {
                        bars: old(self)@.bars.insert(id, *final(s)),
                        ..old(self)@
                    })
                },
                None => !old(self)@.bars.dom().contains(id) && final(self)@ == old(self)@,
            },
    {
        indexed::value_mut(&mut self.entries, id)
    }

    /// Every tracked output: each id once.
    pub fn ids(&self) -> (ids: Vec<OutputId>)
        ensures
            ids@.no_duplicates(),
            ids@.to_set() == self@.bars.dom(),
    {
        indexed::keys(&self.entries)
    }

    /// Whether output `id` currently has a surface.
    pub fn contains(&self, id: OutputId) -> (found: bool)
        ensures
            found == self@.bars.dom().contains(id),
    {
        self.entries.contains_key(&id)
    }

    /// The number of outputs with a bar.
    pub fn len(&self) -> (len: usize)
        ensures
            len == self@.bars.dom().len(),
            self@.bars.dom().finite(),
    {
        self.entries.len()
    }

    /// Whether no output currently has a bar.
    pub fn is_empty(&self) -> (empty: bool)
        ensures
            empty == (self@.bars == Map::<OutputId, S>::empty()),
    {
        let empty: bool = self.entries.len() == 0;
        proof {
            if empty {
                assert(self@.bars =~= Map::<OutputId, S>::empty());
            }
        }
        empty
    }
}

/// Removing one output leaves every other as it was.
pub proof fn lemma_outputs_are_independent<S>(
    outputs: Map<OutputId, S>,
    gone: OutputId,
    other: OutputId,
)
    requires
        gone != other,
    ensures
        outputs.remove(gone).dom().contains(other) <==> outputs.dom().contains(other),
        outputs.dom().contains(other) ==> outputs.remove(gone)[other] == outputs[other],
        !outputs.remove(gone).dom().contains(gone),
        outputs.remove(gone).remove(gone) == outputs.remove(gone),
{
    assert(outputs.remove(gone).remove(gone) =~= outputs.remove(gone));
}

/// A bar is built for an output exactly when it has none, and it has one then; the bars of
/// the other outputs stay.
pub proof fn lemma_an_output_has_one_bar<S, F: FnOnce(Config) -> S>(
    outputs: &mut Outputs<S>,
    id: OutputId,
    name: Option<&str>,
    build: F,
    built: bool,
    other: OutputId,
)
    requires
        call_ensures(Outputs::<S>::ensure::<F>, (outputs, id, name, build), built),
    ensures
        built <==> !old(outputs)@.bars.dom().contains(id),
        final(outputs)@.bars.dom().contains(id),
        other != id ==> (final(outputs)@.bars.dom().contains(other) <==> old(
            outputs,
        )@.bars.dom().contains(other)),
        old(outputs)@.bars.dom().contains(other) ==> final(outputs)@.bars[other] == old(
            outputs,
        )@.bars[other],
        final(outputs)@.base == old(outputs)@.base,
{
}

/// An output that is removed has no bar any more and gives back the one it had; the others
/// keep theirs.
pub proof fn lemma_a_removed_output_gives_back_its_bar<S>(
    outputs: &mut Outputs<S>,
    id: OutputId,
    surface: Option<S>,
    other: OutputId,
)
    requires
        call_ensures(Outputs::<S>::remove, (outputs, id), surface),
    ensures
        surface is Some <==> old(outputs)@.bars.dom().contains(id),
        surface is Some ==> surface->0 == old(outputs)@.bars[id],
        !final(outputs)@.bars.dom().contains(id),
        other != id ==> (final(outputs)@.bars.dom().contains(other) <==> old(
            outputs,
        )@.bars.dom().contains(other)),
        other != id && old(outputs)@.bars.dom().contains(other) ==> final(outputs)@.bars[other]
            == old(outputs)@.bars[other],
        final(outputs)@.base == old(outputs)@.base,
{
}

/// Outputs run on the base configuration that was set last, with what it says of their
/// monitor.
pub proof fn lemma_outputs_run_on_the_base<S>(
    outputs: &mut Outputs<S>,
    base: Config,
    after: Outputs<S>,
    name: Option<&str>,
    config: Config,
    resolved: Config,
)
    requires
        call_ensures(Outputs::<S>::set_base, (outputs, base), ()),
        after == *final(outputs),
        call_ensures(Outputs::<S>::config_for, (&after, name), config),
        call_ensures(Config::resolve_for_output, (&base, name), resolved),
    ensures
        final(outputs)@.base == base,
        final(outputs)@.bars == old(outputs)@.bars,
        config@ == resolved@,
{
}

} // verus!
