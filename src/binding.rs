//! Lazily resolved entry points: one lookup per binding, outcome kept.
use vstd::prelude::*;

use crate::registry::{lemma_after_request_wf, open_library, slot_view, LibraryRegistry, RegistryView};

verus! {

/// Where a binding stands. It leaves `Unresolved` once and never returns.
pub enum Resolution<C> {
    Unresolved,
    Resolved(C),
    Unavailable,
}

/// What a binding holds, as mathematical values.
pub struct BindingView<C> {
    pub library: Seq<char>,
    pub symbol: Seq<char>,
    pub state: Resolution<C>,
}

/// The value that a binding in `state` hands out.
pub open spec fn outcome<C>(state: Resolution<C>) -> Option<C> {
    match state {
        Resolution::Resolved(c) => Some(c),
        _ => None,
    }
}

/// The state after one resolution: `library` is the slot that the registry
/// answered for the owning library, `found` what looking the symbol up gave.
/// A binding that has left `Unresolved` keeps its state.
pub open spec fn state_after<C>(
    state: Resolution<C>,
    library: Option<nat>,
    found: Option<C>,
) -> Resolution<C> {
    match state {
        Resolution::Unresolved => match (library, found) {
            (Some(_), Some(c)) => Resolution::Resolved(c),
            _ => Resolution::Unavailable,
        },
        _ => state,
    }
}

/// One call of `resolve` on a binding and a registry, where `loaded` is what
/// loading the owning library would give and `found` what looking the symbol
/// up would give. A settled binding changes nothing.
pub open spec fn resolve_step<C, H>(
    b: BindingView<C>,
    reg: RegistryView<H>,
    loaded: Option<H>,
    found: Option<C>,
) -> (BindingView<C>, RegistryView<H>) {
    match b.state {
        Resolution::Unresolved => (
            BindingView {
                library: b.library,
                symbol: b.symbol,
                state: state_after(b.state, reg.answer(b.library, loaded), found),
            },
            reg.after_request(b.library, loaded),
        ),
        _ => (b, reg),
    }
}

/// A run of `resolve` calls, the i-th meeting the environment `envs[i]`
/// (what a library load and a symbol lookup would give at that moment).
pub open spec fn resolve_run<C, H>(
    b: BindingView<C>,
    reg: RegistryView<H>,
    envs: Seq<(Option<H>, Option<C>)>,
) -> (BindingView<C>, RegistryView<H>)
    decreases envs.len(),
{
    if envs.len() == 0 {
        (b, reg)
    } else {
        let before = resolve_run(b, reg, envs.drop_last());
        resolve_step(before.0, before.1, envs.last().0, envs.last().1)
    }
}

/// What the i-th call of a run hands out.
pub open spec fn run_result<C, H>(
    b: BindingView<C>,
    reg: RegistryView<H>,
    envs: Seq<(Option<H>, Option<C>)>,
    i: int,
) -> Option<C> {
    outcome(resolve_run(b, reg, envs.take(i + 1)).0.state)
}

proof fn lemma_run_settles<C, H>(
    b: BindingView<C>,
    reg: RegistryView<H>,
    envs: Seq<(Option<H>, Option<C>)>,
)
    requires
        envs.len() > 0,
    ensures
        resolve_run(b, reg, envs) == resolve_step(b, reg, envs[0].0, envs[0].1),
    decreases envs.len(),
{
    if envs.len() > 1 {
        lemma_run_settles(b, reg, envs.drop_last());
        assert(envs.drop_last()[0] == envs[0]);
        let w = resolve_step(b, reg, envs[0].0, envs[0].1);
        assert(!(w.0.state is Unresolved));
        assert(resolve_step(w.0, w.1, envs.last().0, envs.last().1) == w);
    } else {
        assert(envs.drop_last() =~= Seq::<(Option<H>, Option<C>)>::empty());
        assert(resolve_run(b, reg, envs.drop_last()) == (b, reg));
        assert(envs.last() == envs[0]);
    }
}

/// Resolution is idempotent: whatever the environment does between calls,
/// every call of a run hands out what the first one did, and after the first
/// call neither the binding nor the registry changes.
pub proof fn lemma_resolve_idempotent<C, H>(
    b: BindingView<C>,
    reg: RegistryView<H>,
    envs: Seq<(Option<H>, Option<C>)>,
)
    requires
        envs.len() > 0,
    ensures
        resolve_run(b, reg, envs) == resolve_run(b, reg, envs.take(1)),
        forall|i: int| 0 <= i < envs.len() ==> #[trigger] run_result(b, reg, envs, i) == run_result(b, reg, envs, 0),
{
    lemma_run_settles(b, reg, envs);
    lemma_run_settles(b, reg, envs.take(1));
    assert(envs.take(1)[0] == envs[0]);
    assert forall|i: int| 0 <= i < envs.len() implies #[trigger] run_result(b, reg, envs, i) == run_result(b, reg, envs, 0) by {
        lemma_run_settles(b, reg, envs.take(i + 1));
        assert(envs.take(i + 1)[0] == envs[0]);
    }
}

/// A binding whose library fails to load (it failed before, or the first
/// load attempt fails) hands out `None` on every call of a run, and the
/// library is attempted at most once: the registry's log of load attempts
/// grows by that one attempt, or not at all.
pub proof fn lemma_failed_library_stays_unavailable<C, H>(
    b: BindingView<C>,
    reg: RegistryView<H>,
    envs: Seq<(Option<H>, Option<C>)>,
)
    requires
        reg.wf(),
        b.state is Unresolved,
        envs.len() > 0,
        reg.entries.contains_key(b.library) ==> reg.entries[b.library] is None,
        !reg.entries.contains_key(b.library) ==> envs[0].0 is None,
    ensures
        forall|i: int| 0 <= i < envs.len() ==> #[trigger] run_result(b, reg, envs, i) is None,
        resolve_run(b, reg, envs).1.wf(),
        reg.entries.contains_key(b.library) ==> resolve_run(b, reg, envs).1 == reg,
        !reg.entries.contains_key(b.library) ==> resolve_run(b, reg, envs).1.loads == reg.loads.push(
            b.library,
        ),
{
    lemma_resolve_idempotent(b, reg, envs);
    lemma_run_settles(b, reg, envs);
    lemma_run_settles(b, reg, envs.take(1));
    assert(envs.take(1)[0] == envs[0]);
    lemma_after_request_wf(reg, b.library, envs[0].0);
    assert(run_result(b, reg, envs, 0) is None);
}

/// A lazily resolved entry point `symbol` of the library `library`. The
/// first `resolve` asks the registry for the library and, when it is loaded,
/// looks the symbol up; the outcome, present or absent, is kept and handed
/// out by every later call without a second attempt.
pub struct SymbolBinding<C> {
    library: String,
    symbol: String,
    state: Resolution<C>,
}

impl<C> View for SymbolBinding<C> {
    type V = BindingView<C>;

    closed spec fn view(&self) -> BindingView<C> {
        BindingView { library: self.library@, symbol: self.symbol@, state: self.state }
    }
}

impl<C: Copy> SymbolBinding<C> {
    /// An unresolved binding of `symbol` in `library`.
    pub fn new(library: &str, symbol: &str) -> (r: Self)
        ensures
            r@.library == library@,
            r@.symbol == symbol@,
            r@.state == Resolution::<C>::Unresolved,
    {
        SymbolBinding {
            library: library.to_owned(),
            symbol: symbol.to_owned(),
            state: Resolution::Unresolved,
        }
    }

    /// The name of the owning library.
    pub fn library(&self) -> (r: &str)
        ensures
            r@ == self@.library,
    {
        self.library.as_str()
    }

    /// The name of the entry point.
    pub fn symbol(&self) -> (r: &str)
        ensures
            r@ == self@.symbol,
    {
        self.symbol.as_str()
    }

    /// Whether the binding has been resolved, to an entry point or to absence.
    pub fn is_settled(&self) -> (r: bool)
        ensures
            r == !(self@.state is Unresolved),
    {
        match self.state {
            Resolution::Unresolved => false,
            _ => true,
        }
    }

    /// The entry point, resolved on the first call. The owning library is
    /// obtained from `registry` (loaded with `load` if it never was), and
    /// the symbol looked up in it with `lookup`. A library that failed to
    /// load and a symbol that is missing both leave the binding
    /// `Unavailable`. Once settled, the binding answers from its state and
    /// touches neither the registry nor `lookup`.
    pub fn resolve<H, L, K>(&mut self, registry: &mut LibraryRegistry<H>, load: L, lookup: K) -> (r:
        Option<C>) where
            L: FnOnce(&str) -> Option<H>,
            K: FnOnce(&H, &str) -> Option<C>,

        requires
            old(registry).wf(),
            forall|s: &str| load.requires((s,)),
            forall|h: &H, s: &str| lookup.requires((h, s)),
        ensures
            final(registry).wf(),
            final(self)@.library == old(self)@.library,
            final(self)@.symbol == old(self)@.symbol,
            r == outcome(final(self)@.state),
            exists|loaded: Option<H>, found: Option<C>|
                (final(self)@, final(registry)@) == resolve_step(
                    old(self)@,
                    old(registry)@,
                    loaded,
                    found,
                ),
            !(old(self)@.state is Unresolved) ==> {
                &&& *final(self) == *old(self)
                &&& *final(registry) == *old(registry)
            },
            old(self)@.state is Unresolved ==> exists|loaded: Option<H>, found: Option<C>|
                {
                    &&& final(registry)@ == old(registry)@.after_request(old(self)@.library, loaded)
                    &&& final(self)@.state == state_after(
                        old(self)@.state,
                        old(registry)@.answer(old(self)@.library, loaded),
                        found,
                    )
                    &&& !old(registry)@.entries.contains_key(old(self)@.library) ==> exists|s: &str|
                        s@ == old(self)@.library && #[trigger] load.ensures((s,), loaded)
                    &&& old(registry)@.answer(old(self)@.library, loaded) matches Some(slot) ==> exists|
                        s: &str,
                    |
                        s@ == old(self)@.symbol && #[trigger] lookup.ensures(
                            (&final(registry)@.handles[slot as int], s),
                            found,
                        )
                },
    {
        match self.state {
            Resolution::Resolved(c) => {
                assert((self@, registry@) == resolve_step(self@, registry@, None::<H>, None::<C>));
                Some(c)
            },
            Resolution::Unavailable => {
                assert((self@, registry@) == resolve_step(self@, registry@, None::<H>, None::<C>));
                None
            },
            Resolution::Unresolved => {
                let name = self.library.as_str();
                let slot = registry.get_or_load(name, load);
                proof {
                    if old(registry)@.entries.contains_key(old(self)@.library) {
                        assert(registry@ == old(registry)@.after_request(old(self)@.library, None::<H>));
                    }
                }
                let ghost loaded: Option<H> = choose|loaded: Option<H>|
                    {
                        &&& registry@ == old(registry)@.after_request(old(self)@.library, loaded)
                        &&& slot_view(slot) == old(registry)@.answer(old(self)@.library, loaded)
                        &&& !old(registry)@.entries.contains_key(old(self)@.library) ==> load.ensures(
                            (name,),
                            loaded,
                        )
                    };
                let sym = self.symbol.as_str();
                let found = match slot {
                    Some(i) => {
                        let h = registry.handle(i);
                        let f = lookup(h, sym);
                        assert(lookup.ensures((&registry@.handles[i as int], sym), f));
                        f
                    },
                    None => None,
                };
                self.state = match found {
                    Some(c) => Resolution::Resolved(c),
                    None => Resolution::Unavailable,
                };
                proof {
                    assert((self@, registry@) == resolve_step(old(self)@, old(registry)@, loaded, found));
                    if !old(registry)@.entries.contains_key(old(self)@.library) {
                        assert(exists|s: &str| s@ == old(self)@.library && #[trigger] load.ensures((s,), loaded));
                    }
                    if let Some(slot) = old(registry)@.answer(old(self)@.library, loaded) {
                        assert(sym@ == old(self)@.symbol);
                        assert(lookup.ensures((&registry@.handles[slot as int], sym), found));
                    }
                }
                found
            },
        }
    }
}

impl<C: Copy> SymbolBinding<C> {
    /// `resolve` against the operating system's module loader: the owning
    /// library is loaded through it, at most once for the registry, and the
    /// symbol looked up with `lookup`.
    pub fn resolve_system<K>(
        &mut self,
        registry: &mut LibraryRegistry<libloading::Library>,
        lookup: K,
    ) -> (r: Option<C>) where K: FnOnce(&libloading::Library, &str) -> Option<C>
        requires
            old(registry).wf(),
            forall|h: &libloading::Library, s: &str| lookup.requires((h, s)),
        ensures
            final(registry).wf(),
            final(self)@.library == old(self)@.library,
            final(self)@.symbol == old(self)@.symbol,
            r == outcome(final(self)@.state),
            exists|loaded: Option<libloading::Library>, found: Option<C>|
                (final(self)@, final(registry)@) == resolve_step(
                    old(self)@,
                    old(registry)@,
                    loaded,
                    found,
                ),
            !(old(self)@.state is Unresolved) ==> {
                &&& *final(self) == *old(self)
                &&& *final(registry) == *old(registry)
            },
            old(self)@.state is Unresolved ==> exists|
                loaded: Option<libloading::Library>,
                found: Option<C>,
            |
                {
                    &&& final(registry)@ == old(registry)@.after_request(old(self)@.library, loaded)
                    &&& final(self)@.state == state_after(
                        old(self)@.state,
                        old(registry)@.answer(old(self)@.library, loaded),
                        found,
                    )
                    &&& old(registry)@.answer(old(self)@.library, loaded) matches Some(slot) ==> exists|
                        s: &str,
                    |
                        s@ == old(self)@.symbol && #[trigger] lookup.ensures(
                            (&final(registry)@.handles[slot as int], s),
                            found,
                        )
                },
    {
        self.resolve(registry, open_library, lookup)
    }
}

} // verus!
