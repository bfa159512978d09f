//! The registry of loaded libraries: one load attempt per library name.
use vstd::prelude::*;

verus! {

/// One library that was asked for, and where its loaded module is kept
/// (`None` when loading it failed).
pub struct RegistryEntry {
    pub name: String,
    pub handle: Option<usize>,
}

/// What a registry holds, as mathematical values.
pub struct RegistryView<H> {
    /// Outcome of the one load attempt made for each library name.
    pub entries: Map<Seq<char>, Option<nat>>,
    /// The loaded modules, by slot.
    pub handles: Seq<H>,
    /// The library names whose load was attempted, in order.
    pub loads: Seq<Seq<char>>,
}

impl<H> RegistryView<H> {
    /// Every load outcome names a held module, and each name was loaded once.
    pub open spec fn wf(self) -> bool {
        &&& self.loads.no_duplicates()
        &&& forall|n: Seq<char>| #[trigger] self.entries.contains_key(n) <==> self.loads.contains(n)
        &&& forall|n: Seq<char>|
            #[trigger] self.entries.contains_key(n) && self.entries[n] is Some
                ==> self.entries[n]->Some_0 < self.handles.len()
    }

    /// The registry after a request for `name`, where `loaded` is what a load
    /// attempt would report; a name already known is answered from the cache.
    pub open spec fn after_request(self, name: Seq<char>, loaded: Option<H>) -> RegistryView<H> {
        if self.entries.contains_key(name) {
            self
        } else {
            match loaded {
                Some(h) => RegistryView {
                    entries: self.entries.insert(name, Some(self.handles.len())),
                    handles: self.handles.push(h),
                    loads: self.loads.push(name),
                },
                None => RegistryView {
                    entries: self.entries.insert(name, None),
                    handles: self.handles,
                    loads: self.loads.push(name),
                },
            }
        }
    }

    /// The answer to a request for `name`, where `loaded` is what a load
    /// attempt would report.
    pub open spec fn answer(self, name: Seq<char>, loaded: Option<H>) -> Option<nat> {
        if self.entries.contains_key(name) {
            self.entries[name]
        } else {
            match loaded {
                Some(_) => Some(self.handles.len()),
                None => None,
            }
        }
    }
}

/// The registry after a run of requests for `name`, the i-th of which a
/// load attempt would have answered with `outcomes[i]`.
pub open spec fn after_requests<H>(
    v: RegistryView<H>,
    name: Seq<char>,
    outcomes: Seq<Option<H>>,
) -> RegistryView<H>
    decreases outcomes.len(),
{
    if outcomes.len() == 0 {
        v
    } else {
        after_requests(v, name, outcomes.drop_last()).after_request(name, outcomes.last())
    }
}

/// A request keeps the registry well formed.
pub proof fn lemma_after_request_wf<H>(v: RegistryView<H>, name: Seq<char>, loaded: Option<H>)
    requires
        v.wf(),
    ensures
        v.after_request(name, loaded).wf(),
        v.after_request(name, loaded).entries.contains_key(name),
{
    let w = v.after_request(name, loaded);
    if !v.entries.contains_key(name) {
        assert(!v.loads.contains(name));
        assert forall|n: Seq<char>| #[trigger] w.entries.contains_key(n) <==> w.loads.contains(n) by {
            if n != name {
                if w.loads.contains(n) {
                    let i = choose|i: int| 0 <= i < w.loads.len() && w.loads[i] == n;
                    assert(v.loads[i] == n);
                }
                if v.loads.contains(n) {
                    let i = choose|i: int| 0 <= i < v.loads.len() && v.loads[i] == n;
                    assert(w.loads[i] == n);
                }
            } else {
                assert(w.loads[w.loads.len() - 1] == n);
            }
        }
    }
}

proof fn lemma_after_requests_settle<H>(v: RegistryView<H>, name: Seq<char>, outcomes: Seq<Option<H>>)
    requires
        v.wf(),
        outcomes.len() > 0,
    ensures
        after_requests(v, name, outcomes) == v.after_request(name, outcomes[0]),
    decreases outcomes.len(),
{
    if outcomes.len() > 1 {
        lemma_after_requests_settle(v, name, outcomes.drop_last());
        assert(outcomes.drop_last()[0] == outcomes[0]);
        lemma_after_request_wf(v, name, outcomes[0]);
        let w = v.after_request(name, outcomes[0]);
        assert(w.entries.contains_key(name));
        assert(w.after_request(name, outcomes.last()) == w);
    } else {
        assert(outcomes.drop_last() =~= Seq::<Option<H>>::empty());
        assert(after_requests(v, name, outcomes.drop_last()) == v);
        assert(outcomes.last() == outcomes[0]);
    }
}

/// Single flight: however many callers ask the registry for one library, and
/// whatever a load attempt would have reported to each of them, the library
/// is loaded at most once (exactly once when it was not known before) and
/// every caller gets the same answer as the first.
pub proof fn lemma_single_flight<H>(v: RegistryView<H>, name: Seq<char>, outcomes: Seq<Option<H>>)
    requires
        v.wf(),
        outcomes.len() > 0,
    ensures
        after_requests(v, name, outcomes).wf(),
        v.entries.contains_key(name) ==> after_requests(v, name, outcomes) == v,
        !v.entries.contains_key(name) ==> after_requests(v, name, outcomes).loads == v.loads.push(
            name,
        ),
        forall|i: int|
            0 <= i < outcomes.len() ==> (#[trigger] after_requests(v, name, outcomes.take(i))).answer(
                name,
                outcomes[i],
            ) == v.answer(name, outcomes[0]),
{
    lemma_after_requests_settle(v, name, outcomes);
    lemma_after_request_wf(v, name, outcomes[0]);
    assert forall|i: int| 0 <= i < outcomes.len() implies (#[trigger] after_requests(
        v,
        name,
        outcomes.take(i),
    )).answer(name, outcomes[i]) == v.answer(name, outcomes[0]) by {
        if i == 0 {
            assert(outcomes.take(0) =~= Seq::<Option<H>>::empty());
        } else {
            lemma_after_requests_settle(v, name, outcomes.take(i));
            assert(outcomes.take(i)[0] == outcomes[0]);
        }
    }
}

/// A module slot as a mathematical value.
pub open spec fn slot_view(o: Option<usize>) -> Option<nat> {
    match o {
        Some(i) => Some(i as nat),
        None => None,
    }
}

/// The names of a sequence of entries.
pub open spec fn entry_names(s: Seq<RegistryEntry>) -> Seq<Seq<char>> {
    s.map_values(|e: RegistryEntry| e.name@)
}

/// The load outcome of each name, the first entry of a name winning.
pub open spec fn entry_map(s: Seq<RegistryEntry>) -> Map<Seq<char>, Option<nat>>
    decreases s.len(),
{
    if s.len() == 0 {
        Map::empty()
    } else {
        entry_map(s.drop_last()).insert(s.last().name@, slot_view(s.last().handle))
    }
}

/// A registry of dynamic libraries keyed by name. Each name is loaded at
/// most once; the outcome, success or failure, is kept for the life of the
/// registry and every later request is answered from it.
pub struct LibraryRegistry<H> {
    entries: Vec<RegistryEntry>,
    handles: Vec<H>,
}

impl<H> View for LibraryRegistry<H> {
    type V = RegistryView<H>;

    closed spec fn view(&self) -> RegistryView<H> {
        RegistryView {
            entries: entry_map(self.entries@),
            handles: self.handles@,
            loads: entry_names(self.entries@),
        }
    }
}

proof fn lemma_entry_map_keys(s: Seq<RegistryEntry>, n: Seq<char>)
    ensures
        entry_map(s).contains_key(n) <==> entry_names(s).contains(n),
    decreases s.len(),
{
    if s.len() > 0 {
        lemma_entry_map_keys(s.drop_last(), n);
        assert(entry_names(s.drop_last()) =~= entry_names(s).drop_last());
        if entry_names(s).contains(n) && n != s.last().name@ {
            let i = choose|i: int| 0 <= i < entry_names(s).len() && entry_names(s)[i] == n;
            assert(entry_names(s.drop_last())[i] == n);
        }
        if n == s.last().name@ {
            assert(entry_names(s)[s.len() - 1] == n);
        }
    }
}

proof fn lemma_entry_map_at(s: Seq<RegistryEntry>, i: int)
    requires
        0 <= i < s.len(),
        entry_names(s).no_duplicates(),
    ensures
        entry_map(s).contains_key(s[i].name@),
        entry_map(s)[s[i].name@] == slot_view(s[i].handle),
    decreases s.len(),
{
    if i < s.len() - 1 {
        let t = s.drop_last();
        assert(entry_names(t) =~= entry_names(s).drop_last());
        assert(entry_names(s)[i] == s[i].name@);
        assert(entry_names(s)[s.len() - 1] == s.last().name@);
        lemma_entry_map_at(t, i);
        assert(t[i] == s[i]);
    }
}

impl<H> LibraryRegistry<H> {
    /// The registry invariant: names are unique and every kept outcome
    /// points at a held module.
    pub open spec fn wf(&self) -> bool {
        self.inv() && self@.wf()
    }

    pub closed spec fn inv(&self) -> bool {
        &&& entry_names(self.entries@).no_duplicates()
        &&& forall|i: int|
            0 <= i < self.entries@.len() && (#[trigger] self.entries@[i]).handle is Some
                ==> self.entries@[i].handle->Some_0 < self.handles@.len()
    }

    proof fn lemma_wf_view(&self)
        requires
            self.inv(),
        ensures
            self@.wf(),
    {
        assert forall|n: Seq<char>| #[trigger] self@.entries.contains_key(n) <==> self@.loads.contains(n) by {
            lemma_entry_map_keys(self.entries@, n);
        }
        assert forall|n: Seq<char>|
            #[trigger] self@.entries.contains_key(n) && self@.entries[n] is Some
                implies self@.entries[n]->Some_0 < self@.handles.len() by {
            lemma_entry_map_keys(self.entries@, n);
            let i = choose|i: int| 0 <= i < self@.loads.len() && self@.loads[i] == n;
            lemma_entry_map_at(self.entries@, i);
        }
    }

    /// An empty registry: nothing loaded, nothing attempted.
    pub fn new() -> (r: Self)
        ensures
            r.wf(),
            r@.entries == Map::<Seq<char>, Option<nat>>::empty(),
            r@.handles == Seq::<H>::empty(),
            r@.loads == Seq::<Seq<char>>::empty(),
    {
        let r = LibraryRegistry { entries: Vec::new(), handles: Vec::new() };
        assert(r@.entries =~= Map::empty());
        assert(r@.loads =~= Seq::empty());
        r
    }

    /// The number of library names the registry has attempted to load.
    pub fn len(&self) -> (r: usize)
        ensures
            r == self@.loads.len(),
    {
        self.entries.len()
    }

    /// The slot of `name`'s module when the name was requested before:
    /// `None` when it was never requested, `Some(None)` when loading failed.
    pub fn cached(&self, name: &str) -> (r: Option<Option<usize>>)
        requires
            self.wf(),
        ensures
            match r {
                None => !self@.entries.contains_key(name@),
                Some(o) => self@.entries.contains_key(name@) && self@.entries[name@] == slot_view(o),
            },
    {
        let key = name.to_owned();
        let mut i: usize = 0;
        while i < self.entries.len()
            invariant
                self.wf(),
                key@ == name@,
                0 <= i <= self.entries@.len(),
                forall|j: int| 0 <= j < i ==> (#[trigger] self.entries@[j]).name@ != name@,
            decreases self.entries@.len() - i,
        {
            if self.entries[i].name == key {
                proof {
                    lemma_entry_map_at(self.entries@, i as int);
                }
                return Some(self.entries[i].handle);
            }
            i = i + 1;
        }
        proof {
            lemma_entry_map_keys(self.entries@, name@);
            if entry_names(self.entries@).contains(name@) {
                let j = choose|j: int| 0 <= j < self.entries@.len() && entry_names(self.entries@)[j] == name@;
                assert(self.entries@[j].name@ == name@);
            }
        }
        None
    }

    /// The module kept in `slot`.
    pub fn handle(&self, slot: usize) -> (r: &H)
        requires
            slot < self@.handles.len(),
        ensures
            *r == self@.handles[slot as int],
    {
        &self.handles[slot]
    }

    /// The slot of `name`'s module, loading the library with `load` only
    /// when the name was never requested before. A failed load is kept as
    /// such and never retried; a name already known leaves the registry as
    /// it was and `load` uncalled.
    pub fn get_or_load<F>(&mut self, name: &str, load: F) -> (r: Option<usize>)
        where
            F: FnOnce(&str) -> Option<H>,
        requires
            old(self).wf(),
            load.requires((name,)),
        ensures
            final(self).wf(),
            old(self)@.entries.contains_key(name@) ==> {
                &&& *final(self) == *old(self)
                &&& slot_view(r) == old(self)@.entries[name@]
            },
            !old(self)@.entries.contains_key(name@) ==> exists|loaded: Option<H>|
                {
                    &&& load.ensures((name,), loaded)
                    &&& final(self)@ == old(self)@.after_request(name@, loaded)
                    &&& slot_view(r) == old(self)@.answer(name@, loaded)
                },
    {
        match self.cached(name) {
            Some(slot) => slot,
            None => {
                let loaded = load(name);
                let ghost outcome = loaded;
                let ghost before = self.entries@;
                let slot = match loaded {
                    Some(m) => {
                        let id = self.handles.len();
                        self.handles.push(m);
                        Some(id)
                    },
                    None => None,
                };
                let entry = RegistryEntry { name: name.to_owned(), handle: slot };
                self.entries.push(entry);
                proof {
                    lemma_entry_map_keys(before, name@);
                    assert(self.entries@.drop_last() =~= before);
                    assert(entry_names(self.entries@) =~= entry_names(before).push(name@));
                    assert(self@.entries =~= entry_map(before).insert(name@, slot_view(slot)));
                    self.lemma_wf_view();
                    assert(self@ == old(self)@.after_request(name@, outcome));
                }
                slot
            },
        }
    }
}

impl LibraryRegistry<libloading::Library> {
    /// The slot of the library `name`, loaded through the operating system's
    /// module loader at most once for the life of the registry.
    pub fn get_or_open(&mut self, name: &str) -> (r: Option<usize>)
        requires
            old(self).wf(),
        ensures
            final(self).wf(),
            old(self)@.entries.contains_key(name@) ==> {
                &&& *final(self) == *old(self)
                &&& slot_view(r) == old(self)@.entries[name@]
            },
            !old(self)@.entries.contains_key(name@) ==> exists|loaded: Option<libloading::Library>|
                {
                    &&& final(self)@ == old(self)@.after_request(name@, loaded)
                    &&& slot_view(r) == old(self)@.answer(name@, loaded)
                },
    {
        self.get_or_load(name, open_library)
    }
}

/// Relies on `libloading::Library::new`: it searches the system's library
/// path for `name` and yields the loaded module, or an error that is
/// reported here as `None`. What it finds depends on the machine, so
/// nothing is promised of the outcome.
#[verifier::external_body]
pub(crate) fn open_library(name: &str) -> (r: Option<libloading::Library>) {
    libloading::Library::new(name).ok()
}

/// `libloading::Library`, a loaded module, carried through the registry as an
/// opaque value: nothing is assumed of what it holds.
#[verifier::external_type_specification]
#[verifier::external_body]
pub struct ExLibrary(libloading::Library);

} // verus!
