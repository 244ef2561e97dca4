//! Task dispatch for a single exclusive execution context.
//!
//! Many producer threads submit units of work that must run inside a runtime
//! environment only one thread may touch at a time (an embedded Python
//! interpreter behind its global lock). The library provides the verified
//! core of that protocol: the boundary value model ([`python_pool::values`]),
//! the FIFO task queue and the worker's drain discipline
//! ([`python_pool::pool`]), and a registry of named callbacks (this module).
//! The unverifiable shell — threads, the mutex around the shared queue, and
//! the interpreter itself — lives with the embedding application, which calls
//! into the verified functions for every decision it takes.

use vstd::prelude::*;

pub mod python_pool;

verus! {

/// A registry of named callbacks: a mapping from a string name to a
/// zero-argument side-effecting callable, populated at startup.
///
/// The callable type `C` is opaque to the registry; the embedding
/// application instantiates it with its own closure type. The registry
/// behaves as a map: registering a name that is already present replaces
/// its callback.
pub struct CallbackRegistry<C> {
    entries: Vec<(String, C)>,
}

/// The map denoted by an association list, later entries winning.
pub closed spec fn entries_map<C>(s: Seq<(String, C)>) -> Map<Seq<char>, C>
    decreases s.len(),
{
    if s.len() == 0 {
        Map::empty()
    } else {
        entries_map(s.drop_last()).insert(s.last().0@, s.last().1)
    }
}

impl<C> View for CallbackRegistry<C> {
    type V = Map<Seq<char>, C>;

    closed spec fn view(&self) -> Map<Seq<char>, C> {
        entries_map(self.entries@)
    }
}

impl<C> CallbackRegistry<C> {
    /// No two entries share a name, so replacing the callback at the one
    /// index holding a name is exactly a map insertion.
    pub closed spec fn wf(&self) -> bool {
        forall|i: int, j: int|
            0 <= i < j < self.entries@.len() ==> self.entries@[i].0@ != self.entries@[j].0@
    }

    /// Creates an empty registry.
    pub fn new() -> (r: Self)
        ensures
            r.wf(),
            r@ == Map::<Seq<char>, C>::empty(),
    {
        let r = CallbackRegistry { entries: Vec::new() };
        proof {
            assert(r.entries@.len() == 0);
        }
        r
    }
}

/// Replacing the value at the one index holding a key is a map insertion,
/// provided no other index holds that key.
proof fn lemma_entries_map_update<C>(s: Seq<(String, C)>, i: int, callback: C)
    requires
        0 <= i < s.len(),
        forall|p: int, q: int| 0 <= p < q < s.len() ==> s[p].0@ != s[q].0@,
    ensures
        entries_map(s.update(i, (s[i].0, callback))) == entries_map(s).insert(s[i].0@, callback),
    decreases s.len(),
{
    let t = s.update(i, (s[i].0, callback));
    if i == s.len() - 1 {
        assert(t.drop_last() =~= s.drop_last());
        assert(entries_map(t) == entries_map(s.drop_last()).insert(s[i].0@, callback));
        assert(entries_map(s).insert(s[i].0@, callback) =~= entries_map(s.drop_last()).insert(
            s[i].0@,
            callback,
        ));
    } else {
        assert(t.drop_last() =~= s.drop_last().update(i, (s[i].0, callback)));
        assert(s.drop_last()[i] == s[i]);
        lemma_entries_map_update(s.drop_last(), i, callback);
        assert(t.last() == s.last());
        assert(entries_map(t) == entries_map(s.drop_last()).insert(s[i].0@, callback).insert(
            s.last().0@,
            s.last().1,
        ));
        assert(s[i].0@ != s.last().0@);
        assert(entries_map(s.drop_last()).insert(s[i].0@, callback).insert(s.last().0@, s.last().1)
            =~= entries_map(s.drop_last()).insert(s.last().0@, s.last().1).insert(
            s[i].0@,
            callback,
        ));
    }
}

/// The entry at any index is in the map; with keys pairwise distinct, it is
/// the value the map carries for its key.
proof fn lemma_entries_map_index<C>(s: Seq<(String, C)>, i: int)
    requires
        0 <= i < s.len(),
        forall|p: int, q: int| 0 <= p < q < s.len() ==> s[p].0@ != s[q].0@,
    ensures
        entries_map(s).contains_key(s[i].0@),
        entries_map(s)[s[i].0@] == s[i].1,
    decreases s.len(),
{
    if i == s.len() - 1 {
    } else {
        assert(s.drop_last()[i] == s[i]);
        lemma_entries_map_index(s.drop_last(), i);
        assert(s[i].0@ != s.last().0@);
    }
}

/// A key is in the map exactly when some entry holds it.
proof fn lemma_entries_map_domain<C>(s: Seq<(String, C)>, key: Seq<char>)
    ensures
        entries_map(s).contains_key(key) <==> exists|i: int| 0 <= i < s.len() && s[i].0@ == key,
    decreases s.len(),
{
    if s.len() > 0 {
        lemma_entries_map_domain(s.drop_last(), key);
        if entries_map(s).contains_key(key) {
            if s.last().0@ == key {
                assert(s[s.len() - 1].0@ == key);
            } else {
                let i = choose|i: int| 0 <= i < s.drop_last().len() && s.drop_last()[i].0@ == key;
                assert(s[i].0@ == key);
            }
        }
        if exists|i: int| 0 <= i < s.len() && s[i].0@ == key {
            let i = choose|i: int| 0 <= i < s.len() && s[i].0@ == key;
            if i < s.len() - 1 {
                assert(s.drop_last()[i].0@ == key);
            }
        }
    }
}

/// Records `callback` under `name`, replacing whatever callback the name
/// already carried: the registry afterwards denotes the old mapping with
/// `name` bound to `callback`.
///
/// The registry is meant to be populated at startup, before the worker or
/// any producers run; it is an independent naming facility, not consumed by
/// the task queue.
#[verifier::loop_isolation(false)]
pub fn register_callback<C>(registry: &mut CallbackRegistry<C>, name: &str, callback: C)
    requires
        old(registry).wf(),
    ensures
        final(registry).wf(),
        final(registry)@ == old(registry)@.insert(name@, callback),
{
    let ghost original = registry.entries@;
    let key = String::from_str(name);
    let total = registry.entries.len();
    let mut i: usize = 0;
    while i < total
        invariant
            i <= total,
            total == registry.entries@.len(),
            registry.entries@ == original,
            key@ == name@,
            registry.wf(),
            forall|j: int| 0 <= j < i ==> registry.entries@[j].0@ != name@,
        decreases total - i,
    {
        if registry.entries[i].0 == key {
            let entry = registry.entries.remove(i);
            let updated = (entry.0, callback);
            registry.entries.insert(i, updated);
            proof {
                assert(registry.entries@ =~= original.update(
                    i as int,
                    (original[i as int].0, callback),
                ));
                lemma_entries_map_update(original, i as int, callback);
                assert(original[i as int].0@ == name@);
            }
            return ;
        }
        i += 1;
    }
    registry.entries.push((key, callback));
    proof {
        assert(registry.entries@.drop_last() =~= original);
    }
}

/// Finds the callback registered under `name`, or nothing if the name was
/// never registered.
pub fn lookup_callback<'a, C>(registry: &'a CallbackRegistry<C>, name: &str) -> (found: Option<
    &'a C,
>)
    requires
        registry.wf(),
    ensures
        match found {
            Some(callback) => registry@.contains_key(name@) && *callback == registry@[name@],
            None => !registry@.contains_key(name@),
        },
{
    let key = String::from_str(name);
    let total = registry.entries.len();
    let mut i: usize = 0;
    while i < total
        invariant
            i <= total,
            total == registry.entries@.len(),
            key@ == name@,
            registry.wf(),
            forall|j: int| 0 <= j < i ==> registry.entries@[j].0@ != name@,
        decreases total - i,
    {
        if registry.entries[i].0 == key {
            proof {
                lemma_entries_map_index(registry.entries@, i as int);
            }
            return Some(&registry.entries[i].1);
        }
        i += 1;
    }
    proof {
        lemma_entries_map_domain(registry.entries@, name@);
    }
    None
}

} // verus!
