//! The embedding-function registry: a catalog mapping function names to
//! implementations, with last-writer-wins registration.

use vstd::pervasive::VecAdditionalExecFns;
use vstd::prelude::*;
use vstd::string::StringExecFns;

use std::sync::Arc;

use crate::embeddings::EmbeddingFunction;
use crate::error::Error;
use crate::schema::str_eq;

verus! {

/// The map denoted by an association list, later entries overriding earlier
/// ones.
pub open spec fn entries_map<F: EmbeddingFunction>(s: Seq<(String, Arc<F>)>) -> Map<Seq<char>, F>
    decreases s.len(),
{
    if s.len() == 0 {
        Map::empty()
    } else {
        entries_map(s.drop_last()).insert(s.last().0@, *s.last().1)
    }
}

/// No two entries share a name.
pub open spec fn entries_unique<F: EmbeddingFunction>(s: Seq<(String, Arc<F>)>) -> bool {
    forall|i: int, j: int| 0 <= i < j < s.len() ==> (#[trigger] s[i]).0@ != (#[trigger] s[j]).0@
}

/// A name is in the denoted map exactly when some entry carries it.
pub proof fn lemma_entries_map_key<F: EmbeddingFunction>(s: Seq<(String, Arc<F>)>, name: Seq<char>)
    ensures
        entries_map(s).contains_key(name) <==> exists|i: int|
            0 <= i < s.len() && (#[trigger] s[i]).0@ == name,
    decreases s.len(),
{
    if s.len() != 0 {
        lemma_entries_map_key(s.drop_last(), name);
        assert(forall|i: int| 0 <= i < s.len() - 1 ==> s.drop_last()[i] == #[trigger] s[i]);
        if s.last().0@ == name {
            assert(s[s.len() - 1].0@ == name);
        } else {
            if entries_map(s).contains_key(name) {
                let i = choose|i: int|
                    0 <= i < s.drop_last().len() && (#[trigger] s.drop_last()[i]).0@ == name;
                assert(s[i].0@ == name);
            }
            if exists|i: int| 0 <= i < s.len() && (#[trigger] s[i]).0@ == name {
                let i = choose|i: int| 0 <= i < s.len() && (#[trigger] s[i]).0@ == name;
                assert(i < s.len() - 1);
                assert(s.drop_last()[i].0@ == name);
            }
        }
    }
}

/// With unique names, the denoted map sends each entry's name to its value.
pub proof fn lemma_entries_map_get<F: EmbeddingFunction>(s: Seq<(String, Arc<F>)>, i: int)
    requires
        entries_unique(s),
        0 <= i < s.len(),
    ensures
        entries_map(s).contains_key(s[i].0@),
        entries_map(s)[s[i].0@] == *s[i].1,
    decreases s.len(),
{
    if i < s.len() - 1 {
        assert(entries_unique(s.drop_last()));
        lemma_entries_map_get(s.drop_last(), i);
        assert(s.drop_last()[i] == s[i]);
        assert(s[i].0@ != s.last().0@);
    }
}

/// With unique names, replacing the entry at `i` by one with the same name
/// updates the denoted map at that name alone.
pub proof fn lemma_entries_map_update<F: EmbeddingFunction>(
    s: Seq<(String, Arc<F>)>,
    i: int,
    p: (String, Arc<F>),
)
    requires
        entries_unique(s),
        0 <= i < s.len(),
        p.0@ == s[i].0@,
    ensures
        entries_map(s.update(i, p)) == entries_map(s).insert(p.0@, *p.1),
    decreases s.len(),
{
    if i == s.len() - 1 {
        assert(s.update(i, p).drop_last() =~= s.drop_last());
        assert(s.update(i, p).last() == p);
        assert(entries_map(s.update(i, p)) =~= entries_map(s).insert(p.0@, *p.1));
    } else {
        assert(entries_unique(s.drop_last()));
        assert(s.drop_last()[i] == s[i]);
        lemma_entries_map_update(s.drop_last(), i, p);
        assert(s.update(i, p).drop_last() =~= s.drop_last().update(i, p));
        assert(s.update(i, p).last() == s.last());
        assert(s[i].0@ != s.last().0@);
        assert(entries_map(s.update(i, p)) =~= entries_map(s).insert(p.0@, *p.1));
    }
}

/// Registering a name twice keeps one entry for it, bound to the latest
/// implementation: the overwrite leaves the catalog as if only the second
/// registration had happened, `get` resolves the name to the second
/// implementation, and the set of registered names gains `name` once.
pub proof fn lemma_register_overwrite<F: EmbeddingFunction>(
    reg: Map<Seq<char>, F>,
    name: Seq<char>,
    first: F,
    second: F,
)
    ensures
        reg.insert(name, first).insert(name, second) == reg.insert(name, second),
        reg.insert(name, first).insert(name, second)[name] == second,
        reg.insert(name, first).insert(name, second).dom() == reg.dom().insert(name),
{
    assert(reg.insert(name, first).insert(name, second) =~= reg.insert(name, second));
    assert(reg.insert(name, first).insert(name, second).dom() =~= reg.dom().insert(name));
}

/// Relies on std's `Arc::clone`: the returned handle refers to the same
/// value as the argument.
#[verifier::external_body]
fn arc_clone<T>(a: &Arc<T>) -> (r: Arc<T>)
    ensures
        r == *a,
{
    Arc::clone(a)
}

/// A catalog of embedding functions.
///
/// `spec_functions` is the name-to-function map the registry denotes and
/// `inv` its internal consistency; both are established by the constructors
/// of implementing types and preserved by every method.
pub trait EmbeddingRegistry<F: EmbeddingFunction>: Sized {
    /// The denoted name-to-function map.
    spec fn spec_functions(&self) -> Map<Seq<char>, F>;

    /// Internal consistency.
    spec fn inv(&self) -> bool;

    /// The names of all registered embedding functions, without duplicates.
    fn functions(&self) -> (names: Vec<String>)
        requires
            self.inv(),
        ensures
            names@.map_values(|s: String| s@).no_duplicates(),
            forall|k: Seq<char>|
                #![auto]
                self.spec_functions().contains_key(k) <==> names@.map_values(
                    |s: String| s@,
                ).contains(k),
    ;

    /// Registers `function` under `name`, replacing any earlier binding.
    fn register(&mut self, name: &str, function: Arc<F>) -> (r: Result<(), Error>)
        requires
            old(self).inv(),
        ensures
            final(self).inv(),
            match r {
                Ok(_) => final(self).spec_functions() == old(self).spec_functions().insert(
                    name@,
                    *function,
                ),
                Err(_) => final(self).spec_functions() == old(self).spec_functions(),
            },
    ;

    /// Looks up the function registered under `name`.
    fn get(&self, name: &str) -> (r: Option<Arc<F>>)
        requires
            self.inv(),
        ensures
            match r {
                Some(f) => self.spec_functions().contains_key(name@) && *f
                    == self.spec_functions()[name@],
                None => !self.spec_functions().contains_key(name@),
            },
    ;
}

/// An in-memory [`EmbeddingRegistry`].
pub struct MemoryRegistry<F: EmbeddingFunction> {
    entries: Vec<(String, Arc<F>)>,
}

impl<F: EmbeddingFunction> MemoryRegistry<F> {
    /// Creates an empty registry.
    pub fn new() -> (r: MemoryRegistry<F>)
        ensures
            r.inv(),
            r.spec_functions() == Map::<Seq<char>, F>::empty(),
    {
        MemoryRegistry { entries: Vec::new() }
    }
}

impl<F: EmbeddingFunction> EmbeddingRegistry<F> for MemoryRegistry<F> {
    closed spec fn spec_functions(&self) -> Map<Seq<char>, F> {
        entries_map(self.entries@)
    }

    closed spec fn inv(&self) -> bool {
        entries_unique(self.entries@)
    }

    fn functions(&self) -> (names: Vec<String>) {
        let n = self.entries.len();
        let mut names: Vec<String> = Vec::new();
        let mut i: usize = 0;
        while i < n
            invariant
                n == self.entries@.len(),
                0 <= i <= n,
                names@.len() == i,
                forall|j: int| 0 <= j < i ==> (#[trigger] names@[j])@ == self.entries@[j].0@,
            decreases n - i,
        {
            names.push(self.entries[i].0.clone());
            i = i + 1;
        }
        proof {
            let keys = names@.map_values(|s: String| s@);
            assert forall|k: Seq<char>| #![auto]
                self.spec_functions().contains_key(k) <==> keys.contains(k) by {
                lemma_entries_map_key(self.entries@, k);
                if entries_map(self.entries@).contains_key(k) {
                    let j = choose|j: int|
                        0 <= j < self.entries@.len() && (#[trigger] self.entries@[j]).0@ == k;
                    assert(keys[j] == k);
                }
                if keys.contains(k) {
                    let j = choose|j: int| 0 <= j < keys.len() && keys[j] == k;
                    assert(self.entries@[j].0@ == k);
                }
            }
            assert(keys.no_duplicates()) by {
                assert forall|a: int, b: int|
                    0 <= a < keys.len() && 0 <= b < keys.len() && a != b implies keys[a]
                    != keys[b] by {
                    if a < b {
                        assert(self.entries@[a].0@ != self.entries@[b].0@);
                    } else {
                        assert(self.entries@[b].0@ != self.entries@[a].0@);
                    }
                }
            }
        }
        names
    }

    /// In-memory registration never fails: beyond the trait's contract, the
    /// result is always `Ok`, so the insert is unconditional.
    fn register(&mut self, name: &str, function: Arc<F>) -> (r: Result<(), Error>)
        ensures
            r is Ok,
    {
        let n = self.entries.len();
        let mut i: usize = 0;
        while i < n
            invariant
                n == self.entries@.len(),
                0 <= i <= n,
                entries_unique(self.entries@),
                self.entries@ == old(self).entries@,
                forall|j: int| 0 <= j < i ==> (#[trigger] self.entries@[j]).0@ != name@,
            decreases n - i,
        {
            if str_eq(self.entries[i].0.as_str(), name) {
                let owned = <String as StringExecFns>::from_str(name);
                let pair = (owned, function);
                proof {
                    lemma_entries_map_update(self.entries@, i as int, pair);
                }
                self.entries.set(i, pair);
                proof {
                    assert forall|a: int, b: int|
                        0 <= a < b < self.entries@.len() implies (
                    #[trigger] self.entries@[a]).0@ != (#[trigger] self.entries@[b]).0@ by {
                        assert(old(self).entries@[a].0@ != old(self).entries@[b].0@);
                    }
                }
                return Ok(());
            }
            i = i + 1;
        }
        let owned = <String as StringExecFns>::from_str(name);
        let pair = (owned, function);
        let ghost before = self.entries@;
        self.entries.push(pair);
        proof {
            assert(self.entries@.drop_last() =~= before);
            lemma_entries_map_key(before, name@);
            assert forall|a: int, b: int| 0 <= a < b < self.entries@.len() implies (
            #[trigger] self.entries@[a]).0@ != (#[trigger] self.entries@[b]).0@ by {
                if b < self.entries@.len() - 1 {
                    assert(before[a].0@ != before[b].0@);
                } else {
                    assert(before[a].0@ != name@);
                }
            }
        }
        Ok(())
    }

    fn get(&self, name: &str) -> (r: Option<Arc<F>>) {
        let n = self.entries.len();
        let mut i: usize = 0;
        while i < n
            invariant
                n == self.entries@.len(),
                entries_unique(self.entries@),
                0 <= i <= n,
                forall|j: int| 0 <= j < i ==> (#[trigger] self.entries@[j]).0@ != name@,
            decreases n - i,
        {
            if str_eq(self.entries[i].0.as_str(), name) {
                proof {
                    lemma_entries_map_get(self.entries@, i as int);
                }
                return Some(arc_clone(&self.entries[i].1));
            }
            i = i + 1;
        }
        proof {
            lemma_entries_map_key(self.entries@, name@);
        }
        None
    }
}

} // verus!
