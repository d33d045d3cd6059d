//! The store: a map from key to value, both text.

use vstd::hash_map::StringHashMap;
use vstd::prelude::*;

verus! {

/// The bindings of a store, as a map from key to value.
pub type Bindings = Map<Seq<char>, Seq<char>>;

/// Why a store operation did not succeed.
#[derive(Debug, Clone, Copy, PartialEq, Eq, Structural)]
pub enum KVError {
    /// The key has no binding.
    KeyNotFound,
    /// The store could not be locked.
    LockFailed,
}

pub type KVResult<T> = Result<T, KVError>;

/// An in-memory store of text bound to text. It is owned by whoever mutates
/// it; to share one between sessions, put it behind a lock.
pub struct KVEngine {
    kv: StringHashMap<String>,
}

impl View for KVEngine {
    type V = Bindings;

    closed spec fn view(&self) -> Bindings {
        self.kv@.map_values(|value: String| value@)
    }
}

/// What `get_key_value` answers on a store with bindings `store`.
pub open spec fn lookup(store: Bindings, key: Seq<char>) -> Result<Seq<char>, KVError> {
    if store.contains_key(key) {
        Ok(store[key])
    } else {
        Err(KVError::KeyNotFound)
    }
}

/// A change to the store, as one of its operations makes it.
pub enum Mutation {
    Put { key: Seq<char>, value: Seq<char> },
    Remove { key: Seq<char> },
    Clear,
}

/// The store after one change.
pub open spec fn applied(store: Bindings, mutation: Mutation) -> Bindings {
    match mutation {
        Mutation::Put { key, value } => store.insert(key, value),
        Mutation::Remove { key } => store.remove(key),
        Mutation::Clear => Bindings::empty(),
    }
}

impl KVEngine {
    /// A store holds finitely many bindings.
    #[verifier::type_invariant]
    spec fn bindings_are_finite(&self) -> bool {
        self.kv@.dom().finite()
    }

    /// An empty store.
    pub fn new() -> (engine: Self)
        ensures
            engine@ == Bindings::empty(),
            engine@.dom().finite(),
    {
        KVEngine { kv: StringHashMap::new() }
    }

    /// The number of bindings.
    pub fn len(&self) -> (n: usize)
        ensures
            self@.dom().finite(),
            n == self@.len(),
    {
        proof {
            use_type_invariant(self);
        }
        assert(self@.dom() =~= self.kv@.dom());
        self.kv.len()
    }

    /// Binds `key` to `value`, whether or not it was bound before. The
    /// number of bindings grows by one where the key was not bound.
    pub fn set_key_value(&mut self, key: String, value: String) -> (r: KVResult<()>)
        ensures
            r is Ok,
            final(self)@ == applied(old(self)@, Mutation::Put { key: key@, value: value@ }),
            old(self)@.dom().finite(),
            final(self)@.dom().finite(),
            final(self)@.len() == old(self)@.len() + (if old(self)@.contains_key(key@) {
                0int
            } else {
                1int
            }),
    {
        proof {
            use_type_invariant(&*self);
        }
        assert(self@.dom() =~= self.kv@.dom());
        let mut kv = StringHashMap::new();
        std::mem::swap(&mut self.kv, &mut kv);
        kv.insert(key, value);
        std::mem::swap(&mut self.kv, &mut kv);
        Ok(())
    }

    /// A copy of the value bound to `key`.
    pub fn get_key_value(&self, key: &str) -> (r: KVResult<String>)
        ensures
            self@.dom().finite(),
            match r {
                Ok(value) => lookup(self@, key@) == Ok::<Seq<char>, KVError>(value@),
                Err(e) => lookup(self@, key@) == Err::<Seq<char>, KVError>(e),
            },
    {
        proof {
            use_type_invariant(self);
        }
        assert(self@.dom() =~= self.kv@.dom());
        match self.kv.get(key) {
            Some(value) => Ok(value.clone()),
            None => Err(KVError::KeyNotFound),
        }
    }

    /// Drops the binding of `key`, if there is one. The number of bindings
    /// falls by one where the key was bound.
    pub fn delete_key_value(&mut self, key: &str) -> (r: KVResult<()>)
        ensures
            old(self)@.contains_key(key@) ==> r is Ok,
            !old(self)@.contains_key(key@) ==> r == Err::<(), KVError>(KVError::KeyNotFound),
            final(self)@ == applied(old(self)@, Mutation::Remove { key: key@ }),
            old(self)@.dom().finite(),
            final(self)@.dom().finite(),
            final(self)@.len() == old(self)@.len() - (if old(self)@.contains_key(key@) {
                1int
            } else {
                0int
            }),
    {
        proof {
            use_type_invariant(&*self);
        }
        assert(self@.dom() =~= self.kv@.dom());
        if !self.kv.contains_key(key) {
            return Err(KVError::KeyNotFound);
        }
        let mut kv = StringHashMap::new();
        std::mem::swap(&mut self.kv, &mut kv);
        kv.remove(key);
        std::mem::swap(&mut self.kv, &mut kv);
        Ok(())
    }

    /// Drops every binding.
    pub fn clear_all(&mut self) -> (r: KVResult<()>)
        ensures
            r is Ok,
            final(self)@ == applied(old(self)@, Mutation::Clear),
            old(self)@.dom().finite(),
            final(self)@.dom().finite(),
            final(self)@.len() == 0,
    {
        proof {
            use_type_invariant(&*self);
        }
        assert(self@.dom() =~= self.kv@.dom());
        let mut kv = StringHashMap::new();
        std::mem::swap(&mut self.kv, &mut kv);
        kv.clear();
        std::mem::swap(&mut self.kv, &mut kv);
        Ok(())
    }
}

/// A key that was set is found, with the value it was set to.
pub proof fn lemma_get_after_set(store: Bindings, key: Seq<char>, value: Seq<char>)
    ensures
        lookup(applied(store, Mutation::Put { key, value }), key) == Ok::<Seq<char>, KVError>(
            value,
        ),
{
}

/// A key that was set twice is found with the second value.
pub proof fn lemma_get_after_overwrite(
    store: Bindings,
    key: Seq<char>,
    first: Seq<char>,
    second: Seq<char>,
)
    ensures
        lookup(
            applied(
                applied(store, Mutation::Put { key, value: first }),
                Mutation::Put { key, value: second },
            ),
            key,
        ) == Ok::<Seq<char>, KVError>(second),
{
}

/// A key that was set and then deleted is not found.
pub proof fn lemma_get_after_delete(store: Bindings, key: Seq<char>, value: Seq<char>)
    ensures
        lookup(
            applied(applied(store, Mutation::Put { key, value }), Mutation::Remove { key }),
            key,
        ) == Err::<Seq<char>, KVError>(KVError::KeyNotFound),
{
}

/// In a cleared store no key is found, whatever was bound before.
pub proof fn lemma_get_after_clear(store: Bindings, key: Seq<char>)
    ensures
        lookup(applied(store, Mutation::Clear), key) == Err::<Seq<char>, KVError>(
            KVError::KeyNotFound,
        ),
{
}

/// The store after the changes of `history`, each applied as a whole, in
/// their order.
pub open spec fn replayed(store: Bindings, history: Seq<Mutation>) -> Bindings
    decreases history.len(),
{
    if history.len() == 0 {
        store
    } else {
        applied(replayed(store, history.drop_last()), history.last())
    }
}

/// Whatever changes the sessions made and in whatever order they took
/// effect, a value found under a key was set under that key, or was there
/// from the start.
pub proof fn lemma_found_values_were_set(
    store: Bindings,
    history: Seq<Mutation>,
    key: Seq<char>,
    value: Seq<char>,
)
    requires
        lookup(replayed(store, history), key) == Ok::<Seq<char>, KVError>(value),
    ensures
        lookup(store, key) == Ok::<Seq<char>, KVError>(value) || exists|i: int|
            0 <= i < history.len() && history[i] == (Mutation::Put { key, value }),
    decreases history.len(),
{
    if history.len() > 0 && history.last() != (Mutation::Put { key, value }) {
        lemma_found_values_were_set(store, history.drop_last(), key, value);
    }
}

/// Whether `history` is made of sets alone, no two of them of one key.
pub open spec fn sets_of_distinct_keys(history: Seq<Mutation>) -> bool {
    &&& forall|i: int| 0 <= i < history.len() ==> (#[trigger] history[i]) is Put
    &&& forall|i: int, j: int|
        0 <= i < j < history.len() ==> (#[trigger] history[i])->Put_key != (
        #[trigger] history[j])->Put_key
}

/// Sets of distinct keys on an empty store, in whatever order they take
/// effect, leave exactly as many bindings as there were sets, and each key is
/// found with the value it was set to: no set is lost and none counts twice.
pub proof fn lemma_distinct_sets_are_all_kept(history: Seq<Mutation>)
    requires
        sets_of_distinct_keys(history),
    ensures
        replayed(Bindings::empty(), history).dom().finite(),
        replayed(Bindings::empty(), history).len() == history.len(),
        forall|i: int|
            0 <= i < history.len() ==> lookup(
                replayed(Bindings::empty(), history),
                (#[trigger] history[i])->Put_key,
            ) == Ok::<Seq<char>, KVError>(history[i]->Put_value),
        forall|key: Seq<char>| #[trigger]
            replayed(Bindings::empty(), history).contains_key(key) ==> exists|i: int|
                0 <= i < history.len() && (#[trigger] history[i])->Put_key == key,
    decreases history.len(),
{
    if history.len() > 0 {
        let earlier = history.drop_last();
        let last = history.last();
        let before = replayed(Bindings::empty(), earlier);
        assert(sets_of_distinct_keys(earlier)) by {
            assert(forall|i: int| 0 <= i < earlier.len() ==> (#[trigger] earlier[i]) is Put);
            assert(forall|i: int, j: int|
                0 <= i < j < earlier.len() ==> (#[trigger] earlier[i])->Put_key != (
                #[trigger] earlier[j])->Put_key);
        }
        lemma_distinct_sets_are_all_kept(earlier);
        assert(!before.contains_key(last->Put_key));
        assert forall|i: int| 0 <= i < history.len() implies lookup(
            replayed(Bindings::empty(), history),
            (#[trigger] history[i])->Put_key,
        ) == Ok::<Seq<char>, KVError>(history[i]->Put_value) by {
            if i < earlier.len() {
                assert(earlier[i] == history[i]);
            }
        }
    }
}

} // verus!
