//! The instances of a flow by name.
//!
//! An instance is known by two handles that the runtime gave out when it
//! spawned the instance: the first stands for the instance's URL, the second
//! for its address.
use hashbrown::HashMap;
use vstd::prelude::*;

verus! {

/// The handles of each instance under the text of its name.
pub type Instances = Map<Seq<char>, (u64, u64)>;

/// The instances that have been spawned, by name.
#[verifier::external_body]
#[derive(Debug)]
pub struct Registry {
    map: HashMap<String, (u64, u64)>,
}

/// What the hash map inside `registry` holds: the handles of each instance
/// under the text of the instance's name.
pub uninterp spec fn registry_entries(registry: Registry) -> Instances;

impl View for Registry {
    type V = Instances;

    open spec fn view(&self) -> Instances {
        registry_entries(*self)
    }
}

/// `values` lists the value of every key of `entries` once, in some order.
pub open spec fn lists_values(entries: Instances, values: Seq<(u64, u64)>) -> bool {
    exists|keys: Seq<Seq<char>>| lists_values_of(entries, keys, values)
}

/// `keys` lists every key of `entries` once, in some order.
pub open spec fn lists_keys(entries: Instances, keys: Seq<Seq<char>>) -> bool {
    keys.no_duplicates() && keys.to_set() == entries.dom()
}

/// `keys` holds every key of `entries` once, and `values` the values in the
/// order of `keys`.
pub open spec fn lists_values_of(
    entries: Instances,
    keys: Seq<Seq<char>>,
    values: Seq<(u64, u64)>,
) -> bool {
    &&& lists_keys(entries, keys)
    &&& values == keys.map_values(|key: Seq<char>| entries[key])
}

impl Registry {
    /// Calls `hashbrown::HashMap::new`, which makes an empty map.
    #[verifier::external_body]
    pub(crate) fn new() -> (registry: Registry)
        ensures
            registry_entries(registry) == Instances::empty(),
    {
        Registry { map: HashMap::new() }
    }

    /// Calls `hashbrown::HashMap::insert`, which puts `instance` under `name`
    /// and hands back what stood under that name before, if anything did. No
    /// other name is touched.
    #[verifier::external_body]
    pub(crate) fn insert(&mut self, name: String, instance: (u64, u64)) -> (previous: Option<
        (u64, u64),
    >)
        ensures
            registry_entries(*final(self)) == registry_entries(*old(self)).insert(name@, instance),
            previous == (if registry_entries(*old(self)).contains_key(name@) {
                Some(registry_entries(*old(self))[name@])
            } else {
                None
            }),
    {
        self.map.insert(name, instance)
    }

    /// Calls `hashbrown::HashMap::get`, which finds what stands under `name`.
    #[verifier::external_body]
    pub(crate) fn get(&self, name: &str) -> (instance: Option<(u64, u64)>)
        ensures
            instance == (if registry_entries(*self).contains_key(name@) {
                Some(registry_entries(*self)[name@])
            } else {
                None
            }),
    {
        self.map.get(name).copied()
    }

    /// Calls `hashbrown::HashMap::values`, which visits the value of each key
    /// once, in an order that is not fixed.
    #[verifier::external_body]
    pub(crate) fn values(&self) -> (instances: Vec<(u64, u64)>)
        ensures
            lists_values(registry_entries(*self), instances@),
    {
        self.map.values().copied().collect()
    }

    /// Calls `hashbrown::HashMap::keys`, which visits each key once, in an
    /// order that is not fixed.
    #[verifier::external_body]
    pub(crate) fn keys(&self) -> (names: Vec<String>)
        ensures
            lists_keys(registry_entries(*self), names@.map_values(|name: String| name@)),
    {
        self.map.keys().cloned().collect()
    }
}

impl Registry {
    /// A registry without any instance.
    pub fn empty() -> (registry: Registry)
        ensures
            registry@ == Instances::empty(),
    {
        Registry::new()
    }

    /// Puts `instance` under `name`, in place of what stood there before.
    pub fn register(&mut self, name: String, instance: (u64, u64))
        ensures
            final(self)@ == old(self)@.insert(name@, instance),
    {
        self.insert(name, instance);
    }
}

/// The second half of a pair.
pub fn second<T1, T2>(t: &(T1, T2)) -> (half: &T2)
    ensures
        *half == t.1,
{
    &t.1
}

} // verus!
