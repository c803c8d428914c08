use vstd::prelude::*;

verus! {

/// An immutable key/value pair.
pub struct Item<K, V> {
    key: K,
    val: V,
}

impl<K, V> Item<K, V> {
    /// The key held by this pair.
    pub closed spec fn key(&self) -> K {
        self.key
    }

    /// The value held by this pair.
    pub closed spec fn val(&self) -> V {
        self.val
    }

    /// Creates a new key/value pair.
    pub fn new(key: K, val: V) -> (r: Self)
        ensures
            r.key() == key,
            r.val() == val,
    {
        Self { key, val }
    }

    /// Gets the key reference.
    pub fn as_key(&self) -> (r: &K)
        ensures
            *r == self.key(),
    {
        &self.key
    }

    /// Gets the value reference.
    pub fn as_val(&self) -> (r: &V)
        ensures
            *r == self.val(),
    {
        &self.val
    }

    /// Unpacks the pair into its raw key and value.
    pub fn into_pair(self) -> (r: (K, V))
        ensures
            r.0 == self.key(),
            r.1 == self.val(),
    {
        (self.key, self.val)
    }
}

} // verus!
