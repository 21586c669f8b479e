use vstd::prelude::*;

verus! {

/// A hash map from test case ids to positions in a slot vector.
///
/// The map lives in a hidden field because hashbrown's `HashMap` carries an
/// allocator parameter whose bound is not public, so the type cannot be declared.
#[verifier::external_body]
pub struct SlotIndex {
    map: hashbrown::HashMap<usize, usize>,
}

/// What a `SlotIndex` holds: each id present, with its slot position.
pub uninterp spec fn slots_of(m: SlotIndex) -> Map<usize, usize>;

impl SlotIndex {
    /// The ids held, each with its slot.
    pub open spec fn view(&self) -> Map<usize, usize> {
        slots_of(*self)
    }

    /// Relies on hashbrown's `HashMap::new`: the map starts empty.
    #[verifier::external_body]
    pub(crate) fn new() -> (r: SlotIndex)
        ensures
            (slots_of(r) == Map::<usize, usize>::empty()),
    {
        SlotIndex { map: hashbrown::HashMap::new() }
    }

    /// Relies on hashbrown's `HashMap::get`: the value under `key`, if any.
    #[verifier::external_body]
    pub(crate) fn get(&self, key: usize) -> (r: Option<usize>)
        ensures
            r == (if slots_of(*self).contains_key(key) {
                Some(slots_of(*self)[key])
            } else {
                None::<usize>
            }),
    {
        self.map.get(&key).copied()
    }

    /// Relies on hashbrown's `HashMap::insert`: `key` now maps to `value`, the
    /// other keys are untouched.
    #[verifier::external_body]
    pub(crate) fn insert(&mut self, key: usize, value: usize)
        ensures
            slots_of(*final(self)) == slots_of(*old(self)).insert(key, value),
    {
        self.map.insert(key, value);
    }

    /// Relies on hashbrown's `HashMap::remove`: `key` is gone, with the value it had.
    #[verifier::external_body]
    pub(crate) fn remove(&mut self, key: usize) -> (r: Option<usize>)
        ensures
            slots_of(*final(self)) == slots_of(*old(self)).remove(key),
            r == (if slots_of(*old(self)).contains_key(key) {
                Some(slots_of(*old(self))[key])
            } else {
                None::<usize>
            }),
    {
        self.map.remove(&key)
    }
}

} // verus!
