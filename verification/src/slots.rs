//! The generational slot table behind the identity registry.
//!
//! The table is `slotmap::SlotMap`, keyed by `slotmap::DefaultKey`. Nothing in
//! this file is proved: each function states what the `slotmap` source shows of
//! the call it makes, and the registry is verified against those statements.
//!
//! A key travels as the `u64` that `KeyData::as_ffi` gives: the slot's version
//! in the high half, the slot's index in the low half.

use vstd::prelude::*;

verus! {

/// A `slotmap::SlotMap<DefaultKey, usize>`. Verus sees none of its contents;
/// `slot_entries` and `slot_versions` stand for them.
#[verifier::external_body]
pub struct SlotTable {
    inner: slotmap::SlotMap<slotmap::DefaultKey, usize>,
}

/// What the table holds: each live key, as its `as_ffi` word, with the value
/// stored under it.
pub uninterp spec fn slot_entries(table: SlotTable) -> Map<u64, usize>;

/// The version counter of every slot of the table, by slot index. A slot is
/// occupied while its version is odd.
pub uninterp spec fn slot_versions(table: SlotTable) -> Seq<u32>;

/// The slot index that a key word carries.
pub open spec fn key_index(key: u64) -> u32 {
    (key & 0xffff_ffff) as u32
}

/// The slot version that a key word carries.
pub open spec fn key_version(key: u64) -> u32 {
    (key >> 32) as u32
}

/// `version + 1`, wrapping to zero past the last `u32`.
pub open spec fn next_version(version: u32) -> u32 {
    if version == u32::MAX {
        0
    } else {
        (version + 1) as u32
    }
}

impl SlotTable {
    /// `SlotMap::new`: a table without entries.
    #[verifier::external_body]
    pub(crate) fn new() -> (table: SlotTable)
        ensures
            slot_entries(table).dom() == Set::<u64>::empty(),
    {
        SlotTable { inner: slotmap::SlotMap::new() }
    }

    /// `SlotMap::get`, its result copied out: the value under `key`, if `key`
    /// is live.
    ///
    /// `KeyData::from_ffi` sets the lowest bit of the version it is given, so
    /// only a word with an odd version names the key it spells.
    #[verifier::external_body]
    pub(crate) fn get(&self, key: u64) -> (value: Option<usize>)
        requires
            key_version(key) % 2 == 1,
        ensures
            value == (if slot_entries(*self).dom().contains(key) {
                Some(slot_entries(*self)[key])
            } else {
                None
            }),
    {
        self.inner.get(slotmap::DefaultKey::from(slotmap::KeyData::from_ffi(key))).copied()
    }

    /// `SlotMap::get_mut`: the place of the value under `key`, if `key` is
    /// live. Writing through it changes that value and nothing else.
    #[verifier::external_body]
    pub(crate) fn get_mut(&mut self, key: u64) -> (place: Option<&mut usize>)
        requires
            key_version(key) % 2 == 1,
        ensures
            place is Some <==> slot_entries(*old(self)).dom().contains(key),
            place is None ==> *final(self) == *old(self),
            place matches Some(value) ==> {
                &&& *value == slot_entries(*old(self))[key]
                &&& slot_entries(*final(self)) == slot_entries(*old(self)).insert(
                    key,
                    *final(value),
                )
                &&& slot_versions(*final(self)) == slot_versions(*old(self))
            },
    {
        self.inner.get_mut(slotmap::DefaultKey::from(slotmap::KeyData::from_ffi(key)))
    }

    /// `SlotMap::insert`: stores `value` under a key that was not live, and
    /// returns that key.
    ///
    /// The key names either a slot that the table already had, with that
    /// slot's version made odd, or the slot after the last one, with version
    /// 1. The slot takes the key's version; no other slot changes.
    ///
    /// `slotmap` documents a limit of 2^32 - 2 entries and panics beyond it.
    #[verifier::external_body]
    pub(crate) fn insert(&mut self, value: usize) -> (key: u64)
        requires
            slot_entries(*old(self)).dom().finite(),
            slot_entries(*old(self)).dom().len() < 0xffff_fffe,
        ensures
            !slot_entries(*old(self)).dom().contains(key),
            slot_entries(*final(self)) == slot_entries(*old(self)).insert(key, value),
            key_index(key) <= slot_versions(*old(self)).len(),
            key_index(key) < slot_versions(*old(self)).len() ==> {
                &&& key_version(key) == (slot_versions(*old(self))[key_index(key) as int] | 1)
                &&& slot_versions(*final(self)) == slot_versions(*old(self)).update(
                    key_index(key) as int,
                    key_version(key),
                )
            },
            key_index(key) == slot_versions(*old(self)).len() ==> {
                &&& key_version(key) == 1
                &&& slot_versions(*final(self)) == slot_versions(*old(self)).push(1u32)
            },
    {
        slotmap::Key::data(&self.inner.insert(value)).as_ffi()
    }

    /// `SlotMap::remove`: takes the entry under `key` out, if `key` is live,
    /// and returns its value. The slot's version then moves on by one, so the
    /// key is live no more; a key that was not live changes nothing.
    #[verifier::external_body]
    pub(crate) fn remove(&mut self, key: u64) -> (value: Option<usize>)
        requires
            key_version(key) % 2 == 1,
        ensures
            value == (if slot_entries(*old(self)).dom().contains(key) {
                Some(slot_entries(*old(self))[key])
            } else {
                None
            }),
            slot_entries(*final(self)) == slot_entries(*old(self)).remove(key),
            value is None ==> slot_versions(*final(self)) == slot_versions(*old(self)),
            value is Some ==> slot_versions(*final(self)) == slot_versions(*old(self)).update(
                key_index(key) as int,
                next_version(slot_versions(*old(self))[key_index(key) as int]),
            ),
    {
        self.inner.remove(slotmap::DefaultKey::from(slotmap::KeyData::from_ffi(key)))
    }
}

} // verus!
