//! What every map has in common: its frozen attributes and the operations
//! that the rest of the subsystem may ask of it.
use super::super::retcode::{BpfErrorCode, BpfResult};
use super::MapAttr;
use vstd::prelude::*;

verus! {

/// The attributes of a map as it keeps them: sizes in bytes, widened to
/// native integers, and the number of entries it may hold.
#[derive(Debug, Clone, Copy, PartialEq, Eq, Structural)]
pub struct InternalMapAttr {
    pub key_size: usize,
    pub value_size: usize,
    pub max_entries: usize,
}

/// The attributes that a map keeps of those it was created with.
pub open spec fn internal_attr(attr: MapAttr) -> InternalMapAttr {
    InternalMapAttr {
        key_size: attr.key_size as usize,
        value_size: attr.value_size as usize,
        max_entries: attr.max_entries as usize,
    }
}

impl From<MapAttr> for InternalMapAttr {
    fn from(attr: MapAttr) -> (r: Self) {
        Self {
            key_size: attr.key_size as usize,
            value_size: attr.value_size as usize,
            max_entries: attr.max_entries as usize,
        }
    }
}

impl vstd::std_specs::convert::FromSpecImpl<MapAttr> for InternalMapAttr {
    open spec fn obeys_from_spec() -> bool {
        true
    }

    open spec fn from_spec(attr: MapAttr) -> Self {
        internal_attr(attr)
    }
}

/// A key with its value, both as byte strings.
pub type Pair = (Seq<u8>, Seq<u8>);

/// The operations of a map. Keys and values are byte strings of exactly the
/// sizes the map was created with; a buffer of another length is refused with
/// `EINVAL` before anything else is looked at.
///
/// A map is described by `pairs`, its keys with their values in the order in
/// which iteration visits them. Each operation states its result, and what it
/// leaves behind, as a function of the pairs it found.
pub trait BpfMap {
    /// The internal consistency of the map. Every operation needs and keeps it.
    spec fn wf(&self) -> bool;

    spec fn attr_spec(&self) -> InternalMapAttr;

    /// The keys with their values, in iteration order.
    spec fn pairs(&self) -> Seq<Pair>;

    /// What `lookup` finds under `key`.
    spec fn lookup_spec(&self, key: Seq<u8>) -> Result<Seq<u8>, BpfErrorCode>;

    /// The pairs that `update` leaves behind, or why it refuses.
    spec fn update_spec(&self, key: Seq<u8>, value: Seq<u8>, flags: u64) -> Result<
        Seq<Pair>,
        BpfErrorCode,
    >;

    /// The pairs that `delete` leaves behind, or why it refuses.
    spec fn delete_spec(&self, key: Seq<u8>) -> Result<Seq<Pair>, BpfErrorCode>;

    /// The key that iteration visits after `key`.
    spec fn next_key_spec(&self, key: Seq<u8>) -> Result<Seq<u8>, BpfErrorCode>;

    /// Copies the value stored under `key` into `value`.
    fn lookup(&self, key: &[u8], value: &mut [u8]) -> (r: BpfResult)
        requires
            self.wf(),
        ensures
            old(value)@.len() != self.attr_spec().value_size ==> r == Err::<usize, BpfErrorCode>(
                BpfErrorCode::EINVAL,
            ) && final(value)@ == old(value)@,
            old(value)@.len() == self.attr_spec().value_size ==> match self.lookup_spec(key@) {
                Ok(v) => r == Ok::<usize, BpfErrorCode>(0) && final(value)@ == v,
                Err(e) => r == Err::<usize, BpfErrorCode>(e) && final(value)@ == old(value)@,
            },
    ;

    /// Stores `value` under `key` as `flags` allow.
    fn update(&mut self, key: &[u8], value: &[u8], flags: u64) -> (r: BpfResult)
        requires
            old(self).wf(),
        ensures
            final(self).wf(),
            final(self).attr_spec() == old(self).attr_spec(),
            match old(self).update_spec(key@, value@, flags) {
                Ok(pairs) => r == Ok::<usize, BpfErrorCode>(0) && final(self).pairs() == pairs,
                Err(e) => r == Err::<usize, BpfErrorCode>(e) && final(self).pairs()
                    == old(self).pairs(),
            },
    ;

    /// Removes `key` and its value.
    fn delete(&mut self, key: &[u8]) -> (r: BpfResult)
        requires
            old(self).wf(),
        ensures
            final(self).wf(),
            final(self).attr_spec() == old(self).attr_spec(),
            match old(self).delete_spec(key@) {
                Ok(pairs) => r == Ok::<usize, BpfErrorCode>(0) && final(self).pairs() == pairs,
                Err(e) => r == Err::<usize, BpfErrorCode>(e) && final(self).pairs()
                    == old(self).pairs(),
            },
    ;

    /// Writes the key that follows `key` into `next_key`.
    fn next_key(&self, key: &[u8], next_key: &mut [u8]) -> (r: BpfResult)
        requires
            self.wf(),
        ensures
            old(next_key)@.len() != self.attr_spec().key_size ==> r == Err::<usize, BpfErrorCode>(
                BpfErrorCode::EINVAL,
            ) && final(next_key)@ == old(next_key)@,
            old(next_key)@.len() == self.attr_spec().key_size ==> match self.next_key_spec(key@) {
                Ok(k) => r == Ok::<usize, BpfErrorCode>(0) && final(next_key)@ == k,
                Err(e) => r == Err::<usize, BpfErrorCode>(e) && final(next_key)@ == old(next_key)@,
            },
    ;

    fn get_attr(&self) -> (attr: InternalMapAttr)
        ensures
            attr == self.attr_spec(),
    ;

    /// Where the value stored under `key` lies in the kernel's memory, for
    /// generated code that reads it in place. The address itself is the
    /// allocator's choice; that there is one is decided by `lookup_spec`.
    fn lookup_helper(&self, key: &[u8]) -> (r: BpfResult)
        requires
            self.wf(),
        ensures
            r is Ok <==> self.lookup_spec(key@) is Ok,
            r matches Err(e) ==> self.lookup_spec(key@) == Err::<Seq<u8>, BpfErrorCode>(e),
    ;
}

} // verus!
