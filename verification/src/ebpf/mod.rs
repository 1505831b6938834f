//! Maps, programs and the registry that names them by handle.
use self::map::internal::{BpfMap, Pair};
use self::retcode::{BpfErrorCode, BpfResult};
use self::map::AnyBpfMap;
use self::program::BpfProgram;
use std::collections::BTreeMap;
use std::sync::Arc;
use vstd::prelude::*;

pub mod consts;
pub mod helpers;
pub mod map;
pub mod osutil;
pub mod program;
pub mod retcode;
pub mod tracepoints;

verus! {

broadcast use vstd::std_specs::btree::group_btree_axioms;

/// What a handle can name.
pub enum BpfObject {
    MapObject(AnyBpfMap),
    Program(Arc<BpfProgram>),
}

impl BpfObject {
    /// The map, where the object is one.
    pub fn is_map(&self) -> (r: Option<&AnyBpfMap>)
        ensures
            r == (match *self {
                BpfObject::MapObject(map) => Some(&map),
                BpfObject::Program(_) => None,
            }),
    {
        match self {
            BpfObject::MapObject(map) => Some(map),
            _ => None,
        }
    }

    /// The program, where the object is one.
    pub fn is_program(&self) -> (r: Option<&Arc<BpfProgram>>)
        ensures
            r == (match *self {
                BpfObject::Program(program) => Some(&program),
                BpfObject::MapObject(_) => None,
            }),
    {
        match self {
            BpfObject::Program(program) => Some(program),
            _ => None,
        }
    }

    /// An object is in order where it is a program or a map that is.
    pub open spec fn wf(&self) -> bool {
        self matches BpfObject::MapObject(map) ==> map.wf()
    }
}

/// Handles start here, far above the numbers of real file descriptors.
pub const BPF_FD_BASE: u32 = 0x70000000;

/// The objects of the subsystem by handle, and the counter that new handles
/// are taken from.
pub struct BpfObjects {
    next_fd: u32,
    table: BTreeMap<u32, BpfObject>,
}

impl BpfObjects {
    /// The handle that the next allocation gives.
    pub closed spec fn counter(&self) -> u32 {
        self.next_fd
    }

    /// The objects by handle.
    pub closed spec fn view(&self) -> Map<u32, BpfObject> {
        self.table@
    }

    /// The counter has not fallen below its base, every handle in use has
    /// been given out, so that it lies below the counter, and every map is
    /// in order.
    pub closed spec fn wf(&self) -> bool {
        &&& self.next_fd >= BPF_FD_BASE
        &&& forall|fd: u32| #[trigger]
            self.table@.contains_key(fd) ==> fd < self.next_fd && self.table@[fd].wf()
    }

    /// The map that `fd` names. Meaningful where `has_map(fd)`.
    pub open spec fn map_at(&self, fd: u32) -> AnyBpfMap {
        self@[fd]->MapObject_0
    }

    pub open spec fn has_map(&self, fd: u32) -> bool {
        self@.contains_key(fd) && self@[fd] is MapObject
    }

    /// The program that `fd` names. Meaningful where `has_program(fd)`.
    pub open spec fn program_at(&self, fd: u32) -> Arc<BpfProgram> {
        self@[fd]->Program_0
    }

    pub open spec fn has_program(&self, fd: u32) -> bool {
        self@.contains_key(fd) && self@[fd] is Program
    }

    /// What `wf` says of the objects.
    pub proof fn lemma_wf(&self)
        requires
            self.wf(),
        ensures
            self.counter() >= BPF_FD_BASE,
            forall|fd: u32| #[trigger] self@.contains_key(fd) ==> fd < self.counter(),
            forall|fd: u32| #[trigger] self@.contains_key(fd) ==> self@[fd].wf(),
    {
    }

    /// A registry with no objects, whose first handle will be the base.
    pub fn new() -> (objs: Self)
        ensures
            objs.wf(),
            objs.counter() == BPF_FD_BASE,
            objs@ == Map::<u32, BpfObject>::empty(),
    {
        BpfObjects { next_fd: BPF_FD_BASE, table: BTreeMap::new() }
    }

    /// The object that `fd` names.
    pub fn get(&self, fd: u32) -> (r: Option<&BpfObject>)
        requires
            self.wf(),
        ensures
            match r {
                Some(obj) => self@.contains_key(fd) && *obj == self@[fd] && obj.wf(),
                None => !self@.contains_key(fd),
            },
    {
        self.table.get(&fd)
    }

    /// Whether every handle has been given out.
    pub fn is_exhausted(&self) -> (r: bool)
        ensures
            r == (self.counter() == u32::MAX),
    {
        self.next_fd == u32::MAX
    }
}

impl BpfObjects {
    /// `after` is this registry but for the pairs of the map under `fd`,
    /// which are `pairs`. Kind and attributes of the map are as they were.
    pub open spec fn with_pairs(&self, after: &BpfObjects, fd: u32, pairs: Seq<Pair>) -> bool {
        &&& after.counter() == self.counter()
        &&& after@.dom() == self@.dom()
        &&& forall|other: u32|
            other != fd && #[trigger] self@.contains_key(other) ==> after@[other] == self@[other]
        &&& after.has_map(fd)
        &&& after.map_at(fd).attr_spec() == self.map_at(fd).attr_spec()
        &&& after.map_at(fd).is_array() == self.map_at(fd).is_array()
        &&& after.map_at(fd).pairs() == pairs
    }

    /// Updates the map under `fd`.
    pub fn map_update(&mut self, fd: u32, key: &[u8], value: &[u8], flags: u64) -> (r: BpfResult)
        requires
            old(self).wf(),
        ensures
            final(self).wf(),
            !old(self).has_map(fd) ==> r == Err::<usize, BpfErrorCode>(BpfErrorCode::ENOENT)
                && final(self)@ == old(self)@ && final(self).counter() == old(self).counter(),
            old(self).has_map(fd) ==> match old(self).map_at(fd).update_spec(key@, value@, flags) {
                Ok(pairs) => r == Ok::<usize, BpfErrorCode>(0) && old(self).with_pairs(
                    final(self),
                    fd,
                    pairs,
                ),
                Err(e) => r == Err::<usize, BpfErrorCode>(e) && old(self).with_pairs(
                    final(self),
                    fd,
                    old(self).map_at(fd).pairs(),
                ),
            },
    {
        let mut obj = match self.table.remove(&fd) {
            Some(obj) => obj,
            None => {
                assert(self.table@ =~= old(self).table@);
                return Err(BpfErrorCode::ENOENT);
            },
        };
        let r = match &mut obj {
            BpfObject::MapObject(AnyBpfMap::Array(m)) => m.update(key, value, flags),
            BpfObject::MapObject(AnyBpfMap::Hash(m)) => m.update(key, value, flags),
            BpfObject::Program(_) => Err(BpfErrorCode::ENOENT),
        };
        self.table.insert(fd, obj);
        proof {
            if !old(self).has_map(fd) {
                assert(self.table@ =~= old(self).table@);
            }
            assert(self@.dom() =~= old(self)@.dom());
        }
        r
    }

    /// Deletes from the map under `fd`.
    pub fn map_delete(&mut self, fd: u32, key: &[u8]) -> (r: BpfResult)
        requires
            old(self).wf(),
        ensures
            final(self).wf(),
            !old(self).has_map(fd) ==> r == Err::<usize, BpfErrorCode>(BpfErrorCode::ENOENT)
                && final(self)@ == old(self)@ && final(self).counter() == old(self).counter(),
            old(self).has_map(fd) ==> match old(self).map_at(fd).delete_spec(key@) {
                Ok(pairs) => r == Ok::<usize, BpfErrorCode>(0) && old(self).with_pairs(
                    final(self),
                    fd,
                    pairs,
                ),
                Err(e) => r == Err::<usize, BpfErrorCode>(e) && old(self).with_pairs(
                    final(self),
                    fd,
                    old(self).map_at(fd).pairs(),
                ),
            },
    {
        let mut obj = match self.table.remove(&fd) {
            Some(obj) => obj,
            None => {
                assert(self.table@ =~= old(self).table@);
                return Err(BpfErrorCode::ENOENT);
            },
        };
        let r = match &mut obj {
            BpfObject::MapObject(AnyBpfMap::Array(m)) => m.delete(key),
            BpfObject::MapObject(AnyBpfMap::Hash(m)) => m.delete(key),
            BpfObject::Program(_) => Err(BpfErrorCode::ENOENT),
        };
        self.table.insert(fd, obj);
        proof {
            if !old(self).has_map(fd) {
                assert(self.table@ =~= old(self).table@);
            }
            assert(self@.dom() =~= old(self)@.dom());
        }
        r
    }
}

/// Takes the next handle. Handles are given out in ascending order from
/// `BPF_FD_BASE`, each once.
pub fn bpf_allocate_fd(objs: &mut BpfObjects) -> (fd: u32)
    requires
        old(objs).wf(),
        old(objs).counter() < u32::MAX,
    ensures
        final(objs).wf(),
        fd == old(objs).counter(),
        fd >= BPF_FD_BASE,
        !old(objs)@.contains_key(fd),
        final(objs).counter() == fd + 1,
        final(objs)@ == old(objs)@,
{
    let fd = objs.next_fd;
    objs.next_fd = fd + 1;
    fd
}

/// Puts `obj` under the handle `fd`, which was given out before, in place of
/// what was there.
pub fn bpf_object_create(objs: &mut BpfObjects, fd: u32, obj: BpfObject)
    requires
        old(objs).wf(),
        fd < old(objs).counter(),
        obj.wf(),
    ensures
        final(objs).wf(),
        final(objs).counter() == old(objs).counter(),
        final(objs)@ == old(objs)@.insert(fd, obj),
{
    let _ = objs.table.insert(fd, obj);
}

/// Puts a map under the handle `fd`, which was given out before.
pub fn bpf_object_create_map(objs: &mut BpfObjects, fd: u32, map: AnyBpfMap)
    requires
        old(objs).wf(),
        fd < old(objs).counter(),
        map.wf(),
    ensures
        final(objs).wf(),
        final(objs).counter() == old(objs).counter(),
        final(objs)@ == old(objs)@.insert(fd, BpfObject::MapObject(map)),
{
    bpf_object_create(objs, fd, BpfObject::MapObject(map));
}

/// Puts a program under the handle `fd`, which was given out before.
pub fn bpf_object_create_program(objs: &mut BpfObjects, fd: u32, prog: BpfProgram)
    requires
        old(objs).wf(),
        fd < old(objs).counter(),
    ensures
        final(objs).wf(),
        final(objs).counter() == old(objs).counter(),
        final(objs)@ == old(objs)@.insert(fd, BpfObject::Program(Arc::new(prog))),
{
    bpf_object_create(objs, fd, BpfObject::Program(Arc::new(prog)));
}

/// Takes the object under `fd` out of the registry.
pub fn bpf_object_remove(objs: &mut BpfObjects, fd: u32) -> (r: Option<BpfObject>)
    requires
        old(objs).wf(),
    ensures
        final(objs).wf(),
        final(objs).counter() == old(objs).counter(),
        final(objs)@ == old(objs)@.remove(fd),
        match r {
            Some(obj) => old(objs)@.contains_key(fd) && obj == old(objs)@[fd] && obj.wf(),
            None => !old(objs)@.contains_key(fd),
        },
{
    objs.table.remove(&fd)
}

/// What a run of allocations looks like from outside: `before[i]` and
/// `after[i]` are the counter before and after the allocation number `i`,
/// which gave `handles[i]`, and between two allocations the counter did not
/// go down.
pub open spec fn is_allocation_run(handles: Seq<u32>, before: Seq<u32>, after: Seq<u32>) -> bool {
    &&& handles.len() == before.len()
    &&& handles.len() == after.len()
    &&& forall|i: int|
        0 <= i < handles.len() ==> (#[trigger] before[i]) >= BPF_FD_BASE && handles[i] == before[i]
            && after[i] == before[i] + 1
    &&& forall|i: int| 0 <= i < handles.len() - 1 ==> after[i] <= #[trigger] before[i + 1]
}

/// A run of allocations gives distinct handles in strictly ascending order,
/// none below the base. Every operation of the registry leaves the counter
/// where it was or raises it, so what it does between two allocations does
/// not matter.
pub proof fn lemma_handles_ascend(handles: Seq<u32>, before: Seq<u32>, after: Seq<u32>)
    requires
        is_allocation_run(handles, before, after),
    ensures
        forall|i: int| 0 <= i < handles.len() ==> #[trigger] handles[i] >= BPF_FD_BASE,
        forall|i: int, j: int|
            0 <= i < j < handles.len() ==> #[trigger] handles[i] < #[trigger] handles[j],
{
    assert forall|i: int| 0 <= i < handles.len() implies #[trigger] handles[i] >= BPF_FD_BASE by {
        assert(before[i] >= BPF_FD_BASE);
    }
    assert forall|i: int, j: int| 0 <= i < j < handles.len() implies #[trigger] handles[i]
        < #[trigger] handles[j] by {
        lemma_handles_between(handles, before, after, i, j);
    }
}

proof fn lemma_handles_between(
    handles: Seq<u32>,
    before: Seq<u32>,
    after: Seq<u32>,
    i: int,
    j: int,
)
    requires
        is_allocation_run(handles, before, after),
        0 <= i < j < handles.len(),
    ensures
        handles[i] < handles[j],
    decreases j - i,
{
    assert(after[j - 1] <= before[j - 1 + 1]);
    assert(before[j - 1] >= BPF_FD_BASE);
    assert(before[j] >= BPF_FD_BASE);
    if i < j - 1 {
        lemma_handles_between(handles, before, after, i, j - 1);
    }
}

} // verus!
