//! Maps: typed key/value stores that programs and user space share.
use self::array::ArrayMap;
use self::hash::HashMap;
use self::internal::{internal_attr, BpfMap, InternalMapAttr, Pair};
use super::consts::{BPF_MAP_TYPE_ARRAY, BPF_MAP_TYPE_HASH};
use super::retcode::{BpfErrorCode, BpfResult};
use super::{bpf_allocate_fd, bpf_object_create_map, bpf_object_remove, BpfObjects};
use vstd::bytes::{
    spec_u32_from_le_bytes, spec_u64_from_le_bytes, u32_from_le_bytes, u64_from_le_bytes,
};
use vstd::prelude::*;

pub mod array;
pub mod hash;
pub mod internal;

verus! {

/// The attributes that user space gives when it creates a map.
#[derive(Debug, Clone, Copy, PartialEq, Eq, Structural)]
pub struct MapAttr {
    pub map_type: u32,
    pub key_size: u32,
    pub value_size: u32,
    pub max_entries: u32,
}

impl MapAttr {
    /// The attributes that stand in the sixteen bytes from the start of
    /// `bytes` on: four numbers of 32 bits, least significant byte first.
    pub open spec fn spec_from_bytes(bytes: Seq<u8>) -> Option<MapAttr> {
        if bytes.len() < 16 {
            None
        } else {
            Some(
                MapAttr {
                    map_type: spec_u32_from_le_bytes(bytes.subrange(0, 4)),
                    key_size: spec_u32_from_le_bytes(bytes.subrange(4, 8)),
                    value_size: spec_u32_from_le_bytes(bytes.subrange(8, 12)),
                    max_entries: spec_u32_from_le_bytes(bytes.subrange(12, 16)),
                },
            )
        }
    }

    pub fn from_bytes(bytes: &[u8]) -> (r: Option<MapAttr>)
        ensures
            r == MapAttr::spec_from_bytes(bytes@),
    {
        if bytes.len() < 16 {
            return None;
        }
        Some(
            MapAttr {
                map_type: u32_from_le_bytes(vstd::slice::slice_subrange(bytes, 0, 4)),
                key_size: u32_from_le_bytes(vstd::slice::slice_subrange(bytes, 4, 8)),
                value_size: u32_from_le_bytes(vstd::slice::slice_subrange(bytes, 8, 12)),
                max_entries: u32_from_le_bytes(vstd::slice::slice_subrange(bytes, 12, 16)),
            },
        )
    }
}

impl MapOpAttr {
    /// The attributes that stand in the 32 bytes from the start of `bytes`
    /// on, laid out as C lays out the struct: the handle, four bytes of
    /// padding, and three numbers of 64 bits.
    pub open spec fn spec_from_bytes(bytes: Seq<u8>) -> Option<MapOpAttr> {
        if bytes.len() < 32 {
            None
        } else {
            Some(
                MapOpAttr {
                    map_fd: spec_u32_from_le_bytes(bytes.subrange(0, 4)),
                    key: spec_u64_from_le_bytes(bytes.subrange(8, 16)),
                    value_or_nextkey: spec_u64_from_le_bytes(bytes.subrange(16, 24)),
                    flags: spec_u64_from_le_bytes(bytes.subrange(24, 32)),
                },
            )
        }
    }

    pub fn from_bytes(bytes: &[u8]) -> (r: Option<MapOpAttr>)
        ensures
            r == MapOpAttr::spec_from_bytes(bytes@),
    {
        if bytes.len() < 32 {
            return None;
        }
        Some(
            MapOpAttr {
                map_fd: u32_from_le_bytes(vstd::slice::slice_subrange(bytes, 0, 4)),
                key: u64_from_le_bytes(vstd::slice::slice_subrange(bytes, 8, 16)),
                value_or_nextkey: u64_from_le_bytes(vstd::slice::slice_subrange(bytes, 16, 24)),
                flags: u64_from_le_bytes(vstd::slice::slice_subrange(bytes, 24, 32)),
            },
        )
    }
}

/// A map of one of the kinds that can be created.
pub enum AnyBpfMap {
    Array(ArrayMap),
    Hash(HashMap),
}

impl BpfMap for AnyBpfMap {
    open spec fn wf(&self) -> bool {
        match self {
            AnyBpfMap::Array(m) => m.wf(),
            AnyBpfMap::Hash(m) => m.wf(),
        }
    }

    open spec fn attr_spec(&self) -> InternalMapAttr {
        match self {
            AnyBpfMap::Array(m) => m.attr_spec(),
            AnyBpfMap::Hash(m) => m.attr_spec(),
        }
    }

    open spec fn pairs(&self) -> Seq<Pair> {
        match self {
            AnyBpfMap::Array(m) => m.pairs(),
            AnyBpfMap::Hash(m) => m.pairs(),
        }
    }

    open spec fn lookup_spec(&self, key: Seq<u8>) -> Result<Seq<u8>, BpfErrorCode> {
        match self {
            AnyBpfMap::Array(m) => m.lookup_spec(key),
            AnyBpfMap::Hash(m) => m.lookup_spec(key),
        }
    }

    open spec fn update_spec(&self, key: Seq<u8>, value: Seq<u8>, flags: u64) -> Result<
        Seq<Pair>,
        BpfErrorCode,
    > {
        match self {
            AnyBpfMap::Array(m) => m.update_spec(key, value, flags),
            AnyBpfMap::Hash(m) => m.update_spec(key, value, flags),
        }
    }

    open spec fn delete_spec(&self, key: Seq<u8>) -> Result<Seq<Pair>, BpfErrorCode> {
        match self {
            AnyBpfMap::Array(m) => m.delete_spec(key),
            AnyBpfMap::Hash(m) => m.delete_spec(key),
        }
    }

    open spec fn next_key_spec(&self, key: Seq<u8>) -> Result<Seq<u8>, BpfErrorCode> {
        match self {
            AnyBpfMap::Array(m) => m.next_key_spec(key),
            AnyBpfMap::Hash(m) => m.next_key_spec(key),
        }
    }

    fn lookup(&self, key: &[u8], value: &mut [u8]) -> (r: BpfResult) {
        match self {
            AnyBpfMap::Array(m) => m.lookup(key, value),
            AnyBpfMap::Hash(m) => m.lookup(key, value),
        }
    }

    fn update(&mut self, key: &[u8], value: &[u8], flags: u64) -> (r: BpfResult) {
        match self {
            AnyBpfMap::Array(m) => m.update(key, value, flags),
            AnyBpfMap::Hash(m) => m.update(key, value, flags),
        }
    }

    fn delete(&mut self, key: &[u8]) -> (r: BpfResult) {
        match self {
            AnyBpfMap::Array(m) => m.delete(key),
            AnyBpfMap::Hash(m) => m.delete(key),
        }
    }

    fn next_key(&self, key: &[u8], next_key: &mut [u8]) -> (r: BpfResult) {
        match self {
            AnyBpfMap::Array(m) => m.next_key(key, next_key),
            AnyBpfMap::Hash(m) => m.next_key(key, next_key),
        }
    }

    fn get_attr(&self) -> (attr: InternalMapAttr) {
        match self {
            AnyBpfMap::Array(m) => m.get_attr(),
            AnyBpfMap::Hash(m) => m.get_attr(),
        }
    }

    fn lookup_helper(&self, key: &[u8]) -> (r: BpfResult) {
        match self {
            AnyBpfMap::Array(m) => m.lookup_helper(key),
            AnyBpfMap::Hash(m) => m.lookup_helper(key),
        }
    }
}

impl AnyBpfMap {
    /// Whether this is an array map, as against a hash map.
    pub open spec fn is_array(&self) -> bool {
        self is Array
    }
}

/// The attributes of the commands that work on one entry of a map: the
/// handle, the user addresses of the key and of the value (for
/// `BPF_MAP_GET_NEXT_KEY`, of the next key), and the flags.
#[derive(Debug, Clone, Copy, PartialEq, Eq, Structural)]
pub struct MapOpAttr {
    pub map_fd: u32,
    pub key: u64,
    pub value_or_nextkey: u64,
    pub flags: u64,
}

#[derive(Debug, Clone, Copy, PartialEq, Eq, Structural)]
pub enum BpfMapOp {
    LookUp,
    Update,
    Delete,
    GetNextKey,
}

/// `n` zero bytes.
pub open spec fn zeros(n: int) -> Seq<u8> {
    Seq::new(n as nat, |i: int| 0u8)
}

/// Why a map with these attributes cannot be created while the counter of
/// handles stands at `counter`, if it cannot: the type is neither array nor
/// hash, the keys of an array are not four bytes, or the array would not fit
/// in memory (`EINVAL`); or there is no handle left (`ENOMEM`).
pub open spec fn map_create_error(attr: MapAttr, counter: u32) -> Option<BpfErrorCode> {
    if attr.map_type == BPF_MAP_TYPE_ARRAY {
        if attr.key_size != 4 {
            Some(BpfErrorCode::EINVAL)
        } else if attr.max_entries * attr.value_size > usize::MAX {
            Some(BpfErrorCode::EINVAL)
        } else if counter == u32::MAX {
            Some(BpfErrorCode::ENOMEM)
        } else {
            None
        }
    } else if attr.map_type == BPF_MAP_TYPE_HASH {
        if counter == u32::MAX {
            Some(BpfErrorCode::ENOMEM)
        } else {
            None
        }
    } else {
        Some(BpfErrorCode::EINVAL)
    }
}

/// What creating a map leaves behind and returns. A map that cannot be
/// created changes nothing. Otherwise the handle that the counter stood at,
/// which named nothing before, names the new map, which has the attributes
/// given; an array map starts with all bytes zero, a hash map without pairs.
pub open spec fn map_created(
    before: &BpfObjects,
    after: &BpfObjects,
    attr: MapAttr,
    r: BpfResult,
) -> bool {
    match map_create_error(attr, before.counter()) {
        Some(e) => r == Err::<usize, BpfErrorCode>(e) && after@ == before@ && after.counter()
            == before.counter(),
        None => {
            let fd = before.counter();
            &&& r == Ok::<usize, BpfErrorCode>(fd as usize)
            &&& !before@.contains_key(fd)
            &&& after.counter() == fd + 1
            &&& after@.dom() == before@.dom().insert(fd)
            &&& forall|other: u32|
                other != fd && #[trigger] before@.contains_key(other) ==> after@[other]
                    == before@[other]
            &&& after.has_map(fd)
            &&& after.map_at(fd).attr_spec() == internal_attr(attr)
            &&& after.map_at(fd).is_array() == (attr.map_type == BPF_MAP_TYPE_ARRAY)
            &&& after.map_at(fd).pairs().len() == (if attr.map_type == BPF_MAP_TYPE_ARRAY {
                attr.max_entries as nat
            } else {
                0
            })
            &&& forall|i: int|
                0 <= i < after.map_at(fd).pairs().len() ==> (#[trigger] after.map_at(
                    fd,
                ).pairs()[i]).1 == zeros(attr.value_size as int)
        },
    }
}

/// Creates a map and gives its handle.
pub fn bpf_map_create(objs: &mut BpfObjects, attr: MapAttr) -> (r: BpfResult)
    requires
        old(objs).wf(),
    ensures
        final(objs).wf(),
        map_created(old(objs), final(objs), attr, r),
{
    let internal_attr = InternalMapAttr::from(attr);
    let map = if attr.map_type == BPF_MAP_TYPE_ARRAY {
        // array index must have size of 4
        if internal_attr.key_size != 4 {
            return Err(BpfErrorCode::EINVAL);
        }
        if internal_attr.max_entries.checked_mul(internal_attr.value_size).is_none() {
            return Err(BpfErrorCode::EINVAL);
        }
        AnyBpfMap::Array(ArrayMap::new(internal_attr))
    } else if attr.map_type == BPF_MAP_TYPE_HASH {
        AnyBpfMap::Hash(HashMap::new(internal_attr))
    } else {
        return Err(BpfErrorCode::EINVAL);
    };
    if objs.is_exhausted() {
        return Err(BpfErrorCode::ENOMEM);
    }
    let fd = bpf_allocate_fd(objs);
    bpf_object_create_map(objs, fd, map);
    assert(objs@.dom() =~= old(objs)@.dom().insert(fd));
    Ok(fd as usize)
}

/// Two maps that are created one after the other get different handles, the
/// later the greater, and none below the base: whatever happens to the
/// registry in between leaves the counter where it was or raises it.
pub proof fn lemma_created_handles_ascend(
    before1: &BpfObjects,
    after1: &BpfObjects,
    before2: &BpfObjects,
    after2: &BpfObjects,
    attr1: MapAttr,
    attr2: MapAttr,
    r1: BpfResult,
    r2: BpfResult,
)
    requires
        before1.wf(),
        map_created(before1, after1, attr1, r1),
        map_created(before2, after2, attr2, r2),
        after1.counter() <= before2.counter(),
        r1 is Ok,
        r2 is Ok,
    ensures
        super::BPF_FD_BASE <= r1->Ok_0 < r2->Ok_0,
{
    before1.lemma_wf();
}

/// Removes the object under `fd`: zero where there was one, `ENOENT` where
/// there was none.
pub fn bpf_map_close(objs: &mut BpfObjects, fd: u32) -> (r: BpfResult)
    requires
        old(objs).wf(),
    ensures
        final(objs).wf(),
        final(objs).counter() == old(objs).counter(),
        final(objs)@ == old(objs)@.remove(fd),
        r == (if old(objs)@.contains_key(fd) {
            Ok::<usize, BpfErrorCode>(0)
        } else {
            Err::<usize, BpfErrorCode>(BpfErrorCode::ENOENT)
        }),
{
    match bpf_object_remove(objs, fd) {
        Some(_) => Ok(0),
        None => Err(BpfErrorCode::ENOENT),
    }
}

/// The attributes of the map under `fd`.
pub fn bpf_map_get_attr(objs: &BpfObjects, fd: u32) -> (r: Option<InternalMapAttr>)
    requires
        objs.wf(),
    ensures
        r == (if objs.has_map(fd) {
            Some(objs.map_at(fd).attr_spec())
        } else {
            None
        }),
{
    let obj = objs.get(fd)?;
    let map = obj.is_map()?;
    Some(map.get_attr())
}

/// What an operation on the map `map` does to the buffer `value`, and what
/// it returns. A lookup and a step of iteration write into the buffer, which
/// has to be as long as what they write; the other two leave it alone. With
/// `from_user` the buffer stands for one that is copied back to user space
/// whatever happened, so a failed lookup or step leaves zeros in it.
pub open spec fn map_op_result(
    map: AnyBpfMap,
    op: BpfMapOp,
    key: Seq<u8>,
    value: Seq<u8>,
    flags: u64,
    from_user: bool,
) -> (Result<usize, BpfErrorCode>, Seq<u8>) {
    match op {
        BpfMapOp::LookUp => if value.len() != map.attr_spec().value_size {
            (Err(BpfErrorCode::EINVAL), value)
        } else {
            match map.lookup_spec(key) {
                Ok(v) => (Ok(0), v),
                Err(e) => (Err(e), if from_user { zeros(value.len() as int) } else { value }),
            }
        },
        BpfMapOp::GetNextKey => if value.len() != map.attr_spec().key_size {
            (Err(BpfErrorCode::EINVAL), value)
        } else {
            match map.next_key_spec(key) {
                Ok(k) => (Ok(0), k),
                Err(e) => (Err(e), if from_user { zeros(value.len() as int) } else { value }),
            }
        },
        BpfMapOp::Update => match map.update_spec(key, value, flags) {
            Ok(_) => (Ok(0), value),
            Err(e) => (Err(e), value),
        },
        BpfMapOp::Delete => match map.delete_spec(key) {
            Ok(_) => (Ok(0), value),
            Err(e) => (Err(e), value),
        },
    }
}

/// The pairs that an operation leaves in the map.
pub open spec fn map_op_pairs(
    map: AnyBpfMap,
    op: BpfMapOp,
    key: Seq<u8>,
    value: Seq<u8>,
    flags: u64,
) -> Seq<Pair> {
    match op {
        BpfMapOp::Update => match map.update_spec(key, value, flags) {
            Ok(pairs) => pairs,
            Err(_) => map.pairs(),
        },
        BpfMapOp::Delete => match map.delete_spec(key) {
            Ok(pairs) => pairs,
            Err(_) => map.pairs(),
        },
        _ => map.pairs(),
    }
}

fn fill_zero(buf: &mut [u8])
    ensures
        final(buf)@ == zeros(old(buf)@.len() as int),
{
    let mut i: usize = 0;
    while i < buf.len()
        invariant
            i <= buf@.len(),
            buf@.len() == old(buf)@.len(),
            forall|j: int| 0 <= j < i ==> buf@[j] == 0u8,
        decreases buf@.len() - i,
    {
        buf[i] = 0;
        i += 1;
    }
    assert(buf@ =~= zeros(old(buf)@.len() as int));
}

/// What an operation on the map under `fd` leaves behind and returns.
/// `value0` and `value1` are the buffer before and after. A handle that
/// names no map gives `ENOENT` and changes nothing.
pub open spec fn map_op_done(
    before: &BpfObjects,
    after: &BpfObjects,
    fd: u32,
    op: BpfMapOp,
    key: Seq<u8>,
    value0: Seq<u8>,
    value1: Seq<u8>,
    flags: u64,
    from_user: bool,
    r: BpfResult,
) -> bool {
    if !before.has_map(fd) {
        &&& r == Err::<usize, BpfErrorCode>(BpfErrorCode::ENOENT)
        &&& after@ == before@
        &&& after.counter() == before.counter()
        &&& value1 == value0
    } else {
        let map = before.map_at(fd);
        &&& (r, value1) == map_op_result(map, op, key, value0, flags, from_user)
        &&& before.with_pairs(after, fd, map_op_pairs(map, op, key, value0, flags))
    }
}

/// One operation on the map under `fd`. `key` and `value` are kernel
/// buffers; with `from_user` they are the copies of user buffers, of which
/// `value` goes back to user space after a lookup or a step of iteration.
pub fn bpf_map_ops(
    objs: &mut BpfObjects,
    fd: u32,
    op: BpfMapOp,
    key: &[u8],
    value: &mut [u8],
    flags: u64,
    from_user: bool,
) -> (r: BpfResult)
    requires
        old(objs).wf(),
    ensures
        final(objs).wf(),
        map_op_done(
            old(objs),
            final(objs),
            fd,
            op,
            key@,
            old(value)@,
            final(value)@,
            flags,
            from_user,
            r,
        ),
{
    match op {
        BpfMapOp::Update => objs.map_update(fd, key, value, flags),
        BpfMapOp::Delete => objs.map_delete(fd, key),
        BpfMapOp::LookUp => {
            let obj = objs.get(fd).ok_or(BpfErrorCode::ENOENT)?;
            let map = obj.is_map().ok_or(BpfErrorCode::ENOENT)?;
            if value.len() != map.get_attr().value_size {
                return Err(BpfErrorCode::EINVAL);
            }
            let ret = map.lookup(key, value);
            if from_user && ret.is_err() {
                fill_zero(value);
            }
            ret
        },
        BpfMapOp::GetNextKey => {
            let obj = objs.get(fd).ok_or(BpfErrorCode::ENOENT)?;
            let map = obj.is_map().ok_or(BpfErrorCode::ENOENT)?;
            if value.len() != map.get_attr().key_size {
                return Err(BpfErrorCode::EINVAL);
            }
            let ret = map.next_key(key, value);
            if from_user && ret.is_err() {
                fill_zero(value);
            }
            ret
        },
    }
}

/// `bpf_map_ops` with `BpfMapOp::LookUp`.
pub fn bpf_map_lookup_elem(
    objs: &mut BpfObjects,
    fd: u32,
    key: &[u8],
    value: &mut [u8],
    flags: u64,
    from_user: bool,
) -> (r: BpfResult)
    requires
        old(objs).wf(),
    ensures
        final(objs).wf(),
        map_op_done(
            old(objs),
            final(objs),
            fd,
            BpfMapOp::LookUp,
            key@,
            old(value)@,
            final(value)@,
            flags,
            from_user,
            r,
        ),
{
    bpf_map_ops(objs, fd, BpfMapOp::LookUp, key, value, flags, from_user)
}

/// `bpf_map_ops` with `BpfMapOp::Update`.
pub fn bpf_map_update_elem(
    objs: &mut BpfObjects,
    fd: u32,
    key: &[u8],
    value: &mut [u8],
    flags: u64,
    from_user: bool,
) -> (r: BpfResult)
    requires
        old(objs).wf(),
    ensures
        final(objs).wf(),
        map_op_done(
            old(objs),
            final(objs),
            fd,
            BpfMapOp::Update,
            key@,
            old(value)@,
            final(value)@,
            flags,
            from_user,
            r,
        ),
{
    bpf_map_ops(objs, fd, BpfMapOp::Update, key, value, flags, from_user)
}

/// `bpf_map_ops` with `BpfMapOp::Delete`.
pub fn bpf_map_delete_elem(
    objs: &mut BpfObjects,
    fd: u32,
    key: &[u8],
    value: &mut [u8],
    flags: u64,
    from_user: bool,
) -> (r: BpfResult)
    requires
        old(objs).wf(),
    ensures
        final(objs).wf(),
        map_op_done(
            old(objs),
            final(objs),
            fd,
            BpfMapOp::Delete,
            key@,
            old(value)@,
            final(value)@,
            flags,
            from_user,
            r,
        ),
{
    bpf_map_ops(objs, fd, BpfMapOp::Delete, key, value, flags, from_user)
}

/// `bpf_map_ops` with `BpfMapOp::GetNextKey`.
pub fn bpf_map_get_next_key(
    objs: &mut BpfObjects,
    fd: u32,
    key: &[u8],
    value: &mut [u8],
    flags: u64,
    from_user: bool,
) -> (r: BpfResult)
    requires
        old(objs).wf(),
    ensures
        final(objs).wf(),
        map_op_done(
            old(objs),
            final(objs),
            fd,
            BpfMapOp::GetNextKey,
            key@,
            old(value)@,
            final(value)@,
            flags,
            from_user,
            r,
        ),
{
    bpf_map_ops(objs, fd, BpfMapOp::GetNextKey, key, value, flags, from_user)
}

} // verus!
