//! The array map: a fixed number of values of one size, found by index.
use super::super::osutil::{buffer_addr, copy};
use super::super::retcode::{BpfErrorCode, BpfResult};
use super::internal::{BpfMap, InternalMapAttr, Pair};
use vstd::bytes::{spec_u32_from_le_bytes, spec_u32_to_le_bytes, u32_from_le_bytes, u32_to_le_bytes};
use vstd::prelude::*;

verus! {

/// `max_entries` values of `value_size` bytes in one buffer. A key is an index
/// below `max_entries`, written as four bytes, least significant first.
pub struct ArrayMap {
    attr: InternalMapAttr,
    storage: Vec<u8>,
}

/// The key that stands for an index.
pub open spec fn index_key(index: int) -> Seq<u8> {
    spec_u32_to_le_bytes(index as u32)
}

/// The index that a key of four bytes stands for.
pub open spec fn key_index(key: Seq<u8>) -> int {
    spec_u32_from_le_bytes(key) as int
}

/// What iteration over an array of `n` entries gives after `key`: the first
/// index where `key` is out of range, the next one where there is one.
pub open spec fn array_next_key(n: int, key: Seq<u8>) -> Result<Seq<u8>, BpfErrorCode> {
    if key.len() != 4 {
        Err(BpfErrorCode::EINVAL)
    } else if key_index(key) >= n {
        Ok(index_key(0))
    } else if key_index(key) < n - 1 {
        Ok(index_key(key_index(key) + 1))
    } else {
        Err(BpfErrorCode::ENOENT)
    }
}

/// Where the entry at `index` lies when the buffer starts at `base` and every
/// entry takes `value_size` bytes: `index` entries further on. Addresses wrap
/// round at the end of the address space.
pub open spec fn element_addr_spec(base: usize, value_size: usize, index: usize) -> usize {
    base.wrapping_add(value_size.wrapping_mul(index))
}

/// The address of the entry at `index` of a buffer at `base` whose entries
/// take `value_size` bytes each.
pub fn element_addr(base: usize, value_size: usize, index: usize) -> (addr: usize)
    ensures
        addr == element_addr_spec(base, value_size, index),
        base + value_size * index <= usize::MAX ==> addr == base + value_size * index,
{
    proof {
        lemma_offset_fits(base as int, value_size as int, index as int);
    }
    base.wrapping_add(value_size.wrapping_mul(index))
}

proof fn lemma_offset_fits(base: int, size: int, index: int)
    by (nonlinear_arith)
    requires
        0 <= base,
        0 <= size,
        0 <= index,
    ensures
        0 <= size * index,
        base + size * index <= usize::MAX ==> (size * index) % (usize::MAX + 1) == size * index,
{
}

proof fn lemma_chunk_bounds(index: int, size: int, count: int)
    by (nonlinear_arith)
    requires
        0 <= index < count,
        0 <= size,
    ensures
        0 <= index * size,
        index * size == size * index,
        index * size + size <= count * size,
        (index + 1) * size == index * size + size,
{
}

/// Four bytes stand for the index that they were made from.
pub proof fn lemma_index_key(index: int)
    requires
        0 <= index <= u32::MAX,
    ensures
        index_key(index).len() == 4,
        key_index(index_key(index)) == index,
{
    vstd::bytes::lemma_auto_spec_u32_to_from_le_bytes();
    assert(spec_u32_to_le_bytes(index as u32).len() == 4);
}

/// A key of four bytes is the key of the index that it stands for.
pub proof fn lemma_key_index(key: Seq<u8>)
    requires
        key.len() == 4,
    ensures
        0 <= key_index(key) <= u32::MAX,
        index_key(key_index(key)) == key,
{
    vstd::bytes::lemma_auto_spec_u32_to_from_le_bytes();
    assert(spec_u32_to_le_bytes(spec_u32_from_le_bytes(key)) == key);
}

proof fn lemma_chunks_apart(i: int, j: int, size: int)
    by (nonlinear_arith)
    requires
        0 <= i < j,
        0 <= size,
    ensures
        i * size + size <= j * size,
{
}

impl ArrayMap {
    /// The bytes of the entry at `index`.
    pub closed spec fn chunk(&self, index: int) -> Seq<u8> {
        self.storage@.subrange(
            index * self.attr.value_size as int,
            (index + 1) * self.attr.value_size as int,
        )
    }

    /// An array map with every byte of every entry zero.
    pub fn new(attr: InternalMapAttr) -> (map: Self)
        requires
            attr.key_size == 4,
            attr.max_entries <= u32::MAX,
            attr.max_entries * attr.value_size <= usize::MAX,
        ensures
            map.wf(),
            map.attr_spec() == attr,
            forall|i: int|
                0 <= i < attr.max_entries ==> (#[trigger] map.pairs()[i]).1 == Seq::new(
                    attr.value_size as nat,
                    |j: int| 0u8,
                ),
    {
        let size = attr.max_entries * attr.value_size;
        let storage = vec![0u8; size];
        let map = Self { attr, storage };
        assert forall|i: int| 0 <= i < attr.max_entries implies (#[trigger] map.pairs()[i]).1
            == Seq::new(attr.value_size as nat, |j: int| 0u8) by {
            lemma_chunk_bounds(i, attr.value_size as int, attr.max_entries as int);
            assert(map.pairs()[i].1 =~= Seq::new(attr.value_size as nat, |j: int| 0u8));
        }
        map
    }

    /// What `wf` says of an array map: keys have four bytes, there are no
    /// more entries than keys can tell apart, all entries together fit the
    /// address space, and every value has the size of the attributes.
    pub proof fn lemma_wf(&self)
        requires
            self.wf(),
        ensures
            self.attr_spec().key_size == 4,
            self.attr_spec().max_entries <= u32::MAX,
            self.attr_spec().max_entries * self.attr_spec().value_size <= usize::MAX,
            self.pairs().len() == self.attr_spec().max_entries,
            forall|i: int|
                0 <= i < self.pairs().len() ==> (#[trigger] self.pairs()[i]).0 == index_key(i)
                    && self.pairs()[i].1.len() == self.attr_spec().value_size,
    {
        assert(self.storage@.len() == self.storage.len());
        assert forall|i: int| 0 <= i < self.pairs().len() implies (#[trigger] self.pairs()[i]).0
            == index_key(i) && self.pairs()[i].1.len() == self.attr_spec().value_size by {
            lemma_chunk_bounds(i, self.attr.value_size as int, self.attr.max_entries as int);
        }
    }

    /// The address of the entry at `index`: that of the buffer, which is for
    /// the allocator to say, moved on as `element_addr` tells.
    fn get_element_addr(&self, index: usize) -> (addr: usize)
        requires
            self.wf(),
            index < self.attr.max_entries,
    {
        element_addr(buffer_addr(&self.storage), self.attr.value_size, index)
    }

    /// The index that `key` names, where it is the key of an entry.
    fn index_of(&self, key: &[u8]) -> (r: Result<usize, BpfErrorCode>)
        requires
            self.wf(),
        ensures
            key@.len() != 4 ==> r == Err::<usize, BpfErrorCode>(BpfErrorCode::EINVAL),
            key@.len() == 4 && key_index(key@) >= self.attr.max_entries ==> r == Err::<
                usize,
                BpfErrorCode,
            >(BpfErrorCode::ENOENT),
            key@.len() == 4 && key_index(key@) < self.attr.max_entries ==> r == Ok::<
                usize,
                BpfErrorCode,
            >(key_index(key@) as usize),
    {
        if key.len() != 4 {
            return Err(BpfErrorCode::EINVAL);
        }
        let index = u32_from_le_bytes(key) as usize;
        if index >= self.attr.max_entries {
            return Err(BpfErrorCode::ENOENT);
        }
        Ok(index)
    }
}

impl BpfMap for ArrayMap {
    closed spec fn wf(&self) -> bool {
        &&& self.attr.key_size == 4
        &&& self.attr.max_entries <= u32::MAX
        &&& self.storage@.len() == self.attr.max_entries * self.attr.value_size
    }

    closed spec fn attr_spec(&self) -> InternalMapAttr {
        self.attr
    }

    open spec fn pairs(&self) -> Seq<Pair> {
        Seq::new(self.attr_spec().max_entries as nat, |i: int| (index_key(i), self.chunk(i)))
    }

    open spec fn lookup_spec(&self, key: Seq<u8>) -> Result<Seq<u8>, BpfErrorCode> {
        if key.len() != 4 {
            Err(BpfErrorCode::EINVAL)
        } else if key_index(key) >= self.attr_spec().max_entries {
            Err(BpfErrorCode::ENOENT)
        } else {
            Ok(self.pairs()[key_index(key)].1)
        }
    }

    open spec fn update_spec(&self, key: Seq<u8>, value: Seq<u8>, flags: u64) -> Result<
        Seq<Pair>,
        BpfErrorCode,
    > {
        if key.len() != 4 || value.len() != self.attr_spec().value_size {
            Err(BpfErrorCode::EINVAL)
        } else if key_index(key) >= self.attr_spec().max_entries {
            Err(BpfErrorCode::ENOENT)
        } else {
            Ok(self.pairs().update(key_index(key), (key, value)))
        }
    }

    open spec fn delete_spec(&self, key: Seq<u8>) -> Result<Seq<Pair>, BpfErrorCode> {
        Err(BpfErrorCode::EINVAL)
    }

    open spec fn next_key_spec(&self, key: Seq<u8>) -> Result<Seq<u8>, BpfErrorCode> {
        array_next_key(self.attr_spec().max_entries as int, key)
    }

    fn lookup(&self, key: &[u8], value: &mut [u8]) -> (r: BpfResult) {
        if value.len() != self.attr.value_size {
            return Err(BpfErrorCode::EINVAL);
        }
        let index = self.index_of(key)?;
        proof {
            lemma_chunk_bounds(
                index as int,
                self.attr.value_size as int,
                self.attr.max_entries as int,
            );
        }
        assert(self.storage.len() == self.attr.max_entries * self.attr.value_size);
        let start = index * self.attr.value_size;
        let entry = vstd::slice::slice_subrange(
            self.storage.as_slice(),
            start,
            start + self.attr.value_size,
        );
        copy(value, entry, self.attr.value_size);
        assert(value@ =~= value@.subrange(0, self.attr.value_size as int));
        assert(entry@ =~= entry@.subrange(0, self.attr.value_size as int));
        Ok(0)
    }

    fn update(&mut self, key: &[u8], value: &[u8], _flags: u64) -> (r: BpfResult) {
        if key.len() != 4 || value.len() != self.attr.value_size {
            return Err(BpfErrorCode::EINVAL);
        }
        let index = self.index_of(key)?;
        let size = self.attr.value_size;
        proof {
            lemma_chunk_bounds(index as int, size as int, self.attr.max_entries as int);
        }
        assert(self.storage.len() == self.attr.max_entries * size);
        let start = index * size;
        let mut j: usize = 0;
        while j < size
            invariant
                j <= size,
                size == self.attr.value_size,
                value@.len() == size,
                self.attr == old(self).attr,
                start == index * size,
                start + size <= self.storage@.len() <= usize::MAX,
                self.storage@.len() == old(self).storage@.len(),
                forall|k: int| 0 <= k < j ==> self.storage@[start + k] == value@[k],
                forall|k: int|
                    0 <= k < self.storage@.len() && !(start <= k < start + j)
                        ==> self.storage@[k] == old(self).storage@[k],
            decreases size - j,
        {
            self.storage[start + j] = value[j];
            j += 1;
        }
        proof {
            lemma_key_index(key@);
            let target = old(self).pairs().update(index as int, (key@, value@));
            assert forall|i: int| 0 <= i < self.attr.max_entries implies self.pairs()[i]
                == target[i] by {
                lemma_chunk_bounds(i, size as int, self.attr.max_entries as int);
                if i == index {
                    assert(self.chunk(i) =~= value@);
                } else {
                    if i < index {
                        lemma_chunks_apart(i, index as int, size as int);
                    } else {
                        lemma_chunks_apart(index as int, i, size as int);
                    }
                    assert(self.chunk(i) =~= old(self).chunk(i));
                }
            }
            assert(self.pairs() =~= target);
        }
        Ok(0)
    }

    fn delete(&mut self, _key: &[u8]) -> (r: BpfResult) {
        Err(BpfErrorCode::EINVAL)
    }

    fn next_key(&self, key: &[u8], next_key: &mut [u8]) -> (r: BpfResult) {
        if next_key.len() != self.attr.key_size {
            return Err(BpfErrorCode::EINVAL);
        }
        if key.len() != 4 {
            return Err(BpfErrorCode::EINVAL);
        }
        let index = u32_from_le_bytes(key) as usize;
        let next: u32 = if index >= self.attr.max_entries {
            0
        } else if index < self.attr.max_entries - 1 {
            (index + 1) as u32
        } else {
            return Err(BpfErrorCode::ENOENT);
        };
        let bytes = u32_to_le_bytes(next);
        proof {
            lemma_index_key(next as int);
        }
        copy(next_key, bytes.as_slice(), 4);
        assert(next_key@ =~= next_key@.subrange(0, 4));
        assert(bytes@ =~= bytes@.subrange(0, 4));
        Ok(0)
    }

    fn get_attr(&self) -> (attr: InternalMapAttr) {
        self.attr
    }

    fn lookup_helper(&self, key: &[u8]) -> (r: BpfResult) {
        let index = self.index_of(key)?;
        Ok(self.get_element_addr(index))
    }
}

/// Iteration over an array of `n` entries goes up by one from each index but
/// the last, and different indices have different keys: so the keys it gives
/// for the indices 0 to `n - 2` are those of 1 to `n - 1`, each once. After the
/// last index it ends.
pub proof fn lemma_array_iteration(n: int)
    requires
        0 < n <= u32::MAX,
    ensures
        forall|i: int|
            0 <= i < n - 1 ==> #[trigger] array_next_key(n, index_key(i)) == Ok::<
                Seq<u8>,
                BpfErrorCode,
            >(index_key(i + 1)),
        forall|i: int, j: int|
            0 <= i < n && 0 <= j < n && #[trigger] index_key(i) == #[trigger] index_key(j) ==> i
                == j,
        array_next_key(n, index_key(n - 1)) == Err::<Seq<u8>, BpfErrorCode>(BpfErrorCode::ENOENT),
{
    assert forall|i: int| 0 <= i < n implies key_index(#[trigger] index_key(i)) == i
        && index_key(i).len() == 4 by {
        lemma_index_key(i);
    }
    assert forall|i: int| 0 <= i < n - 1 implies #[trigger] array_next_key(n, index_key(i))
        == Ok::<Seq<u8>, BpfErrorCode>(index_key(i + 1)) by {
        assert(key_index(index_key(i)) == i);
    }
    assert forall|i: int, j: int|
        0 <= i < n && 0 <= j < n && #[trigger] index_key(i) == #[trigger] index_key(j) implies i
        == j by {
        assert(key_index(index_key(i)) == i);
        assert(key_index(index_key(j)) == j);
    }
    assert(key_index(index_key(n - 1)) == n - 1);
}

} // verus!
