//! The hash map: keys and values of fixed sizes, kept in the order of the
//! keys' hash codes, and within one hash code in the order of insertion.
use super::super::consts::{BPF_ANY, BPF_EXIST, BPF_NOEXIST};
use super::super::osutil::{buffer_addr, bytes_equal, copy};
use super::super::retcode::{BpfErrorCode, BpfResult};
use super::internal::{BpfMap, InternalMapAttr, Pair};
use vstd::prelude::*;

verus! {

pub type HashCode = u32;

/// The hash code of a key: starting from zero, each byte in turn is added to
/// 131313 times the code so far, and the sum is cut to 32 bits.
pub open spec fn hash_spec(key: Seq<u8>) -> HashCode
    decreases key.len(),
{
    if key.len() == 0 {
        0
    } else {
        ((hash_spec(key.drop_last()) as int * 131313 + key.last() as int) % 0x1_0000_0000) as u32
    }
}

/// Whether some pair has this key.
pub open spec fn has_key(pairs: Seq<Pair>, key: Seq<u8>) -> bool {
    exists|i: int| 0 <= i < pairs.len() && (#[trigger] pairs[i]).0 == key
}

/// The place of the pair with this key, where there is one.
pub open spec fn position(pairs: Seq<Pair>, key: Seq<u8>) -> int {
    choose|i: int| 0 <= i < pairs.len() && (#[trigger] pairs[i]).0 == key
}

/// Whether a new key with hash code `code` belongs at place `at`: behind every
/// key whose code is not greater, before every key whose code is greater.
pub open spec fn is_slot(pairs: Seq<Pair>, code: HashCode, at: int) -> bool {
    &&& 0 <= at <= pairs.len()
    &&& forall|i: int| 0 <= i < at ==> hash_spec((#[trigger] pairs[i]).0) <= code
    &&& forall|i: int| at <= i < pairs.len() ==> hash_spec((#[trigger] pairs[i]).0) > code
}

/// The place at which a new key with hash code `code` is put.
pub open spec fn slot(pairs: Seq<Pair>, code: HashCode) -> int {
    choose|at: int| is_slot(pairs, code, at)
}

/// What the pairs of a hash map with these attributes look like: keys and
/// values of the right sizes, no key twice, hash codes in ascending order, and
/// no more pairs than the map may hold.
pub open spec fn pairs_wf(pairs: Seq<Pair>, attr: InternalMapAttr) -> bool {
    &&& pairs.len() <= attr.max_entries
    &&& forall|i: int|
        0 <= i < pairs.len() ==> (#[trigger] pairs[i]).0.len() == attr.key_size
            && pairs[i].1.len() == attr.value_size
    &&& forall|i: int, j: int|
        0 <= i < j < pairs.len() ==> (#[trigger] pairs[i]).0 != (#[trigger] pairs[j]).0
    &&& forall|i: int, j: int|
        0 <= i < j < pairs.len() ==> hash_spec((#[trigger] pairs[i]).0) <= hash_spec(
            (#[trigger] pairs[j]).0,
        )
}

/// The value under `key`.
pub open spec fn hash_lookup(pairs: Seq<Pair>, attr: InternalMapAttr, key: Seq<u8>) -> Result<
    Seq<u8>,
    BpfErrorCode,
> {
    if key.len() != attr.key_size {
        Err(BpfErrorCode::EINVAL)
    } else if has_key(pairs, key) {
        Ok(pairs[position(pairs, key)].1)
    } else {
        Err(BpfErrorCode::ENOENT)
    }
}

/// The pairs after an update. A flag other than `BPF_ANY`, `BPF_NOEXIST` and
/// `BPF_EXIST` is refused first. A key that is present gets the new value in
/// place, unless the caller asked for a fresh insert. A key that is absent is
/// put at its slot, unless the caller asked for an overwrite or the map is full.
pub open spec fn hash_update(
    pairs: Seq<Pair>,
    attr: InternalMapAttr,
    key: Seq<u8>,
    value: Seq<u8>,
    flags: u64,
) -> Result<Seq<Pair>, BpfErrorCode> {
    if !(flags == BPF_ANY || flags == BPF_EXIST || flags == BPF_NOEXIST) {
        Err(BpfErrorCode::EINVAL)
    } else if key.len() != attr.key_size || value.len() != attr.value_size {
        Err(BpfErrorCode::EINVAL)
    } else if has_key(pairs, key) {
        if flags == BPF_NOEXIST {
            Err(BpfErrorCode::EEXIST)
        } else {
            Ok(pairs.update(position(pairs, key), (key, value)))
        }
    } else if flags == BPF_EXIST {
        Err(BpfErrorCode::ENOENT)
    } else if pairs.len() >= attr.max_entries {
        Err(BpfErrorCode::ENOMEM)
    } else {
        Ok(pairs.insert(slot(pairs, hash_spec(key)), (key, value)))
    }
}

/// The pairs after `key` was removed.
pub open spec fn hash_delete(pairs: Seq<Pair>, attr: InternalMapAttr, key: Seq<u8>) -> Result<
    Seq<Pair>,
    BpfErrorCode,
> {
    if key.len() != attr.key_size {
        Err(BpfErrorCode::EINVAL)
    } else if has_key(pairs, key) {
        Ok(pairs.remove(position(pairs, key)))
    } else {
        Err(BpfErrorCode::ENOENT)
    }
}

/// The key after `key`: the one behind it where `key` is present, the first
/// one where it is not.
pub open spec fn hash_next_key(pairs: Seq<Pair>, attr: InternalMapAttr, key: Seq<u8>) -> Result<
    Seq<u8>,
    BpfErrorCode,
> {
    if key.len() != attr.key_size {
        Err(BpfErrorCode::EINVAL)
    } else if has_key(pairs, key) {
        if position(pairs, key) + 1 < pairs.len() {
            Ok(pairs[position(pairs, key) + 1].0)
        } else {
            Err(BpfErrorCode::ENOENT)
        }
    } else if pairs.len() > 0 {
        Ok(pairs[0].0)
    } else {
        Err(BpfErrorCode::ENOENT)
    }
}

/// Where keys are distinct, a key is found at the one place where it stands.
pub proof fn lemma_position(pairs: Seq<Pair>, attr: InternalMapAttr, at: int)
    requires
        pairs_wf(pairs, attr),
        0 <= at < pairs.len(),
    ensures
        has_key(pairs, pairs[at].0),
        position(pairs, pairs[at].0) == at,
{
    let key = pairs[at].0;
    let p = position(pairs, key);
    assert(pairs[p].0 == key);
    if p < at {
        assert(pairs[p].0 != pairs[at].0);
    } else if at < p {
        assert(pairs[at].0 != pairs[p].0);
    }
}

/// Where hash codes ascend, there is one slot for a hash code.
pub proof fn lemma_slot(pairs: Seq<Pair>, attr: InternalMapAttr, code: HashCode, at: int)
    requires
        pairs_wf(pairs, attr),
        is_slot(pairs, code, at),
    ensures
        slot(pairs, code) == at,
{
    let s = slot(pairs, code);
    assert(is_slot(pairs, code, s));
    if s < at {
        assert(hash_spec(pairs[s].0) <= code);
        assert(hash_spec(pairs[s].0) > code);
    } else if at < s {
        assert(hash_spec(pairs[at].0) <= code);
        assert(hash_spec(pairs[at].0) > code);
    }
}

/// Where hash codes ascend, every hash code has a slot.
pub proof fn lemma_slot_exists(pairs: Seq<Pair>, attr: InternalMapAttr, code: HashCode) -> (at: int)
    requires
        pairs_wf(pairs, attr),
    ensures
        is_slot(pairs, code, at),
        slot(pairs, code) == at,
    decreases pairs.len(),
{
    let at = if pairs.len() == 0 {
        0
    } else {
        let front = pairs.drop_last();
        let inner_attr = attr;
        assert(pairs_wf(front, inner_attr)) by {
            assert forall|i: int, j: int| 0 <= i < j < front.len() implies (#[trigger] front[i]).0
                != (#[trigger] front[j]).0 by {
                assert(pairs[i].0 != pairs[j].0);
            }
            assert forall|i: int, j: int| 0 <= i < j < front.len() implies hash_spec(
                (#[trigger] front[i]).0,
            ) <= hash_spec((#[trigger] front[j]).0) by {
                assert(hash_spec(pairs[i].0) <= hash_spec(pairs[j].0));
            }
            assert forall|i: int| 0 <= i < front.len() implies (#[trigger] front[i]).0.len()
                == attr.key_size && front[i].1.len() == attr.value_size by {
                assert(pairs[i].0.len() == attr.key_size);
            }
        }
        let inner = lemma_slot_exists(front, attr, code);
        if hash_spec(pairs.last().0) <= code {
            assert forall|i: int| 0 <= i < pairs.len() implies hash_spec((#[trigger] pairs[i]).0)
                <= code by {
                if i < pairs.len() - 1 {
                    assert(hash_spec(pairs[i].0) <= hash_spec(pairs[pairs.len() - 1].0));
                }
            }
            pairs.len() as int
        } else {
            assert forall|i: int| inner <= i < pairs.len() implies hash_spec(
                (#[trigger] pairs[i]).0,
            ) > code by {
                if i < pairs.len() - 1 {
                    assert(hash_spec(front[i].0) > code);
                }
            }
            assert forall|i: int| 0 <= i < inner implies hash_spec((#[trigger] pairs[i]).0)
                <= code by {
                assert(hash_spec(front[i].0) <= code);
            }
            inner
        }
    };
    lemma_slot(pairs, attr, code, at);
    at
}

/// An update that succeeds leaves well-formed pairs in which a lookup of the
/// key gives the value that was stored, byte for byte, and every other key
/// gives what it gave before.
pub proof fn lemma_update_then_lookup(
    pairs: Seq<Pair>,
    attr: InternalMapAttr,
    key: Seq<u8>,
    value: Seq<u8>,
    flags: u64,
    other: Seq<u8>,
)
    requires
        pairs_wf(pairs, attr),
        hash_update(pairs, attr, key, value, flags) is Ok,
    ensures
        pairs_wf(hash_update(pairs, attr, key, value, flags)->Ok_0, attr),
        hash_lookup(hash_update(pairs, attr, key, value, flags)->Ok_0, attr, key) == Ok::<
            Seq<u8>,
            BpfErrorCode,
        >(value),
        other != key ==> hash_lookup(
            hash_update(pairs, attr, key, value, flags)->Ok_0,
            attr,
            other,
        ) == hash_lookup(pairs, attr, other),
{
    let after = hash_update(pairs, attr, key, value, flags)->Ok_0;
    if has_key(pairs, key) {
        let p = position(pairs, key);
        assert(pairs[p].0 == key);
        assert(after =~= pairs.update(p, (key, value)));
        assert forall|i: int| 0 <= i < after.len() implies (#[trigger] after[i]).0 == pairs[i].0 by {}
        assert(pairs_wf(after, attr)) by {
            assert forall|i: int, j: int| 0 <= i < j < after.len() implies (#[trigger] after[i]).0
                != (#[trigger] after[j]).0 by {
                assert(pairs[i].0 != pairs[j].0);
            }
            assert forall|i: int, j: int| 0 <= i < j < after.len() implies hash_spec(
                (#[trigger] after[i]).0,
            ) <= hash_spec((#[trigger] after[j]).0) by {
                assert(hash_spec(pairs[i].0) <= hash_spec(pairs[j].0));
            }
            assert forall|i: int| 0 <= i < after.len() implies (#[trigger] after[i]).0.len()
                == attr.key_size && after[i].1.len() == attr.value_size by {
                assert(pairs[i].0.len() == attr.key_size);
            }
        }
        assert(after[p].0 == key);
        lemma_position(after, attr, p);
        if other != key {
            if has_key(pairs, other) {
                let q = position(pairs, other);
                assert(pairs[q].0 == other);
                assert(after[q].0 == other);
                lemma_position(after, attr, q);
            } else if has_key(after, other) {
                let q = position(after, other);
                assert(after[q].0 == other);
                assert(pairs[q].0 == other);
            }
        }
    } else {
        let at = lemma_slot_exists(pairs, attr, hash_spec(key));
        assert(after =~= pairs.insert(at, (key, value)));
        assert(pairs_wf(after, attr)) by {
            assert forall|i: int, j: int| 0 <= i < j < after.len() implies (#[trigger] after[i]).0
                != (#[trigger] after[j]).0 by {
                let i0 = if i < at { i } else { i - 1 };
                let j0 = if j < at { j } else { j - 1 };
                if i == at {
                    assert(pairs[j0].0 != key);
                } else if j == at {
                    assert(pairs[i0].0 != key);
                } else {
                    assert(pairs[i0].0 != pairs[j0].0);
                }
            }
            assert forall|i: int, j: int| 0 <= i < j < after.len() implies hash_spec(
                (#[trigger] after[i]).0,
            ) <= hash_spec((#[trigger] after[j]).0) by {
                let i0 = if i < at { i } else { i - 1 };
                let j0 = if j < at { j } else { j - 1 };
                if i == at {
                    assert(hash_spec(pairs[j0].0) > hash_spec(key));
                } else if j == at {
                    assert(hash_spec(pairs[i0].0) <= hash_spec(key));
                } else {
                    assert(hash_spec(pairs[i0].0) <= hash_spec(pairs[j0].0));
                }
            }
            assert forall|i: int| 0 <= i < after.len() implies (#[trigger] after[i]).0.len()
                == attr.key_size && after[i].1.len() == attr.value_size by {
                let i0 = if i < at { i } else { i - 1 };
                if i != at {
                    assert(pairs[i0].0.len() == attr.key_size);
                }
            }
        }
        assert(after[at].0 == key);
        lemma_position(after, attr, at);
        if other != key {
            if has_key(pairs, other) {
                let q = position(pairs, other);
                assert(pairs[q].0 == other);
                let q1 = if q < at { q } else { q + 1 };
                assert(after[q1].0 == other);
                lemma_position(after, attr, q1);
            } else if has_key(after, other) {
                let q = position(after, other);
                assert(after[q].0 == other);
                let q0 = if q < at { q } else { q - 1 };
                assert(pairs[q0].0 == other);
            }
        }
    }
}

/// The result of the call number `n` (counted from zero) where iteration
/// starts with `start` and each call is given the key that the call before
/// it returned.
pub open spec fn walk(pairs: Seq<Pair>, attr: InternalMapAttr, start: Seq<u8>, n: nat) -> Result<
    Seq<u8>,
    BpfErrorCode,
>
    decreases n,
{
    if n == 0 {
        hash_next_key(pairs, attr, start)
    } else {
        match walk(pairs, attr, start, (n - 1) as nat) {
            Ok(key) => hash_next_key(pairs, attr, key),
            Err(e) => Err(e),
        }
    }
}

/// The place from which iteration goes on after `start`.
pub open spec fn walk_from(pairs: Seq<Pair>, start: Seq<u8>) -> int {
    if has_key(pairs, start) {
        position(pairs, start) + 1
    } else {
        0
    }
}

proof fn lemma_walk(pairs: Seq<Pair>, attr: InternalMapAttr, start: Seq<u8>, n: nat)
    requires
        pairs_wf(pairs, attr),
        start.len() == attr.key_size,
        n <= pairs.len() - walk_from(pairs, start),
    ensures
        0 <= walk_from(pairs, start) <= pairs.len(),
        n < pairs.len() - walk_from(pairs, start) ==> walk(pairs, attr, start, n) == Ok::<
            Seq<u8>,
            BpfErrorCode,
        >(pairs[walk_from(pairs, start) + n].0),
        n == pairs.len() - walk_from(pairs, start) ==> walk(pairs, attr, start, n) == Err::<
            Seq<u8>,
            BpfErrorCode,
        >(BpfErrorCode::ENOENT),
    decreases n,
{
    let first = walk_from(pairs, start);
    if has_key(pairs, start) {
        assert(pairs[position(pairs, start)].0 == start);
    }
    if n > 0 {
        lemma_walk(pairs, attr, start, (n - 1) as nat);
        let at = first + n - 1;
        assert(walk(pairs, attr, start, (n - 1) as nat) == Ok::<Seq<u8>, BpfErrorCode>(
            pairs[at].0,
        ));
        lemma_position(pairs, attr, at);
        assert(pairs[at].0.len() == attr.key_size);
    }
}

/// Iteration ends, and visits no key twice. From any key of the right size,
/// the calls go through the pairs behind that key (through all pairs, where
/// the key is absent) one by one, and the call after the last pair fails with
/// `ENOENT`: that is after at most as many calls as the map has pairs.
pub proof fn lemma_iteration_ends(pairs: Seq<Pair>, attr: InternalMapAttr, start: Seq<u8>)
    requires
        pairs_wf(pairs, attr),
        start.len() == attr.key_size,
    ensures
        0 <= walk_from(pairs, start) <= pairs.len(),
        forall|n: nat|
            n < pairs.len() - walk_from(pairs, start) ==> #[trigger] walk(pairs, attr, start, n)
                == Ok::<Seq<u8>, BpfErrorCode>(pairs[walk_from(pairs, start) + n].0),
        walk(pairs, attr, start, (pairs.len() - walk_from(pairs, start)) as nat) == Err::<
            Seq<u8>,
            BpfErrorCode,
        >(BpfErrorCode::ENOENT),
        forall|m: nat, n: nat|
            m < n < pairs.len() - walk_from(pairs, start) ==> #[trigger] walk(
                pairs,
                attr,
                start,
                m,
            ) != #[trigger] walk(pairs, attr, start, n),
{
    let first = walk_from(pairs, start);
    lemma_walk(pairs, attr, start, 0);
    assert forall|n: nat| n < pairs.len() - first implies #[trigger] walk(pairs, attr, start, n)
        == Ok::<Seq<u8>, BpfErrorCode>(pairs[first + n].0) by {
        lemma_walk(pairs, attr, start, n);
    }
    lemma_walk(pairs, attr, start, (pairs.len() - first) as nat);
    assert forall|m: nat, n: nat| m < n < pairs.len() - first implies #[trigger] walk(
        pairs,
        attr,
        start,
        m,
    ) != #[trigger] walk(pairs, attr, start, n) by {
        lemma_walk(pairs, attr, start, m);
        lemma_walk(pairs, attr, start, n);
        assert(pairs[first + m].0 != pairs[first + n].0);
    }
}

/// One entry of the table, with the hash code of its key.
struct HashEntry {
    code: HashCode,
    key: Vec<u8>,
    value: Vec<u8>,
}

/// A hash map. The iteration order is the order of the table.
pub struct HashMap {
    attr: InternalMapAttr,
    map: Vec<HashEntry>,
}

impl HashMap {
    /// An empty hash map.
    pub fn new(attr: InternalMapAttr) -> (map: Self)
        ensures
            map.wf(),
            map.attr_spec() == attr,
            map.pairs() == Seq::<Pair>::empty(),
    {
        let map = Self { attr, map: Vec::new() };
        assert(map.pairs() =~= Seq::<Pair>::empty());
        map
    }

    /// The hash code of a key.
    pub fn hash(key: &[u8]) -> (code: HashCode)
        ensures
            code == hash_spec(key@),
    {
        let mut hash: HashCode = 0;
        let mut i: usize = 0;
        while i < key.len()
            invariant
                i <= key@.len(),
                hash == hash_spec(key@.subrange(0, i as int)),
            decreases key@.len() - i,
        {
            proof {
                let longer = key@.subrange(0, i + 1);
                assert(longer.drop_last() =~= key@.subrange(0, i as int));
                assert(longer.last() == key@[i as int]);
                assert(hash_spec(longer) == ((hash as int * 131313 + key@[i as int] as int)
                    % 0x1_0000_0000) as u32);
            }
            hash = hash.wrapping_mul(131313).wrapping_add(key[i] as HashCode);
            i += 1;
        }
        assert(key@.subrange(0, i as int) =~= key@);
        hash
    }

    /// A buffer of `size` zero bytes.
    pub fn zeroed(size: usize) -> (storage: Vec<u8>)
        ensures
            storage@ == Seq::new(size as nat, |i: int| 0u8),
    {
        let storage = vec![0u8; size];
        assert(storage@ =~= Seq::new(size as nat, |i: int| 0u8));
        storage
    }

    /// The first place whose hash code is not below `code`.
    fn first_at_least(&self, code: HashCode) -> (at: usize)
        requires
            self.wf(),
        ensures
            at <= self.map@.len(),
            forall|i: int| 0 <= i < at ==> (#[trigger] self.map@[i]).code < code,
            forall|i: int| at <= i < self.map@.len() ==> (#[trigger] self.map@[i]).code >= code,
    {
        let mut low: usize = 0;
        let mut high: usize = self.map.len();
        while low < high
            invariant
                self.wf(),
                low <= high <= self.map@.len(),
                forall|i: int| 0 <= i < low ==> (#[trigger] self.map@[i]).code < code,
                forall|i: int| high <= i < self.map@.len() ==> (#[trigger] self.map@[i]).code >= code,
            decreases high - low,
        {
            let mid = low + (high - low) / 2;
            if self.map[mid].code < code {
                assert forall|i: int| 0 <= i < mid + 1 implies (#[trigger] self.map@[i]).code
                    < code by {
                    if i < mid {
                        assert(self.map@[i].code <= self.map@[mid as int].code);
                    }
                }
                low = mid + 1;
            } else {
                assert forall|i: int| mid <= i < self.map@.len() implies (
                #[trigger] self.map@[i]).code >= code by {
                    if mid < i {
                        assert(self.map@[mid as int].code <= self.map@[i].code);
                    }
                }
                high = mid;
            }
        }
        low
    }

    /// Looks for `key`: the place of its entry, or else the slot at which it
    /// would be put.
    fn find(&self, key: &[u8], code: HashCode) -> (r: Result<usize, usize>)
        requires
            self.wf(),
            key@.len() == self.attr.key_size,
            code == hash_spec(key@),
        ensures
            match r {
                Ok(at) => has_key(self.pairs(), key@) && at == position(self.pairs(), key@) && at
                    < self.map@.len(),
                Err(at) => !has_key(self.pairs(), key@) && at == slot(self.pairs(), code)
                    && is_slot(self.pairs(), code, at as int),
            },
    {
        let mut at = self.first_at_least(code);
        proof {
            self.lemma_pairs();
        }
        while at < self.map.len() && self.map[at].code == code
            invariant
                self.wf(),
                pairs_wf(self.pairs(), self.attr),
                at <= self.map@.len(),
                key@.len() == self.attr.key_size,
                code == hash_spec(key@),
                forall|i: int| 0 <= i < at ==> (#[trigger] self.map@[i]).code <= code,
                forall|i: int| 0 <= i < at ==> (#[trigger] self.map@[i]).key@ != key@,
                forall|i: int| at <= i < self.map@.len() ==> (#[trigger] self.map@[i]).code >= code,
            decreases self.map@.len() - at,
        {
            if bytes_equal(self.map[at].key.as_slice(), key, self.attr.key_size) {
                assert(self.map@[at as int].key@ =~= self.map@[at as int].key@.subrange(
                    0,
                    self.attr.key_size as int,
                ));
                assert(key@ =~= key@.subrange(0, self.attr.key_size as int));
                assert(self.pairs()[at as int].0 == key@);
                proof {
                    lemma_position(self.pairs(), self.attr, at as int);
                }
                return Ok(at);
            }
            proof {
                assert(self.map@[at as int].key@ =~= self.map@[at as int].key@.subrange(
                    0,
                    self.attr.key_size as int,
                ));
                assert(key@ =~= key@.subrange(0, self.attr.key_size as int));
            }
            at += 1;
        }
        proof {
            let pairs = self.pairs();
            assert forall|i: int| at <= i < pairs.len() implies hash_spec((#[trigger] pairs[i]).0)
                > code by {
                assert(self.map@[at as int].code <= self.map@[i].code);
            }
            assert forall|i: int| 0 <= i < at implies hash_spec((#[trigger] pairs[i]).0)
                <= code by {
                assert(self.map@[i].code <= code);
            }
            assert(is_slot(pairs, code, at as int));
            lemma_slot(pairs, self.attr, code, at as int);
            if has_key(pairs, key@) {
                let p = position(pairs, key@);
                assert(pairs[p].0 == key@);
                assert(self.map@[p].key@ == key@);
                assert(self.map@[p].code == code);
            }
        }
        Err(at)
    }

    /// What `wf` says of the pairs.
    pub proof fn lemma_pairs(&self)
        requires
            self.wf(),
        ensures
            pairs_wf(self.pairs(), self.attr_spec()),
    {
        let pairs = self.pairs();
        assert forall|i: int, j: int| 0 <= i < j < pairs.len() implies hash_spec(
            (#[trigger] pairs[i]).0,
        ) <= hash_spec((#[trigger] pairs[j]).0) by {
            assert(self.map@[i].code <= self.map@[j].code);
        }
        assert forall|i: int, j: int| 0 <= i < j < pairs.len() implies (#[trigger] pairs[i]).0 != (
        #[trigger] pairs[j]).0 by {
            assert(self.map@[i].key@ != self.map@[j].key@);
        }
    }
}

impl BpfMap for HashMap {
    closed spec fn wf(&self) -> bool {
        &&& self.map@.len() <= self.attr.max_entries
        &&& forall|i: int|
            0 <= i < self.map@.len() ==> {
                &&& (#[trigger] self.map@[i]).key@.len() == self.attr.key_size
                &&& self.map@[i].value@.len() == self.attr.value_size
                &&& self.map@[i].code == hash_spec(self.map@[i].key@)
            }
        &&& forall|i: int, j: int|
            0 <= i < j < self.map@.len() ==> (#[trigger] self.map@[i]).key@ != (
            #[trigger] self.map@[j]).key@
        &&& forall|i: int, j: int|
            0 <= i < j < self.map@.len() ==> (#[trigger] self.map@[i]).code <= (
            #[trigger] self.map@[j]).code
    }

    closed spec fn attr_spec(&self) -> InternalMapAttr {
        self.attr
    }

    closed spec fn pairs(&self) -> Seq<Pair> {
        Seq::new(self.map@.len(), |i: int| (self.map@[i].key@, self.map@[i].value@))
    }

    open spec fn lookup_spec(&self, key: Seq<u8>) -> Result<Seq<u8>, BpfErrorCode> {
        hash_lookup(self.pairs(), self.attr_spec(), key)
    }

    open spec fn update_spec(&self, key: Seq<u8>, value: Seq<u8>, flags: u64) -> Result<
        Seq<Pair>,
        BpfErrorCode,
    > {
        hash_update(self.pairs(), self.attr_spec(), key, value, flags)
    }

    open spec fn delete_spec(&self, key: Seq<u8>) -> Result<Seq<Pair>, BpfErrorCode> {
        hash_delete(self.pairs(), self.attr_spec(), key)
    }

    open spec fn next_key_spec(&self, key: Seq<u8>) -> Result<Seq<u8>, BpfErrorCode> {
        hash_next_key(self.pairs(), self.attr_spec(), key)
    }

    fn lookup(&self, key: &[u8], value: &mut [u8]) -> (r: BpfResult) {
        if value.len() != self.attr.value_size || key.len() != self.attr.key_size {
            return Err(BpfErrorCode::EINVAL);
        }
        match self.find(key, HashMap::hash(key)) {
            Ok(at) => {
                copy(value, self.map[at].value.as_slice(), self.attr.value_size);
                assert(value@ =~= value@.subrange(0, self.attr.value_size as int));
                assert(self.map@[at as int].value@ =~= self.map@[at as int].value@.subrange(
                    0,
                    self.attr.value_size as int,
                ));
                Ok(0)
            },
            Err(_) => Err(BpfErrorCode::ENOENT),
        }
    }

    fn update(&mut self, key: &[u8], value: &[u8], flags: u64) -> (r: BpfResult) {
        if !(flags == BPF_ANY || flags == BPF_EXIST || flags == BPF_NOEXIST) {
            return Err(BpfErrorCode::EINVAL);
        }
        let key_size = self.attr.key_size;
        let value_size = self.attr.value_size;
        if key.len() != key_size || value.len() != value_size {
            return Err(BpfErrorCode::EINVAL);
        }
        let code = HashMap::hash(key);
        match self.find(key, code) {
            Ok(at) => {
                if flags == BPF_NOEXIST {
                    return Err(BpfErrorCode::EEXIST);
                }
                copy(self.map[at].value.as_mut_slice(), value, value_size);
                proof {
                    assert(self.map@.len() == old(self).map@.len());
                    assert(self.map@[at as int].key == old(self).map@[at as int].key);
                    assert(self.map@[at as int].code == old(self).map@[at as int].code);
                    assert(self.map@[at as int].value@.len() == value_size);
                    assert(forall|i: int|
                        0 <= i < self.map@.len() && i != at ==> self.map@[i] == old(self).map@[i]);
                    assert(self.map@[at as int].value@ =~= value@) by {
                        assert(self.map@[at as int].value@ =~= self.map@[at as int].value@.subrange(
                            0,
                            value_size as int,
                        ));
                        assert(value@ =~= value@.subrange(0, value_size as int));
                    }
                    assert(self.pairs() =~= old(self).pairs().update(at as int, (key@, value@)));
                }
                Ok(0)
            },
            Err(at) => {
                if flags == BPF_EXIST {
                    return Err(BpfErrorCode::ENOENT);
                }
                if self.map.len() >= self.attr.max_entries {
                    return Err(BpfErrorCode::ENOMEM);
                }
                let mut map_key = HashMap::zeroed(key_size);
                let mut map_value = HashMap::zeroed(value_size);
                copy(map_key.as_mut_slice(), key, key_size);
                copy(map_value.as_mut_slice(), value, value_size);
                proof {
                    assert(map_key@ =~= map_key@.subrange(0, key_size as int));
                    assert(key@ =~= key@.subrange(0, key_size as int));
                    assert(map_value@ =~= map_value@.subrange(0, value_size as int));
                    assert(value@ =~= value@.subrange(0, value_size as int));
                    old(self).lemma_pairs();
                    assert(is_slot(old(self).pairs(), code, at as int));
                }
                self.map.insert(at, HashEntry { code, key: map_key, value: map_value });
                proof {
                    let before = old(self).map@;
                    assert forall|i: int, j: int| 0 <= i < j < self.map@.len() implies (
                    #[trigger] self.map@[i]).key@ != (#[trigger] self.map@[j]).key@ by {
                        if i == at {
                            assert(old(self).pairs()[j - 1].0 == before[j - 1].key@);
                        } else if j == at {
                            assert(old(self).pairs()[i].0 == before[i].key@);
                        }
                    }
                    assert forall|i: int, j: int| 0 <= i < j < self.map@.len() implies (
                    #[trigger] self.map@[i]).code <= (#[trigger] self.map@[j]).code by {
                        if i == at {
                            assert(hash_spec(old(self).pairs()[j - 1].0) > code);
                        } else if j == at {
                            assert(hash_spec(old(self).pairs()[i].0) <= code);
                        } else {
                            let i0 = if i < at { i } else { i - 1 };
                            let j0 = if j < at { j } else { j - 1 };
                            assert(before[i0].code <= before[j0].code);
                        }
                    }
                    assert(self.pairs() =~= old(self).pairs().insert(at as int, (key@, value@)));
                }
                Ok(0)
            },
        }
    }

    fn delete(&mut self, key: &[u8]) -> (r: BpfResult) {
        if key.len() != self.attr.key_size {
            return Err(BpfErrorCode::EINVAL);
        }
        match self.find(key, HashMap::hash(key)) {
            Ok(at) => {
                let _ = self.map.remove(at);
                proof {
                    let before = old(self).map@;
                    assert forall|i: int, j: int| 0 <= i < j < self.map@.len() implies (
                    #[trigger] self.map@[i]).key@ != (#[trigger] self.map@[j]).key@ by {
                        let i0 = if i < at { i } else { i + 1 };
                        let j0 = if j < at { j } else { j + 1 };
                        assert(before[i0].key@ != before[j0].key@);
                    }
                    assert forall|i: int, j: int| 0 <= i < j < self.map@.len() implies (
                    #[trigger] self.map@[i]).code <= (#[trigger] self.map@[j]).code by {
                        let i0 = if i < at { i } else { i + 1 };
                        let j0 = if j < at { j } else { j + 1 };
                        assert(before[i0].code <= before[j0].code);
                    }
                    assert(self.pairs() =~= old(self).pairs().remove(at as int));
                }
                Ok(0)
            },
            Err(_) => Err(BpfErrorCode::ENOENT),
        }
    }

    fn next_key(&self, key: &[u8], next_key: &mut [u8]) -> (r: BpfResult) {
        let key_size = self.attr.key_size;
        if next_key.len() != key_size || key.len() != key_size {
            return Err(BpfErrorCode::EINVAL);
        }
        let next = match self.find(key, HashMap::hash(key)) {
            Ok(at) => at + 1,
            Err(_) => 0,
        };
        if next < self.map.len() {
            copy(next_key, self.map[next].key.as_slice(), key_size);
            assert(next_key@ =~= next_key@.subrange(0, key_size as int));
            assert(self.map@[next as int].key@ =~= self.map@[next as int].key@.subrange(
                0,
                key_size as int,
            ));
            Ok(0)
        } else {
            Err(BpfErrorCode::ENOENT)
        }
    }

    fn get_attr(&self) -> (attr: InternalMapAttr) {
        self.attr
    }

    fn lookup_helper(&self, key: &[u8]) -> (r: BpfResult) {
        if key.len() != self.attr.key_size {
            return Err(BpfErrorCode::EINVAL);
        }
        match self.find(key, HashMap::hash(key)) {
            Ok(at) => Ok(buffer_addr(&self.map[at].value)),
            Err(_) => Err(BpfErrorCode::ENOENT),
        }
    }
}

} // verus!
