//! The heap: byte blocks keyed by small dense addresses.
//!
//! Freed addresses are kept in a descending-sorted list and reused smallest
//! first; when none is free, the next address is the current block count.
//! The store itself is an association list whose keys stay unique; its
//! mathematical model is the map `map_of` derives from it.

use vstd::prelude::*;

use crate::error::VMError;

verus! {

/// The mathematical content of the heap: the blocks in insertion order and
/// the freed addresses, largest first.
pub ghost struct MemView {
    pub blocks: Seq<(u64, Seq<u8>)>,
    pub freed: Seq<u64>,
}

/// The map a block list denotes; a later entry for a key overrides an
/// earlier one, though the store never keeps two entries for one key.
pub open spec fn map_of(b: Seq<(u64, Seq<u8>)>) -> Map<u64, Seq<u8>>
    decreases b.len(),
{
    if b.len() == 0 {
        Map::empty()
    } else {
        map_of(b.drop_last()).insert(b.last().0, b.last().1)
    }
}

/// Whether some entry of `b` has key `a`.
pub open spec fn contains_key(b: Seq<(u64, Seq<u8>)>, a: u64) -> bool {
    exists|i: int| 0 <= i < b.len() && b[i].0 == a
}

/// Whether no two entries of `b` share a key.
pub open spec fn keys_unique(b: Seq<(u64, Seq<u8>)>) -> bool {
    forall|i: int, j: int| 0 <= i < j < b.len() ==> b[i].0 != b[j].0
}

/// The total number of bytes held by the blocks of `b`.
pub open spec fn total_of(b: Seq<(u64, Seq<u8>)>) -> int
    decreases b.len(),
{
    if b.len() == 0 {
        0
    } else {
        total_of(b.drop_last()) + b.last().1.len()
    }
}

/// Whether `f` is strictly descending.
pub open spec fn sorted_desc(f: Seq<u64>) -> bool {
    forall|i: int, j: int| 0 <= i < j < f.len() ==> f[i] > f[j]
}

/// `f` with `a` inserted at its place in descending order.
pub open spec fn insert_desc(f: Seq<u64>, a: u64) -> Seq<u64>
    decreases f.len(),
{
    if f.len() == 0 {
        seq![a]
    } else if f[0] > a {
        seq![f[0]] + insert_desc(f.skip(1), a)
    } else {
        seq![a] + f
    }
}

/// A sequence of `n` zero bytes.
pub open spec fn zeros(n: nat) -> Seq<u8> {
    Seq::new(n, |i: int| 0u8)
}

/// Well-formedness of the heap: unique keys, freed addresses sorted
/// strictly descending and disjoint from the live keys, and every live or
/// freed address lying below the count of both together.
pub open spec fn mem_wf(v: MemView) -> bool {
    &&& keys_unique(v.blocks)
    &&& sorted_desc(v.freed)
    &&& forall|k: int| 0 <= k < v.freed.len() ==> !contains_key(v.blocks, #[trigger] v.freed[k])
    &&& forall|a: u64|
        (contains_key(v.blocks, a) || v.freed.contains(a)) ==> a < v.blocks.len() + v.freed.len()
}

/// An addressable store of byte blocks with reuse of freed addresses.
#[derive(Debug)]
pub struct Memory {
    blocks: Vec<(u64, Vec<u8>)>,
    freed: Vec<u64>,
}

impl View for Memory {
    type V = MemView;

    closed spec fn view(&self) -> MemView {
        MemView {
            blocks: Seq::new(self.blocks@.len(), |i: int| (self.blocks@[i].0, self.blocks@[i].1@)),
            freed: self.freed@,
        }
    }
}

impl Memory {
    /// The map this heap denotes.
    pub open spec fn mem(self) -> Map<u64, Seq<u8>> {
        map_of(self@.blocks)
    }

    /// The freed addresses, largest first.
    pub open spec fn freed_view(self) -> Seq<u64> {
        self@.freed
    }

    /// The store keeps one entry per key.
    pub open spec fn keys_ok(self) -> bool {
        keys_unique(self@.blocks)
    }

    /// The address the next allocation will use, and the freed list it will
    /// leave behind.
    pub open spec fn spec_alloc_addr(self) -> (u64, Seq<u64>) {
        if self@.freed.len() > 0 {
            (self@.freed.last(), self@.freed.drop_last())
        } else {
            (self@.blocks.len() as u64, self@.freed)
        }
    }

    /// An empty heap.
    pub fn new() -> (r: Memory)
        ensures
            r.keys_ok(),
            r.mem() == Map::<u64, Seq<u8>>::empty(),
            r.freed_view() == Seq::<u64>::empty(),
            mem_wf(r@),
    {
        let r = Memory { blocks: Vec::new(), freed: Vec::new() };
        proof {
            assert(r@.blocks =~= Seq::<(u64, Seq<u8>)>::empty());
            assert(forall|a: u64| !(contains_key(r@.blocks, a) || r@.freed.contains(a)));
        }
        r
    }

    /// The index of the entry with key `address`, if one exists.
    fn find(&self, address: u64) -> (r: Option<usize>)
        ensures
            match r {
                Some(i) => i < self@.blocks.len() && self@.blocks[i as int].0 == address
                    && contains_key(self@.blocks, address),
                None => !contains_key(self@.blocks, address),
            },
    {
        let mut i: usize = 0;
        #[verifier::loop_isolation(false)]
        while i < self.blocks.len()
            invariant
                i <= self@.blocks.len(),
                forall|j: int| 0 <= j < i ==> self@.blocks[j].0 != address,
            decreases self@.blocks.len() - i,
        {
            if self.blocks[i].0 == address {
                proof {
                    assert(self@.blocks[i as int].0 == address);
                }
                return Some(i);
            }
            i = i + 1;
        }
        None
    }

    /// Stores `data` under `address`, replacing an entry with that key or
    /// appending a new one.
    fn insert_block(&mut self, address: u64, data: Vec<u8>)
        requires
            old(self).keys_ok(),
        ensures
            final(self).keys_ok(),
            final(self).mem() == old(self).mem().insert(address, data@),
            final(self).freed_view() == old(self).freed_view(),
            contains_key(final(self)@.blocks, address),
            forall|a: u64|
                contains_key(final(self)@.blocks, a) <==> (contains_key(old(self)@.blocks, a)
                    || a == address),
            final(self)@.blocks.len() == old(self)@.blocks.len() + (
            if contains_key(old(self)@.blocks, address) {
                0int
            } else {
                1int
            }),
    {
        let ghost pre = self@.blocks;
        let ghost vdata = data@;
        match self.find(address) {
            Some(i) => {
                self.blocks.set(i, (address, data));
                proof {
                    assert(self@.blocks =~= pre.update(i as int, (address, vdata)));
                    lemma_map_of_update(pre, i as int, address, vdata);
                    assert(self@.blocks[i as int].0 == address);
                    assert forall|a: u64| contains_key(self@.blocks, a) implies (contains_key(
                        pre,
                        a,
                    ) || a == address) by {
                        let w = choose|k: int|
                            0 <= k < self@.blocks.len() && self@.blocks[k].0 == a;
                        if w != i {
                            assert(pre[w].0 == a);
                        }
                    }
                    assert forall|a: u64| contains_key(pre, a) implies contains_key(
                        self@.blocks,
                        a,
                    ) by {
                        let w = choose|k: int| 0 <= k < pre.len() && pre[k].0 == a;
                        if w != i {
                            assert(self@.blocks[w].0 == a);
                        } else {
                            assert(pre[w].0 == address);
                        }
                    }
                }
            },
            None => {
                self.blocks.push((address, data));
                proof {
                    assert(self@.blocks.drop_last() =~= pre);
                    assert(self@.blocks.last() == (address, vdata));
                    assert(map_of(self@.blocks) == map_of(pre).insert(address, vdata));
                    assert(keys_unique(self@.blocks)) by {
                        assert forall|p: int, q: int|
                            0 <= p < q < self@.blocks.len() implies self@.blocks[p].0
                            != self@.blocks[q].0 by {
                            if q == self@.blocks.len() - 1 {
                                assert(pre[p].0 == self@.blocks[p].0);
                                if self@.blocks[p].0 == address {
                                    assert(contains_key(pre, address));
                                }
                            } else {
                                assert(pre[p] == self@.blocks[p] && pre[q] == self@.blocks[q]);
                            }
                        }
                    }
                    assert(self@.blocks[self@.blocks.len() - 1].0 == address);
                    assert forall|a: u64| contains_key(self@.blocks, a) implies (contains_key(
                        pre,
                        a,
                    ) || a == address) by {
                        let w = choose|k: int|
                            0 <= k < self@.blocks.len() && self@.blocks[k].0 == a;
                        if w < pre.len() {
                            assert(pre[w].0 == a);
                        }
                    }
                    assert forall|a: u64| contains_key(pre, a) implies contains_key(
                        self@.blocks,
                        a,
                    ) by {
                        let w = choose|k: int| 0 <= k < pre.len() && pre[k].0 == a;
                        assert(self@.blocks[w].0 == a);
                    }
                }
            },
        }
    }

    /// Takes the next free address: the smallest freed one, else the block
    /// count.
    fn alloc_next_address(&mut self) -> (r: u64)
        ensures
            r == old(self).spec_alloc_addr().0,
            final(self).freed_view() == old(self).spec_alloc_addr().1,
            final(self)@.blocks == old(self)@.blocks,
    {
        match self.freed.pop() {
            Some(a) => a,
            None => self.blocks.len() as u64,
        }
    }

    /// Allocates a zero-filled block of `size` bytes and returns its
    /// address: the smallest freed address, or the block count when none is
    /// free.
    pub fn allocate(&mut self, size: u64) -> (r: Option<u64>)
        requires
            old(self).keys_ok(),
        ensures
            final(self).keys_ok(),
            r == Some(old(self).spec_alloc_addr().0),
            final(self).mem() == old(self).mem().insert(
                old(self).spec_alloc_addr().0,
                zeros(size as nat),
            ),
            final(self).freed_view() == old(self).spec_alloc_addr().1,
            mem_wf(old(self)@) ==> mem_wf(final(self)@) && !old(self).mem().contains_key(
                old(self).spec_alloc_addr().0,
            ),
    {
        let ghost prev = *self;
        let address = self.alloc_next_address();
        let n = self.blocks.len();
        let mut data: Vec<u8> = Vec::new();
        let mut i: u64 = 0;
        #[verifier::loop_isolation(false)]
        while i < size
            invariant
                i <= size,
                data@ =~= zeros(i as nat),
            decreases size - i,
        {
            data.push(0);
            i = i + 1;
        }
        proof {
            assert(prev@.blocks.len() == n);
            if mem_wf(prev@) {
                lemma_map_of_contains(prev@.blocks);
                lemma_alloc_fresh(prev@);
            }
        }
        self.insert_block(address, data);
        proof {
            if mem_wf(prev@) {
                lemma_alloc_wf(prev@, self@, address);
            }
        }
        Some(address)
    }

    /// Allocates a block holding `bytes` and returns its address, chosen as
    /// in `allocate`.
    pub fn allocate_with(&mut self, bytes: Vec<u8>) -> (r: Option<u64>)
        requires
            old(self).keys_ok(),
        ensures
            final(self).keys_ok(),
            r == Some(old(self).spec_alloc_addr().0),
            final(self).mem() == old(self).mem().insert(old(self).spec_alloc_addr().0, bytes@),
            final(self).freed_view() == old(self).spec_alloc_addr().1,
            mem_wf(old(self)@) ==> mem_wf(final(self)@) && !old(self).mem().contains_key(
                old(self).spec_alloc_addr().0,
            ),
    {
        let ghost prev = *self;
        let address = self.alloc_next_address();
        let n = self.blocks.len();
        proof {
            assert(prev@.blocks.len() == n);
            if mem_wf(prev@) {
                lemma_map_of_contains(prev@.blocks);
                lemma_alloc_fresh(prev@);
            }
        }
        self.insert_block(address, bytes);
        proof {
            if mem_wf(prev@) {
                lemma_alloc_wf(prev@, self@, address);
            }
        }
        Some(address)
    }

    /// Replaces the block at an occupied `address` with `data`; fails
    /// without effect when the address is vacant.
    pub fn assign(&mut self, address: u64, data: Vec<u8>) -> (r: bool)
        requires
            old(self).keys_ok(),
        ensures
            final(self).keys_ok(),
            r == old(self).mem().contains_key(address),
            final(self).freed_view() == old(self).freed_view(),
            r ==> final(self).mem() == old(self).mem().insert(address, data@),
            !r ==> *final(self) == *old(self),
            mem_wf(old(self)@) ==> mem_wf(final(self)@),
    {
        proof {
            lemma_map_of_contains(self@.blocks);
        }
        match self.find(address) {
            Some(_) => {},
            None => {
                return false;
            },
        }
        self.insert_block(address, data);
        proof {
            if mem_wf(old(self)@) {
                assert(self@.blocks.len() == old(self)@.blocks.len());
                assert(self@.freed == old(self)@.freed);
                assert(mem_wf(self@)) by {
                    assert(forall|a: u64|
                        contains_key(self@.blocks, a) == contains_key(old(self)@.blocks, a));
                }
            }
        }
        true
    }

    /// Stores `data` at a vacant `address`; fails without effect when the
    /// address is occupied.
    pub fn assign_empty(&mut self, address: u64, data: Vec<u8>) -> (r: bool)
        requires
            old(self).keys_ok(),
        ensures
            final(self).keys_ok(),
            r == !old(self).mem().contains_key(address),
            final(self).freed_view() == old(self).freed_view(),
            r ==> final(self).mem() == old(self).mem().insert(address, data@)
                && final(self)@.blocks.len() == old(self)@.blocks.len() + 1 && (forall|a: u64|
                contains_key(final(self)@.blocks, a) <==> (contains_key(old(self)@.blocks, a) || a
                    == address)),
            !r ==> *final(self) == *old(self),
    {
        proof {
            lemma_map_of_contains(self@.blocks);
        }
        match self.find(address) {
            Some(_) => {
                return false;
            },
            None => {},
        }
        self.insert_block(address, data);
        true
    }

    /// Removes the block at `address` and records the address for reuse;
    /// fails without effect when the address is vacant.
    pub fn free(&mut self, address: &u64) -> (r: bool)
        requires
            old(self).keys_ok(),
        ensures
            final(self).keys_ok(),
            r == old(self).mem().contains_key(*address),
            r ==> final(self).mem() == old(self).mem().remove(*address)
                && final(self).freed_view() == insert_desc(old(self).freed_view(), *address)
                && final(self)@.blocks.len() + 1 == old(self)@.blocks.len() && (forall|a: u64|
                contains_key(final(self)@.blocks, a) <==> (contains_key(old(self)@.blocks, a) && a
                    != *address)),
            !r ==> *final(self) == *old(self),
            mem_wf(old(self)@) ==> mem_wf(final(self)@),
    {
        proof {
            lemma_map_of_contains(self@.blocks);
        }
        let i = match self.find(*address) {
            Some(i) => i,
            None => {
                return false;
            },
        };
        let ghost pre_blocks = self@.blocks;
        self.blocks.remove(i);
        proof {
            assert(self@.blocks =~= pre_blocks.remove(i as int));
            lemma_map_of_remove(pre_blocks, i as int);
            lemma_remove_contains(pre_blocks, i as int);
        }
        self.sorted_insert_freed(*address);
        proof {
            if mem_wf(old(self)@) {
                lemma_free_wf(old(self)@, self@, *address);
            }
        }
        true
    }

    /// Inserts `address` into the descending freed list.
    fn sorted_insert_freed(&mut self, address: u64)
        ensures
            final(self)@.blocks == old(self)@.blocks,
            final(self).freed_view() == insert_desc(old(self).freed_view(), address),
    {
        let mut i: usize = 0;
        #[verifier::loop_isolation(false)]
        while i < self.freed.len() && self.freed[i] > address
            invariant
                i <= self@.freed.len(),
                forall|j: int| 0 <= j < i ==> self@.freed[j] > address,
                self == old(self),
            decreases self@.freed.len() - i,
        {
            i = i + 1;
        }
        proof {
            lemma_insert_desc_at(self@.freed, address, i as int);
        }
        self.freed.insert(i, address);
        proof {
            assert(self@.blocks =~= old(self)@.blocks);
        }
    }

    /// A borrow of the block at `address`, if one exists.
    pub fn retrieve(&self, address: &u64) -> (r: Option<&Vec<u8>>)
        requires
            self.keys_ok(),
        ensures
            match r {
                Some(v) => self.mem().contains_key(*address) && v@ == self.mem()[*address],
                None => !self.mem().contains_key(*address),
            },
    {
        proof {
            lemma_map_of_contains(self@.blocks);
        }
        match self.find(*address) {
            Some(i) => {
                proof {
                    lemma_map_of_get(self@.blocks, i as int);
                }
                Some(&self.blocks[i].1)
            },
            None => None,
        }
    }

    /// Writes `value` at byte `offset` of the block at `address`.
    pub fn set(&mut self, address: &u64, offset: &u64, value: u8) -> (r: Result<(), VMError>)
        requires
            old(self).keys_ok(),
        ensures
            final(self).keys_ok(),
            final(self).freed_view() == old(self).freed_view(),
            final(self)@.blocks.len() == old(self)@.blocks.len(),
            (forall|a: u64|
                contains_key(final(self)@.blocks, a) == contains_key(old(self)@.blocks, a)),
            if !old(self).mem().contains_key(*address) {
                r == Err::<(), VMError>(VMError::FailedSetNoAddressError(*address))
                    && final(self).mem() == old(self).mem()
            } else if *offset >= old(self).mem()[*address].len() {
                r == Err::<(), VMError>(
                    VMError::IndexBeyondBoundsError(*offset, old(self).mem()[*address].len() as u64),
                ) && final(self).mem() == old(self).mem()
            } else {
                r == Ok::<(), VMError>(()) && final(self).mem() == old(self).mem().insert(
                    *address,
                    old(self).mem()[*address].update(*offset as int, value),
                )
            },
            mem_wf(old(self)@) ==> mem_wf(final(self)@),
            r is Ok ==> *offset < usize::MAX as u64,
    {
        proof {
            lemma_map_of_contains(self@.blocks);
        }
        let i = match self.find(*address) {
            Some(i) => i,
            None => {
                return Err(VMError::FailedSetNoAddressError(*address));
            },
        };
        proof {
            lemma_map_of_get(self@.blocks, i as int);
        }
        let blen = self.blocks[i].1.len();
        if *offset >= blen as u64 {
            return Err(VMError::IndexBeyondBoundsError(*offset, blen as u64));
        }
        let ghost pre_blocks = self@.blocks;
        let ghost pre_freed = self@.freed;
        let addr = *address;
        let off = *offset as usize;
        let mut entry = self.blocks.remove(i);
        entry.1.set(off, value);
        self.blocks.insert(i, entry);
        proof {
            assert(self@.blocks =~= pre_blocks.update(
                i as int,
                (addr, pre_blocks[i as int].1.update(off as int, value)),
            ));
            assert(self@.freed == pre_freed);
            lemma_map_of_update(
                pre_blocks,
                i as int,
                addr,
                pre_blocks[i as int].1.update(off as int, value),
            );
            assert forall|a: u64| contains_key(self@.blocks, a) == contains_key(
                pre_blocks,
                a,
            ) by {
                if contains_key(self@.blocks, a) {
                    let w = choose|k: int| 0 <= k < self@.blocks.len() && self@.blocks[k].0 == a;
                    assert(pre_blocks[w].0 == a);
                }
                if contains_key(pre_blocks, a) {
                    let w = choose|k: int| 0 <= k < pre_blocks.len() && pre_blocks[k].0 == a;
                    assert(self@.blocks[w].0 == a);
                }
            }
            if mem_wf(old(self)@) {
                assert(mem_wf(self@)) by {
                    assert(keys_unique(self@.blocks));
                    assert(sorted_desc(self@.freed));
                    assert forall|k: int| 0 <= k < self@.freed.len() implies !contains_key(
                        self@.blocks,
                        #[trigger] self@.freed[k],
                    ) by {
                        assert(!contains_key(pre_blocks, self@.freed[k]));
                    }
                    assert forall|a: u64| (contains_key(self@.blocks, a) || self@.freed.contains(
                        a,
                    )) implies a < self@.blocks.len() + self@.freed.len() by {
                        assert(contains_key(self@.blocks, a) == contains_key(pre_blocks, a));
                    }
                }
            }
        }
        Ok(())
    }

    /// Reads the byte at `offset` of the block at `address`.
    pub fn get(&self, address: &u64, offset: &u64) -> (r: Result<u8, VMError>)
        requires
            self.keys_ok(),
        ensures
            r == Memory::spec_get(self.mem(), *address, *offset),
            r is Ok ==> *offset < usize::MAX as u64,
    {
        proof {
            lemma_map_of_contains(self@.blocks);
        }
        let i = match self.find(*address) {
            Some(i) => i,
            None => {
                return Err(VMError::FailedGetNoAddressError(*address));
            },
        };
        proof {
            lemma_map_of_get(self@.blocks, i as int);
        }
        let block = &self.blocks[i].1;
        if *offset >= block.len() as u64 {
            return Err(VMError::IndexBeyondBoundsError(*offset, block.len() as u64));
        }
        Ok(block[*offset as usize])
    }

    /// What `get` returns: the byte at `offset` of the block at `address`,
    /// or the error that names what was missing.
    pub open spec fn spec_get(mem: Map<u64, Seq<u8>>, address: u64, offset: u64) -> Result<
        u8,
        VMError,
    > {
        if !mem.contains_key(address) {
            Err(VMError::FailedGetNoAddressError(address))
        } else if offset >= mem[address].len() {
            Err(VMError::IndexBeyondBoundsError(offset, mem[address].len() as u64))
        } else {
            Ok(mem[address][offset as int])
        }
    }

    /// Removes and returns the block at `address`, if one exists. The
    /// address is not recorded for reuse.
    pub fn take(&mut self, address: &u64) -> (r: Option<Vec<u8>>)
        requires
            old(self).keys_ok(),
        ensures
            final(self).keys_ok(),
            final(self).freed_view() == old(self).freed_view(),
            match r {
                Some(v) => old(self).mem().contains_key(*address) && v@ == old(self).mem()[*address]
                    && final(self).mem() == old(self).mem().remove(*address)
                    && final(self)@.blocks.len() + 1 == old(self)@.blocks.len() && (forall|a: u64|
                    contains_key(final(self)@.blocks, a) <==> (contains_key(old(self)@.blocks, a)
                        && a != *address)),
                None => !old(self).mem().contains_key(*address) && *final(self) == *old(self),
            },
    {
        proof {
            lemma_map_of_contains(self@.blocks);
        }
        let i = match self.find(*address) {
            Some(i) => i,
            None => {
                return None;
            },
        };
        proof {
            lemma_map_of_get(self@.blocks, i as int);
        }
        let ghost pre_blocks = self@.blocks;
        let entry = self.blocks.remove(i);
        proof {
            assert(self@.blocks =~= pre_blocks.remove(i as int));
            lemma_map_of_remove(pre_blocks, i as int);
            lemma_remove_contains(pre_blocks, i as int);
        }
        Some(entry.1)
    }

    /// The total number of bytes currently allocated, clamped at the
    /// largest representable value.
    pub fn total_allocated(&self) -> (r: u64)
        ensures
            r == if total_of(self@.blocks) > u64::MAX {
                u64::MAX as int
            } else {
                total_of(self@.blocks)
            },
    {
        let mut total: u64 = 0;
        let mut i: usize = 0;
        #[verifier::loop_isolation(false)]
        while i < self.blocks.len()
            invariant
                i <= self@.blocks.len(),
                total == if total_of(self@.blocks.subrange(0, i as int)) > u64::MAX {
                    u64::MAX as int
                } else {
                    total_of(self@.blocks.subrange(0, i as int))
                },
            decreases self@.blocks.len() - i,
        {
            proof {
                assert(self@.blocks.subrange(0, i + 1).drop_last() =~= self@.blocks.subrange(
                    0,
                    i as int,
                ));
                lemma_total_of_nonneg(self@.blocks.subrange(0, i as int));
            }
            total = total.saturating_add(self.blocks[i].1.len() as u64);
            i = i + 1;
        }
        proof {
            assert(self@.blocks.subrange(0, self@.blocks.len() as int) =~= self@.blocks);
        }
        total
    }
}

impl Default for Memory {
    /// An empty heap.
    fn default() -> (r: Memory)
        ensures
            r.keys_ok(),
            r.mem() == Map::<u64, Seq<u8>>::empty(),
            r.freed_view() == Seq::<u64>::empty(),
            mem_wf(r@),
    {
        Memory::new()
    }
}

/// The block sum is never negative.
pub proof fn lemma_total_of_nonneg(b: Seq<(u64, Seq<u8>)>)
    ensures
        total_of(b) >= 0,
    decreases b.len(),
{
    if b.len() > 0 {
        lemma_total_of_nonneg(b.drop_last());
    }
}

/// Removing the entry at `i` from a unique-keyed list removes exactly its
/// key from the entries.
pub proof fn lemma_remove_contains(b: Seq<(u64, Seq<u8>)>, i: int)
    requires
        keys_unique(b),
        0 <= i < b.len(),
    ensures
        forall|a: u64|
            contains_key(b.remove(i), a) <==> (contains_key(b, a) && a != b[i].0),
{
    let b2 = b.remove(i);
    assert forall|a: u64| contains_key(b2, a) implies (contains_key(b, a) && a != b[i].0) by {
        let w = choose|k: int| 0 <= k < b2.len() && b2[k].0 == a;
        if w < i {
            assert(b[w].0 == a);
        } else {
            assert(b[w + 1].0 == a);
        }
    }
    assert forall|a: u64| (contains_key(b, a) && a != b[i].0) implies contains_key(b2, a) by {
        let w = choose|k: int| 0 <= k < b.len() && b[k].0 == a;
        if w < i {
            assert(b2[w].0 == a);
        } else {
            assert(b2[w - 1].0 == a);
        }
    }
}

/// A key is in the derived map exactly when some entry carries it.
pub proof fn lemma_map_of_contains(b: Seq<(u64, Seq<u8>)>)
    ensures
        forall|a: u64| #[trigger] map_of(b).contains_key(a) <==> contains_key(b, a),
    decreases b.len(),
{
    if b.len() > 0 {
        lemma_map_of_contains(b.drop_last());
        assert forall|a: u64| #[trigger] map_of(b).contains_key(a) implies contains_key(b, a) by {
            if a == b.last().0 {
                assert(b[b.len() - 1].0 == a);
            } else {
                assert(map_of(b.drop_last()).contains_key(a));
                let w = choose|k: int| 0 <= k < b.drop_last().len() && b.drop_last()[k].0 == a;
                assert(b[w].0 == a);
            }
        }
        assert forall|a: u64| contains_key(b, a) implies #[trigger] map_of(b).contains_key(a) by {
            let w = choose|k: int| 0 <= k < b.len() && b[k].0 == a;
            if w < b.len() - 1 {
                assert(b.drop_last()[w].0 == a);
                assert(contains_key(b.drop_last(), a));
                assert(map_of(b.drop_last()).contains_key(a));
            } else {
                assert(a == b.last().0);
            }
        }
    } else {
        assert(forall|a: u64| !contains_key(b, a) && !map_of(b).contains_key(a));
    }
}

/// With unique keys, the derived map sends each entry's key to its block.
pub proof fn lemma_map_of_get(b: Seq<(u64, Seq<u8>)>, i: int)
    requires
        keys_unique(b),
        0 <= i < b.len(),
    ensures
        map_of(b).contains_key(b[i].0),
        map_of(b)[b[i].0] == b[i].1,
    decreases b.len(),
{
    if i < b.len() - 1 {
        assert(keys_unique(b.drop_last()));
        lemma_map_of_get(b.drop_last(), i);
        assert(b.drop_last()[i] == b[i]);
        assert(b[i].0 != b.last().0);
    }
}

/// Replacing the entry at `i` updates the derived map at its key.
pub proof fn lemma_map_of_update(b: Seq<(u64, Seq<u8>)>, i: int, a: u64, v: Seq<u8>)
    requires
        keys_unique(b),
        0 <= i < b.len(),
        b[i].0 == a,
    ensures
        keys_unique(b.update(i, (a, v))),
        map_of(b.update(i, (a, v))) == map_of(b).insert(a, v),
    decreases b.len(),
{
    let b2 = b.update(i, (a, v));
    assert(keys_unique(b2)) by {
        assert forall|p: int, q: int| 0 <= p < q < b2.len() implies b2[p].0 != b2[q].0 by {
            assert(b2[p].0 == b[p].0 && b2[q].0 == b[q].0);
        }
    }
    if i == b.len() - 1 {
        assert(b2.drop_last() =~= b.drop_last());
        assert(b2.last() == (a, v));
        assert(map_of(b2) =~= map_of(b).insert(a, v));
    } else {
        assert(keys_unique(b.drop_last()));
        assert(b.drop_last()[i] == b[i]);
        lemma_map_of_update(b.drop_last(), i, a, v);
        assert(b2.drop_last() =~= b.drop_last().update(i, (a, v)));
        assert(b2.last() == b.last());
        assert(b[i].0 != b.last().0);
        assert(map_of(b2) == map_of(b.drop_last()).insert(a, v).insert(b.last().0, b.last().1));
        assert(map_of(b.drop_last()).insert(a, v).insert(b.last().0, b.last().1) =~= map_of(
            b.drop_last(),
        ).insert(b.last().0, b.last().1).insert(a, v));
    }
}

/// Removing the entry at `i` removes its key from the derived map.
pub proof fn lemma_map_of_remove(b: Seq<(u64, Seq<u8>)>, i: int)
    requires
        keys_unique(b),
        0 <= i < b.len(),
    ensures
        keys_unique(b.remove(i)),
        map_of(b.remove(i)) == map_of(b).remove(b[i].0),
    decreases b.len(),
{
    let b2 = b.remove(i);
    assert(keys_unique(b2)) by {
        assert forall|p: int, q: int| 0 <= p < q < b2.len() implies b2[p].0 != b2[q].0 by {
            let p0 = if p < i {
                p
            } else {
                p + 1
            };
            let q0 = if q < i {
                q
            } else {
                q + 1
            };
            assert(b2[p] == b[p0] && b2[q] == b[q0]);
        }
    }
    if i == b.len() - 1 {
        assert(b2 =~= b.drop_last());
        assert(!contains_key(b.drop_last(), b[i].0)) by {
            if contains_key(b.drop_last(), b[i].0) {
                let w = choose|k: int|
                    0 <= k < b.drop_last().len() && b.drop_last()[k].0 == b[i].0;
                assert(b[w].0 == b[i].0);
            }
        }
        lemma_map_of_contains(b.drop_last());
        assert(map_of(b2) =~= map_of(b).remove(b[i].0));
    } else {
        assert(keys_unique(b.drop_last()));
        assert(b.drop_last()[i] == b[i]);
        lemma_map_of_remove(b.drop_last(), i);
        assert(b2.drop_last() =~= b.drop_last().remove(i));
        assert(b2.last() == b.last());
        assert(b[i].0 != b.last().0);
        assert(map_of(b2) == map_of(b.drop_last()).remove(b[i].0).insert(b.last().0, b.last().1));
        assert(map_of(b.drop_last()).remove(b[i].0).insert(b.last().0, b.last().1) =~= map_of(
            b.drop_last(),
        ).insert(b.last().0, b.last().1).remove(b[i].0));
    }
}

/// With unique keys the derived map has exactly one key per entry.
pub proof fn lemma_map_of_dom_len(b: Seq<(u64, Seq<u8>)>)
    requires
        keys_unique(b),
    ensures
        map_of(b).dom().finite(),
        map_of(b).dom().len() == b.len(),
    decreases b.len(),
{
    if b.len() == 0 {
    } else {
        assert(keys_unique(b.drop_last()));
        lemma_map_of_dom_len(b.drop_last());
        assert(!contains_key(b.drop_last(), b.last().0)) by {
            if contains_key(b.drop_last(), b.last().0) {
                let w = choose|k: int|
                    0 <= k < b.drop_last().len() && b.drop_last()[k].0 == b.last().0;
                assert(b[w].0 == b[b.len() - 1].0);
            }
        }
        lemma_map_of_contains(b.drop_last());
        assert(map_of(b).dom() =~= map_of(b.drop_last()).dom().insert(b.last().0));
    }
}

/// `insert_desc` placed at the first position whose element is not larger.
pub proof fn lemma_insert_desc_at(f: Seq<u64>, a: u64, i: int)
    requires
        0 <= i <= f.len(),
        forall|j: int| 0 <= j < i ==> f[j] > a,
        i < f.len() ==> !(f[i] > a),
    ensures
        insert_desc(f, a) == f.insert(i, a),
    decreases f.len(),
{
    if f.len() == 0 {
        assert(insert_desc(f, a) =~= f.insert(0, a));
    } else if f[0] > a {
        assert(i >= 1) by {
            if i == 0 {
                assert(!(f[0] > a));
            }
        }
        assert(forall|j: int| 0 <= j < i - 1 ==> f.skip(1)[j] > a) by {
            assert(forall|j: int| 0 <= j < i - 1 ==> f.skip(1)[j] == f[j + 1]);
        }
        assert(i - 1 < f.skip(1).len() ==> !(f.skip(1)[i - 1] > a));
        lemma_insert_desc_at(f.skip(1), a, i - 1);
        assert(insert_desc(f, a) == seq![f[0]] + insert_desc(f.skip(1), a));
        assert(insert_desc(f.skip(1), a) == f.skip(1).insert(i - 1, a));
        assert(seq![f[0]] + f.skip(1).insert(i - 1, a) =~= f.insert(i, a));
    } else {
        assert(i == 0) by {
            if i > 0 {
                assert(f[0] > a);
            }
        }
        assert(insert_desc(f, a) =~= f.insert(0, a));
    }
}

/// The address allocation picks is not a live key of a well-formed heap
/// that an executable store can hold.
pub proof fn lemma_alloc_fresh(v: MemView)
    requires
        mem_wf(v),
        v.blocks.len() <= u64::MAX,
    ensures
        v.freed.len() > 0 ==> !contains_key(v.blocks, v.freed.last()) && !map_of(
            v.blocks,
        ).contains_key(v.freed.last()),
        v.freed.len() == 0 ==> !contains_key(v.blocks, v.blocks.len() as u64) && !map_of(
            v.blocks,
        ).contains_key(v.blocks.len() as u64),
{
    lemma_map_of_contains(v.blocks);
    if v.freed.len() > 0 {
        assert(!contains_key(v.blocks, v.freed[v.freed.len() - 1]));
    } else {
        let n = v.blocks.len() as u64;
        if contains_key(v.blocks, n) {
            assert(n < v.blocks.len() + v.freed.len());
        }
    }
}

/// Allocation keeps the heap well-formed.
pub proof fn lemma_alloc_wf(pre: MemView, post: MemView, address: u64)
    requires
        mem_wf(pre),
        pre.blocks.len() <= u64::MAX,
        address == if pre.freed.len() > 0 {
            pre.freed.last()
        } else {
            pre.blocks.len() as u64
        },
        post.freed == if pre.freed.len() > 0 {
            pre.freed.drop_last()
        } else {
            pre.freed
        },
        keys_unique(post.blocks),
        forall|a: u64|
            contains_key(post.blocks, a) <==> (contains_key(pre.blocks, a) || a == address),
        post.blocks.len() == pre.blocks.len() + 1,
    ensures
        mem_wf(post),
{
    if pre.freed.len() > 0 {
        assert(sorted_desc(post.freed)) by {
            assert(forall|i: int, j: int|
                0 <= i < j < post.freed.len() ==> post.freed[i] == pre.freed[i] && post.freed[j]
                    == pre.freed[j]);
        }
        assert forall|k: int| 0 <= k < post.freed.len() implies !contains_key(
            post.blocks,
            #[trigger] post.freed[k],
        ) by {
            assert(post.freed[k] == pre.freed[k]);
            assert(!contains_key(pre.blocks, pre.freed[k]));
            assert(pre.freed[k] > pre.freed[pre.freed.len() - 1]);
        }
        assert forall|a: u64| (contains_key(post.blocks, a) || post.freed.contains(a)) implies a
            < post.blocks.len() + post.freed.len() by {
            if post.freed.contains(a) {
                let w = choose|k: int| 0 <= k < post.freed.len() && post.freed[k] == a;
                assert(pre.freed[w] == a);
                assert(pre.freed.contains(a));
            } else if contains_key(pre.blocks, a) {
            } else {
                assert(a == address);
                assert(pre.freed.contains(a)) by {
                    assert(pre.freed[pre.freed.len() - 1] == a);
                }
            }
            assert(a < pre.blocks.len() + pre.freed.len());
        }
    } else {
        assert(sorted_desc(post.freed));
        assert forall|k: int| 0 <= k < post.freed.len() implies !contains_key(
            post.blocks,
            #[trigger] post.freed[k],
        ) by {}
        assert forall|a: u64| (contains_key(post.blocks, a) || post.freed.contains(a)) implies a
            < post.blocks.len() + post.freed.len() by {
            if contains_key(pre.blocks, a) {
                assert(a < pre.blocks.len() + pre.freed.len());
            } else {
                assert(a == address);
            }
        }
    }
}

/// Freeing a live address keeps the heap well-formed.
pub proof fn lemma_free_wf(pre: MemView, post: MemView, address: u64)
    requires
        mem_wf(pre),
        contains_key(pre.blocks, address),
        keys_unique(post.blocks),
        post.freed == insert_desc(pre.freed, address),
        post.blocks.len() + 1 == pre.blocks.len(),
        forall|a: u64|
            contains_key(post.blocks, a) <==> (contains_key(pre.blocks, a) && a != address),
    ensures
        mem_wf(post),
{
    assert(!pre.freed.contains(address)) by {
        if pre.freed.contains(address) {
            let w = choose|k: int| 0 <= k < pre.freed.len() && pre.freed[k] == address;
            assert(!contains_key(pre.blocks, pre.freed[w]));
        }
    }
    lemma_insert_desc_props(pre.freed, address);
    assert forall|k: int| 0 <= k < post.freed.len() implies !contains_key(
        post.blocks,
        #[trigger] post.freed[k],
    ) by {
        let x = post.freed[k];
        assert(post.freed.contains(x));
        if x != address {
            assert(pre.freed.contains(x));
            let w = choose|j: int| 0 <= j < pre.freed.len() && pre.freed[j] == x;
            assert(!contains_key(pre.blocks, pre.freed[w]));
        }
    }
    assert forall|a: u64| (contains_key(post.blocks, a) || post.freed.contains(a)) implies a
        < post.blocks.len() + post.freed.len() by {
        if contains_key(post.blocks, a) {
            assert(a < pre.blocks.len() + pre.freed.len());
        } else {
            assert(post.freed.contains(a));
            if a == address {
                assert(a < pre.blocks.len() + pre.freed.len());
            } else {
                assert(pre.freed.contains(a));
                let w = choose|k: int| 0 <= k < pre.freed.len() && pre.freed[k] == a;
                assert(pre.freed[w] == a);
                assert(a < pre.blocks.len() + pre.freed.len());
            }
        }
    }
}

/// What insertion into a descending list does to its membership and order.
pub proof fn lemma_insert_desc_props(f: Seq<u64>, a: u64)
    requires
        sorted_desc(f),
        !f.contains(a),
    ensures
        sorted_desc(insert_desc(f, a)),
        insert_desc(f, a).len() == f.len() + 1,
        forall|x: u64| insert_desc(f, a).contains(x) <==> (f.contains(x) || x == a),
    decreases f.len(),
{
    let g = insert_desc(f, a);
    if f.len() == 0 {
        assert forall|x: u64| g.contains(x) implies (f.contains(x) || x == a) by {
            let w = choose|k: int| 0 <= k < g.len() && g[k] == x;
            assert(x == a);
        }
        assert forall|x: u64| (f.contains(x) || x == a) implies g.contains(x) by {
            assert(g[0] == a);
        }
    } else if f[0] > a {
        assert(sorted_desc(f.skip(1))) by {
            assert(forall|i: int, j: int|
                0 <= i < j < f.skip(1).len() ==> f.skip(1)[i] == f[i + 1] && f.skip(1)[j] == f[j
                    + 1]);
        }
        assert(!f.skip(1).contains(a)) by {
            if f.skip(1).contains(a) {
                let w = choose|k: int| 0 <= k < f.skip(1).len() && f.skip(1)[k] == a;
                assert(f[w + 1] == a);
                assert(f.contains(a));
            }
        }
        lemma_insert_desc_props(f.skip(1), a);
        let t = insert_desc(f.skip(1), a);
        assert(g == seq![f[0]] + t);
        assert(sorted_desc(g)) by {
            assert forall|i: int, j: int| 0 <= i < j < g.len() implies g[i] > g[j] by {
                if i == 0 {
                    let x = g[j];
                    assert(t[j - 1] == x);
                    assert(t.contains(x));
                    if x == a {
                        assert(f[0] > a);
                    } else {
                        assert(f.skip(1).contains(x));
                        let w = choose|k: int| 0 <= k < f.skip(1).len() && f.skip(1)[k] == x;
                        assert(f[w + 1] == x);
                        assert(f[0] > f[w + 1]);
                    }
                } else {
                    assert(g[i] == t[i - 1] && g[j] == t[j - 1]);
                    assert(t[i - 1] > t[j - 1]);
                }
            }
        }
        assert forall|x: u64| g.contains(x) implies (f.contains(x) || x == a) by {
            let w = choose|k: int| 0 <= k < g.len() && g[k] == x;
            if w == 0 {
                assert(f[0] == x);
                assert(f.contains(x));
            } else {
                assert(t[w - 1] == x);
                assert(t.contains(x));
                if x != a {
                    assert(f.skip(1).contains(x));
                    let u = choose|k: int| 0 <= k < f.skip(1).len() && f.skip(1)[k] == x;
                    assert(f[u + 1] == x);
                    assert(f.contains(x));
                }
            }
        }
        assert forall|x: u64| (f.contains(x) || x == a) implies g.contains(x) by {
            if x == a {
                assert(t.contains(a));
                let w = choose|k: int| 0 <= k < t.len() && t[k] == a;
                assert(g[w + 1] == a);
            } else {
                let w = choose|k: int| 0 <= k < f.len() && f[k] == x;
                if w == 0 {
                    assert(g[0] == x);
                } else {
                    assert(f.skip(1)[w - 1] == x);
                    assert(f.skip(1).contains(x));
                    assert(t.contains(x));
                    let u = choose|k: int| 0 <= k < t.len() && t[k] == x;
                    assert(g[u + 1] == x);
                }
            }
        }
    } else {
        assert(g == seq![a] + f);
        assert(f[0] <= a);
        assert(f[0] != a) by {
            if f[0] == a {
                assert(f.contains(a));
            }
        }
        assert(sorted_desc(g)) by {
            assert forall|i: int, j: int| 0 <= i < j < g.len() implies g[i] > g[j] by {
                if i == 0 {
                    if j == 1 {
                        assert(g[1] == f[0]);
                    } else {
                        assert(g[j] == f[j - 1]);
                        assert(f[0] > f[j - 1]);
                    }
                } else {
                    assert(g[i] == f[i - 1] && g[j] == f[j - 1]);
                    assert(f[i - 1] > f[j - 1]);
                }
            }
        }
        assert forall|x: u64| g.contains(x) implies (f.contains(x) || x == a) by {
            let w = choose|k: int| 0 <= k < g.len() && g[k] == x;
            if w > 0 {
                assert(f[w - 1] == x);
                assert(f.contains(x));
            }
        }
        assert forall|x: u64| (f.contains(x) || x == a) implies g.contains(x) by {
            if x == a {
                assert(g[0] == a);
            } else {
                let w = choose|k: int| 0 <= k < f.len() && f[k] == x;
                assert(g[w + 1] == x);
            }
        }
    }
}

/// A heap whose live keys and counts are unchanged stays well-formed.
pub proof fn lemma_wf_same_footprint(pre: MemView, post: MemView)
    requires
        mem_wf(pre),
        keys_unique(post.blocks),
        post.freed == pre.freed,
        post.blocks.len() == pre.blocks.len(),
        forall|a: u64| contains_key(post.blocks, a) == contains_key(pre.blocks, a),
    ensures
        mem_wf(post),
{
    assert forall|k: int| 0 <= k < post.freed.len() implies !contains_key(
        post.blocks,
        #[trigger] post.freed[k],
    ) by {
        assert(!contains_key(pre.blocks, pre.freed[k]));
    }
    assert forall|a: u64| (contains_key(post.blocks, a) || post.freed.contains(a)) implies a
        < post.blocks.len() + post.freed.len() by {
        assert(contains_key(post.blocks, a) == contains_key(pre.blocks, a));
    }
}

} // verus!
