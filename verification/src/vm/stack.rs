//! The stack: a fixed-size byte buffer addressed through the frame pointer.

use vstd::bytes::spec_u64_from_le_bytes;
use vstd::bytes::spec_u64_to_le_bytes;
use vstd::prelude::*;

verus! {

/// The default stack capacity in bytes.
pub const DEFAULT_STACK_SIZE: usize = 2000000;

/// A fixed-size byte buffer. It never grows: writes beyond its end fail.
#[derive(Debug)]
pub struct Stack {
    items: Vec<u8>,
}

impl View for Stack {
    type V = Seq<u8>;

    closed spec fn view(&self) -> Seq<u8> {
        self.items@
    }
}

/// The bytes of `stack` after writing `values` at `index`, together with
/// whether the whole write fit. Bytes are written one by one from `index`
/// up: when the write runs past the end of the buffer it stops there, the
/// earlier bytes stay written, and the write reports failure.
pub open spec fn spec_insert(stack: Seq<u8>, index: u64, values: Seq<u8>) -> (Seq<u8>, bool) {
    let written = if index as int >= stack.len() {
        0
    } else if values.len() <= stack.len() - index {
        values.len() as int
    } else {
        stack.len() - index
    };
    (
        Seq::new(
            stack.len(),
            |j: int|
                if index <= j < index + written {
                    values[j - index]
                } else {
                    stack[j]
                },
        ),
        values.len() == 0 || index + values.len() <= stack.len(),
    )
}

/// The `amount` bytes of `stack` that end at `top`, or `None` when that
/// range does not lie inside the buffer.
pub open spec fn spec_get_top(stack: Seq<u8>, top: u64, amount: u64) -> Option<Seq<u8>> {
    if top > stack.len() || amount > stack.len() || top < amount {
        None
    } else {
        Some(stack.subrange(top - amount, top as int))
    }
}

/// The little-endian 64-bit value held in the 8 bytes of `stack` that end
/// at `top`, or `None` when that range does not lie inside the buffer.
pub open spec fn spec_get_top_u64(stack: Seq<u8>, top: u64) -> Option<u64> {
    match spec_get_top(stack, top, 8) {
        Some(bytes) => Some(spec_u64_from_le_bytes(bytes)),
        None => None,
    }
}

impl Stack {
    /// A zeroed stack of `size` bytes.
    pub fn new(size: usize) -> (r: Stack)
        ensures
            r@ =~= Seq::new(size as nat, |i: int| 0u8),
    {
        let mut items: Vec<u8> = Vec::new();
        let mut i: usize = 0;
        #[verifier::loop_isolation(false)]
        while i < size
            invariant
                i <= size,
                items@ =~= Seq::new(i as nat, |j: int| 0u8),
            decreases size - i,
        {
            items.push(0);
            i = i + 1;
        }
        Stack { items }
    }

    /// The raw bytes of the stack.
    pub fn items(&self) -> (r: &Vec<u8>)
        ensures
            r@ == self@,
    {
        &self.items
    }

    /// Writes `values` at `index`, byte by byte; reports whether the whole
    /// write fit inside the buffer. Bytes written before the end was hit
    /// stay written.
    pub fn insert(&mut self, index: u64, values: Vec<u8>) -> (r: bool)
        ensures
            (final(self)@, r) == spec_insert(old(self)@, index, values@),
    {
        let ghost pre = self@;
        let cap = self.items.len();
        let mut i: usize = 0;
        #[verifier::loop_isolation(false)]
        while i < values.len()
            invariant
                i <= values@.len(),
                self@.len() == pre.len(),
                pre.len() == cap,
                index as int + i <= pre.len() || i == 0,
                self@ =~= Seq::new(
                    pre.len(),
                    |j: int|
                        if index <= j < index + i {
                            values@[j - index]
                        } else {
                            pre[j]
                        },
                ),
            decreases values@.len() - i,
        {
            if index >= cap as u64 || index as usize + i >= self.items.len() {
                proof {
                    if index >= cap as u64 {
                        assert(index as int >= pre.len());
                        assert(i == 0) by {
                            if i > 0 {
                                assert(index as int + i <= pre.len());
                            }
                        }
                    } else {
                        assert(index as int + i >= pre.len());
                        assert(index as int + i == pre.len() || i == 0);
                    }
                    assert(i < values@.len());
                    assert(index + values@.len() > pre.len());
                    assert(self@ =~= spec_insert(pre, index, values@).0);
                }
                return false;
            }
            let pos = index as usize + i;
            self.items.set(pos, values[i]);
            i = i + 1;
        }
        proof {
            assert(self@ =~= spec_insert(pre, index, values@).0);
        }
        true
    }

    /// Writes the 8 little-endian bytes of `value` at `index`; reports
    /// whether the whole write fit inside the buffer.
    pub fn insert_u64(&mut self, index: u64, value: u64) -> (r: bool)
        ensures
            (final(self)@, r) == spec_insert(old(self)@, index, spec_u64_to_le_bytes(value)),
    {
        let bytes = vstd::bytes::u64_to_le_bytes(value);
        self.insert(index, bytes)
    }

    /// The `amount` bytes that end at `top`, or `None` when that range does
    /// not lie inside the buffer.
    pub fn get_top(&self, top: u64, amount: u64) -> (r: Option<Vec<u8>>)
        ensures
            match spec_get_top(self@, top, amount) {
                Some(bytes) => r matches Some(v) && v@ == bytes,
                None => r is None,
            },
    {
        if top > self.items.len() as u64 || amount > self.items.len() as u64 || top < amount {
            return None;
        }
        let lo = (top - amount) as usize;
        let hi = top as usize;
        let sl = vstd::slice::slice_subrange(self.items.as_slice(), lo, hi);
        let out = vstd::slice::slice_to_vec(sl);
        proof {
            assert(out@ =~= self@.subrange(top - amount, top as int));
        }
        Some(out)
    }

    /// The little-endian 64-bit value held in the 8 bytes that end at
    /// `top`, or `None` when that range does not lie inside the buffer.
    pub fn get_top_u64(&self, top: u64) -> (r: Option<u64>)
        ensures
            r == spec_get_top_u64(self@, top),
    {
        match self.get_top(top, 8) {
            Some(bytes) => Some(vstd::bytes::u64_from_le_bytes(bytes.as_slice())),
            None => None,
        }
    }
}

impl Default for Stack {
    /// A zeroed stack of the default capacity.
    fn default() -> (r: Stack)
        ensures
            r@ =~= Seq::new(DEFAULT_STACK_SIZE as nat, |i: int| 0u8),
    {
        Stack::new(DEFAULT_STACK_SIZE)
    }
}

} // verus!
