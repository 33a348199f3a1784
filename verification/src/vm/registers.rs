//! The register bank: sixteen 64-bit slots.

use vstd::prelude::*;

verus! {

/// Sixteen 64-bit registers, with add and subtract helpers that either wrap
/// or saturate, chosen at construction time.
#[derive(Debug)]
pub struct Registers {
    registers: Vec<u64>,
    wrapping: bool,
}

impl View for Registers {
    type V = Seq<u64>;

    closed spec fn view(&self) -> Seq<u64> {
        self.registers@
    }
}

impl Registers {
    /// Whether the add and subtract helpers wrap around rather than
    /// saturate.
    pub closed spec fn is_wrapping(self) -> bool {
        self.wrapping
    }

    /// The bank always holds exactly sixteen slots.
    pub open spec fn wf(self) -> bool {
        self@.len() == 16
    }

    /// A bank of sixteen zeroed registers.
    pub fn new(wrapping: bool) -> (r: Registers)
        ensures
            r.wf(),
            r@ =~= Seq::new(16, |i: int| 0u64),
            r.is_wrapping() == wrapping,
    {
        let mut registers: Vec<u64> = Vec::new();
        let mut i: usize = 0;
        #[verifier::loop_isolation(false)]
        while i < 16
            invariant
                i <= 16,
                registers@ =~= Seq::new(i as nat, |j: int| 0u64),
            decreases 16 - i,
        {
            registers.push(0);
            i = i + 1;
        }
        Registers { registers, wrapping }
    }

    /// The value of the register at `register`.
    pub fn get_value(&self, register: u8) -> (r: u64)
        requires
            self.wf(),
            register < 16,
        ensures
            r == self@[register as int],
    {
        self.registers[register as usize]
    }

    /// Stores `value` into the register at `register`.
    pub fn set_value(&mut self, register: u8, value: u64)
        requires
            old(self).wf(),
            register < 16,
        ensures
            final(self).wf(),
            final(self)@ =~= old(self)@.update(register as int, value),
            final(self).is_wrapping() == old(self).is_wrapping(),
    {
        self.registers.set(register as usize, value);
    }

    /// Adds `value` to the register at `register`: wrapping around in a
    /// wrapping bank, clamping at the largest value otherwise.
    pub fn add_value(&mut self, register: u8, value: u64)
        requires
            old(self).wf(),
            register < 16,
        ensures
            final(self).wf(),
            final(self).is_wrapping() == old(self).is_wrapping(),
            final(self)@ =~= old(self)@.update(
                register as int,
                if old(self).is_wrapping() {
                    if old(self)@[register as int] + value > u64::MAX {
                        (old(self)@[register as int] + value - 0x10000000000000000) as u64
                    } else {
                        (old(self)@[register as int] + value) as u64
                    }
                } else if old(self)@[register as int] + value > u64::MAX {
                    u64::MAX
                } else {
                    (old(self)@[register as int] + value) as u64
                },
            ),
    {
        let cur = self.registers[register as usize];
        let v = if self.wrapping {
            cur.wrapping_add(value)
        } else {
            cur.saturating_add(value)
        };
        self.registers.set(register as usize, v);
    }

    /// Subtracts `value` from the register at `register`: wrapping around
    /// in a wrapping bank, clamping at zero otherwise.
    pub fn sub_value(&mut self, register: u8, value: u64)
        requires
            old(self).wf(),
            register < 16,
        ensures
            final(self).wf(),
            final(self).is_wrapping() == old(self).is_wrapping(),
            final(self)@ =~= old(self)@.update(
                register as int,
                if old(self).is_wrapping() {
                    if old(self)@[register as int] >= value {
                        (old(self)@[register as int] - value) as u64
                    } else {
                        (old(self)@[register as int] - value + 0x10000000000000000) as u64
                    }
                } else if old(self)@[register as int] < value {
                    0u64
                } else {
                    (old(self)@[register as int] - value) as u64
                },
            ),
    {
        let cur = self.registers[register as usize];
        let v = if self.wrapping {
            cur.wrapping_sub(value)
        } else {
            cur.saturating_sub(value)
        };
        self.registers.set(register as usize, v);
    }
}

impl Default for Registers {
    /// A bank of sixteen zeroed registers whose helpers saturate.
    fn default() -> (r: Registers)
        ensures
            r.wf(),
            r@ =~= Seq::new(16, |i: int| 0u64),
            !r.is_wrapping(),
    {
        Registers::new(false)
    }
}

} // verus!
