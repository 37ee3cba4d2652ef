//! Program counter: a single 10-bit address register. Each tick reads it as
//! the fetch address; the machine then stores the chosen next address.

use vstd::prelude::*;
use crate::bits::Bits;

verus! {

/// The program counter.
#[derive(Debug, Clone, Copy, PartialEq, Eq)]
pub struct PC {
    pub value: Bits<10>,
}

impl PC {
    /// Reads the current value as this tick's fetch address.
    pub fn clock(&mut self) -> (r: Bits<10>)
        ensures
            r == old(self).value,
            *final(self) == *old(self),
    {
        self.value
    }
}

impl Default for PC {
    /// A counter at address zero.
    fn default() -> (r: PC)
        ensures
            r.value.value() == 0,
    {
        PC { value: Bits::<10>::zero() }
    }
}

} // verus!
