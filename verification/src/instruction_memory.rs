//! Instruction memory: a fixed array of 1024 16-bit machine words, loaded
//! once before execution. A program longer than the capacity is reported, not
//! fatal: the words that fit are loaded and the rest are refused.

use vstd::prelude::*;
use crate::bits::Bits;
use crate::error::VmError;

verus! {

/// The number of machine words the instruction memory holds.
pub open spec fn capacity() -> nat {
    1024
}

/// The instruction store.
#[derive(Debug, Clone, PartialEq, Eq)]
pub struct InstructionMemory {
    pub instructions: [Bits<16>; 1024],
}

impl InstructionMemory {
    /// Loads a program from word 0 on. A program longer than the capacity is
    /// refused whole: the overflow is reported and nothing loads.
    pub fn load_instructions(&mut self, instructions: Vec<Bits<16>>) -> (r: Result<(), VmError>)
        ensures
            instructions@.len() <= capacity() ==> {
                &&& r is Ok
                &&& forall|i: int|
                    0 <= i < instructions@.len() ==> final(self).instructions@[i]
                        == instructions@[i]
                &&& forall|i: int|
                    instructions@.len() <= i < 1024 ==> final(self).instructions@[i] == old(self).instructions@[i]
            },
            instructions@.len() > capacity() ==> {
                &&& r == Err::<(), VmError>(VmError::InstructionMemoryOverflow)
                &&& *final(self) == *old(self)
            },
    {
        if instructions.len() > 1024 {
            return Err(VmError::InstructionMemoryOverflow);
        }
        let mut i: usize = 0;
        while i < instructions.len()
            invariant
                i <= instructions@.len(),
                instructions@.len() <= 1024,
                forall|j: int|
                    0 <= j < i ==> self.instructions@[j] == instructions@[j],
                forall|j: int|
                    i <= j < 1024 ==> self.instructions@[j] == old(self).instructions@[j],
            decreases instructions@.len() - i,
        {
            self.instructions[i] = instructions[i];
            i += 1;
        }
        Ok(())
    }
}

impl Default for InstructionMemory {
    /// Memory of zero words, which decode as NOP.
    fn default() -> (r: InstructionMemory)
        ensures
            forall|i: int| 0 <= i < 1024 ==> r.instructions@[i].value() == 0,
    {
        let zero = Bits::<16>::zero();
        InstructionMemory { instructions: [zero;1024] }
    }
}

} // verus!
