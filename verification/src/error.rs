//! The library's error type: everything that loading or running a program can
//! report.

use vstd::prelude::*;
use vstd::string::StrSliceExecFns;
use vstd::string::StringExecFns;
use crate::bits::BitsParseError;
use crate::parser::ParserError;

verus! {

/// An error reported by the machine or its assembler.
#[derive(Debug, PartialEq, Eq)]
pub enum VmError {
    /// The assembly text could not be parsed.
    Parser(ParserError),
    /// A number or digit string did not fit its bit width.
    Bits(BitsParseError),
    /// A program held more instructions than the instruction memory.
    InstructionMemoryOverflow,
}

impl VmError {
    /// The error's one-line report.
    pub open spec fn spec_message(&self) -> Seq<char> {
        match self {
            VmError::Parser(e) => "Parser error: "@ + e.spec_message(),
            VmError::Bits(e) => "Bits error: "@ + e.spec_message(),
            VmError::InstructionMemoryOverflow => "Instruction memory overflow. This error occurs when trying to load more instructions than the instruction memory can hold."@,
        }
    }

    /// Renders the error's one-line report.
    pub fn message(&self) -> (s: String)
        ensures
            s@ == self.spec_message(),
    {
        proof {
            reveal_strlit("Parser error: ");
            reveal_strlit("Bits error: ");
            reveal_strlit("Instruction memory overflow. This error occurs when trying to load more instructions than the instruction memory can hold.");
        }
        match self {
            VmError::Parser(e) => {
                let mut s = String::from_str("Parser error: ");
                let m = e.message();
                s.append(m.as_str());
                proof {
                    assert(s@ =~= self.spec_message());
                }
                s
            },
            VmError::Bits(e) => {
                let mut s = String::from_str("Bits error: ");
                let m = e.message();
                s.append(m.as_str());
                proof {
                    assert(s@ =~= self.spec_message());
                }
                s
            },
            VmError::InstructionMemoryOverflow => {
                String::from_str("Instruction memory overflow. This error occurs when trying to load more instructions than the instruction memory can hold.")
            },
        }
    }
}

} // verus!
