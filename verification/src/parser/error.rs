//! Errors reported while assembling a text program.

use vstd::prelude::*;
use vstd::string::StrSliceExecFns;
use vstd::string::StringExecFns;

verus! {

/// Why a line of assembly text could not be assembled. Each variant carries
/// the text it complains about.
#[derive(Debug, PartialEq, Eq)]
pub enum ParserError {
    /// The program file could not be read.
    FileNotFound(String),
    /// The mnemonic or an operand is not part of the language.
    InvalidInstruction(String),
    /// The line has fewer operands than the instruction needs.
    MissingOperand(String),
    /// A branch or jump names a label that no line defines.
    UndefinedLabel(String),
    /// The line has more operands than the instruction takes.
    TooManyOperands(String),
    /// A `define` line does not have exactly a name and a value.
    BadlyDefinedDefinition(String),
    /// A label is not usable as a jump target.
    InvalidLabel(String),
}

impl ParserError {
    /// The error's one-line report.
    pub open spec fn spec_message(&self) -> Seq<char> {
        match self {
            ParserError::FileNotFound(f) => "File not found: "@ + f@,
            ParserError::InvalidInstruction(i) => "Invalid instruction: "@ + i@,
            ParserError::MissingOperand(l) => "Missing operand in line: "@ + l@,
            ParserError::UndefinedLabel(l) => "Undefined label: "@ + l@,
            ParserError::TooManyOperands(l) => "Too many operands in line: "@ + l@,
            ParserError::BadlyDefinedDefinition(l) => "Badly defined definition in line: "@ + l@,
            ParserError::InvalidLabel(l) => "Invalid label: "@ + l@,
        }
    }

    /// Renders the error's one-line report.
    pub fn message(&self) -> (s: String)
        ensures
            s@ == self.spec_message(),
    {
        proof {
            reveal_strlit("File not found: ");
            reveal_strlit("Invalid instruction: ");
            reveal_strlit("Missing operand in line: ");
            reveal_strlit("Undefined label: ");
            reveal_strlit("Too many operands in line: ");
            reveal_strlit("Badly defined definition in line: ");
            reveal_strlit("Invalid label: ");
        }
        let (head, text): (&'static str, &String) = match self {
            ParserError::FileNotFound(f) => ("File not found: ", f),
            ParserError::InvalidInstruction(i) => ("Invalid instruction: ", i),
            ParserError::MissingOperand(l) => ("Missing operand in line: ", l),
            ParserError::UndefinedLabel(l) => ("Undefined label: ", l),
            ParserError::TooManyOperands(l) => ("Too many operands in line: ", l),
            ParserError::BadlyDefinedDefinition(l) => ("Badly defined definition in line: ", l),
            ParserError::InvalidLabel(l) => ("Invalid label: ", l),
        };
        let mut s = String::from_str(head);
        s.append(text.as_str());
        proof {
            assert(s@ =~= self.spec_message());
        }
        s
    }
}

} // verus!
