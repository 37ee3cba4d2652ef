//! Errors reported when constructing a bit vector from a number or a string.

use vstd::prelude::*;
use vstd::string::StrSliceExecFns;
use vstd::string::StringExecFns;
use crate::bits::text::dec_digits;
use crate::bits::text::u64_to_dec_string;

verus! {

/// Why a number or a string could not be turned into a bit vector of the
/// requested width.
#[derive(Debug, Clone, PartialEq, Eq)]
pub enum BitsParseError {
    /// An exact-width binary string had the wrong number of characters.
    Length { expected: usize, found: usize, string: String },
    /// An exact-width binary string held a character other than '0' or '1'.
    Character { character: char },
    /// A decimal string could not be read as a number.
    Number { num: String },
    /// The value does not fit in the requested width.
    OutOfBounds { value: usize, max: usize },
}

impl BitsParseError {
    /// The error's one-line report.
    pub open spec fn spec_message(&self) -> Seq<char> {
        match self {
            BitsParseError::Length { expected, found, string } => "Invalid length: expected "@
                + dec_digits(*expected as nat) + ", found "@ + dec_digits(*found as nat)
                + " (input: "@ + string@ + ")"@,
            BitsParseError::Character { character } => "Invalid character: '"@.push(*character)
                + "'"@,
            BitsParseError::Number { num } => "Invalid number: invalid digit found in string (input: "@
                + num@ + ")"@,
            BitsParseError::OutOfBounds { value, max } => "Value "@ + dec_digits(*value as nat)
                + " is out of bounds (max: "@ + dec_digits(*max as nat) + ")"@,
        }
    }

    /// Renders the error's one-line report.
    pub fn message(&self) -> (s: String)
        ensures
            s@ == self.spec_message(),
    {
        proof {
            reveal_strlit("Invalid length: expected ");
            reveal_strlit(", found ");
            reveal_strlit(" (input: ");
            reveal_strlit(")");
            reveal_strlit("Invalid character: '");
            reveal_strlit("'");
            reveal_strlit("Invalid number: invalid digit found in string (input: ");
            reveal_strlit("Value ");
            reveal_strlit(" is out of bounds (max: ");
        }
        match self {
            BitsParseError::Length { expected, found, string } => {
                let mut s = String::from_str("Invalid length: expected ");
                let e = u64_to_dec_string(*expected as u64);
                s.append(e.as_str());
                s.append(", found ");
                let f = u64_to_dec_string(*found as u64);
                s.append(f.as_str());
                s.append(" (input: ");
                s.append(string.as_str());
                s.append(")");
                proof {
                    assert(s@ =~= self.spec_message());
                }
                s
            },
            BitsParseError::Character { character } => {
                let mut s = String::from_str("Invalid character: '");
                crate::bits::text::push_char(&mut s, *character);
                s.append("'");
                proof {
                    assert(s@ =~= self.spec_message());
                }
                s
            },
            BitsParseError::Number { num } => {
                let mut s = String::from_str(
                    "Invalid number: invalid digit found in string (input: ",
                );
                s.append(num.as_str());
                s.append(")");
                proof {
                    assert(s@ =~= self.spec_message());
                }
                s
            },
            BitsParseError::OutOfBounds { value, max } => {
                let mut s = String::from_str("Value ");
                let v = u64_to_dec_string(*value as u64);
                s.append(v.as_str());
                s.append(" is out of bounds (max: ");
                let m = u64_to_dec_string(*max as u64);
                s.append(m.as_str());
                s.append(")");
                proof {
                    assert(s@ =~= self.spec_message());
                }
                s
            },
        }
    }
}

} // verus!
