//! Line-level helpers of the assembler: recognizing labels, definitions and
//! comments, and reading registers, conditions, addresses, offsets and
//! immediates out of their textual operands.

use vstd::prelude::*;
use vstd::string::StrSliceExecFns;
use vstd::string::StringExecFns;
use vstd::arithmetic::power2::lemma2_to64;
use crate::bits::Bits;
use crate::bits::text::spec_from_str;
use crate::error::VmError;
use crate::parser::error::ParserError;

verus! {

/// The character set shared with the character display: a quoted character
/// in an immediate is assembled as its index in this string.
pub open spec fn charset() -> Seq<char> {
    " abcdefghijklmnopqrstuvwxyz.!?"@
}

/// A whitespace character of the assembly language.
pub open spec fn is_space(c: char) -> bool {
    c == ' ' || c == '\t' || c == '\r' || c == '\n'
}

/// ASCII lowercase folding of one character.
pub open spec fn lower_char(c: char) -> char {
    if 'A' <= c && c <= 'Z' {
        ((c as u8) + 32) as char
    } else {
        c
    }
}

/// ASCII uppercase folding of one character.
pub open spec fn upper_char(c: char) -> char {
    if 'a' <= c && c <= 'z' {
        ((c as u8) - 32) as char
    } else {
        c
    }
}

/// ASCII uppercase folding of a string.
pub open spec fn upper_seq(t: Seq<char>) -> Seq<char> {
    t.map(|i: int, c: char| upper_char(c))
}

/// ASCII lowercase folding of a string.
pub open spec fn lower_seq(t: Seq<char>) -> Seq<char> {
    t.map(|i: int, c: char| lower_char(c))
}

/// Whether `s` read uppercase equals `t`; `t` is an uppercase pattern.
pub fn eq_upper(s: &str, t: &str) -> (r: bool)
    ensures
        r == (upper_seq(s@) == t@),
{
    let n = s.unicode_len();
    if n != t.unicode_len() {
        proof {
            assert(upper_seq(s@).len() == s@.len());
        }
        return false;
    }
    let mut i: usize = 0;
    while i < n
        invariant
            i <= n,
            n == s@.len() && n == t@.len(),
            forall|j: int| 0 <= j < i ==> upper_char(s@[j]) == t@[j],
        decreases n - i,
    {
        let c = s.get_char(i) as u32;
        let up = if 97 <= c && c <= 122 {
            c - 32
        } else {
            c
        };
        let tc = t.get_char(i) as u32;
        if up != tc {
            proof {
                assert(upper_char(s@[i as int]) != t@[i as int]) by {
                    assert(upper_char(s@[i as int]) as u32 == up);
                }
                assert(upper_seq(s@)[i as int] != t@[i as int]);
            }
            return false;
        }
        proof {
            assert(upper_char(s@[i as int]) as u32 == up);
            assert(upper_char(s@[i as int]) == t@[i as int]);
        }
        i += 1;
    }
    proof {
        assert(upper_seq(s@) =~= t@);
    }
    true
}

/// Whether `s` read lowercase equals `t`; `t` is a lowercase pattern.
pub fn eq_lower(s: &str, t: &str) -> (r: bool)
    ensures
        r == (lower_seq(s@) == t@),
{
    let n = s.unicode_len();
    if n != t.unicode_len() {
        proof {
            assert(lower_seq(s@).len() == s@.len());
        }
        return false;
    }
    let mut i: usize = 0;
    while i < n
        invariant
            i <= n,
            n == s@.len() && n == t@.len(),
            forall|j: int| 0 <= j < i ==> lower_char(s@[j]) == t@[j],
        decreases n - i,
    {
        let c = s.get_char(i) as u32;
        let low = if 65 <= c && c <= 90 {
            c + 32
        } else {
            c
        };
        let tc = t.get_char(i) as u32;
        if low != tc {
            proof {
                assert(lower_char(s@[i as int]) != t@[i as int]) by {
                    assert(lower_char(s@[i as int]) as u32 == low);
                }
                assert(lower_seq(s@)[i as int] != t@[i as int]);
            }
            return false;
        }
        proof {
            assert(lower_char(s@[i as int]) as u32 == low);
            assert(lower_char(s@[i as int]) == t@[i as int]);
        }
        i += 1;
    }
    proof {
        assert(lower_seq(s@) =~= t@);
    }
    true
}

/// The string read uppercase, folding ASCII letters only.
pub fn to_upper_string(s: &str) -> (r: String)
    ensures
        r@ == upper_seq(s@),
{
    let n = s.unicode_len();
    let mut out = String::new();
    let mut i: usize = 0;
    proof {
        assert(out@ =~= upper_seq(s@).take(0));
    }
    while i < n
        invariant
            i <= n,
            n == s@.len(),
            out@ == upper_seq(s@).take(i as int),
        decreases n - i,
    {
        let c = s.get_char(i);
        let cu = c as u32;
        let up: char = if 97 <= cu && cu <= 122 {
            ((cu - 32) as u8) as char
        } else {
            c
        };
        proof {
            assert(up == upper_char(s@[i as int]));
        }
        crate::bits::text::push_char(&mut out, up);
        proof {
            assert(out@ =~= upper_seq(s@).take(i + 1));
        }
        i += 1;
    }
    proof {
        assert(upper_seq(s@).take(n as int) =~= upper_seq(s@));
    }
    out
}

/// Whether two strings hold the same characters.
pub fn str_eq(s: &str, t: &str) -> (r: bool)
    ensures
        r == (s@ == t@),
{
    let n = s.unicode_len();
    if n != t.unicode_len() {
        return false;
    }
    let mut i: usize = 0;
    while i < n
        invariant
            i <= n,
            n == s@.len() && n == t@.len(),
            forall|j: int| 0 <= j < i ==> s@[j] == t@[j],
        decreases n - i,
    {
        if s.get_char(i) != t.get_char(i) {
            return false;
        }
        i += 1;
    }
    proof {
        assert(s@ =~= t@);
    }
    true
}

/// Label text: it begins with a dot.
pub open spec fn spec_is_label(t: Seq<char>) -> bool {
    t.len() > 0 && t[0] == '.'
}

/// A label line: it begins with a dot.
pub fn is_label(line: &str) -> (r: bool)
    ensures
        r == spec_is_label(line@),
{
    line.unicode_len() > 0 && line.get_char(0) == '.'
}

/// Definition text: it begins with the word `define` in any case.
pub open spec fn spec_is_definition(t: Seq<char>) -> bool {
    t.len() >= 6 && lower_seq(t.subrange(0, 6)) == "define"@
}

/// A definition line: it begins with the word `define` in any case.
pub fn is_definition(line: &str) -> (r: bool)
    ensures
        r == spec_is_definition(line@),
{
    proof {
        reveal_strlit("define");
    }
    if line.unicode_len() < 6 {
        return false;
    }
    let head = line.substring_char(0, 6);
    eq_lower(head, "define")
}

/// Comment text: it begins with two slashes or a hash.
pub open spec fn spec_is_comment(t: Seq<char>) -> bool {
    (t.len() >= 2 && t[0] == '/' && t[1] == '/') || (t.len() >= 1 && t[0] == '#')
}

/// A comment line: it begins with two slashes or a hash.
pub fn is_comment(line: &str) -> (r: bool)
    ensures
        r == spec_is_comment(line@),
{
    let n = line.unicode_len();
    if n >= 1 && line.get_char(0) == '#' {
        return true;
    }
    n >= 2 && line.get_char(0) == '/' && line.get_char(1) == '/'
}

/// What reading a register operand returns: anything without the `r` prefix,
/// shorter than two characters, or with a negative number is refused, and the
/// rest of the text is read as a 4-bit number.
pub open spec fn spec_register_rel(t: Seq<char>, r: Result<Bits<4>, VmError>) -> bool {
    if t.len() < 2 || t[0] != 'r' || t[1] == '-' {
        r matches Err(VmError::Parser(ParserError::InvalidInstruction(m))) && m@ == t
    } else {
        spec_from_str::<4>(t.skip(1), r)
    }
}

/// Reads a register operand `r<N>`.
pub fn parse_register_string(s: &str) -> (r: Result<Bits<4>, VmError>)
    ensures
        spec_register_rel(s@, r),
{
    let n = s.unicode_len();
    if n < 2 || s.get_char(0) != 'r' || s.get_char(1) == '-' {
        return Err(VmError::Parser(ParserError::InvalidInstruction(s.to_owned())));
    }
    let digits = s.substring_char(1, n);
    proof {
        assert(digits@ =~= s@.skip(1));
        lemma2_to64();
    }
    Bits::<4>::from_str(digits)
}

/// The opcode of a mnemonic, in the fixed table: NOP 0, HLT 1, ADD 2, SUB 3,
/// NOR 4, AND 5, XOR 6, RSH 7, LDI 8, ADI 9, JMP 10, BRH 11, CAL 12, RET 13,
/// LOD 14, STR 15; anything else is no instruction.
pub open spec fn spec_mnemonic_opcode(t: Seq<char>) -> Option<nat> {
    let u = upper_seq(t);
    if u == "NOP"@ {
        Some(0nat)
    } else if u == "HLT"@ {
        Some(1nat)
    } else if u == "ADD"@ {
        Some(2nat)
    } else if u == "SUB"@ {
        Some(3nat)
    } else if u == "NOR"@ {
        Some(4nat)
    } else if u == "AND"@ {
        Some(5nat)
    } else if u == "XOR"@ {
        Some(6nat)
    } else if u == "RSH"@ {
        Some(7nat)
    } else if u == "LDI"@ {
        Some(8nat)
    } else if u == "ADI"@ {
        Some(9nat)
    } else if u == "JMP"@ {
        Some(10nat)
    } else if u == "BRH"@ {
        Some(11nat)
    } else if u == "CAL"@ {
        Some(12nat)
    } else if u == "RET"@ {
        Some(13nat)
    } else if u == "LOD"@ {
        Some(14nat)
    } else if u == "STR"@ {
        Some(15nat)
    } else {
        None
    }
}

/// What reading a mnemonic returns: its 4-bit opcode, or the unknown text.
pub open spec fn spec_instruction_rel(t: Seq<char>, r: Result<Bits<4>, VmError>) -> bool {
    match spec_mnemonic_opcode(t) {
        Some(v) => r matches Ok(b) && b.value() == v,
        None => (r matches Err(VmError::Parser(ParserError::InvalidInstruction(m))) && m@ == t),
    }
}

/// Reads a mnemonic, in any case, into its 4-bit opcode.
pub fn parse_instruction(instruction: &str) -> (r: Result<Bits<4>, VmError>)
    ensures
        spec_instruction_rel(instruction@, r),
{
    proof {
        reveal_strlit("NOP");
        reveal_strlit("HLT");
        reveal_strlit("ADD");
        reveal_strlit("SUB");
        reveal_strlit("NOR");
        reveal_strlit("AND");
        reveal_strlit("XOR");
        reveal_strlit("RSH");
        reveal_strlit("LDI");
        reveal_strlit("ADI");
        reveal_strlit("JMP");
        reveal_strlit("BRH");
        reveal_strlit("CAL");
        reveal_strlit("RET");
        reveal_strlit("LOD");
        reveal_strlit("STR");
        lemma2_to64();
    }
    let code: u64 = if eq_upper(instruction, "NOP") {
        0
    } else if eq_upper(instruction, "HLT") {
        1
    } else if eq_upper(instruction, "ADD") {
        2
    } else if eq_upper(instruction, "SUB") {
        3
    } else if eq_upper(instruction, "NOR") {
        4
    } else if eq_upper(instruction, "AND") {
        5
    } else if eq_upper(instruction, "XOR") {
        6
    } else if eq_upper(instruction, "RSH") {
        7
    } else if eq_upper(instruction, "LDI") {
        8
    } else if eq_upper(instruction, "ADI") {
        9
    } else if eq_upper(instruction, "JMP") {
        10
    } else if eq_upper(instruction, "BRH") {
        11
    } else if eq_upper(instruction, "CAL") {
        12
    } else if eq_upper(instruction, "RET") {
        13
    } else if eq_upper(instruction, "LOD") {
        14
    } else if eq_upper(instruction, "STR") {
        15
    } else {
        return Err(VmError::Parser(ParserError::InvalidInstruction(instruction.to_owned())));
    };
    Ok(Bits::<4>::from_unsigned_truncated(code))
}

/// The condition code of a symbolic branch condition: zero 0, not zero 1,
/// carry 2, not carry 3; anything else is no condition.
pub open spec fn spec_cond_code(t: Seq<char>) -> Option<nat> {
    let u = lower_seq(t);
    if u == "="@ || u == "eq"@ || u == "z"@ || u == "zero"@ {
        Some(0nat)
    } else if u == "!="@ || u == "ne"@ || u == "nz"@ || u == "notzero"@ {
        Some(1nat)
    } else if u == ">="@ || u == "ge"@ || u == "c"@ || u == "carry"@ {
        Some(2nat)
    } else if u == "<"@ || u == "lt"@ || u == "nc"@ || u == "notcarry"@ {
        Some(3nat)
    } else {
        None
    }
}

/// Reads a branch condition, in any case, into its 2-bit code.
pub fn parse_cond(a: &str) -> (r: Result<Bits<2>, VmError>)
    ensures
        ({
            match spec_cond_code(a@) {
                Some(v) => r matches Ok(b) && b.value() == v,
                None => (r matches Err(VmError::Parser(ParserError::InvalidInstruction(m))) && m@
                    == a@),
            }
        }),
{
    proof {
        reveal_strlit("=");
        reveal_strlit("eq");
        reveal_strlit("z");
        reveal_strlit("zero");
        reveal_strlit("!=");
        reveal_strlit("ne");
        reveal_strlit("nz");
        reveal_strlit("notzero");
        reveal_strlit(">=");
        reveal_strlit("ge");
        reveal_strlit("c");
        reveal_strlit("carry");
        reveal_strlit("<");
        reveal_strlit("lt");
        reveal_strlit("nc");
        reveal_strlit("notcarry");
        lemma2_to64();
    }
    let code: u64 = if eq_lower(a, "=") || eq_lower(a, "eq") || eq_lower(a, "z") || eq_lower(
        a,
        "zero",
    ) {
        0
    } else if eq_lower(a, "!=") || eq_lower(a, "ne") || eq_lower(a, "nz") || eq_lower(
        a,
        "notzero",
    ) {
        1
    } else if eq_lower(a, ">=") || eq_lower(a, "ge") || eq_lower(a, "c") || eq_lower(a, "carry") {
        2
    } else if eq_lower(a, "<") || eq_lower(a, "lt") || eq_lower(a, "nc") || eq_lower(
        a,
        "notcarry",
    ) {
        3
    } else {
        return Err(VmError::Parser(ParserError::InvalidInstruction(a.to_owned())));
    };
    Ok(Bits::<2>::from_unsigned_truncated(code))
}

/// The value bound to `key`, scanning the newest binding first.
pub open spec fn spec_lookup<V>(m: Seq<(String, V)>, key: Seq<char>) -> Option<V>
    decreases m.len(),
{
    if m.len() == 0 {
        None
    } else if m.last().0@ == key {
        Some(m.last().1)
    } else {
        spec_lookup(m.drop_last(), key)
    }
}

/// Looks `key` up among the label bindings, newest first.
pub fn lookup_address(m: &Vec<(String, Bits<10>)>, key: &str) -> (r: Option<Bits<10>>)
    ensures
        r == spec_lookup(m@, key@),
{
    let mut i: usize = m.len();
    proof {
        assert(m@.take(m@.len() as int) =~= m@);
    }
    while i > 0
        invariant
            i <= m@.len(),
            spec_lookup(m@, key@) == spec_lookup(m@.take(i as int), key@),
        decreases i,
    {
        i -= 1;
        proof {
            assert(m@.take(i + 1).last() == m@[i as int]);
            assert(m@.take(i + 1).drop_last() =~= m@.take(i as int));
        }
        if str_eq(m[i].0.as_str(), key) {
            return Some(m[i].1);
        }
    }
    proof {
        assert(m@.take(0).len() == 0);
    }
    None
}

/// Looks `key` up among the definition bindings, newest first.
pub fn lookup_symbol(m: &Vec<(String, Bits<8>)>, key: &str) -> (r: Option<Bits<8>>)
    ensures
        r == spec_lookup(m@, key@),
{
    let mut i: usize = m.len();
    proof {
        assert(m@.take(m@.len() as int) =~= m@);
    }
    while i > 0
        invariant
            i <= m@.len(),
            spec_lookup(m@, key@) == spec_lookup(m@.take(i as int), key@),
        decreases i,
    {
        i -= 1;
        proof {
            assert(m@.take(i + 1).last() == m@[i as int]);
            assert(m@.take(i + 1).drop_last() =~= m@.take(i as int));
        }
        if str_eq(m[i].0.as_str(), key) {
            return Some(m[i].1);
        }
    }
    proof {
        assert(m@.take(0).len() == 0);
    }
    None
}

/// Reads a jump or branch target: a `.label` is resolved against the label
/// bindings, anything else is read as a 10-bit number.
pub fn parse_address(addr: &str, labels: &Vec<(String, Bits<10>)>) -> (r: Result<
    Bits<10>,
    VmError,
>)
    ensures
        addr@.len() > 0 && addr@[0] == '.' ==> ({
            match spec_lookup(labels@, addr@) {
                Some(b) => r == Ok::<Bits<10>, VmError>(b),
                None => (r matches Err(VmError::Parser(ParserError::UndefinedLabel(m))) && m@
                    == addr@),
            }
        }),
        !(addr@.len() > 0 && addr@[0] == '.') ==> spec_from_str::<10>(addr@, r),
{
    if addr.unicode_len() > 0 && addr.get_char(0) == '.' {
        match lookup_address(labels, addr) {
            Some(b) => Ok(b),
            None => Err(VmError::Parser(ParserError::UndefinedLabel(addr.to_owned()))),
        }
    } else {
        proof {
            lemma2_to64();
        }
        Bits::<10>::from_str(addr)
    }
}

} // verus!
